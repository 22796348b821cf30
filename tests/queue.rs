use tilemap_render::extract::ExtractedTilemap;
use tilemap_render::noise::{NoisePipelineKey, NoiseType};
use tilemap_render::queue::{depth_sort_key, queue_tilemaps, TilemapPipelineKey};
use tilemap_render::tilemap::{TilemapAnimation, UVec2};

fn tilemap(z: f32, has_texture: bool) -> ExtractedTilemap {
    ExtractedTilemap {
        size: UVec2 { x: 1, y: 1 },
        sort_key: depth_sort_key(z.to_bits()),
        has_texture,
        animation: TilemapAnimation::new(),
    }
}

#[test]
fn depth_keys_follow_depth_order() {
    let depths = [f32::NEG_INFINITY, -100.5, -1.0, -0.0, 0.0, 0.25, 1.0, 3.5e7, f32::INFINITY];
    for w in depths.windows(2) {
        assert!(depth_sort_key(w[0].to_bits()) < depth_sort_key(w[1].to_bits()));
    }
}

#[test]
fn depth_key_exact_values() {
    assert_eq!(depth_sort_key(0.0f32.to_bits()), 0x8000_0000);
    assert_eq!(depth_sort_key(1.0f32.to_bits()), 0xbf80_0000);
    assert_eq!(depth_sort_key((-1.0f32).to_bits()), 0x407f_ffff);
}

#[test]
fn queue_sorts_by_depth_stably() {
    let tilemaps = vec![
        (1u64, tilemap(2.0, true)),
        (2u64, tilemap(-1.0, false)),
        (3u64, tilemap(2.0, false)),
        (4u64, tilemap(0.5, true)),
        (5u64, tilemap(-1.0, true)),
    ];
    let items = queue_tilemaps(&tilemaps, 4);
    let order: Vec<u64> = items.iter().map(|i| i.entity).collect();
    assert_eq!(order, vec![2, 5, 4, 1, 3]);
    for w in items.windows(2) {
        assert!(w[0].sort_key <= w[1].sort_key);
    }
    assert_eq!(items[0].pipeline, TilemapPipelineKey { msaa_sample_count: 4, has_texture: false });
    assert_eq!(items[1].pipeline, TilemapPipelineKey { msaa_sample_count: 4, has_texture: true });
}

#[test]
fn queue_of_no_tilemaps_is_empty() {
    assert!(queue_tilemaps(&vec![], 1).is_empty());
}

#[test]
fn tilemap_shader_defs() {
    let textured = TilemapPipelineKey { msaa_sample_count: 1, has_texture: true };
    assert_eq!(textured.shader_defs(), vec!["TEXTURED_TILEMAP".to_string()]);
    let plain = TilemapPipelineKey { msaa_sample_count: 4, has_texture: false };
    assert!(plain.shader_defs().is_empty());
}

#[test]
fn noise_shader_defs() {
    let k = NoisePipelineKey { ty: NoiseType::Perlin, enable_fbm: true, enable_domain_warp: true };
    assert_eq!(k.shader_defs(), vec!["PERLIN", "FBM", "DOMAIN_WARP"]);
    let k = NoisePipelineKey { ty: NoiseType::Value, enable_fbm: false, enable_domain_warp: true };
    assert_eq!(k.shader_defs(), vec!["VALUE", "DOMAIN_WARP"]);
    let k = NoisePipelineKey { ty: NoiseType::Simplex, enable_fbm: false, enable_domain_warp: false };
    assert_eq!(k.shader_defs(), vec!["SIMPLEX"]);
}
