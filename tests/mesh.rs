use tilemap_render::bind::{prepare_tilemap_bind_groups, TilemapAnimationBuffers};
use tilemap_render::extract::{extract_tile, extract_tilemap, ExtractedTile, ExtractedTilemap};
use tilemap_render::mesh::{
    build_mesh, has_built_mesh, prepare_tilemap_meshes, DrawCall, DrawTilemapMesh, MeshTile, TilemapMesh,
    TilemapMeshes,
};
use tilemap_render::tilemap::{
    IVec2, Tile, TileTexture, TilemapAnimation, TilemapStorage, Tint, UVec2,
};

const RED: Tint = Tint { r: 0x3f80_0000, g: 0, b: 0, a: 0x3f80_0000 };
const GREEN: Tint = Tint { r: 0, g: 0x3f80_0000, b: 0, a: 0x3f80_0000 };

fn tile(x: u32, y: u32, tex: i32, tint: Tint) -> MeshTile {
    MeshTile { index: UVec2 { x, y }, texture_index: IVec2 { x: tex, y: -1 }, tint }
}

fn tilemap(w: u32, h: u32, has_texture: bool, sort_key: u32) -> ExtractedTilemap {
    ExtractedTilemap {
        size: UVec2 { x: w, y: h },
        sort_key,
        has_texture,
        animation: TilemapAnimation::new(),
    }
}

#[test]
fn build_emits_quads_in_slot_order() {
    let tiles = vec![Some(tile(0, 0, 1, RED)), None, Some(tile(0, 1, 2, GREEN))];
    let b = build_mesh(&tiles);
    assert_eq!(b.vertex_count(), 8);
    assert_eq!(b.index_count(), 12);
    assert_eq!(b.vertex_indices, vec![0, 1, 2, 2, 3, 0, 4, 5, 6, 6, 7, 4]);
    assert_eq!(b.indices[0..4], [UVec2 { x: 0, y: 0 }; 4]);
    assert_eq!(b.indices[4..8], [UVec2 { x: 0, y: 1 }; 4]);
    assert_eq!(b.tints[0..4], [RED; 4]);
    assert_eq!(b.tints[4..8], [GREEN; 4]);
    assert_eq!(b.texture_indices[0..4], [IVec2 { x: 1, y: -1 }; 4]);
    assert_eq!(b.texture_indices[4..8], [IVec2 { x: 2, y: -1 }; 4]);
}

#[test]
fn build_gives_every_vertex_a_texture_index() {
    let tiles = vec![Some(tile(1, 0, 1, RED)), Some(tile(0, 0, 3, RED))];
    let b = build_mesh(&tiles);
    assert_eq!(b.vertex_count(), 8);
    assert_eq!(b.texture_indices.len(), 8);
    assert_eq!(b.texture_indices[7], IVec2 { x: 3, y: -1 });
}

#[test]
fn build_of_empty_tiles_is_empty() {
    let b = build_mesh(&vec![None, None, None]);
    assert_eq!(b.vertex_count(), 0);
    assert_eq!(b.index_count(), 0);
}

#[test]
fn new_mesh_is_dirty_and_unbuilt() {
    let m = TilemapMesh::new(UVec2 { x: 3, y: 2 }, true);
    assert!(m.is_dirty);
    assert!(m.is_textured);
    assert!(m.buffers.is_none());
    assert_eq!(m.tiles.len(), 6);
    assert!(m.tiles.iter().all(|t| t.is_none()));
}

#[test]
fn rebuild_is_idempotent() {
    let mut m = TilemapMesh::new(UVec2 { x: 2, y: 2 }, true);
    m.place(3, tile(1, 1, 4, RED));
    assert!(m.rebuild());
    let first = m.buffers.as_ref().unwrap().vertex_indices.clone();
    let first_idx = m.buffers.as_ref().unwrap().indices.clone();
    assert!(!m.rebuild());
    assert_eq!(m.buffers.as_ref().unwrap().vertex_indices, first);
    m.is_dirty = true;
    assert!(m.rebuild());
    assert_eq!(m.buffers.as_ref().unwrap().vertex_indices, first);
    assert_eq!(m.buffers.as_ref().unwrap().indices, first_idx);
}

#[test]
fn place_out_of_range_marks_dirty_only() {
    let mut m = TilemapMesh::new(UVec2 { x: 1, y: 1 }, false);
    m.rebuild();
    m.place(5, tile(0, 0, 0, RED));
    assert!(m.is_dirty);
    assert_eq!(m.tiles, vec![None]);
}

#[test]
fn prepare_meshes_places_and_rebuilds() {
    let tilemaps = vec![(10u64, tilemap(2, 2, true, 0)), (20u64, tilemap(1, 1, false, 0))];
    let mut meshes = TilemapMeshes::new();
    let tiles = vec![
        ExtractedTile { tilemap: 10, index: UVec2 { x: 1, y: 1 }, texture: TileTexture::Static(2), tint: RED },
        ExtractedTile { tilemap: 99, index: UVec2 { x: 0, y: 0 }, texture: TileTexture::Static(2), tint: RED },
        ExtractedTile { tilemap: 10, index: UVec2 { x: 0, y: 0 }, texture: TileTexture::Static(1), tint: GREEN },
    ];
    let rebuilt = prepare_tilemap_meshes(&tilemaps, &mut meshes, &tiles);
    assert_eq!(rebuilt, vec![10]);
    assert_eq!(meshes.meshes.len(), 1);
    let (key, mesh) = &meshes.meshes[0];
    assert_eq!(*key, 10);
    assert!(!mesh.is_dirty);
    let b = mesh.buffers.as_ref().unwrap();
    assert_eq!(b.vertex_count(), 8);
    assert_eq!(b.indices[0], UVec2 { x: 0, y: 0 });
    assert_eq!(b.indices[4], UVec2 { x: 1, y: 1 });
    assert_eq!(b.texture_indices[0], IVec2 { x: 1, y: -1 });
    assert_eq!(b.texture_indices[4], IVec2 { x: 2, y: -1 });

    let again = prepare_tilemap_meshes(&tilemaps, &mut meshes, &vec![]);
    assert!(again.is_empty());
}

#[test]
fn prepare_meshes_last_tile_wins_in_a_frame() {
    let tilemaps = vec![(1u64, tilemap(2, 1, true, 0))];
    let mut meshes = TilemapMeshes::new();
    let tiles = vec![
        ExtractedTile { tilemap: 1, index: UVec2 { x: 1, y: 0 }, texture: TileTexture::Static(3), tint: RED },
        ExtractedTile { tilemap: 1, index: UVec2 { x: 1, y: 0 }, texture: TileTexture::Static(4), tint: GREEN },
    ];
    prepare_tilemap_meshes(&tilemaps, &mut meshes, &tiles);
    let b = meshes.meshes[0].1.buffers.as_ref().unwrap();
    assert_eq!(b.vertex_count(), 4);
    assert_eq!(b.texture_indices[0], IVec2 { x: 4, y: -1 });
    assert_eq!(b.tints[0], GREEN);
}

#[test]
fn draw_counts_of_built_mesh() {
    let tilemaps = vec![(5u64, tilemap(3, 1, false, 0))];
    let mut meshes = TilemapMeshes::new();
    assert!(!has_built_mesh(&meshes, 5));
    let tiles = vec![
        ExtractedTile { tilemap: 5, index: UVec2 { x: 0, y: 0 }, texture: TileTexture::Static(0), tint: RED },
        ExtractedTile { tilemap: 5, index: UVec2 { x: 2, y: 0 }, texture: TileTexture::Static(0), tint: RED },
    ];
    prepare_tilemap_meshes(&tilemaps, &mut meshes, &tiles);
    assert!(has_built_mesh(&meshes, 5));
    assert!(!has_built_mesh(&meshes, 6));
    assert_eq!(
        DrawTilemapMesh::render(&meshes, 5),
        DrawCall { vertex_count: 8, index_count: 12 }
    );
}

#[test]
fn extract_copies_state() {
    let mut storage = TilemapStorage::new(UVec2 { x: 4, y: 2 });
    storage.set(UVec2 { x: 0, y: 0 }, 3);
    let mut anim = TilemapAnimation::new();
    anim.add_animation(vec![1, 2], 5);
    let e = extract_tilemap(&storage, &anim, true, 42);
    assert_eq!(e.size, UVec2 { x: 4, y: 2 });
    assert_eq!(e.animation.buffer(), &vec![5, 1, 2]);
    assert!(e.has_texture);
    assert_eq!(e.sort_key, 42);

    let t = Tile { tilemap: 8, texture: TileTexture::Static(6), tint: RED };
    let et = extract_tile(&t, UVec2 { x: 1, y: 1 });
    assert_eq!(et.tilemap, 8);
    assert_eq!(et.index, UVec2 { x: 1, y: 1 });
    assert_eq!(et.texture.texture_index(), IVec2 { x: 6, y: -1 });
}

#[test]
fn bind_groups_stage_animation_tables() {
    let mut a = TilemapAnimation::new();
    a.add_animation(vec![0, 1], 10);
    let mut b = TilemapAnimation::new();
    b.add_animation(vec![7], 3);
    let tilemaps = vec![
        (1u64, ExtractedTilemap { size: UVec2 { x: 1, y: 1 }, sort_key: 0, has_texture: true, animation: a }),
        (2u64, ExtractedTilemap { size: UVec2 { x: 1, y: 1 }, sort_key: 0, has_texture: true, animation: b }),
    ];
    let mut buffers = TilemapAnimationBuffers::new();
    prepare_tilemap_bind_groups(&tilemaps, &mut buffers);
    assert_eq!(buffers.buffers, vec![(1, vec![10, 0, 1]), (2, vec![3, 7])]);

    prepare_tilemap_bind_groups(&tilemaps, &mut buffers);
    assert_eq!(buffers.buffers, vec![(1, vec![10, 0, 1]), (2, vec![3, 7])]);

    let only_second = vec![(2u64, ExtractedTilemap {
        size: UVec2 { x: 1, y: 1 },
        sort_key: 0,
        has_texture: true,
        animation: TilemapAnimation::new(),
    })];
    prepare_tilemap_bind_groups(&only_second, &mut buffers);
    assert_eq!(buffers.buffers, vec![(1, vec![]), (2, vec![])]);
}

#[test]
fn unbuilt_record_has_no_mesh_to_draw() {
    let mut meshes = TilemapMeshes::new();
    meshes.meshes.push((3, TilemapMesh::new(UVec2 { x: 1, y: 1 }, false)));
    assert!(!has_built_mesh(&meshes, 3));
    meshes.meshes[0].1.rebuild();
    assert!(has_built_mesh(&meshes, 3));
    assert_eq!(DrawTilemapMesh::render(&meshes, 3), DrawCall { vertex_count: 0, index_count: 0 });
}
