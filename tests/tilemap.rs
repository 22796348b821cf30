use tilemap_render::tilemap::{
    IVec2, Tile, TileAnimation, TileTexture, TilemapAnimation, TilemapStorage, Tint, UVec2,
};

#[test]
fn add_animation_returns_start_and_length() {
    let mut anim = TilemapAnimation::default();
    let h = anim.add_animation(vec![0, 1, 2, 3], 10);
    assert_eq!(h.start(), 0);
    assert_eq!(h.length(), 3);
    assert_eq!(anim.buffer(), &vec![10, 0, 1, 2, 3]);
}

#[test]
fn add_animation_keeps_earlier_handles() {
    let mut anim = TilemapAnimation::new();
    let first = anim.add_animation(vec![4, 5], 12);
    let record_before: Vec<u32> = anim.buffer()
        [first.start() as usize..(first.start() + first.length() + 2) as usize]
        .to_vec();
    let second = anim.add_animation(vec![7, 8, 9], 30);
    assert_eq!(first.start(), 0);
    assert_eq!(first.length(), 1);
    assert_eq!(second.start(), 3);
    assert_eq!(second.length(), 2);
    let record_after: Vec<u32> = anim.buffer()
        [first.start() as usize..(first.start() + first.length() + 2) as usize]
        .to_vec();
    assert_eq!(record_before, record_after);
    assert_eq!(record_after, vec![12, 4, 5]);
    assert_eq!(anim.buffer(), &vec![12, 4, 5, 30, 7, 8, 9]);
}

#[test]
fn add_animation_single_frame() {
    let mut anim = TilemapAnimation::new();
    let h = anim.add_animation(vec![6], 1);
    assert_eq!(h.start(), 0);
    assert_eq!(h.length(), 0);
    assert_eq!(anim.buffer(), &vec![1, 6]);
}

#[test]
fn new_storage_is_empty() {
    let storage = TilemapStorage::new(UVec2 { x: 16, y: 16 });
    assert_eq!(storage.size(), UVec2 { x: 16, y: 16 });
    for x in 0..16 {
        for y in 0..16 {
            assert_eq!(storage.get(UVec2 { x, y }), None);
        }
    }
}

#[test]
fn set_places_at_row_major_slot() {
    let mut storage = TilemapStorage::new(UVec2 { x: 3, y: 2 });
    storage.set(UVec2 { x: 2, y: 1 }, 77);
    assert_eq!(storage.get(UVec2 { x: 2, y: 1 }), Some(77));
    assert_eq!(storage.get(UVec2 { x: 1, y: 2 - 1 }), None);
    assert_eq!(storage.get(UVec2 { x: 0, y: 0 }), None);
}

#[test]
fn last_set_wins_per_cell() {
    let mut storage = TilemapStorage::new(UVec2 { x: 4, y: 4 });
    storage.set(UVec2 { x: 1, y: 1 }, 1);
    storage.set(UVec2 { x: 2, y: 3 }, 2);
    storage.set(UVec2 { x: 1, y: 1 }, 3);
    storage.set(UVec2 { x: 0, y: 0 }, 4);
    storage.set(UVec2 { x: 1, y: 1 }, 5);
    assert_eq!(storage.get(UVec2 { x: 1, y: 1 }), Some(5));
    assert_eq!(storage.get(UVec2 { x: 2, y: 3 }), Some(2));
    assert_eq!(storage.get(UVec2 { x: 0, y: 0 }), Some(4));
    assert_eq!(storage.get(UVec2 { x: 3, y: 3 }), None);
}

#[test]
fn static_texture_index() {
    assert_eq!(TileTexture::Static(2).texture_index(), IVec2 { x: 2, y: -1 });
    assert_eq!(TileTexture::Static(0).texture_index(), IVec2 { x: 0, y: -1 });
}

#[test]
fn animated_texture_index() {
    let mut anim = TilemapAnimation::new();
    anim.add_animation(vec![1, 2], 8);
    let h = anim.add_animation(vec![0, 1, 2, 3], 10);
    let t = TileTexture::Animated(h);
    assert_eq!(t.texture_index(), IVec2 { x: 3, y: 3 });
    assert!(t.texture_index().y >= 0);
}

fn decode(v: IVec2) -> TileTexture {
    if v.y == -1 {
        TileTexture::Static(v.x as u32)
    } else {
        TileTexture::Animated(TileAnimation { start: v.x as u32, length: v.y as u32 })
    }
}

#[test]
fn texture_index_round_trips() {
    let mut anim = TilemapAnimation::new();
    anim.add_animation(vec![1], 2);
    let h = anim.add_animation(vec![9, 9, 9], 24);
    let cases = [
        TileTexture::Static(5),
        TileTexture::Animated(h),
        TileTexture::Static(u32::MAX),
        TileTexture::Animated(TileAnimation { start: 0x7fff_fff0, length: 0x7fff_ffff }),
        TileTexture::Animated(TileAnimation { start: 7, length: 0 }),
    ];
    for t in cases {
        let v = t.texture_index();
        assert_eq!(decode(v), t);
        assert_eq!(v.y == -1, matches!(t, TileTexture::Static(_)));
        if let TileTexture::Animated(_) = t {
            assert!(v.y >= 0);
        }
    }
    assert_eq!(decode(TileTexture::Animated(h).texture_index()), TileTexture::Animated(TileAnimation { start: 2, length: 2 }));
}

#[test]
fn tile_carries_its_parts() {
    let tint = Tint { r: 1, g: 2, b: 3, a: 4 };
    let tile = Tile { tilemap: 9, texture: TileTexture::Static(1), tint };
    assert_eq!(tile.tilemap, 9);
    assert_eq!(tile.tint, tint);
}
