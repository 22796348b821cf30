//! The render-side snapshot of tilemaps and tiles, copied from the
//! authoritative state once per frame.

use vstd::prelude::*;

use crate::tilemap::{Tile, TileTexture, TilemapAnimation, TilemapStorage, Tint, UVec2};

verus! {

/// A tilemap as the render stages see it.
pub struct ExtractedTilemap {
    /// Width (`x`) and height (`y`) of the grid.
    pub size: UVec2,
    /// Order key of the tilemap's depth: a smaller key is drawn first.
    pub sort_key: u32,
    /// Whether the tilemap has a texture atlas.
    pub has_texture: bool,
    pub animation: TilemapAnimation,
}

/// A tile that changed, as the render stages see it.
#[derive(Clone, Copy, Debug)]
pub struct ExtractedTile {
    pub tilemap: u64,
    pub index: UVec2,
    pub texture: TileTexture,
    pub tint: Tint,
}

/// The snapshot of one tilemap: its grid size, a copy of its animation
/// table, whether it is textured, and its depth order key.
pub fn extract_tilemap(
    storage: &TilemapStorage,
    animation: &TilemapAnimation,
    has_texture: bool,
    sort_key: u32,
) -> (r: ExtractedTilemap)
    ensures
        r.size == storage.size_spec(),
        r.animation@ == animation@,
        r.has_texture == has_texture,
        r.sort_key == sort_key,
{
    ExtractedTilemap {
        size: storage.size(),
        sort_key,
        has_texture,
        animation: animation.clone(),
    }
}

/// The snapshot of one tile placed at cell `index`.
pub fn extract_tile(tile: &Tile, index: UVec2) -> (r: ExtractedTile)
    ensures
        r == (ExtractedTile { tilemap: tile.tilemap, index, texture: tile.texture, tint: tile.tint }),
{
    ExtractedTile { tilemap: tile.tilemap, index, texture: tile.texture, tint: tile.tint }
}

} // verus!
