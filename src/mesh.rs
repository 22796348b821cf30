//! Per-tilemap mesh records on the render side, and the rebuild that turns
//! a sparse tile array into packed vertex and index data.

use vstd::prelude::*;

use crate::entity::{find_entry, find_key, keys_unique};
use crate::extract::{ExtractedTile, ExtractedTilemap};
use crate::tilemap::{texture_index_of, IVec2, Tint, UVec2};

verus! {

/// Bound on the number of cells of a tilemap mesh: each tile takes four
/// vertices and six vertex indices, counted and numbered with `u32`.
pub const MAX_MESH_TILES: usize = 0x2000_0000;

/// One tile as the mesh sees it: its cell, its texture index and its tint.
#[derive(Clone, Copy, PartialEq, Eq, Structural, Debug)]
pub struct MeshTile {
    pub index: UVec2,
    pub texture_index: IVec2,
    pub tint: Tint,
}

/// The packed data of a built mesh. Each populated tile adds four vertices
/// (one entry each to `indices`, `tints` and `texture_indices`) and six
/// vertex indices, two triangles `0 1 2, 2 3 0`.
/// Vertex positions are all zero: the shader places each vertex from its
/// cell index.
pub struct MeshBuffers {
    pub indices: Vec<UVec2>,
    pub tints: Vec<Tint>,
    pub texture_indices: Vec<IVec2>,
    pub vertex_indices: Vec<u32>,
}

/// The contents of `MeshBuffers`.
pub struct MeshData {
    pub indices: Seq<UVec2>,
    pub tints: Seq<Tint>,
    pub texture_indices: Seq<IVec2>,
    pub vertex_indices: Seq<u32>,
}

impl View for MeshBuffers {
    type V = MeshData;

    open spec fn view(&self) -> MeshData {
        MeshData {
            indices: self.indices@,
            tints: self.tints@,
            texture_indices: self.texture_indices@,
            vertex_indices: self.vertex_indices@,
        }
    }
}

impl MeshBuffers {
    /// Number of vertices of the mesh.
    pub fn vertex_count(&self) -> (r: usize)
        ensures
            r == self@.indices.len(),
    {
        self.indices.len()
    }

    /// Number of vertex indices of the mesh.
    pub fn index_count(&self) -> (r: usize)
        ensures
            r == self@.vertex_indices.len(),
    {
        self.vertex_indices.len()
    }
}

pub open spec fn empty_mesh_data() -> MeshData {
    MeshData {
        indices: Seq::empty(),
        tints: Seq::empty(),
        texture_indices: Seq::empty(),
        vertex_indices: Seq::empty(),
    }
}

/// The six vertex indices of the quad whose first vertex is `base`.
pub open spec fn quad(base: int) -> Seq<u32> {
    seq![base as u32, (base + 1) as u32, (base + 2) as u32, (base + 2) as u32, (base + 3) as u32, base as u32]
}

/// `d` with the quad of one more tile added.
pub open spec fn push_tile(d: MeshData, t: MeshTile) -> MeshData {
    MeshData {
        indices: d.indices + seq![t.index, t.index, t.index, t.index],
        tints: d.tints + seq![t.tint, t.tint, t.tint, t.tint],
        texture_indices: d.texture_indices + seq![
            t.texture_index,
            t.texture_index,
            t.texture_index,
            t.texture_index,
        ],
        vertex_indices: d.vertex_indices + quad(d.indices.len() as int),
    }
}

/// The mesh data built from a sparse tile array: the populated slots in
/// slot order, empty slots skipped.
pub open spec fn build_of(tiles: Seq<Option<MeshTile>>) -> MeshData
    decreases tiles.len(),
{
    if tiles.len() == 0 {
        empty_mesh_data()
    } else {
        let prev = build_of(tiles.drop_last());
        match tiles.last() {
            Some(t) => push_tile(prev, t),
            None => prev,
        }
    }
}

/// Each slot adds at most four vertices, and each four vertices come with
/// six vertex indices.
pub proof fn lemma_build_len(tiles: Seq<Option<MeshTile>>)
    ensures
        build_of(tiles).indices.len() <= 4 * tiles.len(),
        2 * build_of(tiles).vertex_indices.len() == 3 * build_of(tiles).indices.len(),
    decreases tiles.len(),
{
    if tiles.len() > 0 {
        lemma_build_len(tiles.drop_last());
    }
}

/// Builds the packed mesh data of a sparse tile array.
pub fn build_mesh(tiles: &Vec<Option<MeshTile>>) -> (r: MeshBuffers)
    requires
        tiles@.len() < MAX_MESH_TILES,
    ensures
        r@ == build_of(tiles@),
{
    let mut indices: Vec<UVec2> = Vec::new();
    let mut tints: Vec<Tint> = Vec::new();
    let mut texture_indices: Vec<IVec2> = Vec::new();
    let mut vertex_indices: Vec<u32> = Vec::new();
    let mut v_index: u32 = 0;
    let mut i: usize = 0;
    while i < tiles.len()
        invariant
            i <= tiles@.len(),
            tiles@.len() < MAX_MESH_TILES,
            v_index == indices@.len(),
            indices@.len() <= 4 * i,
            (MeshData {
                indices: indices@,
                tints: tints@,
                texture_indices: texture_indices@,
                vertex_indices: vertex_indices@,
            }) == build_of(tiles@.subrange(0, i as int)),
        decreases tiles@.len() - i,
    {
        let ghost prev = MeshData {
            indices: indices@,
            tints: tints@,
            texture_indices: texture_indices@,
            vertex_indices: vertex_indices@,
        };
        proof {
            assert(tiles@.subrange(0, i + 1).drop_last() =~= tiles@.subrange(0, i as int));
        }
        match tiles[i] {
            Some(t) => {
                indices.push(t.index);
                indices.push(t.index);
                indices.push(t.index);
                indices.push(t.index);
                tints.push(t.tint);
                tints.push(t.tint);
                tints.push(t.tint);
                tints.push(t.tint);
                /* 3+--+2
                 *  |  |
                 * 0+--+1
                 */
                vertex_indices.push(v_index);
                vertex_indices.push(v_index + 1);
                vertex_indices.push(v_index + 2);
                vertex_indices.push(v_index + 2);
                vertex_indices.push(v_index + 3);
                vertex_indices.push(v_index);
                texture_indices.push(t.texture_index);
                texture_indices.push(t.texture_index);
                texture_indices.push(t.texture_index);
                texture_indices.push(t.texture_index);
                v_index = v_index + 4;
                proof {
                    let next = push_tile(prev, t);
                    assert(indices@ =~= next.indices);
                    assert(tints@ =~= next.tints);
                    assert(texture_indices@ =~= next.texture_indices);
                    assert(vertex_indices@ =~= next.vertex_indices);
                }
            },
            None => {},
        }
        i = i + 1;
    }
    proof {
        assert(tiles@.subrange(0, tiles@.len() as int) =~= tiles@);
    }
    MeshBuffers { indices, tints, texture_indices, vertex_indices }
}

/// The render-side record of one tilemap: its sparse tile array, whether it
/// changed since the last build, and the data of that build.
pub struct TilemapMesh {
    pub is_dirty: bool,
    pub is_textured: bool,
    pub buffers: Option<MeshBuffers>,
    pub tiles: Vec<Option<MeshTile>>,
}

/// The contents of a `TilemapMesh`.
pub struct TilemapMeshView {
    pub is_dirty: bool,
    pub is_textured: bool,
    pub buffers: Option<MeshData>,
    pub tiles: Seq<Option<MeshTile>>,
}

impl View for TilemapMesh {
    type V = TilemapMeshView;

    open spec fn view(&self) -> TilemapMeshView {
        TilemapMeshView {
            is_dirty: self.is_dirty,
            is_textured: self.is_textured,
            buffers: match self.buffers {
                Some(b) => Some(b@),
                None => None,
            },
            tiles: self.tiles@,
        }
    }
}

impl TilemapMeshView {
    /// The tile array is small enough to number its vertices, built data is
    /// small enough to count, and a mesh that is not dirty holds the build
    /// of its current tiles.
    pub open spec fn wf(self) -> bool {
        &&& self.tiles.len() < MAX_MESH_TILES
        &&& self.buffers matches Some(b) ==> b.indices.len() <= u32::MAX && b.vertex_indices.len()
            <= u32::MAX
        &&& !self.is_dirty ==> self.buffers == Some(build_of(self.tiles))
    }
}

/// A new mesh record for a grid of the given size: all slots empty, nothing
/// built yet.
pub open spec fn new_mesh_view(size: UVec2, is_textured: bool) -> TilemapMeshView {
    TilemapMeshView {
        is_dirty: true,
        is_textured,
        buffers: None,
        tiles: Seq::new((size.x * size.y) as nat, |i: int| None::<MeshTile>),
    }
}

/// `new` is what a rebuild makes of `old`: the same tiles, not dirty, and
/// the build of those tiles; a mesh that was not dirty is left as it was.
pub open spec fn rebuilt(old: TilemapMeshView, new: TilemapMeshView) -> bool {
    &&& new.tiles == old.tiles
    &&& new.is_textured == old.is_textured
    &&& !new.is_dirty
    &&& new.buffers == Some(build_of(old.tiles))
    &&& !old.is_dirty ==> new == old
}

impl TilemapMesh {
    /// A mesh record for a grid of `size.x` by `size.y` cells.
    pub fn new(size: UVec2, is_textured: bool) -> (r: TilemapMesh)
        requires
            size.x * size.y < MAX_MESH_TILES,
        ensures
            r@ == new_mesh_view(size, is_textured),
            r@.wf(),
    {
        let n: u32 = size.x * size.y;
        let mut tiles: Vec<Option<MeshTile>> = Vec::new();
        let mut i: u32 = 0;
        while i < n
            invariant
                i <= n,
                tiles@ == Seq::new(i as nat, |k: int| None::<MeshTile>),
            decreases n - i,
        {
            tiles.push(None);
            i = i + 1;
            assert(tiles@ =~= Seq::new(i as nat, |k: int| None::<MeshTile>));
        }
        TilemapMesh { is_dirty: true, is_textured, buffers: None, tiles }
    }

    /// Marks the mesh dirty and places `tile` in slot `slot`; a slot past
    /// the end of the tile array is left alone.
    pub fn place(&mut self, slot: u64, tile: MeshTile)
        requires
            old(self)@.wf(),
        ensures
            final(self)@ == place_in(old(self)@, slot as int, tile),
            final(self)@.wf(),
    {
        self.is_dirty = true;
        if slot < self.tiles.len() as u64 {
            self.tiles.set(slot as usize, Some(tile));
        }
    }

    /// Rebuilds the mesh data if a tile changed since the last build.
    /// Returns whether it rebuilt.
    pub fn rebuild(&mut self) -> (r: bool)
        requires
            old(self)@.wf(),
        ensures
            rebuilt(old(self)@, final(self)@),
            final(self)@.wf(),
            r == old(self)@.is_dirty,
    {
        if !self.is_dirty {
            return false;
        }
        self.is_dirty = false;
        let buffers = build_mesh(&self.tiles);
        proof {
            lemma_build_len(self.tiles@);
        }
        self.buffers = Some(buffers);
        true
    }
}

/// `m` marked dirty, with `tile` in slot `slot` where that slot exists.
pub open spec fn place_in(m: TilemapMeshView, slot: int, tile: MeshTile) -> TilemapMeshView {
    TilemapMeshView {
        is_dirty: true,
        tiles: if 0 <= slot < m.tiles.len() {
            m.tiles.update(slot, Some(tile))
        } else {
            m.tiles
        },
        ..m
    }
}

/// Rebuilding is idempotent: with no change to the tiles in between, a
/// second rebuild leaves the same buffers as the first, whether or not the
/// mesh was marked dirty again.
pub proof fn lemma_rebuild_idempotent(
    m0: TilemapMeshView,
    m1: TilemapMeshView,
    m1_marked: TilemapMeshView,
    m2: TilemapMeshView,
)
    requires
        rebuilt(m0, m1),
        m1_marked.tiles == m1.tiles,
        m1_marked.is_textured == m1.is_textured,
        m1_marked.buffers == m1.buffers,
        rebuilt(m1_marked, m2),
    ensures
        m2.buffers == m1.buffers,
        m2.tiles == m1.tiles,
{
}

/// The mesh records of all tilemaps, keyed by tilemap entity.
pub struct TilemapMeshes {
    pub meshes: Vec<(u64, TilemapMesh)>,
}

impl View for TilemapMeshes {
    type V = Seq<(u64, TilemapMeshView)>;

    open spec fn view(&self) -> Seq<(u64, TilemapMeshView)> {
        self.meshes@.map_values(|e: (u64, TilemapMesh)| (e.0, e.1@))
    }
}

/// Each tilemap has at most one record, and each record is well formed.
pub open spec fn meshes_wf(s: Seq<(u64, TilemapMeshView)>) -> bool {
    &&& keys_unique(s)
    &&& forall|i: int| 0 <= i < s.len() ==> (#[trigger] s[i]).1.wf()
}

/// Every tilemap is small enough to number the vertices of its mesh.
pub open spec fn tilemaps_fit(tilemaps: Seq<(u64, ExtractedTilemap)>) -> bool {
    forall|i: int|
        0 <= i < tilemaps.len() ==> (#[trigger] tilemaps[i]).1.size.x * tilemaps[i].1.size.y
            < MAX_MESH_TILES
}

/// The mesh tile of an extracted tile.
pub open spec fn mesh_tile_of(t: ExtractedTile) -> MeshTile {
    MeshTile { index: t.index, texture_index: texture_index_of(t.texture), tint: t.tint }
}

/// Slot of cell `index` in a grid `size.x` cells wide.
pub open spec fn slot_of(size: UVec2, index: UVec2) -> int {
    index.y * size.x + index.x
}

/// The records after tile `t` was placed: a tile whose tilemap is not among
/// `tilemaps` is dropped; otherwise the tilemap's record, created if it had
/// none, is marked dirty and gets the tile in its slot.
pub open spec fn placed(
    entries: Seq<(u64, TilemapMeshView)>,
    tilemaps: Seq<(u64, ExtractedTilemap)>,
    t: ExtractedTile,
) -> Seq<(u64, TilemapMeshView)> {
    let ti = find_key(tilemaps, t.tilemap);
    if ti < 0 {
        entries
    } else {
        let tm = tilemaps[ti].1;
        let mi = find_key(entries, t.tilemap);
        let with = if mi < 0 {
            entries.push((t.tilemap, new_mesh_view(tm.size, tm.has_texture)))
        } else {
            entries
        };
        let j = if mi < 0 {
            entries.len() as int
        } else {
            mi
        };
        with.update(j, (t.tilemap, place_in(with[j].1, slot_of(tm.size, t.index), mesh_tile_of(t))))
    }
}

/// The records after the tiles `tiles` were placed in order.
pub open spec fn placed_all(
    entries: Seq<(u64, TilemapMeshView)>,
    tilemaps: Seq<(u64, ExtractedTilemap)>,
    tiles: Seq<ExtractedTile>,
) -> Seq<(u64, TilemapMeshView)>
    decreases tiles.len(),
{
    if tiles.len() == 0 {
        entries
    } else {
        placed(placed_all(entries, tilemaps, tiles.drop_last()), tilemaps, tiles.last())
    }
}

/// `after` is `before` with every record rebuilt.
pub open spec fn all_rebuilt(
    before: Seq<(u64, TilemapMeshView)>,
    after: Seq<(u64, TilemapMeshView)>,
) -> bool {
    &&& after.len() == before.len()
    &&& forall|i: int|
        0 <= i < before.len() ==> after[i].0 == before[i].0 && rebuilt(
            #[trigger] before[i].1,
            after[i].1,
        )
}

/// The tilemaps of the dirty records, in record order.
pub open spec fn dirty_keys(entries: Seq<(u64, TilemapMeshView)>) -> Seq<u64>
    decreases entries.len(),
{
    if entries.len() == 0 {
        Seq::empty()
    } else if entries.last().1.is_dirty {
        dirty_keys(entries.drop_last()).push(entries.last().0)
    } else {
        dirty_keys(entries.drop_last())
    }
}

impl TilemapMeshes {
    /// No records.
    pub fn new() -> (r: TilemapMeshes)
        ensures
            r@ == Seq::<(u64, TilemapMeshView)>::empty(),
    {
        let r = TilemapMeshes { meshes: Vec::new() };
        assert(r@ =~= Seq::<(u64, TilemapMeshView)>::empty());
        r
    }

    /// Places one extracted tile in the record of its tilemap.
    pub fn place_tile(&mut self, tilemaps: &Vec<(u64, ExtractedTilemap)>, tile: &ExtractedTile)
        requires
            meshes_wf(old(self)@),
            tilemaps_fit(tilemaps@),
        ensures
            final(self)@ == placed(old(self)@, tilemaps@, *tile),
            meshes_wf(final(self)@),
    {
        let ghost entries = self@;
        let ti = find_entry(tilemaps, tile.tilemap);
        match ti {
            None => {},
            Some(ti) => {
                let tm = &tilemaps[ti].1;
                proof {
                    assert(tilemaps@[ti as int].1.size.x * tilemaps@[ti as int].1.size.y
                        < MAX_MESH_TILES);
                }
                let mi = find_entry(&self.meshes, tile.tilemap);
                proof {
                    assert(find_key(entries, tile.tilemap) == find_key(self.meshes@, tile.tilemap))
                        by {
                        match mi {
                            Some(i) => {
                                crate::entity::lemma_find_key_first(
                                    entries,
                                    tile.tilemap,
                                    i as int,
                                );
                            },
                            None => {
                                assert forall|i: int| 0 <= i < entries.len() implies entries[i].0
                                    != tile.tilemap by {
                                    assert(entries[i].0 == self.meshes@[i].0);
                                }
                                crate::entity::lemma_find_key_absent(entries, tile.tilemap);
                            },
                        }
                    }
                }
                let j = match mi {
                    Some(j) => j,
                    None => {
                        let m = TilemapMesh::new(tm.size, tm.has_texture);
                        self.meshes.push((tile.tilemap, m));
                        proof {
                            assert(self@ =~= entries.push(
                                (tile.tilemap, new_mesh_view(tm.size, tm.has_texture)),
                            ));
                        }
                        self.meshes.len() - 1
                    },
                };
                let ghost with = self@;
                let (y, w, x) = (tile.index.y as u64, tm.size.x as u64, tile.index.x as u64);
                proof {
                    assert(y * w + x <= u64::MAX) by (nonlinear_arith)
                        requires
                            y <= u32::MAX,
                            w <= u32::MAX,
                            x <= u32::MAX,
                    ;
                }
                let slot: u64 = y * w + x;
                let mt = MeshTile {
                    index: tile.index,
                    texture_index: tile.texture.texture_index(),
                    tint: tile.tint,
                };
                self.meshes[j].1.place(slot, mt);
                proof {
                    assert(self@ =~= with.update(
                        j as int,
                        (
                            tile.tilemap,
                            place_in(with[j as int].1, slot_of(tm.size, tile.index), mesh_tile_of(*tile)),
                        ),
                    ));
                }
            },
        }
    }

    /// Rebuilds every dirty record. Returns the tilemaps whose mesh was
    /// rebuilt, in record order.
    pub fn rebuild_all(&mut self) -> (r: Vec<u64>)
        requires
            meshes_wf(old(self)@),
        ensures
            all_rebuilt(old(self)@, final(self)@),
            meshes_wf(final(self)@),
            r@ == dirty_keys(old(self)@),
    {
        let ghost before = self@;
        let mut r: Vec<u64> = Vec::new();
        let mut i: usize = 0;
        while i < self.meshes.len()
            invariant
                i <= self@.len(),
                self@.len() == before.len(),
                meshes_wf(before),
                forall|k: int|
                    0 <= k < i ==> self@[k].0 == before[k].0 && rebuilt(
                        #[trigger] before[k].1,
                        self@[k].1,
                    ),
                forall|k: int| i <= k < self@.len() ==> #[trigger] self@[k] == before[k],
                forall|k: int| 0 <= k < i ==> (#[trigger] self@[k]).1.wf(),
                r@ == dirty_keys(before.subrange(0, i as int)),
            decreases self@.len() - i,
        {
            let ghost prev = self.meshes@;
            let ghost prev_view = self@;
            proof {
                assert(self@[i as int] == before[i as int]);
                assert(before[i as int].1.wf());
                assert(before.subrange(0, i + 1).drop_last() =~= before.subrange(0, i as int));
            }
            let did = self.meshes[i].1.rebuild();
            if did {
                r.push(self.meshes[i].0);
            }
            proof {
                assert(self.meshes@ == prev.update(i as int, self.meshes@[i as int]));
                assert(self.meshes@[i as int].0 == prev[i as int].0);
                assert(self@[i as int].1 == self.meshes@[i as int].1@);
                assert forall|k: int| 0 <= k < self@.len() && k != i implies #[trigger] self@[k]
                    == prev_view[k] by {
                    assert(self.meshes@[k] == prev[k]);
                }
            }
            i = i + 1;
        }
        proof {
            assert(before.subrange(0, before.len() as int) =~= before);
            assert forall|a: int, b: int| 0 <= a < b < self@.len() implies self@[a].0
                != self@[b].0 by {
                assert(before[a].0 != before[b].0);
            }
        }
        r
    }
}

impl Default for TilemapMeshes {
    fn default() -> (r: TilemapMeshes)
        ensures
            r@ == Seq::<(u64, TilemapMeshView)>::empty(),
    {
        TilemapMeshes::new()
    }
}

/// Places each extracted tile in the record of its tilemap, then rebuilds
/// every dirty record. Returns the tilemaps whose mesh was rebuilt, in record
/// order.
pub fn prepare_tilemap_meshes(
    tilemaps: &Vec<(u64, ExtractedTilemap)>,
    tilemap_meshes: &mut TilemapMeshes,
    tiles: &Vec<ExtractedTile>,
) -> (r: Vec<u64>)
    requires
        meshes_wf(old(tilemap_meshes)@),
        tilemaps_fit(tilemaps@),
    ensures
        all_rebuilt(placed_all(old(tilemap_meshes)@, tilemaps@, tiles@), final(tilemap_meshes)@),
        meshes_wf(final(tilemap_meshes)@),
        r@ == dirty_keys(placed_all(old(tilemap_meshes)@, tilemaps@, tiles@)),
{
    let ghost start = tilemap_meshes@;
    let mut i: usize = 0;
    while i < tiles.len()
        invariant
            i <= tiles@.len(),
            tilemaps_fit(tilemaps@),
            meshes_wf(tilemap_meshes@),
            tilemap_meshes@ == placed_all(start, tilemaps@, tiles@.subrange(0, i as int)),
        decreases tiles@.len() - i,
    {
        proof {
            assert(tiles@.subrange(0, i + 1).drop_last() =~= tiles@.subrange(0, i as int));
        }
        tilemap_meshes.place_tile(tilemaps, &tiles[i]);
        i = i + 1;
    }
    proof {
        assert(tiles@.subrange(0, tiles@.len() as int) =~= tiles@);
    }
    tilemap_meshes.rebuild_all()
}

/// The draw of one built mesh: its vertex and vertex-index counts.
#[derive(Clone, Copy, PartialEq, Eq, Structural, Debug)]
pub struct DrawCall {
    pub vertex_count: u32,
    pub index_count: u32,
}

/// The draw command of a tilemap's mesh.
pub struct DrawTilemapMesh;

impl DrawTilemapMesh {
    /// The indexed draw of the mesh of tilemap `entity`, which has a record
    /// whose mesh was built.
    pub fn render(tilemap_meshes: &TilemapMeshes, entity: u64) -> (r: DrawCall)
        requires
            meshes_wf(tilemap_meshes@),
            is_built(tilemap_meshes@, entity),
        ensures
            ({
                let b = tilemap_meshes@[find_key(tilemap_meshes@, entity)].1.buffers.unwrap();
                r.vertex_count == b.indices.len() && r.index_count == b.vertex_indices.len()
            }),
    {
        let i = find_entry(&tilemap_meshes.meshes, entity).unwrap();
        proof {
            assert(tilemap_meshes@[i as int].1.wf());
        }
        let b = tilemap_meshes.meshes[i].1.buffers.as_ref().unwrap();
        DrawCall { vertex_count: b.vertex_count() as u32, index_count: b.index_count() as u32 }
    }
}

/// Tilemap `entity` has a record, and its mesh was built.
pub open spec fn is_built(entries: Seq<(u64, TilemapMeshView)>, entity: u64) -> bool {
    let i = find_key(entries, entity);
    i >= 0 && entries[i].1.buffers is Some
}

/// Whether tilemap `entity` has a record whose mesh was built: what
/// `DrawTilemapMesh::render` needs.
pub fn has_built_mesh(tilemap_meshes: &TilemapMeshes, entity: u64) -> (r: bool)
    ensures
        r == is_built(tilemap_meshes@, entity),
{
    match find_entry(&tilemap_meshes.meshes, entity) {
        None => {
            proof {
                crate::entity::lemma_find_key_absent(tilemap_meshes@, entity);
            }
            false
        },
        Some(i) => {
            proof {
                crate::entity::lemma_find_key_first(tilemap_meshes@, entity, i as int);
            }
            tilemap_meshes.meshes[i].1.buffers.is_some()
        },
    }
}

} // verus!
