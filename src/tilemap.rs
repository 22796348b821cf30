//! Authoritative tilemap state: the dense tile grid and the shared animation
//! table of a tilemap.

use vstd::prelude::*;

verus! {

/// Bound on the length of an animation table. Animation handles reach the
/// shader as signed 32-bit integers, so every position in the table must fit
/// in an `i32`.
pub const MAX_ANIMATION_BUFFER_LEN: usize = 0x8000_0000;

/// A pair of unsigned grid coordinates, or a grid size (`x` columns, `y`
/// rows).
#[derive(Clone, Copy, PartialEq, Eq, Structural, Debug)]
pub struct UVec2 {
    pub x: u32,
    pub y: u32,
}

/// A pair of signed integers, as the shader receives a texture index.
#[derive(Clone, Copy, PartialEq, Eq, Structural, Debug)]
pub struct IVec2 {
    pub x: i32,
    pub y: i32,
}

/// A tint colour, as the IEEE-754 bit patterns of its linear red, green,
/// blue and alpha components. The library only carries it to the vertices.
#[derive(Clone, Copy, PartialEq, Eq, Structural, Debug)]
pub struct Tint {
    pub r: u32,
    pub g: u32,
    pub b: u32,
    pub a: u32,
}

/// A handle to one animation inside a tilemap's animation table.
#[derive(Clone, Copy, PartialEq, Eq, Structural, Debug)]
pub struct TileAnimation {
    /// Position of the frame rate in the animation table; the frames follow
    /// it.
    pub start: u32,
    /// Number of frames of the animation, minus one.
    pub length: u32,
}

impl TileAnimation {
    /// Both halves of the handle fit in an `i32`, as the shader reads them.
    pub open spec fn wf(self) -> bool {
        self.start <= i32::MAX && self.length <= i32::MAX
    }

    /// Position of the frame rate in the animation table.
    pub fn start(&self) -> (r: u32)
        ensures
            r == self.start,
    {
        self.start
    }

    /// Number of frames of the animation, minus one.
    pub fn length(&self) -> (r: u32)
        ensures
            r == self.length,
    {
        self.length
    }
}

/// What a tile shows: one fixed texture of the atlas, or an animation of the
/// tilemap's animation table.
#[derive(Clone, Copy, PartialEq, Eq, Structural, Debug)]
pub enum TileTexture {
    Static(u32),
    Animated(TileAnimation),
}

impl TileTexture {
    /// An animation handle fits in the shader's integers.
    pub open spec fn wf(self) -> bool {
        match self {
            TileTexture::Static(_) => true,
            TileTexture::Animated(a) => a.wf(),
        }
    }

    /// The texture index handed to the shader: `(i, -1)` for a static
    /// texture, `(start, length)` for an animation.
    pub fn texture_index(&self) -> (r: IVec2)
        ensures
            r == texture_index_of(*self),
    {
        match self {
            TileTexture::Static(i) => IVec2 { x: *i as i32, y: -1 },
            TileTexture::Animated(a) => IVec2 { x: a.start as i32, y: a.length as i32 },
        }
    }
}

/// The texture index of a tile texture, as `TileTexture::texture_index`
/// returns it.
pub open spec fn texture_index_of(t: TileTexture) -> IVec2 {
    match t {
        TileTexture::Static(i) => IVec2 { x: i as i32, y: -1i32 },
        TileTexture::Animated(a) => IVec2 { x: a.start as i32, y: a.length as i32 },
    }
}

/// How the shader reads a texture index back: a second component of `-1`
/// marks a static texture, anything else an animation.
pub open spec fn texture_of_index(v: IVec2) -> TileTexture {
    if v.y == -1 {
        TileTexture::Static(v.x as u32)
    } else {
        TileTexture::Animated(TileAnimation { start: v.x as u32, length: v.y as u32 })
    }
}

/// The texture-index encoding round-trips, and the length half of an
/// animation's index is never negative.
pub proof fn lemma_texture_index_round_trip(t: TileTexture)
    requires
        t.wf(),
    ensures
        texture_of_index(texture_index_of(t)) == t,
        t is Animated ==> texture_index_of(t).y >= 0,
        t is Static ==> texture_index_of(t).y == -1,
{
    match t {
        TileTexture::Static(i) => {
            assert((i as i32) as u32 == i) by (bit_vector);
        },
        TileTexture::Animated(a) => {
            let s = a.start;
            let l = a.length;
            assert(s <= 0x7fff_ffff ==> (s as i32) as u32 == s) by (bit_vector);
            assert(l <= 0x7fff_ffff ==> (l as i32) as u32 == l && l as i32 >= 0) by (bit_vector);
            assert(texture_of_index(texture_index_of(t)) == TileTexture::Animated(
                TileAnimation { start: s, length: l },
            ));
        },
    }
}

/// A tile of a tilemap: the tilemap entity it belongs to, what it shows and
/// its tint.
#[derive(Clone, Copy, Debug)]
pub struct Tile {
    pub tilemap: u64,
    pub texture: TileTexture,
    pub tint: Tint,
}

/// The whole record of an animation (frame rate, then its frames) lies inside
/// the table `buf`.
pub open spec fn references(h: TileAnimation, buf: Seq<u32>) -> bool {
    h.start + h.length + 2 <= buf.len()
}

/// The record of an animation: its frame rate followed by its frames.
pub open spec fn record_of(h: TileAnimation, buf: Seq<u32>) -> Seq<u32> {
    buf.subrange(h.start as int, h.start + h.length + 2)
}

/// The table after one more animation was added to it.
pub open spec fn appended(buf: Seq<u32>, fps: u32, frames: Seq<u32>) -> Seq<u32> {
    buf.push(fps) + frames
}

/// The animation table of a tilemap: records of the form
/// `fps frame0 frame1 ...`, one after the other. It only grows.
pub struct TilemapAnimation {
    buffer: Vec<u32>,
}

impl View for TilemapAnimation {
    type V = Seq<u32>;

    closed spec fn view(&self) -> Seq<u32> {
        self.buffer@
    }
}

impl TilemapAnimation {
    /// An empty table.
    pub fn new() -> (r: TilemapAnimation)
        ensures
            r@ == Seq::<u32>::empty(),
    {
        TilemapAnimation { buffer: Vec::new() }
    }

    /// The records of the table, one after the other.
    pub fn buffer(&self) -> (r: &Vec<u32>)
        ensures
            r@ == self@,
    {
        &self.buffer
    }

    /// Appends an animation of the given frames, played at `fps` frames per
    /// second, and returns its handle.
    pub fn add_animation(&mut self, anim: Vec<u32>, fps: u32) -> (r: TileAnimation)
        requires
            anim@.len() >= 1,
            old(self)@.len() + 1 + anim@.len() <= MAX_ANIMATION_BUFFER_LEN,
        ensures
            final(self)@ == appended(old(self)@, fps, anim@),
            r.start == old(self)@.len(),
            r.length == anim@.len() - 1,
            references(r, final(self)@),
            r.wf(),
            record_of(r, final(self)@) == seq![fps] + anim@,
    {
        let ghost frames = anim@;
        let mut anim = anim;
        self.buffer.push(fps);
        let start = (self.buffer.len() - 1) as u32;
        let length = (anim.len() - 1) as u32;
        self.buffer.append(&mut anim);
        let r = TileAnimation { start, length };
        assert(record_of(r, self@) =~= seq![fps] + frames);
        r
    }
}

impl Clone for TilemapAnimation {
    fn clone(&self) -> (r: TilemapAnimation)
        ensures
            r@ == self@,
    {
        let buffer = self.buffer.clone();
        assert(buffer@ =~= self.buffer@);
        TilemapAnimation { buffer }
    }
}

impl Default for TilemapAnimation {
    fn default() -> (r: TilemapAnimation)
        ensures
            r@ == Seq::<u32>::empty(),
    {
        TilemapAnimation::new()
    }
}

/// Adding an animation keeps every handle handed out before valid, and the
/// record that each of them points at unchanged.
pub proof fn lemma_add_animation_keeps_handles(
    buf: Seq<u32>,
    fps: u32,
    frames: Seq<u32>,
    h: TileAnimation,
)
    requires
        references(h, buf),
    ensures
        references(h, appended(buf, fps, frames)),
        record_of(h, appended(buf, fps, frames)) == record_of(h, buf),
{
    assert(record_of(h, appended(buf, fps, frames)) =~= record_of(h, buf));
}

/// Position of grid cell `index` in the row-major slot array of a grid of
/// the given size.
pub open spec fn flat_index(size: UVec2, index: UVec2) -> int {
    index.y * size.x + index.x
}

/// The cell `index` lies inside a grid of the given size.
pub open spec fn in_grid(size: UVec2, index: UVec2) -> bool {
    index.x < size.x && index.y < size.y
}

/// Distinct cells of a grid occupy distinct slots, all inside the array.
pub proof fn lemma_flat_index_injective(size: UVec2, a: UVec2, b: UVec2)
    requires
        in_grid(size, a),
        in_grid(size, b),
    ensures
        0 <= flat_index(size, a) < size.x * size.y,
        flat_index(size, a) == flat_index(size, b) ==> a == b,
{
    let w = size.x as int;
    let h = size.y as int;
    assert(0 <= a.y * w + a.x < h * w) by (nonlinear_arith)
        requires
            0 <= a.x < w,
            0 <= a.y < h,
    ;
    assert(a.y * w + a.x == b.y * w + b.x ==> a.y == b.y && a.x == b.x) by (nonlinear_arith)
        requires
            0 <= a.x < w,
            0 <= b.x < w,
            0 <= a.y,
            0 <= b.y,
    ;
    assert(h * w == w * h) by (nonlinear_arith);
}

/// The dense grid of a tilemap: for each cell, the entity of the tile placed
/// there, if any. Slot `y * width + x` holds cell `(x, y)`.
pub struct TilemapStorage {
    storage: Vec<Option<u64>>,
    size: UVec2,
}

impl View for TilemapStorage {
    type V = Seq<Option<u64>>;

    closed spec fn view(&self) -> Seq<Option<u64>> {
        self.storage@
    }
}

impl TilemapStorage {
    /// Width (`x`) and height (`y`) of the grid.
    pub closed spec fn size_spec(&self) -> UVec2 {
        self.size
    }

    /// The slot array has one slot per cell of the grid.
    pub open spec fn wf(&self) -> bool {
        &&& self@.len() == self.size_spec().x * self.size_spec().y
        &&& self.size_spec().x * self.size_spec().y <= u32::MAX
    }

    /// An empty grid of `size.x` columns and `size.y` rows.
    pub fn new(size: UVec2) -> (r: TilemapStorage)
        requires
            size.x * size.y <= u32::MAX,
        ensures
            r.wf(),
            r.size_spec() == size,
            r@ == Seq::new((size.x * size.y) as nat, |i: int| None::<u64>),
    {
        let n: u32 = size.x * size.y;
        let mut storage: Vec<Option<u64>> = Vec::new();
        let mut i: u32 = 0;
        while i < n
            invariant
                i <= n,
                storage@ == Seq::new(i as nat, |k: int| None::<u64>),
            decreases n - i,
        {
            storage.push(None);
            i = i + 1;
            assert(storage@ =~= Seq::new(i as nat, |k: int| None::<u64>));
        }
        TilemapStorage { storage, size }
    }

    /// Width (`x`) and height (`y`) of the grid.
    pub fn size(&self) -> (r: UVec2)
        ensures
            r == self.size_spec(),
    {
        self.size
    }

    /// Places the tile entity `entity` at cell `index`, replacing what was
    /// there.
    pub fn set(&mut self, index: UVec2, entity: u64)
        requires
            old(self).wf(),
            in_grid(old(self).size_spec(), index),
        ensures
            final(self).wf(),
            final(self).size_spec() == old(self).size_spec(),
            final(self)@ == old(self)@.update(flat_index(old(self).size_spec(), index), Some(entity)),
    {
        proof {
            lemma_flat_index_injective(self.size, index, index);
        }
        let i: u32 = index.y * self.size.x + index.x;
        self.storage.set(i as usize, Some(entity));
    }

    /// The tile entity at cell `index`, if any.
    pub fn get(&self, index: UVec2) -> (r: Option<u64>)
        requires
            self.wf(),
            in_grid(self.size_spec(), index),
        ensures
            r == self@[flat_index(self.size_spec(), index)],
    {
        proof {
            lemma_flat_index_injective(self.size, index, index);
        }
        let i: u32 = index.y * self.size.x + index.x;
        self.storage[i as usize]
    }
}

/// The slots after the placements `ops` (cell, entity) were made one after
/// the other, each as `TilemapStorage::set` makes it.
pub open spec fn after_sets(slots: Seq<Option<u64>>, size: UVec2, ops: Seq<(UVec2, u64)>) -> Seq<
    Option<u64>,
>
    decreases ops.len(),
{
    if ops.len() == 0 {
        slots
    } else {
        let last = ops.last();
        after_sets(slots, size, ops.drop_last()).update(flat_index(size, last.0), Some(last.1))
    }
}

/// After any sequence of placements, each cell holds the entity of the last
/// placement made at it, and a cell that no placement touched keeps what it
/// held.
pub proof fn lemma_last_set_wins(
    slots: Seq<Option<u64>>,
    size: UVec2,
    ops: Seq<(UVec2, u64)>,
    cell: UVec2,
)
    requires
        slots.len() == size.x * size.y,
        in_grid(size, cell),
        forall|k: int| 0 <= k < ops.len() ==> in_grid(size, #[trigger] ops[k].0),
    ensures
        after_sets(slots, size, ops).len() == slots.len(),
        forall|j: int|
            0 <= j < ops.len() && ops[j].0 == cell && (forall|k: int|
                j < k < ops.len() ==> ops[k].0 != cell) ==> after_sets(slots, size, ops)[flat_index(
                size,
                cell,
            )] == Some(#[trigger] ops[j].1),
        (forall|j: int| 0 <= j < ops.len() ==> (#[trigger] ops[j]).0 != cell) ==> after_sets(
            slots,
            size,
            ops,
        )[flat_index(size, cell)] == slots[flat_index(size, cell)],
    decreases ops.len(),
{
    lemma_flat_index_injective(size, cell, cell);
    if ops.len() > 0 {
        let prev = ops.drop_last();
        let last = ops.last();
        lemma_last_set_wins(slots, size, prev, cell);
        lemma_flat_index_injective(size, last.0, cell);
        assert forall|j: int|
            0 <= j < ops.len() && ops[j].0 == cell && (forall|k: int|
                j < k < ops.len() ==> ops[k].0 != cell) implies after_sets(slots, size, ops)[flat_index(
            size,
            cell,
        )] == Some(#[trigger] ops[j].1) by {
            if j < ops.len() - 1 {
                assert(ops[ops.len() - 1].0 != cell);
                assert(prev[j] == ops[j]);
                assert forall|k: int| j < k < prev.len() implies prev[k].0 != cell by {
                    assert(prev[k] == ops[k]);
                }
            }
        }
        assert((forall|j: int| 0 <= j < ops.len() ==> (#[trigger] ops[j]).0 != cell) ==> (forall|
            j: int,
        | 0 <= j < prev.len() ==> (#[trigger] prev[j]).0 != cell)) by {
            if forall|j: int| 0 <= j < ops.len() ==> (#[trigger] ops[j]).0 != cell {
                assert forall|j: int| 0 <= j < prev.len() implies (#[trigger] prev[j]).0 != cell by {
                    assert(prev[j] == ops[j]);
                }
                assert(ops[ops.len() - 1].0 != cell);
            }
        }
    }
}

} // verus!
