//! The prepare stage of the per-tilemap GPU data: the animation tables
//! staged for upload, one buffer per tilemap entity.

use vstd::prelude::*;

use crate::entity::{find_entry, find_key, keys_unique};
use crate::extract::ExtractedTilemap;

verus! {

/// Offset of a tilemap's entry in the dynamic uniform buffer.
#[derive(Clone, Copy, PartialEq, Eq, Structural, Debug)]
pub struct DynamicUniformOffset {
    pub offset: u32,
}

/// The staged contents of the animation buffer of each tilemap entity. A
/// buffer, once made for an entity, stays; it is emptied every frame.
pub struct TilemapAnimationBuffers {
    pub buffers: Vec<(u64, Vec<u32>)>,
}

impl View for TilemapAnimationBuffers {
    type V = Seq<(u64, Seq<u32>)>;

    open spec fn view(&self) -> Seq<(u64, Seq<u32>)> {
        self.buffers@.map_values(|e: (u64, Vec<u32>)| (e.0, e.1@))
    }
}

/// Every buffer emptied.
pub open spec fn cleared(entries: Seq<(u64, Seq<u32>)>) -> Seq<(u64, Seq<u32>)> {
    entries.map_values(|e: (u64, Seq<u32>)| (e.0, Seq::<u32>::empty()))
}

/// The buffers after `data` was pushed to the buffer of entity `key`, made
/// at the end if the entity had none.
pub open spec fn pushed(entries: Seq<(u64, Seq<u32>)>, key: u64, data: Seq<u32>) -> Seq<
    (u64, Seq<u32>),
> {
    let j = find_key(entries, key);
    if j < 0 {
        entries.push((key, data))
    } else {
        entries.update(j, (key, entries[j].1 + data))
    }
}

/// The buffers after the animation table of each tilemap was pushed, in
/// order.
pub open spec fn pushed_all(
    entries: Seq<(u64, Seq<u32>)>,
    tilemaps: Seq<(u64, ExtractedTilemap)>,
) -> Seq<(u64, Seq<u32>)>
    decreases tilemaps.len(),
{
    if tilemaps.len() == 0 {
        entries
    } else {
        let last = tilemaps.last();
        pushed(pushed_all(entries, tilemaps.drop_last()), last.0, last.1.animation@)
    }
}

impl TilemapAnimationBuffers {
    /// No buffers.
    pub fn new() -> (r: TilemapAnimationBuffers)
        ensures
            r@ == Seq::<(u64, Seq<u32>)>::empty(),
    {
        let r = TilemapAnimationBuffers { buffers: Vec::new() };
        assert(r@ =~= Seq::<(u64, Seq<u32>)>::empty());
        r
    }

    /// Pushes `data` to the buffer of entity `key`, making one if needed.
    fn push_to(&mut self, key: u64, data: &Vec<u32>)
        requires
            keys_unique(old(self)@),
        ensures
            final(self)@ == pushed(old(self)@, key, data@),
            keys_unique(final(self)@),
    {
        let ghost before = self@;
        match find_entry(&self.buffers, key) {
            None => {
                proof {
                    assert forall|i: int| 0 <= i < before.len() implies before[i].0 != key by {
                        assert(before[i].0 == self.buffers@[i].0);
                    }
                    crate::entity::lemma_find_key_absent(before, key);
                }
                self.buffers.push((key, data.clone()));
                proof {
                    assert(self@ =~= before.push((key, data@)));
                }
            },
            Some(j) => {
                proof {
                    assert(crate::entity::is_first_key(before, key, j as int)) by {
                        assert forall|i: int| 0 <= i < j implies before[i].0 != key by {
                            assert(before[i].0 == self.buffers@[i].0);
                        }
                    }
                    crate::entity::lemma_find_key_first(before, key, j as int);
                }
                let ghost prev = self.buffers@;
                self.buffers[j].1.extend_from_slice(data.as_slice());
                proof {
                    assert(self.buffers@[j as int].1@ =~= prev[j as int].1@ + data@);
                    assert(self@ =~= before.update(j as int, (key, before[j as int].1 + data@)));
                }
            },
        }
    }
}

impl Default for TilemapAnimationBuffers {
    fn default() -> (r: TilemapAnimationBuffers)
        ensures
            r@ == Seq::<(u64, Seq<u32>)>::empty(),
    {
        TilemapAnimationBuffers::new()
    }
}

/// Stages the animation tables for upload: every buffer is emptied, then
/// each tilemap's table is pushed to the buffer of its entity.
pub fn prepare_tilemap_bind_groups(
    tilemaps: &Vec<(u64, ExtractedTilemap)>,
    animation_buffers: &mut TilemapAnimationBuffers,
)
    requires
        keys_unique(old(animation_buffers)@),
    ensures
        final(animation_buffers)@ == pushed_all(cleared(old(animation_buffers)@), tilemaps@),
        keys_unique(final(animation_buffers)@),
{
    let ghost start = animation_buffers@;
    let mut i: usize = 0;
    while i < animation_buffers.buffers.len()
        invariant
            i <= animation_buffers@.len(),
            animation_buffers@.len() == start.len(),
            forall|k: int|
                0 <= k < i ==> #[trigger] animation_buffers@[k] == (
                    start[k].0,
                    Seq::<u32>::empty(),
                ),
            forall|k: int| i <= k < start.len() ==> #[trigger] animation_buffers@[k] == start[k],
        decreases start.len() - i,
    {
        let ghost prev = animation_buffers.buffers@;
        let ghost prev_view = animation_buffers@;
        animation_buffers.buffers[i].1.clear();
        proof {
            assert forall|k: int| 0 <= k < prev.len() && k != i implies #[trigger] animation_buffers@[k]
                == prev_view[k] by {
                assert(animation_buffers.buffers@[k] == prev[k]);
            }
            assert(prev_view[i as int] == start[i as int]);
            assert(animation_buffers.buffers@[i as int].0 == prev[i as int].0);
            assert(animation_buffers.buffers@[i as int].1@ =~= Seq::<u32>::empty());
            assert(animation_buffers@[i as int] == (start[i as int].0, Seq::<u32>::empty()));
        }
        i = i + 1;
    }
    proof {
        assert(animation_buffers@ =~= cleared(start));
        assert forall|a: int, b: int| 0 <= a < b < animation_buffers@.len() implies animation_buffers@[a].0
            != animation_buffers@[b].0 by {
            assert(animation_buffers@[a].0 == start[a].0);
            assert(animation_buffers@[b].0 == start[b].0);
        }
    }
    let mut t: usize = 0;
    while t < tilemaps.len()
        invariant
            t <= tilemaps@.len(),
            keys_unique(animation_buffers@),
            animation_buffers@ == pushed_all(cleared(start), tilemaps@.subrange(0, t as int)),
        decreases tilemaps@.len() - t,
    {
        proof {
            assert(tilemaps@.subrange(0, t + 1).drop_last() =~= tilemaps@.subrange(0, t as int));
        }
        let tm = &tilemaps[t];
        animation_buffers.push_to(tm.0, tm.1.animation.buffer());
        t = t + 1;
    }
    proof {
        assert(tilemaps@.subrange(0, tilemaps@.len() as int) =~= tilemaps@);
    }
}

} // verus!
