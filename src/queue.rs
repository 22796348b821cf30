//! The queue stage: one draw item per tilemap in the transparent phase,
//! ordered by depth, and the pipeline variant each item asks for.

use vstd::prelude::*;

use crate::extract::ExtractedTilemap;

verus! {

/// The pipeline variant of a tilemap: the view's sample count, and whether
/// the tilemap samples a texture atlas.
#[derive(Clone, Copy, PartialEq, Eq, Structural, Hash, Debug)]
pub struct TilemapPipelineKey {
    pub msaa_sample_count: u32,
    pub has_texture: bool,
}

impl TilemapPipelineKey {
    /// The shader definitions of the variant: `TEXTURED_TILEMAP` for a
    /// textured tilemap, none otherwise.
    pub fn shader_defs(&self) -> (r: Vec<String>)
        ensures
            self.has_texture ==> r@.len() == 1 && r@[0]@ == "TEXTURED_TILEMAP"@,
            !self.has_texture ==> r@.len() == 0,
    {
        let mut defs: Vec<String> = Vec::new();
        if self.has_texture {
            defs.push("TEXTURED_TILEMAP".to_owned());
        }
        defs
    }
}

/// The order key of a depth given by the bit pattern of an `f32`: the sign
/// bit set gives the complement of the pattern, otherwise the pattern with
/// the sign bit set.
pub open spec fn key_of_bits(bits: u32) -> u32 {
    if bits & 0x8000_0000 != 0 {
        !bits
    } else {
        bits | 0x8000_0000
    }
}

/// The number that a bit pattern of an `f32` encodes in sign and magnitude:
/// the magnitude bits as an integer, negated where the sign bit is set. For
/// any two numbers that are not NaN, the order of these integers is the
/// order of the numbers.
pub open spec fn signed_magnitude(bits: u32) -> int {
    let m = (bits & 0x7fff_ffff) as int;
    if bits & 0x8000_0000 != 0 {
        -m
    } else {
        m
    }
}

/// The order key of a depth given by the bit pattern of an `f32`.
pub fn depth_sort_key(bits: u32) -> (r: u32)
    ensures
        r == key_of_bits(bits),
{
    if bits & 0x8000_0000 != 0 {
        !bits
    } else {
        bits | 0x8000_0000
    }
}

proof fn lemma_key_as_int(a: u32)
    ensures
        key_of_bits(a) == 0x8000_0000 + signed_magnitude(a) - (if a & 0x8000_0000 != 0 {
            1int
        } else {
            0int
        }),
{
    assert(a & 0x8000_0000 != 0 ==> !a == 0x7fff_ffff - (a & 0x7fff_ffff)) by (bit_vector);
    assert(a & 0x8000_0000 == 0 ==> (a | 0x8000_0000) == 0x8000_0000 + (a & 0x7fff_ffff))
        by (bit_vector);
    assert((a & 0x7fff_ffff) <= 0x7fff_ffff) by (bit_vector);
}

/// Order keys follow the order of the depths: a smaller number gets a
/// smaller key, and a key no larger than another belongs to a number no
/// larger than the other's.
pub proof fn lemma_depth_key_monotone(a: u32, b: u32)
    ensures
        signed_magnitude(a) < signed_magnitude(b) ==> key_of_bits(a) < key_of_bits(b),
        key_of_bits(a) <= key_of_bits(b) ==> signed_magnitude(a) <= signed_magnitude(b),
{
    lemma_key_as_int(a);
    lemma_key_as_int(b);
}

/// One draw item of the transparent phase.
#[derive(Clone, Copy, PartialEq, Eq, Structural, Debug)]
pub struct PhaseItem {
    pub entity: u64,
    pub sort_key: u32,
    pub pipeline: TilemapPipelineKey,
}

/// The draw item of the tilemap `entity`.
pub open spec fn item_of(entity: u64, tilemap: ExtractedTilemap, msaa_sample_count: u32) -> PhaseItem {
    PhaseItem {
        entity,
        sort_key: tilemap.sort_key,
        pipeline: TilemapPipelineKey { msaa_sample_count, has_texture: tilemap.has_texture },
    }
}

/// The draw items of the tilemaps, in the order of `tilemaps`.
pub open spec fn items_of(tilemaps: Seq<(u64, ExtractedTilemap)>, msaa_sample_count: u32) -> Seq<
    PhaseItem,
> {
    tilemaps.map_values(|t: (u64, ExtractedTilemap)| item_of(t.0, t.1, msaa_sample_count))
}

/// The items are in non-decreasing order of their sort keys.
pub open spec fn sorted_by_key(items: Seq<PhaseItem>) -> bool {
    forall|i: int, j: int| 0 <= i < j < items.len() ==> items[i].sort_key <= items[j].sort_key
}

/// `out` is `src` in the order `perm` (`out[i]` is `src[perm[i]]`, each item
/// of `src` once), sorted by key, with items of equal key in their order in
/// `src`.
pub open spec fn stable_sort_by(src: Seq<PhaseItem>, out: Seq<PhaseItem>, perm: Seq<int>) -> bool {
    &&& out.len() == src.len()
    &&& perm.len() == src.len()
    &&& forall|i: int| 0 <= i < perm.len() ==> 0 <= #[trigger] perm[i] < src.len()
    &&& forall|i: int, j: int| 0 <= i < j < perm.len() ==> perm[i] != perm[j]
    &&& forall|i: int| 0 <= i < out.len() ==> #[trigger] out[i] == src[perm[i]]
    &&& sorted_by_key(out)
    &&& forall|i: int, j: int|
        0 <= i < j < out.len() && out[i].sort_key == out[j].sort_key ==> perm[i] < perm[j]
}

/// The draw items of one phase: one per tilemap, submitted in
/// non-decreasing depth order, tilemaps of equal depth in their order in
/// `tilemaps`.
pub fn queue_tilemaps(tilemaps: &Vec<(u64, ExtractedTilemap)>, msaa_sample_count: u32) -> (r: Vec<
    PhaseItem,
>)
    ensures
        exists|perm: Seq<int>| stable_sort_by(items_of(tilemaps@, msaa_sample_count), r@, perm),
        sorted_by_key(r@),
{
    let ghost src = items_of(tilemaps@, msaa_sample_count);
    let ghost mut perm: Seq<int> = Seq::empty();
    let mut out: Vec<PhaseItem> = Vec::new();
    let mut k: usize = 0;
    while k < tilemaps.len()
        invariant
            k <= tilemaps@.len(),
            src == items_of(tilemaps@, msaa_sample_count),
            out@.len() == k,
            perm.len() == k,
            forall|i: int| 0 <= i < perm.len() ==> 0 <= #[trigger] perm[i] < k,
            forall|i: int, j: int| 0 <= i < j < perm.len() ==> perm[i] != perm[j],
            forall|i: int| 0 <= i < out@.len() ==> #[trigger] out@[i] == src[perm[i]],
            sorted_by_key(out@),
            forall|i: int, j: int|
                0 <= i < j < out@.len() && out@[i].sort_key == out@[j].sort_key ==> perm[i]
                    < perm[j],
        decreases tilemaps@.len() - k,
    {
        let t = &tilemaps[k];
        let item = PhaseItem {
            entity: t.0,
            sort_key: t.1.sort_key,
            pipeline: TilemapPipelineKey { msaa_sample_count, has_texture: t.1.has_texture },
        };
        assert(item == src[k as int]);
        let mut pos: usize = 0;
        while pos < out.len() && out[pos].sort_key <= item.sort_key
            invariant
                pos <= out@.len(),
                forall|i: int| 0 <= i < pos ==> (#[trigger] out@[i]).sort_key <= item.sort_key,
            decreases out@.len() - pos,
        {
            pos = pos + 1;
        }
        let ghost old_out = out@;
        let ghost old_perm = perm;
        proof {
            assert forall|i: int| pos <= i < old_out.len() implies (#[trigger] old_out[i]).sort_key
                > item.sort_key by {
                assert(old_out[pos as int].sort_key > item.sort_key);
                if i > pos {
                    assert(old_out[pos as int].sort_key <= old_out[i].sort_key);
                }
            }
        }
        out.insert(pos, item);
        proof {
            perm = old_perm.insert(pos as int, k as int);
            assert forall|i: int|
                #![trigger out@[i]]
                #![trigger perm[i]]
                0 <= i < out@.len() implies out@[i] == (if i < pos {
                old_out[i]
            } else if i == pos {
                item
            } else {
                old_out[i - 1]
            }) && perm[i] == (if i < pos {
                old_perm[i]
            } else if i == pos {
                k as int
            } else {
                old_perm[i - 1]
            }) by {}
        }
        k = k + 1;
    }
    proof {
        assert(stable_sort_by(src, out@, perm));
    }
    out
}

} // verus!
