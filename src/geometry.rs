//! Triangles from the polygons of a Wavefront OBJ group.

use vstd::prelude::*;

verus! {

/// One corner of an OBJ polygon: its position, texture-coordinate and normal
/// indices.
#[derive(Clone, Copy, PartialEq, Eq, Structural, Debug)]
pub struct ObjCorner {
    pub position: usize,
    pub texture: Option<usize>,
    pub normal: Option<usize>,
}

/// A vertex of the triangle list: its position and normal indices.
#[derive(Clone, Copy, PartialEq, Eq, Structural, Debug)]
pub struct VertexRef {
    pub position: usize,
    pub normal: usize,
}

/// Every corner of every polygon that yields a triangle (three corners or
/// more) has a texture-coordinate and a normal index.
pub open spec fn corners_complete(polys: Seq<Seq<ObjCorner>>) -> bool {
    forall|i: int, j: int|
        0 <= i < polys.len() && polys[i].len() >= 3 && 0 <= j < polys[i].len() ==> (
        #[trigger] polys[i][j]).texture is Some && polys[i][j].normal is Some
}

pub open spec fn vertex_of(c: ObjCorner) -> VertexRef {
    VertexRef { position: c.position, normal: c.normal.unwrap() }
}

/// The fan triangulation of a polygon: triangles `(0, k - 1, k)` for `k`
/// from 2 up, three vertices each.
pub open spec fn fan_of(poly: Seq<ObjCorner>) -> Seq<VertexRef>
    decreases poly.len(),
{
    if poly.len() < 3 {
        Seq::empty()
    } else {
        fan_of(poly.drop_last()) + seq![
            vertex_of(poly[0]),
            vertex_of(poly[poly.len() - 2]),
            vertex_of(poly.last()),
        ]
    }
}

/// The fan triangulations of the polygons, one after the other.
pub open spec fn fans_of(polys: Seq<Seq<ObjCorner>>) -> Seq<VertexRef>
    decreases polys.len(),
{
    if polys.len() == 0 {
        Seq::empty()
    } else {
        fans_of(polys.drop_last()) + fan_of(polys.last())
    }
}

/// Whether every corner that a triangle uses has a texture-coordinate and
/// a normal index: what `triangulate` needs.
pub fn has_complete_corners(polys: &Vec<Vec<ObjCorner>>) -> (r: bool)
    ensures
        r == corners_complete(polys@.map_values(|p: Vec<ObjCorner>| p@)),
{
    let ghost ps = polys@.map_values(|p: Vec<ObjCorner>| p@);
    let mut i: usize = 0;
    while i < polys.len()
        invariant
            i <= polys@.len(),
            ps == polys@.map_values(|p: Vec<ObjCorner>| p@),
            forall|a: int, j: int|
                0 <= a < i && ps[a].len() >= 3 && 0 <= j < ps[a].len() ==> (#[trigger] ps[a][j]).texture is Some
                    && ps[a][j].normal is Some,
        decreases polys@.len() - i,
    {
        let poly = &polys[i];
        assert(poly@ == ps[i as int]);
        if poly.len() >= 3 {
            let mut j: usize = 0;
            while j < poly.len()
                invariant
                    j <= poly@.len(),
                    i < ps.len(),
                    ps == polys@.map_values(|p: Vec<ObjCorner>| p@),
                    poly@.len() >= 3,
                    poly@ == ps[i as int],
                    forall|b: int| 0 <= b < j ==> (#[trigger] poly@[b]).texture is Some
                        && poly@[b].normal is Some,
                decreases poly@.len() - j,
            {
                if poly[j].texture.is_none() || poly[j].normal.is_none() {
                    assert(!corners_complete(ps)) by {
                        assert(ps[i as int][j as int] == poly@[j as int]);
                        assert(ps[i as int].len() >= 3);
                    }
                    return false;
                }
                j = j + 1;
            }
        }
        i = i + 1;
    }
    true
}

/// The triangle list of a group of polygons, by fan triangulation.
pub fn triangulate(polys: &Vec<Vec<ObjCorner>>) -> (r: Vec<VertexRef>)
    requires
        corners_complete(polys@.map_values(|p: Vec<ObjCorner>| p@)),
    ensures
        r@ == fans_of(polys@.map_values(|p: Vec<ObjCorner>| p@)),
{
    let ghost ps = polys@.map_values(|p: Vec<ObjCorner>| p@);
    let mut out: Vec<VertexRef> = Vec::new();
    let mut i: usize = 0;
    while i < polys.len()
        invariant
            i <= polys@.len(),
            ps == polys@.map_values(|p: Vec<ObjCorner>| p@),
            corners_complete(ps),
            out@ == fans_of(ps.subrange(0, i as int)),
        decreases polys@.len() - i,
    {
        let poly = &polys[i];
        let ghost p = ps[i as int];
        let ghost base = out@;
        proof {
            assert(ps.subrange(0, i + 1).drop_last() =~= ps.subrange(0, i as int));
            assert(poly@ == p);
        }
        if poly.len() >= 3 {
            let mut e: usize = 2;
            while e < poly.len()
                invariant
                    2 <= e <= poly@.len(),
                    poly@ == p,
                    p.len() >= 3,
                    forall|b: int| 0 <= b < p.len() ==> (#[trigger] p[b]).normal is Some,
                    out@ == base + fan_of(p.subrange(0, e as int)),
                decreases poly@.len() - e,
            {
                proof {
                    assert(p.subrange(0, e + 1).drop_last() =~= p.subrange(0, e as int));
                    assert(p.subrange(0, e + 1)[0] == p[0]);
                }
                let c0 = poly[0];
                let c1 = poly[e - 1];
                let c2 = poly[e];
                out.push(VertexRef { position: c0.position, normal: c0.normal.unwrap() });
                out.push(VertexRef { position: c1.position, normal: c1.normal.unwrap() });
                out.push(VertexRef { position: c2.position, normal: c2.normal.unwrap() });
                proof {
                    let q = p.subrange(0, e + 1);
                    assert(q[q.len() - 2] == p[e - 1]);
                    assert(q.last() == p[e as int]);
                    assert(out@ =~= base + fan_of(q));
                }
                e = e + 1;
            }
            proof {
                assert(p.subrange(0, p.len() as int) =~= p);
            }
        } else {
            proof {
                assert(fan_of(p) == Seq::<VertexRef>::empty());
                assert(out@ =~= base + fan_of(p));
            }
        }
        i = i + 1;
    }
    proof {
        assert(ps.subrange(0, ps.len() as int) =~= ps);
    }
    out
}

} // verus!
