//! The triangles of the unit shapes that scenes are drawn with.
//!
//! A shape's vertices are numbered in the order they are made; the functions
//! here list, three by three, the vertices of its triangles.
use vstd::prelude::*;

verus! {

/// The vertex that follows on a ring.
pub open spec fn next_on_ring(i: int, segs: int) -> int {
    if i + 1 == segs {
        0
    } else {
        i + 1
    }
}

fn next(i: u32, segs: u32) -> (r: u32)
    requires
        i < segs,
    ensures
        r == next_on_ring(i as int, segs as int),
{
    if i + 1 == segs {
        0
    } else {
        i + 1
    }
}

/// The triangles of a tube's side: two for each of the first `n` segments. The
/// ring's vertices come in pairs, bottom and top.
pub open spec fn side_triangles(segs: int, n: nat) -> Seq<int>
    decreases n,
{
    if n == 0 {
        Seq::empty()
    } else {
        let i = n - 1;
        let j = next_on_ring(i, segs);
        side_triangles(segs, (n - 1) as nat) + seq![
            2 * i,
            2 * j,
            2 * i + 1,
            2 * i + 1,
            2 * j,
            2 * j + 1,
        ]
    }
}

/// The triangles of a cap: one for each of the first `n` segments, from the
/// center to the ring that follows it. A flipped cap faces the other way.
pub open spec fn cap_triangles(center: int, segs: int, flip: bool, n: nat) -> Seq<int>
    decreases n,
{
    if n == 0 {
        Seq::empty()
    } else {
        let i = center + 1 + (n - 1);
        let j = center + 1 + next_on_ring(n - 1, segs);
        cap_triangles(center, segs, flip, (n - 1) as nat) + if flip {
            seq![center, j, i]
        } else {
            seq![center, i, j]
        }
    }
}

/// The triangles of a cone's side: one for each of the first `n` segments. The
/// ring's vertices come in pairs, base and apex.
pub open spec fn slope_triangles(segs: int, n: nat) -> Seq<int>
    decreases n,
{
    if n == 0 {
        Seq::empty()
    } else {
        let i = n - 1;
        slope_triangles(segs, (n - 1) as nat) + seq![
            2 * i,
            2 * next_on_ring(i, segs),
            2 * i + 1,
        ]
    }
}

/// The triangles of the first `n` cells of a sphere's `r`-th band.
pub open spec fn band_triangles(segs: int, r: int, n: nat) -> Seq<int>
    decreases n,
{
    if n == 0 {
        Seq::empty()
    } else {
        let i0 = r * (segs + 1) + (n - 1);
        let j0 = i0 + segs + 1;
        band_triangles(segs, r, (n - 1) as nat) + seq![i0, j0, i0 + 1, i0 + 1, j0, j0 + 1]
    }
}

/// The triangles of a sphere's first `m` bands.
pub open spec fn sphere_triangles(segs: int, m: nat) -> Seq<int>
    decreases m,
{
    if m == 0 {
        Seq::empty()
    } else {
        sphere_triangles(segs, (m - 1) as nat) + band_triangles(segs, m - 1, segs as nat)
    }
}

/// The same numbers.
pub open spec fn same_numbers(v: Seq<u32>, s: Seq<int>) -> bool {
    v.len() == s.len() && forall|k: int| 0 <= k < v.len() ==> #[trigger] v[k] == s[k]
}

/// Every number is below the bound.
pub open spec fn below(v: Seq<u32>, n: int) -> bool {
    forall|k: int| 0 <= k < v.len() ==> (#[trigger] v[k]) < n
}

fn push_triangle(out: &mut Vec<u32>, a: u32, b: u32, c: u32, Ghost(s): Ghost<Seq<int>>)
    requires
        same_numbers(old(out)@, s),
    ensures
        final(out)@ == old(out)@ + seq![a, b, c],
        same_numbers(final(out)@, s + seq![a as int, b as int, c as int]),
{
    out.push(a);
    out.push(b);
    out.push(c);
    assert(out@ =~= old(out)@ + seq![a, b, c]);
}

/// How many vertices a unit cylinder of `segs` segments has: a pair for each,
/// and a center and a ring for each cap.
pub open spec fn cylinder_vertices(segs: int) -> int {
    4 * segs + 2
}

/// The triangles of a unit cylinder: the side, the bottom cap, flipped, and the
/// top cap.
pub open spec fn cylinder_triangles(segs: int) -> Seq<int> {
    side_triangles(segs, segs as nat) + cap_triangles(2 * segs, segs, true, segs as nat)
        + cap_triangles(3 * segs + 1, segs, false, segs as nat)
}

fn push_cap(out: &mut Vec<u32>, center: u32, segs: u32, flip: bool, Ghost(s): Ghost<Seq<int>>)
    requires
        same_numbers(old(out)@, s),
        center + segs < u32::MAX,
        below(old(out)@, center + segs + 1),
    ensures
        same_numbers(
            final(out)@,
            s + cap_triangles(center as int, segs as int, flip, segs as nat),
        ),
        below(final(out)@, center + segs + 1),
{
    let mut i: u32 = 0;
    assert(s + cap_triangles(center as int, segs as int, flip, 0) =~= s);
    while i < segs
        invariant
            i <= segs,
            center + segs < u32::MAX,
            same_numbers(
                out@,
                s + cap_triangles(center as int, segs as int, flip, i as nat),
            ),
            below(out@, center + segs + 1),
        decreases segs - i,
    {
        let ghost before = s + cap_triangles(center as int, segs as int, flip, i as nat);
        let j: u32 = next(i, segs);
        if flip {
            push_triangle(out, center, center + 1 + j, center + 1 + i, Ghost(before));
        } else {
            push_triangle(out, center, center + 1 + i, center + 1 + j, Ghost(before));
        }
        proof {
            let row = if flip {
                seq![center as int, center + 1 + j, center + 1 + i]
            } else {
                seq![center as int, center + 1 + i, center + 1 + j]
            };
            assert(before + row =~= s + cap_triangles(
                center as int,
                segs as int,
                flip,
                (i + 1) as nat,
            ));
        }
        i += 1;
    }
}

/// The triangles of a unit cylinder with end caps.
pub fn cylinder_indices(segs: u32) -> (r: Vec<u32>)
    requires
        cylinder_vertices(segs as int) <= u32::MAX,
    ensures
        same_numbers(r@, cylinder_triangles(segs as int)),
        below(r@, cylinder_vertices(segs as int)),
{
    let mut out: Vec<u32> = Vec::new();
    let mut i: u32 = 0;
    while i < segs
        invariant
            i <= segs,
            cylinder_vertices(segs as int) <= u32::MAX,
            same_numbers(out@, side_triangles(segs as int, i as nat)),
            below(out@, 2 * segs),
        decreases segs - i,
    {
        let ghost before = side_triangles(segs as int, i as nat);
        let j: u32 = next(i, segs);
        push_triangle(&mut out, 2 * i, 2 * j, 2 * i + 1, Ghost(before));
        let ghost mid = before + seq![2 * i as int, 2 * j as int, 2 * i + 1];
        push_triangle(&mut out, 2 * i + 1, 2 * j, 2 * j + 1, Ghost(mid));
        assert(mid + seq![2 * i + 1, 2 * j as int, 2 * j + 1] =~= side_triangles(
            segs as int,
            (i + 1) as nat,
        ));
        i += 1;
    }
    let ghost side = side_triangles(segs as int, segs as nat);
    assert(below(out@, 3 * segs + 1));
    push_cap(&mut out, 2 * segs, segs, true, Ghost(side));
    let ghost two = side + cap_triangles(2 * segs, segs as int, true, segs as nat);
    push_cap(&mut out, 3 * segs + 1, segs, false, Ghost(two));
    out
}

/// How many vertices a unit cone of `segs` segments has: a pair for each, and a
/// center and a ring for the base.
pub open spec fn cone_vertices(segs: int) -> int {
    3 * segs + 1
}

/// The triangles of a unit cone: the side, and the base, flipped.
pub open spec fn cone_triangles(segs: int) -> Seq<int> {
    slope_triangles(segs, segs as nat) + cap_triangles(2 * segs, segs, true, segs as nat)
}

/// The triangles of a unit cone with a base cap.
pub fn cone_indices(segs: u32) -> (r: Vec<u32>)
    requires
        cone_vertices(segs as int) <= u32::MAX,
    ensures
        same_numbers(r@, cone_triangles(segs as int)),
        below(r@, cone_vertices(segs as int)),
{
    let mut out: Vec<u32> = Vec::new();
    let mut i: u32 = 0;
    while i < segs
        invariant
            i <= segs,
            cone_vertices(segs as int) <= u32::MAX,
            same_numbers(out@, slope_triangles(segs as int, i as nat)),
            below(out@, 2 * segs),
        decreases segs - i,
    {
        let ghost before = slope_triangles(segs as int, i as nat);
        let j: u32 = next(i, segs);
        push_triangle(&mut out, 2 * i, 2 * j, 2 * i + 1, Ghost(before));
        i += 1;
    }
    let ghost side = slope_triangles(segs as int, segs as nat);
    push_cap(&mut out, 2 * segs, segs, true, Ghost(side));
    out
}

/// How many vertices a unit sphere has: a row of `segs + 1` for each of
/// `rings + 1` rings.
pub open spec fn sphere_vertices(segs: int, rings: int) -> int {
    (rings + 1) * (segs + 1)
}

/// The triangles of a unit sphere.
pub fn sphere_indices(segs: u32, rings: u32) -> (r: Vec<u32>)
    requires
        sphere_vertices(segs as int, rings as int) <= u32::MAX,
    ensures
        same_numbers(r@, sphere_triangles(segs as int, rings as nat)),
        below(r@, sphere_vertices(segs as int, rings as int)),
{
    let mut out: Vec<u32> = Vec::new();
    proof {
        assert(segs + 1 <= (rings + 1) * (segs + 1)) by (nonlinear_arith);
    }
    let stride: u32 = segs + 1;
    let mut start: u32 = 0;
    let mut r: u32 = 0;
    while r < rings
        invariant
            r <= rings,
            stride == segs + 1,
            start == r * stride,
            sphere_vertices(segs as int, rings as int) <= u32::MAX,
            same_numbers(out@, sphere_triangles(segs as int, r as nat)),
            below(out@, sphere_vertices(segs as int, rings as int)),
        decreases rings - r,
    {
        let ghost before = sphere_triangles(segs as int, r as nat);
        proof {
            assert(r * stride + 2 * stride <= (rings + 1) * stride) by (nonlinear_arith)
                requires
                    r < rings,
            ;
            assert((r + 1) * stride == r * stride + stride) by (nonlinear_arith);
            assert(before + band_triangles(segs as int, r as int, 0) =~= before);
        }
        let mut s: u32 = 0;
        while s < segs
            invariant
                s <= segs,
                stride == segs + 1,
                start == r * stride,
                start + 2 * stride <= sphere_vertices(segs as int, rings as int) <= u32::MAX,
                same_numbers(out@, before + band_triangles(segs as int, r as int, s as nat)),
                below(out@, sphere_vertices(segs as int, rings as int)),
            decreases segs - s,
        {
            let ghost was = before + band_triangles(segs as int, r as int, s as nat);
            let i0: u32 = start + s;
            let j0: u32 = i0 + stride;
            push_triangle(&mut out, i0, j0, i0 + 1, Ghost(was));
            let ghost mid = was + seq![i0 as int, j0 as int, i0 + 1];
            push_triangle(&mut out, i0 + 1, j0, j0 + 1, Ghost(mid));
            assert(mid + seq![i0 + 1, j0 as int, j0 + 1] =~= before + band_triangles(
                segs as int,
                r as int,
                (s + 1) as nat,
            ));
            s += 1;
        }
        start += stride;
        r += 1;
    }
    out
}

/// The triangles among the first `n` triples of a mesh whose corners all exist.
pub open spec fn drawable(indices: Seq<u32>, corners: nat, n: nat) -> Seq<(u32, u32, u32)>
    decreases n,
{
    if n == 0 {
        Seq::empty()
    } else {
        let before = drawable(indices, corners, (n - 1) as nat);
        let (a, b, c) = (indices[3 * n - 3], indices[3 * n - 2], indices[3 * n - 1]);
        if a < corners && b < corners && c < corners {
            before.push((a, b, c))
        } else {
            before
        }
    }
}

/// The triangles of a mesh that can be drawn: those whose corners all exist; an
/// incomplete triple at the end is passed over.
pub fn drawable_triangles(indices: &Vec<u32>, corners: usize) -> (r: Vec<(u32, u32, u32)>)
    ensures
        r@ == drawable(indices@, corners as nat, indices@.len() / 3),
        forall|k: int|
            0 <= k < r@.len() ==> (#[trigger] r@[k]).0 < corners && r@[k].1 < corners && r@[k].2
                < corners,
{
    let mut out: Vec<(u32, u32, u32)> = Vec::new();
    let limit: usize = indices.len();
    let total: usize = limit / 3;
    let mut n: usize = 0;
    while n < total
        invariant
            n <= total,
            limit == indices@.len(),
            3 * total <= limit,
            total == indices@.len() / 3,
            out@ == drawable(indices@, corners as nat, n as nat),
            forall|k: int|
                0 <= k < out@.len() ==> (#[trigger] out@[k]).0 < corners && out@[k].1 < corners
                    && out@[k].2 < corners,
        decreases total - n,
    {
        let a: u32 = indices[3 * n];
        let b: u32 = indices[3 * n + 1];
        let c: u32 = indices[3 * n + 2];
        if (a as usize) < corners && (b as usize) < corners && (c as usize) < corners {
            out.push((a, b, c));
        }
        n += 1;
    }
    out
}

} // verus!
