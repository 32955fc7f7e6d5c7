//! The edges and the folds of a triangle mesh.
use crate::constraints::DistanceConstraint;
use vstd::prelude::*;

verus! {

/// A triangle of the mesh, by its particles, and the panel it belongs to.
#[derive(Clone, Copy, Debug, PartialEq, Eq, Structural)]
pub struct MeshTri {
    pub panel: usize,
    pub a: usize,
    pub b: usize,
    pub c: usize,
}

/// One side of a triangle, with the corner opposite to it.
#[derive(Clone, Copy, Debug, PartialEq, Eq, Structural)]
pub struct Side {
    pub panel: usize,
    pub a: usize,
    pub b: usize,
    pub opposite: usize,
}

impl Side {
    pub open spec fn low(self) -> usize {
        if self.a < self.b {
            self.a
        } else {
            self.b
        }
    }

    pub open spec fn high(self) -> usize {
        if self.a < self.b {
            self.b
        } else {
            self.a
        }
    }

    /// The two sides join the same particles.
    pub open spec fn along(self, other: Side) -> bool {
        self.low() == other.low() && self.high() == other.high()
    }

    fn is_along(&self, other: &Side) -> (r: bool)
        ensures
            r == self.along(*other),
    {
        (self.a == other.a && self.b == other.b) || (self.a == other.b && self.b == other.a)
    }
}

/// The sides of one triangle.
pub open spec fn tri_sides(t: MeshTri) -> Seq<Side> {
    seq![
        Side { panel: t.panel, a: t.a, b: t.b, opposite: t.c },
        Side { panel: t.panel, a: t.b, b: t.c, opposite: t.a },
        Side { panel: t.panel, a: t.c, b: t.a, opposite: t.b },
    ]
}

/// The sides of the first `n` triangles.
pub open spec fn sides_of(tris: Seq<MeshTri>, n: nat) -> Seq<Side>
    decreases n,
{
    if n == 0 {
        Seq::empty()
    } else {
        sides_of(tris, (n - 1) as nat) + tri_sides(tris[n - 1])
    }
}

/// An edge of the cloth: two particles, in the order in which the first
/// triangle that has the edge runs along it, and that triangle's panel.
#[derive(Clone, Copy, Debug, PartialEq, Eq, Structural)]
pub struct ClothEdge {
    pub panel: usize,
    pub a: usize,
    pub b: usize,
}

/// Some constraint already joins the two particles.
pub open spec fn constrained(cs: Seq<DistanceConstraint>, a: usize, b: usize) -> bool {
    exists|k: int|
        0 <= k < cs.len() && ((#[trigger] cs[k]).p1 == a && cs[k].p2 == b || cs[k].p1 == b
            && cs[k].p2 == a)
}

/// Some edge of the list joins the two particles.
pub open spec fn has_edge(edges: Seq<ClothEdge>, a: usize, b: usize) -> bool {
    exists|k: int|
        0 <= k < edges.len() && ((#[trigger] edges[k]).a == a && edges[k].b == b || edges[k].a == b
            && edges[k].b == a)
}

/// The edges among the first `n` sides: each pair of particles once, and none
/// that a constraint already joins.
pub open spec fn cloth_edges(
    cs: Seq<DistanceConstraint>,
    sides: Seq<Side>,
    n: nat,
) -> Seq<ClothEdge>
    decreases n,
{
    if n == 0 {
        Seq::empty()
    } else {
        let before = cloth_edges(cs, sides, (n - 1) as nat);
        let s = sides[n - 1];
        if constrained(cs, s.a, s.b) || has_edge(before, s.a, s.b) {
            before
        } else {
            before.push(ClothEdge { panel: s.panel, a: s.a, b: s.b })
        }
    }
}

/// Every side has its edge, exactly once, unless a constraint joined its
/// particles before.
pub proof fn every_side_has_one_edge(cs: Seq<DistanceConstraint>, sides: Seq<Side>, n: nat)
    requires
        n <= sides.len(),
    ensures
        forall|i: int|
            0 <= i < n ==> constrained(cs, (#[trigger] sides[i]).a, sides[i].b) || has_edge(
                cloth_edges(cs, sides, n),
                sides[i].a,
                sides[i].b,
            ),
        forall|k: int, l: int|
            #![trigger cloth_edges(cs, sides, n)[k], cloth_edges(cs, sides, n)[l]]
            0 <= k < l < cloth_edges(cs, sides, n).len() ==> {
                let e = cloth_edges(cs, sides, n)[k];
                let f = cloth_edges(cs, sides, n)[l];
                !(e.a == f.a && e.b == f.b) && !(e.a == f.b && e.b == f.a)
            },
    decreases n,
{
    if n > 0 {
        every_side_has_one_edge(cs, sides, (n - 1) as nat);
        let before = cloth_edges(cs, sides, (n - 1) as nat);
        let after = cloth_edges(cs, sides, n);
        assert forall|i: int| 0 <= i < n implies constrained(cs, (#[trigger] sides[i]).a, sides[i].b)
            || has_edge(after, sides[i].a, sides[i].b) by {
            let s = sides[i];
            if i < n - 1 {
                if !constrained(cs, s.a, s.b) {
                    assert(has_edge(before, s.a, s.b));
                    let k = choose|k: int|
                        0 <= k < before.len() && ((#[trigger] before[k]).a == s.a && before[k].b
                            == s.b || before[k].a == s.b && before[k].b == s.a);
                    assert(after[k] == before[k]);
                }
            } else if !constrained(cs, s.a, s.b) && !has_edge(before, s.a, s.b) {
                assert(after[before.len() as int].a == s.a);
            }
        }
        assert forall|k: int, l: int|
            #![trigger after[k], after[l]]
            0 <= k < l < after.len() implies {
            let e = after[k];
            let f = after[l];
            !(e.a == f.a && e.b == f.b) && !(e.a == f.b && e.b == f.a)
        } by {
            assert(after[k] == before[k]);
            if l < before.len() {
                assert(after[l] == before[l]);
            } else {
                let s = sides[n - 1];
                assert(!has_edge(before, s.a, s.b));
            }
        }
    }
}

/// The sides of all triangles.
pub fn collect_sides(tris: &Vec<MeshTri>) -> (r: Vec<Side>)
    ensures
        r@ == sides_of(tris@, tris@.len()),
{
    let mut out: Vec<Side> = Vec::new();
    let mut i: usize = 0;
    while i < tris.len()
        invariant
            i <= tris@.len(),
            out@ == sides_of(tris@, i as nat),
        decreases tris@.len() - i,
    {
        let t: MeshTri = tris[i];
        let ghost before = out@;
        out.push(Side { panel: t.panel, a: t.a, b: t.b, opposite: t.c });
        out.push(Side { panel: t.panel, a: t.b, b: t.c, opposite: t.a });
        out.push(Side { panel: t.panel, a: t.c, b: t.a, opposite: t.b });
        assert(out@ =~= before + tri_sides(t));
        i += 1;
    }
    out
}

fn is_constrained(cs: &Vec<DistanceConstraint>, a: usize, b: usize) -> (r: bool)
    ensures
        r == constrained(cs@, a, b),
{
    let mut k: usize = 0;
    while k < cs.len()
        invariant
            k <= cs@.len(),
            forall|j: int|
                0 <= j < k ==> !((#[trigger] cs@[j]).p1 == a && cs@[j].p2 == b || cs@[j].p1 == b
                    && cs@[j].p2 == a),
        decreases cs@.len() - k,
    {
        let c: DistanceConstraint = cs[k];
        if (c.p1 == a && c.p2 == b) || (c.p1 == b && c.p2 == a) {
            return true;
        }
        k += 1;
    }
    false
}

fn is_edge(edges: &Vec<ClothEdge>, a: usize, b: usize) -> (r: bool)
    ensures
        r == has_edge(edges@, a, b),
{
    let mut k: usize = 0;
    while k < edges.len()
        invariant
            k <= edges@.len(),
            forall|j: int|
                0 <= j < k ==> !((#[trigger] edges@[j]).a == a && edges@[j].b == b || edges@[j].a
                    == b && edges@[j].b == a),
        decreases edges@.len() - k,
    {
        let e: ClothEdge = edges[k];
        if (e.a == a && e.b == b) || (e.a == b && e.b == a) {
            return true;
        }
        k += 1;
    }
    false
}

/// The edges of the mesh that no constraint joins yet.
pub fn collect_edges(cs: &Vec<DistanceConstraint>, sides: &Vec<Side>) -> (r: Vec<ClothEdge>)
    ensures
        r@ == cloth_edges(cs@, sides@, sides@.len()),
{
    let mut out: Vec<ClothEdge> = Vec::new();
    let mut i: usize = 0;
    while i < sides.len()
        invariant
            i <= sides@.len(),
            out@ == cloth_edges(cs@, sides@, i as nat),
        decreases sides@.len() - i,
    {
        let s: Side = sides[i];
        if !is_constrained(cs, s.a, s.b) && !is_edge(&out, s.a, s.b) {
            out.push(ClothEdge { panel: s.panel, a: s.a, b: s.b });
        }
        i += 1;
    }
    out
}

/// A fold: an edge that exactly two triangles share, and their two opposite
/// corners. The panel is the first triangle's.
#[derive(Clone, Copy, Debug, PartialEq, Eq, Structural)]
pub struct Fold {
    pub panel: usize,
    pub p1: usize,
    pub p2: usize,
    pub p3: usize,
    pub p4: usize,
}

/// Sides `i < j` run along the same edge, and no other side does.
pub open spec fn only_pair(sides: Seq<Side>, i: int, j: int) -> bool {
    &&& 0 <= i < j < sides.len()
    &&& sides[i].along(sides[j])
    &&& forall|k: int|
        0 <= k < sides.len() && k != i && k != j ==> !(#[trigger] sides[k]).along(sides[i])
}

/// The fold of two sides along one edge.
pub open spec fn fold_of(first: Side, second: Side) -> Fold {
    Fold {
        panel: first.panel,
        p1: first.low(),
        p2: first.high(),
        p3: first.opposite,
        p4: second.opposite,
    }
}

/// The edge of `e` comes before that of `f`.
pub open spec fn fold_before(e: Fold, f: Fold) -> bool {
    e.p1 < f.p1 || (e.p1 == f.p1 && e.p2 < f.p2)
}

/// Ascending order of the edges, each once.
pub open spec fn ascending(folds: Seq<Fold>) -> bool {
    forall|k: int, l: int|
        #![trigger folds[k], folds[l]]
        0 <= k < l < folds.len() ==> fold_before(folds[k], folds[l])
}

/// `fold` is that of two sides that are alone along their edge, the first of
/// them before `n`.
pub open spec fn is_fold(sides: Seq<Side>, n: int, fold: Fold) -> bool {
    exists|i: int, j: int|
        i < n && #[trigger] only_pair(sides, i, j) && fold == fold_of(sides[i], sides[j])
}

/// The folds of the mesh whose first side is before `n`: one for every edge
/// that exactly two sides run along, in ascending order of the edges.
pub open spec fn folds_before(sides: Seq<Side>, n: int, folds: Seq<Fold>) -> bool {
    &&& ascending(folds)
    &&& forall|f: Fold| #[trigger] folds.contains(f) <==> is_fold(sides, n, f)
}

/// The folds of the mesh: one for every edge that exactly two sides run along,
/// in ascending order of the edges.
pub open spec fn folds_of(sides: Seq<Side>, folds: Seq<Fold>) -> bool {
    folds_before(sides, sides.len() as int, folds)
}

/// There is only one list of folds of a mesh.
pub proof fn folds_are_determined(sides: Seq<Side>, a: Seq<Fold>, b: Seq<Fold>)
    requires
        folds_of(sides, a),
        folds_of(sides, b),
    ensures
        a == b,
{
    assert forall|k: int| 0 <= k < a.len() implies b.contains(#[trigger] a[k]) by {
        assert(a.contains(a[k]));
    }
    assert forall|k: int| 0 <= k < b.len() implies a.contains(#[trigger] b[k]) by {
        assert(b.contains(b[k]));
    }
    sorted_same_members(a, b);
}

/// Two ascending lists with the same members are equal.
proof fn sorted_same_members(a: Seq<Fold>, b: Seq<Fold>)
    requires
        ascending(a),
        ascending(b),
        forall|k: int| 0 <= k < a.len() ==> b.contains(#[trigger] a[k]),
        forall|k: int| 0 <= k < b.len() ==> a.contains(#[trigger] b[k]),
    ensures
        a == b,
    decreases a.len(),
{
    if a.len() == 0 {
        if b.len() > 0 {
            assert(a.contains(b[0]));
        }
        assert(a =~= b);
    } else {
        assert(b.contains(a[0]));
        let x = a.last();
        let y = b.last();
        let n = a.len() - 1;
        let m = b.len() - 1;
        assert(b.contains(a[n]));
        assert(a.contains(b[m]));
        let i = choose|i: int| 0 <= i < a.len() && a[i] == y;
        let j = choose|j: int| 0 <= j < b.len() && b[j] == x;
        assert(x == y) by {
            if i < n {
                assert(fold_before(a[i], a[n]));
                if j < m {
                    assert(fold_before(b[j], b[m]));
                }
            }
        }
        let a0 = a.drop_last();
        let b0 = b.drop_last();
        assert forall|k: int| 0 <= k < a0.len() implies b0.contains(#[trigger] a0[k]) by {
            assert(a0[k] == a[k]);
            let l = choose|l: int| 0 <= l < b.len() && b[l] == a[k];
            assert(fold_before(a[k], a[n]));
            assert(l != m);
            assert(b0[l] == a0[k]);
        }
        assert forall|k: int| 0 <= k < b0.len() implies a0.contains(#[trigger] b0[k]) by {
            assert(b0[k] == b[k]);
            let l = choose|l: int| 0 <= l < a.len() && a[l] == b[k];
            assert(fold_before(b[k], b[m]));
            assert(l != n);
            assert(a0[l] == b0[k]);
        }
        assert forall|k: int, l: int|
            #![trigger a0[k], a0[l]]
            0 <= k < l < a0.len() implies fold_before(a0[k], a0[l]) by {
            assert(fold_before(a[k], a[l]));
        }
        assert forall|k: int, l: int|
            #![trigger b0[k], b0[l]]
            0 <= k < l < b0.len() implies fold_before(b0[k], b0[l]) by {
            assert(fold_before(b[k], b[l]));
        }
        sorted_same_members(a0, b0);
        assert(a =~= a0.push(x));
        assert(b =~= b0.push(y));
    }
}

/// The one other side along the edge of side `i`, if it is later than `i` and
/// there is exactly one.
fn partner(sides: &Vec<Side>, i: usize) -> (r: Option<usize>)
    requires
        i < sides@.len(),
    ensures
        match r {
            Some(j) => only_pair(sides@, i as int, j as int),
            None => forall|j: int| !#[trigger] only_pair(sides@, i as int, j),
        },
{
    let s: Side = sides[i];
    let mut found: Option<usize> = None;
    let mut k: usize = 0;
    while k < sides.len()
        invariant
            i < sides@.len(),
            s == sides@[i as int],
            k <= sides@.len(),
            match found {
                Some(j) => i < j < k && sides@[j as int].along(s) && forall|m: int|
                    0 <= m < k && m != i && m != j ==> !(#[trigger] sides@[m]).along(s),
                None => forall|m: int|
                    0 <= m < k && m != i ==> !(#[trigger] sides@[m]).along(s),
            },
        decreases sides@.len() - k,
    {
        if k != i && sides[k].is_along(&s) {
            if k < i || found.is_some() {
                proof {
                    assert forall|j: int| !#[trigger] only_pair(sides@, i as int, j) by {
                        if only_pair(sides@, i as int, j) {
                            assert(sides@[k as int].along(sides@[i as int]));
                            assert(k == j);
                            if found is Some {
                                let f = found->0 as int;
                                assert(sides@[f].along(sides@[i as int]));
                            }
                        }
                    }
                }
                return None;
            }
            found = Some(k);
        }
        k += 1;
    }
    proof {
        if found is None {
            assert forall|j: int| !#[trigger] only_pair(sides@, i as int, j) by {
                if only_pair(sides@, i as int, j) {
                    assert(sides@[j].along(s));
                }
            }
        }
    }
    found
}

/// Inserting the fold of sides `i` and `j` at its place among the folds whose
/// first side is before `i` gives those whose first side is before `i + 1`.
proof fn insert_fold(sides: Seq<Side>, i: int, j: int, folds: Seq<Fold>, at: int)
    requires
        only_pair(sides, i, j),
        folds_before(sides, i, folds),
        0 <= at <= folds.len(),
        forall|k: int|
            0 <= k < at ==> fold_before(#[trigger] folds[k], fold_of(sides[i], sides[j])),
        at < folds.len() ==> !fold_before(folds[at], fold_of(sides[i], sides[j])),
    ensures
        folds_before(sides, i + 1, folds.insert(at, fold_of(sides[i], sides[j]))),
{
    let fold = fold_of(sides[i], sides[j]);
    let after = folds.insert(at, fold);
    assert forall|k: int| at <= k < folds.len() implies fold_before(fold, #[trigger] folds[k]) by {
        assert(folds.contains(folds[k]));
        let (a, b) = choose|a: int, b: int|
            a < i && #[trigger] only_pair(sides, a, b) && folds[k] == fold_of(sides[a], sides[b]);
        if a == i || a == j {
        } else {
            assert(!sides[a].along(sides[i]));
        }
        if k > at {
            assert(fold_before(folds[at], folds[k]));
        }
    }
    assert forall|k: int, l: int|
        #![trigger after[k], after[l]]
        0 <= k < l < after.len() implies fold_before(after[k], after[l]) by {
        let k0: int = if k < at { k } else { k - 1 };
        let l0: int = if l < at { l } else { l - 1 };
        if k == at {
            assert(after[l] == folds[l0]);
        } else if l == at {
            assert(after[k] == folds[k0]);
        } else {
            assert(after[k] == folds[k0] && after[l] == folds[l0]);
        }
    }
    assert forall|f: Fold| #[trigger] after.contains(f) <==> is_fold(sides, i + 1, f) by {
        if after.contains(f) {
            let k = choose|k: int| 0 <= k < after.len() && after[k] == f;
            if k == at {
                assert(only_pair(sides, i, j));
            } else {
                let k0: int = if k < at { k } else { k - 1 };
                assert(folds[k0] == f);
                assert(folds.contains(f));
                let (a, b) = choose|a: int, b: int|
                    a < i && #[trigger] only_pair(sides, a, b) && f == fold_of(sides[a], sides[b]);
                assert(only_pair(sides, a, b));
            }
        }
        if is_fold(sides, i + 1, f) {
            let (a, b) = choose|a: int, b: int|
                a < i + 1 && #[trigger] only_pair(sides, a, b) && f == fold_of(sides[a], sides[b]);
            if a < i {
                assert(only_pair(sides, a, b));
                assert(folds.contains(f));
                let k0 = choose|k: int| 0 <= k < folds.len() && folds[k] == f;
                let k: int = if k0 < at { k0 } else { k0 + 1 };
                assert(after[k] == f);
            } else {
                if b != j {
                    assert(sides[b].along(sides[i]));
                }
                assert(after[at] == f);
            }
        }
    }
}

/// A side without a partner adds no fold.
proof fn skip_fold(sides: Seq<Side>, i: int, folds: Seq<Fold>)
    requires
        forall|j: int| !#[trigger] only_pair(sides, i, j),
        folds_before(sides, i, folds),
    ensures
        folds_before(sides, i + 1, folds),
{
    assert forall|f: Fold| #[trigger] folds.contains(f) <==> is_fold(sides, i + 1, f) by {
        if is_fold(sides, i, f) {
            let (a, b) = choose|a: int, b: int|
                a < i && #[trigger] only_pair(sides, a, b) && f == fold_of(sides[a], sides[b]);
            assert(only_pair(sides, a, b));
        }
        if is_fold(sides, i + 1, f) {
            let (a, b) = choose|a: int, b: int|
                a < i + 1 && #[trigger] only_pair(sides, a, b) && f == fold_of(sides[a], sides[b]);
            assert(a < i && only_pair(sides, a, b));
        }
    }
}

/// The folds of the mesh.
pub fn collect_folds(sides: &Vec<Side>) -> (r: Vec<Fold>)
    ensures
        folds_of(sides@, r@),
{
    let mut out: Vec<Fold> = Vec::new();
    let mut i: usize = 0;
    proof {
        assert forall|f: Fold| #[trigger] out@.contains(f) <==> is_fold(sides@, 0, f) by {
            if is_fold(sides@, 0, f) {
                let (a, b) = choose|a: int, b: int|
                    a < 0 && #[trigger] only_pair(sides@, a, b) && f == fold_of(sides@[a], sides@[b]);
            }
        }
    }
    while i < sides.len()
        invariant
            i <= sides@.len(),
            folds_before(sides@, i as int, out@),
        decreases sides@.len() - i,
    {
        match partner(sides, i) {
            Some(j) => {
                let s: Side = sides[i];
                let lo: usize = if s.a < s.b { s.a } else { s.b };
                let hi: usize = if s.a < s.b { s.b } else { s.a };
                let fold: Fold = Fold {
                    panel: s.panel,
                    p1: lo,
                    p2: hi,
                    p3: s.opposite,
                    p4: sides[j].opposite,
                };
                let mut at: usize = 0;
                while at < out.len() && (out[at].p1 < fold.p1 || (out[at].p1 == fold.p1
                    && out[at].p2 < fold.p2))
                    invariant
                        at <= out@.len(),
                        forall|k: int| 0 <= k < at ==> fold_before(#[trigger] out@[k], fold),
                    decreases out@.len() - at,
                {
                    at += 1;
                }
                proof {
                    assert(fold == fold_of(sides@[i as int], sides@[j as int]));
                    insert_fold(sides@, i as int, j as int, out@, at as int);
                }
                out.insert(at, fold);
            },
            None => {
                proof {
                    skip_fold(sides@, i as int, out@);
                }
            },
        }
        i += 1;
    }
    out
}

} // verus!
