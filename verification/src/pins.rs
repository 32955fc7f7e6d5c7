//! Sets of point indices in a definite order.
use crate::scalar::{Scalar, Vec3};
use std::collections::HashSet;
use vstd::prelude::*;

verus! {

/// `a` is the same number as `b`.
pub open spec fn same_value(a: Scalar, b: Scalar) -> bool {
    a.rank() == b.rank()
}

/// `a` comes before `b` when points are ordered by their coordinates.
pub open spec fn point_before(a: Vec3, b: Vec3) -> bool {
    a.x.rank() < b.x.rank() || (a.x.rank() == b.x.rank() && (a.y.rank() < b.y.rank() || (a.y.rank()
        == b.y.rank() && a.z.rank() < b.z.rank())))
}

/// `a` and `b` are at the same place.
pub open spec fn same_place(a: Vec3, b: Vec3) -> bool {
    same_value(a.x, b.x) && same_value(a.y, b.y) && same_value(a.z, b.z)
}

/// The list has the members of `set`, each once.
pub open spec fn lists(order: Seq<usize>, set: Set<usize>) -> bool {
    &&& order.no_duplicates()
    &&& forall|i: usize| #[trigger] order.contains(i) <==> set.contains(i)
}

/// The members of a set, in some order.
pub fn members(set: &HashSet<usize>) -> (r: Vec<usize>)
    ensures
        lists(r@, set@),
{
    broadcast use vstd::std_specs::hash::group_hash_axioms;

    let mut out: Vec<usize> = Vec::new();
    for x in it: set.iter()
        invariant
            out@.len() == it.index(),
            forall|k: int| 0 <= k < it.index() ==> #[trigger] out@[k] == *it.seq()[k],
    {
        out.push(*x);
    }
    proof {
        let all = vstd::std_specs::iter::IteratorSpec::remaining(
            &vstd::std_specs::hash::spec_hash_keys_iter(set),
        );
        assert(out@ =~= all.unref());
        assert forall|i: usize| #[trigger] out@.contains(i) <==> set@.contains(i) by {
            assert(out@.to_set().contains(i) <==> set@.contains(i));
        }
    }
    out
}

/// Comparing the coordinates of the two points, one by one up to the first that
/// differ, meets only numbers.
pub open spec fn comparable(a: Vec3, b: Vec3) -> bool {
    &&& !a.x.nan() && !b.x.nan()
    &&& same_value(a.x, b.x) ==> {
        &&& !a.y.nan() && !b.y.nan()
        &&& same_value(a.y, b.y) ==> !a.z.nan() && !b.z.nan()
    }
}

/// Any two different points that the set names are comparable.
pub open spec fn all_comparable(points: Seq<Vec3>, set: Set<usize>) -> bool {
    forall|i: usize, j: usize|
        #![trigger set.contains(i), set.contains(j)]
        set.contains(i) && set.contains(j) && i != j ==> comparable(
            points[i as int],
            points[j as int],
        )
}

/// Point `i` comes before point `j`: by their coordinates, and by their
/// indices where they are at the same place.
pub open spec fn pin_before(points: Seq<Vec3>, i: usize, j: usize) -> bool {
    point_before(points[i as int], points[j as int]) || (same_place(
        points[i as int],
        points[j as int],
    ) && i < j)
}

/// The members of `set` in the order of the points they name.
pub open spec fn pin_order(points: Seq<Vec3>, set: Set<usize>, order: Seq<usize>) -> bool {
    &&& lists(order, set)
    &&& forall|a: int, b: int|
        #![trigger order[a], order[b]]
        0 <= a < b < order.len() ==> pin_before(points, order[a], order[b])
}

/// The members of `set` in ascending order.
pub open spec fn ascending_members(set: Set<usize>, order: Seq<usize>) -> bool {
    &&& lists(order, set)
    &&& forall|a: int, b: int|
        #![trigger order[a], order[b]]
        0 <= a < b < order.len() ==> order[a] < order[b]
}

/// Each point comes before the next: they are ordered by their coordinates, and
/// no two are at the same place.
pub open spec fn in_order(points: Seq<Vec3>) -> bool {
    forall|a: int, b: int|
        #![trigger points[a], points[b]]
        0 <= a < b < points.len() ==> point_before(points[a], points[b])
}

/// One of the points is at the place of `p`.
pub open spec fn place_in(p: Vec3, b: Seq<Vec3>) -> bool {
    exists|j: int| 0 <= j < b.len() && same_place(p, #[trigger] b[j])
}

/// Every point of `a` is at the place of one of `b`.
pub open spec fn places_among(a: Seq<Vec3>, b: Seq<Vec3>) -> bool {
    forall|i: int| 0 <= i < a.len() ==> place_in(#[trigger] a[i], b)
}

/// Two lists in order that name the same places name them alike.
pub proof fn ordered_places_match(a: Seq<Vec3>, b: Seq<Vec3>)
    requires
        in_order(a),
        in_order(b),
        places_among(a, b),
        places_among(b, a),
    ensures
        a.len() == b.len(),
        forall|i: int| 0 <= i < a.len() ==> same_place(#[trigger] a[i], b[i]),
    decreases a.len(),
{
    if a.len() == 0 {
        if b.len() > 0 {
            assert(place_in(b[0], a));
        }
    } else {
        let m = a.len() - 1;
        assert(place_in(a[m], b));
        let j = choose|j: int| 0 <= j < b.len() && same_place(a[m], #[trigger] b[j]);
        let n = b.len() - 1;
        assert(place_in(b[n], a));
        let i = choose|i: int| 0 <= i < a.len() && same_place(b[n], #[trigger] a[i]);
        assert(same_place(a[m], b[n])) by {
            if j < n {
                assert(point_before(b[j], b[n]));
                if i < m {
                    assert(point_before(a[i], a[m]));
                }
            }
        }
        let (a1, b1) = (a.drop_last(), b.drop_last());
        rest_in_order(a, b);
        rest_in_order(b, a);
        ordered_places_match(a1, b1);
        assert forall|k: int| 0 <= k < a.len() implies same_place(#[trigger] a[k], b[k]) by {
            if k < m {
                assert(same_place(a1[k], b1[k]));
            }
        }
    }
}

/// What is left of two such lists without their last points, which match.
proof fn rest_in_order(a: Seq<Vec3>, b: Seq<Vec3>)
    requires
        in_order(a),
        in_order(b),
        a.len() > 0,
        b.len() > 0,
        places_among(a, b),
        same_place(a.last(), b.last()),
    ensures
        in_order(a.drop_last()),
        places_among(a.drop_last(), b.drop_last()),
{
    let (a1, b1) = (a.drop_last(), b.drop_last());
    let m = a.len() - 1;
    assert forall|i: int, j: int|
        #![trigger a1[i], a1[j]]
        0 <= i < j < a1.len() implies point_before(a1[i], a1[j]) by {
        assert(point_before(a[i], a[j]));
    }
    assert forall|i: int| 0 <= i < a1.len() implies place_in(#[trigger] a1[i], b1) by {
        assert(place_in(a[i], b));
        let j = choose|j: int| 0 <= j < b.len() && same_place(a[i], #[trigger] b[j]);
        assert(point_before(a[i], a[m]));
        assert(j < b.len() - 1);
        assert(same_place(a1[i], b1[j]));
    }
}

/// There is one order of given points.
pub proof fn order_is_unique(a: Seq<Vec3>, b: Seq<Vec3>)
    requires
        in_order(a),
        in_order(b),
        forall|p: Vec3| #[trigger] a.contains(p) <==> b.contains(p),
    ensures
        a == b,
{
    assert forall|i: int| 0 <= i < a.len() implies place_in(#[trigger] a[i], b) by {
        assert(a.contains(a[i]));
        let j = choose|j: int| 0 <= j < b.len() && b[j] == a[i];
        assert(same_place(a[i], b[j]));
    }
    assert forall|i: int| 0 <= i < b.len() implies place_in(#[trigger] b[i], a) by {
        assert(b.contains(b[i]));
        assert(a.contains(b[i]));
        let j = choose|j: int| 0 <= j < a.len() && a[j] == b[i];
        assert(same_place(b[i], a[j]));
    }
    ordered_places_match(a, b);
    assert forall|i: int| 0 <= i < a.len() implies a[i] == b[i] by {
        assert(a.contains(a[i]));
        let j = choose|j: int| 0 <= j < b.len() && b[j] == a[i];
        assert(same_place(a[i], b[i]));
        if i < j {
            assert(point_before(b[i], b[j]));
        } else if j < i {
            assert(point_before(b[j], b[i]));
        }
    }
    assert(a =~= b);
}

fn comes_before(points: &Vec<Vec3>, i: usize, j: usize) -> (r: bool)
    requires
        i < points@.len(),
        j < points@.len(),
        comparable(points@[i as int], points@[j as int]),
    ensures
        r == pin_before(points@, i, j),
{
    let a: Vec3 = points[i];
    let b: Vec3 = points[j];
    if a.x.lt(b.x) {
        true
    } else if b.x.lt(a.x) {
        false
    } else if a.y.lt(b.y) {
        true
    } else if b.y.lt(a.y) {
        false
    } else if a.z.lt(b.z) {
        true
    } else if b.z.lt(a.z) {
        false
    } else {
        i < j
    }
}

/// Inserting a new member into a list without duplicates.
proof fn insert_member(s: Seq<usize>, at: int, x: usize)
    requires
        s.no_duplicates(),
        !s.contains(x),
        0 <= at <= s.len(),
    ensures
        s.insert(at, x).no_duplicates(),
        forall|i: usize| #[trigger] s.insert(at, x).contains(i) <==> s.contains(i) || i == x,
{
    let t = s.insert(at, x);
    assert forall|a: int, b: int| 0 <= a < t.len() && 0 <= b < t.len() && a != b implies t[a]
        != t[b] by {
        let a0: int = if a < at { a } else { a - 1 };
        let b0: int = if b < at { b } else { b - 1 };
        if a != at {
            assert(t[a] == s[a0]);
            assert(s.contains(s[a0]));
        }
        if b != at {
            assert(t[b] == s[b0]);
            assert(s.contains(s[b0]));
        }
    }
    assert forall|i: usize| #[trigger] t.contains(i) <==> s.contains(i) || i == x by {
        if t.contains(i) {
            let a = choose|a: int| 0 <= a < t.len() && t[a] == i;
            let a0: int = if a < at { a } else { a - 1 };
            if a != at {
                assert(s[a0] == i);
            }
        }
        if s.contains(i) {
            let a0 = choose|a: int| 0 <= a < s.len() && s[a] == i;
            let a: int = if a0 < at { a0 } else { a0 + 1 };
            assert(t[a] == i);
        }
        assert(t[at] == x);
    }
}

/// Orders the members of a set of point indices by the points they name.
pub fn order_pins(points: &Vec<Vec3>, set: &HashSet<usize>) -> (r: Vec<usize>)
    requires
        forall|i: usize| #[trigger] set@.contains(i) ==> i < points@.len(),
        all_comparable(points@, set@),
    ensures
        pin_order(points@, set@, r@),
{
    let all: Vec<usize> = members(set);
    let mut out: Vec<usize> = Vec::new();
    let mut k: usize = 0;
    while k < all.len()
        invariant
            lists(all@, set@),
            forall|i: usize| #[trigger] set@.contains(i) ==> i < points@.len(),
            all_comparable(points@, set@),
            k <= all@.len(),
            out@.no_duplicates(),
            forall|i: usize| #[trigger] out@.contains(i) <==> all@.take(k as int).contains(i),
            forall|a: int, b: int|
                #![trigger out@[a], out@[b]]
                0 <= a < b < out@.len() ==> pin_before(points@, out@[a], out@[b]),
        decreases all@.len() - k,
    {
        let x: usize = all[k];
        let ghost before = out@;
        let ghost taken = all@.take(k as int);
        proof {
            assert(all@.contains(x));
            assert(!taken.contains(x));
            assert forall|i: usize| before.contains(i) implies set@.contains(i) by {
                assert(taken.contains(i));
                let j = choose|j: int| 0 <= j < taken.len() && taken[j] == i;
                assert(all@[j] == i);
                assert(all@.contains(i));
            }
        }
        let mut at: usize = 0;
        let mut stop: bool = false;
        while at < out.len() && !stop
            invariant
                at <= out@.len(),
                set@.contains(x),
                forall|i: usize| #[trigger] out@.contains(i) ==> set@.contains(i),
                forall|i: usize| #[trigger] set@.contains(i) ==> i < points@.len(),
                all_comparable(points@, set@),
                !out@.contains(x),
                forall|a: int| 0 <= a < at ==> pin_before(points@, #[trigger] out@[a], x),
                stop ==> at < out@.len() && !pin_before(points@, out@[at as int], x),
            decreases out@.len() - at, if stop { 0int } else { 1 },
        {
            assert(out@.contains(out@[at as int]));
            if comes_before(points, out[at], x) {
                at += 1;
            } else {
                stop = true;
            }
        }
        proof {
            assert forall|b: int| at <= b < before.len() implies pin_before(
                points@,
                x,
                #[trigger] before[b],
            ) by {
                assert(before.contains(before[b]));
                assert(before.contains(before[at as int]));
                if b > at {
                    assert(pin_before(points@, before[at as int], before[b]));
                }
            }
            insert_member(before, at as int, x);
        }
        out.insert(at, x);
        proof {
            let after = out@;
            assert forall|a: int, b: int|
                #![trigger after[a], after[b]]
                0 <= a < b < after.len() implies pin_before(points@, after[a], after[b]) by {
                let a0: int = if a < at { a } else { a - 1 };
                let b0: int = if b < at { b } else { b - 1 };
                if a == at {
                    assert(after[b] == before[b0]);
                } else if b == at {
                    assert(after[a] == before[a0]);
                } else {
                    assert(after[a] == before[a0] && after[b] == before[b0]);
                }
            }
            let next = all@.take(k as int + 1);
            assert(next =~= taken.push(x));
            assert forall|i: usize| #[trigger] after.contains(i) <==> next.contains(i) by {
                if taken.contains(i) {
                    let j = choose|j: int| 0 <= j < taken.len() && taken[j] == i;
                    assert(next[j] == i);
                }
                if next.contains(i) {
                    let j = choose|j: int| 0 <= j < next.len() && next[j] == i;
                    if j < k {
                        assert(taken[j] == i);
                    }
                }
                assert(next[k as int] == x);
            }
        }
        k += 1;
    }
    proof {
        assert(all@.take(all@.len() as int) =~= all@);
    }
    out
}

/// The members of a set in ascending order.
pub fn sorted_members(set: &HashSet<usize>) -> (r: Vec<usize>)
    ensures
        ascending_members(set@, r@),
{
    let all: Vec<usize> = members(set);
    let mut out: Vec<usize> = Vec::new();
    let mut k: usize = 0;
    while k < all.len()
        invariant
            lists(all@, set@),
            k <= all@.len(),
            out@.no_duplicates(),
            forall|i: usize| #[trigger] out@.contains(i) <==> all@.take(k as int).contains(i),
            forall|a: int, b: int|
                #![trigger out@[a], out@[b]]
                0 <= a < b < out@.len() ==> out@[a] < out@[b],
        decreases all@.len() - k,
    {
        let x: usize = all[k];
        let ghost before = out@;
        let ghost taken = all@.take(k as int);
        assert(!taken.contains(x));
        let mut at: usize = 0;
        while at < out.len() && out[at] < x
            invariant
                at <= out@.len(),
                forall|a: int| 0 <= a < at ==> #[trigger] out@[a] < x,
            decreases out@.len() - at,
        {
            at += 1;
        }
        proof {
            assert forall|b: int| at <= b < before.len() implies x < #[trigger] before[b] by {
                assert(before.contains(before[b]));
                assert(before.contains(before[at as int]));
                if b > at {
                    assert(before[at as int] < before[b]);
                }
            }
            insert_member(before, at as int, x);
        }
        out.insert(at, x);
        proof {
            let after = out@;
            assert forall|a: int, b: int|
                #![trigger after[a], after[b]]
                0 <= a < b < after.len() implies after[a] < after[b] by {
                let a0: int = if a < at { a } else { a - 1 };
                let b0: int = if b < at { b } else { b - 1 };
                if a == at {
                    assert(after[b] == before[b0]);
                } else if b == at {
                    assert(after[a] == before[a0]);
                } else {
                    assert(after[a] == before[a0] && after[b] == before[b0]);
                }
            }
            let next = all@.take(k as int + 1);
            assert(next =~= taken.push(x));
            assert forall|i: usize| #[trigger] after.contains(i) <==> next.contains(i) by {
                if taken.contains(i) {
                    let j = choose|j: int| 0 <= j < taken.len() && taken[j] == i;
                    assert(next[j] == i);
                }
                if next.contains(i) {
                    let j = choose|j: int| 0 <= j < next.len() && next[j] == i;
                    if j < k {
                        assert(taken[j] == i);
                    }
                }
                assert(next[k as int] == x);
            }
        }
        k += 1;
    }
    proof {
        assert(all@.take(all@.len() as int) =~= all@);
    }
    out
}

} // verus!
