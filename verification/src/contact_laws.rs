//! Which particles and panels are tested against each other, and which of them
//! touch.
use crate::collision::{
    adjacent, candidates, candidates_of, contacts, ties, Candidate, Sample,
};
use crate::constraints::DistanceConstraint;
use crate::scalar::{Scalar, Vec3};
use crate::world::CanopyPanel;
use vstd::prelude::*;

verus! {

/// The particle is a corner of the panel, or a distance constraint has it at one
/// end and a corner of the panel at the other.
pub open spec fn neighbours(cs: Seq<DistanceConstraint>, panel: CanopyPanel, p: usize) -> bool {
    let corners = set![panel.p1, panel.p2, panel.p3];
    corners.contains(p) || exists|k: int, q: usize|
        #![trigger cs[k], corners.contains(q)]
        0 <= k < cs.len() && corners.contains(q) && set![cs[k].p1, cs[k].p2] == set![p, q]
}

proof fn neighbours_are_adjacent(cs: Seq<DistanceConstraint>, panel: CanopyPanel, p: usize)
    ensures
        neighbours(cs, panel, p) == adjacent(cs, panel, p),
{
    let corners = set![panel.p1, panel.p2, panel.p3];
    if neighbours(cs, panel, p) && !corners.contains(p) {
        let (k, q) = choose|k: int, q: usize|
            #![trigger cs[k], corners.contains(q)]
            0 <= k < cs.len() && corners.contains(q) && set![cs[k].p1, cs[k].p2] == set![p, q];
        let ends = set![cs[k].p1, cs[k].p2];
        let pair = set![p, q];
        assert(ends.contains(cs[k].p1) && ends.contains(cs[k].p2));
        assert(pair.contains(cs[k].p1) && pair.contains(cs[k].p2));
        assert(pair.contains(p) && pair.contains(q));
        assert(ends.contains(p) && ends.contains(q));
        assert(ties(cs[k], panel, p));
    }
    if adjacent(cs, panel, p) && !corners.contains(p) {
        let k = choose|k: int| 0 <= k < cs.len() && ties(#[trigger] cs[k], panel, p);
        let q = if cs[k].p1 == p && corners.contains(cs[k].p2) {
            cs[k].p2
        } else {
            cs[k].p1
        };
        assert(set![cs[k].p1, cs[k].p2] =~= set![p, q]);
        assert(corners.contains(q));
    }
}

proof fn candidates_of_one(
    cs: Seq<DistanceConstraint>,
    panels: Seq<CanopyPanel>,
    p: usize,
    t: nat,
    x: Candidate,
)
    requires
        t <= panels.len() <= usize::MAX,
    ensures
        candidates_of(cs, panels, p as int, t).contains(x) <==> x.particle == p && x.panel < t
            && !neighbours(cs, panels[x.panel as int], p),
    decreases t,
{
    let all = candidates_of(cs, panels, p as int, t);
    if t > 0 {
        candidates_of_one(cs, panels, p, (t - 1) as nat, x);
        let before = candidates_of(cs, panels, p as int, (t - 1) as nat);
        let last = Candidate { particle: p, panel: (t - 1) as usize };
        neighbours_are_adjacent(cs, panels[t - 1], p);
        if all.contains(x) {
            let k = choose|k: int| 0 <= k < all.len() && all[k] == x;
            if k < before.len() {
                assert(before[k] == x);
            }
        }
        if before.contains(x) {
            let k = choose|k: int| 0 <= k < before.len() && before[k] == x;
            assert(all[k] == x);
        }
        if !neighbours(cs, panels[t - 1], p) {
            assert(all[before.len() as int] == last);
        }
    }
}

/// Every particle is tested against every panel that it is no neighbour of, and
/// against no other.
pub proof fn all_that_can_touch_is_tested(
    cs: Seq<DistanceConstraint>,
    panels: Seq<CanopyPanel>,
    n: nat,
    x: Candidate,
)
    requires
        n <= usize::MAX,
        panels.len() <= usize::MAX,
    ensures
        candidates(cs, panels, n).contains(x) <==> x.particle < n && x.panel < panels.len()
            && !neighbours(cs, panels[x.panel as int], x.particle),
    decreases n,
{
    if n > 0 {
        all_that_can_touch_is_tested(cs, panels, (n - 1) as nat, x);
        let before = candidates(cs, panels, (n - 1) as nat);
        let own = candidates_of(cs, panels, n - 1, panels.len());
        let all = candidates(cs, panels, n);
        candidates_of_one(cs, panels, (n - 1) as usize, panels.len(), x);
        if all.contains(x) {
            let k = choose|k: int| 0 <= k < all.len() && all[k] == x;
            if k < before.len() {
                assert(before[k] == x);
            } else {
                assert(own[k - before.len()] == x);
            }
        }
        if before.contains(x) {
            let k = choose|k: int| 0 <= k < before.len() && before[k] == x;
            assert(all[k] == x);
        }
        if own.contains(x) {
            let k = choose|k: int| 0 <= k < own.len() && own[k] == x;
            assert(all[before.len() + k] == x);
        }
    }
}

proof fn candidates_of_one_ascend(
    cs: Seq<DistanceConstraint>,
    panels: Seq<CanopyPanel>,
    p: usize,
    t: nat,
    i: int,
    j: int,
)
    requires
        t <= panels.len() <= usize::MAX,
        0 <= i < j < candidates_of(cs, panels, p as int, t).len(),
    ensures
        candidates_of(cs, panels, p as int, t)[i].panel < candidates_of(
            cs,
            panels,
            p as int,
            t,
        )[j].panel,
    decreases t,
{
    let before = candidates_of(cs, panels, p as int, (t - 1) as nat);
    if j < before.len() {
        candidates_of_one_ascend(cs, panels, p, (t - 1) as nat, i, j);
    } else {
        assert(before.contains(before[i]));
        candidates_of_one(cs, panels, p, (t - 1) as nat, before[i]);
    }
}

/// The tests come by particle and then by panel, none twice.
pub proof fn tests_come_in_order(
    cs: Seq<DistanceConstraint>,
    panels: Seq<CanopyPanel>,
    n: nat,
    i: int,
    j: int,
)
    requires
        n <= usize::MAX,
        panels.len() <= usize::MAX,
        0 <= i < j < candidates(cs, panels, n).len(),
    ensures
        ({
            let a = candidates(cs, panels, n)[i];
            let b = candidates(cs, panels, n)[j];
            a.particle < b.particle || (a.particle == b.particle && a.panel < b.panel)
        }),
    decreases n,
{
    let before = candidates(cs, panels, (n - 1) as nat);
    let own = candidates_of(cs, panels, n - 1, panels.len());
    let p = (n - 1) as usize;
    if j < before.len() {
        tests_come_in_order(cs, panels, (n - 1) as nat, i, j);
    } else {
        let y = own[j - before.len()];
        assert(own.contains(y));
        candidates_of_one(cs, panels, p, panels.len(), y);
        if i < before.len() {
            assert(before.contains(before[i]));
            all_that_can_touch_is_tested(cs, panels, (n - 1) as nat, before[i]);
        } else {
            let x = own[i - before.len()];
            assert(own.contains(x));
            candidates_of_one(cs, panels, p, panels.len(), x);
            candidates_of_one_ascend(
                cs,
                panels,
                p,
                panels.len(),
                i - before.len(),
                j - before.len(),
            );
        }
    }
}

/// How many of the first `n` samples are closer than a centimetre.
pub open spec fn close_below(samples: Seq<Sample>, n: nat) -> nat
    decreases n,
{
    if n == 0 {
        0
    } else {
        close_below(samples, (n - 1) as nat) + if samples[n - 1].distance.less(
            Scalar { bits: 0x3F84_7AE1_47AE_147B },
        ) {
            1nat
        } else {
            0nat
        }
    }
}

proof fn close_below_grows(samples: Seq<Sample>, m: nat, n: nat)
    requires
        m <= n,
    ensures
        close_below(samples, m) <= close_below(samples, n),
    decreases n,
{
    if m < n {
        close_below_grows(samples, m, (n - 1) as nat);
    }
}

proof fn as_many_contacts(
    panels: Seq<CanopyPanel>,
    pairs: Seq<Candidate>,
    samples: Seq<Sample>,
    n: nat,
)
    ensures
        contacts(panels, pairs, samples, n).len() == close_below(samples, n),
    decreases n,
{
    if n > 0 {
        as_many_contacts(panels, pairs, samples, (n - 1) as nat);
    }
}

/// A test that finds less than a centimetre gives a contact, after those of the
/// tests before it, and no other test gives one. The contact is between the
/// particle and the panel's corners, as they are listed; it has the measured
/// depth and closest point, and no load. It points towards the particle, or
/// along the panel's normal for one closer than a micrometre, or up where the
/// panel has none.
pub proof fn close_tests_give_contacts(
    panels: Seq<CanopyPanel>,
    pairs: Seq<Candidate>,
    samples: Seq<Sample>,
    k: int,
    n: nat,
)
    requires
        0 <= k < n <= samples.len(),
    ensures
        contacts(panels, pairs, samples, n).len() == close_below(samples, n),
        ({
            let s = samples[k];
            let panel = panels[pairs[k].panel as int];
            let found = contacts(panels, pairs, samples, n);
            let at = close_below(samples, k as nat) as int;
            let micro = Scalar { bits: 0x3EB0_C6F7_A0B5_ED8D };
            let negligible = Scalar { bits: 0x3D71_9799_812D_EA11 };
            let zero = Scalar { bits: 0 };
            s.distance.less(Scalar { bits: 0x3F84_7AE1_47AE_147B }) ==> {
                &&& at < found.len()
                &&& found[at].p_i == pairs[k].particle
                &&& found[at].p_a == panel.p1
                &&& found[at].p_b == panel.p2
                &&& found[at].p_c == panel.p3
                &&& found[at].depth == s.depth
                &&& found[at].u == s.u
                &&& found[at].v == s.v
                &&& found[at].w == s.w
                &&& found[at].lambda == zero
                &&& micro.less(s.distance) ==> found[at].normal == s.direction
                &&& !micro.less(s.distance) && negligible.less(s.tri_normal_sq)
                    ==> found[at].normal == s.tri_normal
                &&& !micro.less(s.distance) && !negligible.less(s.tri_normal_sq)
                    ==> found[at].normal == (Vec3 {
                    x: zero,
                    y: Scalar { bits: 0x3FF0_0000_0000_0000 },
                    z: zero,
                })
            }
        }),
    decreases n,
{
    let m = (n - 1) as nat;
    as_many_contacts(panels, pairs, samples, n);
    as_many_contacts(panels, pairs, samples, m);
    if k < m {
        close_tests_give_contacts(panels, pairs, samples, k, m);
        close_below_grows(samples, k as nat + 1, m);
    }
}

} // verus!
