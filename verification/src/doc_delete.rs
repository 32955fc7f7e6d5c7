//! Deleting a point of the document, with all that depends on it.
use crate::doc::{
    bridles_within, lashings_within, panels_within, spars_within, stiff_within, BridleItem,
    EditorDoc, LashingItem, PanelItem, SparItem, StiffJointItem,
};
use crate::pins::members;
use crate::scalar::Vec3;
use std::collections::HashSet;
use vstd::prelude::*;

verus! {

/// The index a point has once the point `gone` is deleted.
pub open spec fn shifted(i: usize, gone: usize) -> usize {
    if i > gone {
        (i - 1) as usize
    } else {
        i
    }
}

fn shift(i: usize, gone: usize) -> (r: usize)
    ensures
        r == shifted(i, gone),
{
    if i > gone {
        i - 1
    } else {
        i
    }
}

pub open spec fn spar_uses(s: SparItem, idx: usize) -> bool {
    s.a == idx || s.b == idx
}

pub open spec fn panel_uses(p: PanelItem, idx: usize) -> bool {
    p.a == idx || p.b == idx || p.c == idx
}

pub open spec fn bridle_uses(b: BridleItem, idx: usize) -> bool {
    b.a == idx || b.b == idx
}

/// How many of the first `n` spars end at a point.
pub open spec fn spar_count(items: Seq<SparItem>, idx: usize, n: nat) -> nat
    decreases n,
{
    if n == 0 {
        0
    } else {
        spar_count(items, idx, (n - 1) as nat) + if spar_uses(items[n - 1], idx) {
            1nat
        } else {
            0nat
        }
    }
}

/// How many of the first `n` panels have a point as a corner.
pub open spec fn panel_count(items: Seq<PanelItem>, idx: usize, n: nat) -> nat
    decreases n,
{
    if n == 0 {
        0
    } else {
        panel_count(items, idx, (n - 1) as nat) + if panel_uses(items[n - 1], idx) {
            1nat
        } else {
            0nat
        }
    }
}

/// How many of the first `n` lines end at a point.
pub open spec fn bridle_count(items: Seq<BridleItem>, idx: usize, n: nat) -> nat
    decreases n,
{
    if n == 0 {
        0
    } else {
        bridle_count(items, idx, (n - 1) as nat) + if bridle_uses(items[n - 1], idx) {
            1nat
        } else {
            0nat
        }
    }
}

/// The spars of the first `n` that do not end at the deleted point, with their
/// points renumbered.
pub open spec fn spars_left(items: Seq<SparItem>, gone: usize, n: nat) -> Seq<SparItem>
    decreases n,
{
    if n == 0 {
        Seq::empty()
    } else {
        let s = items[n - 1];
        let before = spars_left(items, gone, (n - 1) as nat);
        if spar_uses(s, gone) {
            before
        } else {
            before.push(SparItem { a: shifted(s.a, gone), b: shifted(s.b, gone), ..s })
        }
    }
}

/// The panels of the first `n` without the deleted point as a corner, with
/// their points renumbered.
pub open spec fn panels_left(items: Seq<PanelItem>, gone: usize, n: nat) -> Seq<PanelItem>
    decreases n,
{
    if n == 0 {
        Seq::empty()
    } else {
        let p = items[n - 1];
        let before = panels_left(items, gone, (n - 1) as nat);
        if panel_uses(p, gone) {
            before
        } else {
            before.push(
                PanelItem {
                    a: shifted(p.a, gone),
                    b: shifted(p.b, gone),
                    c: shifted(p.c, gone),
                    ..p
                },
            )
        }
    }
}

/// The lines of the first `n` that do not end at the deleted point, with their
/// points renumbered.
pub open spec fn bridles_left(items: Seq<BridleItem>, gone: usize, n: nat) -> Seq<BridleItem>
    decreases n,
{
    if n == 0 {
        Seq::empty()
    } else {
        let b = items[n - 1];
        let before = bridles_left(items, gone, (n - 1) as nat);
        if bridle_uses(b, gone) {
            before
        } else {
            before.push(BridleItem { a: shifted(b.a, gone), b: shifted(b.b, gone), ..b })
        }
    }
}

/// The stiff joints of the first `n` that are not at the deleted point, with
/// their points renumbered.
pub open spec fn stiff_left(items: Seq<StiffJointItem>, gone: usize, n: nat) -> Seq<StiffJointItem>
    decreases n,
{
    if n == 0 {
        Seq::empty()
    } else {
        let s = items[n - 1];
        let before = stiff_left(items, gone, (n - 1) as nat);
        if s.point == gone {
            before
        } else {
            before.push(StiffJointItem { point: shifted(s.point, gone), ..s })
        }
    }
}

/// The lashings of the first `n` that are not at the deleted point, with their
/// points renumbered.
pub open spec fn lashings_left(items: Seq<LashingItem>, gone: usize, n: nat) -> Seq<LashingItem>
    decreases n,
{
    if n == 0 {
        Seq::empty()
    } else {
        let s = items[n - 1];
        let before = lashings_left(items, gone, (n - 1) as nat);
        if s.point == gone {
            before
        } else {
            before.push(LashingItem { point: shifted(s.point, gone), ..s })
        }
    }
}

/// The pins other than the deleted point, renumbered.
pub open spec fn pins_left(pinned: Set<usize>, gone: usize) -> Set<usize> {
    pinned.remove(gone).map(|i: usize| shifted(i, gone))
}

/// The junction, unless it is the deleted point, renumbered.
pub open spec fn junction_left(junction: Option<usize>, gone: usize) -> Option<usize> {
    match junction {
        None => None,
        Some(j) => if j == gone {
            None
        } else {
            Some(shifted(j, gone))
        },
    }
}

/// `after` is `before` without the point `gone` and all that used it.
pub open spec fn point_deleted(before: EditorDoc, after: EditorDoc, gone: usize) -> bool {
    &&& after.points@ == before.points@.remove(gone as int)
    &&& after.spars@ == spars_left(before.spars@, gone, before.spars@.len())
    &&& after.panels@ == panels_left(before.panels@, gone, before.panels@.len())
    &&& after.bridles@ == bridles_left(before.bridles@, gone, before.bridles@.len())
    &&& after.junction == junction_left(before.junction, gone)
    &&& after.pinned@ == pins_left(before.pinned@, gone)
    &&& after.stiff_joints@ == stiff_left(before.stiff_joints@, gone, before.stiff_joints@.len())
    &&& after.lashings@ == lashings_left(before.lashings@, gone, before.lashings@.len())
    &&& after.name == before.name
    &&& after.gravity == before.gravity
    &&& after.duration == before.duration
    &&& after.wind == before.wind
    &&& after.sim == before.sim
    &&& after.junction_pinned == before.junction_pinned
}

fn keep_spars(items: Vec<SparItem>, gone: usize) -> (r: Vec<SparItem>)
    ensures
        r@ == spars_left(items@, gone, items@.len()),
{
    let ghost all = items@;
    let mut out: Vec<SparItem> = Vec::new();
    for item in it: items
        invariant
            it.seq() == all,
            out@ == spars_left(all, gone, it.index() as nat),
    {
        let mut kept: SparItem = item;
        if !(kept.a == gone || kept.b == gone) {
            kept.a = shift(kept.a, gone);
            kept.b = shift(kept.b, gone);
            out.push(kept);
        }
    }
    out
}

fn keep_panels(items: Vec<PanelItem>, gone: usize) -> (r: Vec<PanelItem>)
    ensures
        r@ == panels_left(items@, gone, items@.len()),
{
    let ghost all = items@;
    let mut out: Vec<PanelItem> = Vec::new();
    for item in it: items
        invariant
            it.seq() == all,
            out@ == panels_left(all, gone, it.index() as nat),
    {
        let mut kept: PanelItem = item;
        if !(kept.a == gone || kept.b == gone || kept.c == gone) {
            kept.a = shift(kept.a, gone);
            kept.b = shift(kept.b, gone);
            kept.c = shift(kept.c, gone);
            out.push(kept);
        }
    }
    out
}

fn keep_bridles(items: Vec<BridleItem>, gone: usize) -> (r: Vec<BridleItem>)
    ensures
        r@ == bridles_left(items@, gone, items@.len()),
{
    let ghost all = items@;
    let mut out: Vec<BridleItem> = Vec::new();
    for item in it: items
        invariant
            it.seq() == all,
            out@ == bridles_left(all, gone, it.index() as nat),
    {
        let mut kept: BridleItem = item;
        if !(kept.a == gone || kept.b == gone) {
            kept.a = shift(kept.a, gone);
            kept.b = shift(kept.b, gone);
            out.push(kept);
        }
    }
    out
}

fn keep_stiff(items: Vec<StiffJointItem>, gone: usize) -> (r: Vec<StiffJointItem>)
    ensures
        r@ == stiff_left(items@, gone, items@.len()),
{
    let ghost all = items@;
    let mut out: Vec<StiffJointItem> = Vec::new();
    for item in it: items
        invariant
            it.seq() == all,
            out@ == stiff_left(all, gone, it.index() as nat),
    {
        let mut kept: StiffJointItem = item;
        if !(kept.point == gone) {
            kept.point = shift(kept.point, gone);
            out.push(kept);
        }
    }
    out
}

fn keep_lashings(items: Vec<LashingItem>, gone: usize) -> (r: Vec<LashingItem>)
    ensures
        r@ == lashings_left(items@, gone, items@.len()),
{
    let ghost all = items@;
    let mut out: Vec<LashingItem> = Vec::new();
    for item in it: items
        invariant
            it.seq() == all,
            out@ == lashings_left(all, gone, it.index() as nat),
    {
        let mut kept: LashingItem = item;
        if !(kept.point == gone) {
            kept.point = shift(kept.point, gone);
            out.push(kept);
        }
    }
    out
}

fn keep_pins(pinned: &HashSet<usize>, gone: usize) -> (r: HashSet<usize>)
    ensures
        r@ == pins_left(pinned@, gone),
{
    broadcast use vstd::std_specs::hash::group_hash_axioms;

    let all: Vec<usize> = members(pinned);
    let mut out: HashSet<usize> = HashSet::new();
    let mut k: usize = 0;
    while k < all.len()
        invariant
            k <= all@.len(),
            forall|j: usize| #[trigger]
                out@.contains(j) <==> exists|m: int|
                    0 <= m < k && #[trigger] all@[m] != gone && shifted(all@[m], gone) == j,
        decreases all@.len() - k,
    {
        let i: usize = all[k];
        let ghost before = out@;
        if i != gone {
            out.insert(shift(i, gone));
        }
        proof {
            assert forall|j: usize| #[trigger]
                out@.contains(j) <==> exists|m: int|
                    0 <= m < k + 1 && #[trigger] all@[m] != gone && shifted(all@[m], gone) == j by {
                if before.contains(j) {
                    let m = choose|m: int|
                        0 <= m < k && #[trigger] all@[m] != gone && shifted(all@[m], gone) == j;
                    assert(all@[m] != gone);
                }
                if i != gone && shifted(i, gone) == j {
                    assert(all@[k as int] != gone);
                }
            }
        }
        k += 1;
    }
    proof {
        let left = pins_left(pinned@, gone);
        let rest = pinned@.remove(gone);
        let f = |i: usize| shifted(i, gone);
        assert forall|j: usize| out@.contains(j) <==> left.contains(j) by {
            if out@.contains(j) {
                let m = choose|m: int|
                    0 <= m < all@.len() && #[trigger] all@[m] != gone && shifted(all@[m], gone) == j;
                assert(all@.contains(all@[m]));
                assert(rest.contains(all@[m]) && f(all@[m]) == j);
            }
            if left.contains(j) {
                let i = choose|i: usize| rest.contains(i) && f(i) == j;
                assert(all@.contains(i));
                let m = choose|m: int| 0 <= m < all@.len() && all@[m] == i;
                assert(all@[m] != gone && shifted(all@[m], gone) == j);
            }
        }
        assert(out@ =~= left);
    }
    out
}

impl EditorDoc {
    /// How many spars, panels and lines use a point.
    pub fn dependents_of_point(&self, idx: usize) -> (r: (usize, usize, usize))
        ensures
            r.0 == spar_count(self.spars@, idx, self.spars@.len()),
            r.1 == panel_count(self.panels@, idx, self.panels@.len()),
            r.2 == bridle_count(self.bridles@, idx, self.bridles@.len()),
    {
        let mut spars: usize = 0;
        let mut k: usize = 0;
        while k < self.spars.len()
            invariant
                spars <= k <= self.spars@.len(),
                spars == spar_count(self.spars@, idx, k as nat),
            decreases self.spars@.len() - k,
        {
            if self.spars[k].a == idx || self.spars[k].b == idx {
                spars += 1;
            }
            k += 1;
        }
        let mut panels: usize = 0;
        let mut k: usize = 0;
        while k < self.panels.len()
            invariant
                panels <= k <= self.panels@.len(),
                panels == panel_count(self.panels@, idx, k as nat),
            decreases self.panels@.len() - k,
        {
            if self.panels[k].a == idx || self.panels[k].b == idx || self.panels[k].c == idx {
                panels += 1;
            }
            k += 1;
        }
        let mut bridles: usize = 0;
        let mut k: usize = 0;
        while k < self.bridles.len()
            invariant
                bridles <= k <= self.bridles@.len(),
                bridles == bridle_count(self.bridles@, idx, k as nat),
            decreases self.bridles@.len() - k,
        {
            if self.bridles[k].a == idx || self.bridles[k].b == idx {
                bridles += 1;
            }
            k += 1;
        }
        (spars, panels, bridles)
    }

    /// Removes a point and every element that used it, and renumbers the points
    /// of the elements that remain.
    pub fn delete_point(&mut self, idx: usize)
        requires
            idx < old(self).points@.len(),
        ensures
            point_deleted(*old(self), *final(self), idx),
            old(self).wf() ==> final(self).wf(),
    {
        let ghost before = *self;
        let mut spars: Vec<SparItem> = Vec::new();
        std::mem::swap(&mut spars, &mut self.spars);
        self.spars = keep_spars(spars, idx);
        let mut panels: Vec<PanelItem> = Vec::new();
        std::mem::swap(&mut panels, &mut self.panels);
        self.panels = keep_panels(panels, idx);
        let mut bridles: Vec<BridleItem> = Vec::new();
        std::mem::swap(&mut bridles, &mut self.bridles);
        self.bridles = keep_bridles(bridles, idx);
        self.junction = match self.junction {
            None => None,
            Some(j) => if j == idx {
                None
            } else {
                Some(shift(j, idx))
            },
        };
        self.pinned = keep_pins(&self.pinned, idx);
        let mut stiff: Vec<StiffJointItem> = Vec::new();
        std::mem::swap(&mut stiff, &mut self.stiff_joints);
        self.stiff_joints = keep_stiff(stiff, idx);
        let mut lashings: Vec<LashingItem> = Vec::new();
        std::mem::swap(&mut lashings, &mut self.lashings);
        self.lashings = keep_lashings(lashings, idx);
        self.points.remove(idx);
        proof {
            if before.wf() {
                deletion_keeps_references(before, *self, idx);
            }
        }
    }
}

/// After a deletion every point that is named exists, as before it.
pub proof fn deletion_keeps_references(before: EditorDoc, after: EditorDoc, gone: usize)
    requires
        before.wf(),
        gone < before.points@.len(),
        point_deleted(before, after, gone),
    ensures
        after.wf(),
{
    let n = before.points@.len();
    spars_left_within(before.spars@, gone, before.spars@.len(), n);
    panels_left_within(before.panels@, gone, before.panels@.len(), n);
    bridles_left_within(before.bridles@, gone, before.bridles@.len(), n);
    stiff_left_within(before.stiff_joints@, gone, before.stiff_joints@.len(), n);
    lashings_left_within(before.lashings@, gone, before.lashings@.len(), n);
    assert forall|j: usize| #[trigger] after.pinned@.contains(j) implies j < n - 1 by {
        let rest = before.pinned@.remove(gone);
        let f = |i: usize| shifted(i, gone);
        let i = choose|i: usize| rest.contains(i) && f(i) == j;
        assert(before.pinned@.contains(i));
    }
}

proof fn spars_left_within(items: Seq<SparItem>, gone: usize, m: nat, n: nat)
    requires
        gone < n,
        m <= items.len(),
        spars_within(items, n),
    ensures
        spars_within(spars_left(items, gone, m), (n - 1) as nat),
        spars_left(items, gone, m).len() <= m,
    decreases m,
{
    if m > 0 {
        spars_left_within(items, gone, (m - 1) as nat, n);
        let before = spars_left(items, gone, (m - 1) as nat);
        let after = spars_left(items, gone, m);
        assert forall|k: int| 0 <= k < after.len() implies (#[trigger] after[k]).a < n - 1 && after[k].b < n - 1 by {
            if k < before.len() {
                assert(after[k] == before[k]);
            } else {
                assert(items[m - 1].a < n);
            }
        }
    }
}

proof fn panels_left_within(items: Seq<PanelItem>, gone: usize, m: nat, n: nat)
    requires
        gone < n,
        m <= items.len(),
        panels_within(items, n),
    ensures
        panels_within(panels_left(items, gone, m), (n - 1) as nat),
        panels_left(items, gone, m).len() <= m,
    decreases m,
{
    if m > 0 {
        panels_left_within(items, gone, (m - 1) as nat, n);
        let before = panels_left(items, gone, (m - 1) as nat);
        let after = panels_left(items, gone, m);
        assert forall|k: int| 0 <= k < after.len() implies (#[trigger] after[k]).a < n - 1 && after[k].b < n - 1 && after[k].c < n - 1 by {
            if k < before.len() {
                assert(after[k] == before[k]);
            } else {
                assert(items[m - 1].a < n);
            }
        }
    }
}

proof fn bridles_left_within(items: Seq<BridleItem>, gone: usize, m: nat, n: nat)
    requires
        gone < n,
        m <= items.len(),
        bridles_within(items, n),
    ensures
        bridles_within(bridles_left(items, gone, m), (n - 1) as nat),
        bridles_left(items, gone, m).len() <= m,
    decreases m,
{
    if m > 0 {
        bridles_left_within(items, gone, (m - 1) as nat, n);
        let before = bridles_left(items, gone, (m - 1) as nat);
        let after = bridles_left(items, gone, m);
        assert forall|k: int| 0 <= k < after.len() implies (#[trigger] after[k]).a < n - 1 && after[k].b < n - 1 by {
            if k < before.len() {
                assert(after[k] == before[k]);
            } else {
                assert(items[m - 1].a < n);
            }
        }
    }
}

proof fn stiff_left_within(items: Seq<StiffJointItem>, gone: usize, m: nat, n: nat)
    requires
        gone < n,
        m <= items.len(),
        stiff_within(items, n),
    ensures
        stiff_within(stiff_left(items, gone, m), (n - 1) as nat),
        stiff_left(items, gone, m).len() <= m,
    decreases m,
{
    if m > 0 {
        stiff_left_within(items, gone, (m - 1) as nat, n);
        let before = stiff_left(items, gone, (m - 1) as nat);
        let after = stiff_left(items, gone, m);
        assert forall|k: int| 0 <= k < after.len() implies (#[trigger] after[k]).point < n - 1 by {
            if k < before.len() {
                assert(after[k] == before[k]);
            } else {
                assert(items[m - 1].point < n);
            }
        }
    }
}

proof fn lashings_left_within(items: Seq<LashingItem>, gone: usize, m: nat, n: nat)
    requires
        gone < n,
        m <= items.len(),
        lashings_within(items, n),
    ensures
        lashings_within(lashings_left(items, gone, m), (n - 1) as nat),
        lashings_left(items, gone, m).len() <= m,
    decreases m,
{
    if m > 0 {
        lashings_left_within(items, gone, (m - 1) as nat, n);
        let before = lashings_left(items, gone, (m - 1) as nat);
        let after = lashings_left(items, gone, m);
        assert forall|k: int| 0 <= k < after.len() implies (#[trigger] after[k]).point < n - 1 by {
            if k < before.len() {
                assert(after[k] == before[k]);
            } else {
                assert(items[m - 1].point < n);
            }
        }
    }
}

/// A point other than the deleted one keeps its place: what its new index names
/// is where it was.
pub proof fn deletion_moves_no_point(points: Seq<Vec3>, gone: usize, i: usize)
    requires
        gone < points.len(),
        i < points.len(),
        i != gone,
    ensures
        shifted(i, gone) < points.len() - 1,
        points.remove(gone as int)[shifted(i, gone) as int] == points[i as int],
{
}

/// Deleting a point removes exactly the spars, panels and lines that were
/// counted as depending on it.
pub proof fn deletion_removes_dependents(before: EditorDoc, after: EditorDoc, gone: usize)
    requires
        point_deleted(before, after, gone),
    ensures
        after.spars@.len() + spar_count(before.spars@, gone, before.spars@.len())
            == before.spars@.len(),
        after.panels@.len() + panel_count(before.panels@, gone, before.panels@.len())
            == before.panels@.len(),
        after.bridles@.len() + bridle_count(before.bridles@, gone, before.bridles@.len())
            == before.bridles@.len(),
{
    spars_left_count(before.spars@, gone, before.spars@.len());
    panels_left_count(before.panels@, gone, before.panels@.len());
    bridles_left_count(before.bridles@, gone, before.bridles@.len());
}

proof fn spars_left_count(items: Seq<SparItem>, gone: usize, n: nat)
    requires
        n <= items.len(),
    ensures
        spars_left(items, gone, n).len() + spar_count(items, gone, n) == n,
    decreases n,
{
    if n > 0 {
        spars_left_count(items, gone, (n - 1) as nat);
    }
}

proof fn panels_left_count(items: Seq<PanelItem>, gone: usize, n: nat)
    requires
        n <= items.len(),
    ensures
        panels_left(items, gone, n).len() + panel_count(items, gone, n) == n,
    decreases n,
{
    if n > 0 {
        panels_left_count(items, gone, (n - 1) as nat);
    }
}

proof fn bridles_left_count(items: Seq<BridleItem>, gone: usize, n: nat)
    requires
        n <= items.len(),
    ensures
        bridles_left(items, gone, n).len() + bridle_count(items, gone, n) == n,
    decreases n,
{
    if n > 0 {
        bridles_left_count(items, gone, (n - 1) as nat);
    }
}

} // verus!
