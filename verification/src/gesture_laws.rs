//! What the editor's gestures, keys and deletions come to.
use crate::doc::{BridleItem, EditorDoc, LashingItem, PanelItem, SparItem, StiffJointItem};
use crate::doc_delete::{
    bridle_count, bridles_left, lashings_left, panel_count, panels_left, point_deleted, shifted,
    spar_count, spars_left, stiff_left,
};
use crate::editor::{
    boxed, cleared, inspected_of, keys_applied, moved_points, phase_of, pressed, released,
    restored_points, selection_deleted, starts_within, App, GizmoHit, Keys, Phase, ScreenPos, Start,
};
use crate::pick_laws::boxes_hold_what_is_inside;
use crate::scalar::Vec3;
use crate::selection::{is_selection, Selection, Tool};
use crate::snapshot::Single;
use crate::tools::{marked, selects_existing};
use vstd::prelude::*;

verus! {

/// The number that a point has once the point `gone` is deleted.
pub open spec fn renumbered(i: usize, gone: usize) -> usize {
    if i < gone {
        i
    } else {
        (i - 1) as usize
    }
}

/// How many of the first `n` spars do not end at a point.
pub open spec fn spars_off_below(items: Seq<SparItem>, gone: usize, n: nat) -> nat
    decreases n,
{
    if n == 0 {
        0
    } else {
        spars_off_below(items, gone, (n - 1) as nat) + if items[n - 1].a == gone
            || items[n - 1].b == gone {
            0nat
        } else {
            1nat
        }
    }
}

/// Where a point is deleted, the spars that do not end at it stay, in their order, on the
/// same points by their new numbers, and nothing else of them changes.
pub proof fn spars_stay_without_the_point(items: Seq<SparItem>, gone: usize, k: int, n: nat)
    requires
        0 <= k < n <= items.len(),
    ensures
        ({
            let left = spars_left(items, gone, n);
            let at = spars_off_below(items, gone, k as nat) as int;
            &&& left.len() == spars_off_below(items, gone, n)
            &&& items[k].a != gone && items[k].b != gone ==> {
                &&& at < left.len()
                &&& left[at] == (SparItem {
                        a: renumbered(items[k].a, gone),
                        b: renumbered(items[k].b, gone),
                        ..items[k]
                    })
            }
        }),
    decreases n,
{
    spars_left_len(items, gone, (n - 1) as nat);
    if k < n - 1 {
        spars_stay_without_the_point(items, gone, k, (n - 1) as nat);
    }
}

proof fn spars_left_len(items: Seq<SparItem>, gone: usize, n: nat)
    ensures
        spars_left(items, gone, n).len() == spars_off_below(items, gone, n),
    decreases n,
{
    if n > 0 {
        spars_left_len(items, gone, (n - 1) as nat);
    }
}

/// How many of the first `n` panels do not have a point as a corner.
pub open spec fn panels_off_below(items: Seq<PanelItem>, gone: usize, n: nat) -> nat
    decreases n,
{
    if n == 0 {
        0
    } else {
        panels_off_below(items, gone, (n - 1) as nat) + if items[n - 1].a == gone
            || items[n - 1].b == gone || items[n - 1].c == gone {
            0nat
        } else {
            1nat
        }
    }
}

/// Where a point is deleted, the panels without it as a corner stay, in their order, on the
/// same points by their new numbers, and nothing else of them changes.
pub proof fn panels_stay_without_the_point(items: Seq<PanelItem>, gone: usize, k: int, n: nat)
    requires
        0 <= k < n <= items.len(),
    ensures
        ({
            let left = panels_left(items, gone, n);
            let at = panels_off_below(items, gone, k as nat) as int;
            &&& left.len() == panels_off_below(items, gone, n)
            &&& items[k].a != gone && items[k].b != gone && items[k].c != gone ==> {
                &&& at < left.len()
                &&& left[at] == (PanelItem {
                        a: renumbered(items[k].a, gone),
                        b: renumbered(items[k].b, gone),
                        c: renumbered(items[k].c, gone),
                        ..items[k]
                    })
            }
        }),
    decreases n,
{
    panels_left_len(items, gone, (n - 1) as nat);
    if k < n - 1 {
        panels_stay_without_the_point(items, gone, k, (n - 1) as nat);
    }
}

proof fn panels_left_len(items: Seq<PanelItem>, gone: usize, n: nat)
    ensures
        panels_left(items, gone, n).len() == panels_off_below(items, gone, n),
    decreases n,
{
    if n > 0 {
        panels_left_len(items, gone, (n - 1) as nat);
    }
}

/// How many of the first `n` lines do not end at a point.
pub open spec fn lines_off_below(items: Seq<BridleItem>, gone: usize, n: nat) -> nat
    decreases n,
{
    if n == 0 {
        0
    } else {
        lines_off_below(items, gone, (n - 1) as nat) + if items[n - 1].a == gone
            || items[n - 1].b == gone {
            0nat
        } else {
            1nat
        }
    }
}

/// Where a point is deleted, the lines that do not end at it stay, in their order, on the
/// same points by their new numbers, and nothing else of them changes.
pub proof fn lines_stay_without_the_point(items: Seq<BridleItem>, gone: usize, k: int, n: nat)
    requires
        0 <= k < n <= items.len(),
    ensures
        ({
            let left = bridles_left(items, gone, n);
            let at = lines_off_below(items, gone, k as nat) as int;
            &&& left.len() == lines_off_below(items, gone, n)
            &&& items[k].a != gone && items[k].b != gone ==> {
                &&& at < left.len()
                &&& left[at] == (BridleItem {
                        a: renumbered(items[k].a, gone),
                        b: renumbered(items[k].b, gone),
                        ..items[k]
                    })
            }
        }),
    decreases n,
{
    lines_left_len(items, gone, (n - 1) as nat);
    if k < n - 1 {
        lines_stay_without_the_point(items, gone, k, (n - 1) as nat);
    }
}

proof fn lines_left_len(items: Seq<BridleItem>, gone: usize, n: nat)
    ensures
        bridles_left(items, gone, n).len() == lines_off_below(items, gone, n),
    decreases n,
{
    if n > 0 {
        lines_left_len(items, gone, (n - 1) as nat);
    }
}

/// How many of the first `n` stiff joints are not at a point.
pub open spec fn stiff_joints_off_below(items: Seq<StiffJointItem>, gone: usize, n: nat) -> nat
    decreases n,
{
    if n == 0 {
        0
    } else {
        stiff_joints_off_below(items, gone, (n - 1) as nat) + if items[n - 1].point == gone {
            0nat
        } else {
            1nat
        }
    }
}

/// Where a point is deleted, the stiff joints elsewhere stay, in their order, on the
/// same points by their new numbers, and nothing else of them changes.
pub proof fn stiff_joints_stay_without_the_point(
    items: Seq<StiffJointItem>,
    gone: usize,
    k: int,
    n: nat,
)
    requires
        0 <= k < n <= items.len(),
    ensures
        ({
            let left = stiff_left(items, gone, n);
            let at = stiff_joints_off_below(items, gone, k as nat) as int;
            &&& left.len() == stiff_joints_off_below(items, gone, n)
            &&& items[k].point != gone ==> {
                &&& at < left.len()
                &&& left[at] == (StiffJointItem {
                        point: renumbered(items[k].point, gone),
                        ..items[k]
                    })
            }
        }),
    decreases n,
{
    stiff_joints_left_len(items, gone, (n - 1) as nat);
    if k < n - 1 {
        stiff_joints_stay_without_the_point(items, gone, k, (n - 1) as nat);
    }
}

proof fn stiff_joints_left_len(items: Seq<StiffJointItem>, gone: usize, n: nat)
    ensures
        stiff_left(items, gone, n).len() == stiff_joints_off_below(items, gone, n),
    decreases n,
{
    if n > 0 {
        stiff_joints_left_len(items, gone, (n - 1) as nat);
    }
}

/// How many of the first `n` lashings are not at a point.
pub open spec fn lashings_off_below(items: Seq<LashingItem>, gone: usize, n: nat) -> nat
    decreases n,
{
    if n == 0 {
        0
    } else {
        lashings_off_below(items, gone, (n - 1) as nat) + if items[n - 1].point == gone {
            0nat
        } else {
            1nat
        }
    }
}

/// Where a point is deleted, the lashings elsewhere stay, in their order, on the
/// same points by their new numbers, and nothing else of them changes.
pub proof fn lashings_stay_without_the_point(items: Seq<LashingItem>, gone: usize, k: int, n: nat)
    requires
        0 <= k < n <= items.len(),
    ensures
        ({
            let left = lashings_left(items, gone, n);
            let at = lashings_off_below(items, gone, k as nat) as int;
            &&& left.len() == lashings_off_below(items, gone, n)
            &&& items[k].point != gone ==> {
                &&& at < left.len()
                &&& left[at] == (LashingItem {
                        point: renumbered(items[k].point, gone),
                        ..items[k]
                    })
            }
        }),
    decreases n,
{
    lashings_left_len(items, gone, (n - 1) as nat);
    if k < n - 1 {
        lashings_stay_without_the_point(items, gone, k, (n - 1) as nat);
    }
}

proof fn lashings_left_len(items: Seq<LashingItem>, gone: usize, n: nat)
    ensures
        lashings_left(items, gone, n).len() == lashings_off_below(items, gone, n),
    decreases n,
{
    if n > 0 {
        lashings_left_len(items, gone, (n - 1) as nat);
    }
}

/// Where a point is deleted, the other points keep their places, the junction
/// and the pins are the same points by their new numbers, and the settings are
/// untouched. A junction or pin that was deleted is gone.
pub proof fn deletion_keeps_the_other_points(
    before: EditorDoc,
    after: EditorDoc,
    gone: usize,
    i: usize,
)
    requires
        point_deleted(before, after, gone),
        gone < before.points@.len(),
    ensures
        after.points@.len() == before.points@.len() - 1,
        i < gone ==> after.points@[i as int] == before.points@[i as int],
        gone < i < before.points@.len() ==> after.points@[i - 1] == before.points@[i as int],
        before.junction is None ==> after.junction is None,
        before.junction == Some(gone) ==> after.junction is None,
        before.junction == Some(i) && i < gone ==> after.junction == Some(i),
        before.junction == Some(i) && i > gone ==> after.junction == Some((i - 1) as usize),
        i < gone ==> after.pinned@.contains(i) == before.pinned@.contains(i),
        i > gone ==> after.pinned@.contains((i - 1) as usize) == before.pinned@.contains(i),
        after.name == before.name,
        after.gravity == before.gravity,
        after.duration == before.duration,
        after.wind == before.wind,
        after.sim == before.sim,
        after.junction_pinned == before.junction_pinned,
{
    let f = |i: usize| shifted(i, gone);
    let rest = before.pinned@.remove(gone);
    assert(after.pinned@ =~= rest.map(f));
    if before.pinned@.contains(i) && i != gone {
        assert(rest.contains(i));
        assert(rest.map(f).contains(f(i)));
    }
    if i < gone && after.pinned@.contains(i) {
        let j = choose|j: usize| rest.contains(j) && f(j) == i;
        assert(j == i);
    }
    if i > gone && after.pinned@.contains((i - 1) as usize) {
        let j = choose|j: usize| rest.contains(j) && f(j) == (i - 1) as usize;
        assert(j == i);
    }
}

proof fn spar_counted(items: Seq<SparItem>, i: usize, n: nat)
    requires
        n <= items.len(),
    ensures
        spar_count(items, i, n) > 0 <==> exists|j: int|
            0 <= j < n && ((#[trigger] items[j]).a == i || items[j].b == i),
    decreases n,
{
    if n > 0 {
        spar_counted(items, i, (n - 1) as nat);
        if spar_count(items, i, n) > 0 && spar_count(items, i, (n - 1) as nat) == 0 {
            assert(items[n - 1].a == i || items[n - 1].b == i);
        }
        if exists|j: int| 0 <= j < n && ((#[trigger] items[j]).a == i || items[j].b == i) {
            let j = choose|j: int| 0 <= j < n && ((#[trigger] items[j]).a == i || items[j].b == i);
            if j < n - 1 {
                assert(spar_count(items, i, (n - 1) as nat) > 0);
            }
        }
    }
}

proof fn panel_counted(items: Seq<PanelItem>, i: usize, n: nat)
    requires
        n <= items.len(),
    ensures
        panel_count(items, i, n) > 0 <==> exists|j: int|
            0 <= j < n && ((#[trigger] items[j]).a == i || items[j].b == i || items[j].c == i),
    decreases n,
{
    if n > 0 {
        panel_counted(items, i, (n - 1) as nat);
        if panel_count(items, i, n) > 0 && panel_count(items, i, (n - 1) as nat) == 0 {
            assert(items[n - 1].a == i || items[n - 1].b == i || items[n - 1].c == i);
        }
        if exists|j: int|
            0 <= j < n && ((#[trigger] items[j]).a == i || items[j].b == i || items[j].c == i) {
            let j = choose|j: int|
                0 <= j < n && ((#[trigger] items[j]).a == i || items[j].b == i || items[j].c == i);
            if j < n - 1 {
                assert(panel_count(items, i, (n - 1) as nat) > 0);
            }
        }
    }
}

proof fn bridle_counted(items: Seq<BridleItem>, i: usize, n: nat)
    requires
        n <= items.len(),
    ensures
        bridle_count(items, i, n) > 0 <==> exists|j: int|
            0 <= j < n && ((#[trigger] items[j]).a == i || items[j].b == i),
    decreases n,
{
    if n > 0 {
        bridle_counted(items, i, (n - 1) as nat);
        if bridle_count(items, i, n) > 0 && bridle_count(items, i, (n - 1) as nat) == 0 {
            assert(items[n - 1].a == i || items[n - 1].b == i);
        }
        if exists|j: int| 0 <= j < n && ((#[trigger] items[j]).a == i || items[j].b == i) {
            let j = choose|j: int| 0 <= j < n && ((#[trigger] items[j]).a == i || items[j].b == i);
            if j < n - 1 {
                assert(bridle_count(items, i, (n - 1) as nat) > 0);
            }
        }
    }
}

/// Some spar, panel or line is at the point.
pub open spec fn is_used(doc: EditorDoc, i: usize) -> bool {
    ||| exists|j: int|
        0 <= j < doc.spars@.len() && ((#[trigger] doc.spars@[j]).a == i || doc.spars@[j].b == i)
    ||| exists|j: int|
        0 <= j < doc.panels@.len() && ((#[trigger] doc.panels@[j]).a == i || doc.panels@[j].b == i
            || doc.panels@[j].c == i)
    ||| exists|j: int|
        0 <= j < doc.bridles@.len() && ((#[trigger] doc.bridles@[j]).a == i || doc.bridles@[j].b
            == i)
}

/// Deleting one selected point that something uses only asks, and leaves the
/// document and the selection as they are; one that nothing uses is deleted at
/// once, and nothing is selected any more.
pub proof fn used_points_are_asked_about(before: App, after: App, i: usize)
    requires
        selection_deleted(before, after),
        before.sel@ == seq![Selection::Point(i)],
    ensures
        is_used(before.doc, i) ==> after == (App { pending_delete: Some(i), ..before }),
        !is_used(before.doc, i) ==> {
            &&& point_deleted(before.doc, after.doc, i)
            &&& after.sel@.len() == 0
            &&& after.pending_delete == before.pending_delete
            &&& after.tool_state.pending@.len() == 0
            &&& after.session == before.session
        },
{
    spar_counted(before.doc.spars@, i, before.doc.spars@.len());
    panel_counted(before.doc.panels@, i, before.doc.panels@.len());
    bridle_counted(before.doc.bridles@, i, before.doc.bridles@.len());
    assert(before.sel@[0] == Selection::Point(i));
}

/// Deleting one selected spar, panel or line takes it out and leaves the others,
/// in their order, and all points.
pub proof fn single_elements_are_taken_out(before: App, after: App, i: usize, j: int)
    requires
        selection_deleted(before, after),
        before.sel@.len() == 1,
        selects_existing(before.doc, before.sel@),
    ensures
        before.sel@[0] == Selection::Spar(i) ==> {
            &&& after.sel@.len() == 0
            &&& after.doc == (EditorDoc { spars: after.doc.spars, ..before.doc })
            &&& after.doc.spars@.len() == before.doc.spars@.len() - 1
            &&& 0 <= j < i ==> after.doc.spars@[j] == before.doc.spars@[j]
            &&& i < j < before.doc.spars@.len() ==> after.doc.spars@[j - 1] == before.doc.spars@[j]
        },
        before.sel@[0] == Selection::Panel(i) ==> {
            &&& after.sel@.len() == 0
            &&& after.doc == (EditorDoc { panels: after.doc.panels, ..before.doc })
            &&& after.doc.panels@.len() == before.doc.panels@.len() - 1
            &&& 0 <= j < i ==> after.doc.panels@[j] == before.doc.panels@[j]
            &&& i < j < before.doc.panels@.len() ==> after.doc.panels@[j - 1]
                == before.doc.panels@[j]
        },
        before.sel@[0] == Selection::Bridle(i) ==> {
            &&& after.sel@.len() == 0
            &&& after.doc == (EditorDoc { bridles: after.doc.bridles, ..before.doc })
            &&& after.doc.bridles@.len() == before.doc.bridles@.len() - 1
            &&& 0 <= j < i ==> after.doc.bridles@[j] == before.doc.bridles@[j]
            &&& i < j < before.doc.bridles@.len() ==> after.doc.bridles@[j - 1]
                == before.doc.bridles@[j]
        },
{
}

/// A drag puts each point at its target and moves no other point.
pub proof fn drags_reach_their_targets(
    points: Seq<Vec3>,
    starts: Seq<Start>,
    targets: Seq<Vec3>,
    n: nat,
)
    requires
        n <= starts.len() == targets.len(),
        starts_within(starts, points.len()),
        forall|a: int, b: int|
            0 <= a < b < starts.len() ==> (#[trigger] starts[a]).point != (
            #[trigger] starts[b]).point,
    ensures
        moved_points(points, starts, targets, n).len() == points.len(),
        forall|k: int|
            0 <= k < n ==> moved_points(points, starts, targets, n)[(
            #[trigger] starts[k]).point as int] == targets[k],
        forall|i: int|
            0 <= i < points.len() && (forall|k: int|
                0 <= k < n ==> (#[trigger] starts[k]).point != i)
                ==> #[trigger] moved_points(points, starts, targets, n)[i] == points[i],
    decreases n,
{
    if n > 0 {
        drags_reach_their_targets(points, starts, targets, (n - 1) as nat);
    }
}

/// A drag that is given up puts each point back where it began and moves no
/// other point.
pub proof fn drags_are_given_up(points: Seq<Vec3>, starts: Seq<Start>, n: nat)
    requires
        n <= starts.len(),
        starts_within(starts, points.len()),
        forall|a: int, b: int|
            0 <= a < b < starts.len() ==> (#[trigger] starts[a]).point != (
            #[trigger] starts[b]).point,
    ensures
        restored_points(points, starts, n).len() == points.len(),
        forall|k: int|
            0 <= k < n ==> restored_points(points, starts, n)[(#[trigger] starts[k]).point as int]
                == starts[k].pos,
        forall|i: int|
            0 <= i < points.len() && (forall|k: int|
                0 <= k < n ==> (#[trigger] starts[k]).point != i)
                ==> #[trigger] restored_points(points, starts, n)[i] == points[i],
    decreases n,
{
    if n > 0 {
        drags_are_given_up(points, starts, (n - 1) as nat);
    }
}

proof fn removal_takes_one(s: Seq<Selection>, x: Selection, y: Selection)
    requires
        s.no_duplicates(),
    ensures
        s.remove_value(x).no_duplicates(),
        s.remove_value(x).contains(y) <==> s.contains(y) && y != x,
{
    let i = s.index_of_first(x);
    s.index_of_first_ensures(x);
    if s.contains(x) {
        let k = i->0;
        let r = s.remove_value(x);
        assert(r == s.remove(k));
        assert forall|a: int, b: int| 0 <= a < r.len() && 0 <= b < r.len() && a != b implies r[a]
            != r[b] by {
            let a1 = if a < k {
                a
            } else {
                a + 1
            };
            let b1 = if b < k {
                b
            } else {
                b + 1
            };
            assert(s[a1] != s[b1]);
        }
        if s.contains(y) && y != x {
            let j = choose|j: int| 0 <= j < s.len() && s[j] == y;
            let j1 = if j < k {
                j
            } else {
                j - 1
            };
            assert(r[j1] == y);
        }
        if r.contains(y) {
            let j = choose|j: int| 0 <= j < r.len() && r[j] == y;
            let j1 = if j < k {
                j
            } else {
                j + 1
            };
            assert(s[j1] == y);
            assert(j1 != k);
        }
    }
}

/// A selection box adds what it holds, or takes it out, and leaves the rest of
/// the selection.
pub proof fn boxes_add_or_take_out(
    sel: Seq<Selection>,
    hits: Seq<usize>,
    subtract: bool,
    n: nat,
    x: Selection,
)
    requires
        sel.no_duplicates(),
        n <= hits.len(),
    ensures
        boxed(sel, hits, subtract, n).no_duplicates(),
        !subtract ==> (boxed(sel, hits, subtract, n).contains(x) <==> sel.contains(x) || exists|k: int|
            0 <= k < n && x == Selection::Point(#[trigger] hits[k])),
        subtract ==> (boxed(sel, hits, subtract, n).contains(x) <==> sel.contains(x) && !exists|k: int|
            0 <= k < n && x == Selection::Point(#[trigger] hits[k])),
    decreases n,
{
    if n > 0 {
        boxes_add_or_take_out(sel, hits, subtract, (n - 1) as nat, x);
        let before = boxed(sel, hits, subtract, (n - 1) as nat);
        let s = Selection::Point(hits[n - 1]);
        let after = boxed(sel, hits, subtract, n);
        if subtract {
            removal_takes_one(before, s, x);
        } else if !before.contains(s) {
            assert(after == before.push(s));
            assert(after[before.len() as int] == s);
            if before.contains(x) {
                let k = choose|k: int| 0 <= k < before.len() && before[k] == x;
                assert(after[k] == x);
            }
            if after.contains(x) && x != s {
                let k = choose|k: int| 0 <= k < after.len() && after[k] == x;
                assert(before[k] == x);
            }
        }
        if x == s {
            assert(x == Selection::Point(hits[n - 1]));
        }
    }
}

/// Releasing a box of four pixels or more across selects the points inside it:
/// they replace the selection, or are added to it with shift, or taken out of it
/// with command. A smaller one, a click on nothing, clears the selection unless
/// a modifier is held. Where no box was begun, the selection stays. Whatever was
/// dragged is let go.
pub proof fn releases_select_what_is_inside(
    before: App,
    after: App,
    drawn: Option<Single>,
    inside: Seq<bool>,
    command: bool,
    shift: bool,
    x: Selection,
)
    requires
        released(before, after, drawn, inside, command, shift),
        is_selection(before.sel@),
        inside.len() <= usize::MAX,
    ensures
        after.dragging is None,
        after.gizmo_drag is None,
        after.box_select_start is None,
        after.doc == before.doc,
        before.box_select_start is None || drawn is None ==> after.sel@ == before.sel@,
        before.box_select_start is Some && drawn is Some ==> {
            let held = x is Point && x->Point_0 < inside.len() && inside[x->Point_0 as int];
            if 0x4080_0000 <= drawn->0.bits <= 0x7F80_0000 {
                after.sel@.contains(x) == if command {
                    before.sel@.contains(x) && !held
                } else if shift {
                    before.sel@.contains(x) || held
                } else {
                    held
                }
            } else if command || shift {
                after.sel@ == before.sel@
            } else {
                after.sel@.len() == 0
            }
        },
{
    if before.box_select_start is Some && drawn is Some {
        let hits = marked(inside, inside.len());
        let base = if !command && !shift {
            Seq::<Selection>::empty()
        } else {
            before.sel@
        };
        boxes_add_or_take_out(base, hits, command, hits.len(), x);
        if x is Point {
            boxes_hold_what_is_inside(inside, inside.len(), x->Point_0);
            if hits.contains(x->Point_0) {
                let k = choose|k: int| 0 <= k < hits.len() && hits[k] == x->Point_0;
                assert(x == Selection::Point(hits[k]));
            }
        }
        if exists|k: int| 0 <= k < hits.len() && x == Selection::Point(#[trigger] hits[k]) {
            let k = choose|k: int| 0 <= k < hits.len() && x == Selection::Point(#[trigger] hits[k]);
            assert(hits.contains(hits[k]));
        }
    }
}

/// A press on an element selects it alone; with shift it joins the selection,
/// with command it leaves it. The pointer then drags it if it is a point, unless
/// command is held. A press on nothing begins a box there and keeps the
/// selection. A press on a handle begins a drag of the selection along it.
pub proof fn presses_select_what_is_under_them(
    before: App,
    after: App,
    gizmo: Option<GizmoHit>,
    picked: Option<Selection>,
    pos: Option<ScreenPos>,
    command: bool,
    shift: bool,
    x: Selection,
)
    requires
        pressed(before, after, gizmo, picked, pos, command, shift),
        is_selection(before.sel@),
    ensures
        after.doc == before.doc,
        after.tool_state == before.tool_state,
        gizmo is Some ==> {
            &&& after.sel@ == before.sel@
            &&& after.gizmo_drag is Some
            &&& after.gizmo_drag->0.axis == gizmo->0.axis
            &&& after.gizmo_drag->0.kind == gizmo->0.kind
            &&& after.dragging is None
            &&& after.box_select_start is None
        },
        gizmo is None && picked is None ==> after == before,
        gizmo is None && picked == Some(Selection::Nothing) ==> {
            &&& after.sel@ == before.sel@
            &&& after.box_select_start == pos
            &&& after.dragging is None
            &&& after.gizmo_drag is None
        },
        gizmo is None && picked is Some && picked->0 != Selection::Nothing ==> {
            &&& after.box_select_start is None
            &&& after.gizmo_drag is None
            &&& command ==> after.sel@.contains(x) == (before.sel@.contains(x) && x != picked->0)
            &&& !command && shift ==> after.sel@.contains(x) == (before.sel@.contains(x) || x
                == picked->0)
            &&& !command && !shift ==> after.sel@.contains(x) == (x == picked->0)
            &&& command ==> after.dragging is None
            &&& !command && picked->0 is Point ==> after.dragging == Some(picked->0->Point_0)
            &&& !(picked->0 is Point) ==> after.dragging is None
        },
{
    if gizmo is None && picked is Some && picked->0 != Selection::Nothing {
        let s = picked->0;
        removal_takes_one(before.sel@, s, x);
        if !command && !shift {
            assert(seq![s][0] == s);
            assert(seq![s].contains(s));
        } else if !command {
            let b = before.sel@;
            assert(b.push(s)[b.len() as int] == s);
            if b.contains(x) {
                let k = choose|k: int| 0 <= k < b.len() && b[k] == x;
                assert(b.push(s)[k] == x);
            }
            if b.push(s).contains(x) && x != s {
                let k = choose|k: int| 0 <= k < b.push(s).len() && b.push(s)[k] == x;
                assert(b[k] == x);
            }
        }
    }
}

/// Each tool has its key: Q, P, S, F, B, J, N, K and L take the selection, point,
/// spar, panel, line, junction, pin, stiff-joint and lashing tool in hand. Of
/// several keys the one latest in that list counts; without one the tool stays.
pub proof fn keys_take_tools(keys: Keys)
    ensures
        keys.l ==> keys.tool() == Some(Tool::Lashing),
        !keys.l && keys.k ==> keys.tool() == Some(Tool::StiffJoint),
        !keys.l && !keys.k && keys.n ==> keys.tool() == Some(Tool::Pin),
        !keys.l && !keys.k && !keys.n && keys.j ==> keys.tool() == Some(Tool::Junction),
        !keys.l && !keys.k && !keys.n && !keys.j && keys.b ==> keys.tool() == Some(Tool::Bridle),
        !keys.l && !keys.k && !keys.n && !keys.j && !keys.b && keys.f ==> keys.tool() == Some(
            Tool::Panel,
        ),
        !keys.l && !keys.k && !keys.n && !keys.j && !keys.b && !keys.f && keys.s ==> keys.tool()
            == Some(Tool::Spar),
        !keys.l && !keys.k && !keys.n && !keys.j && !keys.b && !keys.f && !keys.s && keys.p
            ==> keys.tool() == Some(Tool::AddPoint),
        !keys.l && !keys.k && !keys.n && !keys.j && !keys.b && !keys.f && !keys.s && !keys.p
            && keys.q ==> keys.tool() == Some(Tool::Select),
        keys.tool() is None <==> !(keys.l || keys.k || keys.n || keys.j || keys.b || keys.f
            || keys.s || keys.p || keys.q),
{
}

/// Escape gives up whatever is drawn, dragged or boxed, and a tool's key gives up
/// what was drawn; other keys touch neither. No key but these changes anything
/// before a deletion.
pub proof fn escape_gives_up(before: App, after: App, keys: Keys)
    requires
        keys_applied(before, after, keys),
    ensures
        keys.escape ==> after.gizmo_drag is None && after.box_select_start is None,
        !keys.escape ==> after.gizmo_drag == before.gizmo_drag && after.box_select_start
            == before.box_select_start && after.doc.points@ == before.doc.points@,
        keys.escape || keys.tool() is Some ==> after.tool_state.pending@.len() == 0,
        !keys.escape && keys.tool() is None ==> after.tool_state.pending@
            == before.tool_state.pending@,
        keys.tool() is None ==> after.tool_state.tool == before.tool_state.tool,
        keys.tool() is Some ==> after.tool_state.tool == keys.tool()->0,
        keys.escape && before.gizmo_drag is None ==> after.doc.points@ == before.doc.points@,
        keys.escape && before.gizmo_drag is Some ==> after.doc.points@ == restored_points(
            before.doc.points@,
            before.gizmo_drag->0.starts@,
            before.gizmo_drag->0.starts@.len(),
        ),
        after.sel == before.sel,
        after.session == before.session,
        after.mode == before.mode,
{
}

/// A button that goes down presses, one that stays down holds, and one that is
/// not down is up.
pub proof fn buttons_go_down_once(was_down: bool)
    ensures
        phase_of(true, false) == Phase::Press,
        phase_of(true, true) == Phase::Hold,
        phase_of(false, was_down) == Phase::Up,
{
}

/// What is inspected is the one selected element, where it exists.
pub proof fn one_element_is_inspected(doc: EditorDoc, sel: Seq<Selection>, s: Selection)
    ensures
        sel.len() != 1 ==> inspected_of(doc, sel) == Selection::Nothing,
        sel == seq![s] && selects_existing(doc, sel) ==> inspected_of(doc, sel) == s,
        sel == seq![s] && !selects_existing(doc, sel) ==> inspected_of(doc, sel)
            == Selection::Nothing,
{
    if sel == seq![s] {
        assert(sel[0] == s);
    }
}

/// A cleared editor has nothing selected, dragged, boxed or half drawn, the
/// selection tool in hand, and no simulation.
pub proof fn cleared_editors_start_over(a: App)
    requires
        cleared(a),
    ensures
        a.sel@.len() == 0,
        a.tool_state.tool == Tool::Select,
        a.tool_state.pending@.len() == 0,
        a.gizmo_drag is None,
        a.box_select_start is None,
        a.session is None,
{
}

} // verus!
