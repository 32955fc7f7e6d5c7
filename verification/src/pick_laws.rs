//! What is picked, and what a selection moves.
use crate::doc::{BridleItem, EditorDoc};
use crate::hover::{hovered, Hover};
use crate::scalar::Scalar;
use crate::selection::Selection;
use crate::tools::{
    axis_at, handle_hit, hits_of, line_nodes, marked, moved_by, moves, nearest_hit, nodes_of_line,
    picked, GizmoAxis, LineNode, Probe,
};
use vstd::prelude::*;

verus! {

/// A probe hits where it is not behind the eye and passes closer than its
/// radius, and it hits where it passes.
pub proof fn probes_hit_within_their_radius(probes: Seq<Probe>, k: int)
    requires
        0 <= k < probes.len(),
    ensures
        hits_of(probes).len() == probes.len(),
        ({
            let p = probes[k];
            &&& p.t.less(Scalar { bits: 0 }) ==> hits_of(probes)[k] is None
            &&& !p.distance.less(p.radius) ==> hits_of(probes)[k] is None
            &&& !p.t.less(Scalar { bits: 0 }) && p.distance.less(p.radius) ==> hits_of(probes)[k]
                == Some(p.t)
        }),
{
}

/// All hits are at a distance that is a number.
pub open spec fn all_numbers(hits: Seq<Option<Scalar>>) -> bool {
    forall|k: int| 0 <= k < hits.len() && (#[trigger] hits[k]) is Some ==> !hits[k]->0.nan()
}

/// Hit `b` is the nearest, and nearer than every one before it.
pub open spec fn nearest_first(hits: Seq<Option<Scalar>>, b: int) -> bool {
    &&& 0 <= b < hits.len()
    &&& hits[b] is Some
    &&& forall|k: int|
        0 <= k < hits.len() && (#[trigger] hits[k]) is Some ==> !hits[k]->0.less(hits[b]->0)
    &&& forall|k: int|
        0 <= k < b && (#[trigger] hits[k]) is Some ==> hits[b]->0.less(hits[k]->0)
}

/// Nothing is hit.
pub open spec fn no_hit(hits: Seq<Option<Scalar>>) -> bool {
    forall|k: int| 0 <= k < hits.len() ==> (#[trigger] hits[k]) is None
}

proof fn nearest_among(hits: Seq<Option<Scalar>>, n: nat)
    requires
        n <= hits.len() <= usize::MAX,
        all_numbers(hits),
    ensures
        match nearest_hit(hits, n) {
            Some(b) => nearest_first(hits.take(n as int), b as int),
            None => no_hit(hits.take(n as int)),
        },
    decreases n,
{
    if n > 0 {
        let m = (n - 1) as nat;
        nearest_among(hits, m);
        let old = hits.take(m as int);
        let now = hits.take(n as int);
        assert forall|k: int| 0 <= k < m implies now[k] == old[k] && now[k] == hits[k] by {}
        assert(now[m as int] == hits[m as int]);
        match nearest_hit(hits, n) {
            Some(b) => {
                assert(now[b as int] == hits[b as int]);
                assert forall|k: int|
                    0 <= k < now.len() && (#[trigger] now[k]) is Some implies !now[k]->0.less(
                    now[b as int]->0,
                ) by {
                    if k < m {
                        assert(old[k] is Some);
                    }
                }
                assert forall|k: int|
                    0 <= k < b && (#[trigger] now[k]) is Some implies now[b as int]->0.less(
                    now[k]->0,
                ) by {
                    assert(old[k] is Some);
                    assert(!hits[k]->0.nan());
                }
            },
            None => {
                assert forall|k: int| 0 <= k < now.len() implies (#[trigger] now[k]) is None by {
                    if k < m {
                        assert(old[k] is None);
                    }
                }
            },
        }
    }
}

/// The hit that is found is the nearest, the first of those equally near, and
/// one is found wherever anything is hit.
pub proof fn the_first_nearest_is_found(hits: Seq<Option<Scalar>>)
    requires
        hits.len() <= usize::MAX,
        all_numbers(hits),
    ensures
        match nearest_hit(hits, hits.len()) {
            Some(b) => nearest_first(hits, b as int),
            None => no_hit(hits),
        },
{
    nearest_among(hits, hits.len());
    assert(hits.take(hits.len() as int) =~= hits);
}

/// A point that is hit is picked before anything else, then the nearer of spars
/// and lines, then a panel; of each the nearest. A spar comes before a line that
/// is as near.
pub proof fn points_are_picked_first(
    points: Seq<Option<Scalar>>,
    spars: Seq<Option<Scalar>>,
    bridles: Seq<Option<Scalar>>,
    panels: Seq<Option<Scalar>>,
)
    requires
        points.len() <= usize::MAX,
        spars.len() + bridles.len() <= usize::MAX,
        panels.len() <= usize::MAX,
        all_numbers(points),
        all_numbers(spars),
        all_numbers(bridles),
        all_numbers(panels),
    ensures
        match picked(points, spars, bridles, panels) {
            Selection::Point(i) => nearest_first(points, i as int),
            Selection::Spar(i) => {
                &&& no_hit(points)
                &&& nearest_first(spars, i as int)
                &&& forall|k: int|
                    0 <= k < bridles.len() && (#[trigger] bridles[k]) is Some
                        ==> !bridles[k]->0.less(spars[i as int]->0)
            },
            Selection::Bridle(i) => {
                &&& no_hit(points)
                &&& nearest_first(bridles, i as int)
                &&& forall|k: int|
                    0 <= k < spars.len() && (#[trigger] spars[k]) is Some
                        ==> bridles[i as int]->0.less(spars[k]->0)
            },
            Selection::Panel(i) => {
                &&& no_hit(points)
                &&& no_hit(spars)
                &&& no_hit(bridles)
                &&& nearest_first(panels, i as int)
            },
            Selection::Nothing => no_hit(points) && no_hit(spars) && no_hit(bridles) && no_hit(
                panels,
            ),
        },
{
    let lines = spars + bridles;
    let n = spars.len() as int;
    assert forall|k: int| 0 <= k < lines.len() && (#[trigger] lines[k]) is Some implies !lines[k]->0.nan() by {
        if k < n {
            assert(lines[k] == spars[k]);
        } else {
            assert(lines[k] == bridles[k - n]);
        }
    }
    the_first_nearest_is_found(points);
    the_first_nearest_is_found(lines);
    the_first_nearest_is_found(panels);
    assert forall|k: int| 0 <= k < spars.len() implies #[trigger] spars[k] == lines[k] by {}
    assert forall|k: int| 0 <= k < bridles.len() implies #[trigger] bridles[k] == lines[n + k] by {}
}

/// The nearest of all is hovered, whatever it is; where several are equally near
/// a segment comes before a line and a line before a panel.
pub proof fn the_nearest_is_hovered(
    segments: Seq<Option<Scalar>>,
    lines: Seq<Option<Scalar>>,
    panels: Seq<Option<Scalar>>,
)
    requires
        segments.len() + lines.len() + panels.len() <= usize::MAX,
        all_numbers(segments),
        all_numbers(lines),
        all_numbers(panels),
    ensures
        match hovered(segments, lines, panels) {
            None => no_hit(segments) && no_hit(lines) && no_hit(panels),
            Some(Hover::Segment(i)) => {
                &&& nearest_first(segments, i as int)
                &&& forall|k: int|
                    0 <= k < lines.len() && (#[trigger] lines[k]) is Some ==> !lines[k]->0.less(
                        segments[i as int]->0,
                    )
                &&& forall|k: int|
                    0 <= k < panels.len() && (#[trigger] panels[k]) is Some ==> !panels[k]->0.less(
                        segments[i as int]->0,
                    )
            },
            Some(Hover::Line(i)) => {
                &&& nearest_first(lines, i as int)
                &&& forall|k: int|
                    0 <= k < segments.len() && (#[trigger] segments[k]) is Some
                        ==> lines[i as int]->0.less(segments[k]->0)
                &&& forall|k: int|
                    0 <= k < panels.len() && (#[trigger] panels[k]) is Some ==> !panels[k]->0.less(
                        lines[i as int]->0,
                    )
            },
            Some(Hover::Panel(i)) => {
                &&& nearest_first(panels, i as int)
                &&& forall|k: int|
                    0 <= k < segments.len() && (#[trigger] segments[k]) is Some
                        ==> panels[i as int]->0.less(segments[k]->0)
                &&& forall|k: int|
                    0 <= k < lines.len() && (#[trigger] lines[k]) is Some
                        ==> panels[i as int]->0.less(lines[k]->0)
            },
        },
{
    let all = segments + lines + panels;
    let n = segments.len() as int;
    let m = n + lines.len();
    assert forall|k: int| 0 <= k < all.len() && (#[trigger] all[k]) is Some implies !all[k]->0.nan() by {
        if k < n {
            assert(all[k] == segments[k]);
        } else if k < m {
            assert(all[k] == lines[k - n]);
        } else {
            assert(all[k] == panels[k - m]);
        }
    }
    the_first_nearest_is_found(all);
    assert forall|k: int| 0 <= k < segments.len() implies #[trigger] segments[k] == all[k] by {}
    assert forall|k: int| 0 <= k < lines.len() implies #[trigger] lines[k] == all[n + k] by {}
    assert forall|k: int| 0 <= k < panels.len() implies #[trigger] panels[k] == all[m + k] by {}
}

/// The handles of a gizmo are those of the X, the Y and the Z axis; one that is
/// not there is not hit.
pub proof fn gizmo_handles_are_the_axes(p: Probe)
    ensures
        axis_at(0) == GizmoAxis::X,
        axis_at(1) == GizmoAxis::Y,
        axis_at(2) == GizmoAxis::Z,
        handle_hit(None) is None,
        p.t.less(Scalar { bits: 0 }) || !p.distance.less(p.radius) ==> handle_hit(Some(p)) is None,
        !p.t.less(Scalar { bits: 0 }) && p.distance.less(p.radius) ==> handle_hit(Some(p)) == Some(
            p.t,
        ),
{
}

/// Each axis is a unit vector of its own, and the ring about it is spanned by
/// the other two in their cyclic order.
pub proof fn axes_turn_in_a_circle()
    ensures
        ({
            let one = 0x3FF0_0000_0000_0000u64;
            let x = GizmoAxis::X.unit();
            let y = GizmoAxis::Y.unit();
            let z = GizmoAxis::Z.unit();
            &&& x.x.bits == one && x.y.bits == 0 && x.z.bits == 0
            &&& y.x.bits == 0 && y.y.bits == one && y.z.bits == 0
            &&& z.x.bits == 0 && z.y.bits == 0 && z.z.bits == one
            &&& GizmoAxis::X.turned() == GizmoAxis::Y
            &&& GizmoAxis::Y.turned() == GizmoAxis::Z
            &&& GizmoAxis::Z.turned() == GizmoAxis::X
        }),
{
}

/// A selection moves its points, the ends of its spars and lines and the corners
/// of its panels, and nothing else.
pub proof fn selections_move_their_points(doc: EditorDoc, sels: Seq<Selection>, i: usize)
    ensures
        moved_by(doc, sels, sels.len() as int, i) <==> {
            ||| sels.contains(Selection::Point(i))
            ||| exists|k: usize|
                k < doc.spars@.len() && #[trigger] sels.contains(Selection::Spar(k)) && (
                doc.spars@[k as int].a == i || doc.spars@[k as int].b == i)
            ||| exists|k: usize|
                k < doc.panels@.len() && #[trigger] sels.contains(Selection::Panel(k)) && (
                doc.panels@[k as int].a == i || doc.panels@[k as int].b == i
                    || doc.panels@[k as int].c == i)
            ||| exists|k: usize|
                k < doc.bridles@.len() && #[trigger] sels.contains(Selection::Bridle(k)) && (
                doc.bridles@[k as int].a == i || doc.bridles@[k as int].b == i)
        },
{
    if moved_by(doc, sels, sels.len() as int, i) {
        let k = choose|k: int|
            0 <= k < sels.len() && moves(doc, #[trigger] sels[k], i);
        assert(sels.contains(sels[k]));
    }
    if sels.contains(Selection::Point(i)) {
        let k = choose|k: int| 0 <= k < sels.len() && sels[k] == Selection::Point(i);
        assert(moves(doc, sels[k], i));
    }
    if exists|k: usize|
        k < doc.spars@.len() && #[trigger] sels.contains(Selection::Spar(k)) && (
        doc.spars@[k as int].a == i || doc.spars@[k as int].b == i) {
        let s = choose|k: usize|
            k < doc.spars@.len() && #[trigger] sels.contains(Selection::Spar(k)) && (
            doc.spars@[k as int].a == i || doc.spars@[k as int].b == i);
        let k = choose|k: int| 0 <= k < sels.len() && sels[k] == Selection::Spar(s);
        assert(moves(doc, sels[k], i));
    }
    if exists|k: usize|
        k < doc.panels@.len() && #[trigger] sels.contains(Selection::Panel(k)) && (
        doc.panels@[k as int].a == i || doc.panels@[k as int].b == i || doc.panels@[k as int].c
            == i) {
        let s = choose|k: usize|
            k < doc.panels@.len() && #[trigger] sels.contains(Selection::Panel(k)) && (
            doc.panels@[k as int].a == i || doc.panels@[k as int].b == i || doc.panels@[k as int].c
                == i);
        let k = choose|k: int| 0 <= k < sels.len() && sels[k] == Selection::Panel(s);
        assert(moves(doc, sels[k], i));
    }
    if exists|k: usize|
        k < doc.bridles@.len() && #[trigger] sels.contains(Selection::Bridle(k)) && (
        doc.bridles@[k as int].a == i || doc.bridles@[k as int].b == i) {
        let s = choose|k: usize|
            k < doc.bridles@.len() && #[trigger] sels.contains(Selection::Bridle(k)) && (
            doc.bridles@[k as int].a == i || doc.bridles@[k as int].b == i);
        let k = choose|k: int| 0 <= k < sels.len() && sels[k] == Selection::Bridle(s);
        assert(moves(doc, sels[k], i));
    }
}

/// A line's inner nodes are those strictly between its ends, one fewer than its
/// segments, and all of them can be picked.
pub proof fn inner_nodes_can_be_picked(bridles: Seq<BridleItem>, m: nat, x: LineNode)
    requires
        m <= bridles.len() <= usize::MAX,
    ensures
        line_nodes(bridles, m).contains(x) <==> x.bridle < m && x.segments
            == bridles[x.bridle as int].num_segments && 1 <= x.node < x.segments,
    decreases m,
{
    if m > 0 {
        inner_nodes_can_be_picked(bridles, (m - 1) as nat, x);
        let before = line_nodes(bridles, (m - 1) as nat);
        let own = nodes_of_line(bridles, m - 1);
        let all = line_nodes(bridles, m);
        if all.contains(x) {
            let k = choose|k: int| 0 <= k < all.len() && all[k] == x;
            if k < before.len() {
                assert(before[k] == x);
            } else {
                assert(own[k - before.len()] == x);
            }
        }
        if before.contains(x) {
            let k = choose|k: int| 0 <= k < before.len() && before[k] == x;
            assert(all[k] == x);
        }
        if x.bridle == m - 1 && x.segments == bridles[m - 1].num_segments && 1 <= x.node
            < x.segments {
            assert(own[x.node - 1] == x);
            assert(all[before.len() + x.node - 1] == x);
        }
    }
}

/// The nodes come line by line, from the first end of each to its second.
pub proof fn inner_nodes_come_in_order(bridles: Seq<BridleItem>, m: nat, i: int, j: int)
    requires
        m <= bridles.len() <= usize::MAX,
        0 <= i < j < line_nodes(bridles, m).len(),
    ensures
        ({
            let a = line_nodes(bridles, m)[i];
            let b = line_nodes(bridles, m)[j];
            a.bridle < b.bridle || (a.bridle == b.bridle && a.node < b.node)
        }),
    decreases m,
{
    let before = line_nodes(bridles, (m - 1) as nat);
    if j < before.len() {
        inner_nodes_come_in_order(bridles, (m - 1) as nat, i, j);
    } else if i < before.len() {
        assert(before.contains(before[i]));
        inner_nodes_can_be_picked(bridles, (m - 1) as nat, before[i]);
    }
}

/// A selection box holds exactly the points inside it, in ascending order.
pub proof fn boxes_hold_what_is_inside(inside: Seq<bool>, n: nat, i: usize)
    requires
        n <= inside.len() <= usize::MAX,
    ensures
        marked(inside, n).contains(i) <==> i < n && inside[i as int],
        forall|a: int, b: int|
            #![trigger marked(inside, n)[a], marked(inside, n)[b]]
            0 <= a < b < marked(inside, n).len() ==> marked(inside, n)[a] < marked(inside, n)[b],
        forall|a: int| 0 <= a < marked(inside, n).len() ==> (#[trigger] marked(inside, n)[a]) < n,
    decreases n,
{
    if n > 0 {
        boxes_hold_what_is_inside(inside, (n - 1) as nat, i);
        let before = marked(inside, (n - 1) as nat);
        let all = marked(inside, n);
        if all.contains(i) {
            let k = choose|k: int| 0 <= k < all.len() && all[k] == i;
            if k < before.len() {
                assert(before[k] == i);
            }
        }
        if before.contains(i) {
            let k = choose|k: int| 0 <= k < before.len() && before[k] == i;
            assert(all[k] == i);
        }
        if inside[n - 1] {
            assert(all[before.len() as int] == n - 1);
        }
    }
}

} // verus!
