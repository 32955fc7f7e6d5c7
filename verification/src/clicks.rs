//! What a click with an edit-mode tool does to the document.
use crate::doc::{is_new_bridle, is_new_panel, is_new_spar, EditorDoc};
use crate::scalar::{Scalar, Vec3};
use crate::selection::{Selection, SelectionSet, Tool, ToolState};
use crate::text::{decimal, push_decimal};
use crate::tools::{
    bridle_nodes, hits_of, line_nodes, nearest_hit, pick, pick_point, picked, LineNode, Probe,
};
use vstd::prelude::*;
use vstd::string::*;

verus! {

/// A place in space, and which of the document's points coincide with it.
pub struct Spot {
    pub position: Vec3,
    pub near: Vec<bool>,
}

/// What the ray of a click measures against the document: how it passes the
/// elements and the inner nodes of the lines, where it meets the ground, where
/// the inner nodes are, and how far each point and each node is from the first
/// point picked so far.
pub struct Sight {
    pub points: Vec<Probe>,
    pub spars: Vec<Probe>,
    pub bridles: Vec<Probe>,
    pub panels: Vec<Option<Scalar>>,
    pub nodes: Vec<Probe>,
    pub ground: Option<Spot>,
    pub node_spots: Vec<Spot>,
    pub point_spans: Vec<Scalar>,
    pub node_spans: Vec<Scalar>,
}

impl Sight {
    /// There is one measurement for each thing that is measured.
    pub open spec fn fits(self, doc: EditorDoc) -> bool {
        let n = doc.points@.len();
        let m = line_nodes(doc.bridles@, doc.bridles@.len()).len();
        &&& self.points@.len() == n
        &&& self.spars@.len() == doc.spars@.len()
        &&& self.bridles@.len() == doc.bridles@.len()
        &&& self.panels@.len() == doc.panels@.len()
        &&& self.nodes@.len() == m
        &&& self.ground is Some ==> self.ground->0.near@.len() == n
        &&& self.node_spots@.len() == m
        &&& forall|k: int| 0 <= k < m ==> (#[trigger] self.node_spots@[k]).near@.len() == n
        &&& self.point_spans@.len() == n
        &&& self.node_spans@.len() == m
    }

    /// What the ray picks.
    pub open spec fn target(self) -> Selection {
        picked(
            hits_of(self.points@),
            hits_of(self.spars@),
            hits_of(self.bridles@),
            self.panels@,
        )
    }

    /// Which inner node of the lines it hits.
    pub open spec fn node(self) -> Option<usize> {
        nearest_hit(hits_of(self.nodes@), self.nodes@.len())
    }
}

/// What a click with a drawing tool lands on.
#[derive(Clone, Copy, Debug, PartialEq, Eq, Structural)]
pub enum Aim {
    Missed,
    Point(usize),
    Node(usize),
}

/// A point wherever one is picked; otherwise, for the bridle tool alone, an
/// inner node of a line.
pub open spec fn aim_of(tool: Tool, target: Selection, node: Option<usize>) -> Aim {
    match target {
        Selection::Point(i) => Aim::Point(i),
        _ => if tool == Tool::Bridle && node is Some {
            Aim::Node(node->0)
        } else {
            Aim::Missed
        },
    }
}

/// How a click is aimed.
fn take_aim(tool: Tool, sight: &Sight) -> (r: Aim)
    ensures
        r == aim_of(tool, sight.target(), sight.node()),
        match r {
            Aim::Missed => true,
            Aim::Point(i) => i < sight.points@.len(),
            Aim::Node(k) => k < sight.nodes@.len(),
        },
{
    match pick(&sight.points, &sight.spars, &sight.bridles, &sight.panels) {
        Selection::Point(i) => Aim::Point(i),
        _ => if tool == Tool::Bridle {
            match pick_point(&sight.nodes) {
                Some(k) => Aim::Node(k),
                None => Aim::Missed,
            }
        } else {
            Aim::Missed
        },
    }
}

/// The document after a point is welded or added at the spot; `i` is its index.
pub open spec fn welded_at(before: EditorDoc, after: EditorDoc, spot: Spot, i: usize) -> bool {
    &&& i == EditorDoc::weld_index(spot.near@, 0)
    &&& after.points@ == if i < before.points@.len() {
        before.points@
    } else {
        before.points@.push(spot.position)
    }
    &&& after == (EditorDoc { points: after.points, ..before })
}

/// The point that the aim gives, after the document got one there if it had
/// none.
pub open spec fn landed(
    before: EditorDoc,
    after: EditorDoc,
    sight: Sight,
    aim: Aim,
    i: usize,
) -> bool {
    match aim {
        Aim::Missed => false,
        Aim::Point(p) => i == p && after == before,
        Aim::Node(k) => welded_at(before, after, sight.node_spots@[k as int], i),
    }
}

/// How far the point that was landed on is from the first one picked.
pub open spec fn span_of(before: EditorDoc, sight: Sight, aim: Aim, i: usize) -> Scalar {
    if i < before.points@.len() {
        sight.point_spans@[i as int]
    } else {
        sight.node_spans@[aim->Node_0 as int]
    }
}

/// The points picked so far and another one; picking the last one again
/// changes nothing.
pub open spec fn picked_with(pending: Seq<usize>, i: usize) -> Seq<usize> {
    if pending.len() > 0 && pending.last() == i {
        pending
    } else {
        pending.push(i)
    }
}

/// How many points a tool needs.
pub open spec fn needed(tool: Tool) -> nat {
    if tool == Tool::Panel {
        3
    } else {
        2
    }
}

/// The document after a tool drew its element through the picked points.
pub open spec fn drawn(
    before: EditorDoc,
    after: EditorDoc,
    tool: Tool,
    pts: Seq<usize>,
    span: Scalar,
) -> bool {
    match tool {
        Tool::Spar => {
            &&& after.spars@ == before.spars@.push(after.spars@.last())
            &&& is_new_spar(after.spars@.last(), before.spars@.len() + 1, pts[0], pts[1])
            &&& after == (EditorDoc { spars: after.spars, ..before })
        },
        Tool::Bridle => {
            &&& after.bridles@ == before.bridles@.push(after.bridles@.last())
            &&& is_new_bridle(
                after.bridles@.last(),
                before.bridles@.len() + 1,
                pts[0],
                pts[1],
                span,
            )
            &&& after == (EditorDoc { bridles: after.bridles, ..before })
        },
        Tool::Panel => {
            &&& after.panels@ == before.panels@.push(after.panels@.last())
            &&& is_new_panel(after.panels@.last(), before.panels@.len() + 1, pts[0], pts[1], pts[2])
            &&& after == (EditorDoc { panels: after.panels, ..before })
        },
        _ => false,
    }
}

/// The element that a tool draws next.
pub open spec fn next_element(doc: EditorDoc, tool: Tool) -> Selection {
    match tool {
        Tool::Spar => Selection::Spar(doc.spars@.len() as usize),
        Tool::Bridle => Selection::Bridle(doc.bridles@.len() as usize),
        Tool::Panel => Selection::Panel(doc.panels@.len() as usize),
        _ => Selection::Nothing,
    }
}

/// What is said of a click that snapped to an inner node of a line.
pub open spec fn snap_text(doc: EditorDoc, n: LineNode) -> Seq<char> {
    "snapped to node "@ + decimal(n.node as nat) + "/"@ + decimal(n.segments as nat) + " of "@
        + doc.bridles@[n.bridle as int].name@
}

/// The status line after a click: a text for a snapped click, nothing
/// otherwise.
pub open spec fn says(doc: EditorDoc, aim: Aim, r: Option<String>) -> bool {
    match aim {
        Aim::Node(k) => r is Some && r->0@ == snap_text(
            doc,
            line_nodes(doc.bridles@, doc.bridles@.len())[k as int],
        ),
        _ => r is None,
    }
}

/// What a click with a drawing tool does, the aim once taken: it picks a point
/// more, and draws the element as soon as there are enough.
pub open spec fn drawing_clicked(
    doc: EditorDoc,
    mid: EditorDoc,
    after: EditorDoc,
    state: ToolState,
    state_after: ToolState,
    sel: Seq<Selection>,
    sel_after: Seq<Selection>,
    sight: Sight,
    aim: Aim,
    i: usize,
) -> bool {
    let pts = picked_with(state.pending@, i);
    &&& landed(doc, mid, sight, aim, i)
    &&& if pts.len() >= needed(state.tool) {
        &&& state_after.pending@ == Seq::<usize>::empty()
        &&& drawn(mid, after, state.tool, pts, span_of(doc, sight, aim, i))
        &&& sel_after == seq![next_element(doc, state.tool)]
    } else {
        &&& state_after.pending@ == pts
        &&& after == mid
        &&& sel_after == sel
    }
}

/// Nothing changed.
pub open spec fn untouched(
    doc: EditorDoc,
    after: EditorDoc,
    state: ToolState,
    state_after: ToolState,
    sel: Seq<Selection>,
    sel_after: Seq<Selection>,
) -> bool {
    &&& after == doc
    &&& state_after.pending@ == state.pending@
    &&& sel_after == sel
}

/// What a tool that works on one point does to it.
pub open spec fn point_worked(doc: EditorDoc, after: EditorDoc, tool: Tool, i: usize) -> bool {
    match tool {
        Tool::Junction => after == (EditorDoc { junction: Some(i), ..doc }),
        Tool::Pin => {
            &&& after.pinned@ == if doc.pinned@.contains(i) {
                doc.pinned@.remove(i)
            } else {
                doc.pinned@.insert(i)
            }
            &&& after == (EditorDoc { pinned: after.pinned, ..doc })
        },
        Tool::StiffJoint => {
            &&& after.stiff_joints@ == EditorDoc::stiff_toggled(doc.stiff_joints@, i)
            &&& after == (EditorDoc { stiff_joints: after.stiff_joints, ..doc })
        },
        Tool::Lashing => {
            &&& after.lashings@ == EditorDoc::lashing_toggled(doc.lashings@, i)
            &&& after == (EditorDoc { lashings: after.lashings, ..doc })
        },
        _ => false,
    }
}

/// The inner nodes of the first lines belong to these lines.
proof fn node_has_line(doc: EditorDoc, m: nat, k: int)
    requires
        m <= doc.bridles@.len() <= usize::MAX,
        0 <= k < line_nodes(doc.bridles@, m).len(),
    ensures
        line_nodes(doc.bridles@, m)[k].bridle < m,
    decreases m,
{
    if m > 0 {
        let before = line_nodes(doc.bridles@, (m - 1) as nat);
        if k < before.len() {
            node_has_line(doc, (m - 1) as nat, k);
        }
    }
}

fn snap_message(doc: &EditorDoc, k: usize) -> (r: String)
    requires
        k < line_nodes(doc.bridles@, doc.bridles@.len()).len(),
    ensures
        r@ == snap_text(*doc, line_nodes(doc.bridles@, doc.bridles@.len())[k as int]),
{
    let nodes: Vec<LineNode> = bridle_nodes(doc);
    let count: usize = doc.bridles.len();
    proof {
        node_has_line(*doc, count as nat, k as int);
    }
    let n: LineNode = nodes[k];
    let mut s: String = String::from_str("snapped to node ");
    push_decimal(&mut s, n.node);
    s.append("/");
    push_decimal(&mut s, n.segments);
    s.append(" of ");
    s.append(doc.bridles[n.bridle].name.as_str());
    s
}

/// The picked points are points of the document.
pub open spec fn pending_within(pending: Seq<usize>, n: nat) -> bool {
    forall|k: int| 0 <= k < pending.len() ==> (#[trigger] pending[k]) < n
}

/// Every reference is to a point of the document, those of the points picked so
/// far included.
pub open spec fn consistent(doc: EditorDoc, state: ToolState) -> bool {
    doc.wf() && pending_within(state.pending@, doc.points@.len())
}

/// Working on a point of the document keeps every reference within it.
proof fn work_keeps_references(doc: EditorDoc, after: EditorDoc, tool: Tool, i: usize)
    requires
        doc.wf(),
        i < doc.points@.len(),
        point_worked(doc, after, tool, i),
    ensures
        after.wf(),
{
    let n = doc.points@.len();
    let s = doc.stiff_joints@;
    let k = EditorDoc::stiff_at(s, i, 0);
    assert forall|j: int| 0 <= j < after.stiff_joints@.len() implies (
    #[trigger] after.stiff_joints@[j]).point < n by {
        if tool == Tool::StiffJoint && k < s.len() {
            let j0: int = if j < k { j } else { j + 1 };
            assert(after.stiff_joints@[j] == s[j0]);
        } else if j < s.len() {
            assert(after.stiff_joints@[j] == s[j]);
        }
    }
    let l = doc.lashings@;
    let m = EditorDoc::lashing_at(l, i, 0);
    assert forall|j: int| 0 <= j < after.lashings@.len() implies (
    #[trigger] after.lashings@[j]).point < n by {
        if tool == Tool::Lashing && m < l.len() {
            let j0: int = if j < m { j } else { j + 1 };
            assert(after.lashings@[j] == l[j0]);
        } else if j < l.len() {
            assert(after.lashings@[j] == l[j]);
        }
    }
}

/// Drawing through points of the document keeps every reference within it.
proof fn drawing_keeps_references(
    doc: EditorDoc,
    after: EditorDoc,
    tool: Tool,
    pts: Seq<usize>,
    span: Scalar,
)
    requires
        doc.wf(),
        pending_within(pts, doc.points@.len()),
        pts.len() >= needed(tool),
        drawn(doc, after, tool, pts, span),
    ensures
        after.wf(),
{
    let n = doc.points@.len();
    assert(pts[0] < n && pts[1] < n);
    assert forall|j: int| 0 <= j < after.spars@.len() implies (#[trigger] after.spars@[j]).a < n
        && after.spars@[j].b < n by {
        if j < doc.spars@.len() {
            assert(after.spars@[j] == doc.spars@[j]);
        }
    }
    assert forall|j: int| 0 <= j < after.bridles@.len() implies (#[trigger] after.bridles@[j]).a < n
        && after.bridles@[j].b < n by {
        if j < doc.bridles@.len() {
            assert(after.bridles@[j] == doc.bridles@[j]);
        }
    }
    assert forall|j: int| 0 <= j < after.panels@.len() implies (#[trigger] after.panels@[j]).a < n
        && after.panels@[j].b < n && after.panels@[j].c < n by {
        if j < doc.panels@.len() {
            assert(after.panels@[j] == doc.panels@[j]);
        } else {
            assert(pts[2] < n);
        }
    }
}

/// More points keep every reference within the document.
proof fn points_keep_references(doc: EditorDoc, after: EditorDoc)
    requires
        doc.wf(),
        doc.points@.len() <= after.points@.len(),
        after == (EditorDoc { points: after.points, ..doc }),
    ensures
        after.wf(),
{
}

/// A click with the spar, bridle or panel tool.
fn click_drawing(
    doc: &mut EditorDoc,
    state: &mut ToolState,
    sel: &mut SelectionSet,
    sight: &Sight,
) -> (r: Option<String>)
    requires
        sight.fits(*old(doc)),
        old(state).tool == Tool::Spar || old(state).tool == Tool::Bridle || old(state).tool
            == Tool::Panel,
        old(doc).spars@.len() < usize::MAX,
        old(doc).bridles@.len() < usize::MAX,
        old(doc).panels@.len() < usize::MAX,
    ensures
        final(state).tool == old(state).tool,
        consistent(*old(doc), *old(state)) ==> consistent(*final(doc), *final(state)),
        ({
            let aim = aim_of(old(state).tool, sight.target(), sight.node());
            &&& says(*old(doc), aim, r)
            &&& if aim == Aim::Missed {
                untouched(
                    *old(doc),
                    *final(doc),
                    *old(state),
                    *final(state),
                    old(sel)@,
                    final(sel)@,
                )
            } else {
                exists|mid: EditorDoc, i: usize| #[trigger]
                    drawing_clicked(
                        *old(doc),
                        mid,
                        *final(doc),
                        *old(state),
                        *final(state),
                        old(sel)@,
                        final(sel)@,
                        *sight,
                        aim,
                        i,
                    )
            }
        }),
{
    let ghost before = *doc;
    let tool: Tool = state.tool;
    let aim: Aim = take_aim(tool, sight);
    let mut status: Option<String> = None;
    let i: usize;
    let count: usize = doc.points.len();
    match aim {
        Aim::Missed => {
            return None;
        },
        Aim::Point(p) => {
            i = p;
        },
        Aim::Node(k) => {
            status = Some(snap_message(doc, k));
            i = doc.weld_point(sight.node_spots[k].position, &sight.node_spots[k].near);
        },
    }
    let ghost mid = *doc;
    assert(landed(before, mid, *sight, aim, i));
    let span: Scalar = if i < count {
        sight.point_spans[i]
    } else {
        match aim {
            Aim::Node(k) => sight.node_spans[k],
            _ => Scalar::zero(),
        }
    };
    assert(span == span_of(before, *sight, aim, i));
    let again: bool = state.pending.len() > 0 && state.pending[state.pending.len() - 1] == i;
    if !again {
        state.pending.push(i);
    }
    let ghost pts = state.pending@;
    assert(pts == picked_with(old(state).pending@, i));
    let need: usize = if tool == Tool::Panel {
        3
    } else {
        2
    };
    if state.pending.len() >= need {
        let a: usize = state.pending[0];
        let b: usize = state.pending[1];
        if tool == Tool::Spar {
            let s: usize = doc.add_spar(a, b);
            sel.set(Selection::Spar(s));
        } else if tool == Tool::Bridle {
            let s: usize = doc.add_bridle(a, b, span);
            sel.set(Selection::Bridle(s));
        } else {
            let c: usize = state.pending[2];
            let s: usize = doc.add_panel(a, b, c);
            sel.set(Selection::Panel(s));
        }
        state.pending.clear();
        proof {
            if consistent(before, *old(state)) {
                points_keep_references(before, mid);
                assert(pending_within(pts, mid.points@.len()));
                drawing_keeps_references(mid, *doc, tool, pts, span);
            }
        }
    }
    assert(drawing_clicked(
        before,
        mid,
        *doc,
        *old(state),
        *state,
        old(sel)@,
        sel@,
        *sight,
        aim,
        i,
    ));
    status
}

/// A click with the junction, pin, stiff-joint or lashing tool.
fn click_point(doc: &mut EditorDoc, tool: Tool, sel: &mut SelectionSet, sight: &Sight)
    requires
        tool == Tool::Junction || tool == Tool::Pin || tool == Tool::StiffJoint || tool
            == Tool::Lashing,
        sight.points@.len() == old(doc).points@.len(),
    ensures
        old(doc).wf() ==> final(doc).wf(),
        final(doc).points@ == old(doc).points@,
        match sight.target() {
            Selection::Point(i) => point_worked(*old(doc), *final(doc), tool, i) && final(sel)@
                == seq![Selection::Point(i)],
            _ => *final(doc) == *old(doc) && final(sel)@ == old(sel)@,
        },
{
    match pick(&sight.points, &sight.spars, &sight.bridles, &sight.panels) {
        Selection::Point(i) => {
            if tool == Tool::Junction {
                doc.junction = Some(i);
            } else if tool == Tool::Pin {
                doc.toggle_pin(i);
            } else if tool == Tool::StiffJoint {
                doc.toggle_stiff_joint(i);
            } else {
                doc.toggle_lashing(i);
            }
            sel.set(Selection::Point(i));
            proof {
                if old(doc).wf() {
                    work_keeps_references(*old(doc), *doc, tool, i);
                }
            }
        },
        _ => {},
    }
}

/// What a click with the tool in hand does, and says. The select tool does
/// nothing here. The point tool puts a point on the ground. The spar, bridle
/// and panel tools collect points and then draw their element. The other tools
/// work on the point that is clicked.
pub open spec fn clicked(
    doc: EditorDoc,
    after: EditorDoc,
    state: ToolState,
    state_after: ToolState,
    sel: Seq<Selection>,
    sel_after: Seq<Selection>,
    sight: Sight,
    r: Option<String>,
) -> bool {
    &&& state_after.tool == state.tool
    &&& match state.tool {
        Tool::Select => r is None && untouched(doc, after, state, state_after, sel, sel_after),
        Tool::AddPoint => r is None && state_after.pending@ == state.pending@
            && match sight.ground {
            Some(spot) => {
                let i = EditorDoc::weld_index(spot.near@, 0) as usize;
                welded_at(doc, after, spot, i) && sel_after == seq![Selection::Point(i)]
            },
            None => after == doc && sel_after == sel,
        },
        Tool::Spar | Tool::Bridle | Tool::Panel => {
            let aim = aim_of(state.tool, sight.target(), sight.node());
            &&& says(doc, aim, r)
            &&& if aim == Aim::Missed {
                untouched(doc, after, state, state_after, sel, sel_after)
            } else {
                exists|mid: EditorDoc, i: usize| #[trigger]
                    drawing_clicked(
                        doc,
                        mid,
                        after,
                        state,
                        state_after,
                        sel,
                        sel_after,
                        sight,
                        aim,
                        i,
                    )
            }
        },
        _ => r is None && state_after.pending@ == state.pending@ && match sight.target() {
            Selection::Point(i) => point_worked(doc, after, state.tool, i) && sel_after
                == seq![Selection::Point(i)],
            _ => after == doc && sel_after == sel,
        },
    }
}

/// What a click with the tool in hand does; a click of the bridle tool that
/// lands on an inner node of a line says so in the text that is returned.
pub fn handle_click(
    doc: &mut EditorDoc,
    state: &mut ToolState,
    sel: &mut SelectionSet,
    sight: &Sight,
) -> (r: Option<String>)
    requires
        sight.fits(*old(doc)),
        old(doc).spars@.len() < usize::MAX,
        old(doc).bridles@.len() < usize::MAX,
        old(doc).panels@.len() < usize::MAX,
    ensures
        clicked(
            *old(doc),
            *final(doc),
            *old(state),
            *final(state),
            old(sel)@,
            final(sel)@,
            *sight,
            r,
        ),
        consistent(*old(doc), *old(state)) ==> consistent(*final(doc), *final(state)),
{
    match state.tool {
        Tool::Select => None,
        Tool::AddPoint => {
            match &sight.ground {
                Some(spot) => {
                    let i: usize = doc.weld_point(spot.position, &spot.near);
                    proof {
                        if consistent(*old(doc), *old(state)) {
                            points_keep_references(*old(doc), *doc);
                        }
                    }
                    sel.set(Selection::Point(i));
                },
                None => {},
            }
            None
        },
        Tool::Spar | Tool::Bridle | Tool::Panel => click_drawing(doc, state, sel, sight),
        _ => {
            click_point(doc, state.tool, sel, sight);
            None
        },
    }
}

} // verus!
