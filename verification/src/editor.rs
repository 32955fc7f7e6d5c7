//! The editor's state, and what keys, buttons and the pointer do to it.
//!
//! Rays, projections and the window are handled outside; what they measured
//! comes in as plain values.
use crate::clicks::{clicked, consistent, handle_click, Sight};
use crate::doc::EditorDoc;
use crate::doc_delete::{bridle_count, panel_count, point_deleted, spar_count};
use crate::scalar::{Scalar, Vec3};
use crate::selection::{Selection, SelectionSet, Tool, ToolState};
use crate::session::SimSession;
use crate::snapshot::{Single, SINGLE_INFINITY_BITS};
use crate::text::{is_name, valid_name};
use crate::tools::{
    ascending, delete_selected, gizmo_points, moved_by, points_in_rect, selected_deleted,
    selects_existing, GizmoAxis,
};
use vstd::prelude::*;
use vstd::string::*;

verus! {

/// How far the pointer may move, in pixels, for a press and a release to be a
/// click: four, in single precision.
pub const CLICK_TOLERANCE_BITS: u32 = 0x4080_0000;

/// The two modes of the program.
#[derive(Clone, Copy, PartialEq, Eq, Debug, Structural)]
pub enum Mode {
    Edit,
    Simulate,
}

/// What is drawn besides the kite.
#[derive(Clone, Copy, PartialEq, Eq, Debug, Structural)]
pub struct ViewToggles {
    pub draw_grid: bool,
    pub draw_axes: bool,
    /// Simulate mode only: lift and drag arrows at panel centroids.
    pub show_aero: bool,
    /// Simulate mode only: cloth edge force overlay lines.
    pub show_cloth_force: bool,
}

impl Default for ViewToggles {
    fn default() -> (r: Self)
        ensures
            r == (ViewToggles {
                draw_grid: true,
                draw_axes: true,
                show_aero: false,
                show_cloth_force: false,
            }),
    {
        ViewToggles { draw_grid: true, draw_axes: true, show_aero: false, show_cloth_force: false }
    }
}

/// A place on the screen.
#[derive(Clone, Copy, PartialEq, Eq, Debug, Structural)]
pub struct ScreenPos {
    pub x: Single,
    pub y: Single,
}

/// What a gizmo drag does: slide points along an axis, or spin them around
/// one. It is fixed when the drag begins.
#[derive(Clone, Copy, PartialEq, Eq, Debug, Structural)]
pub enum GizmoDragKind {
    /// The point on the axis at which the drag began.
    Translate { start_on_axis: Vec3 },
    /// The pivot, and the angle at which the drag began.
    Rotate { center: Vec3, start_angle: Scalar },
}

/// A point that a drag moves, and where it was before.
#[derive(Clone, Copy, PartialEq, Eq, Debug, Structural)]
pub struct Start {
    pub point: usize,
    pub pos: Vec3,
}

/// A gizmo drag in progress.
pub struct GizmoDrag {
    pub axis: GizmoAxis,
    pub kind: GizmoDragKind,
    pub starts: Vec<Start>,
}

/// A gizmo handle that was hit, and the drag that it begins.
#[derive(Clone, Copy, PartialEq, Eq, Debug, Structural)]
pub struct GizmoHit {
    pub axis: GizmoAxis,
    pub kind: GizmoDragKind,
}

/// What the pointer does in a frame.
#[derive(Clone, Copy, PartialEq, Eq, Debug, Structural)]
pub enum Phase {
    /// The button has just gone down.
    Press,
    /// It is held.
    Hold,
    /// It is up.
    Up,
}

pub open spec fn phase_of(down: bool, was_down: bool) -> Phase {
    if down && !was_down {
        Phase::Press
    } else if down {
        Phase::Hold
    } else {
        Phase::Up
    }
}

/// The first `n` points of a drag, put where the drag takes them.
pub open spec fn moved_points(
    points: Seq<Vec3>,
    starts: Seq<Start>,
    targets: Seq<Vec3>,
    n: nat,
) -> Seq<Vec3>
    decreases n,
{
    if n == 0 {
        points
    } else {
        moved_points(points, starts, targets, (n - 1) as nat).update(
            starts[n - 1].point as int,
            targets[n - 1],
        )
    }
}

/// The first `n` points of a drag, put back where they were.
pub open spec fn restored_points(points: Seq<Vec3>, starts: Seq<Start>, n: nat) -> Seq<Vec3>
    decreases n,
{
    if n == 0 {
        points
    } else {
        restored_points(points, starts, (n - 1) as nat).update(
            starts[n - 1].point as int,
            starts[n - 1].pos,
        )
    }
}

/// Every point of the drag exists.
pub open spec fn starts_within(starts: Seq<Start>, n: nat) -> bool {
    forall|k: int| 0 <= k < starts.len() ==> (#[trigger] starts[k]).point < n
}

/// The drag moves this point.
pub open spec fn drags(starts: Seq<Start>, n: nat, i: int) -> bool {
    exists|k: int| 0 <= k < n && (#[trigger] starts[k]).point == i
}

/// The points have only been moved by the drag, which remembers where they
/// were.
pub open spec fn restorable(before: Seq<Vec3>, now: Seq<Vec3>, starts: Seq<Start>) -> bool {
    &&& now.len() == before.len()
    &&& starts_within(starts, before.len())
    &&& forall|k: int|
        0 <= k < starts.len() ==> before[(#[trigger] starts[k]).point as int] == starts[k].pos
    &&& forall|i: int|
        0 <= i < before.len() && !drags(starts, starts.len(), i) ==> #[trigger] now[i] == before[i]
}

/// Dragging on keeps the points restorable.
pub proof fn drag_keeps_restorable(
    before: Seq<Vec3>,
    now: Seq<Vec3>,
    starts: Seq<Start>,
    targets: Seq<Vec3>,
    n: nat,
)
    requires
        restorable(before, now, starts),
        n <= starts.len(),
    ensures
        restorable(before, moved_points(now, starts, targets, n), starts),
    decreases n,
{
    if n > 0 {
        drag_keeps_restorable(before, now, starts, targets, (n - 1) as nat);
        assert(starts[n - 1].point < before.len());
        let mid = moved_points(now, starts, targets, (n - 1) as nat);
        let after = moved_points(now, starts, targets, n);
        assert forall|i: int|
            0 <= i < before.len() && !drags(starts, starts.len(), i) implies #[trigger] after[i]
            == before[i] by {
            assert(starts[n - 1].point != i);
            assert(mid[i] == before[i]);
        }
    }
}

/// Cancelling a drag puts every point back where it was before the drag, bit
/// for bit.
pub proof fn cancel_undoes_drag(before: Seq<Vec3>, now: Seq<Vec3>, starts: Seq<Start>)
    requires
        restorable(before, now, starts),
    ensures
        restored_points(now, starts, starts.len()) == before,
{
    restoring(before, now, starts, starts.len());
    let after = restored_points(now, starts, starts.len());
    assert forall|i: int| 0 <= i < before.len() implies after[i] == before[i] by {
        if !drags(starts, starts.len(), i) {
            assert(now[i] == before[i]);
        }
    }
    assert(after =~= before);
}

proof fn restoring(before: Seq<Vec3>, now: Seq<Vec3>, starts: Seq<Start>, n: nat)
    requires
        restorable(before, now, starts),
        n <= starts.len(),
    ensures
        restored_points(now, starts, n).len() == before.len(),
        forall|i: int|
            0 <= i < before.len() ==> #[trigger] restored_points(now, starts, n)[i] == if drags(
                starts,
                n,
                i,
            ) {
                before[i]
            } else {
                now[i]
            },
    decreases n,
{
    if n > 0 {
        restoring(before, now, starts, (n - 1) as nat);
        let last = starts[n - 1];
        assert(before[last.point as int] == last.pos);
        let mid = restored_points(now, starts, (n - 1) as nat);
        let after = restored_points(now, starts, n);
        assert forall|i: int| 0 <= i < before.len() implies #[trigger] after[i] == if drags(
            starts,
            n,
            i,
        ) {
            before[i]
        } else {
            now[i]
        } by {
            assert(mid[i] == if drags(starts, (n - 1) as nat, i) {
                before[i]
            } else {
                now[i]
            });
            if drags(starts, (n - 1) as nat, i) {
                let k = choose|k: int| 0 <= k < n - 1 && (#[trigger] starts[k]).point == i;
                assert(starts[k].point == i);
            }
            if last.point == i {
                assert(starts[n - 1].point == i);
            } else if drags(starts, n, i) {
                let k = choose|k: int| 0 <= k < n && (#[trigger] starts[k]).point == i;
                assert(k < n - 1);
                assert(drags(starts, (n - 1) as nat, i));
            }
        }
    }
}

/// The selected points of a box, removed from or added to a selection one by
/// one.
pub open spec fn boxed(sel: Seq<Selection>, hits: Seq<usize>, subtract: bool, n: nat) -> Seq<
    Selection,
>
    decreases n,
{
    if n == 0 {
        sel
    } else {
        let before = boxed(sel, hits, subtract, (n - 1) as nat);
        let s = Selection::Point(hits[n - 1]);
        if subtract {
            before.remove_value(s)
        } else if before.contains(s) {
            before
        } else {
            before.push(s)
        }
    }
}

/// The keys that were pressed.
#[derive(Clone, Copy, PartialEq, Eq, Debug, Structural)]
pub struct Keys {
    pub escape: bool,
    pub q: bool,
    pub p: bool,
    pub s: bool,
    pub f: bool,
    pub b: bool,
    pub j: bool,
    pub n: bool,
    pub k: bool,
    pub l: bool,
    pub delete: bool,
}

impl Keys {
    /// The tool that the keys take in hand: of several the last.
    pub open spec fn tool(self) -> Option<Tool> {
        if self.l {
            Some(Tool::Lashing)
        } else if self.k {
            Some(Tool::StiffJoint)
        } else if self.n {
            Some(Tool::Pin)
        } else if self.j {
            Some(Tool::Junction)
        } else if self.b {
            Some(Tool::Bridle)
        } else if self.f {
            Some(Tool::Panel)
        } else if self.s {
            Some(Tool::Spar)
        } else if self.p {
            Some(Tool::AddPoint)
        } else if self.q {
            Some(Tool::Select)
        } else {
            None
        }
    }

    fn pick_tool(&self) -> (r: Option<Tool>)
        ensures
            r == self.tool(),
    {
        if self.l {
            Some(Tool::Lashing)
        } else if self.k {
            Some(Tool::StiffJoint)
        } else if self.n {
            Some(Tool::Pin)
        } else if self.j {
            Some(Tool::Junction)
        } else if self.b {
            Some(Tool::Bridle)
        } else if self.f {
            Some(Tool::Panel)
        } else if self.s {
            Some(Tool::Spar)
        } else if self.p {
            Some(Tool::AddPoint)
        } else if self.q {
            Some(Tool::Select)
        } else {
            None
        }
    }
}

/// The state of the program.
pub struct App {
    pub mode: Mode,
    pub doc: EditorDoc,
    pub sel: SelectionSet,
    pub tool_state: ToolState,
    /// The point that the pointer drags.
    pub dragging: Option<usize>,
    pub gizmo_drag: Option<GizmoDrag>,
    /// Where a press on empty space began a selection box.
    pub box_select_start: Option<ScreenPos>,
    pub was_down: bool,
    pub view: ViewToggles,
    pub scenario_name: String,
    /// The point whose deletion waits to be confirmed.
    pub pending_delete: Option<usize>,
    pub status: String,
    /// The live simulation. It survives a change of mode, and is dropped with
    /// the document it was built from.
    pub session: Option<SimSession>,
}

/// No point is being picked or dragged, nothing is selected, and there is no
/// live simulation.
pub open spec fn cleared(a: App) -> bool {
    &&& a.sel@ == Seq::<Selection>::empty()
    &&& a.tool_state.tool == Tool::Select
    &&& a.tool_state.pending@ == Seq::<usize>::empty()
    &&& a.gizmo_drag is None
    &&& a.box_select_start is None
    &&& a.session is None
}

/// A point was asked to be deleted: at once where nothing depends on it, after
/// a confirmation otherwise.
pub open spec fn point_delete_asked(before: App, after: App, i: usize) -> bool {
    let doc = before.doc;
    let dependents = spar_count(doc.spars@, i, doc.spars@.len()) + panel_count(
        doc.panels@,
        i,
        doc.panels@.len(),
    ) + bridle_count(doc.bridles@, i, doc.bridles@.len());
    if dependents > 0 {
        after == (App { pending_delete: Some(i), ..before })
    } else {
        &&& point_deleted(doc, after.doc, i)
        &&& after.sel@ == Seq::<Selection>::empty()
        &&& after.tool_state.pending@ == Seq::<usize>::empty()
        &&& after.tool_state.tool == before.tool_state.tool
        &&& after == (App {
            doc: after.doc,
            sel: after.sel,
            tool_state: after.tool_state,
            ..before
        })
    }
}

/// What deleting the selection does.
pub open spec fn selection_deleted(before: App, after: App) -> bool {
    let sel = before.sel@;
    if sel.len() > 1 {
        &&& exists|spars: Seq<usize>, panels: Seq<usize>, bridles: Seq<usize>, points: Seq<usize>|
            #[trigger] selected_deleted(
                before.doc,
                after.doc,
                sel,
                spars,
                panels,
                bridles,
                points,
            )
        &&& after.sel@ == Seq::<Selection>::empty()
        &&& after.tool_state.pending@ == Seq::<usize>::empty()
        &&& after.tool_state.tool == before.tool_state.tool
        &&& after.gizmo_drag is None
        &&& after == (App {
            doc: after.doc,
            sel: after.sel,
            tool_state: after.tool_state,
            gizmo_drag: after.gizmo_drag,
            ..before
        })
    } else if sel.len() == 0 {
        after == before
    } else {
        match sel[0] {
            Selection::Nothing => after == before,
            Selection::Point(i) => point_delete_asked(before, after, i),
            Selection::Spar(i) => {
                &&& after.doc.spars@ == before.doc.spars@.remove(i as int)
                &&& after.doc == (EditorDoc { spars: after.doc.spars, ..before.doc })
                &&& after.sel@ == Seq::<Selection>::empty()
                &&& after == (App { doc: after.doc, sel: after.sel, ..before })
            },
            Selection::Panel(i) => {
                &&& after.doc.panels@ == before.doc.panels@.remove(i as int)
                &&& after.doc == (EditorDoc { panels: after.doc.panels, ..before.doc })
                &&& after.sel@ == Seq::<Selection>::empty()
                &&& after == (App { doc: after.doc, sel: after.sel, ..before })
            },
            Selection::Bridle(i) => {
                &&& after.doc.bridles@ == before.doc.bridles@.remove(i as int)
                &&& after.doc == (EditorDoc { bridles: after.doc.bridles, ..before.doc })
                &&& after.sel@ == Seq::<Selection>::empty()
                &&& after == (App { doc: after.doc, sel: after.sel, ..before })
            },
        }
    }
}

/// What the keys but Delete do: Escape gives up picking, dragging and boxing,
/// with every dragged point back in its place; the others take a tool.
pub open spec fn keys_applied(before: App, after: App, keys: Keys) -> bool {
    &&& after.doc.points@ == if keys.escape && before.gizmo_drag is Some {
        let starts = before.gizmo_drag->0.starts@;
        restored_points(before.doc.points@, starts, starts.len())
    } else {
        before.doc.points@
    }
    &&& after.doc == (EditorDoc { points: after.doc.points, ..before.doc })
    &&& after.gizmo_drag == if keys.escape {
        None
    } else {
        before.gizmo_drag
    }
    &&& after.box_select_start == if keys.escape {
        None
    } else {
        before.box_select_start
    }
    &&& after.tool_state.tool == match keys.tool() {
        Some(t) => t,
        None => before.tool_state.tool,
    }
    &&& after.tool_state.pending@ == if keys.escape || keys.tool() is Some {
        Seq::<usize>::empty()
    } else {
        before.tool_state.pending@
    }
    &&& after == (App {
        doc: after.doc,
        gizmo_drag: after.gizmo_drag,
        box_select_start: after.box_select_start,
        tool_state: after.tool_state,
        ..before
    })
}

impl App {
    /// The program when it starts.
    pub fn new() -> (r: Self)
        ensures
            r.mode == Mode::Edit,
            r.doc.bare(),
            r.doc.wf(),
            cleared(r),
            r.dragging is None,
            !r.was_down,
            r.view == (ViewToggles {
                draw_grid: true,
                draw_axes: true,
                show_aero: false,
                show_cloth_force: false,
            }),
            r.scenario_name@ == "untitled"@,
            r.pending_delete is None,
            r.status@ == ""@,
    {
        App {
            mode: Mode::Edit,
            doc: EditorDoc::default(),
            sel: SelectionSet::default(),
            tool_state: ToolState::default(),
            dragging: None,
            gizmo_drag: None,
            box_select_start: None,
            was_down: false,
            view: ViewToggles::default(),
            scenario_name: String::from_str("untitled"),
            pending_delete: None,
            status: String::from_str(""),
            session: None,
        }
    }

    /// Starts a new, empty document.
    pub fn new_doc(&mut self)
        ensures
            final(self).doc.bare(),
            final(self).doc.wf(),
            final(self).doc.name@ == "untitled"@,
            cleared(*final(self)),
            final(self).scenario_name@ == "untitled"@,
            final(self).status@ == "New scenario"@,
            final(self).mode == old(self).mode,
            final(self).dragging == old(self).dragging,
            final(self).was_down == old(self).was_down,
            final(self).view == old(self).view,
            final(self).pending_delete == old(self).pending_delete,
    {
        self.doc = EditorDoc::default();
        self.sel.clear();
        self.tool_state = ToolState::default();
        self.gizmo_drag = None;
        self.box_select_start = None;
        self.scenario_name = String::from_str("untitled");
        self.status = String::from_str("New scenario");
        self.session = None;
    }

    /// Takes over a document that was loaded under a name.
    pub fn loaded(&mut self, name: &str, doc: EditorDoc)
        ensures
            final(self).doc == doc,
            cleared(*final(self)),
            final(self).scenario_name@ == name@,
            final(self).status@ == "Loaded "@ + name@,
            final(self).mode == old(self).mode,
            final(self).dragging == old(self).dragging,
            final(self).was_down == old(self).was_down,
            final(self).view == old(self).view,
            final(self).pending_delete == old(self).pending_delete,
    {
        self.doc = doc;
        self.sel.clear();
        self.tool_state = ToolState::default();
        self.gizmo_drag = None;
        self.box_select_start = None;
        self.scenario_name = String::from_str(name);
        let mut status: String = String::from_str("Loaded ");
        status.append(name);
        self.status = status;
        self.session = None;
    }

    /// Whether a document may be saved under a name; if not, the status says
    /// so.
    pub fn may_save(&mut self, name: &str) -> (r: bool)
        ensures
            r == is_name(name@),
            r ==> *final(self) == *old(self),
            !r ==> final(self).status@ == "Invalid scenario name"@,
            *final(self) == (App { status: final(self).status, ..*old(self) }),
    {
        if !valid_name(name) {
            self.status = String::from_str("Invalid scenario name");
            return false;
        }
        true
    }

    /// Notes that the document was saved under a name.
    pub fn saved(&mut self, name: &str)
        ensures
            final(self).scenario_name@ == name@,
            final(self).status@ == "Saved "@ + name@,
            *final(self) == (App {
                scenario_name: final(self).scenario_name,
                status: final(self).status,
                ..*old(self)
            }),
    {
        self.scenario_name = String::from_str(name);
        let mut status: String = String::from_str("Saved ");
        status.append(name);
        self.status = status;
    }

    /// Switches the mode. The first entry into the simulation needs a session,
    /// which then has to be built; later ones go on with the one there is.
    pub fn enter(&mut self, mode: Mode) -> (needs_session: bool)
        ensures
            *final(self) == (App { mode, ..*old(self) }),
            needs_session == (mode == Mode::Simulate && old(self).session is None),
    {
        self.mode = mode;
        mode == Mode::Simulate && self.session.is_none()
    }

    /// Deletes the selection. A single point on which other elements depend is
    /// deleted only after a confirmation.
    pub fn try_delete_selected(&mut self)
        requires
            selects_existing(old(self).doc, old(self).sel@),
        ensures
            selection_deleted(*old(self), *final(self)),
            old(self).doc.wf() ==> final(self).doc.wf(),
    {
        if self.sel.len() > 1 {
            delete_selected(&mut self.doc, self.sel.as_slice());
            self.sel.clear();
            self.tool_state.pending.clear();
            self.gizmo_drag = None;
            return;
        }
        match self.sel.single() {
            None => {},
            Some(s) => {
                assert(old(self).sel@[0] == s);
                match s {
                    Selection::Nothing => {},
                    Selection::Point(i) => {
                        let (spars, panels, bridles): (usize, usize, usize) =
                            self.doc.dependents_of_point(i);
                        if spars > 0 || panels > 0 || bridles > 0 {
                            self.pending_delete = Some(i);
                        } else {
                            self.doc.delete_point(i);
                            self.sel.clear();
                            self.tool_state.pending.clear();
                        }
                    },
                    Selection::Spar(i) => {
                        self.doc.delete_spar(i);
                        self.sel.clear();
                        proof {
                            removal_keeps_references(old(self).doc, self.doc, s);
                        }
                    },
                    Selection::Panel(i) => {
                        self.doc.delete_panel(i);
                        self.sel.clear();
                        proof {
                            removal_keeps_references(old(self).doc, self.doc, s);
                        }
                    },
                    Selection::Bridle(i) => {
                        self.doc.delete_bridle(i);
                        self.sel.clear();
                        proof {
                            removal_keeps_references(old(self).doc, self.doc, s);
                        }
                    },
                }
            },
        }
    }

    /// Answers the question whether to delete a point with all that depends on
    /// it.
    pub fn answer_delete(&mut self, yes: bool)
        requires
            old(self).pending_delete is Some ==> old(self).pending_delete->0
                < old(self).doc.points@.len(),
        ensures
            final(self).pending_delete is None,
            match old(self).pending_delete {
                Some(i) if yes => {
                    &&& point_deleted(old(self).doc, final(self).doc, i)
                    &&& final(self).sel@ == Seq::<Selection>::empty()
                    &&& final(self).tool_state.pending@ == Seq::<usize>::empty()
                    &&& final(self).tool_state.tool == old(self).tool_state.tool
                    &&& *final(self) == (App {
                        doc: final(self).doc,
                        sel: final(self).sel,
                        tool_state: final(self).tool_state,
                        pending_delete: None,
                        ..*old(self)
                    })
                },
                _ => *final(self) == (App { pending_delete: None, ..*old(self) }),
            },
            old(self).doc.wf() ==> final(self).doc.wf(),
    {
        match self.pending_delete {
            Some(i) => {
                if yes {
                    self.doc.delete_point(i);
                    self.sel.clear();
                    self.tool_state.pending.clear();
                }
            },
            None => {},
        }
        self.pending_delete = None;
    }

    /// What pressed keys do: Escape first, then a tool, then Delete.
    pub fn handle_hotkeys(&mut self, keys: &Keys)
        requires
            old(self).gizmo_drag is Some ==> starts_within(
                old(self).gizmo_drag->0.starts@,
                old(self).doc.points@.len(),
            ),
            keys.delete ==> selects_existing(old(self).doc, old(self).sel@),
        ensures
            exists|mid: App| #[trigger]
                keys_applied(*old(self), mid, *keys) && if keys.delete {
                    selection_deleted(mid, *final(self))
                } else {
                    *final(self) == mid
                },
            old(self).doc.wf() ==> final(self).doc.wf(),
    {
        if keys.escape {
            self.tool_state.pending.clear();
            match &self.gizmo_drag {
                Some(drag) => {
                    restore(&mut self.doc, &drag.starts);
                },
                None => {},
            }
            self.gizmo_drag = None;
            self.box_select_start = None;
        }
        match keys.pick_tool() {
            Some(t) => {
                self.tool_state.set_tool(t);
            },
            None => {},
        }
        let ghost mid = *self;
        assert(keys_applied(*old(self), mid, *keys));
        if keys.delete {
            self.try_delete_selected();
        }
    }

    /// What the pointer does in this frame.
    pub fn phase(&self, down: bool) -> (r: Phase)
        ensures
            r == phase_of(down, self.was_down),
    {
        if down && !self.was_down {
            Phase::Press
        } else if down {
            Phase::Hold
        } else {
            Phase::Up
        }
    }

    /// The select tool's button goes down. A gizmo handle that was hit begins a
    /// drag of the selection's points, before anything else is picked. An
    /// element is selected: taken out with `command`, added with `shift`,
    /// otherwise in place of what was; and a point follows the pointer. On
    /// empty space a selection box may begin. `picked` is `None` where the
    /// pointer is not over the view.
    pub fn press(
        &mut self,
        gizmo: Option<GizmoHit>,
        picked: Option<Selection>,
        pos: Option<ScreenPos>,
        command: bool,
        shift: bool,
    )
        requires
            gizmo is Some ==> forall|i: usize| #[trigger]
                moved_by(old(self).doc, old(self).sel@, old(self).sel@.len() as int, i) ==> i
                    < old(self).doc.points@.len(),
        ensures
            pressed(*old(self), *final(self), gizmo, picked, pos, command, shift),
    {
        match gizmo {
            Some(hit) => {
                let points: Vec<usize> = gizmo_points(&self.doc, self.sel.as_slice());
                proof {
                    assert forall|k: int| 0 <= k < points@.len() implies (#[trigger] points@[k])
                        < self.doc.points@.len() by {
                        assert(points@.contains(points@[k]));
                    }
                }
                let starts: Vec<Start> = remember(&self.doc, &points);
                self.gizmo_drag = Some(GizmoDrag { axis: hit.axis, kind: hit.kind, starts });
                self.dragging = None;
                self.box_select_start = None;
                proof {
                    assert(begins_at(
                        old(self).doc,
                        old(self).sel@,
                        self.gizmo_drag->0.starts@,
                        points@,
                    ));
                }
            },
            None => {
                match picked {
                    None => {},
                    Some(s) => {
                        self.gizmo_drag = None;
                        if s == Selection::Nothing {
                            self.box_select_start = pos;
                            self.dragging = None;
                        } else {
                            self.box_select_start = None;
                            if command {
                                self.sel.remove(s);
                                self.dragging = None;
                            } else {
                                if shift {
                                    self.sel.add(s);
                                } else {
                                    self.sel.set(s);
                                }
                                self.dragging = match s {
                                    Selection::Point(i) => Some(i),
                                    _ => None,
                                };
                            }
                        }
                    },
                }
            },
        }
    }

    /// The select tool's button is held. A gizmo drag puts its points at their
    /// new places; otherwise the point that follows the pointer goes to where
    /// the pointer is.
    pub fn hold(&mut self, targets: Option<&Vec<Vec3>>, hit: Option<Vec3>)
        requires
            old(self).gizmo_drag is Some && targets is Some ==> {
                &&& targets->0@.len() == old(self).gizmo_drag->0.starts@.len()
                &&& starts_within(
                    old(self).gizmo_drag->0.starts@,
                    old(self).doc.points@.len(),
                )
            },
            old(self).gizmo_drag is None && old(self).dragging is Some && hit is Some
                ==> old(self).dragging->0 < old(self).doc.points@.len(),
        ensures
            final(self).doc.points@ == match old(self).gizmo_drag {
                Some(drag) => match targets {
                    Some(t) => moved_points(
                        old(self).doc.points@,
                        drag.starts@,
                        t@,
                        drag.starts@.len(),
                    ),
                    None => old(self).doc.points@,
                },
                None => if old(self).dragging is Some && hit is Some {
                    old(self).doc.points@.update(old(self).dragging->0 as int, hit->0)
                } else {
                    old(self).doc.points@
                },
            },
            final(self).doc == (EditorDoc { points: final(self).doc.points, ..old(self).doc }),
            *final(self) == (App { doc: final(self).doc, ..*old(self) }),
    {
        match &self.gizmo_drag {
            Some(drag) => {
                match targets {
                    Some(t) => {
                        move_to(&mut self.doc, &drag.starts, t);
                    },
                    None => {},
                }
            },
            None => {
                match self.dragging {
                    Some(i) => {
                        match hit {
                            Some(p) => {
                                self.doc.points.set(i, p);
                            },
                            None => {},
                        }
                    },
                    None => {},
                }
            },
        }
    }

    /// The select tool's button is let go. Where a selection box was begun and
    /// the pointer is still over the view, `drawn` is its diagonal and `inside`
    /// tells which points it holds; a short diagonal is a click on empty space.
    pub fn release(
        &mut self,
        drawn: Option<Single>,
        inside: &Vec<bool>,
        command: bool,
        shift: bool,
    )
        ensures
            released(*old(self), *final(self), drawn, inside@, command, shift),
    {
        let boxing: bool = self.box_select_start.is_some();
        self.box_select_start = None;
        if boxing {
            match drawn {
                Some(d) => {
                    if d.bits >= CLICK_TOLERANCE_BITS && d.bits <= SINGLE_INFINITY_BITS {
                        let hits: Vec<usize> = points_in_rect(inside);
                        if !command && !shift {
                            self.sel.clear();
                        }
                        apply_box(&mut self.sel, &hits, command);
                    } else if !shift && !command {
                        self.sel.clear();
                    }
                },
                None => {},
            }
        }
        self.dragging = None;
        self.gizmo_drag = None;
    }

    /// A click with another tool than select; what it says goes to the status
    /// line.
    pub fn click(&mut self, sight: &Sight)
        requires
            sight.fits(old(self).doc),
            old(self).doc.spars@.len() < usize::MAX,
            old(self).doc.bridles@.len() < usize::MAX,
            old(self).doc.panels@.len() < usize::MAX,
        ensures
            exists|said: Option<String>|
                {
                    &&& #[trigger] clicked(
                        old(self).doc,
                        final(self).doc,
                        old(self).tool_state,
                        final(self).tool_state,
                        old(self).sel@,
                        final(self).sel@,
                        *sight,
                        said,
                    )
                    &&& final(self).status == match said {
                        Some(text) => text,
                        None => old(self).status,
                    }
                },
            consistent(old(self).doc, old(self).tool_state) ==> consistent(
                final(self).doc,
                final(self).tool_state,
            ),
            *final(self) == (App {
                doc: final(self).doc,
                sel: final(self).sel,
                tool_state: final(self).tool_state,
                status: final(self).status,
                ..*old(self)
            }),
    {
        match handle_click(&mut self.doc, &mut self.tool_state, &mut self.sel, sight) {
            Some(status) => {
                self.status = status;
            },
            None => {},
        }
    }
}

/// The element that the inspector shows: the selected one, if it is the only
/// one and exists.
pub open spec fn inspected_of(doc: EditorDoc, sel: Seq<Selection>) -> Selection {
    if sel.len() == 1 && selects_existing(doc, sel) {
        sel[0]
    } else {
        Selection::Nothing
    }
}

/// The element that the inspector shows.
pub fn inspected(doc: &EditorDoc, sel: &SelectionSet) -> (r: Selection)
    ensures
        r == inspected_of(*doc, sel@),
{
    match sel.single() {
        None => Selection::Nothing,
        Some(s) => {
            let exists_now: bool = match s {
                Selection::Nothing => true,
                Selection::Point(i) => i < doc.points.len(),
                Selection::Spar(i) => i < doc.spars.len(),
                Selection::Panel(i) => i < doc.panels.len(),
                Selection::Bridle(i) => i < doc.bridles.len(),
            };
            assert(sel@[0] == s);
            if exists_now {
                s
            } else {
                Selection::Nothing
            }
        },
    }
}

/// A click on a row of the element list: with `shift` it takes the element in
/// or out, otherwise it selects that element alone.
pub fn pick_row(sel: &mut SelectionSet, shift: bool, picked: Selection)
    requires
        picked != Selection::Nothing,
    ensures
        final(sel)@ == if !shift {
            seq![picked]
        } else if old(sel)@.contains(picked) {
            old(sel)@.remove_value(picked)
        } else {
            old(sel)@.push(picked)
        },
{
    if shift {
        sel.toggle(picked);
    } else {
        sel.set(picked);
    }
}

/// Makes a point the bridle junction, or no longer so.
pub fn set_junction(doc: &mut EditorDoc, i: usize, on: bool)
    ensures
        *final(doc) == (EditorDoc {
            junction: if on {
                Some(i)
            } else {
                None
            },
            ..*old(doc)
        }),
{
    doc.junction = if on {
        Some(i)
    } else {
        None
    };
}

/// Pins a point, or frees it.
pub fn set_pin(doc: &mut EditorDoc, i: usize, on: bool)
    ensures
        final(doc).pinned@ == if on {
            old(doc).pinned@.insert(i)
        } else {
            old(doc).pinned@.remove(i)
        },
        *final(doc) == (EditorDoc { pinned: final(doc).pinned, ..*old(doc) }),
{
    broadcast use vstd::std_specs::hash::group_hash_axioms;

    if on {
        doc.pinned.insert(i);
    } else {
        doc.pinned.remove(&i);
    }
}

/// The drag remembers the points that the selection moves, in ascending order,
/// where they are.
pub open spec fn begins_at(
    doc: EditorDoc,
    sel: Seq<Selection>,
    starts: Seq<Start>,
    points: Seq<usize>,
) -> bool {
    &&& ascending(points)
    &&& forall|i: usize| #[trigger] points.contains(i) <==> moved_by(doc, sel, sel.len() as int, i)
    &&& starts == points.map_values(|i: usize| Start { point: i, pos: doc.points@[i as int] })
    &&& restorable(doc.points@, doc.points@, starts)
}

/// What a press with the select tool does.
pub open spec fn pressed(
    before: App,
    after: App,
    gizmo: Option<GizmoHit>,
    picked: Option<Selection>,
    pos: Option<ScreenPos>,
    command: bool,
    shift: bool,
) -> bool {
    match gizmo {
        Some(hit) => {
            &&& after.gizmo_drag is Some
            &&& after.gizmo_drag->0.axis == hit.axis
            &&& after.gizmo_drag->0.kind == hit.kind
            &&& exists|points: Seq<usize>| #[trigger]
                begins_at(before.doc, before.sel@, after.gizmo_drag->0.starts@, points)
            &&& after == (App {
                gizmo_drag: after.gizmo_drag,
                dragging: None,
                box_select_start: None,
                ..before
            })
        },
        None => match picked {
            None => after == before,
            Some(s) => if s == Selection::Nothing {
                after == (App { gizmo_drag: None, box_select_start: pos, dragging: None, ..before })
            } else {
                &&& after.sel@ == if command {
                    before.sel@.remove_value(s)
                } else if !shift {
                    seq![s]
                } else if before.sel@.contains(s) {
                    before.sel@
                } else {
                    before.sel@.push(s)
                }
                &&& after.dragging == match s {
                    Selection::Point(i) if !command => Some(i),
                    _ => None,
                }
                &&& after == (App {
                    gizmo_drag: None,
                    box_select_start: None,
                    dragging: after.dragging,
                    sel: after.sel,
                    ..before
                })
            },
        },
    }
}

/// The diagonal is that of a box, not of a click: a number, and no less than
/// the tolerance.
pub open spec fn spans_box(d: Single) -> bool {
    CLICK_TOLERANCE_BITS <= d.bits <= SINGLE_INFINITY_BITS
}

/// What a release with the select tool does.
pub open spec fn released(
    before: App,
    after: App,
    drawn: Option<Single>,
    inside: Seq<bool>,
    command: bool,
    shift: bool,
) -> bool {
    let hits = crate::tools::marked(inside, inside.len());
    let plain = !command && !shift;
    &&& after.sel@ == if before.box_select_start is None || drawn is None {
        before.sel@
    } else if spans_box(drawn->0) {
        boxed(
            if plain {
                Seq::<Selection>::empty()
            } else {
                before.sel@
            },
            hits,
            command,
            hits.len(),
        )
    } else if plain {
        Seq::<Selection>::empty()
    } else {
        before.sel@
    }
    &&& after == (App {
        sel: after.sel,
        dragging: None,
        gizmo_drag: None,
        box_select_start: None,
        ..before
    })
}

proof fn removal_keeps_references(before: EditorDoc, after: EditorDoc, s: Selection)
    requires
        match s {
            Selection::Spar(i) => i < before.spars@.len() && after.spars@ == before.spars@.remove(
                i as int,
            ) && after == (EditorDoc { spars: after.spars, ..before }),
            Selection::Panel(i) => i < before.panels@.len() && after.panels@
                == before.panels@.remove(i as int) && after == (EditorDoc {
                panels: after.panels,
                ..before
            }),
            Selection::Bridle(i) => i < before.bridles@.len() && after.bridles@
                == before.bridles@.remove(i as int) && after == (EditorDoc {
                bridles: after.bridles,
                ..before
            }),
            _ => false,
        },
    ensures
        before.wf() ==> after.wf(),
{
    if before.wf() {
        let n = before.points@.len();
        let at: int = match s {
            Selection::Spar(i) => i as int,
            Selection::Panel(i) => i as int,
            Selection::Bridle(i) => i as int,
            _ => 0,
        };
        assert forall|k: int| 0 <= k < after.spars@.len() implies (#[trigger] after.spars@[k]).a < n
            && after.spars@[k].b < n by {
            let j: int = if s is Spar && k >= at {
                k + 1
            } else {
                k
            };
            assert(after.spars@[k] == before.spars@[j]);
        }
        assert forall|k: int| 0 <= k < after.panels@.len() implies (
        #[trigger] after.panels@[k]).a < n && after.panels@[k].b < n && after.panels@[k].c < n by {
            let j: int = if s is Panel && k >= at {
                k + 1
            } else {
                k
            };
            assert(after.panels@[k] == before.panels@[j]);
        }
        assert forall|k: int| 0 <= k < after.bridles@.len() implies (
        #[trigger] after.bridles@[k]).a < n && after.bridles@[k].b < n by {
            let j: int = if s is Bridle && k >= at {
                k + 1
            } else {
                k
            };
            assert(after.bridles@[k] == before.bridles@[j]);
        }
    }
}

fn restore(doc: &mut EditorDoc, starts: &Vec<Start>)
    requires
        starts_within(starts@, old(doc).points@.len()),
    ensures
        final(doc).points@ == restored_points(old(doc).points@, starts@, starts@.len()),
        final(doc).points@.len() == old(doc).points@.len(),
        *final(doc) == (EditorDoc { points: final(doc).points, ..*old(doc) }),
{
    let ghost before = *doc;
    let mut k: usize = 0;
    while k < starts.len()
        invariant
            k <= starts@.len(),
            starts_within(starts@, before.points@.len()),
            doc.points@.len() == before.points@.len(),
            doc.points@ == restored_points(before.points@, starts@, k as nat),
            *doc == (EditorDoc { points: doc.points, ..before }),
        decreases starts@.len() - k,
    {
        assert(starts@[k as int].point < before.points@.len());
        doc.points.set(starts[k].point, starts[k].pos);
        k += 1;
    }
}

fn move_to(doc: &mut EditorDoc, starts: &Vec<Start>, targets: &Vec<Vec3>)
    requires
        starts_within(starts@, old(doc).points@.len()),
        targets@.len() == starts@.len(),
    ensures
        final(doc).points@ == moved_points(old(doc).points@, starts@, targets@, starts@.len()),
        *final(doc) == (EditorDoc { points: final(doc).points, ..*old(doc) }),
{
    let ghost before = *doc;
    let mut k: usize = 0;
    while k < starts.len()
        invariant
            k <= starts@.len(),
            targets@.len() == starts@.len(),
            starts_within(starts@, before.points@.len()),
            doc.points@.len() == before.points@.len(),
            doc.points@ == moved_points(before.points@, starts@, targets@, k as nat),
            *doc == (EditorDoc { points: doc.points, ..before }),
        decreases starts@.len() - k,
    {
        assert(starts@[k as int].point < before.points@.len());
        doc.points.set(starts[k].point, targets[k]);
        k += 1;
    }
}

fn remember(doc: &EditorDoc, points: &Vec<usize>) -> (r: Vec<Start>)
    requires
        forall|k: int| 0 <= k < points@.len() ==> (#[trigger] points@[k]) < doc.points@.len(),
    ensures
        r@ == points@.map_values(|i: usize| Start { point: i, pos: doc.points@[i as int] }),
        restorable(doc.points@, doc.points@, r@),
{
    let mut out: Vec<Start> = Vec::new();
    let mut k: usize = 0;
    while k < points.len()
        invariant
            k <= points@.len(),
            forall|j: int| 0 <= j < points@.len() ==> (#[trigger] points@[j]) < doc.points@.len(),
            out@.len() == k,
            forall|j: int|
                0 <= j < k ==> #[trigger] out@[j] == (Start {
                    point: points@[j],
                    pos: doc.points@[points@[j] as int],
                }),
        decreases points@.len() - k,
    {
        let i: usize = points[k];
        out.push(Start { point: i, pos: doc.points[i] });
        k += 1;
    }
    assert(out@ =~= points@.map_values(
        |i: usize| Start { point: i, pos: doc.points@[i as int] },
    ));
    out
}

fn apply_box(sel: &mut SelectionSet, hits: &Vec<usize>, subtract: bool)
    ensures
        final(sel)@ == boxed(old(sel)@, hits@, subtract, hits@.len()),
{
    let ghost before = sel@;
    let mut k: usize = 0;
    while k < hits.len()
        invariant
            k <= hits@.len(),
            sel@ == boxed(before, hits@, subtract, k as nat),
        decreases hits@.len() - k,
    {
        if subtract {
            sel.remove(Selection::Point(hits[k]));
        } else {
            sel.add(Selection::Point(hits[k]));
        }
        k += 1;
    }
}

} // verus!
