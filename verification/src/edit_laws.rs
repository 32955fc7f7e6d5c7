//! What the tools do to a document.
use crate::clicks::{aim_of, clicked, drawing_clicked, Aim, Sight};
use crate::doc::{
    is_new_bridle, is_new_panel, is_new_spar, BridleItem, EditorDoc, LashingItem, PanelItem,
    SparItem, StiffJointItem,
};
use crate::scalar::Scalar;
use crate::selection::{Selection, Tool, ToolState};
use crate::text::decimal;
use crate::tools::{hits_of, line_nodes, nearest_hit, picked};
use vstd::prelude::*;

verus! {

/// A place welds to the first point that is near it, and to none where none is.
pub proof fn places_weld_to_the_first_near(near: Seq<bool>, k: nat)
    requires
        k <= near.len(),
    ensures
        ({
            let i = EditorDoc::weld_index(near, k);
            &&& k <= i <= near.len()
            &&& i < near.len() ==> near[i as int]
            &&& forall|j: int| k <= j < i ==> !#[trigger] near[j]
        }),
    decreases near.len() - k,
{
    if k < near.len() && !near[k as int] {
        places_weld_to_the_first_near(near, k + 1);
    }
}

/// A new spar is a fiberglass rod of five millimeters' radius in four segments
/// between its points, named by its number.
pub proof fn new_spars_are_fiberglass(s: SparItem, n: nat, a: usize, b: usize)
    requires
        is_new_spar(s, n, a, b),
    ensures
        s.name@ == "spar_"@ + decimal(n),
        s.a == a,
        s.b == b,
        s.num_segments == 4,
        s.radius.bits == 0x3F74_7AE1_47AE_147B,
        s.youngs_modulus.bits == 0x4222_A05F_2000_0000,
        s.shear_modulus.bits == 0x41ED_CD65_0000_0000,
        s.density.bits == 0x409E_7800_0000_0000,
{
}

/// A new panel is one triangle of ripstop between its points, as stiff along the
/// warp as along the weft and half as stiff on the bias, named by its number.
pub proof fn new_panels_are_ripstop(p: PanelItem, n: nat, a: usize, b: usize, c: usize)
    requires
        is_new_panel(p, n, a, b, c),
    ensures
        p.name@ == "panel_"@ + decimal(n),
        p.a == a,
        p.b == b,
        p.c == c,
        p.warp_compliance.bits == 0x3F1A_36E2_EB1C_432D,
        p.weft_compliance.bits == 0x3F1A_36E2_EB1C_432D,
        p.shear_compliance.bits == 0x3F2A_36E2_EB1C_432D,
        p.bending_compliance.bits == 0x3FB9_9999_9999_999A,
        p.subdivisions == 1,
        p.areal_density.bits == 0x3FA9_9999_9999_999A,
{
}

/// A new line is one segment of two-millimeter Dyneema between its points, as
/// long as it is asked for, named by its number.
pub proof fn new_lines_are_dyneema(l: BridleItem, n: nat, a: usize, b: usize, rest_length: Scalar)
    requires
        is_new_bridle(l, n, a, b, rest_length),
    ensures
        l.name@ == "bridle_"@ + decimal(n),
        l.a == a,
        l.b == b,
        l.rest_length == rest_length,
        l.compliance.bits == 0x3EB0_C6F7_A0B5_ED8D,
        l.diameter.bits == 0x3F60_624D_D2F1_A9FC,
        l.num_segments == 1,
        l.density.bits == 0x408E_5000_0000_0000,
{
}

proof fn stiff_is_first(items: Seq<StiffJointItem>, idx: usize, k: nat)
    requires
        k <= items.len(),
    ensures
        ({
            let at = EditorDoc::stiff_at(items, idx, k);
            &&& k <= at <= items.len()
            &&& at < items.len() ==> items[at as int].point == idx
            &&& forall|j: int| k <= j < at ==> (#[trigger] items[j]).point != idx
        }),
    decreases items.len() - k,
{
    if k < items.len() && items[k as int].point != idx {
        stiff_is_first(items, idx, k + 1);
    }
}

/// Toggling a stiff joint takes the first one at the point away and leaves the
/// others as they are.
pub proof fn stiff_joints_toggle(items: Seq<StiffJointItem>, idx: usize, k: int)
    requires
        0 <= k < items.len(),
        items[k].point == idx,
        forall|j: int| 0 <= j < k ==> (#[trigger] items[j]).point != idx,
    ensures
        EditorDoc::stiff_toggled(items, idx) == items.remove(k),
{
    stiff_is_first(items, idx, 0);
    let at = EditorDoc::stiff_at(items, idx, 0) as int;
    assert(at == k) by {
        if at < k {
            assert(items[at].point != idx);
        }
    }
}

/// Where there is none, toggling adds one with a compliance of a billionth
/// behind the others.
pub proof fn stiff_joints_are_added(items: Seq<StiffJointItem>, idx: usize)
    requires
        forall|j: int| 0 <= j < items.len() ==> (#[trigger] items[j]).point != idx,
    ensures
        EditorDoc::stiff_toggled(items, idx).drop_last() == items,
        EditorDoc::stiff_toggled(items, idx).last().point == idx,
        EditorDoc::stiff_toggled(items, idx).last().compliance.bits == 0x3E11_2E0B_E826_D695,
        EditorDoc::stiff_toggled(items, idx).len() == items.len() + 1,
{
    stiff_is_first(items, idx, 0);
    assert(EditorDoc::stiff_toggled(items, idx).drop_last() =~= items);
}

proof fn lashing_is_first(items: Seq<LashingItem>, idx: usize, k: nat)
    requires
        k <= items.len(),
    ensures
        ({
            let at = EditorDoc::lashing_at(items, idx, k);
            &&& k <= at <= items.len()
            &&& at < items.len() ==> items[at as int].point == idx
            &&& forall|j: int| k <= j < at ==> (#[trigger] items[j]).point != idx
        }),
    decreases items.len() - k,
{
    if k < items.len() && items[k as int].point != idx {
        lashing_is_first(items, idx, k + 1);
    }
}

/// Toggling a lashing takes the first one at the point away and leaves the
/// others as they are.
pub proof fn lashings_toggle(items: Seq<LashingItem>, idx: usize, k: int)
    requires
        0 <= k < items.len(),
        items[k].point == idx,
        forall|j: int| 0 <= j < k ==> (#[trigger] items[j]).point != idx,
    ensures
        EditorDoc::lashing_toggled(items, idx) == items.remove(k),
{
    lashing_is_first(items, idx, 0);
    let at = EditorDoc::lashing_at(items, idx, 0) as int;
    assert(at == k) by {
        if at < k {
            assert(items[at].point != idx);
        }
    }
}

/// Where there is none, toggling adds one with a compliance of a millionth
/// behind the others.
pub proof fn lashings_are_added(items: Seq<LashingItem>, idx: usize)
    requires
        forall|j: int| 0 <= j < items.len() ==> (#[trigger] items[j]).point != idx,
    ensures
        EditorDoc::lashing_toggled(items, idx).drop_last() == items,
        EditorDoc::lashing_toggled(items, idx).last().point == idx,
        EditorDoc::lashing_toggled(items, idx).last().compliance.bits == 0x3EB0_C6F7_A0B5_ED8D,
        EditorDoc::lashing_toggled(items, idx).len() == items.len() + 1,
{
    lashing_is_first(items, idx, 0);
    assert(EditorDoc::lashing_toggled(items, idx).drop_last() =~= items);
}

/// A sight's target is what is picked of the document's elements, each kind by
/// its own probes, and its node the nearest inner node of a line.
pub proof fn sights_see_each_kind(sight: Sight)
    ensures
        sight.target() == picked(
            hits_of(sight.points@),
            hits_of(sight.spars@),
            hits_of(sight.bridles@),
            sight.panels@,
        ),
        sight.node() == nearest_hit(hits_of(sight.nodes@), sight.nodes@.len()),
{
}

/// All of the document but its points, spars, panels, lines, junction, pins,
/// stiff joints and lashings is as it was.
pub open spec fn same_rest(a: EditorDoc, b: EditorDoc) -> bool {
    &&& a.name == b.name
    &&& a.gravity == b.gravity
    &&& a.duration == b.duration
    &&& a.wind == b.wind
    &&& a.sim == b.sim
    &&& a.junction_pinned == b.junction_pinned
}

/// A click with the select tool changes nothing. With the point tool it puts a
/// point where the ray meets the ground and selects it, or selects the first
/// point that is near there; off the ground nothing happens.
pub proof fn point_clicks_add_or_weld(
    doc: EditorDoc,
    after: EditorDoc,
    state: ToolState,
    state_after: ToolState,
    sel: Seq<Selection>,
    sel_after: Seq<Selection>,
    sight: Sight,
    r: Option<String>,
)
    requires
        sight.fits(doc),
        clicked(doc, after, state, state_after, sel, sel_after, sight, r),
    ensures
        state_after.tool == state.tool,
        state.tool == Tool::Select ==> after == doc && sel_after == sel && state_after.pending@
            == state.pending@ && r is None,
        state.tool == Tool::AddPoint ==> {
            &&& r is None
            &&& state_after.pending@ == state.pending@
            &&& after == (EditorDoc { points: after.points, ..doc })
            &&& sight.ground is None ==> after == doc && sel_after == sel
            &&& sight.ground is Some ==> {
                let near = sight.ground->0.near@;
                &&& (forall|j: int| 0 <= j < near.len() ==> !#[trigger] near[j]) ==> {
                    &&& after.points@ == doc.points@.push(sight.ground->0.position)
                    &&& sel_after == seq![Selection::Point(doc.points@.len() as usize)]
                }
                &&& forall|i: int|
                    0 <= i < near.len() && #[trigger] near[i] && (forall|j: int|
                        0 <= j < i ==> !#[trigger] near[j]) ==> {
                        &&& after.points@ == doc.points@
                        &&& sel_after == seq![Selection::Point(i as usize)]
                    }
            }
        },
{
    if state.tool == Tool::AddPoint && sight.ground is Some {
        let near = sight.ground->0.near@;
        places_weld_to_the_first_near(near, 0);
        let at = EditorDoc::weld_index(near, 0) as int;
        assert(near.len() == doc.points@.len());
        assert(doc.points.len() == doc.points@.len());
        assert forall|i: int|
            0 <= i < near.len() && #[trigger] near[i] && (forall|j: int|
                0 <= j < i ==> !#[trigger] near[j]) implies at == i by {
            if at < i {
                assert(!near[at]);
            }
        }
    }
}

/// The points that a drawing tool has once one more is clicked: the same point
/// twice in a row counts once.
pub open spec fn gathered(pending: Seq<usize>, i: usize) -> Seq<usize> {
    if pending.len() > 0 && pending[pending.len() - 1] == i {
        pending
    } else {
        pending.push(i)
    }
}

/// A click with a drawing tool on a point gathers it. A spar and a line are
/// drawn from the second point on, a panel from the third: one element is added,
/// between the points in the order in which they were clicked, it alone is
/// selected, and the tool starts anew. Before that nothing but the tool's list
/// changes. A click on no point does nothing, but for the line tool on a line's
/// inner node.
pub proof fn drawing_clicks_gather_points(
    doc: EditorDoc,
    after: EditorDoc,
    state: ToolState,
    state_after: ToolState,
    sel: Seq<Selection>,
    sel_after: Seq<Selection>,
    sight: Sight,
    r: Option<String>,
)
    requires
        clicked(doc, after, state, state_after, sel, sel_after, sight, r),
        state.tool == Tool::Spar || state.tool == Tool::Bridle || state.tool == Tool::Panel,
    ensures
        same_rest(after, doc),
        after.junction == doc.junction,
        after.pinned == doc.pinned,
        after.stiff_joints == doc.stiff_joints,
        after.lashings == doc.lashings,
        !(sight.target() is Point) && (state.tool != Tool::Bridle || sight.node() is None) ==> after
            == doc && sel_after == sel && state_after.pending@ == state.pending@ && r is None,
        sight.target() is Point && sight.target()->Point_0 < doc.points@.len() ==> {
            let pts = gathered(state.pending@, sight.target()->Point_0);
            &&& r is None
            &&& after.points == doc.points
            &&& state.tool == Tool::Spar ==> after.panels == doc.panels && after.bridles
                == doc.bridles
            &&& state.tool == Tool::Bridle ==> after.panels == doc.panels && after.spars
                == doc.spars
            &&& state.tool == Tool::Panel ==> after.spars == doc.spars && after.bridles
                == doc.bridles
            &&& state.tool == Tool::Spar && pts.len() >= 2 ==> {
                &&& state_after.pending@.len() == 0
                &&& after.spars@.len() == doc.spars@.len() + 1
                &&& after.spars@.drop_last() == doc.spars@
                &&& after.spars@.last().a == pts[0]
                &&& after.spars@.last().b == pts[1]
                &&& sel_after == seq![Selection::Spar(doc.spars@.len() as usize)]
            }
            &&& state.tool == Tool::Bridle && pts.len() >= 2 ==> {
                &&& state_after.pending@.len() == 0
                &&& after.bridles@.len() == doc.bridles@.len() + 1
                &&& after.bridles@.drop_last() == doc.bridles@
                &&& after.bridles@.last().a == pts[0]
                &&& after.bridles@.last().b == pts[1]
                &&& after.bridles@.last().rest_length
                    == sight.point_spans@[sight.target()->Point_0 as int]
                &&& sel_after == seq![Selection::Bridle(doc.bridles@.len() as usize)]
            }
            &&& state.tool == Tool::Panel && pts.len() >= 3 ==> {
                &&& state_after.pending@.len() == 0
                &&& after.panels@.len() == doc.panels@.len() + 1
                &&& after.panels@.drop_last() == doc.panels@
                &&& after.panels@.last().a == pts[0]
                &&& after.panels@.last().b == pts[1]
                &&& after.panels@.last().c == pts[2]
                &&& sel_after == seq![Selection::Panel(doc.panels@.len() as usize)]
            }
            &&& pts.len() < 2 || (state.tool == Tool::Panel && pts.len() < 3) ==> {
                &&& after == doc
                &&& sel_after == sel
                &&& state_after.pending@ == pts
            }
        },
{
    let aim = aim_of(state.tool, sight.target(), sight.node());
    if aim != Aim::Missed {
        let (mid, i) = choose|mid: EditorDoc, i: usize| #[trigger]
            drawing_clicked(
                doc,
                mid,
                after,
                state,
                state_after,
                sel,
                sel_after,
                sight,
                aim,
                i,
            );
        assert(drawing_clicked(
            doc,
            mid,
            after,
            state,
            state_after,
            sel,
            sel_after,
            sight,
            aim,
            i,
        ));
        if after.spars@ == mid.spars@.push(after.spars@.last()) {
            assert(after.spars@.drop_last() =~= mid.spars@);
        }
        if after.panels@ == mid.panels@.push(after.panels@.last()) {
            assert(after.panels@.drop_last() =~= mid.panels@);
        }
        if after.bridles@ == mid.bridles@.push(after.bridles@.last()) {
            assert(after.bridles@.drop_last() =~= mid.bridles@);
        }
    }
}

/// A click of the line tool on a line's inner node, where no point is picked,
/// puts a point there, or takes the first one that is near, and gathers it; it
/// says which node of how many segments of which line it snapped to.
pub proof fn line_clicks_snap_to_nodes(
    doc: EditorDoc,
    after: EditorDoc,
    state: ToolState,
    state_after: ToolState,
    sel: Seq<Selection>,
    sel_after: Seq<Selection>,
    sight: Sight,
    r: Option<String>,
)
    requires
        sight.fits(doc),
        clicked(doc, after, state, state_after, sel, sel_after, sight, r),
        state.tool == Tool::Bridle,
        !(sight.target() is Point),
        sight.node() is Some,
        sight.node()->0 < sight.node_spots@.len(),
    ensures
        ({
            let k = sight.node()->0 as int;
            let node = line_nodes(doc.bridles@, doc.bridles@.len())[k];
            let near = sight.node_spots@[k].near@;
            let i = EditorDoc::weld_index(near, 0);
            let pts = gathered(state.pending@, i as usize);
            &&& r is Some
            &&& r->0@ == "snapped to node "@ + decimal(node.node as nat) + "/"@ + decimal(
                node.segments as nat,
            ) + " of "@ + doc.bridles@[node.bridle as int].name@
            &&& i == near.len() ==> after.points@ == doc.points@.push(sight.node_spots@[k].position)
            &&& i < near.len() ==> after.points@ == doc.points@
            &&& after.spars == doc.spars
            &&& after.panels == doc.panels
            &&& pts.len() < 2 ==> after.bridles == doc.bridles && sel_after == sel
                && state_after.pending@ == pts
            &&& pts.len() >= 2 ==> {
                &&& state_after.pending@.len() == 0
                &&& after.bridles@.len() == doc.bridles@.len() + 1
                &&& after.bridles@.drop_last() == doc.bridles@
                &&& after.bridles@.last().a == pts[0]
                &&& after.bridles@.last().b == pts[1]
                &&& i < near.len() ==> after.bridles@.last().rest_length
                    == sight.point_spans@[i as int]
                &&& i == near.len() ==> after.bridles@.last().rest_length == sight.node_spans@[k]
                &&& sel_after == seq![Selection::Bridle(doc.bridles@.len() as usize)]
            }
        }),
{
    let k = sight.node()->0 as int;
    let near = sight.node_spots@[k].near@;
    places_weld_to_the_first_near(near, 0);
    let aim = aim_of(state.tool, sight.target(), sight.node());
    let (mid, i) = choose|mid: EditorDoc, i: usize| #[trigger]
        drawing_clicked(
            doc,
            mid,
            after,
            state,
            state_after,
            sel,
            sel_after,
            sight,
            aim,
            i,
        );
    assert(near.len() == doc.points@.len());
    assert(doc.points.len() == doc.points@.len());
    if after.bridles@ == mid.bridles@.push(after.bridles@.last()) {
        assert(after.bridles@.drop_last() =~= mid.bridles@);
    }
}

/// A click with the junction, pin, stiff-joint or lashing tool on a point works
/// on that point alone and selects it: it becomes the junction, or is pinned or
/// freed, or its stiff joint or lashing is toggled. A click elsewhere does
/// nothing.
pub proof fn point_tools_work_on_their_point(
    doc: EditorDoc,
    after: EditorDoc,
    state: ToolState,
    state_after: ToolState,
    sel: Seq<Selection>,
    sel_after: Seq<Selection>,
    sight: Sight,
    r: Option<String>,
    j: usize,
)
    requires
        clicked(doc, after, state, state_after, sel, sel_after, sight, r),
        state.tool == Tool::Junction || state.tool == Tool::Pin || state.tool == Tool::StiffJoint
            || state.tool == Tool::Lashing,
    ensures
        r is None,
        state_after.pending@ == state.pending@,
        after.points == doc.points,
        after.spars == doc.spars,
        after.panels == doc.panels,
        after.bridles == doc.bridles,
        same_rest(after, doc),
        state.tool != Tool::Junction ==> after.junction == doc.junction,
        state.tool != Tool::Pin ==> after.pinned == doc.pinned,
        state.tool != Tool::StiffJoint ==> after.stiff_joints == doc.stiff_joints,
        state.tool != Tool::Lashing ==> after.lashings == doc.lashings,
        !(sight.target() is Point) ==> after == doc && sel_after == sel,
        sight.target() is Point ==> {
            let i = sight.target()->Point_0;
            &&& sel_after == seq![Selection::Point(i)]
            &&& state.tool == Tool::Junction ==> after.junction == Some(i)
            &&& state.tool == Tool::Pin ==> {
                &&& j != i ==> after.pinned@.contains(j) == doc.pinned@.contains(j)
                &&& after.pinned@.contains(i) == !doc.pinned@.contains(i)
            }
            &&& state.tool == Tool::StiffJoint ==> after.stiff_joints@ == EditorDoc::stiff_toggled(
                doc.stiff_joints@,
                i,
            )
            &&& state.tool == Tool::Lashing ==> after.lashings@ == EditorDoc::lashing_toggled(
                doc.lashings@,
                i,
            )
        },
{
}

} // verus!
