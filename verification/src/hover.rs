//! What the pointer is over while a simulation runs, and how things are shown.
use crate::doc::{EditorDoc, LashingItem, SparItem, StiffJointItem};
use crate::scalar::Scalar;
use crate::selection::{Selection, SelectionSet, ToolState};
use crate::session::SimSession;
use crate::text::{decimal, push_decimal};
use crate::tools::{hits_of, nearest_hit, Probe};
use vstd::prelude::*;
use vstd::string::*;

verus! {

/// How many segments the first `n` spars have.
pub open spec fn segments_before(spars: Seq<SparItem>, n: nat) -> nat
    decreases n,
{
    if n == 0 {
        0
    } else {
        segments_before(spars, (n - 1) as nat) + spars[n - 1].num_segments as nat
    }
}

/// The first spar from `k` on whose segments include the given one; the
/// segments are numbered spar by spar.
pub open spec fn spar_of_segment(spars: Seq<SparItem>, segment: nat, k: nat) -> nat
    decreases spars.len() - k,
{
    if k >= spars.len() {
        spars.len()
    } else if segment < segments_before(spars, k + 1) {
        k
    } else {
        spar_of_segment(spars, segment, k + 1)
    }
}

/// The label of a segment: its spar's name and its number within the spar.
pub open spec fn segment_label(doc: EditorDoc, segment: usize) -> Seq<char> {
    let k = spar_of_segment(doc.spars@, segment as nat, 0);
    if k < doc.spars@.len() {
        doc.spars@[k as int].name@ + " seg "@ + decimal(
            (segment - segments_before(doc.spars@, k)) as nat,
        )
    } else {
        "spar segment "@ + decimal(segment as nat)
    }
}

/// Labels a segment by the spar it belongs to.
pub fn spar_label(doc: &EditorDoc, global_idx: usize) -> (r: String)
    ensures
        r@ == segment_label(*doc, global_idx),
{
    let mut left: usize = global_idx;
    let mut k: usize = 0;
    while k < doc.spars.len()
        invariant
            k <= doc.spars@.len(),
            left + segments_before(doc.spars@, k as nat) == global_idx,
            spar_of_segment(doc.spars@, global_idx as nat, 0) == spar_of_segment(
                doc.spars@,
                global_idx as nat,
                k as nat,
            ),
        decreases doc.spars@.len() - k,
    {
        if left < doc.spars[k].num_segments {
            let mut s: String = String::from_str(doc.spars[k].name.as_str());
            s.append(" seg ");
            push_decimal(&mut s, left);
            return s;
        }
        left -= doc.spars[k].num_segments;
        k += 1;
    }
    let mut s: String = String::from_str("spar segment ");
    push_decimal(&mut s, global_idx);
    s
}

/// What the pointer is over: a spar segment, a line segment or a panel.
#[derive(Clone, Copy, Debug, PartialEq, Eq, Structural)]
pub enum Hover {
    Segment(usize),
    Line(usize),
    Panel(usize),
}

/// The nearest of all that is hit: a segment before a line that is equally
/// near, and a line before a panel.
pub open spec fn hovered(
    segments: Seq<Option<Scalar>>,
    lines: Seq<Option<Scalar>>,
    panels: Seq<Option<Scalar>>,
) -> Option<Hover> {
    let all = segments + lines + panels;
    match nearest_hit(all, all.len()) {
        None => None,
        Some(k) => if k < segments.len() {
            Some(Hover::Segment(k))
        } else if k < segments.len() + lines.len() {
            Some(Hover::Line((k - segments.len()) as usize))
        } else {
            Some(Hover::Panel((k - segments.len() - lines.len()) as usize))
        },
    }
}

fn append_hits(out: &mut Vec<Option<Scalar>>, probes: &Vec<Probe>)
    ensures
        final(out)@ == old(out)@ + hits_of(probes@),
{
    let ghost before = out@;
    let mut k: usize = 0;
    while k < probes.len()
        invariant
            k <= probes@.len(),
            out@ == before + hits_of(probes@).take(k as int),
        decreases probes@.len() - k,
    {
        out.push(probes[k].hit_at());
        assert(out@ =~= before + hits_of(probes@).take(k + 1));
        k += 1;
    }
    assert(hits_of(probes@).take(k as int) =~= hits_of(probes@));
}

/// What the pointer is over. The probes are those of the stretch-shear
/// constraints and of the unilateral constraints; for a panel it is measured
/// only where along the ray it is hit.
pub fn hover_target(
    segments: &Vec<Probe>,
    lines: &Vec<Probe>,
    panels: &Vec<Option<Scalar>>,
) -> (r: Option<Hover>)
    ensures
        r == hovered(hits_of(segments@), hits_of(lines@), panels@),
{
    let mut all: Vec<Option<Scalar>> = Vec::new();
    append_hits(&mut all, segments);
    append_hits(&mut all, lines);
    let ghost two = all@;
    let mut k: usize = 0;
    while k < panels.len()
        invariant
            k <= panels@.len(),
            all@ == two + panels@.take(k as int),
        decreases panels@.len() - k,
    {
        all.push(panels[k]);
        assert(all@ =~= two + panels@.take(k + 1));
        k += 1;
    }
    assert(panels@.take(k as int) =~= panels@);
    assert(all@ =~= hits_of(segments@) + hits_of(lines@) + panels@);
    match crate::tools::find_nearest(&all) {
        None => None,
        Some(k) => if k < segments.len() {
            Some(Hover::Segment(k))
        } else if k - segments.len() < lines.len() {
            Some(Hover::Line(k - segments.len()))
        } else {
            Some(Hover::Panel(k - segments.len() - lines.len()))
        },
    }
}

/// How a point of the document looks.
#[derive(Clone, Copy, Debug, PartialEq, Eq, Structural)]
pub enum PointLook {
    Plain,
    Pinned,
    Junction,
    StiffJoint,
    Lashed,
    Pending,
    Selected,
}

pub open spec fn has_stiff(items: Seq<StiffJointItem>, i: usize) -> bool {
    exists|k: int| 0 <= k < items.len() && (#[trigger] items[k]).point == i
}

pub open spec fn has_lashing(items: Seq<LashingItem>, i: usize) -> bool {
    exists|k: int| 0 <= k < items.len() && (#[trigger] items[k]).point == i
}

/// A selected point looks selected, whatever else it is; of the other marks
/// the later one of the list shows.
pub open spec fn look_of(
    doc: EditorDoc,
    pending: Seq<usize>,
    sel: Seq<Selection>,
    i: usize,
) -> PointLook {
    if sel.contains(Selection::Point(i)) {
        PointLook::Selected
    } else if pending.contains(i) {
        PointLook::Pending
    } else if has_lashing(doc.lashings@, i) {
        PointLook::Lashed
    } else if has_stiff(doc.stiff_joints@, i) {
        PointLook::StiffJoint
    } else if doc.junction == Some(i) {
        PointLook::Junction
    } else if doc.pinned@.contains(i) {
        PointLook::Pinned
    } else {
        PointLook::Plain
    }
}

/// Whether there is a stiff joint at a point.
pub fn is_stiff(items: &Vec<StiffJointItem>, i: usize) -> (r: bool)
    ensures
        r == has_stiff(items@, i),
{
    let mut k: usize = 0;
    while k < items.len()
        invariant
            k <= items@.len(),
            forall|j: int| 0 <= j < k ==> (#[trigger] items@[j]).point != i,
        decreases items@.len() - k,
    {
        if items[k].point == i {
            return true;
        }
        k += 1;
    }
    false
}

/// Whether there is a lashing at a point.
pub fn is_lashed(items: &Vec<LashingItem>, i: usize) -> (r: bool)
    ensures
        r == has_lashing(items@, i),
{
    let mut k: usize = 0;
    while k < items.len()
        invariant
            k <= items@.len(),
            forall|j: int| 0 <= j < k ==> (#[trigger] items@[j]).point != i,
        decreases items@.len() - k,
    {
        if items[k].point == i {
            return true;
        }
        k += 1;
    }
    false
}

fn is_pending(pending: &Vec<usize>, i: usize) -> (r: bool)
    ensures
        r == pending@.contains(i),
{
    let mut k: usize = 0;
    while k < pending.len()
        invariant
            k <= pending@.len(),
            forall|j: int| 0 <= j < k ==> #[trigger] pending@[j] != i,
        decreases pending@.len() - k,
    {
        if pending[k] == i {
            return true;
        }
        k += 1;
    }
    false
}

/// How a point of the document is shown.
pub fn point_look(doc: &EditorDoc, state: &ToolState, sel: &SelectionSet, i: usize) -> (r:
    PointLook)
    ensures
        r == look_of(*doc, state.pending@, sel@, i),
{
    broadcast use vstd::std_specs::hash::group_hash_axioms;

    if sel.contains(Selection::Point(i)) {
        return PointLook::Selected;
    }
    if is_pending(&state.pending, i) {
        return PointLook::Pending;
    }
    if is_lashed(&doc.lashings, i) {
        return PointLook::Lashed;
    }
    if is_stiff(&doc.stiff_joints, i) {
        return PointLook::StiffJoint;
    }
    match doc.junction {
        Some(j) => if j == i {
            return PointLook::Junction;
        },
        None => {},
    }
    if doc.pinned.contains(&i) {
        return PointLook::Pinned;
    }
    PointLook::Plain
}

/// How a particle of the running world looks.
#[derive(Clone, Copy, Debug, PartialEq, Eq, Structural)]
pub enum ParticleLook {
    Free,
    Pinned,
    Grabbed,
}

/// How a particle is shown: a held one as grabbed, another one of inverse mass
/// zero as pinned.
pub fn particle_look(session: &SimSession, i: usize) -> (r: ParticleLook)
    requires
        session.wf(),
        i < session.world.particles.count(),
    ensures
        r == if session.grab is Some && session.grab->0.particle == i {
            ParticleLook::Grabbed
        } else if !session.world.particles.inv_mass@[i as int].nan()
            && session.world.particles.inv_mass@[i as int].rank() == 0 {
            ParticleLook::Pinned
        } else {
            ParticleLook::Free
        },
{
    match session.grab {
        Some(g) => if g.particle == i {
            return ParticleLook::Grabbed;
        },
        None => {},
    }
    let w: Scalar = session.world.particles.inv_mass[i];
    if w.le(Scalar::zero()) && Scalar::zero().le(w) {
        ParticleLook::Pinned
    } else {
        ParticleLook::Free
    }
}

} // verus!
