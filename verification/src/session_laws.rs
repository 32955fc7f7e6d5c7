//! What holds of every session.
use crate::constraints::StretchShearConstraint;
use crate::doc::EditorDoc;
use crate::scalar::Scalar;
use crate::session::{
    aged, held, is_config_of, joint_place, let_go, marked_events, recorded, segment_holder,
    EventMarker, GrabState, SimSession, HISTORY_CAP, MAX_STEPS_PER_FRAME, SHORTEST_FRAME_BITS,
};
use crate::snapshot::Snapshot;
use crate::world::{Config, Event, World};
use crate::staleness::structure_hash;
use vstd::prelude::*;

verus! {

/// The value that an override asks for, or the one there is without it.
pub open spec fn asked<T>(wish: Option<T>, without: T) -> T {
    match wish {
        Some(v) => v,
        None => without,
    }
}

/// A world that is opened on a document has the document's gravity and wind.
/// Each setting that can be overridden is what the document asks for, and the
/// engine's own where it asks for nothing: 24 substeps of one iteration, damping
/// of two per second, no bladder pressure, a pressure coupling of one and no
/// collisions. The parallel solve is as it was asked for, and there is no
/// added-mass correction.
pub proof fn opened_worlds_follow_the_document(cfg: Config, doc: EditorDoc, parallel_solve: bool)
    requires
        is_config_of(cfg, doc, parallel_solve),
    ensures
        cfg.gravity == doc.gravity,
        cfg.wind.v_ref == doc.wind.v_ref,
        cfg.wind.h_ref == doc.wind.h_ref,
        cfg.wind.shear_exponent == doc.wind.shear_exponent,
        cfg.wind.direction == doc.wind.direction,
        cfg.wind.turbulence_intensity == doc.wind.turbulence_intensity,
        cfg.wind.length_scale == doc.wind.length_scale,
        cfg.wind.octaves == doc.wind.octaves,
        cfg.wind.gusts@ == doc.wind.gusts@,
        cfg.wind.thermals@ == doc.wind.thermals@,
        cfg.wind.seed == doc.wind.seed,
        cfg.substeps == asked(doc.sim.substeps, 24),
        cfg.iterations_per_substep == asked(doc.sim.iterations_per_substep, 1),
        cfg.damping == asked(doc.sim.damping, Scalar { bits: 0x4000_0000_0000_0000 }),
        cfg.bladder_pressure == asked(doc.sim.bladder_pressure, Scalar { bits: 0 }),
        cfg.k_pressure == asked(doc.sim.k_pressure, Scalar { bits: 0x3FF0_0000_0000_0000 }),
        cfg.ground_collision_enabled == asked(doc.sim.ground_collision_enabled, false),
        cfg.self_collision_enabled == asked(doc.sim.self_collision_enabled, false),
        cfg.parallel_solve == parallel_solve,
        !cfg.added_mass_enabled,
{
}

proof fn holder_is_first(cs: Seq<StretchShearConstraint>, q: usize, k: nat)
    requires
        k <= cs.len(),
    ensures
        k <= segment_holder(cs, q, k) <= cs.len(),
        forall|j: int| k <= j < segment_holder(cs, q, k) ==> (#[trigger] cs[j]).q_index != q,
        segment_holder(cs, q, k) < cs.len() ==> cs[segment_holder(cs, q, k) as int].q_index == q,
    decreases cs.len() - k,
{
    if k < cs.len() && cs[k as int].q_index != q {
        holder_is_first(cs, q, k + 1);
    }
}

/// A joint is at the second end of the first rod whose frame is the first frame
/// of the joint; it has no place only where there is no such joint or rod.
pub proof fn joints_are_at_the_end_of_their_segment(world: World, joint: usize)
    ensures
        ({
            let cs = world.stretch_shear_constraints@;
            let joints = world.bend_twist_constraints@;
            match joint_place(world, joint) {
                Some(p) => joint < joints.len() && exists|k: int|
                    #![trigger cs[k]]
                    0 <= k < cs.len() && cs[k].q_index == joints[joint as int].q1_index && cs[k].p2
                        == p && forall|j: int|
                        0 <= j < k ==> (#[trigger] cs[j]).q_index
                            != joints[joint as int].q1_index,
                None => joint >= joints.len() || forall|j: int|
                    0 <= j < cs.len() ==> (#[trigger] cs[j]).q_index
                        != joints[joint as int].q1_index,
            }
        }),
{
    let cs = world.stretch_shear_constraints@;
    let joints = world.bend_twist_constraints@;
    if joint < joints.len() {
        let q = joints[joint as int].q1_index;
        holder_is_first(cs, q, 0);
        let k = segment_holder(cs, q, 0) as int;
        if k < cs.len() {
            assert(cs[k].p2 == cs[k].p2);
        }
    }
}

/// The joint that an event tells of.
pub open spec fn told_of(e: Event) -> usize {
    match e {
        Event::SparBroken { joint_index } => joint_index,
        Event::LeadingEdgeFolded { joint_index } => joint_index,
    }
}

/// How many of the first `n` events are at a joint with a place.
pub open spec fn placed_below(world: World, events: Seq<Event>, n: nat) -> nat
    decreases n,
{
    if n == 0 {
        0
    } else {
        placed_below(world, events, (n - 1) as nat) + if joint_place(
            world,
            told_of(events[n - 1]),
        ) is Some {
            1nat
        } else {
            0nat
        }
    }
}

proof fn placed_below_grows(world: World, events: Seq<Event>, m: nat, n: nat)
    requires
        m <= n,
    ensures
        placed_below(world, events, m) <= placed_below(world, events, n),
    decreases n,
{
    if m < n {
        placed_below_grows(world, events, m, (n - 1) as nat);
    }
}

proof fn markers_are_kept(
    world: World,
    markers: Seq<EventMarker>,
    events: Seq<Event>,
    step: usize,
    n: nat,
)
    ensures
        marked_events(world, markers, events, step, n).len() == markers.len() + placed_below(
            world,
            events,
            n,
        ),
        marked_events(world, markers, events, step, n).take(markers.len() as int) == markers,
    decreases n,
{
    if n > 0 {
        markers_are_kept(world, markers, events, step, (n - 1) as nat);
        let before = marked_events(world, markers, events, step, (n - 1) as nat);
        let after = marked_events(world, markers, events, step, n);
        assert forall|i: int| 0 <= i < markers.len() implies after[i] == markers[i] by {
            assert(after[i] == before[i]);
            assert(before.take(markers.len() as int)[i] == before[i]);
        }
        assert(after.take(markers.len() as int) =~= markers);
    } else {
        assert(markers.take(markers.len() as int) =~= markers);
    }
}

/// Every event whose joint has a place gets one marker, behind the ones there
/// were and those of the events before it: on the step's frame, at the joint's
/// place, and told broken for a broken spar, folded for a folded leading edge.
/// No other marker is added, and none is lost.
pub proof fn events_get_their_markers(
    world: World,
    markers: Seq<EventMarker>,
    events: Seq<Event>,
    step: usize,
    k: int,
    n: nat,
)
    requires
        0 <= k < n <= events.len(),
    ensures
        ({
            let after = marked_events(world, markers, events, step, n);
            let at = markers.len() + placed_below(world, events, k as nat);
            &&& after.len() == markers.len() + placed_below(world, events, n)
            &&& after.take(markers.len() as int) == markers
            &&& joint_place(world, told_of(events[k])) is Some ==> {
                &&& at < after.len()
                &&& after[at as int].step == step
                &&& after[at as int].particle == joint_place(world, told_of(events[k]))->0
                &&& events[k] is SparBroken ==> after[at as int].broken
                &&& events[k] is LeadingEdgeFolded ==> !after[at as int].broken
            }
        }),
    decreases n,
{
    let m = (n - 1) as nat;
    markers_are_kept(world, markers, events, step, n);
    markers_are_kept(world, markers, events, step, m);
    if k < m {
        events_get_their_markers(world, markers, events, step, k, m);
        placed_below_grows(world, events, k as nat + 1, m);
    }
}

/// How many of the first `n` markers are on a frame other than the oldest.
pub open spec fn later_below(markers: Seq<EventMarker>, n: nat) -> nat
    decreases n,
{
    if n == 0 {
        0
    } else {
        later_below(markers, (n - 1) as nat) + if markers[n - 1].step > 0 {
            1nat
        } else {
            0nat
        }
    }
}

proof fn later_below_grows(markers: Seq<EventMarker>, m: nat, n: nat)
    requires
        m <= n,
    ensures
        later_below(markers, m) <= later_below(markers, n),
    decreases n,
{
    if m < n {
        later_below_grows(markers, m, (n - 1) as nat);
    }
}

proof fn as_many_later(markers: Seq<EventMarker>, n: nat)
    ensures
        aged(markers, n).len() == later_below(markers, n),
    decreases n,
{
    if n > 0 {
        as_many_later(markers, (n - 1) as nat);
    }
}

/// When the oldest frame is dropped its markers go, and the others stay in their
/// order, one frame earlier, at their particle and of their kind.
pub proof fn markers_age_by_one_frame(markers: Seq<EventMarker>, k: int, n: nat)
    requires
        0 <= k < n <= markers.len(),
    ensures
        aged(markers, n).len() == later_below(markers, n),
        markers[k].step > 0 ==> {
            let at = later_below(markers, k as nat) as int;
            &&& at < aged(markers, n).len()
            &&& aged(markers, n)[at].step == markers[k].step - 1
            &&& aged(markers, n)[at].particle == markers[k].particle
            &&& aged(markers, n)[at].broken == markers[k].broken
        },
    decreases n,
{
    let m = (n - 1) as nat;
    as_many_later(markers, n);
    as_many_later(markers, m);
    if k < m {
        markers_age_by_one_frame(markers, k, m);
        later_below_grows(markers, k as nat + 1, m);
    }
}

/// The history ends with the new frame. Below 4096 frames nothing else changes;
/// at that many the oldest goes and the others stay in their order.
pub proof fn history_keeps_the_latest(history: Seq<Snapshot>, snap: Snapshot)
    ensures
        recorded(history, snap).len() > 0,
        recorded(history, snap).last() == snap,
        history.len() < 4096 ==> recorded(history, snap).drop_last() == history,
        history.len() >= 4096 ==> recorded(history, snap).drop_last() == history.drop_first(),
{
    assert(history.push(snap).drop_last() =~= history);
    if history.len() >= 4096 {
        assert(recorded(history, snap).drop_last() =~= history.drop_first());
    }
}

/// A held particle has no inverse mass, and no other changes. Let go, it has the
/// one that was noted, and no other changes; with nothing held none does.
pub proof fn only_the_held_particle_changes(
    masses: Seq<Scalar>,
    grab: GrabState,
    i: int,
)
    requires
        grab.particle < masses.len(),
        0 <= i < masses.len(),
    ensures
        held(masses, grab.particle).len() == masses.len(),
        held(masses, grab.particle)[grab.particle as int].bits == 0,
        i != grab.particle ==> held(masses, grab.particle)[i] == masses[i],
        let_go(masses, Some(grab)).len() == masses.len(),
        let_go(masses, Some(grab))[grab.particle as int] == grab.orig_inv_mass,
        i != grab.particle ==> let_go(masses, Some(grab))[i] == masses[i],
        let_go(masses, None) == masses,
{
}

/// The limits of a session: 4096 frames of history, 64 steps in a frame of the
/// display, and no rate for a frame of a nanosecond or less.
pub proof fn session_limits()
    ensures
        HISTORY_CAP == 4096,
        MAX_STEPS_PER_FRAME == 64,
        SHORTEST_FRAME_BITS == 0x3E11_2E0B_E826_D695,
{
}

/// A session begins with the world as it was built, paused, at the head of a
/// history that holds this one frame without events, with nothing held, marked
/// or lost, and up to date with the document.
pub proof fn sessions_begin_at_rest(s: SimSession, doc: EditorDoc, world: World)
    requires
        s.fresh(doc, world),
    ensures
        s.world == world,
        !s.playing,
        s.scrub is None,
        s.history@.len() == 1,
        s.history@[0].t == world.time,
        s.history@[0].events@.len() == 0,
        s.budget.bits == 0,
        s.sim_rate.bits == 0,
        s.diverged is None,
        s.grab is None,
        s.event_markers@.len() == 0,
        s.built_hash == structure_hash(doc),
{
}

} // verus!
