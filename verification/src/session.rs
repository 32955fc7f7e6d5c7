//! Live simulation session: the running world, the pacing of its steps against
//! wall-clock time, the playback history, and the grab tool.
//!
//! Configuration and wind edits made while a simulation runs go directly into
//! the world's configuration. Structural edits of the document do not reach
//! the running world: `SimSession::is_stale` tells of them.
use crate::constraints::StretchShearConstraint;
use crate::doc::EditorDoc;
use crate::scalar::{Scalar, Vec3};
use crate::snapshot::{ColorScale, Readings, Single, Snapshot};
use crate::solver::{joint_of, SolverColoring};
use crate::staleness::{cosmetic_edits_keep_hash, structural_hash, structure_hash};
use crate::wind::WindConfig;
use crate::world::{Config, Event, World};
use vstd::prelude::*;

verus! {

/// Cap on the history; the oldest frames are dropped once it is exceeded.
pub const HISTORY_CAP: usize = 4096;

/// Hard cap on the steps taken in a single UI frame, so that a simulation that
/// cannot keep up never freezes the UI.
pub const MAX_STEPS_PER_FRAME: usize = 64;

/// The shortest frame for which a rate is shown: a nanosecond.
pub const SHORTEST_FRAME_BITS: u64 = 0x3E11_2E0B_E826_D695;

/// A particle held by the grab tool, and the inverse mass it had.
#[derive(Clone, Copy, Debug, PartialEq, Eq, Structural)]
pub struct GrabState {
    pub particle: usize,
    pub orig_inv_mass: Scalar,
}

/// A structural-failure event, resolved to the joint particle it happened at
/// and the history index it happened on.
#[derive(Clone, Copy, Debug, PartialEq, Eq, Structural)]
pub struct EventMarker {
    pub step: usize,
    pub particle: usize,
    /// A broken spar; otherwise a folded leading edge.
    pub broken: bool,
}

/// The first of the stretch-shear constraints from `k` on that holds segment
/// `q`.
pub open spec fn segment_holder(cs: Seq<StretchShearConstraint>, q: usize, k: nat) -> nat
    decreases cs.len() - k,
{
    if k >= cs.len() {
        cs.len()
    } else if cs[k as int].q_index == q {
        k
    } else {
        segment_holder(cs, q, k + 1)
    }
}

/// The particle at a bend-twist joint: the far end of the first segment that
/// the joint connects.
pub open spec fn joint_place(world: World, joint: usize) -> Option<usize> {
    let joints = world.bend_twist_constraints@;
    let cs = world.stretch_shear_constraints@;
    if joint < joints.len() {
        let k = segment_holder(cs, joints[joint as int].q1_index, 0);
        if k < cs.len() {
            Some(cs[k as int].p2)
        } else {
            None
        }
    } else {
        None
    }
}

/// Resolves the failure of a bend-twist joint to the particle at it.
pub fn joint_particle(world: &World, joint_index: usize) -> (r: Option<usize>)
    ensures
        r == joint_place(*world, joint_index),
{
    if joint_index >= world.bend_twist_constraints.len() {
        return None;
    }
    let q: usize = world.bend_twist_constraints[joint_index].q1_index;
    let mut k: usize = 0;
    while k < world.stretch_shear_constraints.len()
        invariant
            k <= world.stretch_shear_constraints@.len(),
            segment_holder(world.stretch_shear_constraints@, q, 0) == segment_holder(
                world.stretch_shear_constraints@,
                q,
                k as nat,
            ),
            joint_index < world.bend_twist_constraints@.len(),
            q == world.bend_twist_constraints@[joint_index as int].q1_index,
        decreases world.stretch_shear_constraints@.len() - k,
    {
        if world.stretch_shear_constraints[k].q_index == q {
            return Some(world.stretch_shear_constraints[k].p2);
        }
        k += 1;
    }
    None
}

/// The markers after the first `n` events of a step.
pub open spec fn marked_events(
    world: World,
    markers: Seq<EventMarker>,
    events: Seq<Event>,
    step: usize,
    n: nat,
) -> Seq<EventMarker>
    decreases n,
{
    if n == 0 {
        markers
    } else {
        let before = marked_events(world, markers, events, step, (n - 1) as nat);
        match joint_place(world, joint_of(events[n - 1])) {
            Some(particle) => before.push(
                EventMarker { step, particle, broken: events[n - 1] is SparBroken },
            ),
            None => before,
        }
    }
}

/// The first `n` markers after the oldest frame is dropped: its own are gone,
/// and the others' frames have moved down by one.
pub open spec fn aged(markers: Seq<EventMarker>, n: nat) -> Seq<EventMarker>
    decreases n,
{
    if n == 0 {
        Seq::empty()
    } else {
        let before = aged(markers, (n - 1) as nat);
        let m = markers[n - 1];
        if m.step == 0 {
            before
        } else {
            before.push(EventMarker { step: (m.step - 1) as usize, ..m })
        }
    }
}

/// Every marker is on a frame of the history and at a particle of the world.
pub open spec fn markers_within(markers: Seq<EventMarker>, frames: nat, particles: nat) -> bool {
    forall|k: int|
        0 <= k < markers.len() ==> (#[trigger] markers[k]).step < frames && markers[k].particle
            < particles
}

proof fn marking_stays_within(
    world: World,
    markers: Seq<EventMarker>,
    events: Seq<Event>,
    step: usize,
    n: nat,
)
    requires
        world.wf(),
        n <= events.len(),
        markers_within(markers, step as nat, world.particles.count()),
    ensures
        markers_within(
            marked_events(world, markers, events, step, n),
            (step + 1) as nat,
            world.particles.count(),
        ),
    decreases n,
{
    if n > 0 {
        marking_stays_within(world, markers, events, step, (n - 1) as nat);
        holder_is_found(
            world.stretch_shear_constraints@,
            world.bend_twist_constraints@[joint_of(events[n - 1]) as int].q1_index,
            0,
        );
    }
}

proof fn holder_is_found(cs: Seq<StretchShearConstraint>, q: usize, k: nat)
    requires
        k <= cs.len(),
    ensures
        segment_holder(cs, q, k) <= cs.len(),
    decreases cs.len() - k,
{
    if k < cs.len() && cs[k as int].q_index != q {
        holder_is_found(cs, q, k + 1);
    }
}

proof fn aging_stays_within(markers: Seq<EventMarker>, frames: nat, particles: nat, n: nat)
    requires
        n <= markers.len(),
        markers_within(markers, frames, particles),
    ensures
        markers_within(aged(markers, n), (frames - 1) as nat, particles),
    decreases n,
{
    if n > 0 {
        aging_stays_within(markers, frames, particles, (n - 1) as nat);
        assert(markers[n - 1].step < frames);
    }
}

/// Adds the markers of a step's events.
fn mark_events(world: &World, markers: &mut Vec<EventMarker>, events: &Vec<Event>, step: usize)
    ensures
        final(markers)@ == marked_events(*world, old(markers)@, events@, step, events@.len()),
{
    let ghost before = markers@;
    let mut k: usize = 0;
    while k < events.len()
        invariant
            k <= events@.len(),
            markers@ == marked_events(*world, before, events@, step, k as nat),
        decreases events@.len() - k,
    {
        let (joint, broken): (usize, bool) = match events[k] {
            Event::SparBroken { joint_index } => (joint_index, true),
            Event::LeadingEdgeFolded { joint_index } => (joint_index, false),
        };
        match joint_particle(world, joint) {
            Some(particle) => {
                markers.push(EventMarker { step, particle, broken });
            },
            None => {},
        }
        k += 1;
    }
}

/// Drops the oldest frame's markers and moves the others.
fn age_markers(markers: &Vec<EventMarker>) -> (r: Vec<EventMarker>)
    ensures
        r@ == aged(markers@, markers@.len()),
{
    let mut out: Vec<EventMarker> = Vec::new();
    let mut k: usize = 0;
    while k < markers.len()
        invariant
            k <= markers@.len(),
            out@ == aged(markers@, k as nat),
        decreases markers@.len() - k,
    {
        let m: EventMarker = markers[k];
        if m.step != 0 {
            out.push(EventMarker { step: m.step - 1, particle: m.particle, broken: m.broken });
        }
        k += 1;
    }
    out
}

/// The inverse masses while a particle is held.
pub open spec fn held(masses: Seq<Scalar>, particle: usize) -> Seq<Scalar> {
    masses.update(particle as int, Scalar { bits: 0 })
}

/// The inverse masses after the held particle, if any, is let go.
pub open spec fn let_go(masses: Seq<Scalar>, grab: Option<GrabState>) -> Seq<Scalar> {
    match grab {
        Some(g) => masses.update(g.particle as int, g.orig_inv_mass),
        None => masses,
    }
}

/// What is grabbed and let go has its inverse mass back as it was: a particle
/// that was pinned before stays pinned.
pub proof fn release_restores_masses(masses: Seq<Scalar>, particle: usize)
    requires
        particle < masses.len(),
    ensures
        let_go(
            held(masses, particle),
            Some(GrabState { particle, orig_inv_mass: masses[particle as int] }),
        ) == masses,
{
    assert(held(masses, particle).update(particle as int, masses[particle as int]) =~= masses);
}

/// The live simulation.
pub struct SimSession {
    pub world: World,
    pub history: Vec<Snapshot>,
    pub playing: bool,
    pub speed: Scalar,
    pub dt: Scalar,
    pub budget: Scalar,
    pub sim_rate: Scalar,
    pub scrub: Option<usize>,
    pub diverged: Option<Scalar>,
    pub grab: Option<GrabState>,
    pub color_scale: ColorScale,
    pub event_markers: Vec<EventMarker>,
    pub built_hash: u64,
}

/// The history with one frame more, the oldest dropped at the cap.
pub open spec fn recorded(history: Seq<Snapshot>, snap: Snapshot) -> Seq<Snapshot> {
    if history.len() >= HISTORY_CAP {
        history.push(snap).remove(0)
    } else {
        history.push(snap)
    }
}

/// When the oldest frame is dropped, a marker of a later one stays, and stays
/// on its frame.
pub proof fn marker_stays_on_its_frame(
    history: Seq<Snapshot>,
    snap: Snapshot,
    markers: Seq<EventMarker>,
    k: int,
    n: nat,
)
    requires
        history.len() == HISTORY_CAP,
        0 <= k < n <= markers.len(),
        0 < markers[k].step <= history.len(),
    ensures
        aged(markers, n).contains(
            EventMarker { step: (markers[k].step - 1) as usize, ..markers[k] },
        ),
        recorded(history, snap)[markers[k].step - 1] == history.push(snap)[markers[k].step as int],
    decreases n,
{
    let moved = EventMarker { step: (markers[k].step - 1) as usize, ..markers[k] };
    let list = aged(markers, n);
    if k < n - 1 {
        let before = aged(markers, (n - 1) as nat);
        marker_stays_on_its_frame(history, snap, markers, k, (n - 1) as nat);
        let j = choose|j: int| 0 <= j < before.len() && before[j] == moved;
        assert(list[j] == moved);
    } else {
        assert(list[list.len() - 1] == moved);
    }
}

impl SimSession {
    /// The world is well formed, the history is neither empty nor over its
    /// cap, every marker is on a frame of it, and what is held is a particle.
    pub open spec fn wf(self) -> bool {
        &&& self.world.wf()
        &&& 0 < self.history@.len() <= HISTORY_CAP
        &&& markers_within(
            self.event_markers@,
            self.history@.len(),
            self.world.particles.count(),
        )
        &&& match self.grab {
            Some(g) => g.particle < self.world.particles.count(),
            None => true,
        }
        &&& self.color_scale.plain()
    }

    /// A session that has just started on a world built from `doc`.
    pub open spec fn fresh(self, doc: EditorDoc, world: World) -> bool {
        &&& self.world == world
        &&& self.history@.len() == 1
        &&& self.history@[0].t == world.time
        &&& self.history@[0].events@.len() == 0
        &&& !self.playing
        &&& self.budget.bits == 0
        &&& self.sim_rate.bits == 0
        &&& self.scrub is None
        &&& self.diverged is None
        &&& self.grab is None
        &&& self.event_markers@.len() == 0
        &&& self.built_hash == structure_hash(doc)
    }

    /// Starts a session on a world that was built from `doc`. `readings` are
    /// read off that world, `aero` holds the sizes of its panels' lift and
    /// drag.
    pub fn new(doc: &EditorDoc, world: World, readings: Readings, aero: &Vec<Single>) -> (r: Self)
        requires
            world.wf(),
            readings.parallel_to(world),
        ensures
            r.wf(),
            r.fresh(*doc, world),
            r.history@[0].readings == readings,
            r.color_scale.covers(
                ColorScale {
                    spar: Single { bits: 0 },
                    bridle: Single { bits: 0 },
                    cloth: Single { bits: 0 },
                    aero: Single { bits: 0 },
                },
                readings,
                aero@,
            ),
            r.speed.bits == 0x3FF0_0000_0000_0000,
            r.dt.bits == 0x3F84_7AE1_47AE_147B,
    {
        let scale: ColorScale = ColorScale::default();
        let color_scale: ColorScale = scale.raised(&readings, aero);
        let first: Snapshot = Snapshot::capture(&world, Vec::new(), readings);
        let mut history: Vec<Snapshot> = Vec::new();
        history.push(first);
        SimSession {
            world,
            history,
            playing: false,
            speed: Scalar::new(0x3FF0_0000_0000_0000),
            dt: Scalar::new(0x3F84_7AE1_47AE_147B),
            budget: Scalar::zero(),
            sim_rate: Scalar::zero(),
            scrub: None,
            diverged: None,
            grab: None,
            color_scale,
            event_markers: Vec::new(),
            built_hash: structural_hash(doc),
        }
    }

    /// Puts a world newly built from `doc` in place of the running one, wiping
    /// history, playback state and the grab tool. Speed and step length stay.
    pub fn rebuild(&mut self, doc: &EditorDoc, world: World, readings: Readings, aero: &Vec<Single>)
        requires
            world.wf(),
            readings.parallel_to(world),
        ensures
            final(self).wf(),
            final(self).fresh(*doc, world),
            final(self).history@[0].readings == readings,
            final(self).color_scale.covers(
                ColorScale {
                    spar: Single { bits: 0 },
                    bridle: Single { bits: 0 },
                    cloth: Single { bits: 0 },
                    aero: Single { bits: 0 },
                },
                readings,
                aero@,
            ),
            final(self).speed == old(self).speed,
            final(self).dt == old(self).dt,
    {
        let speed: Scalar = self.speed;
        let dt: Scalar = self.dt;
        let mut s: SimSession = SimSession::new(doc, world, readings, aero);
        s.speed = speed;
        s.dt = dt;
        *self = s;
    }

    /// Whether the document has structural edits that the live world was not
    /// built from.
    pub fn is_stale(&self, doc: &EditorDoc) -> (r: bool)
        ensures
            r == (self.built_hash != structure_hash(*doc)),
    {
        self.built_hash != structural_hash(doc)
    }

    /// Records the world as it is now, with the events of the step that led to
    /// it. `decayed` is the color scale after its decay, `aero` holds the sizes
    /// of the panels' lift and drag.
    fn push_snapshot(
        &mut self,
        events: Vec<Event>,
        readings: Readings,
        decayed: ColorScale,
        aero: &Vec<Single>,
    )
        requires
            old(self).wf(),
            readings.parallel_to(old(self).world),
            decayed.plain(),
        ensures
            final(self).wf(),
            final(self).history@ == recorded(
                old(self).history@,
                Snapshot { t: old(self).world.time, readings, events },
            ),
            final(self).event_markers@ == ({
                let all = marked_events(
                    old(self).world,
                    old(self).event_markers@,
                    events@,
                    old(self).history@.len() as usize,
                    events@.len(),
                );
                if old(self).history@.len() >= HISTORY_CAP {
                    aged(all, all.len())
                } else {
                    all
                }
            }),
            final(self).color_scale.covers(decayed, readings, aero@),
            *final(self) == (SimSession {
                history: final(self).history,
                event_markers: final(self).event_markers,
                color_scale: final(self).color_scale,
                ..*old(self)
            }),
    {
        let step: usize = self.history.len();
        let ghost world = self.world;
        let ghost count = events@.len();
        mark_events(&self.world, &mut self.event_markers, &events, step);
        proof {
            marking_stays_within(world, old(self).event_markers@, events@, step, count);
        }
        let ghost all = self.event_markers@;
        self.color_scale = decayed.raised(&readings, aero);
        let snap: Snapshot = Snapshot::capture(&self.world, events, readings);
        self.history.push(snap);
        if self.history.len() > HISTORY_CAP {
            self.history.remove(0);
            let kept: Vec<EventMarker> = age_markers(&self.event_markers);
            self.event_markers = kept;
            proof {
                aging_stays_within(all, (step + 1) as nat, world.particles.count(), all.len());
            }
        }
    }

    /// Concludes a step that has been made: notices when the simulation has
    /// diverged, which also stops playback, and records the world. `before` is
    /// the number of events there were before the step.
    pub fn finish_step(
        &mut self,
        before: usize,
        readings: Readings,
        decayed: ColorScale,
        aero: &Vec<Single>,
    )
        requires
            old(self).wf(),
            before <= old(self).world.events@.len(),
            readings.parallel_to(old(self).world),
            decayed.plain(),
        ensures
            final(self).wf(),
            exists|snap: Snapshot|
                {
                    &&& snap.t == old(self).world.time
                    &&& snap.readings == readings
                    &&& snap.events@ == old(self).world.events@.skip(before as int)
                    &&& final(self).history@ == #[trigger] recorded(old(self).history@, snap)
                },
            final(self).event_markers@ == ({
                let events = old(self).world.events@.skip(before as int);
                let all = marked_events(
                    old(self).world,
                    old(self).event_markers@,
                    events,
                    old(self).history@.len() as usize,
                    events.len(),
                );
                if old(self).history@.len() >= HISTORY_CAP {
                    aged(all, all.len())
                } else {
                    all
                }
            }),
            final(self).color_scale.covers(decayed, readings, aero@),
            ({
                let lost = exists|i: int|
                    0 <= i < old(self).world.particles.pos@.len() && !(
                    #[trigger] old(self).world.particles.pos@[i]).finite();
                let now = old(self).diverged is None && lost;
                &&& final(self).diverged == if now {
                    Some(old(self).world.time)
                } else {
                    old(self).diverged
                }
                &&& final(self).playing == (old(self).playing && !now)
            }),
            *final(self) == (SimSession {
                history: final(self).history,
                event_markers: final(self).event_markers,
                color_scale: final(self).color_scale,
                diverged: final(self).diverged,
                playing: final(self).playing,
                ..*old(self)
            }),
    {
        let events: Vec<Event> = events_since(&self.world.events, before);
        if self.diverged.is_none() && self.world.has_diverged() {
            self.diverged = Some(self.world.time);
            self.playing = false;
        }
        let ghost snap = Snapshot { t: self.world.time, readings, events };
        self.push_snapshot(events, readings, decayed, aero);
        assert(self.history@ == recorded(old(self).history@, snap));
    }

    /// Begins a UI frame. Unless playback runs, nothing happens in it and the
    /// rate shown is zero; otherwise the budget becomes `budget`, the one there
    /// was plus the frame's scaled length.
    pub fn begin_frame(&mut self, budget: Scalar) -> (r: bool)
        ensures
            r == (old(self).playing && old(self).diverged is None),
            *final(self) == if r {
                SimSession { budget, ..*old(self) }
            } else {
                SimSession { sim_rate: Scalar { bits: 0 }, ..*old(self) }
            },
    {
        if !self.playing || self.diverged.is_some() {
            self.sim_rate = Scalar::zero();
            return false;
        }
        self.budget = budget;
        true
    }

    /// Whether the frame takes another step after `steps`: while the budget
    /// lasts, the cap is not reached and the simulation has not diverged.
    pub fn wants_step(&self, steps: usize) -> (r: bool)
        ensures
            r == (self.dt.at_most(self.budget) && steps < MAX_STEPS_PER_FRAME && self.diverged
                is None),
    {
        self.dt.le(self.budget) && steps < MAX_STEPS_PER_FRAME && self.diverged.is_none()
    }

    /// Ends a frame of `steps` steps and the given length. At the cap the
    /// backlog is dropped, not deferred. `rate` is the simulated time over the
    /// frame's length; for a frame of no length it is zero.
    pub fn end_frame(&mut self, steps: usize, frame_elapsed: Scalar, rate: Scalar)
        ensures
            *final(self) == (SimSession {
                budget: if steps >= MAX_STEPS_PER_FRAME {
                    Scalar { bits: 0 }
                } else {
                    old(self).budget
                },
                sim_rate: if (Scalar { bits: SHORTEST_FRAME_BITS }).less(frame_elapsed) {
                    rate
                } else {
                    Scalar { bits: 0 }
                },
                ..*old(self)
            }),
    {
        if steps >= MAX_STEPS_PER_FRAME {
            self.budget = Scalar::zero();
        }
        self.sim_rate = if Scalar::new(SHORTEST_FRAME_BITS).lt(frame_elapsed) {
            rate
        } else {
            Scalar::zero()
        };
    }

    /// Whether a run of `n` steps takes another one after `taken`: it stops
    /// after the step at which the simulation is seen to have diverged.
    pub fn wants_bake_step(&self, taken: usize, n: usize) -> (r: bool)
        ensures
            r == (taken < n && (taken == 0 || self.diverged is None)),
    {
        taken < n && (taken == 0 || self.diverged.is_none())
    }

    /// Starts or pauses playback. Starting goes back to the live head with an
    /// empty budget.
    pub fn toggle_play(&mut self)
        ensures
            *final(self) == if old(self).playing {
                SimSession { playing: false, ..*old(self) }
            } else {
                SimSession { playing: true, scrub: None, budget: Scalar { bits: 0 }, ..*old(self) }
            },
    {
        self.playing = !self.playing;
        if self.playing {
            self.scrub = None;
            self.budget = Scalar::zero();
        }
    }

    /// Pauses at the live head, before a single step or a run.
    pub fn pause_at_head(&mut self)
        ensures
            *final(self) == (SimSession { playing: false, scrub: None, ..*old(self) }),
    {
        self.playing = false;
        self.scrub = None;
    }

    /// Shows a frame of the history, and pauses.
    pub fn scrub_to(&mut self, frame: usize)
        requires
            frame < old(self).history@.len(),
        ensures
            *final(self) == (SimSession { playing: false, scrub: Some(frame), ..*old(self) }),
    {
        self.scrub = Some(frame);
        self.playing = false;
    }

    /// The frame of the history that is shown: the latest, unless another one
    /// is looked at.
    pub fn shown_frame(&self) -> (r: usize)
        requires
            self.wf(),
        ensures
            r == match self.scrub {
                Some(i) => i as int,
                None => self.history@.len() - 1,
            },
    {
        match self.scrub {
            Some(i) => i,
            None => self.history.len() - 1,
        }
    }

    /// The time that is shown.
    pub fn shown_time(&self) -> (r: Scalar)
        requires
            self.scrub is Some ==> self.scrub->0 < self.history@.len(),
        ensures
            r == match self.scrub {
                Some(i) => self.history@[i as int].t,
                None => self.world.time,
            },
    {
        match self.scrub {
            Some(i) => self.history[i].t,
            None => self.world.time,
        }
    }

    /// Whether a particle can be grabbed: not while the history is looked at,
    /// nor after the simulation has diverged.
    pub fn can_grab(&self) -> (r: bool)
        ensures
            r == (self.scrub is None && self.diverged is None),
    {
        self.scrub.is_none() && self.diverged.is_none()
    }

    /// Grabs a particle: its inverse mass becomes zero, so that the solver
    /// treats it as pinned while it is held.
    pub fn try_grab(&mut self, particle: usize)
        requires
            old(self).wf(),
            particle < old(self).world.particles.count(),
        ensures
            final(self).wf(),
            final(self).world.particles.inv_mass@ == held(
                old(self).world.particles.inv_mass@,
                particle,
            ),
            final(self).grab == Some(
                GrabState {
                    particle,
                    orig_inv_mass: old(self).world.particles.inv_mass@[particle as int],
                },
            ),
            final(self).only_particles_differ(*old(self)),
            final(self).world.particles.pos == old(self).world.particles.pos,
            final(self).world.particles.prev_pos == old(self).world.particles.prev_pos,
            final(self).world.particles.pred_pos == old(self).world.particles.pred_pos,
            final(self).world.particles.vel == old(self).world.particles.vel,
    {
        let orig_inv_mass: Scalar = self.world.particles.inv_mass[particle];
        self.world.particles.inv_mass.set(particle, Scalar::zero());
        self.grab = Some(GrabState { particle, orig_inv_mass });
    }

    /// Only the particles and what is held differ.
    pub open spec fn only_particles_differ(self, other: SimSession) -> bool {
        self == (SimSession {
            world: World { particles: self.world.particles, ..other.world },
            grab: self.grab,
            ..other
        })
    }

    /// Moves the held particle to a place, at rest, as if it had always been
    /// there.
    pub fn drag_grab(&mut self, target: Vec3)
        requires
            old(self).wf(),
        ensures
            final(self).wf(),
            final(self).grab == old(self).grab,
            final(self).world.particles.inv_mass == old(self).world.particles.inv_mass,
            final(self).only_particles_differ(*old(self)),
            match old(self).grab {
                Some(g) => {
                    let i = g.particle as int;
                    let was = old(self).world.particles;
                    let is = final(self).world.particles;
                    &&& is.pos@ == was.pos@.update(i, target)
                    &&& is.prev_pos@ == was.prev_pos@.update(i, target)
                    &&& is.pred_pos@ == was.pred_pos@.update(i, target)
                    &&& is.vel@ == was.vel@.update(i, Vec3::spec_zero())
                },
                None => *final(self) == *old(self),
            },
    {
        match self.grab {
            Some(g) => {
                self.world.particles.place(g.particle, target, Vec3::zero());
            },
            None => {},
        }
    }

    /// Lets go of the held particle: its inverse mass becomes what it was,
    /// verbatim.
    pub fn release_grab(&mut self)
        requires
            old(self).wf(),
        ensures
            final(self).wf(),
            final(self).grab is None,
            final(self).world.particles.inv_mass@ == let_go(
                old(self).world.particles.inv_mass@,
                old(self).grab,
            ),
            final(self).only_particles_differ(*old(self)),
            final(self).world.particles.pos == old(self).world.particles.pos,
            final(self).world.particles.prev_pos == old(self).world.particles.prev_pos,
            final(self).world.particles.pred_pos == old(self).world.particles.pred_pos,
            final(self).world.particles.vel == old(self).world.particles.vel,
    {
        match self.grab {
            Some(g) => {
                self.world.particles.inv_mass.set(g.particle, g.orig_inv_mass);
            },
            None => {},
        }
        self.grab = None;
    }
}

fn events_since(events: &Vec<Event>, before: usize) -> (r: Vec<Event>)
    requires
        before <= events@.len(),
    ensures
        r@ == events@.skip(before as int),
{
    let mut out: Vec<Event> = Vec::new();
    let mut k: usize = before;
    while k < events.len()
        invariant
            before <= k <= events@.len(),
            out@ == events@.subrange(before as int, k as int),
        decreases events@.len() - k,
    {
        out.push(events[k]);
        assert(out@ =~= events@.subrange(before as int, k + 1));
        k += 1;
    }
    assert(out@ =~= events@.skip(before as int));
    out
}

/// The configuration of a world for a document: the engine's defaults with the
/// document's gravity, wind and overrides.
pub open spec fn is_config_of(cfg: Config, doc: EditorDoc, parallel_solve: bool) -> bool {
    &&& cfg.wind.same(doc.wind)
    &&& cfg.gravity == doc.gravity
    &&& exists|base: Config| #[trigger]
        base.is_standard(parallel_solve) && cfg == doc.sim.over(
            Config { gravity: doc.gravity, wind: cfg.wind, ..base },
        )
}

/// An empty world configured for a document, into which its kite can be built.
pub fn open_world(doc: &EditorDoc, parallel_solve: bool) -> (r: World)
    ensures
        r.wf(),
        r.is_empty_world(),
        is_config_of(r.cfg, *doc, parallel_solve),
{
    let mut world: World = World::new();
    let mut cfg: Config = Config::standard(parallel_solve);
    let ghost base = cfg;
    cfg.gravity = doc.gravity;
    let wind: WindConfig = doc.wind.clone();
    cfg.wind = wind;
    doc.sim.apply(&mut cfg);
    assert(base.is_standard(parallel_solve) && cfg == doc.sim.over(
        Config { gravity: doc.gravity, wind: cfg.wind, ..base },
    ));
    world.cfg = cfg;
    world
}

/// Takes gravity and wind of a running world over into the document, so that
/// they outlast the session. The overrides are left alone: a setting that was
/// never touched stays the engine's default.
pub fn mirror_settings(doc: &mut EditorDoc, cfg: &Config)
    ensures
        final(doc).gravity == cfg.gravity,
        final(doc).wind.same(cfg.wind),
        *final(doc) == (EditorDoc {
            gravity: final(doc).gravity,
            wind: final(doc).wind,
            ..*old(doc)
        }),
{
    doc.gravity = cfg.gravity;
    doc.wind = cfg.wind.clone();
}

/// Editing the configuration of a running world leaves its cached coloring as
/// valid as it was.
pub proof fn config_edits_keep_coloring(world: World, cfg: Config, coloring: SolverColoring)
    ensures
        coloring.stale(World { cfg, ..world }) == coloring.stale(world),
        coloring.colors(World { cfg, ..world }) == coloring.colors(world),
        coloring.race_free(World { cfg, ..world }) == coloring.race_free(world),
{
}

/// Gravity and wind that are taken over from a running world make no document
/// stale.
pub proof fn mirroring_keeps_structure(doc: EditorDoc, gravity: Vec3, wind: WindConfig)
    ensures
        structure_hash(EditorDoc { gravity, wind, ..doc }) == structure_hash(doc),
{
    cosmetic_edits_keep_hash(EditorDoc { gravity, wind, ..doc }, doc);
}

} // verus!
