//! The state of a world as a mathematical value, and how each act of a step
//! changes it.
use crate::collision::{candidates, contacts, grounded, ContactConstraint, Sample};
use crate::coloring::{greedy_classes, rows};
use crate::constraints::{
    BendTwistConstraint, BendingConstraint, DihedralBendingConstraint, DistanceConstraint,
    StretchShearConstraint, UnilateralDistanceConstraint,
};
use crate::control_bar::{ControlBar, TipState};
use crate::kernels::{
    contact_loaded, contact_moved, end_velocity, immovable, joint_loaded, joint_turned, pulling, segment_loaded, segment_moved,
    segment_turned, shifted, tiny, BendTwistSolve, BendingSolve, Component, ContactSolve,
    DihedralSolve, DistanceSolve, PanelCorrection, PanelLoad, StretchShearSolve, UnilateralSolve,
};
use crate::scalar::{Quat, Scalar, Vec3};
use crate::solver::{
    bend_twist_reach, bending_reach, dihedral_bending_reach, distance_reach, joint_after,
    solves_in_parallel, stretch_shear_reach, substep_phases, unilateral_reach, yield_events, Fingerprint, SolverColoring,
    PARALLEL_CONSTRAINT_THRESHOLD,
};
use crate::wind::{GustEvent, ThermalCell};
use crate::world::{CanopyPanel, Config, Event, PanelAero, World};
use vstd::prelude::*;

verus! {

/// What a configuration sets.
#[verifier::ext_equal]
pub struct Settings {
    pub substeps: usize,
    pub iterations_per_substep: usize,
    pub gravity: Vec3,
    pub damping: Scalar,
    pub bladder_pressure: Scalar,
    pub k_pressure: Scalar,
    pub ground_collision_enabled: bool,
    pub self_collision_enabled: bool,
    pub parallel_solve: bool,
    pub added_mass_enabled: bool,
    pub v_ref: Scalar,
    pub h_ref: Scalar,
    pub shear_exponent: Scalar,
    pub direction: Vec3,
    pub turbulence_intensity: Scalar,
    pub length_scale: Scalar,
    pub octaves: usize,
    pub gusts: Seq<GustEvent>,
    pub thermals: Seq<ThermalCell>,
    pub seed: u64,
}

impl View for Config {
    type V = Settings;

    open spec fn view(&self) -> Settings {
        Settings {
            substeps: self.substeps,
            iterations_per_substep: self.iterations_per_substep,
            gravity: self.gravity,
            damping: self.damping,
            bladder_pressure: self.bladder_pressure,
            k_pressure: self.k_pressure,
            ground_collision_enabled: self.ground_collision_enabled,
            self_collision_enabled: self.self_collision_enabled,
            parallel_solve: self.parallel_solve,
            added_mass_enabled: self.added_mass_enabled,
            v_ref: self.wind.v_ref,
            h_ref: self.wind.h_ref,
            shear_exponent: self.wind.shear_exponent,
            direction: self.wind.direction,
            turbulence_intensity: self.wind.turbulence_intensity,
            length_scale: self.wind.length_scale,
            octaves: self.wind.octaves,
            gusts: self.wind.gusts@,
            thermals: self.wind.thermals@,
            seed: self.wind.seed,
        }
    }
}

/// The classes of a coloring, and the counts they were made for.
#[verifier::ext_equal]
pub struct Classes {
    pub fingerprint: Fingerprint,
    pub distance: Seq<Seq<usize>>,
    pub bending: Seq<Seq<usize>>,
    pub stretch_shear: Seq<Seq<usize>>,
    pub bend_twist: Seq<Seq<usize>>,
    pub dihedral_bending: Seq<Seq<usize>>,
    pub unilateral: Seq<Seq<usize>>,
}

impl View for SolverColoring {
    type V = Classes;

    open spec fn view(&self) -> Classes {
        Classes {
            fingerprint: self.fingerprint,
            distance: rows(self.distance_colors@),
            bending: rows(self.bending_colors@),
            stretch_shear: rows(self.stretch_shear_colors@),
            bend_twist: rows(self.bend_twist_colors@),
            dihedral_bending: rows(self.dihedral_bending_colors@),
            unilateral: rows(self.unilateral_colors@),
        }
    }
}

/// All that a world holds.
#[verifier::ext_equal]
pub struct WorldState {
    pub time: Scalar,
    pub cfg: Settings,
    pub pos: Seq<Vec3>,
    pub prev_pos: Seq<Vec3>,
    pub pred_pos: Seq<Vec3>,
    pub vel: Seq<Vec3>,
    pub inv_mass: Seq<Scalar>,
    pub quat: Seq<Quat>,
    pub prev_quat: Seq<Quat>,
    pub omega: Seq<Vec3>,
    pub inv_inertia: Seq<Vec3>,
    pub distances: Seq<DistanceConstraint>,
    pub bendings: Seq<BendingConstraint>,
    pub segments: Seq<StretchShearConstraint>,
    pub joints: Seq<BendTwistConstraint>,
    pub folds: Seq<DihedralBendingConstraint>,
    pub lines: Seq<UnilateralDistanceConstraint>,
    pub panels: Seq<CanopyPanel>,
    pub readback: Seq<PanelAero>,
    pub torques: Seq<Vec3>,
    pub forces: Seq<Vec3>,
    pub events: Seq<Event>,
    pub last_h: Scalar,
    pub coloring: Option<Classes>,
    pub control_bar: Option<ControlBar>,
}

impl View for World {
    type V = WorldState;

    open spec fn view(&self) -> WorldState {
        WorldState {
            time: self.time,
            cfg: self.cfg@,
            pos: self.particles.pos@,
            prev_pos: self.particles.prev_pos@,
            pred_pos: self.particles.pred_pos@,
            vel: self.particles.vel@,
            inv_mass: self.particles.inv_mass@,
            quat: self.orientations.quat@,
            prev_quat: self.orientations.prev_quat@,
            omega: self.orientations.omega@,
            inv_inertia: self.orientations.inv_inertia@,
            distances: self.distance_constraints@,
            bendings: self.bending_constraints@,
            segments: self.stretch_shear_constraints@,
            joints: self.bend_twist_constraints@,
            folds: self.dihedral_bending_constraints@,
            lines: self.unilateral_constraints@,
            panels: self.canopy_panels@,
            readback: self.aero_readback@,
            torques: self.torques@,
            forces: self.forces@,
            events: self.events@,
            last_h: self.last_h,
            coloring: match self.coloring {
                Some(c) => Some(c@),
                None => None,
            },
            control_bar: self.control_bar,
        }
    }
}

/// How many constraints of each kind there are.
pub open spec fn tally(s: WorldState) -> Fingerprint {
    Fingerprint {
        distance: s.distances.len() as usize,
        bending: s.bendings.len() as usize,
        stretch_shear: s.segments.len() as usize,
        bend_twist: s.joints.len() as usize,
        dihedral_bending: s.folds.len() as usize,
        unilateral: s.lines.len() as usize,
    }
}

/// The greedy classes of the constraints.
pub open spec fn classes_of(s: WorldState) -> Classes {
    Classes {
        fingerprint: tally(s),
        distance: greedy_classes(distance_reach(s.distances), s.distances.len()),
        bending: greedy_classes(bending_reach(s.bendings), s.bendings.len()),
        stretch_shear: greedy_classes(stretch_shear_reach(s.segments), s.segments.len()),
        bend_twist: greedy_classes(bend_twist_reach(s.joints), s.joints.len()),
        dihedral_bending: greedy_classes(dihedral_bending_reach(s.folds), s.folds.len()),
        unilateral: greedy_classes(unilateral_reach(s.lines), s.lines.len()),
    }
}

/// A step of the state is solved class by class.
pub open spec fn goes_parallel(s: WorldState, reference_mode: bool) -> bool {
    !reference_mode && s.cfg.parallel_solve && s.distances.len() + s.bendings.len()
        + s.segments.len() + s.joints.len() + s.folds.len() + s.lines.len()
        >= PARALLEL_CONSTRAINT_THRESHOLD
}

/// The state once a step has begun.
pub open spec fn begun(s: WorldState, h: Scalar, reference_mode: bool) -> WorldState {
    if s.cfg.substeps == 0 {
        s
    } else {
        let stale = s.coloring is None || s.coloring->0.fingerprint != tally(s);
        WorldState {
            last_h: h,
            coloring: if goes_parallel(s, reference_mode) && stale {
                Some(classes_of(s))
            } else {
                s.coloring
            },
            ..s
        }
    }
}

/// An act of a step, with the numbers that are handed to it.
pub enum Act {
    Begin { h: Scalar, reference_mode: bool },
    SyncAnchors { bar: ControlBar, left: TipState, right: TipState },
    Kick { i: usize, vel: Vec3 },
    Twist { i: usize, inertia_sq: Scalar, omega: Vec3 },
    ClearReadback,
    LoadPanel { k: usize, load: PanelLoad },
    CorrectPanel { k: usize, c: PanelCorrection },
    Predict { places: Seq<Vec3>, quats: Seq<Quat> },
    ResetMultipliers,
    Detect { samples: Seq<Sample> },
    Distance { k: usize, s: DistanceSolve },
    Bending { k: usize, s: BendingSolve },
    StretchShear { k: usize, component: Component, s: StretchShearSolve },
    BendTwist { k: usize, component: Component, s: BendTwistSolve },
    Dihedral { k: usize, s: DihedralSolve },
    Unilateral { k: usize, s: UnilateralSolve },
    Contact { j: int, s: ContactSolve },
    Ground,
    UpdateVelocities { vels: Seq<Vec3> },
    UpdateOmegas { omegas: Seq<Vec3>, inertia_sq: Seq<Scalar> },
    Commit,
    Yield { moments: Seq<Scalar> },
    Elapse { time: Scalar },
}

/// A panel of the state is corrected.
pub open spec fn panel_corrected(s: WorldState, k: int, c: PanelCorrection) -> bool {
    let p = s.panels[k];
    s.cfg.added_mass_enabled && !immovable(s.inv_mass[p.p1 as int]) && !immovable(
        s.inv_mass[p.p2 as int],
    ) && !immovable(s.inv_mass[p.p3 as int]) && !tiny(c.double_area)
}

/// The state with every Lagrange multiplier zero.
pub open spec fn unloaded(s: WorldState) -> WorldState {
    let zero = Scalar { bits: 0 };
    WorldState {
        distances: s.distances.map_values(
            |c: DistanceConstraint| DistanceConstraint { lambda: zero, ..c },
        ),
        bendings: s.bendings.map_values(
            |c: BendingConstraint| BendingConstraint { lambda: Vec3::spec_zero(), ..c },
        ),
        segments: s.segments.map_values(
            |c: StretchShearConstraint| StretchShearConstraint { lambda: Vec3::spec_zero(), ..c },
        ),
        joints: s.joints.map_values(
            |c: BendTwistConstraint| BendTwistConstraint { lambda: Vec3::spec_zero(), ..c },
        ),
        folds: s.folds.map_values(
            |c: DihedralBendingConstraint| DihedralBendingConstraint { lambda: zero, ..c },
        ),
        lines: s.lines.map_values(
            |c: UnilateralDistanceConstraint| UnilateralDistanceConstraint { lambda: zero, ..c },
        ),
        ..s
    }
}

/// The state after an act on the world.
pub open spec fn acted(w: WorldState, act: Act) -> WorldState {
    match act {
        Act::Begin { h, reference_mode } => begun(w, h, reference_mode),
        Act::SyncAnchors { bar, left, right } => {
            let l = bar.left_anchor as int;
            let r = bar.right_anchor as int;
            WorldState {
                pos: w.pos.update(l, left.pos).update(r, right.pos),
                prev_pos: w.prev_pos.update(l, left.pos).update(r, right.pos),
                pred_pos: w.pred_pos.update(l, left.pos).update(r, right.pos),
                vel: w.vel.update(l, left.vel).update(r, right.vel),
                ..w
            }
        },
        Act::Kick { i, vel } => WorldState { vel: shifted(w.inv_mass, w.vel, i, vel), ..w },
        Act::Twist { i, inertia_sq, omega } => if inertia_sq.positive() && i < w.torques.len() {
            WorldState { omega: w.omega.update(i as int, omega), ..w }
        } else {
            w
        },
        Act::ClearReadback => WorldState {
            readback: Seq::new(
                w.panels.len(),
                |k: int|
                    PanelAero {
                        lift: Vec3::spec_zero(),
                        drag: Vec3::spec_zero(),
                        alpha: Scalar { bits: 0 },
                    },
            ),
            ..w
        },
        Act::LoadPanel { k, load } => if tiny(load.double_area) {
            w
        } else {
            let p = w.panels[k as int];
            let m = w.inv_mass;
            WorldState {
                readback: w.readback.update(k as int, load.aero),
                vel: shifted(
                    m,
                    shifted(m, shifted(m, w.vel, p.p1, load.vel1), p.p2, load.vel2),
                    p.p3,
                    load.vel3,
                ),
                ..w
            }
        },
        Act::CorrectPanel { k, c } => {
            let p = w.panels[k as int];
            if !panel_corrected(w, k as int, c) {
                w
            } else if p.prev_mean_vel is None {
                WorldState {
                    panels: w.panels.update(
                        k as int,
                        CanopyPanel { prev_mean_vel: Some(c.mean), ..p },
                    ),
                    ..w
                }
            } else {
                WorldState {
                    panels: w.panels.update(
                        k as int,
                        CanopyPanel { prev_mean_vel: Some(c.mean_after), ..p },
                    ),
                    vel: w.vel.update(p.p1 as int, c.vel1).update(p.p2 as int, c.vel2).update(
                        p.p3 as int,
                        c.vel3,
                    ),
                    ..w
                }
            }
        },
        Act::Predict { places, quats } => WorldState {
            prev_pos: w.pos,
            pred_pos: places,
            prev_quat: w.quat,
            quat: quats,
            ..w
        },
        Act::ResetMultipliers => unloaded(w),
        Act::Distance { k, s } => {
            let c = w.distances[k as int];
            let m = w.inv_mass;
            if s.idle() {
                w
            } else {
                WorldState {
                    pred_pos: shifted(m, shifted(m, w.pred_pos, c.p1, s.pos1), c.p2, s.pos2),
                    distances: w.distances.update(
                        k as int,
                        DistanceConstraint { lambda: s.lambda, ..c },
                    ),
                    ..w
                }
            }
        },
        Act::Bending { k, s } => {
            let c = w.bendings[k as int];
            let m = w.inv_mass;
            if s.idle() {
                w
            } else {
                WorldState {
                    pred_pos: shifted(
                        m,
                        shifted(m, shifted(m, w.pred_pos, c.p1, s.pos1), c.p2, s.pos2),
                        c.p3,
                        s.pos3,
                    ),
                    bendings: w.bendings.update(
                        k as int,
                        BendingConstraint { lambda: s.lambda, ..c },
                    ),
                    ..w
                }
            }
        },
        Act::StretchShear { k, component, s } => {
            let c = w.segments[k as int];
            WorldState {
                pred_pos: segment_moved(w.inv_mass, w.pred_pos, c, s),
                quat: segment_turned(w.quat, c, s),
                segments: w.segments.update(k as int, segment_loaded(c, component, s)),
                ..w
            }
        },
        Act::BendTwist { k, component, s } => {
            let c = w.joints[k as int];
            WorldState {
                quat: joint_turned(w.quat, c, s),
                joints: w.joints.update(k as int, joint_loaded(c, component, s)),
                ..w
            }
        },
        Act::Dihedral { k, s } => {
            let c = w.folds[k as int];
            let m = w.inv_mass;
            if s.idle() {
                w
            } else {
                WorldState {
                    pred_pos: shifted(
                        m,
                        shifted(
                            m,
                            shifted(m, shifted(m, w.pred_pos, c.p1, s.pos1), c.p2, s.pos2),
                            c.p3,
                            s.pos3,
                        ),
                        c.p4,
                        s.pos4,
                    ),
                    folds: w.folds.update(
                        k as int,
                        DihedralBendingConstraint { lambda: s.lambda, ..c },
                    ),
                    ..w
                }
            }
        },
        Act::Unilateral { k, s } => {
            let c = w.lines[k as int];
            let m = w.inv_mass;
            if s.idle(c) {
                w
            } else {
                WorldState {
                    pred_pos: shifted(m, shifted(m, w.pred_pos, c.p1, s.pos1), c.p2, s.pos2),
                    lines: w.lines.update(
                        k as int,
                        UnilateralDistanceConstraint { lambda: pulling(s.lambda), ..c },
                    ),
                    ..w
                }
            }
        },
        Act::Ground => WorldState {
            pred_pos: Seq::new(
                w.pred_pos.len(),
                |i: int| grounded(w.inv_mass[i], w.pred_pos[i]),
            ),
            ..w
        },
        Act::UpdateVelocities { vels } => WorldState {
            vel: Seq::new(vels.len(), |i: int| end_velocity(w.inv_mass[i], vels[i])),
            ..w
        },
        Act::UpdateOmegas { omegas, inertia_sq } => WorldState {
            omega: Seq::new(omegas.len(), |i: int| end_velocity(inertia_sq[i], omegas[i])),
            ..w
        },
        Act::Commit => WorldState { pos: w.pred_pos, ..w },
        Act::Yield { moments } => WorldState {
            joints: Seq::new(w.joints.len(), |i: int| joint_after(w.joints[i], moments[i])),
            events: w.events + yield_events(w.joints, moments, moments.len()),
            ..w
        },
        Act::Elapse { time } => WorldState { time, ..w },
        Act::Detect { .. } | Act::Contact { .. } => w,
    }
}

/// The state of a world in the middle of a step, and the contacts found in it.
#[verifier::ext_equal]
pub struct Run {
    pub world: WorldState,
    pub contacts: Seq<ContactConstraint>,
}

/// The run after an act.
pub open spec fn ran(r: Run, act: Act) -> Run {
    let w = r.world;
    match act {
        Act::Detect { samples } => Run {
            contacts: contacts(
                w.panels,
                candidates(w.distances, w.panels, w.pos.len()),
                samples,
                samples.len(),
            ),
            ..r
        },
        Act::Contact { j, s } => Run {
            world: WorldState {
                pred_pos: contact_moved(w.inv_mass, w.pred_pos, r.contacts[j], s),
                ..w
            },
            contacts: r.contacts.update(j, contact_loaded(r.contacts[j], s)),
        },
        _ => Run { world: acted(w, act), ..r },
    }
}

/// What comes after what has been so far, as a script has it: the act that it
/// names is done. A step is over where the script names none.
///
/// The script stands for all that is computed in floating point: which act comes
/// next, and with what numbers, is a function of the states so far.
pub open spec fn next_run(script: spec_fn(Seq<Run>) -> Option<Act>) -> spec_fn(Seq<Run>) -> Option<
    Run,
> {
    |past: Seq<Run>|
        match script(past) {
            Some(act) => Some(ran(past.last(), act)),
            None => None,
        }
}

/// Each entry is what comes after those before it, and nothing comes after the
/// last.
pub open spec fn unfolds<R>(trace: Seq<R>, next: spec_fn(Seq<R>) -> Option<R>) -> bool {
    &&& trace.len() > 0
    &&& forall|i: int| 0 < i < trace.len() ==> next(trace.take(i)) == Some(#[trigger] trace[i])
    &&& next(trace) is None
}

/// The states of the worlds, and the contacts found in them.
pub open spec fn runs(trace: Seq<(World, Seq<ContactConstraint>)>) -> Seq<Run> {
    trace.map_values(|at: (World, Seq<ContactConstraint>)| Run { world: at.0@, contacts: at.1 })
}

/// Two equal worlds stay equal under a step, act by act and at its end.
pub proof fn equal_worlds_stay_equal(
    a: Seq<(World, Seq<ContactConstraint>)>,
    b: Seq<(World, Seq<ContactConstraint>)>,
    script: spec_fn(Seq<Run>) -> Option<Act>,
)
    requires
        unfolds(runs(a), next_run(script)),
        unfolds(runs(b), next_run(script)),
        a[0].0@ == b[0].0@,
        a[0].1 == b[0].1,
    ensures
        a.len() == b.len(),
        forall|i: int| #![trigger a[i]] 0 <= i < a.len() ==> a[i].0@ == b[i].0@ && a[i].1 == b[i].1,
{
    assert(runs(a)[0] == runs(b)[0]);
    traces_agree(runs(a), runs(b), next_run(script));
    assert forall|i: int| #![trigger a[i]] 0 <= i < a.len() implies a[i].0@ == b[i].0@ && a[i].1
        == b[i].1 by {
        assert(runs(a)[i] == runs(b)[i]);
    }
}

/// Steps of equal worlds consist of the same phases, solved in the same way.
pub proof fn equal_worlds_plan_alike(a: World, b: World, reference_mode: bool)
    requires
        a@ == b@,
    ensures
        a.cfg.substeps == b.cfg.substeps,
        substep_phases(a) == substep_phases(b),
        solves_in_parallel(a, reference_mode) == solves_in_parallel(b, reference_mode),
        solves_in_parallel(a, reference_mode) == goes_parallel(a@, reference_mode),
{
    assert(a@.cfg == b@.cfg);
}

/// There is one trace from a beginning.
proof fn traces_agree<R>(a: Seq<R>, b: Seq<R>, next: spec_fn(Seq<R>) -> Option<R>)
    requires
        unfolds(a, next),
        unfolds(b, next),
        a[0] == b[0],
    ensures
        a == b,
{
    let n: int = if a.len() < b.len() {
        a.len() as int
    } else {
        b.len() as int
    };
    beginnings_agree(a, b, next, n);
    assert(a.take(a.len() as int) =~= a && b.take(b.len() as int) =~= b);
    if a.len() < b.len() {
        assert(next(b.take(n)) == Some(b[n]));
    }
    if b.len() < a.len() {
        assert(next(a.take(n)) == Some(a[n]));
    }
}

proof fn beginnings_agree<R>(a: Seq<R>, b: Seq<R>, next: spec_fn(Seq<R>) -> Option<R>, n: int)
    requires
        unfolds(a, next),
        unfolds(b, next),
        a[0] == b[0],
        1 <= n <= a.len(),
        n <= b.len(),
    ensures
        a.take(n) == b.take(n),
    decreases n,
{
    if n > 1 {
        beginnings_agree(a, b, next, n - 1);
        assert(next(a.take(n - 1)) == Some(a[n - 1]));
        assert(next(b.take(n - 1)) == Some(b[n - 1]));
        assert(a.take(n) =~= a.take(n - 1).push(a[n - 1]));
        assert(b.take(n) =~= b.take(n - 1).push(b[n - 1]));
    } else {
        assert(a.take(1) =~= b.take(1));
    }
}

} // verus!
