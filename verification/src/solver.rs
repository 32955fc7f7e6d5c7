//! What a simulation step consists of, and the solver's bookkeeping.
use crate::coloring::{
    greedy_classes, greedy_color, reach_of, rows, valid_coloring, Reach, Touch,
};
use crate::constraints::{
    BendTwistConstraint, BendingConstraint, ConstraintState, DihedralBendingConstraint,
    DistanceConstraint, StretchShearConstraint, UnilateralDistanceConstraint,
};
use crate::scalar::{Scalar, Vec3};
use crate::state::{acted, Act};
use crate::world::{bend_twists_within, Event, World};
use vstd::prelude::*;

verus! {

/// Below this many total constraints the parallel path is skipped: the cost of
/// handing out work outweighs the per-constraint work on small scenes.
pub const PARALLEL_CONSTRAINT_THRESHOLD: usize = 512;

/// What the solver asks of every kind of constraint.
pub trait Solvable: Sized + Copy {
    /// The particles and orientations that the constraint touches.
    spec fn reach(self) -> Reach;

    /// The constraint with its Lagrange multiplier zero.
    spec fn unloaded(self) -> Self;

    fn touch(&self) -> (r: Touch)
        ensures
            r@ == self.reach(),
    ;

    fn unload(self) -> (r: Self)
        ensures
            r == self.unloaded(),
    ;
}

impl Solvable for DistanceConstraint {
    open spec fn reach(self) -> Reach {
        Reach { particles: seq![self.p1, self.p2], orientations: Seq::empty() }
    }

    open spec fn unloaded(self) -> Self {
        DistanceConstraint { lambda: Scalar { bits: 0 }, ..self }
    }

    fn touch(&self) -> (r: Touch) {
        let t: Touch = Touch { particles: vec![self.p1, self.p2], orientations: Vec::new() };
        assert(t.particles@ =~= self.reach().particles);
        assert(t.orientations@ =~= self.reach().orientations);
        t
    }

    fn unload(self) -> (r: Self) {
        let mut c: Self = self;
        c.lambda = Scalar::zero();
        c
    }
}

impl Solvable for BendingConstraint {
    open spec fn reach(self) -> Reach {
        Reach { particles: seq![self.p1, self.p2, self.p3], orientations: Seq::empty() }
    }

    open spec fn unloaded(self) -> Self {
        BendingConstraint { lambda: Vec3::spec_zero(), ..self }
    }

    fn touch(&self) -> (r: Touch) {
        let t: Touch = Touch { particles: vec![self.p1, self.p2, self.p3], orientations: Vec::new() };
        assert(t.particles@ =~= self.reach().particles);
        assert(t.orientations@ =~= self.reach().orientations);
        t
    }

    fn unload(self) -> (r: Self) {
        let mut c: Self = self;
        c.lambda = Vec3::zero();
        c
    }
}

impl Solvable for StretchShearConstraint {
    open spec fn reach(self) -> Reach {
        Reach { particles: seq![self.p1, self.p2], orientations: seq![self.q_index] }
    }

    open spec fn unloaded(self) -> Self {
        StretchShearConstraint { lambda: Vec3::spec_zero(), ..self }
    }

    fn touch(&self) -> (r: Touch) {
        let t: Touch = Touch { particles: vec![self.p1, self.p2], orientations: vec![self.q_index] };
        assert(t.particles@ =~= self.reach().particles);
        assert(t.orientations@ =~= self.reach().orientations);
        t
    }

    fn unload(self) -> (r: Self) {
        let mut c: Self = self;
        c.lambda = Vec3::zero();
        c
    }
}

impl Solvable for BendTwistConstraint {
    open spec fn reach(self) -> Reach {
        Reach { particles: Seq::empty(), orientations: seq![self.q1_index, self.q2_index] }
    }

    open spec fn unloaded(self) -> Self {
        BendTwistConstraint { lambda: Vec3::spec_zero(), ..self }
    }

    fn touch(&self) -> (r: Touch) {
        let t: Touch = Touch { particles: Vec::new(), orientations: vec![self.q1_index, self.q2_index] };
        assert(t.particles@ =~= self.reach().particles);
        assert(t.orientations@ =~= self.reach().orientations);
        t
    }

    fn unload(self) -> (r: Self) {
        let mut c: Self = self;
        c.lambda = Vec3::zero();
        c
    }
}

impl Solvable for DihedralBendingConstraint {
    open spec fn reach(self) -> Reach {
        Reach { particles: seq![self.p1, self.p2, self.p3, self.p4], orientations: Seq::empty() }
    }

    open spec fn unloaded(self) -> Self {
        DihedralBendingConstraint { lambda: Scalar { bits: 0 }, ..self }
    }

    fn touch(&self) -> (r: Touch) {
        let t: Touch = Touch { particles: vec![self.p1, self.p2, self.p3, self.p4], orientations: Vec::new() };
        assert(t.particles@ =~= self.reach().particles);
        assert(t.orientations@ =~= self.reach().orientations);
        t
    }

    fn unload(self) -> (r: Self) {
        let mut c: Self = self;
        c.lambda = Scalar::zero();
        c
    }
}

impl Solvable for UnilateralDistanceConstraint {
    open spec fn reach(self) -> Reach {
        Reach { particles: seq![self.p1, self.p2], orientations: Seq::empty() }
    }

    open spec fn unloaded(self) -> Self {
        UnilateralDistanceConstraint { lambda: Scalar { bits: 0 }, ..self }
    }

    fn touch(&self) -> (r: Touch) {
        let t: Touch = Touch { particles: vec![self.p1, self.p2], orientations: Vec::new() };
        assert(t.particles@ =~= self.reach().particles);
        assert(t.orientations@ =~= self.reach().orientations);
        t
    }

    fn unload(self) -> (r: Self) {
        let mut c: Self = self;
        c.lambda = Scalar::zero();
        c
    }
}

fn touches<C: Solvable>(cs: &Vec<C>) -> (r: Vec<Touch>)
    ensures
        r@.len() == cs@.len(),
        reach_of(r@) == cs@.map_values(|c: C| c.reach()),
{
    let mut out: Vec<Touch> = Vec::new();
    let mut i: usize = 0;
    while i < cs.len()
        invariant
            i <= cs@.len(),
            out@.len() == i,
            forall|k: int| 0 <= k < i ==> (#[trigger] out@[k])@ == cs@[k].reach(),
        decreases cs@.len() - i,
    {
        out.push(cs[i].touch());
        i += 1;
    }
    assert(reach_of(out@) =~= cs@.map_values(|c: C| c.reach()));
    out
}

fn reset<C: Solvable>(cs: &mut Vec<C>)
    ensures
        final(cs)@ == old(cs)@.map_values(|c: C| c.unloaded()),
{
    let ghost before = cs@;
    let mut i: usize = 0;
    while i < cs.len()
        invariant
            i <= before.len(),
            cs@.len() == before.len(),
            forall|k: int| 0 <= k < i ==> #[trigger] cs@[k] == before[k].unloaded(),
            forall|k: int| i <= k < before.len() ==> #[trigger] cs@[k] == before[k],
        decreases before.len() - i,
    {
        let c: C = cs[i];
        cs.set(i, c.unload());
        i += 1;
    }
    assert(cs@ =~= before.map_values(|c: C| c.unloaded()));
}

/// What a distance constraint touches.
pub open spec fn distance_reach(cs: Seq<DistanceConstraint>) -> Seq<Reach> {
    cs.map_values(|c: DistanceConstraint| c.reach())
}

/// What a bending constraint touches.
pub open spec fn bending_reach(cs: Seq<BendingConstraint>) -> Seq<Reach> {
    cs.map_values(|c: BendingConstraint| c.reach())
}

/// What a stretch shear constraint touches.
pub open spec fn stretch_shear_reach(cs: Seq<StretchShearConstraint>) -> Seq<Reach> {
    cs.map_values(|c: StretchShearConstraint| c.reach())
}

/// What a bend twist constraint touches.
pub open spec fn bend_twist_reach(cs: Seq<BendTwistConstraint>) -> Seq<Reach> {
    cs.map_values(|c: BendTwistConstraint| c.reach())
}

/// What a dihedral bending constraint touches.
pub open spec fn dihedral_bending_reach(cs: Seq<DihedralBendingConstraint>) -> Seq<Reach> {
    cs.map_values(|c: DihedralBendingConstraint| c.reach())
}

/// What a unilateral constraint touches.
pub open spec fn unilateral_reach(cs: Seq<UnilateralDistanceConstraint>) -> Seq<Reach> {
    cs.map_values(|c: UnilateralDistanceConstraint| c.reach())
}

/// The number of constraints of all kinds.
pub open spec fn constraint_count(world: World) -> nat {
    world.distance_constraints@.len()
        + world.bending_constraints@.len()
        + world.stretch_shear_constraints@.len()
        + world.bend_twist_constraints@.len()
        + world.dihedral_bending_constraints@.len()
        + world.unilateral_constraints@.len()
}

/// The number of constraints of all kinds, or the largest number there is.
pub fn total_solver_constraints(world: &World) -> (r: usize)
    ensures
        r == if constraint_count(*world) <= usize::MAX {
            constraint_count(*world) as int
        } else {
            usize::MAX as int
        },
{
    world.distance_constraints.len()
        .saturating_add(world.bending_constraints.len())
        .saturating_add(world.stretch_shear_constraints.len())
        .saturating_add(world.bend_twist_constraints.len())
        .saturating_add(world.dihedral_bending_constraints.len())
        .saturating_add(world.unilateral_constraints.len())
}

/// The constraint counts a coloring was made for.
#[derive(Clone, Copy, Debug, PartialEq, Eq, Structural)]
pub struct Fingerprint {
    pub distance: usize,
    pub bending: usize,
    pub stretch_shear: usize,
    pub bend_twist: usize,
    pub dihedral_bending: usize,
    pub unilateral: usize,
}

/// Cached color classes for every constraint type, fingerprinted by the
/// constraint counts so that it goes stale when constraints are added or
/// removed between steps. Breaking a joint flips a state flag and never
/// removes an element, so indices are stable within a run and the counts are a
/// sufficient staleness signal.
pub struct SolverColoring {
    pub fingerprint: Fingerprint,
    pub distance_colors: Vec<Vec<usize>>,
    pub bending_colors: Vec<Vec<usize>>,
    pub stretch_shear_colors: Vec<Vec<usize>>,
    pub bend_twist_colors: Vec<Vec<usize>>,
    pub dihedral_bending_colors: Vec<Vec<usize>>,
    pub unilateral_colors: Vec<Vec<usize>>,
}

impl SolverColoring {
    /// The constraint counts of a world.
    pub open spec fn counts(world: World) -> Fingerprint {
        Fingerprint {
            distance: world.distance_constraints@.len() as usize,
            bending: world.bending_constraints@.len() as usize,
            stretch_shear: world.stretch_shear_constraints@.len() as usize,
            bend_twist: world.bend_twist_constraints@.len() as usize,
            dihedral_bending: world.dihedral_bending_constraints@.len() as usize,
            unilateral: world.unilateral_constraints@.len() as usize,
        }
    }

    /// The coloring was not made for the constraint counts of `world`.
    pub open spec fn stale(self, world: World) -> bool {
        self.fingerprint != Self::counts(world)
    }

    /// The greedy coloring of every constraint list of `world`.
    pub open spec fn colors(self, world: World) -> bool {
        &&& !self.stale(world)
        &&& rows(self.distance_colors@) == greedy_classes(
            distance_reach(world.distance_constraints@),
            world.distance_constraints@.len(),
        )
        &&& rows(self.bending_colors@) == greedy_classes(
            bending_reach(world.bending_constraints@),
            world.bending_constraints@.len(),
        )
        &&& rows(self.stretch_shear_colors@) == greedy_classes(
            stretch_shear_reach(world.stretch_shear_constraints@),
            world.stretch_shear_constraints@.len(),
        )
        &&& rows(self.bend_twist_colors@) == greedy_classes(
            bend_twist_reach(world.bend_twist_constraints@),
            world.bend_twist_constraints@.len(),
        )
        &&& rows(self.dihedral_bending_colors@) == greedy_classes(
            dihedral_bending_reach(world.dihedral_bending_constraints@),
            world.dihedral_bending_constraints@.len(),
        )
        &&& rows(self.unilateral_colors@) == greedy_classes(
            unilateral_reach(world.unilateral_constraints@),
            world.unilateral_constraints@.len(),
        )
    }

    /// No two members of a class share a particle or an orientation, and every
    /// constraint is in exactly one class, in every constraint list.
    pub open spec fn race_free(self, world: World) -> bool {
        &&& valid_coloring(
            distance_reach(world.distance_constraints@),
            rows(self.distance_colors@),
        )
        &&& valid_coloring(
            bending_reach(world.bending_constraints@),
            rows(self.bending_colors@),
        )
        &&& valid_coloring(
            stretch_shear_reach(world.stretch_shear_constraints@),
            rows(self.stretch_shear_colors@),
        )
        &&& valid_coloring(
            bend_twist_reach(world.bend_twist_constraints@),
            rows(self.bend_twist_colors@),
        )
        &&& valid_coloring(
            dihedral_bending_reach(world.dihedral_bending_constraints@),
            rows(self.dihedral_bending_colors@),
        )
        &&& valid_coloring(
            unilateral_reach(world.unilateral_constraints@),
            rows(self.unilateral_colors@),
        )
    }

    fn fingerprint_of(world: &World) -> (r: Fingerprint)
        ensures
            r == Self::counts(*world),
    {
        Fingerprint {
            distance: world.distance_constraints.len(),
            bending: world.bending_constraints.len(),
            stretch_shear: world.stretch_shear_constraints.len(),
            bend_twist: world.bend_twist_constraints.len(),
            dihedral_bending: world.dihedral_bending_constraints.len(),
            unilateral: world.unilateral_constraints.len(),
        }
    }

    /// Whether the constraint counts have changed since the coloring was made.
    pub fn is_stale(&self, world: &World) -> (r: bool)
        ensures
            r == self.stale(*world),
    {
        self.fingerprint != Self::fingerprint_of(world)
    }

    /// Colors every constraint list of the world.
    pub fn rebuild(world: &World) -> (r: Self)
        requires
            world.wf(),
        ensures
            r.colors(*world),
            r.race_free(*world),
    {
        let n_p: usize = world.particles.len();
        let n_q: usize = world.orientations.len();
        let distance: Vec<Touch> = touches(&world.distance_constraints);
        assert(reach_of(distance@) =~= distance_reach(world.distance_constraints@));
        assert forall|i: int| 0 <= i < distance@.len() implies (#[trigger] distance@[i])@.within(
            n_p as nat,
            n_q as nat,
        ) by {
            assert(reach_of(distance@).len() == distance_reach(world.distance_constraints@).len());
            assert(reach_of(distance@)[i] == distance@[i]@);
            let c = world.distance_constraints@[i];
            assert(distance_reach(world.distance_constraints@)[i].particles.len() == 2);
            assert(distance_reach(world.distance_constraints@)[i].orientations.len() == 0);
        }
        let bending: Vec<Touch> = touches(&world.bending_constraints);
        assert(reach_of(bending@) =~= bending_reach(world.bending_constraints@));
        assert forall|i: int| 0 <= i < bending@.len() implies (#[trigger] bending@[i])@.within(
            n_p as nat,
            n_q as nat,
        ) by {
            assert(reach_of(bending@).len() == bending_reach(world.bending_constraints@).len());
            assert(reach_of(bending@)[i] == bending@[i]@);
            let c = world.bending_constraints@[i];
            assert(bending_reach(world.bending_constraints@)[i].particles.len() == 3);
            assert(bending_reach(world.bending_constraints@)[i].orientations.len() == 0);
        }
        let stretch_shear: Vec<Touch> = touches(&world.stretch_shear_constraints);
        assert(reach_of(stretch_shear@) =~= stretch_shear_reach(world.stretch_shear_constraints@));
        assert forall|i: int| 0 <= i < stretch_shear@.len() implies (#[trigger] stretch_shear@[i])@.within(
            n_p as nat,
            n_q as nat,
        ) by {
            assert(reach_of(stretch_shear@).len() == stretch_shear_reach(world.stretch_shear_constraints@).len());
            assert(reach_of(stretch_shear@)[i] == stretch_shear@[i]@);
            let c = world.stretch_shear_constraints@[i];
            assert(stretch_shear_reach(world.stretch_shear_constraints@)[i].particles.len() == 2);
            assert(stretch_shear_reach(world.stretch_shear_constraints@)[i].orientations.len() == 1);
        }
        let bend_twist: Vec<Touch> = touches(&world.bend_twist_constraints);
        assert(reach_of(bend_twist@) =~= bend_twist_reach(world.bend_twist_constraints@));
        assert forall|i: int| 0 <= i < bend_twist@.len() implies (#[trigger] bend_twist@[i])@.within(
            n_p as nat,
            n_q as nat,
        ) by {
            assert(reach_of(bend_twist@).len() == bend_twist_reach(world.bend_twist_constraints@).len());
            assert(reach_of(bend_twist@)[i] == bend_twist@[i]@);
            let c = world.bend_twist_constraints@[i];
            assert(bend_twist_reach(world.bend_twist_constraints@)[i].particles.len() == 0);
            assert(bend_twist_reach(world.bend_twist_constraints@)[i].orientations.len() == 2);
        }
        let dihedral_bending: Vec<Touch> = touches(&world.dihedral_bending_constraints);
        assert(reach_of(dihedral_bending@) =~= dihedral_bending_reach(world.dihedral_bending_constraints@));
        assert forall|i: int| 0 <= i < dihedral_bending@.len() implies (#[trigger] dihedral_bending@[i])@.within(
            n_p as nat,
            n_q as nat,
        ) by {
            assert(reach_of(dihedral_bending@).len() == dihedral_bending_reach(world.dihedral_bending_constraints@).len());
            assert(reach_of(dihedral_bending@)[i] == dihedral_bending@[i]@);
            let c = world.dihedral_bending_constraints@[i];
            assert(dihedral_bending_reach(world.dihedral_bending_constraints@)[i].particles.len() == 4);
            assert(dihedral_bending_reach(world.dihedral_bending_constraints@)[i].orientations.len() == 0);
        }
        let unilateral: Vec<Touch> = touches(&world.unilateral_constraints);
        assert(reach_of(unilateral@) =~= unilateral_reach(world.unilateral_constraints@));
        assert forall|i: int| 0 <= i < unilateral@.len() implies (#[trigger] unilateral@[i])@.within(
            n_p as nat,
            n_q as nat,
        ) by {
            assert(reach_of(unilateral@).len() == unilateral_reach(world.unilateral_constraints@).len());
            assert(reach_of(unilateral@)[i] == unilateral@[i]@);
            let c = world.unilateral_constraints@[i];
            assert(unilateral_reach(world.unilateral_constraints@)[i].particles.len() == 2);
            assert(unilateral_reach(world.unilateral_constraints@)[i].orientations.len() == 0);
        }
        SolverColoring {
            fingerprint: Self::fingerprint_of(world),
            distance_colors: greedy_color(&distance, n_p, n_q),
            bending_colors: greedy_color(&bending, n_p, n_q),
            stretch_shear_colors: greedy_color(&stretch_shear, n_p, n_q),
            bend_twist_colors: greedy_color(&bend_twist, n_p, n_q),
            dihedral_bending_colors: greedy_color(&dihedral_bending, n_p, n_q),
            unilateral_colors: greedy_color(&unilateral, n_p, n_q),
        }
    }
}

/// One piece of a substep.
#[derive(Clone, Copy, Debug, PartialEq, Eq, Structural)]
pub enum Phase {
    /// Drive the anchor particles from the control bar's tips.
    SyncAnchors,
    /// Gravity and point forces change the particle velocities.
    ExternalForces,
    /// Torques change the angular velocities.
    ExternalTorques,
    /// Cross-flow drag of the lines.
    LineDrag,
    /// Quasi-steady canopy forces.
    CanopyAero,
    /// Unsteady aerodynamic corrections.
    AeroCorrections,
    /// Cross-flow drag of the spars.
    SparDrag,
    /// Predict the positions from the velocities.
    PredictPositions,
    /// Predict the orientations from the angular velocities.
    PredictOrientations,
    /// Set every Lagrange multiplier to zero.
    ResetMultipliers,
    /// Find the self-collisions of the predicted positions.
    DetectContacts,
    SolveDistance,
    SolveBending,
    SolveStretchShear,
    SolveBendTwist,
    SolveDihedralBending,
    SolveUnilateral,
    SolveContacts,
    SolveGround,
    /// Velocities from the solved positions, damped.
    UpdateVelocities,
    /// Angular velocities from the solved orientations, damped.
    UpdateOmegas,
    /// The solved positions become current.
    CommitPositions,
    /// Joints loaded past their threshold fail.
    YieldAndBreak,
    /// Line forces act on the control bar, which advances.
    AdvanceBar,
}

/// What happens in a substep before the solver iterations.
pub open spec fn opening_phases(bar: bool, self_collision: bool) -> Seq<Phase> {
    (if bar {
        seq![Phase::SyncAnchors]
    } else {
        Seq::empty()
    }) + seq![
        Phase::ExternalForces,
        Phase::ExternalTorques,
        Phase::LineDrag,
        Phase::CanopyAero,
        Phase::AeroCorrections,
        Phase::SparDrag,
        Phase::PredictPositions,
        Phase::PredictOrientations,
        Phase::ResetMultipliers,
    ] + (if self_collision {
        seq![Phase::DetectContacts]
    } else {
        Seq::empty()
    })
}

/// One solver iteration: every kind of constraint once, then the contacts.
pub open spec fn iteration_phases(self_collision: bool, ground_collision: bool) -> Seq<Phase> {
    seq![
        Phase::SolveDistance,
        Phase::SolveBending,
        Phase::SolveStretchShear,
        Phase::SolveBendTwist,
        Phase::SolveDihedralBending,
        Phase::SolveUnilateral,
    ] + (if self_collision {
        seq![Phase::SolveContacts]
    } else {
        Seq::empty()
    }) + (if ground_collision {
        seq![Phase::SolveGround]
    } else {
        Seq::empty()
    })
}

/// `n` solver iterations.
pub open spec fn iterations(one: Seq<Phase>, n: nat) -> Seq<Phase>
    decreases n,
{
    if n == 0 {
        Seq::empty()
    } else {
        iterations(one, (n - 1) as nat) + one
    }
}

/// What happens in a substep after the solver iterations.
pub open spec fn closing_phases(bar: bool) -> Seq<Phase> {
    seq![
        Phase::UpdateVelocities,
        Phase::UpdateOmegas,
        Phase::CommitPositions,
        Phase::YieldAndBreak,
    ] + (if bar {
        seq![Phase::AdvanceBar]
    } else {
        Seq::empty()
    })
}

/// A whole substep of a world.
pub open spec fn substep_phases(world: World) -> Seq<Phase> {
    opening_phases(world.control_bar is Some, world.cfg.self_collision_enabled) + iterations(
        iteration_phases(world.cfg.self_collision_enabled, world.cfg.ground_collision_enabled),
        world.cfg.iterations_per_substep as nat,
    ) + closing_phases(world.control_bar is Some)
}

/// A simulation step: how many substeps it has, the phases of each of them in
/// order, and whether the constraint lists are solved class by class in
/// parallel.
pub struct StepPlan {
    pub substeps: usize,
    pub phases: Vec<Phase>,
    pub parallel: bool,
}

/// The parallel solve is opted into by the configuration, off in a reference
/// build, and skipped for scenes with few constraints.
pub open spec fn solves_in_parallel(world: World, reference_mode: bool) -> bool {
    !reference_mode && world.cfg.parallel_solve && constraint_count(world)
        >= PARALLEL_CONSTRAINT_THRESHOLD
}

fn push_iteration(phases: &mut Vec<Phase>, self_collision: bool, ground_collision: bool)
    ensures
        final(phases)@ == old(phases)@ + iteration_phases(self_collision, ground_collision),
{
    let ghost before = phases@;
    phases.push(Phase::SolveDistance);
    phases.push(Phase::SolveBending);
    phases.push(Phase::SolveStretchShear);
    phases.push(Phase::SolveBendTwist);
    phases.push(Phase::SolveDihedralBending);
    phases.push(Phase::SolveUnilateral);
    if self_collision {
        phases.push(Phase::SolveContacts);
    }
    if ground_collision {
        phases.push(Phase::SolveGround);
    }
    assert(phases@ =~= before + iteration_phases(self_collision, ground_collision));
}

fn plan_substep(world: &World) -> (r: Vec<Phase>)
    ensures
        r@ == substep_phases(*world),
{
    let bar: bool = world.control_bar.is_some();
    let self_collision: bool = world.cfg.self_collision_enabled;
    let ground_collision: bool = world.cfg.ground_collision_enabled;
    let mut phases: Vec<Phase> = Vec::new();
    if bar {
        phases.push(Phase::SyncAnchors);
    }
    phases.push(Phase::ExternalForces);
    phases.push(Phase::ExternalTorques);
    phases.push(Phase::LineDrag);
    phases.push(Phase::CanopyAero);
    phases.push(Phase::AeroCorrections);
    phases.push(Phase::SparDrag);
    phases.push(Phase::PredictPositions);
    phases.push(Phase::PredictOrientations);
    phases.push(Phase::ResetMultipliers);
    if self_collision {
        phases.push(Phase::DetectContacts);
    }
    let ghost opening = opening_phases(bar, self_collision);
    let ghost one = iteration_phases(self_collision, ground_collision);
    assert(phases@ =~= opening);
    let mut n: usize = 0;
    proof {
        assert(opening + iterations(one, 0) =~= opening);
    }
    while n < world.cfg.iterations_per_substep
        invariant
            n <= world.cfg.iterations_per_substep,
            phases@ == opening + iterations(one, n as nat),
            one == iteration_phases(self_collision, ground_collision),
        decreases world.cfg.iterations_per_substep - n,
    {
        push_iteration(&mut phases, self_collision, ground_collision);
        n += 1;
        assert(phases@ =~= opening + iterations(one, n as nat));
    }
    let ghost solved = phases@;
    phases.push(Phase::UpdateVelocities);
    phases.push(Phase::UpdateOmegas);
    phases.push(Phase::CommitPositions);
    phases.push(Phase::YieldAndBreak);
    if bar {
        phases.push(Phase::AdvanceBar);
    }
    assert(phases@ =~= solved + closing_phases(bar));
    phases
}

/// Begins a simulation step with substeps of length `h`: records the length,
/// colors the constraints anew if the parallel solve needs it, and lays out
/// what the step consists of. A world without substeps is left alone.
pub fn step_simulation(world: &mut World, h: Scalar, reference_mode: bool) -> (r: StepPlan)
    requires
        old(world).wf(),
    ensures
        final(world).wf(),
        final(world)@ == acted(old(world)@, Act::Begin { h, reference_mode }),
        final(world).particles == old(world).particles,
        final(world).orientations == old(world).orientations,
        final(world).same_constraints(*old(world)),
        final(world).forces == old(world).forces,
        final(world).torques == old(world).torques,
        final(world).time == old(world).time,
        final(world).cfg == old(world).cfg,
        final(world).aero_readback == old(world).aero_readback,
        final(world).events == old(world).events,
        final(world).control_bar == old(world).control_bar,
        r.substeps == old(world).cfg.substeps,
        old(world).cfg.substeps == 0 ==> {
            &&& r.phases@.len() == 0
            &&& !r.parallel
            &&& final(world).last_h == old(world).last_h
            &&& final(world).coloring == old(world).coloring
        },
        old(world).cfg.substeps > 0 ==> {
            &&& r.phases@ == substep_phases(*old(world))
            &&& r.parallel == solves_in_parallel(*old(world), reference_mode)
            &&& final(world).last_h == h
            &&& final(world).coloring == old(world).coloring || {
                &&& r.parallel
                &&& old(world).coloring is None || old(world).coloring->0.stale(*old(world))
                &&& final(world).coloring is Some
                &&& final(world).coloring->0.colors(*old(world))
                &&& final(world).coloring->0.race_free(*old(world))
            }
        },
        r.parallel ==> final(world).coloring is Some && !final(world).coloring->0.stale(
            *old(world),
        ),
{
    let substeps: usize = world.cfg.substeps;
    if substeps == 0 {
        return StepPlan { substeps, phases: Vec::new(), parallel: false };
    }
    let parallel: bool = !reference_mode && world.cfg.parallel_solve && total_solver_constraints(
        world,
    ) >= PARALLEL_CONSTRAINT_THRESHOLD;
    if parallel {
        let stale: bool = match &world.coloring {
            None => true,
            Some(c) => c.is_stale(world),
        };
        if stale {
            let fresh: SolverColoring = SolverColoring::rebuild(world);
            world.coloring = Some(fresh);
        }
    }
    world.last_h = h;
    let phases: Vec<Phase> = plan_substep(world);
    StepPlan { substeps, phases, parallel }
}

/// What becomes of a joint that carries a bending moment: an intact one loaded
/// past its threshold folds if it is inflatable and breaks otherwise.
pub open spec fn joint_after(b: BendTwistConstraint, moment: Scalar) -> BendTwistConstraint {
    if b.state == ConstraintState::Active && b.yield_threshold.less(moment) {
        BendTwistConstraint {
            state: if b.is_inflatable {
                ConstraintState::Folded
            } else {
                ConstraintState::Broken
            },
            ..b
        }
    } else {
        b
    }
}

/// The events of the first `n` joints under their moments, in joint order.
pub open spec fn yield_events(
    joints: Seq<BendTwistConstraint>,
    moments: Seq<Scalar>,
    n: nat,
) -> Seq<Event>
    decreases n,
{
    if n == 0 {
        Seq::empty()
    } else {
        let i = n - 1;
        let before = yield_events(joints, moments, (n - 1) as nat);
        if joints[i].state == ConstraintState::Active && joints[i].yield_threshold.less(moments[i]) {
            if joints[i].is_inflatable {
                before.push(Event::LeadingEdgeFolded { joint_index: i as usize })
            } else {
                before.push(Event::SparBroken { joint_index: i as usize })
            }
        } else {
            before
        }
    }
}

/// Post-substep yield checks: `moments` holds the bending moment each joint
/// carried. Joints that fail change their state and are reported, in joint
/// order.
pub fn process_yield_and_breaking(world: &mut World, moments: &Vec<Scalar>)
    requires
        old(world).wf(),
        moments@.len() == old(world).bend_twist_constraints@.len(),
    ensures
        final(world).wf(),
        final(world)@ == acted(old(world)@, Act::Yield { moments: moments@ }),
        final(world).bend_twist_constraints@.len() == old(world).bend_twist_constraints@.len(),
        forall|i: int|
            0 <= i < old(world).bend_twist_constraints@.len() ==> #[trigger] final(world).bend_twist_constraints@[i] == joint_after(
                old(world).bend_twist_constraints@[i],
                moments@[i],
            ),
        final(world).events@ == old(world).events@ + yield_events(
            old(world).bend_twist_constraints@,
            moments@,
            moments@.len(),
        ),
        *final(world) == (World {
            bend_twist_constraints: final(world).bend_twist_constraints,
            events: final(world).events,
            ..*old(world)
        }),
{
    let ghost start = *world;
    let ghost joints = world.bend_twist_constraints@;
    let mut idx: usize = 0;
    proof {
        assert(world.events@ =~= start.events@ + yield_events(joints, moments@, 0));
    }
    while idx < world.bend_twist_constraints.len()
        invariant
            idx <= joints.len(),
            joints == start.bend_twist_constraints@,
            moments@.len() == joints.len(),
            world.bend_twist_constraints@.len() == joints.len(),
            forall|i: int|
                0 <= i < idx ==> #[trigger] world.bend_twist_constraints@[i] == joint_after(
                    joints[i],
                    moments@[i],
                ),
            forall|i: int|
                idx <= i < joints.len() ==> #[trigger] world.bend_twist_constraints@[i]
                    == joints[i],
            world.events@ == start.events@ + yield_events(joints, moments@, idx as nat),
            *world == (World {
                bend_twist_constraints: world.bend_twist_constraints,
                events: world.events,
                ..start
            }),
        decreases joints.len() - idx,
    {
        let mut b: BendTwistConstraint = world.bend_twist_constraints[idx];
        let ghost events = world.events@;
        if b.state == ConstraintState::Active && b.yield_threshold.lt(moments[idx]) {
            if b.is_inflatable {
                b.state = ConstraintState::Folded;
                world.events.push(Event::LeadingEdgeFolded { joint_index: idx });
            } else {
                b.state = ConstraintState::Broken;
                world.events.push(Event::SparBroken { joint_index: idx });
            }
            world.bend_twist_constraints.set(idx, b);
        }
        assert(world.events@ =~= start.events@ + yield_events(joints, moments@, idx as nat + 1));
        idx += 1;
    }
    proof {
        assert(bend_twists_within(joints, start.orientations.count()));
        assert(bend_twists_within(world.bend_twist_constraints@, start.orientations.count()));
    }
}

/// A joint that has failed never recovers, and a joint never fails otherwise
/// than its construction says: it folds only if inflatable, breaks only if not.
pub proof fn failure_is_permanent(b: BendTwistConstraint, moment: Scalar)
    ensures
        b.state != ConstraintState::Active ==> joint_after(b, moment) == b,
        joint_after(b, moment).state == ConstraintState::Folded && b.state
            == ConstraintState::Active ==> b.is_inflatable,
        joint_after(b, moment).state == ConstraintState::Broken && b.state
            == ConstraintState::Active ==> !b.is_inflatable,
        joint_after(joint_after(b, moment), moment) == joint_after(b, moment),
{
}

/// Every reported joint exists, was intact, and has failed; each joint is
/// reported at most once per substep, in ascending order.
pub proof fn events_name_failed_joints(
    joints: Seq<BendTwistConstraint>,
    moments: Seq<Scalar>,
    n: nat,
)
    requires
        n <= joints.len() <= usize::MAX,
        moments.len() == joints.len(),
    ensures
        forall|k: int|
            0 <= k < yield_events(joints, moments, n).len() ==> {
                let j = joint_of(#[trigger] yield_events(joints, moments, n)[k]) as int;
                &&& j < n
                &&& joints[j].state == ConstraintState::Active
                &&& joint_after(joints[j], moments[j]).state != ConstraintState::Active
            },
        forall|k: int, l: int|
            #![trigger yield_events(joints, moments, n)[k], yield_events(joints, moments, n)[l]]
            0 <= k < l < yield_events(joints, moments, n).len() ==> joint_of(
                yield_events(joints, moments, n)[k],
            ) < joint_of(yield_events(joints, moments, n)[l]),
    decreases n,
{
    if n > 0 {
        events_name_failed_joints(joints, moments, (n - 1) as nat);
        let before = yield_events(joints, moments, (n - 1) as nat);
        let after = yield_events(joints, moments, n);
        assert forall|k: int| 0 <= k < after.len() implies {
            let j = joint_of(#[trigger] after[k]) as int;
            &&& j < n
            &&& joints[j].state == ConstraintState::Active
            &&& joint_after(joints[j], moments[j]).state != ConstraintState::Active
        } by {
            if k < before.len() {
                assert(after[k] == before[k]);
            }
        }
        assert forall|k: int, l: int|
            #![trigger after[k], after[l]]
            0 <= k < l < after.len() implies joint_of(after[k]) < joint_of(after[l]) by {
            assert(after[k] == before[k]);
            if l < before.len() {
                assert(after[l] == before[l]);
            }
        }
    }
}

/// The joint an event is about.
pub open spec fn joint_of(e: Event) -> usize {
    match e {
        Event::SparBroken { joint_index } => joint_index,
        Event::LeadingEdgeFolded { joint_index } => joint_index,
    }
}

/// The constraint lists of `after` are those of `before` with every Lagrange
/// multiplier zero.
pub open spec fn multipliers_reset(before: World, after: World) -> bool {
    let zero = Scalar { bits: 0 };
    &&& after.distance_constraints@ == before.distance_constraints@.map_values(
        |c: DistanceConstraint| DistanceConstraint { lambda: zero, ..c },
    )
    &&& after.bending_constraints@ == before.bending_constraints@.map_values(
        |c: BendingConstraint| BendingConstraint { lambda: Vec3::spec_zero(), ..c },
    )
    &&& after.stretch_shear_constraints@ == before.stretch_shear_constraints@.map_values(
        |c: StretchShearConstraint| StretchShearConstraint { lambda: Vec3::spec_zero(), ..c },
    )
    &&& after.bend_twist_constraints@ == before.bend_twist_constraints@.map_values(
        |c: BendTwistConstraint| BendTwistConstraint { lambda: Vec3::spec_zero(), ..c },
    )
    &&& after.dihedral_bending_constraints@ == before.dihedral_bending_constraints@.map_values(
        |c: DihedralBendingConstraint| DihedralBendingConstraint { lambda: zero, ..c },
    )
    &&& after.unilateral_constraints@ == before.unilateral_constraints@.map_values(
        |c: UnilateralDistanceConstraint| UnilateralDistanceConstraint { lambda: zero, ..c },
    )
}

/// Sets every Lagrange multiplier to zero.
pub fn reset_multipliers(world: &mut World)
    requires
        old(world).wf(),
    ensures
        final(world).wf(),
        final(world)@ == acted(old(world)@, Act::ResetMultipliers),
        multipliers_reset(*old(world), *final(world)),
        final(world).canopy_panels == old(world).canopy_panels,
        final(world).particles == old(world).particles,
        final(world).orientations == old(world).orientations,
        final(world).forces == old(world).forces,
        final(world).torques == old(world).torques,
        final(world).same_surroundings(*old(world)),
{
    reset(&mut world.distance_constraints);
    reset(&mut world.bending_constraints);
    reset(&mut world.stretch_shear_constraints);
    reset(&mut world.bend_twist_constraints);
    reset(&mut world.dihedral_bending_constraints);
    reset(&mut world.unilateral_constraints);
}

} // verus!
