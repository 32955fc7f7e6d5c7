//! The state of the simulation and its configuration.
use crate::constraints::{
    BendTwistConstraint, BendingConstraint, DihedralBendingConstraint, DistanceConstraint,
    StretchShearConstraint, UnilateralDistanceConstraint,
};
use crate::control_bar::ControlBar;
use crate::orientation::OrientationSet;
use crate::particles::{stored_inv_mass, ParticleSet};
use crate::scalar::{Quat, Scalar, Vec3};
use crate::solver::SolverColoring;
use crate::state::{acted, Act};
use crate::wind::WindConfig;
use vstd::prelude::*;

verus! {

/// Event emitted by the physics engine during simulation.
#[derive(Clone, Copy, Debug, PartialEq, Eq, Structural)]
pub enum Event {
    /// A solid rod segment has yielded past its tensile/bending limit and snapped.
    SparBroken { joint_index: usize },
    /// An inflatable tube joint has kinked/folded due to underpressure or
    /// excessive load.
    LeadingEdgeFolded { joint_index: usize },
}

/// A triangular canopy panel defined by three particle indices.
#[derive(Clone, Copy, Debug, PartialEq, Eq, Structural)]
pub struct CanopyPanel {
    /// Index of the first particle.
    pub p1: usize,
    /// Index of the second particle.
    pub p2: usize,
    /// Index of the third particle.
    pub p3: usize,
    /// Mean vertex velocity after the previous substep's added-mass
    /// correction (`None` until first sampled).
    pub prev_mean_vel: Option<Vec3>,
}

impl CanopyPanel {
    /// Creates a new panel.
    pub fn new(p1: usize, p2: usize, p3: usize) -> (r: Self)
        ensures
            r == (CanopyPanel { p1, p2, p3, prev_mean_vel: None }),
    {
        CanopyPanel { p1, p2, p3, prev_mean_vel: None }
    }
}

/// Per-panel aerodynamic readback (lift and drag force, angle of attack) for
/// debug visualization. Not used by the solver itself.
#[derive(Clone, Copy, Debug, PartialEq, Eq, Structural)]
pub struct PanelAero {
    /// Lift force applied to this panel (world frame, newtons).
    pub lift: Vec3,
    /// Drag force applied to this panel (world frame, newtons).
    pub drag: Vec3,
    /// Angle of attack (radians).
    pub alpha: Scalar,
}

impl Default for PanelAero {
    fn default() -> (r: Self)
        ensures
            r == (PanelAero {
                lift: Vec3::spec_zero(),
                drag: Vec3::spec_zero(),
                alpha: Scalar { bits: 0 },
            }),
    {
        PanelAero { lift: Vec3::zero(), drag: Vec3::zero(), alpha: Scalar::zero() }
    }
}

/// Configuration parameters for the physics simulation.
#[derive(Debug)]
pub struct Config {
    /// Number of substeps per step (default 24).
    pub substeps: usize,
    /// Solver iterations per substep (default 1).
    pub iterations_per_substep: usize,
    /// Gravity acceleration vector (Y-up, right-handed).
    pub gravity: Vec3,
    /// Velocity damping factor (per second).
    pub damping: Scalar,
    /// Bladder pressure of inflatable leading edge (LE) tubes.
    pub bladder_pressure: Scalar,
    /// Pressure-stiffness coupling constant.
    pub k_pressure: Scalar,
    /// Wind field configuration.
    pub wind: WindConfig,
    /// Whether ground-plane collision is enabled.
    pub ground_collision_enabled: bool,
    /// Whether self-collision detection is enabled.
    pub self_collision_enabled: bool,
    /// Whether to solve constraints in parallel using graph coloring.
    pub parallel_solve: bool,
    /// Whether the added-mass correction is applied.
    pub added_mass_enabled: bool,
}

/// Standard gravity, pointing down.
pub open spec fn standard_gravity() -> Vec3 {
    Vec3 {
        x: Scalar { bits: 0 },
        y: Scalar { bits: 0xC023_9EB8_51EB_851F },
        z: Scalar { bits: 0 },
    }
}

impl Config {
    /// The engine's defaults, with the parallel solve on or off.
    pub open spec fn is_standard(self, parallel_solve: bool) -> bool {
        &&& self.substeps == 24
        &&& self.iterations_per_substep == 1
        &&& self.gravity == standard_gravity()
        &&& self.damping.bits == 0x4000_0000_0000_0000
        &&& self.bladder_pressure.bits == 0
        &&& self.k_pressure.bits == 0x3FF0_0000_0000_0000
        &&& self.wind.is_default()
        &&& !self.ground_collision_enabled
        &&& !self.self_collision_enabled
        &&& self.parallel_solve == parallel_solve
        &&& !self.added_mass_enabled
    }

    /// The engine's defaults. `parallel_solve` says whether the environment
    /// asks for the parallel solve.
    pub fn standard(parallel_solve: bool) -> (r: Config)
        ensures
            r.is_standard(parallel_solve),
    {
        Config {
            substeps: 24,
            iterations_per_substep: 1,
            gravity: Vec3::new(
                Scalar::zero(),
                Scalar::new(0xC023_9EB8_51EB_851F),
                Scalar::zero(),
            ),
            damping: Scalar::new(0x4000_0000_0000_0000),
            bladder_pressure: Scalar::zero(),
            k_pressure: Scalar::new(0x3FF0_0000_0000_0000),
            wind: WindConfig::default(),
            ground_collision_enabled: false,
            self_collision_enabled: false,
            parallel_solve,
            added_mass_enabled: false,
        }
    }
}

impl Clone for Config {
    fn clone(&self) -> (r: Self)
        ensures
            r.wind.same(self.wind),
            r == (Config { wind: r.wind, ..*self }),
    {
        Config {
            substeps: self.substeps,
            iterations_per_substep: self.iterations_per_substep,
            gravity: self.gravity,
            damping: self.damping,
            bladder_pressure: self.bladder_pressure,
            k_pressure: self.k_pressure,
            wind: self.wind.clone(),
            ground_collision_enabled: self.ground_collision_enabled,
            self_collision_enabled: self.self_collision_enabled,
            parallel_solve: self.parallel_solve,
            added_mass_enabled: self.added_mass_enabled,
        }
    }
}

impl Default for Config {
    /// The engine's defaults, with the serial solve.
    fn default() -> (r: Self)
        ensures
            r.is_standard(false),
    {
        Config::standard(false)
    }
}

/// The top-level state of the physical simulation.
pub struct World {
    /// Current simulation time in seconds.
    pub time: Scalar,
    /// Solver configuration parameters.
    pub cfg: Config,
    /// Set of particles in the simulation.
    pub particles: ParticleSet,
    /// Set of segment orientations in the simulation.
    pub orientations: OrientationSet,
    /// Active simple distance constraints.
    pub distance_constraints: Vec<DistanceConstraint>,
    /// Active simple bending constraints.
    pub bending_constraints: Vec<BendingConstraint>,
    /// Active Cosserat rod stretch-shear constraints.
    pub stretch_shear_constraints: Vec<StretchShearConstraint>,
    /// Active Cosserat rod bend-twist constraints.
    pub bend_twist_constraints: Vec<BendTwistConstraint>,
    /// Active cloth dihedral bending constraints.
    pub dihedral_bending_constraints: Vec<DihedralBendingConstraint>,
    /// Active unilateral (bridle) distance constraints.
    pub unilateral_constraints: Vec<UnilateralDistanceConstraint>,
    /// Canopy panels (triangles) for aerodynamics.
    pub canopy_panels: Vec<CanopyPanel>,
    /// Per-panel aerodynamic readback of the last substep.
    pub aero_readback: Vec<PanelAero>,
    /// External torques applied to each segment (world frame).
    pub torques: Vec<Vec3>,
    /// External forces applied to each particle.
    pub forces: Vec<Vec3>,
    /// Accumulated physics events since the start.
    pub events: Vec<Event>,
    /// Substep length of the last step; zero before the first.
    pub last_h: Scalar,
    /// Cached graph coloring for parallel constraint solving.
    pub coloring: Option<SolverColoring>,
    /// The particles a rigid control bar drives, where there is one.
    pub control_bar: Option<ControlBar>,
}

impl World {
    /// Every array of the particle and orientation sets has one entry per
    /// member, and every constraint, panel and bar anchor names members.
    pub open spec fn wf(self) -> bool {
        let np = self.particles.count();
        let nq = self.orientations.count();
        &&& self.particles.wf()
        &&& self.orientations.wf()
        &&& distances_within(self.distance_constraints@, np)
        &&& bendings_within(self.bending_constraints@, np)
        &&& stretch_shears_within(self.stretch_shear_constraints@, np, nq)
        &&& bend_twists_within(self.bend_twist_constraints@, nq)
        &&& dihedrals_within(self.dihedral_bending_constraints@, np)
        &&& unilaterals_within(self.unilateral_constraints@, np)
        &&& panels_within(self.canopy_panels@, np)
        &&& match self.control_bar {
            Some(bar) => bar.left_anchor < np && bar.right_anchor < np,
            None => true,
        }
    }

    /// All of the world but its particles, orientations, constraints, panels,
    /// forces and torques is as it was.
    pub open spec fn same_surroundings(self, other: World) -> bool {
        &&& self.time == other.time
        &&& self.cfg == other.cfg
        &&& self.aero_readback == other.aero_readback
        &&& self.events == other.events
        &&& self.last_h == other.last_h
        &&& self.coloring == other.coloring
        &&& self.control_bar == other.control_bar
    }

    /// All constraints and panels are as they were.
    pub open spec fn same_constraints(self, other: World) -> bool {
        &&& self.distance_constraints == other.distance_constraints
        &&& self.bending_constraints == other.bending_constraints
        &&& self.stretch_shear_constraints == other.stretch_shear_constraints
        &&& self.bend_twist_constraints == other.bend_twist_constraints
        &&& self.dihedral_bending_constraints == other.dihedral_bending_constraints
        &&& self.unilateral_constraints == other.unilateral_constraints
        &&& self.canopy_panels == other.canopy_panels
    }

    /// Creates a new, empty simulation world.
    pub fn new() -> (r: Self)
        ensures
            r.wf(),
            r.is_empty_world(),
            r.cfg.is_standard(false),
    {
        World {
            time: Scalar::zero(),
            cfg: Config::default(),
            particles: ParticleSet::new(),
            orientations: OrientationSet::new(),
            distance_constraints: Vec::new(),
            bending_constraints: Vec::new(),
            stretch_shear_constraints: Vec::new(),
            bend_twist_constraints: Vec::new(),
            dihedral_bending_constraints: Vec::new(),
            unilateral_constraints: Vec::new(),
            canopy_panels: Vec::new(),
            aero_readback: Vec::new(),
            torques: Vec::new(),
            forces: Vec::new(),
            events: Vec::new(),
            last_h: Scalar::zero(),
            coloring: None,
            control_bar: None,
        }
    }

    /// At time zero, with nothing in it, never stepped.
    pub open spec fn is_empty_world(self) -> bool {
        &&& self.time.bits == 0
        &&& self.particles.count() == 0
        &&& self.orientations.count() == 0
        &&& self.distance_constraints@.len() == 0
        &&& self.bending_constraints@.len() == 0
        &&& self.stretch_shear_constraints@.len() == 0
        &&& self.bend_twist_constraints@.len() == 0
        &&& self.dihedral_bending_constraints@.len() == 0
        &&& self.unilateral_constraints@.len() == 0
        &&& self.canopy_panels@.len() == 0
        &&& self.aero_readback@.len() == 0
        &&& self.torques@.len() == 0
        &&& self.forces@.len() == 0
        &&& self.events@.len() == 0
        &&& self.last_h.bits == 0
        &&& self.coloring is None
        &&& self.control_bar is None
    }

    /// Adds a segment to the simulation, with no torque on it, and returns its
    /// index.
    pub fn add_segment(&mut self, quat: Quat, inv_inertia: Vec3) -> (r: usize)
        requires
            old(self).wf(),
        ensures
            final(self).wf(),
            r == old(self).orientations.count(),
            final(self).orientations.extended(old(self).orientations, quat, inv_inertia),
            final(self).torques@ == old(self).torques@.push(Vec3::spec_zero()),
            final(self).particles == old(self).particles,
            final(self).forces == old(self).forces,
            final(self).same_constraints(*old(self)),
            final(self).same_surroundings(*old(self)),
    {
        self.torques.push(Vec3::zero());
        self.orientations.add_segment(quat, inv_inertia)
    }

    /// Adds a particle to the simulation, with no force on it, and returns its
    /// index. `recip` is the reciprocal of the mass; a mass of zero or less
    /// pins the particle.
    pub fn add_particle(&mut self, pos: Vec3, mass: Scalar, recip: Scalar) -> (r: usize)
        requires
            old(self).wf(),
        ensures
            final(self).wf(),
            r == old(self).particles.count(),
            final(self).particles.extended(
                old(self).particles,
                pos,
                stored_inv_mass(mass, recip),
            ),
            final(self).forces@ == old(self).forces@.push(Vec3::spec_zero()),
            final(self).orientations == old(self).orientations,
            final(self).torques == old(self).torques,
            final(self).same_constraints(*old(self)),
            final(self).same_surroundings(*old(self)),
    {
        self.forces.push(Vec3::zero());
        self.particles.add_particle(pos, mass, recip)
    }

    /// Starts the prediction of a substep: every particle's and segment's
    /// current state becomes its state at the beginning of the substep.
    pub fn begin_prediction(&mut self)
        requires
            old(self).wf(),
        ensures
            final(self).wf(),
            final(self).particles.prev_pos@ == old(self).particles.pos@,
            final(self).particles.pos == old(self).particles.pos,
            final(self).particles.pred_pos == old(self).particles.pred_pos,
            final(self).particles.vel == old(self).particles.vel,
            final(self).particles.inv_mass == old(self).particles.inv_mass,
            final(self).orientations.prev_quat@ == old(self).orientations.quat@,
            final(self).orientations.quat == old(self).orientations.quat,
            final(self).orientations.omega == old(self).orientations.omega,
            final(self).orientations.inv_inertia == old(self).orientations.inv_inertia,
            final(self).forces == old(self).forces,
            final(self).torques == old(self).torques,
            final(self).same_constraints(*old(self)),
            final(self).same_surroundings(*old(self)),
    {
        self.particles.prev_pos = self.particles.pos.clone();
        self.orientations.prev_quat = self.orientations.quat.clone();
    }

    /// Commits the solved positions: every predicted position becomes current.
    pub fn commit_positions(&mut self)
        requires
            old(self).wf(),
        ensures
            final(self).wf(),
            final(self)@ == acted(old(self)@, Act::Commit),
            final(self).particles.pos@ == old(self).particles.pred_pos@,
            final(self).particles.prev_pos == old(self).particles.prev_pos,
            final(self).particles.pred_pos == old(self).particles.pred_pos,
            final(self).particles.vel == old(self).particles.vel,
            final(self).particles.inv_mass == old(self).particles.inv_mass,
            final(self).orientations == old(self).orientations,
            final(self).forces == old(self).forces,
            final(self).torques == old(self).torques,
            final(self).same_constraints(*old(self)),
            final(self).same_surroundings(*old(self)),
    {
        self.particles.pos = self.particles.pred_pos.clone();
    }

    /// Whether some particle's position has gone non-finite.
    pub fn has_diverged(&self) -> (r: bool)
        ensures
            r <==> exists|i: int|
                0 <= i < self.particles.pos@.len() && !(#[trigger] self.particles.pos@[i]).finite(),
    {
        let mut i: usize = 0;
        while i < self.particles.pos.len()
            invariant
                i <= self.particles.pos@.len(),
                forall|k: int| 0 <= k < i ==> (#[trigger] self.particles.pos@[k]).finite(),
            decreases self.particles.pos@.len() - i,
        {
            if !self.particles.pos[i].is_finite() {
                return true;
            }
            i += 1;
        }
        false
    }
}

impl Default for World {
    fn default() -> (r: Self)
        ensures
            r.wf(),
            r.is_empty_world(),
            r.cfg.is_standard(false),
    {
        World::new()
    }
}

pub open spec fn distances_within(cs: Seq<DistanceConstraint>, np: nat) -> bool {
    forall|i: int| 0 <= i < cs.len() ==> (#[trigger] cs[i]).p1 < np && cs[i].p2 < np
}

pub open spec fn bendings_within(cs: Seq<BendingConstraint>, np: nat) -> bool {
    forall|i: int|
        0 <= i < cs.len() ==> (#[trigger] cs[i]).p1 < np && cs[i].p2 < np && cs[i].p3 < np
}

pub open spec fn stretch_shears_within(cs: Seq<StretchShearConstraint>, np: nat, nq: nat) -> bool {
    forall|i: int|
        0 <= i < cs.len() ==> (#[trigger] cs[i]).p1 < np && cs[i].p2 < np && cs[i].q_index < nq
}

pub open spec fn bend_twists_within(cs: Seq<BendTwistConstraint>, nq: nat) -> bool {
    forall|i: int| 0 <= i < cs.len() ==> (#[trigger] cs[i]).q1_index < nq && cs[i].q2_index < nq
}

pub open spec fn dihedrals_within(cs: Seq<DihedralBendingConstraint>, np: nat) -> bool {
    forall|i: int|
        0 <= i < cs.len() ==> (#[trigger] cs[i]).p1 < np && cs[i].p2 < np && cs[i].p3 < np
            && cs[i].p4 < np
}

pub open spec fn unilaterals_within(cs: Seq<UnilateralDistanceConstraint>, np: nat) -> bool {
    forall|i: int| 0 <= i < cs.len() ==> (#[trigger] cs[i]).p1 < np && cs[i].p2 < np
}

pub open spec fn panels_within(ps: Seq<CanopyPanel>, np: nat) -> bool {
    forall|i: int|
        0 <= i < ps.len() ==> (#[trigger] ps[i]).p1 < np && ps[i].p2 < np && ps[i].p3 < np
}

} // verus!
