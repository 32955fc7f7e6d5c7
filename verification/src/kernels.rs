//! How one constraint, one force or one update acts on the world.
//!
//! The numbers are computed outside, from the world as it is; which of them
//! take effect is decided here. A solve is given by what it found (the sums and
//! lengths that tell whether it is degenerate) and by what it leads to (the new
//! multiplier and the new places of the particles that it moves, each place
//! computed after the ones before it).
use crate::collision::{contact_is_active, pushing_lambda, ContactConstraint};
use crate::constraints::{
    BendTwistConstraint, BendingConstraint, ConstraintState, DihedralBendingConstraint,
    DistanceConstraint, StretchShearConstraint, UnilateralDistanceConstraint,
};
use crate::orientation::OrientationSet;
use crate::particles::ParticleSet;
use crate::scalar::{Quat, Scalar, Vec3};
use crate::state::{acted, Act, WorldState};
use crate::world::{CanopyPanel, PanelAero, World};
use vstd::prelude::*;

verus! {

/// Below this a length or a denominator counts as zero: a trillionth.
pub const TINY_BITS: u64 = 0x3D71_9799_812D_EA11;

/// A sum of inverse masses that nothing can move: zero or less.
pub open spec fn immovable(w: Scalar) -> bool {
    w.at_most(Scalar { bits: 0 })
}

pub open spec fn tiny(x: Scalar) -> bool {
    x.less(Scalar { bits: TINY_BITS })
}

fn is_immovable(w: Scalar) -> (r: bool)
    ensures
        r == immovable(w),
{
    w.le(Scalar::zero())
}

fn is_tiny(x: Scalar) -> (r: bool)
    ensures
        r == tiny(x),
{
    x.lt(Scalar::new(TINY_BITS))
}

/// The places after a particle is moved: a pinned one stays.
pub open spec fn shifted(
    inv_mass: Seq<Scalar>,
    places: Seq<Vec3>,
    i: usize,
    to: Vec3,
) -> Seq<Vec3> {
    if inv_mass[i as int].positive() {
        places.update(i as int, to)
    } else {
        places
    }
}

/// Moving a particle leaves every other particle, and every pinned one, in its
/// place.
pub proof fn shift_moves_one_free_particle(
    inv_mass: Seq<Scalar>,
    places: Seq<Vec3>,
    i: usize,
    to: Vec3,
)
    requires
        i < places.len(),
    ensures
        shifted(inv_mass, places, i, to).len() == places.len(),
        forall|k: int|
            0 <= k < places.len() && (k != i || !inv_mass[k].positive())
                ==> #[trigger] shifted(inv_mass, places, i, to)[k] == places[k],
{
}

fn shift(particles: &mut ParticleSet, i: usize, to: Vec3)
    requires
        old(particles).wf(),
        i < old(particles).count(),
    ensures
        final(particles).wf(),
        final(particles).pred_pos@ == shifted(
            old(particles).inv_mass@,
            old(particles).pred_pos@,
            i,
            to,
        ),
        *final(particles) == (ParticleSet {
            pred_pos: final(particles).pred_pos,
            ..*old(particles)
        }),
{
    if particles.inv_mass[i].is_positive() {
        particles.pred_pos.set(i, to);
    }
}

/// Only the predicted places differ.
pub open spec fn only_predictions_differ(after: ParticleSet, before: ParticleSet) -> bool {
    after == (ParticleSet { pred_pos: after.pred_pos, ..before })
}

/// Only the orientations differ, not the rest of the segments' state.
pub open spec fn only_quats_differ(after: OrientationSet, before: OrientationSet) -> bool {
    after == (OrientationSet { quat: after.quat, ..before })
}

/// A solve of a distance constraint.
#[derive(Clone, Copy, Debug)]
pub struct DistanceSolve {
    /// The sum of the two inverse masses.
    pub w_sum: Scalar,
    pub dist: Scalar,
    pub denom: Scalar,
    pub lambda: Scalar,
    pub pos1: Vec3,
    pub pos2: Vec3,
}

impl DistanceSolve {
    /// The solve has no effect: nothing can move, or it has no direction.
    pub open spec fn idle(self) -> bool {
        immovable(self.w_sum) || tiny(self.dist) || tiny(self.denom)
    }
}

/// Settles a distance constraint.
pub fn settle_distance(world: &mut World, k: usize, s: &DistanceSolve)
    requires
        old(world).wf(),
        k < old(world).distance_constraints@.len(),
    ensures
        final(world).wf(),
        final(world)@ == acted(old(world)@, Act::Distance { k, s: *s }),
        only_predictions_differ(final(world).particles, old(world).particles),
        ({
            let c = old(world).distance_constraints@[k as int];
            let w = old(world).particles.inv_mass@;
            let was = old(world).particles.pred_pos@;
            &&& final(world).particles.pred_pos@ == if s.idle() {
                was
            } else {
                shifted(w, shifted(w, was, c.p1, s.pos1), c.p2, s.pos2)
            }
            &&& final(world).distance_constraints@ == if s.idle() {
                old(world).distance_constraints@
            } else {
                old(world).distance_constraints@.update(
                    k as int,
                    DistanceConstraint { lambda: s.lambda, ..c },
                )
            }
        }),
        *final(world) == (World {
            particles: final(world).particles,
            distance_constraints: final(world).distance_constraints,
            ..*old(world)
        }),
{
    if is_immovable(s.w_sum) || is_tiny(s.dist) || is_tiny(s.denom) {
        return;
    }
    let mut c: DistanceConstraint = world.distance_constraints[k];
    c.lambda = s.lambda;
    world.distance_constraints.set(k, c);
    shift(&mut world.particles, c.p1, s.pos1);
    shift(&mut world.particles, c.p2, s.pos2);
}

/// A solve of a bending constraint.
#[derive(Clone, Copy, Debug)]
pub struct BendingSolve {
    /// The weighted sum of the three inverse masses.
    pub w_sum: Scalar,
    pub denom: Scalar,
    pub lambda: Vec3,
    pub pos1: Vec3,
    pub pos2: Vec3,
    pub pos3: Vec3,
}

impl BendingSolve {
    pub open spec fn idle(self) -> bool {
        immovable(self.w_sum) || tiny(self.denom)
    }
}

/// Settles a bending constraint.
pub fn settle_bending(world: &mut World, k: usize, s: &BendingSolve)
    requires
        old(world).wf(),
        k < old(world).bending_constraints@.len(),
    ensures
        final(world).wf(),
        final(world)@ == acted(old(world)@, Act::Bending { k, s: *s }),
        only_predictions_differ(final(world).particles, old(world).particles),
        ({
            let c = old(world).bending_constraints@[k as int];
            let w = old(world).particles.inv_mass@;
            let was = old(world).particles.pred_pos@;
            &&& final(world).particles.pred_pos@ == if s.idle() {
                was
            } else {
                shifted(
                    w,
                    shifted(w, shifted(w, was, c.p1, s.pos1), c.p2, s.pos2),
                    c.p3,
                    s.pos3,
                )
            }
            &&& final(world).bending_constraints@ == if s.idle() {
                old(world).bending_constraints@
            } else {
                old(world).bending_constraints@.update(
                    k as int,
                    BendingConstraint { lambda: s.lambda, ..c },
                )
            }
        }),
        *final(world) == (World {
            particles: final(world).particles,
            bending_constraints: final(world).bending_constraints,
            ..*old(world)
        }),
{
    if is_immovable(s.w_sum) || is_tiny(s.denom) {
        return;
    }
    let mut c: BendingConstraint = world.bending_constraints[k];
    c.lambda = s.lambda;
    world.bending_constraints.set(k, c);
    shift(&mut world.particles, c.p1, s.pos1);
    shift(&mut world.particles, c.p2, s.pos2);
    shift(&mut world.particles, c.p3, s.pos3);
}

/// One component of a local vector.
#[derive(Clone, Copy, Debug, PartialEq, Eq, Structural)]
pub enum Component {
    X,
    Y,
    Z,
}

/// The vector with one component replaced.
pub open spec fn with_component(v: Vec3, k: Component, x: Scalar) -> Vec3 {
    match k {
        Component::X => Vec3 { x, ..v },
        Component::Y => Vec3 { y: x, ..v },
        Component::Z => Vec3 { z: x, ..v },
    }
}

fn set_component(v: Vec3, k: Component, x: Scalar) -> (r: Vec3)
    ensures
        r == with_component(v, k, x),
{
    match k {
        Component::X => Vec3 { x, y: v.y, z: v.z },
        Component::Y => Vec3 { x: v.x, y: x, z: v.z },
        Component::Z => Vec3 { x: v.x, y: v.y, z: x },
    }
}

/// A solve of one component of a stretch-shear constraint.
#[derive(Clone, Copy, Debug)]
pub struct StretchShearSolve {
    /// The sum of the two inverse masses and of the squared inverse inertia.
    pub w_sum: Scalar,
    pub denom: Scalar,
    pub lambda: Scalar,
    pub pos1: Vec3,
    pub pos2: Vec3,
    pub quat: Quat,
}

impl StretchShearSolve {
    pub open spec fn idle(self) -> bool {
        immovable(self.w_sum) || tiny(self.denom)
    }
}

/// The places after a solve of a stretch-shear constraint.
pub open spec fn segment_moved(
    inv_mass: Seq<Scalar>,
    places: Seq<Vec3>,
    c: StretchShearConstraint,
    s: StretchShearSolve,
) -> Seq<Vec3> {
    if s.idle() {
        places
    } else {
        shifted(inv_mass, shifted(inv_mass, places, c.p1, s.pos1), c.p2, s.pos2)
    }
}

/// The orientations after it.
pub open spec fn segment_turned(
    quats: Seq<Quat>,
    c: StretchShearConstraint,
    s: StretchShearSolve,
) -> Seq<Quat> {
    if s.idle() {
        quats
    } else {
        quats.update(c.q_index as int, s.quat)
    }
}

/// The constraint after it.
pub open spec fn segment_loaded(
    c: StretchShearConstraint,
    component: Component,
    s: StretchShearSolve,
) -> StretchShearConstraint {
    if s.idle() {
        c
    } else {
        StretchShearConstraint { lambda: with_component(c.lambda, component, s.lambda), ..c }
    }
}

/// Settles one component of a stretch-shear constraint. A degenerate component
/// is left alone; the others are solved all the same.
pub fn settle_stretch_shear(
    world: &mut World,
    k: usize,
    component: Component,
    s: &StretchShearSolve,
)
    requires
        old(world).wf(),
        k < old(world).stretch_shear_constraints@.len(),
    ensures
        final(world).wf(),
        final(world)@ == acted(old(world)@, Act::StretchShear { k, component, s: *s }),
        only_predictions_differ(final(world).particles, old(world).particles),
        only_quats_differ(final(world).orientations, old(world).orientations),
        ({
            let c = old(world).stretch_shear_constraints@[k as int];
            &&& final(world).particles.pred_pos@ == segment_moved(
                old(world).particles.inv_mass@,
                old(world).particles.pred_pos@,
                c,
                *s,
            )
            &&& final(world).orientations.quat@ == segment_turned(
                old(world).orientations.quat@,
                c,
                *s,
            )
            &&& final(world).stretch_shear_constraints@
                == old(world).stretch_shear_constraints@.update(
                k as int,
                segment_loaded(c, component, *s),
            )
        }),
        *final(world) == (World {
            particles: final(world).particles,
            orientations: final(world).orientations,
            stretch_shear_constraints: final(world).stretch_shear_constraints,
            ..*old(world)
        }),
{
    if is_immovable(s.w_sum) || is_tiny(s.denom) {
        return;
    }
    let mut c: StretchShearConstraint = world.stretch_shear_constraints[k];
    c.lambda = set_component(c.lambda, component, s.lambda);
    world.stretch_shear_constraints.set(k, c);
    shift(&mut world.particles, c.p1, s.pos1);
    shift(&mut world.particles, c.p2, s.pos2);
    world.orientations.quat.set(c.q_index, s.quat);
}

/// A solve of one component of a bend-twist constraint.
#[derive(Clone, Copy, Debug)]
pub struct BendTwistSolve {
    /// The sum of the two squared inverse inertias.
    pub w_sum: Scalar,
    pub denom: Scalar,
    pub lambda: Scalar,
    pub quat1: Quat,
    pub quat2: Quat,
}

impl BendTwistSolve {
    /// A broken joint is not solved.
    pub open spec fn idle(self, c: BendTwistConstraint) -> bool {
        c.state == ConstraintState::Broken || immovable(self.w_sum) || tiny(self.denom)
    }
}

/// The orientations after a solve of a bend-twist constraint.
pub open spec fn joint_turned(
    quats: Seq<Quat>,
    c: BendTwistConstraint,
    s: BendTwistSolve,
) -> Seq<Quat> {
    if s.idle(c) {
        quats
    } else {
        quats.update(c.q1_index as int, s.quat1).update(c.q2_index as int, s.quat2)
    }
}

/// The constraint after it.
pub open spec fn joint_loaded(
    c: BendTwistConstraint,
    component: Component,
    s: BendTwistSolve,
) -> BendTwistConstraint {
    if s.idle(c) {
        c
    } else {
        BendTwistConstraint { lambda: with_component(c.lambda, component, s.lambda), ..c }
    }
}

/// Settles one component of a bend-twist constraint. A degenerate component is
/// left alone; the others are solved all the same.
pub fn settle_bend_twist(world: &mut World, k: usize, component: Component, s: &BendTwistSolve)
    requires
        old(world).wf(),
        k < old(world).bend_twist_constraints@.len(),
    ensures
        final(world).wf(),
        final(world)@ == acted(old(world)@, Act::BendTwist { k, component, s: *s }),
        only_quats_differ(final(world).orientations, old(world).orientations),
        ({
            let c = old(world).bend_twist_constraints@[k as int];
            &&& final(world).orientations.quat@ == joint_turned(
                old(world).orientations.quat@,
                c,
                *s,
            )
            &&& final(world).bend_twist_constraints@ == old(world).bend_twist_constraints@.update(
                k as int,
                joint_loaded(c, component, *s),
            )
        }),
        *final(world) == (World {
            orientations: final(world).orientations,
            bend_twist_constraints: final(world).bend_twist_constraints,
            ..*old(world)
        }),
{
    let mut c: BendTwistConstraint = world.bend_twist_constraints[k];
    if c.state == ConstraintState::Broken || is_immovable(s.w_sum) || is_tiny(s.denom) {
        return;
    }
    c.lambda = set_component(c.lambda, component, s.lambda);
    world.bend_twist_constraints.set(k, c);
    world.orientations.quat.set(c.q1_index, s.quat1);
    world.orientations.quat.set(c.q2_index, s.quat2);
}

/// A solve of a dihedral bending constraint.
#[derive(Clone, Copy, Debug)]
pub struct DihedralSolve {
    /// The sum of the four inverse masses.
    pub w_sum: Scalar,
    /// The length of the shared edge.
    pub edge: Scalar,
    /// The doubled areas of the two triangles.
    pub area1: Scalar,
    pub area2: Scalar,
    pub denom: Scalar,
    pub lambda: Scalar,
    pub pos1: Vec3,
    pub pos2: Vec3,
    pub pos3: Vec3,
    pub pos4: Vec3,
}

impl DihedralSolve {
    pub open spec fn idle(self) -> bool {
        immovable(self.w_sum) || tiny(self.edge) || tiny(self.area1) || tiny(self.area2) || tiny(
            self.denom,
        )
    }
}

/// Settles a dihedral bending constraint.
pub fn settle_dihedral(world: &mut World, k: usize, s: &DihedralSolve)
    requires
        old(world).wf(),
        k < old(world).dihedral_bending_constraints@.len(),
    ensures
        final(world).wf(),
        final(world)@ == acted(old(world)@, Act::Dihedral { k, s: *s }),
        only_predictions_differ(final(world).particles, old(world).particles),
        ({
            let c = old(world).dihedral_bending_constraints@[k as int];
            let w = old(world).particles.inv_mass@;
            let was = old(world).particles.pred_pos@;
            &&& final(world).particles.pred_pos@ == if s.idle() {
                was
            } else {
                shifted(
                    w,
                    shifted(
                        w,
                        shifted(w, shifted(w, was, c.p1, s.pos1), c.p2, s.pos2),
                        c.p3,
                        s.pos3,
                    ),
                    c.p4,
                    s.pos4,
                )
            }
            &&& final(world).dihedral_bending_constraints@ == if s.idle() {
                old(world).dihedral_bending_constraints@
            } else {
                old(world).dihedral_bending_constraints@.update(
                    k as int,
                    DihedralBendingConstraint { lambda: s.lambda, ..c },
                )
            }
        }),
        *final(world) == (World {
            particles: final(world).particles,
            dihedral_bending_constraints: final(world).dihedral_bending_constraints,
            ..*old(world)
        }),
{
    if is_immovable(s.w_sum) || is_tiny(s.edge) || is_tiny(s.area1) || is_tiny(s.area2) || is_tiny(
        s.denom,
    ) {
        return;
    }
    let mut c: DihedralBendingConstraint = world.dihedral_bending_constraints[k];
    c.lambda = s.lambda;
    world.dihedral_bending_constraints.set(k, c);
    shift(&mut world.particles, c.p1, s.pos1);
    shift(&mut world.particles, c.p2, s.pos2);
    shift(&mut world.particles, c.p3, s.pos3);
    shift(&mut world.particles, c.p4, s.pos4);
}

/// A solve of a unilateral distance constraint.
#[derive(Clone, Copy, Debug)]
pub struct UnilateralSolve {
    /// The sum of the two inverse masses.
    pub w_sum: Scalar,
    pub dist: Scalar,
    /// How much longer than at rest the line is.
    pub excess: Scalar,
    pub denom: Scalar,
    /// The multiplier, capped at zero: a line never pushes.
    pub lambda: Scalar,
    pub pos1: Vec3,
    pub pos2: Vec3,
}

/// The multiplier that a line may have: none that pushes.
pub open spec fn pulling(lambda: Scalar) -> Scalar {
    if lambda.nan() || (Scalar { bits: 0 }).less(lambda) {
        Scalar { bits: 0 }
    } else {
        lambda
    }
}

/// Caps a multiplier at zero.
pub fn pulling_lambda(sum: Scalar) -> (r: Scalar)
    ensures
        r == pulling(sum),
        r.at_most(Scalar { bits: 0 }),
{
    if sum.is_nan() || Scalar::zero().lt(sum) {
        Scalar::zero()
    } else {
        sum
    }
}

impl UnilateralSolve {
    /// A slack line that carries no tension is not solved, nor is a degenerate
    /// one.
    pub open spec fn idle(self, c: UnilateralDistanceConstraint) -> bool {
        let zero = Scalar { bits: 0 };
        immovable(self.w_sum) || (self.excess.at_most(zero) && zero.at_most(c.lambda)) || tiny(
            self.dist,
        ) || tiny(self.denom)
    }
}

/// Settles a unilateral distance constraint.
pub fn settle_unilateral(world: &mut World, k: usize, s: &UnilateralSolve)
    requires
        old(world).wf(),
        k < old(world).unilateral_constraints@.len(),
    ensures
        final(world).wf(),
        final(world)@ == acted(old(world)@, Act::Unilateral { k, s: *s }),
        only_predictions_differ(final(world).particles, old(world).particles),
        ({
            let c = old(world).unilateral_constraints@[k as int];
            let w = old(world).particles.inv_mass@;
            let was = old(world).particles.pred_pos@;
            &&& final(world).particles.pred_pos@ == if s.idle(c) {
                was
            } else {
                shifted(w, shifted(w, was, c.p1, s.pos1), c.p2, s.pos2)
            }
            &&& final(world).unilateral_constraints@ == if s.idle(c) {
                old(world).unilateral_constraints@
            } else {
                old(world).unilateral_constraints@.update(
                    k as int,
                    UnilateralDistanceConstraint { lambda: pulling(s.lambda), ..c },
                )
            }
        }),
        *final(world) == (World {
            particles: final(world).particles,
            unilateral_constraints: final(world).unilateral_constraints,
            ..*old(world)
        }),
{
    let mut c: UnilateralDistanceConstraint = world.unilateral_constraints[k];
    if is_immovable(s.w_sum) || (s.excess.le(Scalar::zero()) && Scalar::zero().le(c.lambda))
        || is_tiny(s.dist) || is_tiny(s.denom) {
        return;
    }
    c.lambda = pulling_lambda(s.lambda);
    world.unilateral_constraints.set(k, c);
    shift(&mut world.particles, c.p1, s.pos1);
    shift(&mut world.particles, c.p2, s.pos2);
}

/// No line pushes.
pub open spec fn lines_pull(cs: Seq<UnilateralDistanceConstraint>) -> bool {
    forall|k: int| 0 <= k < cs.len() ==> (#[trigger] cs[k]).lambda.at_most(Scalar { bits: 0 })
}

/// Lines that all pull still do after one of them is settled.
pub proof fn settled_lines_pull(
    cs: Seq<UnilateralDistanceConstraint>,
    k: int,
    lambda: Scalar,
)
    requires
        0 <= k < cs.len(),
        lines_pull(cs),
    ensures
        lines_pull(
            cs.update(k, UnilateralDistanceConstraint { lambda: pulling(lambda), ..cs[k] }),
        ),
{
}

/// Gives a particle the velocity that a force leads to; a pinned one keeps its
/// own.
pub fn kick(world: &mut World, i: usize, vel: Vec3)
    requires
        old(world).wf(),
        i < old(world).particles.count(),
    ensures
        final(world).wf(),
        final(world)@ == acted(old(world)@, Act::Kick { i, vel }),
        final(world).particles.vel@ == shifted(
            old(world).particles.inv_mass@,
            old(world).particles.vel@,
            i,
            vel,
        ),
        final(world).particles == (ParticleSet {
            vel: final(world).particles.vel,
            ..old(world).particles
        }),
        *final(world) == (World { particles: final(world).particles, ..*old(world) }),
{
    if world.particles.inv_mass[i].is_positive() {
        world.particles.vel.set(i, vel);
    }
}

/// Whether a drag on a segment between two particles has any effect: not where
/// both are pinned, the segment is too short or the air flows along it.
pub fn drag_acts(world: &World, p1: usize, p2: usize, length: Scalar, cross_speed: Scalar) -> (r:
    bool)
    requires
        world.wf(),
        p1 < world.particles.count(),
        p2 < world.particles.count(),
    ensures
        r == (!(immovable(world.particles.inv_mass@[p1 as int]) && immovable(
            world.particles.inv_mass@[p2 as int],
        )) && !length.less(Scalar { bits: 0x3EB0_C6F7_A0B5_ED8D }) && !cross_speed.less(
            Scalar { bits: 0x3EB0_C6F7_A0B5_ED8D },
        )),
{
    let micro: Scalar = Scalar::new(0x3EB0_C6F7_A0B5_ED8D);
    !(is_immovable(world.particles.inv_mass[p1]) && is_immovable(world.particles.inv_mass[p2]))
        && !length.lt(micro) && !cross_speed.lt(micro)
}

/// The velocities at the end of a substep: a free particle's own, and none for
/// a pinned one.
pub open spec fn end_velocity(inv_mass: Scalar, vel: Vec3) -> Vec3 {
    if inv_mass.positive() {
        vel
    } else {
        Vec3::spec_zero()
    }
}

/// Ends a substep: free particles get the given velocities, pinned ones stop.
pub fn update_velocities(world: &mut World, vels: &Vec<Vec3>)
    requires
        old(world).wf(),
        vels@.len() == old(world).particles.count(),
    ensures
        final(world).wf(),
        final(world)@ == acted(old(world)@, Act::UpdateVelocities { vels: vels@ }),
        final(world).particles.vel@.len() == vels@.len(),
        forall|i: int|
            0 <= i < vels@.len() ==> #[trigger] final(world).particles.vel@[i] == end_velocity(
                old(world).particles.inv_mass@[i],
                vels@[i],
            ),
        final(world).particles == (ParticleSet {
            vel: final(world).particles.vel,
            ..old(world).particles
        }),
        *final(world) == (World { particles: final(world).particles, ..*old(world) }),
{
    let mut out: Vec<Vec3> = Vec::new();
    let mut i: usize = 0;
    while i < vels.len()
        invariant
            i <= vels@.len(),
            world.particles.inv_mass@.len() == vels@.len(),
            out@.len() == i,
            forall|k: int|
                0 <= k < i ==> #[trigger] out@[k] == end_velocity(
                    world.particles.inv_mass@[k],
                    vels@[k],
                ),
        decreases vels@.len() - i,
    {
        if world.particles.inv_mass[i].is_positive() {
            out.push(vels[i]);
        } else {
            out.push(Vec3::zero());
        }
        i += 1;
    }
    world.particles.vel = out;
}

/// Ends a substep for the segments: those that can turn get the given angular
/// velocities, the others stop. `inertia_sq` holds the squared inverse
/// inertias.
pub fn update_omegas(world: &mut World, omegas: &Vec<Vec3>, inertia_sq: &Vec<Scalar>)
    requires
        old(world).wf(),
        omegas@.len() == old(world).orientations.count(),
        inertia_sq@.len() == old(world).orientations.count(),
    ensures
        final(world).wf(),
        final(world)@ == acted(old(world)@, Act::UpdateOmegas { omegas: omegas@, inertia_sq: inertia_sq@ }),
        final(world).orientations.omega@.len() == omegas@.len(),
        forall|i: int|
            0 <= i < omegas@.len() ==> #[trigger] final(world).orientations.omega@[i]
                == end_velocity(inertia_sq@[i], omegas@[i]),
        final(world).orientations == (OrientationSet {
            omega: final(world).orientations.omega,
            ..old(world).orientations
        }),
        *final(world) == (World { orientations: final(world).orientations, ..*old(world) }),
{
    let mut out: Vec<Vec3> = Vec::new();
    let mut i: usize = 0;
    while i < omegas.len()
        invariant
            i <= omegas@.len(),
            inertia_sq@.len() == omegas@.len(),
            out@.len() == i,
            forall|k: int|
                0 <= k < i ==> #[trigger] out@[k] == end_velocity(inertia_sq@[k], omegas@[k]),
        decreases omegas@.len() - i,
    {
        if inertia_sq[i].is_positive() {
            out.push(omegas[i]);
        } else {
            out.push(Vec3::zero());
        }
        i += 1;
    }
    world.orientations.omega = out;
}

/// Gives a segment the angular velocity that a torque leads to; one that cannot
/// turn, or has no torque, keeps its own. `inertia_sq` is the squared inverse
/// inertia.
pub fn twist(world: &mut World, i: usize, inertia_sq: Scalar, omega: Vec3)
    requires
        old(world).wf(),
        i < old(world).orientations.count(),
    ensures
        final(world).wf(),
        final(world)@ == acted(old(world)@, Act::Twist { i, inertia_sq, omega }),
        final(world).orientations.omega@ == if inertia_sq.positive() && i
            < old(world).torques@.len() {
            old(world).orientations.omega@.update(i as int, omega)
        } else {
            old(world).orientations.omega@
        },
        final(world).orientations == (OrientationSet {
            omega: final(world).orientations.omega,
            ..old(world).orientations
        }),
        *final(world) == (World { orientations: final(world).orientations, ..*old(world) }),
{
    if inertia_sq.is_positive() && i < world.torques.len() {
        world.orientations.omega.set(i, omega);
    }
}

/// Puts the predictions of a substep in place: the state that was becomes the
/// one at the substep's beginning, and the given places and orientations the
/// predicted ones.
pub fn predict(world: &mut World, places: Vec<Vec3>, quats: Vec<Quat>)
    requires
        old(world).wf(),
        places@.len() == old(world).particles.count(),
        quats@.len() == old(world).orientations.count(),
    ensures
        final(world).wf(),
        final(world)@ == acted(old(world)@, Act::Predict { places: places@, quats: quats@ }),
        final(world).particles.prev_pos@ == old(world).particles.pos@,
        final(world).particles.pred_pos@ == places@,
        final(world).particles.pos == old(world).particles.pos,
        final(world).particles.vel == old(world).particles.vel,
        final(world).particles.inv_mass == old(world).particles.inv_mass,
        final(world).orientations.prev_quat@ == old(world).orientations.quat@,
        final(world).orientations.quat@ == quats@,
        final(world).orientations.omega == old(world).orientations.omega,
        final(world).orientations.inv_inertia == old(world).orientations.inv_inertia,
        final(world).forces == old(world).forces,
        final(world).torques == old(world).torques,
        final(world).same_constraints(*old(world)),
        final(world).same_surroundings(*old(world)),
{
    world.begin_prediction();
    world.particles.pred_pos = places;
    world.orientations.quat = quats;
}

/// Forgets the aerodynamic readback: one entry of zeros for each panel.
pub fn clear_readback(world: &mut World)
    requires
        old(world).wf(),
    ensures
        final(world).wf(),
        final(world)@ == acted(old(world)@, Act::ClearReadback),
        final(world).aero_readback@.len() == old(world).canopy_panels@.len(),
        forall|k: int|
            0 <= k < old(world).canopy_panels@.len() ==> #[trigger] final(world).aero_readback@[k]
                == (PanelAero {
                lift: Vec3::spec_zero(),
                drag: Vec3::spec_zero(),
                alpha: Scalar { bits: 0 },
            }),
        *final(world) == (World { aero_readback: final(world).aero_readback, ..*old(world) }),
{
    let n: usize = world.canopy_panels.len();
    let mut out: Vec<PanelAero> = Vec::new();
    let mut k: usize = 0;
    while k < n
        invariant
            k <= n,
            out@.len() == k,
            forall|j: int|
                0 <= j < k ==> #[trigger] out@[j] == (PanelAero {
                    lift: Vec3::spec_zero(),
                    drag: Vec3::spec_zero(),
                    alpha: Scalar { bits: 0 },
                }),
        decreases n - k,
    {
        out.push(PanelAero::default());
        k += 1;
    }
    world.aero_readback = out;
}

/// The solve of a contact: the signed distance from the contact zone, the
/// inverse mass that the push acts on, the multiplier and the new places of the
/// particle and of the triangle's corners.
#[derive(Clone, Copy, Debug)]
pub struct ContactSolve {
    pub value: Scalar,
    pub denom: Scalar,
    pub lambda: Scalar,
    pub pos_i: Vec3,
    pub pos_a: Vec3,
    pub pos_b: Vec3,
    pub pos_c: Vec3,
}

impl ContactSolve {
    /// A contact that is not penetrated and does not push is not solved, nor is
    /// one that nothing of can move.
    pub open spec fn idle(self, c: ContactConstraint) -> bool {
        let zero = Scalar { bits: 0 };
        (zero.at_most(self.value) && c.lambda.at_most(zero)) || tiny(self.denom)
    }
}

/// The places after a contact is solved.
pub open spec fn contact_moved(
    inv_mass: Seq<Scalar>,
    places: Seq<Vec3>,
    c: ContactConstraint,
    s: ContactSolve,
) -> Seq<Vec3> {
    let w = inv_mass;
    if s.idle(c) {
        places
    } else {
        shifted(
            w,
            shifted(w, shifted(w, shifted(w, places, c.p_i, s.pos_i), c.p_a, s.pos_a), c.p_b, s.pos_b),
            c.p_c,
            s.pos_c,
        )
    }
}

/// The contact after it is solved.
pub open spec fn contact_loaded(c: ContactConstraint, s: ContactSolve) -> ContactConstraint {
    if s.idle(c) {
        c
    } else {
        ContactConstraint { lambda: s.lambda.larger(Scalar { bits: 0 }), ..c }
    }
}

/// Settles a contact: it pushes the particle and the triangle apart, and never
/// pulls them together.
pub fn settle_contact(world: &mut World, contact: &mut ContactConstraint, s: &ContactSolve)
    requires
        old(world).wf(),
        old(contact).p_i < old(world).particles.count(),
        old(contact).p_a < old(world).particles.count(),
        old(contact).p_b < old(world).particles.count(),
        old(contact).p_c < old(world).particles.count(),
    ensures
        final(world).wf(),
        only_predictions_differ(final(world).particles, old(world).particles),
        final(world).particles.pred_pos@ == contact_moved(
            old(world).particles.inv_mass@,
            old(world).particles.pred_pos@,
            *old(contact),
            *s,
        ),
        *final(contact) == contact_loaded(*old(contact), *s),
        final(world)@ == (WorldState { pred_pos: final(world).particles.pred_pos@, ..old(world)@ }),
        *final(world) == (World { particles: final(world).particles, ..*old(world) }),
{
    if !contact_is_active(contact, s.value, s.denom) {
        return;
    }
    contact.lambda = pushing_lambda(s.lambda);
    shift(&mut world.particles, contact.p_i, s.pos_i);
    shift(&mut world.particles, contact.p_a, s.pos_a);
    shift(&mut world.particles, contact.p_b, s.pos_b);
    shift(&mut world.particles, contact.p_c, s.pos_c);
}

/// The load of a panel: its doubled area, what is read back of it, and the
/// velocities that its corners get.
#[derive(Clone, Copy, Debug)]
pub struct PanelLoad {
    pub double_area: Scalar,
    pub aero: PanelAero,
    pub vel1: Vec3,
    pub vel2: Vec3,
    pub vel3: Vec3,
}

/// Applies the load of a panel to its corners; one without an area has none.
pub fn load_panel(world: &mut World, k: usize, load: &PanelLoad)
    requires
        old(world).wf(),
        k < old(world).canopy_panels@.len(),
        k < old(world).aero_readback@.len(),
    ensures
        final(world).wf(),
        final(world)@ == acted(old(world)@, Act::LoadPanel { k, load: *load }),
        tiny(load.double_area) ==> *final(world) == *old(world),
        !tiny(load.double_area) ==> {
            let p = old(world).canopy_panels@[k as int];
            let w = old(world).particles.inv_mass@;
            let was = old(world).particles.vel@;
            &&& final(world).aero_readback@ == old(world).aero_readback@.update(
                k as int,
                load.aero,
            )
            &&& final(world).particles.vel@ == shifted(
                w,
                shifted(w, shifted(w, was, p.p1, load.vel1), p.p2, load.vel2),
                p.p3,
                load.vel3,
            )
        },
        final(world).particles == (ParticleSet {
            vel: final(world).particles.vel,
            ..old(world).particles
        }),
        *final(world) == (World {
            particles: final(world).particles,
            aero_readback: final(world).aero_readback,
            ..*old(world)
        }),
{
    if is_tiny(load.double_area) {
        return;
    }
    world.aero_readback.set(k, load.aero);
    let p: CanopyPanel = world.canopy_panels[k];
    kick(world, p.p1, load.vel1);
    kick(world, p.p2, load.vel2);
    kick(world, p.p3, load.vel3);
}

/// The unsteady correction of a panel: its doubled area, its mean velocity
/// before, and the corners' and the mean velocity after.
#[derive(Clone, Copy, Debug)]
pub struct PanelCorrection {
    pub double_area: Scalar,
    pub mean: Vec3,
    pub vel1: Vec3,
    pub vel2: Vec3,
    pub vel3: Vec3,
    pub mean_after: Vec3,
}

/// A panel is corrected where the correction is on, no corner is pinned and the
/// panel has an area.
pub open spec fn corrected(world: World, k: int, c: PanelCorrection) -> bool {
    let p = world.canopy_panels@[k];
    let w = world.particles.inv_mass@;
    world.cfg.added_mass_enabled && !immovable(w[p.p1 as int]) && !immovable(w[p.p2 as int])
        && !immovable(w[p.p3 as int]) && !tiny(c.double_area)
}

/// Applies the unsteady correction of a panel. The first time its mean velocity
/// is only noted; after that its corners are slowed.
pub fn correct_panel(world: &mut World, k: usize, c: &PanelCorrection)
    requires
        old(world).wf(),
        k < old(world).canopy_panels@.len(),
    ensures
        final(world).wf(),
        final(world)@ == acted(old(world)@, Act::CorrectPanel { k, c: *c }),
        ({
            let p = old(world).canopy_panels@[k as int];
            let was = old(world).particles.vel@;
            let panels = old(world).canopy_panels@;
            if !corrected(*old(world), k as int, *c) {
                *final(world) == *old(world)
            } else if p.prev_mean_vel is None {
                &&& final(world).canopy_panels@ == panels.update(
                    k as int,
                    CanopyPanel { prev_mean_vel: Some(c.mean), ..p },
                )
                &&& *final(world) == (World {
                    canopy_panels: final(world).canopy_panels,
                    ..*old(world)
                })
            } else {
                &&& final(world).canopy_panels@ == panels.update(
                    k as int,
                    CanopyPanel { prev_mean_vel: Some(c.mean_after), ..p },
                )
                &&& final(world).particles.vel@ == was.update(p.p1 as int, c.vel1).update(
                    p.p2 as int,
                    c.vel2,
                ).update(p.p3 as int, c.vel3)
                &&& final(world).particles == (ParticleSet {
                    vel: final(world).particles.vel,
                    ..old(world).particles
                })
                &&& *final(world) == (World {
                    particles: final(world).particles,
                    canopy_panels: final(world).canopy_panels,
                    ..*old(world)
                })
            }
        }),
{
    if !world.cfg.added_mass_enabled {
        return;
    }
    let mut p: CanopyPanel = world.canopy_panels[k];
    if is_immovable(world.particles.inv_mass[p.p1]) || is_immovable(
        world.particles.inv_mass[p.p2],
    ) || is_immovable(world.particles.inv_mass[p.p3]) || is_tiny(c.double_area) {
        return;
    }
    if p.prev_mean_vel.is_some() {
        p.prev_mean_vel = Some(c.mean_after);
        world.particles.vel.set(p.p1, c.vel1);
        world.particles.vel.set(p.p2, c.vel2);
        world.particles.vel.set(p.p3, c.vel3);
    } else {
        p.prev_mean_vel = Some(c.mean);
    }
    world.canopy_panels.set(k, p);
}

/// Ends a step: the clock shows the given time.
pub fn elapse(world: &mut World, time: Scalar)
    requires
        old(world).wf(),
    ensures
        final(world).wf(),
        final(world)@ == acted(old(world)@, Act::Elapse { time }),
        *final(world) == (World { time, ..*old(world) }),
{
    world.time = time;
}

} // verus!
