//! Which parts of a world hold energy.
//!
//! The amounts are computed outside, term by term in the order given here.
use crate::constraints::{BendTwistConstraint, ConstraintState, UnilateralDistanceConstraint};
use crate::kernels::Component;
use crate::scalar::{Scalar, Vec3};
use crate::world::World;
use vstd::prelude::*;

verus! {

/// Something that holds energy.
#[derive(Clone, Copy, Debug, PartialEq, Eq, Structural)]
pub enum EnergyTerm {
    /// The motion and the height of a particle.
    Particle(usize),
    /// The spin of a segment about one of its axes.
    Spin(usize, Component),
    Distance(usize),
    Bending(usize),
    StretchShear(usize),
    BendTwist(usize),
    Dihedral(usize),
    Unilateral(usize),
}

/// The free particles among the first `n`.
pub open spec fn particle_terms(inv_mass: Seq<Scalar>, n: nat) -> Seq<EnergyTerm>
    decreases n,
{
    if n == 0 {
        Seq::empty()
    } else {
        let before = particle_terms(inv_mass, (n - 1) as nat);
        if inv_mass[n - 1].positive() {
            before.push(EnergyTerm::Particle((n - 1) as usize))
        } else {
            before
        }
    }
}

/// The axes about which a segment can turn.
pub open spec fn axis_terms(i: usize, inv: Vec3) -> Seq<EnergyTerm> {
    (if inv.x.positive() {
        seq![EnergyTerm::Spin(i, Component::X)]
    } else {
        Seq::empty()
    }) + (if inv.y.positive() {
        seq![EnergyTerm::Spin(i, Component::Y)]
    } else {
        Seq::empty()
    }) + (if inv.z.positive() {
        seq![EnergyTerm::Spin(i, Component::Z)]
    } else {
        Seq::empty()
    })
}

/// The axes of the first `n` segments.
pub open spec fn spin_terms(inv_inertia: Seq<Vec3>, n: nat) -> Seq<EnergyTerm>
    decreases n,
{
    if n == 0 {
        Seq::empty()
    } else {
        spin_terms(inv_inertia, (n - 1) as nat) + axis_terms(
            (n - 1) as usize,
            inv_inertia[n - 1],
        )
    }
}

/// The first `n` of a list whose every member holds energy.
pub open spec fn every_term(term: spec_fn(usize) -> EnergyTerm, n: nat) -> Seq<EnergyTerm> {
    Seq::new(n, |i: int| term(i as usize))
}

/// The joints among the first `n` that are not broken.
pub open spec fn joint_terms(joints: Seq<BendTwistConstraint>, n: nat) -> Seq<EnergyTerm>
    decreases n,
{
    if n == 0 {
        Seq::empty()
    } else {
        let before = joint_terms(joints, (n - 1) as nat);
        if joints[n - 1].state == ConstraintState::Broken {
            before
        } else {
            before.push(EnergyTerm::BendTwist((n - 1) as usize))
        }
    }
}

/// The lines among the first `n` that are longer than at rest.
pub open spec fn taut_terms(
    lines: Seq<UnilateralDistanceConstraint>,
    lengths: Seq<Scalar>,
    n: nat,
) -> Seq<EnergyTerm>
    decreases n,
{
    if n == 0 {
        Seq::empty()
    } else {
        let before = taut_terms(lines, lengths, (n - 1) as nat);
        if lines[n - 1].rest_length.less(lengths[n - 1]) {
            before.push(EnergyTerm::Unilateral((n - 1) as usize))
        } else {
            before
        }
    }
}

/// All that holds energy: free particles, segments about the axes they turn
/// on, and constraints, of which a broken joint and a slack line hold none.
/// `lengths` are those of the lines.
pub open spec fn terms(world: World, lengths: Seq<Scalar>) -> Seq<EnergyTerm> {
    particle_terms(world.particles.inv_mass@, world.particles.inv_mass@.len()) + spin_terms(
        world.orientations.inv_inertia@,
        world.orientations.inv_inertia@.len(),
    ) + every_term(|i: usize| EnergyTerm::Distance(i), world.distance_constraints@.len())
        + every_term(|i: usize| EnergyTerm::Bending(i), world.bending_constraints@.len())
        + every_term(
        |i: usize| EnergyTerm::StretchShear(i),
        world.stretch_shear_constraints@.len(),
    ) + joint_terms(world.bend_twist_constraints@, world.bend_twist_constraints@.len())
        + every_term(
        |i: usize| EnergyTerm::Dihedral(i),
        world.dihedral_bending_constraints@.len(),
    ) + taut_terms(world.unilateral_constraints@, lengths, lengths.len())
}

fn push_spin(out: &mut Vec<EnergyTerm>, i: usize, inv: Vec3)
    ensures
        final(out)@ == old(out)@ + axis_terms(i, inv),
{
    if inv.x.is_positive() {
        out.push(EnergyTerm::Spin(i, Component::X));
    }
    if inv.y.is_positive() {
        out.push(EnergyTerm::Spin(i, Component::Y));
    }
    if inv.z.is_positive() {
        out.push(EnergyTerm::Spin(i, Component::Z));
    }
    assert(out@ =~= old(out)@ + axis_terms(i, inv));
}

fn push_particles(out: &mut Vec<EnergyTerm>, inv_mass: &Vec<Scalar>)
    ensures
        final(out)@ == old(out)@ + particle_terms(inv_mass@, inv_mass@.len()),
{
    let ghost before = out@;
    let mut i: usize = 0;
    assert(before + particle_terms(inv_mass@, 0) =~= before);
    while i < inv_mass.len()
        invariant
            i <= inv_mass@.len(),
            out@ == before + particle_terms(inv_mass@, i as nat),
        decreases inv_mass@.len() - i,
    {
        if inv_mass[i].is_positive() {
            out.push(EnergyTerm::Particle(i));
        }
        assert(out@ =~= before + particle_terms(inv_mass@, (i + 1) as nat));
        i += 1;
    }
}

fn push_spins(out: &mut Vec<EnergyTerm>, inv_inertia: &Vec<Vec3>)
    ensures
        final(out)@ == old(out)@ + spin_terms(inv_inertia@, inv_inertia@.len()),
{
    let ghost before = out@;
    let mut i: usize = 0;
    assert(before + spin_terms(inv_inertia@, 0) =~= before);
    while i < inv_inertia.len()
        invariant
            i <= inv_inertia@.len(),
            out@ == before + spin_terms(inv_inertia@, i as nat),
        decreases inv_inertia@.len() - i,
    {
        push_spin(out, i, inv_inertia[i]);
        assert(out@ =~= before + spin_terms(inv_inertia@, (i + 1) as nat));
        i += 1;
    }
}

fn push_joints(out: &mut Vec<EnergyTerm>, joints: &Vec<BendTwistConstraint>)
    ensures
        final(out)@ == old(out)@ + joint_terms(joints@, joints@.len()),
{
    let ghost before = out@;
    let mut i: usize = 0;
    assert(before + joint_terms(joints@, 0) =~= before);
    while i < joints.len()
        invariant
            i <= joints@.len(),
            out@ == before + joint_terms(joints@, i as nat),
        decreases joints@.len() - i,
    {
        if joints[i].state != ConstraintState::Broken {
            out.push(EnergyTerm::BendTwist(i));
        }
        assert(out@ =~= before + joint_terms(joints@, (i + 1) as nat));
        i += 1;
    }
}

fn push_taut(
    out: &mut Vec<EnergyTerm>,
    lines: &Vec<UnilateralDistanceConstraint>,
    lengths: &Vec<Scalar>,
)
    requires
        lines@.len() == lengths@.len(),
    ensures
        final(out)@ == old(out)@ + taut_terms(lines@, lengths@, lengths@.len()),
{
    let ghost before = out@;
    let mut i: usize = 0;
    assert(before + taut_terms(lines@, lengths@, 0) =~= before);
    while i < lengths.len()
        invariant
            i <= lengths@.len(),
            lines@.len() == lengths@.len(),
            out@ == before + taut_terms(lines@, lengths@, i as nat),
        decreases lengths@.len() - i,
    {
        if lines[i].rest_length.lt(lengths[i]) {
            out.push(EnergyTerm::Unilateral(i));
        }
        assert(out@ =~= before + taut_terms(lines@, lengths@, (i + 1) as nat));
        i += 1;
    }
}

fn push_distances(out: &mut Vec<EnergyTerm>, n: usize)
    ensures
        final(out)@ == old(out)@ + every_term(|i: usize| EnergyTerm::Distance(i), n as nat),
{
    let ghost before = out@;
    let mut i: usize = 0;
    while i < n
        invariant
            i <= n,
            out@ =~= before + every_term(|i: usize| EnergyTerm::Distance(i), i as nat),
        decreases n - i,
    {
        out.push(EnergyTerm::Distance(i));
        i += 1;
    }
}

fn push_bendings(out: &mut Vec<EnergyTerm>, n: usize)
    ensures
        final(out)@ == old(out)@ + every_term(|i: usize| EnergyTerm::Bending(i), n as nat),
{
    let ghost before = out@;
    let mut i: usize = 0;
    while i < n
        invariant
            i <= n,
            out@ =~= before + every_term(|i: usize| EnergyTerm::Bending(i), i as nat),
        decreases n - i,
    {
        out.push(EnergyTerm::Bending(i));
        i += 1;
    }
}

fn push_stretch_shears(out: &mut Vec<EnergyTerm>, n: usize)
    ensures
        final(out)@ == old(out)@ + every_term(|i: usize| EnergyTerm::StretchShear(i), n as nat),
{
    let ghost before = out@;
    let mut i: usize = 0;
    while i < n
        invariant
            i <= n,
            out@ =~= before + every_term(|i: usize| EnergyTerm::StretchShear(i), i as nat),
        decreases n - i,
    {
        out.push(EnergyTerm::StretchShear(i));
        i += 1;
    }
}

fn push_dihedrals(out: &mut Vec<EnergyTerm>, n: usize)
    ensures
        final(out)@ == old(out)@ + every_term(|i: usize| EnergyTerm::Dihedral(i), n as nat),
{
    let ghost before = out@;
    let mut i: usize = 0;
    while i < n
        invariant
            i <= n,
            out@ =~= before + every_term(|i: usize| EnergyTerm::Dihedral(i), i as nat),
        decreases n - i,
    {
        out.push(EnergyTerm::Dihedral(i));
        i += 1;
    }
}

/// All that holds energy in a world, in the order in which it is summed.
pub fn energy_terms(world: &World, lengths: &Vec<Scalar>) -> (r: Vec<EnergyTerm>)
    requires
        lengths@.len() == world.unilateral_constraints@.len(),
    ensures
        r@ == terms(*world, lengths@),
{
    let mut out: Vec<EnergyTerm> = Vec::new();
    push_particles(&mut out, &world.particles.inv_mass);
    assert(out@ =~= particle_terms(
        world.particles.inv_mass@,
        world.particles.inv_mass@.len(),
    ));
    push_spins(&mut out, &world.orientations.inv_inertia);
    push_distances(&mut out, world.distance_constraints.len());
    push_bendings(&mut out, world.bending_constraints.len());
    push_stretch_shears(&mut out, world.stretch_shear_constraints.len());
    push_joints(&mut out, &world.bend_twist_constraints);
    push_dihedrals(&mut out, world.dihedral_bending_constraints.len());
    push_taut(&mut out, &world.unilateral_constraints, lengths);
    out
}

} // verus!
