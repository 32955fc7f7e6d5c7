//! What counts towards the energy of a world.
use crate::constraints::{BendTwistConstraint, ConstraintState, UnilateralDistanceConstraint};
use crate::energy::{
    axis_terms, every_term, joint_terms, particle_terms, spin_terms, taut_terms, terms, EnergyTerm,
};
use crate::kernels::Component;
use crate::scalar::{Scalar, Vec3};
use crate::world::World;
use vstd::prelude::*;

verus! {

/// The term counts: a free particle; an axis about which a segment can turn;
/// every distance, bending, stretch-shear and dihedral constraint; a joint that
/// is not broken; and a line that is longer than its rest length.
pub open spec fn counts(world: World, lengths: Seq<Scalar>, x: EnergyTerm) -> bool {
    match x {
        EnergyTerm::Particle(i) => i < world.particles.inv_mass@.len() && (Scalar {
            bits: 0,
        }).less(world.particles.inv_mass@[i as int]),
        EnergyTerm::Spin(i, axis) => i < world.orientations.inv_inertia@.len() && {
            let inv = world.orientations.inv_inertia@[i as int];
            (Scalar { bits: 0 }).less(
                match axis {
                    Component::X => inv.x,
                    Component::Y => inv.y,
                    Component::Z => inv.z,
                },
            )
        },
        EnergyTerm::Distance(i) => i < world.distance_constraints@.len(),
        EnergyTerm::Bending(i) => i < world.bending_constraints@.len(),
        EnergyTerm::StretchShear(i) => i < world.stretch_shear_constraints@.len(),
        EnergyTerm::BendTwist(i) => i < world.bend_twist_constraints@.len()
            && world.bend_twist_constraints@[i as int].state != ConstraintState::Broken,
        EnergyTerm::Dihedral(i) => i < world.dihedral_bending_constraints@.len(),
        EnergyTerm::Unilateral(i) => i < lengths.len()
            && world.unilateral_constraints@[i as int].rest_length.less(lengths[i as int]),
    }
}

proof fn in_sum<T>(a: Seq<T>, b: Seq<T>, x: T)
    ensures
        (a + b).contains(x) <==> a.contains(x) || b.contains(x),
{
    let s = a + b;
    if s.contains(x) {
        let k = choose|k: int| 0 <= k < s.len() && s[k] == x;
        if k < a.len() {
            assert(a[k] == x);
        } else {
            assert(b[k - a.len()] == x);
        }
    }
    if a.contains(x) {
        let k = choose|k: int| 0 <= k < a.len() && a[k] == x;
        assert(s[k] == x);
    }
    if b.contains(x) {
        let k = choose|k: int| 0 <= k < b.len() && b[k] == x;
        assert(s[a.len() + k] == x);
    }
}

proof fn in_push<T>(a: Seq<T>, y: T, x: T)
    ensures
        a.push(y).contains(x) <==> a.contains(x) || x == y,
{
    assert(a.push(y) =~= a + seq![y]);
    in_sum(a, seq![y], x);
    assert(seq![y][0] == y);
    if seq![y].contains(x) {
    }
}

proof fn particles_count(inv_mass: Seq<Scalar>, n: nat, x: EnergyTerm)
    requires
        n <= inv_mass.len() <= usize::MAX,
    ensures
        particle_terms(inv_mass, n).contains(x) <==> x is Particle && x->Particle_0 < n && (Scalar {
            bits: 0,
        }).less(inv_mass[x->Particle_0 as int]),
    decreases n,
{
    if n > 0 {
        particles_count(inv_mass, (n - 1) as nat, x);
        in_push(
            particle_terms(inv_mass, (n - 1) as nat),
            EnergyTerm::Particle((n - 1) as usize),
            x,
        );
    }
}

proof fn axes_count(i: usize, inv: Vec3, x: EnergyTerm)
    ensures
        axis_terms(i, inv).contains(x) <==> x is Spin && x->Spin_0 == i && (Scalar { bits: 0 }).less(
            match x->Spin_1 {
                Component::X => inv.x,
                Component::Y => inv.y,
                Component::Z => inv.z,
            },
        ),
{
    let a = if inv.x.positive() {
        seq![EnergyTerm::Spin(i, Component::X)]
    } else {
        Seq::empty()
    };
    let b = if inv.y.positive() {
        seq![EnergyTerm::Spin(i, Component::Y)]
    } else {
        Seq::empty()
    };
    let c = if inv.z.positive() {
        seq![EnergyTerm::Spin(i, Component::Z)]
    } else {
        Seq::empty()
    };
    assert(axis_terms(i, inv) =~= a + b + c);
    in_sum(a + b, c, x);
    in_sum(a, b, x);
    if a.len() > 0 {
        assert(a[0] == EnergyTerm::Spin(i, Component::X));
    }
    if b.len() > 0 {
        assert(b[0] == EnergyTerm::Spin(i, Component::Y));
    }
    if c.len() > 0 {
        assert(c[0] == EnergyTerm::Spin(i, Component::Z));
    }
}

proof fn spins_count(inv: Seq<Vec3>, n: nat, x: EnergyTerm)
    requires
        n <= inv.len() <= usize::MAX,
    ensures
        spin_terms(inv, n).contains(x) <==> x is Spin && x->Spin_0 < n && (Scalar { bits: 0 }).less(
            match x->Spin_1 {
                Component::X => inv[x->Spin_0 as int].x,
                Component::Y => inv[x->Spin_0 as int].y,
                Component::Z => inv[x->Spin_0 as int].z,
            },
        ),
    decreases n,
{
    if n > 0 {
        spins_count(inv, (n - 1) as nat, x);
        axes_count((n - 1) as usize, inv[n - 1], x);
        in_sum(spin_terms(inv, (n - 1) as nat), axis_terms((n - 1) as usize, inv[n - 1]), x);
    }
}

proof fn joints_count(joints: Seq<BendTwistConstraint>, n: nat, x: EnergyTerm)
    requires
        n <= joints.len() <= usize::MAX,
    ensures
        joint_terms(joints, n).contains(x) <==> x is BendTwist && x->BendTwist_0 < n
            && joints[x->BendTwist_0 as int].state != ConstraintState::Broken,
    decreases n,
{
    if n > 0 {
        joints_count(joints, (n - 1) as nat, x);
        in_push(
            joint_terms(joints, (n - 1) as nat),
            EnergyTerm::BendTwist((n - 1) as usize),
            x,
        );
    }
}

proof fn taut_count(
    lines: Seq<UnilateralDistanceConstraint>,
    lengths: Seq<Scalar>,
    n: nat,
    x: EnergyTerm,
)
    requires
        n <= lengths.len() <= usize::MAX,
    ensures
        taut_terms(lines, lengths, n).contains(x) <==> x is Unilateral && x->Unilateral_0 < n
            && lines[x->Unilateral_0 as int].rest_length.less(lengths[x->Unilateral_0 as int]),
    decreases n,
{
    if n > 0 {
        taut_count(lines, lengths, (n - 1) as nat, x);
        in_push(
            taut_terms(lines, lengths, (n - 1) as nat),
            EnergyTerm::Unilateral((n - 1) as usize),
            x,
        );
    }
}

proof fn every_counts(n: nat, x: EnergyTerm)
    requires
        n <= usize::MAX,
    ensures
        every_term(|i: usize| EnergyTerm::Distance(i), n).contains(x) <==> x is Distance
            && x->Distance_0 < n,
        every_term(|i: usize| EnergyTerm::Bending(i), n).contains(x) <==> x is Bending
            && x->Bending_0 < n,
        every_term(|i: usize| EnergyTerm::StretchShear(i), n).contains(x) <==> x is StretchShear
            && x->StretchShear_0 < n,
        every_term(|i: usize| EnergyTerm::Dihedral(i), n).contains(x) <==> x is Dihedral
            && x->Dihedral_0 < n,
{
    let d = every_term(|i: usize| EnergyTerm::Distance(i), n);
    let b = every_term(|i: usize| EnergyTerm::Bending(i), n);
    let s = every_term(|i: usize| EnergyTerm::StretchShear(i), n);
    let h = every_term(|i: usize| EnergyTerm::Dihedral(i), n);
    match x {
        EnergyTerm::Distance(i) => if i < n {
            assert(d[i as int] == x);
        },
        EnergyTerm::Bending(i) => if i < n {
            assert(b[i as int] == x);
        },
        EnergyTerm::StretchShear(i) => if i < n {
            assert(s[i as int] == x);
        },
        EnergyTerm::Dihedral(i) => if i < n {
            assert(h[i as int] == x);
        },
        _ => {},
    }
}

/// The energy has a term for all that counts, and for nothing else.
pub proof fn energy_counts_what_can_hold_it(world: World, lengths: Seq<Scalar>, x: EnergyTerm)
    requires
        lengths.len() == world.unilateral_constraints@.len(),
    ensures
        terms(world, lengths).contains(x) <==> counts(world, lengths, x),
{
    let p = particle_terms(world.particles.inv_mass@, world.particles.inv_mass@.len());
    let s = spin_terms(world.orientations.inv_inertia@, world.orientations.inv_inertia@.len());
    let d = every_term(|i: usize| EnergyTerm::Distance(i), world.distance_constraints@.len());
    let b = every_term(|i: usize| EnergyTerm::Bending(i), world.bending_constraints@.len());
    let r = every_term(
        |i: usize| EnergyTerm::StretchShear(i),
        world.stretch_shear_constraints@.len(),
    );
    let j = joint_terms(world.bend_twist_constraints@, world.bend_twist_constraints@.len());
    let h = every_term(
        |i: usize| EnergyTerm::Dihedral(i),
        world.dihedral_bending_constraints@.len(),
    );
    let l = taut_terms(world.unilateral_constraints@, lengths, lengths.len());
    assert(world.particles.inv_mass.len() <= usize::MAX);
    assert(world.orientations.inv_inertia.len() <= usize::MAX);
    assert(world.distance_constraints.len() <= usize::MAX);
    assert(world.bending_constraints.len() <= usize::MAX);
    assert(world.stretch_shear_constraints.len() <= usize::MAX);
    assert(world.bend_twist_constraints.len() <= usize::MAX);
    assert(world.dihedral_bending_constraints.len() <= usize::MAX);
    assert(world.unilateral_constraints.len() <= usize::MAX);
    assert(terms(world, lengths) == p + s + d + b + r + j + h + l);
    in_sum(p + s + d + b + r + j + h, l, x);
    in_sum(p + s + d + b + r + j, h, x);
    in_sum(p + s + d + b + r, j, x);
    in_sum(p + s + d + b, r, x);
    in_sum(p + s + d, b, x);
    in_sum(p + s, d, x);
    in_sum(p, s, x);
    particles_count(world.particles.inv_mass@, world.particles.inv_mass@.len(), x);
    spins_count(world.orientations.inv_inertia@, world.orientations.inv_inertia@.len(), x);
    every_counts(world.distance_constraints@.len(), x);
    every_counts(world.bending_constraints@.len(), x);
    every_counts(world.stretch_shear_constraints@.len(), x);
    every_counts(world.dihedral_bending_constraints@.len(), x);
    joints_count(world.bend_twist_constraints@, world.bend_twist_constraints@.len(), x);
    taut_count(world.unilateral_constraints@, lengths, lengths.len(), x);
}

/// The particles are counted in their order, each once; so are joints and lines.
pub proof fn terms_ascend(
    inv_mass: Seq<Scalar>,
    joints: Seq<BendTwistConstraint>,
    lines: Seq<UnilateralDistanceConstraint>,
    lengths: Seq<Scalar>,
    n: nat,
    i: int,
    j: int,
)
    requires
        n <= inv_mass.len() <= usize::MAX,
        n <= joints.len() <= usize::MAX,
        n <= lengths.len() <= usize::MAX,
        0 <= i < j,
    ensures
        j < particle_terms(inv_mass, n).len() ==> particle_terms(inv_mass, n)[i]->Particle_0
            < particle_terms(inv_mass, n)[j]->Particle_0,
        j < joint_terms(joints, n).len() ==> joint_terms(joints, n)[i]->BendTwist_0 < joint_terms(
            joints,
            n,
        )[j]->BendTwist_0,
        j < taut_terms(lines, lengths, n).len() ==> taut_terms(lines, lengths, n)[i]->Unilateral_0
            < taut_terms(lines, lengths, n)[j]->Unilateral_0,
    decreases n,
{
    if n > 0 {
        let m = (n - 1) as nat;
        terms_ascend(inv_mass, joints, lines, lengths, m, i, j);
        let p = particle_terms(inv_mass, m);
        let q = joint_terms(joints, m);
        let r = taut_terms(lines, lengths, m);
        if i < p.len() {
            assert(p.contains(p[i]));
            particles_count(inv_mass, m, p[i]);
        }
        if i < q.len() {
            assert(q.contains(q[i]));
            joints_count(joints, m, q[i]);
        }
        if i < r.len() {
            assert(r.contains(r[i]));
            taut_count(lines, lengths, m, r[i]);
        }
    }
}

} // verus!
