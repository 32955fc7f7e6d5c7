//! Struct-of-arrays storage of particles.
use crate::scalar::{Scalar, Vec3};
use vstd::prelude::*;

verus! {

/// Struct-of-arrays representation of particles.
#[derive(Debug)]
pub struct ParticleSet {
    /// Current position of each particle.
    pub pos: Vec<Vec3>,
    /// Position of each particle at the beginning of the current substep.
    pub prev_pos: Vec<Vec3>,
    /// Predicted position of each particle during constraint solving.
    pub pred_pos: Vec<Vec3>,
    /// Velocity of each particle.
    pub vel: Vec<Vec3>,
    /// Inverse mass of each particle. Pinned particles have inverse mass zero.
    pub inv_mass: Vec<Scalar>,
}

/// The inverse mass stored for a particle: zero, which pins it, for a mass of
/// zero or less, and the reciprocal of the mass otherwise.
pub open spec fn stored_inv_mass(mass: Scalar, recip: Scalar) -> Scalar {
    if mass.at_most(Scalar { bits: 0 }) {
        Scalar { bits: 0 }
    } else {
        recip
    }
}

impl ParticleSet {
    /// All arrays have one entry per particle.
    pub open spec fn wf(self) -> bool {
        &&& self.prev_pos@.len() == self.pos@.len()
        &&& self.pred_pos@.len() == self.pos@.len()
        &&& self.vel@.len() == self.pos@.len()
        &&& self.inv_mass@.len() == self.pos@.len()
    }

    pub open spec fn count(self) -> nat {
        self.pos@.len()
    }

    /// `self` with one more particle at rest at `pos`.
    pub open spec fn extended(self, before: ParticleSet, pos: Vec3, inv_mass: Scalar) -> bool {
        &&& self.pos@ == before.pos@.push(pos)
        &&& self.prev_pos@ == before.prev_pos@.push(pos)
        &&& self.pred_pos@ == before.pred_pos@.push(pos)
        &&& self.vel@ == before.vel@.push(Vec3::spec_zero())
        &&& self.inv_mass@ == before.inv_mass@.push(inv_mass)
    }

    /// Creates a new, empty set.
    pub fn new() -> (r: Self)
        ensures
            r.wf(),
            r.count() == 0,
    {
        ParticleSet {
            pos: Vec::new(),
            prev_pos: Vec::new(),
            pred_pos: Vec::new(),
            vel: Vec::new(),
            inv_mass: Vec::new(),
        }
    }

    /// Adds a particle at rest with a given position and mass, and returns
    /// its index. `recip` is the reciprocal of the mass; a mass of zero or
    /// less pins the particle.
    pub fn add_particle(&mut self, pos: Vec3, mass: Scalar, recip: Scalar) -> (r: usize)
        requires
            old(self).wf(),
        ensures
            final(self).wf(),
            r == old(self).count(),
            final(self).extended(*old(self), pos, stored_inv_mass(mass, recip)),
    {
        let inv_mass: Scalar = if mass.le(Scalar::zero()) {
            Scalar::zero()
        } else {
            recip
        };
        self.pos.push(pos);
        self.prev_pos.push(pos);
        self.pred_pos.push(pos);
        self.vel.push(Vec3::zero());
        self.inv_mass.push(inv_mass);
        self.pos.len() - 1
    }

    /// The number of particles in the set.
    pub fn len(&self) -> (r: usize)
        ensures
            r == self.count(),
    {
        self.pos.len()
    }

    /// Whether the set has no particles.
    pub fn is_empty(&self) -> (r: bool)
        ensures
            r == (self.count() == 0),
    {
        self.pos.len() == 0
    }

    /// Removes all particles.
    pub fn clear(&mut self)
        ensures
            final(self).wf(),
            final(self).count() == 0,
    {
        self.pos.clear();
        self.prev_pos.clear();
        self.pred_pos.clear();
        self.vel.clear();
        self.inv_mass.clear();
    }

    /// Gives a particle that is not pinned a new inverse mass; a pinned one
    /// stays pinned.
    pub fn reweigh(&mut self, idx: usize, inv_mass: Scalar)
        requires
            old(self).wf(),
            idx < old(self).count(),
        ensures
            final(self).wf(),
            final(self).pos == old(self).pos,
            final(self).prev_pos == old(self).prev_pos,
            final(self).pred_pos == old(self).pred_pos,
            final(self).vel == old(self).vel,
            final(self).inv_mass@ == if old(self).inv_mass@[idx as int].at_most(
                Scalar { bits: 0 },
            ) {
                old(self).inv_mass@
            } else {
                old(self).inv_mass@.update(idx as int, inv_mass)
            },
    {
        if self.inv_mass[idx].le(Scalar::zero()) {
            return;
        }
        self.inv_mass.set(idx, inv_mass);
    }

    /// Pins a particle: its inverse mass and its velocity become zero.
    pub fn pin(&mut self, idx: usize)
        requires
            old(self).wf(),
            idx < old(self).count(),
        ensures
            final(self).wf(),
            final(self).pos == old(self).pos,
            final(self).prev_pos == old(self).prev_pos,
            final(self).pred_pos == old(self).pred_pos,
            final(self).vel@ == old(self).vel@.update(idx as int, Vec3::spec_zero()),
            final(self).inv_mass@ == old(self).inv_mass@.update(idx as int, Scalar { bits: 0 }),
    {
        self.inv_mass.set(idx, Scalar::zero());
        self.vel.set(idx, Vec3::zero());
    }

    /// Puts a particle at a place, with a velocity, as if it had always been
    /// there.
    pub fn place(&mut self, idx: usize, pos: Vec3, vel: Vec3)
        requires
            old(self).wf(),
            idx < old(self).count(),
        ensures
            final(self).wf(),
            final(self).pos@ == old(self).pos@.update(idx as int, pos),
            final(self).prev_pos@ == old(self).prev_pos@.update(idx as int, pos),
            final(self).pred_pos@ == old(self).pred_pos@.update(idx as int, pos),
            final(self).vel@ == old(self).vel@.update(idx as int, vel),
            final(self).inv_mass == old(self).inv_mass,
    {
        self.pos.set(idx, pos);
        self.prev_pos.set(idx, pos);
        self.pred_pos.set(idx, pos);
        self.vel.set(idx, vel);
    }
}

impl Clone for ParticleSet {
    fn clone(&self) -> (r: Self)
        ensures
            r.pos@ == self.pos@,
            r.prev_pos@ == self.prev_pos@,
            r.pred_pos@ == self.pred_pos@,
            r.vel@ == self.vel@,
            r.inv_mass@ == self.inv_mass@,
    {
        ParticleSet {
            pos: self.pos.clone(),
            prev_pos: self.prev_pos.clone(),
            pred_pos: self.pred_pos.clone(),
            vel: self.vel.clone(),
            inv_mass: self.inv_mass.clone(),
        }
    }
}

impl Default for ParticleSet {
    fn default() -> (r: Self)
        ensures
            r.wf(),
            r.count() == 0,
    {
        ParticleSet::new()
    }
}

} // verus!
