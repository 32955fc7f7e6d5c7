//! Struct-of-arrays storage of segment orientations.
use crate::scalar::{Quat, Vec3};
use vstd::prelude::*;

verus! {

/// Struct-of-arrays representation of segment orientations.
#[derive(Debug)]
pub struct OrientationSet {
    /// Current orientation quaternion of each segment.
    pub quat: Vec<Quat>,
    /// Orientation of each segment at the beginning of the current substep.
    pub prev_quat: Vec<Quat>,
    /// Angular velocity of each segment in the local material frame.
    pub omega: Vec<Vec3>,
    /// Diagonal inverse inertia tensor of each segment in the local frame.
    pub inv_inertia: Vec<Vec3>,
}

impl OrientationSet {
    /// All arrays have one entry per segment.
    pub open spec fn wf(self) -> bool {
        &&& self.prev_quat@.len() == self.quat@.len()
        &&& self.omega@.len() == self.quat@.len()
        &&& self.inv_inertia@.len() == self.quat@.len()
    }

    pub open spec fn count(self) -> nat {
        self.quat@.len()
    }

    /// `self` with one more segment at rest.
    pub open spec fn extended(self, before: OrientationSet, quat: Quat, inv_inertia: Vec3) -> bool {
        &&& self.quat@ == before.quat@.push(quat)
        &&& self.prev_quat@ == before.prev_quat@.push(quat)
        &&& self.omega@ == before.omega@.push(Vec3::spec_zero())
        &&& self.inv_inertia@ == before.inv_inertia@.push(inv_inertia)
    }

    /// Creates a new, empty set.
    pub fn new() -> (r: Self)
        ensures
            r.wf(),
            r.count() == 0,
    {
        OrientationSet {
            quat: Vec::new(),
            prev_quat: Vec::new(),
            omega: Vec::new(),
            inv_inertia: Vec::new(),
        }
    }

    /// Adds a segment orientation at rest, and returns its index.
    pub fn add_segment(&mut self, quat: Quat, inv_inertia: Vec3) -> (r: usize)
        requires
            old(self).wf(),
        ensures
            final(self).wf(),
            r == old(self).count(),
            final(self).extended(*old(self), quat, inv_inertia),
    {
        self.quat.push(quat);
        self.prev_quat.push(quat);
        self.omega.push(Vec3::zero());
        self.inv_inertia.push(inv_inertia);
        self.quat.len() - 1
    }

    /// The number of segment orientations.
    pub fn len(&self) -> (r: usize)
        ensures
            r == self.count(),
    {
        self.quat.len()
    }

    /// Whether the set is empty.
    pub fn is_empty(&self) -> (r: bool)
        ensures
            r == (self.count() == 0),
    {
        self.quat.len() == 0
    }

    /// Removes all segments.
    pub fn clear(&mut self)
        ensures
            final(self).wf(),
            final(self).count() == 0,
    {
        self.quat.clear();
        self.prev_quat.clear();
        self.omega.clear();
        self.inv_inertia.clear();
    }
}

impl Clone for OrientationSet {
    fn clone(&self) -> (r: Self)
        ensures
            r.quat@ == self.quat@,
            r.prev_quat@ == self.prev_quat@,
            r.omega@ == self.omega@,
            r.inv_inertia@ == self.inv_inertia@,
    {
        OrientationSet {
            quat: self.quat.clone(),
            prev_quat: self.prev_quat.clone(),
            omega: self.omega.clone(),
            inv_inertia: self.inv_inertia.clone(),
        }
    }
}

impl Default for OrientationSet {
    fn default() -> (r: Self)
        ensures
            r.wf(),
            r.count() == 0,
    {
        OrientationSet::new()
    }
}

} // verus!
