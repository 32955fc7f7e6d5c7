//! The constraints the solver projects.
use crate::scalar::{Scalar, Vec3};
use vstd::prelude::*;

verus! {

/// State of a physical constraint, representing failure modes.
#[derive(Clone, Copy, Debug, PartialEq, Eq, Structural)]
pub enum ConstraintState {
    /// Fully functioning elastic/rigid behavior.
    Active,
    /// Folded behavior (specific to underinflated leading edge bladders).
    Folded,
    /// Completely severed or snapped constraint.
    Broken,
}

/// A position-based compliant distance constraint between two particles.
#[derive(Clone, Copy, Debug)]
pub struct DistanceConstraint {
    /// Index of the first particle.
    pub p1: usize,
    /// Index of the second particle.
    pub p2: usize,
    /// Rest length of the connection.
    pub rest_length: Scalar,
    /// Constraint compliance (inverse stiffness).
    pub compliance: Scalar,
    /// Accumulated Lagrange multiplier for this substep.
    pub lambda: Scalar,
}

impl DistanceConstraint {
    /// Creates a new constraint with a multiplier of zero.
    pub fn new(p1: usize, p2: usize, rest_length: Scalar, compliance: Scalar) -> (r: Self)
        ensures
            r == (DistanceConstraint {
                p1,
                p2,
                rest_length,
                compliance,
                lambda: Scalar { bits: 0 },
            }),
    {
        DistanceConstraint { p1, p2, rest_length, compliance, lambda: Scalar::zero() }
    }
}

/// A position-based compliant linear bending constraint between three particles.
#[derive(Clone, Copy, Debug)]
pub struct BendingConstraint {
    /// Index of the first particle.
    pub p1: usize,
    /// Index of the middle particle.
    pub p2: usize,
    /// Index of the third particle.
    pub p3: usize,
    /// Rest bending vector value (precomputed from rest positions).
    pub rest_value: Vec3,
    /// Bending compliance (inverse stiffness).
    pub compliance: Scalar,
    /// Accumulated vector Lagrange multiplier for this substep.
    pub lambda: Vec3,
}

impl BendingConstraint {
    /// Creates a new constraint with a given rest curvature vector.
    pub fn new(p1: usize, p2: usize, p3: usize, rest_value: Vec3, compliance: Scalar) -> (r: Self)
        ensures
            r == (BendingConstraint {
                p1,
                p2,
                p3,
                rest_value,
                compliance,
                lambda: Vec3::spec_zero(),
            }),
    {
        BendingConstraint { p1, p2, p3, rest_value, compliance, lambda: Vec3::zero() }
    }
}

/// A position-based compliant stretch and shear constraint for a Cosserat rod
/// segment. Couples two particles (endpoints) and one segment orientation.
#[derive(Clone, Copy, Debug)]
pub struct StretchShearConstraint {
    /// Index of the first particle.
    pub p1: usize,
    /// Index of the second particle.
    pub p2: usize,
    /// Index of the segment orientation.
    pub q_index: usize,
    /// Segment rest length.
    pub rest_length: Scalar,
    /// Compliance along the local frame: (shear_x, shear_y, stretch_z).
    pub compliance: Vec3,
    /// Accumulated Lagrange multipliers for this substep.
    pub lambda: Vec3,
    /// Segment diameter (for drag calculations).
    pub diameter: Scalar,
}

impl StretchShearConstraint {
    /// Creates a new constraint with multipliers of zero.
    pub fn new(
        p1: usize,
        p2: usize,
        q_index: usize,
        rest_length: Scalar,
        compliance: Vec3,
        diameter: Scalar,
    ) -> (r: Self)
        ensures
            r == (StretchShearConstraint {
                p1,
                p2,
                q_index,
                rest_length,
                compliance,
                lambda: Vec3::spec_zero(),
                diameter,
            }),
    {
        StretchShearConstraint {
            p1,
            p2,
            q_index,
            rest_length,
            compliance,
            lambda: Vec3::zero(),
            diameter,
        }
    }
}

/// How a joint's state and construction change its bending compliance.
#[derive(Clone, Copy, Debug, PartialEq, Eq, Structural)]
pub struct BendCompliance {
    /// The bending compliance is divided by the pressure stiffness factor.
    pub pressurised: bool,
    /// The bending compliance is multiplied by the soft-hinge factor.
    pub softened: bool,
}

/// A position-based compliant bending and twisting constraint between two
/// segments. Couples two segment orientations.
#[derive(Clone, Copy, Debug)]
pub struct BendTwistConstraint {
    /// Index of the first segment orientation.
    pub q1_index: usize,
    /// Index of the second segment orientation.
    pub q2_index: usize,
    /// Rest Darboux vector value.
    pub rest_value: Vec3,
    /// Compliance along the local frame: (bend_x, bend_y, twist_z).
    pub compliance: Vec3,
    /// Accumulated Lagrange multipliers for this substep.
    pub lambda: Vec3,
    /// Maximum generalized bending/torsional impulse before yield occurs.
    pub yield_threshold: Scalar,
    /// True if this represents an inflatable leading edge (LE) tube.
    pub is_inflatable: bool,
    /// Current structural state of the joint.
    pub state: ConstraintState,
}

impl BendTwistConstraint {
    /// Creates a new active joint with multipliers of zero.
    pub fn new(
        q1_index: usize,
        q2_index: usize,
        rest_value: Vec3,
        compliance: Vec3,
        yield_threshold: Scalar,
        is_inflatable: bool,
    ) -> (r: Self)
        ensures
            r == (BendTwistConstraint {
                q1_index,
                q2_index,
                rest_value,
                compliance,
                lambda: Vec3::spec_zero(),
                yield_threshold,
                is_inflatable,
                state: ConstraintState::Active,
            }),
    {
        BendTwistConstraint {
            q1_index,
            q2_index,
            rest_value,
            compliance,
            lambda: Vec3::zero(),
            yield_threshold,
            is_inflatable,
            state: ConstraintState::Active,
        }
    }

    /// How the joint's bending compliance is formed: a broken joint has none
    /// and takes no part in the solve or in the energy, an inflatable one is
    /// stiffened by its pressure, and a folded one is softened.
    pub open spec fn compliance_rule(self) -> Option<BendCompliance> {
        if self.state == ConstraintState::Broken {
            None
        } else {
            Some(
                BendCompliance {
                    pressurised: self.is_inflatable,
                    softened: self.state == ConstraintState::Folded,
                },
            )
        }
    }

    pub fn bend_compliance(&self) -> (r: Option<BendCompliance>)
        ensures
            r == self.compliance_rule(),
    {
        if self.state == ConstraintState::Broken {
            None
        } else {
            Some(
                BendCompliance {
                    pressurised: self.is_inflatable,
                    softened: self.state == ConstraintState::Folded,
                },
            )
        }
    }
}

/// A position-based compliant dihedral angle bending constraint between two
/// triangles sharing an edge. Couples four particles.
#[derive(Clone, Copy, Debug)]
pub struct DihedralBendingConstraint {
    /// Index of the first edge particle.
    pub p1: usize,
    /// Index of the second edge particle.
    pub p2: usize,
    /// Index of the first triangle's opposite particle.
    pub p3: usize,
    /// Index of the second triangle's opposite particle.
    pub p4: usize,
    /// The target rest dihedral angle (in radians).
    pub rest_angle: Scalar,
    /// Bending compliance.
    pub compliance: Scalar,
    /// Accumulated Lagrange multiplier for this substep.
    pub lambda: Scalar,
}

impl DihedralBendingConstraint {
    /// Creates a new constraint with a multiplier of zero.
    pub fn new(
        p1: usize,
        p2: usize,
        p3: usize,
        p4: usize,
        rest_angle: Scalar,
        compliance: Scalar,
    ) -> (r: Self)
        ensures
            r == (DihedralBendingConstraint {
                p1,
                p2,
                p3,
                p4,
                rest_angle,
                compliance,
                lambda: Scalar { bits: 0 },
            }),
    {
        DihedralBendingConstraint {
            p1,
            p2,
            p3,
            p4,
            rest_angle,
            compliance,
            lambda: Scalar::zero(),
        }
    }
}

/// A position-based compliant unilateral (tension-only) distance constraint
/// between two particles. Used for bridle lines that go slack when compressed.
#[derive(Clone, Copy, Debug)]
pub struct UnilateralDistanceConstraint {
    /// Index of the first particle.
    pub p1: usize,
    /// Index of the second particle.
    pub p2: usize,
    /// The maximum length of the line (at rest/taut).
    pub rest_length: Scalar,
    /// Line compliance.
    pub compliance: Scalar,
    /// Accumulated Lagrange multiplier for this substep (never positive).
    pub lambda: Scalar,
    /// Line diameter (for drag calculations).
    pub diameter: Scalar,
}

impl UnilateralDistanceConstraint {
    /// Creates a new constraint with a multiplier of zero.
    pub fn new(
        p1: usize,
        p2: usize,
        rest_length: Scalar,
        compliance: Scalar,
        diameter: Scalar,
    ) -> (r: Self)
        ensures
            r == (UnilateralDistanceConstraint {
                p1,
                p2,
                rest_length,
                compliance,
                lambda: Scalar { bits: 0 },
                diameter,
            }),
    {
        UnilateralDistanceConstraint {
            p1,
            p2,
            rest_length,
            compliance,
            lambda: Scalar::zero(),
            diameter,
        }
    }
}

} // verus!
