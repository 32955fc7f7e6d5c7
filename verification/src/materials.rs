//! Materials and cross-sections of rods.
use crate::scalar::{Scalar, Vec3};
use vstd::prelude::*;

verus! {

/// Physical material properties.
#[derive(Clone, Copy, Debug, PartialEq, Eq, Structural)]
pub struct Material {
    /// Young's modulus in pascals.
    pub youngs_modulus: Scalar,
    /// Shear modulus in pascals.
    pub shear_modulus: Scalar,
    /// Density in kilograms per cubic meter.
    pub density: Scalar,
    /// Tensile or yield strength in pascals.
    pub tensile_strength: Scalar,
}

impl Material {
    /// Ballpark values of a pultruded carbon fiber rod: 100 GPa, 4.5 GPa,
    /// 1550 kg/m^3, 900 MPa.
    pub fn carbon_fiber() -> (r: Self)
        ensures
            r.youngs_modulus.bits == 0x4237_4876_E800_0000,
            r.shear_modulus.bits == 0x41F0_C388_D000_0000,
            r.density.bits == 0x4098_3800_0000_0000,
            r.tensile_strength.bits == 0x41CA_D274_8000_0000,
    {
        Material {
            youngs_modulus: Scalar::new(0x4237_4876_E800_0000),
            shear_modulus: Scalar::new(0x41F0_C388_D000_0000),
            density: Scalar::new(0x4098_3800_0000_0000),
            tensile_strength: Scalar::new(0x41CA_D274_8000_0000),
        }
    }

    /// Ballpark values of a fiberglass rod: 40 GPa, 4 GPa, 1950 kg/m^3,
    /// 800 MPa.
    pub fn fiberglass() -> (r: Self)
        ensures
            r.youngs_modulus.bits == 0x4222_A05F_2000_0000,
            r.shear_modulus.bits == 0x41ED_CD65_0000_0000,
            r.density.bits == 0x409E_7800_0000_0000,
            r.tensile_strength.bits == 0x41C7_D784_0000_0000,
    {
        Material {
            youngs_modulus: Scalar::new(0x4222_A05F_2000_0000),
            shear_modulus: Scalar::new(0x41ED_CD65_0000_0000),
            density: Scalar::new(0x409E_7800_0000_0000),
            tensile_strength: Scalar::new(0x41C7_D784_0000_0000),
        }
    }
}

/// Cross-section of a rod segment.
#[derive(Clone, Copy, Debug, PartialEq, Eq, Structural)]
pub enum SectionGeometry {
    /// Solid round rod with a given radius.
    SolidRound { radius: Scalar },
    /// Hollow tube with outer radius and wall thickness.
    Tube { radius: Scalar, thickness: Scalar },
}

impl SectionGeometry {
    /// The outer radius.
    pub fn outer_radius(&self) -> (r: Scalar)
        ensures
            r == match *self {
                SectionGeometry::SolidRound { radius } => radius,
                SectionGeometry::Tube { radius, .. } => radius,
            },
    {
        match *self {
            SectionGeometry::SolidRound { radius } => radius,
            SectionGeometry::Tube { radius, .. } => radius,
        }
    }
}

/// The inverse of a principal moment: `recip` is its reciprocal, and a moment
/// of zero or less has an inverse of zero, which pins the rotation about its
/// axis.
pub open spec fn inverse_moment(moment: Scalar, recip: Scalar) -> Scalar {
    if moment.positive() {
        recip
    } else {
        Scalar { bits: 0 }
    }
}

fn invert(moment: Scalar, recip: Scalar) -> (r: Scalar)
    ensures
        r == inverse_moment(moment, recip),
{
    if moment.is_positive() {
        recip
    } else {
        Scalar::zero()
    }
}

/// The diagonal inverse inertia of a segment from its principal moments and
/// their reciprocals.
pub fn compute_inv_inertia(moments: Vec3, recips: Vec3) -> (r: Vec3)
    ensures
        r.x == inverse_moment(moments.x, recips.x),
        r.y == inverse_moment(moments.y, recips.y),
        r.z == inverse_moment(moments.z, recips.z),
{
    Vec3 {
        x: invert(moments.x, recips.x),
        y: invert(moments.y, recips.y),
        z: invert(moments.z, recips.z),
    }
}

} // verus!
