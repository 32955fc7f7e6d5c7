//! The wind field's configuration, and the decisions its evaluation makes.
use crate::scalar::{Scalar, Vec3};
use vstd::prelude::*;

verus! {

/// A discrete spatial 1-cosine gust event.
#[derive(Clone, Copy, Debug, PartialEq, Eq, Structural)]
pub struct GustEvent {
    /// Time when the gust front passes the origin (seconds).
    pub start_time: Scalar,
    /// Spatial width of the gust front (meters).
    pub length: Scalar,
    /// Peak amplitude increase of the gust (m/s).
    pub amplitude: Scalar,
    /// Direction the gust travels and blows.
    pub direction: Vec3,
    /// Propagation velocity of the gust front (m/s, usually mean wind speed).
    pub propagation_velocity: Scalar,
}

impl GustEvent {
    /// Creates a new gust that blows along a direction given as a unit vector.
    pub fn new(
        start_time: Scalar,
        length: Scalar,
        amplitude: Scalar,
        direction: Vec3,
        propagation_velocity: Scalar,
    ) -> (r: Self)
        ensures
            r == (GustEvent { start_time, length, amplitude, direction, propagation_velocity }),
    {
        GustEvent { start_time, length, amplitude, direction, propagation_velocity }
    }

    /// The gust blows at time `t` at a place that lies `xi` behind its front:
    /// it has started, and the place is within its length.
    pub open spec fn blows(self, t: Scalar, xi: Scalar) -> bool {
        &&& !t.less(self.start_time)
        &&& Scalar { bits: 0 }.at_most(xi)
        &&& xi.at_most(self.length)
    }

    /// Whether the gust blows at time `t` at a place `xi` behind its front.
    pub fn is_blowing(&self, t: Scalar, xi: Scalar) -> (r: bool)
        ensures
            r == self.blows(t, xi),
    {
        !t.lt(self.start_time) && Scalar::zero().le(xi) && xi.le(self.length)
    }
}

/// A drifting thermal column of rising (or sinking, negative strength) air.
#[derive(Clone, Copy, Debug, PartialEq, Eq, Structural)]
pub struct ThermalCell {
    /// Column axis position (at `start_time`), on the ground plane.
    pub center: Vec3,
    /// Gaussian core radius of the column (meters).
    pub radius: Scalar,
    /// Peak vertical velocity at the axis at mid-life (m/s); negative for sink
    /// columns.
    pub strength: Scalar,
    /// Time the cell is born (seconds).
    pub start_time: Scalar,
    /// Total lifetime (seconds).
    pub lifetime: Scalar,
    /// Horizontal drift velocity of the column axis (m/s).
    pub drift: Vec3,
}

impl ThermalCell {
    /// The cell moves air at the given age, `radius_sq` being its squared
    /// radius: strictly within its lifetime, which is positive, and with a
    /// positive extent.
    pub open spec fn active(self, age: Scalar, radius_sq: Scalar) -> bool {
        let zero = Scalar { bits: 0 };
        &&& !age.at_most(zero)
        &&& !self.lifetime.at_most(age)
        &&& !self.lifetime.at_most(zero)
        &&& !radius_sq.at_most(zero)
    }

    /// Whether the cell moves air at the given age.
    pub fn is_active(&self, age: Scalar, radius_sq: Scalar) -> (r: bool)
        ensures
            r == self.active(age, radius_sq),
    {
        let zero: Scalar = Scalar::zero();
        !age.le(zero) && !self.lifetime.le(age) && !self.lifetime.le(zero) && !radius_sq.le(zero)
    }
}

/// Configuration for the wind field, including shear, turbulence, and gusts.
#[derive(Debug)]
pub struct WindConfig {
    /// Reference wind speed (m/s) at reference height.
    pub v_ref: Scalar,
    /// Reference height (meters) at which v_ref is defined.
    pub h_ref: Scalar,
    /// Wind shear power-law exponent.
    pub shear_exponent: Scalar,
    /// Wind direction vector (unit vector in horizontal plane).
    pub direction: Vec3,
    /// Target turbulence intensity ratio (standard deviation over mean).
    pub turbulence_intensity: Scalar,
    /// Integral length scale of the turbulence (meters).
    pub length_scale: Scalar,
    /// Number of fractal octaves.
    pub octaves: usize,
    /// Active gust events.
    pub gusts: Vec<GustEvent>,
    /// Active thermal/convective cells.
    pub thermals: Vec<ThermalCell>,
    /// Seed for the turbulence field.
    pub seed: u64,
}

impl WindConfig {
    /// The two configurations hold the same values.
    pub open spec fn same(self, other: WindConfig) -> bool {
        &&& self.v_ref == other.v_ref
        &&& self.h_ref == other.h_ref
        &&& self.shear_exponent == other.shear_exponent
        &&& self.direction == other.direction
        &&& self.turbulence_intensity == other.turbulence_intensity
        &&& self.length_scale == other.length_scale
        &&& self.octaves == other.octaves
        &&& self.gusts@ == other.gusts@
        &&& self.thermals@ == other.thermals@
        &&& self.seed == other.seed
    }

    /// A calm, still configuration: no wind, no turbulence, no gusts.
    pub open spec fn is_default(self) -> bool {
        let zero = Scalar { bits: 0 };
        &&& self.v_ref == zero
        &&& self.h_ref.bits == 0x4024_0000_0000_0000
        &&& self.shear_exponent.bits == 0x3FC3_3333_3333_3333
        &&& self.direction == Vec3 { x: Scalar { bits: 0x3FF0_0000_0000_0000 }, y: zero, z: zero }
        &&& self.turbulence_intensity == zero
        &&& self.length_scale.bits == 0x4034_0000_0000_0000
        &&& self.octaves == 3
        &&& self.gusts@.len() == 0
        &&& self.thermals@.len() == 0
        &&& self.seed == 42
    }

    /// Whether turbulence contributes to the wind at all.
    pub fn is_turbulent(&self) -> (r: bool)
        ensures
            r == self.turbulence_intensity.positive(),
    {
        self.turbulence_intensity.is_positive()
    }

    /// The seeds of the three noise fields that make up the turbulence
    /// potential: the low words of three consecutive numbers.
    pub fn noise_seeds(&self) -> (r: (u32, u32, u32))
        requires
            self.seed <= u64::MAX - 2,
        ensures
            r.0 == self.seed as int % 0x1_0000_0000,
            r.1 == (self.seed + 1) % 0x1_0000_0000,
            r.2 == (self.seed + 2) % 0x1_0000_0000,
    {
        (
            (self.seed % 0x1_0000_0000) as u32,
            ((self.seed + 1) % 0x1_0000_0000) as u32,
            ((self.seed + 2) % 0x1_0000_0000) as u32,
        )
    }
}

impl Clone for WindConfig {
    fn clone(&self) -> (r: Self)
        ensures
            r.same(*self),
    {
        WindConfig {
            v_ref: self.v_ref,
            h_ref: self.h_ref,
            shear_exponent: self.shear_exponent,
            direction: self.direction,
            turbulence_intensity: self.turbulence_intensity,
            length_scale: self.length_scale,
            octaves: self.octaves,
            gusts: self.gusts.clone(),
            thermals: self.thermals.clone(),
            seed: self.seed,
        }
    }
}

impl Default for WindConfig {
    fn default() -> (r: Self)
        ensures
            r.is_default(),
    {
        WindConfig {
            v_ref: Scalar::zero(),
            h_ref: Scalar::new(0x4024_0000_0000_0000),
            shear_exponent: Scalar::new(0x3FC3_3333_3333_3333),
            direction: Vec3::new(
                Scalar::new(0x3FF0_0000_0000_0000),
                Scalar::zero(),
                Scalar::zero(),
            ),
            turbulence_intensity: Scalar::zero(),
            length_scale: Scalar::new(0x4034_0000_0000_0000),
            octaves: 3,
            gusts: Vec::new(),
            thermals: Vec::new(),
            seed: 42,
        }
    }
}

/// What a turbulence field was built from. A field is a function of these
/// three alone, so one that was built from the same three can be used again.
#[derive(Clone, Copy, Debug, PartialEq, Eq, Structural)]
pub struct FieldKey {
    pub seed: u64,
    pub octaves: usize,
    pub length_scale: Scalar,
}

impl FieldKey {
    pub fn of(cfg: &WindConfig) -> (r: FieldKey)
        ensures
            r == (FieldKey {
                seed: cfg.seed,
                octaves: cfg.octaves,
                length_scale: cfg.length_scale,
            }),
    {
        FieldKey { seed: cfg.seed, octaves: cfg.octaves, length_scale: cfg.length_scale }
    }
}

/// Whether a kept field must be built anew for `cfg`: there is none, or it was
/// built from another seed, octave count or length scale.
pub fn field_is_stale(kept: Option<FieldKey>, cfg: &WindConfig) -> (r: bool)
    ensures
        r == (kept != Some(
            FieldKey { seed: cfg.seed, octaves: cfg.octaves, length_scale: cfg.length_scale },
        )),
{
    match kept {
        None => true,
        Some(key) => key.seed != cfg.seed || key.octaves != cfg.octaves || key.length_scale
            != cfg.length_scale,
    }
}

/// The wind at a place that is not finite, which a diverged step can produce:
/// still air, so that the divergence shows in the positions. `None` elsewhere.
pub fn still_air_guard(pos: Vec3) -> (r: Option<Vec3>)
    ensures
        r == if pos.finite() {
            None
        } else {
            Some(Vec3::spec_zero())
        },
{
    if pos.is_finite() {
        None
    } else {
        Some(Vec3::zero())
    }
}

} // verus!
