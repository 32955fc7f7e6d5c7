//! Per-step recording of world state, in single precision to keep a few
//! thousand frames of playback history cheap to hold in memory.
use crate::scalar::Scalar;
use crate::world::{Event, World};
use vstd::prelude::*;

verus! {

/// The sign bit of a single.
pub const SINGLE_SIGN_BIT: u32 = 0x8000_0000;

/// The bit pattern of positive infinity; a larger magnitude is not a number.
pub const SINGLE_INFINITY_BITS: u32 = 0x7F80_0000;

/// A single-precision number, by its bit pattern.
#[derive(Clone, Copy, Debug, PartialEq, Eq, Structural)]
pub struct Single {
    pub bits: u32,
}

impl Single {
    /// The bit pattern without its sign. Of the numbers that are not negative
    /// the patterns are ordered as their values are.
    pub open spec fn magnitude(self) -> int {
        if self.bits >= SINGLE_SIGN_BIT {
            self.bits - SINGLE_SIGN_BIT
        } else {
            self.bits as int
        }
    }

    pub open spec fn nan(self) -> bool {
        self.magnitude() > SINGLE_INFINITY_BITS
    }

    /// Neither negative nor something that is not a number.
    pub open spec fn plain(self) -> bool {
        self.bits <= SINGLE_INFINITY_BITS
    }

    pub fn zero() -> (r: Single)
        ensures
            r.bits == 0,
    {
        Single { bits: 0 }
    }

    /// The absolute value.
    pub fn abs(&self) -> (r: Single)
        ensures
            r.bits == self.magnitude(),
    {
        if self.bits >= SINGLE_SIGN_BIT {
            Single { bits: self.bits - SINGLE_SIGN_BIT }
        } else {
            *self
        }
    }
}

/// A point or a vector in single precision.
#[derive(Clone, Copy, Debug, PartialEq, Eq, Structural)]
pub struct SingleVec3 {
    pub x: Single,
    pub y: Single,
    pub z: Single,
}

/// A quaternion in single precision.
#[derive(Clone, Copy, Debug, PartialEq, Eq, Structural)]
pub struct SingleQuat {
    pub x: Single,
    pub y: Single,
    pub z: Single,
    pub w: Single,
}

/// The aerodynamic readback of a panel in single precision.
#[derive(Clone, Copy, Debug, PartialEq, Eq, Structural)]
pub struct PanelAeroSnap {
    pub lift: SingleVec3,
    pub drag: SingleVec3,
    pub alpha: Single,
}

/// What is read off a world: places, orientations, forces (tension is
/// positive) and energy.
pub struct Readings {
    pub pos: Vec<SingleVec3>,
    pub quat: Vec<SingleQuat>,
    /// Axial force of each stretch-shear constraint.
    pub spar_force: Vec<Single>,
    /// Tension of each unilateral constraint.
    pub bridle_tension: Vec<Single>,
    /// Force of each distance constraint.
    pub cloth_force: Vec<Single>,
    pub panel_aero: Vec<PanelAeroSnap>,
    pub energy: Scalar,
}

impl Readings {
    /// There is one reading for each thing that is read.
    pub open spec fn parallel_to(self, world: World) -> bool {
        &&& self.pos@.len() == world.particles.count()
        &&& self.quat@.len() == world.orientations.count()
        &&& self.spar_force@.len() == world.stretch_shear_constraints@.len()
        &&& self.bridle_tension@.len() == world.unilateral_constraints@.len()
        &&& self.cloth_force@.len() == world.distance_constraints@.len()
        &&& self.panel_aero@.len() == world.aero_readback@.len()
    }
}

/// The world as it was after one step.
pub struct Snapshot {
    pub t: Scalar,
    pub readings: Readings,
    /// Events emitted by the step that produced this snapshot (not the world's
    /// full lifetime event log).
    pub events: Vec<Event>,
}

/// The factor that turns a constraint's multiplier into a force:
/// `inverse_square` is one over the square of the substep length, and before
/// the first step every force is zero.
pub fn force_scale(world: &World, inverse_square: Scalar) -> (r: Scalar)
    ensures
        r == if world.last_h.positive() {
            inverse_square
        } else {
            Scalar { bits: 0 }
        },
{
    if world.last_h.is_positive() {
        inverse_square
    } else {
        Scalar::zero()
    }
}

impl Snapshot {
    /// Records a world's time with what was read off it and the events of the
    /// step.
    pub fn capture(world: &World, events: Vec<Event>, readings: Readings) -> (r: Self)
        requires
            readings.parallel_to(*world),
        ensures
            r.t == world.time,
            r.readings == readings,
            r.readings.parallel_to(*world),
            r.events == events,
    {
        Snapshot { t: world.time, readings, events }
    }
}

/// The largest absolute value of a list: no number in it is larger, and it is
/// the size of one of them, or zero for a list without numbers.
pub open spec fn is_largest_abs(vals: Seq<Single>, r: Single) -> bool {
    &&& r.plain()
    &&& forall|k: int|
        0 <= k < vals.len() && !(#[trigger] vals[k]).nan() ==> vals[k].magnitude() <= r.bits
    &&& r.bits == 0 || exists|k: int|
        0 <= k < vals.len() && !(#[trigger] vals[k]).nan() && vals[k].magnitude() == r.bits
}

/// The largest absolute value; what is not a number is passed over.
pub fn max_abs(vals: &Vec<Single>) -> (r: Single)
    ensures
        is_largest_abs(vals@, r),
{
    let mut best: Single = Single::zero();
    let mut k: usize = 0;
    while k < vals.len()
        invariant
            k <= vals@.len(),
            is_largest_abs(vals@.take(k as int), best),
        decreases vals@.len() - k,
    {
        let a: Single = vals[k].abs();
        let ghost was = best;
        if a.bits <= SINGLE_INFINITY_BITS && a.bits > best.bits {
            best = a;
        }
        proof {
            let before = vals@.take(k as int);
            let after = vals@.take(k + 1);
            assert forall|j: int| 0 <= j < after.len() && !(#[trigger] after[j]).nan() implies after[j].magnitude()
                <= best.bits by {
                if j < k {
                    assert(after[j] == before[j]);
                }
            }
            if best.bits != 0 {
                if best == was {
                    let j = choose|j: int|
                        0 <= j < before.len() && !(#[trigger] before[j]).nan()
                            && before[j].magnitude() == was.bits;
                    assert(after[j] == before[j]);
                } else {
                    assert(after[k as int] == vals@[k as int]);
                }
            }
        }
        k += 1;
    }
    assert(vals@.take(k as int) =~= vals@);
    best
}

/// Decaying running largest magnitude per force channel, by which the color
/// ramps and arrow lengths of a scene are scaled.
#[derive(Clone, Copy, Debug, PartialEq, Eq, Structural)]
pub struct ColorScale {
    pub spar: Single,
    pub bridle: Single,
    pub cloth: Single,
    pub aero: Single,
}

/// The larger of two numbers that are not negative.
pub open spec fn larger_single(a: Single, b: Single) -> Single {
    if a.bits < b.bits {
        b
    } else {
        a
    }
}

fn max_single(a: Single, b: Single) -> (r: Single)
    ensures
        r == larger_single(a, b),
{
    if a.bits < b.bits {
        b
    } else {
        a
    }
}

impl ColorScale {
    pub open spec fn plain(self) -> bool {
        self.spar.plain() && self.bridle.plain() && self.cloth.plain() && self.aero.plain()
    }

    /// No channel's scale is below what the readings show, and none below what
    /// it was.
    pub open spec fn covers(self, decayed: ColorScale, readings: Readings, aero: Seq<Single>) -> bool {
        &&& exists|m: Single| #[trigger] is_largest_abs(readings.spar_force@, m) && self.spar
            == larger_single(decayed.spar, m)
        &&& exists|m: Single| #[trigger] is_largest_abs(readings.bridle_tension@, m) && self.bridle
            == larger_single(decayed.bridle, m)
        &&& exists|m: Single| #[trigger] is_largest_abs(readings.cloth_force@, m) && self.cloth
            == larger_single(decayed.cloth, m)
        &&& exists|m: Single| #[trigger] is_largest_abs(aero, m) && self.aero == larger_single(
            decayed.aero,
            m,
        )
    }

    /// The scale after a snapshot. `self` is the decayed scale, `aero` holds
    /// the sizes of the panels' lift and drag.
    pub fn raised(self, readings: &Readings, aero: &Vec<Single>) -> (r: Self)
        requires
            self.plain(),
        ensures
            r.plain(),
            r.covers(self, *readings, aero@),
    {
        let spar: Single = max_abs(&readings.spar_force);
        let bridle: Single = max_abs(&readings.bridle_tension);
        let cloth: Single = max_abs(&readings.cloth_force);
        let air: Single = max_abs(aero);
        ColorScale {
            spar: max_single(self.spar, spar),
            bridle: max_single(self.bridle, bridle),
            cloth: max_single(self.cloth, cloth),
            aero: max_single(self.aero, air),
        }
    }
}

impl Default for ColorScale {
    fn default() -> (r: Self)
        ensures
            r == (ColorScale {
                spar: Single { bits: 0 },
                bridle: Single { bits: 0 },
                cloth: Single { bits: 0 },
                aero: Single { bits: 0 },
            }),
    {
        ColorScale {
            spar: Single::zero(),
            bridle: Single::zero(),
            cloth: Single::zero(),
            aero: Single::zero(),
        }
    }
}

/// A list has one largest absolute value.
pub proof fn largest_abs_is_unique(vals: Seq<Single>, a: Single, b: Single)
    requires
        is_largest_abs(vals, a),
        is_largest_abs(vals, b),
    ensures
        a == b,
{
}

} // verus!
