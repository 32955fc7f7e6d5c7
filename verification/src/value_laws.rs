//! What numbers, texts and lists of numbers mean.
use crate::scalar::{Scalar, Vec3};
use crate::snapshot::{ColorScale, Readings, Single};
use crate::text::{decimal, digit, is_name};
use vstd::prelude::*;

verus! {

/// Doubles compare as their values do: of two that are not negative the one with
/// the smaller pattern is less, of two negative ones the one with the larger,
/// and a negative one is less than one that is not, unless both are zero. What
/// is not a number compares with nothing.
pub proof fn doubles_compare_as_values(a: Scalar, b: Scalar)
    ensures
        ({
            let top = 0x7FF0_0000_0000_0000u64;
            let sign = 0x8000_0000_0000_0000u64;
            let low = 0xFFF0_0000_0000_0000u64;
            &&& a.nan() <==> (top < a.bits < sign) || low < a.bits
            &&& a.finite() <==> a.bits < top || (sign <= a.bits < low)
            &&& a.nan() || b.nan() ==> !a.less(b) && !a.at_most(b)
            &&& !a.nan() && !b.nan() ==> {
                &&& a.bits < sign && b.bits < sign ==> a.less(b) == (a.bits < b.bits)
                &&& a.bits >= sign && b.bits >= sign ==> a.less(b) == (a.bits > b.bits)
                &&& a.bits >= sign && b.bits < sign ==> a.less(b) == !(a.bits == sign && b.bits
                    == 0)
                &&& a.bits < sign && b.bits >= sign ==> !a.less(b)
                &&& a.at_most(b) == !b.less(a)
            }
            &&& a.positive() == (Scalar { bits: 0 }).less(a)
        }),
{
}

/// The larger of two doubles is one of them, and less than neither; what is not
/// a number gives way.
pub proof fn larger_is_larger(a: Scalar, b: Scalar)
    ensures
        a.nan() ==> a.larger(b) == b,
        b.nan() && !a.nan() ==> a.larger(b) == a,
        a.larger(b) == a || a.larger(b) == b,
        !a.larger(b).less(a),
        !a.larger(b).less(b),
        !a.less(b) && !a.nan() ==> a.larger(b) == a,
{
}

/// The number that a row of decimal digits writes.
pub open spec fn number_of(s: Seq<char>) -> nat
    decreases s.len(),
{
    if s.len() == 0 {
        0
    } else {
        (10 * number_of(s.drop_last()) + (s.last() as int - '0' as int)) as nat
    }
}

proof fn digits_are_digits(d: nat)
    requires
        d < 10,
    ensures
        digit(d) as int == '0' as int + d,
{
}

/// A number is written in decimal digits that stand for it, with no zero in
/// front but for zero itself.
pub proof fn decimal_writes_the_number(n: nat)
    ensures
        number_of(decimal(n)) == n,
        decimal(n).len() > 0,
        forall|i: int| 0 <= i < decimal(n).len() ==> '0' <= #[trigger] decimal(n)[i] <= '9',
        n > 0 ==> decimal(n)[0] != '0',
        n == 0 ==> decimal(n) == seq!['0'],
    decreases n,
{
    if n < 10 {
        digits_are_digits(n);
        assert(decimal(n).drop_last() =~= Seq::<char>::empty());
        assert(number_of(decimal(n).drop_last()) == 0);
    } else {
        decimal_writes_the_number(n / 10);
        digits_are_digits(n % 10);
        let s = decimal(n);
        assert(s.drop_last() =~= decimal(n / 10));
        assert(s.last() == digit(n % 10));
        assert(10 * (n / 10) + n % 10 == n);
        assert forall|i: int| 0 <= i < s.len() implies '0' <= #[trigger] s[i] <= '9' by {
            if i < s.len() - 1 {
                assert(s[i] == decimal(n / 10)[i]);
            }
        }
        assert(s[0] == decimal(n / 10)[0]);
    }
}

/// A name has one to 64 characters, all of them letters and digits of English,
/// underscores or hyphens.
pub proof fn names_are_plain(s: Seq<char>)
    ensures
        s.len() == 0 ==> !is_name(s),
        s.len() > 64 ==> !is_name(s),
        is_name(s) ==> forall|i: int|
            0 <= i < s.len() ==> {
                let c = #[trigger] s[i] as int;
                48 <= c <= 57 || 65 <= c <= 90 || 97 <= c <= 122 || c == 95 || c == 45
            },
        0 < s.len() <= 64 && (forall|i: int|
            0 <= i < s.len() ==> {
                let c = #[trigger] s[i] as int;
                48 <= c <= 57 || 65 <= c <= 90 || 97 <= c <= 122 || c == 95 || c == 45
            }) ==> is_name(s),
{
}

/// `m` is at least every magnitude in the list that is a number.
pub open spec fn bounds_all(m: Single, vals: Seq<Single>) -> bool {
    forall|k: int|
        0 <= k < vals.len() && !(#[trigger] vals[k]).nan() ==> vals[k].magnitude() <= m.bits
}

/// `m` is a magnitude of the list, or nothing.
pub open spec fn occurs_or_zero(m: Single, vals: Seq<Single>) -> bool {
    m.bits == 0 || exists|k: int|
        0 <= k < vals.len() && !(#[trigger] vals[k]).nan() && vals[k].magnitude() == m.bits
}

/// Each channel of a color scale is at least what it decayed to and at least
/// every reading of its own kind, and is one of these.
pub proof fn scales_cover_their_readings(
    scale: ColorScale,
    decayed: ColorScale,
    readings: Readings,
    aero: Seq<Single>,
)
    requires
        scale.covers(decayed, readings, aero),
    ensures
        scale.spar.bits >= decayed.spar.bits,
        scale.bridle.bits >= decayed.bridle.bits,
        scale.cloth.bits >= decayed.cloth.bits,
        scale.aero.bits >= decayed.aero.bits,
        bounds_all(scale.spar, readings.spar_force@),
        bounds_all(scale.bridle, readings.bridle_tension@),
        bounds_all(scale.cloth, readings.cloth_force@),
        bounds_all(scale.aero, aero),
        scale.spar == decayed.spar || occurs_or_zero(scale.spar, readings.spar_force@),
        scale.bridle == decayed.bridle || occurs_or_zero(scale.bridle, readings.bridle_tension@),
        scale.cloth == decayed.cloth || occurs_or_zero(scale.cloth, readings.cloth_force@),
        scale.aero == decayed.aero || occurs_or_zero(scale.aero, aero),
{
}

/// The magnitude of a single is its pattern without the sign, and what has a
/// larger magnitude than infinity is not a number.
pub proof fn singles_have_magnitudes(s: Single)
    ensures
        s.bits < 0x8000_0000 ==> s.magnitude() == s.bits,
        s.bits >= 0x8000_0000 ==> s.magnitude() == s.bits - 0x8000_0000,
        s.nan() <==> (0x7F80_0000 < s.bits < 0x8000_0000) || s.bits > 0xFF80_0000,
        s.plain() <==> s.bits <= 0x7F80_0000,
{
}

/// The zero vector has no component.
pub proof fn zero_is_zero()
    ensures
        Vec3::spec_zero().x.bits == 0,
        Vec3::spec_zero().y.bits == 0,
        Vec3::spec_zero().z.bits == 0,
{
}

} // verus!
