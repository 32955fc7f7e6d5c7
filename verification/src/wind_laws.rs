//! When the wind's gusts and thermals act, and which line is built next.
use crate::line_order::{build_order, first_ready, next_line, waits};
use crate::materials::inverse_moment;
use crate::scalar::Scalar;
use crate::wind::{GustEvent, ThermalCell};
use vstd::prelude::*;

verus! {

/// A gust blows from its start on, and there where its front has come but its
/// end has not: between nothing and its length behind the front.
pub proof fn gusts_blow_within_their_length(g: GustEvent, t: Scalar, xi: Scalar)
    ensures
        t.less(g.start_time) ==> !g.blows(t, xi),
        xi.less(Scalar { bits: 0 }) ==> !g.blows(t, xi),
        g.length.less(xi) ==> !g.blows(t, xi),
        xi.nan() ==> !g.blows(t, xi),
        g.start_time.at_most(t) && (Scalar { bits: 0 }).at_most(xi) && xi.at_most(g.length)
            ==> g.blows(t, xi),
{
}

/// A thermal acts after its birth and before its end, if it has a lifetime and a
/// radius.
pub proof fn thermals_act_during_their_life(c: ThermalCell, age: Scalar, radius_sq: Scalar)
    ensures
        age.at_most(Scalar { bits: 0 }) ==> !c.active(age, radius_sq),
        c.lifetime.at_most(age) ==> !c.active(age, radius_sq),
        c.lifetime.at_most(Scalar { bits: 0 }) ==> !c.active(age, radius_sq),
        radius_sq.at_most(Scalar { bits: 0 }) ==> !c.active(age, radius_sq),
        (Scalar { bits: 0 }).less(age) && age.less(c.lifetime) && (Scalar { bits: 0 }).less(
            radius_sq,
        ) ==> c.active(age, radius_sq),
{
}

/// A moment of inertia above zero is inverted; one that is not gives zero, which
/// keeps the axis fixed.
pub proof fn moments_are_inverted_or_fixed(moment: Scalar, recip: Scalar)
    ensures
        (Scalar { bits: 0 }).less(moment) ==> inverse_moment(moment, recip) == recip,
        !(Scalar { bits: 0 }).less(moment) ==> inverse_moment(moment, recip).bits == 0,
{
}

/// Line `b` ends on another of the remaining lines.
pub open spec fn ends_on_another(ties: Seq<Vec<bool>>, remaining: Seq<usize>, b: usize) -> bool {
    exists|j: int|
        0 <= j < remaining.len() && (#[trigger] remaining[j]) != b
            && ties[b as int]@[remaining[j] as int]
}

proof fn waiting_is_ending_on(ties: Seq<Vec<bool>>, remaining: Seq<usize>, b: usize)
    ensures
        waits(ties, remaining, b) == ends_on_another(ties, remaining, b),
{
}

proof fn ready_is_first(ties: Seq<Vec<bool>>, remaining: Seq<usize>, k: nat, r: int)
    requires
        k <= r < remaining.len(),
        !ends_on_another(ties, remaining, remaining[r]),
        forall|j: int|
            k <= j < r ==> #[trigger] ends_on_another(ties, remaining, remaining[j]),
    ensures
        first_ready(ties, remaining, k) == r,
    decreases r - k,
{
    waiting_is_ending_on(ties, remaining, remaining[k as int]);
    if k < r {
        assert(ends_on_another(ties, remaining, remaining[k as int]));
        ready_is_first(ties, remaining, k + 1, r);
    }
}

proof fn none_is_ready(ties: Seq<Vec<bool>>, remaining: Seq<usize>, k: nat)
    requires
        k <= remaining.len(),
        forall|j: int|
            k <= j < remaining.len() ==> #[trigger] ends_on_another(ties, remaining, remaining[j]),
    ensures
        first_ready(ties, remaining, k) == remaining.len(),
    decreases remaining.len() - k,
{
    if k < remaining.len() {
        waiting_is_ending_on(ties, remaining, remaining[k as int]);
        assert(ends_on_another(ties, remaining, remaining[k as int]));
        none_is_ready(ties, remaining, k + 1);
    }
}

/// The line that is built next is the first in the list that ends on none of the
/// others that remain; where each of them ends on another, it is the first. The
/// rest follow by the same rule.
pub proof fn the_first_free_line_is_built_next(
    ties: Seq<Vec<bool>>,
    remaining: Seq<usize>,
    k: int,
)
    requires
        0 <= k < remaining.len(),
        !ends_on_another(ties, remaining, remaining[k]) || (k == 0 && forall|j: int|
            0 <= j < remaining.len() ==> #[trigger] ends_on_another(ties, remaining, remaining[j])),
        forall|j: int| 0 <= j < k ==> #[trigger] ends_on_another(ties, remaining, remaining[j]),
    ensures
        build_order(ties, remaining) == seq![remaining[k]] + build_order(ties, remaining.remove(k)),
{
    if !ends_on_another(ties, remaining, remaining[k]) {
        ready_is_first(ties, remaining, 0, k);
    } else {
        none_is_ready(ties, remaining, 0);
    }
    assert(next_line(ties, remaining) == k);
}

/// Lines that do not end on each other are built as they are listed.
pub proof fn free_lines_are_built_as_listed(ties: Seq<Vec<bool>>, remaining: Seq<usize>)
    requires
        forall|j: int|
            0 <= j < remaining.len() ==> !#[trigger] ends_on_another(ties, remaining, remaining[j]),
    ensures
        build_order(ties, remaining) == remaining,
    decreases remaining.len(),
{
    if remaining.len() > 0 {
        assert(!ends_on_another(ties, remaining, remaining[0]));
        the_first_free_line_is_built_next(ties, remaining, 0);
        let rest = remaining.remove(0);
        assert forall|j: int| 0 <= j < rest.len() implies !#[trigger] ends_on_another(
            ties,
            rest,
            rest[j],
        ) by {
            assert(!ends_on_another(ties, remaining, remaining[j + 1]));
            assert(rest[j] == remaining[j + 1]);
            if ends_on_another(ties, rest, rest[j]) {
                let i = choose|i: int|
                    0 <= i < rest.len() && (#[trigger] rest[i]) != rest[j]
                        && ties[rest[j] as int]@[rest[i] as int];
                assert(rest[i] == remaining[i + 1]);
                assert(ends_on_another(ties, remaining, remaining[j + 1]));
            }
        }
        free_lines_are_built_as_listed(ties, rest);
        assert(seq![remaining[0]] + rest =~= remaining);
    }
}

} // verus!
