//! The order in which bridle lines are built.
//!
//! A line may end at an inner node of another line, whichever of them is
//! listed first. Such a line is built after the one it ends at, so that the
//! node is there to weld to.
use vstd::prelude::*;

verus! {

/// `ties[b][c]`: line `b` ends at an inner node of line `c`.
pub open spec fn square(ties: Seq<Vec<bool>>) -> bool {
    forall|b: int| 0 <= b < ties.len() ==> (#[trigger] ties[b])@.len() == ties.len()
}

/// Line `b` waits for another line that remains to be built.
pub open spec fn waits(ties: Seq<Vec<bool>>, remaining: Seq<usize>, b: usize) -> bool {
    exists|k: int|
        0 <= k < remaining.len() && #[trigger] remaining[k] != b
            && ties[b as int]@[remaining[k] as int]
}

/// The first remaining line, from `k` on, that waits for none; the number of
/// remaining lines if every one waits.
pub open spec fn first_ready(ties: Seq<Vec<bool>>, remaining: Seq<usize>, k: nat) -> nat
    decreases remaining.len() - k,
{
    if k >= remaining.len() {
        remaining.len()
    } else if !waits(ties, remaining, remaining[k as int]) {
        k
    } else {
        first_ready(ties, remaining, k + 1)
    }
}

/// The place, among the remaining lines, of the one to build next: the first
/// that waits for none, or simply the first where they wait in a circle.
pub open spec fn next_line(ties: Seq<Vec<bool>>, remaining: Seq<usize>) -> nat {
    let k = first_ready(ties, remaining, 0);
    if k < remaining.len() {
        k
    } else {
        0
    }
}

/// The order in which the remaining lines are built.
pub open spec fn build_order(ties: Seq<Vec<bool>>, remaining: Seq<usize>) -> Seq<usize>
    decreases remaining.len(),
{
    if remaining.len() == 0 {
        Seq::empty()
    } else {
        let k = next_line(ties, remaining);
        if k < remaining.len() {
            seq![remaining[k as int]] + build_order(ties, remaining.remove(k as int))
        } else {
            Seq::empty()
        }
    }
}

/// The lines in listing order.
pub open spec fn listed(n: nat) -> Seq<usize> {
    Seq::new(n, |i: int| i as usize)
}

proof fn first_ready_is_ready(ties: Seq<Vec<bool>>, remaining: Seq<usize>, k: nat)
    requires
        k <= remaining.len(),
    ensures
        k <= first_ready(ties, remaining, k) <= remaining.len(),
        first_ready(ties, remaining, k) < remaining.len() ==> !waits(
            ties,
            remaining,
            remaining[first_ready(ties, remaining, k) as int],
        ),
        forall|j: int|
            k <= j < first_ready(ties, remaining, k) ==> waits(
                ties,
                remaining,
                #[trigger] remaining[j],
            ),
    decreases remaining.len() - k,
{
    if k < remaining.len() && waits(ties, remaining, remaining[k as int]) {
        first_ready_is_ready(ties, remaining, k + 1);
    }
}

/// The build order has every remaining line exactly once.
pub proof fn order_has_every_line(ties: Seq<Vec<bool>>, remaining: Seq<usize>)
    requires
        remaining.no_duplicates(),
    ensures
        build_order(ties, remaining).len() == remaining.len(),
        build_order(ties, remaining).no_duplicates(),
        forall|b: usize| #[trigger] build_order(ties, remaining).contains(b) <==> remaining.contains(b),
    decreases remaining.len(),
{
    if remaining.len() > 0 {
        first_ready_is_ready(ties, remaining, 0);
        let k = next_line(ties, remaining) as int;
        let first = remaining[k];
        let rest = remaining.remove(k);
        let tail = build_order(ties, rest);
        let order = build_order(ties, remaining);
        assert forall|i: int, j: int| 0 <= i < rest.len() && 0 <= j < rest.len() && i != j implies rest[i]
            != rest[j] by {
            let a: int = if i < k { i } else { i + 1 };
            let b: int = if j < k { j } else { j + 1 };
            assert(rest[i] == remaining[a] && rest[j] == remaining[b]);
        }
        order_has_every_line(ties, rest);
        assert forall|b: usize| #[trigger] rest.contains(b) <==> remaining.contains(b) && b != first by {
            if rest.contains(b) {
                let i = choose|i: int| 0 <= i < rest.len() && rest[i] == b;
                let a: int = if i < k { i } else { i + 1 };
                assert(remaining[a] == b);
            }
            if remaining.contains(b) && b != first {
                let a = choose|a: int| 0 <= a < remaining.len() && remaining[a] == b;
                let i: int = if a < k { a } else { a - 1 };
                assert(rest[i] == b);
            }
        }
        assert forall|b: usize| #[trigger] order.contains(b) <==> remaining.contains(b) by {
            if order.contains(b) {
                let i = choose|i: int| 0 <= i < order.len() && order[i] == b;
                if i > 0 {
                    assert(tail[i - 1] == b);
                    assert(tail.contains(b));
                    assert(rest.contains(b));
                }
            }
            if remaining.contains(b) {
                if b == first {
                    assert(order[0] == b);
                } else {
                    assert(rest.contains(b));
                    assert(tail.contains(b));
                    let i = choose|i: int| 0 <= i < tail.len() && tail[i] == b;
                    assert(order[i + 1] == b);
                }
            }
        }
        assert forall|i: int, j: int|
            0 <= i < order.len() && 0 <= j < order.len() && i != j implies order[i] != order[j] by {
            assert(!rest.contains(first));
            if i == 0 {
                assert(order[j] == tail[j - 1]);
                assert(tail.contains(tail[j - 1]));
            } else if j == 0 {
                assert(order[i] == tail[i - 1]);
                assert(tail.contains(tail[i - 1]));
            } else {
                assert(order[i] == tail[i - 1] && order[j] == tail[j - 1]);
            }
        }
    }
}

/// A line that ends at an inner node of a line that waits for none is built
/// after it, wherever the two are listed.
pub proof fn knot_is_built_first(ties: Seq<Vec<bool>>, remaining: Seq<usize>, b: usize, c: usize)
    requires
        remaining.no_duplicates(),
        remaining.contains(b),
        remaining.contains(c),
        b != c,
        ties[b as int]@[c as int],
        !waits(ties, remaining, c),
    ensures
        exists|i: int, j: int|
            #![trigger build_order(ties, remaining)[i], build_order(ties, remaining)[j]]
            0 <= i < j < build_order(ties, remaining).len() && build_order(ties, remaining)[i] == c
                && build_order(ties, remaining)[j] == b,
    decreases remaining.len(),
{
    let order = build_order(ties, remaining);
    order_has_every_line(ties, remaining);
    first_ready_is_ready(ties, remaining, 0);
    let cp = choose|k: int| 0 <= k < remaining.len() && remaining[k] == c;
    let k = next_line(ties, remaining) as int;
    assert(first_ready(ties, remaining, 0) <= cp);
    let first = remaining[k];
    let rest = remaining.remove(k);
    let tail = build_order(ties, rest);
    assert(waits(ties, remaining, b)) by {
        assert(remaining[cp] != b && ties[b as int]@[remaining[cp] as int]);
    }
    assert(first != b);
    assert(rest.contains(b)) by {
        let a = choose|a: int| 0 <= a < remaining.len() && remaining[a] == b;
        let i: int = if a < k { a } else { a - 1 };
        assert(rest[i] == b);
    }
    assert(rest.no_duplicates()) by {
        assert forall|i: int, j: int| 0 <= i < rest.len() && 0 <= j < rest.len() && i != j implies rest[i]
            != rest[j] by {
            let a: int = if i < k { i } else { i + 1 };
            let d: int = if j < k { j } else { j + 1 };
            assert(rest[i] == remaining[a] && rest[j] == remaining[d]);
        }
    }
    if first == c {
        order_has_every_line(ties, rest);
        assert(tail.contains(b));
        let j = choose|j: int| 0 <= j < tail.len() && tail[j] == b;
        assert(order[0] == c && order[j + 1] == b);
    } else {
        assert(rest.contains(c)) by {
            let i: int = if cp < k { cp } else { cp - 1 };
            assert(rest[i] == c);
        }
        assert(!waits(ties, rest, c)) by {
            if waits(ties, rest, c) {
                let i = choose|i: int|
                    0 <= i < rest.len() && #[trigger] rest[i] != c && ties[c as int]@[rest[i] as int];
                let a: int = if i < k { i } else { i + 1 };
                assert(remaining[a] == rest[i]);
                assert(remaining[a] != c && ties[c as int]@[remaining[a] as int]);
            }
        }
        knot_is_built_first(ties, rest, b, c);
        let (i, j) = choose|i: int, j: int|
            #![trigger tail[i], tail[j]]
            0 <= i < j < tail.len() && tail[i] == c && tail[j] == b;
        assert(order[i + 1] == c && order[j + 1] == b);
    }
}

/// No line ends, however indirectly, on itself: lines can be ranked so that
/// each ends only on lines of a lower rank.
pub open spec fn cascades(
    ties: Seq<Vec<bool>>,
    remaining: Seq<usize>,
    rank: spec_fn(usize) -> nat,
) -> bool {
    forall|b: usize, c: usize|
        #![trigger ties[b as int]@[c as int]]
        remaining.contains(b) && remaining.contains(c) && b != c && ties[b as int]@[c as int]
            ==> rank(c) < rank(b)
}

/// Of lines that cascade, one waits for none.
proof fn some_line_is_ready(
    ties: Seq<Vec<bool>>,
    remaining: Seq<usize>,
    rank: spec_fn(usize) -> nat,
    k: int,
)
    requires
        cascades(ties, remaining, rank),
        0 <= k < remaining.len(),
    ensures
        first_ready(ties, remaining, 0) < remaining.len(),
    decreases rank(remaining[k]),
{
    first_ready_is_ready(ties, remaining, 0);
    if first_ready(ties, remaining, 0) >= remaining.len() {
        assert(waits(ties, remaining, remaining[k]));
        let j = choose|j: int|
            0 <= j < remaining.len() && #[trigger] remaining[j] != remaining[k]
                && ties[remaining[k] as int]@[remaining[j] as int];
        assert(remaining.contains(remaining[k]) && remaining.contains(remaining[j]));
        some_line_is_ready(ties, remaining, rank, j);
    }
}

/// Of lines that cascade, each is built after every line that it ends on,
/// wherever they are listed.
pub proof fn cascade_is_built_in_order(
    ties: Seq<Vec<bool>>,
    remaining: Seq<usize>,
    rank: spec_fn(usize) -> nat,
    b: usize,
    c: usize,
)
    requires
        remaining.no_duplicates(),
        cascades(ties, remaining, rank),
        remaining.contains(b),
        remaining.contains(c),
        b != c,
        ties[b as int]@[c as int],
    ensures
        exists|i: int, j: int|
            #![trigger build_order(ties, remaining)[i], build_order(ties, remaining)[j]]
            0 <= i < j < build_order(ties, remaining).len() && build_order(ties, remaining)[i] == c
                && build_order(ties, remaining)[j] == b,
    decreases remaining.len(),
{
    let order = build_order(ties, remaining);
    let cp = choose|k: int| 0 <= k < remaining.len() && remaining[k] == c;
    let bp = choose|k: int| 0 <= k < remaining.len() && remaining[k] == b;
    some_line_is_ready(ties, remaining, rank, cp);
    first_ready_is_ready(ties, remaining, 0);
    let k = next_line(ties, remaining) as int;
    let first = remaining[k];
    let rest = remaining.remove(k);
    let tail = build_order(ties, rest);
    assert(waits(ties, remaining, b)) by {
        assert(remaining[cp] != b && ties[b as int]@[remaining[cp] as int]);
    }
    assert(first != b);
    assert(rest[if bp < k { bp } else { bp - 1 }] == b);
    assert forall|i: int| 0 <= i < rest.len() implies remaining.contains(#[trigger] rest[i]) by {
        assert(rest[i] == remaining[if i < k { i } else { i + 1 }]);
    }
    assert(rest.no_duplicates()) by {
        assert forall|i: int, j: int| 0 <= i < rest.len() && 0 <= j < rest.len() && i != j implies rest[i]
            != rest[j] by {
            assert(rest[i] == remaining[if i < k { i } else { i + 1 }]);
            assert(rest[j] == remaining[if j < k { j } else { j + 1 }]);
        }
    }
    if first == c {
        order_has_every_line(ties, rest);
        assert(tail.contains(b));
        let j = choose|j: int| 0 <= j < tail.len() && tail[j] == b;
        assert(order[0] == c && order[j + 1] == b);
    } else {
        assert(rest[if cp < k { cp } else { cp - 1 }] == c);
        cascade_is_built_in_order(ties, rest, rank, b, c);
        let (i, j) = choose|i: int, j: int|
            #![trigger tail[i], tail[j]]
            0 <= i < j < tail.len() && tail[i] == c && tail[j] == b;
        assert(order[i + 1] == c && order[j + 1] == b);
    }
}

fn is_waiting(ties: &Vec<Vec<bool>>, remaining: &Vec<usize>, b: usize) -> (r: bool)
    requires
        square(ties@),
        b < ties@.len(),
        forall|k: int| 0 <= k < remaining@.len() ==> (#[trigger] remaining@[k]) < ties@.len(),
    ensures
        r == waits(ties@, remaining@, b),
{
    let mut k: usize = 0;
    while k < remaining.len()
        invariant
            square(ties@),
            b < ties@.len(),
            forall|j: int| 0 <= j < remaining@.len() ==> (#[trigger] remaining@[j]) < ties@.len(),
            k <= remaining@.len(),
            forall|j: int|
                0 <= j < k ==> !(#[trigger] remaining@[j] != b
                    && ties@[b as int]@[remaining@[j] as int]),
        decreases remaining@.len() - k,
    {
        let c: usize = remaining[k];
        if c != b && ties[b][c] {
            return true;
        }
        k += 1;
    }
    false
}

/// The order in which all lines are built.
pub fn order_lines(ties: &Vec<Vec<bool>>) -> (r: Vec<usize>)
    requires
        square(ties@),
    ensures
        r@ == build_order(ties@, listed(ties@.len())),
        r@.len() == ties@.len(),
        r@.no_duplicates(),
        forall|b: usize| #[trigger] r@.contains(b) <==> b < ties@.len(),
{
    let n: usize = ties.len();
    let mut remaining: Vec<usize> = Vec::new();
    let mut i: usize = 0;
    while i < n
        invariant
            i <= n,
            remaining@ == listed(i as nat),
        decreases n - i,
    {
        remaining.push(i);
        i += 1;
        assert(remaining@ =~= listed(i as nat));
    }
    let ghost whole = build_order(ties@, listed(n as nat));
    let mut order: Vec<usize> = Vec::new();
    assert(order@ + build_order(ties@, remaining@) =~= whole);
    while remaining.len() > 0
        invariant
            square(ties@),
            n == ties@.len(),
            forall|k: int| 0 <= k < remaining@.len() ==> (#[trigger] remaining@[k]) < n,
            order@ + build_order(ties@, remaining@) == whole,
        decreases remaining@.len(),
    {
        let mut k: usize = 0;
        let mut ready: bool = false;
        while k < remaining.len() && !ready
            invariant
                square(ties@),
                n == ties@.len(),
                forall|j: int| 0 <= j < remaining@.len() ==> (#[trigger] remaining@[j]) < n,
                k <= remaining@.len(),
                first_ready(ties@, remaining@, 0) == first_ready(ties@, remaining@, k as nat),
                ready ==> k < remaining@.len() && first_ready(ties@, remaining@, 0) == k,
            decreases remaining@.len() - k, if ready { 0int } else { 1 },
        {
            if !is_waiting(ties, &remaining, remaining[k]) {
                ready = true;
            } else {
                k += 1;
            }
        }
        if !ready {
            k = 0;
        }
        let ghost before = order@;
        let ghost rest = remaining@.remove(k as int);
        assert forall|j: int| 0 <= j < rest.len() implies (#[trigger] rest[j]) < n by {
            let a: int = if j < k { j } else { j + 1 };
            assert(rest[j] == remaining@[a]);
        }
        proof {
            let b = remaining@[k as int];
            assert(before.push(b) + build_order(ties@, rest) =~= before + (seq![b] + build_order(
                ties@,
                rest,
            )));
        }
        let b: usize = remaining.remove(k);
        order.push(b);
    }
    proof {
        assert(order@ =~= whole);
        let all = listed(n as nat);
        order_has_every_line(ties@, all);
        assert forall|b: usize| #[trigger] order@.contains(b) <==> b < n by {
            if b < n {
                assert(all[b as int] == b);
            }
        }
    }
    order
}

} // verus!
