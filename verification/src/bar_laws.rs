//! Which lines pull on the tips of a control bar.
use crate::constraints::UnilateralDistanceConstraint;
use crate::control_bar::{pull_on, pulls, ControlBar, LinePull};
use vstd::prelude::*;

verus! {

/// The pulls are exactly these: for each tip, each line with an end at its
/// anchor, with the anchor as this end and the line's other end as the other. A
/// line with both ends at one anchor pulls on its tip once.
pub proof fn every_line_end_pulls(
    bar: ControlBar,
    lines: Seq<UnilateralDistanceConstraint>,
    n: nat,
    x: LinePull,
)
    requires
        n <= lines.len() <= usize::MAX,
    ensures
        pulls(bar, lines, n).contains(x) <==> {
            let c = lines[x.line as int];
            let anchor = if x.left {
                bar.left_anchor
            } else {
                bar.right_anchor
            };
            &&& x.line < n
            &&& x.this == anchor
            &&& (c.p1 == anchor && x.other == c.p2) || (c.p1 != anchor && c.p2 == anchor && x.other
                == c.p1)
        },
    decreases n,
{
    let all = pulls(bar, lines, n);
    if n > 0 {
        every_line_end_pulls(bar, lines, (n - 1) as nat, x);
        let i = n - 1;
        let before = pulls(bar, lines, (n - 1) as nat);
        let left = pull_on(lines[i], i as usize, bar.left_anchor, true);
        let right = pull_on(lines[i], i as usize, bar.right_anchor, false);
        assert(all == before + left + right);
        if all.contains(x) {
            let k = choose|k: int| 0 <= k < all.len() && all[k] == x;
            if k < before.len() {
                assert(before[k] == x);
            } else if k < before.len() + left.len() {
                assert(left[k - before.len()] == x);
            } else {
                assert(right[k - before.len() - left.len()] == x);
            }
        }
        if before.contains(x) {
            let k = choose|k: int| 0 <= k < before.len() && before[k] == x;
            assert(all[k] == x);
        }
        if left.len() > 0 {
            assert(all[before.len() as int] == left[0]);
        }
        if right.len() > 0 {
            assert(all[(before.len() + left.len()) as int] == right[0]);
        }
    }
}

/// The pulls come line by line, that on the left tip first, and no tip is pulled
/// by a line twice.
pub proof fn pulls_come_in_order(
    bar: ControlBar,
    lines: Seq<UnilateralDistanceConstraint>,
    n: nat,
    i: int,
    j: int,
)
    requires
        n <= lines.len() <= usize::MAX,
        0 <= i < j < pulls(bar, lines, n).len(),
    ensures
        ({
            let a = pulls(bar, lines, n)[i];
            let b = pulls(bar, lines, n)[j];
            a.line < b.line || (a.line == b.line && a.left && !b.left)
        }),
    decreases n,
{
    let m = (n - 1) as nat;
    let before = pulls(bar, lines, m);
    let left = pull_on(lines[m as int], m as usize, bar.left_anchor, true);
    let right = pull_on(lines[m as int], m as usize, bar.right_anchor, false);
    let all = pulls(bar, lines, n);
    assert(all == before + left + right);
    if j < before.len() {
        pulls_come_in_order(bar, lines, m, i, j);
    } else if i < before.len() {
        assert(before.contains(before[i]));
        every_line_end_pulls(bar, lines, m, before[i]);
    }
}

} // verus!
