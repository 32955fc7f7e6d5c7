//! In what order constraints are solved.
use crate::coloring::{first_fit, fits, greedy_classes, Reach};
use crate::kernels::Component;
use crate::sweeps::{colored_turns, part_turns, serial_turns, Turn};
use vstd::prelude::*;

verus! {

/// Two constraints have a particle or a frame in common.
pub open spec fn shares(a: Reach, b: Reach) -> bool {
    ||| exists|x: int, y: int|
        #![trigger a.particles[x], b.particles[y]]
        0 <= x < a.particles.len() && 0 <= y < b.particles.len() && a.particles[x]
            == b.particles[y]
    ||| exists|x: int, y: int|
        #![trigger a.orientations[x], b.orientations[y]]
        0 <= x < a.orientations.len() && 0 <= y < b.orientations.len() && a.orientations[x]
            == b.orientations[y]
}

proof fn meeting_is_sharing(a: Reach, b: Reach)
    ensures
        a.meets(b) <==> shares(a, b),
{
    if a.meets(b) {
        if exists|p: usize| #[trigger] a.particles.contains(p) && b.particles.contains(p) {
            let p = choose|p: usize| #[trigger]
                a.particles.contains(p) && b.particles.contains(p);
            let x = choose|x: int| 0 <= x < a.particles.len() && a.particles[x] == p;
            let y = choose|y: int| 0 <= y < b.particles.len() && b.particles[y] == p;
            assert(a.particles[x] == b.particles[y]);
        } else {
            let p = choose|p: usize| #[trigger]
                a.orientations.contains(p) && b.orientations.contains(p);
            let x = choose|x: int| 0 <= x < a.orientations.len() && a.orientations[x] == p;
            let y = choose|y: int| 0 <= y < b.orientations.len() && b.orientations[y] == p;
            assert(a.orientations[x] == b.orientations[y]);
        }
    }
    if shares(a, b) {
        if exists|x: int, y: int|
            #![trigger a.particles[x], b.particles[y]]
            0 <= x < a.particles.len() && 0 <= y < b.particles.len() && a.particles[x]
                == b.particles[y] {
            let (x, y) = choose|x: int, y: int|
                #![trigger a.particles[x], b.particles[y]]
                0 <= x < a.particles.len() && 0 <= y < b.particles.len() && a.particles[x]
                    == b.particles[y];
            assert(a.particles.contains(a.particles[x]) && b.particles.contains(a.particles[x]));
        } else {
            let (x, y) = choose|x: int, y: int|
                #![trigger a.orientations[x], b.orientations[y]]
                0 <= x < a.orientations.len() && 0 <= y < b.orientations.len() && a.orientations[x]
                    == b.orientations[y];
            assert(a.orientations.contains(a.orientations[x]) && b.orientations.contains(
                a.orientations[x],
            ));
        }
    }
}

/// A member of the class that came before constraint `i` has something in common
/// with it.
pub open spec fn blocks(touches: Seq<Reach>, class: Seq<usize>, i: int) -> bool {
    exists|k: int|
        0 <= k < class.len() && (#[trigger] class[k]) < i && shares(
            touches[i],
            touches[class[k] as int],
        )
}

proof fn fit_is_first(touches: Seq<Reach>, classes: Seq<Seq<usize>>, i: int, c: nat)
    requires
        c <= classes.len(),
    ensures
        c <= first_fit(touches, classes, i, c) <= classes.len(),
        first_fit(touches, classes, i, c) < classes.len() ==> fits(
            touches,
            classes[first_fit(touches, classes, i, c) as int],
            i,
        ),
        forall|d: int|
            c <= d < first_fit(touches, classes, i, c) ==> !fits(touches, #[trigger] classes[d], i),
    decreases classes.len() - c,
{
    if c < classes.len() && !fits(touches, classes[c as int], i) {
        fit_is_first(touches, classes, i, c + 1);
    }
}

/// A constraint is not put further back than it has to be: every class before
/// its own holds an earlier constraint that has something in common with it.
pub proof fn classes_are_filled_from_the_front(
    touches: Seq<Reach>,
    n: nat,
    c: int,
    k: int,
    d: int,
)
    requires
        n <= touches.len() <= usize::MAX,
        0 <= d < c < greedy_classes(touches, n).len(),
        0 <= k < greedy_classes(touches, n)[c].len(),
    ensures
        greedy_classes(touches, n)[c][k] < n,
        blocks(
            touches,
            greedy_classes(touches, n)[d],
            greedy_classes(touches, n)[c][k] as int,
        ),
    decreases n,
{
    if n > 0 {
        let before = greedy_classes(touches, (n - 1) as nat);
        let all = greedy_classes(touches, n);
        let at = first_fit(touches, before, n - 1, 0) as int;
        fit_is_first(touches, before, n - 1, 0);
        members_are_earlier(touches, (n - 1) as nat);
        let i = all[c][k] as int;
        if c == at && k == all[c].len() - 1 {
            assert(i == n - 1);
            assert(!fits(touches, before[d], n - 1));
            let l = choose|l: int|
                0 <= l < before[d].len() && touches[n - 1].meets(
                    touches[#[trigger] before[d][l] as int],
                );
            meeting_is_sharing(touches[n - 1], touches[before[d][l] as int]);
            assert(all[d][l] == before[d][l]);
        } else {
            assert(before[c][k] == all[c][k]);
            classes_are_filled_from_the_front(touches, (n - 1) as nat, c, k, d);
            let l = choose|l: int|
                0 <= l < before[d].len() && (#[trigger] before[d][l]) < i && shares(
                    touches[i],
                    touches[before[d][l] as int],
                );
            assert(all[d][l] == before[d][l]);
        }
    }
}

proof fn members_are_earlier(touches: Seq<Reach>, n: nat)
    requires
        n <= touches.len() <= usize::MAX,
    ensures
        forall|c: int, k: int|
            #![trigger greedy_classes(touches, n)[c][k]]
            0 <= c < greedy_classes(touches, n).len() && 0 <= k < greedy_classes(touches, n)[c].len()
                ==> greedy_classes(touches, n)[c][k] < n,
    decreases n,
{
    if n > 0 {
        members_are_earlier(touches, (n - 1) as nat);
        let before = greedy_classes(touches, (n - 1) as nat);
        let all = greedy_classes(touches, n);
        fit_is_first(touches, before, n - 1, 0);
        assert forall|c: int, k: int|
            #![trigger all[c][k]]
            0 <= c < all.len() && 0 <= k < all[c].len() implies all[c][k] < n by {
            if c < before.len() && k < before[c].len() {
                assert(all[c][k] == before[c][k]);
            }
        }
    }
}

/// One after the other, each segment is solved in x, then in y, then in z.
pub proof fn serial_sweeps_take_each_segment_whole(n: nat, k: int)
    requires
        0 <= k < n,
    ensures
        serial_turns(n).len() == 3 * n,
        serial_turns(n)[3 * k] == (Turn { segment: k, part: Component::X }),
        serial_turns(n)[3 * k + 1] == (Turn { segment: k, part: Component::Y }),
        serial_turns(n)[3 * k + 2] == (Turn { segment: k, part: Component::Z }),
    decreases n,
{
    serial_len((n - 1) as nat);
    if k < n - 1 {
        serial_sweeps_take_each_segment_whole((n - 1) as nat, k);
    }
}

proof fn serial_len(n: nat)
    ensures
        serial_turns(n).len() == 3 * n,
    decreases n,
{
    if n > 0 {
        serial_len((n - 1) as nat);
    }
}

/// How many segments the first `n` classes have.
pub open spec fn members_below(classes: Seq<Seq<usize>>, n: nat) -> nat
    decreases n,
{
    if n == 0 {
        0
    } else {
        members_below(classes, (n - 1) as nat) + classes[n - 1].len()
    }
}

proof fn colored_len(classes: Seq<Seq<usize>>, n: nat)
    ensures
        colored_turns(classes, n).len() == 3 * members_below(classes, n),
    decreases n,
{
    if n > 0 {
        colored_len(classes, (n - 1) as nat);
    }
}

/// Class by class, all segments of a class are solved in x, then all of them in
/// y, then all of them in z.
pub proof fn colored_sweeps_take_each_class_by_parts(
    classes: Seq<Seq<usize>>,
    n: nat,
    c: int,
    j: int,
)
    requires
        0 <= c < n <= classes.len(),
        0 <= j < classes[c].len(),
    ensures
        ({
            let turns = colored_turns(classes, n);
            let at = 3 * members_below(classes, c as nat);
            let m = classes[c].len();
            let k = classes[c][j] as int;
            &&& turns.len() == 3 * members_below(classes, n)
            &&& at + 3 * m <= turns.len()
            &&& turns[at + j] == (Turn { segment: k, part: Component::X })
            &&& turns[at + m + j] == (Turn { segment: k, part: Component::Y })
            &&& turns[at + 2 * m + j] == (Turn { segment: k, part: Component::Z })
        }),
    decreases n,
{
    colored_len(classes, (n - 1) as nat);
    let before = colored_turns(classes, (n - 1) as nat);
    let class = classes[n - 1];
    let x = part_turns(class, Component::X);
    let y = part_turns(class, Component::Y);
    let z = part_turns(class, Component::Z);
    let turns = colored_turns(classes, n);
    assert(turns == before + x + y + z);
    let at = 3 * members_below(classes, c as nat);
    let m = classes[c].len();
    if c < n - 1 {
        colored_sweeps_take_each_class_by_parts(classes, (n - 1) as nat, c, j);
        assert(turns[at + j] == before[at + j]);
        assert(turns[at + m + j] == before[at + m + j]);
        assert(turns[at + 2 * m + j] == before[at + 2 * m + j]);
    } else {
        assert(turns[at + j] == x[j]);
        assert(turns[at + m + j] == y[j]);
        assert(turns[at + 2 * m + j] == z[j]);
    }
}

} // verus!
