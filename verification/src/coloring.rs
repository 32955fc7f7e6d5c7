//! Graph coloring of constraints.
//!
//! Constraints that share no particle and no orientation are grouped into
//! color classes. The members of a class touch disjoint state, so a class can
//! be solved in any order, or in parallel, with the same result.
use vstd::prelude::*;

verus! {

/// The state a constraint reads or writes: particle and orientation indices.
pub struct Touch {
    pub particles: Vec<usize>,
    pub orientations: Vec<usize>,
}

/// The indices of a `Touch`, as sequences.
pub struct Reach {
    pub particles: Seq<usize>,
    pub orientations: Seq<usize>,
}

impl View for Touch {
    type V = Reach;

    open spec fn view(&self) -> Reach {
        Reach { particles: self.particles@, orientations: self.orientations@ }
    }
}

/// The reach of each constraint of a list.
pub open spec fn reach_of(touches: Seq<Touch>) -> Seq<Reach> {
    touches.map_values(|t: Touch| t@)
}

impl Reach {
    /// Every index is within the two index ranges.
    pub open spec fn within(self, n_particles: nat, n_orientations: nat) -> bool {
        &&& forall|k: int|
            0 <= k < self.particles.len() ==> #[trigger] self.particles[k] < n_particles
        &&& forall|k: int|
            0 <= k < self.orientations.len() ==> #[trigger] self.orientations[k] < n_orientations
    }

    /// The two constraints share a particle or an orientation.
    pub open spec fn meets(self, other: Reach) -> bool {
        ||| exists|p: usize| #[trigger]
            self.particles.contains(p) && other.particles.contains(p)
        ||| exists|q: usize| #[trigger]
            self.orientations.contains(q) && other.orientations.contains(q)
    }
}

/// Constraint `i` shares nothing with the members of `class`.
pub open spec fn fits(touches: Seq<Reach>, class: Seq<usize>, i: int) -> bool {
    forall|k: int| 0 <= k < class.len() ==> !touches[i].meets(touches[#[trigger] class[k] as int])
}

/// The first class from `c` on that constraint `i` fits, or the number of
/// classes when it fits none.
pub open spec fn first_fit(
    touches: Seq<Reach>,
    classes: Seq<Seq<usize>>,
    i: int,
    c: nat,
) -> nat
    decreases classes.len() - c,
{
    if c >= classes.len() {
        classes.len()
    } else if fits(touches, classes[c as int], i) {
        c
    } else {
        first_fit(touches, classes, i, c + 1)
    }
}

/// Puts constraint `i` into class `c`, which is a new class when `c` is the
/// number of classes.
pub open spec fn put(classes: Seq<Seq<usize>>, c: nat, i: usize) -> Seq<Seq<usize>> {
    if c < classes.len() {
        classes.update(c as int, classes[c as int].push(i))
    } else {
        classes.push(seq![i])
    }
}

/// The classes after the first `n` constraints: each goes, in index order,
/// into the first class it fits, or into a new one.
pub open spec fn greedy_classes(touches: Seq<Reach>, n: nat) -> Seq<Seq<usize>>
    decreases n,
{
    if n == 0 {
        Seq::empty()
    } else {
        let before = greedy_classes(touches, (n - 1) as nat);
        put(before, first_fit(touches, before, n - 1, 0), (n - 1) as usize)
    }
}

/// The rows of a table as sequences.
pub open spec fn rows(table: Seq<Vec<usize>>) -> Seq<Seq<usize>> {
    table.map_values(|row: Vec<usize>| row@)
}

/// `i` is in exactly one class, at exactly one place.
pub open spec fn placed_once(classes: Seq<Seq<usize>>, i: usize) -> bool {
    exists|c: int, k: int|
        #![trigger classes[c][k]]
        {
            &&& 0 <= c < classes.len()
            &&& 0 <= k < classes[c].len()
            &&& classes[c][k] == i
            &&& forall|d: int, l: int|
                #![trigger classes[d][l]]
                0 <= d < classes.len() && 0 <= l < classes[d].len() && classes[d][l] == i ==> d == c
                    && l == k
        }
}

/// A coloring of `n` constraints: every class holds constraint indices in
/// ascending order, no two members of a class share state, every class has a
/// member, and every constraint is placed once.
pub open spec fn valid_coloring(touches: Seq<Reach>, classes: Seq<Seq<usize>>) -> bool {
    &&& forall|c: int|
        0 <= c < classes.len() ==> (#[trigger] classes[c]).len() > 0
    &&& forall|c: int, k: int|
        #![trigger classes[c][k]]
        0 <= c < classes.len() && 0 <= k < classes[c].len() ==> classes[c][k] < touches.len()
    &&& forall|c: int, k: int, l: int|
        #![trigger classes[c][k], classes[c][l]]
        0 <= c < classes.len() && 0 <= k < l < classes[c].len() ==> {
            &&& classes[c][k] < classes[c][l]
            &&& !touches[classes[c][k] as int].meets(touches[classes[c][l] as int])
        }
    &&& forall|i: usize| #![trigger placed_once(classes, i)] i < touches.len() ==> placed_once(classes, i)
}

/// Placing constraint `n` into the first class it fits keeps a coloring valid.
proof fn put_keeps_valid(touches: Seq<Reach>, classes: Seq<Seq<usize>>, n: nat)
    requires
        n < touches.len(),
        touches.len() <= usize::MAX,
        valid_coloring(touches.take(n as int), classes),
    ensures
        valid_coloring(
            touches.take(n as int + 1),
            put(classes, first_fit(touches, classes, n as int, 0), n as usize),
        ),
{
    let before = touches.take(n as int);
    let after = touches.take(n as int + 1);
    let c0 = first_fit(touches, classes, n as int, 0);
    first_fit_fits(touches, classes, n as int, 0);
    let next = put(classes, c0, n as usize);
    assert forall|c: int, k: int, l: int|
        #![trigger next[c][k], next[c][l]]
        0 <= c < next.len() && 0 <= k < l < next[c].len() implies {
        &&& next[c][k] < next[c][l]
        &&& !after[next[c][k] as int].meets(after[next[c][l] as int])
    } by {
        if c < classes.len() && l < classes[c].len() {
            assert(next[c][k] == classes[c][k] && next[c][l] == classes[c][l]);
            assert(before[classes[c][k] as int] == touches[classes[c][k] as int]);
            assert(before[classes[c][l] as int] == touches[classes[c][l] as int]);
        } else {
            assert(c == c0 && c < classes.len() && l == classes[c].len());
            assert(next[c][k] == classes[c][k]);
            assert(classes[c][k] < n);
            assert(!touches[n as int].meets(touches[classes[c][k] as int]));
            meets_is_symmetric(touches[n as int], touches[classes[c][k] as int]);
        }
    }
    assert forall|c: int, k: int|
        #![trigger next[c][k]]
        0 <= c < next.len() && 0 <= k < next[c].len() implies next[c][k] < after.len() by {
        if c < classes.len() && k < classes[c].len() {
            assert(next[c][k] == classes[c][k]);
        }
    }
    assert forall|c: int| 0 <= c < next.len() implies (#[trigger] next[c]).len() > 0 by {
        if c < classes.len() {
            assert(classes[c].len() > 0);
        }
    }
    assert forall|i: usize|
        #![trigger placed_once(next, i)]
        i < after.len() implies placed_once(next, i) by {
        if i < n {
            assert(placed_once(classes, i));
            let (c, k) = choose|c: int, k: int|
                #![trigger classes[c][k]]
                {
                    &&& 0 <= c < classes.len()
                    &&& 0 <= k < classes[c].len()
                    &&& classes[c][k] == i
                    &&& forall|d: int, l: int|
                        #![trigger classes[d][l]]
                        0 <= d < classes.len() && 0 <= l < classes[d].len() && classes[d][l] == i
                            ==> d == c && l == k
                };
            assert(next[c][k] == i);
            assert forall|d: int, l: int|
                #![trigger next[d][l]]
                0 <= d < next.len() && 0 <= l < next[d].len() && next[d][l] == i implies d == c
                && l == k by {
                if d < classes.len() && l < classes[d].len() {
                    assert(classes[d][l] == next[d][l]);
                } else {
                    assert(next[d][l] == n);
                }
            }
        } else {
            let k: int = if c0 < classes.len() { classes[c0 as int].len() as int } else { 0 };
            assert(next[c0 as int][k] == i);
            assert forall|d: int, l: int|
                #![trigger next[d][l]]
                0 <= d < next.len() && 0 <= l < next[d].len() && next[d][l] == i implies d == c0
                && l == k by {
                if d < classes.len() && l < classes[d].len() {
                    assert(classes[d][l] == next[d][l]);
                    assert(classes[d][l] < n);
                }
            }
        }
    }
}

proof fn meets_is_symmetric(a: Reach, b: Reach)
    ensures
        a.meets(b) == b.meets(a),
{
    if a.meets(b) {
        if exists|p: usize| #[trigger] a.particles.contains(p) && b.particles.contains(p) {
            let p = choose|p: usize| #[trigger]
                a.particles.contains(p) && b.particles.contains(p);
            assert(b.particles.contains(p));
        } else {
            let q = choose|q: usize| #[trigger]
                a.orientations.contains(q) && b.orientations.contains(q);
            assert(b.orientations.contains(q));
        }
    }
    if b.meets(a) {
        if exists|p: usize| #[trigger] b.particles.contains(p) && a.particles.contains(p) {
            let p = choose|p: usize| #[trigger]
                b.particles.contains(p) && a.particles.contains(p);
            assert(a.particles.contains(p));
        } else {
            let q = choose|q: usize| #[trigger]
                b.orientations.contains(q) && a.orientations.contains(q);
            assert(a.orientations.contains(q));
        }
    }
}

/// The class found is one that fits, and no earlier one does.
proof fn first_fit_fits(touches: Seq<Reach>, classes: Seq<Seq<usize>>, i: int, c: nat)
    requires
        c <= classes.len(),
    ensures
        c <= first_fit(touches, classes, i, c) <= classes.len(),
        first_fit(touches, classes, i, c) < classes.len() ==> fits(
            touches,
            classes[first_fit(touches, classes, i, c) as int],
            i,
        ),
        forall|d: int|
            c <= d < first_fit(touches, classes, i, c) ==> !fits(touches, #[trigger] classes[d], i),
    decreases classes.len() - c,
{
    if c < classes.len() && !fits(touches, classes[c as int], i) {
        first_fit_fits(touches, classes, i, c + 1);
    }
}

/// The greedy classes are a valid coloring: every constraint lands in exactly
/// one class, and constraints that share an index never land in the same one.
pub proof fn greedy_classes_are_valid(touches: Seq<Reach>)
    requires
        touches.len() <= usize::MAX,
    ensures
        valid_coloring(touches, greedy_classes(touches, touches.len())),
{
    greedy_prefix_is_valid(touches, touches.len());
    assert(touches.take(touches.len() as int) =~= touches);
}

proof fn greedy_prefix_is_valid(touches: Seq<Reach>, n: nat)
    requires
        n <= touches.len() <= usize::MAX,
    ensures
        valid_coloring(touches.take(n as int), greedy_classes(touches, n)),
    decreases n,
{
    if n > 0 {
        greedy_prefix_is_valid(touches, (n - 1) as nat);
        put_keeps_valid(touches, greedy_classes(touches, (n - 1) as nat), (n - 1) as nat);
    }
}

/// An index is marked exactly where some member of the class has it in its list.
spec fn marks_class(marks: Seq<bool>, class: Seq<usize>, lists: Seq<Seq<usize>>) -> bool {
    forall|p: usize|
        p < marks.len() ==> (#[trigger] marks[p as int] <==> exists|k: int|
            0 <= k < class.len() && lists[#[trigger] class[k] as int].contains(p))
}

/// Whether none of `indices` is marked.
fn all_clear(marks: &Vec<bool>, indices: &Vec<usize>) -> (r: bool)
    requires
        forall|k: int| 0 <= k < indices@.len() ==> #[trigger] indices@[k] < marks@.len(),
    ensures
        r <==> forall|k: int| 0 <= k < indices@.len() ==> !marks@[#[trigger] indices@[k] as int],
{
    let mut k: usize = 0;
    while k < indices.len()
        invariant
            k <= indices@.len(),
            forall|j: int| 0 <= j < indices@.len() ==> #[trigger] indices@[j] < marks@.len(),
            forall|j: int| 0 <= j < k ==> !marks@[#[trigger] indices@[j] as int],
        decreases indices@.len() - k,
    {
        if marks[indices[k]] {
            return false;
        }
        k += 1;
    }
    true
}

/// Marks every one of `indices`.
fn mark_all(marks: &mut Vec<bool>, indices: &Vec<usize>)
    requires
        forall|k: int| 0 <= k < indices@.len() ==> #[trigger] indices@[k] < old(marks)@.len(),
    ensures
        final(marks)@.len() == old(marks)@.len(),
        forall|p: usize|
            p < final(marks)@.len() ==> (#[trigger] final(marks)@[p as int] <==> old(
                marks,
            )@[p as int] || indices@.contains(p)),
{
    let ghost before = marks@;
    let mut k: usize = 0;
    while k < indices.len()
        invariant
            k <= indices@.len(),
            marks@.len() == before.len(),
            forall|j: int| 0 <= j < indices@.len() ==> #[trigger] indices@[j] < before.len(),
            forall|p: usize|
                p < marks@.len() ==> (#[trigger] marks@[p as int] <==> before[p as int]
                    || indices@.take(k as int).contains(p)),
        decreases indices@.len() - k,
    {
        let ghost prev = marks@;
        let i: usize = indices[k];
        marks.set(i, true);
        proof {
            let a = indices@.take(k as int);
            let b = indices@.take(k as int + 1);
            assert(b =~= a.push(i));
            assert forall|p: usize| p < marks@.len() implies (#[trigger] marks@[p as int]
                <==> before[p as int] || b.contains(p)) by {
                if a.contains(p) {
                    let j = choose|j: int| 0 <= j < a.len() && a[j] == p;
                    assert(b[j] == p);
                }
                if b.contains(p) {
                    let j = choose|j: int| 0 <= j < b.len() && b[j] == p;
                    if j < k {
                        assert(a[j] == p);
                    }
                }
                assert(b[k as int] == i);
                assert(prev[p as int] <==> before[p as int] || a.contains(p));
            }
        }
        k += 1;
    }
    proof {
        assert(indices@.take(indices@.len() as int) =~= indices@);
    }
}

/// The particle lists of the constraints.
spec fn particle_lists(touches: Seq<Reach>) -> Seq<Seq<usize>> {
    touches.map_values(|t: Reach| t.particles)
}

/// The orientation lists of the constraints.
spec fn orientation_lists(touches: Seq<Reach>) -> Seq<Seq<usize>> {
    touches.map_values(|t: Reach| t.orientations)
}

/// A class is clear at all indices of a constraint exactly when the
/// constraint fits it.
proof fn clear_is_fit(
    touches: Seq<Reach>,
    class: Seq<usize>,
    i: int,
    p_marks: Seq<bool>,
    q_marks: Seq<bool>,
)
    requires
        0 <= i < touches.len(),
        touches[i].within(p_marks.len(), q_marks.len()),
        marks_class(p_marks, class, particle_lists(touches)),
        marks_class(q_marks, class, orientation_lists(touches)),
        forall|k: int| 0 <= k < class.len() ==> (#[trigger] class[k]) < touches.len(),
    ensures
        fits(touches, class, i) <==> ({
            &&& forall|k: int|
                0 <= k < touches[i].particles.len()
                    ==> !p_marks[#[trigger] touches[i].particles[k] as int]
            &&& forall|k: int|
                0 <= k < touches[i].orientations.len()
                    ==> !q_marks[#[trigger] touches[i].orientations[k] as int]
        }),
{
    let t = touches[i];
    let clear = {
        &&& forall|k: int|
            0 <= k < t.particles.len() ==> !p_marks[#[trigger] t.particles[k] as int]
        &&& forall|k: int|
            0 <= k < t.orientations.len() ==> !q_marks[#[trigger] t.orientations[k] as int]
    };
    if clear {
        assert forall|k: int| 0 <= k < class.len() implies !t.meets(
            touches[#[trigger] class[k] as int],
        ) by {
            let u = touches[class[k] as int];
            assert(particle_lists(touches)[class[k] as int] == u.particles);
            assert(orientation_lists(touches)[class[k] as int] == u.orientations);
            if t.meets(u) {
                if exists|p: usize| #[trigger] t.particles.contains(p) && u.particles.contains(p) {
                    let p = choose|p: usize| #[trigger]
                        t.particles.contains(p) && u.particles.contains(p);
                    let j = choose|j: int| 0 <= j < t.particles.len() && t.particles[j] == p;
                    assert(!p_marks[t.particles[j] as int]);
                    assert(p_marks[p as int]);
                } else {
                    let q = choose|q: usize| #[trigger]
                        t.orientations.contains(q) && u.orientations.contains(q);
                    let j = choose|j: int|
                        0 <= j < t.orientations.len() && t.orientations[j] == q;
                    assert(!q_marks[t.orientations[j] as int]);
                    assert(q_marks[q as int]);
                }
            }
        }
    }
    if fits(touches, class, i) {
        assert forall|k: int| 0 <= k < t.particles.len() implies !p_marks[
            #[trigger] t.particles[k] as int] by {
            let p = t.particles[k];
            if p_marks[p as int] {
                let m = choose|m: int|
                    0 <= m < class.len() && particle_lists(touches)[#[trigger] class[m] as int].contains(
                        p,
                    );
                assert(t.particles.contains(p));
                assert(t.meets(touches[class[m] as int]));
            }
        }
        assert forall|k: int| 0 <= k < t.orientations.len() implies !q_marks[
            #[trigger] t.orientations[k] as int] by {
            let q = t.orientations[k];
            if q_marks[q as int] {
                let m = choose|m: int|
                    0 <= m < class.len() && orientation_lists(
                        touches,
                    )[#[trigger] class[m] as int].contains(q);
                assert(t.orientations.contains(q));
                assert(t.meets(touches[class[m] as int]));
            }
        }
    }
}

/// Adding a member to a class adds its indices to the marks.
proof fn marks_after_push(
    before: Seq<bool>,
    after: Seq<bool>,
    class: Seq<usize>,
    i: usize,
    lists: Seq<Seq<usize>>,
)
    requires
        marks_class(before, class, lists),
        after.len() == before.len(),
        forall|p: usize|
            p < after.len() ==> (#[trigger] after[p as int] <==> before[p as int]
                || lists[i as int].contains(p)),
    ensures
        marks_class(after, class.push(i), lists),
{
    let next = class.push(i);
    assert forall|p: usize| p < after.len() implies (#[trigger] after[p as int] <==> exists|k: int|
        0 <= k < next.len() && lists[#[trigger] next[k] as int].contains(p)) by {
        if before[p as int] {
            let k = choose|k: int|
                0 <= k < class.len() && lists[#[trigger] class[k] as int].contains(p);
            assert(next[k] == class[k]);
        }
        if lists[i as int].contains(p) {
            assert(next[class.len() as int] == i);
        }
        if exists|k: int| 0 <= k < next.len() && lists[#[trigger] next[k] as int].contains(p) {
            let k = choose|k: int|
                0 <= k < next.len() && lists[#[trigger] next[k] as int].contains(p);
            if k < class.len() {
                assert(class[k] == next[k]);
            }
        }
    }
}

/// A table of `n` cleared marks.
fn cleared(n: usize) -> (r: Vec<bool>)
    ensures
        r@.len() == n,
        forall|p: int| 0 <= p < n ==> !#[trigger] r@[p],
{
    let mut v: Vec<bool> = Vec::new();
    let mut i: usize = 0;
    while i < n
        invariant
            i <= n,
            v@.len() == i,
            forall|p: int| 0 <= p < i ==> !#[trigger] v@[p],
        decreases n - i,
    {
        v.push(false);
        i += 1;
    }
    v
}

/// Greedy graph coloring over one constraint list: each constraint goes, in
/// index order, into the first class none of whose members share an index
/// with it, or into a new class.
#[verifier::loop_isolation(false)]
pub fn greedy_color(touches: &Vec<Touch>, n_particles: usize, n_orientations: usize) -> (r: Vec<
    Vec<usize>,
>)
    requires
        forall|i: int|
            0 <= i < touches@.len() ==> (#[trigger] touches@[i])@.within(
                n_particles as nat,
                n_orientations as nat,
            ),
    ensures
        rows(r@) == greedy_classes(reach_of(touches@), touches@.len()),
        valid_coloring(reach_of(touches@), rows(r@)),
{
    let mut colors: Vec<Vec<usize>> = Vec::new();
    let mut p_used: Vec<Vec<bool>> = Vec::new();
    let mut q_used: Vec<Vec<bool>> = Vec::new();
    let ghost ts = reach_of(touches@);
    let ghost pl = particle_lists(ts);
    let ghost ql = orientation_lists(ts);
    let mut idx: usize = 0;
    proof {
        assert(rows(colors@) =~= greedy_classes(ts, 0));
    }
    while idx < touches.len()
        invariant
            idx <= ts.len(),
            rows(colors@) == greedy_classes(ts, idx as nat),
            p_used@.len() == colors@.len(),
            q_used@.len() == colors@.len(),
            forall|c: int|
                #![trigger p_used@[c]]
                0 <= c < colors@.len() ==> p_used@[c]@.len() == n_particles && marks_class(
                    p_used@[c]@,
                    colors@[c]@,
                    pl,
                ),
            forall|c: int|
                #![trigger q_used@[c]]
                0 <= c < colors@.len() ==> q_used@[c]@.len() == n_orientations && marks_class(
                    q_used@[c]@,
                    colors@[c]@,
                    ql,
                ),
            forall|c: int, k: int|
                #![trigger colors@[c]@[k]]
                0 <= c < colors@.len() && 0 <= k < colors@[c]@.len() ==> colors@[c]@[k] < idx,
        decreases ts.len() - idx,
    {
        let t: &Touch = &touches[idx];
        let ghost classes = rows(colors@);
        assert(t@.within(n_particles as nat, n_orientations as nat));
        let mut c: usize = 0;
        let mut free: bool = false;
        while c < colors.len() && !free
            invariant
                c <= colors@.len(),
                first_fit(ts, classes, idx as int, 0) == first_fit(ts, classes, idx as int, c as nat),
                free ==> c < colors@.len() && first_fit(ts, classes, idx as int, 0) == c,
            decreases colors@.len() - c, if free { 0int } else { 1 },
        {
            proof {
                assert(p_used@[c as int]@.len() == n_particles);
                assert(q_used@[c as int]@.len() == n_orientations);
                clear_is_fit(ts, colors@[c as int]@, idx as int, p_used@[c as int]@, q_used@[c as int]@);
                assert(classes[c as int] == colors@[c as int]@);
            }
            if all_clear(&p_used[c], &t.particles) && all_clear(&q_used[c], &t.orientations) {
                free = true;
            } else {
                c += 1;
            }
        }
        if !free {
            let ghost p_prev = p_used@;
            let ghost q_prev = q_used@;
            let ghost prev = colors@;
            let class: Vec<usize> = Vec::new();
            colors.push(class);
            p_used.push(cleared(n_particles));
            q_used.push(cleared(n_orientations));
            proof {
                assert forall|d: int|
                    #![trigger p_used@[d]]
                    0 <= d < colors@.len() implies p_used@[d]@.len() == n_particles && marks_class(
                    p_used@[d]@,
                    colors@[d]@,
                    pl,
                ) by {
                    if d < prev.len() {
                        assert(p_used@[d] == p_prev[d]);
                    }
                }
                assert forall|d: int|
                    #![trigger q_used@[d]]
                    0 <= d < colors@.len() implies q_used@[d]@.len() == n_orientations
                    && marks_class(q_used@[d]@, colors@[d]@, ql) by {
                    if d < prev.len() {
                        assert(q_used@[d] == q_prev[d]);
                    }
                }
            }
        }
        let ghost p_prev = p_used@;
        let ghost q_prev = q_used@;
        let ghost prev = colors@;
        proof {
            assert(p_used@[c as int]@.len() == n_particles);
            assert(q_used@[c as int]@.len() == n_orientations);
        }
        mark_all(&mut p_used[c], &t.particles);
        mark_all(&mut q_used[c], &t.orientations);
        colors[c].push(idx);
        proof {
            assert(pl[idx as int] == t.particles@);
            assert(ql[idx as int] == t.orientations@);
            marks_after_push(p_prev[c as int]@, p_used@[c as int]@, prev[c as int]@, idx, pl);
            marks_after_push(q_prev[c as int]@, q_used@[c as int]@, prev[c as int]@, idx, ql);
            assert(rows(colors@) =~= put(classes, c as nat, idx)) by {
                assert forall|d: int| 0 <= d < colors@.len() implies rows(colors@)[d] =~= put(
                    classes,
                    c as nat,
                    idx,
                )[d] by {
                    if d != c {
                        assert(colors@[d] == prev[d]);
                    }
                }
            }
        }
        idx += 1;
    }
    proof {
        greedy_classes_are_valid(ts);
    }
    colors
}

/// A class this big is worth handing to worker threads; a smaller one runs on
/// the calling thread.
pub const MIN_PAR_CLASS: usize = 256;

/// The least number of constraints in one piece of work for a thread.
pub const MIN_PAR_PIECE: usize = 128;

/// Whether a color class is solved by worker threads.
pub fn class_runs_parallel(class: &Vec<usize>) -> (r: bool)
    ensures
        r == (class@.len() >= MIN_PAR_CLASS),
{
    class.len() >= MIN_PAR_CLASS
}

/// A piece of solver state: a particle, an orientation, or what a constraint
/// keeps for itself.
pub enum Cell {
    Particle(usize),
    Orientation(usize),
    Own(usize),
}

/// Constraint `i` reads or writes the cell.
pub open spec fn reaches(touches: Seq<Reach>, i: int, cell: Cell) -> bool {
    match cell {
        Cell::Particle(p) => touches[i].particles.contains(p),
        Cell::Orientation(q) => touches[i].orientations.contains(q),
        Cell::Own(k) => k == i,
    }
}

/// Two states agree on what constraint `i` reaches.
pub open spec fn agree<V>(
    touches: Seq<Reach>,
    i: int,
    a: spec_fn(Cell) -> V,
    b: spec_fn(Cell) -> V,
) -> bool {
    forall|cell: Cell| reaches(touches, i, cell) ==> #[trigger] a(cell) == b(cell)
}

/// A projection of one constraint that changes only the cells the constraint
/// reaches, and whose outcome there depends on those cells alone.
pub open spec fn local_kernel<V>(
    touches: Seq<Reach>,
    kernel: spec_fn(spec_fn(Cell) -> V, int) -> spec_fn(Cell) -> V,
) -> bool {
    &&& forall|s: spec_fn(Cell) -> V, i: int, cell: Cell|
        #![trigger kernel(s, i)(cell)]
        0 <= i < touches.len() && !reaches(touches, i, cell) ==> kernel(s, i)(cell) == s(cell)
    &&& forall|a: spec_fn(Cell) -> V, b: spec_fn(Cell) -> V, i: int|
        #![trigger kernel(a, i), kernel(b, i)]
        0 <= i < touches.len() && agree(touches, i, a, b) ==> agree(
            touches,
            i,
            kernel(a, i),
            kernel(b, i),
        )
}

/// Projects the constraints of `order` one after the other.
pub open spec fn sweep<V>(
    kernel: spec_fn(spec_fn(Cell) -> V, int) -> spec_fn(Cell) -> V,
    s: spec_fn(Cell) -> V,
    order: Seq<usize>,
) -> spec_fn(Cell) -> V
    decreases order.len(),
{
    if order.len() == 0 {
        s
    } else {
        kernel(sweep(kernel, s, order.drop_last()), order.last() as int)
    }
}

/// The same members, each once, in some order.
pub open spec fn reorders(order: Seq<usize>, class: Seq<usize>) -> bool {
    &&& order.no_duplicates()
    &&& forall|i: usize| #[trigger] order.contains(i) <==> class.contains(i)
}

/// After a sweep over constraints that share nothing, a cell is what the one
/// constraint that reaches it makes of the starting state.
proof fn sweep_cell<V>(
    touches: Seq<Reach>,
    kernel: spec_fn(spec_fn(Cell) -> V, int) -> spec_fn(Cell) -> V,
    s: spec_fn(Cell) -> V,
    order: Seq<usize>,
    cell: Cell,
)
    requires
        local_kernel(touches, kernel),
        order.no_duplicates(),
        forall|j: int| 0 <= j < order.len() ==> (#[trigger] order[j]) < touches.len(),
        forall|j: int, k: int|
            #![trigger order[j], order[k]]
            0 <= j < order.len() && 0 <= k < order.len() && j != k ==> !touches[order[j] as int].meets(
                touches[order[k] as int],
            ),
    ensures
        forall|j: int|
            0 <= j < order.len() && reaches(touches, (#[trigger] order[j]) as int, cell) ==> sweep(
                kernel,
                s,
                order,
            )(cell) == kernel(s, order[j] as int)(cell),
        (forall|j: int|
            0 <= j < order.len() ==> !reaches(touches, (#[trigger] order[j]) as int, cell)) ==> sweep(
            kernel,
            s,
            order,
        )(cell) == s(cell),
    decreases order.len(),
{
    if order.len() > 0 {
        let prefix = order.drop_last();
        let last = order.last() as int;
        let n = order.len() - 1;
        let mid = sweep(kernel, s, prefix);
        assert(forall|j: int| 0 <= j < prefix.len() ==> prefix[j] == order[j]);
        sweep_cell(touches, kernel, s, prefix, cell);
        assert(order[n] == last);
        if reaches(touches, last, cell) {
            assert forall|x: Cell| reaches(touches, last, x) implies #[trigger] mid(x) == s(x) by {
                sweep_cell(touches, kernel, s, prefix, x);
                assert forall|j: int| 0 <= j < prefix.len() implies !reaches(
                    touches,
                    (#[trigger] prefix[j]) as int,
                    x,
                ) by {
                    assert(order[j] == prefix[j]);
                    reach_apart(touches, order[j] as int, last, x);
                }
            }
            assert(agree(touches, last, mid, s));
            assert(agree(touches, last, kernel(mid, last), kernel(s, last)));
            assert(kernel(mid, last)(cell) == kernel(s, last)(cell));
            assert forall|j: int|
                0 <= j < order.len() && reaches(touches, (#[trigger] order[j]) as int, cell) implies j
                == n by {
                if j != n {
                    reach_apart(touches, order[j] as int, last, cell);
                }
            }
        } else {
            assert(kernel(mid, last)(cell) == mid(cell));
            assert forall|j: int|
                0 <= j < order.len() && reaches(
                    touches,
                    (#[trigger] order[j]) as int,
                    cell,
                ) implies sweep(kernel, s, order)(cell) == kernel(s, order[j] as int)(cell) by {
                assert(j != n);
                assert(prefix[j] == order[j]);
            }
        }
    }
}

/// Two different constraints that share nothing reach no common cell.
proof fn reach_apart(touches: Seq<Reach>, i: int, j: int, cell: Cell)
    requires
        i != j,
        !touches[i].meets(touches[j]),
    ensures
        !(reaches(touches, i, cell) && reaches(touches, j, cell)),
{
    match cell {
        Cell::Particle(p) => {
            assert(!(touches[i].particles.contains(p) && touches[j].particles.contains(p)));
        },
        Cell::Orientation(q) => {
            assert(!(touches[i].orientations.contains(q) && touches[j].orientations.contains(q)));
        },
        Cell::Own(k) => {},
    }
}

/// The members of a color class are constraints, each there once, and no two
/// share anything.
proof fn class_members_are_apart(touches: Seq<Reach>, classes: Seq<Seq<usize>>, c: int)
    requires
        valid_coloring(touches, classes),
        0 <= c < classes.len(),
    ensures
        classes[c].no_duplicates(),
        forall|j: int| 0 <= j < classes[c].len() ==> (#[trigger] classes[c][j]) < touches.len(),
        forall|j: int, k: int|
            #![trigger classes[c][j], classes[c][k]]
            0 <= j < classes[c].len() && 0 <= k < classes[c].len() && j != k
                ==> !touches[classes[c][j] as int].meets(touches[classes[c][k] as int]),
{
    let class = classes[c];
    assert forall|j: int, k: int|
        #![trigger class[j], class[k]]
        0 <= j < class.len() && 0 <= k < class.len() && j != k implies class[j] != class[k]
        && !touches[class[j] as int].meets(touches[class[k] as int]) by {
        if j > k {
            meets_is_symmetric(touches[class[j] as int], touches[class[k] as int]);
            assert(classes[c][k] < classes[c][j]);
        } else {
            assert(classes[c][j] < classes[c][k]);
        }
    }
}

/// Within a color class the order of the projections does not matter: solving
/// the members in any order gives the state that index order gives.
pub proof fn class_order_is_irrelevant<V>(
    touches: Seq<Reach>,
    classes: Seq<Seq<usize>>,
    c: int,
    order: Seq<usize>,
    kernel: spec_fn(spec_fn(Cell) -> V, int) -> spec_fn(Cell) -> V,
    s: spec_fn(Cell) -> V,
)
    requires
        valid_coloring(touches, classes),
        0 <= c < classes.len(),
        reorders(order, classes[c]),
        local_kernel(touches, kernel),
    ensures
        sweep(kernel, s, order) == sweep(kernel, s, classes[c]),
{
    let class = classes[c];
    class_members_are_apart(touches, classes, c);
    assert forall|j: int| 0 <= j < order.len() implies (#[trigger] order[j]) < touches.len() by {
        assert(order.contains(order[j]));
        let k = choose|k: int| 0 <= k < class.len() && class[k] == order[j];
        assert(class[k] < touches.len());
    }
    assert forall|j: int, k: int|
        #![trigger order[j], order[k]]
        0 <= j < order.len() && 0 <= k < order.len() && j != k implies !touches[order[j] as int].meets(
        touches[order[k] as int],
    ) by {
        assert(order.contains(order[j]) && order.contains(order[k]));
        let a = choose|a: int| 0 <= a < class.len() && class[a] == order[j];
        let b = choose|b: int| 0 <= b < class.len() && class[b] == order[k];
        assert(class[a] != class[b]);
    }
    assert forall|cell: Cell| #[trigger]
        sweep(kernel, s, order)(cell) == sweep(kernel, s, class)(cell) by {
        sweep_cell(touches, kernel, s, order, cell);
        sweep_cell(touches, kernel, s, class, cell);
        if exists|j: int| 0 <= j < order.len() && reaches(touches, (#[trigger] order[j]) as int, cell) {
            let j = choose|j: int|
                0 <= j < order.len() && reaches(touches, (#[trigger] order[j]) as int, cell);
            assert(order.contains(order[j]));
            let k = choose|k: int| 0 <= k < class.len() && class[k] == order[j];
            assert(class[k] == order[j]);
        } else {
            assert forall|k: int| 0 <= k < class.len() implies !reaches(
                touches,
                (#[trigger] class[k]) as int,
                cell,
            ) by {
                assert(class.contains(class[k]));
                assert(order.contains(class[k]));
                let j = choose|j: int| 0 <= j < order.len() && order[j] == class[k];
                assert(order[j] == class[k]);
            }
        }
    }
    assert(sweep(kernel, s, order) =~= sweep(kernel, s, class));
}

/// The members of a color class can be solved at once: what the sweep leaves in
/// a cell is what the one member that reaches it makes of the state before the
/// class, and a cell that none reaches stays.
pub proof fn class_is_solved_at_once<V>(
    touches: Seq<Reach>,
    classes: Seq<Seq<usize>>,
    c: int,
    kernel: spec_fn(spec_fn(Cell) -> V, int) -> spec_fn(Cell) -> V,
    s: spec_fn(Cell) -> V,
    cell: Cell,
)
    requires
        valid_coloring(touches, classes),
        0 <= c < classes.len(),
        local_kernel(touches, kernel),
    ensures
        forall|j: int|
            0 <= j < classes[c].len() && reaches(touches, (#[trigger] classes[c][j]) as int, cell)
                ==> sweep(kernel, s, classes[c])(cell) == kernel(s, classes[c][j] as int)(cell),
        (forall|j: int|
            0 <= j < classes[c].len() ==> !reaches(
                touches,
                (#[trigger] classes[c][j]) as int,
                cell,
            )) ==> sweep(kernel, s, classes[c])(cell) == s(cell),
{
    let class = classes[c];
    class_members_are_apart(touches, classes, c);
    sweep_cell(touches, kernel, s, class, cell);
}

/// Solves the first `n` classes one after another.
pub open spec fn classes_swept<V>(
    kernel: spec_fn(spec_fn(Cell) -> V, int) -> spec_fn(Cell) -> V,
    s: spec_fn(Cell) -> V,
    classes: Seq<Seq<usize>>,
    n: nat,
) -> spec_fn(Cell) -> V
    decreases n,
{
    if n == 0 {
        s
    } else {
        sweep(kernel, classes_swept(kernel, s, classes, (n - 1) as nat), classes[n - 1])
    }
}

/// The members of the first `n` classes in the order in which they are solved.
pub open spec fn in_line(classes: Seq<Seq<usize>>, n: nat) -> Seq<usize>
    decreases n,
{
    if n == 0 {
        Seq::empty()
    } else {
        in_line(classes, (n - 1) as nat) + classes[n - 1]
    }
}

/// A sweep over a list is a sweep over its beginning and one over the rest.
proof fn sweep_splits<V>(
    kernel: spec_fn(spec_fn(Cell) -> V, int) -> spec_fn(Cell) -> V,
    s: spec_fn(Cell) -> V,
    a: Seq<usize>,
    b: Seq<usize>,
)
    ensures
        sweep(kernel, s, a + b) == sweep(kernel, sweep(kernel, s, a), b),
    decreases b.len(),
{
    if b.len() == 0 {
        assert(a + b =~= a);
    } else {
        sweep_splits(kernel, s, a, b.drop_last());
        assert((a + b).drop_last() =~= a + b.drop_last());
    }
}

/// Sweeping class by class is a serial sweep over the members of the classes in
/// line; where each class has one member, in index order, it is the serial sweep
/// over all constraints.
pub proof fn classes_sweep_in_line<V>(
    kernel: spec_fn(spec_fn(Cell) -> V, int) -> spec_fn(Cell) -> V,
    s: spec_fn(Cell) -> V,
    classes: Seq<Seq<usize>>,
    n: nat,
)
    requires
        n <= classes.len(),
    ensures
        classes_swept(kernel, s, classes, n) == sweep(kernel, s, in_line(classes, n)),
        (forall|k: int| 0 <= k < n ==> #[trigger] classes[k] == seq![k as usize]) ==> in_line(
            classes,
            n,
        ) == Seq::new(n, |k: int| k as usize),
    decreases n,
{
    if n > 0 {
        classes_sweep_in_line(kernel, s, classes, (n - 1) as nat);
        sweep_splits(kernel, s, in_line(classes, (n - 1) as nat), classes[n - 1]);
        if forall|k: int| 0 <= k < n ==> #[trigger] classes[k] == seq![k as usize] {
            assert(classes[n - 1] == seq![(n - 1) as usize]);
            assert(in_line(classes, n) =~= Seq::new(n, |k: int| k as usize));
        }
    }
}

} // verus!
