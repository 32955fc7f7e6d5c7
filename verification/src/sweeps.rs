//! Sweeps over the rods: what holds of solving all segments or all joints in
//! turn.
//!
//! A solve is a function of what it reads, so it stands here as one: given the
//! state, the constraint and the component, it yields its numbers.
use crate::constraints::{BendTwistConstraint, ConstraintState, StretchShearConstraint};
use crate::kernels::{
    joint_loaded, joint_turned, segment_loaded, segment_moved, segment_turned, BendTwistSolve,
    Component, StretchShearSolve,
};
use crate::scalar::{Quat, Scalar, Vec3};
use vstd::prelude::*;

verus! {

/// One component of a joint is solved and settled: the orientations and the
/// joint after it.
pub open spec fn joint_part_solved(
    quats: Seq<Quat>,
    c: BendTwistConstraint,
    part: Component,
    solve: spec_fn(Seq<Quat>, BendTwistConstraint, Component) -> BendTwistSolve,
) -> (Seq<Quat>, BendTwistConstraint) {
    let s = solve(quats, c, part);
    (joint_turned(quats, c, s), joint_loaded(c, part, s))
}

/// A joint is solved, component by component.
pub open spec fn joint_solved(
    quats: Seq<Quat>,
    c: BendTwistConstraint,
    solve: spec_fn(Seq<Quat>, BendTwistConstraint, Component) -> BendTwistSolve,
) -> (Seq<Quat>, BendTwistConstraint) {
    let x = joint_part_solved(quats, c, Component::X, solve);
    let y = joint_part_solved(x.0, x.1, Component::Y, solve);
    joint_part_solved(y.0, y.1, Component::Z, solve)
}

/// The orientations, and the first `n` joints, after these are solved one after
/// another.
pub open spec fn joints_swept(
    quats: Seq<Quat>,
    joints: Seq<BendTwistConstraint>,
    solve: spec_fn(Seq<Quat>, BendTwistConstraint, Component) -> BendTwistSolve,
    n: nat,
) -> (Seq<Quat>, Seq<BendTwistConstraint>)
    decreases n,
{
    if n == 0 {
        (quats, Seq::empty())
    } else {
        let before = joints_swept(quats, joints, solve, (n - 1) as nat);
        let done = joint_solved(before.0, joints[n - 1], solve);
        (done.0, before.1.push(done.1))
    }
}

/// The joints of the first `n` that are not broken.
pub open spec fn unbroken(joints: Seq<BendTwistConstraint>, n: nat) -> Seq<BendTwistConstraint>
    decreases n,
{
    if n == 0 {
        Seq::empty()
    } else if joints[n - 1].state == ConstraintState::Broken {
        unbroken(joints, (n - 1) as nat)
    } else {
        unbroken(joints, (n - 1) as nat).push(joints[n - 1])
    }
}

/// A sweep over the first joints takes no notice of the others.
proof fn sweep_of_prefix(
    quats: Seq<Quat>,
    a: Seq<BendTwistConstraint>,
    b: Seq<BendTwistConstraint>,
    solve: spec_fn(Seq<Quat>, BendTwistConstraint, Component) -> BendTwistSolve,
    n: nat,
)
    requires
        n <= a.len(),
        n <= b.len(),
        forall|k: int| 0 <= k < n ==> #[trigger] a[k] == b[k],
    ensures
        joints_swept(quats, a, solve, n) == joints_swept(quats, b, solve, n),
    decreases n,
{
    if n > 0 {
        sweep_of_prefix(quats, a, b, solve, (n - 1) as nat);
        assert(a[n - 1] == b[n - 1]);
    }
}

proof fn unbroken_of_prefix(a: Seq<BendTwistConstraint>, b: Seq<BendTwistConstraint>, n: nat)
    requires
        n <= a.len(),
        n <= b.len(),
        forall|k: int| 0 <= k < n ==> #[trigger] a[k] == b[k],
    ensures
        unbroken(a, n) == unbroken(b, n),
    decreases n,
{
    if n > 0 {
        unbroken_of_prefix(a, b, (n - 1) as nat);
        assert(a[n - 1] == b[n - 1]);
    }
}

/// A broken joint is not solved: a sweep turns the segments as one over the
/// joints that are not broken does, and gives these the multipliers they have
/// there. A broken joint stays as it is, and no joint's state changes.
pub proof fn broken_joints_are_passed_over(
    quats: Seq<Quat>,
    joints: Seq<BendTwistConstraint>,
    solve: spec_fn(Seq<Quat>, BendTwistConstraint, Component) -> BendTwistSolve,
    n: nat,
)
    requires
        n <= joints.len(),
    ensures
        ({
            let swept = joints_swept(quats, joints, solve, n);
            let sound = unbroken(joints, n);
            let alone = joints_swept(quats, sound, solve, sound.len());
            &&& swept.0 == alone.0
            &&& swept.1.len() == n
            &&& unbroken(swept.1, n) == alone.1
            &&& forall|k: int|
                0 <= k < n && joints[k].state == ConstraintState::Broken
                    ==> #[trigger] swept.1[k] == joints[k]
            &&& forall|k: int| 0 <= k < n ==> (#[trigger] swept.1[k]).state == joints[k].state
        }),
    decreases n,
{
    if n > 0 {
        let m = (n - 1) as nat;
        broken_joints_are_passed_over(quats, joints, solve, m);
        let before = joints_swept(quats, joints, solve, m);
        let swept = joints_swept(quats, joints, solve, n);
        let sound = unbroken(joints, m);
        unbroken_of_prefix(swept.1, before.1, m);
        if joints[m as int].state != ConstraintState::Broken {
            sweep_of_prefix(quats, unbroken(joints, n), sound, solve, sound.len());
        }
        assert forall|k: int| 0 <= k < n implies (#[trigger] swept.1[k]).state
            == joints[k].state && (joints[k].state == ConstraintState::Broken ==> swept.1[k]
            == joints[k]) by {
            if k < m {
                assert(swept.1[k] == before.1[k]);
            }
        }
    }
}

/// The places, the orientations and the segments of the rods.
#[verifier::ext_equal]
pub struct Rods {
    pub places: Seq<Vec3>,
    pub quats: Seq<Quat>,
    pub segments: Seq<StretchShearConstraint>,
}

/// One component of segment `k` is solved and settled.
pub open spec fn segment_part_solved(
    inv_mass: Seq<Scalar>,
    rods: Rods,
    k: int,
    part: Component,
    solve: spec_fn(Rods, int, Component) -> StretchShearSolve,
) -> Rods {
    let c = rods.segments[k];
    let s = solve(rods, k, part);
    Rods {
        places: segment_moved(inv_mass, rods.places, c, s),
        quats: segment_turned(rods.quats, c, s),
        segments: rods.segments.update(k, segment_loaded(c, part, s)),
    }
}

/// A segment, and the component of it that is solved.
pub struct Turn {
    pub segment: int,
    pub part: Component,
}

/// The rods after the turns, one after another.
pub open spec fn turns_taken(
    inv_mass: Seq<Scalar>,
    rods: Rods,
    turns: Seq<Turn>,
    solve: spec_fn(Rods, int, Component) -> StretchShearSolve,
) -> Rods
    decreases turns.len(),
{
    if turns.len() == 0 {
        rods
    } else {
        let t = turns.last();
        segment_part_solved(
            inv_mass,
            turns_taken(inv_mass, rods, turns.drop_last(), solve),
            t.segment,
            t.part,
            solve,
        )
    }
}

/// The turns of the serial sweep over `n` segments: segment by segment, the
/// components of each in turn.
pub open spec fn serial_turns(n: nat) -> Seq<Turn>
    decreases n,
{
    if n == 0 {
        Seq::empty()
    } else {
        serial_turns((n - 1) as nat) + seq![
            Turn { segment: n - 1, part: Component::X },
            Turn { segment: n - 1, part: Component::Y },
            Turn { segment: n - 1, part: Component::Z },
        ]
    }
}

/// One component of all members of a class.
pub open spec fn part_turns(class: Seq<usize>, part: Component) -> Seq<Turn> {
    class.map_values(|k: usize| Turn { segment: k as int, part })
}

/// The turns of the sweep over the first `n` classes: class by class, each
/// component of all members before the next.
pub open spec fn colored_turns(classes: Seq<Seq<usize>>, n: nat) -> Seq<Turn>
    decreases n,
{
    if n == 0 {
        Seq::empty()
    } else {
        let class = classes[n - 1];
        colored_turns(classes, (n - 1) as nat) + part_turns(class, Component::X) + part_turns(
            class,
            Component::Y,
        ) + part_turns(class, Component::Z)
    }
}

/// Classes of one member each, in index order, give the serial sweep.
pub proof fn single_classes_are_serial(
    inv_mass: Seq<Scalar>,
    rods: Rods,
    classes: Seq<Seq<usize>>,
    solve: spec_fn(Rods, int, Component) -> StretchShearSolve,
    n: nat,
)
    requires
        n <= classes.len() <= usize::MAX,
        forall|k: int| 0 <= k < n ==> #[trigger] classes[k] == seq![k as usize],
    ensures
        colored_turns(classes, n) == serial_turns(n),
        turns_taken(inv_mass, rods, colored_turns(classes, n), solve) == turns_taken(
            inv_mass,
            rods,
            serial_turns(n),
            solve,
        ),
    decreases n,
{
    if n > 0 {
        single_classes_are_serial(inv_mass, rods, classes, solve, (n - 1) as nat);
        assert(classes[n - 1] == seq![(n - 1) as usize]);
        assert(colored_turns(classes, n) =~= serial_turns(n));
    }
}

} // verus!
