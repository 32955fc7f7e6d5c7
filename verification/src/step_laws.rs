//! What a step consists of, whatever the switches of the world are.
use crate::solver::{
    closing_phases, iteration_phases, iterations, opening_phases, solves_in_parallel,
    substep_phases, Phase,
};
use crate::world::World;
use vstd::prelude::*;

verus! {

/// How often a phase occurs.
pub open spec fn times(phases: Seq<Phase>, p: Phase) -> nat
    decreases phases.len(),
{
    if phases.len() == 0 {
        0
    } else {
        times(phases.drop_last(), p) + if phases.last() == p {
            1nat
        } else {
            0nat
        }
    }
}

proof fn times_of_sum(a: Seq<Phase>, b: Seq<Phase>, p: Phase)
    ensures
        times(a + b, p) == times(a, p) + times(b, p),
    decreases b.len(),
{
    if b.len() == 0 {
        assert(a + b =~= a);
    } else {
        times_of_sum(a, b.drop_last(), p);
        assert((a + b).drop_last() =~= a + b.drop_last());
    }
}

proof fn times_of_iterations(one: Seq<Phase>, n: nat, p: Phase)
    ensures
        times(iterations(one, n), p) == n * times(one, p),
    decreases n,
{
    if n > 0 {
        times_of_iterations(one, (n - 1) as nat, p);
        times_of_sum(iterations(one, (n - 1) as nat), one, p);
        assert((n - 1) * times(one, p) + times(one, p) == n * times(one, p)) by (nonlinear_arith);
    } else {
        assert(0 * times(one, p) == 0) by (nonlinear_arith);
    }
}

/// A phase occurs in a sequence of one phase once if it is that one.
proof fn times_of_one(q: Phase, p: Phase)
    ensures
        times(seq![q], p) == if p == q {
            1nat
        } else {
            0nat
        },
{
    assert(seq![q].drop_last() =~= Seq::<Phase>::empty());
    assert(times(Seq::<Phase>::empty(), p) == 0);
}

/// The phases of an iteration: each kind of constraint once, the contacts where
/// self-collision is on, the ground where ground collision is.
proof fn times_in_iteration(self_collision: bool, ground_collision: bool, p: Phase)
    ensures
        times(iteration_phases(self_collision, ground_collision), p) == match p {
            Phase::SolveDistance
            | Phase::SolveBending
            | Phase::SolveStretchShear
            | Phase::SolveBendTwist
            | Phase::SolveDihedralBending
            | Phase::SolveUnilateral => 1nat,
            Phase::SolveContacts => if self_collision { 1nat } else { 0nat },
            Phase::SolveGround => if ground_collision { 1nat } else { 0nat },
            _ => 0nat,
        },
{
    reveal_with_fuel(times, 10);
    let all = iteration_phases(self_collision, ground_collision);
    let kinds = seq![
        Phase::SolveDistance,
        Phase::SolveBending,
        Phase::SolveStretchShear,
        Phase::SolveBendTwist,
        Phase::SolveDihedralBending,
        Phase::SolveUnilateral,
    ];
    let contacts = if self_collision {
        seq![Phase::SolveContacts]
    } else {
        Seq::empty()
    };
    let ground = if ground_collision {
        seq![Phase::SolveGround]
    } else {
        Seq::empty()
    };
    assert(all =~= kinds + contacts + ground);
    times_of_sum(kinds + contacts, ground, p);
    times_of_sum(kinds, contacts, p);
    times_of_one(Phase::SolveContacts, p);
    times_of_one(Phase::SolveGround, p);
}

proof fn times_in_opening(bar: bool, self_collision: bool, p: Phase)
    ensures
        times(opening_phases(bar, self_collision), p) == match p {
            Phase::ExternalForces
            | Phase::ExternalTorques
            | Phase::LineDrag
            | Phase::CanopyAero
            | Phase::AeroCorrections
            | Phase::SparDrag
            | Phase::PredictPositions
            | Phase::PredictOrientations
            | Phase::ResetMultipliers => 1nat,
            Phase::SyncAnchors => if bar { 1nat } else { 0nat },
            Phase::DetectContacts => if self_collision { 1nat } else { 0nat },
            _ => 0nat,
        },
{
    reveal_with_fuel(times, 12);
    let always = seq![
        Phase::ExternalForces,
        Phase::ExternalTorques,
        Phase::LineDrag,
        Phase::CanopyAero,
        Phase::AeroCorrections,
        Phase::SparDrag,
        Phase::PredictPositions,
        Phase::PredictOrientations,
        Phase::ResetMultipliers,
    ];
    let sync = if bar {
        seq![Phase::SyncAnchors]
    } else {
        Seq::empty()
    };
    let detect = if self_collision {
        seq![Phase::DetectContacts]
    } else {
        Seq::empty()
    };
    assert(opening_phases(bar, self_collision) =~= sync + always + detect);
    times_of_sum(sync + always, detect, p);
    times_of_sum(sync, always, p);
    times_of_one(Phase::SyncAnchors, p);
    times_of_one(Phase::DetectContacts, p);
}

proof fn times_in_closing(bar: bool, p: Phase)
    ensures
        times(closing_phases(bar), p) == match p {
            Phase::UpdateVelocities
            | Phase::UpdateOmegas
            | Phase::CommitPositions
            | Phase::YieldAndBreak => 1nat,
            Phase::AdvanceBar => if bar { 1nat } else { 0nat },
            _ => 0nat,
        },
{
    reveal_with_fuel(times, 7);
    let always = seq![
        Phase::UpdateVelocities,
        Phase::UpdateOmegas,
        Phase::CommitPositions,
        Phase::YieldAndBreak,
    ];
    let advance = if bar {
        seq![Phase::AdvanceBar]
    } else {
        Seq::empty()
    };
    assert(closing_phases(bar) =~= always + advance);
    times_of_sum(always, advance, p);
    times_of_one(Phase::AdvanceBar, p);
}

/// How often each phase occurs in a substep depends on its own switch alone. The
/// solve phases occur once in every iteration: the contacts only where
/// self-collision is on, the ground only where ground collision is. The others
/// occur once, those of the bar only where there is one, and the detection of
/// contacts only where self-collision is on.
pub proof fn phases_occur_by_their_switch(world: World, p: Phase)
    ensures
        ({
            let n = world.cfg.iterations_per_substep as nat;
            let found = times(substep_phases(world), p);
            match p {
                Phase::SolveDistance => found == n,
                Phase::SolveBending => found == n,
                Phase::SolveStretchShear => found == n,
                Phase::SolveBendTwist => found == n,
                Phase::SolveDihedralBending => found == n,
                Phase::SolveUnilateral => found == n,
                Phase::SolveContacts => {
                    &&& world.cfg.self_collision_enabled ==> found == n
                    &&& !world.cfg.self_collision_enabled ==> found == 0
                },
                Phase::SolveGround => {
                    &&& world.cfg.ground_collision_enabled ==> found == n
                    &&& !world.cfg.ground_collision_enabled ==> found == 0
                },
                Phase::DetectContacts => {
                    &&& world.cfg.self_collision_enabled ==> found == 1
                    &&& !world.cfg.self_collision_enabled ==> found == 0
                },
                Phase::SyncAnchors | Phase::AdvanceBar => {
                    &&& world.control_bar is Some ==> found == 1
                    &&& world.control_bar is None ==> found == 0
                },
                _ => found == 1,
            }
        }),
{
    let bar = world.control_bar is Some;
    let own = world.cfg.self_collision_enabled;
    let ground = world.cfg.ground_collision_enabled;
    let n = world.cfg.iterations_per_substep as nat;
    let one = iteration_phases(own, ground);
    times_of_sum(opening_phases(bar, own) + iterations(one, n), closing_phases(bar), p);
    times_of_sum(opening_phases(bar, own), iterations(one, n), p);
    times_of_iterations(one, n, p);
    times_in_opening(bar, own, p);
    times_in_iteration(own, ground, p);
    times_in_closing(bar, p);
    assert(n * 1 == n) by (nonlinear_arith);
    assert(n * 0 == 0) by (nonlinear_arith);
}

/// The place of a phase in a substep of one iteration.
pub open spec fn place_in_substep(p: Phase) -> int {
    match p {
        Phase::SyncAnchors => 0,
        Phase::ExternalForces => 1,
        Phase::ExternalTorques => 2,
        Phase::LineDrag => 3,
        Phase::CanopyAero => 4,
        Phase::AeroCorrections => 5,
        Phase::SparDrag => 6,
        Phase::PredictPositions => 7,
        Phase::PredictOrientations => 8,
        Phase::ResetMultipliers => 9,
        Phase::DetectContacts => 10,
        Phase::SolveDistance => 11,
        Phase::SolveBending => 12,
        Phase::SolveStretchShear => 13,
        Phase::SolveBendTwist => 14,
        Phase::SolveDihedralBending => 15,
        Phase::SolveUnilateral => 16,
        Phase::SolveContacts => 17,
        Phase::SolveGround => 18,
        Phase::UpdateVelocities => 19,
        Phase::UpdateOmegas => 20,
        Phase::CommitPositions => 21,
        Phase::YieldAndBreak => 22,
        Phase::AdvanceBar => 23,
    }
}

/// One phase may follow another: it has a later place, or it begins the next
/// iteration.
pub open spec fn may_follow(p: Phase, q: Phase) -> bool {
    place_in_substep(p) < place_in_substep(q) || (q == Phase::SolveDistance && 11
        <= place_in_substep(p) <= 18)
}

spec fn in_turn(s: Seq<Phase>) -> bool {
    forall|i: int, j: int|
        #![trigger s[i], s[j]]
        0 <= i < j < s.len() && j == i + 1 ==> may_follow(s[i], s[j])
}

proof fn in_turn_of_sum(a: Seq<Phase>, b: Seq<Phase>)
    requires
        in_turn(a),
        in_turn(b),
        a.len() > 0 && b.len() > 0 ==> may_follow(a.last(), b[0]),
    ensures
        in_turn(a + b),
{
    let s = a + b;
    assert forall|i: int, j: int|
        #![trigger s[i], s[j]]
        0 <= i < j < s.len() && j == i + 1 implies may_follow(s[i], s[j]) by {
        if j < a.len() {
            assert(s[i] == a[i] && s[j] == a[j]);
        } else if i >= a.len() {
            assert(s[i] == b[i - a.len()] && s[j] == b[j - a.len()]);
        }
    }
}

proof fn iteration_in_turn(self_collision: bool, ground_collision: bool)
    ensures
        in_turn(iteration_phases(self_collision, ground_collision)),
        iteration_phases(self_collision, ground_collision).len() > 0,
        iteration_phases(self_collision, ground_collision)[0] == Phase::SolveDistance,
        11 <= place_in_substep(iteration_phases(self_collision, ground_collision).last()) <= 18,
{
}

proof fn opening_in_turn(bar: bool, self_collision: bool)
    ensures
        in_turn(opening_phases(bar, self_collision)),
        opening_phases(bar, self_collision).len() > 0,
        9 <= place_in_substep(opening_phases(bar, self_collision).last()) <= 10,
{
}

proof fn closing_in_turn(bar: bool)
    ensures
        in_turn(closing_phases(bar)),
        closing_phases(bar).len() > 0,
        closing_phases(bar)[0] == Phase::UpdateVelocities,
{
}

proof fn iterations_in_turn(self_collision: bool, ground_collision: bool, n: nat)
    ensures
        ({
            let s = iterations(iteration_phases(self_collision, ground_collision), n);
            &&& in_turn(s)
            &&& n > 0 ==> s.len() > 0 && s[0] == Phase::SolveDistance && 11 <= place_in_substep(
                s.last(),
            ) <= 18
            &&& n == 0 ==> s.len() == 0
        }),
    decreases n,
{
    let one = iteration_phases(self_collision, ground_collision);
    iteration_in_turn(self_collision, ground_collision);
    if n > 0 {
        iterations_in_turn(self_collision, ground_collision, (n - 1) as nat);
        let before = iterations(one, (n - 1) as nat);
        in_turn_of_sum(before, one);
        assert(iterations(one, n) == before + one);
        assert((before + one).last() == one.last());
    }
}

/// The phases of a substep come in their order, iteration after iteration: each
/// has a later place than the one before, but for the first solve of an
/// iteration, which follows a solve of the one before. With the number of times
/// that each occurs, this leaves one sequence.
pub proof fn phases_come_in_order(world: World, i: int)
    requires
        0 <= i < substep_phases(world).len() - 1,
    ensures
        may_follow(substep_phases(world)[i], substep_phases(world)[i + 1]),
{
    let bar = world.control_bar is Some;
    let own = world.cfg.self_collision_enabled;
    let ground = world.cfg.ground_collision_enabled;
    let n = world.cfg.iterations_per_substep as nat;
    let opening = opening_phases(bar, own);
    let middle = iterations(iteration_phases(own, ground), n);
    let closing = closing_phases(bar);
    iterations_in_turn(own, ground, n);
    opening_in_turn(bar, own);
    closing_in_turn(bar);
    in_turn_of_sum(opening, middle);
    if middle.len() > 0 {
        assert((opening + middle).last() == middle.last());
    } else {
        assert(opening + middle =~= opening);
    }
    in_turn_of_sum(opening + middle, closing);
    let all = opening + middle + closing;
    assert(substep_phases(world) == all);
    assert(may_follow(all[i], all[i + 1]));
}

/// A step is solved class by class exactly where the configuration asks for it,
/// the build is no reference build and there are 512 constraints or more.
pub proof fn parallel_by_count(world: World, reference_mode: bool)
    ensures
        reference_mode ==> !solves_in_parallel(world, reference_mode),
        !world.cfg.parallel_solve ==> !solves_in_parallel(world, reference_mode),
        ({
            let count = world.distance_constraints@.len() + world.bending_constraints@.len()
                + world.stretch_shear_constraints@.len() + world.bend_twist_constraints@.len()
                + world.dihedral_bending_constraints@.len() + world.unilateral_constraints@.len();
            &&& count < 512 ==> !solves_in_parallel(world, reference_mode)
            &&& count >= 512 && world.cfg.parallel_solve && !reference_mode ==> solves_in_parallel(
                world,
                reference_mode,
            )
        }),
{
}

} // verus!
