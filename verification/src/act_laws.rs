//! What each act of a step does to the world.
use crate::coloring::{greedy_classes, valid_coloring};
use crate::collision::ContactConstraint;
use crate::constraints::{
    BendTwistConstraint, BendingConstraint, ConstraintState, DihedralBendingConstraint,
    DistanceConstraint, StretchShearConstraint, UnilateralDistanceConstraint,
};
use crate::control_bar::{ControlBar, TipState};
use crate::kernels::{
    BendTwistSolve, BendingSolve, Component, ContactSolve, DihedralSolve, DistanceSolve,
    PanelCorrection, PanelLoad, StretchShearSolve, UnilateralSolve,
};
use crate::scalar::{Quat, Scalar, Vec3};
use crate::solver::{
    bend_twist_reach, bending_reach, dihedral_bending_reach, distance_reach, stretch_shear_reach,
    unilateral_reach, yield_events, Solvable,
};
use crate::state::{acted, ran, Act, Run, WorldState};
use crate::world::Event;
use vstd::prelude::*;

verus! {

/// Zero or less, as a double.
pub open spec fn no_more_than_zero(x: Scalar) -> bool {
    x.at_most(Scalar { bits: 0 })
}

/// Less than a trillionth, as a double.
pub open spec fn negligible(x: Scalar) -> bool {
    x.less(Scalar { bits: 0x3D71_9799_812D_EA11 })
}

/// Where something free is put, and something fixed stays.
pub open spec fn put(inv_mass: Scalar, to: Vec3, was: Vec3) -> Vec3 {
    if (Scalar { bits: 0 }).less(inv_mass) {
        to
    } else {
        was
    }
}

/// Solving a distance constraint puts its free ends where they belong and keeps
/// its multiplier; every other particle and every other constraint stays. It
/// does nothing where neither end can move, or where the length or the divisor
/// is negligible.
pub proof fn distance_solves_move_their_ends(w: WorldState, k: usize, s: DistanceSolve, i: int)
    requires
        k < w.distances.len(),
        w.inv_mass.len() == w.pred_pos.len(),
        0 <= i < w.pred_pos.len(),
        w.distances[k as int].p1 < w.pred_pos.len(),
        w.distances[k as int].p2 < w.pred_pos.len(),
    ensures
        ({
            let c = w.distances[k as int];
            let after = acted(w, Act::Distance { k, s });
            let idle = no_more_than_zero(s.w_sum) || negligible(s.dist) || negligible(s.denom);
            &&& after == (WorldState { pred_pos: after.pred_pos, distances: after.distances, ..w })
            &&& after.pred_pos.len() == w.pred_pos.len()
            &&& after.distances.len() == w.distances.len()
            &&& forall|j: int|
                0 <= j < w.distances.len() && j != k ==> #[trigger] after.distances[j] == w.distances[j]
            &&& idle ==> after == w
            &&& !idle ==> {
                &&& after.pred_pos[i] == if i == c.p2 {
                put(w.inv_mass[i], s.pos2, w.pred_pos[i])
            } else if i == c.p1 {
                put(w.inv_mass[i], s.pos1, w.pred_pos[i])
            } else {
                w.pred_pos[i]
            }
                &&& after.distances[k as int] == (DistanceConstraint { lambda: s.lambda, ..c })
            }
        }),
{
}

/// Solving a bending constraint puts its three particles, where they are free,
/// and keeps its multiplier; all else stays. It does nothing where none of them
/// can move, or where the divisor is negligible.
pub proof fn bending_solves_move_their_three(w: WorldState, k: usize, s: BendingSolve, i: int)
    requires
        k < w.bendings.len(),
        w.inv_mass.len() == w.pred_pos.len(),
        0 <= i < w.pred_pos.len(),
        w.bendings[k as int].p1 < w.pred_pos.len(),
        w.bendings[k as int].p2 < w.pred_pos.len(),
        w.bendings[k as int].p3 < w.pred_pos.len(),
    ensures
        ({
            let c = w.bendings[k as int];
            let after = acted(w, Act::Bending { k, s });
            let idle = no_more_than_zero(s.w_sum) || negligible(s.denom);
            &&& after == (WorldState { pred_pos: after.pred_pos, bendings: after.bendings, ..w })
            &&& after.pred_pos.len() == w.pred_pos.len()
            &&& after.bendings.len() == w.bendings.len()
            &&& forall|j: int|
                0 <= j < w.bendings.len() && j != k ==> #[trigger] after.bendings[j] == w.bendings[j]
            &&& idle ==> after == w
            &&& !idle ==> {
                &&& after.pred_pos[i] == if i == c.p3 {
                put(w.inv_mass[i], s.pos3, w.pred_pos[i])
            } else if i == c.p2 {
                put(w.inv_mass[i], s.pos2, w.pred_pos[i])
            } else if i == c.p1 {
                put(w.inv_mass[i], s.pos1, w.pred_pos[i])
            } else {
                w.pred_pos[i]
            }
                &&& after.bendings[k as int] == (BendingConstraint { lambda: s.lambda, ..c })
            }
        }),
{
}

/// Solving a fold puts its four particles, where they are free, and keeps its
/// multiplier; all else stays. It does nothing where none of them can move, or
/// where the edge, one of the areas or the divisor is negligible.
pub proof fn fold_solves_move_their_four(w: WorldState, k: usize, s: DihedralSolve, i: int)
    requires
        k < w.folds.len(),
        w.inv_mass.len() == w.pred_pos.len(),
        0 <= i < w.pred_pos.len(),
        w.folds[k as int].p1 < w.pred_pos.len(),
        w.folds[k as int].p2 < w.pred_pos.len(),
        w.folds[k as int].p3 < w.pred_pos.len(),
        w.folds[k as int].p4 < w.pred_pos.len(),
    ensures
        ({
            let c = w.folds[k as int];
            let after = acted(w, Act::Dihedral { k, s });
            let idle = no_more_than_zero(s.w_sum) || negligible(s.edge) || negligible(s.area1)
                || negligible(s.area2) || negligible(s.denom);
            &&& after == (WorldState { pred_pos: after.pred_pos, folds: after.folds, ..w })
            &&& after.pred_pos.len() == w.pred_pos.len()
            &&& after.folds.len() == w.folds.len()
            &&& forall|j: int|
                0 <= j < w.folds.len() && j != k ==> #[trigger] after.folds[j] == w.folds[j]
            &&& idle ==> after == w
            &&& !idle ==> {
                &&& after.pred_pos[i] == if i == c.p4 {
                put(w.inv_mass[i], s.pos4, w.pred_pos[i])
            } else if i == c.p3 {
                put(w.inv_mass[i], s.pos3, w.pred_pos[i])
            } else if i == c.p2 {
                put(w.inv_mass[i], s.pos2, w.pred_pos[i])
            } else if i == c.p1 {
                put(w.inv_mass[i], s.pos1, w.pred_pos[i])
            } else {
                w.pred_pos[i]
            }
                &&& after.folds[k as int] == (DihedralBendingConstraint { lambda: s.lambda, ..c })
            }
        }),
{
}

/// Solving a line puts its free ends where they belong, and its multiplier is the
/// computed one where that is zero or less, and zero where it is not: a line
/// pulls and does not push. A line that is neither too long nor loaded is left
/// alone.
pub proof fn line_solves_only_pull(w: WorldState, k: usize, s: UnilateralSolve, i: int)
    requires
        k < w.lines.len(),
        w.inv_mass.len() == w.pred_pos.len(),
        0 <= i < w.pred_pos.len(),
        w.lines[k as int].p1 < w.pred_pos.len(),
        w.lines[k as int].p2 < w.pred_pos.len(),
    ensures
        ({
            let c = w.lines[k as int];
            let after = acted(w, Act::Unilateral { k, s });
            let idle = no_more_than_zero(s.w_sum) || (no_more_than_zero(s.excess) && (Scalar {
                bits: 0,
            }).at_most(c.lambda)) || negligible(s.dist) || negligible(s.denom);
            &&& after == (WorldState { pred_pos: after.pred_pos, lines: after.lines, ..w })
            &&& after.pred_pos.len() == w.pred_pos.len()
            &&& after.lines.len() == w.lines.len()
            &&& forall|j: int|
                0 <= j < w.lines.len() && j != k ==> #[trigger] after.lines[j] == w.lines[j]
            &&& idle ==> after == w
            &&& !idle ==> {
                &&& after.pred_pos[i] == if i == c.p2 {
                put(w.inv_mass[i], s.pos2, w.pred_pos[i])
            } else if i == c.p1 {
                put(w.inv_mass[i], s.pos1, w.pred_pos[i])
            } else {
                w.pred_pos[i]
            }
                &&& after.lines[k as int] == (UnilateralDistanceConstraint {
                    lambda: after.lines[k as int].lambda,
                    ..c
                })
                &&& no_more_than_zero(s.lambda) ==> after.lines[k as int].lambda == s.lambda
                &&& !no_more_than_zero(s.lambda) ==> after.lines[k as int].lambda.bits == 0
            }
        }),
{
}

/// One component of a vector, by its number.
pub open spec fn part(v: Vec3, component: Component) -> Scalar {
    match component {
        Component::X => v.x,
        Component::Y => v.y,
        Component::Z => v.z,
    }
}

/// Solving one component of a rod segment puts its free ends, turns its frame
/// and keeps that component of its multiplier; all else stays, the other
/// components too. It does nothing where nothing can move or the divisor is
/// negligible.
pub proof fn segment_solves_move_and_turn(
    w: WorldState,
    k: usize,
    component: Component,
    s: StretchShearSolve,
    other: Component,
    i: int,
    q: int,
)
    requires
        k < w.segments.len(),
        w.inv_mass.len() == w.pred_pos.len(),
        0 <= i < w.pred_pos.len(),
        0 <= q < w.quat.len(),
        w.segments[k as int].p1 < w.pred_pos.len(),
        w.segments[k as int].p2 < w.pred_pos.len(),
        w.segments[k as int].q_index < w.quat.len(),
    ensures
        ({
            let c = w.segments[k as int];
            let after = acted(w, Act::StretchShear { k, component, s });
            let idle = no_more_than_zero(s.w_sum) || negligible(s.denom);
            let now = after.segments[k as int];
            &&& after == (WorldState {
                pred_pos: after.pred_pos,
                quat: after.quat,
                segments: after.segments,
                ..w
            })
            &&& after.segments.len() == w.segments.len()
            &&& now == (StretchShearConstraint { lambda: now.lambda, ..c })
            &&& forall|j: int|
                0 <= j < w.segments.len() && j != k ==> #[trigger] after.segments[j] == w.segments[j]
            &&& idle ==> after.pred_pos == w.pred_pos && after.quat == w.quat && now == c
            &&& !idle ==> {
                &&& after.pred_pos[i] == if i == c.p2 {
                    put(w.inv_mass[i], s.pos2, w.pred_pos[i])
                } else if i == c.p1 {
                    put(w.inv_mass[i], s.pos1, w.pred_pos[i])
                } else {
                    w.pred_pos[i]
                }
                &&& after.quat[q] == if q == c.q_index {
                    s.quat
                } else {
                    w.quat[q]
                }
                &&& part(now.lambda, component) == s.lambda
                &&& other != component ==> part(now.lambda, other) == part(c.lambda, other)
            }
        }),
{
}

/// Solving one component of a joint turns its two frames and keeps that component
/// of its multiplier; no particle moves. A broken joint is not solved.
pub proof fn joint_solves_turn_two_frames(
    w: WorldState,
    k: usize,
    component: Component,
    s: BendTwistSolve,
    other: Component,
    q: int,
)
    requires
        k < w.joints.len(),
        0 <= q < w.quat.len(),
        w.joints[k as int].q1_index < w.quat.len(),
        w.joints[k as int].q2_index < w.quat.len(),
    ensures
        ({
            let c = w.joints[k as int];
            let after = acted(w, Act::BendTwist { k, component, s });
            let idle = c.state == ConstraintState::Broken || no_more_than_zero(s.w_sum)
                || negligible(s.denom);
            let now = after.joints[k as int];
            &&& after == (WorldState { quat: after.quat, joints: after.joints, ..w })
            &&& after.joints.len() == w.joints.len()
            &&& now == (BendTwistConstraint { lambda: now.lambda, ..c })
            &&& forall|j: int|
                0 <= j < w.joints.len() && j != k ==> #[trigger] after.joints[j] == w.joints[j]
            &&& idle ==> after.quat == w.quat && now == c
            &&& !idle ==> {
                &&& after.quat[q] == if q == c.q2_index {
                    s.quat2
                } else if q == c.q1_index {
                    s.quat1
                } else {
                    w.quat[q]
                }
                &&& part(now.lambda, component) == s.lambda
                &&& other != component ==> part(now.lambda, other) == part(c.lambda, other)
            }
        }),
{
}

/// Solving a contact puts its particle and the panel's three corners, where they
/// are free, and its multiplier is never negative: a contact pushes and does not
/// pull. One that neither touches nor is loaded is left alone.
pub proof fn contact_solves_only_push(r: Run, j: int, s: ContactSolve, i: int)
    requires
        0 <= j < r.contacts.len(),
        r.world.inv_mass.len() == r.world.pred_pos.len(),
        0 <= i < r.world.pred_pos.len(),
        r.contacts[j].p_i < r.world.pred_pos.len(),
        r.contacts[j].p_a < r.world.pred_pos.len(),
        r.contacts[j].p_b < r.world.pred_pos.len(),
        r.contacts[j].p_c < r.world.pred_pos.len(),
    ensures
        ({
            let w = r.world;
            let c = r.contacts[j];
            let after = ran(r, Act::Contact { j, s });
            let idle = ((Scalar { bits: 0 }).at_most(s.value) && no_more_than_zero(c.lambda))
                || negligible(s.denom);
            &&& after.world == (WorldState { pred_pos: after.world.pred_pos, ..w })
            &&& after.contacts.len() == r.contacts.len()
            &&& forall|l: int|
                0 <= l < r.contacts.len() && l != j ==> #[trigger] after.contacts[l] == r.contacts[l]
            &&& idle ==> after.world.pred_pos == w.pred_pos && after.contacts[j] == c
            &&& !idle ==> {
                &&& after.world.pred_pos[i] == if i == c.p_c {
                    put(w.inv_mass[i], s.pos_c, w.pred_pos[i])
                } else if i == c.p_b {
                    put(w.inv_mass[i], s.pos_b, w.pred_pos[i])
                } else if i == c.p_a {
                    put(w.inv_mass[i], s.pos_a, w.pred_pos[i])
                } else if i == c.p_i {
                    put(w.inv_mass[i], s.pos_i, w.pred_pos[i])
                } else {
                    w.pred_pos[i]
                }
                &&& (Scalar { bits: 0 }).less(s.lambda) ==> after.contacts[j] == (ContactConstraint {
                    lambda: s.lambda,
                    ..c
                })
                &&& s.lambda.less(Scalar { bits: 0 }) || s.lambda.nan() ==> after.contacts[j]
                    == (ContactConstraint { lambda: Scalar { bits: 0 }, ..c })
            }
        }),
{
}

/// A free particle that is predicted lower than five millimeters is put at that
/// height, straight up; every other prediction stays.
pub proof fn the_ground_lifts_what_is_below(w: WorldState, i: int)
    requires
        w.inv_mass.len() == w.pred_pos.len(),
        0 <= i < w.pred_pos.len(),
    ensures
        ({
            let after = acted(w, Act::Ground);
            let top = Scalar { bits: 0x3F74_7AE1_47AE_147B };
            &&& after == (WorldState { pred_pos: after.pred_pos, ..w })
            &&& after.pred_pos.len() == w.pred_pos.len()
            &&& after.pred_pos[i].x == w.pred_pos[i].x
            &&& after.pred_pos[i].z == w.pred_pos[i].z
            &&& after.pred_pos[i].y == if !no_more_than_zero(w.inv_mass[i])
                && w.pred_pos[i].y.less(top) {
                top
            } else {
                w.pred_pos[i].y
            }
        }),
{
}

/// A step ends with the predictions as positions, free particles and frames with
/// their new velocities, and fixed ones at rest.
pub proof fn steps_end_with_what_was_predicted(
    w: WorldState,
    vels: Seq<Vec3>,
    omegas: Seq<Vec3>,
    inertia_sq: Seq<Scalar>,
    time: Scalar,
    i: int,
)
    requires
        vels.len() == w.inv_mass.len(),
        omegas.len() == inertia_sq.len(),
    ensures
        acted(w, Act::Commit) == (WorldState { pos: w.pred_pos, ..w }),
        acted(w, Act::Elapse { time }) == (WorldState { time, ..w }),
        ({
            let after = acted(w, Act::UpdateVelocities { vels });
            &&& after == (WorldState { vel: after.vel, ..w })
            &&& after.vel.len() == vels.len()
            &&& 0 <= i < vels.len() ==> after.vel[i] == put(
                w.inv_mass[i],
                vels[i],
                Vec3 { x: Scalar { bits: 0 }, y: Scalar { bits: 0 }, z: Scalar { bits: 0 } },
            )
        }),
        ({
            let after = acted(w, Act::UpdateOmegas { omegas, inertia_sq });
            &&& after == (WorldState { omega: after.omega, ..w })
            &&& after.omega.len() == omegas.len()
            &&& 0 <= i < omegas.len() ==> after.omega[i] == put(
                inertia_sq[i],
                omegas[i],
                Vec3 { x: Scalar { bits: 0 }, y: Scalar { bits: 0 }, z: Scalar { bits: 0 } },
            )
        }),
{
}

/// A prediction starts from the present positions and frames, which are kept as
/// the previous ones; nothing is at its prediction yet.
pub proof fn predictions_keep_the_present(w: WorldState, places: Seq<Vec3>, quats: Seq<Quat>)
    ensures
        ({
            let after = acted(w, Act::Predict { places, quats });
            &&& after.pred_pos == places
            &&& after.prev_pos == w.pos
            &&& after.pos == w.pos
            &&& after.quat == quats
            &&& after.prev_quat == w.quat
            &&& after.vel == w.vel
            &&& after.omega == w.omega
        }),
{
}

/// Before a solve every multiplier of every kind is zero, and nothing else has
/// changed.
pub proof fn every_multiplier_is_reset(w: WorldState, k: int)
    ensures
        ({
            let after = acted(w, Act::ResetMultipliers);
            let zero = Scalar { bits: 0 };
            let none = Vec3 { x: zero, y: zero, z: zero };
            &&& after.distances.len() == w.distances.len()
            &&& after.bendings.len() == w.bendings.len()
            &&& after.segments.len() == w.segments.len()
            &&& after.joints.len() == w.joints.len()
            &&& after.folds.len() == w.folds.len()
            &&& after.lines.len() == w.lines.len()
            &&& 0 <= k < w.distances.len() ==> after.distances[k] == (DistanceConstraint {
                lambda: zero,
                ..w.distances[k]
            })
            &&& 0 <= k < w.bendings.len() ==> after.bendings[k] == (BendingConstraint {
                lambda: none,
                ..w.bendings[k]
            })
            &&& 0 <= k < w.segments.len() ==> after.segments[k] == (StretchShearConstraint {
                lambda: none,
                ..w.segments[k]
            })
            &&& 0 <= k < w.joints.len() ==> after.joints[k] == (BendTwistConstraint {
                lambda: none,
                ..w.joints[k]
            })
            &&& 0 <= k < w.folds.len() ==> after.folds[k] == (DihedralBendingConstraint {
                lambda: zero,
                ..w.folds[k]
            })
            &&& 0 <= k < w.lines.len() ==> after.lines[k] == (UnilateralDistanceConstraint {
                lambda: zero,
                ..w.lines[k]
            })
            &&& after == (WorldState {
                distances: after.distances,
                bendings: after.bendings,
                segments: after.segments,
                joints: after.joints,
                folds: after.folds,
                lines: after.lines,
                ..w
            })
        }),
{
}

/// A kick gives one free particle its velocity, and a twist one free frame that
/// has a torque; nothing else changes.
pub proof fn kicks_and_twists_reach_one(
    w: WorldState,
    p: usize,
    vel: Vec3,
    inertia_sq: Scalar,
    omega: Vec3,
    i: int,
)
    requires
        w.inv_mass.len() == w.vel.len(),
    ensures
        p < w.vel.len() ==> {
            let after = acted(w, Act::Kick { i: p, vel });
            &&& after == (WorldState { vel: after.vel, ..w })
            &&& after.vel.len() == w.vel.len()
            &&& 0 <= i < w.vel.len() ==> after.vel[i] == if i == p {
                put(w.inv_mass[i], vel, w.vel[i])
            } else {
                w.vel[i]
            }
        },
        p < w.omega.len() ==> {
            let after = acted(w, Act::Twist { i: p, inertia_sq, omega });
            &&& after == (WorldState { omega: after.omega, ..w })
            &&& after.omega.len() == w.omega.len()
            &&& 0 <= i < w.omega.len() ==> after.omega[i] == if i == p && p < w.torques.len() {
                put(inertia_sq, omega, w.omega[i])
            } else {
                w.omega[i]
            }
        },
{
}

/// The air's load on a panel reaches its three corners, where they are free, and
/// is kept for its panel alone; a panel without area has none.
pub proof fn loads_reach_the_corners(w: WorldState, k: usize, load: PanelLoad, i: int)
    requires
        k < w.panels.len(),
        w.readback.len() == w.panels.len(),
        w.inv_mass.len() == w.vel.len(),
        w.panels[k as int].p1 < w.vel.len(),
        w.panels[k as int].p2 < w.vel.len(),
        w.panels[k as int].p3 < w.vel.len(),
        0 <= i < w.vel.len(),
    ensures
        ({
            let p = w.panels[k as int];
            let after = acted(w, Act::LoadPanel { k, load });
            &&& after == (WorldState { vel: after.vel, readback: after.readback, ..w })
            &&& negligible(load.double_area) ==> after == w
            &&& !negligible(load.double_area) ==> {
                &&& after.readback == w.readback.update(k as int, load.aero)
                &&& after.vel[i] == if i == p.p3 {
                    put(w.inv_mass[i], load.vel3, w.vel[i])
                } else if i == p.p2 {
                    put(w.inv_mass[i], load.vel2, w.vel[i])
                } else if i == p.p1 {
                    put(w.inv_mass[i], load.vel1, w.vel[i])
                } else {
                    w.vel[i]
                }
            }
        }),
{
}

/// The air that a panel carries along is taken into account where that is
/// switched on, all three corners are free and the panel has an area. The first
/// time the panel's mean velocity is noted; from then on its corners get their
/// corrected velocities and the corrected mean is noted.
pub proof fn carried_air_corrects_free_panels(w: WorldState, k: usize, c: PanelCorrection, i: int)
    requires
        k < w.panels.len(),
        w.inv_mass.len() == w.vel.len(),
        w.panels[k as int].p1 < w.vel.len(),
        w.panels[k as int].p2 < w.vel.len(),
        w.panels[k as int].p3 < w.vel.len(),
        0 <= i < w.vel.len(),
    ensures
        ({
            let p = w.panels[k as int];
            let after = acted(w, Act::CorrectPanel { k, c });
            let free = !no_more_than_zero(w.inv_mass[p.p1 as int]) && !no_more_than_zero(
                w.inv_mass[p.p2 as int],
            ) && !no_more_than_zero(w.inv_mass[p.p3 as int]);
            let on = w.cfg.added_mass_enabled && free && !negligible(c.double_area);
            &&& after == (WorldState { vel: after.vel, panels: after.panels, ..w })
            &&& after.panels.len() == w.panels.len()
            &&& forall|j: int|
                0 <= j < w.panels.len() && j != k ==> #[trigger] after.panels[j] == w.panels[j]
            &&& !on ==> after == w
            &&& on && p.prev_mean_vel is None ==> {
                &&& after.vel == w.vel
                &&& after.panels[k as int].prev_mean_vel == Some(c.mean)
            }
            &&& on && p.prev_mean_vel is Some ==> {
                &&& after.panels[k as int].prev_mean_vel == Some(c.mean_after)
                &&& after.vel[i] == if i == p.p3 {
                    c.vel3
                } else if i == p.p2 {
                    c.vel2
                } else if i == p.p1 {
                    c.vel1
                } else {
                    w.vel[i]
                }
            }
        }),
{
}

/// Both tips of the bar take their anchors along: each anchor is, in all three of
/// its places and in its velocity, where its own tip is, and nothing else moves.
pub proof fn anchors_follow_their_tips(
    w: WorldState,
    bar: ControlBar,
    left: TipState,
    right: TipState,
    i: int,
)
    requires
        w.prev_pos.len() == w.pos.len(),
        w.pred_pos.len() == w.pos.len(),
        w.vel.len() == w.pos.len(),
        bar.left_anchor < w.pos.len(),
        bar.right_anchor < w.pos.len(),
        bar.left_anchor != bar.right_anchor,
        0 <= i < w.pos.len(),
    ensures
        ({
            let after = acted(w, Act::SyncAnchors { bar, left, right });
            &&& after == (WorldState {
                pos: after.pos,
                prev_pos: after.prev_pos,
                pred_pos: after.pred_pos,
                vel: after.vel,
                ..w
            })
            &&& i == bar.left_anchor ==> after.pos[i] == left.pos && after.prev_pos[i] == left.pos
                && after.pred_pos[i] == left.pos && after.vel[i] == left.vel
            &&& i == bar.right_anchor ==> after.pos[i] == right.pos && after.prev_pos[i]
                == right.pos && after.pred_pos[i] == right.pos && after.vel[i] == right.vel
            &&& i != bar.left_anchor && i != bar.right_anchor ==> after.pos[i] == w.pos[i]
                && after.prev_pos[i] == w.prev_pos[i] && after.pred_pos[i] == w.pred_pos[i]
                && after.vel[i] == w.vel[i]
        }),
{
}

/// A step without substeps does nothing. Another one notes its length; it makes
/// classes anew where it is to be solved class by class, and there are none or the
/// number of constraints of some kind has changed, and keeps them otherwise. A
/// step is solved class by class where that is switched on, the reference is not
/// asked for, and there are 512 constraints or more.
pub proof fn steps_begin_with_fresh_classes(w: WorldState, h: Scalar, reference_mode: bool)
    requires
        w.distances.len() <= usize::MAX,
        w.bendings.len() <= usize::MAX,
        w.segments.len() <= usize::MAX,
        w.joints.len() <= usize::MAX,
        w.folds.len() <= usize::MAX,
        w.lines.len() <= usize::MAX,
    ensures
        ({
            let after = acted(w, Act::Begin { h, reference_mode });
            let n = w.distances.len() + w.bendings.len() + w.segments.len() + w.joints.len()
                + w.folds.len() + w.lines.len();
            let by_class = w.cfg.parallel_solve && !reference_mode && n >= 512;
            let current = w.coloring is Some && {
                let f = w.coloring->0.fingerprint;
                &&& f.distance == w.distances.len()
                &&& f.bending == w.bendings.len()
                &&& f.stretch_shear == w.segments.len()
                &&& f.bend_twist == w.joints.len()
                &&& f.dihedral_bending == w.folds.len()
                &&& f.unilateral == w.lines.len()
            };
            &&& w.cfg.substeps == 0 ==> after == w
            &&& w.cfg.substeps > 0 ==> {
                &&& after == (WorldState { last_h: h, coloring: after.coloring, ..w })
                &&& !by_class || current ==> after.coloring == w.coloring
                &&& by_class && !current ==> {
                    &&& after.coloring is Some
                    &&& after.coloring->0.fingerprint.distance == w.distances.len()
                    &&& after.coloring->0.fingerprint.bending == w.bendings.len()
                    &&& after.coloring->0.fingerprint.stretch_shear == w.segments.len()
                    &&& after.coloring->0.fingerprint.bend_twist == w.joints.len()
                    &&& after.coloring->0.fingerprint.dihedral_bending == w.folds.len()
                    &&& after.coloring->0.fingerprint.unilateral == w.lines.len()
                    &&& after.coloring->0.distance == greedy_classes(
                        distance_reach(w.distances),
                        w.distances.len(),
                    )
                    &&& after.coloring->0.bending == greedy_classes(
                        bending_reach(w.bendings),
                        w.bendings.len(),
                    )
                    &&& after.coloring->0.stretch_shear == greedy_classes(
                        stretch_shear_reach(w.segments),
                        w.segments.len(),
                    )
                    &&& after.coloring->0.bend_twist == greedy_classes(
                        bend_twist_reach(w.joints),
                        w.joints.len(),
                    )
                    &&& after.coloring->0.dihedral_bending == greedy_classes(
                        dihedral_bending_reach(w.folds),
                        w.folds.len(),
                    )
                    &&& after.coloring->0.unilateral == greedy_classes(
                        unilateral_reach(w.lines),
                        w.lines.len(),
                    )
                }
            }
        }),
{
}

/// Before the air loads the panels, each panel's reading is nothing.
pub proof fn readings_start_from_nothing(w: WorldState, k: int)
    requires
        0 <= k < w.panels.len(),
    ensures
        ({
            let after = acted(w, Act::ClearReadback);
            let zero = Scalar { bits: 0 };
            let none = Vec3 { x: zero, y: zero, z: zero };
            &&& after == (WorldState { readback: after.readback, ..w })
            &&& after.readback.len() == w.panels.len()
            &&& after.readback[k].lift == none
            &&& after.readback[k].drag == none
            &&& after.readback[k].alpha == zero
        }),
{
}

/// A broken joint has no compliance. Any other has one, which pressure stiffens
/// if it is inflated and which is softened if it has folded.
pub proof fn joints_comply_by_their_state(c: BendTwistConstraint)
    ensures
        c.compliance_rule() is None <==> c.state == ConstraintState::Broken,
        c.state != ConstraintState::Broken ==> {
            &&& c.compliance_rule()->0.pressurised == c.is_inflatable
            &&& c.compliance_rule()->0.softened == (c.state == ConstraintState::Folded)
        },
{
}

/// The joint gives way: it was whole, and its moment is over its threshold.
pub open spec fn gives_way(w: WorldState, moments: Seq<Scalar>, i: int) -> bool {
    w.joints[i].state == ConstraintState::Active && w.joints[i].yield_threshold.less(moments[i])
}

/// How many of the first `n` joints give way.
pub open spec fn giving_way_below(w: WorldState, moments: Seq<Scalar>, n: nat) -> nat
    decreases n,
{
    if n == 0 {
        0
    } else {
        giving_way_below(w, moments, (n - 1) as nat) + if gives_way(w, moments, n - 1) {
            1nat
        } else {
            0nat
        }
    }
}

proof fn events_below(w: WorldState, moments: Seq<Scalar>, n: nat)
    requires
        n <= w.joints.len() == moments.len(),
    ensures
        ({
            let e = yield_events(w.joints, moments, n);
            &&& e.len() == giving_way_below(w, moments, n)
            &&& forall|i: int|
                0 <= i < n && #[trigger] gives_way(w, moments, i) ==> {
                    &&& giving_way_below(w, moments, i as nat) < e.len()
                    &&& e[giving_way_below(w, moments, i as nat) as int]
                        == if w.joints[i].is_inflatable {
                        Event::LeadingEdgeFolded { joint_index: i as usize }
                    } else {
                        Event::SparBroken { joint_index: i as usize }
                    }
                }
        }),
    decreases n,
{
    if n > 0 {
        events_below(w, moments, (n - 1) as nat);
    }
}

/// A whole joint whose moment is over its threshold gives way: an inflated one
/// folds, another one breaks. Each that gives way is told of once, in the joints'
/// order, behind the events so far. Every other joint stays as it is.
pub proof fn joints_give_way_over_their_threshold(w: WorldState, moments: Seq<Scalar>, i: int)
    requires
        moments.len() == w.joints.len(),
        0 <= i < w.joints.len(),
    ensures
        ({
            let after = acted(w, Act::Yield { moments });
            let told = after.events.skip(w.events.len() as int);
            &&& after == (WorldState { joints: after.joints, events: after.events, ..w })
            &&& after.joints.len() == w.joints.len()
            &&& after.events.take(w.events.len() as int) == w.events
            &&& told.len() == giving_way_below(w, moments, moments.len())
            &&& after.joints[i] == (BendTwistConstraint {
                state: after.joints[i].state,
                ..w.joints[i]
            })
            &&& !gives_way(w, moments, i) ==> after.joints[i].state == w.joints[i].state
            &&& gives_way(w, moments, i) && w.joints[i].is_inflatable ==> {
                &&& after.joints[i].state == ConstraintState::Folded
                &&& told[giving_way_below(w, moments, i as nat) as int]
                    == Event::LeadingEdgeFolded { joint_index: i as usize }
            }
            &&& gives_way(w, moments, i) && !w.joints[i].is_inflatable ==> {
                &&& after.joints[i].state == ConstraintState::Broken
                &&& told[giving_way_below(w, moments, i as nat) as int] == Event::SparBroken {
                    joint_index: i as usize,
                }
            }
        }),
{
    events_below(w, moments, moments.len());
    let after = acted(w, Act::Yield { moments });
    let e = yield_events(w.joints, moments, moments.len());
    assert(after.events.take(w.events.len() as int) =~= w.events);
    assert(after.events.skip(w.events.len() as int) =~= e);
}

/// In one class of a coloring two distance constraints have no particle in common.
pub proof fn distances_of_one_class_do_not_meet(
    cs: Seq<DistanceConstraint>,
    classes: Seq<Seq<usize>>,
    c: int,
    k: int,
    l: int,
    x: int,
    y: int,
)
    requires
        valid_coloring(distance_reach(cs), classes),
        0 <= c < classes.len(),
        0 <= k < l < classes[c].len(),
        x == classes[c][k],
        y == classes[c][l],
    ensures
        0 <= x < y < cs.len(),
        cs[x].p1 != cs[y].p1,
        cs[x].p1 != cs[y].p2,
        cs[x].p2 != cs[y].p1,
        cs[x].p2 != cs[y].p2,
{
    let r = distance_reach(cs);
    assert(r[x] == cs[x].reach() && r[y] == cs[y].reach());
    assert(!r[x].meets(r[y]));
    let a = r[x];
    let b = r[y];
    assert(a.particles[0] == cs[x].p1 && b.particles[0] == cs[y].p1);
    assert(a.particles[1] == cs[x].p2 && b.particles[1] == cs[y].p2);
    assert(a.particles.contains(cs[x].p1) && b.particles.contains(cs[y].p1));
    assert(a.particles.contains(cs[x].p2) && b.particles.contains(cs[y].p2));
}

/// In one class of a coloring two bending constraints have no particle in common.
pub proof fn bendings_of_one_class_do_not_meet(
    cs: Seq<BendingConstraint>,
    classes: Seq<Seq<usize>>,
    c: int,
    k: int,
    l: int,
    x: int,
    y: int,
)
    requires
        valid_coloring(bending_reach(cs), classes),
        0 <= c < classes.len(),
        0 <= k < l < classes[c].len(),
        x == classes[c][k],
        y == classes[c][l],
    ensures
        0 <= x < y < cs.len(),
        cs[x].p1 != cs[y].p1,
        cs[x].p1 != cs[y].p2,
        cs[x].p1 != cs[y].p3,
        cs[x].p2 != cs[y].p1,
        cs[x].p2 != cs[y].p2,
        cs[x].p2 != cs[y].p3,
        cs[x].p3 != cs[y].p1,
        cs[x].p3 != cs[y].p2,
        cs[x].p3 != cs[y].p3,
{
    let r = bending_reach(cs);
    assert(r[x] == cs[x].reach() && r[y] == cs[y].reach());
    assert(!r[x].meets(r[y]));
    let a = r[x];
    let b = r[y];
    assert(a.particles[0] == cs[x].p1 && b.particles[0] == cs[y].p1);
    assert(a.particles[1] == cs[x].p2 && b.particles[1] == cs[y].p2);
    assert(a.particles[2] == cs[x].p3 && b.particles[2] == cs[y].p3);
    assert(a.particles.contains(cs[x].p1) && b.particles.contains(cs[y].p1));
    assert(a.particles.contains(cs[x].p2) && b.particles.contains(cs[y].p2));
    assert(a.particles.contains(cs[x].p3) && b.particles.contains(cs[y].p3));
}

/// In one class of a coloring two rod segments have no particle and no frame in common.
pub proof fn segments_of_one_class_do_not_meet(
    cs: Seq<StretchShearConstraint>,
    classes: Seq<Seq<usize>>,
    c: int,
    k: int,
    l: int,
    x: int,
    y: int,
)
    requires
        valid_coloring(stretch_shear_reach(cs), classes),
        0 <= c < classes.len(),
        0 <= k < l < classes[c].len(),
        x == classes[c][k],
        y == classes[c][l],
    ensures
        0 <= x < y < cs.len(),
        cs[x].p1 != cs[y].p1,
        cs[x].p1 != cs[y].p2,
        cs[x].p2 != cs[y].p1,
        cs[x].p2 != cs[y].p2,
        cs[x].q_index != cs[y].q_index,
{
    let r = stretch_shear_reach(cs);
    assert(r[x] == cs[x].reach() && r[y] == cs[y].reach());
    assert(!r[x].meets(r[y]));
    let a = r[x];
    let b = r[y];
    assert(a.particles[0] == cs[x].p1 && b.particles[0] == cs[y].p1);
    assert(a.particles[1] == cs[x].p2 && b.particles[1] == cs[y].p2);
    assert(a.particles.contains(cs[x].p1) && b.particles.contains(cs[y].p1));
    assert(a.particles.contains(cs[x].p2) && b.particles.contains(cs[y].p2));
    assert(a.orientations[0] == cs[x].q_index && b.orientations[0] == cs[y].q_index);
    assert(a.orientations.contains(cs[x].q_index) && b.orientations.contains(cs[y].q_index));
}

/// In one class of a coloring two joints have no frame in common.
pub proof fn joints_of_one_class_do_not_meet(
    cs: Seq<BendTwistConstraint>,
    classes: Seq<Seq<usize>>,
    c: int,
    k: int,
    l: int,
    x: int,
    y: int,
)
    requires
        valid_coloring(bend_twist_reach(cs), classes),
        0 <= c < classes.len(),
        0 <= k < l < classes[c].len(),
        x == classes[c][k],
        y == classes[c][l],
    ensures
        0 <= x < y < cs.len(),
        cs[x].q1_index != cs[y].q1_index,
        cs[x].q1_index != cs[y].q2_index,
        cs[x].q2_index != cs[y].q1_index,
        cs[x].q2_index != cs[y].q2_index,
{
    let r = bend_twist_reach(cs);
    assert(r[x] == cs[x].reach() && r[y] == cs[y].reach());
    assert(!r[x].meets(r[y]));
    let a = r[x];
    let b = r[y];
    assert(a.orientations[0] == cs[x].q1_index && b.orientations[0] == cs[y].q1_index);
    assert(a.orientations[1] == cs[x].q2_index && b.orientations[1] == cs[y].q2_index);
    assert(a.orientations.contains(cs[x].q1_index) && b.orientations.contains(cs[y].q1_index));
    assert(a.orientations.contains(cs[x].q2_index) && b.orientations.contains(cs[y].q2_index));
}

/// In one class of a coloring two folds have no particle in common.
pub proof fn folds_of_one_class_do_not_meet(
    cs: Seq<DihedralBendingConstraint>,
    classes: Seq<Seq<usize>>,
    c: int,
    k: int,
    l: int,
    x: int,
    y: int,
)
    requires
        valid_coloring(dihedral_bending_reach(cs), classes),
        0 <= c < classes.len(),
        0 <= k < l < classes[c].len(),
        x == classes[c][k],
        y == classes[c][l],
    ensures
        0 <= x < y < cs.len(),
        cs[x].p1 != cs[y].p1,
        cs[x].p1 != cs[y].p2,
        cs[x].p1 != cs[y].p3,
        cs[x].p1 != cs[y].p4,
        cs[x].p2 != cs[y].p1,
        cs[x].p2 != cs[y].p2,
        cs[x].p2 != cs[y].p3,
        cs[x].p2 != cs[y].p4,
        cs[x].p3 != cs[y].p1,
        cs[x].p3 != cs[y].p2,
        cs[x].p3 != cs[y].p3,
        cs[x].p3 != cs[y].p4,
        cs[x].p4 != cs[y].p1,
        cs[x].p4 != cs[y].p2,
        cs[x].p4 != cs[y].p3,
        cs[x].p4 != cs[y].p4,
{
    let r = dihedral_bending_reach(cs);
    assert(r[x] == cs[x].reach() && r[y] == cs[y].reach());
    assert(!r[x].meets(r[y]));
    let a = r[x];
    let b = r[y];
    assert(a.particles[0] == cs[x].p1 && b.particles[0] == cs[y].p1);
    assert(a.particles[1] == cs[x].p2 && b.particles[1] == cs[y].p2);
    assert(a.particles[2] == cs[x].p3 && b.particles[2] == cs[y].p3);
    assert(a.particles[3] == cs[x].p4 && b.particles[3] == cs[y].p4);
    assert(a.particles.contains(cs[x].p1) && b.particles.contains(cs[y].p1));
    assert(a.particles.contains(cs[x].p2) && b.particles.contains(cs[y].p2));
    assert(a.particles.contains(cs[x].p3) && b.particles.contains(cs[y].p3));
    assert(a.particles.contains(cs[x].p4) && b.particles.contains(cs[y].p4));
}

/// In one class of a coloring two line segments have no particle in common.
pub proof fn lines_of_one_class_do_not_meet(
    cs: Seq<UnilateralDistanceConstraint>,
    classes: Seq<Seq<usize>>,
    c: int,
    k: int,
    l: int,
    x: int,
    y: int,
)
    requires
        valid_coloring(unilateral_reach(cs), classes),
        0 <= c < classes.len(),
        0 <= k < l < classes[c].len(),
        x == classes[c][k],
        y == classes[c][l],
    ensures
        0 <= x < y < cs.len(),
        cs[x].p1 != cs[y].p1,
        cs[x].p1 != cs[y].p2,
        cs[x].p2 != cs[y].p1,
        cs[x].p2 != cs[y].p2,
{
    let r = unilateral_reach(cs);
    assert(r[x] == cs[x].reach() && r[y] == cs[y].reach());
    assert(!r[x].meets(r[y]));
    let a = r[x];
    let b = r[y];
    assert(a.particles[0] == cs[x].p1 && b.particles[0] == cs[y].p1);
    assert(a.particles[1] == cs[x].p2 && b.particles[1] == cs[y].p2);
    assert(a.particles.contains(cs[x].p1) && b.particles.contains(cs[y].p1));
    assert(a.particles.contains(cs[x].p2) && b.particles.contains(cs[y].p2));
}

} // verus!
