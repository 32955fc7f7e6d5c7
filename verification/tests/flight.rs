//! Flights: the library's steps, settled with numbers that are computed here.
use glam::{DQuat, DVec3};
use kiter::collision::{
    collision_candidates, detect_self_collisions, pushing_lambda, solve_ground_collision,
    ContactConstraint, Sample, CONTACT_THICKNESS_BITS,
};
use kiter::constraints::{
    BendTwistConstraint, BendingConstraint, ConstraintState, DihedralBendingConstraint,
    DistanceConstraint, StretchShearConstraint, UnilateralDistanceConstraint,
};
use kiter::control_bar::{ControlBar, TipState};
use kiter::energy::{energy_terms, EnergyTerm};
use kiter::geometry::{
    kite_sites, or_one, BridleLineDef, KiteDefinition, LashingDef, PanelDef, Site, SparDef,
    StiffJunctionDef,
};
use kiter::kernels::{
    clear_readback, correct_panel, drag_acts, elapse, kick, load_panel, predict, settle_bend_twist,
    settle_bending, settle_contact, settle_dihedral, settle_distance, settle_stretch_shear,
    settle_unilateral, twist, update_omegas, update_velocities, BendTwistSolve, BendingSolve,
    Component, ContactSolve, DihedralSolve, DistanceSolve, PanelCorrection, PanelLoad,
    StretchShearSolve, UnilateralSolve,
};
use kiter::kite_builder::{
    build_kite_from_def, plan_kite, EdgeValues, KitePlan, KiteValues, SiteValues, SparValues,
};
use kiter::materials::{compute_inv_inertia, Material, SectionGeometry};
use kiter::mesh::{panel_triangles, GridVert};
use kiter::scalar::{Quat, Scalar, Vec3};
use kiter::snapshot::{force_scale, Readings, Single, SingleVec3, Snapshot};
use kiter::solver::{
    process_yield_and_breaking, reset_multipliers, step_simulation, Phase, SolverColoring,
    PARALLEL_CONSTRAINT_THRESHOLD,
};
use kiter::weld::NearTable;
use kiter::wind::{still_air_guard, GustEvent, ThermalCell, WindConfig};
use kiter::world::{CanopyPanel, Config, Event, PanelAero, World};
use parry3d_f64::query::PointQuery;
use parry3d_f64::shape::Triangle;
use rapier3d_f64::prelude::{
    CCDSolver, ColliderBuilder, ColliderSet, DefaultBroadPhase, ImpulseJointSet,
    IntegrationParameters, InteractionGroups, IslandManager, MultibodyJointSet, NarrowPhase,
    PhysicsPipeline, RigidBodyBuilder, RigidBodyHandle, RigidBodySet, SoftBodySet,
    SphericalJointBuilder, Vector,
};
use std::f64::consts::PI;

fn num(s: Scalar) -> f64 {
    f64::from_bits(s.bits)
}

fn scalar(x: f64) -> Scalar {
    Scalar { bits: x.to_bits() }
}

fn vec(v: Vec3) -> DVec3 {
    DVec3::new(num(v.x), num(v.y), num(v.z))
}

fn vec3(v: DVec3) -> Vec3 {
    Vec3 { x: scalar(v.x), y: scalar(v.y), z: scalar(v.z) }
}

fn dquat(q: Quat) -> DQuat {
    DQuat::from_xyzw(num(q.x), num(q.y), num(q.z), num(q.w))
}

fn quat(q: DQuat) -> Quat {
    Quat { x: scalar(q.x), y: scalar(q.y), z: scalar(q.z), w: scalar(q.w) }
}

/// The radius inside the wall; none for a solid rod.
fn inner_radius(geom: &SectionGeometry) -> f64 {
    match *geom {
        SectionGeometry::SolidRound { .. } => 0.0,
        SectionGeometry::Tube { radius, thickness } => num(radius) - num(thickness),
    }
}

/// The cross-sectional area, in square meters.
fn area(geom: &SectionGeometry) -> f64 {
    PI * (num(geom.outer_radius()).powi(2) - inner_radius(geom).powi(2))
}

/// The second moment of area, for bending.
fn area_moment_of_inertia(geom: &SectionGeometry) -> f64 {
    PI * (num(geom.outer_radius()).powi(4) - inner_radius(geom).powi(4)) / 4.0
}

/// The polar moment of area, for torsion.
fn polar_moment_of_inertia(geom: &SectionGeometry) -> f64 {
    PI * (num(geom.outer_radius()).powi(4) - inner_radius(geom).powi(4)) / 2.0
}

/// The principal moments of inertia of a segment.
fn compute_inertia(geom: &SectionGeometry, length: f64, mass: f64) -> DVec3 {
    let r = num(geom.outer_radius());
    let i_z = 0.5 * mass * (r.powi(2) + inner_radius(geom).powi(2));
    let i_xy = (1.0 / 12.0) * mass * length.powi(2) + 0.25 * mass * r.powi(2);
    DVec3::new(i_xy, i_xy, i_z)
}

/// The inverse inertia of a segment, as the solver wants it.
fn inv_inertia(geom: &SectionGeometry, length: f64, mass: f64) -> kiter::scalar::Vec3 {
    let i = compute_inertia(geom, length, mass);
    compute_inv_inertia(vec3(i), vec3(DVec3::ONE / i))
}

/// Compliance in shear (x, y) and stretch (z).
fn stretch_shear_compliance(mat: &Material, geom: &SectionGeometry, length: f64) -> DVec3 {
    let a = area(geom);
    let stretch = length / (num(mat.youngs_modulus) * a);
    // The shear shape factor is left out, so shear reads up to twice too stiff.
    let shear = length / (num(mat.shear_modulus) * a);
    DVec3::new(shear, shear, stretch)
}

/// Compliance in bending (x, y) and twist (z).
fn bend_twist_compliance(mat: &Material, geom: &SectionGeometry, length: f64) -> DVec3 {
    let bend = length / (4.0 * num(mat.youngs_modulus) * area_moment_of_inertia(geom));
    let twist = length / (4.0 * num(mat.shear_modulus) * polar_moment_of_inertia(geom));
    DVec3::new(bend, bend, twist)
}

/// The power-law shear profile.
fn mean_wind(pos: DVec3, cfg: &WindConfig) -> DVec3 {
    let h = pos.y.max(0.1);
    let speed = num(cfg.v_ref) * (h / num(cfg.h_ref)).powf(num(cfg.shear_exponent));
    speed * vec(cfg.direction).normalize()
}

/// A gust's share of the wind.
fn gust_velocity(g: &GustEvent, pos: DVec3, t: f64) -> DVec3 {
    let front = num(g.propagation_velocity) * (t - num(g.start_time));
    let xi = front - pos.dot(vec(g.direction));
    if !g.is_blowing(scalar(t), scalar(xi)) {
        return DVec3::ZERO;
    }
    let factor = 0.5 * (1.0 - (2.0 * PI * xi / num(g.length)).cos());
    num(g.amplitude) * factor * vec(g.direction)
}

/// A thermal's share of the wind.
fn thermal_velocity(c: &ThermalCell, pos: DVec3, t: f64) -> DVec3 {
    let age = t - num(c.start_time);
    let r2 = num(c.radius) * num(c.radius);
    if !c.is_active(scalar(age), scalar(r2)) {
        return DVec3::ZERO;
    }
    let envelope = (PI * age / num(c.lifetime)).sin().powi(2);
    let axis = vec(c.center) + vec(c.drift) * age;
    let (dx, dz) = (pos.x - axis.x, pos.z - axis.z);
    let radial = (-(dx * dx + dz * dz) / r2).exp();
    DVec3::new(0.0, num(c.strength) * envelope * radial, 0.0)
}

/// The wind at a place and a time. No scene here is turbulent.
fn wind_at(pos: DVec3, t: f64, cfg: &WindConfig) -> DVec3 {
    if let Some(still) = still_air_guard(vec3(pos)) {
        return vec(still);
    }
    assert!(!cfg.is_turbulent());
    let gusts: DVec3 = cfg.gusts.iter().map(|g| gust_velocity(g, pos, t)).sum();
    let thermals: DVec3 = cfg.thermals.iter().map(|c| thermal_velocity(c, pos, t)).sum();
    mean_wind(pos, cfg) + gusts + thermals
}

const COMPONENTS: [Component; 3] = [Component::X, Component::Y, Component::Z];

fn component(v: DVec3, k: Component) -> f64 {
    match k {
        Component::X => v.x,
        Component::Y => v.y,
        Component::Z => v.z,
    }
}

fn axis(k: Component) -> DVec3 {
    match k {
        Component::X => DVec3::X,
        Component::Y => DVec3::Y,
        Component::Z => DVec3::Z,
    }
}

/// Inverse mass of a particle.
fn inv_mass(world: &World, i: usize) -> f64 {
    num(world.particles.inv_mass[i])
}

/// Predicted place of a particle.
fn pred(world: &World, i: usize) -> DVec3 {
    vec(world.particles.pred_pos[i])
}

/// Where the particles of a constraint go, one after another.
struct Moves<'a> {
    world: &'a World,
    done: Vec<(usize, DVec3)>,
}

impl<'a> Moves<'a> {
    fn of(world: &'a World) -> Self {
        Self { world, done: Vec::with_capacity(4) }
    }

    fn shift(&mut self, i: usize, by: DVec3) -> kiter::scalar::Vec3 {
        let from = self
            .done
            .iter()
            .rev()
            .find(|(j, _)| *j == i)
            .map_or_else(|| pred(self.world, i), |(_, p)| *p);
        let to = from + by;
        if inv_mass(self.world, i) > 0.0 {
            self.done.push((i, to));
        }
        vec3(to)
    }
}

fn solve_distance(world: &World, k: usize, h2: f64) -> DistanceSolve {
    let c = world.distance_constraints[k];
    let (w1, w2) = (inv_mass(world, c.p1), inv_mass(world, c.p2));
    let diff = pred(world, c.p1) - pred(world, c.p2);
    let dist = diff.length();
    let dir = diff / dist;
    let alpha = num(c.compliance) / h2;
    let denom = w1 + w2 + alpha;
    let value = dist - num(c.rest_length);
    let delta = (-value - alpha * num(c.lambda)) / denom;
    let mut m = Moves::of(world);
    DistanceSolve {
        w_sum: scalar(w1 + w2),
        dist: scalar(dist),
        denom: scalar(denom),
        lambda: scalar(num(c.lambda) + delta),
        pos1: m.shift(c.p1, w1 * delta * dir),
        pos2: m.shift(c.p2, -w2 * delta * dir),
    }
}

fn solve_bending(world: &World, k: usize, h2: f64) -> BendingSolve {
    let c = world.bending_constraints[k];
    let (w1, w2, w3) = (inv_mass(world, c.p1), inv_mass(world, c.p2), inv_mass(world, c.p3));
    let w_sum = w1 + 4.0 * w2 + w3;
    let value =
        pred(world, c.p1) - 2.0 * pred(world, c.p2) + pred(world, c.p3) - vec(c.rest_value);
    let alpha = num(c.compliance) / h2;
    let denom = w_sum + alpha;
    let delta = (-value - alpha * vec(c.lambda)) / denom;
    let mut m = Moves::of(world);
    BendingSolve {
        w_sum: scalar(w_sum),
        denom: scalar(denom),
        lambda: vec3(vec(c.lambda) + delta),
        pos1: m.shift(c.p1, w1 * delta),
        pos2: m.shift(c.p2, -2.0 * w2 * delta),
        pos3: m.shift(c.p3, w3 * delta),
    }
}

fn solve_stretch_shear(world: &World, k: usize, part: Component, h2: f64) -> StretchShearSolve {
    let c = world.stretch_shear_constraints[k];
    let (w1, w2) = (inv_mass(world, c.p1), inv_mass(world, c.p2));
    let w_q = vec(world.orientations.inv_inertia[c.q_index]);
    let l0 = num(c.rest_length);
    let q = dquat(world.orientations.quat[c.q_index]);
    let d_k = q * axis(part);
    let u = (pred(world, c.p2) - pred(world, c.p1)) / l0;
    let value = u.dot(d_k) - if part == Component::Z { 1.0 } else { 0.0 };
    let local = q.conjugate() * u;
    let j = match part {
        Component::X => DVec3::new(0.0, -local.z, local.y),
        Component::Y => DVec3::new(local.z, 0.0, -local.x),
        Component::Z => DVec3::new(-local.y, local.x, 0.0),
    };
    let alpha = component(vec(c.compliance), part) / h2;
    let denom = (w1 + w2) / (l0 * l0) + (j * j * w_q).element_sum() + alpha;
    let lambda = component(vec(c.lambda), part);
    let delta = (-value - alpha * lambda) / denom;
    let mut m = Moves::of(world);
    StretchShearSolve {
        w_sum: scalar(w1 + w2 + w_q.length_squared()),
        denom: scalar(denom),
        lambda: scalar(lambda + delta),
        pos1: m.shift(c.p1, -(w1 / l0) * delta * d_k),
        pos2: m.shift(c.p2, (w2 / l0) * delta * d_k),
        quat: quat((q * DQuat::from_scaled_axis(j * w_q * delta)).normalize()),
    }
}

/// A joint's compliance under pressure and after folding.
fn joint_compliance(cfg: &Config, b: &BendTwistConstraint) -> DVec3 {
    let mut comp = vec(b.compliance);
    if let Some(rule) = b.bend_compliance() {
        if rule.pressurised {
            let stiffness = 1.0 + num(cfg.k_pressure) * num(cfg.bladder_pressure);
            comp.x /= stiffness;
            comp.y /= stiffness;
        }
        if rule.softened {
            comp.x *= 1000.0;
            comp.y *= 1000.0;
        }
    }
    comp
}

fn solve_bend_twist(world: &World, k: usize, part: Component, h2: f64) -> BendTwistSolve {
    let b = world.bend_twist_constraints[k];
    let w1 = vec(world.orientations.inv_inertia[b.q1_index]);
    let w2 = vec(world.orientations.inv_inertia[b.q2_index]);
    let q1 = dquat(world.orientations.quat[b.q1_index]);
    let q2 = dquat(world.orientations.quat[b.q2_index]);
    let r = q1.conjugate() * q2;
    let r_vec = DVec3::new(r.x, r.y, r.z);
    let value = component(r_vec, part) - component(vec(b.rest_value), part);
    let e = axis(part);
    let j0 = -0.5 * (r.w * e - e.cross(r_vec));
    let j1 = 0.5 * (r.w * e + e.cross(r_vec));
    let alpha = component(joint_compliance(&world.cfg, &b), part) / h2;
    let denom = (j0 * j0 * w1).element_sum() + (j1 * j1 * w2).element_sum() + alpha;
    let lambda = component(vec(b.lambda), part);
    let delta = (-value - alpha * lambda) / denom;
    let turned1 = (q1 * DQuat::from_scaled_axis(j0 * w1 * delta)).normalize();
    // A joint of a segment with itself turns it twice.
    let from2 = if b.q1_index == b.q2_index { turned1 } else { q2 };
    BendTwistSolve {
        w_sum: scalar(w1.length_squared() + w2.length_squared()),
        denom: scalar(denom),
        lambda: scalar(lambda + delta),
        quat1: quat(turned1),
        quat2: quat((from2 * DQuat::from_scaled_axis(j1 * w2 * delta)).normalize()),
    }
}

/// The angle between two triangles that share the edge
/// `p1`-`p2`.
fn compute_dihedral_angle(p1: DVec3, p2: DVec3, p3: DVec3, p4: DVec3) -> f64 {
    let e = p2 - p1;
    let (n1, n2) = (e.cross(p3 - p1), (p4 - p1).cross(e));
    if e.length() < 1e-12 || n1.length() < 1e-12 || n2.length() < 1e-12 {
        return 0.0;
    }
    let (n1, n2) = (n1 / n1.length(), n2 / n2.length());
    let cos = n1.dot(n2).clamp(-1.0, 1.0);
    let sin = n1.cross(n2).dot(e / e.length());
    sin.atan2(cos)
}

fn solve_dihedral(world: &World, k: usize, h2: f64) -> DihedralSolve {
    let b = world.dihedral_bending_constraints[k];
    let w = [b.p1, b.p2, b.p3, b.p4].map(|i| inv_mass(world, i));
    let p = [b.p1, b.p2, b.p3, b.p4].map(|i| pred(world, i));
    let mut value = compute_dihedral_angle(p[0], p[1], p[2], p[3]) - num(b.rest_angle);
    if value > PI {
        value -= 2.0 * PI;
    } else if value < -PI {
        value += 2.0 * PI;
    }
    let e = p[1] - p[0];
    let e_len = e.length();
    let (e1, e2) = (e.cross(p[2] - p[0]), (p[3] - p[0]).cross(e));
    let (a1, a2) = (e1.length(), e2.length());
    let q3 = -(e1 / a1) / (a1 / e_len);
    let q4 = -(e2 / a2) / (a2 / e_len);
    let d1 = (p[2] - p[0]).dot(e) / (e_len * e_len);
    let d2 = (p[3] - p[0]).dot(e) / (e_len * e_len);
    let q1 = (d1 - 1.0) * q3 + (d2 - 1.0) * q4;
    let q2 = -d1 * q3 - d2 * q4;
    let weighted = w[0] * q1.length_squared()
        + w[1] * q2.length_squared()
        + w[2] * q3.length_squared()
        + w[3] * q4.length_squared();
    let alpha = num(b.compliance) / h2;
    let denom = weighted + alpha;
    let delta = (-value - alpha * num(b.lambda)) / denom;
    let mut m = Moves::of(world);
    DihedralSolve {
        w_sum: scalar(w[0] + w[1] + w[2] + w[3]),
        edge: scalar(e_len),
        area1: scalar(a1),
        area2: scalar(a2),
        denom: scalar(denom),
        lambda: scalar(num(b.lambda) + delta),
        pos1: m.shift(b.p1, w[0] * delta * q1),
        pos2: m.shift(b.p2, w[1] * delta * q2),
        pos3: m.shift(b.p3, w[2] * delta * q3),
        pos4: m.shift(b.p4, w[3] * delta * q4),
    }
}

fn solve_unilateral(world: &World, k: usize, h2: f64) -> UnilateralSolve {
    let b = world.unilateral_constraints[k];
    let (w1, w2) = (inv_mass(world, b.p1), inv_mass(world, b.p2));
    let diff = pred(world, b.p1) - pred(world, b.p2);
    let dist = diff.length();
    let e = diff / dist;
    let excess = dist - num(b.rest_length);
    let alpha = num(b.compliance) / h2;
    let denom = w1 + w2 + alpha;
    let sum = num(b.lambda) + (-excess - alpha * num(b.lambda)) / denom;
    let lambda = kiter::kernels::pulling_lambda(scalar(sum));
    let delta = num(lambda) - num(b.lambda);
    let mut m = Moves::of(world);
    UnilateralSolve {
        w_sum: scalar(w1 + w2),
        dist: scalar(dist),
        excess: scalar(excess),
        denom: scalar(denom),
        lambda,
        pos1: m.shift(b.p1, w1 * delta * e),
        pos2: m.shift(b.p2, -w2 * delta * e),
    }
}

/// Solves and settles every constraint of a list: one after another, or class
/// by class. The members of a class are all solved before any is settled, which
/// is right only because they touch disjoint state.
fn sweep<S>(
    world: &mut World,
    count: usize,
    classes: Option<&[Vec<usize>]>,
    solve: impl Fn(&World, usize) -> S,
    settle: impl Fn(&mut World, usize, &S),
) {
    let Some(classes) = classes else {
        for k in 0..count {
            let s = solve(world, k);
            settle(world, k, &s);
        }
        return;
    };
    for class in classes {
        let solves: Vec<S> = class.iter().map(|&k| solve(world, k)).collect();
        for (&k, s) in class.iter().zip(&solves) {
            settle(world, k, s);
        }
    }
}

/// The rotation vector of a unit quaternion.
fn scaled_axis(q: DQuat) -> DVec3 {
    let xyz = DVec3::new(q.x, q.y, q.z);
    let len = xyz.length();
    if len < 1e-12 {
        return DVec3::ZERO;
    }
    let mut theta = 2.0 * len.atan2(q.w);
    if theta > PI {
        theta -= 2.0 * PI;
    } else if theta < -PI {
        theta += 2.0 * PI;
    }
    (xyz / len) * theta
}

fn external_forces(world: &mut World, h: f64) {
    for i in 0..world.particles.len() {
        let mut accel = vec(world.cfg.gravity);
        if i < world.forces.len() {
            accel += vec(world.forces[i]) * inv_mass(world, i);
        }
        let vel = vec(world.particles.vel[i]) + h * accel;
        kick(world, i, vec3(vel));
    }
}

fn inertia_squares(world: &World) -> Vec<Scalar> {
    world.orientations.inv_inertia.iter().map(|w| scalar(vec(*w).length_squared())).collect()
}

fn external_torques(world: &mut World, h: f64) {
    let squares = inertia_squares(world);
    for (i, sq) in squares.into_iter().enumerate() {
        let torque = world.torques.get(i).map_or(DVec3::ZERO, |t| vec(*t));
        let q = dquat(world.orientations.quat[i]);
        let w = vec(world.orientations.inv_inertia[i]);
        let omega = vec(world.orientations.omega[i]) + h * w * (q.conjugate() * torque);
        twist(world, i, sq, vec3(omega));
    }
}

fn predict_all(world: &mut World, h: f64) {
    let places = world
        .particles
        .pos
        .iter()
        .zip(&world.particles.vel)
        .map(|(p, v)| vec3(vec(*p) + vec(*v) * h))
        .collect();
    let quats = world
        .orientations
        .quat
        .iter()
        .zip(&world.orientations.omega)
        .map(|(q, w)| quat((dquat(*q) * DQuat::from_scaled_axis(vec(*w) * h)).normalize()))
        .collect();
    predict(world, places, quats);
}

fn end_velocities(world: &mut World, h: f64) {
    let damping = (-num(world.cfg.damping) * h).exp();
    let vels = world
        .particles
        .pred_pos
        .iter()
        .zip(&world.particles.prev_pos)
        .map(|(p, was)| vec3((vec(*p) - vec(*was)) / h * damping))
        .collect();
    update_velocities(world, &vels);
}

fn end_omegas(world: &mut World, h: f64) {
    let damping = (-num(world.cfg.damping) * h).exp();
    let omegas = world
        .orientations
        .quat
        .iter()
        .zip(&world.orientations.prev_quat)
        .map(|(q, was)| vec3(scaled_axis(dquat(*was).conjugate() * dquat(*q)) / h * damping))
        .collect();
    let squares = inertia_squares(world);
    update_omegas(world, &omegas, &squares);
}

fn moments(world: &World, h: f64) -> Vec<Scalar> {
    let h2 = h * h;
    world.bend_twist_constraints.iter().map(|b| scalar(vec(b.lambda).length() / h2)).collect()
}

/// What a step works with besides the world.
struct Step<'a> {
    h: f64,
    coloring: Option<&'a SolverColoring>,
    bar: Option<&'a mut Bar>,
    contacts: Vec<ContactConstraint>,
}

impl Step<'_> {
    fn run(&mut self, world: &mut World, phase: Phase) {
        let h = self.h;
        let h2 = h * h;
        match phase {
            Phase::SyncAnchors => {
                if let Some(bar) = &self.bar {
                    bar.sync(world);
                }
            }
            Phase::ExternalForces => external_forces(world, h),
            Phase::ExternalTorques => external_torques(world, h),
            Phase::LineDrag => apply_line_drag(world, h),
            Phase::CanopyAero => apply_canopy_aerodynamics(world, h),
            Phase::AeroCorrections => apply_aero_corrections(world),
            Phase::SparDrag => apply_spar_drag(world, h),
            // Both predictions are made at once, from the same state.
            Phase::PredictPositions => predict_all(world, h),
            Phase::PredictOrientations => {}
            Phase::ResetMultipliers => reset_multipliers(world),
            Phase::DetectContacts => self.contacts = detect(world),
            Phase::SolveDistance => sweep(
                world,
                world.distance_constraints.len(),
                self.coloring.map(|c| c.distance_colors.as_slice()),
                |w, k| solve_distance(w, k, h2),
                settle_distance,
            ),
            Phase::SolveBending => sweep(
                world,
                world.bending_constraints.len(),
                self.coloring.map(|c| c.bending_colors.as_slice()),
                |w, k| solve_bending(w, k, h2),
                settle_bending,
            ),
            Phase::SolveStretchShear => self.solve_stretch_shears(world),
            Phase::SolveBendTwist => self.solve_bend_twists(world),
            Phase::SolveDihedralBending => sweep(
                world,
                world.dihedral_bending_constraints.len(),
                self.coloring.map(|c| c.dihedral_bending_colors.as_slice()),
                |w, k| solve_dihedral(w, k, h2),
                settle_dihedral,
            ),
            Phase::SolveUnilateral => sweep(
                world,
                world.unilateral_constraints.len(),
                self.coloring.map(|c| c.unilateral_colors.as_slice()),
                |w, k| solve_unilateral(w, k, h2),
                settle_unilateral,
            ),
            Phase::SolveContacts => solve_contacts(world, &mut self.contacts),
            Phase::SolveGround => solve_ground_collision(world),
            Phase::UpdateVelocities => end_velocities(world, h),
            Phase::UpdateOmegas => end_omegas(world, h),
            Phase::CommitPositions => world.commit_positions(),
            Phase::YieldAndBreak => {
                let moments = moments(world, h);
                process_yield_and_breaking(world, &moments);
            }
            Phase::AdvanceBar => {
                if let Some(bar) = &mut self.bar {
                    bar.advance(world, h);
                }
            }
        }
    }

    /// The components of a segment follow one another, those of the members of a
    /// class side by side.
    fn solve_stretch_shears(&self, world: &mut World) {
        let h2 = self.h * self.h;
        let count = world.stretch_shear_constraints.len();
        match self.coloring {
            None => {
                for k in 0..count {
                    for part in COMPONENTS {
                        let s = solve_stretch_shear(world, k, part, h2);
                        settle_stretch_shear(world, k, part, &s);
                    }
                }
            }
            Some(c) => {
                for class in &c.stretch_shear_colors {
                    for part in COMPONENTS {
                        sweep(
                            world,
                            count,
                            Some(std::slice::from_ref(class)),
                            |w, k| solve_stretch_shear(w, k, part, h2),
                            |w, k, s| settle_stretch_shear(w, k, part, s),
                        );
                    }
                }
            }
        }
    }

    fn solve_bend_twists(&self, world: &mut World) {
        let h2 = self.h * self.h;
        let count = world.bend_twist_constraints.len();
        match self.coloring {
            None => {
                for k in 0..count {
                    for part in COMPONENTS {
                        let s = solve_bend_twist(world, k, part, h2);
                        settle_bend_twist(world, k, part, &s);
                    }
                }
            }
            Some(c) => {
                for class in &c.bend_twist_colors {
                    for part in COMPONENTS {
                        sweep(
                            world,
                            count,
                            Some(std::slice::from_ref(class)),
                            |w, k| solve_bend_twist(w, k, part, h2),
                            |w, k, s| settle_bend_twist(w, k, part, s),
                        );
                    }
                }
            }
        }
    }
}

/// Advances a world by `dt`.
fn step(world: &mut World, dt: f64, bar: Option<&mut Bar>) {
    let h = dt / world.cfg.substeps as f64;
    let plan = step_simulation(world, scalar(h), false);
    let coloring = if plan.parallel { world.coloring.take() } else { None };
    let mut run = Step { h, coloring: coloring.as_ref(), bar, contacts: Vec::new() };
    for _ in 0..plan.substeps {
        for &phase in &plan.phases {
            run.run(world, phase);
        }
    }
    if coloring.is_some() {
        world.coloring = coloring;
    }
    elapse(world, scalar(num(world.time) + dt));
}

fn place(world: &World, i: usize) -> DVec3 {
    vec(world.particles.pos[i])
}

/// The total mechanical energy of a world.
fn compute_total_energy(world: &World) -> f64 {
    let lengths = world
        .unilateral_constraints
        .iter()
        .map(|b| scalar((place(world, b.p1) - place(world, b.p2)).length()))
        .collect();
    let (mut motion, mut spin, mut height, mut elastic) = (0.0, 0.0, 0.0, 0.0);
    let stored = |delta_sq: f64, compliance: f64| 0.5 * delta_sq / compliance.max(1e-12);
    for term in energy_terms(world, &lengths) {
        match term {
            EnergyTerm::Particle(i) => {
                let m = 1.0 / inv_mass(world, i);
                motion += 0.5 * m * vec(world.particles.vel[i]).length_squared();
                height -= m * vec(world.cfg.gravity).dot(place(world, i));
            }
            EnergyTerm::Spin(i, k) => {
                let omega = component(vec(world.orientations.omega[i]), k);
                spin += 0.5 * omega.powi(2) / component(vec(world.orientations.inv_inertia[i]), k);
            }
            EnergyTerm::Distance(i) => {
                let c = world.distance_constraints[i];
                let delta =
                    (place(world, c.p1) - place(world, c.p2)).length() - num(c.rest_length);
                elastic += stored(delta * delta, num(c.compliance));
            }
            EnergyTerm::Bending(i) => {
                let b = world.bending_constraints[i];
                let delta = place(world, b.p1) - 2.0 * place(world, b.p2) + place(world, b.p3)
                    - vec(b.rest_value);
                elastic += stored(delta.length_squared(), num(b.compliance));
            }
            EnergyTerm::StretchShear(i) => {
                let c = world.stretch_shear_constraints[i];
                let q = dquat(world.orientations.quat[c.q_index]);
                let u = (place(world, c.p2) - place(world, c.p1)) / num(c.rest_length);
                let strain = q.conjugate() * u - DVec3::Z;
                for k in COMPONENTS {
                    let s = component(strain, k);
                    elastic += stored(s * s, component(vec(c.compliance), k));
                }
            }
            EnergyTerm::BendTwist(i) => {
                let b = world.bend_twist_constraints[i];
                let r = dquat(world.orientations.quat[b.q1_index]).conjugate()
                    * dquat(world.orientations.quat[b.q2_index]);
                let delta = DVec3::new(r.x, r.y, r.z) - vec(b.rest_value);
                let comp = joint_compliance(&world.cfg, &b);
                for k in COMPONENTS {
                    let d = component(delta, k);
                    elastic += stored(d * d, component(comp, k));
                }
            }
            EnergyTerm::Dihedral(i) => {
                let b = world.dihedral_bending_constraints[i];
                let delta = compute_dihedral_angle(
                    place(world, b.p1),
                    place(world, b.p2),
                    place(world, b.p3),
                    place(world, b.p4),
                ) - num(b.rest_angle);
                elastic += stored(delta * delta, num(b.compliance));
            }
            EnergyTerm::Unilateral(i) => {
                let b = world.unilateral_constraints[i];
                let delta =
                    (place(world, b.p1) - place(world, b.p2)).length() - num(b.rest_length);
                elastic += stored(delta * delta, num(b.compliance));
            }
        }
    }
    motion + spin + height + elastic
}

/// Air density, kg/m^3.
const RHO: f64 = 1.225;
/// Drag coefficient of a cylinder across the flow.
const CD_CYLINDER: f64 = 1.2;

fn velocity(world: &World, i: usize) -> DVec3 {
    vec(world.particles.vel[i])
}

fn wind(world: &World, p: DVec3) -> DVec3 {
    wind_at(p, num(world.time), &world.cfg.wind)
}

/// Cross-flow drag on one segment between two particles.
fn drag_segment(world: &mut World, p1: usize, p2: usize, diameter: f64, h: f64) {
    let diff = place(world, p2) - place(world, p1);
    let len = diff.length();
    let u = diff / len;
    let mid = 0.5 * (place(world, p1) + place(world, p2));
    let v_rel = wind(world, mid) - 0.5 * (velocity(world, p1) + velocity(world, p2));
    let cross = v_rel - v_rel.dot(u) * u;
    let speed = cross.length();
    if !drag_acts(world, p1, p2, scalar(len), scalar(speed)) {
        return;
    }
    let force = 0.5 * RHO * CD_CYLINDER * speed * speed * diameter * len * (cross / speed);
    for i in [p1, p2] {
        let vel = velocity(world, i) + h * (0.5 * force) * num(world.particles.inv_mass[i]);
        kick(world, i, vec3(vel));
    }
}

/// Drag on the lines.
fn apply_line_drag(world: &mut World, h: f64) {
    for k in 0..world.unilateral_constraints.len() {
        let b = world.unilateral_constraints[k];
        drag_segment(world, b.p1, b.p2, num(b.diameter), h);
    }
}

/// Drag on the spars.
fn apply_spar_drag(world: &mut World, h: f64) {
    for k in 0..world.stretch_shear_constraints.len() {
        let b = world.stretch_shear_constraints[k];
        drag_segment(world, b.p1, b.p2, num(b.diameter), h);
    }
}

/// Normal force, lift and drag coefficients of a flat plate.
fn flat_plate_coefficients(alpha: f64) -> (f64, f64, f64) {
    let cn = 1.1 * (2.0 * alpha).sin();
    (cn, cn * alpha.cos(), cn * alpha.sin() + 0.04)
}

/// Centroid, area and unit normal of a panel that has an area.
fn panel_geom(world: &World, panel: &CanopyPanel) -> Option<(DVec3, f64, DVec3)> {
    let (p1, p2, p3) = (place(world, panel.p1), place(world, panel.p2), place(world, panel.p3));
    let cross = (p2 - p1).cross(p3 - p1);
    let double_area = cross.length();
    if double_area < 1e-12 {
        return None;
    }
    Some(((p1 + p2 + p3) / 3.0, 0.5 * double_area, cross / double_area))
}

/// The chordwise load shape `(p + 1) (1 - xi)^p`.
fn chordwise_weight(xi: f64, p: f64) -> f64 {
    (p + 1.0) * (1.0 - xi.clamp(0.0, 1.0)).powf(p)
}

/// The sail's mean flow, by area.
#[derive(Default)]
struct Sail {
    area: f64,
    normal: DVec3,
    v_rel: DVec3,
    alpha: f64,
}

/// The quasi-steady force on each panel, scaled by a load
/// distribution along the chord of the whole sail.
fn apply_canopy_aerodynamics(world: &mut World, h: f64) {
    clear_readback(world);
    let panels: Vec<CanopyPanel> = world.canopy_panels.clone();
    let mut forces = vec![PanelAero::default(); panels.len()];
    let mut sail = Sail::default();
    for (k, panel) in panels.iter().enumerate() {
        let Some((centroid, area, normal)) = panel_geom(world, panel) else { continue };
        let v_panel = (velocity(world, panel.p1)
            + velocity(world, panel.p2)
            + velocity(world, panel.p3))
            / 3.0;
        let v_rel = wind(world, centroid) - v_panel;
        sail.area += area;
        sail.normal += area * normal;
        sail.v_rel += area * v_rel;
        let speed = v_rel.length();
        if speed < 1e-6 {
            continue;
        }
        let flow = v_rel / speed;
        let sin_alpha = flow.dot(normal).clamp(-1.0, 1.0);
        let alpha = sin_alpha.asin();
        sail.alpha += area * alpha.abs();
        let q = 0.5 * RHO * speed * speed;
        let (_, cl, cd) = flat_plate_coefficients(alpha);
        let lift = if alpha.cos().abs() > 1e-6 {
            q * area * cl * (normal - sin_alpha * flow).normalize()
        } else {
            DVec3::ZERO
        };
        forces[k] =
            PanelAero { lift: vec3(lift), drag: vec3(q * area * cd * flow), alpha: scalar(alpha) };
    }
    if sail.area <= 0.0 {
        return;
    }

    let n_bar = sail.normal.normalize_or_zero();
    let v_bar = sail.v_rel / sail.area;
    let chord = (v_bar - v_bar.dot(n_bar) * n_bar).normalize_or_zero();
    let x_bar = (0.25 + 0.25 * (1.0 - (sail.alpha / sail.area).cos())).clamp(0.25, 0.5);
    let exponent = 1.0 / x_bar - 2.0;
    let (mut s_min, mut s_max) = (f64::MAX, f64::MIN);
    if chord != DVec3::ZERO {
        for p in panels.iter().flat_map(|p| [p.p1, p.p2, p.p3]) {
            let s = place(world, p).dot(chord);
            s_min = s_min.min(s);
            s_max = s_max.max(s);
        }
    }
    let length = s_max - s_min;
    let uniform = chord == DVec3::ZERO || !length.is_finite() || length < 1e-9;
    let weight = |centroid: DVec3| {
        if uniform {
            1.0
        } else {
            chordwise_weight((centroid.dot(chord) - s_min) / length, exponent)
        }
    };
    let total: f64 = panels
        .iter()
        .filter_map(|p| panel_geom(world, p))
        .map(|(centroid, area, _)| area * weight(centroid))
        .sum();
    let norm = if total > 1e-12 { total / sail.area } else { 1.0 };

    for (k, panel) in panels.iter().enumerate() {
        let Some((centroid, area, _)) = panel_geom(world, panel) else { continue };
        let scale = weight(centroid) / norm;
        let lift = vec(forces[k].lift) * scale;
        let drag = vec(forces[k].drag) * scale;
        let share = (lift + drag) / 3.0;
        let mut vels: Vec<(usize, DVec3)> = Vec::with_capacity(3);
        for i in [panel.p1, panel.p2, panel.p3] {
            let was =
                vels.iter().rev().find(|(j, _)| *j == i).map_or(velocity(world, i), |(_, v)| *v);
            vels.push((i, was + h * share * num(world.particles.inv_mass[i])));
        }
        let load = PanelLoad {
            double_area: scalar(2.0 * area),
            aero: PanelAero { lift: vec3(lift), drag: vec3(drag), alpha: forces[k].alpha },
            vel1: vec3(vels[0].1),
            vel2: vec3(vels[1].1),
            vel3: vec3(vels[2].1),
        };
        load_panel(world, k, &load);
    }
}

/// The air that a panel of an area drags along broadside.
fn panel_added_mass(area: f64) -> f64 {
    let a = (area / std::f64::consts::PI).sqrt();
    (8.0 / 3.0) * RHO * a * a * a
}

/// Slows what each panel gained in speed along its normal, so
/// that the panel and the air it drags along accelerate together.
fn apply_aero_corrections(world: &mut World) {
    for k in 0..world.canopy_panels.len() {
        let panel = world.canopy_panels[k];
        let corners = [panel.p1, panel.p2, panel.p3];
        let p = corners.map(|i| place(world, i));
        let v = corners.map(|i| velocity(world, i));
        let cross = (p[1] - p[0]).cross(p[2] - p[0]);
        let double_area = cross.length();
        let normal = cross / double_area;
        let mass: f64 = corners.iter().map(|&i| 1.0 / num(world.particles.inv_mass[i])).sum();
        let added = panel_added_mass(0.5 * double_area);
        let mean = (v[0] + v[1] + v[2]) / 3.0;
        let gained = panel.prev_mean_vel.map_or(0.0, |prev| (mean - vec(prev)).dot(normal));
        let correction = -gained * added / (mass + added) * normal;
        let c = PanelCorrection {
            double_area: scalar(double_area),
            mean: vec3(mean),
            vel1: vec3(v[0] + correction),
            vel2: vec3(v[1] + correction),
            vel3: vec3(v[2] + correction),
            mean_after: vec3(mean + correction),
        };
        correct_panel(world, k, &c);
    }
}

fn thickness() -> f64 {
    f64::from_bits(CONTACT_THICKNESS_BITS)
}

/// Barycentric coordinates of a point of a triangle.
fn barycentric(p: DVec3, a: DVec3, b: DVec3, c: DVec3) -> (f64, f64, f64) {
    let (v0, v1, v2) = (b - a, c - a, p - a);
    let (d00, d01, d11) = (v0.dot(v0), v0.dot(v1), v1.dot(v1));
    let (d20, d21) = (v2.dot(v0), v2.dot(v1));
    let denom = d00 * d11 - d01 * d01;
    if denom.abs() < 1.0e-12 {
        return (1.0, 0.0, 0.0);
    }
    let v = (d11 * d20 - d01 * d21) / denom;
    let w = (d00 * d21 - d01 * d20) / denom;
    let u = 1.0 - v - w;
    let (u, v, w) = (u.clamp(0.0, 1.0), v.clamp(0.0, 1.0), w.clamp(0.0, 1.0));
    let sum = u + v + w;
    (u / sum, v / sum, w / sum)
}

fn sample(world: &World, particle: usize, panel: usize) -> Sample {
    let t = world.canopy_panels[panel];
    let (a, b, c) = (pred(world, t.p1), pred(world, t.p2), pred(world, t.p3));
    let p = pred(world, particle);
    let tri = Triangle::new(
        Vector::new(a.x, a.y, a.z),
        Vector::new(b.x, b.y, b.z),
        Vector::new(c.x, c.y, c.z),
    );
    let found = tri.project_local_point(Vector::new(p.x, p.y, p.z), true).point;
    let closest = DVec3::new(found.x, found.y, found.z);
    let diff = p - closest;
    let dist = diff.length();
    let normal = (b - a).cross(c - a);
    let (u, v, w) = barycentric(closest, a, b, c);
    Sample {
        distance: scalar(dist),
        direction: vec3(diff / dist),
        tri_normal: vec3(normal.normalize()),
        tri_normal_sq: scalar(normal.length_squared()),
        depth: scalar(thickness() - dist),
        u: scalar(u),
        v: scalar(v),
        w: scalar(w),
    }
}

/// The self-collisions of the predicted places.
fn detect(world: &World) -> Vec<ContactConstraint> {
    let samples = collision_candidates(world)
        .iter()
        .map(|c| sample(world, c.particle, c.panel))
        .collect();
    detect_self_collisions(world, &samples)
}

/// Pushes the particles of each contact apart.
fn solve_contacts(world: &mut World, contacts: &mut [ContactConstraint]) {
    for c in contacts {
        let shares = [(c.p_i, 1.0), (c.p_a, -num(c.u)), (c.p_b, -num(c.v)), (c.p_c, -num(c.w))];
        let normal = vec(c.normal);
        let gap: DVec3 = shares.iter().map(|&(i, share)| share * pred(world, i)).sum();
        let value = gap.dot(normal) - thickness();
        let denom: f64 =
            shares.iter().map(|&(i, share)| share * share * num(world.particles.inv_mass[i])).sum();
        let lambda = pushing_lambda(scalar(num(c.lambda) - value / denom));
        let delta = num(lambda) - num(c.lambda);
        // Corners of a degenerate triangle may coincide, and then move in turn.
        let mut moved: Vec<(usize, DVec3)> = Vec::with_capacity(shares.len());
        for (i, share) in shares {
            let from = moved.iter().rev().find(|(j, _)| *j == i).map_or(pred(world, i), |m| m.1);
            let by = share * num(world.particles.inv_mass[i]) * delta * normal;
            moved.push((i, from + by));
        }
        let s = ContactSolve {
            value: scalar(value),
            denom: scalar(denom),
            lambda,
            pos_i: vec3(moved[0].1),
            pos_a: vec3(moved[1].1),
            pos_b: vec3(moved[2].1),
            pos_c: vec3(moved[3].1),
        };
        settle_contact(world, c, &s);
    }
}

fn to_rapier(v: DVec3) -> Vector {
    Vector::new(v.x, v.y, v.z)
}

fn from_rapier(v: Vector) -> DVec3 {
    DVec3::new(v.x, v.y, v.z)
}

/// A bar that is held at its center, free to turn, with lines at its tips.
struct Bar {
    bodies: RigidBodySet,
    colliders: ColliderSet,
    impulse_joints: ImpulseJointSet,
    multibody_joints: MultibodyJointSet,
    soft_bodies: SoftBodySet,
    islands: IslandManager,
    broad_phase: DefaultBroadPhase,
    narrow_phase: NarrowPhase,
    ccd: CCDSolver,
    pipeline: PhysicsPipeline,
    params: IntegrationParameters,
    handle: RigidBodyHandle,
    half_span: f64,
    anchors: ControlBar,
}

impl Bar {
    /// A bar of a mass and a half span, held at the pilot's hands; the anchors
    /// are pinned particles.
    fn new(pilot: DVec3, half_span: f64, mass: f64, anchors: ControlBar) -> Self {
        let mut bodies = RigidBodySet::new();
        let mut colliders = ColliderSet::new();
        let mut impulse_joints = ImpulseJointSet::new();
        let fixed = bodies.insert(RigidBodyBuilder::fixed().translation(to_rapier(pilot)));
        let handle = bodies
            .insert(RigidBodyBuilder::dynamic().translation(to_rapier(pilot)).can_sleep(false));
        colliders.insert_with_parent(
            ColliderBuilder::capsule_x(half_span, 0.015)
                .mass(mass)
                .collision_groups(InteractionGroups::none()),
            handle,
            &mut bodies,
        );
        let joint = SphericalJointBuilder::new()
            .local_anchor1(Vector::new(0.0, 0.0, 0.0))
            .local_anchor2(Vector::new(0.0, 0.0, 0.0));
        impulse_joints.insert(fixed, handle, joint, true);
        Self {
            bodies,
            colliders,
            impulse_joints,
            multibody_joints: MultibodyJointSet::new(),
            soft_bodies: SoftBodySet::new(),
            islands: IslandManager::new(),
            broad_phase: DefaultBroadPhase::new(),
            narrow_phase: NarrowPhase::new(),
            ccd: CCDSolver::new(),
            pipeline: PhysicsPipeline::new(),
            params: IntegrationParameters::default(),
            handle,
            half_span,
            anchors,
        }
    }

    /// Attaches the bar to a world: its anchors become particles of the step.
    fn attach(&self, world: &mut World) {
        let n = world.particles.len();
        assert!(
            self.anchors.left_anchor < n && self.anchors.right_anchor < n,
            "the bar's anchors must be particles of the world"
        );
        world.control_bar = Some(self.anchors);
    }

    fn tip(&self, left: bool) -> Vector {
        let x = if left { -self.half_span } else { self.half_span };
        self.bodies[self.handle].position().transform_point(Vector::new(x, 0.0, 0.0))
    }

    /// Where a tip is.
    fn tip_position(&self, left: bool) -> DVec3 {
        from_rapier(self.tip(left))
    }

    /// How fast a tip moves.
    fn tip_velocity(&self, left: bool) -> DVec3 {
        from_rapier(self.bodies[self.handle].velocity_at_point(self.tip(left)))
    }

    fn tip_state(&self, left: bool) -> TipState {
        TipState { pos: vec3(self.tip_position(left)), vel: vec3(self.tip_velocity(left)) }
    }

    /// Writes the tips' states into the anchor particles.
    fn sync(&self, world: &mut World) {
        self.anchors.sync_anchors_to_world(world, self.tip_state(true), self.tip_state(false));
    }

    /// Lets the lines pull on the tips, and advances the bar.
    fn advance(&mut self, world: &World, h: f64) {
        let mut force = [DVec3::ZERO, DVec3::ZERO];
        for pull in self.anchors.line_pulls(&world.unilateral_constraints) {
            let diff = vec(world.particles.pred_pos[pull.this])
                - vec(world.particles.pred_pos[pull.other]);
            let dist = diff.length();
            if dist < 1e-12 {
                continue;
            }
            let lambda = num(world.unilateral_constraints[pull.line].lambda);
            force[usize::from(!pull.left)] += (lambda / (h * h)) * (diff / dist);
        }
        let tips = [self.tip(true), self.tip(false)];
        let body = &mut self.bodies[self.handle];
        // Neither forces nor torques are cleared by a step of their own accord.
        body.reset_forces(true);
        body.reset_torques(true);
        for (f, tip) in force.into_iter().zip(tips) {
            if f != DVec3::ZERO {
                body.add_force_at_point(to_rapier(f), tip, true);
            }
        }
        self.params.dt = h;
        self.pipeline.step(
            to_rapier(vec(world.cfg.gravity)),
            &self.params,
            &mut self.islands,
            &mut self.broad_phase,
            &mut self.narrow_phase,
            &mut self.bodies,
            &mut self.colliders,
            &mut self.impulse_joints,
            &mut self.multibody_joints,
            &mut self.soft_bodies,
            &mut self.ccd,
            &(),
            &(),
        );
    }
}

/// Nodes closer than this weld.
const WELD_TOL: f64 = 1.0e-3;

/// Which of some places coincide.
fn near_table(places: &[DVec3]) -> NearTable {
    let rows = places
        .iter()
        .map(|a| places.iter().map(|b| (*a - *b).length() < WELD_TOL).collect())
        .collect();
    NearTable { rows }
}

/// A spar's step from node to node.
fn spar_delta(spar: &SparDef) -> DVec3 {
    (vec(spar.end) - vec(spar.start)) / spar.num_segments as f64
}

fn grid_pos(panel: &PanelDef, v: GridVert) -> DVec3 {
    let n = or_one(panel.subdivisions) as f64;
    let p1 = vec(panel.p1);
    p1 + (vec(panel.p2) - p1) * (v.i as f64 / n) + (vec(panel.p3) - p1) * (v.j as f64 / n)
}

/// Where a site is.
fn site_place(world: &World, def: &KiteDefinition, site: Site) -> DVec3 {
    match site {
        Site::Existing { particle } => vec(world.particles.pos[particle]),
        Site::SparNode { spar, node } => {
            let s = &def.spars[spar];
            vec(s.start) + spar_delta(s) * node as f64
        }
        Site::StiffJunction { junction } => vec(def.stiff_junctions[junction].point),
        Site::PanelVert { panel, vert } => grid_pos(&def.panels[panel], vert),
        Site::BridleJunction => vec(def.bridle_junction),
        Site::BridleFrom { line } => vec(def.bridles[line].from),
        Site::BridleTo { line } => vec(def.bridles[line].to),
        Site::BridleInner { line, node } => {
            let l = &def.bridles[line];
            let t = node as f64 / or_one(l.num_segments) as f64;
            vec(l.from) + (vec(l.to) - vec(l.from)) * t
        }
        Site::Pinned { point } => vec(def.pinned_points[point]),
    }
}

fn section(spar: &SparDef) -> SectionGeometry {
    SectionGeometry::SolidRound { radius: spar.radius }
}

fn segment_mass(spar: &SparDef) -> f64 {
    num(spar.density) * area(&section(spar)) * spar_delta(spar).length()
}

/// A grid vertex's share of its panel's fabric: a third of each
/// triangle that it is a corner of.
fn vertex_mass(panel: &PanelDef, v: GridVert) -> f64 {
    let mut mass = 0.0;
    for t in panel_triangles(or_one(panel.subdivisions)) {
        if t.a == v || t.b == v || t.c == v {
            let (a, b, c) = (grid_pos(panel, t.a), grid_pos(panel, t.b), grid_pos(panel, t.c));
            mass += 0.5 * (b - a).cross(c - a).length() * num(panel.areal_density) / 3.0;
        }
    }
    mass
}

/// The mass of a node that is made at a site.
fn site_mass(def: &KiteDefinition, site: Site) -> f64 {
    match site {
        Site::SparNode { spar, node } => {
            let s = &def.spars[spar];
            let inner = node > 0 && node < s.num_segments;
            segment_mass(s) * if inner { 1.0 } else { 0.5 }
        }
        Site::PanelVert { panel, vert } => vertex_mass(&def.panels[panel], vert),
        Site::BridleInner { line, .. } => {
            let l = &def.bridles[line];
            let area = std::f64::consts::PI * (num(l.diameter) * 0.5).powi(2);
            // A line without inner nodes has no such site.
            num(l.density) * area * num(l.rest_length) / (or_one(l.num_segments) - 1) as f64
        }
        _ => 0.0,
    }
}

/// What is measured for a spar.
fn measure_spar(spar: &SparDef) -> SparValues {
    let delta = spar_delta(spar);
    let length = delta.length();
    let tangent = delta.normalize();
    let turned = if tangent.dot(DVec3::NEG_Z).abs() > 0.999 {
        DQuat::from_rotation_y(std::f64::consts::PI)
    } else {
        DQuat::from_rotation_arc(DVec3::Z, tangent)
    };
    let geom = section(spar);
    let mat = Material {
        youngs_modulus: spar.youngs_modulus,
        shear_modulus: spar.shear_modulus,
        density: spar.density,
        tensile_strength: scalar(1.0e9),
    };
    SparValues {
        segment_length: scalar(length),
        diameter: scalar(2.0 * num(spar.radius)),
        quat: quat(turned),
        inv_inertia: inv_inertia(&geom, length, segment_mass(spar)),
        stretch_shear: vec3(stretch_shear_compliance(&mat, &geom, length)),
        bend_twist: vec3(bend_twist_compliance(&mat, &geom, length)),
    }
}

fn brings_mass(site: Site) -> bool {
    matches!(site, Site::SparNode { .. } | Site::PanelVert { .. })
}

/// The inverse mass of the node of each site that welds and brings
/// mass along, once that is added.
fn reweigh(world: &World, sites: &[Site], plan: &KitePlan, values: &mut [SiteValues]) {
    let mut inv: Vec<f64> = world.particles.inv_mass.iter().map(|w| num(*w)).collect();
    for (request, &node) in plan.layout.requests.iter().zip(&plan.layout.nodes) {
        let v = &mut values[request.site];
        let mass = num(v.mass);
        if node >= inv.len() {
            inv.push(if mass > 0.0 { 1.0 / mass } else { 0.0 });
        } else if brings_mass(sites[request.site]) && inv[node] > 0.0 {
            inv[node] = 1.0 / (1.0 / inv[node] + mass);
            v.reweighed = scalar(inv[node]);
        }
    }
}

/// Builds a kite into a world.
fn build(world: &mut World, def: &KiteDefinition) {
    for s in &def.spars {
        assert!(s.num_segments > 0, "a spar has at least one segment");
    }
    let sites = kite_sites(def, world.particles.len());
    let places: Vec<DVec3> = sites.iter().map(|s| site_place(world, def, *s)).collect();
    let near = near_table(&places);
    let nodes: Vec<DVec3> = sites
        .iter()
        .zip(&places)
        .filter(|(s, _)| matches!(s, Site::SparNode { .. }))
        .map(|(_, p)| *p)
        .collect();
    let distances = def
        .lashings
        .iter()
        .map(|l| nodes.iter().map(|p| scalar((*p - vec(l.point)).length())).collect())
        .collect();
    let plan = plan_kite(world, def, &near, &distances);

    let at = |p: usize| places[plan.layout.origins[p]];
    let mut site_values: Vec<SiteValues> = sites
        .iter()
        .zip(&places)
        .map(|(s, p)| {
            let mass = site_mass(def, *s);
            SiteValues {
                pos: vec3(*p),
                mass: scalar(mass),
                recip: scalar(1.0 / mass),
                reweighed: scalar(0.0),
            }
        })
        .collect();
    reweigh(world, &sites, &plan, &mut site_values);
    let spars: Vec<SparValues> = def.spars.iter().map(measure_spar).collect();

    let mut quats: Vec<DQuat> = world.orientations.quat.iter().map(|q| dquat(*q)).collect();
    for (s, v) in def.spars.iter().zip(&spars) {
        quats.extend(std::iter::repeat(dquat(v.quat)).take(s.num_segments));
    }
    let stiff_rest = plan
        .stiff
        .iter()
        .map(|p| {
            let r = quats[p.first].conjugate() * quats[p.second];
            vec3(DVec3::new(r.x, r.y, r.z))
        })
        .collect();
    let edges = plan
        .edges
        .iter()
        .map(|e| {
            let edge = at(e.b) - at(e.a);
            let along = edge.normalize();
            EdgeValues {
                length: scalar(edge.length()),
                cos_warp: scalar(along.x.abs()),
                cos_weft: scalar(along.z.abs()),
            }
        })
        .collect();
    let fold_angles = plan
        .folds
        .iter()
        .map(|f| scalar(compute_dihedral_angle(at(f.p1), at(f.p2), at(f.p3), at(f.p4))))
        .collect();
    let lash_lengths =
        plan.lashes.iter().map(|l| scalar((at(l.a) - at(l.b)).length())).collect();
    let line_lengths = def
        .bridles
        .iter()
        .map(|l| scalar(num(l.rest_length) / or_one(l.num_segments) as f64))
        .collect();
    let values = KiteValues {
        sites: site_values,
        spars,
        stiff_rest,
        edges,
        fold_angles,
        lash_lengths,
        line_lengths,
    };
    build_kite_from_def(world, def, &near, &plan, &values);
}

// Scenes and helpers.

fn add(world: &mut World, pos: DVec3, mass: f64) -> usize {
    world.add_particle(vec3(pos), scalar(mass), scalar(1.0 / mass))
}

/// A particle that no external force is kept for.
fn add_bare(world: &mut World, pos: DVec3, mass: f64) -> usize {
    world.particles.add_particle(vec3(pos), scalar(mass), scalar(1.0 / mass))
}

fn run(world: &mut World, dt: f64, steps: usize) {
    for _ in 0..steps {
        step(world, dt, None);
    }
}

fn tie(world: &mut World, p1: usize, p2: usize, rest_length: f64, compliance: f64) {
    world
        .distance_constraints
        .push(DistanceConstraint::new(p1, p2, scalar(rest_length), scalar(compliance)));
}

fn line(world: &mut World, p1: usize, p2: usize, rest_length: f64, compliance: f64, d: f64) {
    world.unilateral_constraints.push(UnilateralDistanceConstraint::new(
        p1,
        p2,
        scalar(rest_length),
        scalar(compliance),
        scalar(d),
    ));
}

fn set_wind(world: &mut World, v_ref: f64, direction: DVec3) {
    world.cfg.wind.v_ref = scalar(v_ref);
    world.cfg.wind.direction = vec3(direction);
    world.cfg.wind.shear_exponent = scalar(0.0);
}

fn gravity(world: &mut World, y: f64) {
    world.cfg.gravity = vec3(DVec3::new(0.0, y, 0.0));
}

fn is_finite(p: DVec3) -> bool {
    p.x.is_finite() && p.y.is_finite() && p.z.is_finite()
}

fn empty_kite_def(name: &str) -> KiteDefinition {
    KiteDefinition {
        name: name.to_string(),
        spars: Vec::new(),
        panels: Vec::new(),
        bridles: Vec::new(),
        bridle_junction: vec3(DVec3::ZERO),
        bridle_junction_pinned: false,
        pinned_points: Vec::new(),
        stiff_junctions: Vec::new(),
        lashings: Vec::new(),
    }
}

fn find_particle_near(world: &World, target: DVec3, tol: f64) -> usize {
    (0..world.particles.len())
        .find(|&i| (place(world, i) - target).length() < tol)
        .unwrap_or_else(|| panic!("no particle found near {:?}", target))
}

fn triangle_panel(n: usize, areal_density: f64, stretch: f64, bending: f64) -> PanelDef {
    PanelDef {
        name: "p0".to_string(),
        p1: vec3(DVec3::new(0.0, 0.0, 0.0)),
        p2: vec3(DVec3::new(1.0, 0.0, 0.0)),
        p3: vec3(DVec3::new(0.0, 0.0, 1.0)),
        warp_compliance: scalar(stretch),
        weft_compliance: scalar(stretch),
        shear_compliance: scalar(stretch),
        bending_compliance: scalar(bending),
        subdivisions: n,
        areal_density: scalar(areal_density),
    }
}

fn total_mass(world: &World) -> f64 {
    (0..world.particles.len())
        .map(|i| inv_mass(world, i))
        .map(|w| if w > 0.0 { 1.0 / w } else { 0.0 })
        .sum()
}

// Kites.

#[test]
fn subdivision_produces_expected_mesh_and_mass() {
    let n = 3usize;
    let areal_density = 0.2;
    let mut def = empty_kite_def("subdiv");
    def.panels.push(triangle_panel(n, areal_density, 1e-6, 1e-3));
    let mut world = World::new();
    build(&mut world, &def);

    // The bridle junction welds to the panel's corner.
    assert_eq!(world.particles.len(), 10);
    assert_eq!(world.canopy_panels.len(), 9);

    let total = total_mass(&world);
    let expected_mass = 0.5 * areal_density;
    assert!(
        (total - expected_mass).abs() / expected_mass < 1e-9,
        "total_mass={} expected={}",
        total,
        expected_mass
    );

    let expected_short = 1.0 / n as f64;
    let expected_diag = 2.0f64.sqrt() / n as f64;
    for c in &world.distance_constraints {
        let len = num(c.rest_length);
        let close_short = (len - expected_short).abs() < 1e-9;
        let close_diag = (len - expected_diag).abs() < 1e-9;
        assert!(close_short || close_diag, "unexpected sub-edge length {}", len);
    }
}

#[test]
fn fabric_mass_is_mesh_resolution_independent() {
    let mass_of = |n: usize| -> f64 {
        let mut def = empty_kite_def("mesh_indep");
        def.panels.push(triangle_panel(n, 0.2, 1e-6, 1e-3));
        let mut world = World::new();
        build(&mut world, &def);
        total_mass(&world)
    };
    let mass_n1 = mass_of(1);
    let mass_n4 = mass_of(4);
    assert!(
        (mass_n1 - mass_n4).abs() / mass_n1 < 1e-9,
        "mass_n1={} mass_n4={}",
        mass_n1,
        mass_n4
    );
}

/// A line that is longer than the way between its pinned ends.
fn bridle_chain_def() -> KiteDefinition {
    let from = vec3(DVec3::new(-1.0, 0.0, 0.0));
    let to = vec3(DVec3::new(1.0, 0.0, 0.0));
    let mut def = empty_kite_def("bridle_chain");
    def.bridle_junction = to;
    def.bridles.push(BridleLineDef {
        name: "chain".to_string(),
        from,
        to,
        rest_length: scalar(2.5),
        compliance: scalar(1e-9),
        diameter: scalar(0.003),
        num_segments: 8,
        density: scalar(970.0),
    });
    def.pinned_points.push(from);
    def.pinned_points.push(to);
    def
}

#[test]
fn bridle_chain_sags_under_gravity() {
    let def = bridle_chain_def();
    let mut world = World::new();
    gravity(&mut world, -9.81);
    build(&mut world, &def);
    let mid_idx = find_particle_near(&world, DVec3::new(0.0, 0.0, 0.0), 0.2);
    run(&mut world, 0.01, 500);
    let mid_y = place(&world, mid_idx).y;
    assert!(
        mid_y < -0.05,
        "expected midpoint to sag well below the straight chord (y=0), got y={}",
        mid_y
    );
}

#[test]
fn bridle_chain_deflects_downwind_under_crosswind() {
    let def = bridle_chain_def();
    let mut world = World::new();
    gravity(&mut world, 0.0);
    set_wind(&mut world, 20.0, DVec3::new(0.0, 0.0, 1.0));
    build(&mut world, &def);
    let mid_idx = find_particle_near(&world, DVec3::new(0.0, 0.0, 0.0), 0.2);
    run(&mut world, 0.01, 500);
    let mid_z = place(&world, mid_idx).z;
    assert!(
        mid_z > 0.05,
        "expected midpoint to deflect downwind (+Z) under crosswind, got z={}",
        mid_z
    );
}

fn rod(name: &str, start: DVec3, end: DVec3, num_segments: usize) -> SparDef {
    SparDef {
        name: name.to_string(),
        start: vec3(start),
        end: vec3(end),
        num_segments,
        radius: scalar(0.005),
        youngs_modulus: scalar(4.0e10),
        shear_modulus: scalar(4.0e9),
        density: scalar(1950.0),
    }
}

/// An upright with pinned ends and a cantilever from its middle.
fn t_joint_def(with_junction: bool) -> KiteDefinition {
    let mut def = empty_kite_def("t_joint");
    let (low, high) = (DVec3::new(0.0, -1.0, 0.0), DVec3::new(0.0, 1.0, 0.0));
    def.spars.push(rod("vertical", low, high, 4));
    def.spars.push(rod("cantilever", DVec3::ZERO, DVec3::new(1.0, 0.0, 0.0), 1));
    def.pinned_points.push(vec3(low));
    def.pinned_points.push(vec3(high));
    if with_junction {
        def.stiff_junctions.push(StiffJunctionDef {
            point: vec3(DVec3::ZERO),
            compliance: scalar(1e-10),
        });
    }
    def
}

/// How far the tip of the cantilever hangs after five seconds.
fn droop(def: &KiteDefinition, iterations: usize) -> f64 {
    let mut world = World::new();
    gravity(&mut world, -9.81);
    world.cfg.iterations_per_substep = iterations;
    build(&mut world, def);
    let tip_idx = find_particle_near(&world, DVec3::new(1.0, 0.0, 0.0), 0.05);
    run(&mut world, 0.01, 500);
    place(&world, tip_idx).y.abs()
}

#[test]
fn stiff_junction_holds_cantilever_near_build_height() {
    let tip_y_with = droop(&t_joint_def(true), 4);
    let tip_y_without = droop(&t_joint_def(false), 4);
    println!("tip droop with junction: {}, without: {}", tip_y_with, tip_y_without);
    assert!(
        tip_y_with < 0.01,
        "stiff junction should hold the cantilever tip near build height, drooped {}",
        tip_y_with
    );
    assert!(
        tip_y_without > tip_y_with * 10.0,
        "without the junction the tip should swing down more: with={} without={}",
        tip_y_with,
        tip_y_without
    );
}

/// The junction and the cantilever's segment pull on the same orientation. What
/// a few sweeps leave of that shows as droop, and more sweeps take it away.
#[test]
fn more_sweeps_leave_less_droop() {
    let def = t_joint_def(true);
    let measured: Vec<f64> = [1, 2, 4, 8, 16, 32].iter().map(|n| droop(&def, *n)).collect();
    let expected = [0.0282, 0.0153, 0.0088, 0.0055, 0.0038, 0.0030];
    for (m, e) in measured.iter().zip(expected) {
        assert!((m - e).abs() < 5e-5, "{:?}", measured);
    }
    // A far stiffer upright hardly changes it.
    let mut stiff = t_joint_def(true);
    stiff.spars[0].youngs_modulus = scalar(4.0e14);
    let d = droop(&stiff, 1);
    assert!((d - 0.0258).abs() < 5e-5, "{}", d);
}

#[test]
fn stiff_junctions_lock_the_spars_as_they_are_built() {
    let mut plain = World::new();
    build(&mut plain, &t_joint_def(false));
    let mut stiff = World::new();
    build(&mut stiff, &t_joint_def(true));
    // Two segments of the upright meet the cantilever at the junction.
    let joints = plain.bend_twist_constraints.len();
    assert_eq!(joints, 3);
    assert_eq!(stiff.bend_twist_constraints.len(), joints + 2);
    for (k, first) in [(joints, 1), (joints + 1, 2)] {
        let b = stiff.bend_twist_constraints[k];
        assert_eq!((b.q1_index, b.q2_index), (first, 4));
        assert_eq!(num(b.compliance.x), 1e-10);
        let r = dquat(stiff.orientations.quat[first]).conjugate()
            * dquat(stiff.orientations.quat[4]);
        assert_eq!(vec(b.rest_value), DVec3::new(r.x, r.y, r.z));
    }
}

#[test]
fn bridle_to_bridle_knot_welds_regardless_of_listing_order() {
    let b_from = DVec3::new(0.0, 0.0, 0.0);
    let b_to = DVec3::new(0.0, -2.0, 0.0);
    let b_mid = b_from + (b_to - b_from) * 0.5;
    let a_from = DVec3::new(-1.0, -1.0, 0.0);

    let mut def = empty_kite_def("cascade");
    def.bridle_junction = vec3(b_from);
    def.bridle_junction_pinned = true;
    // The attacher is listed first and ends on a node that comes later.
    def.bridles.push(BridleLineDef {
        name: "A_attacher".to_string(),
        from: vec3(a_from),
        to: vec3(b_mid),
        rest_length: scalar(1.0),
        compliance: scalar(1e-9),
        diameter: scalar(0.003),
        num_segments: 1,
        density: scalar(970.0),
    });
    def.bridles.push(BridleLineDef {
        name: "B_base".to_string(),
        from: vec3(b_from),
        to: vec3(b_to),
        rest_length: scalar(2.0),
        compliance: scalar(1e-9),
        diameter: scalar(0.003),
        num_segments: 2,
        density: scalar(970.0),
    });
    def.pinned_points.push(vec3(a_from));
    def.pinned_points.push(vec3(b_to));

    let mut world = World::new();
    gravity(&mut world, -9.81);
    build(&mut world, &def);

    let near_count = (0..world.particles.len())
        .filter(|&i| (place(&world, i) - b_mid).length() < 1e-4)
        .count();
    assert_eq!(near_count, 1, "expected exactly one particle at the knot, found {}", near_count);

    let b_mid_idx = find_particle_near(&world, b_mid, 1e-4);
    let a_from_idx = find_particle_near(&world, a_from, 1e-4);
    let a_chain_other = world
        .unilateral_constraints
        .iter()
        .find_map(|c| {
            if c.p1 == a_from_idx {
                Some(c.p2)
            } else if c.p2 == a_from_idx {
                Some(c.p1)
            } else {
                None
            }
        })
        .expect("expected a unilateral constraint touching A's anchor");
    assert_eq!(
        a_chain_other, b_mid_idx,
        "attacher's chain endpoint should weld to B's interior knot particle, not duplicate it"
    );

    run(&mut world, 0.01, 100);
    for i in 0..world.particles.len() {
        assert!(is_finite(place(&world, i)), "particle {} went non-finite", i);
    }
}

#[test]
fn lashing_holds_second_spar_at_fixed_separation() {
    let mut def = empty_kite_def("lashed_spars");
    let (left, right) = (DVec3::new(-0.5, 0.0, 0.0), DVec3::new(0.5, 0.0, 0.0));
    let down = DVec3::new(0.0, -0.05, 0.0);
    def.spars.push(rod("fixed", left, right, 4));
    def.spars.push(rod("hanging", left + down, right + down, 4));
    def.lashings.push(LashingDef {
        point: vec3(DVec3::new(0.0, -0.025, 0.0)),
        compliance: scalar(1e-10),
    });
    def.pinned_points.push(vec3(left));
    def.pinned_points.push(vec3(right));

    let mut world = World::new();
    gravity(&mut world, -9.81);
    build(&mut world, &def);
    let fixed_mid = find_particle_near(&world, DVec3::new(0.0, 0.0, 0.0), 1e-4);
    let hang_mid = find_particle_near(&world, DVec3::new(0.0, -0.05, 0.0), 1e-4);
    run(&mut world, 0.01, 200);

    let sep = (place(&world, fixed_mid) - place(&world, hang_mid)).length();
    assert!(
        (sep - 0.05).abs() / 0.05 < 0.10,
        "expected lashed nodes to stay ~5cm apart (free hang), got {}",
        sep
    );
}

fn one_spar() -> SparDef {
    SparDef {
        name: "s0".to_string(),
        start: vec3(DVec3::new(0.0, 0.0, 0.0)),
        end: vec3(DVec3::new(1.0, 0.0, 0.0)),
        num_segments: 1,
        radius: scalar(0.01),
        youngs_modulus: scalar(1.0e9),
        shear_modulus: scalar(5.0e8),
        density: scalar(1000.0),
    }
}

#[test]
fn pinned_point_welds_existing_node() {
    let mut world_baseline = World::new();
    let mut def = empty_kite_def("weld_test");
    def.spars.push(one_spar());
    build(&mut world_baseline, &def);
    let baseline_count = world_baseline.particles.len();

    let mut world_pinned = World::new();
    def.pinned_points.push(vec3(DVec3::new(0.0002, 0.0, 0.0)));
    build(&mut world_pinned, &def);
    assert_eq!(world_pinned.particles.len(), baseline_count, "weld should not add a particle");

    let idx = (0..world_pinned.particles.len())
        .find(|&i| (place(&world_pinned, i) - DVec3::new(0.0, 0.0, 0.0)).length() < 1e-3)
        .expect("welded particle not found");
    assert_eq!(inv_mass(&world_pinned, idx), 0.0);
}

#[test]
fn pinned_point_creates_isolated_anchor() {
    let mut def = empty_kite_def("anchor_test");
    def.spars.push(one_spar());
    let mut world_baseline = World::new();
    build(&mut world_baseline, &def);
    let baseline_count = world_baseline.particles.len();

    let far_point = DVec3::new(100.0, 100.0, 100.0);
    def.pinned_points.push(vec3(far_point));
    let mut world_pinned = World::new();
    build(&mut world_pinned, &def);

    assert_eq!(world_pinned.particles.len(), baseline_count + 1);
    let idx = (0..world_pinned.particles.len())
        .find(|&i| (place(&world_pinned, i) - far_point).length() < 1e-6)
        .expect("new anchor particle not found");
    assert_eq!(inv_mass(&world_pinned, idx), 0.0);
}

#[test]
fn a_second_kite_keeps_what_was_built() {
    let mut def = empty_kite_def("twice");
    def.spars.push(one_spar());
    let mut world = World::new();
    build(&mut world, &def);
    let before: Vec<DVec3> = (0..world.particles.len()).map(|i| place(&world, i)).collect();
    // The same spar again welds to the nodes that are there.
    build(&mut world, &def);
    assert_eq!(world.particles.len(), before.len());
    assert_eq!(world.stretch_shear_constraints.len(), 2);
    assert_eq!(world.stretch_shear_constraints[1].p1, world.stretch_shear_constraints[0].p1);
    assert_eq!(world.stretch_shear_constraints[1].q_index, 1);
    for (i, p) in before.iter().enumerate() {
        assert_eq!(place(&world, i), *p);
    }
}

// Steps.

#[test]
fn last_h_set_after_step() {
    let mut world = World::new();
    let dt = 0.01;
    step(&mut world, dt, None);
    let expected = dt / world.cfg.substeps as f64;
    assert!(
        (num(world.last_h) - expected).abs() < 1e-15,
        "last_h = {}, expected {}",
        num(world.last_h),
        expected
    );
}

#[test]
fn aero_readback_matches_panels() {
    let mut world = World::new();
    gravity(&mut world, 0.0);
    let angle: f64 = std::f64::consts::FRAC_PI_4;
    set_wind(&mut world, 10.0, DVec3::new(angle.cos(), angle.sin(), 0.0));
    let mut def = empty_kite_def("panel_test");
    def.panels.push(triangle_panel(1, 0.05, 1e-8, 1e-4));
    build(&mut world, &def);
    run(&mut world, 0.01, 5);

    assert_eq!(world.aero_readback.len(), world.canopy_panels.len());
    let mut any_nonzero_lift = false;
    for panel_aero in &world.aero_readback {
        assert!(is_finite(vec(panel_aero.lift)));
        assert!(is_finite(vec(panel_aero.drag)));
        assert!(num(panel_aero.alpha).is_finite());
        if vec(panel_aero.lift).length_squared() > 0.0 {
            any_nonzero_lift = true;
        }
    }
    assert!(any_nonzero_lift, "expected at least one panel with nonzero lift");
}

#[test]
fn bridle_tension_sign_and_magnitude() {
    let mut world = World::new();
    world.cfg.substeps = 24;
    world.cfg.iterations_per_substep = 1;
    gravity(&mut world, -9.81);
    world.cfg.damping = scalar(2.0);
    let a = add(&mut world, DVec3::new(0.0, 1.0, 0.0), 0.0);
    let b = add(&mut world, DVec3::new(0.0, 0.0, 0.0), 1.0);
    line(&mut world, a, b, 0.9, 1e-9, 0.003);
    run(&mut world, 0.01, 300);

    let lambda = num(world.unilateral_constraints[0].lambda);
    let h = num(world.last_h);
    let tension = -lambda / (h * h);
    println!("lambda = {}, h = {}, tension = {} N (expected ~9.81 N)", lambda, h, tension);
    assert!(tension > 0.0, "tension must be positive, got {}", tension);
    let ratio = tension / 9.81;
    assert!(
        (ratio - 1.0).abs() < 0.10,
        "tension {} N not within 10% of expected 9.81 N (ratio {})",
        tension,
        ratio
    );
}

fn single(x: f64) -> Single {
    Single { bits: (x as f32).to_bits() }
}

#[test]
fn bridle_tension_sign_in_snapshot() {
    let mut world = World::new();
    gravity(&mut world, -9.81);
    let a = add(&mut world, DVec3::new(0.0, 1.0, 0.0), 0.0);
    let b = add(&mut world, DVec3::new(0.0, 0.0, 0.0), 1.0);
    line(&mut world, a, b, 0.9, 1e-9, 0.003);
    run(&mut world, 0.01, 300);

    let h = num(world.last_h);
    let per_h2 = num(force_scale(&world, scalar(1.0 / (h * h))));
    let readings = Readings {
        pos: (0..world.particles.len())
            .map(|i| place(&world, i))
            .map(|p| SingleVec3 { x: single(p.x), y: single(p.y), z: single(p.z) })
            .collect(),
        quat: Vec::new(),
        spar_force: Vec::new(),
        bridle_tension: vec![single(-num(world.unilateral_constraints[0].lambda) * per_h2)],
        cloth_force: Vec::new(),
        panel_aero: Vec::new(),
        energy: scalar(0.0),
    };
    let snap = Snapshot::capture(&world, Vec::new(), readings);
    assert_eq!(snap.readings.bridle_tension.len(), 1);
    let tension = f32::from_bits(snap.readings.bridle_tension[0].bits);
    assert!(tension > 0.0, "tension must be positive, got {tension}");
    assert!((tension / 9.81 - 1.0).abs() < 0.10, "tension {tension} not within 10% of 9.81 N");
}

#[test]
fn test_smoke_empty_world() {
    let mut world = World::new();
    run(&mut world, 0.01, 1000);
    let expected_time = 10.0;
    assert!(
        (num(world.time) - expected_time).abs() < 1e-9,
        "Time did not advance correctly: expected {}, got {}",
        expected_time,
        num(world.time)
    );
}

#[test]
fn test_hanging_chain_catenary() {
    let mut world = World::new();
    world.cfg.substeps = 50;
    world.cfg.iterations_per_substep = 1;
    gravity(&mut world, -9.81);
    world.cfg.damping = scalar(5.0);

    let span: f64 = 4.0;
    let length = 5.0;
    let n_segments = 20usize;
    let x0 = span / 2.0;
    for i in 0..=n_segments {
        let t = i as f64 / n_segments as f64;
        let x = -x0 + t * span;
        let y = -(1.0 - (x / x0).powi(2));
        let mass = if i == 0 || i == n_segments { 0.0 } else { 1.0 };
        add_bare(&mut world, DVec3::new(x, y, 0.0), mass);
    }
    for i in 0..n_segments {
        tie(&mut world, i, i + 1, length / n_segments as f64, 1e-8);
    }
    run(&mut world, 0.01, 1000);

    let a = {
        let mut low = 0.01;
        let mut high = 100.0;
        for _ in 0..100 {
            let mid = 0.5 * (low + high);
            let val = 2.0 * mid * (x0 / mid).sinh();
            if val > length {
                low = mid;
            } else {
                high = mid;
            }
        }
        0.5 * (low + high)
    };
    let y_offset = -a * (x0 / a).cosh();
    for i in 1..n_segments {
        let pos = place(&world, i);
        let y_analytic = a * (pos.x / a).cosh() + y_offset;
        let diff = (pos.y - y_analytic).abs();
        assert!(
            diff < 0.03,
            "Particle {} at x = {} has y = {}, expected analytic y = {} (diff = {})",
            i,
            pos.x,
            pos.y,
            y_analytic,
            diff
        );
    }
}

#[test]
fn test_cantilever_rod_deflection() {
    let mut world = World::new();
    world.cfg.substeps = 30;
    world.cfg.iterations_per_substep = 2;
    gravity(&mut world, -9.81);
    world.cfg.damping = scalar(6.0);

    let length: f64 = 2.0;
    let n_segments = 10usize;
    let dx = length / n_segments as f64;
    let total_mass = 1.0;
    let particle_mass = total_mass / n_segments as f64;
    let ei = 10.0;
    let compliance_bending = dx.powi(3) / ei;
    for i in 0..=n_segments {
        let mass = if i <= 1 { 0.0 } else { particle_mass };
        add_bare(&mut world, DVec3::new(i as f64 * dx, 0.0, 0.0), mass);
    }
    for i in 0..n_segments {
        tie(&mut world, i, i + 1, dx, 1e-10);
    }
    for i in 1..n_segments {
        let rest1 = DVec3::new((i - 1) as f64 * dx, 0.0, 0.0);
        let rest2 = DVec3::new(i as f64 * dx, 0.0, 0.0);
        let rest3 = DVec3::new((i + 1) as f64 * dx, 0.0, 0.0);
        world.bending_constraints.push(BendingConstraint::new(
            i - 1,
            i,
            i + 1,
            vec3(rest1 - 2.0 * rest2 + rest3),
            scalar(compliance_bending),
        ));
    }
    run(&mut world, 0.01, 1500);

    let tip_deflection = -place(&world, n_segments).y;
    let expected_deflection = (total_mass * 9.81 * length.powi(3)) / (8.0 * ei);
    let ratio = tip_deflection / expected_deflection;
    assert!(
        (ratio - 1.0).abs() < 0.25,
        "Tip deflection {} is not in the ballpark of expected {} (ratio {})",
        tip_deflection,
        expected_deflection,
        ratio
    );
}

#[test]
fn test_energy_conservation() {
    let mut world = World::new();
    world.cfg.substeps = 100;
    world.cfg.iterations_per_substep = 1;
    gravity(&mut world, -9.81);
    world.cfg.damping = scalar(0.0);
    add_bare(&mut world, DVec3::new(0.0, 0.0, 0.0), 0.0);
    add_bare(&mut world, DVec3::new(1.0, 0.0, 0.0), 1.0);
    add_bare(&mut world, DVec3::new(2.0, 0.0, 0.0), 1.0);
    tie(&mut world, 0, 1, 1.0, 1e-5);
    tie(&mut world, 1, 2, 1.0, 1e-5);
    world.bending_constraints.push(BendingConstraint::new(
        0,
        1,
        2,
        vec3(DVec3::ZERO),
        scalar(1e-4),
    ));

    let initial_energy = compute_total_energy(&world);
    assert!((initial_energy - 0.0).abs() < 1e-5);
    for at in 0..300 {
        step(&mut world, 0.01, None);
        let energy = compute_total_energy(&world);
        let drift = (energy - initial_energy).abs();
        assert!(
            drift < 0.20,
            "Step {}: Energy drifted to {}, initial = {} (drift = {})",
            at,
            energy,
            initial_energy,
            drift
        );
    }
}

fn rubber(density: f64) -> Material {
    Material {
        youngs_modulus: scalar(1.0e9),
        shear_modulus: scalar(5.0e8),
        density: scalar(density),
        tensile_strength: scalar(1.0e9),
    }
}

/// A straight rod along the third axis, clamped at its root.
fn add_rod(world: &mut World, n_segments: usize, dx: f64, mat: &Material, geom: &SectionGeometry) {
    let mass = num(mat.density) * area(geom) * dx;
    let first_p = world.particles.len();
    let first_q = world.orientations.len();
    for i in 0..=n_segments {
        let m = if i == 0 { 0.0 } else { mass };
        add_bare(world, DVec3::new(0.0, 0.0, i as f64 * dx), m);
    }
    for i in 0..n_segments {
        let w = if i == 0 { vec3(DVec3::ZERO) } else { inv_inertia(geom, dx, mass) };
        world.add_segment(quat(DQuat::IDENTITY), w);
    }
    add_rod_constraints(world, first_p, first_q, n_segments, dx, mat, geom);
}

fn add_rod_constraints(
    world: &mut World,
    first_p: usize,
    first_q: usize,
    n_segments: usize,
    dx: f64,
    mat: &Material,
    geom: &SectionGeometry,
) {
    let comp_ss = vec3(stretch_shear_compliance(mat, geom, dx));
    let comp_bt = vec3(bend_twist_compliance(mat, geom, dx));
    for i in 0..n_segments {
        world.stretch_shear_constraints.push(StretchShearConstraint::new(
            first_p + i,
            first_p + i + 1,
            first_q + i,
            scalar(dx),
            comp_ss,
            scalar(2.0 * num(geom.outer_radius())),
        ));
    }
    for i in 0..n_segments - 1 {
        world.bend_twist_constraints.push(BendTwistConstraint::new(
            first_q + i,
            first_q + i + 1,
            vec3(DVec3::ZERO),
            comp_bt,
            scalar(f64::MAX),
            false,
        ));
    }
}

#[test]
fn test_cantilever_cosserat_rod() {
    let mut world = World::new();
    world.cfg.substeps = 30;
    world.cfg.iterations_per_substep = 2;
    gravity(&mut world, -9.81);
    world.cfg.damping = scalar(4.0);
    let length: f64 = 2.0;
    let n_segments = 10usize;
    let dx = length / n_segments as f64;
    let geom = SectionGeometry::SolidRound { radius: scalar(0.02) };
    let mat = rubber(1000.0);
    add_rod(&mut world, n_segments, dx, &mat, &geom);
    run(&mut world, 0.01, 1200);

    let tip_deflection = -place(&world, n_segments).y;
    let weight = 1000.0 * area(&geom) * length * 9.81;
    let ei = 1.0e9 * area_moment_of_inertia(&geom);
    let expected_deflection = (weight * length.powi(3)) / (8.0 * ei);
    let ratio = tip_deflection / expected_deflection;
    assert!(
        (ratio - 1.0).abs() < 0.09,
        "Cosserat tip deflection {} is not close to expected {} (ratio {})",
        tip_deflection,
        expected_deflection,
        ratio
    );
}

#[test]
fn test_torsion_cosserat_rod() {
    let mut world = World::new();
    world.cfg.substeps = 40;
    world.cfg.iterations_per_substep = 2;
    gravity(&mut world, 0.0);
    world.cfg.damping = scalar(5.0);
    let length = 1.0;
    let n_segments = 5usize;
    let dx = length / n_segments as f64;
    let geom = SectionGeometry::SolidRound { radius: scalar(0.02) };
    let mat = rubber(1000.0);
    add_rod(&mut world, n_segments, dx, &mat, &geom);
    let torque_z = 100.0;
    world.torques[n_segments - 1] = vec3(DVec3::new(0.0, 0.0, torque_z));
    run(&mut world, 0.01, 500);

    let twist_angle = scaled_axis(dquat(world.orientations.quat[n_segments - 1])).z;
    let expected_twist = (torque_z * length) / (5.0e8 * polar_moment_of_inertia(&geom));
    let ratio = twist_angle / expected_twist;
    assert!(
        (ratio - 1.0).abs() < 0.10,
        "Twist angle {} is not close to expected {} (ratio {})",
        twist_angle,
        expected_twist,
        ratio
    );
}

/// Two segments whose joint yields easily, one of them twisted hard.
fn overloaded_joint(is_inflatable: bool) -> World {
    let mut world = World::new();
    world.cfg.substeps = 20;
    world.cfg.iterations_per_substep = 2;
    gravity(&mut world, 0.0);
    world.cfg.damping = scalar(2.0);
    add_bare(&mut world, DVec3::new(0.0, 0.0, 0.0), 0.0);
    add_bare(&mut world, DVec3::new(0.0, 0.0, 0.5), 0.1);
    add_bare(&mut world, DVec3::new(0.0, 0.0, 1.0), 0.1);
    world.add_segment(quat(DQuat::IDENTITY), vec3(DVec3::ZERO));
    world.add_segment(quat(DQuat::IDENTITY), vec3(DVec3::ONE));
    let mat = Material::fiberglass();
    let geom = SectionGeometry::SolidRound { radius: scalar(0.01) };
    let comp_ss = vec3(stretch_shear_compliance(&mat, &geom, 0.5));
    for i in 0..2usize {
        world.stretch_shear_constraints.push(StretchShearConstraint::new(
            i,
            i + 1,
            i,
            scalar(0.5),
            comp_ss,
            scalar(0.02),
        ));
    }
    world.bend_twist_constraints.push(BendTwistConstraint::new(
        0,
        1,
        vec3(DVec3::ZERO),
        vec3(bend_twist_compliance(&mat, &geom, 0.5)),
        scalar(0.01),
        is_inflatable,
    ));
    world.torques[1] = vec3(DVec3::new(100.0, 0.0, 0.0));
    world
}

#[test]
fn test_breaking_cosserat_rod() {
    let mut solid = overloaded_joint(false);
    step(&mut solid, 0.01, None);
    assert_eq!(solid.bend_twist_constraints[0].state, ConstraintState::Broken);
    assert!(solid.events.contains(&Event::SparBroken { joint_index: 0 }));

    let mut tube = overloaded_joint(true);
    step(&mut tube, 0.01, None);
    assert_eq!(tube.bend_twist_constraints[0].state, ConstraintState::Folded);
    assert!(tube.events.contains(&Event::LeadingEdgeFolded { joint_index: 0 }));
}

#[test]
fn test_cloth_stretch_equilibrium() {
    let mut world = World::new();
    world.cfg.substeps = 30;
    world.cfg.iterations_per_substep = 2;
    gravity(&mut world, 0.0);
    world.cfg.damping = scalar(5.0);
    add(&mut world, DVec3::new(0.0, 0.0, 0.0), 0.0);
    add(&mut world, DVec3::new(1.0, 0.0, 0.0), 1.0);
    add(&mut world, DVec3::new(2.0, 0.0, 0.0), 1.0);
    let compliance = 0.05;
    tie(&mut world, 0, 1, 1.0, compliance);
    tie(&mut world, 1, 2, 1.0, compliance);
    let force_x = 10.0;
    world.forces[2] = vec3(DVec3::new(force_x, 0.0, 0.0));
    run(&mut world, 0.01, 1000);

    let p1_x = place(&world, 1).x;
    let p2_x = place(&world, 2).x;
    let expected_ext = compliance * force_x;
    assert!((p1_x - 1.0 - expected_ext).abs() < 1e-3);
    assert!((p2_x - p1_x - 1.0 - expected_ext).abs() < 1e-3);
}

#[test]
fn test_unilateral_bridle_slack() {
    let mut world = World::new();
    world.cfg.substeps = 20;
    world.cfg.iterations_per_substep = 2;
    gravity(&mut world, 0.0);
    world.cfg.damping = scalar(2.0);
    add(&mut world, DVec3::new(0.0, 0.0, 0.0), 0.0);
    add(&mut world, DVec3::new(1.0, 0.0, 0.0), 1.0);
    line(&mut world, 0, 1, 1.5, 0.001, 0.002);

    step(&mut world, 0.01, None);
    assert_eq!(num(world.unilateral_constraints[0].lambda), 0.0);

    world.forces[1] = vec3(DVec3::new(-10.0, 0.0, 0.0));
    step(&mut world, 0.01, None);
    assert_eq!(num(world.unilateral_constraints[0].lambda), 0.0);

    world.forces[1] = vec3(DVec3::new(100.0, 0.0, 0.0));
    run(&mut world, 0.01, 50);
    assert!(num(world.unilateral_constraints[0].lambda) < 0.0);
}

#[test]
fn test_branching_bridle_tension() {
    let mut world = World::new();
    world.cfg.substeps = 40;
    world.cfg.iterations_per_substep = 10;
    gravity(&mut world, 0.0);
    world.cfg.damping = scalar(10.0);
    set_wind(&mut world, 10.0, DVec3::new(1.0, 0.0, 0.0));
    add(&mut world, DVec3::new(-1.0, 1.0, 0.0), 0.0);
    add(&mut world, DVec3::new(1.0, 1.0, 0.0), 0.0);
    add(&mut world, DVec3::new(0.0, 0.0, 0.0), 1.0);
    add(&mut world, DVec3::new(0.0, -1.0, 0.0), 1.0);
    let sqrt_2 = 2.0_f64.sqrt();
    let comp = 1.0e-6;
    let diameter = 0.003;
    line(&mut world, 0, 2, sqrt_2, comp, diameter);
    line(&mut world, 1, 2, sqrt_2, comp, diameter);
    line(&mut world, 2, 3, 1.0, comp, diameter);
    world.forces[3] = vec3(DVec3::new(0.0, -100.0, 0.0));
    run(&mut world, 0.01, 400);

    let lambda_left = num(world.unilateral_constraints[0].lambda);
    let lambda_right = num(world.unilateral_constraints[1].lambda);
    let lambda_main = num(world.unilateral_constraints[2].lambda);
    println!(
        "Tension lambdas: left={}, right={}, main={}",
        lambda_left, lambda_right, lambda_main
    );
    assert!((lambda_left - lambda_right).abs() < 1e-4);
    let ratio = lambda_left / lambda_main;
    let expected_ratio = 1.0 / sqrt_2;
    assert!(
        (ratio - expected_ratio).abs() < 0.01,
        "Tension distribution ratio {} did not match expected {}",
        ratio,
        expected_ratio
    );
    assert!(place(&world, 2).length() < 0.02);
    assert!(
        place(&world, 3).x > 0.0,
        "Line drag did not push load particle in wind direction: {:?}",
        place(&world, 3)
    );
}

/// The force of the air on a flat panel of half a square meter.
fn force_on_panel(direction: DVec3) -> DVec3 {
    let mut world = World::new();
    world.cfg.substeps = 1;
    gravity(&mut world, 0.0);
    world.cfg.damping = scalar(0.0);
    set_wind(&mut world, 10.0, direction);
    add(&mut world, DVec3::new(0.0, 0.0, 0.0), 1.0);
    add(&mut world, DVec3::new(1.0, 0.0, 0.0), 1.0);
    add(&mut world, DVec3::new(0.0, 0.0, 1.0), 1.0);
    world.canopy_panels.push(CanopyPanel::new(0, 1, 2));
    let dt = 0.0001;
    step(&mut world, dt, None);
    (velocity(&world, 0) + velocity(&world, 1) + velocity(&world, 2)) * 1.0 / dt
}

#[test]
fn test_canopy_panel_aerodynamics() {
    let along = force_on_panel(DVec3::new(1.0, 0.0, 0.0));
    assert!((along.x - 1.225).abs() < 1e-4);
    assert!(along.y.abs() < 1e-4);

    let angle = std::f64::consts::FRAC_PI_4;
    let slanted = force_on_panel(DVec3::new(angle.cos(), angle.sin(), 0.0));
    assert!((slanted.x - 0.8662).abs() < 1e-3);
    assert!((slanted.y - 34.5537).abs() < 1e-3);

    let across = force_on_panel(DVec3::new(0.0, 1.0, 0.0));
    assert!(across.x.abs() < 1e-4);
    assert!((across.y - 1.225).abs() < 1e-4);
}

/// The force on a rectangular plate of `n` strips, and the station along the
/// chord of its line of action.
fn chordwise_load(n: usize, b: f64, c: f64, wind_speed: f64, alpha_w: f64) -> (DVec3, f64) {
    let mut world = World::new();
    world.cfg.substeps = 1;
    gravity(&mut world, 0.0);
    world.cfg.damping = scalar(0.0);
    set_wind(&mut world, wind_speed, DVec3::new(0.0, alpha_w.sin(), alpha_w.cos()));
    let vid = |j: usize, side: usize| j * 2 + side;
    for j in 0..=n {
        let z = c * (j as f64) / (n as f64);
        add(&mut world, DVec3::new(0.0, 0.0, z), 1.0);
        add(&mut world, DVec3::new(b, 0.0, z), 1.0);
    }
    for j in 0..n {
        world.canopy_panels.push(CanopyPanel::new(vid(j, 0), vid(j, 1), vid(j + 1, 0)));
        world.canopy_panels.push(CanopyPanel::new(vid(j, 1), vid(j + 1, 1), vid(j + 1, 0)));
    }
    let positions: Vec<DVec3> = (0..world.particles.len()).map(|i| place(&world, i)).collect();
    let dt = 1.0e-4;
    step(&mut world, dt, None);
    let forces: Vec<DVec3> = world.particles.vel.iter().map(|v| vec(*v) / dt).collect();
    let f_total: DVec3 = forces.iter().copied().sum();
    let centroid = DVec3::new(0.5 * b, 0.0, 0.5 * c);
    let moment: DVec3 =
        positions.iter().zip(&forces).map(|(p, f)| (*p - centroid).cross(*f)).sum();
    let d = f_total.cross(moment) / f_total.length_squared();
    (f_total, (centroid + d).z)
}

#[test]
fn test_canopy_chordwise_load_distribution() {
    let b = 1.0;
    let c = 2.0;
    let wind_speed = 10.0;
    let alpha_w: f64 = 25.0_f64.to_radians();

    let area = b * c;
    let normal = DVec3::Y;
    let v_rel = DVec3::new(0.0, alpha_w.sin(), alpha_w.cos()) * wind_speed;
    let v_rel_unit = v_rel.normalize();
    let sin_alpha = v_rel_unit.dot(normal);
    let alpha = sin_alpha.asin();
    let q = 0.5 * 1.225 * wind_speed * wind_speed;
    let cn = 1.1 * (2.0 * alpha).sin();
    let cl = cn * alpha.cos();
    let cd = cn * alpha.sin() + 0.04;
    let f_expected =
        q * area * cd * v_rel_unit + q * area * cl * (normal - sin_alpha * v_rel_unit).normalize();
    let x_bar = 0.25 + 0.25 * (1.0 - alpha.cos());
    let cop_expected = x_bar * c;

    let mut errors = Vec::new();
    for &n in &[4usize, 16, 64] {
        let (f_total, cop_z) = chordwise_load(n, b, c, wind_speed, alpha_w);
        let force_rel_err = (f_total - f_expected).length() / f_expected.length();
        assert!(
            force_rel_err < 1e-9,
            "n={n}: chordwise redistribution must leave the resultant unchanged: got {f_total:?}, \
             expected {f_expected:?} (rel err {force_rel_err})"
        );
        errors.push((cop_z - cop_expected).abs());
    }
    let (_, cop_coarse) = chordwise_load(16, b, c, wind_speed, alpha_w);
    assert!(
        cop_coarse < 0.45 * c,
        "load centre must sit clearly ahead of mid-chord, got {:.2}% chord",
        100.0 * cop_coarse / c
    );
    assert!(
        errors[1] < errors[0] && errors[2] < errors[1],
        "CoP error must decrease under mesh refinement, got {errors:?}"
    );
    assert!(errors[2] < 0.01 * c, "error at 128 panels was {:.5} m", errors[2]);
}

#[test]
fn test_spar_drag() {
    let mut world = World::new();
    world.cfg.substeps = 1;
    gravity(&mut world, 0.0);
    world.cfg.damping = scalar(0.0);
    set_wind(&mut world, 10.0, DVec3::new(1.0, 0.0, 0.0));
    add(&mut world, DVec3::new(0.0, 0.0, 0.0), 1.0);
    add(&mut world, DVec3::new(0.0, 0.0, 1.0), 1.0);
    world.add_segment(quat(DQuat::IDENTITY), vec3(DVec3::ONE));
    world.stretch_shear_constraints.push(StretchShearConstraint::new(
        0,
        1,
        0,
        scalar(1.0),
        vec3(DVec3::ZERO),
        scalar(0.05),
    ));
    let dt = 0.0001;
    step(&mut world, dt, None);
    let f_total = (velocity(&world, 0) + velocity(&world, 1)) * 1.0 / dt;
    assert!((f_total.x - 3.675).abs() < 1e-4);
    assert!(f_total.y.abs() < 1e-4);
    assert!(f_total.z.abs() < 1e-4);
}

#[test]
fn test_ground_collision() {
    let mut world = World::new();
    world.cfg.ground_collision_enabled = true;
    gravity(&mut world, -9.81);
    world.cfg.damping = scalar(5.0);
    add(&mut world, DVec3::new(0.0, 5.0, 0.0), 1.0);
    run(&mut world, 0.01, 300);

    let pos = place(&world, 0);
    assert!((pos.y - 0.005).abs() < 1e-4);
    assert!(pos.x.abs() < 1e-4);
    assert!(pos.z.abs() < 1e-4);
    assert!(velocity(&world, 0).length() < 1e-2);
}

#[test]
fn test_self_collision_folding() {
    let mut world = World::new();
    world.cfg.self_collision_enabled = true;
    gravity(&mut world, -9.81);
    world.cfg.damping = scalar(5.0);
    let p0 = add(&mut world, DVec3::new(0.0, 0.05, 0.0), 0.0);
    let p1 = add(&mut world, DVec3::new(1.0, 0.05, 0.0), 0.0);
    let p2 = add(&mut world, DVec3::new(0.5, 0.05, 0.5), 0.0);
    world.canopy_panels.push(CanopyPanel::new(p0, p1, p2));
    let p3 = add(&mut world, DVec3::new(0.5, 1.0, 0.25), 1.0);
    run(&mut world, 0.01, 300);

    assert!((place(&world, p3).y - 0.06).abs() < 1.0e-3);
    assert!(velocity(&world, p3).length() < 1.0e-2);
}

#[test]
fn test_pendulum_period() {
    let mut world = World::new();
    world.cfg.substeps = 50;
    world.cfg.iterations_per_substep = 4;
    gravity(&mut world, -9.81);
    world.cfg.damping = scalar(0.0);
    let length = 1.0;
    let small_angle: f64 = 0.05;
    add(&mut world, DVec3::ZERO, 0.0);
    let bob = DVec3::new(length * small_angle.sin(), -length * small_angle.cos(), 0.0);
    add(&mut world, bob, 1.0);
    tie(&mut world, 0, 1, length, 1e-10);

    let dt = 0.001;
    let mut prev_x = place(&world, 1).x;
    let mut crossing_times = Vec::new();
    for _ in 0..20_000 {
        step(&mut world, dt, None);
        let x = place(&world, 1).x;
        if prev_x > 0.0 && x <= 0.0 {
            crossing_times.push(num(world.time));
        }
        prev_x = x;
    }
    assert!(
        crossing_times.len() >= 2,
        "not enough oscillations captured: {}",
        crossing_times.len()
    );
    let measured_period = crossing_times[1] - crossing_times[0];
    let expected_period = 2.0 * PI * (length / 9.81).sqrt();
    let ratio = measured_period / expected_period;
    assert!(
        (ratio - 1.0).abs() < 0.02,
        "Measured period {} not close to small-angle formula {} (ratio {})",
        measured_period,
        expected_period,
        ratio
    );
}

// The added mass of the air.

const F_TOTAL: f64 = 0.1;

fn make_pushed_panel(added_mass: bool) -> World {
    let mut world = World::new();
    gravity(&mut world, 0.0);
    world.cfg.damping = scalar(0.0);
    world.cfg.added_mass_enabled = added_mass;
    add(&mut world, DVec3::new(0.0, 0.0, 0.0), 1.0 / 3.0);
    add(&mut world, DVec3::new(2.0, 0.0, 0.0), 1.0 / 3.0);
    add(&mut world, DVec3::new(0.0, 0.0, 1.0), 1.0 / 3.0);
    world.canopy_panels.push(CanopyPanel::new(0, 1, 2));
    for i in 0..3 {
        world.forces[i] = vec3(DVec3::new(0.0, F_TOTAL / 3.0, 0.0));
    }
    world
}

fn measure_accel(world: &mut World) -> f64 {
    run(world, 0.01, 10);
    let v1 = velocity(world, 0).y;
    let t1 = num(world.time);
    run(world, 0.01, 30);
    (velocity(world, 0).y - v1) / (num(world.time) - t1)
}

#[test]
fn test_added_mass_steady_acceleration() {
    let m_total = 1.0;
    let m_a = panel_added_mass(1.0);
    assert!(m_a > 0.5 && m_a < 0.7, "unexpected disk added mass: {m_a}");
    let a_base = measure_accel(&mut make_pushed_panel(false));
    let a_corrected = measure_accel(&mut make_pushed_panel(true));
    let expect_base = F_TOTAL / m_total;
    let expect_corrected = F_TOTAL / (m_total + m_a);
    let err_base = (a_base - expect_base).abs() / expect_base;
    let err_corr = (a_corrected - expect_corrected).abs() / expect_corrected;
    assert!(err_base < 1e-3, "base accel {a_base} vs expected {expect_base}");
    assert!(err_corr < 1e-3, "corrected accel {a_corrected} vs expected {expect_corrected}");
    assert!(a_corrected < 0.75 * a_base);
}

#[test]
fn test_added_mass_stable_when_air_outweighs_fabric() {
    let mut world = make_pushed_panel(true);
    for i in 0..3 {
        world.particles.inv_mass[i] = scalar(100.0);
    }
    run(&mut world, 0.01, 200);
    for i in 0..3 {
        let v = velocity(&world, i);
        assert!(is_finite(v), "particle {i} velocity diverged: {v:?}");
        assert!(v.length() < 100.0, "particle {i} velocity unbounded: {v:?}");
    }
}

#[test]
fn test_added_mass_off_by_default_changes_nothing() {
    let mut fresh = World::new();
    assert!(!fresh.cfg.added_mass_enabled, "added mass must be opt-in");
    step(&mut fresh, 0.01, None);
    // Without the correction no panel keeps a velocity history.
    let mut pushed = make_pushed_panel(false);
    step(&mut pushed, 0.01, None);
    assert_eq!(pushed.canopy_panels[0].prev_mean_vel, None);
    let mut corrected = make_pushed_panel(true);
    step(&mut corrected, 0.01, None);
    assert!(corrected.canopy_panels[0].prev_mean_vel.is_some());
}

// The control bar.

const HALF_SPAN: f64 = 0.25;
const BAR_MASS: f64 = 2.0;
const LOAD_MASS: f64 = 0.05;
const DT: f64 = 1.0 / 60.0;

fn make_bar_world(right_mass: Option<f64>) -> (World, Bar, usize, usize) {
    let mut world = World::new();
    gravity(&mut world, -9.81);
    world.cfg.substeps = 8;
    world.cfg.iterations_per_substep = 8;
    world.cfg.damping = scalar(2.0);
    let left = add(&mut world, DVec3::new(-HALF_SPAN, 0.0, 0.0), 0.0);
    let right = add(&mut world, DVec3::new(HALF_SPAN, 0.0, 0.0), 0.0);
    let m_left = add(&mut world, DVec3::new(-HALF_SPAN, -1.0, 0.0), LOAD_MASS);
    line(&mut world, left, m_left, 1.0, 1e-8, 0.002);
    if let Some(mass) = right_mass {
        let m_right = add(&mut world, DVec3::new(HALF_SPAN, -1.0, 0.0), mass);
        line(&mut world, right, m_right, 1.0, 1e-8, 0.002);
    }
    let bar = Bar::new(DVec3::ZERO, HALF_SPAN, BAR_MASS, ControlBar::new(left, right));
    bar.attach(&mut world);
    (world, bar, left, right)
}

fn assert_all_finite(world: &World, bar: &Bar) {
    for i in 0..world.particles.len() {
        assert!(is_finite(place(world, i)), "non-finite particle position {i}");
    }
    assert!(is_finite(bar.tip_position(true)));
    assert!(is_finite(bar.tip_position(false)));
    let q = bar.bodies[bar.handle].position().rotation;
    assert!((q.length() - 1.0).abs() < 1e-6, "bar quaternion drifted: {q:?}");
}

#[test]
fn test_symmetric_load_keeps_bar_level_and_centered() {
    let (mut world, mut bar, left, right) = make_bar_world(Some(LOAD_MASS));
    for _ in 0..180 {
        step(&mut world, DT, Some(&mut bar));
        let (pl, pr) = (place(&world, left), place(&world, right));
        assert!(
            (pl.y - pr.y).abs() < 1e-6,
            "bar tilted under symmetric load: {} vs {}",
            pl.y,
            pr.y
        );
        assert!(
            ((pl + pr) * 0.5).length() < 1e-3,
            "bar center drifted off the pilot anchor: {:?}",
            (pl + pr) * 0.5
        );
    }
    assert_all_finite(&world, &bar);
}

#[test]
fn test_asymmetric_load_swings_loaded_tip_down() {
    let (mut world, mut bar, left, right) = make_bar_world(None);
    let mut swung_down = false;
    for _ in 0..60 {
        step(&mut world, DT, Some(&mut bar));
        if place(&world, left).y < place(&world, right).y - 0.1 {
            swung_down = true;
            break;
        }
    }
    assert!(swung_down, "loaded tip never swung below the free tip");
    for _ in 0..300 {
        step(&mut world, DT, Some(&mut bar));
        let center = (place(&world, left) + place(&world, right)) * 0.5;
        assert!(center.length() < 1e-3, "bar center drifted: {center:?}");
    }
    assert_all_finite(&world, &bar);
}

#[test]
fn test_anchors_track_bar_tips() {
    let (mut world, mut bar, left, _) = make_bar_world(None);
    for _ in 0..60 {
        step(&mut world, DT, Some(&mut bar));
    }
    let lag = (place(&world, left) - bar.tip_position(true)).length();
    assert!(lag < 0.01, "anchor lost the bar tip: lag {lag}");
}

// Serial and class by class.

fn base_world(parallel: bool) -> World {
    let mut world = World::new();
    world.cfg.parallel_solve = parallel;
    world.cfg.substeps = 8;
    world.cfg.iterations_per_substep = 2;
    gravity(&mut world, -9.81);
    world.cfg.damping = scalar(6.0);
    world
}

fn settle_down(world: &mut World, steps: usize) -> Vec<DVec3> {
    run(world, 0.01, steps);
    (0..world.particles.len()).map(|i| place(world, i)).collect()
}

fn max_deviation(a: &[DVec3], b: &[DVec3]) -> f64 {
    a.iter().zip(b).map(|(x, y)| (*x - *y).length()).fold(0.0f64, f64::max)
}

fn make_chain_forest(parallel: bool) -> World {
    let mut world = base_world(parallel);
    let chains = 40usize;
    let links = 15usize;
    let link_len = 0.05;
    for c in 0..chains {
        let root = DVec3::new(c as f64 * 0.3, 0.0, 0.0);
        let first = world.particles.len();
        for i in 0..=links {
            let mass = if i == 0 { 0.0 } else { 0.05 };
            add(&mut world, root + DVec3::new(0.0, 0.0, i as f64 * link_len), mass);
        }
        for i in 0..links {
            tie(&mut world, first + i, first + i + 1, link_len, 1e-8);
        }
        line(&mut world, first, first + links, 0.8 * links as f64 * link_len, 1e-8, 0.001);
    }
    world
}

fn make_rod_forest(parallel: bool) -> World {
    let mut world = base_world(parallel);
    let rods = 40usize;
    let segments = 10usize;
    let dx = 1.0 / segments as f64;
    let geom = SectionGeometry::SolidRound { radius: scalar(0.01) };
    let mass = 1000.0 * area(&geom) * dx;
    let mat = Material {
        youngs_modulus: scalar(5.0e9),
        shear_modulus: scalar(2.0e9),
        density: scalar(1000.0),
        tensile_strength: scalar(1.0e12),
    };
    for r in 0..rods {
        let root = DVec3::new(r as f64 * 0.5, 0.0, 0.0);
        let first_p = world.particles.len();
        let first_q = world.orientations.len();
        for i in 0..=segments {
            let m = if i == 0 { 0.0 } else { mass };
            add(&mut world, root + DVec3::new(0.0, 0.0, i as f64 * dx), m);
        }
        for i in 0..segments {
            let w = if i == 0 { vec3(DVec3::ZERO) } else { inv_inertia(&geom, dx, mass) };
            world.add_segment(quat(DQuat::IDENTITY), w);
        }
        add_rod_constraints(&mut world, first_p, first_q, segments, dx, &mat, &geom);
    }
    world
}

/// A square sheet of `n` by `n` particles that hangs by its top row, with edges,
/// diagonals and a fold across every diagonal.
fn build_cloth_grid(world: &mut World, n: usize, spacing: f64, mass: f64) {
    let id = |r: usize, c: usize| r * n + c;
    for r in 0..n {
        for c in 0..n {
            let m = if r == 0 { 0.0 } else { mass };
            add(world, DVec3::new(c as f64 * spacing, -(r as f64) * spacing, 0.0), m);
        }
    }
    let diagonal = spacing * 2.0f64.sqrt();
    for r in 0..n {
        for c in 0..n {
            if c + 1 < n {
                tie(world, id(r, c), id(r, c + 1), spacing, 1e-6);
            }
            if r + 1 < n {
                tie(world, id(r, c), id(r + 1, c), spacing, 1e-6);
            }
            if c + 1 < n && r + 1 < n {
                tie(world, id(r, c + 1), id(r + 1, c), diagonal, 1e-5);
                world.dihedral_bending_constraints.push(DihedralBendingConstraint::new(
                    id(r, c + 1),
                    id(r + 1, c),
                    id(r, c),
                    id(r + 1, c + 1),
                    scalar(0.0),
                    scalar(1e-3),
                ));
            }
        }
    }
}

fn make_cloth_world(parallel: bool) -> World {
    let mut world = base_world(parallel);
    build_cloth_grid(&mut world, 24, 0.05, 0.02);
    world
}

#[test]
fn test_scenes_exceed_parallel_threshold() {
    for (name, world) in [
        ("chains", make_chain_forest(true)),
        ("rods", make_rod_forest(true)),
        ("cloth", make_cloth_world(true)),
    ] {
        let total = world.distance_constraints.len()
            + world.stretch_shear_constraints.len()
            + world.bend_twist_constraints.len()
            + world.dihedral_bending_constraints.len()
            + world.unilateral_constraints.len();
        assert!(
            total >= PARALLEL_CONSTRAINT_THRESHOLD,
            "{name} scene too small to exercise the parallel path: {total} constraints"
        );
    }
}

#[test]
fn test_parallel_matches_serial_chains() {
    let serial = settle_down(&mut make_chain_forest(false), 400);
    let parallel = settle_down(&mut make_chain_forest(true), 400);
    let dev = max_deviation(&serial, &parallel);
    assert!(dev < 5e-4, "chain equilibria deviate by {dev} m");
    let bottom = parallel[15];
    assert!(bottom.y < -0.5, "chain never fell: bottom at {bottom:?}");
}

#[test]
fn test_parallel_matches_serial_rods() {
    // The four runs share nothing, so they go side by side.
    let rods = |parallel: bool, iterations: usize| {
        let mut world = make_rod_forest(parallel);
        world.cfg.iterations_per_substep = iterations;
        settle_down(&mut world, 500)
    };
    assert_eq!(make_rod_forest(false).cfg.iterations_per_substep, 2);
    let ((serial_2, parallel_2), (serial_8, parallel_8)) = rayon::join(
        || rayon::join(|| rods(false, 2), || rods(true, 2)),
        || rayon::join(|| rods(false, 8), || rods(true, 8)),
    );
    let gap_2 = max_deviation(&serial_2, &parallel_2);
    assert!(gap_2 < 1e-2, "rod equilibria deviate by {gap_2} m at 2 iters");
    let gap_8 = max_deviation(&serial_8, &parallel_8);
    assert!(
        gap_8 < 0.5 * gap_2,
        "gap did not shrink with iterations: {gap_2} @ 2 iters vs {gap_8} @ 8 iters"
    );
    let tip = parallel_2[10];
    assert!(tip.y < -1e-4, "cantilever never deflected: tip at {tip:?}");
}

#[test]
fn test_parallel_matches_serial_cloth_loosely() {
    let mut ws = make_cloth_world(false);
    let mut wp = make_cloth_world(true);
    ws.cfg.damping = scalar(8.0);
    wp.cfg.damping = scalar(8.0);
    let serial = settle_down(&mut ws, 400);
    let parallel = settle_down(&mut wp, 400);
    let dev = max_deviation(&serial, &parallel);
    assert!(dev < 1e-2, "cloth equilibria deviate by {dev} m (>1 cm)");
    let vel = (0..wp.particles.len())
        .map(|i| velocity(&wp, i).length())
        .fold(0.0f64, f64::max);
    assert!(vel < 1e-2, "parallel cloth not settled: max vel {vel}");
}

#[test]
fn test_parallel_is_deterministic_run_to_run() {
    let a = settle_down(&mut make_cloth_world(true), 50);
    let b = settle_down(&mut make_cloth_world(true), 50);
    for (i, (pa, pb)) in a.iter().zip(&b).enumerate() {
        assert_eq!(pa, pb, "particle {i} differs between identical parallel runs");
    }
}

#[test]
fn classes_of_one_member_each_give_the_serial_sweep() {
    let mut serial = make_rod_forest(false);
    let mut colored = make_rod_forest(true);
    let single = |n: usize| (0..n).map(|k| vec![k]).collect::<Vec<Vec<usize>>>();
    let mut classes = SolverColoring::rebuild(&colored);
    classes.stretch_shear_colors = single(colored.stretch_shear_constraints.len());
    classes.bend_twist_colors = single(colored.bend_twist_constraints.len());
    colored.coloring = Some(classes);
    for _ in 0..3 {
        step(&mut serial, 0.01, None);
        step(&mut colored, 0.01, None);
    }
    assert_eq!(serial.particles.pos, colored.particles.pos);
    assert_eq!(serial.orientations.quat, colored.orientations.quat);
}

#[test]
fn a_broken_joint_is_as_good_as_none() {
    let mut broken = make_rod_forest(false);
    broken.bend_twist_constraints[4].state = ConstraintState::Broken;
    broken.bend_twist_constraints[11].state = ConstraintState::Broken;
    let mut without = make_rod_forest(false);
    without.bend_twist_constraints.remove(11);
    without.bend_twist_constraints.remove(4);
    for _ in 0..3 {
        step(&mut broken, 0.01, None);
        step(&mut without, 0.01, None);
    }
    assert_eq!(broken.orientations.quat, without.orientations.quat);
    assert_eq!(broken.particles.pos, without.particles.pos);
    assert_eq!(broken.bend_twist_constraints[5].lambda, without.bend_twist_constraints[4].lambda);
    assert_eq!(vec(broken.bend_twist_constraints[4].lambda), DVec3::ZERO);
}

#[test]
fn equal_worlds_stay_equal_step_by_step() {
    for parallel in [false, true] {
        let (mut a, mut b) = (make_rod_forest(parallel), make_rod_forest(parallel));
        for _ in 0..5 {
            step(&mut a, 0.01, None);
            step(&mut b, 0.01, None);
            assert_eq!(a.particles.pos, b.particles.pos);
            assert_eq!(a.particles.vel, b.particles.vel);
            assert_eq!(a.orientations.quat, b.orientations.quat);
            assert_eq!(a.orientations.omega, b.orientations.omega);
            assert_eq!(a.time, b.time);
        }
    }
}

#[test]
fn test_parallel_survives_constraint_addition_between_steps() {
    let mut world = make_cloth_world(true);
    settle_down(&mut world, 5);
    let n = 24;
    let p1 = n - 1;
    let p2 = n * n - 1;
    let rest = (place(&world, p1) - place(&world, p2)).length();
    tie(&mut world, p1, p2, rest * 0.9, 1e-6);
    let positions = settle_down(&mut world, 5);
    for (i, p) in positions.iter().enumerate() {
        assert!(is_finite(*p), "particle {i} exploded after constraint addition");
    }
}

// Thermals.

#[test]
fn test_thermal_lifecycle_envelope() {
    let cell = ThermalCell {
        center: vec3(DVec3::new(5.0, 0.0, -3.0)),
        radius: scalar(8.0),
        strength: scalar(2.5),
        start_time: scalar(1.0),
        lifetime: scalar(60.0),
        drift: vec3(DVec3::new(0.4, 0.0, 0.1)),
    };
    let strength = num(cell.strength);
    let axis_at = |t: f64| vec(cell.center) + vec(cell.drift) * (t - num(cell.start_time));
    assert_eq!(thermal_velocity(&cell, axis_at(1.0), 0.5), DVec3::ZERO);
    assert_eq!(thermal_velocity(&cell, axis_at(1.0), 1.0), DVec3::ZERO);
    assert_eq!(thermal_velocity(&cell, axis_at(61.0), 61.0), DVec3::ZERO);
    assert_eq!(thermal_velocity(&cell, axis_at(61.0), 100.0), DVec3::ZERO);

    let mid = 1.0 + 30.0;
    let v_mid = thermal_velocity(&cell, axis_at(mid), mid);
    assert!((v_mid.y - strength).abs() < 1e-12);
    assert_eq!(v_mid.x, 0.0);
    assert_eq!(v_mid.z, 0.0);

    let early = 1.0 + 3.0;
    let v_early = thermal_velocity(&cell, axis_at(early), early);
    assert!(v_early.y > 0.0 && v_early.y < 0.3 * strength);

    let off = axis_at(mid) + DVec3::new(2.0 * num(cell.radius), 0.0, 0.0);
    let v_off = thermal_velocity(&cell, off, mid);
    assert!((v_off.y - strength * (-4.0f64).exp()).abs() < 1e-12);
}

#[test]
fn non_finite_position_does_not_panic() {
    let cfg = WindConfig { turbulence_intensity: scalar(0.3), ..WindConfig::default() };
    let v = wind_at(DVec3::new(f64::NAN, 0.0, 0.0), 0.0, &cfg);
    assert_eq!(v, DVec3::ZERO);
    let v = wind_at(DVec3::new(f64::INFINITY, 0.0, 0.0), 0.0, &cfg);
    assert_eq!(v, DVec3::ZERO);
}

#[test]
fn crossing_spars_add_up_at_their_weld() {
    let mut def = empty_kite_def("cross");
    def.spars.push(rod("keel", DVec3::new(0.0, 0.0, -1.0), DVec3::new(0.0, 0.0, 1.0), 2));
    def.spars.push(rod("strut", DVec3::new(-1.0, 0.0, 0.0), DVec3::new(1.0, 0.0, 0.0), 2));
    let mut world = World::new();
    build(&mut world, &def);
    // Three nodes each, one of them shared; the junction welds to it too.
    assert_eq!(world.particles.len(), 5);
    let segment = 1950.0 * PI * 0.005 * 0.005;
    let middle = find_particle_near(&world, DVec3::ZERO, 1e-4);
    assert!((1.0 / inv_mass(&world, middle) - 2.0 * segment).abs() < 1e-9);
    for i in (0..5).filter(|i| *i != middle) {
        assert!((1.0 / inv_mass(&world, i) - 0.5 * segment).abs() < 1e-9);
    }
    assert!((total_mass(&world) - 4.0 * segment).abs() < 1e-9);
}

/// A fold of a sheet across the edge `p1`-`p2`, as flat as it is laid out.
fn fold(world: &mut World, p1: usize, p2: usize, p3: usize, p4: usize) {
    let rest = compute_dihedral_angle(
        place(world, p1),
        place(world, p2),
        place(world, p3),
        place(world, p4),
    );
    world.dihedral_bending_constraints.push(DihedralBendingConstraint::new(
        p1,
        p2,
        p3,
        p4,
        scalar(rest),
        scalar(0.1),
    ));
}

#[test]
fn test_flat_sheet_drop() {
    let mut world = World::new();
    world.cfg.substeps = 30;
    world.cfg.iterations_per_substep = 2;
    gravity(&mut world, -9.81);
    world.cfg.damping = scalar(4.0);

    let m = 4usize;
    let n = 4usize;
    let dx: f64 = 0.2;
    let dz: f64 = 0.2;
    let id = |c: usize, r: usize| c + r * m;
    for r in 0..n {
        for c in 0..m {
            let mass = if r == 0 { 0.0 } else { 0.1 };
            add(&mut world, DVec3::new(c as f64 * dx, 0.0, r as f64 * dz), mass);
        }
    }
    for r in 0..n {
        for c in 0..m - 1 {
            tie(&mut world, id(c, r), id(c + 1, r), dx, 0.01);
        }
    }
    for r in 0..n - 1 {
        for c in 0..m {
            tie(&mut world, id(c, r), id(c, r + 1), dz, 0.01);
        }
    }
    let diag_len = (dx * dx + dz * dz).sqrt();
    for r in 0..n - 1 {
        for c in 0..m - 1 {
            tie(&mut world, id(c, r), id(c + 1, r + 1), diag_len, 0.05);
            tie(&mut world, id(c + 1, r), id(c, r + 1), diag_len, 0.05);
        }
    }
    for r in 0..n - 1 {
        for c in 0..m - 1 {
            fold(&mut world, id(c, r), id(c + 1, r + 1), id(c + 1, r), id(c, r + 1));
        }
    }
    for r in 0..n - 1 {
        for c in 0..m - 2 {
            fold(&mut world, id(c + 1, r), id(c + 1, r + 1), id(c, r), id(c + 2, r + 1));
        }
    }
    for r in 0..n - 2 {
        for c in 0..m - 1 {
            fold(&mut world, id(c, r + 1), id(c + 1, r + 1), id(c, r), id(c + 1, r + 2));
        }
    }
    run(&mut world, 0.01, 500);

    for i in 0..world.particles.len() {
        let pos = place(&world, i);
        assert!(is_finite(pos), "Particle {} position is not finite: {:?}", i, pos);
        if i >= m {
            assert!(pos.y < 0.0, "Particle {} did not drop: {:?}", i, pos);
        }
    }
}
