//! Sessions, snapshots and when a session is out of date.
use kiter::constraints::{
    BendTwistConstraint, DistanceConstraint, StretchShearConstraint, UnilateralDistanceConstraint,
};
use kiter::doc::EditorDoc;
use kiter::hover::{particle_look, ParticleLook};
use kiter::scalar::{Quat, Scalar, Vec3};
use kiter::session::{
    joint_particle, mirror_settings, open_world, SimSession, HISTORY_CAP, MAX_STEPS_PER_FRAME,
};
use kiter::snapshot::{force_scale, max_abs, ColorScale, Readings, Single, SingleVec3, Snapshot};
use kiter::snapshot::{PanelAeroSnap, SingleQuat};
use kiter::staleness::structural_hash;
use kiter::world::{Event, World};

fn scalar(x: f64) -> Scalar {
    Scalar { bits: x.to_bits() }
}

fn num(s: Scalar) -> f64 {
    f64::from_bits(s.bits)
}

fn single(x: f32) -> Single {
    Single { bits: x.to_bits() }
}

fn num32(s: Single) -> f32 {
    f32::from_bits(s.bits)
}

fn at(x: f64, y: f64, z: f64) -> Vec3 {
    Vec3 { x: scalar(x), y: scalar(y), z: scalar(z) }
}

fn upright() -> Quat {
    Quat { x: scalar(0.0), y: scalar(0.0), z: scalar(0.0), w: scalar(1.0) }
}

fn single_vec(v: Vec3) -> SingleVec3 {
    let part = |s: Scalar| single(num(s) as f32);
    SingleVec3 { x: part(v.x), y: part(v.y), z: part(v.z) }
}

/// The readings of a world, forces from its multipliers.
fn read(world: &World) -> Readings {
    let h = num(world.last_h);
    let per_h2 = num(force_scale(world, scalar(1.0 / (h * h))));
    let force = |lambda: f64| single((-lambda * per_h2) as f32);
    Readings {
        pos: world.particles.pos.iter().map(|p| single_vec(*p)).collect(),
        quat: world
            .orientations
            .quat
            .iter()
            .map(|q| SingleQuat {
                x: single(num(q.x) as f32),
                y: single(num(q.y) as f32),
                z: single(num(q.z) as f32),
                w: single(num(q.w) as f32),
            })
            .collect(),
        spar_force: world
            .stretch_shear_constraints
            .iter()
            .map(|c| force(num(c.lambda.z)))
            .collect(),
        bridle_tension: world.unilateral_constraints.iter().map(|c| force(num(c.lambda))).collect(),
        cloth_force: world.distance_constraints.iter().map(|c| force(num(c.lambda))).collect(),
        panel_aero: world
            .aero_readback
            .iter()
            .map(|a| PanelAeroSnap {
                lift: single_vec(a.lift),
                drag: single_vec(a.drag),
                alpha: single(num(a.alpha) as f32),
            })
            .collect(),
        energy: scalar(0.0),
    }
}

fn open(doc: &EditorDoc) -> SimSession {
    let world = open_world(doc, false);
    let readings = read(&world);
    SimSession::new(doc, world, readings, &vec![])
}

/// A session over a world of one's own.
fn session_over(world: World) -> SimSession {
    let readings = read(&world);
    SimSession::new(&EditorDoc::default(), world, readings, &vec![])
}

/// A step that only lets time pass.
fn step(s: &mut SimSession) {
    let before = s.world.events.len();
    s.world.time = scalar(num(s.world.time) + num(s.dt));
    let readings = read(&s.world);
    let decayed = s.color_scale;
    s.finish_step(before, readings, decayed, &vec![]);
}

fn tick(s: &mut SimSession, wall: f64) {
    if !s.begin_frame(scalar(num(s.budget) + wall * num(s.speed))) {
        return;
    }
    let mut steps = 0;
    while s.wants_step(steps) {
        step(s);
        s.budget = scalar(num(s.budget) - num(s.dt));
        steps += 1;
    }
    s.end_frame(steps, scalar(wall), scalar(steps as f64 * num(s.dt) / wall));
}

#[test]
fn tick_caps_steps_per_frame_and_drains_budget() {
    let mut s = open(&EditorDoc::default());
    s.playing = true;
    s.dt = scalar(0.01);
    s.speed = scalar(1.0);
    tick(&mut s, 10.0);
    assert_eq!(
        s.history.len() - 1,
        MAX_STEPS_PER_FRAME,
        "must cap steps at the per-frame limit"
    );
    assert_eq!(
        num(s.budget),
        0.0,
        "leftover backlog beyond the cap must be dropped, not deferred"
    );
}

#[test]
fn tick_accumulates_subthreshold_budget() {
    let mut s = open(&EditorDoc::default());
    s.playing = true;
    s.dt = scalar(0.01);
    s.speed = scalar(1.0);
    tick(&mut s, 0.004);
    assert_eq!(s.history.len(), 1, "no step should have run yet");
    assert!((num(s.budget) - 0.004).abs() < 1e-12);
}

#[test]
fn a_paused_session_takes_no_step() {
    let mut s = open(&EditorDoc::default());
    s.sim_rate = scalar(3.0);
    tick(&mut s, 1.0);
    assert_eq!(s.history.len(), 1);
    assert_eq!(num(s.sim_rate), 0.0);
    assert_eq!(num(s.budget), 0.0);
}

#[test]
fn structural_hash_changes_on_point_edit_not_on_cosmetic_edit() {
    let mut doc = EditorDoc::default();
    doc.points.push(at(0.0, 0.0, 0.0));
    doc.points.push(at(1.0, 0.0, 0.0));
    doc.add_spar(0, 1);
    let h0 = structural_hash(&doc);

    doc.name = "renamed".to_string();
    doc.duration = scalar(99.0);
    assert_eq!(h0, structural_hash(&doc), "cosmetic fields must not affect the structural hash");

    doc.points[1].x = scalar(2.0);
    assert_ne!(h0, structural_hash(&doc), "a point move must change the structural hash");
}

#[test]
fn every_structural_edit_makes_a_session_stale() {
    let mut doc = EditorDoc::default();
    for k in 0..3 {
        doc.points.push(at(k as f64, 0.0, 0.0));
    }
    doc.add_spar(0, 1);
    doc.add_panel(0, 1, 2);
    doc.add_bridle(0, 2, scalar(2.0));
    let s = open(&doc);
    assert!(!s.is_stale(&doc));
    doc.toggle_lashing(1);
    assert!(s.is_stale(&doc));
    doc.toggle_lashing(1);
    assert!(!s.is_stale(&doc));
    doc.toggle_pin(2);
    assert!(s.is_stale(&doc));
    doc.toggle_pin(2);
    doc.junction = Some(0);
    assert!(s.is_stale(&doc));
    doc.junction = None;
    doc.bridles[0].num_segments = 5;
    assert!(s.is_stale(&doc));
    doc.bridles[0].num_segments = 1;
    doc.spars[0].name = "keel".to_string();
    assert!(!s.is_stale(&doc));
    // What a running session mirrors into the document keeps it current.
    let mut cfg = s.world.cfg.clone();
    cfg.gravity = at(0.0, -1.62, 0.0);
    mirror_settings(&mut doc, &cfg);
    assert_eq!(num(doc.gravity.y), -1.62);
    assert!(!s.is_stale(&doc));
}

#[test]
fn zero_h_gives_zero_force() {
    let world = World::new();
    let snap = Snapshot::capture(&world, Vec::new(), read(&world));
    assert_eq!(snap.readings.spar_force.len(), 0);
    assert_eq!(num(world.last_h), 0.0);
    assert_eq!(num(force_scale(&world, scalar(f64::INFINITY))), 0.0);
}

#[test]
fn a_snapshot_reads_tension_from_the_multiplier() {
    // A line that holds one kilogram at rest, as a step leaves it.
    let mut world = World::new();
    let a = world.add_particle(at(0.0, 1.0, 0.0), scalar(0.0), scalar(0.0));
    let b = world.add_particle(at(0.0, 0.0, 0.0), scalar(1.0), scalar(1.0));
    world.unilateral_constraints.push(UnilateralDistanceConstraint::new(
        a,
        b,
        scalar(0.9),
        scalar(1e-9),
        scalar(0.003),
    ));
    let h = 0.01 / 24.0;
    world.last_h = scalar(h);
    world.unilateral_constraints[0].lambda = scalar(-9.81 * h * h);
    let snap = Snapshot::capture(&world, Vec::new(), read(&world));
    assert_eq!(snap.readings.bridle_tension.len(), 1);
    let tension = num32(snap.readings.bridle_tension[0]);
    assert!(tension > 0.0, "tension must be positive, got {tension}");
    assert!((tension / 9.81 - 1.0).abs() < 0.10, "tension {tension} not within 10% of 9.81 N");
}

#[test]
fn a_full_history_drops_its_oldest_frame() {
    let mut s = open(&EditorDoc::default());
    for _ in 0..HISTORY_CAP + 2 {
        step(&mut s);
    }
    assert_eq!(s.history.len(), HISTORY_CAP);
    assert!((num(s.history[0].t) - 3.0 * num(s.dt)).abs() < 1e-9);
    s.scrub_to(1);
    assert_eq!(s.shown_frame(), 1);
    assert_eq!(s.shown_time(), s.history[1].t);
    s.pause_at_head();
    assert_eq!(s.shown_frame(), HISTORY_CAP - 1);
    assert_eq!(s.shown_time(), s.world.time);
}

/// Two rods that share a node, with a joint.
fn jointed() -> World {
    let mut world = World::new();
    for k in 0..3 {
        world.add_particle(at(k as f64, 0.0, 0.0), scalar(1.0), scalar(1.0));
    }
    for k in 0..2usize {
        world.add_segment(upright(), at(1.0, 1.0, 1.0));
        world.stretch_shear_constraints.push(StretchShearConstraint::new(
            k,
            k + 1,
            k,
            scalar(1.0),
            at(0.0, 0.0, 0.0),
            scalar(0.01),
        ));
    }
    world.bend_twist_constraints.push(BendTwistConstraint::new(
        0,
        1,
        at(0.0, 0.0, 0.0),
        at(0.0, 0.0, 0.0),
        scalar(0.1),
        false,
    ));
    world
}

#[test]
fn a_break_is_marked_at_the_node_of_its_joint() {
    let world = jointed();
    assert_eq!(joint_particle(&world, 0), Some(1));
    assert_eq!(joint_particle(&world, 7), None);
    let mut s = session_over(world);
    step(&mut s);
    s.world.events.push(Event::SparBroken { joint_index: 0 });
    let readings = read(&s.world);
    let decayed = s.color_scale;
    s.finish_step(0, readings, decayed, &vec![]);
    assert_eq!(s.event_markers.len(), 1);
    let m = s.event_markers[0];
    assert_eq!((m.step, m.particle, m.broken), (2, 1, true));
    assert_eq!(s.history[2].events, vec![Event::SparBroken { joint_index: 0 }]);
    assert!(s.history[1].events.is_empty());
}

#[test]
fn a_lost_particle_stops_the_session() {
    let mut s = session_over(jointed());
    s.toggle_play();
    assert!(s.playing);
    s.world.particles.pos[2] = at(f64::NAN, 0.0, 0.0);
    tick(&mut s, 1.0);
    assert_eq!(s.history.len(), 2, "no further step");
    assert!(s.diverged.is_some());
    assert!(!s.playing);
    assert!(!s.can_grab());
    let at_first = s.diverged;
    step(&mut s);
    assert_eq!(s.diverged, at_first);
    // A rebuild starts over.
    let doc = EditorDoc::default();
    let world = jointed();
    let readings = read(&world);
    s.dt = scalar(0.02);
    s.rebuild(&doc, world, readings, &vec![]);
    assert!(s.diverged.is_none());
    assert_eq!(s.history.len(), 1);
    assert_eq!(num(s.dt), 0.02);
}

#[test]
fn a_bake_runs_at_least_one_step() {
    let mut s = open(&EditorDoc::default());
    assert!(s.wants_bake_step(0, 3));
    assert!(!s.wants_bake_step(3, 3));
    s.diverged = Some(scalar(1.0));
    assert!(s.wants_bake_step(0, 3));
    assert!(!s.wants_bake_step(1, 3));
}

#[test]
fn a_grabbed_particle_is_held_and_gets_its_mass_back() {
    let mut s = session_over(jointed());
    assert!(s.can_grab());
    s.try_grab(2);
    assert_eq!(num(s.world.particles.inv_mass[2]), 0.0);
    assert_eq!(particle_look(&s, 2), ParticleLook::Grabbed);
    s.drag_grab(at(5.0, 0.0, 0.0));
    assert_eq!(s.world.particles.pos[2], at(5.0, 0.0, 0.0));
    assert_eq!(s.world.particles.vel[2], at(0.0, 0.0, 0.0));
    s.release_grab();
    assert_eq!(num(s.world.particles.inv_mass[2]), 1.0);
    assert_eq!(particle_look(&s, 2), ParticleLook::Free);
    s.world.particles.pin(0);
    assert_eq!(particle_look(&s, 0), ParticleLook::Pinned);
    s.release_grab();
    assert_eq!(num(s.world.particles.inv_mass[0]), 0.0);
}

#[test]
fn playing_leaves_the_scrubbed_frame() {
    let mut s = open(&EditorDoc::default());
    step(&mut s);
    s.scrub_to(0);
    s.budget = scalar(0.5);
    s.toggle_play();
    assert_eq!((s.playing, s.scrub), (true, None));
    assert_eq!(num(s.budget), 0.0);
    s.toggle_play();
    assert!(!s.playing);
}

#[test]
fn scales_rise_to_the_largest_reading() {
    let vals = vec![single(1.5), single(-4.0), single(2.0)];
    assert_eq!(num32(max_abs(&vals)), 4.0);
    assert_eq!(num32(max_abs(&vec![])), 0.0);
    let mut world = jointed();
    world.distance_constraints.push(DistanceConstraint::new(0, 1, scalar(1.0), scalar(0.0)));
    let mut readings = read(&world);
    readings.cloth_force = vec![single(-3.0)];
    readings.spar_force = vec![single(0.5), single(0.25)];
    let aero = vec![single(7.0)];
    let low = ColorScale { cloth: single(10.0), ..ColorScale::default() };
    let scale = low.raised(&readings, &aero);
    assert_eq!(num32(scale.cloth), 10.0);
    assert_eq!(num32(scale.spar), 0.5);
    assert_eq!(num32(scale.bridle), 0.0);
    assert_eq!(num32(scale.aero), 7.0);
}

#[test]
fn a_session_opens_with_the_settings_of_its_document() {
    let mut doc = EditorDoc::default();
    doc.gravity = at(0.0, -3.7, 0.0);
    doc.sim.substeps = Some(9);
    doc.sim.ground_collision_enabled = Some(true);
    let world = open_world(&doc, true);
    assert_eq!(num(world.cfg.gravity.y), -3.7);
    assert_eq!(world.cfg.substeps, 9);
    assert_eq!(world.cfg.iterations_per_substep, 1);
    assert!(world.cfg.ground_collision_enabled && !world.cfg.self_collision_enabled);
    assert!(world.cfg.parallel_solve);
    let s = open(&doc);
    assert_eq!(num(s.dt), 0.01);
    assert_eq!(num(s.speed), 1.0);
    assert!(!s.playing);
}
