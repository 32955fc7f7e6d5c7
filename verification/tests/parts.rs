//! The parts that the rest is made of.
use kiter::cli::{check_finite, default_output, is_recorded, parse_args, record, Stream};
use kiter::cloth::{collect_edges, collect_folds, collect_sides, MeshTri};
use kiter::collision::{
    collision_candidates, contact_is_active, detect_self_collisions, pushing_lambda,
    solve_ground_collision, Candidate, ContactConstraint, Sample,
};
use kiter::coloring::{class_runs_parallel, greedy_color, Touch, MIN_PAR_CLASS};
use kiter::constraints::{
    BendTwistConstraint, BendingConstraint, ConstraintState, DihedralBendingConstraint,
    DistanceConstraint, StretchShearConstraint, UnilateralDistanceConstraint,
};
use kiter::control_bar::{ControlBar, TipState};
use kiter::energy::{energy_terms, EnergyTerm};
use kiter::geometry::{
    default_areal_density, default_line_density, default_num_segments, default_subdivisions,
    kite_sites, or_one, BridleLineDef, KiteDefinition, Site,
};
use kiter::kernels::{
    clear_readback, drag_acts, load_panel, pulling_lambda, settle_bend_twist, settle_contact,
    settle_distance, settle_unilateral, BendTwistSolve, Component, ContactSolve, DistanceSolve,
    PanelLoad, UnilateralSolve,
};
use kiter::line_order::order_lines;
use kiter::materials::{compute_inv_inertia, Material, SectionGeometry};
use kiter::mesh::{panel_triangles, panel_vertices, GridVert};
use kiter::orientation::OrientationSet;
use kiter::particles::ParticleSet;
use kiter::pins::{order_pins, sorted_members};
use kiter::scalar::{Quat, Scalar, Vec3};
use kiter::shapes::{cone_indices, cylinder_indices, drawable_triangles, sphere_indices};
use kiter::solver::{
    process_yield_and_breaking, reset_multipliers, step_simulation, total_solver_constraints,
    Phase, SolverColoring, PARALLEL_CONSTRAINT_THRESHOLD,
};
use kiter::text::{numbered, push_decimal};
use kiter::weld::{find_site, weld, NearTable, Request};
use kiter::wind::{field_is_stale, still_air_guard, FieldKey, GustEvent, ThermalCell, WindConfig};
use kiter::windviz::{next_53_bits, next_u64, Drift, WindViz, NUM_PARTICLES, TRAIL_LEN};
use kiter::world::{CanopyPanel, Event, PanelAero, World};
use std::collections::HashSet;

fn scalar(x: f64) -> Scalar {
    Scalar { bits: x.to_bits() }
}

fn num(s: Scalar) -> f64 {
    f64::from_bits(s.bits)
}

fn at(x: f64, y: f64, z: f64) -> Vec3 {
    Vec3 { x: scalar(x), y: scalar(y), z: scalar(z) }
}

fn turned(w: f64) -> Quat {
    Quat { x: scalar(0.0), y: scalar(0.0), z: scalar(0.0), w: scalar(w) }
}

fn near(rows: &[&[bool]]) -> NearTable {
    NearTable { rows: rows.iter().map(|r| r.to_vec()).collect() }
}

fn free_particles(n: usize) -> World {
    let mut world = World::new();
    for k in 0..n {
        world.add_particle(at(k as f64, 0.0, 0.0), scalar(1.0), scalar(1.0));
    }
    world
}

// Numbers.

#[test]
fn the_vertices_of_a_panel_carry_all_of_its_triangles() {
    for n in [1, 2, 5] {
        let tris = panel_triangles(n);
        let at_vertex = |v: GridVert| {
            tris.iter().flat_map(|t| [t.a, t.b, t.c]).filter(|c| *c == v).count()
        };
        let shares: usize = panel_vertices(n).into_iter().map(at_vertex).sum();
        assert_eq!((tris.len(), shares), (n * n, 3 * n * n));
    }
}

#[test]
fn draws_from_different_states_differ() {
    let mut states: Vec<u64> = vec![0, 1, 42, u64::MAX, u64::MAX - 1, 1 << 63, 1 << 30];
    let mut drawn: Vec<u64> = states.iter_mut().map(|s| next_u64(s)).collect();
    drawn.sort();
    drawn.dedup();
    assert_eq!(drawn.len(), 7);
}

#[test]
fn scalars_compare_as_doubles_do() {
    let values = [
        f64::NEG_INFINITY,
        -2.5,
        -0.0,
        0.0,
        f64::MIN_POSITIVE,
        1.0,
        1e300,
        f64::INFINITY,
        f64::NAN,
    ];
    for a in values {
        assert_eq!(scalar(a).is_nan(), a.is_nan());
        assert_eq!(scalar(a).is_finite(), a.is_finite());
        assert_eq!(scalar(a).is_positive(), a > 0.0);
        for b in values {
            assert_eq!(scalar(a).lt(scalar(b)), a < b, "{a} < {b}");
            assert_eq!(scalar(a).le(scalar(b)), a <= b, "{a} <= {b}");
        }
    }
    assert_eq!(num(scalar(2.0).max(scalar(-3.0))), 2.0);
    assert_eq!(num(scalar(f64::NAN).max(scalar(-3.0))), -3.0);
    assert!(!at(0.0, f64::NAN, 0.0).is_finite());
    assert_eq!(num(Vec3::splat(scalar(4.0)).z), 4.0);
}

#[test]
fn numbers_are_written_in_decimal() {
    let mut s = String::from("n=");
    push_decimal(&mut s, 0);
    push_decimal(&mut s, 90210);
    assert_eq!(s, "n=090210");
    assert_eq!(numbered("spar_", 12), "spar_12");
    assert_eq!(numbered("", usize::MAX), usize::MAX.to_string());
}

// Particles and segments.

#[test]
fn a_particle_without_mass_is_pinned() {
    let mut set = ParticleSet::new();
    assert!(set.is_empty());
    assert_eq!(set.add_particle(at(1.0, 2.0, 3.0), scalar(4.0), scalar(0.25)), 0);
    assert_eq!(set.add_particle(at(0.0, 0.0, 0.0), scalar(0.0), scalar(f64::INFINITY)), 1);
    assert_eq!((num(set.inv_mass[0]), num(set.inv_mass[1])), (0.25, 0.0));
    assert_eq!(set.prev_pos[0], at(1.0, 2.0, 3.0));
    set.reweigh(0, scalar(0.125));
    set.reweigh(1, scalar(0.125));
    assert_eq!((num(set.inv_mass[0]), num(set.inv_mass[1])), (0.125, 0.0));
    set.place(0, at(9.0, 0.0, 0.0), at(0.0, 1.0, 0.0));
    assert_eq!((set.pos[0], set.vel[0]), (at(9.0, 0.0, 0.0), at(0.0, 1.0, 0.0)));
    set.pin(0);
    assert_eq!((num(set.inv_mass[0]), set.vel[0]), (0.0, at(0.0, 0.0, 0.0)));
    assert_eq!(set.clone().len(), 2);
    set.clear();
    assert_eq!(set.len(), 0);
}

#[test]
fn segments_start_at_rest() {
    let mut set = OrientationSet::default();
    assert_eq!(set.add_segment(turned(1.0), at(1.0, 2.0, 3.0)), 0);
    assert_eq!(set.omega[0], at(0.0, 0.0, 0.0));
    assert_eq!(set.prev_quat[0], turned(1.0));
    assert_eq!((set.len(), set.is_empty()), (1, false));
    set.clear();
    assert!(set.is_empty());
}

#[test]
fn a_world_diverges_with_its_first_lost_particle() {
    let mut world = free_particles(3);
    assert!(!world.has_diverged());
    assert!(check_finite(&world, 4).is_ok());
    world.particles.pos[1] = at(0.0, f64::INFINITY, 0.0);
    assert!(world.has_diverged());
    assert_eq!(
        check_finite(&world, 4),
        Err("Simulation exploded at step 4 (particle 1)".to_string())
    );
}

// Materials.

#[test]
fn materials_have_their_ballpark_values() {
    let c = Material::carbon_fiber();
    assert_eq!((num(c.youngs_modulus), num(c.shear_modulus)), (1.0e11, 4.5e9));
    assert_eq!((num(c.density), num(c.tensile_strength)), (1550.0, 9.0e8));
    let g = Material::fiberglass();
    assert_eq!((num(g.youngs_modulus), num(g.shear_modulus)), (4.0e10, 4.0e9));
    assert_eq!((num(g.density), num(g.tensile_strength)), (1950.0, 8.0e8));
    let tube = SectionGeometry::Tube { radius: scalar(0.02), thickness: scalar(0.001) };
    assert_eq!(num(tube.outer_radius()), 0.02);
    // A moment of nothing has no inverse.
    let inv = compute_inv_inertia(at(2.0, 0.0, 4.0), at(0.5, f64::INFINITY, 0.25));
    assert_eq!(inv, at(0.5, 0.0, 0.25));
}

// Welding and meshes.

#[test]
fn requests_get_the_earliest_node_that_coincides() {
    let t = near(&[
        &[true, true, false],
        &[true, true, true],
        &[false, true, true],
    ]);
    let ask = |site: usize, fresh: bool| Request { site, fresh };
    let w = weld(&t, &vec![ask(0, false), ask(2, false), ask(1, false), ask(1, true)]);
    assert_eq!(w.nodes, vec![0, 1, 0, 2]);
    assert_eq!(w.origins, vec![0, 2, 1]);
    assert_eq!(find_site(&t, &w.origins, 2, 2), Some(1));
    assert_eq!(find_site(&t, &vec![0], 1, 2), None);
}

#[test]
fn a_panel_is_cut_into_a_square_number_of_triangles() {
    for n in 1..6usize {
        assert_eq!(panel_vertices(n).len(), (n + 1) * (n + 2) / 2);
        assert_eq!(panel_triangles(n).len(), n * n);
    }
    let verts = panel_vertices(1);
    let listed: Vec<(usize, usize)> = verts.iter().map(|v| (v.i, v.j)).collect();
    assert_eq!(listed, vec![(0, 0), (0, 1), (1, 0)]);
    let down = panel_triangles(2)[3];
    assert_eq!((down.a.i, down.a.j), (1, 0));
    assert_eq!((down.b.i, down.b.j), (1, 1));
    assert_eq!((down.c.i, down.c.j), (0, 1));
}

#[test]
fn cloth_edges_are_shared_and_folds_need_two_sides() {
    let tri = |a: usize, b: usize, c: usize| MeshTri { panel: 0, a, b, c };
    let sides = collect_sides(&vec![tri(0, 1, 2), tri(1, 3, 2)]);
    assert_eq!(sides.len(), 6);
    let edges = collect_edges(&Vec::new(), &sides);
    assert_eq!(edges.len(), 5);
    let known = vec![DistanceConstraint::new(1, 0, scalar(1.0), scalar(0.0))];
    assert_eq!(collect_edges(&known, &sides).len(), 4);
    let folds = collect_folds(&sides);
    assert_eq!(folds.len(), 1);
    assert_eq!((folds[0].p1, folds[0].p2, folds[0].p3, folds[0].p4), (1, 2, 0, 3));
    // An edge of three triangles folds nowhere.
    let three = collect_sides(&vec![tri(0, 1, 2), tri(1, 0, 3), tri(0, 1, 4)]);
    assert!(collect_folds(&three).is_empty());
}

#[test]
fn a_line_waits_for_the_line_it_ends_on() {
    let f = false;
    let ties = |rows: [[bool; 3]; 3]| rows.iter().map(|r| r.to_vec()).collect::<Vec<_>>();
    assert_eq!(order_lines(&ties([[f, f, f], [f, f, f], [f, f, f]])), vec![0, 1, 2]);
    // The first ends on the last, the second on the first.
    assert_eq!(order_lines(&ties([[f, f, true], [true, f, f], [f, f, f]])), vec![2, 0, 1]);
    // Lines in a circle come in listing order.
    let mut circle = order_lines(&ties([[f, true, f], [true, f, f], [f, f, f]]));
    assert_eq!(circle.len(), 3);
    circle.sort();
    assert_eq!(circle, vec![0, 1, 2]);
}

#[test]
fn the_sites_of_a_kite_are_listed_in_building_order() {
    assert_eq!((default_subdivisions(), default_num_segments()), (1, 1));
    assert_eq!((num(default_areal_density()), num(default_line_density())), (0.05, 970.0));
    assert_eq!((or_one(0), or_one(3)), (1, 3));
    let def = KiteDefinition {
        name: String::new(),
        spars: Vec::new(),
        panels: Vec::new(),
        bridles: vec![BridleLineDef {
            name: String::new(),
            from: at(0.0, 0.0, 0.0),
            to: at(1.0, 0.0, 0.0),
            rest_length: scalar(1.0),
            compliance: scalar(0.0),
            diameter: scalar(0.001),
            num_segments: 2,
            density: scalar(970.0),
        }],
        bridle_junction: at(0.0, 0.0, 0.0),
        bridle_junction_pinned: false,
        pinned_points: vec![at(5.0, 0.0, 0.0)],
        stiff_junctions: Vec::new(),
        lashings: Vec::new(),
    };
    assert_eq!(
        kite_sites(&def, 1),
        vec![
            Site::Existing { particle: 0 },
            Site::BridleJunction,
            Site::BridleFrom { line: 0 },
            Site::BridleTo { line: 0 },
            Site::BridleInner { line: 0, node: 1 },
            Site::Pinned { point: 0 },
        ]
    );
}

#[test]
fn pins_are_ordered_by_place() {
    let points = vec![at(2.0, 0.0, 0.0), at(-1.0, 5.0, 0.0), at(-1.0, 4.0, 9.0)];
    let set: HashSet<usize> = [0, 1, 2].into_iter().collect();
    assert_eq!(order_pins(&points, &set), vec![2, 1, 0]);
    let numbers: HashSet<usize> = [30, 4, 17].into_iter().collect();
    assert_eq!(sorted_members(&numbers), vec![4, 17, 30]);
}

// Coloring and steps.

#[test]
fn members_of_a_class_touch_nothing_in_common() {
    let touch = |p: &[usize], q: &[usize]| Touch {
        particles: p.to_vec(),
        orientations: q.to_vec(),
    };
    let touches = vec![
        touch(&[0, 1], &[]),
        touch(&[1, 2], &[]),
        touch(&[2, 3], &[]),
        touch(&[4], &[0]),
        touch(&[5], &[0]),
    ];
    assert_eq!(greedy_color(&touches, 6, 1), vec![vec![0, 2, 3], vec![1, 4]]);
    assert!(greedy_color(&Vec::new(), 3, 3).is_empty());
    assert!(!class_runs_parallel(&vec![0; MIN_PAR_CLASS - 1]));
    assert!(class_runs_parallel(&vec![0; MIN_PAR_CLASS]));
}

fn chain(n: usize) -> World {
    let mut world = free_particles(n + 1);
    for k in 0..n {
        world.distance_constraints.push(DistanceConstraint::new(
            k,
            k + 1,
            scalar(1.0),
            scalar(0.0),
        ));
    }
    world
}

#[test]
fn a_coloring_is_stale_once_the_counts_change() {
    let mut world = chain(4);
    let coloring = SolverColoring::rebuild(&world);
    assert_eq!(coloring.distance_colors, vec![vec![0, 2], vec![1, 3]]);
    assert!(!coloring.is_stale(&world));
    world.distance_constraints.pop();
    assert!(coloring.is_stale(&world));
    assert_eq!(total_solver_constraints(&world), 3);
}

#[test]
fn large_worlds_are_solved_in_parallel_when_that_is_asked_for() {
    let mut small = chain(PARALLEL_CONSTRAINT_THRESHOLD - 1);
    small.cfg.parallel_solve = true;
    assert!(!step_simulation(&mut small, scalar(0.1), false).parallel);
    let mut large = chain(PARALLEL_CONSTRAINT_THRESHOLD);
    assert!(!step_simulation(&mut large, scalar(0.1), false).parallel);
    large.cfg.parallel_solve = true;
    assert!(!step_simulation(&mut large, scalar(0.1), true).parallel);
    assert!(step_simulation(&mut large, scalar(0.1), false).parallel);
    assert!(large.coloring.is_some());
}

#[test]
fn a_step_repeats_its_solves_between_prediction_and_velocities() {
    let mut world = World::new();
    world.cfg.iterations_per_substep = 2;
    world.cfg.ground_collision_enabled = true;
    let plan = step_simulation(&mut world, scalar(0.5), false);
    assert_eq!(plan.substeps, 24);
    assert_eq!(num(world.last_h), 0.5);
    let count = |p: Phase| plan.phases.iter().filter(|q| **q == p).count();
    assert_eq!(count(Phase::SolveDistance), 2);
    assert_eq!(count(Phase::SolveGround), 2);
    assert_eq!((count(Phase::SolveContacts), count(Phase::DetectContacts)), (0, 0));
    assert_eq!(count(Phase::UpdateVelocities), 1);
    let place = |p: Phase| plan.phases.iter().position(|q| *q == p);
    assert!(place(Phase::PredictPositions) < place(Phase::SolveDistance));
    assert!(place(Phase::SolveUnilateral) < place(Phase::UpdateVelocities));
    assert!(place(Phase::UpdateVelocities) < place(Phase::CommitPositions));
    // Without substeps nothing happens.
    world.cfg.substeps = 0;
    let idle = step_simulation(&mut world, scalar(0.25), false);
    assert_eq!(idle.substeps, 0);
}

#[test]
fn multipliers_start_at_zero() {
    let mut world = chain(1);
    world.distance_constraints[0].lambda = scalar(3.0);
    world.bending_constraints.push(BendingConstraint::new(
        0,
        1,
        0,
        at(0.0, 0.0, 0.0),
        scalar(0.0),
    ));
    world.bending_constraints[0].lambda = at(1.0, 2.0, 3.0);
    reset_multipliers(&mut world);
    assert_eq!(num(world.distance_constraints[0].lambda), 0.0);
    assert_eq!(world.bending_constraints[0].lambda, at(0.0, 0.0, 0.0));
}

fn joint(is_inflatable: bool) -> World {
    let mut world = World::new();
    world.add_segment(turned(1.0), at(1.0, 1.0, 1.0));
    world.add_segment(turned(1.0), at(1.0, 1.0, 1.0));
    world.bend_twist_constraints.push(BendTwistConstraint::new(
        0,
        1,
        at(0.0, 0.0, 0.0),
        at(0.0, 0.0, 0.0),
        scalar(2.0),
        is_inflatable,
    ));
    world
}

#[test]
fn joints_yield_once_their_moment_is_above_the_threshold() {
    let mut rod = joint(false);
    process_yield_and_breaking(&mut rod, &vec![scalar(2.0)]);
    assert_eq!(rod.bend_twist_constraints[0].state, ConstraintState::Active);
    process_yield_and_breaking(&mut rod, &vec![scalar(2.5)]);
    assert_eq!(rod.bend_twist_constraints[0].state, ConstraintState::Broken);
    assert_eq!(rod.events, vec![Event::SparBroken { joint_index: 0 }]);
    process_yield_and_breaking(&mut rod, &vec![scalar(9.0)]);
    assert_eq!(rod.events.len(), 1, "a broken joint stays broken");
    assert!(rod.bend_twist_constraints[0].bend_compliance().is_none());

    let mut tube = joint(true);
    process_yield_and_breaking(&mut tube, &vec![scalar(2.5)]);
    assert_eq!(tube.bend_twist_constraints[0].state, ConstraintState::Folded);
    assert_eq!(tube.events, vec![Event::LeadingEdgeFolded { joint_index: 0 }]);
    let c = tube.bend_twist_constraints[0].bend_compliance().unwrap();
    assert!(c.pressurised && c.softened);
}

// Settling.

#[test]
fn a_distance_moves_only_what_is_free() {
    let mut world = chain(1);
    world.particles.pin(0);
    let s = DistanceSolve {
        w_sum: scalar(1.0),
        dist: scalar(1.5),
        denom: scalar(1.0),
        lambda: scalar(-0.5),
        pos1: at(7.0, 7.0, 7.0),
        pos2: at(1.0, 0.0, 0.0),
    };
    settle_distance(&mut world, 0, &s);
    assert_eq!(world.particles.pred_pos[0], at(0.0, 0.0, 0.0));
    assert_eq!(world.particles.pred_pos[1], at(1.0, 0.0, 0.0));
    assert_eq!(num(world.distance_constraints[0].lambda), -0.5);
    // Ends that coincide have no direction, so nothing is done.
    let flat = DistanceSolve { dist: scalar(0.0), lambda: scalar(9.0), ..s };
    settle_distance(&mut world, 0, &flat);
    assert_eq!(num(world.distance_constraints[0].lambda), -0.5);
}

#[test]
fn a_line_only_pulls() {
    let mut world = free_particles(2);
    world.unilateral_constraints.push(UnilateralDistanceConstraint::new(
        0,
        1,
        scalar(2.0),
        scalar(0.0),
        scalar(0.001),
    ));
    let slack = UnilateralSolve {
        w_sum: scalar(2.0),
        dist: scalar(1.0),
        excess: scalar(-1.0),
        denom: scalar(2.0),
        lambda: scalar(0.0),
        pos1: at(9.0, 0.0, 0.0),
        pos2: at(9.0, 0.0, 0.0),
    };
    settle_unilateral(&mut world, 0, &slack);
    assert_eq!(world.particles.pred_pos[1], at(1.0, 0.0, 0.0));
    assert_eq!(num(world.unilateral_constraints[0].lambda), 0.0);
    assert_eq!(num(pulling_lambda(scalar(0.5))), 0.0);
    assert_eq!(num(pulling_lambda(scalar(-0.5))), -0.5);
    let taut = UnilateralSolve { excess: scalar(1.0), lambda: scalar(-0.5), ..slack };
    settle_unilateral(&mut world, 0, &taut);
    assert_eq!(num(world.unilateral_constraints[0].lambda), -0.5);
    assert_eq!(world.particles.pred_pos[1], at(9.0, 0.0, 0.0));
}

#[test]
fn a_broken_joint_turns_nothing() {
    let mut world = joint(false);
    let s = BendTwistSolve {
        w_sum: scalar(6.0),
        denom: scalar(1.0),
        lambda: scalar(0.25),
        quat1: turned(0.5),
        quat2: turned(0.25),
    };
    world.bend_twist_constraints[0].state = ConstraintState::Broken;
    settle_bend_twist(&mut world, 0, Component::Y, &s);
    assert_eq!(world.orientations.quat[1], turned(1.0));
    world.bend_twist_constraints[0].state = ConstraintState::Active;
    settle_bend_twist(&mut world, 0, Component::Y, &s);
    assert_eq!(world.orientations.quat[0], turned(0.5));
    assert_eq!(world.orientations.quat[1], turned(0.25));
    assert_eq!(world.bend_twist_constraints[0].lambda, at(0.0, 0.25, 0.0));
}

#[test]
fn drag_needs_a_length_a_flow_and_a_free_end() {
    let mut world = free_particles(2);
    assert!(drag_acts(&world, 0, 1, scalar(1.0), scalar(3.0)));
    assert!(!drag_acts(&world, 0, 1, scalar(0.0), scalar(3.0)));
    assert!(!drag_acts(&world, 0, 1, scalar(1.0), scalar(0.0)));
    world.particles.pin(0);
    assert!(drag_acts(&world, 0, 1, scalar(1.0), scalar(3.0)));
    world.particles.pin(1);
    assert!(!drag_acts(&world, 0, 1, scalar(1.0), scalar(3.0)));
}

#[test]
fn energy_counts_free_particles_whole_joints_and_taut_lines() {
    let mut world = joint(false);
    for k in 0..2 {
        world.add_particle(at(k as f64, 0.0, 0.0), scalar(1.0), scalar(1.0));
    }
    world.particles.pin(0);
    world.unilateral_constraints.push(UnilateralDistanceConstraint::new(
        0,
        1,
        scalar(1.0),
        scalar(0.0),
        scalar(0.001),
    ));
    let taut = energy_terms(&world, &vec![scalar(1.5)]);
    assert!(taut.contains(&EnergyTerm::Particle(1)));
    assert!(!taut.contains(&EnergyTerm::Particle(0)));
    assert!(taut.contains(&EnergyTerm::Spin(0, Component::Z)));
    assert!(taut.contains(&EnergyTerm::BendTwist(0)));
    assert!(taut.contains(&EnergyTerm::Unilateral(0)));
    world.bend_twist_constraints[0].state = ConstraintState::Broken;
    let slack = energy_terms(&world, &vec![scalar(0.5)]);
    assert!(!slack.contains(&EnergyTerm::BendTwist(0)));
    assert!(!slack.contains(&EnergyTerm::Unilateral(0)));
}

// Collisions.

#[test]
fn the_ground_lifts_what_is_below_it() {
    let mut world = free_particles(3);
    world.particles.pred_pos[0] = at(1.0, -3.0, 2.0);
    world.particles.pred_pos[1] = at(1.0, 0.5, 2.0);
    world.particles.pred_pos[2] = at(1.0, -3.0, 2.0);
    world.particles.pin(2);
    solve_ground_collision(&mut world);
    assert_eq!(num(world.particles.pred_pos[0].y), 0.005);
    assert_eq!(num(world.particles.pred_pos[1].y), 0.5);
    assert_eq!(num(world.particles.pred_pos[2].y), -3.0);
}

#[test]
fn a_particle_collides_with_panels_it_is_not_part_of() {
    let mut world = free_particles(5);
    world.canopy_panels.push(CanopyPanel::new(0, 1, 2));
    // The fourth particle is tied to a corner, the fifth to none.
    world.distance_constraints.push(DistanceConstraint::new(3, 0, scalar(1.0), scalar(0.0)));
    assert_eq!(collision_candidates(&world), vec![Candidate { particle: 4, panel: 0 }]);
    let sample = |distance: f64| Sample {
        distance: scalar(distance),
        direction: at(0.0, 1.0, 0.0),
        tri_normal: at(0.0, 0.0, 1.0),
        tri_normal_sq: scalar(1.0),
        depth: scalar(0.01 - distance),
        u: scalar(0.5),
        v: scalar(0.25),
        w: scalar(0.25),
    };
    let found = detect_self_collisions(&world, &vec![sample(0.004)]);
    assert_eq!(found.len(), 1);
    assert_eq!((found[0].p_i, found[0].p_a, found[0].p_c), (4, 0, 2));
    assert_eq!(found[0].normal, at(0.0, 1.0, 0.0));
    assert_eq!(num(found[0].depth), 0.01 - 0.004);
    assert!(detect_self_collisions(&world, &vec![sample(0.02)]).is_empty());
    // On the panel itself, its own normal is taken.
    let touching = detect_self_collisions(&world, &vec![sample(0.0)]);
    assert_eq!(touching[0].normal, at(0.0, 0.0, 1.0));
    assert!(contact_is_active(&found[0], scalar(-0.1), scalar(1.0)));
    assert!(!contact_is_active(&found[0], scalar(0.1), scalar(1.0)));
    assert!(!contact_is_active(&found[0], scalar(-0.1), scalar(0.0)));
    assert_eq!(num(pushing_lambda(scalar(-2.0))), 0.0);
}

#[test]
fn a_contact_pushes_and_never_pulls() {
    let mut world = free_particles(4);
    world.particles.pin(2);
    let mut contact = ContactConstraint {
        p_i: 3,
        p_a: 0,
        p_b: 1,
        p_c: 2,
        normal: at(0.0, 1.0, 0.0),
        depth: scalar(0.001),
        u: scalar(0.5),
        v: scalar(0.25),
        w: scalar(0.25),
        lambda: scalar(0.0),
    };
    let s = ContactSolve {
        value: scalar(-0.5),
        denom: scalar(2.0),
        lambda: scalar(0.25),
        pos_i: at(3.0, 1.0, 0.0),
        pos_a: at(0.0, -1.0, 0.0),
        pos_b: at(1.0, -2.0, 0.0),
        pos_c: at(2.0, -3.0, 0.0),
    };
    settle_contact(&mut world, &mut contact, &ContactSolve { value: scalar(0.5), ..s });
    assert_eq!(num(contact.lambda), 0.0);
    assert_eq!(world.particles.pred_pos[3], at(3.0, 0.0, 0.0));
    settle_contact(&mut world, &mut contact, &s);
    assert_eq!(num(contact.lambda), 0.25);
    assert_eq!(world.particles.pred_pos[3], at(3.0, 1.0, 0.0));
    assert_eq!(world.particles.pred_pos[1], at(1.0, -2.0, 0.0));
    assert_eq!(world.particles.pred_pos[2], at(2.0, 0.0, 0.0), "a pinned corner stays");
    settle_contact(&mut world, &mut contact, &ContactSolve { lambda: scalar(-3.0), ..s });
    assert_eq!(num(contact.lambda), 0.0);
}

#[test]
fn a_panel_without_an_area_carries_no_load() {
    let mut world = free_particles(3);
    world.canopy_panels.push(CanopyPanel::new(0, 1, 2));
    clear_readback(&mut world);
    let lift = PanelAero { lift: at(0.0, 5.0, 0.0), ..PanelAero::default() };
    let vel = at(0.0, 2.0, 0.0);
    let flat = PanelLoad {
        double_area: scalar(0.0),
        aero: lift,
        vel1: vel,
        vel2: vel,
        vel3: vel,
    };
    load_panel(&mut world, 0, &flat);
    assert_eq!(world.particles.vel[1], at(0.0, 0.0, 0.0));
    assert_eq!(world.aero_readback[0].lift, at(0.0, 0.0, 0.0));
    world.particles.pin(1);
    load_panel(&mut world, 0, &PanelLoad { double_area: scalar(1.0), ..flat });
    assert_eq!(world.particles.vel[0], vel);
    assert_eq!(world.particles.vel[1], at(0.0, 0.0, 0.0));
    assert_eq!(world.aero_readback[0].lift, at(0.0, 5.0, 0.0));
}

// The control bar.

#[test]
fn anchors_follow_the_tips_and_lines_pull_on_them() {
    let mut world = free_particles(4);
    let bar = ControlBar::new(0, 1);
    let tip = |x: f64| TipState { pos: at(x, 1.0, 0.0), vel: at(0.0, 0.0, x) };
    bar.sync_anchors_to_world(&mut world, tip(-2.0), tip(2.0));
    assert_eq!(world.particles.pos[0], at(-2.0, 1.0, 0.0));
    assert_eq!(world.particles.vel[1], at(0.0, 0.0, 2.0));
    assert_eq!(world.particles.pos[2], at(2.0, 0.0, 0.0));
    let line = |a: usize, b: usize| {
        UnilateralDistanceConstraint::new(a, b, scalar(1.0), scalar(0.0), scalar(0.001))
    };
    let pulls = bar.line_pulls(&vec![line(0, 2), line(2, 3), line(3, 1)]);
    assert_eq!(pulls.len(), 2);
    assert_eq!((pulls[0].left, pulls[0].line, pulls[0].this, pulls[0].other), (true, 0, 0, 2));
    assert_eq!((pulls[1].left, pulls[1].line, pulls[1].this, pulls[1].other), (false, 2, 1, 3));
}

// Wind.

#[test]
fn gusts_and_thermals_act_while_they_last() {
    let gust = GustEvent::new(
        scalar(1.0),
        scalar(5.0),
        scalar(2.0),
        at(1.0, 0.0, 0.0),
        scalar(10.0),
    );
    assert!(gust.is_blowing(scalar(2.0), scalar(2.5)));
    assert!(!gust.is_blowing(scalar(0.5), scalar(2.5)));
    assert!(!gust.is_blowing(scalar(2.0), scalar(5.5)));
    assert!(!gust.is_blowing(scalar(2.0), scalar(-0.5)));
    let cell = ThermalCell {
        center: at(0.0, 0.0, 0.0),
        radius: scalar(2.0),
        strength: scalar(1.0),
        start_time: scalar(0.0),
        lifetime: scalar(10.0),
        drift: at(0.0, 0.0, 0.0),
    };
    assert!(cell.is_active(scalar(5.0), scalar(4.0)));
    assert!(!cell.is_active(scalar(0.0), scalar(4.0)));
    assert!(!cell.is_active(scalar(10.0), scalar(4.0)));
    assert!(!cell.is_active(scalar(5.0), scalar(0.0)));
}

#[test]
fn a_noise_field_serves_until_its_key_changes() {
    let mut cfg = WindConfig::default();
    assert!(!cfg.is_turbulent());
    cfg.turbulence_intensity = scalar(0.2);
    cfg.v_ref = scalar(5.0);
    assert!(cfg.is_turbulent());
    assert!(field_is_stale(None, &cfg));
    let key = FieldKey::of(&cfg);
    assert!(!field_is_stale(Some(key), &cfg));
    cfg.v_ref = scalar(9.0);
    assert!(!field_is_stale(Some(key), &cfg));
    cfg.seed = cfg.seed + 1;
    assert!(field_is_stale(Some(key), &cfg));
    cfg.seed = 41;
    assert_eq!(cfg.noise_seeds(), (41, 42, 43));
    assert_eq!(still_air_guard(at(0.0, 1.0, 2.0)), None);
    assert_eq!(still_air_guard(at(0.0, f64::NAN, 2.0)), Some(at(0.0, 0.0, 0.0)));
}

#[test]
fn draws_repeat_from_the_same_state() {
    let mut a = 42u64;
    let mut b = 42u64;
    assert_eq!(next_u64(&mut a), 13679457532755275413);
    assert_eq!(next_53_bits(&mut b), 13679457532755275413 >> 11);
    assert_eq!(a, b);
    assert_ne!(next_u64(&mut a), 13679457532755275413);
}

fn overlay() -> WindViz {
    let places: Vec<Vec3> = (0..NUM_PARTICLES).map(|k| at(k as f64, 0.0, 0.0)).collect();
    WindViz::new(at(0.0, 5.0, 0.0), at(20.0, 10.0, 20.0), &places, 7)
}

#[test]
fn streaks_that_leave_start_anew() {
    let mut wv = overlay();
    assert_eq!(wv.particles.len(), NUM_PARTICLES);
    let drift = |k: usize| Drift {
        pos: at(k as f64, 1.0, 0.0),
        age: scalar(if k == 3 { 6.5 } else { 1.0 }),
        inside: k != 5,
    };
    let drifts: Vec<Drift> = (0..NUM_PARTICLES).map(drift).collect();
    let gone = wv.advance(&drifts);
    assert_eq!(gone, vec![3, 5]);
    assert_eq!(wv.particles[4].pos, at(4.0, 1.0, 0.0));
    wv.respawn(&gone, &vec![at(0.0, 2.0, 0.0), at(0.0, 3.0, 0.0)]);
    assert_eq!(wv.particles[5].pos, at(0.0, 3.0, 0.0));
    assert_eq!(num(wv.particles[3].age), 0.0);
    for _ in 0..3 * TRAIL_LEN {
        wv.advance(&(0..NUM_PARTICLES).map(|k| Drift { inside: true, ..drift(k) }).collect());
    }
    assert!(wv.particles.iter().all(|p| p.trail.len() <= TRAIL_LEN));
}

#[test]
fn streaks_stay_bounded_and_finite() {
    let mut wv = overlay();
    let half = [10.0, 5.0, 10.0];
    let inside = |p: Vec3| {
        num(p.x).abs() <= half[0] && (num(p.y) - 5.0).abs() <= half[1] && num(p.z).abs() <= half[2]
    };
    let dt = 0.02;
    let mut rng = wv.rng;
    let spawn = |rng: &mut u64| {
        let unit = next_53_bits(rng) as f64 / (1u64 << 53) as f64;
        at(-9.0, 1.0 + 8.0 * unit, 0.0)
    };
    let first: Vec<Vec3> = (0..NUM_PARTICLES).map(|_| spawn(&mut rng)).collect();
    wv.respawn(&(0..NUM_PARTICLES).collect(), &first);
    for _ in 0..500 {
        let drifts: Vec<Drift> = wv
            .particles
            .iter()
            .map(|p| {
                let pos = at(num(p.pos.x) + 8.0 * dt, num(p.pos.y), num(p.pos.z));
                Drift { pos, age: scalar(num(p.age) + dt), inside: inside(pos) }
            })
            .collect();
        let gone = wv.advance(&drifts);
        let places: Vec<Vec3> = gone.iter().map(|_| spawn(&mut rng)).collect();
        wv.respawn(&gone, &places);
    }
    for p in &wv.particles {
        assert!(p.pos.is_finite(), "particle position went non-finite");
        assert!(inside(p.pos), "particle escaped the box without respawning");
    }
}

#[test]
fn the_grid_is_sampled_only_when_it_is_shown() {
    let mut wv = overlay();
    assert!(wv.grid_cells().is_empty());
    wv.grid_enabled = true;
    let cells = wv.grid_cells();
    assert_eq!(cells.len(), 8 * 4 * 8);
    assert_eq!((cells[0].x, cells[0].y, cells[0].z), (0, 0, 0));
    assert_eq!(num(wv.sample_time(Some(scalar(3.0)), scalar(9.0))), 3.0);
    assert_eq!(num(wv.edit_clock), 0.0);
    assert_eq!(num(wv.sample_time(None, scalar(9.0))), 9.0);
    assert_eq!(num(wv.edit_clock), 9.0);
}

// Shapes.

#[test]
fn shapes_use_only_their_own_vertices() {
    for segs in [3u32, 8] {
        for shape in [cylinder_indices(segs), cone_indices(segs), sphere_indices(segs, 4)] {
            assert_eq!(shape.len() % 3, 0);
            assert!(!shape.is_empty());
        }
    }
    assert_eq!(cylinder_indices(3).len(), 3 * (3 * 2 + 3 + 3));
    assert_eq!(
        drawable_triangles(&vec![0, 1, 2, 2, 1, 3, 0, 1], 3),
        vec![(0, 1, 2)]
    );
}

// The command line.

fn parsed(args: &[&str]) -> Option<kiter::cli::CliArgs> {
    let words = std::iter::once("kite").chain(args.iter().copied());
    parse_args(&words.map(|w| w.to_string()).collect())
}

#[test]
fn arguments_name_a_scenario_an_output_and_a_stream() {
    assert!(parsed(&[]).is_none());
    assert!(parsed(&["--rerun"]).is_none());
    let plain = parsed(&["a.toml"]).unwrap();
    assert_eq!((plain.scenario.as_str(), &plain.output), ("a.toml", &None));
    assert!(matches!(plain.stream, Stream::Off));
    let full = parsed(&["--rerun=log.rrd", "a.toml", "out.json"]).unwrap();
    assert_eq!(full.output, Some("out.json".to_string()));
    assert!(matches!(full.stream, Stream::File(f) if f == "log.rrd"));
    assert!(matches!(parsed(&["a.toml", "--rerun"]).unwrap().stream, Stream::Viewer));
}

#[test]
fn every_tenth_step_and_the_last_are_recorded() {
    assert!(is_recorded(0, 95));
    assert!(!is_recorded(9, 95));
    assert!(is_recorded(10, 95));
    assert!(is_recorded(94, 95));
    assert_eq!(default_output("a/b/c.toml"), "a/b/simple_kite_v1_snapshot.json");
    assert_eq!(default_output("c.toml"), "simple_kite_v1_snapshot.json");
    assert!(record(&free_particles(9)).is_none());
    let e = record(&free_particles(10)).unwrap();
    assert_eq!((num(e.tail.x), num(e.nose.x), num(e.junction.x)), (0.0, 4.0, 9.0));
}

#[test]
fn constraints_start_without_a_multiplier() {
    let d = DihedralBendingConstraint::new(0, 1, 2, 3, scalar(0.5), scalar(1e-3));
    assert_eq!((num(d.lambda), num(d.rest_angle)), (0.0, 0.5));
    let s = StretchShearConstraint::new(
        0,
        1,
        2,
        scalar(1.0),
        at(1.0, 2.0, 3.0),
        scalar(0.1),
    );
    assert_eq!((s.lambda, s.q_index), (at(0.0, 0.0, 0.0), 2));
}
