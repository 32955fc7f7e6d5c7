//! The document, its tools and the editor around them.
use glam::DVec3;
use kiter::clicks::{handle_click, Sight, Spot};
use kiter::doc::{EditorDoc, Scenario, SimOverrides};
use kiter::doc_scenario::scenario_places;
use kiter::editor::{
    inspected, pick_row, set_junction, set_pin, App, GizmoDragKind, GizmoHit, Keys, Mode, Phase,
    ScreenPos,
};
use kiter::geometry::{
    kite_sites, BridleLineDef, KiteDefinition, LashingDef, PanelDef, Site, SparDef,
    StiffJunctionDef,
};
use kiter::hover::{hover_target, is_lashed, is_stiff, point_look, spar_label, Hover, PointLook};
use kiter::layout::lay_out;
use kiter::scalar::{Scalar, Vec3};
use kiter::selection::{Selection, SelectionSet, Tool, ToolState};
use kiter::snapshot::Single;
use kiter::tools::{
    bridle_nodes, delete_selected, gizmo_points, pick, pick_bridle_node, pick_gizmo, pick_point,
    points_in_rect, ring_basis, GizmoAxis, LineNode, Probe,
};
use kiter::weld::NearTable;
use kiter::wind::WindConfig;
use kiter::world::Config;

/// Points closer than this weld.
const WELD_TOL: f64 = 1e-3;

fn scalar(x: f64) -> Scalar {
    Scalar { bits: x.to_bits() }
}

fn num(s: Scalar) -> f64 {
    f64::from_bits(s.bits)
}

fn single(x: f32) -> Single {
    Single { bits: x.to_bits() }
}

fn vec3(v: DVec3) -> Vec3 {
    Vec3 { x: scalar(v.x), y: scalar(v.y), z: scalar(v.z) }
}

fn at(x: f64, y: f64, z: f64) -> Vec3 {
    vec3(DVec3::new(x, y, z))
}

fn vec(v: Vec3) -> DVec3 {
    DVec3::new(num(v.x), num(v.y), num(v.z))
}

fn nearness(doc: &EditorDoc, p: DVec3) -> Vec<bool> {
    doc.points.iter().map(|q| (vec(*q) - p).length() < WELD_TOL).collect()
}

fn weld_point(doc: &mut EditorDoc, p: DVec3) -> usize {
    let near = nearness(doc, p);
    doc.weld_point(vec3(p), &near)
}

fn add_bridle(doc: &mut EditorDoc, a: usize, b: usize) -> usize {
    let span = (vec(doc.points[a]) - vec(doc.points[b])).length();
    doc.add_bridle(a, b, scalar(span))
}

fn near_table(places: &[Vec3]) -> NearTable {
    let rows = places
        .iter()
        .map(|a| places.iter().map(|b| (vec(*a) - vec(*b)).length() < WELD_TOL).collect())
        .collect();
    NearTable { rows }
}

fn read(s: &Scenario) -> EditorDoc {
    let places = s.kite.as_ref().map(scenario_places).unwrap_or_default();
    EditorDoc::from_scenario(s, &near_table(&places))
}

// A ray, and what it measures.

struct Ray {
    origin: DVec3,
    dir: DVec3,
}

fn probe_sphere(ray: &Ray, center: DVec3, eye: DVec3) -> Probe {
    let t = (center - ray.origin).dot(ray.dir);
    Probe {
        t: scalar(t),
        distance: scalar((ray.origin + ray.dir * t - center).length()),
        radius: scalar(((center - eye).length() * 0.012).max(0.02)),
    }
}

/// A probe that passes everything.
fn miss() -> Probe {
    Probe { t: scalar(1.0), distance: scalar(9.0), radius: scalar(0.1) }
}

fn hit(t: f64) -> Probe {
    Probe { t: scalar(t), distance: scalar(0.0), radius: scalar(0.1) }
}

fn node_place(doc: &EditorDoc, n: &LineNode) -> DVec3 {
    let b = &doc.bridles[n.bridle];
    let (p, q) = (vec(doc.points[b.a]), vec(doc.points[b.b]));
    p + (q - p) * (n.node as f64 / n.segments as f64)
}

fn node_probes(doc: &EditorDoc, ray: &Ray, eye: DVec3) -> Vec<Probe> {
    bridle_nodes(doc).iter().map(|n| probe_sphere(ray, node_place(doc, n), eye)).collect()
}

/// What a ray sees of points and nodes; it misses everything else.
fn sight(doc: &EditorDoc, state: &ToolState, ray: &Ray, eye: DVec3) -> Sight {
    let places: Vec<DVec3> = bridle_nodes(doc).iter().map(|n| node_place(doc, n)).collect();
    let first = state.pending.first().map(|i| vec(doc.points[*i]));
    let span = |p: DVec3| scalar(first.map_or(0.0, |f| (p - f).length()));
    let down = -ray.origin.y / ray.dir.y;
    let ground = if ray.dir.y != 0.0 && down > 0.0 {
        let p = ray.origin + ray.dir * down;
        Some(Spot { position: vec3(p), near: nearness(doc, p) })
    } else {
        None
    };
    Sight {
        points: doc.points.iter().map(|p| probe_sphere(ray, vec(*p), eye)).collect(),
        spars: doc.spars.iter().map(|_| miss()).collect(),
        bridles: doc.bridles.iter().map(|_| miss()).collect(),
        panels: doc.panels.iter().map(|_| None).collect(),
        nodes: node_probes(doc, ray, eye),
        ground,
        node_spots: places
            .iter()
            .map(|p| Spot { position: vec3(*p), near: nearness(doc, *p) })
            .collect(),
        point_spans: doc.points.iter().map(|p| span(vec(*p))).collect(),
        node_spans: places.iter().map(|p| span(*p)).collect(),
    }
}

fn tool(tool: Tool) -> ToolState {
    ToolState { tool, pending: Vec::new() }
}

/// Clicks straight down on a place.
fn click_on(
    doc: &mut EditorDoc,
    state: &mut ToolState,
    sel: &mut SelectionSet,
    x: f64,
    z: f64,
) -> Option<String> {
    let eye = DVec3::new(x, 5.0, z);
    let ray = Ray { origin: eye, dir: DVec3::new(0.0, -1.0, 0.0) };
    let s = sight(doc, state, &ray, eye);
    handle_click(doc, state, sel, &s)
}

// Scenarios.

/// A diamond kite on a keel and a strut, held by three lines.
fn diamond() -> Scenario {
    let spar = |name: &str, start: Vec3, end: Vec3| SparDef {
        name: name.to_string(),
        start,
        end,
        num_segments: 4,
        radius: scalar(0.003),
        youngs_modulus: scalar(1.0e11),
        shear_modulus: scalar(4.5e9),
        density: scalar(1550.0),
    };
    let panel = |name: &str, p1: Vec3, p2: Vec3, p3: Vec3| PanelDef {
        name: name.to_string(),
        p1,
        p2,
        p3,
        warp_compliance: scalar(1e-6),
        weft_compliance: scalar(2e-6),
        shear_compliance: scalar(3e-6),
        bending_compliance: scalar(1e-3),
        subdivisions: 1,
        areal_density: scalar(0.05),
    };
    let junction = at(0.0, -1.0, 0.2);
    let line = |name: &str, from: Vec3| BridleLineDef {
        name: name.to_string(),
        from,
        to: junction,
        rest_length: scalar((vec(from) - vec(junction)).length()),
        compliance: scalar(1e-6),
        diameter: scalar(0.002),
        num_segments: 1,
        density: scalar(970.0),
    };
    let (nose, tail) = (at(0.0, 0.0, -0.75), at(0.0, 0.0, 0.75));
    let (left, right) = (at(-0.5, 0.0, 0.0), at(0.5, 0.0, 0.0));
    Scenario {
        name: "diamond".to_string(),
        gravity: at(0.0, -9.81, 0.0),
        duration: scalar(5.0),
        wind: Some(WindConfig { v_ref: scalar(8.0), ..WindConfig::default() }),
        kite: Some(KiteDefinition {
            name: "the kite".to_string(),
            spars: vec![spar("keel", tail, nose), spar("strut", left, right)],
            panels: vec![
                panel("front left", nose, left, at(0.0, 0.0, 0.0)),
                panel("back right", tail, right, at(0.0, 0.0, 0.0)),
            ],
            bridles: vec![line("nose", nose), line("left", left), line("right", right)],
            bridle_junction: junction,
            bridle_junction_pinned: true,
            pinned_points: Vec::new(),
            stiff_junctions: Vec::new(),
            lashings: Vec::new(),
        }),
        sim: None,
    }
}

#[test]
fn roundtrip_simple_kite() {
    let scenario = diamond();
    let doc = read(&scenario);
    let round = doc.to_scenario();

    assert_eq!(scenario.name, round.name);
    assert_eq!(scenario.gravity, round.gravity);
    assert_eq!(scenario.duration, round.duration);
    let wind = round.wind.expect("wind");
    assert_eq!(num(wind.v_ref), 8.0);
    assert_eq!(wind.seed, scenario.wind.as_ref().unwrap().seed);

    let before = scenario.kite.unwrap();
    let after = round.kite.unwrap();
    for (a, b) in before.spars.iter().zip(&after.spars) {
        assert_eq!((&a.name, a.start, a.end), (&b.name, b.start, b.end));
        assert_eq!((a.num_segments, a.radius, a.density), (b.num_segments, b.radius, b.density));
        assert_eq!((a.youngs_modulus, a.shear_modulus), (b.youngs_modulus, b.shear_modulus));
    }
    for (a, b) in before.panels.iter().zip(&after.panels) {
        assert_eq!((&a.name, a.p1, a.p2, a.p3), (&b.name, b.p1, b.p2, b.p3));
        assert_eq!(a.warp_compliance, b.warp_compliance);
        assert_eq!(a.weft_compliance, b.weft_compliance);
        assert_eq!(a.shear_compliance, b.shear_compliance);
        assert_eq!(a.bending_compliance, b.bending_compliance);
        assert_eq!((a.subdivisions, a.areal_density), (b.subdivisions, b.areal_density));
    }
    for (a, b) in before.bridles.iter().zip(&after.bridles) {
        assert_eq!((&a.name, a.from, a.to), (&b.name, b.from, b.to));
        assert_eq!((a.rest_length, a.compliance), (b.rest_length, b.compliance));
        assert_eq!((a.diameter, a.density, a.num_segments), (b.diameter, b.density, b.num_segments));
    }
    assert_eq!(after.spars.len(), 2);
    assert_eq!(after.panels.len(), 2);
    assert_eq!(after.bridles.len(), 3);
    assert_eq!(before.bridle_junction, after.bridle_junction);
    assert!(after.bridle_junction_pinned);
    assert_eq!(after.name, round.name, "kite name follows scenario name");
    assert!(round.sim.is_none(), "no sim overrides were set, expect no [sim] table");
}

#[test]
fn roundtrip_sim_overrides_and_pinned() {
    let mut doc = read(&diamond());
    doc.sim.substeps = Some(10);
    doc.sim.damping = Some(scalar(1.5));
    doc.pinned.insert(0);
    let doc2 = read(&doc.to_scenario());

    assert_eq!(doc2.sim.substeps, Some(10));
    assert_eq!(doc2.sim.damping, Some(scalar(1.5)));
    assert_eq!(doc2.pinned.len(), 1);
    let pinned_idx = *doc2.pinned.iter().next().unwrap();
    assert!((vec(doc2.points[pinned_idx]) - vec(doc.points[0])).length() < WELD_TOL);
}

#[test]
fn roundtrip_subdivisions_segments_and_stiff_joint() {
    let mut doc = EditorDoc::default();
    let p0 = weld_point(&mut doc, DVec3::new(0.0, 0.0, 0.0));
    let p1 = weld_point(&mut doc, DVec3::new(1.0, 0.0, 0.0));
    let p2 = weld_point(&mut doc, DVec3::new(0.0, 1.0, 0.0));
    let pi = doc.add_panel(p0, p1, p2);
    doc.panels[pi].subdivisions = 4;
    doc.panels[pi].areal_density = scalar(0.08);
    let bi = add_bridle(&mut doc, p0, p1);
    doc.bridles[bi].num_segments = 3;
    doc.bridles[bi].density = scalar(1200.0);
    doc.toggle_stiff_joint(p0);
    doc.stiff_joints[0].compliance = scalar(5.0e-8);

    let doc2 = read(&doc.to_scenario());
    assert_eq!(doc2.panels[pi].subdivisions, 4);
    assert_eq!(num(doc2.panels[pi].areal_density), 0.08);
    assert_eq!(doc2.bridles[bi].num_segments, 3);
    assert_eq!(num(doc2.bridles[bi].density), 1200.0);
    assert_eq!(doc2.stiff_joints.len(), 1);
    assert_eq!(num(doc2.stiff_joints[0].compliance), 5.0e-8);
    let stiff = doc2.stiff_joints[0].point;
    assert!((vec(doc2.points[stiff]) - vec(doc.points[p0])).length() < WELD_TOL);
}

#[test]
fn ends_that_coincide_become_one_point() {
    let doc = read(&diamond());
    // Nose, tail, both wing tips, the middle and the tow point.
    assert_eq!(doc.points.len(), 6);
    assert_eq!((doc.spars[0].a, doc.spars[0].b), (0, 1));
    assert_eq!((doc.spars[1].a, doc.spars[1].b), (2, 3));
    assert_eq!(doc.panels[0].a, doc.spars[0].b);
    assert_eq!(doc.panels[0].c, doc.panels[1].c);
    assert_eq!(doc.junction, Some(doc.bridles[0].b));
    assert!(doc.junction_pinned);
}

#[test]
fn a_scenario_keeps_lashings_and_a_document_without_elements_has_no_kite_parts() {
    let mut s = diamond();
    if let Some(k) = s.kite.as_mut() {
        k.lashings.push(LashingDef { point: at(0.0, 0.0, 0.0), compliance: scalar(1e-9) });
        k.stiff_junctions
            .push(StiffJunctionDef { point: at(0.0, 0.0, 0.0), compliance: scalar(2e-9) });
        k.pinned_points.push(at(3.0, 0.0, 0.0));
        k.pinned_points.push(at(-3.0, 0.0, 0.0));
    }
    let round = read(&s).to_scenario().kite.unwrap();
    assert_eq!(round.lashings.len(), 1);
    assert_eq!(round.lashings[0].point, at(0.0, 0.0, 0.0));
    assert_eq!(num(round.stiff_junctions[0].compliance), 2e-9);
    // Pinned points come out in order of their places.
    assert_eq!(round.pinned_points, vec![at(-3.0, 0.0, 0.0), at(3.0, 0.0, 0.0)]);

    let bare = EditorDoc::default().to_scenario();
    assert_eq!(bare.name, "untitled");
    assert_eq!(num(bare.duration), 5.0);
    assert_eq!(num(bare.gravity.y), -9.81);
    assert!(bare.sim.is_none());
}

#[test]
fn overrides_replace_only_what_they_set() {
    let none = SimOverrides::default();
    assert!(!none.is_set());
    let mut cfg = Config::standard(false);
    none.apply(&mut cfg);
    assert_eq!(cfg.substeps, 24);
    let some = SimOverrides { substeps: Some(7), ..SimOverrides::default() };
    assert!(some.is_set());
    some.apply(&mut cfg);
    assert_eq!(cfg.substeps, 7);
    assert_eq!(cfg.iterations_per_substep, 1);
    assert_eq!(num(cfg.damping), 2.0);
}

// The document.

#[test]
fn welding_finds_the_first_near_point() {
    let mut doc = EditorDoc::default();
    let a = weld_point(&mut doc, DVec3::ZERO);
    let b = weld_point(&mut doc, DVec3::X);
    assert_eq!((a, b), (0, 1));
    assert_eq!(weld_point(&mut doc, DVec3::new(1.0005, 0.0, 0.0)), 1);
    assert_eq!(weld_point(&mut doc, DVec3::new(1.002, 0.0, 0.0)), 2);
    assert_eq!(doc.points.len(), 3);
}

#[test]
fn new_elements_are_numbered_and_have_defaults() {
    let mut doc = EditorDoc::default();
    for k in 0..3 {
        weld_point(&mut doc, DVec3::new(k as f64, 0.0, 0.0));
    }
    assert_eq!(doc.add_spar(0, 1), 0);
    assert_eq!(doc.add_spar(1, 2), 1);
    assert_eq!(doc.add_panel(0, 1, 2), 0);
    assert_eq!(add_bridle(&mut doc, 0, 2), 0);
    assert_eq!(doc.spars[1].name, "spar_2");
    assert_eq!(doc.panels[0].name, "panel_1");
    assert_eq!(doc.bridles[0].name, "bridle_1");
    assert_eq!(num(doc.bridles[0].rest_length), 2.0);
    assert_eq!(doc.bridles[0].num_segments, 1);
    assert_eq!(num(doc.bridles[0].density), 970.0);
    assert_eq!(num(doc.panels[0].areal_density), 0.05);
}

#[test]
fn deleting_a_point_takes_its_elements_and_shifts_the_rest() {
    let mut doc = EditorDoc::default();
    for k in 0..4 {
        weld_point(&mut doc, DVec3::new(k as f64, 0.0, 0.0));
    }
    doc.add_spar(0, 1);
    doc.add_spar(2, 3);
    doc.add_panel(1, 2, 3);
    add_bridle(&mut doc, 0, 3);
    doc.junction = Some(3);
    doc.pinned.insert(0);
    doc.pinned.insert(2);
    doc.toggle_stiff_joint(2);
    doc.toggle_lashing(1);
    assert_eq!(doc.dependents_of_point(1), (1, 1, 0));
    assert_eq!(doc.dependents_of_point(3), (1, 1, 1));

    doc.delete_point(1);
    assert_eq!(doc.points.len(), 3);
    assert_eq!(doc.spars.len(), 1);
    assert_eq!((doc.spars[0].a, doc.spars[0].b), (1, 2));
    assert!(doc.panels.is_empty());
    assert_eq!((doc.bridles[0].a, doc.bridles[0].b), (0, 2));
    assert_eq!(doc.junction, Some(2));
    assert!(doc.pinned.contains(&0) && doc.pinned.contains(&1) && doc.pinned.len() == 2);
    assert_eq!(doc.stiff_joints[0].point, 1);
    assert!(doc.lashings.is_empty());

    doc.delete_point(2);
    assert_eq!(doc.junction, None);
    assert!(doc.bridles.is_empty());
}

#[test]
fn toggles_undo_themselves() {
    let mut doc = EditorDoc::default();
    weld_point(&mut doc, DVec3::ZERO);
    doc.toggle_pin(0);
    doc.toggle_stiff_joint(0);
    doc.toggle_lashing(0);
    assert!(doc.pinned.contains(&0));
    assert!(is_stiff(&doc.stiff_joints, 0) && is_lashed(&doc.lashings, 0));
    doc.toggle_pin(0);
    doc.toggle_stiff_joint(0);
    doc.toggle_lashing(0);
    assert!(doc.pinned.is_empty() && doc.stiff_joints.is_empty() && doc.lashings.is_empty());
}

#[test]
fn a_new_gust_follows_the_wind() {
    let mut doc = EditorDoc::default();
    doc.wind.v_ref = scalar(6.0);
    doc.add_gust(at(0.0, 0.0, 1.0), scalar(1.0));
    doc.add_gust(at(0.0, 0.0, 0.0), scalar(0.0));
    let [a, b] = &doc.wind.gusts[..] else { panic!("two gusts") };
    assert_eq!(a.direction, at(0.0, 0.0, 1.0));
    assert_eq!((num(a.length), num(a.amplitude)), (5.0, 2.0));
    assert_eq!(num(a.propagation_velocity), 6.0);
    assert_eq!(b.direction, at(1.0, 0.0, 0.0));
    doc.wind.v_ref = scalar(0.5);
    doc.add_gust(at(0.0, 0.0, 1.0), scalar(1.0));
    assert_eq!(num(doc.wind.gusts[2].propagation_velocity), 1.0);
}

// Tools.

#[test]
fn delete_selected_is_index_safe_across_types_and_cascade() {
    let mut doc = EditorDoc::default();
    let p0 = weld_point(&mut doc, DVec3::new(0.0, 0.0, 0.0));
    let p1 = weld_point(&mut doc, DVec3::new(1.0, 0.0, 0.0));
    let p2 = weld_point(&mut doc, DVec3::new(2.0, 0.0, 0.0));
    let p3 = weld_point(&mut doc, DVec3::new(3.0, 0.0, 0.0));
    let _spar_dependent = doc.add_spar(p0, p1);
    let spar_direct = doc.add_spar(p2, p3);

    let sels = [Selection::Point(p0), Selection::Spar(spar_direct)];
    delete_selected(&mut doc, &sels);
    assert_eq!(doc.points.len(), 3, "one point removed");
    assert_eq!(doc.spars.len(), 0, "both spars gone: one cascaded, one direct");
}

#[test]
fn bridle_click_snaps_to_nearest_interior_node() {
    let mut doc = EditorDoc::default();
    let a = weld_point(&mut doc, DVec3::new(0.0, 0.0, 0.0));
    let b = weld_point(&mut doc, DVec3::new(3.0, 0.0, 0.0));
    let bi = add_bridle(&mut doc, a, b);
    doc.bridles[bi].num_segments = 3;

    let ray = Ray { origin: DVec3::new(2.0, 0.0, 5.0), dir: DVec3::new(0.0, 0.0, -1.0) };
    let eye = DVec3::new(2.0, 0.0, 5.0);
    let probes = node_probes(&doc, &ray, eye);
    assert_eq!(
        pick_bridle_node(&doc, &probes),
        Some(LineNode { bridle: bi, node: 2, segments: 3 })
    );

    let mut state = tool(Tool::Bridle);
    let mut sel = SelectionSet::default();
    let seen = sight(&doc, &state, &ray, eye);
    let status = handle_click(&mut doc, &mut state, &mut sel, &seen);
    assert_eq!(status, Some("snapped to node 2/3 of bridle_1".to_string()));
    assert_eq!(state.pending.len(), 1);
    let snapped = state.pending[0];
    assert!((vec(doc.points[snapped]) - DVec3::new(2.0, 0.0, 0.0)).length() < 1e-9);

    let mut doc2 = EditorDoc::default();
    let a2 = weld_point(&mut doc2, DVec3::new(0.0, 0.0, 0.0));
    let b2 = weld_point(&mut doc2, DVec3::new(3.0, 0.0, 0.0));
    add_bridle(&mut doc2, a2, b2);
    let probes = node_probes(&doc2, &ray, eye);
    assert_eq!(pick_bridle_node(&doc2, &probes), None);
}

#[test]
fn points_are_picked_before_lines_and_lines_before_panels() {
    let none: Vec<Probe> = Vec::new();
    assert_eq!(pick_point(&vec![hit(3.0), hit(2.0), miss()]), Some(1));
    assert_eq!(pick_point(&vec![miss()]), None);
    // A probe behind the eye is no hit.
    let behind = Probe { t: scalar(-1.0), distance: scalar(0.0), radius: scalar(0.1) };
    assert_eq!(behind.hit_at(), None);
    assert_eq!(pick(&vec![hit(9.0)], &vec![hit(1.0)], &none, &vec![]), Selection::Point(0));
    let panels = vec![Some(scalar(0.5))];
    assert_eq!(pick(&none, &vec![hit(4.0)], &vec![hit(3.0)], &panels), Selection::Bridle(0));
    assert_eq!(pick(&none, &vec![miss()], &none, &panels), Selection::Panel(0));
    assert_eq!(pick(&none, &none, &none, &vec![None]), Selection::Nothing);
}

#[test]
fn the_nearest_handle_of_the_gizmo_is_taken() {
    assert_eq!(pick_gizmo(Some(hit(3.0)), Some(hit(2.0)), None), Some(GizmoAxis::Y));
    assert_eq!(pick_gizmo(Some(miss()), None, None), None);
    assert_eq!(GizmoAxis::Z.dir(), at(0.0, 0.0, 1.0));
    assert_eq!(ring_basis(GizmoAxis::Z), (at(1.0, 0.0, 0.0), at(0.0, 1.0, 0.0)));
}

#[test]
fn ring_angle_and_pick_agree_on_rotation_sense() {
    let ring_angle = |axis: GizmoAxis, p: DVec3| {
        let (u, v) = ring_basis(axis);
        p.dot(vec(v)).atan2(p.dot(vec(u)))
    };
    let a0 = ring_angle(GizmoAxis::Z, DVec3::X);
    let a90 = ring_angle(GizmoAxis::Z, DVec3::Y);
    assert!(a0.abs() < 1e-9, "a0 = {a0}");
    assert!((a90 - std::f64::consts::FRAC_PI_2).abs() < 1e-9, "a90 = {a90}");

    // A ray straight down onto the edge of a ring of radius one.
    let eye = DVec3::new(1.0, 0.0, 5.0);
    let on_ring = |axis: GizmoAxis| -> Option<Probe> {
        let n = vec(axis.dir());
        let slope = n.dot(DVec3::new(0.0, 0.0, -1.0));
        if slope.abs() < 1e-9 {
            return None;
        }
        let t = -eye.dot(n) / slope;
        let p = eye + DVec3::new(0.0, 0.0, -1.0) * t;
        Some(Probe {
            t: scalar(t),
            distance: scalar((p.length() - 1.0).abs()),
            radius: scalar(0.1),
        })
    };
    assert_eq!(
        pick_gizmo(on_ring(GizmoAxis::X), on_ring(GizmoAxis::Y), on_ring(GizmoAxis::Z)),
        Some(GizmoAxis::Z)
    );
}

#[test]
fn a_drag_moves_each_point_of_the_selection_once() {
    let mut doc = EditorDoc::default();
    for k in 0..5 {
        weld_point(&mut doc, DVec3::new(k as f64, 0.0, 0.0));
    }
    doc.add_spar(3, 1);
    doc.add_panel(1, 2, 4);
    let sels = [Selection::Spar(0), Selection::Panel(0), Selection::Point(4)];
    assert_eq!(gizmo_points(&doc, &sels), vec![1, 2, 3, 4]);
    assert_eq!(points_in_rect(&vec![true, false, true]), vec![0, 2]);
}

#[test]
fn the_point_tool_puts_points_on_the_ground() {
    let mut doc = EditorDoc::default();
    let mut state = tool(Tool::AddPoint);
    let mut sel = SelectionSet::default();
    assert_eq!(click_on(&mut doc, &mut state, &mut sel, 1.0, 2.0), None);
    assert_eq!(doc.points, vec![at(1.0, 0.0, 2.0)]);
    assert_eq!(sel.single(), Some(Selection::Point(0)));
    // Another click there welds.
    click_on(&mut doc, &mut state, &mut sel, 1.0, 2.0);
    assert_eq!(doc.points.len(), 1);
}

#[test]
fn drawing_tools_collect_points_and_then_draw() {
    let mut doc = EditorDoc::default();
    for x in 0..3 {
        weld_point(&mut doc, DVec3::new(x as f64, 0.0, 0.0));
    }
    let mut sel = SelectionSet::default();
    let mut state = tool(Tool::Spar);
    click_on(&mut doc, &mut state, &mut sel, 0.0, 0.0);
    assert_eq!(state.pending, vec![0]);
    click_on(&mut doc, &mut state, &mut sel, 9.0, 9.0);
    assert_eq!(state.pending, vec![0], "a miss changes nothing");
    click_on(&mut doc, &mut state, &mut sel, 0.0, 0.0);
    assert_eq!(state.pending, vec![0], "the same point twice is no spar");
    click_on(&mut doc, &mut state, &mut sel, 2.0, 0.0);
    assert!(state.pending.is_empty());
    assert_eq!((doc.spars[0].a, doc.spars[0].b), (0, 2));
    assert_eq!(sel.single(), Some(Selection::Spar(0)));

    state.set_tool(Tool::Panel);
    for x in 0..3 {
        click_on(&mut doc, &mut state, &mut sel, x as f64, 0.0);
    }
    assert_eq!((doc.panels[0].a, doc.panels[0].b, doc.panels[0].c), (0, 1, 2));

    state.set_tool(Tool::Bridle);
    click_on(&mut doc, &mut state, &mut sel, 0.0, 0.0);
    click_on(&mut doc, &mut state, &mut sel, 1.0, 0.0);
    assert_eq!(num(doc.bridles[0].rest_length), 1.0);
}

#[test]
fn point_tools_work_on_the_point_that_is_clicked() {
    let mut doc = EditorDoc::default();
    weld_point(&mut doc, DVec3::ZERO);
    let mut sel = SelectionSet::default();
    for t in [Tool::Junction, Tool::Pin, Tool::StiffJoint, Tool::Lashing] {
        let mut state = tool(t);
        assert_eq!(click_on(&mut doc, &mut state, &mut sel, 0.0, 0.0), None);
        assert_eq!(sel.single(), Some(Selection::Point(0)));
        click_on(&mut doc, &mut state, &mut sel, 5.0, 5.0);
    }
    assert_eq!(doc.junction, Some(0));
    assert!(doc.pinned.contains(&0));
    assert_eq!((doc.stiff_joints.len(), doc.lashings.len()), (1, 1));
}

// The editor.

fn app_with_points(n: usize) -> App {
    let mut app = App::new();
    for k in 0..n {
        weld_point(&mut app.doc, DVec3::new(k as f64, 0.0, 0.0));
    }
    app
}

fn no_keys() -> Keys {
    Keys {
        escape: false,
        q: false,
        p: false,
        s: false,
        f: false,
        b: false,
        j: false,
        n: false,
        k: false,
        l: false,
        delete: false,
    }
}

#[test]
fn a_dragged_point_follows_until_it_is_let_go() {
    let mut app = app_with_points(2);
    assert_eq!(app.phase(true), Phase::Press);
    app.press(None, Some(Selection::Point(1)), None, false, false);
    assert_eq!(app.sel.single(), Some(Selection::Point(1)));
    assert_eq!(app.dragging, Some(1));
    app.was_down = true;
    assert_eq!(app.phase(true), Phase::Hold);
    app.hold(None, Some(at(7.0, 0.0, 0.0)));
    assert_eq!(app.doc.points[1], at(7.0, 0.0, 0.0));
    assert_eq!(app.phase(false), Phase::Up);
    app.release(None, &vec![false, false], false, false);
    assert_eq!(app.dragging, None);
    app.hold(None, Some(at(9.0, 0.0, 0.0)));
    assert_eq!(app.doc.points[1], at(7.0, 0.0, 0.0));
}

#[test]
fn escape_undoes_a_gizmo_drag() {
    let mut app = app_with_points(3);
    app.sel.set(Selection::Point(0));
    app.sel.add(Selection::Point(2));
    let before = app.doc.points.clone();
    let kind = GizmoDragKind::Translate { start_on_axis: at(0.0, 0.0, 0.0) };
    app.press(Some(GizmoHit { axis: GizmoAxis::X, kind }), None, None, false, false);
    let moved = vec![at(0.5, 0.0, 0.0), at(2.5, 0.0, 0.0)];
    app.hold(Some(&moved), None);
    assert_eq!(app.doc.points[0], moved[0]);
    assert_eq!(app.doc.points[1], before[1]);
    assert_eq!(app.doc.points[2], moved[1]);
    app.handle_hotkeys(&Keys { escape: true, ..no_keys() });
    assert_eq!(app.doc.points, before);
    assert!(app.gizmo_drag.is_none());
}

#[test]
fn keys_choose_tools() {
    let mut app = app_with_points(1);
    app.handle_hotkeys(&Keys { s: true, ..no_keys() });
    assert_eq!(app.tool_state.tool, Tool::Spar);
    app.tool_state.pending.push(0);
    app.handle_hotkeys(&Keys { b: true, ..no_keys() });
    assert_eq!(app.tool_state.tool, Tool::Bridle);
    assert!(app.tool_state.pending.is_empty());
    app.handle_hotkeys(&Keys { q: true, ..no_keys() });
    assert_eq!(app.tool_state.tool, Tool::Select);
}

#[test]
fn a_box_selects_what_is_inside() {
    let mut app = app_with_points(3);
    let corner = ScreenPos { x: single(10.0), y: single(10.0) };
    app.press(None, Some(Selection::Nothing), Some(corner), false, false);
    assert!(app.box_select_start.is_some());
    app.release(Some(single(100.0)), &vec![true, false, true], false, false);
    assert!(app.sel.contains(Selection::Point(0)) && app.sel.contains(Selection::Point(2)));
    assert_eq!(app.sel.len(), 2);
    // With the command key a box takes out.
    app.press(None, Some(Selection::Nothing), Some(corner), true, false);
    app.release(Some(single(100.0)), &vec![true, false, false], true, false);
    assert_eq!(app.sel.single(), Some(Selection::Point(2)));
    // A diagonal that is no number is a click, and clears.
    app.press(None, Some(Selection::Nothing), Some(corner), false, false);
    app.release(Some(single(f32::NAN)), &vec![true, true, true], false, false);
    assert!(app.sel.is_empty());
}

#[test]
fn a_point_with_dependents_is_deleted_only_when_confirmed() {
    let mut app = app_with_points(2);
    app.doc.add_spar(0, 1);
    app.sel.set(Selection::Point(0));
    app.try_delete_selected();
    assert_eq!(app.pending_delete, Some(0));
    assert_eq!(app.doc.points.len(), 2);
    app.answer_delete(false);
    assert_eq!((app.pending_delete, app.doc.points.len()), (None, 2));
    app.try_delete_selected();
    app.answer_delete(true);
    assert_eq!((app.doc.points.len(), app.doc.spars.len()), (1, 0));
    assert!(app.sel.is_empty());
    // A point on its own goes at once.
    app.sel.set(Selection::Point(0));
    app.try_delete_selected();
    assert!(app.doc.points.is_empty());
}

#[test]
fn files_are_named_and_reported() {
    let mut app = App::new();
    assert!(!app.may_save("a/b"));
    assert_eq!(app.status, "Invalid scenario name");
    assert!(app.may_save("kite_2"));
    app.saved("kite_2");
    assert_eq!((app.status.as_str(), app.scenario_name.as_str()), ("Saved kite_2", "kite_2"));
    app.loaded("other", read(&diamond()));
    assert_eq!(app.status, "Loaded other");
    assert_eq!(app.doc.points.len(), 6);
    app.new_doc();
    assert_eq!(app.status, "New scenario");
    assert!(app.doc.points.is_empty());
    assert!(app.enter(Mode::Simulate));
    assert_eq!(app.mode, Mode::Simulate);
    assert!(!app.enter(Mode::Edit));
}

#[test]
fn clicks_report_what_they_snap_to() {
    let mut app = app_with_points(4);
    let b = add_bridle(&mut app.doc, 0, 3);
    app.doc.bridles[b].num_segments = 2;
    app.tool_state.set_tool(Tool::Bridle);
    let eye = DVec3::new(1.5, 5.0, 0.0);
    let ray = Ray { origin: eye, dir: DVec3::new(0.0, -1.0, 0.0) };
    let seen = sight(&app.doc, &app.tool_state, &ray, eye);
    app.click(&seen);
    assert_eq!(app.status, "snapped to node 1/2 of bridle_1");
}

#[test]
fn rows_of_the_tree_replace_or_toggle() {
    let mut sel = SelectionSet::new();
    pick_row(&mut sel, false, Selection::Spar(1));
    pick_row(&mut sel, true, Selection::Point(2));
    assert_eq!(sel.len(), 2);
    pick_row(&mut sel, true, Selection::Spar(1));
    assert_eq!(sel.single(), Some(Selection::Point(2)));
    pick_row(&mut sel, false, Selection::Panel(0));
    assert_eq!(sel.single(), Some(Selection::Panel(0)));
}

#[test]
fn the_inspector_shows_a_single_existing_element() {
    let mut doc = EditorDoc::default();
    weld_point(&mut doc, DVec3::ZERO);
    let mut sel = SelectionSet::new();
    assert_eq!(inspected(&doc, &sel), Selection::Nothing);
    sel.set(Selection::Point(0));
    assert_eq!(inspected(&doc, &sel), Selection::Point(0));
    sel.set(Selection::Point(5));
    assert_eq!(inspected(&doc, &sel), Selection::Nothing);
    set_junction(&mut doc, 0, true);
    set_pin(&mut doc, 0, true);
    assert_eq!(doc.junction, Some(0));
    assert!(doc.pinned.contains(&0));
    set_junction(&mut doc, 0, false);
    set_pin(&mut doc, 0, false);
    assert!(doc.junction.is_none() && doc.pinned.is_empty());
}

// Looks.

#[test]
fn segments_are_named_after_their_spar() {
    let mut doc = EditorDoc::default();
    for k in 0..3 {
        weld_point(&mut doc, DVec3::new(k as f64, 0.0, 0.0));
    }
    doc.add_spar(0, 1);
    doc.add_spar(1, 2);
    doc.spars[0].num_segments = 2;
    doc.spars[1].num_segments = 3;
    assert!(spar_label(&doc, 1).starts_with("spar_1"));
    assert!(spar_label(&doc, 2).starts_with("spar_2"));
    assert_ne!(spar_label(&doc, 2), spar_label(&doc, 3));
}

#[test]
fn the_nearest_thing_is_hovered() {
    let panels = vec![Some(scalar(2.0)), None];
    assert_eq!(hover_target(&vec![hit(3.0)], &vec![hit(1.0)], &panels), Some(Hover::Line(0)));
    assert_eq!(hover_target(&vec![miss()], &vec![], &panels), Some(Hover::Panel(0)));
    assert_eq!(hover_target(&vec![hit(1.5)], &vec![miss()], &panels), Some(Hover::Segment(0)));
    assert_eq!(hover_target(&vec![], &vec![], &vec![None]), None);
}

#[test]
fn points_look_like_what_they_are() {
    let mut doc = EditorDoc::default();
    for k in 0..6 {
        weld_point(&mut doc, DVec3::new(k as f64, 0.0, 0.0));
    }
    doc.toggle_pin(1);
    doc.junction = Some(2);
    doc.toggle_stiff_joint(3);
    doc.toggle_lashing(4);
    let mut state = tool(Tool::Spar);
    state.pending.push(5);
    let mut sel = SelectionSet::new();
    let looks: Vec<PointLook> = (0..6).map(|i| point_look(&doc, &state, &sel, i)).collect();
    assert_eq!(
        looks,
        vec![
            PointLook::Plain,
            PointLook::Pinned,
            PointLook::Junction,
            PointLook::StiffJoint,
            PointLook::Lashed,
            PointLook::Pending,
        ]
    );
    sel.set(Selection::Point(1));
    assert_eq!(point_look(&doc, &state, &sel, 1), PointLook::Selected);
}

/// Where a site is: the spars and panels here have a single segment each.
fn site_place(def: &KiteDefinition, site: &Site) -> Vec3 {
    match *site {
        Site::SparNode { spar, node: 0 } => def.spars[spar].start,
        Site::SparNode { spar, .. } => def.spars[spar].end,
        Site::PanelVert { panel, vert } => match (vert.i, vert.j) {
            (0, 0) => def.panels[panel].p1,
            (1, 0) => def.panels[panel].p2,
            _ => def.panels[panel].p3,
        },
        Site::BridleJunction => def.bridle_junction,
        Site::BridleFrom { line } => def.bridles[line].from,
        Site::BridleTo { line } => def.bridles[line].to,
        Site::BridleInner { line, node } => {
            let b = &def.bridles[line];
            let share = node as f64 / b.num_segments as f64;
            vec3(vec(b.from) + (vec(b.to) - vec(b.from)) * share)
        }
        Site::Pinned { point } => def.pinned_points[point],
        _ => panic!("no such site here"),
    }
}

#[test]
fn elements_that_share_a_point_share_a_particle() {
    let mut doc = EditorDoc::default();
    let p: Vec<usize> = [(0.0, 0.0), (1.0, 0.0), (0.0, 1.0), (3.0, 3.0)]
        .iter()
        .map(|(x, y)| weld_point(&mut doc, DVec3::new(*x, *y, 0.0)))
        .collect();
    let spar = doc.add_spar(p[0], p[1]);
    doc.spars[spar].num_segments = 1;
    doc.add_panel(p[1], p[2], p[0]);
    add_bridle(&mut doc, p[2], p[3]);
    doc.junction = Some(p[3]);
    doc.pinned.insert(p[1]);
    let def = doc.to_scenario().kite.unwrap();
    let sites = kite_sites(&def, 0);
    let places: Vec<Vec3> = sites.iter().map(|s| site_place(&def, s)).collect();
    let plan = lay_out(&near_table(&places), &def, 0);
    // Two spar nodes, the panel's third corner, the junction: four particles
    // for the document's four points.
    assert_eq!(plan.origins.len(), 4);
    for (i, a) in plan.requests.iter().enumerate() {
        for (j, b) in plan.requests.iter().enumerate() {
            let same = places[a.site] == places[b.site];
            assert_eq!(same, plan.nodes[i] == plan.nodes[j]);
        }
    }
    // The line ends at the junction, so it asks for its first end only.
    assert!(!plan.requests.iter().any(|r| sites[r.site] == Site::BridleTo { line: 0 }));
}

#[test]
fn a_line_welds_to_the_middle_of_one_listed_after_it() {
    let mut doc = EditorDoc::default();
    let a = weld_point(&mut doc, DVec3::new(0.0, 1.0, 0.0));
    let m = weld_point(&mut doc, DVec3::new(1.0, 0.0, 0.0));
    let l = weld_point(&mut doc, DVec3::new(0.0, 0.0, 0.0));
    let r = weld_point(&mut doc, DVec3::new(2.0, 0.0, 0.0));
    let j = weld_point(&mut doc, DVec3::new(9.0, 9.0, 0.0));
    doc.junction = Some(j);
    add_bridle(&mut doc, a, m);
    let long = add_bridle(&mut doc, l, r);
    doc.bridles[long].num_segments = 2;
    let def = doc.to_scenario().kite.unwrap();
    let sites = kite_sites(&def, 0);
    let places: Vec<Vec3> = sites.iter().map(|s| site_place(&def, s)).collect();
    let plan = lay_out(&near_table(&places), &def, 0);
    assert_eq!(plan.order, vec![1, 0]);
    let node = |site: Site| {
        let i = plan.requests.iter().position(|q| sites[q.site] == site).unwrap();
        plan.nodes[i]
    };
    assert_eq!(node(Site::BridleTo { line: 0 }), node(Site::BridleInner { line: 1, node: 1 }));
    // The junction, both ends and the middle of the long line, and the far end
    // of the short one.
    assert_eq!(plan.origins.len(), 5);
}

#[test]
fn deleting_an_element_leaves_its_points() {
    let mut doc = EditorDoc::default();
    let p: Vec<usize> = [(0.0, 0.0), (1.0, 0.0), (0.0, 1.0)]
        .iter()
        .map(|(x, y)| weld_point(&mut doc, DVec3::new(*x, *y, 0.0)))
        .collect();
    doc.add_spar(p[0], p[1]);
    doc.add_spar(p[1], p[2]);
    doc.add_panel(p[0], p[1], p[2]);
    add_bridle(&mut doc, p[2], p[0]);
    doc.delete_spar(0);
    assert_eq!(doc.spars.len(), 1);
    assert_eq!((doc.spars[0].a, doc.spars[0].b), (p[1], p[2]));
    doc.delete_panel(0);
    doc.delete_bridle(0);
    assert!(doc.panels.is_empty() && doc.bridles.is_empty());
    assert_eq!((doc.points.len(), doc.spars.len()), (3, 1));
}

#[test]
fn the_order_of_a_selection_does_not_matter_to_deletion() {
    let build = || {
        let mut doc = EditorDoc::default();
        for k in 0..5 {
            weld_point(&mut doc, DVec3::new(k as f64, 0.0, 0.0));
        }
        for (a, b) in [(0, 1), (1, 2), (2, 3), (3, 4), (0, 4)] {
            doc.add_spar(a, b);
        }
        add_bridle(&mut doc, 4, 2);
        doc.junction = Some(4);
        doc.pinned.insert(1);
        doc.pinned.insert(3);
        doc
    };
    let sels = [Selection::Point(1), Selection::Spar(4), Selection::Point(0)];
    let again = [sels[2], sels[0], sels[1], sels[0], sels[2]];
    for list in [&sels[..], &again[..]] {
        let mut doc = build();
        delete_selected(&mut doc, list);
        let xs: Vec<f64> = doc.points.iter().map(|p| num(p.x)).collect();
        assert_eq!(xs, vec![2.0, 3.0, 4.0]);
        let ends: Vec<_> = doc.spars.iter().map(|s| (s.a, s.b)).collect();
        assert_eq!(ends, vec![(0, 1), (1, 2)]);
        assert_eq!((doc.bridles[0].a, doc.bridles[0].b), (2, 0));
        assert_eq!(doc.junction, Some(2));
        assert_eq!(doc.pinned.iter().copied().collect::<Vec<_>>(), vec![1]);
    }
}

#[test]
fn pins_in_order_come_back_as_listed() {
    let mut s = diamond();
    let pins = vec![at(-1.0, 5.0, 0.0), at(-1.0, 6.0, -2.0), at(3.0, -9.0, 0.0)];
    s.kite.as_mut().unwrap().pinned_points = pins.clone();
    assert_eq!(read(&s).to_scenario().kite.unwrap().pinned_points, pins);
}

#[test]
fn a_pin_that_is_nowhere_can_be_written_alone() {
    let mut doc = EditorDoc::default();
    doc.points.push(at(f64::NAN, 0.0, 0.0));
    doc.pinned.insert(0);
    let pins = doc.to_scenario().kite.unwrap().pinned_points;
    assert_eq!(pins, doc.points);
    // Only the coordinates up to the first that differ are compared.
    doc.points = vec![at(1.0, f64::NAN, 0.0), at(0.0, 2.0, f64::NAN)];
    doc.pinned.insert(1);
    let pins = doc.to_scenario().kite.unwrap().pinned_points;
    assert_eq!(pins, vec![doc.points[1], doc.points[0]]);
}
