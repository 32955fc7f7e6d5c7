//! What a document and a scenario say of each other.
use crate::doc::{
    BridleItem, EditorDoc, LashingItem, PanelItem, Scenario, SimOverrides, SparItem, StiffJointItem,
};
use crate::doc_scenario::{
    junction_place, kite_reads, kite_writes, lashing_place, line_place, named_places, panel_place,
    pin_place, pin_point, place_count, place_requests, places_of_elements, point_of, points_of,
    scenario_reads, scenario_writes, stiff_place, welds_only_equals,
};
use crate::geometry::KiteDefinition;
use crate::pins::pin_order;
use crate::scalar::Vec3;
use crate::staleness::{
    bridle_words, lashing_words, panel_words, point_words, spar_words, stiff_words,
};
use crate::weld::{node_of, origins_after, request_gets_coinciding_node, NearTable};
use vstd::prelude::*;

verus! {

proof fn point_is_place(t: NearTable, def: KiteDefinition, k: int)
    requires
        t.covers(place_count(def)),
        welds_only_equals(t, def),
        0 <= k < place_count(def),
    ensures
        point_of(t, def, k) < points_of(t, def).len(),
        points_of(t, def)[point_of(t, def, k) as int] == named_places(def)[k],
{
    let n = place_count(def);
    let r = place_requests(n);
    assert(n == t.rows.len());
    request_gets_coinciding_node(t, r, k, n);
    let i = node_of(t, r, k) as int;
    let o = origins_after(t, r, n)[i] as int;
    assert(r[k].site == k);
    origins_within(t, n, n);
    assert(t.near(o, k) ==> named_places(def)[o] == named_places(def)[k]);
}

proof fn origins_within(t: NearTable, n: nat, m: nat)
    requires
        m <= n <= usize::MAX,
    ensures
        origins_after(t, place_requests(n), m).len() <= m,
        forall|i: int|
            0 <= i < origins_after(t, place_requests(n), m).len() ==> (#[trigger] origins_after(
                t,
                place_requests(n),
                m,
            )[i]) < m,
    decreases m,
{
    if m > 0 {
        origins_within(t, n, (m - 1) as nat);
    }
}

/// The document that is read from a kite has each of its elements, in order and
/// with its values, on points that are where the kite's element is, where only
/// equal places weld: the ends of a spar and of a line in their order, the
/// corners of a panel in theirs.
pub proof fn read_elements_are_where_they_were(
    doc: EditorDoc,
    def: KiteDefinition,
    t: NearTable,
    k: int,
)
    requires
        kite_reads(doc, def, t),
        t.covers(place_count(def)),
        welds_only_equals(t, def),
    ensures
        doc.spars@.len() == def.spars@.len(),
        0 <= k < def.spars@.len() ==> {
            let s = doc.spars@[k];
            let d = def.spars@[k];
            &&& doc.points@[s.a as int] == d.start
            &&& doc.points@[s.b as int] == d.end
            &&& s.name@ == d.name@
            &&& s.num_segments == d.num_segments
            &&& s.radius == d.radius
            &&& s.youngs_modulus == d.youngs_modulus
            &&& s.shear_modulus == d.shear_modulus
            &&& s.density == d.density
        },
        doc.panels@.len() == def.panels@.len(),
        0 <= k < def.panels@.len() ==> {
            let p = doc.panels@[k];
            let d = def.panels@[k];
            &&& doc.points@[p.a as int] == d.p1
            &&& doc.points@[p.b as int] == d.p2
            &&& doc.points@[p.c as int] == d.p3
            &&& p.name@ == d.name@
            &&& p.warp_compliance == d.warp_compliance
            &&& p.weft_compliance == d.weft_compliance
            &&& p.shear_compliance == d.shear_compliance
            &&& p.bending_compliance == d.bending_compliance
            &&& p.subdivisions == d.subdivisions
            &&& p.areal_density == d.areal_density
        },
        doc.bridles@.len() == def.bridles@.len(),
        0 <= k < def.bridles@.len() ==> {
            let b = doc.bridles@[k];
            let d = def.bridles@[k];
            &&& doc.points@[b.a as int] == d.from
            &&& doc.points@[b.b as int] == d.to
            &&& b.name@ == d.name@
            &&& b.rest_length == d.rest_length
            &&& b.compliance == d.compliance
            &&& b.diameter == d.diameter
            &&& b.num_segments == d.num_segments
            &&& b.density == d.density
        },
        doc.junction is Some,
        doc.points@[doc.junction->0 as int] == def.bridle_junction,
        doc.junction_pinned == def.bridle_junction_pinned,
        doc.stiff_joints@.len() == def.stiff_junctions@.len(),
        0 <= k < def.stiff_junctions@.len() ==> {
            &&& doc.points@[doc.stiff_joints@[k].point as int] == def.stiff_junctions@[k].point
            &&& doc.stiff_joints@[k].compliance == def.stiff_junctions@[k].compliance
        },
        doc.lashings@.len() == def.lashings@.len(),
        0 <= k < def.lashings@.len() ==> {
            &&& doc.points@[doc.lashings@[k].point as int] == def.lashings@[k].point
            &&& doc.lashings@[k].compliance == def.lashings@[k].compliance
        },
        0 <= k < def.pinned_points@.len() ==> exists|i: usize| #[trigger]
            doc.pinned@.contains(i) && doc.points@[i as int] == def.pinned_points@[k],
        forall|i: usize| #[trigger]
            doc.pinned@.contains(i) ==> def.pinned_points@.contains(doc.points@[i as int]),
{
    places_of_elements(def);
    point_is_place(t, def, junction_place(def) as int);
    if 0 <= k < def.spars@.len() {
        point_is_place(t, def, 2 * k);
        point_is_place(t, def, 2 * k + 1);
        assert(doc.spars@[k].a == point_of(t, def, 2 * k));
    }
    if 0 <= k < def.panels@.len() {
        point_is_place(t, def, panel_place(def) + 3 * k);
        point_is_place(t, def, panel_place(def) + 3 * k + 1);
        point_is_place(t, def, panel_place(def) + 3 * k + 2);
        assert(doc.panels@[k].a == point_of(t, def, panel_place(def) + 3 * k));
    }
    if 0 <= k < def.bridles@.len() {
        point_is_place(t, def, line_place(def) + 2 * k);
        point_is_place(t, def, line_place(def) + 2 * k + 1);
        assert(doc.bridles@[k].a == point_of(t, def, line_place(def) + 2 * k));
    }
    if 0 <= k < def.stiff_junctions@.len() {
        point_is_place(t, def, stiff_place(def) + k);
        assert(doc.stiff_joints@[k].point == point_of(t, def, stiff_place(def) + k));
    }
    if 0 <= k < def.lashings@.len() {
        point_is_place(t, def, lashing_place(def) + k);
        assert(doc.lashings@[k].point == point_of(t, def, lashing_place(def) + k));
    }
    if 0 <= k < def.pinned_points@.len() {
        point_is_place(t, def, pin_place(def) + k);
        assert(doc.pinned@.contains(pin_point(t, def, k)));
    }
    assert forall|i: usize| #[trigger] doc.pinned@.contains(i) implies def.pinned_points@.contains(
        doc.points@[i as int],
    ) by {
        let j = choose|j: int|
            0 <= j < def.pinned_points@.len() && #[trigger] pin_point(t, def, j) == i;
        point_is_place(t, def, pin_place(def) + j);
        assert(def.pinned_points@[j] == doc.points@[i as int]);
    }
}

/// The kite that is written from a document has each of its elements, in order
/// and with its values, where the document's points are.
pub proof fn written_elements_are_where_they_are(doc: EditorDoc, def: KiteDefinition, k: int)
    requires
        kite_writes(doc, def),
    ensures
        def.name@ == doc.name@,
        def.spars@.len() == doc.spars@.len(),
        0 <= k < doc.spars@.len() ==> {
            let s = doc.spars@[k];
            let d = def.spars@[k];
            &&& d.start == doc.points@[s.a as int]
            &&& d.end == doc.points@[s.b as int]
            &&& d.name@ == s.name@
            &&& d.num_segments == s.num_segments
            &&& d.radius == s.radius
            &&& d.youngs_modulus == s.youngs_modulus
            &&& d.shear_modulus == s.shear_modulus
            &&& d.density == s.density
        },
        def.panels@.len() == doc.panels@.len(),
        0 <= k < doc.panels@.len() ==> {
            let p = doc.panels@[k];
            let d = def.panels@[k];
            &&& d.p1 == doc.points@[p.a as int]
            &&& d.p2 == doc.points@[p.b as int]
            &&& d.p3 == doc.points@[p.c as int]
            &&& d.name@ == p.name@
            &&& d.warp_compliance == p.warp_compliance
            &&& d.weft_compliance == p.weft_compliance
            &&& d.shear_compliance == p.shear_compliance
            &&& d.bending_compliance == p.bending_compliance
            &&& d.subdivisions == p.subdivisions
            &&& d.areal_density == p.areal_density
        },
        def.bridles@.len() == doc.bridles@.len(),
        0 <= k < doc.bridles@.len() ==> {
            let b = doc.bridles@[k];
            let d = def.bridles@[k];
            &&& d.from == doc.points@[b.a as int]
            &&& d.to == doc.points@[b.b as int]
            &&& d.name@ == b.name@
            &&& d.rest_length == b.rest_length
            &&& d.compliance == b.compliance
            &&& d.diameter == b.diameter
            &&& d.num_segments == b.num_segments
            &&& d.density == b.density
        },
        doc.junction is Some ==> def.bridle_junction == doc.points@[doc.junction->0 as int],
        doc.junction is None ==> def.bridle_junction.x.bits == 0 && def.bridle_junction.y.bits == 0
            && def.bridle_junction.z.bits == 0,
        def.bridle_junction_pinned == doc.junction_pinned,
        def.stiff_junctions@.len() == doc.stiff_joints@.len(),
        0 <= k < doc.stiff_joints@.len() ==> {
            &&& def.stiff_junctions@[k].point == doc.points@[doc.stiff_joints@[k].point as int]
            &&& def.stiff_junctions@[k].compliance == doc.stiff_joints@[k].compliance
        },
        def.lashings@.len() == doc.lashings@.len(),
        0 <= k < doc.lashings@.len() ==> {
            &&& def.lashings@[k].point == doc.points@[doc.lashings@[k].point as int]
            &&& def.lashings@[k].compliance == doc.lashings@[k].compliance
        },
        forall|i: usize| #[trigger]
            doc.pinned@.contains(i) ==> def.pinned_points@.contains(doc.points@[i as int]),
        0 <= k < def.pinned_points@.len() ==> exists|i: usize| #[trigger]
            doc.pinned@.contains(i) && doc.points@[i as int] == def.pinned_points@[k],
{
    let order = choose|order: Seq<usize>| #[trigger]
        pin_order(doc.points@, doc.pinned@, order) && def.pinned_points@ == order.map_values(
            |i: usize| doc.points@[i as int],
        );
    assert forall|i: usize| #[trigger] doc.pinned@.contains(i) implies def.pinned_points@.contains(
        doc.points@[i as int],
    ) by {
        assert(order.contains(i));
        let j = choose|j: int| 0 <= j < order.len() && order[j] == i;
        assert(def.pinned_points@[j] == doc.points@[i as int]);
    }
    if 0 <= k < def.pinned_points@.len() {
        assert(order.contains(order[k]));
        assert(doc.pinned@.contains(order[k]));
    }
    if 0 <= k < doc.spars@.len() {
        assert(def.spars@[k].start == doc.points@[doc.spars@[k].a as int]);
    }
    if 0 <= k < doc.panels@.len() {
        assert(def.panels@[k].p1 == doc.points@[doc.panels@[k].a as int]);
    }
    if 0 <= k < doc.bridles@.len() {
        assert(def.bridles@[k].from == doc.points@[doc.bridles@[k].a as int]);
    }
}

/// Pinned points are written from the lowest x to the highest, those of one x by
/// y, those of one x and y by z, and those of one place in the document's order.
pub proof fn pins_are_written_by_place(
    points: Seq<Vec3>,
    set: Set<usize>,
    order: Seq<usize>,
    a: int,
    b: int,
)
    requires
        pin_order(points, set, order),
        0 <= a < b < order.len(),
    ensures
        ({
            let p = points[order[a] as int];
            let q = points[order[b] as int];
            &&& p.x.rank() <= q.x.rank()
            &&& p.x.rank() == q.x.rank() ==> p.y.rank() <= q.y.rank()
            &&& p.x.rank() == q.x.rank() && p.y.rank() == q.y.rank() ==> p.z.rank() <= q.z.rank()
            &&& p.x.rank() == q.x.rank() && p.y.rank() == q.y.rank() && p.z.rank() == q.z.rank()
                ==> order[a] < order[b]
        }),
{
}

/// A scenario's settings are the document's, and back. A scenario without wind
/// stands for still air, one without a kite for an empty document, and one without
/// overrides for none; a document without overrides writes none.
pub proof fn settings_are_read_and_written(doc: EditorDoc, s: Scenario, t: NearTable)
    ensures
        scenario_reads(doc, s, t) ==> {
            &&& doc.name@ == s.name@
            &&& doc.gravity == s.gravity
            &&& doc.duration == s.duration
            &&& s.sim is Some ==> doc.sim == s.sim->0
            &&& s.sim is None ==> doc.sim == SimOverrides::none()
            &&& s.wind is Some ==> {
                let w = s.wind->0;
                &&& doc.wind.v_ref == w.v_ref
                &&& doc.wind.h_ref == w.h_ref
                &&& doc.wind.shear_exponent == w.shear_exponent
                &&& doc.wind.direction == w.direction
                &&& doc.wind.turbulence_intensity == w.turbulence_intensity
                &&& doc.wind.length_scale == w.length_scale
                &&& doc.wind.octaves == w.octaves
                &&& doc.wind.gusts@ == w.gusts@
                &&& doc.wind.thermals@ == w.thermals@
                &&& doc.wind.seed == w.seed
            }
            &&& s.kite is None ==> {
                &&& doc.points@.len() == 0
                &&& doc.spars@.len() == 0
                &&& doc.panels@.len() == 0
                &&& doc.bridles@.len() == 0
                &&& doc.junction is None
                &&& !doc.junction_pinned
                &&& forall|i: usize| !#[trigger] doc.pinned@.contains(i)
                &&& doc.stiff_joints@.len() == 0
                &&& doc.lashings@.len() == 0
            }
            &&& s.wind is None ==> {
                &&& doc.wind.v_ref.bits == 0
                &&& doc.wind.h_ref.bits == 0x4024_0000_0000_0000
                &&& doc.wind.shear_exponent.bits == 0x3FC3_3333_3333_3333
                &&& doc.wind.direction.x.bits == 0x3FF0_0000_0000_0000
                &&& doc.wind.direction.y.bits == 0
                &&& doc.wind.direction.z.bits == 0
                &&& doc.wind.turbulence_intensity.bits == 0
                &&& doc.wind.length_scale.bits == 0x4034_0000_0000_0000
                &&& doc.wind.octaves == 3
                &&& doc.wind.gusts@.len() == 0
                &&& doc.wind.thermals@.len() == 0
                &&& doc.wind.seed == 42
            }
        },
        scenario_writes(doc, s) ==> {
            &&& s.name@ == doc.name@
            &&& s.gravity == doc.gravity
            &&& s.duration == doc.duration
            &&& s.kite is Some
            &&& s.wind is Some
            &&& s.wind->0.v_ref == doc.wind.v_ref
            &&& s.wind->0.h_ref == doc.wind.h_ref
            &&& s.wind->0.shear_exponent == doc.wind.shear_exponent
            &&& s.wind->0.direction == doc.wind.direction
            &&& s.wind->0.turbulence_intensity == doc.wind.turbulence_intensity
            &&& s.wind->0.length_scale == doc.wind.length_scale
            &&& s.wind->0.octaves == doc.wind.octaves
            &&& s.wind->0.gusts@ == doc.wind.gusts@
            &&& s.wind->0.thermals@ == doc.wind.thermals@
            &&& s.wind->0.seed == doc.wind.seed
            &&& s.sim is None <==> doc.sim == SimOverrides::none()
            &&& s.sim is Some ==> s.sim->0 == doc.sim
        },
{
}

/// A document without overrides sets nothing.
pub proof fn no_override_overrides_nothing()
    ensures
        SimOverrides::none().substeps is None,
        SimOverrides::none().iterations_per_substep is None,
        SimOverrides::none().damping is None,
        SimOverrides::none().bladder_pressure is None,
        SimOverrides::none().k_pressure is None,
        SimOverrides::none().ground_collision_enabled is None,
        SimOverrides::none().self_collision_enabled is None,
{
}

/// What the hash covers of a point tells two apart that differ.
pub proof fn points_are_hashed_whole(a: Vec3, b: Vec3)
    requires
        point_words(a) == point_words(b),
    ensures
        a == b,
{
    assert(point_words(a)[0] == point_words(b)[0]);
    assert(point_words(a)[1] == point_words(b)[1]);
    assert(point_words(a)[2] == point_words(b)[2]);
}

/// What the hash covers of a spar is all of it but its name.
pub proof fn spars_are_hashed_but_for_their_name(a: SparItem, b: SparItem)
    ensures
        spar_words(a) == spar_words(b) <==> {
            &&& a.a == b.a
            &&& a.b == b.b
            &&& a.num_segments == b.num_segments
            &&& a.radius == b.radius
            &&& a.youngs_modulus == b.youngs_modulus
            &&& a.shear_modulus == b.shear_modulus
            &&& a.density == b.density
        },
{
    if spar_words(a) == spar_words(b) {
        assert forall|k: int| 0 <= k < 7 implies spar_words(a)[k] == spar_words(b)[k] by {}
        assert(spar_words(a)[0] == spar_words(b)[0] && spar_words(a)[1] == spar_words(b)[1]);
        assert(spar_words(a)[2] == spar_words(b)[2] && spar_words(a)[3] == spar_words(b)[3]);
        assert(spar_words(a)[4] == spar_words(b)[4] && spar_words(a)[5] == spar_words(b)[5]);
        assert(spar_words(a)[6] == spar_words(b)[6]);
    }
}

/// What the hash covers of a panel is all of it but its name.
pub proof fn panels_are_hashed_but_for_their_name(a: PanelItem, b: PanelItem)
    ensures
        panel_words(a) == panel_words(b) <==> {
            &&& a.a == b.a
            &&& a.b == b.b
            &&& a.c == b.c
            &&& a.warp_compliance == b.warp_compliance
            &&& a.weft_compliance == b.weft_compliance
            &&& a.shear_compliance == b.shear_compliance
            &&& a.bending_compliance == b.bending_compliance
            &&& a.subdivisions == b.subdivisions
            &&& a.areal_density == b.areal_density
        },
{
    if panel_words(a) == panel_words(b) {
        assert(panel_words(a)[0] == panel_words(b)[0] && panel_words(a)[1] == panel_words(b)[1]);
        assert(panel_words(a)[2] == panel_words(b)[2] && panel_words(a)[3] == panel_words(b)[3]);
        assert(panel_words(a)[4] == panel_words(b)[4] && panel_words(a)[5] == panel_words(b)[5]);
        assert(panel_words(a)[6] == panel_words(b)[6] && panel_words(a)[7] == panel_words(b)[7]);
        assert(panel_words(a)[8] == panel_words(b)[8]);
    }
}

/// What the hash covers of a line is all of it but its name.
pub proof fn lines_are_hashed_but_for_their_name(a: BridleItem, b: BridleItem)
    ensures
        bridle_words(a) == bridle_words(b) <==> {
            &&& a.a == b.a
            &&& a.b == b.b
            &&& a.rest_length == b.rest_length
            &&& a.compliance == b.compliance
            &&& a.diameter == b.diameter
            &&& a.num_segments == b.num_segments
            &&& a.density == b.density
        },
{
    if bridle_words(a) == bridle_words(b) {
        assert(bridle_words(a)[0] == bridle_words(b)[0] && bridle_words(a)[1] == bridle_words(b)[1]);
        assert(bridle_words(a)[2] == bridle_words(b)[2] && bridle_words(a)[3] == bridle_words(b)[3]);
        assert(bridle_words(a)[4] == bridle_words(b)[4] && bridle_words(a)[5] == bridle_words(b)[5]);
        assert(bridle_words(a)[6] == bridle_words(b)[6]);
    }
}

/// What the hash covers of a stiff joint and of a lashing is all of it.
pub proof fn joints_and_lashings_are_hashed_whole(
    a: StiffJointItem,
    b: StiffJointItem,
    c: LashingItem,
    d: LashingItem,
)
    ensures
        stiff_words(a) == stiff_words(b) <==> a.point == b.point && a.compliance == b.compliance,
        lashing_words(c) == lashing_words(d) <==> c.point == d.point && c.compliance
            == d.compliance,
{
    if stiff_words(a) == stiff_words(b) {
        assert(stiff_words(a)[0] == stiff_words(b)[0] && stiff_words(a)[1] == stiff_words(b)[1]);
    }
    if lashing_words(c) == lashing_words(d) {
        assert(lashing_words(c)[0] == lashing_words(d)[0] && lashing_words(c)[1] == lashing_words(
            d,
        )[1]);
    }
}

} // verus!
