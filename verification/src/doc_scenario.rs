//! From a scenario to a document and back.
use crate::doc::{
    BridleItem, EditorDoc, LashingItem, PanelItem, Scenario, SimOverrides, SparItem,
    StiffJointItem,
};
use crate::geometry::{
    BridleLineDef, KiteDefinition, LashingDef, PanelDef, SparDef, StiffJunctionDef,
};
use crate::pins::{
    all_comparable, in_order, order_is_unique, order_pins, ordered_places_match, pin_before,
    pin_order, place_in, places_among, point_before, same_place,
};
use crate::scalar::Vec3;
use crate::weld::{
    node_of, origins_after, request_gets_coinciding_node, requests_within, weld, NearTable, Request,
    Welded,
};
use crate::wind::WindConfig;
use std::collections::HashSet;
use vstd::prelude::*;

verus! {

/// The ends of the first `m` spars.
pub open spec fn spar_ends(spars: Seq<SparDef>, m: nat) -> Seq<Vec3>
    decreases m,
{
    if m == 0 {
        Seq::empty()
    } else {
        spar_ends(spars, (m - 1) as nat).push(spars[m - 1].start).push(spars[m - 1].end)
    }
}

/// The corners of the first `m` panels.
pub open spec fn panel_corners(panels: Seq<PanelDef>, m: nat) -> Seq<Vec3>
    decreases m,
{
    if m == 0 {
        Seq::empty()
    } else {
        panel_corners(panels, (m - 1) as nat).push(panels[m - 1].p1).push(panels[m - 1].p2).push(
            panels[m - 1].p3,
        )
    }
}

/// The ends of the first `m` lines.
pub open spec fn line_ends(bridles: Seq<BridleLineDef>, m: nat) -> Seq<Vec3>
    decreases m,
{
    if m == 0 {
        Seq::empty()
    } else {
        line_ends(bridles, (m - 1) as nat).push(bridles[m - 1].from).push(bridles[m - 1].to)
    }
}

pub open spec fn stiff_points(items: Seq<StiffJunctionDef>) -> Seq<Vec3> {
    items.map_values(|s: StiffJunctionDef| s.point)
}

pub open spec fn lashing_points(items: Seq<LashingDef>) -> Seq<Vec3> {
    items.map_values(|s: LashingDef| s.point)
}

/// All places that a kite's definition names, in the order in which they are
/// welded into points.
pub open spec fn named_places(def: KiteDefinition) -> Seq<Vec3> {
    spar_ends(def.spars@, def.spars@.len()) + panel_corners(def.panels@, def.panels@.len())
        + seq![def.bridle_junction] + line_ends(def.bridles@, def.bridles@.len())
        + def.pinned_points@ + stiff_points(def.stiff_junctions@) + lashing_points(def.lashings@)
}

/// Where the places of the panels start.
pub open spec fn panel_place(def: KiteDefinition) -> nat {
    2 * def.spars@.len()
}

/// Where the bridle junction is.
pub open spec fn junction_place(def: KiteDefinition) -> nat {
    panel_place(def) + 3 * def.panels@.len()
}

/// Where the places of the lines start.
pub open spec fn line_place(def: KiteDefinition) -> nat {
    junction_place(def) + 1
}

/// Where the pinned points start.
pub open spec fn pin_place(def: KiteDefinition) -> nat {
    line_place(def) + 2 * def.bridles@.len()
}

/// Where the stiff junctions start.
pub open spec fn stiff_place(def: KiteDefinition) -> nat {
    pin_place(def) + def.pinned_points@.len()
}

/// Where the lashings start.
pub open spec fn lashing_place(def: KiteDefinition) -> nat {
    stiff_place(def) + def.stiff_junctions@.len()
}

/// How many places there are.
pub open spec fn place_count(def: KiteDefinition) -> nat {
    lashing_place(def) + def.lashings@.len()
}

proof fn spar_ends_at(spars: Seq<SparDef>, m: nat)
    requires
        m <= spars.len(),
    ensures
        spar_ends(spars, m).len() == 2 * m,
        forall|s: int|
            0 <= s < m ==> spar_ends(spars, m)[2 * s] == (#[trigger] spars[s]).start && spar_ends(
                spars,
                m,
            )[2 * s + 1] == spars[s].end,
    decreases m,
{
    if m > 0 {
        spar_ends_at(spars, (m - 1) as nat);
        let before = spar_ends(spars, (m - 1) as nat);
        let after = spar_ends(spars, m);
        assert forall|s: int| 0 <= s < m implies after[2 * s] == (#[trigger] spars[s]).start
            && after[2 * s + 1] == spars[s].end by {
            if s < m - 1 {
                assert(after[2 * s] == before[2 * s] && after[2 * s + 1] == before[2 * s + 1]);
            }
        }
    }
}

proof fn panel_corners_at(panels: Seq<PanelDef>, m: nat)
    requires
        m <= panels.len(),
    ensures
        panel_corners(panels, m).len() == 3 * m,
        forall|p: int|
            0 <= p < m ==> panel_corners(panels, m)[3 * p] == (#[trigger] panels[p]).p1
                && panel_corners(panels, m)[3 * p + 1] == panels[p].p2 && panel_corners(
                panels,
                m,
            )[3 * p + 2] == panels[p].p3,
    decreases m,
{
    if m > 0 {
        panel_corners_at(panels, (m - 1) as nat);
        let before = panel_corners(panels, (m - 1) as nat);
        let after = panel_corners(panels, m);
        assert forall|p: int| 0 <= p < m implies after[3 * p] == (#[trigger] panels[p]).p1
            && after[3 * p + 1] == panels[p].p2 && after[3 * p + 2] == panels[p].p3 by {
            if p < m - 1 {
                assert(after[3 * p] == before[3 * p] && after[3 * p + 1] == before[3 * p + 1]
                    && after[3 * p + 2] == before[3 * p + 2]);
            }
        }
    }
}

proof fn line_ends_at(bridles: Seq<BridleLineDef>, m: nat)
    requires
        m <= bridles.len(),
    ensures
        line_ends(bridles, m).len() == 2 * m,
        forall|b: int|
            0 <= b < m ==> line_ends(bridles, m)[2 * b] == (#[trigger] bridles[b]).from && line_ends(
                bridles,
                m,
            )[2 * b + 1] == bridles[b].to,
    decreases m,
{
    if m > 0 {
        line_ends_at(bridles, (m - 1) as nat);
        let before = line_ends(bridles, (m - 1) as nat);
        let after = line_ends(bridles, m);
        assert forall|b: int| 0 <= b < m implies after[2 * b] == (#[trigger] bridles[b]).from
            && after[2 * b + 1] == bridles[b].to by {
            if b < m - 1 {
                assert(after[2 * b] == before[2 * b] && after[2 * b + 1] == before[2 * b + 1]);
            }
        }
    }
}

/// Where each element's places are in the list.
pub proof fn places_of_elements(def: KiteDefinition)
    ensures
        named_places(def).len() == place_count(def),
        forall|s: int|
            0 <= s < def.spars@.len() ==> named_places(def)[2 * s] == (
            #[trigger] def.spars@[s]).start && named_places(def)[2 * s + 1] == def.spars@[s].end,
        forall|p: int|
            0 <= p < def.panels@.len() ==> named_places(def)[panel_place(def) + 3 * p] == (
            #[trigger] def.panels@[p]).p1 && named_places(def)[panel_place(def) + 3 * p + 1]
                == def.panels@[p].p2 && named_places(def)[panel_place(def) + 3 * p + 2]
                == def.panels@[p].p3,
        named_places(def)[junction_place(def) as int] == def.bridle_junction,
        forall|b: int|
            0 <= b < def.bridles@.len() ==> named_places(def)[line_place(def) + 2 * b] == (
            #[trigger] def.bridles@[b]).from && named_places(def)[line_place(def) + 2 * b + 1]
                == def.bridles@[b].to,
        forall|k: int|
            0 <= k < def.pinned_points@.len() ==> named_places(def)[pin_place(def) + k]
                == #[trigger] def.pinned_points@[k],
        forall|k: int|
            0 <= k < def.stiff_junctions@.len() ==> named_places(def)[stiff_place(def) + k] == (
            #[trigger] def.stiff_junctions@[k]).point,
        forall|k: int|
            0 <= k < def.lashings@.len() ==> named_places(def)[lashing_place(def) + k] == (
            #[trigger] def.lashings@[k]).point,
{
    let a = spar_ends(def.spars@, def.spars@.len());
    let b = panel_corners(def.panels@, def.panels@.len());
    let c = line_ends(def.bridles@, def.bridles@.len());
    spar_ends_at(def.spars@, def.spars@.len());
    panel_corners_at(def.panels@, def.panels@.len());
    line_ends_at(def.bridles@, def.bridles@.len());
    let all = named_places(def);
    assert forall|s: int| 0 <= s < def.spars@.len() implies all[2 * s] == (
    #[trigger] def.spars@[s]).start && all[2 * s + 1] == def.spars@[s].end by {
        assert(all[2 * s] == a[2 * s] && all[2 * s + 1] == a[2 * s + 1]);
    }
    assert forall|p: int| 0 <= p < def.panels@.len() implies all[panel_place(def) + 3 * p] == (
    #[trigger] def.panels@[p]).p1 && all[panel_place(def) + 3 * p + 1] == def.panels@[p].p2
        && all[panel_place(def) + 3 * p + 2] == def.panels@[p].p3 by {
        assert(all[panel_place(def) + 3 * p] == b[3 * p]);
        assert(all[panel_place(def) + 3 * p + 1] == b[3 * p + 1]);
        assert(all[panel_place(def) + 3 * p + 2] == b[3 * p + 2]);
    }
    assert forall|k: int| 0 <= k < def.bridles@.len() implies all[line_place(def) + 2 * k] == (
    #[trigger] def.bridles@[k]).from && all[line_place(def) + 2 * k + 1] == def.bridles@[k].to by {
        assert(all[line_place(def) + 2 * k] == c[2 * k]);
        assert(all[line_place(def) + 2 * k + 1] == c[2 * k + 1]);
    }
}

/// All places that a kite's definition names, in the order in which the near
/// table numbers them.
pub fn scenario_places(def: &KiteDefinition) -> (r: Vec<Vec3>)
    ensures
        r@ == named_places(*def),
        r@.len() == place_count(*def),
{
    let mut out: Vec<Vec3> = Vec::new();
    let mut k: usize = 0;
    while k < def.spars.len()
        invariant
            k <= def.spars@.len(),
            out@ == spar_ends(def.spars@, k as nat),
        decreases def.spars@.len() - k,
    {
        out.push(def.spars[k].start);
        out.push(def.spars[k].end);
        k += 1;
    }
    let ghost base = out@;
    let mut k: usize = 0;
    assert(base + panel_corners(def.panels@, 0) =~= base);
    while k < def.panels.len()
        invariant
            k <= def.panels@.len(),
            out@ == base + panel_corners(def.panels@, k as nat),
        decreases def.panels@.len() - k,
    {
        out.push(def.panels[k].p1);
        out.push(def.panels[k].p2);
        out.push(def.panels[k].p3);
        k += 1;
        assert(out@ =~= base + panel_corners(def.panels@, k as nat));
    }
    out.push(def.bridle_junction);
    let ghost base = out@;
    let mut k: usize = 0;
    assert(base + line_ends(def.bridles@, 0) =~= base);
    while k < def.bridles.len()
        invariant
            k <= def.bridles@.len(),
            out@ == base + line_ends(def.bridles@, k as nat),
        decreases def.bridles@.len() - k,
    {
        out.push(def.bridles[k].from);
        out.push(def.bridles[k].to);
        k += 1;
        assert(out@ =~= base + line_ends(def.bridles@, k as nat));
    }
    let ghost base = out@;
    let mut k: usize = 0;
    assert(base + def.pinned_points@.take(0) =~= base);
    while k < def.pinned_points.len()
        invariant
            k <= def.pinned_points@.len(),
            out@ == base + def.pinned_points@.take(k as int),
        decreases def.pinned_points@.len() - k,
    {
        out.push(def.pinned_points[k]);
        k += 1;
        assert(out@ =~= base + def.pinned_points@.take(k as int));
    }
    assert(def.pinned_points@.take(k as int) =~= def.pinned_points@);
    let ghost base = out@;
    let mut k: usize = 0;
    let ghost all = stiff_points(def.stiff_junctions@);
    assert(base + all.take(0) =~= base);
    while k < def.stiff_junctions.len()
        invariant
            k <= def.stiff_junctions@.len(),
            all == stiff_points(def.stiff_junctions@),
            out@ == base + all.take(k as int),
        decreases def.stiff_junctions@.len() - k,
    {
        out.push(def.stiff_junctions[k].point);
        k += 1;
        assert(out@ =~= base + all.take(k as int));
    }
    assert(all.take(k as int) =~= all);
    let ghost base = out@;
    let mut k: usize = 0;
    let ghost all = lashing_points(def.lashings@);
    assert(base + all.take(0) =~= base);
    while k < def.lashings.len()
        invariant
            k <= def.lashings@.len(),
            all == lashing_points(def.lashings@),
            out@ == base + all.take(k as int),
        decreases def.lashings@.len() - k,
    {
        out.push(def.lashings[k].point);
        k += 1;
        assert(out@ =~= base + all.take(k as int));
    }
    assert(all.take(k as int) =~= all);
    proof {
        places_of_elements(*def);
    }
    out
}

/// The places `0` to `n`, one after the other.
pub open spec fn place_requests(n: nat) -> Seq<Request> {
    Seq::new(n, |i: int| Request { site: i as usize, fresh: false })
}

/// The point that a place is welded into.
pub open spec fn point_of(t: NearTable, def: KiteDefinition, k: int) -> usize {
    node_of(t, place_requests(place_count(def)), k) as usize
}

/// The point that a pinned point is welded into.
pub open spec fn pin_point(t: NearTable, def: KiteDefinition, k: int) -> usize {
    point_of(t, def, pin_place(def) + k)
}

/// The points that a kite's places are welded into.
pub open spec fn points_of(t: NearTable, def: KiteDefinition) -> Seq<Vec3> {
    origins_after(t, place_requests(place_count(def)), place_count(def)).map_values(
        |o: usize| named_places(def)[o as int],
    )
}

/// The spar between points `a` and `b` that is otherwise as `def` says.
pub open spec fn spar_reads(item: SparItem, def: SparDef, a: usize, b: usize) -> bool {
    &&& item.name@ == def.name@
    &&& item.a == a
    &&& item.b == b
    &&& item.num_segments == def.num_segments
    &&& item.radius == def.radius
    &&& item.youngs_modulus == def.youngs_modulus
    &&& item.shear_modulus == def.shear_modulus
    &&& item.density == def.density
}

/// The panel with corners `a`, `b` and `c` that is otherwise as `def` says.
pub open spec fn panel_reads(
    item: PanelItem,
    def: PanelDef,
    a: usize,
    b: usize,
    c: usize,
) -> bool {
    &&& item.name@ == def.name@
    &&& item.a == a
    &&& item.b == b
    &&& item.c == c
    &&& item.warp_compliance == def.warp_compliance
    &&& item.weft_compliance == def.weft_compliance
    &&& item.shear_compliance == def.shear_compliance
    &&& item.bending_compliance == def.bending_compliance
    &&& item.subdivisions == def.subdivisions
    &&& item.areal_density == def.areal_density
}

/// The line between points `a` and `b` that is otherwise as `def` says.
pub open spec fn bridle_reads(item: BridleItem, def: BridleLineDef, a: usize, b: usize) -> bool {
    &&& item.name@ == def.name@
    &&& item.a == a
    &&& item.b == b
    &&& item.rest_length == def.rest_length
    &&& item.compliance == def.compliance
    &&& item.diameter == def.diameter
    &&& item.num_segments == def.num_segments
    &&& item.density == def.density
}

/// The document's points and elements are those of `def`, with coinciding
/// places welded into one point.
pub open spec fn kite_reads(doc: EditorDoc, def: KiteDefinition, t: NearTable) -> bool {
    &&& doc.points@ == points_of(t, def)
    &&& doc.spars@.len() == def.spars@.len()
    &&& forall|s: int|
        0 <= s < def.spars@.len() ==> spar_reads(
            #[trigger] doc.spars@[s],
            def.spars@[s],
            point_of(t, def, 2 * s),
            point_of(t, def, 2 * s + 1),
        )
    &&& doc.panels@.len() == def.panels@.len()
    &&& forall|p: int|
        0 <= p < def.panels@.len() ==> panel_reads(
            #[trigger] doc.panels@[p],
            def.panels@[p],
            point_of(t, def, panel_place(def) + 3 * p),
            point_of(t, def, panel_place(def) + 3 * p + 1),
            point_of(t, def, panel_place(def) + 3 * p + 2),
        )
    &&& doc.junction == Some(point_of(t, def, junction_place(def) as int))
    &&& doc.junction_pinned == def.bridle_junction_pinned
    &&& doc.bridles@.len() == def.bridles@.len()
    &&& forall|b: int|
        0 <= b < def.bridles@.len() ==> bridle_reads(
            #[trigger] doc.bridles@[b],
            def.bridles@[b],
            point_of(t, def, line_place(def) + 2 * b),
            point_of(t, def, line_place(def) + 2 * b + 1),
        )
    &&& forall|i: usize| #[trigger]
        doc.pinned@.contains(i) <==> exists|k: int|
            0 <= k < def.pinned_points@.len() && #[trigger] pin_point(t, def, k) == i
    &&& doc.stiff_joints@.len() == def.stiff_junctions@.len()
    &&& forall|k: int|
        0 <= k < def.stiff_junctions@.len() ==> #[trigger] doc.stiff_joints@[k] == (StiffJointItem {
            point: point_of(t, def, stiff_place(def) + k),
            compliance: def.stiff_junctions@[k].compliance,
        })
    &&& doc.lashings@.len() == def.lashings@.len()
    &&& forall|k: int|
        0 <= k < def.lashings@.len() ==> #[trigger] doc.lashings@[k] == (LashingItem {
            point: point_of(t, def, lashing_place(def) + k),
            compliance: def.lashings@[k].compliance,
        })
}

/// The document is what a scenario reads as.
pub open spec fn scenario_reads(doc: EditorDoc, s: Scenario, t: NearTable) -> bool {
    &&& doc.name@ == s.name@
    &&& doc.gravity == s.gravity
    &&& doc.duration == s.duration
    &&& match s.wind {
        Some(w) => doc.wind.same(w),
        None => doc.wind.is_default(),
    }
    &&& doc.sim == s.sim.unwrap_or(SimOverrides::none())
    &&& match s.kite {
        Some(def) => kite_reads(doc, def, t),
        None => doc.bare(),
    }
}

/// The requests of all places.
fn request_places(n: usize) -> (r: Vec<Request>)
    ensures
        r@ == place_requests(n as nat),
        requests_within(r@, n as nat),
{
    let mut out: Vec<Request> = Vec::new();
    let mut i: usize = 0;
    while i < n
        invariant
            i <= n,
            out@ == place_requests(i as nat),
            requests_within(out@, n as nat),
        decreases n - i,
    {
        out.push(Request { site: i, fresh: false });
        i += 1;
        assert(out@ =~= place_requests(i as nat));
    }
    out
}

/// The nodes of all places are those of the definition.
spec fn nodes_match(t: NearTable, def: KiteDefinition, nodes: Seq<usize>) -> bool {
    &&& nodes.len() == place_count(def)
    &&& forall|k: int| 0 <= k < nodes.len() ==> #[trigger] nodes[k] == point_of(t, def, k)
}

fn read_spars(t: &NearTable, def: &KiteDefinition, nodes: &Vec<usize>) -> (r: Vec<SparItem>)
    requires
        nodes_match(*t, *def, nodes@),
    ensures
        r@.len() == def.spars@.len(),
        forall|s: int|
            0 <= s < def.spars@.len() ==> spar_reads(
                #[trigger] r@[s],
                def.spars@[s],
                point_of(*t, *def, 2 * s),
                point_of(*t, *def, 2 * s + 1),
            ),
{
    let count: usize = nodes.len();
    let mut out: Vec<SparItem> = Vec::new();
    let mut s: usize = 0;
    while s < def.spars.len()
        invariant
            nodes_match(*t, *def, nodes@),
            count == nodes@.len(),
            s <= def.spars@.len(),
            out@.len() == s,
            forall|i: int|
                0 <= i < s ==> spar_reads(
                    #[trigger] out@[i],
                    def.spars@[i],
                    point_of(*t, *def, 2 * i),
                    point_of(*t, *def, 2 * i + 1),
                ),
        decreases def.spars@.len() - s,
    {
        let sp: &SparDef = &def.spars[s];
        out.push(
            SparItem {
                name: sp.name.clone(),
                a: nodes[2 * s],
                b: nodes[2 * s + 1],
                num_segments: sp.num_segments,
                radius: sp.radius,
                youngs_modulus: sp.youngs_modulus,
                shear_modulus: sp.shear_modulus,
                density: sp.density,
            },
        );
        s += 1;
    }
    out
}

fn read_panels(t: &NearTable, def: &KiteDefinition, nodes: &Vec<usize>) -> (r: Vec<PanelItem>)
    requires
        nodes_match(*t, *def, nodes@),
    ensures
        r@.len() == def.panels@.len(),
        forall|p: int|
            0 <= p < def.panels@.len() ==> panel_reads(
                #[trigger] r@[p],
                def.panels@[p],
                point_of(*t, *def, panel_place(*def) + 3 * p),
                point_of(*t, *def, panel_place(*def) + 3 * p + 1),
                point_of(*t, *def, panel_place(*def) + 3 * p + 2),
            ),
{
    let count: usize = nodes.len();
    let base: usize = 2 * def.spars.len();
    let mut out: Vec<PanelItem> = Vec::new();
    let mut p: usize = 0;
    while p < def.panels.len()
        invariant
            nodes_match(*t, *def, nodes@),
            count == nodes@.len(),
            base == panel_place(*def),
            p <= def.panels@.len(),
            out@.len() == p,
            forall|i: int|
                0 <= i < p ==> panel_reads(
                    #[trigger] out@[i],
                    def.panels@[i],
                    point_of(*t, *def, panel_place(*def) + 3 * i),
                    point_of(*t, *def, panel_place(*def) + 3 * i + 1),
                    point_of(*t, *def, panel_place(*def) + 3 * i + 2),
                ),
        decreases def.panels@.len() - p,
    {
        let pn: &PanelDef = &def.panels[p];
        out.push(
            PanelItem {
                name: pn.name.clone(),
                a: nodes[base + 3 * p],
                b: nodes[base + 3 * p + 1],
                c: nodes[base + 3 * p + 2],
                warp_compliance: pn.warp_compliance,
                weft_compliance: pn.weft_compliance,
                shear_compliance: pn.shear_compliance,
                bending_compliance: pn.bending_compliance,
                subdivisions: pn.subdivisions,
                areal_density: pn.areal_density,
            },
        );
        p += 1;
    }
    out
}

fn read_bridles(
    t: &NearTable,
    def: &KiteDefinition,
    nodes: &Vec<usize>,
    base: usize,
) -> (r: Vec<BridleItem>)
    requires
        nodes_match(*t, *def, nodes@),
        base == line_place(*def),
    ensures
        r@.len() == def.bridles@.len(),
        forall|b: int|
            0 <= b < def.bridles@.len() ==> bridle_reads(
                #[trigger] r@[b],
                def.bridles@[b],
                point_of(*t, *def, line_place(*def) + 2 * b),
                point_of(*t, *def, line_place(*def) + 2 * b + 1),
            ),
{
    let count: usize = nodes.len();
    let mut out: Vec<BridleItem> = Vec::new();
    let mut b: usize = 0;
    while b < def.bridles.len()
        invariant
            nodes_match(*t, *def, nodes@),
            count == nodes@.len(),
            base == line_place(*def),
            b <= def.bridles@.len(),
            out@.len() == b,
            forall|i: int|
                0 <= i < b ==> bridle_reads(
                    #[trigger] out@[i],
                    def.bridles@[i],
                    point_of(*t, *def, line_place(*def) + 2 * i),
                    point_of(*t, *def, line_place(*def) + 2 * i + 1),
                ),
        decreases def.bridles@.len() - b,
    {
        let br: &BridleLineDef = &def.bridles[b];
        out.push(
            BridleItem {
                name: br.name.clone(),
                a: nodes[base + 2 * b],
                b: nodes[base + 2 * b + 1],
                rest_length: br.rest_length,
                compliance: br.compliance,
                diameter: br.diameter,
                num_segments: br.num_segments,
                density: br.density,
            },
        );
        b += 1;
    }
    out
}

fn read_pins(
    t: &NearTable,
    def: &KiteDefinition,
    nodes: &Vec<usize>,
    base: usize,
) -> (r: HashSet<usize>)
    requires
        nodes_match(*t, *def, nodes@),
        base == pin_place(*def),
    ensures
        forall|i: usize| #[trigger]
            r@.contains(i) <==> exists|k: int|
                0 <= k < def.pinned_points@.len() && #[trigger] pin_point(*t, *def, k) == i,
{
    broadcast use vstd::std_specs::hash::group_hash_axioms;

    let count: usize = nodes.len();
    let mut out: HashSet<usize> = HashSet::new();
    let mut k: usize = 0;
    while k < def.pinned_points.len()
        invariant
            nodes_match(*t, *def, nodes@),
            count == nodes@.len(),
            base == pin_place(*def),
            k <= def.pinned_points@.len(),
            forall|i: usize| #[trigger]
                out@.contains(i) <==> exists|j: int|
                    0 <= j < k && #[trigger] pin_point(*t, *def, j) == i,
        decreases def.pinned_points@.len() - k,
    {
        let ghost before = out@;
        let node: usize = nodes[base + k];
        out.insert(node);
        proof {
            assert(node == pin_point(*t, *def, k as int));
            assert forall|i: usize| #[trigger]
                out@.contains(i) <==> exists|j: int|
                    0 <= j < k + 1 && #[trigger] pin_point(*t, *def, j) == i by {
                if before.contains(i) {
                    let j = choose|j: int| 0 <= j < k && #[trigger] pin_point(*t, *def, j) == i;
                    assert(pin_point(*t, *def, j) == i);
                }
            }
        }
        k += 1;
    }
    out
}

fn read_stiff(
    t: &NearTable,
    def: &KiteDefinition,
    nodes: &Vec<usize>,
    base: usize,
) -> (r: Vec<StiffJointItem>)
    requires
        nodes_match(*t, *def, nodes@),
        base == stiff_place(*def),
    ensures
        r@.len() == def.stiff_junctions@.len(),
        forall|k: int|
            0 <= k < def.stiff_junctions@.len() ==> #[trigger] r@[k] == (StiffJointItem {
                point: point_of(*t, *def, stiff_place(*def) + k),
                compliance: def.stiff_junctions@[k].compliance,
            }),
{
    let count: usize = nodes.len();
    let mut out: Vec<StiffJointItem> = Vec::new();
    let mut k: usize = 0;
    while k < def.stiff_junctions.len()
        invariant
            nodes_match(*t, *def, nodes@),
            count == nodes@.len(),
            base == stiff_place(*def),
            k <= def.stiff_junctions@.len(),
            out@.len() == k,
            forall|i: int|
                0 <= i < k ==> #[trigger] out@[i] == (StiffJointItem {
                    point: point_of(*t, *def, stiff_place(*def) + i),
                    compliance: def.stiff_junctions@[i].compliance,
                }),
        decreases def.stiff_junctions@.len() - k,
    {
        out.push(
            StiffJointItem {
                point: nodes[base + k],
                compliance: def.stiff_junctions[k].compliance,
            },
        );
        k += 1;
    }
    out
}

fn read_lashings(
    t: &NearTable,
    def: &KiteDefinition,
    nodes: &Vec<usize>,
    base: usize,
) -> (r: Vec<LashingItem>)
    requires
        nodes_match(*t, *def, nodes@),
        base == lashing_place(*def),
    ensures
        r@.len() == def.lashings@.len(),
        forall|k: int|
            0 <= k < def.lashings@.len() ==> #[trigger] r@[k] == (LashingItem {
                point: point_of(*t, *def, lashing_place(*def) + k),
                compliance: def.lashings@[k].compliance,
            }),
{
    let count: usize = nodes.len();
    let mut out: Vec<LashingItem> = Vec::new();
    let mut k: usize = 0;
    while k < def.lashings.len()
        invariant
            nodes_match(*t, *def, nodes@),
            count == nodes@.len(),
            base == lashing_place(*def),
            k <= def.lashings@.len(),
            out@.len() == k,
            forall|i: int|
                0 <= i < k ==> #[trigger] out@[i] == (LashingItem {
                    point: point_of(*t, *def, lashing_place(*def) + i),
                    compliance: def.lashings@[i].compliance,
                }),
        decreases def.lashings@.len() - k,
    {
        out.push(
            LashingItem { point: nodes[base + k], compliance: def.lashings[k].compliance },
        );
        k += 1;
    }
    out
}

/// The points at the sites of the nodes.
fn read_points(places: &Vec<Vec3>, origins: &Vec<usize>) -> (r: Vec<Vec3>)
    requires
        forall|j: int| 0 <= j < origins@.len() ==> (#[trigger] origins@[j]) < places@.len(),
    ensures
        r@ == origins@.map_values(|o: usize| places@[o as int]),
{
    let mut out: Vec<Vec3> = Vec::new();
    let mut k: usize = 0;
    while k < origins.len()
        invariant
            forall|j: int| 0 <= j < origins@.len() ==> (#[trigger] origins@[j]) < places@.len(),
            k <= origins@.len(),
            out@.len() == k,
            forall|i: int| 0 <= i < k ==> #[trigger] out@[i] == places@[origins@[i] as int],
        decreases origins@.len() - k,
    {
        out.push(places[origins[k]]);
        k += 1;
    }
    assert(out@ =~= origins@.map_values(|o: usize| places@[o as int]));
    out
}

impl EditorDoc {
    /// Reads a scenario into a document. `t` tells which of the places that the
    /// scenario's kite names coincide.
    pub fn from_scenario(s: &Scenario, t: &NearTable) -> (r: Self)
        requires
            s.kite matches Some(def) ==> t.covers(place_count(def)),
        ensures
            scenario_reads(r, *s, *t),
            r.wf(),
    {
        let wind: WindConfig = match &s.wind {
            Some(w) => w.clone(),
            None => WindConfig::default(),
        };
        let sim: SimOverrides = match s.sim {
            Some(v) => v,
            None => SimOverrides::default(),
        };
        let mut doc: EditorDoc = EditorDoc::default();
        doc.name = s.name.clone();
        doc.gravity = s.gravity;
        doc.duration = s.duration;
        doc.wind = wind;
        doc.sim = sim;
        match &s.kite {
            Some(def) => {
                let places: Vec<Vec3> = scenario_places(def);
                let n: usize = places.len();
                let requests: Vec<Request> = request_places(n);
                let welded: Welded = weld(t, &requests);
                assert(nodes_match(*t, *def, welded.nodes@));
                let base: usize = 2 * def.spars.len() + 3 * def.panels.len() + 1;
                let pin_base: usize = base + 2 * def.bridles.len();
                let stiff_base: usize = pin_base + def.pinned_points.len();
                let lashing_base: usize = stiff_base + def.stiff_junctions.len();
                doc.points = read_points(&places, &welded.origins);
                doc.spars = read_spars(t, def, &welded.nodes);
                doc.panels = read_panels(t, def, &welded.nodes);
                doc.junction = Some(welded.nodes[base - 1]);
                doc.junction_pinned = def.bridle_junction_pinned;
                doc.bridles = read_bridles(t, def, &welded.nodes, base);
                doc.pinned = read_pins(t, def, &welded.nodes, pin_base);
                doc.stiff_joints = read_stiff(t, def, &welded.nodes, stiff_base);
                doc.lashings = read_lashings(t, def, &welded.nodes, lashing_base);
                proof {
                    reading_names_points(doc, *def, *t);
                }
            },
            None => {},
        }
        doc
    }
}

/// Every point that a document names after reading a kite exists.
proof fn reading_names_points(doc: EditorDoc, def: KiteDefinition, t: NearTable)
    requires
        kite_reads(doc, def, t),
        place_count(def) <= usize::MAX,
    ensures
        doc.wf(),
{
    let n = doc.points@.len();
    assert forall|k: int| 0 <= k < place_count(def) implies (#[trigger] point_of(t, def, k)) < n by {
        request_gets_coinciding_node(t, place_requests(place_count(def)), k, place_count(def));
        origins_bounded(t, place_count(def), place_count(def));
    }
    assert forall|i: usize| #[trigger] doc.pinned@.contains(i) implies i < n by {
        let k = choose|k: int|
            0 <= k < def.pinned_points@.len() && #[trigger] pin_point(t, def, k) == i;
        assert(point_of(t, def, pin_place(def) + k) < n);
    }
    assert forall|s: int| 0 <= s < doc.spars@.len() implies (#[trigger] doc.spars@[s]).a < n
        && doc.spars@[s].b < n by {
        assert(point_of(t, def, 2 * s) < n && point_of(t, def, 2 * s + 1) < n);
    }
    assert forall|p: int| 0 <= p < doc.panels@.len() implies (#[trigger] doc.panels@[p]).a < n
        && doc.panels@[p].b < n && doc.panels@[p].c < n by {
        assert(point_of(t, def, panel_place(def) + 3 * p) < n);
        assert(point_of(t, def, panel_place(def) + 3 * p + 1) < n);
        assert(point_of(t, def, panel_place(def) + 3 * p + 2) < n);
    }
    assert forall|b: int| 0 <= b < doc.bridles@.len() implies (#[trigger] doc.bridles@[b]).a < n
        && doc.bridles@[b].b < n by {
        assert(point_of(t, def, line_place(def) + 2 * b) < n);
        assert(point_of(t, def, line_place(def) + 2 * b + 1) < n);
    }
}

/// The definition of a spar item, with its points' coordinates.
pub open spec fn spar_writes(item: SparItem, def: SparDef, points: Seq<Vec3>) -> bool {
    &&& def.name@ == item.name@
    &&& def.start == points[item.a as int]
    &&& def.end == points[item.b as int]
    &&& def.num_segments == item.num_segments
    &&& def.radius == item.radius
    &&& def.youngs_modulus == item.youngs_modulus
    &&& def.shear_modulus == item.shear_modulus
    &&& def.density == item.density
}

/// The definition of a panel item, with its points' coordinates.
pub open spec fn panel_writes(item: PanelItem, def: PanelDef, points: Seq<Vec3>) -> bool {
    &&& def.name@ == item.name@
    &&& def.p1 == points[item.a as int]
    &&& def.p2 == points[item.b as int]
    &&& def.p3 == points[item.c as int]
    &&& def.warp_compliance == item.warp_compliance
    &&& def.weft_compliance == item.weft_compliance
    &&& def.shear_compliance == item.shear_compliance
    &&& def.bending_compliance == item.bending_compliance
    &&& def.subdivisions == item.subdivisions
    &&& def.areal_density == item.areal_density
}

/// The definition of a line item, with its points' coordinates.
pub open spec fn bridle_writes(item: BridleItem, def: BridleLineDef, points: Seq<Vec3>) -> bool {
    &&& def.name@ == item.name@
    &&& def.from == points[item.a as int]
    &&& def.to == points[item.b as int]
    &&& def.rest_length == item.rest_length
    &&& def.compliance == item.compliance
    &&& def.diameter == item.diameter
    &&& def.num_segments == item.num_segments
    &&& def.density == item.density
}

/// The definition is that of the document's points and elements.
pub open spec fn kite_writes(doc: EditorDoc, def: KiteDefinition) -> bool {
    let points = doc.points@;
    &&& def.name@ == doc.name@
    &&& def.spars@.len() == doc.spars@.len()
    &&& forall|k: int|
        0 <= k < def.spars@.len() ==> spar_writes(doc.spars@[k], #[trigger] def.spars@[k], points)
    &&& def.panels@.len() == doc.panels@.len()
    &&& forall|k: int|
        0 <= k < def.panels@.len() ==> panel_writes(
            doc.panels@[k],
            #[trigger] def.panels@[k],
            points,
        )
    &&& def.bridles@.len() == doc.bridles@.len()
    &&& forall|k: int|
        0 <= k < def.bridles@.len() ==> bridle_writes(
            doc.bridles@[k],
            #[trigger] def.bridles@[k],
            points,
        )
    &&& def.bridle_junction == match doc.junction {
        Some(i) => points[i as int],
        None => Vec3::spec_zero(),
    }
    &&& def.bridle_junction_pinned == doc.junction_pinned
    &&& exists|order: Seq<usize>| #[trigger]
        pin_order(points, doc.pinned@, order) && def.pinned_points@ == order.map_values(
            |i: usize| points[i as int],
        )
    &&& def.stiff_junctions@ == doc.stiff_joints@.map_values(
        |s: StiffJointItem|
            StiffJunctionDef { point: points[s.point as int], compliance: s.compliance },
    )
    &&& def.lashings@ == doc.lashings@.map_values(
        |s: LashingItem| LashingDef { point: points[s.point as int], compliance: s.compliance },
    )
}

/// The scenario is what a document is written as.
pub open spec fn scenario_writes(doc: EditorDoc, s: Scenario) -> bool {
    &&& s.name@ == doc.name@
    &&& s.gravity == doc.gravity
    &&& s.duration == doc.duration
    &&& s.wind is Some
    &&& s.wind->0.same(doc.wind)
    &&& s.kite is Some
    &&& kite_writes(doc, s.kite->0)
    &&& s.sim == if doc.sim == SimOverrides::none() {
        None
    } else {
        Some(doc.sim)
    }
}

fn write_spars(items: &Vec<SparItem>, points: &Vec<Vec3>) -> (r: Vec<SparDef>)
    requires
        crate::doc::spars_within(items@, points@.len()),
    ensures
        r@.len() == items@.len(),
        forall|k: int|
            0 <= k < r@.len() ==> spar_writes(items@[k], #[trigger] r@[k], points@),
{
    let mut out: Vec<SparDef> = Vec::new();
    let mut k: usize = 0;
    while k < items.len()
        invariant
            crate::doc::spars_within(items@, points@.len()),
            k <= items@.len(),
            out@.len() == k,
            forall|i: int| 0 <= i < k ==> spar_writes(items@[i], #[trigger] out@[i], points@),
        decreases items@.len() - k,
    {
        let sp: &SparItem = &items[k];
        out.push(
            SparDef {
                name: sp.name.clone(),
                start: points[sp.a],
                end: points[sp.b],
                num_segments: sp.num_segments,
                radius: sp.radius,
                youngs_modulus: sp.youngs_modulus,
                shear_modulus: sp.shear_modulus,
                density: sp.density,
            },
        );
        k += 1;
    }
    out
}

fn write_panels(items: &Vec<PanelItem>, points: &Vec<Vec3>) -> (r: Vec<PanelDef>)
    requires
        crate::doc::panels_within(items@, points@.len()),
    ensures
        r@.len() == items@.len(),
        forall|k: int|
            0 <= k < r@.len() ==> panel_writes(items@[k], #[trigger] r@[k], points@),
{
    let mut out: Vec<PanelDef> = Vec::new();
    let mut k: usize = 0;
    while k < items.len()
        invariant
            crate::doc::panels_within(items@, points@.len()),
            k <= items@.len(),
            out@.len() == k,
            forall|i: int| 0 <= i < k ==> panel_writes(items@[i], #[trigger] out@[i], points@),
        decreases items@.len() - k,
    {
        let p: &PanelItem = &items[k];
        out.push(
            PanelDef {
                name: p.name.clone(),
                p1: points[p.a],
                p2: points[p.b],
                p3: points[p.c],
                warp_compliance: p.warp_compliance,
                weft_compliance: p.weft_compliance,
                shear_compliance: p.shear_compliance,
                bending_compliance: p.bending_compliance,
                subdivisions: p.subdivisions,
                areal_density: p.areal_density,
            },
        );
        k += 1;
    }
    out
}

fn write_bridles(items: &Vec<BridleItem>, points: &Vec<Vec3>) -> (r: Vec<BridleLineDef>)
    requires
        crate::doc::bridles_within(items@, points@.len()),
    ensures
        r@.len() == items@.len(),
        forall|k: int|
            0 <= k < r@.len() ==> bridle_writes(items@[k], #[trigger] r@[k], points@),
{
    let mut out: Vec<BridleLineDef> = Vec::new();
    let mut k: usize = 0;
    while k < items.len()
        invariant
            crate::doc::bridles_within(items@, points@.len()),
            k <= items@.len(),
            out@.len() == k,
            forall|i: int| 0 <= i < k ==> bridle_writes(items@[i], #[trigger] out@[i], points@),
        decreases items@.len() - k,
    {
        let b: &BridleItem = &items[k];
        out.push(
            BridleLineDef {
                name: b.name.clone(),
                from: points[b.a],
                to: points[b.b],
                rest_length: b.rest_length,
                compliance: b.compliance,
                diameter: b.diameter,
                num_segments: b.num_segments,
                density: b.density,
            },
        );
        k += 1;
    }
    out
}

fn write_stiff(items: &Vec<StiffJointItem>, points: &Vec<Vec3>) -> (r: Vec<StiffJunctionDef>)
    requires
        crate::doc::stiff_within(items@, points@.len()),
    ensures
        r@ == items@.map_values(
            |s: StiffJointItem|
                StiffJunctionDef { point: points@[s.point as int], compliance: s.compliance },
        ),
{
    let mut out: Vec<StiffJunctionDef> = Vec::new();
    let mut k: usize = 0;
    while k < items.len()
        invariant
            crate::doc::stiff_within(items@, points@.len()),
            k <= items@.len(),
            out@.len() == k,
            forall|i: int|
                0 <= i < k ==> #[trigger] out@[i] == (StiffJunctionDef {
                    point: points@[items@[i].point as int],
                    compliance: items@[i].compliance,
                }),
        decreases items@.len() - k,
    {
        out.push(
            StiffJunctionDef { point: points[items[k].point], compliance: items[k].compliance },
        );
        k += 1;
    }
    assert(out@ =~= items@.map_values(
        |s: StiffJointItem|
            StiffJunctionDef { point: points@[s.point as int], compliance: s.compliance },
    ));
    out
}

fn write_lashings(items: &Vec<LashingItem>, points: &Vec<Vec3>) -> (r: Vec<LashingDef>)
    requires
        crate::doc::lashings_within(items@, points@.len()),
    ensures
        r@ == items@.map_values(
            |s: LashingItem|
                LashingDef { point: points@[s.point as int], compliance: s.compliance },
        ),
{
    let mut out: Vec<LashingDef> = Vec::new();
    let mut k: usize = 0;
    while k < items.len()
        invariant
            crate::doc::lashings_within(items@, points@.len()),
            k <= items@.len(),
            out@.len() == k,
            forall|i: int|
                0 <= i < k ==> #[trigger] out@[i] == (LashingDef {
                    point: points@[items@[i].point as int],
                    compliance: items@[i].compliance,
                }),
        decreases items@.len() - k,
    {
        out.push(LashingDef { point: points[items[k].point], compliance: items[k].compliance });
        k += 1;
    }
    assert(out@ =~= items@.map_values(
        |s: LashingItem| LashingDef { point: points@[s.point as int], compliance: s.compliance },
    ));
    out
}

impl EditorDoc {
    /// The pinned points can be put in order: comparing any two of them meets
    /// only numbers.
    pub open spec fn pins_have_order(self) -> bool {
        all_comparable(self.points@, self.pinned@)
    }

    /// Writes the document as a scenario. The kite carries the document's name,
    /// and the pinned points come in the order of their coordinates, so that
    /// the same document is always written the same way.
    pub fn to_scenario(&self) -> (r: Scenario)
        requires
            self.wf(),
            self.pins_have_order(),
        ensures
            scenario_writes(*self, r),
    {
        let order: Vec<usize> = order_pins(&self.points, &self.pinned);
        proof {
            assert forall|j: int| 0 <= j < order@.len() implies (#[trigger] order@[j])
                < self.points@.len() by {
                assert(order@.contains(order@[j]));
            }
        }
        let pinned_points: Vec<Vec3> = read_points(&self.points, &order);
        let bridle_junction: Vec3 = match self.junction {
            Some(i) => self.points[i],
            None => Vec3::zero(),
        };
        let kite: KiteDefinition = KiteDefinition {
            name: self.name.clone(),
            spars: write_spars(&self.spars, &self.points),
            panels: write_panels(&self.panels, &self.points),
            bridles: write_bridles(&self.bridles, &self.points),
            bridle_junction,
            bridle_junction_pinned: self.junction_pinned,
            pinned_points,
            stiff_junctions: write_stiff(&self.stiff_joints, &self.points),
            lashings: write_lashings(&self.lashings, &self.points),
        };
        proof {
            assert(pin_order(self.points@, self.pinned@, order@));
        }
        Scenario {
            name: self.name.clone(),
            gravity: self.gravity,
            duration: self.duration,
            wind: Some(self.wind.clone()),
            kite: Some(kite),
            sim: if self.sim.is_set() {
                Some(self.sim)
            } else {
                None
            },
        }
    }
}

/// The two definitions have the same spars, panels, lines, junction, stiff
/// junctions and lashings, and pin the same places.
pub open spec fn same_structure(a: KiteDefinition, b: KiteDefinition) -> bool {
    &&& a.spars@.len() == b.spars@.len()
    &&& forall|k: int|
        #![trigger a.spars@[k]]
        #![trigger b.spars@[k]]
        0 <= k < a.spars@.len() ==> same_spar(a.spars@[k], b.spars@[k])
    &&& a.panels@.len() == b.panels@.len()
    &&& forall|k: int|
        #![trigger a.panels@[k]]
        #![trigger b.panels@[k]]
        0 <= k < a.panels@.len() ==> same_panel(a.panels@[k], b.panels@[k])
    &&& a.bridles@.len() == b.bridles@.len()
    &&& forall|k: int|
        #![trigger a.bridles@[k]]
        #![trigger b.bridles@[k]]
        0 <= k < a.bridles@.len() ==> same_bridle(a.bridles@[k], b.bridles@[k])
    &&& a.bridle_junction == b.bridle_junction
    &&& a.bridle_junction_pinned == b.bridle_junction_pinned
    &&& a.stiff_junctions@ == b.stiff_junctions@
    &&& a.lashings@ == b.lashings@
    &&& forall|p: Vec3| #[trigger] a.pinned_points@.contains(p) <==> b.pinned_points@.contains(p)
}

pub open spec fn same_spar(a: SparDef, b: SparDef) -> bool {
    a.name@ == b.name@ && a == SparDef { name: a.name, ..b }
}

pub open spec fn same_panel(a: PanelDef, b: PanelDef) -> bool {
    a.name@ == b.name@ && a == PanelDef { name: a.name, ..b }
}

pub open spec fn same_bridle(a: BridleLineDef, b: BridleLineDef) -> bool {
    a.name@ == b.name@ && a == BridleLineDef { name: a.name, ..b }
}

/// Coinciding places are the same place, to the bit.
pub open spec fn welds_only_equals(t: NearTable, def: KiteDefinition) -> bool {
    forall|i: int, j: int|
        0 <= i < place_count(def) && 0 <= j < place_count(def) && #[trigger] t.near(i, j)
            ==> named_places(def)[i] == named_places(def)[j]
}

/// A place that is only welded to equal places keeps its coordinates.
proof fn point_keeps_place(t: NearTable, def: KiteDefinition, k: int)
    requires
        welds_only_equals(t, def),
        0 <= k < place_count(def),
        place_count(def) <= usize::MAX,
    ensures
        point_of(t, def, k) < points_of(t, def).len(),
        points_of(t, def)[point_of(t, def, k) as int] == named_places(def)[k],
{
    let n = place_count(def);
    let reqs = place_requests(n);
    request_gets_coinciding_node(t, reqs, k, n);
    let origins = origins_after(t, reqs, n);
    let i = node_of(t, reqs, k) as int;
    origins_bounded(t, n, n);
    assert(reqs[k].site == k);
    assert(origins[i] < n);
}

proof fn origins_bounded(t: NearTable, n: nat, m: nat)
    requires
        m <= n <= usize::MAX,
    ensures
        origins_after(t, place_requests(n), m).len() <= m,
        forall|j: int|
            0 <= j < origins_after(t, place_requests(n), m).len() ==> (#[trigger] origins_after(
                t,
                place_requests(n),
                m,
            )[j]) < n,
    decreases m,
{
    if m > 0 {
        origins_bounded(t, n, (m - 1) as nat);
        let before = origins_after(t, place_requests(n), (m - 1) as nat);
        let after = origins_after(t, place_requests(n), m);
        assert forall|j: int| 0 <= j < after.len() implies (#[trigger] after[j]) < n by {
            if j < before.len() {
                assert(after[j] == before[j]);
            }
        }
    }
}

/// Reading a scenario and writing it again preserves the kite, wherever only
/// equal places are welded: every spar, panel, line, junction and lashing comes
/// back as it was, and the same places are pinned; pinned points that were in
/// order come back as they were listed. The kite's name becomes the scenario's,
/// and the other fields pass through.
pub proof fn scenario_round_trips(s: Scenario, t: NearTable, doc: EditorDoc, round: Scenario)
    requires
        s.kite is Some,
        place_count(s.kite->0) <= usize::MAX,
        welds_only_equals(t, s.kite->0),
        scenario_reads(doc, s, t),
        scenario_writes(doc, round),
    ensures
        same_structure(round.kite->0, s.kite->0),
        in_order(s.kite->0.pinned_points@) ==> round.kite->0.pinned_points@
            == s.kite->0.pinned_points@,
        round.kite->0.name@ == s.name@,
        round.name@ == s.name@,
        round.gravity == s.gravity,
        round.duration == s.duration,
        s.wind is Some ==> round.wind is Some && round.wind->0.same(s.wind->0),
        s.sim is None ==> round.sim is None,
        s.sim is Some && s.sim->0 != SimOverrides::none() ==> round.sim == s.sim,
{
    let def = s.kite->0;
    let out = round.kite->0;
    places_of_elements(def);
    assert forall|k: int|
        #![trigger out.spars@[k]]
        0 <= k < out.spars@.len() implies same_spar(out.spars@[k], def.spars@[k]) by {
        point_keeps_place(t, def, 2 * k);
        point_keeps_place(t, def, 2 * k + 1);
        assert(spar_reads(
            doc.spars@[k],
            def.spars@[k],
            point_of(t, def, 2 * k),
            point_of(t, def, 2 * k + 1),
        ));
        assert(spar_writes(doc.spars@[k], out.spars@[k], doc.points@));
        assert(named_places(def)[2 * k] == def.spars@[k].start);
    }
    assert forall|k: int|
        #![trigger out.panels@[k]]
        0 <= k < out.panels@.len() implies same_panel(out.panels@[k], def.panels@[k]) by {
        point_keeps_place(t, def, panel_place(def) + 3 * k);
        point_keeps_place(t, def, panel_place(def) + 3 * k + 1);
        point_keeps_place(t, def, panel_place(def) + 3 * k + 2);
        assert(panel_writes(doc.panels@[k], out.panels@[k], doc.points@));
        assert(doc.panels@[k].name@ == def.panels@[k].name@);
        assert(named_places(def)[panel_place(def) + 3 * k] == def.panels@[k].p1);
    }
    assert forall|k: int|
        #![trigger out.bridles@[k]]
        0 <= k < out.bridles@.len() implies same_bridle(out.bridles@[k], def.bridles@[k]) by {
        point_keeps_place(t, def, line_place(def) + 2 * k);
        point_keeps_place(t, def, line_place(def) + 2 * k + 1);
        assert(bridle_writes(doc.bridles@[k], out.bridles@[k], doc.points@));
        assert(doc.bridles@[k].name@ == def.bridles@[k].name@);
        assert(named_places(def)[line_place(def) + 2 * k] == def.bridles@[k].from);
    }
    point_keeps_place(t, def, junction_place(def) as int);
    assert forall|k: int| 0 <= k < def.stiff_junctions@.len() implies out.stiff_junctions@[k]
        == def.stiff_junctions@[k] by {
        point_keeps_place(t, def, stiff_place(def) + k);
        assert(doc.stiff_joints@[k].point == point_of(t, def, stiff_place(def) + k));
        assert(named_places(def)[stiff_place(def) + k] == def.stiff_junctions@[k].point);
    }
    assert(out.stiff_junctions@ =~= def.stiff_junctions@);
    assert forall|k: int| 0 <= k < def.lashings@.len() implies out.lashings@[k]
        == def.lashings@[k] by {
        point_keeps_place(t, def, lashing_place(def) + k);
        assert(doc.lashings@[k].point == point_of(t, def, lashing_place(def) + k));
        assert(named_places(def)[lashing_place(def) + k] == def.lashings@[k].point);
    }
    assert(out.lashings@ =~= def.lashings@);
    let order = choose|order: Seq<usize>| #[trigger]
        pin_order(doc.points@, doc.pinned@, order) && out.pinned_points@ == order.map_values(
            |i: usize| doc.points@[i as int],
        );
    assert forall|p: Vec3| #[trigger]
        out.pinned_points@.contains(p) <==> def.pinned_points@.contains(p) by {
        if out.pinned_points@.contains(p) {
            let a = choose|a: int| 0 <= a < out.pinned_points@.len() && out.pinned_points@[a] == p;
            assert(order.contains(order[a]));
            assert(doc.pinned@.contains(order[a]));
            let k = choose|k: int|
                0 <= k < def.pinned_points@.len() && #[trigger] pin_point(t, def, k) == order[a];
            point_keeps_place(t, def, pin_place(def) + k);
            assert(named_places(def)[pin_place(def) + k] == def.pinned_points@[k]);
            assert(def.pinned_points@[k] == p);
        }
        if def.pinned_points@.contains(p) {
            let k = choose|k: int| 0 <= k < def.pinned_points@.len() && def.pinned_points@[k] == p;
            point_keeps_place(t, def, pin_place(def) + k);
            assert(named_places(def)[pin_place(def) + k] == def.pinned_points@[k]);
            let i = pin_point(t, def, k);
            assert(doc.pinned@.contains(i));
            assert(order.contains(i));
            let a = choose|a: int| 0 <= a < order.len() && order[a] == i;
            assert(out.pinned_points@[a] == p);
        }
    }
    if in_order(def.pinned_points@) {
        assert forall|a: int, b: int|
            #![trigger out.pinned_points@[a], out.pinned_points@[b]]
            0 <= a < b < out.pinned_points@.len() implies point_before(
            out.pinned_points@[a],
            out.pinned_points@[b],
        ) by {
            assert(order.contains(order[a]) && order.contains(order[b]));
            assert(order[a] != order[b]);
            let j = choose|k: int|
                0 <= k < def.pinned_points@.len() && #[trigger] pin_point(t, def, k) == order[a];
            let k = choose|k: int|
                0 <= k < def.pinned_points@.len() && #[trigger] pin_point(t, def, k) == order[b];
            point_keeps_place(t, def, pin_place(def) + j);
            point_keeps_place(t, def, pin_place(def) + k);
            assert(out.pinned_points@[a] == def.pinned_points@[j]);
            assert(out.pinned_points@[b] == def.pinned_points@[k]);
            assert(pin_before(doc.points@, order[a], order[b]));
        }
        order_is_unique(out.pinned_points@, def.pinned_points@);
    }
}

/// Coinciding places have coordinates of the same value.
pub open spec fn welds_only_same_values(t: NearTable, def: KiteDefinition) -> bool {
    forall|i: int, j: int|
        0 <= i < place_count(def) && 0 <= j < place_count(def) && #[trigger] t.near(i, j)
            ==> same_place(named_places(def)[i], named_places(def)[j])
}

pub open spec fn same_spar_in_value(a: SparDef, b: SparDef) -> bool {
    &&& a.name@ == b.name@
    &&& same_place(a.start, b.start)
    &&& same_place(a.end, b.end)
    &&& a == SparDef { name: a.name, start: a.start, end: a.end, ..b }
}

pub open spec fn same_panel_in_value(a: PanelDef, b: PanelDef) -> bool {
    &&& a.name@ == b.name@
    &&& same_place(a.p1, b.p1)
    &&& same_place(a.p2, b.p2)
    &&& same_place(a.p3, b.p3)
    &&& a == PanelDef { name: a.name, p1: a.p1, p2: a.p2, p3: a.p3, ..b }
}

pub open spec fn same_bridle_in_value(a: BridleLineDef, b: BridleLineDef) -> bool {
    &&& a.name@ == b.name@
    &&& same_place(a.from, b.from)
    &&& same_place(a.to, b.to)
    &&& a == BridleLineDef { name: a.name, from: a.from, to: a.to, ..b }
}

/// The two definitions have the same spars, panels, lines, junction, stiff
/// junctions and lashings, with coordinates of the same value, and pin the same
/// places.
pub open spec fn same_structure_in_value(a: KiteDefinition, b: KiteDefinition) -> bool {
    &&& a.spars@.len() == b.spars@.len()
    &&& forall|k: int|
        #![trigger a.spars@[k]]
        0 <= k < a.spars@.len() ==> same_spar_in_value(a.spars@[k], b.spars@[k])
    &&& a.panels@.len() == b.panels@.len()
    &&& forall|k: int|
        #![trigger a.panels@[k]]
        0 <= k < a.panels@.len() ==> same_panel_in_value(a.panels@[k], b.panels@[k])
    &&& a.bridles@.len() == b.bridles@.len()
    &&& forall|k: int|
        #![trigger a.bridles@[k]]
        0 <= k < a.bridles@.len() ==> same_bridle_in_value(a.bridles@[k], b.bridles@[k])
    &&& same_place(a.bridle_junction, b.bridle_junction)
    &&& a.bridle_junction_pinned == b.bridle_junction_pinned
    &&& a.stiff_junctions@.len() == b.stiff_junctions@.len()
    &&& forall|k: int|
        #![trigger a.stiff_junctions@[k]]
        0 <= k < a.stiff_junctions@.len() ==> {
            &&& same_place(a.stiff_junctions@[k].point, b.stiff_junctions@[k].point)
            &&& a.stiff_junctions@[k].compliance == b.stiff_junctions@[k].compliance
        }
    &&& a.lashings@.len() == b.lashings@.len()
    &&& forall|k: int|
        #![trigger a.lashings@[k]]
        0 <= k < a.lashings@.len() ==> {
            &&& same_place(a.lashings@[k].point, b.lashings@[k].point)
            &&& a.lashings@[k].compliance == b.lashings@[k].compliance
        }
    &&& places_among(a.pinned_points@, b.pinned_points@)
    &&& places_among(b.pinned_points@, a.pinned_points@)
}

/// A place that is only welded to places of the same value keeps its value.
proof fn point_keeps_value(t: NearTable, def: KiteDefinition, k: int)
    requires
        welds_only_same_values(t, def),
        0 <= k < place_count(def),
        place_count(def) <= usize::MAX,
    ensures
        point_of(t, def, k) < points_of(t, def).len(),
        same_place(points_of(t, def)[point_of(t, def, k) as int], named_places(def)[k]),
{
    let n = place_count(def);
    let reqs = place_requests(n);
    request_gets_coinciding_node(t, reqs, k, n);
    let origins = origins_after(t, reqs, n);
    let i = node_of(t, reqs, k) as int;
    origins_bounded(t, n, n);
    assert(reqs[k].site == k);
    assert(origins[i] < n);
}

/// Reading a scenario and writing it again preserves the kite in value, wherever
/// only places of the same value are welded, which for a kite whose places are
/// equal or well apart is always: a zero may change its sign, and nothing else.
/// Pinned points that were in order come back in it.
pub proof fn scenario_round_trips_in_value(
    s: Scenario,
    t: NearTable,
    doc: EditorDoc,
    round: Scenario,
)
    requires
        s.kite is Some,
        place_count(s.kite->0) <= usize::MAX,
        welds_only_same_values(t, s.kite->0),
        scenario_reads(doc, s, t),
        scenario_writes(doc, round),
    ensures
        same_structure_in_value(round.kite->0, s.kite->0),
        in_order(s.kite->0.pinned_points@) ==> {
            let a = round.kite->0.pinned_points@;
            let b = s.kite->0.pinned_points@;
            &&& a.len() == b.len()
            &&& forall|k: int| 0 <= k < a.len() ==> same_place(#[trigger] a[k], b[k])
        },
{
    let def = s.kite->0;
    let out = round.kite->0;
    places_of_elements(def);
    assert forall|k: int|
        #![trigger out.spars@[k]]
        0 <= k < out.spars@.len() implies same_spar_in_value(out.spars@[k], def.spars@[k]) by {
        point_keeps_value(t, def, 2 * k);
        point_keeps_value(t, def, 2 * k + 1);
        assert(spar_reads(
            doc.spars@[k],
            def.spars@[k],
            point_of(t, def, 2 * k),
            point_of(t, def, 2 * k + 1),
        ));
        assert(spar_writes(doc.spars@[k], out.spars@[k], doc.points@));
        assert(named_places(def)[2 * k] == def.spars@[k].start);
    }
    assert forall|k: int|
        #![trigger out.panels@[k]]
        0 <= k < out.panels@.len() implies same_panel_in_value(out.panels@[k], def.panels@[k]) by {
        point_keeps_value(t, def, panel_place(def) + 3 * k);
        point_keeps_value(t, def, panel_place(def) + 3 * k + 1);
        point_keeps_value(t, def, panel_place(def) + 3 * k + 2);
        assert(panel_writes(doc.panels@[k], out.panels@[k], doc.points@));
        assert(doc.panels@[k].name@ == def.panels@[k].name@);
        assert(named_places(def)[panel_place(def) + 3 * k] == def.panels@[k].p1);
    }
    assert forall|k: int|
        #![trigger out.bridles@[k]]
        0 <= k < out.bridles@.len() implies same_bridle_in_value(
        out.bridles@[k],
        def.bridles@[k],
    ) by {
        point_keeps_value(t, def, line_place(def) + 2 * k);
        point_keeps_value(t, def, line_place(def) + 2 * k + 1);
        assert(bridle_writes(doc.bridles@[k], out.bridles@[k], doc.points@));
        assert(doc.bridles@[k].name@ == def.bridles@[k].name@);
        assert(named_places(def)[line_place(def) + 2 * k] == def.bridles@[k].from);
    }
    point_keeps_value(t, def, junction_place(def) as int);
    assert forall|k: int|
        #![trigger out.stiff_junctions@[k]]
        0 <= k < out.stiff_junctions@.len() implies same_place(
        out.stiff_junctions@[k].point,
        def.stiff_junctions@[k].point,
    ) && out.stiff_junctions@[k].compliance == def.stiff_junctions@[k].compliance by {
        point_keeps_value(t, def, stiff_place(def) + k);
        assert(doc.stiff_joints@[k].point == point_of(t, def, stiff_place(def) + k));
        assert(named_places(def)[stiff_place(def) + k] == def.stiff_junctions@[k].point);
    }
    assert forall|k: int|
        #![trigger out.lashings@[k]]
        0 <= k < out.lashings@.len() implies same_place(
        out.lashings@[k].point,
        def.lashings@[k].point,
    ) && out.lashings@[k].compliance == def.lashings@[k].compliance by {
        point_keeps_value(t, def, lashing_place(def) + k);
        assert(doc.lashings@[k].point == point_of(t, def, lashing_place(def) + k));
        assert(named_places(def)[lashing_place(def) + k] == def.lashings@[k].point);
    }
    pins_keep_value(t, def, doc, out);
}

/// The pinned points of the round trip.
proof fn pins_keep_value(t: NearTable, def: KiteDefinition, doc: EditorDoc, out: KiteDefinition)
    requires
        place_count(def) <= usize::MAX,
        welds_only_same_values(t, def),
        exists|s: Scenario| #[trigger] scenario_reads(doc, s, t) && s.kite == Some(def),
        kite_writes(doc, out),
    ensures
        places_among(out.pinned_points@, def.pinned_points@),
        places_among(def.pinned_points@, out.pinned_points@),
        in_order(def.pinned_points@) ==> {
            let a = out.pinned_points@;
            let b = def.pinned_points@;
            &&& a.len() == b.len()
            &&& forall|k: int| 0 <= k < a.len() ==> same_place(#[trigger] a[k], b[k])
        },
{
    let s = choose|s: Scenario| #[trigger] scenario_reads(doc, s, t) && s.kite == Some(def);
    places_of_elements(def);
    let a = out.pinned_points@;
    let b = def.pinned_points@;
    let order = choose|order: Seq<usize>| #[trigger]
        pin_order(doc.points@, doc.pinned@, order) && a == order.map_values(
            |i: usize| doc.points@[i as int],
        );
    assert forall|i: int| 0 <= i < a.len() implies place_in(#[trigger] a[i], b) by {
        assert(order.contains(order[i]));
        assert(doc.pinned@.contains(order[i]));
        let k = choose|k: int| 0 <= k < b.len() && #[trigger] pin_point(t, def, k) == order[i];
        point_keeps_value(t, def, pin_place(def) + k);
        assert(named_places(def)[pin_place(def) + k] == b[k]);
        assert(same_place(a[i], b[k]));
    }
    assert forall|k: int| 0 <= k < b.len() implies place_in(#[trigger] b[k], a) by {
        point_keeps_value(t, def, pin_place(def) + k);
        assert(named_places(def)[pin_place(def) + k] == b[k]);
        let i = pin_point(t, def, k);
        assert(doc.pinned@.contains(i));
        assert(order.contains(i));
        let x = choose|x: int| 0 <= x < order.len() && order[x] == i;
        assert(same_place(b[k], a[x]));
    }
    if in_order(b) {
        assert forall|x: int, y: int|
            #![trigger a[x], a[y]]
            0 <= x < y < a.len() implies point_before(a[x], a[y]) by {
            assert(order.contains(order[x]) && order.contains(order[y]));
            assert(order[x] != order[y]);
            let j = choose|k: int| 0 <= k < b.len() && #[trigger] pin_point(t, def, k) == order[x];
            let k = choose|k: int| 0 <= k < b.len() && #[trigger] pin_point(t, def, k) == order[y];
            point_keeps_value(t, def, pin_place(def) + j);
            point_keeps_value(t, def, pin_place(def) + k);
            assert(same_place(a[x], b[j]) && same_place(a[y], b[k]));
            if j < k {
                assert(point_before(b[j], b[k]));
            } else {
                assert(point_before(b[k], b[j]));
            }
            assert(pin_before(doc.points@, order[x], order[y]));
        }
        ordered_places_match(a, b);
    }
}

/// Writing a document and reading it again, wherever only equal places are
/// welded, leaves every element where it was: the points that its ends and
/// corners name have the coordinates they had.
pub proof fn document_round_trips(doc: EditorDoc, s: Scenario, t: NearTable, again: EditorDoc)
    requires
        scenario_writes(doc, s),
        place_count(s.kite->0) <= usize::MAX,
        welds_only_equals(t, s.kite->0),
        scenario_reads(again, s, t),
    ensures
        again.name@ == doc.name@,
        again.gravity == doc.gravity,
        again.duration == doc.duration,
        again.wind.same(doc.wind),
        again.sim == doc.sim,
        again.spars@.len() == doc.spars@.len(),
        forall|k: int|
            0 <= k < doc.spars@.len() ==> {
                let x = #[trigger] doc.spars@[k];
                let y = again.spars@[k];
                &&& y.name@ == x.name@
                &&& y == SparItem { name: y.name, a: y.a, b: y.b, ..x }
                &&& again.points@[y.a as int] == doc.points@[x.a as int]
                &&& again.points@[y.b as int] == doc.points@[x.b as int]
            },
        again.panels@.len() == doc.panels@.len(),
        forall|k: int|
            0 <= k < doc.panels@.len() ==> {
                let x = #[trigger] doc.panels@[k];
                let y = again.panels@[k];
                &&& y.name@ == x.name@
                &&& y == PanelItem { name: y.name, a: y.a, b: y.b, c: y.c, ..x }
                &&& again.points@[y.a as int] == doc.points@[x.a as int]
                &&& again.points@[y.b as int] == doc.points@[x.b as int]
                &&& again.points@[y.c as int] == doc.points@[x.c as int]
            },
        again.bridles@.len() == doc.bridles@.len(),
        forall|k: int|
            0 <= k < doc.bridles@.len() ==> {
                let x = #[trigger] doc.bridles@[k];
                let y = again.bridles@[k];
                &&& y.name@ == x.name@
                &&& y == BridleItem { name: y.name, a: y.a, b: y.b, ..x }
                &&& again.points@[y.a as int] == doc.points@[x.a as int]
                &&& again.points@[y.b as int] == doc.points@[x.b as int]
            },
        again.junction_pinned == doc.junction_pinned,
        doc.junction is Some ==> again.points@[again.junction->0 as int]
            == doc.points@[doc.junction->0 as int],
        again.stiff_joints@.len() == doc.stiff_joints@.len(),
        forall|k: int|
            0 <= k < doc.stiff_joints@.len() ==> {
                let x = #[trigger] doc.stiff_joints@[k];
                let y = again.stiff_joints@[k];
                &&& y.compliance == x.compliance
                &&& again.points@[y.point as int] == doc.points@[x.point as int]
            },
        again.lashings@.len() == doc.lashings@.len(),
        forall|k: int|
            0 <= k < doc.lashings@.len() ==> {
                let x = #[trigger] doc.lashings@[k];
                let y = again.lashings@[k];
                &&& y.compliance == x.compliance
                &&& again.points@[y.point as int] == doc.points@[x.point as int]
            },
{
    let def = s.kite->0;
    places_of_elements(def);
    assert forall|k: int| 0 <= k < doc.spars@.len() implies {
        let x = #[trigger] doc.spars@[k];
        let y = again.spars@[k];
        &&& y.name@ == x.name@
        &&& y == SparItem { name: y.name, a: y.a, b: y.b, ..x }
        &&& again.points@[y.a as int] == doc.points@[x.a as int]
        &&& again.points@[y.b as int] == doc.points@[x.b as int]
    } by {
        point_keeps_place(t, def, 2 * k);
        point_keeps_place(t, def, 2 * k + 1);
        assert(spar_writes(doc.spars@[k], def.spars@[k], doc.points@));
        assert(spar_reads(
            again.spars@[k],
            def.spars@[k],
            point_of(t, def, 2 * k),
            point_of(t, def, 2 * k + 1),
        ));
    }
    assert forall|k: int| 0 <= k < doc.panels@.len() implies {
        let x = #[trigger] doc.panels@[k];
        let y = again.panels@[k];
        &&& y.name@ == x.name@
        &&& y == PanelItem { name: y.name, a: y.a, b: y.b, c: y.c, ..x }
        &&& again.points@[y.a as int] == doc.points@[x.a as int]
        &&& again.points@[y.b as int] == doc.points@[x.b as int]
        &&& again.points@[y.c as int] == doc.points@[x.c as int]
    } by {
        point_keeps_place(t, def, panel_place(def) + 3 * k);
        point_keeps_place(t, def, panel_place(def) + 3 * k + 1);
        point_keeps_place(t, def, panel_place(def) + 3 * k + 2);
        assert(panel_writes(doc.panels@[k], def.panels@[k], doc.points@));
        assert(again.panels@[k].name@ == def.panels@[k].name@);
    }
    assert forall|k: int| 0 <= k < doc.bridles@.len() implies {
        let x = #[trigger] doc.bridles@[k];
        let y = again.bridles@[k];
        &&& y.name@ == x.name@
        &&& y == BridleItem { name: y.name, a: y.a, b: y.b, ..x }
        &&& again.points@[y.a as int] == doc.points@[x.a as int]
        &&& again.points@[y.b as int] == doc.points@[x.b as int]
    } by {
        point_keeps_place(t, def, line_place(def) + 2 * k);
        point_keeps_place(t, def, line_place(def) + 2 * k + 1);
        assert(bridle_writes(doc.bridles@[k], def.bridles@[k], doc.points@));
        assert(again.bridles@[k].name@ == def.bridles@[k].name@);
    }
    point_keeps_place(t, def, junction_place(def) as int);
    assert forall|k: int| 0 <= k < doc.stiff_joints@.len() implies {
        let x = #[trigger] doc.stiff_joints@[k];
        let y = again.stiff_joints@[k];
        &&& y.compliance == x.compliance
        &&& again.points@[y.point as int] == doc.points@[x.point as int]
    } by {
        point_keeps_place(t, def, stiff_place(def) + k);
        assert(def.stiff_junctions@[k].point == doc.points@[doc.stiff_joints@[k].point as int]);
        assert(again.stiff_joints@[k].point == point_of(t, def, stiff_place(def) + k));
    }
    assert forall|k: int| 0 <= k < doc.lashings@.len() implies {
        let x = #[trigger] doc.lashings@[k];
        let y = again.lashings@[k];
        &&& y.compliance == x.compliance
        &&& again.points@[y.point as int] == doc.points@[x.point as int]
    } by {
        point_keeps_place(t, def, lashing_place(def) + k);
        assert(def.lashings@[k].point == doc.points@[doc.lashings@[k].point as int]);
        assert(again.lashings@[k].point == point_of(t, def, lashing_place(def) + k));
    }
}

} // verus!
