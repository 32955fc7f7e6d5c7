//! Where the nodes of a kite stand, and what they weigh.
use crate::frame::{chain_at, panel_node, spar_node};
use crate::geometry::{
    at_least_one, bridle_row, bridle_sites, panel_row, panel_sites, site_list, spar_row, spar_sites,
    KiteDefinition, Site,
};
use crate::kite_builder::{
    after_node, new_inv_mass, nodes_built, particles_extended, pinned, rested, zeros, KitePlan,
    KiteValues, Nodes, SiteValues,
};
use crate::layout::{
    ends_at_junction, junction_request, line_request, line_requests, line_segments, line_site,
    line_start, line_start_grows, ordered_requests, panel_start, panel_total, pin_request,
    site_count, spar_start, spar_total, stiff_site, Layout,
};
use crate::mesh::{vert_at_index, vert_index, GridVert};
use crate::scalar::{Scalar, Vec3};
use crate::weld::{
    lookup_is_earliest, node_of, origins_after, request_gets_coinciding_node, NearTable,
};
use crate::world::World;
use vstd::prelude::*;

verus! {

/// Request `k` is for the site, and its node is where the site is or at a site
/// that coincides with it.
pub open spec fn stands_at(
    t: NearTable,
    def: KiteDefinition,
    existing: nat,
    l: Layout,
    k: int,
    site: Site,
) -> bool {
    let at = l.requests@[k].site as int;
    let o = l.origins@[l.nodes@[k] as int] as int;
    &&& 0 <= k < l.requests@.len()
    &&& site_list(def, existing)[at] == site
    &&& l.nodes@[k] < l.origins@.len()
    &&& o == at || (!l.requests@[k].fresh && t.near(o, at))
}

proof fn request_stands(t: NearTable, def: KiteDefinition, existing: nat, l: Layout, k: int)
    requires
        l.of(t, def, existing),
        0 <= k < l.requests@.len(),
    ensures
        stands_at(
            t,
            def,
            existing,
            l,
            k,
            site_list(def, existing)[l.requests@[k].site as int],
        ),
{
    assert(l.nodes@[k] == node_of(t, l.requests@, k));
    request_gets_coinciding_node(t, l.requests@, k, l.requests@.len());
}

proof fn spar_site_at(def: KiteDefinition, m: nat, s: int, i: int)
    requires
        0 <= s < m <= def.spars@.len(),
        0 <= i <= def.spars@[s].num_segments,
    ensures
        spar_start(def, s) + i < spar_sites(def.spars@, m).len(),
        spar_sites(def.spars@, m)[spar_start(def, s) + i] == (Site::SparNode {
            spar: s as usize,
            node: i as usize,
        }),
    decreases m,
{
    let before = spar_sites(def.spars@, (m - 1) as nat);
    let row = spar_row(def.spars@, m - 1);
    if s < m - 1 {
        spar_site_at(def, (m - 1) as nat, s, i);
        assert((before + row)[spar_start(def, s) + i] == before[spar_start(def, s) + i]);
    } else {
        assert((before + row)[before.len() + i] == row[i]);
    }
}

proof fn panel_site_at(def: KiteDefinition, m: nat, p: int, v: GridVert)
    requires
        0 <= p < m <= def.panels@.len(),
        v.within(at_least_one(def.panels@[p].subdivisions)),
        at_least_one(def.panels@[p].subdivisions) < usize::MAX,
    ensures
        ({
            let at = panel_start(def, p) + vert_index(at_least_one(def.panels@[p].subdivisions), v);
            &&& at < panel_sites(def.panels@, m).len()
            &&& panel_sites(def.panels@, m)[at as int] == (Site::PanelVert {
                panel: p as usize,
                vert: v,
            })
        }),
    decreases m,
{
    let n = at_least_one(def.panels@[p].subdivisions);
    let before = panel_sites(def.panels@, (m - 1) as nat);
    let row = panel_row(def.panels@, m - 1);
    vert_at_index(n, v);
    if p < m - 1 {
        panel_site_at(def, (m - 1) as nat, p, v);
        let at = (panel_start(def, p) + vert_index(n, v)) as int;
        assert((before + row)[at] == before[at]);
    } else {
        let i = vert_index(n, v) as int;
        assert((before + row)[before.len() + i] == row[i]);
    }
}

proof fn line_site_at(def: KiteDefinition, m: nat, b: int, i: int)
    requires
        0 <= b < m <= def.bridles@.len(),
        0 <= i <= line_segments(def, b),
    ensures
        line_start(def, b) + i < bridle_sites(def.bridles@, m).len(),
        bridle_sites(def.bridles@, m)[line_start(def, b) + i] == if i == 0 {
            Site::BridleFrom { line: b as usize }
        } else if i == 1 {
            Site::BridleTo { line: b as usize }
        } else {
            Site::BridleInner { line: b as usize, node: (i - 1) as usize }
        },
    decreases m,
{
    let before = bridle_sites(def.bridles@, (m - 1) as nat);
    let row = bridle_row(def.bridles@, m - 1);
    if b < m - 1 {
        line_site_at(def, (m - 1) as nat, b, i);
        assert((before + row)[line_start(def, b) + i] == before[line_start(def, b) + i]);
    } else {
        assert((before + row)[before.len() + i] == row[i]);
    }
}

/// Node `i` of a spar is the node at that spar's site of that number.
pub proof fn spar_nodes_stand_at_their_sites(
    t: NearTable,
    def: KiteDefinition,
    existing: nat,
    l: Layout,
    s: int,
    i: int,
)
    requires
        t.covers(site_count(def, existing)),
        l.of(t, def, existing),
        0 <= s < def.spars@.len(),
        0 <= i <= def.spars@[s].num_segments,
    ensures
        exists|k: int|
            l.nodes@[k] == spar_node(l, def, existing, s, i) && #[trigger] stands_at(
                t,
                def,
                existing,
                l,
                k,
                Site::SparNode { spar: s as usize, node: i as usize },
            ),
{
    let k = existing + spar_start(def, s) + i;
    assert(site_count(def, existing) == t.rows.len());
    spar_site_at(def, def.spars@.len(), s, i);
    assert(k < l.requests@.len());
    assert(l.requests@[k].site == k);
    assert(site_list(def, existing)[k] == spar_sites(def.spars@, def.spars@.len())[k - existing]);
    request_stands(t, def, existing, l, k);
}

/// The node of a panel's vertex is the node at that panel's site of that vertex.
pub proof fn panel_nodes_stand_at_their_sites(
    t: NearTable,
    def: KiteDefinition,
    existing: nat,
    l: Layout,
    p: int,
    v: GridVert,
)
    requires
        t.covers(site_count(def, existing)),
        l.of(t, def, existing),
        0 <= p < def.panels@.len(),
        def.panels@[p].subdivisions < usize::MAX,
        v.within(at_least_one(def.panels@[p].subdivisions)),
    ensures
        exists|k: int|
            l.nodes@[k] == panel_node(
                l,
                def,
                existing,
                p,
                vert_index(at_least_one(def.panels@[p].subdivisions), v) as int,
            ) && #[trigger] stands_at(
                t,
                def,
                existing,
                l,
                k,
                Site::PanelVert { panel: p as usize, vert: v },
            ),
{
    let n = at_least_one(def.panels@[p].subdivisions);
    let x = panel_start(def, p) + vert_index(n, v);
    let k = existing + spar_total(def) + panel_start(def, p) + vert_index(n, v) as int;
    let j = def.stiff_junctions@.len();
    assert(site_count(def, existing) == t.rows.len());
    panel_site_at(def, def.panels@.len(), p, v);
    assert(k < l.requests@.len());
    assert(l.requests@[k].site == existing + spar_total(def) + j + x);
    assert(site_list(def, existing)[existing + spar_total(def) + j + x as int] == panel_sites(
        def.panels@,
        def.panels@.len(),
    )[x as int]);
    request_stands(t, def, existing, l, k);
}

proof fn line_requests_in_order(
    t: NearTable,
    def: KiteDefinition,
    existing: nat,
    order: Seq<usize>,
    m: int,
    n: int,
    x: int,
)
    requires
        0 <= m < n <= order.len(),
        0 <= x < line_requests(t, def, existing, order[m] as int).len(),
    ensures
        ({
            let start = ordered_requests(t, def, existing, order, m as nat).len();
            let all = ordered_requests(t, def, existing, order, n as nat);
            &&& start + x < all.len()
            &&& all[start + x] == line_requests(t, def, existing, order[m] as int)[x]
        }),
    decreases n,
{
    let before = ordered_requests(t, def, existing, order, (n - 1) as nat);
    let more = line_requests(t, def, existing, order[n - 1] as int);
    let start = ordered_requests(t, def, existing, order, m as nat).len();
    if m < n - 1 {
        line_requests_in_order(t, def, existing, order, m, n - 1, x);
        assert((before + more)[start + x] == before[start + x]);
    } else {
        assert((before + more)[before.len() + x] == more[x]);
    }
}

/// Request `x` of a line is for the line's site `y`.
proof fn line_request_stands(
    t: NearTable,
    def: KiteDefinition,
    existing: nat,
    l: Layout,
    m: int,
    x: int,
    y: int,
)
    requires
        t.covers(site_count(def, existing)),
        l.of(t, def, existing),
        0 <= m < l.order@.len(),
        0 <= x < line_requests(t, def, existing, l.order@[m] as int).len(),
        0 <= y <= line_segments(def, l.order@[m] as int),
        line_requests(t, def, existing, l.order@[m] as int)[x].site == (line_site(
            def,
            existing,
            l.order@[m] as int,
        ) + y) as usize,
    ensures
        stands_at(
            t,
            def,
            existing,
            l,
            line_request(t, def, existing, l.order@, m) + x,
            if y == 0 {
                Site::BridleFrom { line: l.order@[m] }
            } else if y == 1 {
                Site::BridleTo { line: l.order@[m] }
            } else {
                Site::BridleInner { line: l.order@[m], node: (y - 1) as usize }
            },
        ),
{
    let b = l.order@[m] as int;
    assert(l.order@.contains(l.order@[m]));
    assert(site_count(def, existing) == t.rows.len());
    line_start_grows(def, b, def.bridles@.len() as int);
    let all = l.requests@;
    let k = line_request(t, def, existing, l.order@, m) + x;
    line_requests_in_order(t, def, existing, l.order@, m, l.order@.len() as int, x);
    let o = ordered_requests(t, def, existing, l.order@, l.order@.len());
    assert(k < all.len());
    assert(all[k] == o[k - junction_request(def, existing) - 1]);
    line_site_at(def, def.bridles@.len(), b, y);
    let at = (line_site(def, existing, b) + y) as int;
    assert(all[k].site == at);
    assert(site_list(def, existing)[at] == bridle_sites(
        def.bridles@,
        def.bridles@.len(),
    )[line_start(def, b) + y]);
    request_stands(t, def, existing, l, k);
}

/// The site of node `i` of a line: its first end, an inner node, or at last the
/// bridle junction where its second end is there, and else its second end.
pub open spec fn chain_site(
    t: NearTable,
    def: KiteDefinition,
    existing: nat,
    b: usize,
    i: int,
) -> Site {
    if i == 0 {
        Site::BridleFrom { line: b }
    } else if i < line_segments(def, b as int) {
        Site::BridleInner { line: b, node: i as usize }
    } else if t.near(
        (stiff_site(def, existing) + def.stiff_junctions@.len() + panel_total(def)) as int,
        line_site(def, existing, b as int) as int + 1,
    ) {
        Site::BridleJunction
    } else {
        Site::BridleTo { line: b }
    }
}

/// A line's chain starts at its first end, goes through its inner nodes in their
/// order, and ends at the bridle junction where its second end is there, and at
/// its second end where it is not.
pub proof fn chains_stand_at_their_sites(
    t: NearTable,
    def: KiteDefinition,
    existing: nat,
    l: Layout,
    m: int,
    i: int,
)
    requires
        t.covers(site_count(def, existing)),
        l.of(t, def, existing),
        0 <= m < l.order@.len(),
        0 <= i <= line_segments(def, l.order@[m] as int),
    ensures
        ({
            let b = l.order@[m];
            let n = line_segments(def, b as int);
            let chain = chain_at(t, l, def, existing, m);
            &&& chain.len() == n + 1
            &&& exists|k: int|
                l.nodes@[k] == chain[i] && #[trigger] stands_at(
                    t,
                    def,
                    existing,
                    l,
                    k,
                    chain_site(t, def, existing, b, i),
                )
        }),
{
    let b = l.order@[m] as int;
    let n = line_segments(def, b);
    let j = (stiff_site(def, existing) + def.stiff_junctions@.len() + panel_total(def)) as int;
    let joined = ends_at_junction(t, def, existing, b);
    let r = line_request(t, def, existing, l.order@, m) as int;
    let chain = chain_at(t, l, def, existing, m);
    assert(site_count(def, existing) == t.rows.len());
    if i == n && joined {
        let k = junction_request(def, existing) as int;
        assert(k < l.requests@.len());
        assert(l.requests@[k].site == j);
        assert(site_list(def, existing)[j] == Site::BridleJunction);
        request_stands(t, def, existing, l, k);
        assert(l.nodes@[k] == chain[i]);
        assert(chain_site(t, def, existing, b as usize, i) == Site::BridleJunction);
    } else if i == 0 {
        line_request_stands(t, def, existing, l, m, 0, 0);
        assert(l.nodes@[r + 0] == chain[i]);
        assert(stands_at(t, def, existing, l, r + 0, chain_site(t, def, existing, b as usize, i)));
    } else if i == n {
        line_request_stands(t, def, existing, l, m, 1, 1);
        assert(l.nodes@[r + 1] == chain[i]);
        assert(stands_at(t, def, existing, l, r + 1, chain_site(t, def, existing, b as usize, i)));
    } else if joined {
        line_request_stands(t, def, existing, l, m, i, i + 1);
        assert(l.nodes@[r + i] == chain[i]);
        assert(stands_at(t, def, existing, l, r + i, chain_site(t, def, existing, b as usize, i)));
    } else {
        line_request_stands(t, def, existing, l, m, i + 1, i + 1);
        assert(l.nodes@[r + (i + 1)] == chain[i]);
        assert(stands_at(
            t,
            def,
            existing,
            l,
            r + (i + 1),
            chain_site(t, def, existing, b as usize, i),
        ));
    }
}

/// The particle that pins a point is the node at that point's site.
pub proof fn pins_stand_at_their_sites(
    t: NearTable,
    def: KiteDefinition,
    existing: nat,
    l: Layout,
    i: int,
)
    requires
        t.covers(site_count(def, existing)),
        l.of(t, def, existing),
        0 <= i < def.pinned_points@.len(),
    ensures
        exists|k: int|
            l.nodes@[k] == l.nodes@[pin_request(t, def, existing, l.order@) + i]
                && #[trigger] stands_at(
                t,
                def,
                existing,
                l,
                k,
                Site::Pinned { point: i as usize },
            ),
{
    let k = pin_request(t, def, existing, l.order@) + i;
    assert(site_count(def, existing) == t.rows.len());
    assert(k < l.requests@.len());
    let at = site_count(def, existing) - def.pinned_points@.len() + i;
    assert(l.requests@[k].site == at);
    assert(site_list(def, existing)[at] == Site::Pinned { point: i as usize });
    request_stands(t, def, existing, l, k);
}

/// A node's inverse mass when it is made: a spar's, a panel's and a line's inner
/// node have the reciprocal of their mass, or zero without mass. The junction
/// weighs fifty grams unless it is pinned, and a line's end that nothing else
/// holds ten grams. Anything else is fixed.
pub proof fn nodes_weigh_what_they_are(
    def: KiteDefinition,
    site: Site,
    v: SiteValues,
)
    ensures
        ({
            let w = new_inv_mass(def, site, v);
            let massive = !v.mass.at_most(Scalar { bits: 0 });
            &&& site is SparNode || site is PanelVert || site is BridleInner ==> w == if massive {
                v.recip
            } else {
                Scalar { bits: 0 }
            }
            &&& site is BridleJunction && def.bridle_junction_pinned ==> w.bits == 0
            &&& site is BridleJunction && !def.bridle_junction_pinned ==> w.bits
                == 0x4034_0000_0000_0000
            &&& site is BridleFrom || site is BridleTo ==> w.bits == 0x4059_0000_0000_0000
            &&& site is Pinned || site is Existing || site is StiffJunction ==> w.bits == 0
        }),
{
}

/// A request that makes a node puts it where its site is. One that finds a node
/// moves nothing; a spar or panel that finds a free one makes it heavier, and
/// nothing else changes.
pub proof fn welding_adds_mass(
    def: KiteDefinition,
    nodes: Nodes,
    node: usize,
    site: Site,
    v: SiteValues,
    i: int,
)
    requires
        nodes.pos.len() == nodes.inv_mass.len(),
        node <= nodes.pos.len(),
        0 <= i < nodes.pos.len(),
    ensures
        ({
            let after = after_node(def, nodes, node, site, v);
            let free = !nodes.inv_mass[node as int].at_most(Scalar { bits: 0 });
            let heavier = (site is SparNode || site is PanelVert) && free;
            &&& after.pos.len() == after.inv_mass.len()
            &&& after.pos[i] == nodes.pos[i]
            &&& node == nodes.pos.len() ==> {
                &&& after.pos.len() == nodes.pos.len() + 1
                &&& after.pos[node as int] == v.pos
                &&& after.inv_mass[i] == nodes.inv_mass[i]
            }
            &&& node < nodes.pos.len() ==> {
                &&& after.pos.len() == nodes.pos.len()
                &&& after.inv_mass[i] == if i == node && heavier {
                    v.reweighed
                } else {
                    nodes.inv_mass[i]
                }
            }
        }),
{
}

proof fn built_positions(
    t: NearTable,
    l: Layout,
    def: KiteDefinition,
    existing: nat,
    values: KiteValues,
    start: Nodes,
    n: nat,
)
    requires
        l.of(t, def, existing),
        start.pos.len() == existing,
        start.inv_mass.len() == existing,
        existing <= n <= l.requests@.len(),
        t.covers(site_count(def, existing)),
    ensures
        ({
            let b = nodes_built(l, def, existing, values, start, n);
            let o = origins_after(t, l.requests@, n);
            &&& b.pos.len() == o.len()
            &&& b.inv_mass.len() == o.len()
            &&& o.len() >= existing
            &&& forall|i: int|
                0 <= i < b.pos.len() ==> #[trigger] b.pos[i] == if i < existing {
                    start.pos[i]
                } else {
                    values.sites@[o[i] as int].pos
                }
        }),
    decreases n,
{
    assert(site_count(def, existing) == t.rows.len());
    if n == existing {
        existing_come_first(t, l, def, existing, n);
    } else {
        built_positions(t, l, def, existing, values, start, (n - 1) as nat);
        let o = origins_after(t, l.requests@, (n - 1) as nat);
        assert(l.nodes@[n - 1] == node_of(t, l.requests@, n - 1));
        lookup_is_earliest(t, o, l.requests@[n - 1].site, 0);
    }
}

proof fn existing_come_first(t: NearTable, l: Layout, def: KiteDefinition, existing: nat, n: nat)
    requires
        l.of(t, def, existing),
        n <= existing <= l.requests@.len(),
    ensures
        origins_after(t, l.requests@, n).len() == n,
    decreases n,
{
    if n > 0 {
        existing_come_first(t, l, def, existing, (n - 1) as nat);
        assert(l.requests@[n - 1].fresh);
    }
}

/// In the world that is built, the particles that were there have kept their
/// places, and every new one is, in all three of its places, where the site is
/// that it was made for. It is at rest, without a force.
pub proof fn particles_are_where_their_sites_are(
    before: World,
    after: World,
    t: NearTable,
    def: KiteDefinition,
    plan: KitePlan,
    values: KiteValues,
    i: int,
)
    requires
        before.wf(),
        particles_extended(before, after, def, plan, values),
        before.forces@.len() == before.particles.count(),
        plan.layout.of(t, def, before.particles.count()),
        t.covers(site_count(def, before.particles.count())),
        forall|j: int|
            0 <= j < plan.pins@.len() ==> (#[trigger] plan.pins@[j]) < plan.layout.origins@.len(),
        0 <= i < plan.layout.origins@.len(),
    ensures
        ({
            let existing = before.particles.count();
            let zero = Scalar { bits: 0 };
            let none = Vec3 { x: zero, y: zero, z: zero };
            let place = values.sites@[plan.layout.origins@[i] as int].pos;
            &&& after.particles.pos@.len() == plan.layout.origins@.len()
            &&& i < existing ==> {
                &&& after.particles.pos@[i] == before.particles.pos@[i]
                &&& after.particles.prev_pos@[i] == before.particles.prev_pos@[i]
                &&& after.particles.pred_pos@[i] == before.particles.pred_pos@[i]
                &&& after.forces@[i] == before.forces@[i]
            }
            &&& i >= existing ==> {
                &&& after.particles.pos@[i] == place
                &&& after.particles.prev_pos@[i] == place
                &&& after.particles.pred_pos@[i] == place
                &&& after.particles.vel@[i] == none
                &&& after.forces@[i] == none
            }
        }),
{
    let existing = before.particles.count();
    let l = plan.layout;
    let start = Nodes { pos: before.particles.pos@, inv_mass: before.particles.inv_mass@ };
    assert(l.requests@.len() >= existing);
    built_positions(t, l, def, existing, values, start, l.requests@.len());
    let grown = (l.origins@.len() - existing) as nat;
    let vel = before.particles.vel@ + zeros(grown);
    rest_only_stops(vel, plan.pins@, plan.pins@.len(), i);
    let built = nodes_built(l, def, existing, values, start, l.requests@.len());
    assert(l.origins@ == origins_after(t, l.requests@, l.requests@.len()));
    if i >= existing {
        assert(built.pos[i] == values.sites@[l.origins@[i] as int].pos);
        assert(built.pos.skip(existing as int)[i - existing] == built.pos[i]);
        assert(zeros(grown)[i - existing] == vel[i]);
        assert(after.forces@[i] == zeros(grown)[i - existing]);
        assert(after.particles.prev_pos@[i] == built.pos[i]);
    } else {
        assert(built.pos[i] == start.pos[i]);
        assert(after.particles.prev_pos@[i] == before.particles.prev_pos@[i]);
        assert(after.forces@[i] == before.forces@[i]);
    }
}

proof fn rest_only_stops(vel: Seq<Vec3>, pins: Seq<usize>, n: nat, i: int)
    requires
        n <= pins.len(),
        0 <= i < vel.len(),
        forall|j: int| 0 <= j < pins.len() ==> (#[trigger] pins[j]) < vel.len(),
    ensures
        rested(vel, pins, n).len() == vel.len(),
        rested(vel, pins, n)[i] == vel[i] || rested(vel, pins, n)[i] == (Vec3 {
            x: Scalar { bits: 0 },
            y: Scalar { bits: 0 },
            z: Scalar { bits: 0 },
        }),
    decreases n,
{
    if n > 0 {
        rest_only_stops(vel, pins, (n - 1) as nat, i);
        assert(pins[n - 1] < vel.len());
    }
}

/// Pinning fixes exactly the particles of the list, and stops them; the others
/// keep their masses and velocities.
pub proof fn pins_fix_what_is_listed(
    inv_mass: Seq<Scalar>,
    vel: Seq<Vec3>,
    pins: Seq<usize>,
    n: nat,
    i: int,
)
    requires
        n <= pins.len(),
        vel.len() == inv_mass.len(),
        forall|k: int| 0 <= k < pins.len() ==> (#[trigger] pins[k]) < inv_mass.len(),
        0 <= i < inv_mass.len(),
    ensures
        ({
            let listed = exists|k: int| 0 <= k < n && #[trigger] pins[k] == i;
            let zero = Scalar { bits: 0 };
            &&& pinned(inv_mass, pins, n).len() == inv_mass.len()
            &&& rested(vel, pins, n).len() == vel.len()
            &&& listed ==> pinned(inv_mass, pins, n)[i] == zero && rested(vel, pins, n)[i] == (Vec3 {
                x: zero,
                y: zero,
                z: zero,
            })
            &&& !listed ==> pinned(inv_mass, pins, n)[i] == inv_mass[i] && rested(vel, pins, n)[i]
                == vel[i]
        }),
    decreases n,
{
    if n > 0 {
        pins_fix_what_is_listed(inv_mass, vel, pins, (n - 1) as nat, i);
        assert(pins[n - 1] < inv_mass.len());
        if exists|k: int| 0 <= k < n && #[trigger] pins[k] == i {
            let k = choose|k: int| 0 <= k < n && #[trigger] pins[k] == i;
            if k < n - 1 {
                assert(pins[k] == i);
            }
        }
    }
}

} // verus!
