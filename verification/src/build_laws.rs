//! What holds of every kite that is built.
use crate::geometry::KiteDefinition;
use crate::kite_builder::{
    nodes_built, particles_extended, pinned, rested, zeros, KitePlan, KiteValues, Nodes,
};
use crate::layout::{
    ends_at_junction, ends_on, line_request, line_requests, line_segments, line_site,
    line_start_grows, node_at_end, ordered_requests, pin_request, site_count, Layout,
};
use crate::line_order::{cascade_is_built_in_order, cascades, listed};
use crate::scalar::{Scalar, Vec3};
use crate::weld::{
    later_request_reuses_node, node_of, origins_after, request_gets_coinciding_node, NearTable,
    Request,
};
use crate::world::World;
use vstd::prelude::*;

verus! {

/// Pinning leaves the length of the list, and pins every member of the list and
/// nothing else.
proof fn pins_take_hold(inv_mass: Seq<Scalar>, vel: Seq<Vec3>, pins: Seq<usize>, n: nat)
    requires
        n <= pins.len(),
        vel.len() == inv_mass.len(),
        forall|k: int| 0 <= k < pins.len() ==> (#[trigger] pins[k]) < inv_mass.len(),
    ensures
        pinned(inv_mass, pins, n).len() == inv_mass.len(),
        rested(vel, pins, n).len() == vel.len(),
        forall|k: int|
            0 <= k < n ==> pinned(inv_mass, pins, n)[#[trigger] pins[k] as int].bits == 0
                && rested(vel, pins, n)[pins[k] as int] == Vec3::spec_zero(),
        forall|i: int|
            0 <= i < inv_mass.len() && (forall|k: int| 0 <= k < n ==> #[trigger] pins[k] != i)
                ==> #[trigger] pinned(inv_mass, pins, n)[i] == inv_mass[i],
    decreases n,
{
    if n > 0 {
        pins_take_hold(inv_mass, vel, pins, (n - 1) as nat);
        assert(pins[n - 1] < inv_mass.len());
    }
}

/// The particle of every pinned point is pinned and at rest in the world that
/// is built.
pub proof fn pinned_points_are_pinned(
    before: World,
    after: World,
    def: KiteDefinition,
    plan: KitePlan,
    values: KiteValues,
    k: int,
)
    requires
        before.wf(),
        after.wf(),
        particles_extended(before, after, def, plan, values),
        forall|j: int|
            0 <= j < plan.pins@.len() ==> (#[trigger] plan.pins@[j]) < after.particles.count(),
        0 <= k < plan.pins@.len(),
    ensures
        after.particles.inv_mass@[plan.pins@[k] as int].bits == 0,
        after.particles.vel@[plan.pins@[k] as int] == Vec3::spec_zero(),
{
    let existing = before.particles.count();
    let l = plan.layout;
    let start = Nodes { pos: before.particles.pos@, inv_mass: before.particles.inv_mass@ };
    let built = nodes_built(l, def, existing, values, start, l.requests@.len());
    let grown = (l.origins@.len() - existing) as nat;
    let vel = before.particles.vel@ + zeros(grown);
    places_and_masses_match(l, def, existing, values, start, l.requests@.len());
    pins_take_hold(built.inv_mass, vel, plan.pins@, plan.pins@.len());
    assert(plan.pins@[k] < after.particles.count());
}

proof fn places_and_masses_match(
    l: Layout,
    def: KiteDefinition,
    existing: nat,
    values: KiteValues,
    start: Nodes,
    n: nat,
)
    requires
        start.pos.len() == start.inv_mass.len(),
    ensures
        nodes_built(l, def, existing, values, start, n).pos.len() == nodes_built(
            l,
            def,
            existing,
            values,
            start,
            n,
        ).inv_mass.len(),
    decreases n,
{
    if n > existing {
        places_and_masses_match(l, def, existing, values, start, (n - 1) as nat);
    }
}

/// A pinned point gets the node of a site that coincides with it, or one of its
/// own.
pub proof fn pinned_point_welds_or_stands_alone(
    t: NearTable,
    def: KiteDefinition,
    existing: nat,
    l: Layout,
    k: int,
)
    requires
        l.of(t, def, existing),
        0 <= k < def.pinned_points@.len(),
    ensures
        ({
            let i = pin_request(t, def, existing, l.order@) + k;
            let o = l.origins@[l.nodes@[i] as int];
            let site = l.requests@[i].site;
            &&& 0 <= i < l.requests@.len()
            &&& l.nodes@[i] < l.origins@.len()
            &&& o == site || t.near(o as int, site as int)
        }),
{
    let i = pin_request(t, def, existing, l.order@) + k;
    let n = def.pinned_points@.len();
    let all = l.requests@;
    assert(all.len() == pin_request(t, def, existing, l.order@) + n);
    assert(l.nodes@[i] == node_of(t, all, i));
    request_gets_coinciding_node(t, all, i, all.len());
}

/// Where the requests of the `m`-th line stand among those of the first `n`.
proof fn line_stands_in_order(
    t: NearTable,
    def: KiteDefinition,
    existing: nat,
    order: Seq<usize>,
    m: int,
    n: int,
    x: int,
)
    requires
        0 <= m < n <= order.len(),
        0 <= x < line_requests(t, def, existing, order[m] as int).len(),
    ensures
        ({
            let start = ordered_requests(t, def, existing, order, m as nat).len();
            let all = ordered_requests(t, def, existing, order, n as nat);
            &&& start + line_requests(t, def, existing, order[m] as int).len() <= all.len()
            &&& all[start + x] == line_requests(t, def, existing, order[m] as int)[x]
        }),
    decreases n,
{
    if m < n - 1 {
        line_stands_in_order(t, def, existing, order, m, n - 1, x);
    }
}

/// Where the requests of the `m`-th line stand among all.
proof fn line_stands_among_all(
    t: NearTable,
    def: KiteDefinition,
    existing: nat,
    l: Layout,
    m: int,
    x: int,
)
    requires
        l.of(t, def, existing),
        0 <= m < l.order@.len(),
        0 <= x < line_requests(t, def, existing, l.order@[m] as int).len(),
    ensures
        ({
            let at = line_request(t, def, existing, l.order@, m) + x;
            &&& 0 <= at < l.requests@.len()
            &&& l.requests@[at] == line_requests(t, def, existing, l.order@[m] as int)[x]
        }),
{
    line_stands_in_order(t, def, existing, l.order@, m, l.order@.len() as int, x);
}

/// A line that is built before another makes its requests before it.
proof fn earlier_line_requests_earlier(
    t: NearTable,
    def: KiteDefinition,
    existing: nat,
    order: Seq<usize>,
    m: int,
    n: int,
    x: int,
)
    requires
        0 <= m < n <= order.len(),
        0 <= x < line_requests(t, def, existing, order[m] as int).len(),
    ensures
        line_request(t, def, existing, order, m) + x < line_request(t, def, existing, order, n),
{
    line_stands_in_order(t, def, existing, order, m, n, x);
}

/// A line that ends on another is built after it, where the lines cascade.
proof fn knot_comes_later(
    t: NearTable,
    def: KiteDefinition,
    existing: nat,
    l: Layout,
    rank: spec_fn(usize) -> nat,
    b: usize,
    c: usize,
) -> (r: (int, int))
    requires
        l.of(t, def, existing),
        cascades(l.ties@, listed(def.bridles@.len()), rank),
        b < def.bridles@.len(),
        c < def.bridles@.len(),
        b != c,
        ends_on(t, def, existing, b as int, c as int),
    ensures
        0 <= r.0 < r.1 < l.order@.len(),
        l.order@[r.0] == c,
        l.order@[r.1] == b,
{
    let order = l.order@;
    let n = def.bridles@.len();
    assert(n == def.bridles.len());
    assert(l.ties@[b as int]@[c as int]);
    assert(listed(n)[b as int] == b && listed(n)[c as int] == c);
    cascade_is_built_in_order(l.ties@, listed(n), rank, b, c);
    choose|x: int, y: int|
        #![trigger order[x], order[y]]
        0 <= x < y < order.len() && order[x] == c && order[y] == b
}

/// Request `j` welds to a node that is there once request `i` is served.
pub open spec fn welds_no_later(t: NearTable, l: Layout, i: int, j: int) -> bool {
    &&& 0 <= i < j < l.requests@.len()
    &&& l.nodes@[j] <= l.nodes@[i]
    &&& origins_after(t, l.requests@, (j + 1) as nat) == origins_after(t, l.requests@, j as nat)
}

/// Of lines that cascade, one that ends at an inner node of another welds there
/// and makes no node of its own, wherever the two are listed.
pub proof fn knots_weld(
    t: NearTable,
    def: KiteDefinition,
    existing: nat,
    l: Layout,
    rank: spec_fn(usize) -> nat,
    b: usize,
    c: usize,
    k: int,
    second: bool,
)
    requires
        t.covers(site_count(def, existing)),
        l.of(t, def, existing),
        cascades(l.ties@, listed(def.bridles@.len()), rank),
        b < def.bridles@.len(),
        c < def.bridles@.len(),
        b != c,
        1 <= k < line_segments(def, c as int),
        second ==> !ends_at_junction(t, def, existing, b as int),
        t.near(
            line_site(def, existing, c as int) + 1 + k,
            line_site(def, existing, b as int) + if second {
                1int
            } else {
                0
            },
        ),
    ensures
        exists|i: int, j: int|
            #![trigger welds_no_later(t, l, i, j)]
            welds_no_later(t, l, i, j) && l.requests@[i] == (Request {
                site: (line_site(def, existing, c as int) + 1 + k) as usize,
                fresh: true,
            }) && l.requests@[j] == (Request {
                site: (line_site(def, existing, b as int) + if second {
                    1int
                } else {
                    0
                }) as usize,
                fresh: false,
            }),
{
    let all = l.requests@;
    let order = l.order@;
    let lines = def.bridles@.len() as int;
    assert(site_count(def, existing) == t.rows.len());
    line_start_grows(def, b as int, lines);
    line_start_grows(def, c as int, lines);
    assert(node_at_end(t, def, existing, b as int, c as int, k));
    let (mc, mb) = knot_comes_later(t, def, existing, l, rank, b, c);
    // The inner node's request and the end's, within their lines.
    let xc: int = if ends_at_junction(t, def, existing, c as int) { k } else { k + 1 };
    let xb: int = if second { 1 } else { 0 };
    let i = line_request(t, def, existing, order, mc) + xc;
    let j = line_request(t, def, existing, order, mb) + xb;
    line_stands_among_all(t, def, existing, l, mc, xc);
    line_stands_among_all(t, def, existing, l, mb, xb);
    earlier_line_requests_earlier(t, def, existing, order, mc, mb, xc);
    assert(l.nodes@[i] == node_of(t, all, i));
    assert(l.nodes@[j] == node_of(t, all, j));
    later_request_reuses_node(t, all, i, j);
    assert(welds_no_later(t, l, i, j));
}

} // verus!
