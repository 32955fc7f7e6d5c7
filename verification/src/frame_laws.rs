//! What a kite's frame and fabric are made of.
use crate::cloth::{
    cloth_edges, constrained, fold_of, folds_of, has_edge, only_pair, sides_of, tri_sides,
    ClothEdge, Fold, MeshTri, Side,
};
use crate::constraints::DistanceConstraint;
use crate::frame::{
    contacts_of, cross_pairs, junction_pairs, lash_of, lashes_of, mesh_of, nearest_is_nearest,
    nearest_node, node_spars, pairs_with, panel_mesh, panel_node, segment_start, spar_contacts,
    spar_node, stiff_pairs, touching, Contact, LashPair, StiffPair,
};
use crate::geometry::{at_least_one, KiteDefinition};
use crate::layout::{spar_total, Layout};
use crate::mesh::{down_tri, downs_below, grid_tris, up_tri, ups_below, vert_index, GridTri};
use crate::scalar::Scalar;
use crate::weld::{lookup, lookup_is_earliest, origins_after, NearTable};
use vstd::prelude::*;

verus! {

proof fn pairs_with_one(touch: Seq<Contact>, junction: usize, a: int, n: int, pair: StiffPair)
    requires
        0 <= a,
        n <= touch.len(),
    ensures
        pairs_with(touch, junction, a, n).contains(pair) <==> exists|b: int|
            a < b < n && (#[trigger] touch[b]).spar != touch[a].spar && pair.junction == junction
                && pair.first == touch[a].segment && pair.second == touch[b].segment,
    decreases n - a,
{
    if n > a + 1 {
        pairs_with_one(touch, junction, a, n - 1, pair);
        let before = pairs_with(touch, junction, a, n - 1);
        let all = pairs_with(touch, junction, a, n);
        let last = touch[n - 1];
        if all.contains(pair) {
            let k = choose|k: int| 0 <= k < all.len() && all[k] == pair;
            if k < before.len() {
                assert(before[k] == pair);
            } else {
                assert(touch[n - 1].spar != touch[a].spar);
            }
        }
        if before.contains(pair) {
            let k = choose|k: int| 0 <= k < before.len() && before[k] == pair;
            assert(all[k] == pair);
        }
        if last.spar != touch[a].spar {
            assert(all[before.len() as int].second == last.segment);
        }
    }
}

/// A stiff junction locks each two segments that touch it together, of two
/// different spars, in the order in which they touch it, and no others.
pub proof fn stiff_junctions_lock_spars_together(
    touch: Seq<Contact>,
    junction: usize,
    n: nat,
    pair: StiffPair,
)
    requires
        n <= touch.len(),
    ensures
        cross_pairs(touch, junction, n).contains(pair) <==> exists|a: int, b: int|
            #![trigger touch[a], touch[b]]
            0 <= a < n && a < b < touch.len() && touch[a].spar != touch[b].spar && pair.junction
                == junction && pair.first == touch[a].segment && pair.second == touch[b].segment,
    decreases n,
{
    if n > 0 {
        stiff_junctions_lock_spars_together(touch, junction, (n - 1) as nat, pair);
        let before = cross_pairs(touch, junction, (n - 1) as nat);
        let more = pairs_with(touch, junction, n - 1, touch.len() as int);
        let all = cross_pairs(touch, junction, n);
        pairs_with_one(touch, junction, n - 1, touch.len() as int, pair);
        if all.contains(pair) {
            let k = choose|k: int| 0 <= k < all.len() && all[k] == pair;
            if k < before.len() {
                assert(before[k] == pair);
            } else {
                assert(more[k - before.len()] == pair);
                let b = choose|b: int|
                    n - 1 < b < touch.len() && (#[trigger] touch[b]).spar != touch[n - 1].spar
                        && pair.junction == junction && pair.first == touch[n - 1].segment
                        && pair.second == touch[b].segment;
                assert(touch[n - 1].spar != touch[b].spar);
            }
        }
        if before.contains(pair) {
            let k = choose|k: int| 0 <= k < before.len() && before[k] == pair;
            assert(all[k] == pair);
        }
        if more.contains(pair) {
            let k = choose|k: int| 0 <= k < more.len() && more[k] == pair;
            assert(all[before.len() + k] == pair);
        }
    }
}

/// How many of the first `n` contacts are at a particle.
pub open spec fn touching_below(contacts: Seq<Contact>, particle: usize, n: nat) -> nat
    decreases n,
{
    if n == 0 {
        0
    } else {
        touching_below(contacts, particle, (n - 1) as nat) + if contacts[n - 1].particle
            == particle {
            1nat
        } else {
            0nat
        }
    }
}

/// What touches a particle is every contact at it, in the contacts' order.
pub proof fn all_contacts_at_a_particle_touch_it(contacts: Seq<Contact>, particle: usize, n: nat)
    requires
        n <= contacts.len(),
    ensures
        ({
            let t = touching(contacts, particle, n);
            &&& t.len() == touching_below(contacts, particle, n)
            &&& forall|k: int|
                0 <= k < n && (#[trigger] contacts[k]).particle == particle ==> {
                    &&& touching_below(contacts, particle, k as nat) < t.len()
                    &&& t[touching_below(contacts, particle, k as nat) as int] == contacts[k]
                }
        }),
    decreases n,
{
    if n > 0 {
        all_contacts_at_a_particle_touch_it(contacts, particle, (n - 1) as nat);
    }
}

proof fn spar_contacts_at(
    l: Layout,
    def: KiteDefinition,
    existing: nat,
    base: nat,
    s: int,
    n: nat,
    i: int,
)
    requires
        0 <= i < n,
    ensures
        ({
            let c = spar_contacts(l, def, existing, base, s, n);
            let segment = (base + segment_start(def, s as nat) + i) as usize;
            &&& c.len() == 2 * n
            &&& c[2 * i] == (Contact {
                particle: spar_node(l, def, existing, s, i),
                spar: s as usize,
                segment,
            })
            &&& c[2 * i + 1] == (Contact {
                particle: spar_node(l, def, existing, s, i + 1),
                spar: s as usize,
                segment,
            })
        }),
    decreases n,
{
    spar_contacts_len(l, def, existing, base, s, (n - 1) as nat);
    if i < n - 1 {
        spar_contacts_at(l, def, existing, base, s, (n - 1) as nat, i);
    }
}

proof fn spar_contacts_len(l: Layout, def: KiteDefinition, existing: nat, base: nat, s: int, n: nat)
    ensures
        spar_contacts(l, def, existing, base, s, n).len() == 2 * n,
    decreases n,
{
    if n > 0 {
        spar_contacts_len(l, def, existing, base, s, (n - 1) as nat);
    }
}

/// Every segment of every spar touches the two nodes that it lies between, in
/// the order of the segments, and there are no other contacts. The segments are
/// numbered through, spar by spar.
pub proof fn segments_touch_their_two_ends(
    l: Layout,
    def: KiteDefinition,
    existing: nat,
    base: nat,
    m: nat,
    s: int,
    i: int,
)
    requires
        0 <= s < m <= def.spars@.len(),
        0 <= i < def.spars@[s].num_segments,
    ensures
        segment_start(def, 0) == 0,
        segment_start(def, (s + 1) as nat) == segment_start(def, s as nat)
            + def.spars@[s].num_segments,
        ({
            let c = contacts_of(l, def, existing, base, m);
            let at = segment_start(def, s as nat) + i;
            &&& c.len() == 2 * segment_start(def, m)
            &&& at < segment_start(def, m)
            &&& c[2 * at].particle == spar_node(l, def, existing, s, i)
            &&& c[2 * at + 1].particle == spar_node(l, def, existing, s, i + 1)
            &&& c[2 * at].spar == s as usize
            &&& c[2 * at + 1].spar == s as usize
            &&& c[2 * at].segment == (base + at) as usize
            &&& c[2 * at + 1].segment == (base + at) as usize
        }),
    decreases m,
{
    let before = contacts_of(l, def, existing, base, (m - 1) as nat);
    let n = def.spars@[m - 1].num_segments as nat;
    let more = spar_contacts(l, def, existing, base, m - 1, n);
    spar_contacts_len(l, def, existing, base, m - 1, n);
    contacts_len(l, def, existing, base, (m - 1) as nat);
    if s < m - 1 {
        segments_touch_their_two_ends(l, def, existing, base, (m - 1) as nat, s, i);
    } else {
        spar_contacts_at(l, def, existing, base, s, n, i);
        let at = segment_start(def, s as nat) + i;
        assert((before + more)[2 * at] == more[2 * i]);
        assert((before + more)[2 * at + 1] == more[2 * i + 1]);
    }
}

proof fn contacts_len(l: Layout, def: KiteDefinition, existing: nat, base: nat, m: nat)
    ensures
        contacts_of(l, def, existing, base, m).len() == 2 * segment_start(def, m),
    decreases m,
{
    if m > 0 {
        contacts_len(l, def, existing, base, (m - 1) as nat);
        spar_contacts_len(l, def, existing, base, m - 1, def.spars@[m - 1].num_segments as nat);
    }
}

/// The triangle that points up at a vertex of the grid.
pub open spec fn points_up(t: GridTri, i: usize, j: usize) -> bool {
    &&& t.a.i == i && t.a.j == j
    &&& t.b.i == i + 1 && t.b.j == j
    &&& t.c.i == i && t.c.j == j + 1
}

/// The triangle that fills the gap next to it.
pub open spec fn points_down(t: GridTri, i: usize, j: usize) -> bool {
    &&& t.a.i == i + 1 && t.a.j == j
    &&& t.b.i == i + 1 && t.b.j == j + 1
    &&& t.c.i == i && t.c.j == j + 1
}

proof fn ups_have(n: nat, rows: nat, i: usize, j: usize, t: GridTri)
    requires
        rows <= n < usize::MAX,
    ensures
        points_up(t, i, j) ==> (ups_below(n, rows).contains(t) <==> j < rows && i + j < n),
        ups_below(n, rows).contains(t) ==> points_up(t, t.a.i, t.a.j),
    decreases rows,
{
    if rows > 0 {
        ups_have(n, (rows - 1) as nat, i, j, t);
        let before = ups_below(n, (rows - 1) as nat);
        let row = Seq::new((n - (rows - 1)) as nat, |x: int| up_tri(x, rows - 1));
        let all = ups_below(n, rows);
        assert(all == before + row);
        if all.contains(t) {
            let k = choose|k: int| 0 <= k < all.len() && all[k] == t;
            if k < before.len() {
                assert(before[k] == t);
            } else {
                assert(row[k - before.len()] == t);
            }
        }
        if before.contains(t) {
            let k = choose|k: int| 0 <= k < before.len() && before[k] == t;
            assert(all[k] == t);
        }
        if points_up(t, i, j) && j == rows - 1 && i + j < n {
            assert(row[i as int] == t);
            assert(all[before.len() + i as int] == t);
        }
    }
}

proof fn downs_have(n: nat, rows: nat, i: usize, j: usize, t: GridTri)
    requires
        rows + 1 <= n < usize::MAX,
    ensures
        points_down(t, i, j) ==> (downs_below(n, rows).contains(t) <==> j < rows && i + j + 1 < n),
        downs_below(n, rows).contains(t) ==> points_down(t, t.c.i, t.a.j),
    decreases rows,
{
    if rows > 0 {
        downs_have(n, (rows - 1) as nat, i, j, t);
        let before = downs_below(n, (rows - 1) as nat);
        let row = Seq::new(
            (n - 1 - (rows - 1)) as nat,
            |x: int| down_tri(x, rows - 1),
        );
        let all = downs_below(n, rows);
        assert(all == before + row);
        if all.contains(t) {
            let k = choose|k: int| 0 <= k < all.len() && all[k] == t;
            if k < before.len() {
                assert(before[k] == t);
            } else {
                assert(row[k - before.len()] == t);
            }
        }
        if before.contains(t) {
            let k = choose|k: int| 0 <= k < before.len() && before[k] == t;
            assert(all[k] == t);
        }
        if points_down(t, i, j) && j == rows - 1 && i + j + 1 < n {
            assert(row[i as int] == t);
            assert(all[before.len() + i as int] == t);
        }
    }
}

/// A panel's grid of `n` subdivisions consists of the triangles that point up at
/// each vertex but those of the far side, and of those that fill the gaps
/// between them.
pub proof fn triangles_tile_the_panel(n: nat, i: usize, j: usize, t: GridTri)
    requires
        0 < n < usize::MAX,
    ensures
        points_up(t, i, j) ==> (grid_tris(n).contains(t) <==> i + j < n),
        points_down(t, i, j) ==> (grid_tris(n).contains(t) <==> i + j + 1 < n),
        grid_tris(n).contains(t) ==> points_up(t, t.a.i, t.a.j) || points_down(t, t.c.i, t.a.j),
{
    ups_have(n, n, i, j, t);
    downs_have(n, (n - 1) as nat, i, j, t);
    let u = ups_below(n, n);
    let d = downs_below(n, (n - 1) as nat);
    let all = grid_tris(n);
    if all.contains(t) {
        let k = choose|k: int| 0 <= k < all.len() && all[k] == t;
        if k < u.len() {
            assert(u[k] == t);
        } else {
            assert(d[k - u.len()] == t);
        }
    }
    if u.contains(t) {
        let k = choose|k: int| 0 <= k < u.len() && u[k] == t;
        assert(all[k] == t);
    }
    if d.contains(t) {
        let k = choose|k: int| 0 <= k < d.len() && d[k] == t;
        assert(all[u.len() + k] == t);
    }
}

/// How many triangles the first `m` panels have.
pub open spec fn triangles_before(def: KiteDefinition, m: nat) -> nat
    decreases m,
{
    if m == 0 {
        0
    } else {
        triangles_before(def, (m - 1) as nat) + grid_tris(
            at_least_one(def.panels@[m - 1].subdivisions),
        ).len()
    }
}

/// The mesh has each triangle of each panel's grid in its turn, between the
/// particles at its three vertices, and knows its panel.
pub proof fn meshes_have_every_triangle(
    l: Layout,
    def: KiteDefinition,
    existing: nat,
    m: nat,
    p: int,
    k: int,
)
    requires
        0 <= p < m <= def.panels@.len(),
        0 <= k < grid_tris(at_least_one(def.panels@[p].subdivisions)).len(),
    ensures
        ({
            let n = at_least_one(def.panels@[p].subdivisions);
            let g = grid_tris(n)[k];
            let mesh = mesh_of(l, def, existing, m);
            let t = mesh[triangles_before(def, p as nat) + k];
            &&& mesh.len() == triangles_before(def, m)
            &&& triangles_before(def, p as nat) + k < mesh.len()
            &&& t.panel == p as usize
            &&& t.a == panel_node(l, def, existing, p, vert_index(n, g.a) as int)
            &&& t.b == panel_node(l, def, existing, p, vert_index(n, g.b) as int)
            &&& t.c == panel_node(l, def, existing, p, vert_index(n, g.c) as int)
        }),
    decreases m,
{
    mesh_len(l, def, existing, (m - 1) as nat);
    let before = mesh_of(l, def, existing, (m - 1) as nat);
    let more = panel_mesh(l, def, existing, m - 1);
    if p < m - 1 {
        meshes_have_every_triangle(l, def, existing, (m - 1) as nat, p, k);
    } else {
        assert((before + more)[before.len() + k] == more[k]);
    }
}

proof fn mesh_len(l: Layout, def: KiteDefinition, existing: nat, m: nat)
    ensures
        mesh_of(l, def, existing, m).len() == triangles_before(def, m),
    decreases m,
{
    if m > 0 {
        mesh_len(l, def, existing, (m - 1) as nat);
    }
}

/// How many nodes the first `m` spars have: one more than segments, each.
pub open spec fn nodes_before(def: KiteDefinition, m: nat) -> nat
    decreases m,
{
    if m == 0 {
        0
    } else {
        nodes_before(def, (m - 1) as nat) + def.spars@[m - 1].num_segments as nat + 1
    }
}

/// Each node of a spar is listed as that spar's, in the spars' order.
pub proof fn nodes_know_their_spar(def: KiteDefinition, m: nat, s: int, i: int)
    requires
        0 <= s < m <= def.spars@.len(),
        0 <= i <= def.spars@[s].num_segments,
    ensures
        node_spars(def, m).len() == nodes_before(def, m),
        nodes_before(def, s as nat) + i < nodes_before(def, m),
        node_spars(def, m)[nodes_before(def, s as nat) + i] == s as usize,
    decreases m,
{
    node_spars_len(def, (m - 1) as nat);
    if s < m - 1 {
        nodes_know_their_spar(def, (m - 1) as nat, s, i);
    }
}

proof fn node_spars_len(def: KiteDefinition, m: nat)
    ensures
        node_spars(def, m).len() == nodes_before(def, m),
    decreases m,
{
    if m > 0 {
        node_spars_len(def, (m - 1) as nat);
    }
}

/// The nearest node that is not skipped is found, and of several that are
/// equally near the first.
pub proof fn the_first_of_the_nearest_is_found(
    distances: Seq<Scalar>,
    spars: Seq<usize>,
    skip: Option<usize>,
    n: nat,
    k: int,
)
    requires
        n <= spars.len() <= usize::MAX,
        distances.len() == spars.len(),
        forall|j: int| 0 <= j < n ==> !(#[trigger] distances[j]).nan(),
        0 <= k < n,
        skip != Some(spars[k]),
        forall|j: int|
            0 <= j < n && skip != Some(spars[j]) ==> !(#[trigger] distances[j]).less(distances[k]),
        forall|j: int|
            0 <= j < k && skip != Some(spars[j]) ==> distances[k].less(#[trigger] distances[j]),
    ensures
        nearest_node(distances, spars, skip, n) == Some(k as usize),
    decreases n,
{
    nearest_is_nearest(distances, spars, skip, (n - 1) as nat);
    if k < n - 1 {
        the_first_of_the_nearest_is_found(distances, spars, skip, (n - 1) as nat, k);
        assert(!distances[n - 1].less(distances[k]) || skip == Some(spars[n - 1]));
    } else {
        let b = nearest_node(distances, spars, skip, (n - 1) as nat);
        if b is Some {
            assert(distances[k].less(distances[b->0 as int]));
        }
    }
}

/// A lashing ties the node that is nearest to it to the nearest node of another
/// spar, unless both are one particle, or there is no other spar.
pub proof fn lashings_tie_two_spars(
    l: Layout,
    def: KiteDefinition,
    existing: nat,
    distances: Seq<Scalar>,
    lashing: int,
    a: int,
    b: int,
)
    requires
        node_spars(def, def.spars@.len()).len() == distances.len() <= usize::MAX,
        forall|j: int| 0 <= j < distances.len() ==> !(#[trigger] distances[j]).nan(),
        0 <= a < distances.len(),
        0 <= b < distances.len(),
        forall|j: int|
            0 <= j < distances.len() ==> !(#[trigger] distances[j]).less(distances[a]),
        forall|j: int| 0 <= j < a ==> distances[a].less(#[trigger] distances[j]),
        node_spars(def, def.spars@.len())[b] != node_spars(def, def.spars@.len())[a],
        forall|j: int|
            0 <= j < distances.len() && node_spars(def, def.spars@.len())[j] != node_spars(
                def,
                def.spars@.len(),
            )[a] ==> !(#[trigger] distances[j]).less(distances[b]),
        forall|j: int|
            0 <= j < b && node_spars(def, def.spars@.len())[j] != node_spars(
                def,
                def.spars@.len(),
            )[a] ==> distances[b].less(#[trigger] distances[j]),
    ensures
        ({
            let p = l.nodes@[existing + a];
            let q = l.nodes@[existing + b];
            &&& p == q ==> lash_of(l, def, existing, distances, lashing).len() == 0
            &&& p != q ==> lash_of(l, def, existing, distances, lashing) == seq![
                LashPair { lashing: lashing as usize, a: p, b: q },
            ]
        }),
{
    let spars = node_spars(def, def.spars@.len());
    the_first_of_the_nearest_is_found(distances, spars, None, spars.len(), a);
    the_first_of_the_nearest_is_found(distances, spars, Some(spars[a]), spars.len(), b);
}

/// A stiff junction is at the first node, of those that were there and those of
/// the spars, that coincides with its point; it locks the spars that touch that
/// node. One that coincides with none locks nothing.
pub proof fn stiff_junctions_are_at_the_first_node_there(
    t: NearTable,
    l: Layout,
    def: KiteDefinition,
    existing: nat,
    base: nat,
    j: int,
    p: int,
)
    requires
        0 <= j < def.stiff_junctions@.len(),
        existing + spar_total(def) + j <= usize::MAX,
    ensures
        ({
            let nodes = origins_after(t, l.requests@, existing + spar_total(def));
            let site = existing + spar_total(def) + j;
            let contacts = contacts_of(l, def, existing, base, def.spars@.len());
            let touch = touching(contacts, p as usize, contacts.len());
            let pairs = junction_pairs(t, l, def, existing, base, j);
            &&& 0 <= p < nodes.len() && t.near(nodes[p] as int, site) && (forall|i: int|
                0 <= i < p ==> !t.near(#[trigger] nodes[i] as int, site)) ==> pairs == cross_pairs(
                touch,
                j as usize,
                touch.len(),
            )
            &&& (forall|i: int|
                0 <= i < nodes.len() ==> !t.near(#[trigger] nodes[i] as int, site)) ==> pairs.len()
                == 0
        }),
{
    let nodes = origins_after(t, l.requests@, existing + spar_total(def));
    let site = (existing + spar_total(def) + j) as usize;
    lookup_is_earliest(t, nodes, site, 0);
    let q = lookup(t, nodes, site, 0) as int;
    if 0 <= p < nodes.len() && t.near(nodes[p] as int, site as int) {
        if p < q {
            assert(!t.near(nodes[p] as int, site as int));
        }
    }
}

/// How many pairs the first `m` stiff junctions lock.
pub open spec fn pairs_before(
    t: NearTable,
    l: Layout,
    def: KiteDefinition,
    existing: nat,
    base: nat,
    m: nat,
) -> nat
    decreases m,
{
    if m == 0 {
        0
    } else {
        pairs_before(t, l, def, existing, base, (m - 1) as nat) + junction_pairs(
            t,
            l,
            def,
            existing,
            base,
            m - 1,
        ).len()
    }
}

/// The pairs of each stiff junction are there in turn, and there are no others.
pub proof fn each_stiff_junction_has_its_pairs(
    t: NearTable,
    l: Layout,
    def: KiteDefinition,
    existing: nat,
    base: nat,
    m: nat,
    j: int,
    k: int,
)
    requires
        0 <= j < m,
        0 <= k < junction_pairs(t, l, def, existing, base, j).len(),
    ensures
        ({
            let all = stiff_pairs(t, l, def, existing, base, m);
            let at = pairs_before(t, l, def, existing, base, j as nat) + k;
            &&& all.len() == pairs_before(t, l, def, existing, base, m)
            &&& at < all.len()
            &&& all[at] == junction_pairs(t, l, def, existing, base, j)[k]
        }),
    decreases m,
{
    pairs_len(t, l, def, existing, base, (m - 1) as nat);
    let before = stiff_pairs(t, l, def, existing, base, (m - 1) as nat);
    let more = junction_pairs(t, l, def, existing, base, m - 1);
    if j < m - 1 {
        each_stiff_junction_has_its_pairs(t, l, def, existing, base, (m - 1) as nat, j, k);
    } else {
        assert((before + more)[before.len() + k] == more[k]);
    }
}

proof fn pairs_len(t: NearTable, l: Layout, def: KiteDefinition, existing: nat, base: nat, m: nat)
    ensures
        stiff_pairs(t, l, def, existing, base, m).len() == pairs_before(
            t,
            l,
            def,
            existing,
            base,
            m,
        ),
    decreases m,
{
    if m > 0 {
        pairs_len(t, l, def, existing, base, (m - 1) as nat);
    }
}

/// How many ties the first `m` lashings make.
pub open spec fn lashes_before(
    l: Layout,
    def: KiteDefinition,
    existing: nat,
    distances: Seq<Vec<Scalar>>,
    m: nat,
) -> nat
    decreases m,
{
    if m == 0 {
        0
    } else {
        lashes_before(l, def, existing, distances, (m - 1) as nat) + lash_of(
            l,
            def,
            existing,
            distances[m - 1]@,
            m - 1,
        ).len()
    }
}

/// Each lashing makes its tie in turn, by its own distances, and there are no
/// other ties.
pub proof fn each_lashing_makes_its_tie(
    l: Layout,
    def: KiteDefinition,
    existing: nat,
    distances: Seq<Vec<Scalar>>,
    m: nat,
    j: int,
    k: int,
)
    requires
        0 <= j < m,
        0 <= k < lash_of(l, def, existing, distances[j]@, j).len(),
    ensures
        ({
            let all = lashes_of(l, def, existing, distances, m);
            let at = lashes_before(l, def, existing, distances, j as nat) + k;
            &&& all.len() == lashes_before(l, def, existing, distances, m)
            &&& at < all.len()
            &&& all[at] == lash_of(l, def, existing, distances[j]@, j)[k]
        }),
    decreases m,
{
    lashes_len(l, def, existing, distances, (m - 1) as nat);
    let before = lashes_of(l, def, existing, distances, (m - 1) as nat);
    let more = lash_of(l, def, existing, distances[m - 1]@, m - 1);
    if j < m - 1 {
        each_lashing_makes_its_tie(l, def, existing, distances, (m - 1) as nat, j, k);
    } else {
        assert((before + more)[before.len() + k] == more[k]);
    }
}

proof fn lashes_len(
    l: Layout,
    def: KiteDefinition,
    existing: nat,
    distances: Seq<Vec<Scalar>>,
    m: nat,
)
    ensures
        lashes_of(l, def, existing, distances, m).len() == lashes_before(
            l,
            def,
            existing,
            distances,
            m,
        ),
    decreases m,
{
    if m > 0 {
        lashes_len(l, def, existing, distances, (m - 1) as nat);
    }
}

/// Each triangle has its three sides in turn, from each corner to the next, with
/// the third corner opposite.
pub proof fn triangles_have_three_sides(tris: Seq<MeshTri>, n: nat, k: int)
    requires
        0 <= k < n <= tris.len(),
    ensures
        ({
            let s = sides_of(tris, n);
            let t = tris[k];
            &&& s.len() == 3 * n
            &&& s[3 * k] == (Side { panel: t.panel, a: t.a, b: t.b, opposite: t.c })
            &&& s[3 * k + 1] == (Side { panel: t.panel, a: t.b, b: t.c, opposite: t.a })
            &&& s[3 * k + 2] == (Side { panel: t.panel, a: t.c, b: t.a, opposite: t.b })
        }),
    decreases n,
{
    sides_len(tris, (n - 1) as nat);
    if k < n - 1 {
        triangles_have_three_sides(tris, (n - 1) as nat, k);
    } else {
        let before = sides_of(tris, (n - 1) as nat);
        let more = tri_sides(tris[n - 1]);
        assert((before + more)[before.len() as int] == more[0]);
        assert((before + more)[before.len() as int + 1] == more[1]);
        assert((before + more)[before.len() as int + 2] == more[2]);
    }
}

proof fn sides_len(tris: Seq<MeshTri>, n: nat)
    ensures
        sides_of(tris, n).len() == 3 * n,
    decreases n,
{
    if n > 0 {
        sides_len(tris, (n - 1) as nat);
    }
}

/// Two sides lie along each other, one way or the other.
pub open spec fn same_edge(s: Side, a: usize, b: usize) -> bool {
    s.a == a && s.b == b || s.a == b && s.b == a
}

/// A constraint joins two particles, one way or the other.
pub open spec fn joins(c: DistanceConstraint, a: usize, b: usize) -> bool {
    c.p1 == a && c.p2 == b || c.p1 == b && c.p2 == a
}

/// The cloth has an edge for exactly those sides along which no constraint
/// joined the particles before, and no side came before: the first side along an
/// edge gives it its panel and its direction.
pub proof fn first_sides_become_edges(
    cs: Seq<DistanceConstraint>,
    sides: Seq<Side>,
    n: nat,
    e: ClothEdge,
)
    requires
        n <= sides.len(),
    ensures
        cloth_edges(cs, sides, n).contains(e) <==> exists|i: int|
            {
                &&& 0 <= i < n
                &&& (#[trigger] sides[i]).panel == e.panel && sides[i].a == e.a && sides[i].b == e.b
                &&& forall|k: int| 0 <= k < cs.len() ==> !joins(#[trigger] cs[k], e.a, e.b)
                &&& forall|j: int| 0 <= j < i ==> !same_edge(#[trigger] sides[j], e.a, e.b)
            },
    decreases n,
{
    if n > 0 {
        first_sides_become_edges(cs, sides, (n - 1) as nat, e);
        let before = cloth_edges(cs, sides, (n - 1) as nat);
        let all = cloth_edges(cs, sides, n);
        let s = sides[n - 1];
        if !constrained(cs, s.a, s.b) {
            edges_are_earlier_sides(cs, sides, (n - 1) as nat, s.a, s.b);
        }
        if before.contains(e) {
            let k = choose|k: int| 0 <= k < before.len() && before[k] == e;
            assert(all[k] == e);
        }
        let new = !constrained(cs, s.a, s.b) && !has_edge(
            before,
            s.a,
            s.b,
        );
        if all.contains(e) && !before.contains(e) {
            let k = choose|k: int| 0 <= k < all.len() && all[k] == e;
            if k < before.len() {
                assert(before[k] == e);
            }
            assert(new);
            assert(s.panel == e.panel && s.a == e.a && s.b == e.b);
            assert forall|k: int| 0 <= k < cs.len() implies !joins(#[trigger] cs[k], e.a, e.b) by {}
        }
        if exists|i: int|
            {
                &&& 0 <= i < n
                &&& (#[trigger] sides[i]).panel == e.panel && sides[i].a == e.a && sides[i].b == e.b
                &&& forall|k: int| 0 <= k < cs.len() ==> !joins(#[trigger] cs[k], e.a, e.b)
                &&& forall|j: int| 0 <= j < i ==> !same_edge(#[trigger] sides[j], e.a, e.b)
            } {
            let i = choose|i: int|
                {
                    &&& 0 <= i < n
                    &&& (#[trigger] sides[i]).panel == e.panel && sides[i].a == e.a && sides[i].b
                        == e.b
                    &&& forall|k: int| 0 <= k < cs.len() ==> !joins(#[trigger] cs[k], e.a, e.b)
                    &&& forall|j: int| 0 <= j < i ==> !same_edge(#[trigger] sides[j], e.a, e.b)
                };
            if i == n - 1 {
                if constrained(cs, s.a, s.b) {
                    let k = choose|k: int|
                        0 <= k < cs.len() && ((#[trigger] cs[k]).p1 == s.a && cs[k].p2 == s.b
                            || cs[k].p1 == s.b && cs[k].p2 == s.a);
                    assert(joins(cs[k], e.a, e.b));
                }
                assert(new);
                assert(all[before.len() as int] == e);
            }
        }
    }
}

proof fn edges_are_earlier_sides(
    cs: Seq<DistanceConstraint>,
    sides: Seq<Side>,
    n: nat,
    a: usize,
    b: usize,
)
    requires
        n <= sides.len(),
        !constrained(cs, a, b),
    ensures
        has_edge(cloth_edges(cs, sides, n), a, b) <==> exists|j: int|
            0 <= j < n && same_edge(#[trigger] sides[j], a, b),
    decreases n,
{
    if n > 0 {
        edges_are_earlier_sides(cs, sides, (n - 1) as nat, a, b);
        let before = cloth_edges(cs, sides, (n - 1) as nat);
        let all = cloth_edges(cs, sides, n);
        let s = sides[n - 1];
        if has_edge(before, a, b) {
            let k = choose|k: int|
                0 <= k < before.len() && ((#[trigger] before[k]).a == a && before[k].b == b
                    || before[k].a == b && before[k].b == a);
            assert(all[k] == before[k]);
            assert(has_edge(all, a, b));
        } else {
            if same_edge(s, a, b) {
                if constrained(cs, s.a, s.b) {
                    let k = choose|k: int|
                        0 <= k < cs.len() && ((#[trigger] cs[k]).p1 == s.a && cs[k].p2 == s.b
                            || cs[k].p1 == s.b && cs[k].p2 == s.a);
                    assert(constrained(cs, a, b));
                }
                if has_edge(before, s.a, s.b) {
                    let k = choose|k: int|
                        0 <= k < before.len() && ((#[trigger] before[k]).a == s.a && before[k].b
                            == s.b || before[k].a == s.b && before[k].b == s.a);
                    assert(has_edge(before, a, b));
                }
                assert(all[before.len() as int].a == s.a && all[before.len() as int].b == s.b);
                assert(has_edge(all, a, b));
            }
            if has_edge(all, a, b) {
                let k = choose|k: int|
                    0 <= k < all.len() && ((#[trigger] all[k]).a == a && all[k].b == b || all[k].a
                        == b && all[k].b == a);
                if k < before.len() {
                    assert(before[k] == all[k]);
                }
                assert(same_edge(sides[n - 1], a, b));
            }
        }
    }
}

/// A fold is an edge along which exactly two sides of triangles lie: it has the
/// edge's lower and higher particle, then what is opposite in the first of the
/// two triangles and what is opposite in the second, and the first one's panel.
pub proof fn folds_lie_between_two_triangles(sides: Seq<Side>, folds: Seq<Fold>, f: Fold)
    requires
        folds_of(sides, folds),
    ensures
        folds.contains(f) <==> exists|i: int, j: int|
            #![trigger sides[i], sides[j]]
            {
                &&& 0 <= i < j < sides.len()
                &&& same_edge(sides[j], sides[i].a, sides[i].b)
                &&& forall|k: int|
                    0 <= k < sides.len() && k != i && k != j ==> !same_edge(
                        #[trigger] sides[k],
                        sides[i].a,
                        sides[i].b,
                    )
                &&& f.panel == sides[i].panel
                &&& f.p1 <= f.p2
                &&& same_edge(sides[i], f.p1, f.p2)
                &&& f.p3 == sides[i].opposite
                &&& f.p4 == sides[j].opposite
            },
        forall|k: int, m: int|
            #![trigger folds[k], folds[m]]
            0 <= k < m < folds.len() ==> folds[k].p1 < folds[m].p1 || (folds[k].p1 == folds[m].p1
                && folds[k].p2 < folds[m].p2),
{
    if folds.contains(f) {
        let (i, j) = choose|i: int, j: int|
            i < sides.len() && #[trigger] only_pair(sides, i, j) && f == fold_of(
                sides[i],
                sides[j],
            );
        assert(same_edge(sides[j], sides[i].a, sides[i].b));
        assert forall|k: int| 0 <= k < sides.len() && k != i && k != j implies !same_edge(
            #[trigger] sides[k],
            sides[i].a,
            sides[i].b,
        ) by {
            assert(!sides[k].along(sides[i]));
        }
    }
    if exists|i: int, j: int|
        #![trigger sides[i], sides[j]]
        {
            &&& 0 <= i < j < sides.len()
            &&& same_edge(sides[j], sides[i].a, sides[i].b)
            &&& forall|k: int|
                0 <= k < sides.len() && k != i && k != j ==> !same_edge(
                    #[trigger] sides[k],
                    sides[i].a,
                    sides[i].b,
                )
            &&& f.panel == sides[i].panel
            &&& f.p1 <= f.p2
            &&& same_edge(sides[i], f.p1, f.p2)
            &&& f.p3 == sides[i].opposite
            &&& f.p4 == sides[j].opposite
        } {
        let (i, j) = choose|i: int, j: int|
            #![trigger sides[i], sides[j]]
            {
                &&& 0 <= i < j < sides.len()
                &&& same_edge(sides[j], sides[i].a, sides[i].b)
                &&& forall|k: int|
                    0 <= k < sides.len() && k != i && k != j ==> !same_edge(
                        #[trigger] sides[k],
                        sides[i].a,
                        sides[i].b,
                    )
                &&& f.panel == sides[i].panel
                &&& f.p1 <= f.p2
                &&& same_edge(sides[i], f.p1, f.p2)
                &&& f.p3 == sides[i].opposite
                &&& f.p4 == sides[j].opposite
            };
        assert forall|k: int| 0 <= k < sides.len() && k != i && k != j implies !(
        #[trigger] sides[k]).along(sides[i]) by {
            assert(!same_edge(sides[k], sides[i].a, sides[i].b));
        }
        assert(only_pair(sides, i, j));
        assert(f == fold_of(sides[i], sides[j]));
    }
}

} // verus!
