//! The joints, triangles, ties and chains of a kite, by their nodes.
use crate::cloth::MeshTri;
use crate::geometry::{
    at_least_one, buildable, or_one, panel_row, spar_row, KiteDefinition,
};
use crate::layout::{
    ends_at_junction, junction_request, line_request, line_requests, line_segments, line_site,
    ordered_requests, panel_start, panel_total, pin_request, site_count, spar_start, spar_total,
    stiff_site, Layout,
};
use crate::mesh::{
    grid_tris, grid_verts, panel_triangles, row_start, row_start_grows, vert_index, verts_below_len,
    GridTri,
};
use crate::scalar::Scalar;
use crate::weld::{find_site, lookup, node_of, origins_after, origins_only_grow, NearTable};
use vstd::prelude::*;

verus! {

/// The number of segments of the first `s` spars.
pub open spec fn segment_start(def: KiteDefinition, s: nat) -> nat
    decreases s,
{
    if s == 0 {
        0
    } else {
        segment_start(def, (s - 1) as nat) + def.spars@[s - 1].num_segments as nat
    }
}

/// The particle of a spar's node.
pub open spec fn spar_node(l: Layout, def: KiteDefinition, existing: nat, s: int, i: int) -> usize {
    l.nodes@[existing + spar_start(def, s) + i]
}

/// The particle of a panel's vertex.
pub open spec fn panel_node(
    l: Layout,
    def: KiteDefinition,
    existing: nat,
    p: int,
    i: int,
) -> usize {
    l.nodes@[existing + spar_total(def) + panel_start(def, p) + i]
}

/// A spar's segment touches a particle.
#[derive(Clone, Copy, Debug, PartialEq, Eq, Structural)]
pub struct Contact {
    pub particle: usize,
    pub spar: usize,
    pub segment: usize,
}

/// What the first `n` segments of spar `s` touch: each of them its two ends.
/// Segments are numbered from `base` on.
pub open spec fn spar_contacts(
    l: Layout,
    def: KiteDefinition,
    existing: nat,
    base: nat,
    s: int,
    n: nat,
) -> Seq<Contact>
    decreases n,
{
    if n == 0 {
        Seq::empty()
    } else {
        let i = n - 1;
        let segment = (base + segment_start(def, s as nat) + i) as usize;
        spar_contacts(l, def, existing, base, s, (n - 1) as nat).push(
            Contact { particle: spar_node(l, def, existing, s, i), spar: s as usize, segment },
        ).push(
            Contact { particle: spar_node(l, def, existing, s, i + 1), spar: s as usize, segment },
        )
    }
}

/// What the segments of the first `m` spars touch.
pub open spec fn contacts_of(
    l: Layout,
    def: KiteDefinition,
    existing: nat,
    base: nat,
    m: nat,
) -> Seq<Contact>
    decreases m,
{
    if m == 0 {
        Seq::empty()
    } else {
        contacts_of(l, def, existing, base, (m - 1) as nat) + spar_contacts(
            l,
            def,
            existing,
            base,
            m - 1,
            def.spars@[m - 1].num_segments as nat,
        )
    }
}

/// The contacts, among the first `n`, with one particle.
pub open spec fn touching(contacts: Seq<Contact>, particle: usize, n: nat) -> Seq<Contact>
    decreases n,
{
    if n == 0 {
        Seq::empty()
    } else {
        let before = touching(contacts, particle, (n - 1) as nat);
        if contacts[n - 1].particle == particle {
            before.push(contacts[n - 1])
        } else {
            before
        }
    }
}

/// Two segments that a stiff junction locks together.
#[derive(Clone, Copy, Debug, PartialEq, Eq, Structural)]
pub struct StiffPair {
    pub junction: usize,
    pub first: usize,
    pub second: usize,
}

/// The pairs of contact `a` with those from `a + 1` up to `n`: only contacts of
/// different spars pair up.
pub open spec fn pairs_with(touch: Seq<Contact>, junction: usize, a: int, n: int) -> Seq<StiffPair>
    decreases n - a,
{
    if n <= a + 1 {
        Seq::empty()
    } else {
        let before = pairs_with(touch, junction, a, n - 1);
        if touch[a].spar == touch[n - 1].spar {
            before
        } else {
            before.push(
                StiffPair { junction, first: touch[a].segment, second: touch[n - 1].segment },
            )
        }
    }
}

/// The pairs of the first `n` contacts with all later ones.
pub open spec fn cross_pairs(touch: Seq<Contact>, junction: usize, n: nat) -> Seq<StiffPair>
    decreases n,
{
    if n == 0 {
        Seq::empty()
    } else {
        cross_pairs(touch, junction, (n - 1) as nat) + pairs_with(
            touch,
            junction,
            n - 1,
            touch.len() as int,
        )
    }
}

/// The nodes that there are once the spars are laid out.
pub open spec fn nodes_after_spars(t: NearTable, l: Layout, def: KiteDefinition, existing: nat) -> Seq<
    usize,
> {
    origins_after(t, l.requests@, existing + spar_total(def))
}

/// The pairs of one stiff junction: none where no node is at its point.
pub open spec fn junction_pairs(
    t: NearTable,
    l: Layout,
    def: KiteDefinition,
    existing: nat,
    base: nat,
    j: int,
) -> Seq<StiffPair> {
    let nodes = nodes_after_spars(t, l, def, existing);
    let p = lookup(t, nodes, (stiff_site(def, existing) + j) as usize, 0);
    if p < nodes.len() {
        let contacts = contacts_of(l, def, existing, base, def.spars@.len());
        let touch = touching(contacts, p as usize, contacts.len());
        cross_pairs(touch, j as usize, touch.len())
    } else {
        Seq::empty()
    }
}

/// The pairs of the first `m` stiff junctions.
pub open spec fn stiff_pairs(
    t: NearTable,
    l: Layout,
    def: KiteDefinition,
    existing: nat,
    base: nat,
    m: nat,
) -> Seq<StiffPair>
    decreases m,
{
    if m == 0 {
        Seq::empty()
    } else {
        stiff_pairs(t, l, def, existing, base, (m - 1) as nat) + junction_pairs(
            t,
            l,
            def,
            existing,
            base,
            m - 1,
        )
    }
}

/// The pair is that of two contacts of different spars.
pub open spec fn crosses(touch: Seq<Contact>, junction: usize, pair: StiffPair) -> bool {
    exists|a: int, b: int|
        #![trigger touch[a], touch[b]]
        0 <= a < b < touch.len() && touch[a].spar != touch[b].spar && pair == (StiffPair {
            junction,
            first: touch[a].segment,
            second: touch[b].segment,
        })
}

/// The segments that a stiff junction locks together belong to different
/// spars and both touch the junction's node.
pub proof fn pairs_cross_spars(touch: Seq<Contact>, junction: usize, n: nat)
    requires
        n <= touch.len(),
    ensures
        forall|k: int|
            0 <= k < cross_pairs(touch, junction, n).len() ==> crosses(
                touch,
                junction,
                #[trigger] cross_pairs(touch, junction, n)[k],
            ),
    decreases n,
{
    if n > 0 {
        pairs_cross_spars(touch, junction, (n - 1) as nat);
        let before = cross_pairs(touch, junction, (n - 1) as nat);
        let more = pairs_with(touch, junction, n - 1, touch.len() as int);
        let after = cross_pairs(touch, junction, n);
        pairs_with_cross(touch, junction, n - 1, touch.len() as int);
        assert forall|k: int| 0 <= k < after.len() implies crosses(
            touch,
            junction,
            #[trigger] after[k],
        ) by {
            if k < before.len() {
                assert(after[k] == before[k]);
            } else {
                assert(after[k] == more[k - before.len()]);
            }
        }
    }
}

proof fn pairs_with_cross(touch: Seq<Contact>, junction: usize, a: int, n: int)
    requires
        0 <= a < touch.len(),
        n <= touch.len(),
    ensures
        forall|k: int|
            0 <= k < pairs_with(touch, junction, a, n).len() ==> crosses(
                touch,
                junction,
                #[trigger] pairs_with(touch, junction, a, n)[k],
            ),
    decreases n - a,
{
    if n > a + 1 {
        pairs_with_cross(touch, junction, a, n - 1);
        let before = pairs_with(touch, junction, a, n - 1);
        let after = pairs_with(touch, junction, a, n);
        assert forall|k: int| 0 <= k < after.len() implies crosses(
            touch,
            junction,
            #[trigger] after[k],
        ) by {
            if k < before.len() {
                assert(after[k] == before[k]);
            } else {
                assert(touch[a].spar != touch[n - 1].spar);
            }
        }
    }
}

/// A segment's number is below the number of all segments.
pub proof fn segment_start_grows(def: KiteDefinition, a: nat, b: nat)
    requires
        a <= b <= def.spars@.len(),
    ensures
        segment_start(def, a) <= segment_start(def, b),
        a < b ==> segment_start(def, a) + def.spars@[a as int].num_segments <= segment_start(
            def,
            b,
        ),
    decreases b - a,
{
    if a < b {
        segment_start_grows(def, a, (b - 1) as nat);
    }
}

/// A spar's nodes are within the requests.
pub proof fn spar_request_bound(def: KiteDefinition, s: int)
    requires
        0 <= s < def.spars@.len(),
    ensures
        spar_start(def, s) + def.spars@[s].num_segments + 1 <= spar_total(def),
{
    assert(spar_row(def.spars@, s).len() == def.spars@[s].num_segments + 1);
    spar_tail(def, s + 1);
}

proof fn spar_tail(def: KiteDefinition, s: int)
    requires
        0 <= s <= def.spars@.len(),
    ensures
        spar_start(def, s) <= spar_total(def),
    decreases def.spars@.len() - s,
{
    if s < def.spars@.len() {
        spar_tail(def, s + 1);
    }
}

proof fn panel_request_bound(def: KiteDefinition, p: int)
    requires
        0 <= p < def.panels@.len(),
    ensures
        panel_start(def, p) + grid_verts(at_least_one(def.panels@[p].subdivisions)).len()
            <= panel_total(def),
{
    assert(panel_row(def.panels@, p).len() == grid_verts(
        at_least_one(def.panels@[p].subdivisions),
    ).len());
    panel_tail(def, p + 1);
}

proof fn panel_tail(def: KiteDefinition, p: int)
    requires
        0 <= p <= def.panels@.len(),
    ensures
        panel_start(def, p) <= panel_total(def),
    decreases def.panels@.len() - p,
{
    if p < def.panels@.len() {
        panel_tail(def, p + 1);
    }
}

/// What all segments touch.
#[verifier::loop_isolation(false)]
fn collect_contacts(
    t: &NearTable,
    l: &Layout,
    def: &KiteDefinition,
    existing: usize,
    base: usize,
) -> (r: Vec<Contact>)
    requires
        buildable(*def),
        l.of(*t, *def, existing as nat),
        base + segment_start(*def, def.spars@.len()) <= usize::MAX,
    ensures
        r@ == contacts_of(*l, *def, existing as nat, base as nat, def.spars@.len()),
{
    let ghost ex = existing as nat;
    let limit: usize = l.nodes.len();
    let mut out: Vec<Contact> = Vec::new();
    let mut segment: usize = base;
    let mut s: usize = 0;
    while s < def.spars.len()
        invariant
            s <= def.spars@.len(),
            segment == base + segment_start(*def, s as nat),
            out@ == contacts_of(*l, *def, ex, base as nat, s as nat),
        decreases def.spars@.len() - s,
    {
        let n: usize = def.spars[s].num_segments;
        let start: usize = l.spar_requests[s];
        let ghost before = out@;
        proof {
            spar_request_bound(*def, s as int);
            segment_start_grows(*def, s as nat, def.spars@.len());
            assert(l.spar_requests@[s as int] == ex + spar_start(*def, s as int));
            assert(limit >= ex + spar_total(*def));
            assert(before + spar_contacts(*l, *def, ex, base as nat, s as int, 0) =~= before);
        }
        let mut i: usize = 0;
        while i < n
            invariant
                i <= n,
                segment == base + segment_start(*def, s as nat) + i,
                out@ == before + spar_contacts(*l, *def, ex, base as nat, s as int, i as nat),
            decreases n - i,
        {
            out.push(Contact { particle: l.nodes[start + i], spar: s, segment });
            out.push(Contact { particle: l.nodes[start + i + 1], spar: s, segment });
            segment += 1;
            i += 1;
            assert(out@ =~= before + spar_contacts(
                *l,
                *def,
                ex,
                base as nat,
                s as int,
                i as nat,
            ));
        }
        s += 1;
    }
    out
}

fn collect_touching(contacts: &Vec<Contact>, particle: usize) -> (r: Vec<Contact>)
    ensures
        r@ == touching(contacts@, particle, contacts@.len()),
{
    let mut out: Vec<Contact> = Vec::new();
    let mut i: usize = 0;
    while i < contacts.len()
        invariant
            i <= contacts@.len(),
            out@ == touching(contacts@, particle, i as nat),
        decreases contacts@.len() - i,
    {
        if contacts[i].particle == particle {
            out.push(contacts[i]);
        }
        i += 1;
    }
    out
}

fn push_cross_pairs(touch: &Vec<Contact>, junction: usize, out: &mut Vec<StiffPair>)
    ensures
        final(out)@ == old(out)@ + cross_pairs(touch@, junction, touch@.len()),
{
    let ghost before = out@;
    let mut a: usize = 0;
    assert(before + cross_pairs(touch@, junction, 0) =~= before);
    while a < touch.len()
        invariant
            a <= touch@.len(),
            out@ == before + cross_pairs(touch@, junction, a as nat),
        decreases touch@.len() - a,
    {
        let ghost mid = out@;
        let mut b: usize = a + 1;
        assert(mid + pairs_with(touch@, junction, a as int, b as int) =~= mid);
        while b < touch.len()
            invariant
                a < b <= touch@.len(),
                out@ == mid + pairs_with(touch@, junction, a as int, b as int),
            decreases touch@.len() - b,
        {
            if touch[a].spar != touch[b].spar {
                out.push(
                    StiffPair { junction, first: touch[a].segment, second: touch[b].segment },
                );
            }
            b += 1;
            assert(out@ =~= mid + pairs_with(touch@, junction, a as int, b as int));
        }
        a += 1;
        assert(out@ =~= before + cross_pairs(touch@, junction, a as nat));
    }
}

/// The pairs of segments that the stiff junctions lock together.
#[verifier::loop_isolation(false)]
pub fn collect_stiff_pairs(
    t: &NearTable,
    l: &Layout,
    def: &KiteDefinition,
    existing: usize,
    base: usize,
) -> (r: Vec<StiffPair>)
    requires
        buildable(*def),
        t.covers(site_count(*def, existing as nat)),
        l.of(*t, *def, existing as nat),
        base + segment_start(*def, def.spars@.len()) <= usize::MAX,
    ensures
        r@ == stiff_pairs(
            *t,
            *l,
            *def,
            existing as nat,
            base as nat,
            def.stiff_junctions@.len(),
        ),
{
    let ghost ex = existing as nat;
    let contacts: Vec<Contact> = collect_contacts(t, l, def, existing, base);
    let spar_end: usize = l.spar_requests[def.spars.len()];
    proof {
        assert(l.spar_requests@[def.spars@.len() as int] == ex + spar_total(*def));
    }
    let count: usize = count_nodes(t, l, def, existing, spar_end);
    let ghost nodes = nodes_after_spars(*t, *l, *def, ex);
    let total: usize = t.rows.len();
    let mut out: Vec<StiffPair> = Vec::new();
    let mut j: usize = 0;
    while j < def.stiff_junctions.len()
        invariant
            j <= def.stiff_junctions@.len(),
            out@ == stiff_pairs(*t, *l, *def, ex, base as nat, j as nat),
        decreases def.stiff_junctions@.len() - j,
    {
        let site: usize = spar_end + j;
        let ghost before = out@;
        match find_site(t, &l.origins, count, site) {
            Some(p) => {
                let touch: Vec<Contact> = collect_touching(&contacts, p);
                push_cross_pairs(&touch, j, &mut out);
            },
            None => {
                assert(out@ =~= before + Seq::<StiffPair>::empty());
            },
        }
        j += 1;
    }
    out
}

/// How many nodes there are once the first `n` requests are served.
fn count_nodes(
    t: &NearTable,
    l: &Layout,
    def: &KiteDefinition,
    existing: usize,
    n: usize,
) -> (r: usize)
    requires
        l.of(*t, *def, existing as nat),
        n <= l.requests@.len(),
    ensures
        r == origins_after(*t, l.requests@, n as nat).len(),
        r <= l.origins@.len(),
        l.origins@.take(r as int) == origins_after(*t, l.requests@, n as nat),
{
    let limit: usize = l.origins.len();
    let mut count: usize = 0;
    let mut k: usize = 0;
    while k < n
        invariant
            l.of(*t, *def, existing as nat),
            limit == l.origins@.len(),
            k <= n <= l.requests@.len(),
            count == origins_after(*t, l.requests@, k as nat).len(),
        decreases n - k,
    {
        proof {
            origins_only_grow(*t, l.requests@, (k + 1) as nat, l.requests@.len());
            assert(l.nodes@[k as int] == node_of(*t, l.requests@, k as int));
            crate::weld::lookup_is_earliest(
                *t,
                origins_after(*t, l.requests@, k as nat),
                l.requests@[k as int].site,
                0,
            );
        }
        if l.nodes[k] == count {
            count += 1;
        }
        k += 1;
    }
    proof {
        origins_only_grow(*t, l.requests@, n as nat, l.requests@.len());
    }
    count
}

/// The triangles of one panel, by their particles.
pub open spec fn panel_mesh(l: Layout, def: KiteDefinition, existing: nat, p: int) -> Seq<MeshTri> {
    let n = at_least_one(def.panels@[p].subdivisions);
    grid_tris(n).map_values(
        |g: GridTri|
            MeshTri {
                panel: p as usize,
                a: panel_node(l, def, existing, p, vert_index(n, g.a) as int),
                b: panel_node(l, def, existing, p, vert_index(n, g.b) as int),
                c: panel_node(l, def, existing, p, vert_index(n, g.c) as int),
            },
    )
}

/// The triangles of the first `m` panels.
pub open spec fn mesh_of(l: Layout, def: KiteDefinition, existing: nat, m: nat) -> Seq<MeshTri>
    decreases m,
{
    if m == 0 {
        Seq::empty()
    } else {
        mesh_of(l, def, existing, (m - 1) as nat) + panel_mesh(l, def, existing, m - 1)
    }
}

/// Where each row of a panel's vertices starts.
fn row_starts(n: usize, limit: usize) -> (r: Vec<usize>)
    requires
        n < usize::MAX,
        grid_verts(n as nat).len() <= limit,
    ensures
        r@.len() == n + 1,
        forall|i: int| 0 <= i <= n ==> #[trigger] r@[i] == row_start(n as nat, i as nat),
{
    let mut out: Vec<usize> = Vec::new();
    let mut at: usize = 0;
    let mut i: usize = 0;
    out.push(at);
    proof {
        verts_below_len(n as nat, (n + 1) as nat);
    }
    while i < n
        invariant
            n < usize::MAX,
            row_start(n as nat, (n + 1) as nat) <= limit,
            i <= n,
            at == row_start(n as nat, i as nat),
            out@.len() == i + 1,
            forall|k: int| 0 <= k <= i ==> #[trigger] out@[k] == row_start(n as nat, k as nat),
        decreases n - i,
    {
        proof {
            row_start_grows(n as nat, (i + 1) as nat, (n + 1) as nat);
        }
        at = at + (n - i + 1);
        out.push(at);
        i += 1;
    }
    out
}

/// A vertex's place in its panel's list.
fn place_of(n: usize, starts: &Vec<usize>, v: crate::mesh::GridVert, limit: usize) -> (r: usize)
    requires
        n < usize::MAX,
        v.within(n as nat),
        grid_verts(n as nat).len() <= limit,
        starts@.len() == n + 1,
        forall|i: int| 0 <= i <= n ==> #[trigger] starts@[i] == row_start(n as nat, i as nat),
    ensures
        r == vert_index(n as nat, v),
        r < grid_verts(n as nat).len(),
{
    proof {
        crate::mesh::vert_at_index(n as nat, v);
    }
    starts[v.i] + v.j
}

/// The corners of the triangles are nodes, and their panels are panels.
pub open spec fn mesh_within(tris: Seq<MeshTri>, panels: nat, nodes: nat) -> bool {
    forall|k: int|
        0 <= k < tris.len() ==> (#[trigger] tris[k]).panel < panels && tris[k].a < nodes && tris[k].b
            < nodes && tris[k].c < nodes
}

/// The triangles of one panel, by their particles.
fn collect_panel_mesh(
    t: &NearTable,
    l: &Layout,
    def: &KiteDefinition,
    existing: usize,
    p: usize,
) -> (r: Vec<MeshTri>)
    requires
        buildable(*def),
        l.of(*t, *def, existing as nat),
        p < def.panels@.len(),
    ensures
        r@ == panel_mesh(*l, *def, existing as nat, p as int),
        mesh_within(r@, def.panels@.len(), l.origins@.len()),
{
    let ghost ex = existing as nat;
    let limit: usize = l.nodes.len();
    let n: usize = or_one(def.panels[p].subdivisions);
    let start: usize = l.panel_requests[p];
    let ghost count = grid_verts(n as nat).len();
    proof {
        panel_request_bound(*def, p as int);
        assert(l.panel_requests@[p as int] == ex + spar_total(*def) + panel_start(*def, p as int));
        assert(limit >= ex + spar_total(*def) + panel_total(*def));
    }
    let starts: Vec<usize> = row_starts(n, limit);
    let grid: Vec<GridTri> = panel_triangles(n);
    let ghost row = panel_mesh(*l, *def, ex, p as int);
    let mut out: Vec<MeshTri> = Vec::new();
    let mut k: usize = 0;
    while k < grid.len()
        invariant
            0 < n < usize::MAX,
            n == at_least_one(def.panels@[p as int].subdivisions),
            p < def.panels@.len(),
            start == ex + spar_total(*def) + panel_start(*def, p as int),
            count == grid_verts(n as nat).len(),
            start + count <= limit,
            limit == l.nodes@.len(),
            starts@.len() == n + 1,
            forall|i: int| 0 <= i <= n ==> #[trigger] starts@[i] == row_start(n as nat, i as nat),
            grid@ == grid_tris(n as nat),
            forall|i: int| 0 <= i < grid@.len() ==> (#[trigger] grid@[i]).within(n as nat),
            row == panel_mesh(*l, *def, ex, p as int),
            forall|i: int| 0 <= i < l.nodes@.len() ==> (#[trigger] l.nodes@[i]) < l.origins@.len(),
            k <= grid@.len(),
            out@ == row.take(k as int),
            mesh_within(out@, def.panels@.len(), l.origins@.len()),
        decreases grid@.len() - k,
    {
        let g: GridTri = grid[k];
        assert(grid@[k as int].within(n as nat));
        let a: usize = start + place_of(n, &starts, g.a, limit);
        let b: usize = start + place_of(n, &starts, g.b, limit);
        let c: usize = start + place_of(n, &starts, g.c, limit);
        let tri: MeshTri = MeshTri { panel: p, a: l.nodes[a], b: l.nodes[b], c: l.nodes[c] };
        assert(tri == row[k as int]);
        out.push(tri);
        assert(out@ =~= row.take(k as int + 1));
        k += 1;
    }
    assert(row.take(grid@.len() as int) =~= row);
    out
}

/// The triangles of all panels, by their particles.
pub fn collect_mesh(t: &NearTable, l: &Layout, def: &KiteDefinition, existing: usize) -> (r: Vec<
    MeshTri,
>)
    requires
        buildable(*def),
        l.of(*t, *def, existing as nat),
    ensures
        r@ == mesh_of(*l, *def, existing as nat, def.panels@.len()),
        mesh_within(r@, def.panels@.len(), l.origins@.len()),
{
    let mut out: Vec<MeshTri> = Vec::new();
    let mut p: usize = 0;
    while p < def.panels.len()
        invariant
            buildable(*def),
            l.of(*t, *def, existing as nat),
            p <= def.panels@.len(),
            out@ == mesh_of(*l, *def, existing as nat, p as nat),
            mesh_within(out@, def.panels@.len(), l.origins@.len()),
        decreases def.panels@.len() - p,
    {
        let mut more: Vec<MeshTri> = collect_panel_mesh(t, l, def, existing, p);
        out.append(&mut more);
        p += 1;
    }
    out
}

/// The spar of each node of the first `m` spars.
pub open spec fn node_spars(def: KiteDefinition, m: nat) -> Seq<usize>
    decreases m,
{
    if m == 0 {
        Seq::empty()
    } else {
        node_spars(def, (m - 1) as nat) + Seq::new(
            (def.spars@[m - 1].num_segments + 1) as nat,
            |i: int| (m - 1) as usize,
        )
    }
}

/// The nearest, among the first `n` spar nodes, of those of other spars than
/// `skip`; the first of them where several are equally near.
pub open spec fn nearest_node(
    distances: Seq<Scalar>,
    spars: Seq<usize>,
    skip: Option<usize>,
    n: nat,
) -> Option<usize>
    decreases n,
{
    if n == 0 {
        None
    } else {
        let best = nearest_node(distances, spars, skip, (n - 1) as nat);
        let k = n - 1;
        if skip != Some(spars[k]) && (best is None || distances[k].less(
            distances[best->0 as int],
        )) {
            Some(k as usize)
        } else {
            best
        }
    }
}

/// Two particles that a lashing ties together.
#[derive(Clone, Copy, Debug, PartialEq, Eq, Structural)]
pub struct LashPair {
    pub lashing: usize,
    pub a: usize,
    pub b: usize,
}

/// What one lashing ties: the nearest node of any spar, and the nearest node of
/// any other spar, unless the two are one particle or there is but one spar.
pub open spec fn lash_of(
    l: Layout,
    def: KiteDefinition,
    existing: nat,
    distances: Seq<Scalar>,
    lashing: int,
) -> Seq<LashPair> {
    let spars = node_spars(def, def.spars@.len());
    let first = nearest_node(distances, spars, None, spars.len());
    if first is None {
        Seq::empty()
    } else {
        let second = nearest_node(
            distances,
            spars,
            Some(spars[first->0 as int]),
            spars.len(),
        );
        if second is None {
            Seq::empty()
        } else {
            let a = l.nodes@[existing + first->0];
            let b = l.nodes@[existing + second->0];
            if a == b {
                Seq::empty()
            } else {
                seq![LashPair { lashing: lashing as usize, a, b }]
            }
        }
    }
}

/// What the first `m` lashings tie.
pub open spec fn lashes_of(
    l: Layout,
    def: KiteDefinition,
    existing: nat,
    distances: Seq<Vec<Scalar>>,
    m: nat,
) -> Seq<LashPair>
    decreases m,
{
    if m == 0 {
        Seq::empty()
    } else {
        lashes_of(l, def, existing, distances, (m - 1) as nat) + lash_of(
            l,
            def,
            existing,
            distances[m - 1]@,
            m - 1,
        )
    }
}

/// The node found is one of a spar that is not skipped, and where no distance
/// is undefined none that is allowed is nearer; it is missing only if every
/// node is skipped.
pub proof fn nearest_is_nearest(
    distances: Seq<Scalar>,
    spars: Seq<usize>,
    skip: Option<usize>,
    n: nat,
)
    requires
        n <= spars.len() <= usize::MAX,
        distances.len() == spars.len(),
        forall|k: int| 0 <= k < n ==> !(#[trigger] distances[k]).nan(),
    ensures
        match nearest_node(distances, spars, skip, n) {
            Some(b) => b < n && skip != Some(spars[b as int]) && forall|k: int|
                0 <= k < n && skip != Some(spars[k]) ==> !(#[trigger] distances[k]).less(
                    distances[b as int],
                ),
            None => forall|k: int| 0 <= k < n ==> skip == Some(#[trigger] spars[k]),
        },
    decreases n,
{
    if n > 0 {
        nearest_is_nearest(distances, spars, skip, (n - 1) as nat);
    }
}

fn find_nearest(distances: &Vec<Scalar>, spars: &Vec<usize>, skip: Option<usize>) -> (r: Option<
    usize,
>)
    requires
        distances@.len() == spars@.len(),
    ensures
        r == nearest_node(distances@, spars@, skip, spars@.len()),
        r is Some ==> r->0 < spars@.len(),
{
    let mut best: Option<usize> = None;
    let mut k: usize = 0;
    while k < spars.len()
        invariant
            distances@.len() == spars@.len(),
            k <= spars@.len(),
            best == nearest_node(distances@, spars@, skip, k as nat),
            best is Some ==> best->0 < k,
        decreases spars@.len() - k,
    {
        let skipped: bool = match skip {
            Some(s) => s == spars[k],
            None => false,
        };
        if !skipped {
            let nearer: bool = match best {
                None => true,
                Some(b) => distances[k].lt(distances[b]),
            };
            if nearer {
                best = Some(k);
            }
        }
        k += 1;
    }
    best
}

#[verifier::loop_isolation(false)]
fn collect_node_spars(def: &KiteDefinition) -> (r: Vec<usize>)
    requires
        buildable(*def),
    ensures
        r@ == node_spars(*def, def.spars@.len()),
{
    let mut out: Vec<usize> = Vec::new();
    let mut s: usize = 0;
    while s < def.spars.len()
        invariant
            s <= def.spars@.len(),
            out@ == node_spars(*def, s as nat),
        decreases def.spars@.len() - s,
    {
        let n: usize = def.spars[s].num_segments + 1;
        let ghost before = out@;
        let ghost row = Seq::new(n as nat, |i: int| s);
        let mut i: usize = 0;
        assert(before + row.take(0) =~= before);
        while i < n
            invariant
                i <= n,
                out@ == before + row.take(i as int),
            decreases n - i,
        {
            out.push(s);
            assert(out@ =~= before + row.take(i as int + 1));
            i += 1;
        }
        assert(row.take(n as int) =~= row);
        s += 1;
        assert(out@ =~= node_spars(*def, s as nat));
    }
    out
}

proof fn node_spars_len(def: KiteDefinition, m: nat)
    requires
        m <= def.spars@.len(),
    ensures
        node_spars(def, m).len() == spar_start(def, m as int),
    decreases m,
{
    if m > 0 {
        node_spars_len(def, (m - 1) as nat);
        assert(spar_row(def.spars@, m - 1).len() == def.spars@[m - 1].num_segments + 1);
    }
}

/// The particles that the lashings tie together. `distances` holds, for each
/// lashing, the distance of its point from each spar node.
#[verifier::loop_isolation(false)]
pub fn collect_lashes(
    t: &NearTable,
    l: &Layout,
    def: &KiteDefinition,
    existing: usize,
    distances: &Vec<Vec<Scalar>>,
) -> (r: Vec<LashPair>)
    requires
        buildable(*def),
        l.of(*t, *def, existing as nat),
        distances@.len() == def.lashings@.len(),
        forall|k: int|
            0 <= k < distances@.len() ==> (#[trigger] distances@[k])@.len() == spar_total(*def),
    ensures
        r@ == lashes_of(*l, *def, existing as nat, distances@, def.lashings@.len()),
        forall|k: int|
            0 <= k < r@.len() ==> (#[trigger] r@[k]).a < l.origins@.len() && r@[k].b
                < l.origins@.len() && r@[k].lashing < def.lashings@.len(),
{
    let ghost ex = existing as nat;
    let limit: usize = l.nodes.len();
    let spars: Vec<usize> = collect_node_spars(def);
    proof {
        node_spars_len(*def, def.spars@.len());
        assert(limit >= ex + spar_total(*def));
    }
    let mut out: Vec<LashPair> = Vec::new();
    let mut m: usize = 0;
    while m < def.lashings.len()
        invariant
            m <= def.lashings@.len(),
            out@ == lashes_of(*l, *def, ex, distances@, m as nat),
            forall|k: int|
                0 <= k < out@.len() ==> (#[trigger] out@[k]).a < l.origins@.len() && out@[k].b
                    < l.origins@.len() && out@[k].lashing < def.lashings@.len(),
        decreases def.lashings@.len() - m,
    {
        let ghost before = out@;
        assert(distances@[m as int]@.len() == spars@.len());
        let first: Option<usize> = find_nearest(&distances[m], &spars, None);
        match first {
            None => {},
            Some(i) => {
                let second: Option<usize> = find_nearest(&distances[m], &spars, Some(spars[i]));
                match second {
                    None => {},
                    Some(j) => {
                        let a: usize = l.nodes[existing + i];
                        let b: usize = l.nodes[existing + j];
                        if a != b {
                            out.push(LashPair { lashing: m, a, b });
                        }
                    },
                }
            },
        }
        assert(out@ =~= before + lash_of(*l, *def, ex, distances@[m as int]@, m as int));
        m += 1;
    }
    out
}

/// The particles of the `m`-th line of the build order, from its first end to
/// its second.
pub open spec fn chain_at(
    t: NearTable,
    l: Layout,
    def: KiteDefinition,
    existing: nat,
    m: int,
) -> Seq<usize> {
    let b = l.order@[m] as int;
    let n = line_segments(def, b);
    let r = line_request(t, def, existing, l.order@, m) as int;
    let joined = ends_at_junction(t, def, existing, b);
    let last = if joined {
        l.nodes@[junction_request(def, existing) as int]
    } else {
        l.nodes@[r + 1]
    };
    let inner: int = if joined {
        r + 1
    } else {
        r + 2
    };
    Seq::new(
        n + 1,
        |k: int|
            if k == 0 {
                l.nodes@[r]
            } else if k == n {
                last
            } else {
                l.nodes@[inner + k - 1]
            },
    )
}

/// The chain of every line, in listing order.
pub open spec fn chains_of(
    t: NearTable,
    l: Layout,
    def: KiteDefinition,
    existing: nat,
    chains: Seq<Vec<usize>>,
) -> bool {
    &&& chains.len() == def.bridles@.len()
    &&& forall|m: int|
        0 <= m < l.order@.len() ==> chains[#[trigger] l.order@[m] as int]@ == chain_at(
            t,
            l,
            def,
            existing,
            m,
        )
}

/// A line's requests are within all requests.
proof fn line_request_bound(t: NearTable, l: Layout, def: KiteDefinition, existing: nat, m: int)
    requires
        l.of(t, def, existing),
        0 <= m < l.order@.len(),
    ensures
        line_request(t, def, existing, l.order@, m) + line_requests(
            t,
            def,
            existing,
            l.order@[m] as int,
        ).len() <= pin_request(t, def, existing, l.order@),
        pin_request(t, def, existing, l.order@) + def.pinned_points@.len() == l.requests@.len(),
        junction_request(def, existing) < l.requests@.len(),
{
    ordered_tail(t, def, existing, l.order@, m + 1);
    assert(l.requests@ == crate::layout::kite_requests(t, def, existing, l.order@));
}

proof fn ordered_tail(t: NearTable, def: KiteDefinition, existing: nat, order: Seq<usize>, m: int)
    requires
        0 <= m <= order.len(),
    ensures
        ordered_requests(t, def, existing, order, m as nat).len() <= ordered_requests(
            t,
            def,
            existing,
            order,
            order.len(),
        ).len(),
    decreases order.len() - m,
{
    if m < order.len() {
        ordered_tail(t, def, existing, order, m + 1);
    }
}

/// The chain of one line.
#[verifier::loop_isolation(false)]
fn chain_of_line(
    t: &NearTable,
    l: &Layout,
    def: &KiteDefinition,
    existing: usize,
    junction_node: usize,
    joined: bool,
    m: usize,
) -> (r: Vec<usize>)
    requires
        l.of(*t, *def, existing as nat),
        m < l.order@.len(),
        junction_node == l.nodes@[junction_request(*def, existing as nat) as int],
        joined == ends_at_junction(*t, *def, existing as nat, l.order@[m as int] as int),
        junction_node < l.origins@.len(),
    ensures
        r@ == chain_at(*t, *l, *def, existing as nat, m as int),
        forall|k: int| 0 <= k < r@.len() ==> (#[trigger] r@[k]) < l.origins@.len(),
{
    let ghost ex = existing as nat;
    let ghost whole = chain_at(*t, *l, *def, ex, m as int);
    let limit: usize = l.nodes.len();
    let b: usize = l.order[m];
    let ghost reqs = line_requests(*t, *def, ex, b as int);
    proof {
        assert(l.order@.contains(b));
        line_request_bound(*t, *l, *def, ex, m as int);
        assert(l.line_requests@[m as int] == line_request(*t, *def, ex, l.order@, m as int));
    }
    let n: usize = or_one(def.bridles[b].num_segments);
    let start: usize = l.line_requests[m];
    assert(reqs.len() == n + if joined { 0int } else { 1 });
    let last: usize = if joined {
        junction_node
    } else {
        l.nodes[start + 1]
    };
    let inner: usize = if joined {
        start + 1
    } else {
        start + 2
    };
    let mut out: Vec<usize> = Vec::new();
    out.push(l.nodes[start]);
    let mut k: usize = 1;
    while k < n
        invariant
            1 <= k <= n,
            out@ == whole.take(k as int),
            forall|i: int| 0 <= i < out@.len() ==> (#[trigger] out@[i]) < l.origins@.len(),
        decreases n - k,
    {
        out.push(l.nodes[inner + (k - 1)]);
        assert(out@ =~= whole.take(k as int + 1));
        k += 1;
    }
    out.push(last);
    assert(out@ =~= whole);
    out
}

/// Whether the `m`-th line of the build order ends at the junction.
fn line_is_joined(
    t: &NearTable,
    l: &Layout,
    def: &KiteDefinition,
    existing: usize,
    junction: usize,
    m: usize,
) -> (r: bool)
    requires
        t.covers(site_count(*def, existing as nat)),
        l.of(*t, *def, existing as nat),
        m < l.order@.len(),
        junction == crate::layout::junction_site(*def, existing as nat),
    ensures
        r == ends_at_junction(*t, *def, existing as nat, l.order@[m as int] as int),
{
    let total: usize = t.rows.len();
    proof {
        line_request_bound(*t, *l, *def, existing as nat, m as int);
        assert(l.line_requests@[m as int] == line_request(
            *t,
            *def,
            existing as nat,
            l.order@,
            m as int,
        ));
        line_site_of_request(*t, *l, *def, existing as nat, m as int);
        assert(t.rows@[junction as int]@.len() == total);
    }
    let to: usize = l.requests[l.line_requests[m]].site + 1;
    t.rows[junction][to]
}

/// The chains of all lines, in build order.
fn chains_in_order(
    t: &NearTable,
    l: &Layout,
    def: &KiteDefinition,
    existing: usize,
    junction: usize,
    junction_node: usize,
) -> (r: Vec<Vec<usize>>)
    requires
        t.covers(site_count(*def, existing as nat)),
        l.of(*t, *def, existing as nat),
        junction == crate::layout::junction_site(*def, existing as nat),
        junction_node == l.nodes@[junction_request(*def, existing as nat) as int],
        junction_node < l.origins@.len(),
    ensures
        r@.len() == l.order@.len(),
        forall|m: int|
            0 <= m < r@.len() ==> (#[trigger] r@[m])@ == chain_at(
                *t,
                *l,
                *def,
                existing as nat,
                m,
            ),
        forall|m: int, k: int|
            #![trigger r@[m]@[k]]
            0 <= m < r@.len() && 0 <= k < r@[m]@.len() ==> r@[m]@[k] < l.origins@.len(),
{
    let mut out: Vec<Vec<usize>> = Vec::new();
    let mut m: usize = 0;
    while m < l.order.len()
        invariant
            t.covers(site_count(*def, existing as nat)),
            l.of(*t, *def, existing as nat),
            junction == crate::layout::junction_site(*def, existing as nat),
            junction_node == l.nodes@[junction_request(*def, existing as nat) as int],
            junction_node < l.origins@.len(),
            m <= l.order@.len(),
            out@.len() == m,
            forall|j: int|
                0 <= j < m ==> (#[trigger] out@[j])@ == chain_at(
                    *t,
                    *l,
                    *def,
                    existing as nat,
                    j,
                ),
            forall|j: int, k: int|
                #![trigger out@[j]@[k]]
                0 <= j < m && 0 <= k < out@[j]@.len() ==> out@[j]@[k] < l.origins@.len(),
        decreases l.order@.len() - m,
    {
        let joined: bool = line_is_joined(t, l, def, existing, junction, m);
        out.push(chain_of_line(t, l, def, existing, junction_node, joined, m));
        m += 1;
    }
    out
}

/// Where a line is in the build order.
fn place_in_order(order: &Vec<usize>, b: usize) -> (r: usize)
    requires
        order@.contains(b),
    ensures
        r < order@.len(),
        order@[r as int] == b,
{
    let n: usize = order.len();
    let mut m: usize = 0;
    while order[m] != b
        invariant
            n == order@.len(),
            m < n,
            order@.contains(b),
            forall|j: int| 0 <= j < m ==> order@[j] != b,
        decreases order@.len() - m,
    {
        proof {
            let j = choose|j: int| 0 <= j < order@.len() && order@[j] == b;
            assert(j > m);
        }
        m += 1;
    }
    m
}

/// The chains of all lines, in listing order.
pub fn collect_chains(t: &NearTable, l: &Layout, def: &KiteDefinition, existing: usize) -> (r: Vec<
    Vec<usize>,
>)
    requires
        t.covers(site_count(*def, existing as nat)),
        l.of(*t, *def, existing as nat),
    ensures
        chains_of(*t, *l, *def, existing as nat, r@),
        forall|b: int, k: int|
            #![trigger r@[b]@[k]]
            0 <= b < r@.len() && 0 <= k < r@[b]@.len() ==> r@[b]@[k] < l.origins@.len(),
        forall|b: int| 0 <= b < r@.len() ==> (#[trigger] r@[b])@.len() == line_segments(*def, b) + 1,
{
    let total: usize = t.rows.len();
    let junction_at: usize = l.panel_requests[def.panels.len()];
    proof {
        assert(l.panel_requests@[def.panels@.len() as int] == junction_request(
            *def,
            existing as nat,
        ));
        assert(l.requests@[junction_request(*def, existing as nat) as int].site
            == crate::layout::junction_site(*def, existing as nat));
    }
    let junction: usize = l.requests[junction_at].site;
    let junction_node: usize = l.nodes[junction_at];
    let ordered: Vec<Vec<usize>> = chains_in_order(
        t,
        l,
        def,
        existing,
        junction,
        junction_node,
    );
    let mut out: Vec<Vec<usize>> = Vec::new();
    let mut b: usize = 0;
    while b < def.bridles.len()
        invariant
            l.of(*t, *def, existing as nat),
            ordered@.len() == l.order@.len(),
            forall|m: int|
                0 <= m < ordered@.len() ==> (#[trigger] ordered@[m])@ == chain_at(
                    *t,
                    *l,
                    *def,
                    existing as nat,
                    m,
                ),
            forall|m: int, k: int|
                #![trigger ordered@[m]@[k]]
                0 <= m < ordered@.len() && 0 <= k < ordered@[m]@.len() ==> ordered@[m]@[k]
                    < l.origins@.len(),
            b <= def.bridles@.len(),
            out@.len() == b,
            forall|m: int|
                0 <= m < l.order@.len() && l.order@[m] < b ==> out@[#[trigger] l.order@[m] as int]@
                    == chain_at(*t, *l, *def, existing as nat, m),
            forall|j: int, k: int|
                #![trigger out@[j]@[k]]
                0 <= j < b && 0 <= k < out@[j]@.len() ==> out@[j]@[k] < l.origins@.len(),
            forall|j: int|
                0 <= j < b ==> (#[trigger] out@[j])@.len() == line_segments(*def, j) + 1,
        decreases def.bridles@.len() - b,
    {
        assert(l.order@.contains(b));
        let m: usize = place_in_order(&l.order, b);
        let chain: Vec<usize> = ordered[m].clone();
        assert(chain@ =~= ordered@[m as int]@);
        out.push(chain);
        b += 1;
    }
    proof {
        assert forall|m: int| 0 <= m < l.order@.len() implies out@[#[trigger] l.order@[m] as int]@
            == chain_at(*t, *l, *def, existing as nat, m) by {
            assert(l.order@.contains(l.order@[m]));
        }
    }
    out
}

/// A line's first request is at its first site, and its second site exists.
proof fn line_site_of_request(t: NearTable, l: Layout, def: KiteDefinition, existing: nat, m: int)
    requires
        site_count(def, existing) <= usize::MAX,
        l.of(t, def, existing),
        0 <= m < l.order@.len(),
    ensures
        l.requests@[line_request(t, def, existing, l.order@, m) as int].site == line_site(
            def,
            existing,
            l.order@[m] as int,
        ),
        line_site(def, existing, l.order@[m] as int) + 1 < site_count(def, existing),
{
    let b = l.order@[m] as int;
    assert(l.order@.contains(l.order@[m]));
    line_request_bound(t, l, def, existing, m);
    let r = line_request(t, def, existing, l.order@, m) as int;
    ordered_request_at(t, def, existing, l.order@, m, l.order@.len() as int);
    let ordered = ordered_requests(t, def, existing, l.order@, l.order@.len());
    assert(ordered[ordered_requests(t, def, existing, l.order@, m as nat).len() as int]
        == line_requests(t, def, existing, b)[0]);
    assert(l.requests@[r] == line_requests(t, def, existing, b)[0]);
    crate::layout::line_start_grows(def, b, def.bridles@.len() as int);
}

/// The requests of the `m`-th line stand where its first request says.
proof fn ordered_request_at(
    t: NearTable,
    def: KiteDefinition,
    existing: nat,
    order: Seq<usize>,
    m: int,
    n: int,
)
    requires
        0 <= m < n <= order.len(),
    ensures
        ordered_requests(t, def, existing, order, m as nat).len() < ordered_requests(
            t,
            def,
            existing,
            order,
            n as nat,
        ).len(),
        ordered_requests(t, def, existing, order, n as nat)[ordered_requests(
            t,
            def,
            existing,
            order,
            m as nat,
        ).len() as int] == line_requests(t, def, existing, order[m] as int)[0],
    decreases n - m,
{
    if n > m + 1 {
        ordered_request_at(t, def, existing, order, m, n - 1);
    }
}

} // verus!
