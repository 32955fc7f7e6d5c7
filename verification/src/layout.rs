//! Which node every site of a kite gets.
use crate::geometry::{
    at_least_one, bridle_row, bridle_sites, buildable, or_one, panel_row, panel_sites, site_list,
    spar_row, spar_sites, KiteDefinition,
};
use crate::line_order::{build_order, listed, order_lines, square};
use crate::mesh::panel_vertices;
use crate::weld::{node_of, origins_after, requests_within, weld, NearTable, Request, Welded};
use vstd::prelude::*;

verus! {

/// Where the nodes of a spar start among those of all spars.
pub open spec fn spar_start(def: KiteDefinition, s: int) -> nat {
    spar_sites(def.spars@, s as nat).len()
}

/// Where the vertices of a panel start among those of all panels.
pub open spec fn panel_start(def: KiteDefinition, p: int) -> nat {
    panel_sites(def.panels@, p as nat).len()
}

/// Where the nodes of a line start among those of all lines.
pub open spec fn line_start(def: KiteDefinition, b: int) -> nat {
    bridle_sites(def.bridles@, b as nat).len()
}

pub open spec fn spar_total(def: KiteDefinition) -> nat {
    spar_start(def, def.spars@.len() as int)
}

pub open spec fn panel_total(def: KiteDefinition) -> nat {
    panel_start(def, def.panels@.len() as int)
}

pub open spec fn line_total(def: KiteDefinition) -> nat {
    line_start(def, def.bridles@.len() as int)
}

/// The number of the first stiff junction's site.
pub open spec fn stiff_site(def: KiteDefinition, existing: nat) -> nat {
    existing + spar_total(def)
}

/// The number of the first panel vertex's site.
pub open spec fn panel_site(def: KiteDefinition, existing: nat) -> nat {
    stiff_site(def, existing) + def.stiff_junctions@.len()
}

/// The number of the bridle junction's site.
pub open spec fn junction_site(def: KiteDefinition, existing: nat) -> nat {
    panel_site(def, existing) + panel_total(def)
}

/// The number of the site of a line's first end; that of its second end is the
/// next, and its inner nodes follow.
pub open spec fn line_site(def: KiteDefinition, existing: nat, b: int) -> nat {
    junction_site(def, existing) + 1 + line_start(def, b)
}

/// The number of the first pinned point's site.
pub open spec fn pin_site(def: KiteDefinition, existing: nat) -> nat {
    junction_site(def, existing) + 1 + line_total(def)
}

/// How many sites there are.
pub open spec fn site_count(def: KiteDefinition, existing: nat) -> nat {
    pin_site(def, existing) + def.pinned_points@.len()
}

/// The list of sites has one entry per site number.
pub proof fn site_list_len(def: KiteDefinition, existing: nat)
    ensures
        site_list(def, existing).len() == site_count(def, existing),
{
}

/// The number of a line's segments.
pub open spec fn line_segments(def: KiteDefinition, b: int) -> nat {
    at_least_one(def.bridles@[b].num_segments)
}

/// Inner node `k` of line `c` coincides with an end of line `b`.
pub open spec fn node_at_end(
    t: NearTable,
    def: KiteDefinition,
    existing: nat,
    b: int,
    c: int,
    k: int,
) -> bool {
    let inner = line_site(def, existing, c) + 1 + k;
    let end = line_site(def, existing, b) as int;
    t.near(inner, end) || t.near(inner, end + 1)
}

/// Line `b` has an end at an inner node of line `c`.
pub open spec fn ends_on(t: NearTable, def: KiteDefinition, existing: nat, b: int, c: int) -> bool {
    exists|k: int|
        1 <= k < line_segments(def, c) && #[trigger] node_at_end(t, def, existing, b, c, k)
}

/// The table says of every two lines whether the first ends on the second.
pub open spec fn ties_match(
    t: NearTable,
    def: KiteDefinition,
    existing: nat,
    ties: Seq<Vec<bool>>,
) -> bool {
    &&& ties.len() == def.bridles@.len()
    &&& square(ties)
    &&& forall|b: int, c: int|
        #![trigger ties[b]@[c]]
        0 <= b < ties.len() && 0 <= c < ties.len() ==> ties[b]@[c] == ends_on(
            t,
            def,
            existing,
            b,
            c,
        )
}

/// The requests up to and with the bridle junction: the particles already
/// there, the spar nodes, the panel vertices, the junction.
pub open spec fn frame_requests(def: KiteDefinition, existing: nat) -> Seq<Request> {
    Seq::new(existing, |i: int| Request { site: i as usize, fresh: true }) + Seq::new(
        spar_total(def),
        |i: int| Request { site: (existing + i) as usize, fresh: false },
    ) + Seq::new(
        panel_total(def),
        |i: int| Request { site: (panel_site(def, existing) + i) as usize, fresh: false },
    ) + seq![Request { site: junction_site(def, existing) as usize, fresh: false }]
}

/// The line's second end is at the bridle junction.
pub open spec fn ends_at_junction(
    t: NearTable,
    def: KiteDefinition,
    existing: nat,
    b: int,
) -> bool {
    t.near(junction_site(def, existing) as int, line_site(def, existing, b) as int + 1)
}

/// The requests of a line: its first end, its second end unless that is the
/// junction, and a fresh node for each inner node.
pub open spec fn line_requests(
    t: NearTable,
    def: KiteDefinition,
    existing: nat,
    b: int,
) -> Seq<Request> {
    seq![Request { site: line_site(def, existing, b) as usize, fresh: false }] + (if ends_at_junction(
        t,
        def,
        existing,
        b,
    ) {
        Seq::empty()
    } else {
        seq![Request { site: (line_site(def, existing, b) + 1) as usize, fresh: false }]
    }) + Seq::new(
        (line_segments(def, b) - 1) as nat,
        |k: int| Request { site: (line_site(def, existing, b) + 2 + k) as usize, fresh: true },
    )
}

/// The requests of the first `m` lines of `order`.
pub open spec fn ordered_requests(
    t: NearTable,
    def: KiteDefinition,
    existing: nat,
    order: Seq<usize>,
    m: nat,
) -> Seq<Request>
    decreases m,
{
    if m == 0 {
        Seq::empty()
    } else {
        ordered_requests(t, def, existing, order, (m - 1) as nat) + line_requests(
            t,
            def,
            existing,
            order[m - 1] as int,
        )
    }
}

pub open spec fn pin_requests(def: KiteDefinition, existing: nat, n: nat) -> Seq<Request> {
    Seq::new(n, |k: int| Request { site: (pin_site(def, existing) + k) as usize, fresh: false })
}

/// All requests of a kite.
pub open spec fn kite_requests(
    t: NearTable,
    def: KiteDefinition,
    existing: nat,
    order: Seq<usize>,
) -> Seq<Request> {
    frame_requests(def, existing) + ordered_requests(t, def, existing, order, order.len())
        + pin_requests(def, existing, def.pinned_points@.len())
}

/// The request of the bridle junction.
pub open spec fn junction_request(def: KiteDefinition, existing: nat) -> nat {
    existing + spar_total(def) + panel_total(def)
}

/// The first request of the `m`-th line of `order`.
pub open spec fn line_request(
    t: NearTable,
    def: KiteDefinition,
    existing: nat,
    order: Seq<usize>,
    m: int,
) -> nat {
    junction_request(def, existing) + 1 + ordered_requests(t, def, existing, order, m as nat).len()
}

/// The first request of the pinned points.
pub open spec fn pin_request(
    t: NearTable,
    def: KiteDefinition,
    existing: nat,
    order: Seq<usize>,
) -> nat {
    line_request(t, def, existing, order, order.len() as int)
}

/// The node every site of a kite gets.
pub struct Layout {
    /// Which lines end on which.
    pub ties: Vec<Vec<bool>>,
    /// The order in which the lines are built.
    pub order: Vec<usize>,
    /// The requests, in the order in which they are served.
    pub requests: Vec<Request>,
    /// The node of each request.
    pub nodes: Vec<usize>,
    /// The site of each node.
    pub origins: Vec<usize>,
    /// For each spar, the request of its first node; one more entry for the end.
    pub spar_requests: Vec<usize>,
    /// For each panel, the request of its first vertex; one more entry for the end.
    pub panel_requests: Vec<usize>,
    /// For each place in the order, the first request of that line; one more
    /// entry for the end.
    pub line_requests: Vec<usize>,
}

impl Layout {
    pub open spec fn of(self, t: NearTable, def: KiteDefinition, existing: nat) -> bool {
        &&& ties_match(t, def, existing, self.ties@)
        &&& self.order@ == build_order(self.ties@, listed(def.bridles@.len()))
        &&& self.order@.len() == def.bridles@.len()
        &&& self.order@.no_duplicates()
        &&& forall|b: usize| #[trigger] self.order@.contains(b) <==> b < def.bridles@.len()
        &&& self.requests@ == kite_requests(t, def, existing, self.order@)
        &&& requests_within(self.requests@, site_count(def, existing))
        &&& self.origins@ == origins_after(t, self.requests@, self.requests@.len())
        &&& forall|j: int|
            0 <= j < self.origins@.len() ==> (#[trigger] self.origins@[j]) < site_count(
                def,
                existing,
            )
        &&& self.nodes@.len() == self.requests@.len()
        &&& forall|k: int|
            0 <= k < self.nodes@.len() ==> #[trigger] self.nodes@[k] == node_of(
                t,
                self.requests@,
                k,
            )
        &&& forall|k: int|
            0 <= k < self.nodes@.len() ==> (#[trigger] self.nodes@[k]) < self.origins@.len()
        &&& self.spar_requests@.len() == def.spars@.len() + 1
        &&& forall|s: int|
            0 <= s <= def.spars@.len() ==> #[trigger] self.spar_requests@[s] == existing
                + spar_start(def, s)
        &&& self.panel_requests@.len() == def.panels@.len() + 1
        &&& forall|p: int|
            0 <= p <= def.panels@.len() ==> #[trigger] self.panel_requests@[p] == existing
                + spar_total(def) + panel_start(def, p)
        &&& self.line_requests@.len() == self.order@.len() + 1
        &&& forall|m: int|
            0 <= m <= self.order@.len() ==> #[trigger] self.line_requests@[m] == line_request(
                t,
                def,
                existing,
                self.order@,
                m,
            )
    }
}

proof fn spar_start_grows(def: KiteDefinition, a: int, b: int)
    requires
        0 <= a <= b <= def.spars@.len(),
    ensures
        spar_start(def, a) <= spar_start(def, b),
    decreases b - a,
{
    if a < b {
        spar_start_grows(def, a, b - 1);
    }
}

proof fn panel_start_grows(def: KiteDefinition, a: int, b: int)
    requires
        0 <= a <= b <= def.panels@.len(),
    ensures
        panel_start(def, a) <= panel_start(def, b),
    decreases b - a,
{
    if a < b {
        panel_start_grows(def, a, b - 1);
    }
}

pub proof fn line_start_grows(def: KiteDefinition, a: int, b: int)
    requires
        0 <= a <= b <= def.bridles@.len(),
    ensures
        line_start(def, a) <= line_start(def, b),
        a < b ==> line_start(def, a) + line_segments(def, a) + 1 <= line_start(def, b),
    decreases b - a,
{
    if a < b {
        line_start_grows(def, a, b - 1);
        assert(bridle_row(def.bridles@, b - 1).len() == line_segments(def, b - 1) + 1);
        if a == b - 1 {
            assert(line_start(def, b) == line_start(def, a) + line_segments(def, a) + 1);
        }
    }
}

/// Where the nodes of each spar start, `base` being where the first spar's do.
fn spar_starts(def: &KiteDefinition, base: usize, limit: usize) -> (r: Vec<usize>)
    requires
        base + spar_total(*def) <= limit,
    ensures
        r@.len() == def.spars@.len() + 1,
        forall|s: int|
            0 <= s <= def.spars@.len() ==> #[trigger] r@[s] == base + spar_start(*def, s),
{
    let mut out: Vec<usize> = Vec::new();
    let mut at: usize = base;
    out.push(at);
    let mut s: usize = 0;
    while s < def.spars.len()
        invariant
            base + spar_total(*def) <= limit,
            s <= def.spars@.len(),
            at == base + spar_start(*def, s as int),
            out@.len() == s + 1,
            forall|k: int| 0 <= k <= s ==> #[trigger] out@[k] == base + spar_start(*def, k),
        decreases def.spars@.len() - s,
    {
        proof {
            spar_start_grows(*def, s as int + 1, def.spars@.len() as int);
            assert(spar_row(def.spars@, s as int).len() == def.spars@[s as int].num_segments + 1);
        }
        at = at + def.spars[s].num_segments + 1;
        out.push(at);
        s += 1;
    }
    out
}

/// Where the vertices of each panel start, `base` being where the first
/// panel's do.
fn panel_starts(def: &KiteDefinition, base: usize, limit: usize) -> (r: Vec<usize>)
    requires
        buildable(*def),
        base + panel_total(*def) <= limit,
    ensures
        r@.len() == def.panels@.len() + 1,
        forall|p: int|
            0 <= p <= def.panels@.len() ==> #[trigger] r@[p] == base + panel_start(*def, p),
{
    let mut out: Vec<usize> = Vec::new();
    let mut at: usize = base;
    out.push(at);
    let mut p: usize = 0;
    while p < def.panels.len()
        invariant
            buildable(*def),
            base + panel_total(*def) <= limit,
            p <= def.panels@.len(),
            at == base + panel_start(*def, p as int),
            out@.len() == p + 1,
            forall|k: int| 0 <= k <= p ==> #[trigger] out@[k] == base + panel_start(*def, k),
        decreases def.panels@.len() - p,
    {
        let n: usize = panel_vertices(or_one(def.panels[p].subdivisions)).len();
        proof {
            panel_start_grows(*def, p as int + 1, def.panels@.len() as int);
            assert(panel_row(def.panels@, p as int).len() == n);
        }
        at = at + n;
        out.push(at);
        p += 1;
    }
    out
}

/// Where the nodes of each line start, `base` being where the first line's do.
fn line_starts(def: &KiteDefinition, base: usize, limit: usize) -> (r: Vec<usize>)
    requires
        base + line_total(*def) <= limit,
    ensures
        r@.len() == def.bridles@.len() + 1,
        forall|b: int|
            0 <= b <= def.bridles@.len() ==> #[trigger] r@[b] == base + line_start(*def, b),
{
    let mut out: Vec<usize> = Vec::new();
    let mut at: usize = base;
    out.push(at);
    let mut b: usize = 0;
    while b < def.bridles.len()
        invariant
            base + line_total(*def) <= limit,
            b <= def.bridles@.len(),
            at == base + line_start(*def, b as int),
            out@.len() == b + 1,
            forall|k: int| 0 <= k <= b ==> #[trigger] out@[k] == base + line_start(*def, k),
        decreases def.bridles@.len() - b,
    {
        proof {
            line_start_grows(*def, b as int + 1, def.bridles@.len() as int);
            assert(bridle_row(def.bridles@, b as int).len() == line_segments(*def, b as int) + 1);
        }
        at = at + or_one(def.bridles[b].num_segments) + 1;
        out.push(at);
        b += 1;
    }
    out
}

/// Whether line `b` ends on line `c`; `line_sites` holds the numbers of the
/// lines' first sites.
fn line_ends_on(
    t: &NearTable,
    def: &KiteDefinition,
    existing: usize,
    line_sites: &Vec<usize>,
    b: usize,
    c: usize,
) -> (r: bool)
    requires
        t.covers(site_count(*def, existing as nat)),
        b < def.bridles@.len(),
        c < def.bridles@.len(),
        line_sites@.len() == def.bridles@.len() + 1,
        forall|k: int|
            0 <= k <= def.bridles@.len() ==> #[trigger] line_sites@[k] == line_site(
                *def,
                existing as nat,
                k,
            ),
    ensures
        r == ends_on(*t, *def, existing as nat, b as int, c as int),
{
    let n: usize = or_one(def.bridles[c].num_segments);
    let from: usize = line_sites[b];
    let base: usize = line_sites[c];
    let total: usize = t.rows.len();
    proof {
        line_start_grows(*def, b as int, def.bridles@.len() as int);
        line_start_grows(*def, c as int, def.bridles@.len() as int);
    }
    let mut k: usize = 1;
    while k < n
        invariant
            t.covers(site_count(*def, existing as nat)),
            total == site_count(*def, existing as nat),
            1 <= k <= n,
            n == line_segments(*def, c as int),
            from == line_site(*def, existing as nat, b as int),
            base == line_site(*def, existing as nat, c as int),
            from + 1 < total,
            base + 1 + n <= total,
            forall|j: int|
                1 <= j < k ==> !#[trigger] node_at_end(
                    *t,
                    *def,
                    existing as nat,
                    b as int,
                    c as int,
                    j,
                ),
        decreases n - k,
    {
        let inner: usize = base + 1 + k;
        assert(t.rows@[inner as int]@.len() == total);
        if t.rows[inner][from] || t.rows[inner][from + 1] {
            assert(node_at_end(*t, *def, existing as nat, b as int, c as int, k as int));
            return true;
        }
        k += 1;
    }
    false
}

/// Which lines end on which.
fn collect_ties(
    t: &NearTable,
    def: &KiteDefinition,
    existing: usize,
    line_sites: &Vec<usize>,
) -> (r: Vec<Vec<bool>>)
    requires
        t.covers(site_count(*def, existing as nat)),
        line_sites@.len() == def.bridles@.len() + 1,
        forall|k: int|
            0 <= k <= def.bridles@.len() ==> #[trigger] line_sites@[k] == line_site(
                *def,
                existing as nat,
                k,
            ),
    ensures
        ties_match(*t, *def, existing as nat, r@),
{
    let n: usize = def.bridles.len();
    let mut out: Vec<Vec<bool>> = Vec::new();
    let mut b: usize = 0;
    while b < n
        invariant
            t.covers(site_count(*def, existing as nat)),
            n == def.bridles@.len(),
            line_sites@.len() == n + 1,
            forall|k: int|
                0 <= k <= n ==> #[trigger] line_sites@[k] == line_site(*def, existing as nat, k),
            b <= n,
            out@.len() == b,
            forall|i: int| 0 <= i < b ==> (#[trigger] out@[i])@.len() == n,
            forall|i: int, c: int|
                #![trigger out@[i]@[c]]
                0 <= i < b && 0 <= c < n ==> out@[i]@[c] == ends_on(
                    *t,
                    *def,
                    existing as nat,
                    i,
                    c,
                ),
        decreases n - b,
    {
        let mut row: Vec<bool> = Vec::new();
        let mut c: usize = 0;
        while c < n
            invariant
                t.covers(site_count(*def, existing as nat)),
                n == def.bridles@.len(),
                line_sites@.len() == n + 1,
                forall|k: int|
                    0 <= k <= n ==> #[trigger] line_sites@[k] == line_site(
                        *def,
                        existing as nat,
                        k,
                    ),
                b < n,
                c <= n,
                row@.len() == c,
                forall|k: int|
                    0 <= k < c ==> #[trigger] row@[k] == ends_on(
                        *t,
                        *def,
                        existing as nat,
                        b as int,
                        k,
                    ),
            decreases n - c,
        {
            row.push(line_ends_on(t, def, existing, line_sites, b, c));
            c += 1;
        }
        out.push(row);
        b += 1;
    }
    out
}

/// `n` requests at consecutive sites.
pub open spec fn run(base: int, n: nat, fresh: bool) -> Seq<Request> {
    Seq::new(n, |i: int| Request { site: (base + i) as usize, fresh })
}

fn push_run(requests: &mut Vec<Request>, base: usize, n: usize, fresh: bool, limit: usize)
    requires
        base + n <= limit,
        requests_within(old(requests)@, limit as nat),
    ensures
        final(requests)@ == old(requests)@ + run(base as int, n as nat, fresh),
        requests_within(final(requests)@, limit as nat),
{
    let ghost before = requests@;
    let mut i: usize = 0;
    assert(before + run(base as int, 0, fresh) =~= before);
    while i < n
        invariant
            base + n <= limit,
            i <= n,
            requests@ == before + run(base as int, i as nat, fresh),
            requests_within(requests@, limit as nat),
        decreases n - i,
    {
        requests.push(Request { site: base + i, fresh });
        i += 1;
        assert(requests@ =~= before + run(base as int, i as nat, fresh));
    }
}

/// Adds the requests of line `b`.
fn push_line(
    t: &NearTable,
    def: &KiteDefinition,
    existing: usize,
    junction: usize,
    line_sites: &Vec<usize>,
    b: usize,
    requests: &mut Vec<Request>,
)
    requires
        t.covers(site_count(*def, existing as nat)),
        b < def.bridles@.len(),
        junction == junction_site(*def, existing as nat),
        line_sites@.len() == def.bridles@.len() + 1,
        forall|k: int|
            0 <= k <= def.bridles@.len() ==> #[trigger] line_sites@[k] == line_site(
                *def,
                existing as nat,
                k,
            ),
        requests_within(old(requests)@, site_count(*def, existing as nat)),
    ensures
        final(requests)@ == old(requests)@ + line_requests(*t, *def, existing as nat, b as int),
        requests_within(final(requests)@, site_count(*def, existing as nat)),
{
    let ghost before = requests@;
    let total: usize = t.rows.len();
    let n: usize = or_one(def.bridles[b].num_segments);
    let from: usize = line_sites[b];
    proof {
        line_start_grows(*def, b as int, def.bridles@.len() as int);
        assert(t.rows@[junction as int]@.len() == total);
    }
    push_run(requests, from, 1, false, total);
    if !t.rows[junction][from + 1] {
        push_run(requests, from + 1, 1, false, total);
    }
    push_run(requests, from + 2, n - 1, true, total);
    assert(requests@ =~= before + line_requests(*t, *def, existing as nat, b as int));
}

/// Finds the node of every site of a kite that is built among `existing`
/// particles, `t` telling which sites coincide.
pub fn lay_out(t: &NearTable, def: &KiteDefinition, existing: usize) -> (r: Layout)
    requires
        buildable(*def),
        t.covers(site_count(*def, existing as nat)),
    ensures
        r.of(*t, *def, existing as nat),
{
    let total: usize = t.rows.len();
    let ghost ex = existing as nat;
    let spar_requests: Vec<usize> = spar_starts(def, existing, total);
    let spar_end: usize = spar_requests[def.spars.len()];
    let panel_base: usize = spar_end + def.stiff_junctions.len();
    let panel_sites: Vec<usize> = panel_starts(def, panel_base, total);
    let panel_requests: Vec<usize> = panel_starts(def, spar_end, total);
    let junction: usize = panel_sites[def.panels.len()];
    let line_sites: Vec<usize> = line_starts(def, junction + 1, total);
    let pin_base: usize = line_sites[def.bridles.len()];
    let ties: Vec<Vec<bool>> = collect_ties(t, def, existing, &line_sites);
    let order: Vec<usize> = order_lines(&ties);
    let mut requests: Vec<Request> = Vec::new();
    push_run(&mut requests, 0, existing, true, total);
    push_run(&mut requests, existing, spar_end - existing, false, total);
    push_run(&mut requests, panel_base, junction - panel_base, false, total);
    push_run(&mut requests, junction, 1, false, total);
    assert(requests@ =~= frame_requests(*def, ex));
    let ghost frame = requests@;
    let mut line_requests: Vec<usize> = Vec::new();
    line_requests.push(requests.len());
    let mut m: usize = 0;
    proof {
        assert(frame + ordered_requests(*t, *def, ex, order@, 0) =~= frame);
    }
    while m < order.len()
        invariant
            t.covers(site_count(*def, ex)),
            ex == existing,
            junction == junction_site(*def, ex),
            line_sites@.len() == def.bridles@.len() + 1,
            forall|k: int|
                0 <= k <= def.bridles@.len() ==> #[trigger] line_sites@[k] == line_site(
                    *def,
                    ex,
                    k,
                ),
            forall|b: usize| #[trigger] order@.contains(b) <==> b < def.bridles@.len(),
            frame.len() == junction_request(*def, ex) + 1,
            m <= order@.len(),
            requests@ == frame + ordered_requests(*t, *def, ex, order@, m as nat),
            requests_within(requests@, site_count(*def, ex)),
            line_requests@.len() == m + 1,
            forall|k: int|
                0 <= k <= m ==> #[trigger] line_requests@[k] == line_request(
                    *t,
                    *def,
                    ex,
                    order@,
                    k,
                ),
        decreases order@.len() - m,
    {
        let b: usize = order[m];
        assert(order@.contains(b));
        push_line(t, def, existing, junction, &line_sites, b, &mut requests);
        m += 1;
        assert(requests@ =~= frame + ordered_requests(*t, *def, ex, order@, m as nat));
        line_requests.push(requests.len());
    }
    let ghost lines = requests@;
    push_run(&mut requests, pin_base, def.pinned_points.len(), false, total);
    assert(requests@ =~= kite_requests(*t, *def, ex, order@));
    let welded: Welded = weld(t, &requests);
    Layout {
        ties,
        order,
        requests,
        nodes: welded.nodes,
        origins: welded.origins,
        spar_requests,
        panel_requests,
        line_requests,
    }
}

} // verus!
