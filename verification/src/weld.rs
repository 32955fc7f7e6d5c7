//! Welding: nodes that coincide within a tolerance become one.
//!
//! Nodes are requested at numbered sites, in some order. A request at a site
//! that coincides with the site of a node already there gets that node (the
//! earliest such node); otherwise it gets a new one. Whether two sites
//! coincide is measured outside and comes in as a table.
use vstd::prelude::*;

verus! {

/// For each pair of sites, whether they coincide within the tolerance.
pub struct NearTable {
    pub rows: Vec<Vec<bool>>,
}

impl NearTable {
    /// The table is square, over `n` sites.
    pub open spec fn covers(self, n: nat) -> bool {
        &&& self.rows@.len() == n
        &&& forall|i: int| 0 <= i < n ==> (#[trigger] self.rows@[i])@.len() == n
    }

    pub open spec fn near(self, i: int, j: int) -> bool {
        self.rows@[i]@[j]
    }
}

/// A node is wanted at a site. A fresh one is new wherever it is.
#[derive(Clone, Copy, Debug, PartialEq, Eq, Structural)]
pub struct Request {
    pub site: usize,
    pub fresh: bool,
}

/// Every request is for one of `n` sites.
pub open spec fn requests_within(requests: Seq<Request>, n: nat) -> bool {
    forall|k: int| 0 <= k < requests.len() ==> (#[trigger] requests[k]).site < n
}

/// The earliest node, from `k` on, whose site coincides with `site`; the
/// number of nodes if there is none.
pub open spec fn lookup(t: NearTable, origins: Seq<usize>, site: usize, k: nat) -> nat
    decreases origins.len() - k,
{
    if k >= origins.len() {
        origins.len()
    } else if t.near(origins[k as int] as int, site as int) {
        k
    } else {
        lookup(t, origins, site, k + 1)
    }
}

/// The node that a request gets, the nodes so far being at `origins`.
pub open spec fn landing(t: NearTable, origins: Seq<usize>, request: Request) -> nat {
    if request.fresh {
        origins.len()
    } else {
        lookup(t, origins, request.site, 0)
    }
}

/// The nodes after a request: one more if the request got a new one.
pub open spec fn after_request(t: NearTable, origins: Seq<usize>, request: Request) -> Seq<usize> {
    if landing(t, origins, request) < origins.len() {
        origins
    } else {
        origins.push(request.site)
    }
}

/// The sites of the nodes after the first `n` requests.
pub open spec fn origins_after(t: NearTable, requests: Seq<Request>, n: nat) -> Seq<usize>
    decreases n,
{
    if n == 0 {
        Seq::empty()
    } else {
        after_request(t, origins_after(t, requests, (n - 1) as nat), requests[n - 1])
    }
}

/// The node of the `k`-th request.
pub open spec fn node_of(t: NearTable, requests: Seq<Request>, k: int) -> nat {
    landing(t, origins_after(t, requests, k as nat), requests[k])
}

/// The outcome of a list of requests.
pub struct Welded {
    /// The site of each node.
    pub origins: Vec<usize>,
    /// The node of each request.
    pub nodes: Vec<usize>,
}

/// `lookup` finds the earliest coinciding node.
pub proof fn lookup_is_earliest(t: NearTable, origins: Seq<usize>, site: usize, k: nat)
    requires
        k <= origins.len(),
    ensures
        k <= lookup(t, origins, site, k) <= origins.len(),
        lookup(t, origins, site, k) < origins.len() ==> t.near(
            origins[lookup(t, origins, site, k) as int] as int,
            site as int,
        ),
        forall|j: int|
            k <= j < lookup(t, origins, site, k) ==> !t.near(
                #[trigger] origins[j] as int,
                site as int,
            ),
    decreases origins.len() - k,
{
    if k < origins.len() && !t.near(origins[k as int] as int, site as int) {
        lookup_is_earliest(t, origins, site, k + 1);
    }
}

/// Nodes keep their numbers: later requests only add nodes at the end.
pub proof fn origins_only_grow(t: NearTable, requests: Seq<Request>, m: nat, n: nat)
    requires
        m <= n,
    ensures
        origins_after(t, requests, m).len() <= origins_after(t, requests, n).len(),
        origins_after(t, requests, n).len() <= origins_after(t, requests, m).len() + (n - m),
        origins_after(t, requests, m) == origins_after(t, requests, n).take(
            origins_after(t, requests, m).len() as int,
        ),
    decreases n - m,
{
    let a = origins_after(t, requests, m);
    if m < n {
        origins_only_grow(t, requests, m, (n - 1) as nat);
        let b = origins_after(t, requests, (n - 1) as nat);
        let c = origins_after(t, requests, n);
        assert(a =~= c.take(a.len() as int));
    } else {
        assert(a =~= a.take(a.len() as int));
    }
}

/// Every request gets a node that exists, and whose site is the request's own
/// or, for a request that is not fresh, one that coincides with it.
pub proof fn request_gets_coinciding_node(t: NearTable, requests: Seq<Request>, k: int, n: nat)
    requires
        0 <= k < n,
    ensures
        node_of(t, requests, k) < origins_after(t, requests, n).len(),
        ({
            let o = origins_after(t, requests, n)[node_of(t, requests, k) as int];
            o == requests[k].site || (!requests[k].fresh && t.near(
                o as int,
                requests[k].site as int,
            ))
        }),
{
    let before = origins_after(t, requests, k as nat);
    let after = origins_after(t, requests, (k + 1) as nat);
    lookup_is_earliest(t, before, requests[k].site, 0);
    origins_only_grow(t, requests, (k + 1) as nat, n);
    let last = origins_after(t, requests, n);
    let i = node_of(t, requests, k) as int;
    assert(last.take(after.len() as int)[i] == after[i]);
}

/// Every node was made by a request at its own site.
pub proof fn node_has_request(t: NearTable, requests: Seq<Request>, n: nat, i: int)
    requires
        n <= requests.len(),
        0 <= i < origins_after(t, requests, n).len(),
    ensures
        exists|k: int|
            0 <= k < n && #[trigger] requests[k].site == origins_after(t, requests, n)[i] && node_of(
                t,
                requests,
                k,
            ) == i,
    decreases n,
{
    let before = origins_after(t, requests, (n - 1) as nat);
    if i < before.len() {
        node_has_request(t, requests, (n - 1) as nat, i);
        let k = choose|k: int|
            0 <= k < n - 1 && #[trigger] requests[k].site == before[i] && node_of(t, requests, k)
                == i;
        assert(requests[k].site == origins_after(t, requests, n)[i]);
    } else {
        lookup_is_earliest(t, before, requests[n - 1].site, 0);
        assert(requests[n - 1].site == origins_after(t, requests, n)[i]);
    }
}

/// Two requests at the same place get the same node: neither is fresh, and the
/// same sites coincide with the one as with the other.
pub proof fn equal_sites_share_node(t: NearTable, requests: Seq<Request>, n: nat, k: int, l: int)
    requires
        requests_within(requests, n),
        0 <= k < l < requests.len(),
        !requests[k].fresh,
        !requests[l].fresh,
        t.near(requests[k].site as int, requests[k].site as int),
        forall|s: int|
            #![trigger t.near(s, requests[k].site as int)]
            0 <= s < n ==> t.near(s, requests[k].site as int) == t.near(
                s,
                requests[l].site as int,
            ),
    ensures
        node_of(t, requests, k) == node_of(t, requests, l),
{
    let a = requests[k].site;
    let b = requests[l].site;
    let before = origins_after(t, requests, k as nat);
    let mid = origins_after(t, requests, (k + 1) as nat);
    let late = origins_after(t, requests, l as nat);
    let i = node_of(t, requests, k) as int;
    lookup_is_earliest(t, before, a, 0);
    lookup_is_earliest(t, late, b, 0);
    origins_only_grow(t, requests, k as nat, (k + 1) as nat);
    origins_only_grow(t, requests, (k + 1) as nat, l as nat);
    assert forall|j: int| 0 <= j < mid.len() implies late[j] == mid[j] by {
        assert(late.take(mid.len() as int)[j] == late[j]);
    }
    assert forall|j: int| 0 <= j < before.len() implies mid[j] == before[j] by {
        assert(mid.take(before.len() as int)[j] == mid[j]);
    }
    assert forall|j: int| 0 <= j < late.len() implies late[j] < n by {
        node_has_request(t, requests, l as nat, j);
    }
    assert(t.near(mid[i] as int, a as int));
    assert(t.near(late[i] as int, b as int));
    assert forall|j: int| 0 <= j < i implies !t.near(late[j] as int, b as int) by {
        assert(late[j] == before[j]);
        assert(!t.near(before[j] as int, a as int));
    }
}

/// A request at a site that coincides with one where a node was made before
/// makes no new node.
pub proof fn later_request_reuses_node(t: NearTable, requests: Seq<Request>, k: int, l: int)
    requires
        0 <= k < l < requests.len(),
        !requests[l].fresh,
        node_of(t, requests, k) == origins_after(t, requests, k as nat).len(),
        t.near(requests[k].site as int, requests[l].site as int),
    ensures
        node_of(t, requests, l) <= node_of(t, requests, k),
        origins_after(t, requests, (l + 1) as nat) == origins_after(t, requests, l as nat),
{
    let mid = origins_after(t, requests, (k + 1) as nat);
    let late = origins_after(t, requests, l as nat);
    let i = node_of(t, requests, k) as int;
    lookup_is_earliest(t, origins_after(t, requests, k as nat), requests[k].site, 0);
    lookup_is_earliest(t, late, requests[l].site, 0);
    origins_only_grow(t, requests, (k + 1) as nat, l as nat);
    assert(late.take(mid.len() as int)[i] == late[i]);
    assert(mid[i] == requests[k].site);
}

/// The earliest of the first `count` nodes whose site coincides with `site`.
pub fn find_site(t: &NearTable, origins: &Vec<usize>, count: usize, site: usize) -> (r: Option<
    usize,
>)
    requires
        t.covers(t.rows@.len()),
        site < t.rows@.len(),
        count <= origins@.len(),
        forall|j: int| 0 <= j < origins@.len() ==> (#[trigger] origins@[j]) < t.rows@.len(),
    ensures
        match r {
            Some(i) => i < count && i == lookup(*t, origins@.take(count as int), site, 0),
            None => lookup(*t, origins@.take(count as int), site, 0) == count,
        },
{
    let ghost prefix = origins@.take(count as int);
    let mut i: usize = 0;
    while i < count
        invariant
            i <= count <= origins@.len(),
            prefix == origins@.take(count as int),
            t.covers(t.rows@.len()),
            site < t.rows@.len(),
            forall|j: int| 0 <= j < origins@.len() ==> (#[trigger] origins@[j]) < t.rows@.len(),
            lookup(*t, prefix, site, 0) == lookup(*t, prefix, site, i as nat),
        decreases count - i,
    {
        assert(prefix[i as int] == origins@[i as int]);
        if t.rows[origins[i]][site] {
            return Some(i);
        }
        i += 1;
    }
    None
}

/// Serves a list of requests in order.
pub fn weld(t: &NearTable, requests: &Vec<Request>) -> (r: Welded)
    requires
        t.covers(t.rows@.len()),
        requests_within(requests@, t.rows@.len()),
    ensures
        r.origins@ == origins_after(*t, requests@, requests@.len()),
        r.nodes@.len() == requests@.len(),
        forall|k: int|
            0 <= k < requests@.len() ==> #[trigger] r.nodes@[k] == node_of(*t, requests@, k),
        forall|k: int| 0 <= k < r.nodes@.len() ==> (#[trigger] r.nodes@[k]) < r.origins@.len(),
        forall|j: int| 0 <= j < r.origins@.len() ==> (#[trigger] r.origins@[j]) < t.rows@.len(),
{
    let mut origins: Vec<usize> = Vec::new();
    let mut nodes: Vec<usize> = Vec::new();
    let mut n: usize = 0;
    while n < requests.len()
        invariant
            n <= requests@.len(),
            t.covers(t.rows@.len()),
            requests_within(requests@, t.rows@.len()),
            origins@ == origins_after(*t, requests@, n as nat),
            nodes@.len() == n,
            forall|k: int| 0 <= k < n ==> #[trigger] nodes@[k] == node_of(*t, requests@, k),
            forall|k: int| 0 <= k < n ==> (#[trigger] nodes@[k]) < origins@.len(),
            forall|j: int| 0 <= j < origins@.len() ==> (#[trigger] origins@[j]) < t.rows@.len(),
        decreases requests@.len() - n,
    {
        let request: Request = requests[n];
        let count: usize = origins.len();
        assert(origins@.take(count as int) =~= origins@);
        let found: Option<usize> = if request.fresh {
            None
        } else {
            find_site(t, &origins, count, request.site)
        };
        match found {
            Some(i) => {
                nodes.push(i);
            },
            None => {
                nodes.push(count);
                origins.push(request.site);
            },
        }
        n += 1;
    }
    Welded { origins, nodes }
}

} // verus!
