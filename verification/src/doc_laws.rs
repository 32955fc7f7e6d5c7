//! What a document's points become in the kite that is built from it.
use crate::doc::EditorDoc;
use crate::doc_scenario::kite_writes;
use crate::geometry::{at_least_one, bridle_sites, site_list, KiteDefinition, Site};
use crate::layout::{
    ends_at_junction, junction_site, line_site, line_start, line_start_grows, site_count, Layout,
};
use crate::mesh::GridVert;
use crate::pins::pin_order;
use crate::scalar::Vec3;
use crate::weld::{equal_sites_share_node, NearTable};
use vstd::prelude::*;

verus! {

/// The place of a site that a definition names outright: an end of a spar or of
/// a line, a corner of a panel, or a point of its own.
pub open spec fn named_place(def: KiteDefinition, site: Site) -> Option<Vec3> {
    match site {
        Site::Existing { .. } => None,
        Site::SparNode { spar, node } => {
            let s = def.spars@[spar as int];
            if node == 0 {
                Some(s.start)
            } else if node == s.num_segments {
                Some(s.end)
            } else {
                None
            }
        },
        Site::StiffJunction { junction } => Some(def.stiff_junctions@[junction as int].point),
        Site::PanelVert { panel, vert } => {
            let p = def.panels@[panel as int];
            at_corner(vert, at_least_one(p.subdivisions), p.p1, p.p2, p.p3)
        },
        Site::BridleJunction => Some(def.bridle_junction),
        Site::BridleFrom { line } => Some(def.bridles@[line as int].from),
        Site::BridleTo { line } => Some(def.bridles@[line as int].to),
        Site::BridleInner { .. } => None,
        Site::Pinned { point } => Some(def.pinned_points@[point as int]),
    }
}

/// What a panel of `n` subdivisions has at a vertex of its grid, where it has
/// `a`, `b` and `c` at its corners and nothing elsewhere.
pub open spec fn at_corner<T>(v: GridVert, n: nat, a: T, b: T, c: T) -> Option<T> {
    if v.i == 0 && v.j == 0 {
        Some(a)
    } else if v.i == n && v.j == 0 {
        Some(b)
    } else if v.i == 0 && v.j == n {
        Some(c)
    } else {
        None
    }
}

/// An element of the document puts the site at its point `p`.
pub open spec fn at_point(doc: EditorDoc, order: Seq<usize>, site: Site, p: usize) -> bool {
    match site {
        Site::Existing { .. } => false,
        Site::SparNode { spar, node } => {
            let s = doc.spars@[spar as int];
            &&& spar < doc.spars@.len()
            &&& node == 0 && p == s.a || node != 0 && node == s.num_segments && p == s.b
        },
        Site::StiffJunction { junction } => {
            &&& junction < doc.stiff_joints@.len()
            &&& p == doc.stiff_joints@[junction as int].point
        },
        Site::PanelVert { panel, vert } => {
            let c = doc.panels@[panel as int];
            &&& panel < doc.panels@.len()
            &&& at_corner(vert, at_least_one(c.subdivisions), c.a, c.b, c.c) == Some(p)
        },
        Site::BridleJunction => doc.junction == Some(p),
        Site::BridleFrom { line } => line < doc.bridles@.len() && p == doc.bridles@[line as int].a,
        Site::BridleTo { line } => line < doc.bridles@.len() && p == doc.bridles@[line as int].b,
        Site::BridleInner { .. } => false,
        Site::Pinned { point } => point < order.len() && p == order[point as int],
    }
}

/// The table treats sites at the same named place alike: each coincides with
/// itself, and what coincides with one of them coincides with the others.
pub open spec fn places_alike(t: NearTable, def: KiteDefinition, existing: nat) -> bool {
    forall|a: int, b: int|
        #![trigger site_list(def, existing)[a], site_list(def, existing)[b]]
        0 <= a < site_count(def, existing) && 0 <= b < site_count(def, existing) && named_place(
            def,
            site_list(def, existing)[a],
        ) is Some && named_place(def, site_list(def, existing)[a]) == named_place(
            def,
            site_list(def, existing)[b],
        ) ==> t.near(a, a) && (forall|s: int|
            #![trigger t.near(s, a)]
            0 <= s < site_count(def, existing) ==> t.near(s, a) == t.near(s, b))
}

/// A site that an element of the document puts at a point has that point's
/// coordinates in the definition.
pub proof fn point_names_place(
    doc: EditorDoc,
    def: KiteDefinition,
    order: Seq<usize>,
    site: Site,
    p: usize,
)
    requires
        kite_writes(doc, def),
        def.pinned_points@ == order.map_values(|i: usize| doc.points@[i as int]),
        at_point(doc, order, site, p),
    ensures
        named_place(def, site) == Some(doc.points@[p as int]),
{
}

/// A point that two elements of a document share becomes one particle of the
/// kite: whatever nodes are asked for at it are the same.
pub proof fn shared_point_is_one_particle(
    doc: EditorDoc,
    def: KiteDefinition,
    order: Seq<usize>,
    t: NearTable,
    existing: nat,
    l: Layout,
    p: usize,
    i: int,
    j: int,
)
    requires
        kite_writes(doc, def),
        pin_order(doc.points@, doc.pinned@, order),
        def.pinned_points@ == order.map_values(|i: usize| doc.points@[i as int]),
        l.of(t, def, existing),
        places_alike(t, def, existing),
        0 <= i < j < l.requests@.len(),
        !l.requests@[i].fresh,
        !l.requests@[j].fresh,
        at_point(doc, order, site_list(def, existing)[l.requests@[i].site as int], p),
        at_point(doc, order, site_list(def, existing)[l.requests@[j].site as int], p),
    ensures
        l.nodes@[i] == l.nodes@[j],
{
    let sites = site_list(def, existing);
    let a = l.requests@[i].site as int;
    let b = l.requests@[j].site as int;
    point_names_place(doc, def, order, sites[a], p);
    point_names_place(doc, def, order, sites[b], p);
    equal_sites_share_node(t, l.requests@, site_count(def, existing), i, j);
}

/// A line whose second point is the document's junction ends at the junction of
/// the kite, and asks for no node there.
pub proof fn line_to_junction_ends_there(
    doc: EditorDoc,
    def: KiteDefinition,
    t: NearTable,
    existing: nat,
    b: int,
)
    requires
        kite_writes(doc, def),
        places_alike(t, def, existing),
        0 <= b < doc.bridles@.len(),
        doc.junction == Some(doc.bridles@[b].b),
    ensures
        ends_at_junction(t, def, existing, b),
{
    let sites = site_list(def, existing);
    let j = junction_site(def, existing) as int;
    let e = line_site(def, existing, b) as int + 1;
    line_start_grows(def, b, def.bridles@.len() as int);
    line_end_site(def, existing, b);
    assert(b < def.bridles.len());
    assert(def.bridles@[b].to == def.bridle_junction);
    assert(named_place(def, sites[j]) == named_place(def, sites[e]));
    assert(t.near(j, j) == t.near(j, e));
}

/// Where the junction and a line's second end stand in the list of sites.
proof fn line_end_site(def: KiteDefinition, existing: nat, b: int)
    requires
        0 <= b < def.bridles@.len(),
    ensures
        site_list(def, existing)[junction_site(def, existing) as int] == Site::BridleJunction,
        site_list(def, existing)[line_site(def, existing, b) as int + 1] == (Site::BridleTo {
            line: b as usize,
        }),
{
    line_end_among_lines(def, b, def.bridles@.len() as int);
}

proof fn line_end_among_lines(def: KiteDefinition, b: int, m: int)
    requires
        0 <= b < m <= def.bridles@.len(),
    ensures
        ({
            let sites = bridle_sites(def.bridles@, m as nat);
            let at = line_start(def, b) + 1;
            &&& at < sites.len()
            &&& sites[at as int] == (Site::BridleTo { line: b as usize })
        }),
    decreases m,
{
    if b < m - 1 {
        line_end_among_lines(def, b, m - 1);
    }
}

} // verus!
