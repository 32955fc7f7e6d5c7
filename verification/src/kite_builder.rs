//! Building a kite into a world.
//!
//! The work is in two parts, with measurements in between. First the plan:
//! which nodes there are, and which of them every rod, joint, triangle, edge,
//! tie and line joins. Then, with the lengths, masses and angles measured for
//! that plan, the particles and constraints themselves.
use crate::cloth::{
    cloth_edges, collect_edges, collect_folds, collect_sides, folds_of, only_pair, fold_of,
    sides_of, tri_sides, ClothEdge, Fold, MeshTri, Side,
};
use crate::constraints::{
    BendTwistConstraint, ConstraintState, DihedralBendingConstraint, DistanceConstraint,
    StretchShearConstraint, UnilateralDistanceConstraint,
};
use crate::frame::{
    chains_of, collect_chains, collect_lashes, collect_mesh, collect_stiff_pairs, contacts_of,
    crosses, junction_pairs, lashes_of, mesh_of, mesh_within, nodes_after_spars, pairs_cross_spars,
    segment_start, segment_start_grows, spar_contacts, spar_request_bound, spar_node, stiff_pairs,
    touching, Contact, LashPair, StiffPair,
};
use crate::geometry::{
    buildable, kite_sites, site_list, BridleLineDef, KiteDefinition, PanelDef, Site,
};
use crate::layout::{
    frame_requests, lay_out, line_segments, pin_request, site_count, site_list_len, spar_total,
    Layout,
};
use crate::particles::{stored_inv_mass, ParticleSet};
use crate::scalar::{Quat, Scalar, Vec3};
use crate::weld::{lookup, lookup_is_earliest, node_of, origins_after, NearTable, Request};
use crate::world::{distances_within, unilaterals_within, CanopyPanel, World};
use vstd::prelude::*;

verus! {

/// What a kite consists of, by the particles and segments it joins.
pub struct KitePlan {
    /// The node of every site.
    pub layout: Layout,
    /// Segments locked together by stiff junctions.
    pub stiff: Vec<StiffPair>,
    /// The triangles of the canopy.
    pub tris: Vec<MeshTri>,
    /// The edges of the canopy.
    pub edges: Vec<ClothEdge>,
    /// The folds of the canopy.
    pub folds: Vec<Fold>,
    /// Particles tied together by lashings.
    pub lashes: Vec<LashPair>,
    /// The particles of each line, in listing order.
    pub chains: Vec<Vec<usize>>,
    /// The particle of each pinned point.
    pub pins: Vec<usize>,
}

impl KitePlan {
    /// The plan of `def` among `existing` particles, `base` segments and the
    /// distance constraints `cs`. `t` tells which sites coincide, `distances`
    /// how far each lashing's point is from each spar node.
    pub open spec fn of(
        self,
        t: NearTable,
        def: KiteDefinition,
        existing: nat,
        base: nat,
        cs: Seq<DistanceConstraint>,
        distances: Seq<Vec<Scalar>>,
    ) -> bool {
        let l = self.layout;
        let sides = sides_of(self.tris@, self.tris@.len());
        &&& l.of(t, def, existing)
        &&& self.stiff@ == stiff_pairs(t, l, def, existing, base, def.stiff_junctions@.len())
        &&& self.tris@ == mesh_of(l, def, existing, def.panels@.len())
        &&& self.edges@ == cloth_edges(cs, sides, sides.len())
        &&& folds_of(sides, self.folds@)
        &&& self.lashes@ == lashes_of(l, def, existing, distances, def.lashings@.len())
        &&& chains_of(t, l, def, existing, self.chains@)
        &&& self.pins@.len() == def.pinned_points@.len()
        &&& forall|k: int|
            0 <= k < self.pins@.len() ==> #[trigger] self.pins@[k] == l.nodes@[pin_request(
                t,
                def,
                existing,
                l.order@,
            ) + k]
    }

    /// Everything the plan names exists: particles below `np`, segments below
    /// `nq`, and elements of `def`.
    pub open spec fn within(self, def: KiteDefinition, np: nat, nq: nat) -> bool {
        &&& forall|k: int|
            0 <= k < self.stiff@.len() ==> (#[trigger] self.stiff@[k]).junction
                < def.stiff_junctions@.len() && self.stiff@[k].first < nq && self.stiff@[k].second
                < nq
        &&& mesh_within(self.tris@, def.panels@.len(), np)
        &&& forall|k: int|
            0 <= k < self.edges@.len() ==> (#[trigger] self.edges@[k]).panel < def.panels@.len()
                && self.edges@[k].a < np && self.edges@[k].b < np
        &&& forall|k: int|
            0 <= k < self.folds@.len() ==> (#[trigger] self.folds@[k]).panel < def.panels@.len()
                && self.folds@[k].p1 < np && self.folds@[k].p2 < np && self.folds@[k].p3 < np
                && self.folds@[k].p4 < np
        &&& forall|k: int|
            0 <= k < self.lashes@.len() ==> (#[trigger] self.lashes@[k]).lashing
                < def.lashings@.len() && self.lashes@[k].a < np && self.lashes@[k].b < np
        &&& forall|b: int, k: int|
            #![trigger self.chains@[b]@[k]]
            0 <= b < self.chains@.len() && 0 <= k < self.chains@[b]@.len() ==> self.chains@[b]@[k]
                < np
        &&& forall|b: int|
            0 <= b < self.chains@.len() ==> (#[trigger] self.chains@[b])@.len() == line_segments(
                def,
                b,
            ) + 1
        &&& forall|k: int| 0 <= k < self.pins@.len() ==> (#[trigger] self.pins@[k]) < np
    }
}

spec fn sides_within(sides: Seq<Side>, def: KiteDefinition, np: nat) -> bool {
    forall|k: int|
        0 <= k < sides.len() ==> (#[trigger] sides[k]).panel < def.panels@.len() && sides[k].a < np
            && sides[k].b < np && sides[k].opposite < np
}

proof fn sides_stay_within(tris: Seq<MeshTri>, def: KiteDefinition, np: nat, n: nat)
    requires
        mesh_within(tris, def.panels@.len(), np),
        n <= tris.len(),
    ensures
        sides_within(sides_of(tris, n), def, np),
    decreases n,
{
    if n > 0 {
        sides_stay_within(tris, def, np, (n - 1) as nat);
        let before = sides_of(tris, (n - 1) as nat);
        let more = tri_sides(tris[n - 1]);
        assert forall|k: int| 0 <= k < (before + more).len() implies (#[trigger] (before
            + more)[k]).panel < def.panels@.len() && (before + more)[k].a < np && (before + more)[k].b
            < np && (before + more)[k].opposite < np by {
            if k < before.len() {
                assert((before + more)[k] == before[k]);
            } else {
                assert((before + more)[k] == more[k - before.len()]);
            }
        }
    }
}

proof fn edges_stay_within(
    cs: Seq<DistanceConstraint>,
    sides: Seq<Side>,
    def: KiteDefinition,
    np: nat,
    n: nat,
)
    requires
        sides_within(sides, def, np),
        n <= sides.len(),
    ensures
        forall|k: int|
            0 <= k < cloth_edges(cs, sides, n).len() ==> (#[trigger] cloth_edges(cs, sides, n)[k]).panel
                < def.panels@.len() && cloth_edges(cs, sides, n)[k].a < np && cloth_edges(
                cs,
                sides,
                n,
            )[k].b < np,
    decreases n,
{
    if n > 0 {
        edges_stay_within(cs, sides, def, np, (n - 1) as nat);
        let before = cloth_edges(cs, sides, (n - 1) as nat);
        let after = cloth_edges(cs, sides, n);
        assert forall|k: int| 0 <= k < after.len() implies (#[trigger] after[k]).panel
            < def.panels@.len() && after[k].a < np && after[k].b < np by {
            if k < before.len() {
                assert(after[k] == before[k]);
            } else {
                assert(sides[n - 1].a < np);
            }
        }
    }
}

proof fn folds_stay_within(sides: Seq<Side>, folds: Seq<Fold>, def: KiteDefinition, np: nat)
    requires
        sides_within(sides, def, np),
        folds_of(sides, folds),
    ensures
        forall|k: int|
            0 <= k < folds.len() ==> (#[trigger] folds[k]).panel < def.panels@.len() && folds[k].p1
                < np && folds[k].p2 < np && folds[k].p3 < np && folds[k].p4 < np,
{
    assert forall|k: int| 0 <= k < folds.len() implies (#[trigger] folds[k]).panel
        < def.panels@.len() && folds[k].p1 < np && folds[k].p2 < np && folds[k].p3 < np
        && folds[k].p4 < np by {
        assert(folds.contains(folds[k]));
        let (i, j) = choose|i: int, j: int|
            i < sides.len() && #[trigger] only_pair(sides, i, j) && folds[k] == fold_of(
                sides[i],
                sides[j],
            );
        assert(sides[i].a < np && sides[j].a < np);
    }
}

proof fn spar_contacts_bound(
    l: Layout,
    def: KiteDefinition,
    existing: nat,
    base: nat,
    s: int,
    n: nat,
    nq: nat,
)
    requires
        base + segment_start(def, s as nat) + n <= nq <= usize::MAX,
    ensures
        forall|k: int|
            0 <= k < spar_contacts(l, def, existing, base, s, n).len() ==> (
            #[trigger] spar_contacts(l, def, existing, base, s, n)[k]).segment < nq,
    decreases n,
{
    if n > 0 {
        spar_contacts_bound(l, def, existing, base, s, (n - 1) as nat, nq);
        let before = spar_contacts(l, def, existing, base, s, (n - 1) as nat);
        let after = spar_contacts(l, def, existing, base, s, n);
        assert forall|k: int| 0 <= k < after.len() implies (#[trigger] after[k]).segment < nq by {
            if k < before.len() {
                assert(after[k] == before[k]);
            }
        }
    }
}

proof fn contacts_bound(l: Layout, def: KiteDefinition, existing: nat, base: nat, m: nat, nq: nat)
    requires
        m <= def.spars@.len(),
        base + segment_start(def, def.spars@.len()) <= nq <= usize::MAX,
    ensures
        forall|k: int|
            0 <= k < contacts_of(l, def, existing, base, m).len() ==> (#[trigger] contacts_of(
                l,
                def,
                existing,
                base,
                m,
            )[k]).segment < nq,
    decreases m,
{
    if m > 0 {
        contacts_bound(l, def, existing, base, (m - 1) as nat, nq);
        segment_start_grows(def, (m - 1) as nat, def.spars@.len());
        let n = def.spars@[m - 1].num_segments as nat;
        spar_contacts_bound(l, def, existing, base, m - 1, n, nq);
        let before = contacts_of(l, def, existing, base, (m - 1) as nat);
        let more = spar_contacts(l, def, existing, base, m - 1, n);
        let after = contacts_of(l, def, existing, base, m);
        assert forall|k: int| 0 <= k < after.len() implies (#[trigger] after[k]).segment < nq by {
            if k < before.len() {
                assert(after[k] == before[k]);
            } else {
                assert(after[k] == more[k - before.len()]);
            }
        }
    }
}

proof fn touching_bound(contacts: Seq<Contact>, particle: usize, n: nat, nq: nat)
    requires
        n <= contacts.len(),
        forall|k: int| 0 <= k < contacts.len() ==> (#[trigger] contacts[k]).segment < nq,
    ensures
        forall|k: int|
            0 <= k < touching(contacts, particle, n).len() ==> (#[trigger] touching(
                contacts,
                particle,
                n,
            )[k]).segment < nq,
    decreases n,
{
    if n > 0 {
        touching_bound(contacts, particle, (n - 1) as nat, nq);
        let before = touching(contacts, particle, (n - 1) as nat);
        let after = touching(contacts, particle, n);
        assert forall|k: int| 0 <= k < after.len() implies (#[trigger] after[k]).segment < nq by {
            if k < before.len() {
                assert(after[k] == before[k]);
            } else {
                assert(after[k] == contacts[n - 1]);
            }
        }
    }
}

proof fn stiff_bound(
    t: NearTable,
    l: Layout,
    def: KiteDefinition,
    existing: nat,
    base: nat,
    m: nat,
    nq: nat,
)
    requires
        m <= def.stiff_junctions@.len() <= usize::MAX,
        base + segment_start(def, def.spars@.len()) <= nq <= usize::MAX,
    ensures
        forall|k: int|
            0 <= k < stiff_pairs(t, l, def, existing, base, m).len() ==> (#[trigger] stiff_pairs(
                t,
                l,
                def,
                existing,
                base,
                m,
            )[k]).junction < m && stiff_pairs(t, l, def, existing, base, m)[k].first < nq
                && stiff_pairs(t, l, def, existing, base, m)[k].second < nq,
    decreases m,
{
    if m > 0 {
        stiff_bound(t, l, def, existing, base, (m - 1) as nat, nq);
        let before = stiff_pairs(t, l, def, existing, base, (m - 1) as nat);
        let more = junction_pairs(t, l, def, existing, base, m - 1);
        let after = stiff_pairs(t, l, def, existing, base, m);
        let contacts = contacts_of(l, def, existing, base, def.spars@.len());
        contacts_bound(l, def, existing, base, def.spars@.len(), nq);
        let nodes = nodes_after_spars(t, l, def, existing);
        let p = lookup(
            t,
            nodes,
            (crate::layout::stiff_site(def, existing) + (m - 1)) as usize,
            0,
        ) as usize;
        let touch = touching(contacts, p, contacts.len());
        touching_bound(contacts, p, contacts.len(), nq);
        pairs_cross_spars(touch, (m - 1) as usize, touch.len());
        assert forall|k: int| 0 <= k < after.len() implies (#[trigger] after[k]).junction < m
            && after[k].first < nq && after[k].second < nq by {
            if k < before.len() {
                assert(after[k] == before[k]);
            } else {
                assert(after[k] == more[k - before.len()]);
                assert(crosses(touch, (m - 1) as usize, more[k - before.len()]));
            }
        }
    }
}

/// Plans a kite that is built into `world`.
pub fn plan_kite(
    world: &World,
    def: &KiteDefinition,
    t: &NearTable,
    distances: &Vec<Vec<Scalar>>,
) -> (r: KitePlan)
    requires
        buildable(*def),
        t.covers(site_count(*def, world.particles.count())),
        world.orientations.count() + segment_start(*def, def.spars@.len()) <= usize::MAX,
        distances@.len() == def.lashings@.len(),
        forall|k: int|
            0 <= k < distances@.len() ==> (#[trigger] distances@[k])@.len() == spar_total(*def),
    ensures
        r.of(
            *t,
            *def,
            world.particles.count(),
            world.orientations.count(),
            world.distance_constraints@,
            distances@,
        ),
        r.within(
            *def,
            r.layout.origins@.len(),
            world.orientations.count() + segment_start(*def, def.spars@.len()),
        ),
{
    let existing: usize = world.particles.len();
    let base: usize = world.orientations.len();
    let layout: Layout = lay_out(t, def, existing);
    let stiff: Vec<StiffPair> = collect_stiff_pairs(t, &layout, def, existing, base);
    let junctions: usize = def.stiff_junctions.len();
    let tris: Vec<MeshTri> = collect_mesh(t, &layout, def, existing);
    let sides: Vec<Side> = collect_sides(&tris);
    let edges: Vec<ClothEdge> = collect_edges(&world.distance_constraints, &sides);
    let folds: Vec<Fold> = collect_folds(&sides);
    let lashes: Vec<LashPair> = collect_lashes(t, &layout, def, existing, distances);
    let chains: Vec<Vec<usize>> = collect_chains(t, &layout, def, existing);
    let pins: Vec<usize> = collect_pins(t, &layout, def, existing);
    proof {
        let np = layout.origins@.len();
        let nq = base + segment_start(*def, def.spars@.len());
        stiff_bound(
            *t,
            layout,
            *def,
            existing as nat,
            base as nat,
            junctions as nat,
            nq as nat,
        );
        sides_stay_within(tris@, *def, np, tris@.len());
        edges_stay_within(world.distance_constraints@, sides@, *def, np, sides@.len());
        folds_stay_within(sides@, folds@, *def, np);
    }
    KitePlan { layout, stiff, tris, edges, folds, lashes, chains, pins }
}

/// The particles of the pinned points.
fn collect_pins(t: &NearTable, l: &Layout, def: &KiteDefinition, existing: usize) -> (r: Vec<usize>)
    requires
        l.of(*t, *def, existing as nat),
    ensures
        r@.len() == def.pinned_points@.len(),
        forall|k: int|
            0 <= k < r@.len() ==> #[trigger] r@[k] == l.nodes@[pin_request(
                *t,
                *def,
                existing as nat,
                l.order@,
            ) + k] && r@[k] < l.origins@.len(),
{
    let start: usize = l.line_requests[l.order.len()];
    let limit: usize = l.nodes.len();
    proof {
        assert(l.line_requests@[l.order@.len() as int] == pin_request(
            *t,
            *def,
            existing as nat,
            l.order@,
        ));
    }
    let mut out: Vec<usize> = Vec::new();
    let mut k: usize = 0;
    while k < def.pinned_points.len()
        invariant
            l.of(*t, *def, existing as nat),
            limit == l.nodes@.len(),
            start == pin_request(*t, *def, existing as nat, l.order@),
            limit == start + def.pinned_points@.len(),
            k <= def.pinned_points@.len(),
            out@.len() == k,
            forall|j: int|
                0 <= j < k ==> #[trigger] out@[j] == l.nodes@[start + j] && out@[j]
                    < l.origins@.len(),
        decreases def.pinned_points@.len() - k,
    {
        out.push(l.nodes[start + k]);
        k += 1;
    }
    out
}

/// What is measured at a site.
#[derive(Clone, Copy, Debug, PartialEq, Eq, Structural)]
pub struct SiteValues {
    /// The site's place.
    pub pos: Vec3,
    /// The mass that the site brings: of a spar node, half of each segment that
    /// it ends; of a panel vertex, its share of the fabric; of a line's inner
    /// node, its share of the line.
    pub mass: Scalar,
    /// The reciprocal of that mass.
    pub recip: Scalar,
    /// For a spar node and a panel vertex, the inverse mass of the node it
    /// welds to once the site's mass is added.
    pub reweighed: Scalar,
}

/// What is measured for a spar.
#[derive(Clone, Copy, Debug, PartialEq, Eq, Structural)]
pub struct SparValues {
    pub segment_length: Scalar,
    pub diameter: Scalar,
    /// The orientation of its segments.
    pub quat: Quat,
    pub inv_inertia: Vec3,
    pub stretch_shear: Vec3,
    pub bend_twist: Vec3,
}

/// What is measured for a cloth edge.
#[derive(Clone, Copy, Debug, PartialEq, Eq, Structural)]
pub struct EdgeValues {
    pub length: Scalar,
    /// How closely the edge runs along the warp axis: the magnitude of the
    /// cosine.
    pub cos_warp: Scalar,
    /// How closely it runs along the weft axis.
    pub cos_weft: Scalar,
}

/// All that is measured for a plan.
pub struct KiteValues {
    pub sites: Vec<SiteValues>,
    pub spars: Vec<SparValues>,
    /// The relative orientation of each stiff pair, as built.
    pub stiff_rest: Vec<Vec3>,
    pub edges: Vec<EdgeValues>,
    /// The angle of each fold, as built.
    pub fold_angles: Vec<Scalar>,
    /// The distance of the particles of each lashing.
    pub lash_lengths: Vec<Scalar>,
    /// The rest length of each line's segments.
    pub line_lengths: Vec<Scalar>,
}

impl KiteValues {
    /// There is one value for each site, spar, pair, edge, fold, lashing and
    /// line.
    pub open spec fn fits(self, plan: KitePlan, def: KiteDefinition, existing: nat) -> bool {
        &&& self.sites@.len() == site_count(def, existing)
        &&& self.spars@.len() == def.spars@.len()
        &&& self.stiff_rest@.len() == plan.stiff@.len()
        &&& self.edges@.len() == plan.edges@.len()
        &&& self.fold_angles@.len() == plan.folds@.len()
        &&& self.lash_lengths@.len() == plan.lashes@.len()
        &&& self.line_lengths@.len() == def.bridles@.len()
    }
}

/// The mass of a free bridle junction, a twentieth of a kilogram.
pub const JUNCTION_MASS: u64 = 0x3FA9_9999_9999_999A;

/// The mass of a new line end, a hundredth of a kilogram.
pub const ANCHOR_MASS: u64 = 0x3F84_7AE1_47AE_147B;

/// The reciprocal of `JUNCTION_MASS`.
pub const JUNCTION_INV_MASS: u64 = 0x4034_0000_0000_0000;

/// The reciprocal of `ANCHOR_MASS`.
pub const ANCHOR_INV_MASS: u64 = 0x4059_0000_0000_0000;

/// The inverse mass of a node that is made at a site.
pub open spec fn new_inv_mass(def: KiteDefinition, site: Site, v: SiteValues) -> Scalar {
    match site {
        Site::SparNode { .. } => stored_inv_mass(v.mass, v.recip),
        Site::PanelVert { .. } => stored_inv_mass(v.mass, v.recip),
        Site::BridleInner { .. } => stored_inv_mass(v.mass, v.recip),
        Site::BridleJunction => if def.bridle_junction_pinned {
            Scalar { bits: 0 }
        } else {
            Scalar { bits: JUNCTION_INV_MASS }
        },
        Site::BridleFrom { .. } => Scalar { bits: ANCHOR_INV_MASS },
        Site::BridleTo { .. } => Scalar { bits: ANCHOR_INV_MASS },
        _ => Scalar { bits: 0 },
    }
}

/// The particles' places and inverse masses.
pub struct Nodes {
    pub pos: Seq<Vec3>,
    pub inv_mass: Seq<Scalar>,
}

/// Whether a site brings mass along when it welds: spars and fabric do.
pub open spec fn adds_mass(site: Site) -> bool {
    site is SparNode || site is PanelVert
}

/// The particles after a request that got `node`: a new one at its site, or an
/// old one, which a spar node or a panel vertex makes heavier unless it is
/// pinned.
pub open spec fn after_node(
    def: KiteDefinition,
    nodes: Nodes,
    node: usize,
    site: Site,
    v: SiteValues,
) -> Nodes {
    if node >= nodes.pos.len() {
        Nodes {
            pos: nodes.pos.push(v.pos),
            inv_mass: nodes.inv_mass.push(new_inv_mass(def, site, v)),
        }
    } else if adds_mass(site) && !nodes.inv_mass[node as int].at_most(Scalar { bits: 0 }) {
        Nodes {
            pos: nodes.pos,
            inv_mass: nodes.inv_mass.update(node as int, v.reweighed),
        }
    } else {
        nodes
    }
}

/// The particles after the first `n` requests; the first `existing` of them are
/// for the particles that were there.
pub open spec fn nodes_built(
    l: Layout,
    def: KiteDefinition,
    existing: nat,
    values: KiteValues,
    start: Nodes,
    n: nat,
) -> Nodes
    decreases n,
{
    if n <= existing {
        start
    } else {
        let k = n - 1;
        let site = l.requests@[k].site as int;
        after_node(
            def,
            nodes_built(l, def, existing, values, start, (n - 1) as nat),
            l.nodes@[k],
            site_list(def, existing)[site],
            values.sites@[site],
        )
    }
}

/// The particles with the first `n` of `pins` pinned.
pub open spec fn pinned(inv_mass: Seq<Scalar>, pins: Seq<usize>, n: nat) -> Seq<Scalar>
    decreases n,
{
    if n == 0 {
        inv_mass
    } else {
        pinned(inv_mass, pins, (n - 1) as nat).update(pins[n - 1] as int, Scalar { bits: 0 })
    }
}

/// The velocities with the first `n` of `pins` at rest.
pub open spec fn rested(vel: Seq<Vec3>, pins: Seq<usize>, n: nat) -> Seq<Vec3>
    decreases n,
{
    if n == 0 {
        vel
    } else {
        rested(vel, pins, (n - 1) as nat).update(pins[n - 1] as int, Vec3::spec_zero())
    }
}

/// `n` vectors of zero.
pub open spec fn zeros(n: nat) -> Seq<Vec3> {
    Seq::new(n, |i: int| Vec3::spec_zero())
}

proof fn nodes_built_len(
    t: NearTable,
    l: Layout,
    def: KiteDefinition,
    existing: nat,
    values: KiteValues,
    start: Nodes,
    n: nat,
)
    requires
        l.of(t, def, existing),
        start.pos.len() == existing,
        start.inv_mass.len() == existing,
        existing <= n <= l.requests@.len(),
    ensures
        nodes_built(l, def, existing, values, start, n).pos.len() == origins_after(
            t,
            l.requests@,
            n,
        ).len(),
        nodes_built(l, def, existing, values, start, n).inv_mass.len() == origins_after(
            t,
            l.requests@,
            n,
        ).len(),
    decreases n,
{
    if n == existing {
        fresh_prefix(t, l, def, existing, existing);
    } else {
        nodes_built_len(t, l, def, existing, values, start, (n - 1) as nat);
        let before = origins_after(t, l.requests@, (n - 1) as nat);
        lookup_is_earliest(t, before, l.requests@[n - 1].site, 0);
        assert(l.nodes@[n - 1] == node_of(t, l.requests@, n - 1));
    }
}

/// The particles that were there keep their numbers.
proof fn fresh_prefix(t: NearTable, l: Layout, def: KiteDefinition, existing: nat, n: nat)
    requires
        l.of(t, def, existing),
        n <= existing,
    ensures
        origins_after(t, l.requests@, n).len() == n,
    decreases n,
{
    if n > 0 {
        fresh_prefix(t, l, def, existing, (n - 1) as nat);
        assert(l.requests@[n - 1].fresh) by {
            let f = frame_requests(def, existing);
            assert(f[n - 1] == Request { site: (n - 1) as usize, fresh: true });
            assert(l.requests@[n - 1] == f[n - 1]);
        }
    }
}

/// Adds the particles of a kite.
#[verifier::loop_isolation(false)]
fn add_nodes(
    world: &mut World,
    t: &NearTable,
    def: &KiteDefinition,
    plan: &KitePlan,
    values: &KiteValues,
)
    requires
        old(world).wf(),
        buildable(*def),
        plan.layout.of(*t, *def, old(world).particles.count()),
        values.sites@.len() == site_count(*def, old(world).particles.count()),
    ensures
        final(world).wf(),
        ({
            let existing = old(world).particles.count();
            let l = plan.layout;
            let built = nodes_built(
                l,
                *def,
                existing,
                *values,
                Nodes { pos: old(world).particles.pos@, inv_mass: old(world).particles.inv_mass@ },
                l.requests@.len(),
            );
            let grown = (l.origins@.len() - existing) as nat;
            &&& final(world).particles.pos@ == built.pos
            &&& final(world).particles.inv_mass@ == built.inv_mass
            &&& final(world).particles.count() == l.origins@.len()
            &&& l.origins@.len() >= existing
            &&& final(world).particles.prev_pos@ == old(world).particles.prev_pos@ + built.pos.skip(
                existing as int,
            )
            &&& final(world).particles.pred_pos@ == old(world).particles.pred_pos@ + built.pos.skip(
                existing as int,
            )
            &&& final(world).particles.vel@ == old(world).particles.vel@ + zeros(grown)
            &&& final(world).forces@ == old(world).forces@ + zeros(grown)
        }),
        final(world).orientations == old(world).orientations,
        final(world).torques == old(world).torques,
        final(world).same_constraints(*old(world)),
        final(world).same_surroundings(*old(world)),
{
    let ghost start = *world;
    let existing: usize = world.particles.len();
    let ghost ex = existing as nat;
    let ghost l = plan.layout;
    let ghost first = Nodes { pos: start.particles.pos@, inv_mass: start.particles.inv_mass@ };
    let sites: Vec<Site> = kite_sites(def, existing);
    let count: usize = plan.layout.requests.len();
    proof {
        site_list_len(*def, ex);
        nodes_built_len(*t, l, *def, ex, *values, first, ex);
        assert(start.particles.prev_pos@ + start.particles.pos@.skip(ex as int)
            =~= start.particles.prev_pos@);
        assert(start.particles.pred_pos@ + start.particles.pos@.skip(ex as int)
            =~= start.particles.pred_pos@);
        assert(start.particles.vel@ + zeros(0) =~= start.particles.vel@);
        assert(start.forces@ + zeros(0) =~= start.forces@);
    }
    let mut k: usize = existing;
    while k < count
        invariant
            existing <= k <= count,
            world.wf(),
            world.particles.count() >= ex,
            ({
                let built = nodes_built(l, *def, ex, *values, first, k as nat);
                let grown = (world.particles.count() - ex) as nat;
                &&& world.particles.count() == origins_after(*t, l.requests@, k as nat).len()
                &&& world.particles.pos@ == built.pos
                &&& world.particles.inv_mass@ == built.inv_mass
                &&& world.particles.prev_pos@ == start.particles.prev_pos@ + built.pos.skip(
                    ex as int,
                )
                &&& world.particles.pred_pos@ == start.particles.pred_pos@ + built.pos.skip(
                    ex as int,
                )
                &&& world.particles.vel@ == start.particles.vel@ + zeros(grown)
                &&& world.forces@ == start.forces@ + zeros(grown)
            }),
            world.orientations == start.orientations,
            world.torques == start.torques,
            world.same_constraints(start),
            world.same_surroundings(start),
        decreases count - k,
    {
        let number: usize = plan.layout.requests[k].site;
        let site: Site = sites[number];
        let v: SiteValues = values.sites[number];
        let node: usize = plan.layout.nodes[k];
        let ghost before = *world;
        let ghost old_built = nodes_built(l, *def, ex, *values, first, k as nat);
        proof {
            nodes_built_len(*t, l, *def, ex, *values, first, (k + 1) as nat);
            lookup_is_earliest(
                *t,
                origins_after(*t, l.requests@, k as nat),
                l.requests@[k as int].site,
                0,
            );
            assert(l.nodes@[k as int] == node_of(*t, l.requests@, k as int));
        }
        if node >= world.particles.len() {
            let (mass, recip): (Scalar, Scalar) = match site {
                Site::SparNode { .. } => (v.mass, v.recip),
                Site::PanelVert { .. } => (v.mass, v.recip),
                Site::BridleInner { .. } => (v.mass, v.recip),
                Site::BridleJunction => if def.bridle_junction_pinned {
                    (Scalar::zero(), Scalar::zero())
                } else {
                    (Scalar::new(JUNCTION_MASS), Scalar::new(JUNCTION_INV_MASS))
                },
                Site::BridleFrom { .. } => (Scalar::new(ANCHOR_MASS), Scalar::new(ANCHOR_INV_MASS)),
                Site::BridleTo { .. } => (Scalar::new(ANCHOR_MASS), Scalar::new(ANCHOR_INV_MASS)),
                _ => (Scalar::zero(), Scalar::zero()),
            };
            world.add_particle(v.pos, mass, recip);
            proof {
                let built = nodes_built(l, *def, ex, *values, first, (k + 1) as nat);
                assert(built.pos =~= old_built.pos.push(v.pos));
                assert(built.pos.skip(ex as int) =~= old_built.pos.skip(ex as int).push(v.pos));
                assert(world.particles.prev_pos@ =~= start.particles.prev_pos@ + built.pos.skip(
                    ex as int,
                ));
                assert(world.particles.pred_pos@ =~= start.particles.pred_pos@ + built.pos.skip(
                    ex as int,
                ));
                let grown = (world.particles.count() - ex) as nat;
                assert(world.particles.vel@ =~= start.particles.vel@ + zeros(grown));
                assert(world.forces@ =~= start.forces@ + zeros(grown));
            }
        } else {
            match site {
                Site::SparNode { .. } => {
                    world.particles.reweigh(node, v.reweighed);
                },
                Site::PanelVert { .. } => {
                    world.particles.reweigh(node, v.reweighed);
                },
                _ => {},
            }
        }
        k += 1;
    }
}

/// The largest double: a joint with this threshold never yields.
pub const NEVER_YIELDS: u64 = 0x7FEF_FFFF_FFFF_FFFF;

/// The least compliance of a stiff connection; it is never zero.
pub const LEAST_COMPLIANCE: u64 = 0x3D71_9799_812D_EA11;

/// The weld tolerance of one millimeter: a shorter cloth edge is none.
pub const WELD_TOLERANCE: u64 = 0x3F50_624D_D2F1_A9FC;

/// An edge runs along an axis when the cosine is above this.
pub const ALONG_AXIS: u64 = 0x3FEB_B645_A1CA_C083;

/// The segments of one spar as rods, the first being segment `first`.
pub open spec fn spar_rods(
    l: Layout,
    def: KiteDefinition,
    existing: nat,
    first: int,
    s: int,
    v: SparValues,
) -> Seq<StretchShearConstraint> {
    Seq::new(
        def.spars@[s].num_segments as nat,
        |i: int|
            StretchShearConstraint {
                p1: spar_node(l, def, existing, s, i),
                p2: spar_node(l, def, existing, s, i + 1),
                q_index: (first + i) as usize,
                rest_length: v.segment_length,
                compliance: v.stretch_shear,
                lambda: Vec3::spec_zero(),
                diameter: v.diameter,
            },
    )
}

/// A joint between two segments that never yields.
pub open spec fn elastic_joint(
    first: int,
    second: int,
    rest_value: Vec3,
    compliance: Vec3,
) -> BendTwistConstraint {
    BendTwistConstraint {
        q1_index: first as usize,
        q2_index: second as usize,
        rest_value,
        compliance,
        lambda: Vec3::spec_zero(),
        yield_threshold: Scalar { bits: NEVER_YIELDS },
        is_inflatable: false,
        state: ConstraintState::Active,
    }
}

/// The straight joints between a spar's consecutive segments.
pub open spec fn spar_joints(
    def: KiteDefinition,
    first: int,
    s: int,
    v: SparValues,
) -> Seq<BendTwistConstraint> {
    Seq::new(
        (def.spars@[s].num_segments - 1) as nat,
        |i: int| elastic_joint(first + i, first + i + 1, Vec3::spec_zero(), v.bend_twist),
    )
}

/// The rods of the first `m` spars.
pub open spec fn rods_of(
    l: Layout,
    def: KiteDefinition,
    existing: nat,
    base: nat,
    values: Seq<SparValues>,
    m: nat,
) -> Seq<StretchShearConstraint>
    decreases m,
{
    if m == 0 {
        Seq::empty()
    } else {
        rods_of(l, def, existing, base, values, (m - 1) as nat) + spar_rods(
            l,
            def,
            existing,
            (base + segment_start(def, (m - 1) as nat)) as int,
            m - 1,
            values[m - 1],
        )
    }
}

/// The joints of the first `m` spars.
pub open spec fn joints_of(
    def: KiteDefinition,
    base: nat,
    values: Seq<SparValues>,
    m: nat,
) -> Seq<BendTwistConstraint>
    decreases m,
{
    if m == 0 {
        Seq::empty()
    } else {
        joints_of(def, base, values, (m - 1) as nat) + spar_joints(
            def,
            (base + segment_start(def, (m - 1) as nat)) as int,
            m - 1,
            values[m - 1],
        )
    }
}

/// One value per segment of the first `m` spars.
pub open spec fn per_segment<T>(def: KiteDefinition, values: Seq<T>, m: nat) -> Seq<T>
    decreases m,
{
    if m == 0 {
        Seq::empty()
    } else {
        per_segment(def, values, (m - 1) as nat) + Seq::new(
            def.spars@[m - 1].num_segments as nat,
            |i: int| values[m - 1],
        )
    }
}

/// The orientations of the spars.
pub open spec fn quats(values: Seq<SparValues>) -> Seq<Quat> {
    values.map_values(|v: SparValues| v.quat)
}

/// The inverse inertias of the spars' segments.
pub open spec fn inertias(values: Seq<SparValues>) -> Seq<Vec3> {
    values.map_values(|v: SparValues| v.inv_inertia)
}

/// Adds the segments, rods and joints of one spar.
#[verifier::loop_isolation(false)]
fn add_spar_rods(
    world: &mut World,
    t: &NearTable,
    def: &KiteDefinition,
    existing: usize,
    layout: &Layout,
    s: usize,
    v: SparValues,
)
    requires
        old(world).wf(),
        buildable(*def),
        s < def.spars@.len(),
        layout.of(*t, *def, existing as nat),
        old(world).particles.count() == layout.origins@.len(),
        old(world).orientations.count() + def.spars@[s as int].num_segments <= usize::MAX,
    ensures
        final(world).wf(),
        ({
            let first = old(world).orientations.count() as int;
            let n = def.spars@[s as int].num_segments as nat;
            &&& final(world).stretch_shear_constraints@ == old(world).stretch_shear_constraints@
                + spar_rods(*layout, *def, existing as nat, first, s as int, v)
            &&& final(world).bend_twist_constraints@ == old(world).bend_twist_constraints@
                + spar_joints(*def, first, s as int, v)
            &&& final(world).orientations.quat@ == old(world).orientations.quat@ + Seq::new(
                n,
                |i: int| v.quat,
            )
            &&& final(world).orientations.prev_quat@ == old(world).orientations.prev_quat@
                + Seq::new(n, |i: int| v.quat)
            &&& final(world).orientations.omega@ == old(world).orientations.omega@ + zeros(n)
            &&& final(world).orientations.inv_inertia@ == old(world).orientations.inv_inertia@
                + Seq::new(n, |i: int| v.inv_inertia)
            &&& final(world).torques@ == old(world).torques@ + zeros(n)
        }),
        final(world).particles == old(world).particles,
        final(world).forces == old(world).forces,
        final(world).same_surroundings(*old(world)),
        final(world).distance_constraints == old(world).distance_constraints,
        final(world).bending_constraints == old(world).bending_constraints,
        final(world).dihedral_bending_constraints == old(world).dihedral_bending_constraints,
        final(world).unilateral_constraints == old(world).unilateral_constraints,
        final(world).canopy_panels == old(world).canopy_panels,
{
    let ghost start = *world;
    let ghost ex = existing as nat;
    let first: usize = world.orientations.len();
    let n: usize = def.spars[s].num_segments;
    let limit: usize = layout.nodes.len();
    let at: usize = layout.spar_requests[s];
    let ghost rods = spar_rods(*layout, *def, ex, first as int, s as int, v);
    proof {
        spar_request_bound(*def, s as int);
        assert(layout.spar_requests@[s as int] == ex + crate::layout::spar_start(*def, s as int));
        assert(limit >= ex + spar_total(*def));
        assert(start.stretch_shear_constraints@ + rods.take(0)
            =~= start.stretch_shear_constraints@);
        assert(start.orientations.quat@ + Seq::new(0, |i: int| v.quat)
            =~= start.orientations.quat@);
        assert(start.orientations.prev_quat@ + Seq::new(0, |i: int| v.quat)
            =~= start.orientations.prev_quat@);
        assert(start.orientations.omega@ + zeros(0) =~= start.orientations.omega@);
        assert(start.orientations.inv_inertia@ + Seq::new(0, |i: int| v.inv_inertia)
            =~= start.orientations.inv_inertia@);
        assert(start.torques@ + zeros(0) =~= start.torques@);
    }
    let mut i: usize = 0;
    while i < n
        invariant
            i <= n,
            world.wf(),
            world.orientations.count() == first + i,
            world.stretch_shear_constraints@ == start.stretch_shear_constraints@ + rods.take(
                i as int,
            ),
            world.orientations.quat@ == start.orientations.quat@ + Seq::new(
                i as nat,
                |i: int| v.quat,
            ),
            world.orientations.prev_quat@ == start.orientations.prev_quat@ + Seq::new(
                i as nat,
                |i: int| v.quat,
            ),
            world.orientations.omega@ == start.orientations.omega@ + zeros(i as nat),
            world.orientations.inv_inertia@ == start.orientations.inv_inertia@ + Seq::new(
                i as nat,
                |i: int| v.inv_inertia,
            ),
            world.torques@ == start.torques@ + zeros(i as nat),
            world.particles == start.particles,
            world.forces == start.forces,
            world.same_surroundings(start),
            world.distance_constraints == start.distance_constraints,
            world.bending_constraints == start.bending_constraints,
            world.bend_twist_constraints == start.bend_twist_constraints,
            world.dihedral_bending_constraints == start.dihedral_bending_constraints,
            world.unilateral_constraints == start.unilateral_constraints,
            world.canopy_panels == start.canopy_panels,
        decreases n - i,
    {
        let q: usize = world.add_segment(v.quat, v.inv_inertia);
        let rod: StretchShearConstraint = StretchShearConstraint::new(
            layout.nodes[at + i],
            layout.nodes[at + i + 1],
            q,
            v.segment_length,
            v.stretch_shear,
            v.diameter,
        );
        world.stretch_shear_constraints.push(rod);
        proof {
            assert(rod == rods[i as int]);
            assert(world.stretch_shear_constraints@ =~= start.stretch_shear_constraints@
                + rods.take(i as int + 1));
            assert(world.orientations.quat@ =~= start.orientations.quat@ + Seq::new(
                (i + 1) as nat,
                |i: int| v.quat,
            ));
            assert(world.orientations.prev_quat@ =~= start.orientations.prev_quat@ + Seq::new(
                (i + 1) as nat,
                |i: int| v.quat,
            ));
            assert(world.orientations.omega@ =~= start.orientations.omega@ + zeros((i + 1) as nat));
            assert(world.orientations.inv_inertia@ =~= start.orientations.inv_inertia@ + Seq::new(
                (i + 1) as nat,
                |i: int| v.inv_inertia,
            ));
            assert(world.torques@ =~= start.torques@ + zeros((i + 1) as nat));
        }
        i += 1;
    }
    assert(rods.take(n as int) =~= rods);
    let ghost joints = spar_joints(*def, first as int, s as int, v);
    let ghost mid = *world;
    let mut i: usize = 0;
    assert(start.bend_twist_constraints@ + joints.take(0) =~= start.bend_twist_constraints@);
    while i < n - 1
        invariant
            i <= n - 1,
            world.wf(),
            world.bend_twist_constraints@ == start.bend_twist_constraints@ + joints.take(i as int),
            *world == (World { bend_twist_constraints: world.bend_twist_constraints, ..mid }),
        decreases n - 1 - i,
    {
        let joint: BendTwistConstraint = BendTwistConstraint::new(
            first + i,
            first + i + 1,
            Vec3::zero(),
            v.bend_twist,
            Scalar::new(NEVER_YIELDS),
            false,
        );
        world.bend_twist_constraints.push(joint);
        proof {
            assert(joint == joints[i as int]);
            assert(world.bend_twist_constraints@ =~= start.bend_twist_constraints@ + joints.take(
                i as int + 1,
            ));
        }
        i += 1;
    }
    assert(joints.take(n - 1) =~= joints);
}

/// Adds the segments, rods and joints of all spars.
#[verifier::loop_isolation(false)]
fn add_rods(
    world: &mut World,
    t: &NearTable,
    def: &KiteDefinition,
    existing: usize,
    layout: &Layout,
    values: &Vec<SparValues>,
)
    requires
        old(world).wf(),
        buildable(*def),
        values@.len() == def.spars@.len(),
        layout.of(*t, *def, existing as nat),
        old(world).particles.count() == layout.origins@.len(),
        old(world).orientations.count() + segment_start(*def, def.spars@.len()) <= usize::MAX,
    ensures
        final(world).wf(),
        ({
            let base = old(world).orientations.count();
            let m = def.spars@.len();
            &&& final(world).stretch_shear_constraints@ == old(world).stretch_shear_constraints@
                + rods_of(*layout, *def, existing as nat, base, values@, m)
            &&& final(world).bend_twist_constraints@ == old(world).bend_twist_constraints@
                + joints_of(*def, base, values@, m)
            &&& final(world).orientations.count() == base + segment_start(*def, m)
            &&& final(world).orientations.quat@ == old(world).orientations.quat@ + per_segment(
                *def,
                quats(values@),
                m,
            )
            &&& final(world).orientations.prev_quat@ == old(world).orientations.prev_quat@
                + per_segment(*def, quats(values@), m)
            &&& final(world).orientations.omega@ == old(world).orientations.omega@ + zeros(
                segment_start(*def, m),
            )
            &&& final(world).orientations.inv_inertia@ == old(world).orientations.inv_inertia@
                + per_segment(*def, inertias(values@), m)
            &&& final(world).torques@ == old(world).torques@ + zeros(segment_start(*def, m))
        }),
        final(world).particles == old(world).particles,
        final(world).forces == old(world).forces,
        final(world).same_surroundings(*old(world)),
        final(world).distance_constraints == old(world).distance_constraints,
        final(world).bending_constraints == old(world).bending_constraints,
        final(world).dihedral_bending_constraints == old(world).dihedral_bending_constraints,
        final(world).unilateral_constraints == old(world).unilateral_constraints,
        final(world).canopy_panels == old(world).canopy_panels,
{
    let ghost start = *world;
    let ghost ex = existing as nat;
    let base: usize = world.orientations.len();
    let ghost b = base as nat;
    let ghost qs = quats(values@);
    let ghost is = inertias(values@);
    proof {
        assert(start.stretch_shear_constraints@ + rods_of(*layout, *def, ex, b, values@, 0)
            =~= start.stretch_shear_constraints@);
        assert(start.bend_twist_constraints@ + joints_of(*def, b, values@, 0)
            =~= start.bend_twist_constraints@);
        assert(start.orientations.quat@ + per_segment(*def, qs, 0) =~= start.orientations.quat@);
        assert(start.orientations.prev_quat@ + per_segment(*def, qs, 0)
            =~= start.orientations.prev_quat@);
        assert(start.orientations.omega@ + zeros(0) =~= start.orientations.omega@);
        assert(start.orientations.inv_inertia@ + per_segment(*def, is, 0)
            =~= start.orientations.inv_inertia@);
        assert(start.torques@ + zeros(0) =~= start.torques@);
    }
    let mut s: usize = 0;
    while s < def.spars.len()
        invariant
            s <= def.spars@.len(),
            world.wf(),
            world.orientations.count() == b + segment_start(*def, s as nat),
            world.stretch_shear_constraints@ == start.stretch_shear_constraints@ + rods_of(
                *layout,
                *def,
                ex,
                b,
                values@,
                s as nat,
            ),
            world.bend_twist_constraints@ == start.bend_twist_constraints@ + joints_of(
                *def,
                b,
                values@,
                s as nat,
            ),
            world.orientations.quat@ == start.orientations.quat@ + per_segment(*def, qs, s as nat),
            world.orientations.prev_quat@ == start.orientations.prev_quat@ + per_segment(
                *def,
                qs,
                s as nat,
            ),
            world.orientations.omega@ == start.orientations.omega@ + zeros(
                segment_start(*def, s as nat),
            ),
            world.orientations.inv_inertia@ == start.orientations.inv_inertia@ + per_segment(
                *def,
                is,
                s as nat,
            ),
            world.torques@ == start.torques@ + zeros(segment_start(*def, s as nat)),
            world.particles == start.particles,
            world.forces == start.forces,
            world.same_surroundings(start),
            world.distance_constraints == start.distance_constraints,
            world.bending_constraints == start.bending_constraints,
            world.dihedral_bending_constraints == start.dihedral_bending_constraints,
            world.unilateral_constraints == start.unilateral_constraints,
            world.canopy_panels == start.canopy_panels,
        decreases def.spars@.len() - s,
    {
        proof {
            segment_start_grows(*def, s as nat, def.spars@.len());
        }
        add_spar_rods(world, t, def, existing, layout, s, values[s]);
        s += 1;
        proof {
            assert(world.stretch_shear_constraints@ =~= start.stretch_shear_constraints@ + rods_of(
                *layout,
                *def,
                ex,
                b,
                values@,
                s as nat,
            ));
            assert(world.bend_twist_constraints@ =~= start.bend_twist_constraints@ + joints_of(
                *def,
                b,
                values@,
                s as nat,
            ));
            assert(world.orientations.quat@ =~= start.orientations.quat@ + per_segment(
                *def,
                qs,
                s as nat,
            ));
            assert(world.orientations.prev_quat@ =~= start.orientations.prev_quat@ + per_segment(
                *def,
                qs,
                s as nat,
            ));
            assert(world.orientations.omega@ =~= start.orientations.omega@ + zeros(
                segment_start(*def, s as nat),
            ));
            assert(world.orientations.inv_inertia@ =~= start.orientations.inv_inertia@
                + per_segment(*def, is, s as nat));
            assert(world.torques@ =~= start.torques@ + zeros(segment_start(*def, s as nat)));
        }
    }
}

/// A compliance that is at least the least.
pub open spec fn stiff_compliance(compliance: Scalar) -> Scalar {
    compliance.larger(Scalar { bits: LEAST_COMPLIANCE })
}

/// The joint of a stiff pair.
pub open spec fn stiff_joint(def: KiteDefinition, pair: StiffPair, rest: Vec3) -> BendTwistConstraint {
    let c = stiff_compliance(def.stiff_junctions@[pair.junction as int].compliance);
    elastic_joint(pair.first as int, pair.second as int, rest, Vec3 { x: c, y: c, z: c })
}

/// The joints of the stiff pairs.
pub open spec fn stiff_joints(
    def: KiteDefinition,
    pairs: Seq<StiffPair>,
    rests: Seq<Vec3>,
) -> Seq<BendTwistConstraint> {
    Seq::new(pairs.len(), |k: int| stiff_joint(def, pairs[k], rests[k]))
}

fn add_stiff_joints(
    joints: &mut Vec<BendTwistConstraint>,
    def: &KiteDefinition,
    pairs: &Vec<StiffPair>,
    rests: &Vec<Vec3>,
)
    requires
        rests@.len() == pairs@.len(),
        forall|k: int|
            0 <= k < pairs@.len() ==> (#[trigger] pairs@[k]).junction < def.stiff_junctions@.len(),
    ensures
        final(joints)@ == old(joints)@ + stiff_joints(*def, pairs@, rests@),
{
    let ghost start = joints@;
    let ghost all = stiff_joints(*def, pairs@, rests@);
    let mut k: usize = 0;
    assert(start + all.take(0) =~= start);
    while k < pairs.len()
        invariant
            rests@.len() == pairs@.len(),
            forall|k: int|
                0 <= k < pairs@.len() ==> (#[trigger] pairs@[k]).junction
                    < def.stiff_junctions@.len(),
            k <= pairs@.len(),
            all == stiff_joints(*def, pairs@, rests@),
            joints@ == start + all.take(k as int),
        decreases pairs@.len() - k,
    {
        let pair: StiffPair = pairs[k];
        let c: Scalar = def.stiff_junctions[pair.junction].compliance.max(
            Scalar::new(LEAST_COMPLIANCE),
        );
        let joint: BendTwistConstraint = BendTwistConstraint::new(
            pair.first,
            pair.second,
            rests[k],
            Vec3::splat(c),
            Scalar::new(NEVER_YIELDS),
            false,
        );
        joints.push(joint);
        proof {
            assert(joint == all[k as int]);
            assert(joints@ =~= start + all.take(k as int + 1));
        }
        k += 1;
    }
    assert(all.take(pairs@.len() as int) =~= all);
}

/// The canopy panels of the triangles.
pub open spec fn canopy_of(tris: Seq<MeshTri>) -> Seq<CanopyPanel> {
    tris.map_values(
        |t: MeshTri| CanopyPanel { p1: t.a, p2: t.b, p3: t.c, prev_mean_vel: None },
    )
}

fn add_canopy(panels: &mut Vec<CanopyPanel>, tris: &Vec<MeshTri>)
    ensures
        final(panels)@ == old(panels)@ + canopy_of(tris@),
{
    let ghost start = panels@;
    let ghost all = canopy_of(tris@);
    let mut k: usize = 0;
    assert(start + all.take(0) =~= start);
    while k < tris.len()
        invariant
            k <= tris@.len(),
            all == canopy_of(tris@),
            panels@ == start + all.take(k as int),
        decreases tris@.len() - k,
    {
        let t: MeshTri = tris[k];
        panels.push(CanopyPanel::new(t.a, t.b, t.c));
        assert(panels@ =~= start + all.take(k as int + 1));
        k += 1;
    }
    assert(all.take(tris@.len() as int) =~= all);
}

/// The compliance of a cloth edge: that of the warp for an edge close to the
/// warp axis, else that of the weft for one close to the weft axis, else that
/// of shear.
pub open spec fn edge_compliance(def: KiteDefinition, edge: ClothEdge, v: EdgeValues) -> Scalar {
    let panel = def.panels@[edge.panel as int];
    let limit = Scalar { bits: ALONG_AXIS };
    if limit.less(v.cos_warp) {
        panel.warp_compliance
    } else if limit.less(v.cos_weft) {
        panel.weft_compliance
    } else {
        panel.shear_compliance
    }
}

/// The constraints of the first `n` cloth edges; an edge shorter than the weld
/// tolerance has none.
pub open spec fn edge_constraints(
    def: KiteDefinition,
    edges: Seq<ClothEdge>,
    values: Seq<EdgeValues>,
    n: nat,
) -> Seq<DistanceConstraint>
    decreases n,
{
    if n == 0 {
        Seq::empty()
    } else {
        let before = edge_constraints(def, edges, values, (n - 1) as nat);
        let e = edges[n - 1];
        let v = values[n - 1];
        if v.length.less(Scalar { bits: WELD_TOLERANCE }) {
            before
        } else {
            before.push(
                DistanceConstraint {
                    p1: e.a,
                    p2: e.b,
                    rest_length: v.length,
                    compliance: edge_compliance(def, e, v),
                    lambda: Scalar { bits: 0 },
                },
            )
        }
    }
}

fn add_edges(
    cs: &mut Vec<DistanceConstraint>,
    def: &KiteDefinition,
    edges: &Vec<ClothEdge>,
    values: &Vec<EdgeValues>,
    np: usize,
)
    requires
        values@.len() == edges@.len(),
        forall|k: int|
            0 <= k < edges@.len() ==> (#[trigger] edges@[k]).panel < def.panels@.len()
                && edges@[k].a < np && edges@[k].b < np,
        distances_within(old(cs)@, np as nat),
    ensures
        final(cs)@ == old(cs)@ + edge_constraints(*def, edges@, values@, edges@.len()),
        distances_within(final(cs)@, np as nat),
{
    let ghost start = cs@;
    let limit: Scalar = Scalar::new(ALONG_AXIS);
    let mut k: usize = 0;
    assert(start + edge_constraints(*def, edges@, values@, 0) =~= start);
    while k < edges.len()
        invariant
            values@.len() == edges@.len(),
            forall|k: int|
                0 <= k < edges@.len() ==> (#[trigger] edges@[k]).panel < def.panels@.len()
                    && edges@[k].a < np && edges@[k].b < np,
            limit.bits == ALONG_AXIS,
            k <= edges@.len(),
            cs@ == start + edge_constraints(*def, edges@, values@, k as nat),
            distances_within(cs@, np as nat),
        decreases edges@.len() - k,
    {
        let e: ClothEdge = edges[k];
        let v: EdgeValues = values[k];
        if !v.length.lt(Scalar::new(WELD_TOLERANCE)) {
            let panel: &PanelDef = &def.panels[e.panel];
            let compliance: Scalar = if limit.lt(v.cos_warp) {
                panel.warp_compliance
            } else if limit.lt(v.cos_weft) {
                panel.weft_compliance
            } else {
                panel.shear_compliance
            };
            cs.push(DistanceConstraint::new(e.a, e.b, v.length, compliance));
        }
        k += 1;
        assert(cs@ =~= start + edge_constraints(*def, edges@, values@, k as nat));
    }
}

/// The constraints of the folds.
pub open spec fn fold_constraints(
    def: KiteDefinition,
    folds: Seq<Fold>,
    angles: Seq<Scalar>,
) -> Seq<DihedralBendingConstraint> {
    Seq::new(
        folds.len(),
        |k: int|
            DihedralBendingConstraint {
                p1: folds[k].p1,
                p2: folds[k].p2,
                p3: folds[k].p3,
                p4: folds[k].p4,
                rest_angle: angles[k],
                compliance: def.panels@[folds[k].panel as int].bending_compliance,
                lambda: Scalar { bits: 0 },
            },
    )
}

fn add_folds(
    cs: &mut Vec<DihedralBendingConstraint>,
    def: &KiteDefinition,
    folds: &Vec<Fold>,
    angles: &Vec<Scalar>,
)
    requires
        angles@.len() == folds@.len(),
        forall|k: int| 0 <= k < folds@.len() ==> (#[trigger] folds@[k]).panel < def.panels@.len(),
    ensures
        final(cs)@ == old(cs)@ + fold_constraints(*def, folds@, angles@),
{
    let ghost start = cs@;
    let ghost all = fold_constraints(*def, folds@, angles@);
    let mut k: usize = 0;
    assert(start + all.take(0) =~= start);
    while k < folds.len()
        invariant
            angles@.len() == folds@.len(),
            forall|k: int|
                0 <= k < folds@.len() ==> (#[trigger] folds@[k]).panel < def.panels@.len(),
            k <= folds@.len(),
            all == fold_constraints(*def, folds@, angles@),
            cs@ == start + all.take(k as int),
        decreases folds@.len() - k,
    {
        let f: Fold = folds[k];
        let compliance: Scalar = def.panels[f.panel].bending_compliance;
        let c: DihedralBendingConstraint = DihedralBendingConstraint::new(
            f.p1,
            f.p2,
            f.p3,
            f.p4,
            angles[k],
            compliance,
        );
        cs.push(c);
        proof {
            assert(c == all[k as int]);
            assert(cs@ =~= start + all.take(k as int + 1));
        }
        k += 1;
    }
    assert(all.take(folds@.len() as int) =~= all);
}

/// The constraints of the lashings.
pub open spec fn lash_constraints(
    def: KiteDefinition,
    lashes: Seq<LashPair>,
    lengths: Seq<Scalar>,
) -> Seq<DistanceConstraint> {
    Seq::new(
        lashes.len(),
        |k: int|
            DistanceConstraint {
                p1: lashes[k].a,
                p2: lashes[k].b,
                rest_length: lengths[k],
                compliance: stiff_compliance(
                    def.lashings@[lashes[k].lashing as int].compliance,
                ),
                lambda: Scalar { bits: 0 },
            },
    )
}

fn add_lashes(
    cs: &mut Vec<DistanceConstraint>,
    def: &KiteDefinition,
    lashes: &Vec<LashPair>,
    lengths: &Vec<Scalar>,
)
    requires
        lengths@.len() == lashes@.len(),
        forall|k: int|
            0 <= k < lashes@.len() ==> (#[trigger] lashes@[k]).lashing < def.lashings@.len(),
    ensures
        final(cs)@ == old(cs)@ + lash_constraints(*def, lashes@, lengths@),
{
    let ghost start = cs@;
    let ghost all = lash_constraints(*def, lashes@, lengths@);
    let mut k: usize = 0;
    assert(start + all.take(0) =~= start);
    while k < lashes.len()
        invariant
            lengths@.len() == lashes@.len(),
            forall|k: int|
                0 <= k < lashes@.len() ==> (#[trigger] lashes@[k]).lashing < def.lashings@.len(),
            k <= lashes@.len(),
            all == lash_constraints(*def, lashes@, lengths@),
            cs@ == start + all.take(k as int),
        decreases lashes@.len() - k,
    {
        let lash: LashPair = lashes[k];
        let compliance: Scalar = def.lashings[lash.lashing].compliance.max(
            Scalar::new(LEAST_COMPLIANCE),
        );
        let c: DistanceConstraint = DistanceConstraint::new(lash.a, lash.b, lengths[k], compliance);
        cs.push(c);
        proof {
            assert(c == all[k as int]);
            assert(cs@ =~= start + all.take(k as int + 1));
        }
        k += 1;
    }
    assert(all.take(lashes@.len() as int) =~= all);
}

/// The segments of one line.
pub open spec fn line_constraints(
    line: BridleLineDef,
    chain: Seq<usize>,
    length: Scalar,
) -> Seq<UnilateralDistanceConstraint> {
    Seq::new(
        (chain.len() - 1) as nat,
        |k: int|
            UnilateralDistanceConstraint {
                p1: chain[k],
                p2: chain[k + 1],
                rest_length: length,
                compliance: line.compliance,
                lambda: Scalar { bits: 0 },
                diameter: line.diameter,
            },
    )
}

/// The segments of the first `m` lines, in listing order.
pub open spec fn lines_of(
    def: KiteDefinition,
    chains: Seq<Vec<usize>>,
    lengths: Seq<Scalar>,
    m: nat,
) -> Seq<UnilateralDistanceConstraint>
    decreases m,
{
    if m == 0 {
        Seq::empty()
    } else {
        lines_of(def, chains, lengths, (m - 1) as nat) + line_constraints(
            def.bridles@[m - 1],
            chains[m - 1]@,
            lengths[m - 1],
        )
    }
}

#[verifier::loop_isolation(false)]
fn add_lines(
    cs: &mut Vec<UnilateralDistanceConstraint>,
    def: &KiteDefinition,
    chains: &Vec<Vec<usize>>,
    lengths: &Vec<Scalar>,
    np: usize,
)
    requires
        chains@.len() == def.bridles@.len(),
        lengths@.len() == def.bridles@.len(),
        forall|b: int| 0 <= b < chains@.len() ==> (#[trigger] chains@[b])@.len() > 0,
        forall|b: int, k: int|
            #![trigger chains@[b]@[k]]
            0 <= b < chains@.len() && 0 <= k < chains@[b]@.len() ==> chains@[b]@[k] < np,
        unilaterals_within(old(cs)@, np as nat),
    ensures
        final(cs)@ == old(cs)@ + lines_of(*def, chains@, lengths@, def.bridles@.len()),
        unilaterals_within(final(cs)@, np as nat),
{
    let ghost start = cs@;
    let mut b: usize = 0;
    assert(start + lines_of(*def, chains@, lengths@, 0) =~= start);
    while b < def.bridles.len()
        invariant
            b <= def.bridles@.len(),
            cs@ == start + lines_of(*def, chains@, lengths@, b as nat),
            unilaterals_within(cs@, np as nat),
        decreases def.bridles@.len() - b,
    {
        let line: &BridleLineDef = &def.bridles[b];
        let chain: &Vec<usize> = &chains[b];
        assert(chain@.len() > 0);
        let n: usize = chain.len() - 1;
        let ghost mid = cs@;
        let ghost all = line_constraints(*line, chain@, lengths@[b as int]);
        let mut k: usize = 0;
        assert(mid + all.take(0) =~= mid);
        while k < n
            invariant
                k <= n,
                cs@ == mid + all.take(k as int),
                unilaterals_within(cs@, np as nat),
            decreases n - k,
        {
            assert(chains@[b as int]@[k as int] < np && chains@[b as int]@[k + 1] < np);
            let c: UnilateralDistanceConstraint = UnilateralDistanceConstraint::new(
                chain[k],
                chain[k + 1],
                lengths[b],
                line.compliance,
                line.diameter,
            );
            cs.push(c);
            proof {
                assert(c == all[k as int]);
                assert(cs@ =~= mid + all.take(k as int + 1));
            }
            k += 1;
        }
        assert(all.take(n as int) =~= all);
        b += 1;
        assert(cs@ =~= start + lines_of(*def, chains@, lengths@, b as nat));
    }
}

fn add_pins(particles: &mut ParticleSet, pins: &Vec<usize>)
    requires
        old(particles).wf(),
        forall|k: int| 0 <= k < pins@.len() ==> (#[trigger] pins@[k]) < old(particles).count(),
    ensures
        final(particles).wf(),
        final(particles).pos == old(particles).pos,
        final(particles).prev_pos == old(particles).prev_pos,
        final(particles).pred_pos == old(particles).pred_pos,
        final(particles).inv_mass@ == pinned(old(particles).inv_mass@, pins@, pins@.len()),
        final(particles).vel@ == rested(old(particles).vel@, pins@, pins@.len()),
{
    let ghost start = *particles;
    let mut k: usize = 0;
    while k < pins.len()
        invariant
            forall|k: int| 0 <= k < pins@.len() ==> (#[trigger] pins@[k]) < particles.count(),
            k <= pins@.len(),
            particles.wf(),
            particles.pos == start.pos,
            particles.prev_pos == start.prev_pos,
            particles.pred_pos == start.pred_pos,
            particles.inv_mass@ == pinned(start.inv_mass@, pins@, k as nat),
            particles.vel@ == rested(start.vel@, pins@, k as nat),
        decreases pins@.len() - k,
    {
        particles.pin(pins[k]);
        k += 1;
    }
}

/// The particles of `after` are those of `before` with the kite's nodes: old
/// ones reweighed by spars and fabric, new ones at rest, and the pinned
/// points pinned.
pub open spec fn particles_extended(
    before: World,
    after: World,
    def: KiteDefinition,
    plan: KitePlan,
    values: KiteValues,
) -> bool {
    let existing = before.particles.count();
    let l = plan.layout;
    let built = nodes_built(
        l,
        def,
        existing,
        values,
        Nodes { pos: before.particles.pos@, inv_mass: before.particles.inv_mass@ },
        l.requests@.len(),
    );
    let grown = (l.origins@.len() - existing) as nat;
    let n = plan.pins@.len();
    &&& after.particles.count() == l.origins@.len()
    &&& l.origins@.len() >= existing
    &&& after.particles.pos@ == built.pos
    &&& after.particles.prev_pos@ == before.particles.prev_pos@ + built.pos.skip(existing as int)
    &&& after.particles.pred_pos@ == before.particles.pred_pos@ + built.pos.skip(existing as int)
    &&& after.particles.inv_mass@ == pinned(built.inv_mass, plan.pins@, n)
    &&& after.particles.vel@ == rested(before.particles.vel@ + zeros(grown), plan.pins@, n)
    &&& after.forces@ == before.forces@ + zeros(grown)
}

/// The segments of `after` are those of `before` and those of the spars.
pub open spec fn segments_extended(
    before: World,
    after: World,
    def: KiteDefinition,
    values: KiteValues,
) -> bool {
    let m = def.spars@.len();
    let grown = segment_start(def, m);
    &&& after.orientations.quat@ == before.orientations.quat@ + per_segment(
        def,
        quats(values.spars@),
        m,
    )
    &&& after.orientations.prev_quat@ == before.orientations.prev_quat@ + per_segment(
        def,
        quats(values.spars@),
        m,
    )
    &&& after.orientations.omega@ == before.orientations.omega@ + zeros(grown)
    &&& after.orientations.inv_inertia@ == before.orientations.inv_inertia@ + per_segment(
        def,
        inertias(values.spars@),
        m,
    )
    &&& after.torques@ == before.torques@ + zeros(grown)
}

/// The constraints and panels of `after` are those of `before` and the kite's.
pub open spec fn constraints_extended(
    before: World,
    after: World,
    def: KiteDefinition,
    plan: KitePlan,
    values: KiteValues,
) -> bool {
    let existing = before.particles.count();
    let base = before.orientations.count();
    let m = def.spars@.len();
    &&& after.stretch_shear_constraints@ == before.stretch_shear_constraints@ + rods_of(
        plan.layout,
        def,
        existing,
        base,
        values.spars@,
        m,
    )
    &&& after.bend_twist_constraints@ == before.bend_twist_constraints@ + joints_of(
        def,
        base,
        values.spars@,
        m,
    ) + stiff_joints(def, plan.stiff@, values.stiff_rest@)
    &&& after.distance_constraints@ == before.distance_constraints@ + edge_constraints(
        def,
        plan.edges@,
        values.edges@,
        plan.edges@.len(),
    ) + lash_constraints(def, plan.lashes@, values.lash_lengths@)
    &&& after.dihedral_bending_constraints@ == before.dihedral_bending_constraints@
        + fold_constraints(def, plan.folds@, values.fold_angles@)
    &&& after.unilateral_constraints@ == before.unilateral_constraints@ + lines_of(
        def,
        plan.chains@,
        values.line_lengths@,
        def.bridles@.len(),
    )
    &&& after.canopy_panels@ == before.canopy_panels@ + canopy_of(plan.tris@)
    &&& after.bending_constraints == before.bending_constraints
}

/// Builds all particles and constraints of a kite into the world, as planned
/// for that world and with the values measured for the plan.
pub fn build_kite_from_def(
    world: &mut World,
    def: &KiteDefinition,
    t: &NearTable,
    plan: &KitePlan,
    values: &KiteValues,
)
    requires
        old(world).wf(),
        buildable(*def),
        plan.layout.of(*t, *def, old(world).particles.count()),
        plan.chains@.len() == def.bridles@.len(),
        plan.within(
            *def,
            plan.layout.origins@.len(),
            old(world).orientations.count() + segment_start(*def, def.spars@.len()),
        ),
        values.fits(*plan, *def, old(world).particles.count()),
        old(world).orientations.count() + segment_start(*def, def.spars@.len()) <= usize::MAX,
    ensures
        final(world).wf(),
        particles_extended(*old(world), *final(world), *def, *plan, *values),
        segments_extended(*old(world), *final(world), *def, *values),
        constraints_extended(*old(world), *final(world), *def, *plan, *values),
        final(world).same_surroundings(*old(world)),
{
    let ghost start = *world;
    let existing: usize = world.particles.len();
    add_nodes(world, t, def, plan, values);
    let np: usize = world.particles.len();
    add_rods(world, t, def, existing, &plan.layout, &values.spars);
    let ghost nq = world.orientations.count();
    add_stiff_joints(&mut world.bend_twist_constraints, def, &plan.stiff, &values.stiff_rest);
    proof {
        let all = stiff_joints(*def, plan.stiff@, values.stiff_rest@);
        let joints = world.bend_twist_constraints@;
        assert forall|i: int| 0 <= i < joints.len() implies (#[trigger] joints[i]).q1_index < nq
            && joints[i].q2_index < nq by {
            let n = joints.len() - all.len();
            if i >= n {
                assert(joints[i] == all[i - n]);
                assert(plan.stiff@[i - n].first < nq);
            }
        }
    }
    add_canopy(&mut world.canopy_panels, &plan.tris);
    proof {
        let all = canopy_of(plan.tris@);
        let panels = world.canopy_panels@;
        assert forall|i: int| 0 <= i < panels.len() implies (#[trigger] panels[i]).p1 < np
            && panels[i].p2 < np && panels[i].p3 < np by {
            let n = panels.len() - all.len();
            if i >= n {
                assert(panels[i] == all[i - n]);
                assert(plan.tris@[i - n].a < np);
            } else {
                assert(panels[i] == start.canopy_panels@[i]);
            }
        }
    }
    add_edges(&mut world.distance_constraints, def, &plan.edges, &values.edges, np);
    add_folds(
        &mut world.dihedral_bending_constraints,
        def,
        &plan.folds,
        &values.fold_angles,
    );
    proof {
        let all = fold_constraints(*def, plan.folds@, values.fold_angles@);
        let cs = world.dihedral_bending_constraints@;
        assert forall|i: int| 0 <= i < cs.len() implies (#[trigger] cs[i]).p1 < np && cs[i].p2 < np
            && cs[i].p3 < np && cs[i].p4 < np by {
            let n = cs.len() - all.len();
            if i >= n {
                assert(cs[i] == all[i - n]);
                assert(plan.folds@[i - n].p1 < np);
            } else {
                assert(cs[i] == start.dihedral_bending_constraints@[i]);
            }
        }
    }
    add_lashes(&mut world.distance_constraints, def, &plan.lashes, &values.lash_lengths);
    proof {
        let all = lash_constraints(*def, plan.lashes@, values.lash_lengths@);
        let cs = world.distance_constraints@;
        assert forall|i: int| 0 <= i < cs.len() implies (#[trigger] cs[i]).p1 < np && cs[i].p2
            < np by {
            let n = cs.len() - all.len();
            if i >= n {
                assert(cs[i] == all[i - n]);
                assert(plan.lashes@[i - n].a < np);
            }
        }
    }
    proof {
        assert forall|b: int| 0 <= b < plan.chains@.len() implies (
        #[trigger] plan.chains@[b])@.len() > 0 by {
            assert(plan.chains@[b]@.len() == line_segments(*def, b) + 1);
        }
    }
    add_lines(
        &mut world.unilateral_constraints,
        def,
        &plan.chains,
        &values.line_lengths,
        np,
    );
    add_pins(&mut world.particles, &plan.pins);
}

} // verus!
