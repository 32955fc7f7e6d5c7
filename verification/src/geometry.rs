//! Parametric kite definitions, and the sites at which their nodes lie.
use crate::mesh::{grid_verts, panel_vertices, GridVert};
use crate::scalar::{Scalar, Vec3};
use vstd::prelude::*;

verus! {

/// Definition of a spar (rod) in the kite.
#[derive(Clone, Debug)]
pub struct SparDef {
    pub name: String,
    pub start: Vec3,
    pub end: Vec3,
    pub num_segments: usize,
    pub radius: Scalar,
    pub youngs_modulus: Scalar,
    pub shear_modulus: Scalar,
    pub density: Scalar,
}

/// Definition of a canopy panel (triangle) in the kite.
#[derive(Clone, Debug)]
pub struct PanelDef {
    pub name: String,
    pub p1: Vec3,
    pub p2: Vec3,
    pub p3: Vec3,
    pub warp_compliance: Scalar,
    pub weft_compliance: Scalar,
    pub shear_compliance: Scalar,
    pub bending_compliance: Scalar,
    /// Number of congruent sub-triangles per edge; the panel is built as a
    /// regular triangle grid. One is a single triangle.
    pub subdivisions: usize,
    /// Fabric areal density in kg/m^2.
    pub areal_density: Scalar,
}

/// Definition of a bridle line in the kite.
#[derive(Clone, Debug)]
pub struct BridleLineDef {
    pub name: String,
    pub from: Vec3,
    pub to: Vec3,
    pub rest_length: Scalar,
    pub compliance: Scalar,
    pub diameter: Scalar,
    /// Number of chained unilateral segments.
    pub num_segments: usize,
    /// Line material density in kg/m^3.
    pub density: Scalar,
}

/// A stiff bend-twist junction locking two different spars' segments together
/// at their as-built relative angle, rather than letting them hinge freely at
/// the shared weld particle.
#[derive(Clone, Copy, Debug, PartialEq, Eq, Structural)]
pub struct StiffJunctionDef {
    pub point: Vec3,
    pub compliance: Scalar,
}

/// A stiff, position-only tie between the nearest nodes of two different
/// spars: a free pivot that locks no angle.
#[derive(Clone, Copy, Debug, PartialEq, Eq, Structural)]
pub struct LashingDef {
    pub point: Vec3,
    pub compliance: Scalar,
}

/// A complete parametric/structural definition of a kite.
#[derive(Clone, Debug)]
pub struct KiteDefinition {
    pub name: String,
    pub spars: Vec<SparDef>,
    pub panels: Vec<PanelDef>,
    pub bridles: Vec<BridleLineDef>,
    pub bridle_junction: Vec3,
    pub bridle_junction_pinned: bool,
    /// Extra points to pin after the kite is built: each welds to a node that
    /// is there, or becomes a new isolated anchor.
    pub pinned_points: Vec<Vec3>,
    /// Stiff bend-twist junctions between segments of different spars.
    pub stiff_junctions: Vec<StiffJunctionDef>,
    /// Ties between nodes of different spars.
    pub lashings: Vec<LashingDef>,
}

/// Subdivisions of a panel that gives none.
pub fn default_subdivisions() -> (r: usize)
    ensures
        r == 1,
{
    1
}

/// Segments of a line that gives none.
pub fn default_num_segments() -> (r: usize)
    ensures
        r == 1,
{
    1
}

/// Fabric areal density of a panel that gives none, in kg/m^2.
pub fn default_areal_density() -> (r: Scalar)
    ensures
        r.bits == 0x3FA9_9999_9999_999A,
{
    Scalar::new(0x3FA9_9999_9999_999A)
}

/// Line density of a line that gives none, in kg/m^3.
pub fn default_line_density() -> (r: Scalar)
    ensures
        r.bits == 0x408E_5000_0000_0000,
{
    Scalar::new(0x408E_5000_0000_0000)
}

/// At least one.
pub open spec fn at_least_one(n: usize) -> nat {
    if n == 0 {
        1
    } else {
        n as nat
    }
}

/// `n`, or one for zero.
pub fn or_one(n: usize) -> (r: usize)
    ensures
        r == at_least_one(n),
{
    if n == 0 {
        1
    } else {
        n
    }
}

/// A place where building a kite wants a node, or looks for one.
#[derive(Clone, Copy, Debug, PartialEq, Eq, Structural)]
pub enum Site {
    /// A particle that is already there.
    Existing { particle: usize },
    /// Node `node` of a spar, counted from its start.
    SparNode { spar: usize, node: usize },
    /// The point of a stiff junction.
    StiffJunction { junction: usize },
    /// A vertex of a panel's grid.
    PanelVert { panel: usize, vert: GridVert },
    /// The point where the bridle lines meet.
    BridleJunction,
    /// A line's first end.
    BridleFrom { line: usize },
    /// A line's second end.
    BridleTo { line: usize },
    /// Inner node `node` of a line, counted from its first end.
    BridleInner { line: usize, node: usize },
    /// An extra point to pin.
    Pinned { point: usize },
}

/// Every spar has a segment, and the node counts of the elements fit in a
/// machine word.
pub open spec fn buildable(def: KiteDefinition) -> bool {
    &&& forall|s: int|
        0 <= s < def.spars@.len() ==> 0 < (#[trigger] def.spars@[s]).num_segments < usize::MAX
    &&& forall|p: int|
        0 <= p < def.panels@.len() ==> (#[trigger] def.panels@[p]).subdivisions < usize::MAX
}

pub open spec fn existing_sites(n: nat) -> Seq<Site> {
    Seq::new(n, |i: int| Site::Existing { particle: i as usize })
}

/// The nodes of one spar.
pub open spec fn spar_row(spars: Seq<SparDef>, s: int) -> Seq<Site> {
    Seq::new(
        (spars[s].num_segments + 1) as nat,
        |i: int| Site::SparNode { spar: s as usize, node: i as usize },
    )
}

/// The nodes of the first `m` spars.
pub open spec fn spar_sites(spars: Seq<SparDef>, m: nat) -> Seq<Site>
    decreases m,
{
    if m == 0 {
        Seq::empty()
    } else {
        spar_sites(spars, (m - 1) as nat) + spar_row(spars, m - 1)
    }
}

pub open spec fn stiff_sites(n: nat) -> Seq<Site> {
    Seq::new(n, |j: int| Site::StiffJunction { junction: j as usize })
}

/// The grid vertices of one panel.
pub open spec fn panel_row(panels: Seq<PanelDef>, p: int) -> Seq<Site> {
    grid_verts(at_least_one(panels[p].subdivisions)).map_values(
        |v: GridVert| Site::PanelVert { panel: p as usize, vert: v },
    )
}

/// The grid vertices of the first `m` panels.
pub open spec fn panel_sites(panels: Seq<PanelDef>, m: nat) -> Seq<Site>
    decreases m,
{
    if m == 0 {
        Seq::empty()
    } else {
        panel_sites(panels, (m - 1) as nat) + panel_row(panels, m - 1)
    }
}

/// The ends and the inner nodes of one line.
pub open spec fn bridle_row(bridles: Seq<BridleLineDef>, b: int) -> Seq<Site> {
    seq![Site::BridleFrom { line: b as usize }, Site::BridleTo { line: b as usize }] + Seq::new(
        (at_least_one(bridles[b].num_segments) - 1) as nat,
        |k: int| Site::BridleInner { line: b as usize, node: (k + 1) as usize },
    )
}

/// The nodes of the first `m` lines.
pub open spec fn bridle_sites(bridles: Seq<BridleLineDef>, m: nat) -> Seq<Site>
    decreases m,
{
    if m == 0 {
        Seq::empty()
    } else {
        bridle_sites(bridles, (m - 1) as nat) + bridle_row(bridles, m - 1)
    }
}

pub open spec fn pin_sites(n: nat) -> Seq<Site> {
    Seq::new(n, |k: int| Site::Pinned { point: k as usize })
}

/// All sites of a kite that is built among `existing` particles.
pub open spec fn site_list(def: KiteDefinition, existing: nat) -> Seq<Site> {
    existing_sites(existing) + spar_sites(def.spars@, def.spars@.len()) + stiff_sites(
        def.stiff_junctions@.len(),
    ) + panel_sites(def.panels@, def.panels@.len()) + seq![Site::BridleJunction] + bridle_sites(
        def.bridles@,
        def.bridles@.len(),
    ) + pin_sites(def.pinned_points@.len())
}

/// All sites of a kite that is built among `existing` particles, in the order
/// in which the near table numbers them.
#[verifier::loop_isolation(false)]
pub fn kite_sites(def: &KiteDefinition, existing: usize) -> (r: Vec<Site>)
    requires
        buildable(*def),
    ensures
        r@ == site_list(*def, existing as nat),
{
    let mut out: Vec<Site> = Vec::new();
    let mut i: usize = 0;
    while i < existing
        invariant
            i <= existing,
            out@ == existing_sites(i as nat),
        decreases existing - i,
    {
        out.push(Site::Existing { particle: i });
        i += 1;
        assert(out@ =~= existing_sites(i as nat));
    }
    let ghost base = out@;
    let mut s: usize = 0;
    assert(base + spar_sites(def.spars@, 0) =~= base);
    while s < def.spars.len()
        invariant
            s <= def.spars@.len(),
            out@ == base + spar_sites(def.spars@, s as nat),
        decreases def.spars@.len() - s,
    {
        let n: usize = def.spars[s].num_segments + 1;
        let ghost before = out@;
        let ghost row = spar_row(def.spars@, s as int);
        let mut k: usize = 0;
        assert(before + row.take(0) =~= before);
        while k < n
            invariant
                k <= n,
                out@ == before + row.take(k as int),
            decreases n - k,
        {
            out.push(Site::SparNode { spar: s, node: k });
            assert(out@ =~= before + row.take(k as int + 1));
            k += 1;
        }
        s += 1;
        assert(row.take(n as int) =~= row);
        assert(out@ =~= base + spar_sites(def.spars@, s as nat));
    }
    let ghost base = out@;
    let mut j: usize = 0;
    assert(base + stiff_sites(0) =~= base);
    while j < def.stiff_junctions.len()
        invariant
            j <= def.stiff_junctions@.len(),
            out@ == base + stiff_sites(j as nat),
        decreases def.stiff_junctions@.len() - j,
    {
        out.push(Site::StiffJunction { junction: j });
        j += 1;
        assert(out@ =~= base + stiff_sites(j as nat));
    }
    let ghost base = out@;
    let mut p: usize = 0;
    assert(base + panel_sites(def.panels@, 0) =~= base);
    while p < def.panels.len()
        invariant
            p <= def.panels@.len(),
            out@ == base + panel_sites(def.panels@, p as nat),
        decreases def.panels@.len() - p,
    {
        let verts: Vec<GridVert> = panel_vertices(or_one(def.panels[p].subdivisions));
        let ghost before = out@;
        let ghost row = panel_row(def.panels@, p as int);
        let mut k: usize = 0;
        assert(before + row.take(0) =~= before);
        while k < verts.len()
            invariant
                k <= verts@.len(),
                out@ == before + row.take(k as int),
            decreases verts@.len() - k,
        {
            out.push(Site::PanelVert { panel: p, vert: verts[k] });
            assert(out@ =~= before + row.take(k as int + 1));
            k += 1;
        }
        p += 1;
        assert(row.take(verts@.len() as int) =~= row);
        assert(out@ =~= base + panel_sites(def.panels@, p as nat));
    }
    out.push(Site::BridleJunction);
    let ghost base = out@;
    let mut b: usize = 0;
    assert(base + bridle_sites(def.bridles@, 0) =~= base);
    while b < def.bridles.len()
        invariant
            b <= def.bridles@.len(),
            out@ == base + bridle_sites(def.bridles@, b as nat),
        decreases def.bridles@.len() - b,
    {
        let n: usize = or_one(def.bridles[b].num_segments);
        let ghost before = out@;
        let ghost row = bridle_row(def.bridles@, b as int);
        out.push(Site::BridleFrom { line: b });
        out.push(Site::BridleTo { line: b });
        let mut k: usize = 1;
        assert(out@ =~= before + row.take(2));
        while k < n
            invariant
                1 <= k <= n,
                out@ == before + row.take(k as int + 1),
            decreases n - k,
        {
            out.push(Site::BridleInner { line: b, node: k });
            assert(out@ =~= before + row.take(k as int + 2));
            k += 1;
        }
        b += 1;
        assert(row.take(n as int + 1) =~= row);
        assert(out@ =~= base + bridle_sites(def.bridles@, b as nat));
    }
    let ghost base = out@;
    let mut k: usize = 0;
    assert(base + pin_sites(0) =~= base);
    while k < def.pinned_points.len()
        invariant
            k <= def.pinned_points@.len(),
            out@ == base + pin_sites(k as nat),
        decreases def.pinned_points@.len() - k,
    {
        out.push(Site::Pinned { point: k });
        k += 1;
        assert(out@ =~= base + pin_sites(k as nat));
    }
    out
}

} // verus!
