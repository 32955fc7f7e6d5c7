//! What a built kite is made of: its constraints, element by element.
use crate::constraints::ConstraintState;
use crate::frame::{segment_start, spar_node};
use crate::geometry::KiteDefinition;
use crate::kite_builder::{
    constraints_extended, edge_constraints, inertias, joints_of, line_constraints, lines_of,
    per_segment, quats, rods_of, segments_extended, spar_joints, spar_rods, EdgeValues, KitePlan,
    KiteValues, SparValues,
};
use crate::cloth::ClothEdge;
use crate::layout::Layout;
use crate::scalar::{Scalar, Vec3};
use crate::world::World;
use vstd::prelude::*;

verus! {

/// How many of the first `n` cloth edges are a millimeter long or longer.
pub open spec fn long_below(values: Seq<EdgeValues>, n: nat) -> nat
    decreases n,
{
    if n == 0 {
        0
    } else {
        long_below(values, (n - 1) as nat) + if values[n - 1].length.less(
            Scalar { bits: 0x3F50_624D_D2F1_A9FC },
        ) {
            0nat
        } else {
            1nat
        }
    }
}

proof fn long_below_grows(values: Seq<EdgeValues>, m: nat, n: nat)
    requires
        m <= n,
    ensures
        long_below(values, m) <= long_below(values, n),
    decreases n,
{
    if m < n {
        long_below_grows(values, m, (n - 1) as nat);
    }
}

proof fn edge_count(
    def: KiteDefinition,
    edges: Seq<ClothEdge>,
    values: Seq<EdgeValues>,
    n: nat,
)
    ensures
        edge_constraints(def, edges, values, n).len() == long_below(values, n),
    decreases n,
{
    if n > 0 {
        edge_count(def, edges, values, (n - 1) as nat);
    }
}

proof fn edge_in_list(
    def: KiteDefinition,
    edges: Seq<ClothEdge>,
    values: Seq<EdgeValues>,
    k: int,
    n: nat,
)
    requires
        0 <= k < n <= edges.len(),
        !values[k].length.less(Scalar { bits: 0x3F50_624D_D2F1_A9FC }),
    ensures
        ({
            let all = edge_constraints(def, edges, values, n);
            let at = long_below(values, k as nat) as int;
            let limit = Scalar { bits: 0x3FEB_B645_A1CA_C083 };
            let panel = def.panels@[edges[k].panel as int];
            let v = values[k];
            &&& at < all.len()
            &&& all[at].p1 == edges[k].a
            &&& all[at].p2 == edges[k].b
            &&& all[at].rest_length == v.length
            &&& all[at].lambda.bits == 0
            &&& limit.less(v.cos_warp) ==> all[at].compliance == panel.warp_compliance
            &&& !limit.less(v.cos_warp) && limit.less(v.cos_weft) ==> all[at].compliance
                == panel.weft_compliance
            &&& !limit.less(v.cos_warp) && !limit.less(v.cos_weft) ==> all[at].compliance
                == panel.shear_compliance
        }),
    decreases n,
{
    let m = (n - 1) as nat;
    edge_count(def, edges, values, m);
    if k < m {
        edge_in_list(def, edges, values, k, m);
        long_below_grows(values, k as nat + 1, m);
    }
}

/// Every cloth edge of a millimeter or more gets one distance constraint, behind
/// those that were there and those of the edges before it: between its
/// particles, at its length. Where its cosine with the warp axis is above 0.866
/// it has its panel's warp compliance, else where that with the weft axis is,
/// the weft compliance, else the shear compliance.
pub proof fn cloth_is_stiff_along_its_threads(
    before: World,
    after: World,
    def: KiteDefinition,
    plan: KitePlan,
    values: KiteValues,
    k: int,
)
    requires
        constraints_extended(before, after, def, plan, values),
        0 <= k < plan.edges@.len(),
        !values.edges@[k].length.less(Scalar { bits: 0x3F50_624D_D2F1_A9FC }),
    ensures
        ({
            let at = before.distance_constraints@.len() + long_below(values.edges@, k as nat);
            let made = after.distance_constraints@[at as int];
            let edge = plan.edges@[k];
            let v = values.edges@[k];
            let panel = def.panels@[edge.panel as int];
            let limit = Scalar { bits: 0x3FEB_B645_A1CA_C083 };
            &&& at < after.distance_constraints@.len()
            &&& made.p1 == edge.a
            &&& made.p2 == edge.b
            &&& made.rest_length == v.length
            &&& made.lambda.bits == 0
            &&& limit.less(v.cos_warp) ==> made.compliance == panel.warp_compliance
            &&& !limit.less(v.cos_warp) && limit.less(v.cos_weft) ==> made.compliance
                == panel.weft_compliance
            &&& !limit.less(v.cos_warp) && !limit.less(v.cos_weft) ==> made.compliance
                == panel.shear_compliance
        }),
{
    edge_in_list(def, plan.edges@, values.edges@, k, plan.edges@.len());
}

/// Besides those of the long cloth edges a kite adds one distance constraint for
/// each lashing, behind them: between its particles, at their distance, with its
/// compliance, which is at least a trillionth. What was there stays.
pub proof fn lashings_tie(
    before: World,
    after: World,
    def: KiteDefinition,
    plan: KitePlan,
    values: KiteValues,
)
    requires
        constraints_extended(before, after, def, plan, values),
    ensures
        ({
            let old_len = before.distance_constraints@.len();
            let first = old_len + long_below(values.edges@, plan.edges@.len());
            let all = after.distance_constraints@;
            let least = Scalar { bits: 0x3D71_9799_812D_EA11 };
            &&& all.len() == first + plan.lashes@.len()
            &&& forall|i: int|
                0 <= i < old_len ==> #[trigger] all[i] == before.distance_constraints@[i]
            &&& forall|k: int|
                #![trigger plan.lashes@[k]]
                0 <= k < plan.lashes@.len() ==> {
                    let made = all[first + k];
                    let wanted = def.lashings@[plan.lashes@[k].lashing as int].compliance;
                    &&& made.p1 == plan.lashes@[k].a
                    &&& made.p2 == plan.lashes@[k].b
                    &&& made.rest_length == values.lash_lengths@[k]
                    &&& made.lambda.bits == 0
                    &&& least.at_most(wanted) ==> made.compliance == wanted
                    &&& !least.at_most(wanted) ==> made.compliance == least
                }
        }),
{
    edge_count(def, plan.edges@, values.edges@, plan.edges@.len());
}

/// Every fold gets one dihedral constraint, in the folds' order, behind those
/// that were there: across its edge, at the angle measured for it, with the
/// bending compliance of its panel.
pub proof fn folds_bend(
    before: World,
    after: World,
    def: KiteDefinition,
    plan: KitePlan,
    values: KiteValues,
)
    requires
        constraints_extended(before, after, def, plan, values),
    ensures
        ({
            let first = before.dihedral_bending_constraints@.len() as int;
            let all = after.dihedral_bending_constraints@;
            &&& all.len() == first + plan.folds@.len()
            &&& all.take(first) == before.dihedral_bending_constraints@
            &&& forall|k: int|
                #![trigger plan.folds@[k]]
                0 <= k < plan.folds@.len() ==> {
                    let made = all[first + k];
                    &&& made.p1 == plan.folds@[k].p1
                    &&& made.p2 == plan.folds@[k].p2
                    &&& made.p3 == plan.folds@[k].p3
                    &&& made.p4 == plan.folds@[k].p4
                    &&& made.rest_angle == values.fold_angles@[k]
                    &&& made.compliance
                        == def.panels@[plan.folds@[k].panel as int].bending_compliance
                    &&& made.lambda.bits == 0
                }
        }),
{
    let first = before.dihedral_bending_constraints@.len() as int;
    assert(after.dihedral_bending_constraints@.take(first)
        =~= before.dihedral_bending_constraints@);
}

/// Every triangle of the mesh is a canopy panel, in their order, behind those
/// that were there, its corners in their order, with no velocity noted yet.
pub proof fn triangles_are_panels(
    before: World,
    after: World,
    def: KiteDefinition,
    plan: KitePlan,
    values: KiteValues,
)
    requires
        constraints_extended(before, after, def, plan, values),
    ensures
        ({
            let first = before.canopy_panels@.len() as int;
            let all = after.canopy_panels@;
            &&& all.len() == first + plan.tris@.len()
            &&& all.take(first) == before.canopy_panels@
            &&& forall|k: int|
                #![trigger plan.tris@[k]]
                0 <= k < plan.tris@.len() ==> {
                    let made = all[first + k];
                    &&& made.p1 == plan.tris@[k].a
                    &&& made.p2 == plan.tris@[k].b
                    &&& made.p3 == plan.tris@[k].c
                    &&& made.prev_mean_vel is None
                }
        }),
{
    let first = before.canopy_panels@.len() as int;
    assert(after.canopy_panels@.take(first) =~= before.canopy_panels@);
}

/// How many segments the lines before `b` have.
pub open spec fn links_before(plan: KitePlan, b: nat) -> nat
    decreases b,
{
    if b == 0 {
        0
    } else {
        (links_before(plan, (b - 1) as nat) + plan.chains@[b - 1]@.len() - 1) as nat
    }
}

proof fn line_in_list(
    def: KiteDefinition,
    plan: KitePlan,
    lengths: Seq<Scalar>,
    b: int,
    k: int,
    m: nat,
)
    requires
        0 <= b < m <= plan.chains@.len(),
        0 <= k < plan.chains@[b]@.len() - 1,
        forall|c: int| 0 <= c < m ==> (#[trigger] plan.chains@[c])@.len() > 0,
    ensures
        lines_of(def, plan.chains@, lengths, m).len() == links_before(plan, m),
        links_before(plan, b as nat) + k < links_before(plan, m),
        ({
            let made = lines_of(def, plan.chains@, lengths, m)[links_before(plan, b as nat) + k];
            let chain = plan.chains@[b]@;
            &&& made.p1 == chain[k]
            &&& made.p2 == chain[k + 1]
            &&& made.rest_length == lengths[b]
            &&& made.compliance == def.bridles@[b].compliance
            &&& made.diameter == def.bridles@[b].diameter
            &&& made.lambda.bits == 0
        }),
    decreases m,
{
    let n = (m - 1) as nat;
    line_count(def, plan, lengths, n);
    line_count(def, plan, lengths, m);
    if b < n {
        line_in_list(def, plan, lengths, b, k, n);
    } else {
        assert(line_constraints(def.bridles@[b], plan.chains@[b]@, lengths[b])[k].p1
            == plan.chains@[b]@[k]);
    }
}

proof fn line_count(def: KiteDefinition, plan: KitePlan, lengths: Seq<Scalar>, m: nat)
    requires
        m <= plan.chains@.len(),
        forall|c: int| 0 <= c < m ==> (#[trigger] plan.chains@[c])@.len() > 0,
    ensures
        lines_of(def, plan.chains@, lengths, m).len() == links_before(plan, m),
    decreases m,
{
    if m > 0 {
        line_count(def, plan, lengths, (m - 1) as nat);
        assert(plan.chains@[m - 1]@.len() > 0);
    }
}

/// Every line is a chain of tension-only segments, one between each particle of
/// the line and the next, line after line as they are listed, behind the lines
/// that were there; each has the line's segment length, compliance and diameter.
pub proof fn lines_are_chains(
    before: World,
    after: World,
    def: KiteDefinition,
    plan: KitePlan,
    values: KiteValues,
    b: int,
    k: int,
)
    requires
        constraints_extended(before, after, def, plan, values),
        plan.chains@.len() == def.bridles@.len(),
        forall|c: int| 0 <= c < plan.chains@.len() ==> (#[trigger] plan.chains@[c])@.len() > 0,
        0 <= b < plan.chains@.len(),
        0 <= k < plan.chains@[b]@.len() - 1,
    ensures
        ({
            let first = before.unilateral_constraints@.len();
            let all = after.unilateral_constraints@;
            let made = all[first + links_before(plan, b as nat) + k];
            &&& all.len() == first + links_before(plan, plan.chains@.len())
            &&& all.take(first as int) == before.unilateral_constraints@
            &&& first + links_before(plan, b as nat) + k < all.len()
            &&& made.p1 == plan.chains@[b]@[k]
            &&& made.p2 == plan.chains@[b]@[k + 1]
            &&& made.rest_length == values.line_lengths@[b]
            &&& made.compliance == def.bridles@[b].compliance
            &&& made.diameter == def.bridles@[b].diameter
            &&& made.lambda.bits == 0
        }),
{
    let first = before.unilateral_constraints@.len() as int;
    assert(after.unilateral_constraints@.take(first) =~= before.unilateral_constraints@);
    line_in_list(def, plan, values.line_lengths@, b, k, plan.chains@.len());
}

/// How many segments the spars before `s` have.
pub open spec fn segments_before(def: KiteDefinition, s: nat) -> nat
    decreases s,
{
    if s == 0 {
        0
    } else {
        segments_before(def, (s - 1) as nat) + def.spars@[s - 1].num_segments as nat
    }
}

/// How many straight joints the spars before `s` have: one fewer than segments
/// each.
pub open spec fn joints_before(def: KiteDefinition, s: nat) -> nat
    decreases s,
{
    if s == 0 {
        0
    } else {
        (joints_before(def, (s - 1) as nat) + def.spars@[s - 1].num_segments - 1) as nat
    }
}

proof fn segments_are_counted(def: KiteDefinition, s: nat)
    ensures
        segment_start(def, s) == segments_before(def, s),
    decreases s,
{
    if s > 0 {
        segments_are_counted(def, (s - 1) as nat);
    }
}

proof fn rods_in_list(
    l: Layout,
    def: KiteDefinition,
    existing: nat,
    base: nat,
    values: Seq<SparValues>,
    s: int,
    i: int,
    m: nat,
)
    requires
        0 <= s < m <= def.spars@.len(),
        0 <= i < def.spars@[s].num_segments,
        base + segments_before(def, m) <= usize::MAX,
    ensures
        rods_of(l, def, existing, base, values, m).len() == segments_before(def, m),
        segments_before(def, s as nat) + i < segments_before(def, m),
        ({
            let at = segments_before(def, s as nat) + i;
            let made = rods_of(l, def, existing, base, values, m)[at];
            &&& made.p1 == spar_node(l, def, existing, s, i)
            &&& made.p2 == spar_node(l, def, existing, s, i + 1)
            &&& made.q_index == base + at
            &&& made.rest_length == values[s].segment_length
            &&& made.compliance == values[s].stretch_shear
            &&& made.diameter == values[s].diameter
            &&& made.lambda == Vec3::spec_zero()
        }),
    decreases m,
{
    let n = (m - 1) as nat;
    rods_count(l, def, existing, base, values, m);
    rods_count(l, def, existing, base, values, n);
    segments_are_counted(def, n);
    if s < n {
        rods_in_list(l, def, existing, base, values, s, i, n);
    } else {
        let own = spar_rods(l, def, existing, (base + segment_start(def, n)) as int, s, values[s]);
        assert(rods_of(l, def, existing, base, values, m)[segments_before(def, n) + i] == own[i]);
    }
}

proof fn rods_count(
    l: Layout,
    def: KiteDefinition,
    existing: nat,
    base: nat,
    values: Seq<SparValues>,
    m: nat,
)
    ensures
        rods_of(l, def, existing, base, values, m).len() == segments_before(def, m),
    decreases m,
{
    if m > 0 {
        rods_count(l, def, existing, base, values, (m - 1) as nat);
    }
}

/// Every segment of every spar is a rod between the spar's node and the next,
/// spar after spar, behind the rods that were there. It has a frame of its own,
/// in the same order behind the frames that were there, and the length,
/// compliance and diameter measured for the spar.
pub proof fn spars_are_rods(
    before: World,
    after: World,
    def: KiteDefinition,
    plan: KitePlan,
    values: KiteValues,
    s: int,
    i: int,
)
    requires
        constraints_extended(before, after, def, plan, values),
        before.orientations.count() + segments_before(def, def.spars@.len()) <= usize::MAX,
        0 <= s < def.spars@.len(),
        0 <= i < def.spars@[s].num_segments,
    ensures
        ({
            let first = before.stretch_shear_constraints@.len();
            let existing = before.particles.count();
            let at = segments_before(def, s as nat) + i;
            let all = after.stretch_shear_constraints@;
            let made = all[first + at];
            &&& all.len() == first + segments_before(def, def.spars@.len())
            &&& all.take(first as int) == before.stretch_shear_constraints@
            &&& first + at < all.len()
            &&& made.p1 == spar_node(plan.layout, def, existing, s, i)
            &&& made.p2 == spar_node(plan.layout, def, existing, s, i + 1)
            &&& made.q_index == before.orientations.count() + at
            &&& made.rest_length == values.spars@[s].segment_length
            &&& made.compliance == values.spars@[s].stretch_shear
            &&& made.diameter == values.spars@[s].diameter
            &&& made.lambda == Vec3::spec_zero()
        }),
{
    let first = before.stretch_shear_constraints@.len() as int;
    assert(after.stretch_shear_constraints@.take(first) =~= before.stretch_shear_constraints@);
    rods_in_list(
        plan.layout,
        def,
        before.particles.count(),
        before.orientations.count(),
        values.spars@,
        s,
        i,
        def.spars@.len(),
    );
}

proof fn joints_count(def: KiteDefinition, base: nat, values: Seq<SparValues>, m: nat)
    requires
        m <= def.spars@.len(),
        forall|c: int| 0 <= c < m ==> (#[trigger] def.spars@[c]).num_segments > 0,
    ensures
        joints_of(def, base, values, m).len() == joints_before(def, m),
    decreases m,
{
    if m > 0 {
        joints_count(def, base, values, (m - 1) as nat);
        assert(def.spars@[m - 1].num_segments > 0);
    }
}

proof fn joints_in_list(
    def: KiteDefinition,
    base: nat,
    values: Seq<SparValues>,
    s: int,
    i: int,
    m: nat,
)
    requires
        0 <= s < m <= def.spars@.len(),
        forall|c: int| 0 <= c < m ==> (#[trigger] def.spars@[c]).num_segments > 0,
        0 <= i < def.spars@[s].num_segments - 1,
        base + segments_before(def, m) <= usize::MAX,
    ensures
        joints_before(def, s as nat) + i < joints_before(def, m),
        ({
            let made = joints_of(def, base, values, m)[joints_before(def, s as nat) + i];
            &&& made.q1_index == base + segments_before(def, s as nat) + i
            &&& made.q2_index == base + segments_before(def, s as nat) + i + 1
            &&& made.rest_value == Vec3::spec_zero()
            &&& made.compliance == values[s].bend_twist
            &&& made.lambda == Vec3::spec_zero()
            &&& made.yield_threshold.bits == 0x7FEF_FFFF_FFFF_FFFF
            &&& !made.is_inflatable
            &&& made.state == ConstraintState::Active
        }),
    decreases m,
{
    let n = (m - 1) as nat;
    joints_count(def, base, values, m);
    joints_count(def, base, values, n);
    segments_are_counted(def, n);
    assert(def.spars@[n as int].num_segments > 0);
    if s < n {
        joints_in_list(def, base, values, s, i, n);
    } else {
        let own = spar_joints(def, (base + segment_start(def, n)) as int, s, values[s]);
        assert(joints_of(def, base, values, m)[joints_before(def, n) + i] == own[i]);
    }
}

/// A joint that never yields, without load, between two segments at a rest value
/// and with a compliance.
pub open spec fn never_fails(
    made: crate::constraints::BendTwistConstraint,
    q1: int,
    q2: int,
    rest: Vec3,
) -> bool {
    &&& made.q1_index == q1
    &&& made.q2_index == q2
    &&& made.rest_value == rest
    &&& made.lambda == Vec3::spec_zero()
    &&& made.yield_threshold.bits == 0x7FEF_FFFF_FFFF_FFFF
    &&& !made.is_inflatable
    &&& made.state == ConstraintState::Active
}

/// Every two segments of a spar that follow one another are joined, straight at
/// rest, with the compliance measured for the spar, spar after spar behind the
/// joints that were there.
pub proof fn spars_are_jointed(
    before: World,
    after: World,
    def: KiteDefinition,
    plan: KitePlan,
    values: KiteValues,
    s: int,
    i: int,
)
    requires
        constraints_extended(before, after, def, plan, values),
        before.orientations.count() + segments_before(def, def.spars@.len()) <= usize::MAX,
        forall|c: int| 0 <= c < def.spars@.len() ==> (#[trigger] def.spars@[c]).num_segments > 0,
        0 <= s < def.spars@.len(),
        0 <= i < def.spars@[s].num_segments - 1,
    ensures
        ({
            let first = before.bend_twist_constraints@.len();
            let made = after.bend_twist_constraints@[first + joints_before(def, s as nat) + i];
            let q = before.orientations.count() + segments_before(def, s as nat) + i;
            &&& first + joints_before(def, s as nat) + i < after.bend_twist_constraints@.len()
            &&& never_fails(made, q, q + 1, Vec3::spec_zero())
            &&& made.compliance == values.spars@[s].bend_twist
        }),
{
    let m = def.spars@.len();
    joints_in_list(def, before.orientations.count(), values.spars@, s, i, m);
    joints_count(def, before.orientations.count(), values.spars@, m);
}

/// Every stiff pair is a joint, in the pairs' order, behind the straight ones:
/// between its segments, at the angle measured for it, with the junction's
/// compliance in all directions, which is at least a trillionth.
pub proof fn stiff_pairs_are_jointed(
    before: World,
    after: World,
    def: KiteDefinition,
    plan: KitePlan,
    values: KiteValues,
)
    requires
        constraints_extended(before, after, def, plan, values),
        forall|c: int| 0 <= c < def.spars@.len() ==> (#[trigger] def.spars@[c]).num_segments > 0,
    ensures
        ({
            let old_len = before.bend_twist_constraints@.len();
            let first = old_len + joints_before(def, def.spars@.len());
            let all = after.bend_twist_constraints@;
            let least = Scalar { bits: 0x3D71_9799_812D_EA11 };
            &&& all.len() == first + plan.stiff@.len()
            &&& all.take(old_len as int) == before.bend_twist_constraints@
            &&& forall|k: int|
                #![trigger plan.stiff@[k]]
                0 <= k < plan.stiff@.len() ==> {
                    let made = all[first + k];
                    let pair = plan.stiff@[k];
                    let wanted = def.stiff_junctions@[pair.junction as int].compliance;
                    let c = if least.at_most(wanted) {
                        wanted
                    } else {
                        least
                    };
                    &&& never_fails(
                        made,
                        pair.first as int,
                        pair.second as int,
                        values.stiff_rest@[k],
                    )
                    &&& made.compliance == Vec3 { x: c, y: c, z: c }
                }
        }),
{
    let old_len = before.bend_twist_constraints@.len() as int;
    joints_count(def, before.orientations.count(), values.spars@, def.spars@.len());
    assert(after.bend_twist_constraints@.take(old_len) =~= before.bend_twist_constraints@);
}

proof fn per_segment_at<T>(def: KiteDefinition, values: Seq<T>, s: int, i: int, m: nat)
    requires
        0 <= s < m <= def.spars@.len(),
        0 <= i < def.spars@[s].num_segments,
    ensures
        per_segment(def, values, m).len() == segments_before(def, m),
        segments_before(def, s as nat) + i < segments_before(def, m),
        per_segment(def, values, m)[segments_before(def, s as nat) + i] == values[s],
    decreases m,
{
    let n = (m - 1) as nat;
    per_segment_len(def, values, n);
    per_segment_len(def, values, m);
    if s < n {
        per_segment_at(def, values, s, i, n);
    }
}

proof fn per_segment_len<T>(def: KiteDefinition, values: Seq<T>, m: nat)
    ensures
        per_segment(def, values, m).len() == segments_before(def, m),
    decreases m,
{
    if m > 0 {
        per_segment_len(def, values, (m - 1) as nat);
    }
}

/// Every segment's frame has the orientation and the inverse inertia measured
/// for its spar, was there at the same orientation before, and is at rest with
/// no torque on it; the frames that were there stay.
pub proof fn frames_follow_their_spar(
    before: World,
    after: World,
    def: KiteDefinition,
    values: KiteValues,
    s: int,
    i: int,
)
    requires
        before.orientations.wf(),
        segments_extended(before, after, def, values),
        values.spars@.len() == def.spars@.len(),
        0 <= s < def.spars@.len(),
        0 <= i < def.spars@[s].num_segments,
    ensures
        ({
            let n = before.orientations.count();
            let at = n + segments_before(def, s as nat) + i;
            &&& after.orientations.quat@.len() == n + segments_before(def, def.spars@.len())
            &&& after.orientations.quat@.take(n as int) == before.orientations.quat@
            &&& after.orientations.inv_inertia@.take(n as int) == before.orientations.inv_inertia@
            &&& after.orientations.omega@.take(n as int) == before.orientations.omega@
            &&& after.orientations.prev_quat@.take(n as int) == before.orientations.prev_quat@
            &&& after.orientations.quat@[at] == values.spars@[s].quat
            &&& after.orientations.prev_quat@[at] == values.spars@[s].quat
            &&& after.orientations.inv_inertia@[at] == values.spars@[s].inv_inertia
            &&& after.orientations.omega@[at] == Vec3::spec_zero()
            &&& after.torques@[before.torques@.len() + segments_before(def, s as nat) + i]
                == Vec3::spec_zero()
        }),
{
    let m = def.spars@.len();
    let n = before.orientations.count() as int;
    segments_are_counted(def, m);
    per_segment_at(def, quats(values.spars@), s, i, m);
    per_segment_at(def, inertias(values.spars@), s, i, m);
    assert(after.orientations.quat@.take(n) =~= before.orientations.quat@);
    assert(after.orientations.inv_inertia@.take(n) =~= before.orientations.inv_inertia@);
    assert(after.orientations.omega@.take(n) =~= before.orientations.omega@);
    assert(after.orientations.prev_quat@.take(n) =~= before.orientations.prev_quat@);
}

} // verus!
