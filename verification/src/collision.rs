//! Collisions of the canopy with itself and with the ground.
use crate::constraints::DistanceConstraint;
use crate::scalar::{Scalar, Vec3, ONE_BITS};
use crate::state::{acted, Act};
use crate::world::{CanopyPanel, World};
use vstd::prelude::*;

verus! {

/// Contact thickness, one centimetre: what is closer collides.
pub const CONTACT_THICKNESS_BITS: u64 = 0x3F84_7AE1_47AE_147B;

/// Below this distance, a micrometre, the direction of a contact is taken from
/// the triangle.
pub const TOUCHING_BITS: u64 = 0x3EB0_C6F7_A0B5_ED8D;

/// Below this a squared length or an inverse mass counts as nothing.
pub const NEGLIGIBLE_BITS: u64 = 0x3D71_9799_812D_EA11;

/// How far above the ground plane the ground is: five millimetres.
pub const GROUND_THICKNESS_BITS: u64 = 0x3F74_7AE1_47AE_147B;

/// A point-vs-triangle self-collision contact.
#[derive(Clone, Copy, Debug, PartialEq, Eq, Structural)]
pub struct ContactConstraint {
    pub p_i: usize,
    pub p_a: usize,
    pub p_b: usize,
    pub p_c: usize,
    /// Points from the triangle towards particle `p_i`.
    pub normal: Vec3,
    pub depth: Scalar,
    /// Barycentric coordinates of the closest point.
    pub u: Scalar,
    pub v: Scalar,
    pub w: Scalar,
    pub lambda: Scalar,
}

/// A particle and a panel that may collide.
#[derive(Clone, Copy, Debug, PartialEq, Eq, Structural)]
pub struct Candidate {
    pub particle: usize,
    pub panel: usize,
}

/// The panel has a corner at the particle.
pub open spec fn has_corner(panel: CanopyPanel, p: usize) -> bool {
    panel.p1 == p || panel.p2 == p || panel.p3 == p
}

/// A distance constraint ties the particle to a corner of the panel.
pub open spec fn ties(c: DistanceConstraint, panel: CanopyPanel, p: usize) -> bool {
    (c.p1 == p && has_corner(panel, c.p2)) || (c.p2 == p && has_corner(panel, c.p1))
}

/// The particle is a corner of the panel, or a distance constraint ties it to
/// one: such neighbours do not collide.
pub open spec fn adjacent(cs: Seq<DistanceConstraint>, panel: CanopyPanel, p: usize) -> bool {
    has_corner(panel, p) || exists|k: int| 0 <= k < cs.len() && ties(#[trigger] cs[k], panel, p)
}

fn corner_at(panel: &CanopyPanel, p: usize) -> (r: bool)
    ensures
        r == has_corner(*panel, p),
{
    panel.p1 == p || panel.p2 == p || panel.p3 == p
}

fn is_adjacent(cs: &Vec<DistanceConstraint>, panel: &CanopyPanel, p: usize) -> (r: bool)
    ensures
        r == adjacent(cs@, *panel, p),
{
    if corner_at(panel, p) {
        return true;
    }
    let mut k: usize = 0;
    while k < cs.len()
        invariant
            k <= cs@.len(),
            !has_corner(*panel, p),
            forall|j: int| 0 <= j < k ==> !ties(#[trigger] cs@[j], *panel, p),
        decreases cs@.len() - k,
    {
        let c: DistanceConstraint = cs[k];
        if (c.p1 == p && corner_at(panel, c.p2)) || (c.p2 == p && corner_at(panel, c.p1)) {
            assert(ties(cs@[k as int], *panel, p));
            return true;
        }
        k += 1;
    }
    false
}

/// The first `t` panels that the particle may collide with.
pub open spec fn candidates_of(
    cs: Seq<DistanceConstraint>,
    panels: Seq<CanopyPanel>,
    p: int,
    t: nat,
) -> Seq<Candidate>
    decreases t,
{
    if t == 0 {
        Seq::empty()
    } else {
        let before = candidates_of(cs, panels, p, (t - 1) as nat);
        if adjacent(cs, panels[t - 1], p as usize) {
            before
        } else {
            before.push(Candidate { particle: p as usize, panel: (t - 1) as usize })
        }
    }
}

/// What the first `n` particles may collide with.
pub open spec fn candidates(
    cs: Seq<DistanceConstraint>,
    panels: Seq<CanopyPanel>,
    n: nat,
) -> Seq<Candidate>
    decreases n,
{
    if n == 0 {
        Seq::empty()
    } else {
        candidates(cs, panels, (n - 1) as nat) + candidates_of(cs, panels, n - 1, panels.len())
    }
}

/// All pairs of a particle and a panel that may collide, by particle and then
/// by panel.
#[verifier::loop_isolation(false)]
pub fn collision_candidates(world: &World) -> (r: Vec<Candidate>)
    ensures
        r@ == candidates(world.distance_constraints@, world.canopy_panels@, world.particles.count()),
{
    let mut out: Vec<Candidate> = Vec::new();
    let mut i: usize = 0;
    while i < world.particles.len()
        invariant
            i <= world.particles.count(),
            out@ == candidates(world.distance_constraints@, world.canopy_panels@, i as nat),
        decreases world.particles.count() - i,
    {
        let ghost before = out@;
        let mut t: usize = 0;
        assert(before + candidates_of(world.distance_constraints@, world.canopy_panels@, i as int, 0) =~= before);
        while t < world.canopy_panels.len()
            invariant
                t <= world.canopy_panels@.len(),
                out@ == before + candidates_of(world.distance_constraints@, world.canopy_panels@, i as int, t as nat),
            decreases world.canopy_panels@.len() - t,
        {
            if !is_adjacent(&world.distance_constraints, &world.canopy_panels[t], i) {
                out.push(Candidate { particle: i, panel: t });
            }
            assert(out@ =~= before + candidates_of(world.distance_constraints@, world.canopy_panels@, i as int, (t + 1) as nat));
            t += 1;
        }
        i += 1;
    }
    out
}

/// What is measured for a candidate: how far the particle is from the triangle
/// and in what direction, the triangle's normal and its squared length before
/// it was made a unit, how deep the particle is in the contact zone, and the
/// barycentric coordinates of the closest point.
#[derive(Clone, Copy, Debug, PartialEq, Eq, Structural)]
pub struct Sample {
    pub distance: Scalar,
    pub direction: Vec3,
    pub tri_normal: Vec3,
    pub tri_normal_sq: Scalar,
    pub depth: Scalar,
    pub u: Scalar,
    pub v: Scalar,
    pub w: Scalar,
}

/// The normal of a contact: towards the particle, or that of the triangle for
/// a particle on it, or up for one on a degenerate triangle.
pub open spec fn contact_normal(s: Sample) -> Vec3 {
    if (Scalar { bits: TOUCHING_BITS }).less(s.distance) {
        s.direction
    } else if (Scalar { bits: NEGLIGIBLE_BITS }).less(s.tri_normal_sq) {
        s.tri_normal
    } else {
        Vec3 { x: Scalar { bits: 0 }, y: Scalar { bits: ONE_BITS }, z: Scalar { bits: 0 } }
    }
}

fn pick_normal(s: &Sample) -> (r: Vec3)
    ensures
        r == contact_normal(*s),
{
    if Scalar::new(TOUCHING_BITS).lt(s.distance) {
        s.direction
    } else if Scalar::new(NEGLIGIBLE_BITS).lt(s.tri_normal_sq) {
        s.tri_normal
    } else {
        Vec3::new(Scalar::zero(), Scalar::new(ONE_BITS), Scalar::zero())
    }
}

/// The contact of a candidate.
pub open spec fn contact_of(
    panels: Seq<CanopyPanel>,
    c: Candidate,
    s: Sample,
) -> ContactConstraint {
    let panel = panels[c.panel as int];
    ContactConstraint {
        p_i: c.particle,
        p_a: panel.p1,
        p_b: panel.p2,
        p_c: panel.p3,
        normal: contact_normal(s),
        depth: s.depth,
        u: s.u,
        v: s.v,
        w: s.w,
        lambda: Scalar { bits: 0 },
    }
}

/// The contacts of the first `n` candidates: those that are too close.
pub open spec fn contacts(
    panels: Seq<CanopyPanel>,
    pairs: Seq<Candidate>,
    samples: Seq<Sample>,
    n: nat,
) -> Seq<ContactConstraint>
    decreases n,
{
    if n == 0 {
        Seq::empty()
    } else {
        let before = contacts(panels, pairs, samples, (n - 1) as nat);
        if samples[n - 1].distance.less(Scalar { bits: CONTACT_THICKNESS_BITS }) {
            before.push(contact_of(panels, pairs[n - 1], samples[n - 1]))
        } else {
            before
        }
    }
}

proof fn candidate_is_within(
    cs: Seq<DistanceConstraint>,
    panels: Seq<CanopyPanel>,
    p: int,
    t: nat,
    k: int,
)
    requires
        0 <= p <= usize::MAX,
        t <= panels.len() <= usize::MAX,
        0 <= k < candidates_of(cs, panels, p, t).len(),
    ensures
        candidates_of(cs, panels, p, t)[k].particle == p,
        candidates_of(cs, panels, p, t)[k].panel < t,
        !adjacent(
            cs,
            panels[candidates_of(cs, panels, p, t)[k].panel as int],
            p as usize,
        ),
    decreases t,
{
    let before = candidates_of(cs, panels, p, (t - 1) as nat);
    if k < before.len() {
        candidate_is_within(cs, panels, p, (t - 1) as nat, k);
    }
}

/// A candidate is a particle and a panel of the world that are not neighbours.
pub proof fn candidates_are_apart(
    cs: Seq<DistanceConstraint>,
    panels: Seq<CanopyPanel>,
    n: nat,
    k: int,
)
    requires
        n <= usize::MAX,
        panels.len() <= usize::MAX,
        0 <= k < candidates(cs, panels, n).len(),
    ensures
        candidates(cs, panels, n)[k].particle < n,
        candidates(cs, panels, n)[k].panel < panels.len(),
        !adjacent(
            cs,
            panels[candidates(cs, panels, n)[k].panel as int],
            candidates(cs, panels, n)[k].particle,
        ),
    decreases n,
{
    let before = candidates(cs, panels, (n - 1) as nat);
    if k < before.len() {
        candidates_are_apart(cs, panels, (n - 1) as nat, k);
    } else {
        candidate_is_within(cs, panels, n - 1, panels.len(), k - before.len());
    }
}

/// The contacts name particles of the world.
pub open spec fn contacts_within(cs: Seq<ContactConstraint>, n: nat) -> bool {
    forall|k: int|
        0 <= k < cs.len() ==> (#[trigger] cs[k]).p_i < n && cs[k].p_a < n && cs[k].p_b < n
            && cs[k].p_c < n
}

/// Detects all active self-collisions of non-adjacent particles and panels.
/// The samples are those of the candidates, in their order.
#[verifier::loop_isolation(false)]
pub fn detect_self_collisions(world: &World, samples: &Vec<Sample>) -> (r: Vec<ContactConstraint>)
    requires
        world.wf(),
        samples@.len() == candidates(world.distance_constraints@, world.canopy_panels@, world.particles.count()).len(),
    ensures
        r@ == contacts(
            world.canopy_panels@,
            candidates(world.distance_constraints@, world.canopy_panels@, world.particles.count()),
            samples@,
            samples@.len(),
        ),
        contacts_within(r@, world.particles.count()),
{
    let pairs: Vec<Candidate> = collision_candidates(world);
    let count: usize = world.particles.len();
    let panels: usize = world.canopy_panels.len();
    let mut out: Vec<ContactConstraint> = Vec::new();
    let mut k: usize = 0;
    while k < samples.len()
        invariant
            k <= samples@.len(),
            out@ == contacts(world.canopy_panels@, pairs@, samples@, k as nat),
            contacts_within(out@, count as nat),
        decreases samples@.len() - k,
    {
        proof {
            candidates_are_apart(
                world.distance_constraints@,
                world.canopy_panels@,
                count as nat,
                k as int,
            );
        }
        if samples[k].distance.lt(Scalar::new(CONTACT_THICKNESS_BITS)) {
            let panel: CanopyPanel = world.canopy_panels[pairs[k].panel];
            out.push(
                ContactConstraint {
                    p_i: pairs[k].particle,
                    p_a: panel.p1,
                    p_b: panel.p2,
                    p_c: panel.p3,
                    normal: pick_normal(&samples[k]),
                    depth: samples[k].depth,
                    u: samples[k].u,
                    v: samples[k].v,
                    w: samples[k].w,
                    lambda: Scalar::zero(),
                },
            );
        }
        k += 1;
    }
    out
}

/// Whether a contact acts: it is penetrated, or was and still pushes, and its
/// particles can move. `value` is the signed distance from the contact zone,
/// `denom` the inverse mass that the push acts on.
pub fn contact_is_active(contact: &ContactConstraint, value: Scalar, denom: Scalar) -> (r: bool)
    ensures
        r == (!((Scalar { bits: 0 }).at_most(value) && contact.lambda.at_most(Scalar { bits: 0 }))
            && !denom.less(Scalar { bits: NEGLIGIBLE_BITS })),
{
    !(Scalar::zero().le(value) && contact.lambda.le(Scalar::zero())) && !denom.lt(
        Scalar::new(NEGLIGIBLE_BITS),
    )
}

/// The multiplier of an acting contact: it never pulls.
pub fn pushing_lambda(sum: Scalar) -> (r: Scalar)
    ensures
        r == sum.larger(Scalar { bits: 0 }),
        !r.less(Scalar { bits: 0 }),
{
    sum.max(Scalar::zero())
}

/// Where a particle is put that may be below the ground: a free one is lifted
/// onto it.
pub open spec fn grounded(inv_mass: Scalar, pos: Vec3) -> Vec3 {
    let top = Scalar { bits: GROUND_THICKNESS_BITS };
    if !inv_mass.at_most(Scalar { bits: 0 }) && pos.y.less(top) {
        Vec3 { y: top, ..pos }
    } else {
        pos
    }
}

/// Solves the infinitely stiff ground-plane collision: a free particle that is
/// predicted below the ground is put on it.
pub fn solve_ground_collision(world: &mut World)
    requires
        old(world).wf(),
    ensures
        final(world).wf(),
        final(world)@ == acted(old(world)@, Act::Ground),
        final(world).particles.pred_pos@.len() == old(world).particles.pred_pos@.len(),
        forall|i: int|
            0 <= i < old(world).particles.pred_pos@.len()
                ==> #[trigger] final(world).particles.pred_pos@[i] == grounded(
                old(world).particles.inv_mass@[i],
                old(world).particles.pred_pos@[i],
            ),
        final(world).particles.inv_mass == old(world).particles.inv_mass,
        final(world).particles.pos == old(world).particles.pos,
        final(world).particles.prev_pos == old(world).particles.prev_pos,
        final(world).particles.vel == old(world).particles.vel,
        *final(world) == (World { particles: final(world).particles, ..*old(world) }),
{
    let ghost before = *world;
    let n: usize = world.particles.len();
    let top: Scalar = Scalar::new(GROUND_THICKNESS_BITS);
    let mut i: usize = 0;
    while i < n
        invariant
            i <= n,
            n == before.particles.count(),
            before.wf(),
            top.bits == GROUND_THICKNESS_BITS,
            world.particles.pred_pos@.len() == n,
            forall|k: int|
                0 <= k < i ==> #[trigger] world.particles.pred_pos@[k] == grounded(
                    before.particles.inv_mass@[k],
                    before.particles.pred_pos@[k],
                ),
            forall|k: int|
                i <= k < n ==> #[trigger] world.particles.pred_pos@[k]
                    == before.particles.pred_pos@[k],
            world.particles.inv_mass == before.particles.inv_mass,
            world.particles.pos == before.particles.pos,
            world.particles.prev_pos == before.particles.prev_pos,
            world.particles.vel == before.particles.vel,
            *world == (World { particles: world.particles, ..before }),
        decreases n - i,
    {
        let pos: Vec3 = world.particles.pred_pos[i];
        if !world.particles.inv_mass[i].le(Scalar::zero()) && pos.y.lt(top) {
            world.particles.pred_pos.set(i, Vec3::new(pos.x, top, pos.z));
        }
        i += 1;
    }
}

/// What is put on the ground is not below it, a pinned particle is left where
/// it is, and putting it there again changes nothing.
pub proof fn grounding_holds(inv_mass: Scalar, pos: Vec3)
    ensures
        !inv_mass.at_most(Scalar { bits: 0 }) ==> !grounded(inv_mass, pos).y.less(
            Scalar { bits: GROUND_THICKNESS_BITS },
        ),
        inv_mass.at_most(Scalar { bits: 0 }) ==> grounded(inv_mass, pos) == pos,
        grounded(inv_mass, grounded(inv_mass, pos)) == grounded(inv_mass, pos),
{
}

} // verus!
