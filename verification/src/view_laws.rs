//! What is drawn and told of a kite and its wind.
use crate::doc::{EditorDoc, SparItem};
use crate::hover::{look_of, segment_label, segments_before, spar_of_segment};
use crate::scalar::{Scalar, Vec3};
use crate::selection::Selection;
use crate::shapes::{
    band_triangles, cap_triangles, cone_triangles, cylinder_triangles, drawable, side_triangles,
    slope_triangles, sphere_triangles,
};
use crate::text::decimal;
use crate::windviz::{
    cells, column_cells, drawn_number, drawn_state, leaving, lengthened, slice_cells, Cell, Drift,
    NUM_PARTICLES, TRAIL_LEN,
};
use vstd::prelude::*;

verus! {

/// A trail ends with the newest place. Below sixteen places nothing else
/// changes; at that many the oldest goes.
pub proof fn trails_keep_the_latest(trail: Seq<Vec3>, p: Vec3)
    ensures
        lengthened(trail, p).len() > 0,
        lengthened(trail, p).last() == p,
        trail.len() < 16 ==> lengthened(trail, p).drop_last() == trail,
        trail.len() >= 16 ==> lengthened(trail, p).drop_last() == trail.drop_first(),
{
    assert(trail.push(p).drop_last() =~= trail);
    if trail.len() >= 16 {
        assert(lengthened(trail, p).drop_last() =~= trail.drop_first());
    }
}

/// A streak begins anew exactly where it is older than six seconds or out of the
/// box, and they are named in ascending order.
pub proof fn old_and_lost_streaks_begin_anew(drifts: Seq<Drift>, n: nat, i: usize)
    requires
        n <= drifts.len() <= usize::MAX,
    ensures
        leaving(drifts, n).contains(i) <==> i < n && ((Scalar { bits: 0x4018_0000_0000_0000 }).less(
            drifts[i as int].age,
        ) || !drifts[i as int].inside),
        forall|a: int, b: int|
            #![trigger leaving(drifts, n)[a], leaving(drifts, n)[b]]
            0 <= a < b < leaving(drifts, n).len() ==> leaving(drifts, n)[a] < leaving(drifts, n)[b],
        forall|a: int| 0 <= a < leaving(drifts, n).len() ==> (#[trigger] leaving(drifts, n)[a]) < n,
    decreases n,
{
    if n > 0 {
        old_and_lost_streaks_begin_anew(drifts, (n - 1) as nat, i);
        let before = leaving(drifts, (n - 1) as nat);
        let all = leaving(drifts, n);
        if all.contains(i) {
            let k = choose|k: int| 0 <= k < all.len() && all[k] == i;
            if k < before.len() {
                assert(before[k] == i);
            }
        }
        if before.contains(i) {
            let k = choose|k: int| 0 <= k < before.len() && before[k] == i;
            assert(all[k] == i);
        }
        if all.len() > before.len() {
            assert(all[before.len() as int] == n - 1);
        }
    }
}

/// There are two hundred streaks with trails of sixteen places.
pub proof fn overlay_limits()
    ensures
        NUM_PARTICLES == 200,
        TRAIL_LEN == 16,
{
}

proof fn slice_has(x: int, nz: nat, n: nat, c: Cell)
    requires
        0 <= x <= usize::MAX,
        n <= usize::MAX,
        nz <= usize::MAX,
    ensures
        slice_cells(x, nz, n).contains(c) <==> c.x == x && c.y < n && c.z < nz,
    decreases n,
{
    if n > 0 {
        slice_has(x, nz, (n - 1) as nat, c);
        let before = slice_cells(x, nz, (n - 1) as nat);
        let own = column_cells(x, n - 1, nz);
        let all = slice_cells(x, nz, n);
        if all.contains(c) {
            let k = choose|k: int| 0 <= k < all.len() && all[k] == c;
            if k < before.len() {
                assert(before[k] == c);
            } else {
                assert(own[k - before.len()] == c);
            }
        }
        if before.contains(c) {
            let k = choose|k: int| 0 <= k < before.len() && before[k] == c;
            assert(all[k] == c);
        }
        if c.x == x && c.y == n - 1 && c.z < nz {
            assert(own[c.z as int] == c);
            assert(all[before.len() + c.z] == c);
        }
    }
}

/// The grid has every cell within its resolution, and no other.
pub proof fn grid_has_every_cell(ny: nat, nz: nat, n: nat, c: Cell)
    requires
        n <= usize::MAX,
        ny <= usize::MAX,
        nz <= usize::MAX,
    ensures
        cells(ny, nz, n).contains(c) <==> c.x < n && c.y < ny && c.z < nz,
    decreases n,
{
    if n > 0 {
        grid_has_every_cell(ny, nz, (n - 1) as nat, c);
        slice_has(n - 1, nz, ny, c);
        let before = cells(ny, nz, (n - 1) as nat);
        let own = slice_cells(n - 1, nz, ny);
        let all = cells(ny, nz, n);
        if all.contains(c) {
            let k = choose|k: int| 0 <= k < all.len() && all[k] == c;
            if k < before.len() {
                assert(before[k] == c);
            } else {
                assert(own[k - before.len()] == c);
            }
        }
        if before.contains(c) {
            let k = choose|k: int| 0 <= k < before.len() && before[k] == c;
            assert(all[k] == c);
        }
        if own.contains(c) {
            let k = choose|k: int| 0 <= k < own.len() && own[k] == c;
            assert(all[before.len() + k] == c);
        }
    }
}

proof fn slice_ascends(x: int, nz: nat, n: nat, i: int, j: int)
    requires
        0 <= x <= usize::MAX,
        n <= usize::MAX,
        nz <= usize::MAX,
        0 <= i < j < slice_cells(x, nz, n).len(),
    ensures
        ({
            let a = slice_cells(x, nz, n)[i];
            let b = slice_cells(x, nz, n)[j];
            a.y < b.y || (a.y == b.y && a.z < b.z)
        }),
    decreases n,
{
    let before = slice_cells(x, nz, (n - 1) as nat);
    if j < before.len() {
        slice_ascends(x, nz, (n - 1) as nat, i, j);
    } else if i < before.len() {
        assert(before.contains(before[i]));
        slice_has(x, nz, (n - 1) as nat, before[i]);
    }
}

/// The cells come by x, then by y, then by z, each once.
pub proof fn cells_come_in_order(ny: nat, nz: nat, n: nat, i: int, j: int)
    requires
        n <= usize::MAX,
        ny <= usize::MAX,
        nz <= usize::MAX,
        0 <= i < j < cells(ny, nz, n).len(),
    ensures
        ({
            let a = cells(ny, nz, n)[i];
            let b = cells(ny, nz, n)[j];
            a.x < b.x || (a.x == b.x && (a.y < b.y || (a.y == b.y && a.z < b.z)))
        }),
    decreases n,
{
    let before = cells(ny, nz, (n - 1) as nat);
    let own = slice_cells(n - 1, nz, ny);
    if j < before.len() {
        cells_come_in_order(ny, nz, (n - 1) as nat, i, j);
    } else {
        let b = own[j - before.len()];
        assert(own.contains(b));
        slice_has(n - 1, nz, ny, b);
        if i < before.len() {
            assert(before.contains(before[i]));
            grid_has_every_cell(ny, nz, (n - 1) as nat, before[i]);
        } else {
            let a = own[i - before.len()];
            assert(own.contains(a));
            slice_has(n - 1, nz, ny, a);
            slice_ascends(n - 1, nz, ny, i - before.len(), j - before.len());
        }
    }
}

/// How many segments the spars before `s` have.
pub open spec fn numbered_before(spars: Seq<SparItem>, s: nat) -> nat
    decreases s,
{
    if s == 0 {
        0
    } else {
        numbered_before(spars, (s - 1) as nat) + spars[s - 1].num_segments as nat
    }
}

proof fn numbers_agree(spars: Seq<SparItem>, s: nat)
    ensures
        segments_before(spars, s) == numbered_before(spars, s),
    decreases s,
{
    if s > 0 {
        numbers_agree(spars, (s - 1) as nat);
    }
}

proof fn numbers_grow(spars: Seq<SparItem>, a: nat, b: nat)
    requires
        a <= b,
    ensures
        numbered_before(spars, a) <= numbered_before(spars, b),
    decreases b,
{
    if a < b {
        numbers_grow(spars, a, (b - 1) as nat);
    }
}

proof fn segment_is_found(spars: Seq<SparItem>, segment: nat, s: nat, k: nat)
    requires
        k <= s < spars.len(),
        numbered_before(spars, s) <= segment < numbered_before(spars, s + 1),
    ensures
        spar_of_segment(spars, segment, k) == s,
    decreases s - k,
{
    numbers_agree(spars, k + 1);
    if k < s {
        numbers_grow(spars, k + 1, s);
        segment_is_found(spars, segment, s, k + 1);
    }
}

proof fn segment_is_not_found(spars: Seq<SparItem>, segment: nat, k: nat)
    requires
        k <= spars.len(),
        numbered_before(spars, spars.len()) <= segment,
    ensures
        spar_of_segment(spars, segment, k) == spars.len(),
    decreases spars.len() - k,
{
    if k < spars.len() {
        numbers_agree(spars, k + 1);
        numbers_grow(spars, k + 1, spars.len());
        segment_is_not_found(spars, segment, k + 1);
    }
}

/// The segments are numbered spar after spar: segment `i` of a spar is labelled
/// with the spar's name and `i`. A segment beyond the last spar's is labelled
/// with its own number.
pub proof fn segments_carry_their_spars_name(doc: EditorDoc, s: nat, i: nat, beyond: usize)
    requires
        s < doc.spars@.len(),
        i < doc.spars@[s as int].num_segments,
        numbered_before(doc.spars@, s) + i <= usize::MAX,
        numbered_before(doc.spars@, doc.spars@.len()) <= beyond,
    ensures
        segment_label(doc, (numbered_before(doc.spars@, s) + i) as usize)
            == doc.spars@[s as int].name@ + " seg "@ + decimal(i),
        segment_label(doc, beyond) == "spar segment "@ + decimal(beyond as nat),
{
    numbers_agree(doc.spars@, s);
    segment_is_found(doc.spars@, numbered_before(doc.spars@, s) + i, s, 0);
    segment_is_not_found(doc.spars@, beyond as nat, 0);
}

/// A point looks selected if it is; else pending if a tool waits for it; else as
/// what is at it: a lashing before a stiff joint, that before the junction, that
/// before a pin.
pub proof fn points_look_as_what_matters_most(
    doc: EditorDoc,
    pending: Seq<usize>,
    sel: Seq<Selection>,
    i: usize,
)
    ensures
        ({
            let look = look_of(doc, pending, sel, i);
            let chosen = sel.contains(Selection::Point(i));
            let waits = pending.contains(i);
            let lashed = exists|k: int|
                0 <= k < doc.lashings@.len() && (#[trigger] doc.lashings@[k]).point == i;
            let stiff = exists|k: int|
                0 <= k < doc.stiff_joints@.len() && (#[trigger] doc.stiff_joints@[k]).point == i;
            let junction = doc.junction == Some(i);
            let pin = doc.pinned@.contains(i);
            &&& (look is Selected <==> chosen)
            &&& (look is Pending <==> waits && !chosen)
            &&& (look is Lashed <==> lashed && !chosen && !waits)
            &&& (look is StiffJoint <==> stiff && !chosen && !waits && !lashed)
            &&& (look is Junction <==> junction && !chosen && !waits && !lashed && !stiff)
            &&& (look is Pinned <==> pin && !chosen && !waits && !lashed && !stiff && !junction)
            &&& (look is Plain <==> !pin && !chosen && !waits && !lashed && !stiff && !junction)
        }),
{
    let look = look_of(doc, pending, sel, i);
    assert(look is Selected || look is Pending || look is Lashed || look is StiffJoint || look
        is Junction || look is Pinned || look is Plain);
}

proof fn sides_at(segs: int, n: nat, i: int)
    requires
        0 <= i < n <= segs,
    ensures
        side_triangles(segs, n).len() == 6 * n,
        ({
            let s = side_triangles(segs, n);
            let j = (i + 1) % segs;
            &&& s[6 * i] == 2 * i && s[6 * i + 1] == 2 * j && s[6 * i + 2] == 2 * i + 1
            &&& s[6 * i + 3] == 2 * i + 1 && s[6 * i + 4] == 2 * j && s[6 * i + 5] == 2 * j + 1
        }),
    decreases n,
{
    sides_len(segs, (n - 1) as nat);
    assert((i + 1) % segs == if i + 1 == segs {
        0
    } else {
        i + 1
    }) by {
        if i + 1 < segs {
            vstd::arithmetic::div_mod::lemma_small_mod((i + 1) as nat, segs as nat);
        } else {
            vstd::arithmetic::div_mod::lemma_mod_self_0(segs);
        }
    }
    if i < n - 1 {
        sides_at(segs, (n - 1) as nat, i);
    }
}

proof fn sides_len(segs: int, n: nat)
    ensures
        side_triangles(segs, n).len() == 6 * n,
    decreases n,
{
    if n > 0 {
        sides_len(segs, (n - 1) as nat);
    }
}

proof fn cap_len(center: int, segs: int, flip: bool, n: nat)
    ensures
        cap_triangles(center, segs, flip, n).len() == 3 * n,
    decreases n,
{
    if n > 0 {
        cap_len(center, segs, flip, (n - 1) as nat);
    }
}

proof fn cap_at(center: int, segs: int, flip: bool, n: nat, i: int)
    requires
        0 <= i < n <= segs,
    ensures
        ({
            let s = cap_triangles(center, segs, flip, n);
            let here = center + 1 + i;
            let next = center + 1 + (i + 1) % segs;
            &&& s[3 * i] == center
            &&& flip ==> s[3 * i + 1] == next && s[3 * i + 2] == here
            &&& !flip ==> s[3 * i + 1] == here && s[3 * i + 2] == next
        }),
    decreases n,
{
    cap_len(center, segs, flip, (n - 1) as nat);
    assert((i + 1) % segs == if i + 1 == segs {
        0
    } else {
        i + 1
    }) by {
        if i + 1 < segs {
            vstd::arithmetic::div_mod::lemma_small_mod((i + 1) as nat, segs as nat);
        } else {
            vstd::arithmetic::div_mod::lemma_mod_self_0(segs);
        }
    }
    if i < n - 1 {
        cap_at(center, segs, flip, (n - 1) as nat, i);
    }
}

/// A cylinder has, for each segment of its ring, two triangles on its side, from
/// its own pair of vertices to the next, and one on each cap, from the cap's
/// center: the caps turned the opposite way round. The last segment joins the
/// first.
pub proof fn cylinders_close(segs: int, i: int)
    requires
        0 <= i < segs,
    ensures
        ({
            let s = cylinder_triangles(segs);
            let j = (i + 1) % segs;
            let low = 6 * segs + 3 * i;
            let high = 9 * segs + 3 * i;
            &&& s.len() == 12 * segs
            &&& s[6 * i] == 2 * i && s[6 * i + 1] == 2 * j && s[6 * i + 2] == 2 * i + 1
            &&& s[6 * i + 3] == 2 * i + 1 && s[6 * i + 4] == 2 * j && s[6 * i + 5] == 2 * j + 1
            &&& s[low] == 2 * segs && s[low + 1] == 2 * segs + 1 + j && s[low + 2] == 2 * segs + 1
                + i
            &&& s[high] == 3 * segs + 1 && s[high + 1] == 3 * segs + 2 + i && s[high + 2] == 3
                * segs + 2 + j
        }),
{
    let n = segs as nat;
    sides_at(segs, n, i);
    cap_len(2 * segs, segs, true, n);
    cap_len(3 * segs + 1, segs, false, n);
    cap_at(2 * segs, segs, true, n, i);
    cap_at(3 * segs + 1, segs, false, n, i);
}

proof fn slope_len(segs: int, n: nat)
    ensures
        slope_triangles(segs, n).len() == 3 * n,
    decreases n,
{
    if n > 0 {
        slope_len(segs, (n - 1) as nat);
    }
}

proof fn slope_at(segs: int, n: nat, i: int)
    requires
        0 <= i < n <= segs,
    ensures
        ({
            let s = slope_triangles(segs, n);
            s[3 * i] == 2 * i && s[3 * i + 1] == 2 * ((i + 1) % segs) && s[3 * i + 2] == 2 * i + 1
        }),
    decreases n,
{
    slope_len(segs, (n - 1) as nat);
    assert((i + 1) % segs == if i + 1 == segs {
        0
    } else {
        i + 1
    }) by {
        if i + 1 < segs {
            vstd::arithmetic::div_mod::lemma_small_mod((i + 1) as nat, segs as nat);
        } else {
            vstd::arithmetic::div_mod::lemma_mod_self_0(segs);
        }
    }
    if i < n - 1 {
        slope_at(segs, (n - 1) as nat, i);
    }
}

/// A cone has, for each segment of its ring, one triangle on its slope, up to
/// the segment's own tip, and one on its base.
pub proof fn cones_close(segs: int, i: int)
    requires
        0 <= i < segs,
    ensures
        ({
            let s = cone_triangles(segs);
            let j = (i + 1) % segs;
            let low = 3 * segs + 3 * i;
            &&& s.len() == 6 * segs
            &&& s[3 * i] == 2 * i && s[3 * i + 1] == 2 * j && s[3 * i + 2] == 2 * i + 1
            &&& s[low] == 2 * segs && s[low + 1] == 2 * segs + 1 + j && s[low + 2] == 2 * segs + 1
                + i
        }),
{
    let n = segs as nat;
    slope_len(segs, n);
    slope_at(segs, n, i);
    cap_len(2 * segs, segs, true, n);
    cap_at(2 * segs, segs, true, n, i);
}

proof fn band_len(segs: int, r: int, n: nat)
    ensures
        band_triangles(segs, r, n).len() == 6 * n,
    decreases n,
{
    if n > 0 {
        band_len(segs, r, (n - 1) as nat);
    }
}

proof fn band_at(segs: int, r: int, n: nat, i: int)
    requires
        0 <= i < n,
    ensures
        ({
            let s = band_triangles(segs, r, n);
            let here = r * (segs + 1) + i;
            let below = here + segs + 1;
            &&& s[6 * i] == here && s[6 * i + 1] == below && s[6 * i + 2] == here + 1
            &&& s[6 * i + 3] == here + 1 && s[6 * i + 4] == below && s[6 * i + 5] == below + 1
        }),
    decreases n,
{
    band_len(segs, r, (n - 1) as nat);
    if i < n - 1 {
        band_at(segs, r, (n - 1) as nat, i);
    }
}

proof fn sphere_len(segs: int, m: nat)
    requires
        segs >= 0,
    ensures
        sphere_triangles(segs, m).len() == 6 * (segs * m),
    decreases m,
{
    if m > 0 {
        sphere_len(segs, (m - 1) as nat);
        band_len(segs, m - 1, segs as nat);
        assert(segs * m == segs * (m - 1) + segs) by (nonlinear_arith);
    } else {
        assert(segs * m == 0) by (nonlinear_arith)
            requires
                m == 0,
        ;
    }
}

/// A sphere has, for each segment of each ring, two triangles down to the next
/// ring.
pub proof fn spheres_close(segs: int, m: nat, r: int, i: int)
    requires
        0 <= r < m,
        0 <= i < segs,
    ensures
        ({
            let s = sphere_triangles(segs, m);
            let at = 6 * (segs * r) + 6 * i;
            let here = r * (segs + 1) + i;
            let below = here + segs + 1;
            &&& s.len() == 6 * (segs * m)
            &&& 0 <= at && at + 5 < s.len()
            &&& s[at] == here && s[at + 1] == below && s[at + 2] == here + 1
            &&& s[at + 3] == here + 1 && s[at + 4] == below && s[at + 5] == below + 1
        }),
    decreases m,
{
    sphere_len(segs, m);
    sphere_len(segs, (m - 1) as nat);
    sphere_len(segs, r as nat);
    band_len(segs, m - 1, segs as nat);
    assert(segs * m == segs * (m - 1) + segs) by (nonlinear_arith);
    if r < m - 1 {
        spheres_close(segs, (m - 1) as nat, r, i);
    } else {
        band_at(segs, r, segs as nat, i);
    }
}

/// How many of the first `n` triangles have all their corners.
pub open spec fn whole_below(indices: Seq<u32>, corners: nat, n: nat) -> nat
    decreases n,
{
    if n == 0 {
        0
    } else {
        whole_below(indices, corners, (n - 1) as nat) + if indices[3 * n - 3] < corners
            && indices[3 * n - 2] < corners && indices[3 * n - 1] < corners {
            1nat
        } else {
            0nat
        }
    }
}

proof fn whole_below_grows(indices: Seq<u32>, corners: nat, m: nat, n: nat)
    requires
        m <= n,
    ensures
        whole_below(indices, corners, m) <= whole_below(indices, corners, n),
    decreases n,
{
    if m < n {
        whole_below_grows(indices, corners, m, (n - 1) as nat);
    }
}

proof fn as_many_whole(indices: Seq<u32>, corners: nat, n: nat)
    ensures
        drawable(indices, corners, n).len() == whole_below(indices, corners, n),
    decreases n,
{
    if n > 0 {
        as_many_whole(indices, corners, (n - 1) as nat);
    }
}

/// Every triangle with all its corners is drawn, in its order and turned as it
/// is; one that lacks a corner is not.
pub proof fn whole_triangles_are_drawn(indices: Seq<u32>, corners: nat, n: nat, k: int)
    requires
        0 <= k < n,
    ensures
        drawable(indices, corners, n).len() == whole_below(indices, corners, n),
        indices[3 * k] < corners && indices[3 * k + 1] < corners && indices[3 * k + 2] < corners
            ==> {
            let at = whole_below(indices, corners, k as nat) as int;
            &&& at < drawable(indices, corners, n).len()
            &&& drawable(indices, corners, n)[at] == (
                indices[3 * k],
                indices[3 * k + 1],
                indices[3 * k + 2],
            )
        },
    decreases n,
{
    as_many_whole(indices, corners, n);
    as_many_whole(indices, corners, (n - 1) as nat);
    if k < n - 1 {
        whole_triangles_are_drawn(indices, corners, (n - 1) as nat, k);
        whole_below_grows(indices, corners, k as nat + 1, (n - 1) as nat);
    }
}

/// Each draw steps the state on by the odd number nearest to the golden ratio's
/// part of a word, and mixes it in three shifts and two products.
pub proof fn draws_step_and_mix(state: u64)
    ensures
        drawn_state(state) == (state + 0x9E37_79B9_7F4A_7C15) % 0x1_0000_0000_0000_0000,
        ({
            let a = drawn_state(state);
            let b = ((a ^ (a >> 30u64)) * 0xBF58_476D_1CE4_E5B9 % 0x1_0000_0000_0000_0000) as u64;
            let c = ((b ^ (b >> 27u64)) * 0x94D0_49BB_1331_11EB % 0x1_0000_0000_0000_0000) as u64;
            drawn_number(state) == c ^ (c >> 31u64)
        }),
{
}

} // verus!
