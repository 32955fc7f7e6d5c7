//! The wind overlay: a grid of sampled arrows, and streaks that drift with the
//! wind. The wind is sampled outside; which samples are taken, and what becomes
//! of the streaks, is decided here.
use crate::scalar::{Scalar, Vec3};
use std::collections::VecDeque;
use vstd::prelude::*;

verus! {

/// How many streaks there are.
pub const NUM_PARTICLES: usize = 200;

/// How many places of a streak are kept.
pub const TRAIL_LEN: usize = 16;

/// How old a streak may get, in seconds: six.
pub const MAX_AGE_BITS: u64 = 0x4018_0000_0000_0000;

/// What the generator's state grows by at each draw.
pub const DRAW_STEP: u64 = 0x9E37_79B9_7F4A_7C15;

/// The first mixing factor of a draw.
pub const FIRST_MIX: u64 = 0xBF58_476D_1CE4_E5B9;

/// The second mixing factor of a draw.
pub const SECOND_MIX: u64 = 0x94D0_49BB_1331_11EB;

/// The state after a draw.
pub open spec fn drawn_state(state: u64) -> u64 {
    ((state + DRAW_STEP) % 0x1_0000_0000_0000_0000) as u64
}

/// The product of two words, cut to a word.
pub open spec fn word_product(a: u64, b: u64) -> u64 {
    ((a * b) % 0x1_0000_0000_0000_0000) as u64
}

/// The number drawn from a state: the state after the draw, mixed three times.
pub open spec fn drawn_number(state: u64) -> u64 {
    let z0 = drawn_state(state);
    let z1 = word_product(z0 ^ (z0 >> 30), FIRST_MIX);
    let z2 = word_product(z1 ^ (z1 >> 27), SECOND_MIX);
    z2 ^ (z2 >> 31)
}

/// Draws a number. The numbers are for looks alone: where streaks begin.
pub fn next_u64(state: &mut u64) -> (r: u64)
    ensures
        *final(state) == drawn_state(*old(state)),
        r == drawn_number(*old(state)),
{
    *state = state.wrapping_add(DRAW_STEP);
    let z0: u64 = *state;
    let z1: u64 = (z0 ^ (z0 >> 30)).wrapping_mul(FIRST_MIX);
    let z2: u64 = (z1 ^ (z1 >> 27)).wrapping_mul(SECOND_MIX);
    z2 ^ (z2 >> 31)
}

/// Words that give the same product with a factor that has an inverse are the
/// same: `k` times `inv` is one more than `q` times the number of words.
proof fn product_tells_words_apart(a: u64, b: u64, k: u64, inv: int, q: int)
    requires
        k * inv == q * 0x1_0000_0000_0000_0000 + 1,
        word_product(a, k) == word_product(b, k),
    ensures
        a == b,
{
    unmixed(a, k, inv, q);
    unmixed(b, k, inv, q);
}

proof fn unmixed(a: u64, k: u64, inv: int, q: int)
    requires
        k * inv == q * 0x1_0000_0000_0000_0000 + 1,
    ensures
        (word_product(a, k) * inv) % 0x1_0000_0000_0000_0000 == a,
{
    let m: int = 0x1_0000_0000_0000_0000;
    vstd::arithmetic::div_mod::lemma_mul_mod_noop_left(a * k, inv, m);
    assert((a * k) * inv == a * (k * inv)) by (nonlinear_arith);
    assert(a * (q * m + 1) == m * (a * q) + a) by (nonlinear_arith);
    vstd::arithmetic::div_mod::lemma_mod_multiples_vanish(a * q, a as int, m);
    vstd::arithmetic::div_mod::lemma_small_mod(a as nat, m as nat);
}

/// Different states draw different numbers, and lead to different states.
pub proof fn draws_differ(a: u64, b: u64)
    requires
        a != b,
    ensures
        drawn_number(a) != drawn_number(b),
        drawn_state(a) != drawn_state(b),
{
    let (a0, b0) = (drawn_state(a), drawn_state(b));
    assert(a0 != b0);
    let (ax, bx) = (a0 ^ (a0 >> 30), b0 ^ (b0 >> 30));
    assert(ax != bx) by (bit_vector)
        requires
            a0 != b0,
            ax == a0 ^ (a0 >> 30),
            bx == b0 ^ (b0 >> 30),
    ;
    let (a1, b1) = (word_product(ax, FIRST_MIX), word_product(bx, FIRST_MIX));
    if a1 == b1 {
        // The factor's inverse among the words.
        product_tells_words_apart(ax, bx, FIRST_MIX, 0x96de_1b17_3f11_9089, 0x70c3_bca7_8f27_f46c);
    }
    let (ax1, bx1) = (a1 ^ (a1 >> 27), b1 ^ (b1 >> 27));
    assert(ax1 != bx1) by (bit_vector)
        requires
            a1 != b1,
            ax1 == a1 ^ (a1 >> 27),
            bx1 == b1 ^ (b1 >> 27),
    ;
    let (a2, b2) = (word_product(ax1, SECOND_MIX), word_product(bx1, SECOND_MIX));
    if a2 == b2 {
        product_tells_words_apart(ax1, bx1, SECOND_MIX, 0x3196_42b2_d24d_8ec3, 0x1cd3_36ed_a85f_1453);
    }
    assert(a2 ^ (a2 >> 31) != b2 ^ (b2 >> 31)) by (bit_vector)
        requires
            a2 != b2,
    ;
}

/// Draws a number below two to the fifty-third, which a double holds exactly.
pub fn next_53_bits(state: &mut u64) -> (r: u64)
    ensures
        *final(state) == drawn_state(*old(state)),
        r == drawn_number(*old(state)) >> 11,
        r < 0x20_0000_0000_0000,
{
    let z: u64 = next_u64(state);
    assert(z >> 11 < 0x20_0000_0000_0000) by (bit_vector);
    z >> 11
}

/// A particle that drifts with the wind.
pub struct Streak {
    pub pos: Vec3,
    /// Where it has been lately, the newest last.
    pub trail: VecDeque<Vec3>,
    pub age: Scalar,
}

/// The trail with a place more, the oldest dropped beyond its length.
pub open spec fn lengthened(trail: Seq<Vec3>, p: Vec3) -> Seq<Vec3> {
    let longer = trail.push(p);
    if longer.len() > TRAIL_LEN {
        longer.drop_first()
    } else {
        longer
    }
}

/// Where a streak drifts in a frame, how old it is then, and whether that is
/// within the box.
#[derive(Clone, Copy, Debug, PartialEq, Eq, Structural)]
pub struct Drift {
    pub pos: Vec3,
    pub age: Scalar,
    pub inside: bool,
}

impl Drift {
    /// The streak is to begin anew: it is too old, or out of the box.
    pub open spec fn leaves(self) -> bool {
        (Scalar { bits: MAX_AGE_BITS }).less(self.age) || !self.inside
    }
}

/// The streaks that are to begin anew, among the first `n`.
pub open spec fn leaving(drifts: Seq<Drift>, n: nat) -> Seq<usize>
    decreases n,
{
    if n == 0 {
        Seq::empty()
    } else if drifts[n - 1].leaves() {
        leaving(drifts, (n - 1) as nat).push((n - 1) as usize)
    } else {
        leaving(drifts, (n - 1) as nat)
    }
}

/// A streak that has just begun.
pub open spec fn fresh(s: Streak, pos: Vec3) -> bool {
    s.pos == pos && s.trail@.len() == 0 && s.age.bits == 0
}

/// The overlay.
pub struct WindViz {
    pub grid_enabled: bool,
    pub streaks_enabled: bool,
    pub box_center: Vec3,
    pub box_size: Vec3,
    pub grid_res: [usize; 3],
    pub particles: Vec<Streak>,
    /// The clock of the preview while no simulation runs.
    pub edit_clock: Scalar,
    pub rng: u64,
}

/// A cell of the arrow grid.
#[derive(Clone, Copy, Debug, PartialEq, Eq, Structural)]
pub struct Cell {
    pub x: usize,
    pub y: usize,
    pub z: usize,
}

/// The first `n` cells of a column of the grid.
pub open spec fn column_cells(x: int, y: int, n: nat) -> Seq<Cell> {
    Seq::new(n, |z: int| Cell { x: x as usize, y: y as usize, z: z as usize })
}

/// The cells of the first `n` columns of a slice.
pub open spec fn slice_cells(x: int, nz: nat, n: nat) -> Seq<Cell>
    decreases n,
{
    if n == 0 {
        Seq::empty()
    } else {
        slice_cells(x, nz, (n - 1) as nat) + column_cells(x, n - 1, nz)
    }
}

/// The cells of the first `n` slices of the grid.
pub open spec fn cells(ny: nat, nz: nat, n: nat) -> Seq<Cell>
    decreases n,
{
    if n == 0 {
        Seq::empty()
    } else {
        cells(ny, nz, (n - 1) as nat) + slice_cells(n - 1, nz, ny)
    }
}

impl WindViz {
    /// The overlay as it is at first: off, with a grid of eight by four by
    /// eight cells and streaks at the given places.
    pub fn new(box_center: Vec3, box_size: Vec3, places: &Vec<Vec3>, rng: u64) -> (r: Self)
        ensures
            !r.grid_enabled,
            !r.streaks_enabled,
            r.box_center == box_center,
            r.box_size == box_size,
            r.grid_res@ == seq![8usize, 4usize, 8usize],
            r.edit_clock.bits == 0,
            r.rng == rng,
            r.particles@.len() == places@.len(),
            forall|k: int|
                0 <= k < places@.len() ==> fresh(#[trigger] r.particles@[k], places@[k]),
    {
        let mut particles: Vec<Streak> = Vec::new();
        let mut k: usize = 0;
        while k < places.len()
            invariant
                k <= places@.len(),
                particles@.len() == k,
                forall|j: int| 0 <= j < k ==> fresh(#[trigger] particles@[j], places@[j]),
            decreases places@.len() - k,
        {
            particles.push(
                Streak { pos: places[k], trail: VecDeque::new(), age: Scalar::zero() },
            );
            k += 1;
        }
        WindViz {
            grid_enabled: false,
            streaks_enabled: false,
            box_center,
            box_size,
            grid_res: [8, 4, 8],
            particles,
            edit_clock: Scalar::zero(),
            rng,
        }
    }

    /// The time at which the wind is sampled: that of the simulation, or that
    /// of the preview's clock, which then has moved on to `clock`.
    pub fn sample_time(&mut self, sim_t: Option<Scalar>, clock: Scalar) -> (r: Scalar)
        ensures
            match sim_t {
                Some(t) => r == t && *final(self) == *old(self),
                None => r == clock && *final(self) == (WindViz {
                    edit_clock: clock,
                    ..*old(self)
                }),
            },
    {
        match sim_t {
            Some(t) => t,
            None => {
                self.edit_clock = clock;
                clock
            },
        }
    }

    /// Moves the streaks on, and tells which are to begin anew, in ascending
    /// order.
    pub fn advance(&mut self, drifts: &Vec<Drift>) -> (r: Vec<usize>)
        requires
            drifts@.len() == old(self).particles@.len(),
        ensures
            r@ == leaving(drifts@, drifts@.len()),
            final(self).particles@.len() == old(self).particles@.len(),
            forall|k: int|
                0 <= k < drifts@.len() ==> {
                    &&& (#[trigger] final(self).particles@[k]).pos == drifts@[k].pos
                    &&& final(self).particles@[k].age == drifts@[k].age
                    &&& final(self).particles@[k].trail@ == lengthened(
                        old(self).particles@[k].trail@,
                        drifts@[k].pos,
                    )
                },
            *final(self) == (WindViz { particles: final(self).particles, ..*old(self) }),
    {
        let ghost before = self.particles@;
        let mut streaks: Vec<Streak> = Vec::new();
        std::mem::swap(&mut streaks, &mut self.particles);
        let mut moved: Vec<Streak> = Vec::new();
        let mut gone: Vec<usize> = Vec::new();
        let limit: usize = drifts.len();
        let mut k: usize = 0;
        for s in it: streaks
            invariant
                limit == drifts@.len(),
                it.seq() == before,
                drifts@.len() == before.len(),
                k == it.index(),
                moved@.len() == k,
                gone@ == leaving(drifts@, k as nat),
                forall|j: int|
                    0 <= j < k ==> {
                        &&& (#[trigger] moved@[j]).pos == drifts@[j].pos
                        &&& moved@[j].age == drifts@[j].age
                        &&& moved@[j].trail@ == lengthened(before[j].trail@, drifts@[j].pos)
                    },
        {
            let d: Drift = drifts[k];
            let mut trail: VecDeque<Vec3> = s.trail;
            trail.push_back(d.pos);
            if trail.len() > TRAIL_LEN {
                let ghost longer = trail@;
                trail.pop_front();
                assert(trail@ =~= longer.drop_first());
            }
            moved.push(Streak { pos: d.pos, trail, age: d.age });
            if Scalar::new(MAX_AGE_BITS).lt(d.age) || !d.inside {
                gone.push(k);
            }
            k += 1;
        }
        self.particles = moved;
        gone
    }

    /// Lets streaks begin anew at the given places.
    pub fn respawn(&mut self, gone: &Vec<usize>, places: &Vec<Vec3>)
        requires
            gone@.len() == places@.len(),
            forall|k: int|
                0 <= k < gone@.len() ==> (#[trigger] gone@[k]) < old(self).particles@.len(),
            gone@.no_duplicates(),
        ensures
            final(self).particles@.len() == old(self).particles@.len(),
            forall|k: int|
                0 <= k < gone@.len() ==> fresh(
                    final(self).particles@[#[trigger] gone@[k] as int],
                    places@[k],
                ),
            forall|i: int|
                0 <= i < old(self).particles@.len() && !gone@.contains(i as usize)
                    ==> #[trigger] final(self).particles@[i] == old(self).particles@[i],
            *final(self) == (WindViz { particles: final(self).particles, ..*old(self) }),
    {
        let ghost before = *self;
        let limit: usize = self.particles.len();
        let mut k: usize = 0;
        while k < gone.len()
            invariant
                k <= gone@.len(),
                gone@.len() == places@.len(),
                limit == before.particles@.len(),
                gone@.no_duplicates(),
                forall|j: int|
                    0 <= j < gone@.len() ==> (#[trigger] gone@[j]) < before.particles@.len(),
                self.particles@.len() == before.particles@.len(),
                forall|j: int|
                    0 <= j < k ==> fresh(
                        self.particles@[#[trigger] gone@[j] as int],
                        places@[j],
                    ),
                forall|i: int|
                    0 <= i < limit && !gone@.contains(i as usize)
                        ==> #[trigger] self.particles@[i] == before.particles@[i],
                *self == (WindViz { particles: self.particles, ..before }),
            decreases gone@.len() - k,
        {
            let i: usize = gone[k];
            let ghost was = self.particles@;
            let s: Streak = Streak {
                pos: places[k],
                trail: VecDeque::new(),
                age: Scalar::zero(),
            };
            self.particles.set(i, s);
            proof {
                assert(gone@.contains(gone@[k as int]));
                assert forall|j: int| 0 <= j < k + 1 implies fresh(
                    self.particles@[#[trigger] gone@[j] as int],
                    places@[j],
                ) by {
                    if j < k {
                        assert(gone@[j] != gone@[k as int]);
                        assert(self.particles@[gone@[j] as int] == was[gone@[j] as int]);
                    }
                }
            }
            k += 1;
        }
    }

    /// The cells of which an arrow is drawn, slice by slice and column by
    /// column: none while the grid is off.
    #[verifier::loop_isolation(false)]
    pub fn grid_cells(&self) -> (r: Vec<Cell>)
        ensures
            r@ == if self.grid_enabled {
                cells(self.grid_res@[1] as nat, self.grid_res@[2] as nat, self.grid_res@[0] as nat)
            } else {
                Seq::empty()
            },
    {
        let mut out: Vec<Cell> = Vec::new();
        if !self.grid_enabled {
            return out;
        }
        let nx: usize = self.grid_res[0];
        let ny: usize = self.grid_res[1];
        let nz: usize = self.grid_res[2];
        let mut x: usize = 0;
        while x < nx
            invariant
                x <= nx,
                out@ == cells(ny as nat, nz as nat, x as nat),
            decreases nx - x,
        {
            let ghost slices = out@;
            assert(slices + slice_cells(x as int, nz as nat, 0) =~= slices);
            let mut y: usize = 0;
            while y < ny
                invariant
                    y <= ny,
                    out@ == slices + slice_cells(x as int, nz as nat, y as nat),
                decreases ny - y,
            {
                let ghost columns = out@;
                assert(columns + column_cells(x as int, y as int, 0) =~= columns);
                let mut z: usize = 0;
                while z < nz
                    invariant
                        z <= nz,
                        out@ == columns + column_cells(x as int, y as int, z as nat),
                    decreases nz - z,
                {
                    out.push(Cell { x, y, z });
                    assert(out@ =~= columns + column_cells(x as int, y as int, (z + 1) as nat));
                    z += 1;
                }
                assert(out@ =~= slices + slice_cells(x as int, nz as nat, (y + 1) as nat));
                y += 1;
            }
            x += 1;
        }
        out
    }
}

/// The streaks that begin anew are streaks, each named once, and they are
/// exactly those that leave.
pub proof fn leaving_names_each_once(drifts: Seq<Drift>, n: nat)
    requires
        n <= drifts.len() <= usize::MAX,
    ensures
        leaving(drifts, n).no_duplicates(),
        forall|k: int| 0 <= k < leaving(drifts, n).len() ==> (#[trigger] leaving(drifts, n)[k]) < n,
        forall|i: usize| i < n ==> (#[trigger] leaving(drifts, n).contains(i)
            <==> drifts[i as int].leaves()),
    decreases n,
{
    if n > 0 {
        leaving_names_each_once(drifts, (n - 1) as nat);
        let before = leaving(drifts, (n - 1) as nat);
        let now = leaving(drifts, n);
        assert forall|i: usize| i < n implies (#[trigger] now.contains(i)
            <==> drifts[i as int].leaves()) by {
            if i < n - 1 {
                if before.contains(i) {
                    let k = choose|k: int| 0 <= k < before.len() && before[k] == i;
                    assert(now[k] == i);
                }
                if now.contains(i) {
                    let k = choose|k: int| 0 <= k < now.len() && now[k] == i;
                    assert(k < before.len());
                    assert(before[k] == i);
                }
            } else {
                if drifts[n - 1].leaves() {
                    assert(now[before.len() as int] == i);
                }
                if now.contains(i) && !drifts[n - 1].leaves() {
                    let k = choose|k: int| 0 <= k < now.len() && now[k] == i;
                    assert(before[k] < n - 1);
                }
            }
        }
    }
}

/// A trail never gets longer than its length, and its newest place is the
/// streak's.
pub proof fn trail_stays_short(trail: Seq<Vec3>, p: Vec3)
    requires
        trail.len() <= TRAIL_LEN,
    ensures
        lengthened(trail, p).len() <= TRAIL_LEN,
        lengthened(trail, p).last() == p,
{
}

} // verus!
