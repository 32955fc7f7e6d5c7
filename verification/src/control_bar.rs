//! The coupling of a rigid control bar to the particles at its tips.
//!
//! The bar itself is simulated elsewhere. Before a substep the states of its
//! tips are written into two anchor particles; after it, the lines that end at
//! an anchor pull on the bar's tip.
use crate::constraints::UnilateralDistanceConstraint;
use crate::scalar::Vec3;
use crate::state::{acted, Act};
use crate::world::World;
use vstd::prelude::*;

verus! {

/// The anchor particles of a rigid control bar.
#[derive(Clone, Copy, Debug, PartialEq, Eq, Structural)]
pub struct ControlBar {
    /// Anchor particle driven by the -X bar tip.
    pub left_anchor: usize,
    /// Anchor particle driven by the +X bar tip.
    pub right_anchor: usize,
}

/// Position and velocity of a bar tip.
#[derive(Clone, Copy, Debug, PartialEq, Eq, Structural)]
pub struct TipState {
    pub pos: Vec3,
    pub vel: Vec3,
}

/// A line that pulls on a bar tip.
#[derive(Clone, Copy, Debug, PartialEq, Eq, Structural)]
pub struct LinePull {
    /// Whether it pulls on the left tip.
    pub left: bool,
    /// The line's index among the unilateral constraints.
    pub line: usize,
    /// The anchor particle.
    pub this: usize,
    /// The particle at the line's other end.
    pub other: usize,
}

/// How a line pulls on an anchor, if it ends there: its first end counts
/// first.
pub open spec fn pull_on(
    c: UnilateralDistanceConstraint,
    line: usize,
    anchor: usize,
    left: bool,
) -> Seq<LinePull> {
    if c.p1 == anchor {
        seq![LinePull { left, line, this: c.p1, other: c.p2 }]
    } else if c.p2 == anchor {
        seq![LinePull { left, line, this: c.p2, other: c.p1 }]
    } else {
        Seq::empty()
    }
}

/// The pulls of the first `n` lines, line by line, the left tip first.
pub open spec fn pulls(
    bar: ControlBar,
    lines: Seq<UnilateralDistanceConstraint>,
    n: nat,
) -> Seq<LinePull>
    decreases n,
{
    if n == 0 {
        Seq::empty()
    } else {
        let i = (n - 1) as int;
        pulls(bar, lines, (n - 1) as nat) + pull_on(lines[i], i as usize, bar.left_anchor, true)
            + pull_on(lines[i], i as usize, bar.right_anchor, false)
    }
}

impl ControlBar {
    pub fn new(left_anchor: usize, right_anchor: usize) -> (r: Self)
        ensures
            r == (ControlBar { left_anchor, right_anchor }),
    {
        ControlBar { left_anchor, right_anchor }
    }

    /// Writes the tip states into the anchor particles, the left one first.
    pub fn sync_anchors_to_world(&self, world: &mut World, left: TipState, right: TipState)
        requires
            old(world).wf(),
            self.left_anchor < old(world).particles.count(),
            self.right_anchor < old(world).particles.count(),
        ensures
            final(world).wf(),
            final(world)@ == acted(old(world)@, Act::SyncAnchors { bar: *self, left, right }),
            final(world).particles.pos@ == old(world).particles.pos@.update(
                self.left_anchor as int,
                left.pos,
            ).update(self.right_anchor as int, right.pos),
            final(world).particles.prev_pos@ == old(world).particles.prev_pos@.update(
                self.left_anchor as int,
                left.pos,
            ).update(self.right_anchor as int, right.pos),
            final(world).particles.pred_pos@ == old(world).particles.pred_pos@.update(
                self.left_anchor as int,
                left.pos,
            ).update(self.right_anchor as int, right.pos),
            final(world).particles.vel@ == old(world).particles.vel@.update(
                self.left_anchor as int,
                left.vel,
            ).update(self.right_anchor as int, right.vel),
            final(world).particles.inv_mass == old(world).particles.inv_mass,
            final(world).orientations == old(world).orientations,
            final(world).forces == old(world).forces,
            final(world).torques == old(world).torques,
            final(world).same_constraints(*old(world)),
            final(world).same_surroundings(*old(world)),
    {
        world.particles.place(self.left_anchor, left.pos, left.vel);
        world.particles.place(self.right_anchor, right.pos, right.vel);
    }

    /// The lines that pull on the bar's tips: every line end at an anchor.
    pub fn line_pulls(&self, lines: &Vec<UnilateralDistanceConstraint>) -> (r: Vec<LinePull>)
        ensures
            r@ == pulls(*self, lines@, lines@.len()),
    {
        let mut out: Vec<LinePull> = Vec::new();
        let mut i: usize = 0;
        while i < lines.len()
            invariant
                i <= lines@.len(),
                out@ == pulls(*self, lines@, i as nat),
            decreases lines@.len() - i,
        {
            let c: UnilateralDistanceConstraint = lines[i];
            let ghost before = out@;
            if c.p1 == self.left_anchor {
                out.push(LinePull { left: true, line: i, this: c.p1, other: c.p2 });
            } else if c.p2 == self.left_anchor {
                out.push(LinePull { left: true, line: i, this: c.p2, other: c.p1 });
            }
            assert(out@ =~= before + pull_on(c, i, self.left_anchor, true));
            let ghost mid = out@;
            if c.p1 == self.right_anchor {
                out.push(LinePull { left: false, line: i, this: c.p1, other: c.p2 });
            } else if c.p2 == self.right_anchor {
                out.push(LinePull { left: false, line: i, this: c.p2, other: c.p1 });
            }
            assert(out@ =~= mid + pull_on(c, i, self.right_anchor, false));
            i += 1;
        }
        out
    }
}

} // verus!
