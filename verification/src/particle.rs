use vstd::prelude::*;

use crate::damping::{attenuate_speed, attenuated};
use crate::heading::{heading_for_count, heading_of_count, Heading};

verus! {

/// A mobile charge carrier travelling around the circuit loop.
///
/// Positions are in thousandths of a world unit. The heading is not stored:
/// it is a function of the collision count (see [`crate::heading`]), and the
/// damping factor is a function of the visited-resistor set: after `k`
/// distinct resistors it is exactly `(4/5)^k` (see [`crate::damping`]).
pub struct Particle {
    /// entity handle of this particle in the simulation world
    pub id: u64,
    /// horizontal position, in thousandths of a world unit
    pub x: i64,
    /// vertical position, in thousandths of a world unit
    pub y: i64,
    /// number of heading-changing collisions so far
    pub collisions: u64,
    /// identifiers of the resistors whose attenuation has been applied
    pub visited: Vec<u32>,
}

impl Particle {
    /// Each resistor's damping effect is applied to a particle at most once,
    /// so the visited-resistor list never holds an identifier twice.
    pub open spec fn wf(self) -> bool {
        forall|i: int, j: int|
            0 <= i < j < self.visited@.len() ==> self.visited@[i] != self.visited@[j]
    }

    /// Number of distinct resistors that have attenuated this particle; the
    /// damping factor is `(4/5)` to this power.
    pub open spec fn damping_exponent(self) -> nat {
        self.visited@.len()
    }

    /// The heading the direction state machine currently assigns.
    pub open spec fn heading_spec(self) -> Heading {
        heading_of_count(self.collisions as nat)
    }

    /// Current heading, recomputed from the collision count.
    pub fn heading(&self) -> (h: Heading)
        ensures
            h == self.heading_spec(),
    {
        heading_for_count(self.collisions)
    }

    /// Damping exponent: how many distinct resistors have slowed this
    /// particle.
    pub fn damping_steps(&self) -> (k: usize)
        ensures
            k == self.damping_exponent(),
    {
        self.visited.len()
    }

    /// Whether the given resistor has already attenuated this particle.
    pub fn has_visited(&self, rid: u32) -> (b: bool)
        ensures
            b == self.visited@.contains(rid),
    {
        let n = self.visited.len();
        let mut i: usize = 0;
        while i < n
            invariant
                i <= n == self.visited@.len(),
                forall|j: int| 0 <= j < i ==> self.visited@[j] != rid,
            decreases n - i,
        {
            if self.visited[i] == rid {
                return true;
            }
            i = i + 1;
        }
        false
    }

    /// Horizontal position after one tick of base step `step` with the
    /// switch on.
    pub open spec fn moved_x(self, step: nat) -> int {
        let d = attenuated(step, self.damping_exponent()) as int;
        match self.heading_spec() {
            Heading::West => self.x - d,
            Heading::East => self.x + d,
            Heading::North => self.x as int,
            Heading::South => self.x as int,
        }
    }

    /// Vertical position after one tick of base step `step` with the switch
    /// on.
    pub open spec fn moved_y(self, step: nat) -> int {
        let d = attenuated(step, self.damping_exponent()) as int;
        match self.heading_spec() {
            Heading::North => self.y + d,
            Heading::South => self.y - d,
            Heading::West => self.y as int,
            Heading::East => self.y as int,
        }
    }

    /// How one tick of motion changes a particle: only the position moves,
    /// by the damped step along the current heading — and not at all while
    /// the switch is off.
    pub open spec fn move_step(self, step: nat, on: bool, post: Particle) -> bool {
        &&& post.id == self.id
        &&& post.collisions == self.collisions
        &&& post.visited == self.visited
        &&& if on {
            post.x == self.moved_x(step) && post.y == self.moved_y(step)
        } else {
            post.x == self.x && post.y == self.y
        }
    }

    /// Move this particle for one tick. `step` is the distance a fresh,
    /// undamped particle covers in the tick, in thousandths of a world unit;
    /// the effective distance is `step` scaled down by the damping factor.
    /// With the switch off all translation is suppressed and the position is
    /// unchanged, whatever the heading and damping.
    pub fn advance(&mut self, step: u64, on: bool)
        requires
            step <= u64::MAX / 4,
            old(self).x - step >= i64::MIN,
            old(self).x + step <= i64::MAX,
            old(self).y - step >= i64::MIN,
            old(self).y + step <= i64::MAX,
        ensures
            old(self).move_step(step as nat, on, *final(self)),
    {
        if !on {
            return ;
        }
        let d = attenuate_speed(step, self.visited.len());
        let dd = d as i64;
        match self.heading() {
            Heading::West => {
                self.x = self.x - dd;
            },
            Heading::North => {
                self.y = self.y + dd;
            },
            Heading::East => {
                self.x = self.x + dd;
            },
            Heading::South => {
                self.y = self.y - dd;
            },
        }
    }
}

/// When the switch is off, a particle's screen position does not change
/// frame-over-frame, regardless of its (non-zero) heading and damping.
pub proof fn lemma_switch_off_freezes_motion(pre: Particle, step: nat, post: Particle)
    requires
        pre.move_step(step, false, post),
    ensures
        post.x == pre.x,
        post.y == pre.y,
{
}

} // verus!
