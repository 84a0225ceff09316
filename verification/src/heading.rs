use vstd::prelude::*;

verus! {

/// The four cardinal headings a particle can travel in.
///
/// A particle never stores its heading: the heading is recomputed from the
/// particle's collision count, which cycles through the four phases below,
/// so direction changes are edge-triggered by collisions, never by time.
#[derive(Clone, Copy, Debug, PartialEq, Eq, Structural)]
pub enum Heading {
    West,
    North,
    East,
    South,
}

/// Phase table of the direction state machine: a collision count `c` selects
/// a heading through `c % 4`, West first, then North, East, South.
pub open spec fn heading_of_count(c: nat) -> Heading {
    if c % 4 == 0 {
        Heading::West
    } else if c % 4 == 1 {
        Heading::North
    } else if c % 4 == 2 {
        Heading::East
    } else {
        Heading::South
    }
}

/// Executable phase table; returns exactly the heading the spec-level table
/// assigns to this collision count.
pub fn heading_for_count(c: u64) -> (h: Heading)
    ensures
        h == heading_of_count(c as nat),
{
    let phase = c % 4;
    if phase == 0 {
        Heading::West
    } else if phase == 1 {
        Heading::North
    } else if phase == 2 {
        Heading::East
    } else {
        Heading::South
    }
}

/// The heading is fully determined by the collision count's phase: any two
/// counts that agree modulo four give the same heading. In particular,
/// recomputing the heading without a new collision never changes it.
pub proof fn lemma_heading_determined_by_phase(c1: nat, c2: nat)
    requires
        c1 % 4 == c2 % 4,
    ensures
        heading_of_count(c1) == heading_of_count(c2),
{
}

/// The four phases in order: a fresh particle heads West, and each
/// heading-changing collision advances the heading one step in the cycle
/// West, North, East, South, West, ...
pub proof fn lemma_heading_phase_table(c: nat)
    ensures
        c % 4 == 0 ==> heading_of_count(c) == Heading::West,
        c % 4 == 1 ==> heading_of_count(c) == Heading::North,
        c % 4 == 2 ==> heading_of_count(c) == Heading::East,
        c % 4 == 3 ==> heading_of_count(c) == Heading::South,
        heading_of_count(c + 4) == heading_of_count(c),
{
}

} // verus!
