//! The decisions of zooming: which way a zoom goes, when an input breaks a
//! zoom, and when an input is too old to count.

use vstd::prelude::*;

verus! {

/// Time window for active zoom events, in milliseconds
///
/// This is the time window during which a zoom input event still has an
/// effect on target zoom speed.
pub const INPUT_WINDOW_MILLIS: u64 = 500;

/// Time window in which opposite movement is interpreted as breaking, in
/// milliseconds
///
/// Defines the time window after a movement ends, during which an input
/// opposite to the movement is interpreted as breaking, not as a new
/// movement.
pub const BREAK_WINDOW_MILLIS: u64 = 50;

/// The direction of a zoom.
#[derive(Clone, Copy, Debug, PartialEq, Eq, Structural, Hash)]
pub enum Direction {
    /// Zooming in
    Pos,
    /// Zooming out
    Neg,
    /// At rest
    Neutral,
}

impl Direction {
    pub open spec fn spec_is_opposite(self, other: Direction) -> bool {
        (self == Direction::Pos && other == Direction::Neg) || (self == Direction::Neg && other
            == Direction::Pos)
    }

    pub open spec fn of_sign(sign: int) -> Direction {
        if sign > 0 {
            Direction::Pos
        } else if sign < 0 {
            Direction::Neg
        } else {
            Direction::Neutral
        }
    }

    /// Whether one direction is positive and the other negative.
    pub fn is_opposite(&self, other: &Direction) -> (b: bool)
        ensures
            b == self.spec_is_opposite(*other),
    {
        match (self, other) {
            (Direction::Pos, Direction::Neg) => true,
            (Direction::Neg, Direction::Pos) => true,
            _ => false,
        }
    }

    /// The direction of a speed, by its sign.
    pub fn from_sign(sign: i8) -> (d: Direction)
        ensures
            d == Self::of_sign(sign as int),
    {
        if sign > 0 {
            return Direction::Pos;
        }
        if sign < 0 {
            return Direction::Neg;
        }
        Direction::Neutral
    }
}

/// Whether a zoom input breaks the zoom: it goes against the last
/// direction, while the zoom is still moving or came to rest less than the
/// break window ago.
pub open spec fn spec_breaks_zoom(last: Direction, input: Direction, idle_millis: Option<u64>) -> bool {
    last.spec_is_opposite(input) && match idle_millis {
        Some(idle) => idle < BREAK_WINDOW_MILLIS,
        None => true,
    }
}

/// Decide whether a zoom input breaks the zoom that is under way.
///
/// `idle_millis` is how long the zoom has been at rest, and `None` while
/// it moves.
pub fn breaks_zoom(last: Direction, input: Direction, idle_millis: Option<u64>) -> (b: bool)
    ensures
        b == spec_breaks_zoom(last, input, idle_millis),
{
    let can_break = match idle_millis {
        Some(idle) => idle < BREAK_WINDOW_MILLIS,
        None => true,
    };
    last.is_opposite(&input) && can_break
}

/// Decide whether a zoom event of the given age has fallen out of the
/// input window.
pub fn is_outdated(age_millis: u64) -> (b: bool)
    ensures
        b == (age_millis > INPUT_WINDOW_MILLIS),
{
    age_millis > INPUT_WINDOW_MILLIS
}

/// How many of the events, given by their ages with the oldest first, are
/// discarded: the leading ones that have fallen out of the input window.
pub open spec fn outdated_prefix(ages: Seq<u64>) -> nat
    decreases ages.len(),
{
    if ages.len() == 0 || ages[0] <= INPUT_WINDOW_MILLIS {
        0
    } else {
        1 + outdated_prefix(ages.drop_first())
    }
}

/// Count the events to discard from the front of the queue.
pub fn count_outdated(ages: &Vec<u64>) -> (n: usize)
    ensures
        n == outdated_prefix(ages@),
        n <= ages@.len(),
{
    let mut n: usize = 0;
    proof {
        assert(ages@.subrange(0, ages@.len() as int) =~= ages@);
    }
    while n < ages.len() && is_outdated(ages[n])
        invariant
            n <= ages.len(),
            outdated_prefix(ages@) == n + outdated_prefix(ages@.subrange(n as int, ages@.len() as int)),
        decreases ages.len() - n,
    {
        proof {
            let rest = ages@.subrange(n as int, ages@.len() as int);
            assert(rest[0] == ages@[n as int]);
            assert(rest.drop_first() =~= ages@.subrange(n + 1, ages@.len() as int));
        }
        n += 1;
    }
    proof {
        let rest = ages@.subrange(n as int, ages@.len() as int);
        if n < ages.len() {
            assert(rest[0] == ages@[n as int]);
        }
        assert(ages@.subrange(0, ages@.len() as int) =~= ages@);
    }
    n
}

} // verus!
