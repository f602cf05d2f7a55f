//! The eight straight-line directions a word can run in.

use crate::sample::random_below;
use vstd::prelude::*;

verus! {

/// The direction a word is placed in inside the word search grid.
#[derive(Clone, Copy, Debug, PartialEq, Eq, Structural)]
pub enum WordDirection {
    /// The word goes up from the start position.
    Up,
    /// The word goes down from the start position.
    Down,
    /// The word goes left from the start position.
    Left,
    /// The word goes right from the start position.
    Right,
    /// The word goes diagonally up and left from the start position.
    DiagonalUpLeft,
    /// The word goes diagonally up and right from the start position.
    DiagonalUpRight,
    /// The word goes diagonally down and left from the start position.
    DiagonalDownLeft,
    /// The word goes diagonally down and right from the start position.
    DiagonalDownRight,
}

impl WordDirection {
    /// The unit step of the direction: what one letter adds to the first and
    /// to the second component of a coordinate.
    pub open spec fn step(self) -> (int, int) {
        match self {
            WordDirection::Up => (0, 1),
            WordDirection::Down => (0, -1),
            WordDirection::Left => (-1, 0),
            WordDirection::Right => (1, 0),
            WordDirection::DiagonalUpLeft => (-1, 1),
            WordDirection::DiagonalUpRight => (1, 1),
            WordDirection::DiagonalDownLeft => (-1, -1),
            WordDirection::DiagonalDownRight => (1, -1),
        }
    }

    /// The step taken `k` times over.
    pub open spec fn scaled(self, k: int) -> (int, int) {
        match self {
            WordDirection::Up => (0, k),
            WordDirection::Down => (0, -k),
            WordDirection::Left => (-k, 0),
            WordDirection::Right => (k, 0),
            WordDirection::DiagonalUpLeft => (-k, k),
            WordDirection::DiagonalUpRight => (k, k),
            WordDirection::DiagonalDownLeft => (-k, -k),
            WordDirection::DiagonalDownRight => (k, -k),
        }
    }

    /// Whether the direction is one of the four forward-facing ones.
    pub open spec fn is_forward(self) -> bool {
        self == WordDirection::Down || self == WordDirection::Right
            || self == WordDirection::DiagonalUpRight || self == WordDirection::DiagonalDownRight
    }

    /// The direction listed at position `n` among all eight.
    pub open spec fn nth(n: int) -> WordDirection {
        if n == 0 {
            WordDirection::Up
        } else if n == 1 {
            WordDirection::Down
        } else if n == 2 {
            WordDirection::Left
        } else if n == 3 {
            WordDirection::Right
        } else if n == 4 {
            WordDirection::DiagonalUpLeft
        } else if n == 5 {
            WordDirection::DiagonalUpRight
        } else if n == 6 {
            WordDirection::DiagonalDownLeft
        } else {
            WordDirection::DiagonalDownRight
        }
    }

    /// The direction listed at position `n` among the four forward-facing ones.
    pub open spec fn nth_forward(n: int) -> WordDirection {
        if n == 0 {
            WordDirection::Down
        } else if n == 1 {
            WordDirection::Right
        } else if n == 2 {
            WordDirection::DiagonalUpRight
        } else {
            WordDirection::DiagonalDownRight
        }
    }

    /// Picks the direction for a draw `n` out of eight.
    pub fn from_index(n: usize) -> (d: WordDirection)
        requires
            n < 8,
        ensures
            d == Self::nth(n as int),
    {
        match n {
            0 => WordDirection::Up,
            1 => WordDirection::Down,
            2 => WordDirection::Left,
            3 => WordDirection::Right,
            4 => WordDirection::DiagonalUpLeft,
            5 => WordDirection::DiagonalUpRight,
            6 => WordDirection::DiagonalDownLeft,
            _ => WordDirection::DiagonalDownRight,
        }
    }

    /// Picks the forward-facing direction for a draw `n` out of four.
    pub fn forward_from_index(n: usize) -> (d: WordDirection)
        requires
            n < 4,
        ensures
            d == Self::nth_forward(n as int),
            d.is_forward(),
    {
        match n {
            0 => WordDirection::Down,
            1 => WordDirection::Right,
            2 => WordDirection::DiagonalUpRight,
            _ => WordDirection::DiagonalDownRight,
        }
    }

    /// Returns a random word direction, each of the eight being possible.
    pub fn random() -> (d: WordDirection)
        ensures
            exists|n: int| 0 <= n < 8 && d == Self::nth(n),
    {
        let n: usize = random_below(8);
        Self::from_index(n)
    }

    /// Returns a random forward-facing direction: down, right, diagonally up
    /// and right, or diagonally down and right.
    pub fn random_forward() -> (d: WordDirection)
        ensures
            d.is_forward(),
    {
        let n: usize = random_below(4);
        Self::forward_from_index(n)
    }

    /// Tells whether the direction is forward-facing.
    pub fn faces_forward(&self) -> (b: bool)
        ensures
            b == self.is_forward(),
    {
        match self {
            WordDirection::Down => true,
            WordDirection::Right => true,
            WordDirection::DiagonalUpRight => true,
            WordDirection::DiagonalDownRight => true,
            _ => false,
        }
    }
}

/// No two directions share a step, and every step is a non-zero unit vector.
pub proof fn lemma_steps_distinct(a: WordDirection, b: WordDirection)
    ensures
        a.step() == b.step() ==> a == b,
        a.step() != (0int, 0int),
        -1 <= a.step().0 <= 1,
        -1 <= a.step().1 <= 1,
{
}

/// Taking the step `k` times multiplies each of its components by `k`.
pub proof fn lemma_scaled_is_multiple(d: WordDirection, k: int)
    ensures
        d.scaled(k) == (k * d.step().0, k * d.step().1),
        d.scaled(1) == d.step(),
{
    let s = d.step();
    assert(k * s.0 == (if s.0 == 0 { 0 } else if s.0 == 1 { k } else { -k })) by (nonlinear_arith)
        requires
            -1 <= s.0 <= 1,
    ;
    assert(k * s.1 == (if s.1 == 0 { 0 } else if s.1 == 1 { k } else { -k })) by (nonlinear_arith)
        requires
            -1 <= s.1 <= 1,
    ;
}

/// The forward-facing directions are exactly the four that a draw out of
/// four can give, and every direction is one that a draw out of eight gives.
pub proof fn lemma_forward_partition(d: WordDirection)
    ensures
        d.is_forward() <==> exists|n: int| 0 <= n < 4 && d == WordDirection::nth_forward(n),
        exists|n: int| 0 <= n < 8 && d == WordDirection::nth(n),
{
    if d.is_forward() {
        let n: int = if d == WordDirection::Down {
            0
        } else if d == WordDirection::Right {
            1
        } else if d == WordDirection::DiagonalUpRight {
            2
        } else {
            3
        };
        assert(d == WordDirection::nth_forward(n));
    }
    let m: int = match d {
        WordDirection::Up => 0,
        WordDirection::Down => 1,
        WordDirection::Left => 2,
        WordDirection::Right => 3,
        WordDirection::DiagonalUpLeft => 4,
        WordDirection::DiagonalUpRight => 5,
        WordDirection::DiagonalDownLeft => 6,
        WordDirection::DiagonalDownRight => 7,
    };
    assert(d == WordDirection::nth(m));
}

} // verus!
