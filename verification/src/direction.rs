//! Compass directions on the grid.

use vstd::prelude::*;

verus! {

/// One of the four grid directions. North is towards smaller `y`.
#[derive(Clone, Copy, Debug, PartialEq, Eq, Structural, Hash)]
pub enum Direction {
    North,
    East,
    South,
    West,
}

impl Direction {
    /// The cell next to `(x, y)` in this direction, over the unbounded grid.
    pub open spec fn spec_from(self, x: int, y: int) -> (int, int) {
        match self {
            Direction::North => (x, y - 1),
            Direction::West => (x - 1, y),
            Direction::South => (x, y + 1),
            Direction::East => (x + 1, y),
        }
    }

    /// Whether the cell next to `(x, y)` in this direction has `i32` coordinates.
    pub open spec fn in_range(self, x: int, y: int) -> bool {
        let (nx, ny) = self.spec_from(x, y);
        i32::MIN <= nx <= i32::MAX && i32::MIN <= ny <= i32::MAX
    }

    /// The opposite direction.
    pub open spec fn spec_reverse(&self) -> Direction {
        match *self {
            Direction::North => Direction::South,
            Direction::West => Direction::East,
            Direction::East => Direction::West,
            Direction::South => Direction::North,
        }
    }

    /// The cell next to `(x, y)` in this direction.
    pub fn from(&self, x: i32, y: i32) -> (cell: (i32, i32))
        requires
            self.in_range(x as int, y as int),
        ensures
            (cell.0 as int, cell.1 as int) == self.spec_from(x as int, y as int),
    {
        match self {
            Direction::North => (x, y - 1),
            Direction::West => (x - 1, y),
            Direction::South => (x, y + 1),
            Direction::East => (x + 1, y),
        }
    }

    /// The cell next to `(x, y)` in this direction, or `None` where that cell
    /// has no `i32` coordinates.
    pub fn checked_from(&self, x: i32, y: i32) -> (cell: Option<(i32, i32)>)
        ensures
            match cell {
                Some((nx, ny)) => self.in_range(x as int, y as int) && (nx as int, ny as int)
                    == self.spec_from(x as int, y as int),
                None => !self.in_range(x as int, y as int),
            },
    {
        let fits = match self {
            Direction::North => y > i32::MIN,
            Direction::West => x > i32::MIN,
            Direction::South => y < i32::MAX,
            Direction::East => x < i32::MAX,
        };
        if fits {
            Some(self.from(x, y))
        } else {
            None
        }
    }

    #[verifier::when_used_as_spec(spec_reverse)]
    pub fn reverse(&self) -> (d: Direction)
        ensures
            d == self.spec_reverse(),
    {
        match self {
            Direction::North => Direction::South,
            Direction::West => Direction::East,
            Direction::East => Direction::West,
            Direction::South => Direction::North,
        }
    }

    /// Reversing twice gives the direction back, and a step followed by a
    /// step in the reverse direction returns to the starting cell.
    pub proof fn lemma_reverse(d: Direction, x: int, y: int)
        ensures
            d.reverse().reverse() == d,
            d.reverse() != d,
            ({
                let (nx, ny) = d.spec_from(x, y);
                d.reverse().spec_from(nx, ny) == (x, y)
            }),
            d.spec_from(x, y) != (x, y),
    {
    }
}

} // verus!
