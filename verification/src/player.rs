//! The player: a grid position, a facing, and whether a move is in
//! progress.

use vstd::prelude::*;
use crate::direction::Direction;

verus! {

/// The player on the grid.
///
/// `facing` is the direction of the last command, whether or not the
/// command led to a move; `face_left` says which way the figure looks.
///
/// `walking` is set when a move is committed and stays set until `resolve`
/// clears it. A walking player accepts no command, so that at most one move
/// is committed per idle period.
#[derive(Clone, Copy, Debug, PartialEq, Eq, Structural)]
pub struct Player {
    pub face_left: bool,
    pub facing: Direction,
    pub x: i32,
    pub y: i32,
    pub walking: bool,
}

impl Player {
    /// The player after turning towards `direction`: the player faces
    /// `direction` from then on, and the figure looks left after west and
    /// right after east.
    pub open spec fn faced(self, direction: Direction) -> Player {
        match direction {
            Direction::West => Player { facing: direction, face_left: true, ..self },
            Direction::East => Player { facing: direction, face_left: false, ..self },
            _ => Player { facing: direction, ..self },
        }
    }

    /// The player after a step in `direction`. A walking player stays put.
    pub open spec fn walked(self, direction: Direction) -> Player {
        if self.walking {
            self
        } else {
            let (nx, ny) = direction.spec_from(self.x as int, self.y as int);
            Player { x: nx as i32, y: ny as i32, facing: direction, walking: true, ..self }
        }
    }

    /// The player after being moved one cell in `direction` by an undo. The
    /// figure then looks the way it walked before: away from `direction`.
    pub open spec fn undone(self, direction: Direction) -> Player {
        let (nx, ny) = direction.spec_from(self.x as int, self.y as int);
        let moved = Player { x: nx as i32, y: ny as i32, ..self };
        match direction {
            Direction::West => Player { face_left: false, ..moved },
            Direction::East => Player { face_left: true, ..moved },
            _ => moved,
        }
    }

    /// The player, idle again.
    pub open spec fn resolved(self) -> Player {
        Player { walking: false, ..self }
    }

    pub open spec fn spec_can_walk(&self) -> bool {
        !self.walking
    }

    /// An idle player at `(x, y)`.
    pub fn new(x: i32, y: i32) -> (player: Player)
        ensures
            player == (Player { face_left: false, facing: Direction::West, x, y, walking: false }),
    {
        Player { face_left: false, facing: Direction::West, x, y, walking: false }
    }

    /// Turns the player towards `direction`, walking or not.
    pub fn face(&mut self, direction: Direction)
        ensures
            *final(self) == old(self).faced(direction),
            final(self).facing == direction,
    {
        self.facing = direction;
        match direction {
            Direction::West => {
                self.face_left = true;
            },
            Direction::East => {
                self.face_left = false;
            },
            _ => {},
        }
    }

    /// Steps one cell in `direction` and starts walking, unless the player
    /// is walking already. Returns whether the step was taken.
    pub fn walk(&mut self, direction: Direction) -> (moved: bool)
        requires
            old(self).walking || direction.in_range(old(self).x as int, old(self).y as int),
        ensures
            *final(self) == old(self).walked(direction),
            moved == !old(self).walking,
    {
        if self.walking {
            false
        } else {
            let (nx, ny) = direction.from(self.x, self.y);
            self.x = nx;
            self.y = ny;
            self.facing = direction;
            self.walking = true;
            true
        }
    }

    #[verifier::when_used_as_spec(spec_can_walk)]
    pub fn can_walk(&self) -> (b: bool)
        ensures
            b == !self.walking,
    {
        !self.walking
    }

    /// Moves the player one cell in `direction`, walking or not.
    pub fn undo(&mut self, direction: Direction)
        requires
            direction.in_range(old(self).x as int, old(self).y as int),
        ensures
            *final(self) == old(self).undone(direction),
    {
        let (nx, ny) = direction.from(self.x, self.y);
        self.x = nx;
        self.y = ny;
        match direction {
            Direction::West => {
                self.face_left = false;
            },
            Direction::East => {
                self.face_left = true;
            },
            _ => {},
        }
    }

    /// Ends the move in progress: the player is idle again.
    pub fn resolve(&mut self)
        ensures
            *final(self) == old(self).resolved(),
    {
        self.walking = false;
    }
}

} // verus!
