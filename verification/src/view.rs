//! What the screens of the game decide: where the cursor of a menu may go,
//! and where an accepted choice leads.

use vstd::prelude::*;
use crate::direction::Direction;

verus! {

/// The number of levels in a row of the level menu.
pub const LEVELS_HORIZONTAL: usize = 4;

/// The number of rows of the level menu.
pub const LEVELS_VERTICAL: usize = 2;

/// The row of the title menu that starts the game.
pub const TITLE_ROW_PLAY: i32 = 7;

/// The row of the title menu that opens the level menu.
pub const TITLE_ROW_LEVELS: i32 = 8;

/// Where the game goes next.
#[derive(Clone, Copy, Debug, PartialEq, Eq, Structural)]
pub enum Transition {
    /// To the level with this index.
    Game(usize),
    /// To the level menu, with the cursor on this level.
    Menu(usize),
    /// Nowhere: the level with this index was won.
    Win(usize),
}

impl Transition {
    /// The transition that is carried out where the game has `levels`
    /// levels: a level after the last leads to the menu, with the cursor on
    /// the last level.
    pub fn within(self, levels: usize) -> (next: Transition)
        requires
            levels > 0,
        ensures
            next == (match self {
                Transition::Game(level) if level > levels - 1 => Transition::Menu((levels - 1) as usize),
                other => other,
            }),
    {
        match self {
            Transition::Game(level) => {
                if level > levels - 1 {
                    Transition::Menu(levels - 1)
                } else {
                    self
                }
            },
            other => other,
        }
    }
}

/// The cell of the level menu on which the cursor stands for `level`.
pub fn menu_cursor(level: usize) -> (cell: (usize, usize))
    ensures
        cell == (level % LEVELS_HORIZONTAL, level / LEVELS_HORIZONTAL),
{
    (level % LEVELS_HORIZONTAL, level / LEVELS_HORIZONTAL)
}

/// Whether the cursor of the level menu may step from `(x, y)` in
/// `direction`: the menu is a grid of `LEVELS_HORIZONTAL` by
/// `LEVELS_VERTICAL` cells, and the cursor stays on it.
pub fn menu_admits(x: i32, y: i32, direction: Direction) -> (b: bool)
    ensures
        b == ({
            let (nx, ny) = direction.spec_from(x as int, y as int);
            0 <= nx < LEVELS_HORIZONTAL && 0 <= ny < LEVELS_VERTICAL
        }),
{
    match direction.checked_from(x, y) {
        Some((nx, ny)) => nx >= 0 && nx < 4 && ny >= 0 && ny < 2,
        None => false,
    }
}

/// The level that the cursor of the level menu stands for on `(x, y)`.
pub fn menu_level(x: i32, y: i32) -> (level: usize)
    requires
        0 <= x < LEVELS_HORIZONTAL,
        0 <= y < LEVELS_VERTICAL,
    ensures
        level == y * LEVELS_HORIZONTAL + x,
        level % LEVELS_HORIZONTAL == x,
        level / LEVELS_HORIZONTAL == y,
{
    y as usize * LEVELS_HORIZONTAL + x as usize
}

/// Whether the cursor of the screen that follows a win may step from row
/// `y` in `direction`: it has two rows, the next level above the menu.
pub fn win_admits(y: i32, direction: Direction) -> (b: bool)
    ensures
        b == ((direction == Direction::North && y == 1) || (direction == Direction::South && y == 0)),
{
    match direction {
        Direction::North => y == 1,
        Direction::South => y == 0,
        _ => false,
    }
}

/// Where an accepted choice on row `y` of the screen that follows a win
/// leads, after the level `level_id`: to the next level from the upper row,
/// to the menu from the lower.
pub fn win_choice(y: i32, level_id: usize) -> (choice: Option<Transition>)
    requires
        level_id < usize::MAX,
    ensures
        choice == (if y == 0 {
            Some(Transition::Game((level_id + 1) as usize))
        } else if y == 1 {
            Some(Transition::Menu(level_id))
        } else {
            None
        }),
{
    if y == 0 {
        Some(Transition::Game(level_id + 1))
    } else if y == 1 {
        Some(Transition::Menu(level_id))
    } else {
        None
    }
}

/// Where an accepted choice leads on the title screen, whose menu is a
/// column of the title room that the player walks: to the first level from
/// one row, to the level menu from the row below, nowhere from any other.
pub fn title_choice(player_y: i32) -> (choice: Option<Transition>)
    ensures
        choice == (if player_y == TITLE_ROW_PLAY {
            Some(Transition::Game(0))
        } else if player_y == TITLE_ROW_LEVELS {
            Some(Transition::Menu(0))
        } else {
            None
        }),
{
    if player_y == TITLE_ROW_PLAY {
        Some(Transition::Game(0))
    } else if player_y == TITLE_ROW_LEVELS {
        Some(Transition::Menu(0))
    } else {
        None
    }
}

} // verus!
