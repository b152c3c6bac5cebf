//! Where the view looks: the point of the room, in pixels, that is shown at
//! the centre of the display.

use vstd::prelude::*;
use crate::room::Room;

verus! {

/// Half the width of the display, in pixels.
pub const DISPLAY_WIDTH_HALF: i64 = 100;

/// Half the height of the display, in pixels.
pub const DISPLAY_HEIGHT_HALF: i64 = 100;

/// How one axis of the camera picks its coordinate.
#[derive(Clone, Copy, Debug, PartialEq, Eq, Structural)]
pub enum CameraMode {
    /// Follow the player.
    Player,
    /// Stay on this coordinate.
    Fixed(i64),
    /// Stay on the middle of the room.
    Centered,
}

/// The camera: one mode for each axis.
#[derive(Clone, Copy, Debug, PartialEq, Eq, Structural)]
pub struct Camera {
    pub x_mode: CameraMode,
    pub y_mode: CameraMode,
}

/// `c` held between `min` and `max`; where the two have crossed, the point
/// half way between them, rounded towards `max`.
pub open spec fn spec_clamp_or_center(c: int, min: int, max: int) -> int {
    if min <= max {
        if c < min {
            min
        } else if c > max {
            max
        } else {
            c
        }
    } else {
        (min - max) / 2 + max
    }
}

/// Keeps a camera coordinate inside the room: `min` and `max` are the
/// coordinates at which the display touches the two edges. A room smaller
/// than the display is centred.
pub fn clamp_or_center(c: i64, min: i64, max: i64) -> (r: i64)
    ensures
        r == spec_clamp_or_center(c as int, min as int, max as int),
{
    if min <= max {
        if c < min {
            min
        } else if c > max {
            max
        } else {
            c
        }
    } else {
        let gap: i128 = min as i128 - max as i128;
        let mid: i128 = gap / 2 + max as i128;
        mid as i64
    }
}

impl CameraMode {
    /// The coordinate that this mode picks, before it is kept inside the
    /// room: `player` is the player's, `extent` the room's size on this axis.
    pub open spec fn spec_pick(self, player: int, extent: int) -> int {
        match self {
            CameraMode::Player => player,
            CameraMode::Fixed(at) => at as int,
            CameraMode::Centered => extent / 2,
        }
    }

    pub fn pick(self, player: i64, extent: i64) -> (r: i64)
        requires
            extent >= 0,
        ensures
            r == self.spec_pick(player as int, extent as int),
    {
        match self {
            CameraMode::Player => player,
            CameraMode::Fixed(at) => at,
            CameraMode::Centered => extent / 2,
        }
    }
}

impl Camera {
    /// A camera that stays where the display's top left corner is the point
    /// `(x, y)` of the room.
    pub fn offset(x: i64, y: i64) -> (camera: Camera)
        requires
            x + DISPLAY_WIDTH_HALF <= i64::MAX,
            y + DISPLAY_HEIGHT_HALF <= i64::MAX,
        ensures
            camera == (Camera {
                x_mode: CameraMode::Fixed((x + DISPLAY_WIDTH_HALF) as i64),
                y_mode: CameraMode::Fixed((y + DISPLAY_HEIGHT_HALF) as i64),
            }),
    {
        Camera { x_mode: CameraMode::Fixed(x + DISPLAY_WIDTH_HALF), y_mode: CameraMode::Fixed(y + DISPLAY_HEIGHT_HALF) }
    }

    /// The point of `room` that the camera looks at, for a player whose
    /// centre is at `(px, py)`: what each axis picks, kept so far from the
    /// room's edges that the display shows nothing beyond them.
    pub fn position(&self, room: &Room, px: i64, py: i64) -> (at: (i64, i64))
        requires
            room.width <= i32::MAX,
            room.height <= i32::MAX,
        ensures
            at.0 == spec_clamp_or_center(
                self.x_mode.spec_pick(px as int, room.width * 16),
                DISPLAY_WIDTH_HALF as int,
                room.width * 16 - DISPLAY_WIDTH_HALF,
            ),
            at.1 == spec_clamp_or_center(
                self.y_mode.spec_pick(py as int, room.height * 16),
                DISPLAY_HEIGHT_HALF as int,
                room.height * 16 - DISPLAY_HEIGHT_HALF,
            ),
    {
        let room_width = room.pixel_width();
        let room_height = room.pixel_height();
        let x = self.x_mode.pick(px, room_width);
        let y = self.y_mode.pick(py, room_height);
        (
            clamp_or_center(x, DISPLAY_WIDTH_HALF, room_width - DISPLAY_WIDTH_HALF),
            clamp_or_center(y, DISPLAY_HEIGHT_HALF, room_height - DISPLAY_HEIGHT_HALF),
        )
    }
}

} // verus!
