//! Per-frame movement decisions: camera panning from four-way key input, and
//! the bouncing demo sprite.  The engine edge polls the devices and applies
//! the returned deltas; the decisions themselves live here.

use vstd::prelude::*;

verus! {

/// Distance one pan step moves the camera, per axis, in texels: the edge
/// length of one wall tile.
pub const CAMERA_PAN_STEP: i64 = 12;

/// Vertical band the demo sprite bounces in: it turns around once its
/// position passes `SPRITE_BOUND` units from the origin.
pub const SPRITE_BOUND: i64 = 200;

/// Which way the demo sprite is currently travelling.
#[derive(Clone, Copy, PartialEq, Eq, Structural, Debug)]
pub enum Direction {
    Up,
    Down,
}

/// Camera movement for one frame of held keys: one pan step along each axis
/// whose key is held, opposite keys cancelling.
pub fn camera_pan_delta(left: bool, right: bool, up: bool, down: bool) -> (d: (i64, i64))
    ensures
        d.0 == (if right {
            CAMERA_PAN_STEP as int
        } else {
            0
        }) - (if left {
            CAMERA_PAN_STEP as int
        } else {
            0
        }),
        d.1 == (if up {
            CAMERA_PAN_STEP as int
        } else {
            0
        }) - (if down {
            CAMERA_PAN_STEP as int
        } else {
            0
        }),
{
    let mut dx: i64 = 0;
    let mut dy: i64 = 0;
    if left {
        dx = dx - CAMERA_PAN_STEP;
    }
    if right {
        dx = dx + CAMERA_PAN_STEP;
    }
    if up {
        dy = dy + CAMERA_PAN_STEP;
    }
    if down {
        dy = dy - CAMERA_PAN_STEP;
    }
    (dx, dy)
}

/// The direction the sprite travels after sitting at `y`: it flips downward
/// above the band and upward below it, and otherwise keeps going.
pub open spec fn spec_bounce_direction(y: int, d: Direction) -> Direction {
    if y > SPRITE_BOUND {
        Direction::Down
    } else if y < -SPRITE_BOUND {
        Direction::Up
    } else {
        d
    }
}

/// One frame of the demo sprite: move `dy` units along the current
/// direction, then turn around if the band was left.  `dy` is this frame's
/// distance, already scaled by the frame time at the engine edge.
pub fn sprite_movement_step(y: i64, dir: Direction, dy: i64) -> (r: (i64, Direction))
    requires
        0 <= dy <= 0x10_0000,
        -0x4000_0000 <= y <= 0x4000_0000,
    ensures
        r.0 == if dir is Up {
            y + dy
        } else {
            y - dy
        },
        r.1 == spec_bounce_direction(r.0 as int, dir),
{
    let ny: i64 = match dir {
        Direction::Up => y + dy,
        Direction::Down => y - dy,
    };
    let nd = if ny > SPRITE_BOUND {
        Direction::Down
    } else if ny < -SPRITE_BOUND {
        Direction::Up
    } else {
        dir
    };
    (ny, nd)
}

} // verus!
