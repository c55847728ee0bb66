//! The cursor each player moves over the battle grid.
use vstd::prelude::*;
use crate::assets::UiSound;
use crate::grid::{GridManager, GridPosition, GridPositionChangeResult, GridVec};

verus! {

/// The move a cursor makes in one frame: the stick's new direction (rows
/// grow downwards, so its vertical part is inverted), then the four
/// direction presses.
pub open spec fn cursor_delta_spec(axis: Option<(i8, i8)>, up: bool, down: bool, left: bool, right: bool) -> (int, int) {
    let (ax, ay) = match axis {
        Some((x, y)) => (x as int, y as int),
        None => (0int, 0int),
    };
    (
        ax - (if left { 1int } else { 0 }) + (if right { 1int } else { 0 }),
        -ay - (if up { 1int } else { 0 }) + (if down { 1int } else { 0 }),
    )
}

/// Where the cursor goes and the sound it makes.
#[derive(Clone, Copy, PartialEq, Eq, Structural, Debug)]
pub struct CursorStep {
    pub position: GridPosition,
    pub sound: Option<UiSound>,
}

/// Moves a cursor at `position` on the grid: it moves by the frame's
/// delta, clamped to the grid; a move makes the cursor sound, a move
/// against the edge the error sound, and no move no sound.
pub fn cursor_step(
    gm: &GridManager,
    position: GridPosition,
    axis: Option<(i8, i8)>,
    up: bool,
    down: bool,
    left: bool,
    right: bool,
) -> (r: CursorStep)
    requires
        gm.dims_ok(),
        position.x <= i32::MAX - 2,
        position.y <= i32::MAX - 2,
        axis matches Some((ax, ay)) ==> -1 <= ax <= 1 && -1 <= ay <= 1,
    ensures
        ({
            let (dx, dy) = cursor_delta_spec(axis, up, down, left, right);
            let moved = position.change_spec(gm.spec_bounds(), GridVec { x: dx as i32, y: dy as i32 });
            &&& r.position == moved.spec_position()
            &&& r.sound == (if dx == 0 && dy == 0 {
                None::<UiSound>
            } else {
                match moved {
                    GridPositionChangeResult::Moved(_) => Some(UiSound::MoveCursor),
                    GridPositionChangeResult::OutOfBounds(_) => Some(UiSound::Error),
                }
            })
        }),
{
    let mut dx: i32 = 0;
    let mut dy: i32 = 0;
    if let Some((ax, ay)) = axis {
        dx = dx + ax as i32;
        dy = dy - ay as i32;
    }
    if up {
        dy = dy - 1;
    }
    if down {
        dy = dy + 1;
    }
    if left {
        dx = dx - 1;
    }
    if right {
        dx = dx + 1;
    }
    let delta = GridVec { x: dx, y: dy };
    let moved = gm.change_position_with_bounds(position, delta);
    let sound = if dx == 0 && dy == 0 {
        None
    } else {
        match moved {
            GridPositionChangeResult::Moved(_) => Some(UiSound::MoveCursor),
            GridPositionChangeResult::OutOfBounds(_) => Some(UiSound::Error),
        }
    };
    CursorStep { position: moved.position(), sound }
}

} // verus!
