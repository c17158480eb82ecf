//! The game camera: it follows the player, clamped to the bounds of the
//! camera zone or level the player stands in.

use vstd::prelude::*;

use crate::world::{WorldPos, WorldRect};

verus! {

/// How the camera follows the player.
#[derive(Copy, Clone, PartialEq, Eq, Structural, Debug)]
pub enum CameraMoveMode {
    SnapToBounds,
    Free,
}

impl Default for CameraMoveMode {
    /// The camera keeps inside its bounds unless set free.
    fn default() -> (r: Self)
        ensures
            r == CameraMoveMode::SnapToBounds,
    {
        CameraMoveMode::SnapToBounds
    }
}

/// The camera's follow state: the bounds it may show and its follow mode.
/// The host moves the camera a fraction of the way toward the target each
/// frame; the target itself is fixed here.
#[derive(Copy, Clone, PartialEq, Eq, Structural, Debug)]
pub struct GameCamera {
    pub bounds: WorldRect,
    pub move_mode: CameraMoveMode,
}

impl Default for GameCamera {
    /// Empty bounds, snapping to them.
    fn default() -> (r: Self)
        ensures
            r.bounds == (WorldRect { min_x: 0, min_y: 0, max_x: 0, max_y: 0 }),
            r.move_mode == CameraMoveMode::SnapToBounds,
    {
        GameCamera {
            bounds: WorldRect { min_x: 0, min_y: 0, max_x: 0, max_y: 0 },
            move_mode: CameraMoveMode::SnapToBounds,
        }
    }
}

/// Clamps `v` to lie between `lo` and `hi`; when they conflict, the upper
/// bound wins, as the camera prefers showing the bounds' near corner.
pub open spec fn spec_clamp_max_then_min(v: int, lo: int, hi: int) -> int {
    if (if v > lo {
        v
    } else {
        lo
    }) < hi {
        if v > lo {
            v
        } else {
            lo
        }
    } else {
        hi
    }
}

/// The point the camera steers toward this frame: the player, clamped so
/// that the visible area (from `area_min` to `area_max` around the camera)
/// stays inside the bounds; a free camera follows the player exactly.
pub fn camera_update(
    player: WorldPos,
    bounds: WorldRect,
    area_min: WorldPos,
    area_max: WorldPos,
    move_mode: CameraMoveMode,
) -> (target: WorldPos)
    requires
        -0x10000000000 <= player.x <= 0x10000000000,
        -0x10000000000 <= player.y <= 0x10000000000,
        -0x10000000000 <= bounds.min_x <= 0x10000000000,
        -0x10000000000 <= bounds.min_y <= 0x10000000000,
        -0x10000000000 <= bounds.max_x <= 0x10000000000,
        -0x10000000000 <= bounds.max_y <= 0x10000000000,
        -0x10000000000 <= area_min.x <= 0x10000000000,
        -0x10000000000 <= area_min.y <= 0x10000000000,
        -0x10000000000 <= area_max.x <= 0x10000000000,
        -0x10000000000 <= area_max.y <= 0x10000000000,
    ensures
        move_mode == CameraMoveMode::Free ==> target == player,
        move_mode == CameraMoveMode::SnapToBounds ==> target.x == spec_clamp_max_then_min(
            player.x as int,
            bounds.min_x - area_min.x,
            bounds.max_x - area_max.x,
        ) && target.y == spec_clamp_max_then_min(
            player.y as int,
            bounds.min_y - area_min.y,
            bounds.max_y - area_max.y,
        ),
{
    match move_mode {
        CameraMoveMode::Free => player,
        CameraMoveMode::SnapToBounds => {
            let mut tx: i64 = player.x;
            let lo_x = bounds.min_x - area_min.x;
            if tx < lo_x {
                tx = lo_x;
            }
            let hi_x = bounds.max_x - area_max.x;
            if tx > hi_x {
                tx = hi_x;
            }
            let mut ty: i64 = player.y;
            let lo_y = bounds.min_y - area_min.y;
            if ty < lo_y {
                ty = lo_y;
            }
            let hi_y = bounds.max_y - area_max.y;
            if ty > hi_y {
                ty = hi_y;
            }
            WorldPos { x: tx, y: ty }
        },
    }
}

} // verus!
