//! The game world: integer world-space geometry and the trigger objects a
//! level places in it (word tags, lock zones, spawners, camera and death
//! zones, fans).

use vstd::prelude::*;

pub mod camera_zone;
pub mod death_zone;
pub mod fan;
pub mod lock_zone;
pub mod player_spawner;
pub mod word_tag;

verus! {

/// A point of the world in integer pixel coordinates.
#[derive(Copy, Clone, PartialEq, Eq, Structural, Debug)]
pub struct WorldPos {
    pub x: i64,
    pub y: i64,
}

impl Default for WorldPos {
    /// The origin.
    fn default() -> (r: Self)
        ensures
            r.x == 0 && r.y == 0,
    {
        WorldPos { x: 0, y: 0 }
    }
}

/// An axis-aligned world-space rectangle, both borders included.
#[derive(Copy, Clone, PartialEq, Eq, Structural, Debug)]
pub struct WorldRect {
    pub min_x: i64,
    pub min_y: i64,
    pub max_x: i64,
    pub max_y: i64,
}

impl WorldRect {
    /// Whether the point lies inside the rectangle.
    pub open spec fn spec_contains(self, p: WorldPos) -> bool {
        self.min_x <= p.x <= self.max_x && self.min_y <= p.y <= self.max_y
    }

    /// Whether the point lies inside the rectangle.
    pub fn contains(&self, p: WorldPos) -> (r: bool)
        ensures
            r == self.spec_contains(p),
    {
        self.min_x <= p.x && p.x <= self.max_x && self.min_y <= p.y && p.y <= self.max_y
    }
}

impl Default for WorldRect {
    /// The empty rectangle at the origin.
    fn default() -> (r: Self)
        ensures
            r.min_x == 0 && r.min_y == 0 && r.max_x == 0 && r.max_y == 0,
    {
        WorldRect { min_x: 0, min_y: 0, max_x: 0, max_y: 0 }
    }
}

/// The world-space rectangle a level covers: a grid of `cols` by `rows`
/// tiles of sixteen pixels, anchored half a tile before its origin.
pub open spec fn spec_level_rect(origin: WorldPos, rows: u32, cols: u32) -> WorldRect {
    WorldRect {
        min_x: (origin.x - 8) as i64,
        min_y: (origin.y - 8) as i64,
        max_x: (origin.x + 16 * (rows as int) - 8) as i64,
        max_y: (origin.y + 16 * (cols as int) - 8) as i64,
    }
}

/// Finds the rectangle of the level that contains a given position, or
/// nothing when the position lies outside the level.
pub fn level_is_in_position(origin: WorldPos, rows: u32, cols: u32, position: WorldPos) -> (r:
    Option<WorldRect>)
    requires
        -0x10000000000 <= origin.x <= 0x10000000000,
        -0x10000000000 <= origin.y <= 0x10000000000,
    ensures
        r == (if spec_level_rect(origin, rows, cols).spec_contains(position) {
            Some(spec_level_rect(origin, rows, cols))
        } else {
            None::<WorldRect>
        }),
{
    let rect = WorldRect {
        min_x: origin.x - 8,
        min_y: origin.y - 8,
        max_x: origin.x + 16 * (rows as i64) - 8,
        max_y: origin.y + 16 * (cols as i64) - 8,
    };
    if rect.contains(position) {
        Some(rect)
    } else {
        None
    }
}

} // verus!
