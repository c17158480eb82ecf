//! Camera zones: world triggers that pin the camera's bounds while the
//! player stands inside them.

use vstd::prelude::*;

use crate::world::{WorldPos, WorldRect};

verus! {

/// Marker for a camera zone trigger.
#[derive(Copy, Clone, PartialEq, Eq, Structural, Debug, Default)]
pub struct CameraZone;

/// A camera zone as a level file places it.
#[derive(Copy, Clone, PartialEq, Eq, Structural, Debug)]
pub struct CameraZoneInWorld {
    pub transform: WorldPos,
}

/// The first zone rectangle that contains the player, searching front to
/// back; empty bounds when the player stands in none.
pub open spec fn spec_intersecting_zone(zones: Seq<WorldRect>, player: WorldPos) -> WorldRect
    decreases zones.len(),
{
    if zones.len() == 0 {
        WorldRect { min_x: 0, min_y: 0, max_x: 0, max_y: 0 }
    } else if zones[0].spec_contains(player) {
        zones[0]
    } else {
        spec_intersecting_zone(zones.subrange(1, zones.len() as int), player)
    }
}

/// Sets the camera's bounds to the first zone the player stands in, or to
/// the empty rectangle when the player stands in none.
pub fn update(zones: &Vec<WorldRect>, player: WorldPos) -> (bounds: WorldRect)
    ensures
        bounds == spec_intersecting_zone(zones@, player),
{
    let n = zones.len();
    let mut i: usize = 0;
    proof {
        assert(zones@.subrange(0, n as int) =~= zones@);
    }
    while i < n
        invariant
            i <= n,
            n == zones@.len(),
            spec_intersecting_zone(zones@, player) == spec_intersecting_zone(
                zones@.subrange(i as int, n as int),
                player,
            ),
        decreases n - i,
    {
        proof {
            assert(zones@.subrange(i as int, n as int)[0] == zones@[i as int]);
            assert(zones@.subrange(i as int, n as int).subrange(
                1,
                n as int - i as int,
            ) =~= zones@.subrange(i as int + 1, n as int));
        }
        let zone = zones[i];
        if zone.contains(player) {
            return zone;
        }
        i = i + 1;
    }
    WorldRect { min_x: 0, min_y: 0, max_x: 0, max_y: 0 }
}

} // verus!
