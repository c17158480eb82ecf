//! Player spawners: the point a level places the player at, used once
//! when the level comes up and again after a death-zone respawn.

use vstd::prelude::*;

use crate::world::WorldPos;

verus! {

/// Marker for a player spawner.
#[derive(Copy, Clone, PartialEq, Eq, Structural, Debug, Default)]
pub struct PlayerSpawner;

/// A player spawner as a level file places it.
#[derive(Copy, Clone, PartialEq, Eq, Structural, Debug)]
pub struct PlayerSpawnerInWorld {
    pub transform: WorldPos,
}

/// Decides where the player appears: the first time a spawner stands in
/// the loaded level, the player moves onto it; afterwards the spawner
/// stays passive.
pub fn player_spawner_update(spawner: Option<WorldPos>, has_spawned: bool) -> (r: Option<WorldPos>)
    ensures
        r == (if !has_spawned {
            spawner
        } else {
            None::<WorldPos>
        }),
{
    if has_spawned {
        None
    } else {
        spawner
    }
}

} // verus!
