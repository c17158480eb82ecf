//! Death zones: world triggers that send the player back to the spawner
//! when any of the player's word objects falls in.

use vstd::prelude::*;

use crate::entity::Entity;
use crate::world::WorldPos;

verus! {

/// Marker for a death zone trigger.
#[derive(Copy, Clone, PartialEq, Eq, Structural, Debug, Default)]
pub struct DeathZone;

/// A death zone as a level file places it.
#[derive(Copy, Clone, PartialEq, Eq, Structural, Debug)]
pub struct DeathZoneInWorld {
    pub transform: WorldPos,
}

/// Whether some entity colliding with a death zone is a live word object.
pub open spec fn spec_object_fell(colliding: Seq<Entity>, word_objects: Seq<Entity>) -> bool {
    exists|i: int, j: int|
        0 <= i < colliding.len() && 0 <= j < word_objects.len() && colliding[i] == word_objects[j]
}

/// Decides whether the player respawns this frame: when any entity inside
/// a death zone is one of the live word objects, the player teleports to
/// the spawner; otherwise nothing happens.
pub fn update(colliding: &Vec<Entity>, word_objects: &Vec<Entity>, spawner: WorldPos) -> (r: Option<
    WorldPos,
>)
    ensures
        r == (if spec_object_fell(colliding@, word_objects@) {
            Some(spawner)
        } else {
            None::<WorldPos>
        }),
{
    let n = colliding.len();
    let m = word_objects.len();
    let mut i: usize = 0;
    while i < n
        invariant
            i <= n,
            n == colliding@.len(),
            m == word_objects@.len(),
            forall|a: int, b: int|
                0 <= a < i && 0 <= b < m ==> colliding@[a] != word_objects@[b],
        decreases n - i,
    {
        let c = colliding[i];
        let mut k: usize = 0;
        while k < m
            invariant
                k <= m,
                m == word_objects@.len(),
                i < n,
                n == colliding@.len(),
                c == colliding@[i as int],
                forall|b: int| 0 <= b < k ==> c != word_objects@[b],
            decreases m - k,
        {
            if word_objects[k] == c {
                proof {
                    assert(spec_object_fell(colliding@, word_objects@)) by {
                        assert((i as int) < colliding@.len() && (k as int) < word_objects@.len()
                            && colliding@[i as int] == word_objects@[k as int]);
                    }
                }
                return Some(spawner);
            }
            k = k + 1;
        }
        i = i + 1;
    }
    None
}

} // verus!
