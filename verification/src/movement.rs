//! The player: its initial sentence, its starting vocabulary, and the
//! horizontal speed it steers toward each frame.

use vstd::prelude::*;

use crate::entity::Entity;
use crate::spawn::AdjectiveStates;
use crate::structure::SentenceStructure;
use crate::ui::VocabChange;
use crate::word_id::WordID;

verus! {

/// Marker for the player: the sentence owner the game starts with.
#[derive(Copy, Clone, PartialEq, Eq, Structural, Debug, Default)]
pub struct Player;

/// Marker for an entity whose movement the word system steers.
#[derive(Copy, Clone, PartialEq, Eq, Structural, Debug, Default)]
pub struct WordControl;

/// The player's initial state: an empty noun-slot-over-adjective-slot
/// sentence that is not yet valid, and the first vocabulary change — the
/// player starts out learning the word `Baby`.
pub fn spawn_player(player: Entity) -> (r: (SentenceStructure, VocabChange))
    ensures
        r.0.wf(),
        r.0.is_initial(),
        !r.0.valid,
        r.0.spec_words() == Seq::<WordID>::empty(),
        r.1 == (VocabChange::Added { word: WordID::Baby, to: player }),
{
    (SentenceStructure::new(), VocabChange::Added { word: WordID::Baby, to: player })
}

/// Whether any live word object under the player carries the fast effect,
/// which doubles the player's speed cap.
pub fn has_fast_object(objects: &Vec<AdjectiveStates>) -> (r: bool)
    ensures
        r == (exists|i: int| 0 <= i < objects@.len() && objects@[i].fast),
{
    let n = objects.len();
    let mut i: usize = 0;
    while i < n
        invariant
            i <= n,
            n == objects@.len(),
            forall|j: int| 0 <= j < i ==> !objects@[j].fast,
        decreases n - i,
    {
        if objects[i].fast {
            return true;
        }
        i = i + 1;
    }
    false
}

/// The horizontal speed the player steers toward this frame, or nothing at
/// all while the player's sentence is invalid: an invalid sentence
/// disables movement entirely and the player's velocity must stay
/// untouched.  With a valid sentence, the target is the speed cap (doubled
/// when a fast word object exists), signed by the pressed direction key;
/// zero when neither direction is pressed.  Rightward input wins over
/// leftward.
pub fn do_movement(
    sentence_valid: bool,
    pressed_right: bool,
    pressed_left: bool,
    max_speed: i64,
    fast: bool,
) -> (r: Option<i64>)
    requires
        0 <= max_speed <= i64::MAX / 2,
    ensures
        !sentence_valid ==> r is None,
        sentence_valid ==> r == Some(
            ({
                let cap: int = if fast {
                    2 * max_speed
                } else {
                    max_speed as int
                };
                if pressed_right {
                    cap
                } else if pressed_left {
                    -cap
                } else {
                    0
                }
            }) as i64,
        ),
{
    if !sentence_valid {
        return None;
    }
    let cap: i64 = if fast {
        2 * max_speed
    } else {
        max_speed
    };
    if pressed_right {
        Some(cap)
    } else if pressed_left {
        Some(-cap)
    } else {
        Some(0)
    }
}

} // verus!
