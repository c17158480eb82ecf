//! Word tags: world triggers that teach the player a word when touched.
//! A touched tag hides itself and fires one vocabulary change.

use vstd::prelude::*;

use crate::entity::Entity;
use crate::ui::VocabChange;
use crate::word_id::WordID;
use crate::world::WorldPos;

verus! {

/// A word tag standing in the world.
#[derive(Copy, Clone, PartialEq, Eq, Structural, Debug, Default)]
pub struct WordTag {
    pub word_id: WordID,
}

/// A word tag as a level file places it.
#[derive(Copy, Clone, PartialEq, Eq, Structural, Debug)]
pub struct WordTagInWorld {
    pub word_id: WordID,
    pub transform: WorldPos,
}

/// One tag as the frame sees it: its word, whether it is still visible,
/// and whether the player touches it this frame.
#[derive(Copy, Clone, PartialEq, Eq, Structural, Debug)]
pub struct TagContact {
    pub word_id: WordID,
    pub visible: bool,
    pub touched_by_player: bool,
}

/// The vocabulary changes this frame's touches produce, in tag order: one
/// per still-visible tag the player touches.
pub open spec fn spec_tag_changes(tags: Seq<TagContact>, player: Entity) -> Seq<VocabChange>
    decreases tags.len(),
{
    if tags.len() == 0 {
        Seq::<VocabChange>::empty()
    } else {
        let rest = spec_tag_changes(tags.drop_last(), player);
        if tags.last().visible && tags.last().touched_by_player {
            rest.push(VocabChange::Added { word: tags.last().word_id, to: player })
        } else {
            rest
        }
    }
}

/// Hands each visible, touched tag's word to the player and hides the tag;
/// returns the vocabulary changes to fire and each tag's new visibility.
pub fn word_tags_update(tags: &Vec<TagContact>, player: Entity) -> (r: (Vec<VocabChange>, Vec<
    bool,
>))
    ensures
        r.0@ == spec_tag_changes(tags@, player),
        r.1@.len() == tags@.len(),
        forall|i: int|
            0 <= i < tags@.len() ==> r.1@[i] == (tags@[i].visible && !tags@[i].touched_by_player),
{
    let n = tags.len();
    let mut changes: Vec<VocabChange> = Vec::new();
    let mut visible: Vec<bool> = Vec::new();
    let mut i: usize = 0;
    proof {
        assert(tags@.subrange(0, 0) =~= Seq::<TagContact>::empty());
    }
    while i < n
        invariant
            i <= n,
            n == tags@.len(),
            changes@ == spec_tag_changes(tags@.subrange(0, i as int), player),
            visible@.len() == i,
            forall|j: int|
                0 <= j < i ==> visible@[j] == (tags@[j].visible && !tags@[j].touched_by_player),
        decreases n - i,
    {
        let tag = tags[i];
        if tag.visible && tag.touched_by_player {
            changes.push(VocabChange::Added { word: tag.word_id, to: player });
        }
        visible.push(tag.visible && !tag.touched_by_player);
        proof {
            assert(tags@.subrange(0, i as int + 1).drop_last() =~= tags@.subrange(0, i as int));
            assert(tags@.subrange(0, i as int + 1).last() == tags@[i as int]);
        }
        i = i + 1;
    }
    proof {
        assert(tags@.subrange(0, n as int) =~= tags@);
    }
    (changes, visible)
}

} // verus!
