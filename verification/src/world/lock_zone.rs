//! Lock zones: world triggers that forbid rearranging the sentence slots
//! of any sentence whose word object stands inside the zone.

use vstd::prelude::*;

use crate::spawn::WordObject;
use crate::ui::SentenceSection;
use crate::world::WorldPos;

verus! {

/// Marker for a lock zone trigger.
#[derive(Copy, Clone, PartialEq, Eq, Structural, Debug, Default)]
pub struct LockZone;

/// A lock zone as a level file places it.
#[derive(Copy, Clone, PartialEq, Eq, Structural, Debug)]
pub struct LockZoneInWorld {
    pub transform: WorldPos,
}

/// Whether some colliding word object belongs to the given sentence owner.
pub open spec fn spec_owner_locked(colliding: Seq<WordObject>, owner: u64) -> bool {
    exists|j: int| 0 <= j < colliding.len() && colliding[j].sentence == owner
}

/// Recomputes every section's lock state from the word objects currently
/// inside lock zones: a section is locked exactly when a colliding word
/// object belongs to its sentence owner.  Everything else about a section
/// stays as it was.
pub fn lock_zone_update(sections: &mut Vec<SentenceSection>, colliding: &Vec<WordObject>)
    ensures
        final(sections)@.len() == old(sections)@.len(),
        forall|i: int|
            0 <= i < final(sections)@.len() ==> {
                &&& final(sections)@[i].for_phrase == old(sections)@[i].for_phrase
                &&& final(sections)@[i].sentence_entity == old(sections)@[i].sentence_entity
                &&& final(sections)@[i].locked == spec_owner_locked(
                    colliding@,
                    old(sections)@[i].sentence_entity,
                )
            },
{
    let n = sections.len();
    let mut i: usize = 0;
    while i < n
        invariant
            i <= n,
            n == sections@.len(),
            sections@.len() == old(sections)@.len(),
            forall|j: int| i <= j < n ==> sections@[j] == old(sections)@[j],
            forall|j: int|
                0 <= j < i ==> {
                    &&& sections@[j].for_phrase == old(sections)@[j].for_phrase
                    &&& sections@[j].sentence_entity == old(sections)@[j].sentence_entity
                    &&& sections@[j].locked == spec_owner_locked(
                        colliding@,
                        old(sections)@[j].sentence_entity,
                    )
                },
        decreases n - i,
    {
        let owner = sections[i].sentence_entity;
        let mut locked = false;
        let m = colliding.len();
        let mut k: usize = 0;
        while k < m
            invariant
                k <= m,
                m == colliding@.len(),
                locked == exists|j: int| 0 <= j < k && colliding@[j].sentence == owner,
            decreases m - k,
        {
            if colliding[k].sentence == owner {
                locked = true;
            }
            k = k + 1;
        }
        let section = SentenceSection {
            for_phrase: sections[i].for_phrase,
            sentence_entity: owner,
            locked,
        };
        sections.set(i, section);
        i = i + 1;
    }
}

} // verus!
