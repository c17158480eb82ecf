//! The phrase arena: a minimal slot map from stable handles to phrase nodes.
//!
//! Handles are never removed one by one; the only deletion path is replacing
//! the whole arena.  A handle is only meaningful for the arena that issued it,
//! and only until that arena is cleared: callers must respect this, and every
//! access states it as a precondition.

use vstd::prelude::*;

use crate::word_id::WordID;

verus! {

/// A stable, opaque handle into a `PhraseMap`.
#[derive(Copy, Clone, PartialEq, Eq, Structural, Debug, Hash)]
pub struct PhraseID {
    idx: usize,
}

impl PhraseID {
    /// The slot this handle addresses.
    pub closed spec fn idx(self) -> int {
        self.idx as int
    }

    /// The slot number behind this handle, for persisting a tree: a saved
    /// node refers to its children by their slot numbers.
    pub fn index(self) -> (r: usize)
        ensures
            r as int == self.idx(),
    {
        self.idx
    }
}

/// A handle always addresses a slot at a nonnegative index.
pub broadcast proof fn lemma_phrase_id_nonneg(id: PhraseID)
    ensures
        #[trigger] id.idx() >= 0,
{
}

/// Handles that address the same slot are the same handle.
pub broadcast proof fn lemma_phrase_id_injective(a: PhraseID, b: PhraseID)
    requires
        #[trigger] a.idx() == #[trigger] b.idx(),
    ensures
        a == b,
{
}

/// One node of a parsed sentence tree.
#[derive(Copy, Clone, PartialEq, Eq, Debug)]
pub struct PhraseData {
    pub word: Option<WordID>,
    pub kind: PhraseKind,
    pub locked: bool,
}

/// The grammatical role of a phrase node.  Child handles always point at
/// earlier slots of the same arena, which keeps every reachable tree acyclic.
#[derive(Copy, Clone, PartialEq, Eq, Structural, Debug)]
pub enum PhraseKind {
    Noun { adjective: PhraseID },
    Adjective,
    Combine { l: PhraseID, r: PhraseID },
}

impl Default for PhraseData {
    /// An empty, unlocked adjective slot.
    fn default() -> (r: Self)
        ensures
            r.word == Option::<WordID>::None,
            r.kind == PhraseKind::Adjective,
            !r.locked,
    {
        PhraseData { word: None, kind: PhraseKind::Adjective, locked: false }
    }
}

/// The arena of phrase nodes owned by one sentence.
#[derive(Debug)]
pub struct PhraseMap {
    slots: Vec<PhraseData>,
}

impl View for PhraseMap {
    type V = Seq<PhraseData>;

    closed spec fn view(&self) -> Seq<PhraseData> {
        self.slots@
    }
}

/// Whether `id` addresses a live slot of an arena whose contents are `s`.
pub open spec fn contains_id(s: Seq<PhraseData>, id: PhraseID) -> bool {
    0 <= id.idx() < s.len()
}

impl PhraseMap {
    /// An arena with no slots.
    pub fn new() -> (r: Self)
        ensures
            r@ == Seq::<PhraseData>::empty(),
    {
        PhraseMap { slots: Vec::new() }
    }

    /// The number of live slots.
    pub fn len(&self) -> (r: usize)
        ensures
            r == self@.len(),
    {
        self.slots.len()
    }

    /// Stores `data` in a fresh slot and hands back its stable handle.
    /// Existing handles keep addressing the slots they did before.
    pub fn insert(&mut self, data: PhraseData) -> (id: PhraseID)
        ensures
            final(self)@ == old(self)@.push(data),
            id.idx() == old(self)@.len(),
            contains_id(final(self)@, id),
            final(self)@[id.idx()] == data,
    {
        let idx = self.slots.len();
        self.slots.push(data);
        PhraseID { idx }
    }

    /// Reads the slot `id` addresses.  The handle must belong to this arena:
    /// handles are never checked against foreign arenas.
    pub fn get(&self, id: PhraseID) -> (r: &PhraseData)
        requires
            contains_id(self@, id),
        ensures
            *r == self@[id.idx()],
    {
        &self.slots[id.idx]
    }

    /// Overwrites the slot `id` addresses.
    pub fn set(&mut self, id: PhraseID, data: PhraseData)
        requires
            contains_id(old(self)@, id),
        ensures
            final(self)@ == old(self)@.update(id.idx(), data),
    {
        self.slots[id.idx] = data;
    }

    /// Reads every slot in order, for persisting the whole arena.
    pub fn entries(&self) -> (r: &Vec<PhraseData>)
        ensures
            r@ == self@,
    {
        &self.slots
    }

    /// Drops every slot.  All handles issued so far become invalid.
    pub fn clear(&mut self)
        ensures
            final(self)@ == Seq::<PhraseData>::empty(),
    {
        self.slots = Vec::new();
    }
}

} // verus!
