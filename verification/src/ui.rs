//! The sentence-builder interface model: named roles for dock and joint
//! nodes, the per-owner vocabulary, the left-to-right ordering of docked
//! tokens, and the rebuild of a sentence from that ordering.

use vstd::prelude::*;

use crate::arena::PhraseID;
use crate::drag_and_drop::DraggableWord;
use crate::entity::Entity;
use crate::parser::spec_accepts;
use crate::structure::SentenceStructure;
use crate::word_id::WordID;

verus! {

broadcast use crate::arena::lemma_phrase_id_nonneg;

/// The UI region that mirrors one owner's sentence.  A token dropped inside
/// this region joins that owner's word run.
#[derive(Copy, Clone, PartialEq, Eq, Structural, Debug)]
pub struct SentenceUIParent {
    pub sentence_entity: Entity,
}

/// A dock node of the sentence UI, tagged with the phrase slot it stands
/// for and the owner it belongs to.  A dock holds at most one word token.
#[derive(Copy, Clone, PartialEq, Eq, Structural, Debug)]
pub struct SentenceSection {
    pub for_phrase: PhraseID,
    pub sentence_entity: Entity,
    pub locked: bool,
}

/// Marker for a structural joint of the sentence UI: a node that groups
/// docks but holds no word of its own.
#[derive(Copy, Clone, PartialEq, Eq, Structural, Debug)]
pub struct SentenceJoint;

/// Marker for the inventory region that holds the tokens outside any
/// sentence.
#[derive(Copy, Clone, PartialEq, Eq, Structural, Debug)]
pub struct Inventory;

/// The named role of a sentence-UI node.  The rank order over these roles
/// is the canonical sibling order under every joint, so the visual layout
/// always matches the grammatical structure regardless of spawn order.
#[derive(Copy, Clone, PartialEq, Eq, PartialOrd, Ord, Structural, Debug)]
pub enum SentenceUIPart {
    CombineJointL,
    CombineJoint,
    AndSlot,
    CombineJointR,
    AdjectiveSlot,
    NounJoint,
    NounSlot,
}

impl SentenceUIPart {
    /// The canonical position of this role among its siblings.
    pub open spec fn spec_rank(self) -> int {
        match self {
            SentenceUIPart::CombineJointL => 0,
            SentenceUIPart::CombineJoint => 1,
            SentenceUIPart::AndSlot => 2,
            SentenceUIPart::CombineJointR => 3,
            SentenceUIPart::AdjectiveSlot => 4,
            SentenceUIPart::NounJoint => 5,
            SentenceUIPart::NounSlot => 6,
        }
    }

    /// The canonical position of this role among its siblings.
    pub fn rank(self) -> (r: u8)
        ensures
            r as int == self.spec_rank(),
    {
        match self {
            SentenceUIPart::CombineJointL => 0,
            SentenceUIPart::CombineJoint => 1,
            SentenceUIPart::AndSlot => 2,
            SentenceUIPart::CombineJointR => 3,
            SentenceUIPart::AdjectiveSlot => 4,
            SentenceUIPart::NounJoint => 5,
            SentenceUIPart::NounSlot => 6,
        }
    }

    /// Whether a node of this role is a dock that can hold a word token,
    /// rather than a purely structural joint.
    pub open spec fn spec_is_slot(self) -> bool {
        match self {
            SentenceUIPart::NounSlot | SentenceUIPart::AndSlot | SentenceUIPart::AdjectiveSlot =>
                true,
            _ => false,
        }
    }

    /// Whether a node of this role is a dock that can hold a word token.
    pub fn is_slot(self) -> (r: bool)
        ensures
            r == self.spec_is_slot(),
    {
        matches!(
            self,
            SentenceUIPart::NounSlot | SentenceUIPart::AndSlot | SentenceUIPart::AdjectiveSlot
        )
    }
}

/// A word entered an owner's vocabulary.
#[derive(Copy, Clone, PartialEq, Eq, Structural, Debug)]
pub enum VocabChange {
    Added { word: WordID, to: Entity },
}

/// The set of words an owner has learned, stored without duplicates.
#[derive(Debug)]
pub struct Vocabulary {
    words: Vec<WordID>,
}

impl View for Vocabulary {
    type V = Set<WordID>;

    closed spec fn view(&self) -> Set<WordID> {
        Set::new(|w: WordID| self.words@.contains(w))
    }
}

impl Vocabulary {
    /// The backing list never holds a word twice.
    pub closed spec fn wf(self) -> bool {
        forall|i: int, j: int|
            0 <= i < j < self.words@.len() ==> self.words@[i] != self.words@[j]
    }

    /// An empty vocabulary.
    pub fn new() -> (r: Self)
        ensures
            r.wf(),
            r@ == Set::<WordID>::empty(),
    {
        let r = Vocabulary { words: Vec::new() };
        proof {
            assert(r@ =~= Set::<WordID>::empty());
        }
        r
    }

    /// Whether the owner knows this word.
    pub fn contains(&self, word: WordID) -> (r: bool)
        ensures
            r == self@.contains(word),
    {
        let n = self.words.len();
        let mut i: usize = 0;
        while i < n
            invariant
                i <= n,
                n == self.words@.len(),
                forall|j: int| 0 <= j < i ==> self.words@[j] != word,
            decreases n - i,
        {
            if self.words[i] == word {
                return true;
            }
            i = i + 1;
        }
        false
    }

    /// Adds a word; a word already known stays a single entry.
    pub fn insert(&mut self, word: WordID)
        requires
            old(self).wf(),
        ensures
            final(self).wf(),
            final(self)@ == old(self)@.insert(word),
    {
        if !self.contains(word) {
            self.words.push(word);
            proof {
                assert(forall|w: WordID|
                    old(self).words@.contains(w) ==> #[trigger] self.words@.contains(w)) by {
                    assert(forall|j: int|
                        0 <= j < old(self).words@.len() ==> self.words@[j] == old(
                            self,
                        ).words@[j]);
                }
                assert(self.words@.last() == word);
                assert(forall|w: WordID|
                    #[trigger] self.words@.contains(w) ==> old(self).words@.contains(w) || w
                        == word) by {
                    assert(forall|j: int|
                        0 <= j < old(self).words@.len() ==> self.words@[j] == old(
                            self,
                        ).words@[j]);
                }
                assert(final(self)@ =~= old(self)@.insert(word));
            }
        } else {
            proof {
                assert(final(self)@ =~= old(self)@.insert(word));
            }
        }
    }
}

/// Applies one vocabulary change: the word joins the owner's vocabulary and
/// one fresh, unlocked token for it appears in the inventory.  A token is
/// spawned for every learn event, even for a word already known.
pub fn update_vocabulary(vocab: &mut Vocabulary, change: &VocabChange) -> (token: DraggableWord)
    requires
        old(vocab).wf(),
    ensures
        final(vocab).wf(),
        match *change {
            VocabChange::Added { word, to } => final(vocab)@ == old(vocab)@.insert(word) && token
                == (DraggableWord { word_id: word, locked: false }),
        },
{
    match change {
        VocabChange::Added { word, to: _ } => {
            vocab.insert(*word);
            DraggableWord { word_id: *word, locked: false }
        },
    }
}

/// Mirrors a dock's lock state onto the word token inside it: while the
/// slot is locked the token refuses drags and the host dims it to gray.
pub fn indicate_sentence_section_locks(section_locked: bool, token: &mut DraggableWord) -> (gray:
    bool)
    ensures
        final(token).word_id == old(token).word_id,
        final(token).locked == section_locked,
        gray == section_locked,
{
    token.locked = section_locked;
    section_locked
}

/// One docked token as read back from the layout: its entity, its word,
/// and the horizontal screen position that orders it within the sentence.
#[derive(Copy, Clone, PartialEq, Eq, Structural, Debug)]
pub struct DockedToken {
    pub entity: Entity,
    pub word_id: WordID,
    pub x: u32,
}

/// Inserts a token into a position-sorted run, after every token that sits
/// at or left of it, so that tokens at equal positions keep their order.
pub open spec fn spec_insert_token(s: Seq<DockedToken>, t: DockedToken) -> Seq<DockedToken>
    decreases s.len(),
{
    if s.len() == 0 {
        seq![t]
    } else if s.last().x <= t.x {
        s.push(t)
    } else {
        spec_insert_token(s.drop_last(), t).push(s.last())
    }
}

/// The docked tokens ordered left to right by horizontal position; tokens
/// at equal positions keep the order the host listed them in.
pub open spec fn spec_sort_tokens(s: Seq<DockedToken>) -> Seq<DockedToken>
    decreases s.len(),
{
    if s.len() == 0 {
        Seq::<DockedToken>::empty()
    } else {
        spec_insert_token(spec_sort_tokens(s.drop_last()), s.last())
    }
}

/// Whether a token run is ordered left to right.
pub open spec fn spec_tokens_sorted(s: Seq<DockedToken>) -> bool {
    forall|i: int, j: int| 0 <= i < j < s.len() ==> s[i].x <= s[j].x
}

/// Insertion keeps a run sorted and only adds the one token.
pub proof fn lemma_insert_token_sorted(s: Seq<DockedToken>, t: DockedToken)
    requires
        spec_tokens_sorted(s),
    ensures
        spec_tokens_sorted(spec_insert_token(s, t)),
        spec_insert_token(s, t).to_multiset() == s.to_multiset().insert(t),
        spec_insert_token(s, t).len() == s.len() + 1,
    decreases s.len(),
{
    broadcast use vstd::seq_lib::group_to_multiset_ensures;

    if s.len() == 0 {
        assert(seq![t].drop_last() =~= Seq::<DockedToken>::empty());
        assert(seq![t] =~= Seq::<DockedToken>::empty().push(t));
    } else if s.last().x <= t.x {
        assert(s.push(t).drop_last() =~= s);
    } else {
        assert(spec_tokens_sorted(s.drop_last()));
        lemma_insert_token_sorted(s.drop_last(), t);
        let inner = spec_insert_token(s.drop_last(), t);
        assert(forall|i: int|
            0 <= i < inner.len() ==> #[trigger] inner[i].x <= s.last().x) by {
            assert(forall|i: int|
                0 <= i < inner.len() ==> inner.to_multiset().contains(#[trigger] inner[i]));
            assert(forall|x: DockedToken|
                #[trigger] inner.to_multiset().contains(x) ==> s.drop_last().to_multiset().contains(
                    x,
                ) || x == t);
            assert(forall|x: DockedToken|
                #[trigger] s.drop_last().to_multiset().contains(x) ==> s.drop_last().contains(x));
            assert(forall|i: int|
                0 <= i < s.len() - 1 ==> #[trigger] s.drop_last()[i].x <= s.last().x);
        }
        assert(spec_tokens_sorted(inner.push(s.last())));
        assert(s.drop_last().push(s.last()) =~= s);
    }
}

/// Sorting orders the run and keeps exactly the same tokens.
pub proof fn lemma_sort_tokens_sorted(s: Seq<DockedToken>)
    ensures
        spec_tokens_sorted(spec_sort_tokens(s)),
        spec_sort_tokens(s).to_multiset() == s.to_multiset(),
        spec_sort_tokens(s).len() == s.len(),
    decreases s.len(),
{
    broadcast use vstd::seq_lib::group_to_multiset_ensures;

    if s.len() == 0 {
    } else {
        lemma_sort_tokens_sorted(s.drop_last());
        lemma_insert_token_sorted(spec_sort_tokens(s.drop_last()), s.last());
        assert(s.drop_last().push(s.last()) =~= s);
    }
}

/// Inserts one token into an already sorted vector.
fn insert_token(v: Vec<DockedToken>, t: DockedToken) -> (r: Vec<DockedToken>)
    ensures
        r@ == spec_insert_token(v@, t),
    decreases v@.len(),
{
    let mut v = v;
    if v.len() == 0 {
        v.push(t);
        proof {
            assert(v@ =~= seq![t]);
        }
        v
    } else if v[v.len() - 1].x <= t.x {
        v.push(t);
        v
    } else {
        let last = v.pop().unwrap();
        let mut r = insert_token(v, t);
        r.push(last);
        r
    }
}

/// Sorts the docked tokens left to right by horizontal position, keeping
/// the listed order of tokens at equal positions.
pub fn sort_tokens(tokens: Vec<DockedToken>) -> (r: Vec<DockedToken>)
    ensures
        r@ == spec_sort_tokens(tokens@),
    decreases tokens@.len(),
{
    let mut tokens = tokens;
    if tokens.len() == 0 {
        tokens
    } else {
        let last = tokens.pop().unwrap();
        let sorted = sort_tokens(tokens);
        insert_token(sorted, last)
    }
}

/// The word run a token sequence spells, left to right.
pub open spec fn spec_token_words(s: Seq<DockedToken>) -> Seq<WordID> {
    s.map_values(|t: DockedToken| t.word_id)
}

/// The tokens as the sort must see them: the token that just moved counts
/// at its pending drop position, every other token at its current layout
/// position.
pub open spec fn spec_effective_tokens(
    s: Seq<DockedToken>,
    moved: Entity,
    moved_x: u32,
) -> Seq<DockedToken> {
    s.map_values(
        |t: DockedToken|
            if t.entity == moved {
                DockedToken { entity: t.entity, word_id: t.word_id, x: moved_x }
            } else {
                t
            },
    )
}

/// Rebuilds an owner's sentence after a drop: reads the docked tokens left
/// to right (the moved token at its pending position), feeds the word run
/// to the parser, and wholesale replaces the owner's tree.  Returns the
/// word run that was parsed.
pub fn regenerate_sentence_structure(
    tokens: &Vec<DockedToken>,
    moved: Entity,
    moved_x: u32,
    sentence: &mut SentenceStructure,
) -> (words: Vec<WordID>)
    ensures
        words@ == spec_token_words(spec_sort_tokens(spec_effective_tokens(tokens@, moved, moved_x))),
        final(sentence).wf(),
        final(sentence).valid == spec_accepts(words@),
        spec_accepts(words@) ==> final(sentence).is_complete() && final(sentence).spec_words()
            == words@,
        !spec_accepts(words@) ==> final(sentence).is_reset(),
{
    let n = tokens.len();
    let mut eff: Vec<DockedToken> = Vec::new();
    let mut i: usize = 0;
    while i < n
        invariant
            i <= n,
            n == tokens@.len(),
            eff@.len() == i,
            forall|j: int|
                0 <= j < i ==> eff@[j] == spec_effective_tokens(tokens@, moved, moved_x)[j],
        decreases n - i,
    {
        let t = tokens[i];
        if t.entity == moved {
            eff.push(DockedToken { entity: t.entity, word_id: t.word_id, x: moved_x });
        } else {
            eff.push(t);
        }
        i = i + 1;
    }
    proof {
        assert(eff@ =~= spec_effective_tokens(tokens@, moved, moved_x));
    }
    let sorted = sort_tokens(eff);
    let mut words: Vec<WordID> = Vec::new();
    let mut k: usize = 0;
    while k < sorted.len()
        invariant
            k <= sorted@.len(),
            words@.len() == k,
            forall|j: int| 0 <= j < k ==> words@[j] == sorted@[j].word_id,
        decreases sorted@.len() - k,
    {
        words.push(sorted[k].word_id);
        k = k + 1;
    }
    proof {
        assert(words@ =~= spec_token_words(sorted@));
    }
    sentence.regenerate(&words);
    words
}

} // verus!
