//! The parsed sentence: one arena of phrase nodes, a designated root, and a
//! validity flag toggled by each parse.
//!
//! Every reachable child handle points at an earlier arena slot, so each
//! reachable tree is acyclic and walks terminate.  A sentence holds exactly
//! one noun-kind phrase (at the root) after a successful parse.

use vstd::prelude::*;

use crate::arena::{contains_id, PhraseData, PhraseID, PhraseKind, PhraseMap};
use crate::word_id::{spec_is_conjunction, WordID};

verus! {

broadcast use crate::arena::lemma_phrase_id_nonneg;

/// The serialization of an optional word slot: the word itself, or nothing.
pub open spec fn opt_word_seq(w: Option<WordID>) -> Seq<WordID> {
    match w {
        Some(x) => seq![x],
        None => Seq::<WordID>::empty(),
    }
}

/// Whether the node at slot `i` is well formed for an adjective position:
/// an adjective leaf, or a conjunction joint over two earlier adjective
/// positions.  A joint always carries its conjunction word, and a noun may
/// not stand below another phrase.
pub open spec fn wf_adjective_at(s: Seq<PhraseData>, i: int) -> bool
    decreases i,
{
    if 0 <= i < s.len() {
        match s[i].kind {
            PhraseKind::Adjective => true,
            PhraseKind::Combine { l, r } => {
                if l.idx() < i && r.idx() < i {
                    &&& match s[i].word {
                        Some(w) => spec_is_conjunction(w),
                        None => false,
                    }
                    &&& wf_adjective_at(s, l.idx())
                    &&& wf_adjective_at(s, r.idx())
                } else {
                    false
                }
            },
            PhraseKind::Noun { .. } => false,
        }
    } else {
        false
    }
}

/// Whether the node at slot `i` is a well-formed noun phrase: a noun node
/// whose adjective child is an earlier, well-formed adjective position.
pub open spec fn wf_noun_at(s: Seq<PhraseData>, i: int) -> bool {
    if 0 <= i < s.len() {
        match s[i].kind {
            PhraseKind::Noun { adjective } => adjective.idx() < i && wf_adjective_at(
                s,
                adjective.idx(),
            ),
            _ => false,
        }
    } else {
        false
    }
}

/// The in-order serialization of the tree rooted at slot `i`: the adjective
/// phrase left to right, then the noun word.
pub open spec fn phrase_words_at(s: Seq<PhraseData>, i: int) -> Seq<WordID>
    decreases i,
{
    if 0 <= i < s.len() {
        match s[i].kind {
            PhraseKind::Adjective => opt_word_seq(s[i].word),
            PhraseKind::Combine { l, r } => {
                if l.idx() < i && r.idx() < i {
                    phrase_words_at(s, l.idx()) + opt_word_seq(s[i].word) + phrase_words_at(
                        s,
                        r.idx(),
                    )
                } else {
                    Seq::<WordID>::empty()
                }
            },
            PhraseKind::Noun { adjective } => {
                if adjective.idx() < i {
                    phrase_words_at(s, adjective.idx()) + opt_word_seq(s[i].word)
                } else {
                    Seq::<WordID>::empty()
                }
            },
        }
    } else {
        Seq::<WordID>::empty()
    }
}

/// Extending an arena with fresh slots changes nothing about the nodes that
/// were already there: well-formedness and serialization only read slots at
/// or below the node's own index.
pub proof fn lemma_phrase_prefix(s1: Seq<PhraseData>, s2: Seq<PhraseData>, i: int)
    requires
        s1.len() <= s2.len(),
        s2.subrange(0, s1.len() as int) == s1,
        0 <= i < s1.len(),
    ensures
        wf_adjective_at(s2, i) == wf_adjective_at(s1, i),
        wf_noun_at(s2, i) == wf_noun_at(s1, i),
        phrase_words_at(s2, i) == phrase_words_at(s1, i),
    decreases i,
{
    assert(s2[i] == s1[i]) by {
        assert(s2.subrange(0, s1.len() as int)[i] == s2[i]);
    }
    match s1[i].kind {
        PhraseKind::Adjective => {},
        PhraseKind::Combine { l, r } => {
            if l.idx() < i && r.idx() < i {
                lemma_phrase_prefix(s1, s2, l.idx());
                lemma_phrase_prefix(s1, s2, r.idx());
            }
        },
        PhraseKind::Noun { adjective } => {
            if adjective.idx() < i {
                lemma_phrase_prefix(s1, s2, adjective.idx());
            }
        },
    }
}

/// Fired once per re-parse, successful or not, so that the UI synchronizer
/// and the object reconciler pick the new tree up.
#[derive(Copy, Clone, PartialEq, Eq, Structural, Debug)]
pub struct SentenceStructureChanged {
    pub on: crate::entity::Entity,
}

/// A sentence owner's parsed phrase tree.  The arena and root are wholesale
/// replaced on every re-parse; `valid` records whether the last parse
/// produced a complete noun-rooted tree.
#[derive(Debug)]
pub struct SentenceStructure {
    pub sentence: PhraseMap,
    pub root: PhraseID,
    pub valid: bool,
}

impl SentenceStructure {
    /// The root handle addresses a live slot holding either a noun phrase
    /// over a well-formed adjective tree, or the empty adjective placeholder
    /// left behind by a failed parse.
    pub open spec fn wf(self) -> bool {
        contains_id(self.sentence@, self.root) && match self.sentence@[self.root.idx()].kind {
            PhraseKind::Noun { adjective } => adjective.idx() < self.root.idx()
                && wf_adjective_at(self.sentence@, adjective.idx()),
            PhraseKind::Adjective => true,
            PhraseKind::Combine { .. } => false,
        }
    }

    /// The in-order serialization of the whole sentence.
    pub open spec fn spec_words(self) -> Seq<WordID> {
        phrase_words_at(self.sentence@, self.root.idx())
    }

    /// Whether the last parse left a complete sentence: a noun-rooted tree
    /// with a word in the noun slot.
    pub open spec fn is_complete(self) -> bool {
        wf_noun_at(self.sentence@, self.root.idx()) && self.sentence@[self.root.idx()].word
            is Some
    }

    /// The shape a fresh sentence owner starts with: an empty, unlocked
    /// noun slot over an empty, unlocked adjective slot, not yet valid.
    /// The UI renders this differently from the bare placeholder a failed
    /// parse leaves behind, so constructors pin it exactly.
    pub open spec fn is_initial(self) -> bool {
        &&& self.sentence@.len() == 2
        &&& self.root.idx() == 1
        &&& self.sentence@[0] == (PhraseData {
            word: None,
            kind: PhraseKind::Adjective,
            locked: false,
        })
        &&& self.sentence@[1].word == Option::<WordID>::None
        &&& !self.sentence@[1].locked
        &&& match self.sentence@[1].kind {
            PhraseKind::Noun { adjective } => adjective.idx() == 0,
            _ => false,
        }
        &&& !self.valid
    }

    /// The state a failed parse leaves behind: one empty, unlocked adjective
    /// placeholder slot and a cleared validity flag.
    pub open spec fn is_reset(self) -> bool {
        &&& self.sentence@ == seq![
            PhraseData { word: None, kind: PhraseKind::Adjective, locked: false },
        ]
        &&& self.root.idx() == 0
        &&& !self.valid
    }

    /// A sentence with an empty noun slot over an empty adjective slot: the
    /// shape a sentence owner starts with before any word is docked.
    pub fn new() -> (r: Self)
        ensures
            r.wf(),
            r.is_initial(),
            !r.valid,
            !r.is_complete(),
            r.spec_words() == Seq::<WordID>::empty(),
    {
        let mut map = PhraseMap::new();
        let adjective = map.insert(
            PhraseData { word: None, kind: PhraseKind::Adjective, locked: false },
        );
        let root = map.insert(
            PhraseData { word: None, kind: PhraseKind::Noun { adjective }, locked: false },
        );
        let r = SentenceStructure { sentence: map, root, valid: false };
        proof {
            assert(phrase_words_at(r.sentence@, 0) =~= Seq::<WordID>::empty());
            assert(r.spec_words() =~= Seq::<WordID>::empty());
        }
        r
    }

    /// Collects the in-order word sequence of the current tree, so that the
    /// sentence can be re-serialized or compared against the tokens the
    /// player laid out.
    pub fn sentence_words(&self) -> (r: Vec<WordID>)
        requires
            self.wf(),
        ensures
            r@ == self.spec_words(),
    {
        let mut out: Vec<WordID> = Vec::new();
        let root_data = *self.sentence.get(self.root);
        match root_data.kind {
            PhraseKind::Noun { adjective } => {
                collect_adjective_words(&self.sentence, adjective, &mut out);
                if let Some(w) = root_data.word {
                    out.push(w);
                }
            },
            PhraseKind::Adjective => {
                if let Some(w) = root_data.word {
                    out.push(w);
                }
            },
            PhraseKind::Combine { .. } => {
                proof {
                    assert(false);
                }
            },
        }
        proof {
            assert(out@ =~= self.spec_words());
        }
        out
    }
}

/// Appends the in-order words of the adjective-position node at `id` to
/// `out`.
fn collect_adjective_words(map: &PhraseMap, id: PhraseID, out: &mut Vec<WordID>)
    requires
        wf_adjective_at(map@, id.idx()),
    ensures
        final(out)@ == old(out)@ + phrase_words_at(map@, id.idx()),
    decreases id.idx(),
{
    let data = *map.get(id);
    match data.kind {
        PhraseKind::Adjective => {
            if let Some(w) = data.word {
                out.push(w);
            }
            proof {
                assert(out@ =~= old(out)@ + phrase_words_at(map@, id.idx()));
            }
        },
        PhraseKind::Combine { l, r } => {
            collect_adjective_words(map, l, out);
            if let Some(w) = data.word {
                out.push(w);
            }
            collect_adjective_words(map, r, out);
            proof {
                assert(out@ =~= old(out)@ + phrase_words_at(map@, id.idx()));
            }
        },
        PhraseKind::Noun { .. } => {
            proof {
                assert(false);
            }
        },
    }
}

} // verus!
