//! The sentence parser: an ordered run of word tokens becomes a phrase tree.
//!
//! The grammar has two mutually recursive productions:
//!
//! ```text
//! NounPhrase      := AdjectivePhrase Noun-word
//! AdjectivePhrase := Adjective-word (Conjunction-word AdjectivePhrase)?
//!                  | Conjunction-word AdjectivePhrase
//!                  | (nothing)
//! ```
//!
//! with one lookahead rule: an adjective-tagged token that is the last token
//! of the stream and is also noun-tagged is reserved for the noun slot, so
//! that a trailing dual-category word like `Baby` reads as the subject.  A
//! sentence must consume the whole stream; anything else resets the arena.

use vstd::prelude::*;

use crate::arena::{contains_id, PhraseData, PhraseID, PhraseKind, PhraseMap};
use crate::structure::{
    lemma_phrase_prefix, opt_word_seq, phrase_words_at, wf_adjective_at, wf_noun_at,
    SentenceStructure,
};
use crate::word_id::{
    spec_is_adjective, spec_is_conjunction, spec_is_noun, WordID,
};

verus! {

broadcast use crate::arena::lemma_phrase_id_nonneg;

/// The position just past the adjective phrase that starts at `pos`: the
/// specification-level mirror of the `AdjectivePhrase` production, lookahead
/// rule included.
pub open spec fn spec_adj_end(ws: Seq<WordID>, pos: int) -> int
    decreases ws.len() - pos,
{
    if 0 <= pos < ws.len() {
        if spec_is_adjective(ws[pos]) && !(pos == ws.len() - 1 && spec_is_noun(ws[pos])) {
            if pos + 1 < ws.len() && spec_is_conjunction(ws[pos + 1]) {
                spec_adj_end(ws, pos + 2)
            } else {
                pos + 1
            }
        } else if spec_is_conjunction(ws[pos]) {
            spec_adj_end(ws, pos + 1)
        } else {
            pos
        }
    } else {
        pos
    }
}

/// An adjective phrase never reads past the end of the stream and never
/// steps backwards.
pub proof fn lemma_adj_end_bounds(ws: Seq<WordID>, pos: int)
    requires
        0 <= pos <= ws.len(),
    ensures
        pos <= spec_adj_end(ws, pos) <= ws.len(),
    decreases ws.len() - pos,
{
    if pos < ws.len() {
        if spec_is_adjective(ws[pos]) && !(pos == ws.len() - 1 && spec_is_noun(ws[pos])) {
            if pos + 1 < ws.len() && spec_is_conjunction(ws[pos + 1]) {
                lemma_adj_end_bounds(ws, pos + 2);
            }
        } else if spec_is_conjunction(ws[pos]) {
            lemma_adj_end_bounds(ws, pos + 1);
        }
    }
}

/// Whether the grammar accepts the whole token run: an optional adjective
/// phrase followed by exactly one noun-tagged word, nothing left over.
pub open spec fn spec_accepts(ws: Seq<WordID>) -> bool {
    ws.len() > 0 && spec_adj_end(ws, 0) == ws.len() - 1 && spec_is_noun(ws[ws.len() - 1])
}

/// An adjective phrase reads the same through a shift: parsing a suffix
/// behind a fixed prefix mirrors parsing the suffix alone, because every
/// test the production makes is relative to the current position or to the
/// end of the stream.
pub proof fn lemma_adj_end_shift(p: Seq<WordID>, ws: Seq<WordID>, k: int)
    requires
        0 <= k <= ws.len(),
    ensures
        spec_adj_end(p + ws, p.len() + k) == p.len() + spec_adj_end(ws, k),
    decreases ws.len() - k,
{
    let full = p + ws;
    assert(full.len() == p.len() + ws.len());
    if k < ws.len() {
        assert(full[p.len() + k] == ws[k]);
        if spec_is_adjective(ws[k]) && !(k == ws.len() - 1 && spec_is_noun(ws[k])) {
            if k + 1 < ws.len() {
                assert(full[p.len() + k + 1] == ws[k + 1]);
                if spec_is_conjunction(ws[k + 1]) {
                    lemma_adj_end_shift(p, ws, k + 2);
                }
            }
        } else if spec_is_conjunction(ws[k]) {
            lemma_adj_end_shift(p, ws, k + 1);
        }
    }
}

/// Prefixing an adjective word joined on by a conjunction never changes
/// whether a run is accepted: the grammar reads the splice as one more
/// step of the same adjective phrase.
pub proof fn lemma_accepts_with_prefix(ws: Seq<WordID>, direction: WordID)
    requires
        spec_is_adjective(direction),
    ensures
        spec_accepts(seq![direction, WordID::And] + ws) == spec_accepts(ws),
{
    let p = seq![direction, WordID::And];
    let full = p + ws;
    assert(full[0] == direction);
    assert(full[1] == WordID::And);
    assert(full.len() == 2 + ws.len());
    if ws.len() == 0 {
        assert(spec_adj_end(full, 2) == 2);
        assert(!spec_accepts(full));
        assert(!spec_accepts(ws));
    } else {
        lemma_adj_end_shift(p, ws, 0);
        assert(spec_adj_end(full, 0) == spec_adj_end(full, 2));
        assert(full[full.len() - 1] == ws[ws.len() - 1]);
    }
}

/// Parses one `AdjectivePhrase` starting at `tok_pos`, appending fresh nodes
/// to `map`.  Returns the root of the parsed phrase and the position just
/// past it.  The phrase serializes back to exactly the tokens it consumed.
pub fn parse_adjective_phrase(words: &Vec<WordID>, tok_pos: usize, map: &mut PhraseMap) -> (r: (
    PhraseID,
    usize,
))
    requires
        tok_pos <= words@.len(),
    ensures
        old(map)@.len() <= final(map)@.len(),
        final(map)@.subrange(0, old(map)@.len() as int) == old(map)@,
        contains_id(final(map)@, r.0),
        wf_adjective_at(final(map)@, r.0.idx()),
        r.1 == spec_adj_end(words@, tok_pos as int),
        tok_pos <= r.1 <= words@.len(),
        phrase_words_at(final(map)@, r.0.idx()) == words@.subrange(tok_pos as int, r.1 as int),
        forall|j: int| old(map)@.len() <= j < final(map)@.len() ==> !final(map)@[j].locked,
    decreases words@.len() - tok_pos,
{
    let ghost m0 = map@;
    let n = words.len();
    if tok_pos < n {
        let w = words[tok_pos];
        let blocked = tok_pos == n - 1 && w.is_noun();
        if w.is_adjective() && !blocked {
            let leaf = map.insert(
                PhraseData { word: Some(w), kind: PhraseKind::Adjective, locked: false },
            );
            proof {
                assert(map@.subrange(0, m0.len() as int) =~= m0);
            }
            if tok_pos + 1 < n {
                let conj = words[tok_pos + 1];
                if conj.is_conjunction() {
                    let ghost m1 = map@;
                    let (r_id, end) = parse_adjective_phrase(words, tok_pos + 2, map);
                    proof {
                        lemma_phrase_prefix(m1, map@, leaf.idx());
                    }
                    let ghost m2 = map@;
                    let comb = map.insert(
                        PhraseData {
                            word: Some(conj),
                            kind: PhraseKind::Combine { l: leaf, r: r_id },
                            locked: false,
                        },
                    );
                    proof {
                        assert(map@.subrange(0, m2.len() as int) =~= m2);
                        lemma_phrase_prefix(m2, map@, leaf.idx());
                        lemma_phrase_prefix(m2, map@, r_id.idx());
                        assert(map@.subrange(0, m0.len() as int) =~= m0);
                        assert(phrase_words_at(map@, comb.idx()) == phrase_words_at(
                            map@,
                            leaf.idx(),
                        ) + opt_word_seq(Some(conj)) + phrase_words_at(map@, r_id.idx()));
                        assert(phrase_words_at(map@, leaf.idx()) =~= seq![w]);
                        assert(words@.subrange(tok_pos as int, end as int) =~= seq![w] + seq![conj]
                            + words@.subrange(tok_pos as int + 2, end as int));
                        assert(phrase_words_at(map@, comb.idx()) =~= words@.subrange(
                            tok_pos as int,
                            end as int,
                        ));
                    }
                    return (comb, end);
                }
            }
            proof {
                assert(phrase_words_at(map@, leaf.idx()) =~= words@.subrange(
                    tok_pos as int,
                    tok_pos as int + 1,
                ));
            }
            (leaf, tok_pos + 1)
        } else if w.is_conjunction() {
            let empty_l = map.insert(PhraseData::default());
            proof {
                assert(map@.subrange(0, m0.len() as int) =~= m0);
            }
            let ghost m1 = map@;
            let (r_id, end) = parse_adjective_phrase(words, tok_pos + 1, map);
            proof {
                lemma_phrase_prefix(m1, map@, empty_l.idx());
            }
            let ghost m2 = map@;
            let comb = map.insert(
                PhraseData {
                    word: Some(w),
                    kind: PhraseKind::Combine { l: empty_l, r: r_id },
                    locked: false,
                },
            );
            proof {
                assert(map@.subrange(0, m2.len() as int) =~= m2);
                lemma_phrase_prefix(m2, map@, empty_l.idx());
                lemma_phrase_prefix(m2, map@, r_id.idx());
                assert(map@.subrange(0, m0.len() as int) =~= m0);
                assert(phrase_words_at(map@, empty_l.idx()) =~= Seq::<WordID>::empty());
                assert(words@.subrange(tok_pos as int, end as int) =~= seq![w] + words@.subrange(
                    tok_pos as int + 1,
                    end as int,
                ));
                assert(phrase_words_at(map@, comb.idx()) =~= words@.subrange(
                    tok_pos as int,
                    end as int,
                ));
            }
            (comb, end)
        } else {
            let leaf = map.insert(PhraseData::default());
            proof {
                assert(map@.subrange(0, m0.len() as int) =~= m0);
                assert(phrase_words_at(map@, leaf.idx()) =~= words@.subrange(
                    tok_pos as int,
                    tok_pos as int,
                ));
            }
            (leaf, tok_pos)
        }
    } else {
        let leaf = map.insert(PhraseData::default());
        proof {
            assert(map@.subrange(0, m0.len() as int) =~= m0);
            assert(phrase_words_at(map@, leaf.idx()) =~= words@.subrange(
                tok_pos as int,
                tok_pos as int,
            ));
        }
        (leaf, tok_pos)
    }
}

/// Parses one `NounPhrase` starting at `tok_pos`: an adjective phrase and
/// then a noun-tagged word.  Returns the noun node and the position just
/// past it, or `None` when no noun follows the adjective phrase.
pub fn parse_noun_phrase(words: &Vec<WordID>, tok_pos: usize, map: &mut PhraseMap) -> (r: Option<
    (PhraseID, usize),
>)
    requires
        tok_pos <= words@.len(),
    ensures
        old(map)@.len() <= final(map)@.len(),
        final(map)@.subrange(0, old(map)@.len() as int) == old(map)@,
        ({
            let e = spec_adj_end(words@, tok_pos as int);
            match r {
                Some(p) => e < words@.len() && spec_is_noun(words@[e]) && p.1 == e + 1
                    && contains_id(final(map)@, p.0) && wf_noun_at(final(map)@, p.0.idx())
                    && final(map)@[p.0.idx()].word == Some(words@[e])
                    && !final(map)@[p.0.idx()].locked
                    && phrase_words_at(final(map)@, p.0.idx()) == words@.subrange(
                    tok_pos as int,
                    e + 1,
                ),
                None => !(e < words@.len() && spec_is_noun(words@[e])),
            }
        }),
        forall|j: int| old(map)@.len() <= j < final(map)@.len() ==> !final(map)@[j].locked,
{
    let ghost m0 = map@;
    let (adj_id, end) = parse_adjective_phrase(words, tok_pos, map);
    if end < words.len() {
        let noun_word = words[end];
        if noun_word.is_noun() {
            let ghost m1 = map@;
            let noun = map.insert(
                PhraseData {
                    word: Some(noun_word),
                    kind: PhraseKind::Noun { adjective: adj_id },
                    locked: false,
                },
            );
            proof {
                assert(map@.subrange(0, m1.len() as int) =~= m1);
                lemma_phrase_prefix(m1, map@, adj_id.idx());
                assert(map@.subrange(0, m0.len() as int) =~= m0);
                assert(words@.subrange(tok_pos as int, end + 1) =~= words@.subrange(
                    tok_pos as int,
                    end as int,
                ) + seq![noun_word]);
                assert(phrase_words_at(map@, noun.idx()) =~= words@.subrange(
                    tok_pos as int,
                    end + 1,
                ));
            }
            return Some((noun, end + 1));
        }
    }
    None
}

impl SentenceStructure {
    /// Rebuilds this sentence from the word tokens as the player laid them
    /// out, left to right.  The arena and root are wholesale replaced.  If
    /// the grammar accepts the run, the new tree is complete, serializes
    /// back to exactly the input, and `valid` is set; otherwise the arena is
    /// reset to a single empty placeholder and `valid` is cleared.
    pub fn regenerate(&mut self, words: &Vec<WordID>)
        ensures
            final(self).wf(),
            final(self).valid == spec_accepts(words@),
            spec_accepts(words@) ==> final(self).is_complete() && final(self).spec_words()
                == words@,
            !spec_accepts(words@) ==> final(self).is_reset(),
            forall|j: int| 0 <= j < final(self).sentence@.len() ==> !final(self).sentence@[j].locked,
    {
        self.sentence.clear();
        let parsed = parse_noun_phrase(words, 0, &mut self.sentence);
        proof {
            lemma_adj_end_bounds(words@, 0);
        }
        let mut ok = false;
        if let Some((root, end)) = parsed {
            if end == words.len() {
                self.root = root;
                self.valid = true;
                ok = true;
                proof {
                    assert(words@.subrange(0, words@.len() as int) =~= words@);
                }
            }
        }
        if !ok {
            self.sentence.clear();
            let root = self.sentence.insert(PhraseData::default());
            self.root = root;
            self.valid = false;
            proof {
                assert(self.sentence@ =~= seq![
                    PhraseData { word: None, kind: PhraseKind::Adjective, locked: false },
                ]);
            }
        }
    }
}

} // verus!
