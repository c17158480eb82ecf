//! Fans: world triggers that blow a fluttering adjective into the sentence
//! of a word object hovering over them ("fluttering and ..."), locked so
//! the player cannot rearrange it, and take the adjective back out when the
//! object leaves the draft.

use vstd::prelude::*;

use crate::arena::{contains_id, PhraseData, PhraseID, PhraseKind, PhraseMap};
use crate::parser::{lemma_accepts_with_prefix, spec_accepts};
use crate::structure::{phrase_words_at, wf_adjective_at, SentenceStructure};
use crate::word_id::WordID;

verus! {

broadcast use crate::arena::lemma_phrase_id_nonneg;

/// Whether a slot holds one of the fluttering words a fan can insert.
pub open spec fn spec_is_fluttering_word(w: Option<WordID>) -> bool {
    w == Some(WordID::FlutteringUp) || w == Some(WordID::FlutteringRight)
}

/// The first adjective slot of the subtree at `i`, in walk order: the node
/// itself, then a noun's adjective child, then a conjunction's left side
/// before its right.
pub open spec fn spec_first_adjective_slot(s: Seq<PhraseData>, i: int) -> Option<int>
    decreases i,
{
    if 0 <= i < s.len() {
        match s[i].kind {
            PhraseKind::Adjective => Some(i),
            PhraseKind::Noun { adjective } => {
                if adjective.idx() < i {
                    spec_first_adjective_slot(s, adjective.idx())
                } else {
                    None
                }
            },
            PhraseKind::Combine { l, r } => {
                if l.idx() < i && r.idx() < i {
                    match spec_first_adjective_slot(s, l.idx()) {
                        Some(k) => Some(k),
                        None => spec_first_adjective_slot(s, r.idx()),
                    }
                } else {
                    None
                }
            },
        }
    } else {
        None
    }
}

/// Finds the first adjective slot below an adjective-position node.  A
/// well-formed adjective tree always bottoms out in a leaf, so the walk
/// always finds one.
fn first_adjective_slot(map: &PhraseMap, id: PhraseID) -> (r: PhraseID)
    requires
        wf_adjective_at(map@, id.idx()),
    ensures
        spec_first_adjective_slot(map@, id.idx()) == Some(r.idx()),
        contains_id(map@, r),
    decreases id.idx(),
{
    match map.get(id).kind {
        PhraseKind::Adjective => id,
        PhraseKind::Combine { l, r: _ } => first_adjective_slot(map, l),
        PhraseKind::Noun { .. } => {
            proof {
                assert(false);
            }
            id
        },
    }
}

/// The first adjective slot of the whole sentence, or nothing when the
/// sentence is only the empty placeholder of a failed parse (which is
/// itself a bare adjective slot and is returned).
pub fn id_of_adjective(sentence: &SentenceStructure) -> (r: Option<PhraseID>)
    requires
        sentence.wf(),
    ensures
        match r {
            Some(p) => spec_first_adjective_slot(sentence.sentence@, sentence.root.idx()) == Some(
                p.idx(),
            ) && contains_id(sentence.sentence@, p),
            None => spec_first_adjective_slot(sentence.sentence@, sentence.root.idx()) is None,
        },
{
    match map_root_kind(sentence) {
        PhraseKind::Noun { adjective } => Some(first_adjective_slot(&sentence.sentence, adjective)),
        PhraseKind::Adjective => Some(sentence.root),
        PhraseKind::Combine { .. } => None,
    }
}

/// Reads the root node's kind.
fn map_root_kind(sentence: &SentenceStructure) -> (r: PhraseKind)
    requires
        sentence.wf(),
    ensures
        r == sentence.sentence@[sentence.root.idx()].kind,
{
    sentence.sentence.get(sentence.root).kind
}

/// Relabelling slots without touching their kind or word changes nothing
/// about well-formedness or serialization.
pub proof fn lemma_phrase_relabel(s1: Seq<PhraseData>, s2: Seq<PhraseData>, i: int)
    requires
        s1.len() == s2.len(),
        forall|k: int|
            0 <= k < s1.len() ==> (#[trigger] s2[k]).kind == s1[k].kind && s2[k].word == s1[k].word,
        0 <= i < s1.len(),
    ensures
        wf_adjective_at(s2, i) == wf_adjective_at(s1, i),
        phrase_words_at(s2, i) == phrase_words_at(s1, i),
    decreases i,
{
    match s1[i].kind {
        PhraseKind::Adjective => {},
        PhraseKind::Combine { l, r } => {
            if l.idx() < i && r.idx() < i {
                lemma_phrase_relabel(s1, s2, l.idx());
                lemma_phrase_relabel(s1, s2, r.idx());
            }
        },
        PhraseKind::Noun { adjective } => {
            if adjective.idx() < i {
                lemma_phrase_relabel(s1, s2, adjective.idx());
            }
        },
    }
}

/// A fan starts blowing on the sentence's word object: the fluttering
/// direction joins the sentence at its front as "(direction) and ...", and
/// the inserted joint and slot are locked so the player cannot pick them
/// up.  The sentence is rebuilt wholesale from the extended word run; the
/// splice succeeds exactly when the sentence itself was grammatical, and
/// an invalid sentence stays untouched.
pub fn fan_engage(sentence: &mut SentenceStructure, direction: WordID) -> (changed: bool)
    requires
        old(sentence).wf(),
        direction == WordID::FlutteringUp || direction == WordID::FlutteringRight,
    ensures
        final(sentence).wf(),
        changed == spec_accepts(old(sentence).spec_words()),
        changed ==> final(sentence).valid && final(sentence).is_complete()
            && final(sentence).spec_words() == seq![direction, WordID::And] + old(
            sentence,
        ).spec_words() && spec_fan_locked(*final(sentence)),
        !changed ==> *final(sentence) == *old(sentence),
{
    proof {
        lemma_accepts_with_prefix(old(sentence).spec_words(), direction);
    }
    let words = sentence.sentence_words();
    let mut rest = words;
    let mut new_words: Vec<WordID> = Vec::new();
    new_words.push(direction);
    new_words.push(WordID::And);
    new_words.append(&mut rest);
    proof {
        assert(new_words@ =~= seq![direction, WordID::And] + old(sentence).spec_words());
    }
    let mut scratch = SentenceStructure::new();
    scratch.regenerate(&new_words);
    if scratch.valid {
        let root_data = *scratch.sentence.get(scratch.root);
        if let PhraseKind::Noun { adjective } = root_data.kind {
            let adj_data = *scratch.sentence.get(adjective);
            if let PhraseKind::Combine { l, r: _ } = adj_data.kind {
                let ghost s0 = scratch.sentence@;
                scratch.sentence.set(
                    adjective,
                    PhraseData { word: adj_data.word, kind: adj_data.kind, locked: true },
                );
                let l_data = *scratch.sentence.get(l);
                scratch.sentence.set(
                    l,
                    PhraseData { word: l_data.word, kind: l_data.kind, locked: true },
                );
                proof {
                    let s2 = scratch.sentence@;
                    assert(forall|k: int|
                        0 <= k < s0.len() ==> (#[trigger] s2[k]).kind == s0[k].kind && s2[k].word
                            == s0[k].word);
                    lemma_phrase_relabel(s0, s2, adjective.idx());
                    assert(phrase_words_at(s2, scratch.root.idx()) =~= phrase_words_at(
                        s0,
                        scratch.root.idx(),
                    ));
                }
            }
        }
        *sentence = scratch;
        true
    } else {
        false
    }
}

/// Whether the sentence's locked fan insertion is in place: the adjective
/// child of the noun root, when it is a conjunction joint, is locked
/// together with its left slot.
pub open spec fn spec_fan_locked(st: SentenceStructure) -> bool {
    match st.sentence@[st.root.idx()].kind {
        PhraseKind::Noun { adjective } => match st.sentence@[adjective.idx()].kind {
            PhraseKind::Combine { l, .. } => st.sentence@[adjective.idx()].locked
                && st.sentence@[l.idx()].locked,
            _ => true,
        },
        _ => true,
    }
}

/// Whether a word run begins with a fan's splice: a fluttering word joined
/// on by the conjunction.
pub open spec fn spec_has_fan_prefix(ws: Seq<WordID>) -> bool {
    ws.len() >= 2 && spec_is_fluttering_word(Some(ws[0])) && ws[1] == WordID::And
}

/// A word object has left its fan: the spliced fluttering word and its
/// conjunction leave the front of the word run, and the sentence is
/// rebuilt wholesale from the rest — exactly the run the player had before
/// the fan engaged.  A sentence whose run does not start with the splice,
/// or whose remainder the grammar rejects, stays as it is.
pub fn fan_disengage(sentence: &mut SentenceStructure) -> (changed: bool)
    requires
        old(sentence).wf(),
    ensures
        final(sentence).wf(),
        changed == ({
            let ws = old(sentence).spec_words();
            spec_has_fan_prefix(ws) && spec_accepts(ws.subrange(2, ws.len() as int))
        }),
        changed ==> final(sentence).valid && final(sentence).is_complete()
            && final(sentence).spec_words() == old(sentence).spec_words().subrange(
            2,
            old(sentence).spec_words().len() as int,
        ),
        !changed ==> *final(sentence) == *old(sentence),
{
    let words = sentence.sentence_words();
    let n = words.len();
    if n >= 2 {
        let w0 = words[0];
        let w1 = words[1];
        let fl = matches!(w0, WordID::FlutteringUp | WordID::FlutteringRight);
        if fl && matches!(w1, WordID::And) {
            let mut rest: Vec<WordID> = Vec::new();
            let mut i: usize = 2;
            proof {
                assert(words@.subrange(2, 2) =~= Seq::<WordID>::empty());
            }
            while i < n
                invariant
                    2 <= i <= n,
                    n == words@.len(),
                    rest@ == words@.subrange(2, i as int),
                decreases n - i,
            {
                rest.push(words[i]);
                proof {
                    assert(words@.subrange(2, i as int).push(words@[i as int]) =~= words@.subrange(
                        2,
                        i as int + 1,
                    ));
                }
                i = i + 1;
            }
            let mut scratch = SentenceStructure::new();
            scratch.regenerate(&rest);
            if scratch.valid {
                *sentence = scratch;
                return true;
            }
            return false;
        }
    }
    false
}

/// Splicing a fluttering word in and taking it back out restores the word
/// run exactly: engaging an accepted sentence prepends the direction and
/// its conjunction, the extended run is accepted exactly when the old one
/// was, and the splice is precisely the prefix disengaging removes.
pub proof fn lemma_fan_round_trip(ws: Seq<WordID>, direction: WordID)
    requires
        direction == WordID::FlutteringUp || direction == WordID::FlutteringRight,
    ensures
        spec_accepts(seq![direction, WordID::And] + ws) == spec_accepts(ws),
        spec_has_fan_prefix(seq![direction, WordID::And] + ws),
        (seq![direction, WordID::And] + ws).subrange(
            2,
            (seq![direction, WordID::And] + ws).len() as int,
        ) == ws,
{
    lemma_accepts_with_prefix(ws, direction);
    let full = seq![direction, WordID::And] + ws;
    assert(full[0] == direction);
    assert(full[1] == WordID::And);
    assert(full.subrange(2, full.len() as int) =~= ws);
}

} // verus!
