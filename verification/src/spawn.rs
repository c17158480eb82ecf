//! Walks a valid sentence tree, resolves the adjective effects, and decides
//! how the live game objects under the sentence owner must change: one
//! object per distinct noun, reused when the same noun persists across
//! re-parses, despawned when no longer referenced.

use vstd::prelude::*;

use crate::arena::{PhraseData, PhraseID, PhraseKind, PhraseMap};
use crate::entity::Entity;
use crate::structure::{phrase_words_at, wf_adjective_at, SentenceStructure};
use crate::word_id::WordID;

verus! {

broadcast use crate::arena::lemma_phrase_id_nonneg;

/// The sentence cannot be turned into a live object.
#[derive(Copy, Clone, PartialEq, Eq, Structural, Debug)]
pub enum SentenceParseError {
    Other,
}

/// Direction of the fluttering force an adjective applies.
#[derive(Copy, Clone, PartialEq, Eq, Structural, Debug)]
pub enum FlutteringDirection {
    Up,
    Down,
    Left,
    Right,
}

/// The resolved physical effects of a sentence's adjectives.  Each flag is
/// independently settable; collecting over a conjunction unions the flags,
/// and the fluttering direction is last-write-wins in traversal order.
#[derive(Copy, Clone, PartialEq, Eq, Structural, Debug)]
pub struct AdjectiveStates {
    pub wide: bool,
    pub tall: bool,
    pub fast: bool,
    pub fluttering: Option<FlutteringDirection>,
}

impl Default for AdjectiveStates {
    /// No effect at all.
    fn default() -> (r: Self)
        ensures
            r == spec_default_states(),
    {
        AdjectiveStates { wide: false, tall: false, fast: false, fluttering: None }
    }
}

/// The adjective state before any adjective is collected.
pub open spec fn spec_default_states() -> AdjectiveStates {
    AdjectiveStates { wide: false, tall: false, fast: false, fluttering: None }
}

/// A live game object standing for one noun of a valid sentence.
#[derive(Copy, Clone, PartialEq, Eq, Structural, Debug)]
pub struct WordObject {
    pub sentence: Entity,
    pub noun_word: WordID,
    pub adjectives: AdjectiveStates,
}

/// Fired once whenever a sentence has successfully been turned into live
/// objects.
#[derive(Copy, Clone, PartialEq, Eq, Structural, Debug)]
pub struct SentenceSpawn;

/// The effect one adjective word adds to the collected state, or `None` for
/// a word that carries no adjective effect: such a word in an adjective slot
/// is corrupted state and fails the whole sentence.
pub open spec fn spec_word_effect(st: AdjectiveStates, w: WordID) -> Option<AdjectiveStates> {
    match w {
        WordID::Wide => Some(
            AdjectiveStates { wide: true, tall: st.tall, fast: st.fast, fluttering: st.fluttering },
        ),
        WordID::Tall => Some(
            AdjectiveStates { wide: st.wide, tall: true, fast: st.fast, fluttering: st.fluttering },
        ),
        WordID::Fast => Some(
            AdjectiveStates { wide: st.wide, tall: st.tall, fast: true, fluttering: st.fluttering },
        ),
        WordID::FlutteringUp => Some(
            AdjectiveStates {
                wide: st.wide,
                tall: st.tall,
                fast: st.fast,
                fluttering: Some(FlutteringDirection::Up),
            },
        ),
        WordID::FlutteringRight => Some(
            AdjectiveStates {
                wide: st.wide,
                tall: st.tall,
                fast: st.fast,
                fluttering: Some(FlutteringDirection::Right),
            },
        ),
        _ => None,
    }
}

/// Collecting the adjective effects of the subtree at slot `i`, starting
/// from `st`: an empty slot changes nothing, a leaf applies its word's
/// effect, a conjunction collects its left side and then its right side.
pub open spec fn spec_resolve_at(s: Seq<PhraseData>, i: int, st: AdjectiveStates) -> Option<
    AdjectiveStates,
>
    decreases i,
{
    if 0 <= i < s.len() {
        match s[i].word {
            None => Some(st),
            Some(w) => match s[i].kind {
                PhraseKind::Adjective => spec_word_effect(st, w),
                PhraseKind::Combine { l, r } => {
                    if w == WordID::And && l.idx() < i && r.idx() < i {
                        match spec_resolve_at(s, l.idx(), st) {
                            Some(mid) => spec_resolve_at(s, r.idx(), mid),
                            None => None,
                        }
                    } else {
                        None
                    }
                },
                PhraseKind::Noun { .. } => None,
            },
        }
    } else {
        None
    }
}

/// Collects the adjective effects of the subtree at `id` into
/// `adjective_states`, failing on any word that carries no adjective effect.
pub fn modify_with_adjective(
    map: &PhraseMap,
    id: PhraseID,
    adjective_states: &mut AdjectiveStates,
) -> (r: Result<(), SentenceParseError>)
    requires
        wf_adjective_at(map@, id.idx()),
    ensures
        match r {
            Ok(_) => spec_resolve_at(map@, id.idx(), *old(adjective_states)) == Some(
                *final(adjective_states),
            ),
            Err(_) => spec_resolve_at(map@, id.idx(), *old(adjective_states)) is None,
        },
    decreases id.idx(),
{
    let data = *map.get(id);
    match data.word {
        None => Ok(()),
        Some(w) => match data.kind {
            PhraseKind::Adjective => match w {
                WordID::Wide => {
                    adjective_states.wide = true;
                    Ok(())
                },
                WordID::Tall => {
                    adjective_states.tall = true;
                    Ok(())
                },
                WordID::Fast => {
                    adjective_states.fast = true;
                    Ok(())
                },
                WordID::FlutteringUp => {
                    adjective_states.fluttering = Some(FlutteringDirection::Up);
                    Ok(())
                },
                WordID::FlutteringRight => {
                    adjective_states.fluttering = Some(FlutteringDirection::Right);
                    Ok(())
                },
                _ => Err(SentenceParseError::Other),
            },
            PhraseKind::Combine { l, r } => {
                if matches!(w, WordID::And) {
                    match modify_with_adjective(map, l, adjective_states) {
                        Ok(_) => modify_with_adjective(map, r, adjective_states),
                        Err(e) => Err(e),
                    }
                } else {
                    Err(SentenceParseError::Other)
                }
            },
            PhraseKind::Noun { .. } => Err(SentenceParseError::Other),
        },
    }
}

/// Concatenation holds a word exactly when one of its parts does.
proof fn lemma_concat_contains(a: Seq<WordID>, b: Seq<WordID>, x: WordID)
    ensures
        (a + b).contains(x) == (a.contains(x) || b.contains(x)),
{
    if a.contains(x) {
        let i = choose|i: int| 0 <= i < a.len() && a[i] == x;
        assert((a + b)[i] == x);
    }
    if b.contains(x) {
        let i = choose|i: int| 0 <= i < b.len() && b[i] == x;
        assert((a + b)[a.len() + i] == x);
    }
    if (a + b).contains(x) {
        let i = choose|i: int| 0 <= i < (a + b).len() && (a + b)[i] == x;
        if i < a.len() {
            assert(a[i] == x);
        } else {
            assert(b[i - a.len()] == x);
        }
    }
}

/// The first existing word object among `children` whose noun word matches,
/// searching front to back.
pub open spec fn spec_find_noun(children: Seq<(Entity, Option<WordID>)>, word: WordID) -> Option<
    Entity,
>
    decreases children.len(),
{
    if children.len() == 0 {
        None
    } else if children[0].1 == Some(word) {
        Some(children[0].0)
    } else {
        spec_find_noun(children.subrange(1, children.len() as int), word)
    }
}

/// Finds a live object under the owner that already stands for `word`, so
/// that it can be reused instead of respawned.
pub fn find_preexisting_noun(children: &Vec<(Entity, Option<WordID>)>, word: WordID) -> (r: Option<
    Entity,
>)
    ensures
        r == spec_find_noun(children@, word),
{
    let n = children.len();
    let mut i: usize = 0;
    proof {
        assert(children@.subrange(0, n as int) =~= children@);
    }
    while i < n
        invariant
            i <= n,
            n == children@.len(),
            spec_find_noun(children@, word) == spec_find_noun(
                children@.subrange(i as int, n as int),
                word,
            ),
        decreases n - i,
    {
        let (e, w) = children[i];
        proof {
            assert(children@.subrange(i as int, n as int)[0] == children@[i as int]);
            assert(children@.subrange(i as int, n as int).subrange(
                1,
                n as int - i as int,
            ) =~= children@.subrange(i as int + 1, n as int));
        }
        match w {
            Some(cw) if cw == word => {
                return Some(e);
            },
            _ => {},
        }
        i = i + 1;
    }
    None
}

/// The children that are not kept: every child entity except the one being
/// reused, in the order the host lists them.
pub open spec fn spec_stale_children(
    children: Seq<(Entity, Option<WordID>)>,
    keep: Option<Entity>,
) -> Seq<Entity>
    decreases children.len(),
{
    if children.len() == 0 {
        Seq::<Entity>::empty()
    } else {
        let rest = spec_stale_children(children.drop_last(), keep);
        if keep == Some(children.last().0) {
            rest
        } else {
            rest.push(children.last().0)
        }
    }
}

/// Collects the child entities that are not reused this pass.
fn stale_children(children: &Vec<(Entity, Option<WordID>)>, keep: Option<Entity>) -> (r: Vec<
    Entity,
>)
    ensures
        r@ == spec_stale_children(children@, keep),
{
    let mut out: Vec<Entity> = Vec::new();
    let mut i: usize = 0;
    while i < children.len()
        invariant
            i <= children@.len(),
            out@ == spec_stale_children(children@.subrange(0, i as int), keep),
        decreases children@.len() - i,
    {
        let (e, _w) = children[i];
        let keep_this = match keep {
            Some(k) => k == e,
            None => false,
        };
        if !keep_this {
            out.push(e);
        }
        proof {
            assert(children@.subrange(0, i as int + 1).drop_last() =~= children@.subrange(
                0,
                i as int,
            ));
            assert(children@.subrange(0, i as int + 1).last() == children@[i as int]);
        }
        i = i + 1;
    }
    proof {
        assert(children@.subrange(0, children@.len() as int) =~= children@);
    }
    out
}

/// A noun word the game can stand a live object up for.
pub open spec fn spec_noun_spawnable(w: WordID) -> bool {
    w == WordID::Baby || w == WordID::Horse
}

/// The word object a sentence describes: the sentence must be complete, its
/// noun must be a spawnable kind, and every adjective must carry an effect;
/// otherwise there is nothing to spawn.
pub open spec fn spec_sentence_object(st: SentenceStructure, owner: Entity) -> Option<WordObject> {
    if st.is_complete() {
        match st.sentence@[st.root.idx()].kind {
            PhraseKind::Noun { adjective } => {
                let noun_word = st.sentence@[st.root.idx()].word.unwrap();
                if spec_noun_spawnable(noun_word) {
                    match spec_resolve_at(st.sentence@, adjective.idx(), spec_default_states()) {
                        Some(adj) => Some(
                            WordObject { sentence: owner, noun_word, adjectives: adj },
                        ),
                        None => None,
                    }
                } else {
                    None
                }
            },
            _ => None,
        }
    } else {
        None
    }
}

/// A successful spawn decision: the object the sentence describes and the
/// existing entity to write it onto, if one already stands for the noun.
pub struct SpawnResult {
    pub word_object: WordObject,
    pub reuse: Option<Entity>,
}

/// Turns the noun phrase at the sentence root into a spawn decision, or
/// fails when the tree does not describe a live object.
pub fn spawn_with_noun(
    sentence: &SentenceStructure,
    owner: Entity,
    children: &Vec<(Entity, Option<WordID>)>,
) -> (r: Result<SpawnResult, SentenceParseError>)
    requires
        sentence.wf(),
    ensures
        match r {
            Ok(plan) => spec_sentence_object(*sentence, owner) == Some(plan.word_object)
                && plan.reuse == spec_find_noun(children@, plan.word_object.noun_word),
            Err(_) => spec_sentence_object(*sentence, owner) is None,
        },
{
    let root_data = *sentence.sentence.get(sentence.root);
    match root_data.word {
        None => Err(SentenceParseError::Other),
        Some(noun_word) => match root_data.kind {
            PhraseKind::Noun { adjective } => {
                let reuse = find_preexisting_noun(children, noun_word);
                let mut adjective_states = AdjectiveStates::default();
                match modify_with_adjective(&sentence.sentence, adjective, &mut adjective_states) {
                    Err(e) => Err(e),
                    Ok(_) => {
                        if matches!(noun_word, WordID::Baby | WordID::Horse) {
                            Ok(
                                SpawnResult {
                                    word_object: WordObject {
                                        sentence: owner,
                                        noun_word,
                                        adjectives: adjective_states,
                                    },
                                    reuse,
                                },
                            )
                        } else {
                            Err(SentenceParseError::Other)
                        }
                    },
                }
            },
            _ => Err(SentenceParseError::Other),
        },
    }
}

/// What the host must do to the live objects after a re-parse: despawn the
/// stale children, then write the word object onto the reused entity, or
/// onto a fresh one when nothing is reused.
pub struct RemakeOutcome {
    pub despawn: Vec<Entity>,
    pub reuse: Option<Entity>,
    pub word_object: Option<WordObject>,
}

/// Reconciles the live objects under a sentence owner against the current
/// tree: on success the sentence is marked valid, exactly one object per
/// the sentence's noun remains (reused when the same noun persists), and
/// every other child is despawned; on failure the sentence is marked
/// invalid and nothing is touched.
pub fn remake_player_character(
    sentence: &mut SentenceStructure,
    owner: Entity,
    children: &Vec<(Entity, Option<WordID>)>,
) -> (r: RemakeOutcome)
    requires
        old(sentence).wf(),
    ensures
        final(sentence).wf(),
        final(sentence).sentence@ == old(sentence).sentence@,
        final(sentence).root == old(sentence).root,
        final(sentence).valid == (spec_sentence_object(*old(sentence), owner) is Some),
        match spec_sentence_object(*old(sentence), owner) {
            Some(wo) => r.word_object == Some(wo) && r.reuse == spec_find_noun(
                children@,
                wo.noun_word,
            ) && r.despawn@ == spec_stale_children(children@, r.reuse),
            None => r.word_object is None && r.reuse is None && r.despawn@ == Seq::<
                Entity,
            >::empty(),
        },
{
    match spawn_with_noun(sentence, owner, children) {
        Ok(plan) => {
            sentence.valid = true;
            let despawn = stale_children(children, plan.reuse);
            RemakeOutcome { despawn, reuse: plan.reuse, word_object: Some(plan.word_object) }
        },
        Err(_) => {
            sentence.valid = false;
            RemakeOutcome { despawn: Vec::new(), reuse: None, word_object: None }
        },
    }
}

/// Applying an unchanged sentence twice in a row is idempotent on object
/// identity: when the live objects under the owner are exactly the one
/// object the sentence describes, that object is reused and nothing is
/// despawned, so its entity handle is stable across the two applications.
pub proof fn lemma_remake_reuses_existing(e: Entity, w: WordID)
    ensures
        spec_find_noun(seq![(e, Some(w))], w) == Some(e),
        spec_stale_children(seq![(e, Some(w))], Some(e)) == Seq::<Entity>::empty(),
{
    let children = seq![(e, Some(w))];
    assert(children.drop_last() =~= Seq::<(Entity, Option<WordID>)>::empty());
    assert(spec_stale_children(children.drop_last(), Some(e)) == Seq::<Entity>::empty());
    assert(children.last() == (e, Some(w)));
}

/// For each sentence owner, whether the host must disable its physics:
/// exactly the owners whose sentence is invalid.  Invalidity acts on the
/// owner entity-wide, not on single word objects.
pub fn disable_physics_for_invalid_sentence_structures(sentences: &Vec<(Entity, bool)>) -> (r: Vec<
    (Entity, bool),
>)
    ensures
        r@.len() == sentences@.len(),
        forall|i: int|
            0 <= i < r@.len() ==> r@[i].0 == sentences@[i].0 && r@[i].1 == !sentences@[i].1,
{
    let mut out: Vec<(Entity, bool)> = Vec::new();
    let mut i: usize = 0;
    while i < sentences.len()
        invariant
            i <= sentences@.len(),
            out@.len() == i,
            forall|j: int|
                0 <= j < i ==> out@[j].0 == sentences@[j].0 && out@[j].1 == !sentences@[j].1,
        decreases sentences@.len() - i,
    {
        let (e, valid) = sentences[i];
        out.push((e, !valid));
        i = i + 1;
    }
    out
}

/// The direction of the rightmost fluttering word of a run, if any.
pub open spec fn spec_last_fluttering(ws: Seq<WordID>) -> Option<FlutteringDirection>
    decreases ws.len(),
{
    if ws.len() == 0 {
        None
    } else if ws.last() == WordID::FlutteringUp {
        Some(FlutteringDirection::Up)
    } else if ws.last() == WordID::FlutteringRight {
        Some(FlutteringDirection::Right)
    } else {
        spec_last_fluttering(ws.drop_last())
    }
}

/// The rightmost fluttering word of a concatenation is the right part's,
/// or the left part's when the right part has none.
proof fn lemma_last_fluttering_concat(a: Seq<WordID>, b: Seq<WordID>)
    ensures
        spec_last_fluttering(a + b) == (match spec_last_fluttering(b) {
            Some(d) => Some(d),
            None => spec_last_fluttering(a),
        }),
    decreases b.len(),
{
    if b.len() == 0 {
        assert(a + b =~= a);
    } else {
        assert((a + b).last() == b.last());
        assert((a + b).drop_last() =~= a + b.drop_last());
        lemma_last_fluttering_concat(a, b.drop_last());
    }
}

/// Collecting adjective effects is a monotonic union over the flag set: a
/// flag comes out set exactly when it went in set or its word occurs
/// somewhere in the subtree, so later-collected flags never clear earlier
/// ones; the fluttering direction is last-write-wins in traversal order,
/// and once present it stays present.
pub proof fn lemma_adjective_effects_union(s: Seq<PhraseData>, i: int, st: AdjectiveStates)
    requires
        wf_adjective_at(s, i),
        spec_resolve_at(s, i, st) is Some,
    ensures
        ({
            let r = spec_resolve_at(s, i, st).unwrap();
            &&& r.wide == (st.wide || phrase_words_at(s, i).contains(WordID::Wide))
            &&& r.tall == (st.tall || phrase_words_at(s, i).contains(WordID::Tall))
            &&& r.fast == (st.fast || phrase_words_at(s, i).contains(WordID::Fast))
            &&& r.fluttering == (match spec_last_fluttering(phrase_words_at(s, i)) {
                Some(d) => Some(d),
                None => st.fluttering,
            })
        }),
    decreases i,
{
    match s[i].kind {
        PhraseKind::Adjective => {
            match s[i].word {
                None => {
                    assert(!phrase_words_at(s, i).contains(WordID::Wide));
                    assert(!phrase_words_at(s, i).contains(WordID::Tall));
                    assert(!phrase_words_at(s, i).contains(WordID::Fast));
                },
                Some(w) => {
                    assert(phrase_words_at(s, i) == seq![w]);
                    assert(phrase_words_at(s, i).contains(w)) by {
                        assert(phrase_words_at(s, i)[0] == w);
                    }
                    assert(forall|x: WordID|
                        x != w ==> !#[trigger] phrase_words_at(s, i).contains(x));
                    assert(seq![w].last() == w);
                    assert(seq![w].drop_last() =~= Seq::<WordID>::empty());
                    assert(spec_last_fluttering(Seq::<WordID>::empty())
                        == None::<FlutteringDirection>);
                },
            }
        },
        PhraseKind::Combine { l, r } => {
            let li = l.idx();
            let ri = r.idx();
            let mid = spec_resolve_at(s, li, st).unwrap();
            lemma_adjective_effects_union(s, li, st);
            lemma_adjective_effects_union(s, ri, mid);
            let wl = phrase_words_at(s, li);
            let wm = crate::structure::opt_word_seq(s[i].word);
            let wr = phrase_words_at(s, ri);
            assert(wm == seq![WordID::And]);
            assert(!wm.contains(WordID::Wide) && !wm.contains(WordID::Tall) && !wm.contains(
                WordID::Fast,
            ));
            lemma_concat_contains(wl, wm, WordID::Wide);
            lemma_concat_contains(wl + wm, wr, WordID::Wide);
            lemma_concat_contains(wl, wm, WordID::Tall);
            lemma_concat_contains(wl + wm, wr, WordID::Tall);
            lemma_concat_contains(wl, wm, WordID::Fast);
            lemma_concat_contains(wl + wm, wr, WordID::Fast);
            assert(seq![WordID::And].drop_last() =~= Seq::<WordID>::empty());
            assert(seq![WordID::And].last() == WordID::And);
            assert(spec_last_fluttering(Seq::<WordID>::empty()) == None::<FlutteringDirection>);
            assert(spec_last_fluttering(wm) == None::<FlutteringDirection>);
            lemma_last_fluttering_concat(wl, wm);
            lemma_last_fluttering_concat(wl + wm, wr);
        },
        PhraseKind::Noun { .. } => {},
    }
}

} // verus!
