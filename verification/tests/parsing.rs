//! The sentence parser: grammar acceptance, tree shapes, disambiguation
//! and round trips.

use word_game::arena::{PhraseData, PhraseKind};
use word_game::structure::SentenceStructure;
use word_game::word_id::WordID;

fn parse(words: &[WordID]) -> SentenceStructure {
    let mut sentence = SentenceStructure::new();
    sentence.regenerate(&words.to_vec());
    sentence
}

fn root_of(sentence: &SentenceStructure) -> PhraseData {
    *sentence.sentence.get(sentence.root)
}

#[test]
fn single_noun_parses() {
    let st = parse(&[WordID::Horse]);
    assert!(st.valid);
    let root = root_of(&st);
    assert_eq!(root.word, Some(WordID::Horse));
    match root.kind {
        PhraseKind::Noun { adjective } => {
            let adj = *st.sentence.get(adjective);
            assert_eq!(adj.kind, PhraseKind::Adjective);
            assert_eq!(adj.word, None);
        },
        other => panic!("expected a noun root, got {:?}", other),
    }
}

#[test]
fn trailing_dual_category_word_is_the_noun() {
    // "Baby" is both a noun and an adjective; alone it must become the
    // sentence's noun over an empty adjective child, not a dangling
    // adjective.
    let st = parse(&[WordID::Baby]);
    assert!(st.valid);
    let root = root_of(&st);
    assert_eq!(root.word, Some(WordID::Baby));
    match root.kind {
        PhraseKind::Noun { adjective } => {
            let adj = *st.sentence.get(adjective);
            assert_eq!(adj.kind, PhraseKind::Adjective);
            assert_eq!(adj.word, None);
        },
        other => panic!("expected a noun root, got {:?}", other),
    }
}

#[test]
fn adjective_then_noun() {
    let st = parse(&[WordID::Wide, WordID::Baby]);
    assert!(st.valid);
    let root = root_of(&st);
    assert_eq!(root.word, Some(WordID::Baby));
    match root.kind {
        PhraseKind::Noun { adjective } => {
            let adj = *st.sentence.get(adjective);
            assert_eq!(adj.kind, PhraseKind::Adjective);
            assert_eq!(adj.word, Some(WordID::Wide));
        },
        other => panic!("expected a noun root, got {:?}", other),
    }
}

#[test]
fn conjunction_builds_combine() {
    let st = parse(&[WordID::Wide, WordID::And, WordID::Tall, WordID::Baby]);
    assert!(st.valid);
    let root = root_of(&st);
    assert_eq!(root.word, Some(WordID::Baby));
    let adjective = match root.kind {
        PhraseKind::Noun { adjective } => adjective,
        other => panic!("expected a noun root, got {:?}", other),
    };
    let joint = *st.sentence.get(adjective);
    assert_eq!(joint.word, Some(WordID::And));
    match joint.kind {
        PhraseKind::Combine { l, r } => {
            let left = *st.sentence.get(l);
            let right = *st.sentence.get(r);
            assert_eq!(left.kind, PhraseKind::Adjective);
            assert_eq!(left.word, Some(WordID::Wide));
            assert_eq!(right.kind, PhraseKind::Adjective);
            assert_eq!(right.word, Some(WordID::Tall));
        },
        other => panic!("expected a conjunction joint, got {:?}", other),
    }
}

#[test]
fn leading_conjunction_gets_empty_left_operand() {
    let st = parse(&[WordID::And, WordID::Tall, WordID::Baby]);
    assert!(st.valid);
    let root = root_of(&st);
    assert_eq!(root.word, Some(WordID::Baby));
    let adjective = match root.kind {
        PhraseKind::Noun { adjective } => adjective,
        other => panic!("expected a noun root, got {:?}", other),
    };
    let joint = *st.sentence.get(adjective);
    assert_eq!(joint.word, Some(WordID::And));
    match joint.kind {
        PhraseKind::Combine { l, r } => {
            let left = *st.sentence.get(l);
            let right = *st.sentence.get(r);
            assert_eq!(left.kind, PhraseKind::Adjective);
            assert_eq!(left.word, None);
            assert_eq!(right.kind, PhraseKind::Adjective);
            assert_eq!(right.word, Some(WordID::Tall));
        },
        other => panic!("expected a conjunction joint, got {:?}", other),
    }
}

#[test]
fn sentence_without_noun_resets_the_arena() {
    let st = parse(&[WordID::Wide, WordID::Wide]);
    assert!(!st.valid);
    assert_eq!(st.sentence.len(), 1);
    let root = root_of(&st);
    assert_eq!(root.word, None);
    assert_eq!(root.kind, PhraseKind::Adjective);
    assert!(!root.locked);
}

#[test]
fn leftover_tokens_fail_the_parse() {
    let st = parse(&[WordID::Baby, WordID::Horse, WordID::Horse]);
    assert!(!st.valid);
    assert_eq!(st.sentence.len(), 1);
}

#[test]
fn empty_input_fails_the_parse() {
    let st = parse(&[]);
    assert!(!st.valid);
    assert_eq!(st.sentence.len(), 1);
}

#[test]
fn round_trip_reproduces_accepted_token_runs() {
    let runs: Vec<Vec<WordID>> = vec![
        vec![WordID::Baby],
        vec![WordID::Horse],
        vec![WordID::Wide, WordID::Baby],
        vec![WordID::Baby, WordID::Horse],
        vec![WordID::Wide, WordID::And, WordID::Tall, WordID::Baby],
        vec![WordID::And, WordID::Tall, WordID::Baby],
        vec![WordID::FlutteringUp, WordID::And, WordID::Fast, WordID::Horse],
        vec![
            WordID::Wide,
            WordID::And,
            WordID::Tall,
            WordID::And,
            WordID::Fast,
            WordID::Horse,
        ],
    ];
    for run in runs {
        let st = parse(&run);
        assert!(st.valid, "run {:?} should parse", run);
        assert_eq!(st.sentence_words(), run);
    }
}

#[test]
fn leading_conjunction_before_a_bare_noun() {
    // "and Baby": the left operand is empty, and the lookahead reserves
    // "Baby" for the noun slot even behind a conjunction.
    let st = parse(&[WordID::And, WordID::Baby]);
    assert!(st.valid);
    let root = root_of(&st);
    assert_eq!(root.word, Some(WordID::Baby));
    match root.kind {
        PhraseKind::Noun { adjective } => {
            let joint = *st.sentence.get(adjective);
            assert_eq!(joint.word, Some(WordID::And));
            match joint.kind {
                PhraseKind::Combine { l, r } => {
                    assert_eq!(st.sentence.get(l).word, None);
                    assert_eq!(st.sentence.get(r).word, None);
                },
                other => panic!("expected a conjunction joint, got {:?}", other),
            }
        },
        other => panic!("expected a noun root, got {:?}", other),
    }
}

#[test]
fn conjunction_with_an_empty_right_operand() {
    let st = parse(&[WordID::Wide, WordID::And, WordID::Baby]);
    assert!(st.valid);
    assert_eq!(
        st.sentence_words(),
        vec![WordID::Wide, WordID::And, WordID::Baby]
    );
    let root = root_of(&st);
    let adjective = match root.kind {
        PhraseKind::Noun { adjective } => adjective,
        other => panic!("expected a noun root, got {:?}", other),
    };
    match st.sentence.get(adjective).kind {
        PhraseKind::Combine { l, r } => {
            assert_eq!(st.sentence.get(l).word, Some(WordID::Wide));
            assert_eq!(st.sentence.get(r).word, None);
        },
        other => panic!("expected a conjunction joint, got {:?}", other),
    }
}

#[test]
fn a_lone_adjective_is_not_a_sentence() {
    let st = parse(&[WordID::Tall]);
    assert!(!st.valid);
    assert_eq!(st.sentence.len(), 1);
}

#[test]
fn serializing_an_invalid_sentence_gives_no_words() {
    let st = parse(&[WordID::Wide, WordID::Wide]);
    assert_eq!(st.sentence_words(), Vec::<WordID>::new());
}

#[test]
fn arena_entries_expose_the_tree_in_slot_order() {
    let st = parse(&[WordID::Wide, WordID::Baby]);
    let entries = st.sentence.entries();
    assert_eq!(entries.len(), st.sentence.len());
    assert_eq!(entries[st.root.index()], *st.sentence.get(st.root));
}
