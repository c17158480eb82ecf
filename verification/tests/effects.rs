//! Adjective-effect resolution and the live-object reconciler.

use word_game::arena::{PhraseData, PhraseKind, PhraseMap};
use word_game::apply_words::{apply_fluttering, apply_scalers};
use word_game::movement::{do_movement, has_fast_object, spawn_player};
use word_game::spawn::{
    disable_physics_for_invalid_sentence_structures, find_preexisting_noun, modify_with_adjective,
    remake_player_character, AdjectiveStates, FlutteringDirection, WordObject,
};
use word_game::structure::SentenceStructure;
use word_game::ui::VocabChange;
use word_game::word_id::WordID;

fn parse(words: &[WordID]) -> SentenceStructure {
    let mut sentence = SentenceStructure::new();
    sentence.regenerate(&words.to_vec());
    sentence
}

fn combine_of(left: Option<WordID>, right: Option<WordID>) -> (PhraseMap, word_game::arena::PhraseID) {
    let mut map = PhraseMap::new();
    let l = map.insert(PhraseData { word: left, kind: PhraseKind::Adjective, locked: false });
    let r = map.insert(PhraseData { word: right, kind: PhraseKind::Adjective, locked: false });
    let joint = map.insert(
        PhraseData { word: Some(WordID::And), kind: PhraseKind::Combine { l, r }, locked: false },
    );
    (map, joint)
}

#[test]
fn combine_unions_wide_and_fluttering() {
    let (map, joint) = combine_of(Some(WordID::Wide), Some(WordID::FlutteringUp));
    let mut states = AdjectiveStates::default();
    assert!(modify_with_adjective(&map, joint, &mut states).is_ok());
    assert!(states.wide);
    assert!(!states.tall);
    assert!(!states.fast);
    assert_eq!(states.fluttering, Some(FlutteringDirection::Up));
}

#[test]
fn combine_unions_wide_and_tall_without_overwrite() {
    let (map, joint) = combine_of(Some(WordID::Wide), Some(WordID::Tall));
    let mut states = AdjectiveStates::default();
    assert!(modify_with_adjective(&map, joint, &mut states).is_ok());
    assert!(states.wide);
    assert!(states.tall);
    assert!(!states.fast);
    assert_eq!(states.fluttering, None);
}

#[test]
fn fluttering_direction_is_last_write_wins() {
    let (map, joint) = combine_of(Some(WordID::FlutteringUp), Some(WordID::FlutteringRight));
    let mut states = AdjectiveStates::default();
    assert!(modify_with_adjective(&map, joint, &mut states).is_ok());
    assert_eq!(states.fluttering, Some(FlutteringDirection::Right));
}

#[test]
fn empty_adjective_slot_contributes_nothing() {
    let (map, joint) = combine_of(None, Some(WordID::Fast));
    let mut states = AdjectiveStates::default();
    assert!(modify_with_adjective(&map, joint, &mut states).is_ok());
    assert!(!states.wide && !states.tall && states.fast);
}

#[test]
fn word_without_adjective_effect_fails_resolution() {
    let (map, joint) = combine_of(Some(WordID::Horse), Some(WordID::Tall));
    let mut states = AdjectiveStates::default();
    assert!(modify_with_adjective(&map, joint, &mut states).is_err());
}

#[test]
fn remake_spawns_a_fresh_object_for_a_new_noun() {
    let mut st = parse(&[WordID::Wide, WordID::Baby]);
    let children = Vec::new();
    let outcome = remake_player_character(&mut st, 1, &children);
    assert!(st.valid);
    assert_eq!(outcome.reuse, None);
    assert!(outcome.despawn.is_empty());
    let wo = outcome.word_object.expect("a word object");
    assert_eq!(wo.sentence, 1);
    assert_eq!(wo.noun_word, WordID::Baby);
    assert!(wo.adjectives.wide);
}

#[test]
fn remake_reuses_the_same_entity_across_identical_applications() {
    // Applying the same valid sentence twice keeps the object's identity:
    // the second pass reuses the entity of the first and despawns nothing.
    let mut st = parse(&[WordID::Baby]);
    let first = remake_player_character(&mut st, 1, &Vec::new());
    let noun = first.word_object.expect("a word object").noun_word;
    let spawned_entity: u64 = 42;
    let children = vec![(spawned_entity, Some(noun))];
    let second = remake_player_character(&mut st, 1, &children);
    assert_eq!(second.reuse, Some(spawned_entity));
    assert!(second.despawn.is_empty());
    assert_eq!(second.word_object, first.word_object);
}

#[test]
fn remake_despawns_objects_of_other_nouns() {
    let mut st = parse(&[WordID::Horse]);
    let children = vec![(7u64, Some(WordID::Baby)), (9u64, None)];
    let outcome = remake_player_character(&mut st, 1, &children);
    assert!(st.valid);
    assert_eq!(outcome.reuse, None);
    assert_eq!(outcome.despawn, vec![7, 9]);
}

#[test]
fn baby_in_an_adjective_slot_makes_the_sentence_unspawnable() {
    // "Baby Horse" parses, but the resolver knows no baby effect: the
    // sentence turns invalid when it is applied.
    let mut st = parse(&[WordID::Baby, WordID::Horse]);
    assert!(st.valid);
    let outcome = remake_player_character(&mut st, 1, &Vec::new());
    assert!(!st.valid);
    assert_eq!(outcome.word_object, None);
    assert!(outcome.despawn.is_empty());
}

#[test]
fn find_preexisting_noun_takes_the_first_match() {
    let children = vec![(3u64, Some(WordID::Horse)), (4u64, Some(WordID::Baby)), (5u64, Some(WordID::Baby))];
    assert_eq!(find_preexisting_noun(&children, WordID::Baby), Some(4));
    assert_eq!(find_preexisting_noun(&children, WordID::Horse), Some(3));
    assert_eq!(find_preexisting_noun(&children, WordID::And), None);
}

#[test]
fn invalid_sentences_disable_physics() {
    let sentences = vec![(1u64, true), (2u64, false)];
    let disabled = disable_physics_for_invalid_sentence_structures(&sentences);
    assert_eq!(disabled, vec![(1, false), (2, true)]);
}

#[test]
fn scalers_target_four_times_the_size() {
    let mut states = AdjectiveStates::default();
    assert_eq!(apply_scalers(&states), (1, 1));
    states.wide = true;
    assert_eq!(apply_scalers(&states), (4, 1));
    states.tall = true;
    assert_eq!(apply_scalers(&states), (4, 4));
}

#[test]
fn fluttering_boosts_until_the_speed_cap() {
    assert_eq!(apply_fluttering(FlutteringDirection::Up, 0, 0), Some((0, 4)));
    assert_eq!(apply_fluttering(FlutteringDirection::Up, 500, 99), Some((0, 4)));
    assert_eq!(apply_fluttering(FlutteringDirection::Up, 0, 100), None);
    assert_eq!(apply_fluttering(FlutteringDirection::Right, -99, 0), Some((16, 0)));
    assert_eq!(apply_fluttering(FlutteringDirection::Right, 100, 0), None);
}

#[test]
fn movement_goal_speed_follows_input_and_fast_flag() {
    assert_eq!(do_movement(true, true, false, 10, false), Some(10));
    assert_eq!(do_movement(true, false, true, 10, false), Some(-10));
    assert_eq!(do_movement(true, false, false, 10, true), Some(0));
    assert_eq!(do_movement(true, true, true, 10, true), Some(20));
    // An invalid sentence disables movement entirely: no goal is set and
    // the player's velocity stays untouched.
    assert_eq!(do_movement(false, true, false, 10, true), None);
    let objects = vec![
        AdjectiveStates { wide: true, tall: false, fast: false, fluttering: None },
        AdjectiveStates { wide: false, tall: false, fast: true, fluttering: None },
    ];
    assert!(has_fast_object(&objects));
    assert!(!has_fast_object(&Vec::new()));
}

#[test]
fn the_player_starts_with_an_empty_sentence_and_learns_baby() {
    let (st, change) = spawn_player(11);
    assert!(!st.valid);
    assert_eq!(st.sentence_words(), Vec::<WordID>::new());
    assert_eq!(change, VocabChange::Added { word: WordID::Baby, to: 11 });
}

#[test]
fn word_objects_compare_by_all_fields() {
    let a = WordObject { sentence: 1, noun_word: WordID::Baby, adjectives: AdjectiveStates::default() };
    let b = WordObject { sentence: 1, noun_word: WordID::Baby, adjectives: AdjectiveStates::default() };
    assert_eq!(a, b);
}
