//! World triggers: lock zones, word tags, fans, spawners, camera and
//! death zones.

use word_game::arena::PhraseKind;
use word_game::camera::{camera_update, CameraMoveMode};
use word_game::spawn::{AdjectiveStates, WordObject};
use word_game::structure::SentenceStructure;
use word_game::ui::SentenceSection;
use word_game::word_id::WordID;
use word_game::world::camera_zone;
use word_game::world::death_zone;
use word_game::world::fan::{fan_disengage, fan_engage, id_of_adjective};
use word_game::world::lock_zone::lock_zone_update;
use word_game::world::player_spawner::player_spawner_update;
use word_game::world::word_tag::{word_tags_update, TagContact};
use word_game::world::{level_is_in_position, WorldPos, WorldRect};
use word_game::ui::VocabChange;

fn parse(words: &[WordID]) -> SentenceStructure {
    let mut sentence = SentenceStructure::new();
    sentence.regenerate(&words.to_vec());
    sentence
}

fn object(owner: u64) -> WordObject {
    WordObject { sentence: owner, noun_word: WordID::Baby, adjectives: AdjectiveStates::default() }
}

#[test]
fn lock_zones_lock_the_sections_of_the_colliding_owner() {
    let st = parse(&[WordID::Baby]);
    let mut sections = vec![
        SentenceSection { for_phrase: st.root, sentence_entity: 1, locked: false },
        SentenceSection { for_phrase: st.root, sentence_entity: 2, locked: true },
    ];
    let colliding = vec![object(1)];
    lock_zone_update(&mut sections, &colliding);
    assert!(sections[0].locked);
    assert!(!sections[1].locked);
    lock_zone_update(&mut sections, &Vec::new());
    assert!(!sections[0].locked && !sections[1].locked);
}

#[test]
fn touched_word_tags_teach_their_word_and_hide() {
    let tags = vec![
        TagContact { word_id: WordID::Wide, visible: true, touched_by_player: true },
        TagContact { word_id: WordID::Tall, visible: false, touched_by_player: true },
        TagContact { word_id: WordID::Fast, visible: true, touched_by_player: false },
    ];
    let (changes, visible) = word_tags_update(&tags, 5);
    assert_eq!(changes, vec![VocabChange::Added { word: WordID::Wide, to: 5 }]);
    assert_eq!(visible, vec![false, false, true]);
}

#[test]
fn fan_engages_by_splicing_a_locked_fluttering_adjective() {
    let mut st = parse(&[WordID::Baby]);
    assert!(fan_engage(&mut st, WordID::FlutteringUp));
    assert!(st.valid);
    assert_eq!(
        st.sentence_words(),
        vec![WordID::FlutteringUp, WordID::And, WordID::Baby]
    );
    let root = *st.sentence.get(st.root);
    let adjective = match root.kind {
        PhraseKind::Noun { adjective } => adjective,
        other => panic!("expected a noun root, got {:?}", other),
    };
    let joint = *st.sentence.get(adjective);
    assert!(joint.locked);
    match joint.kind {
        PhraseKind::Combine { l, .. } => {
            let left = *st.sentence.get(l);
            assert_eq!(left.word, Some(WordID::FlutteringUp));
            assert!(left.locked);
        },
        other => panic!("expected a conjunction joint, got {:?}", other),
    }
}

#[test]
fn fan_disengages_by_removing_the_spliced_prefix() {
    let mut st = parse(&[WordID::Baby]);
    assert!(fan_engage(&mut st, WordID::FlutteringRight));
    assert!(fan_disengage(&mut st));
    // The splice leaves and the original bare sentence comes back.
    assert_eq!(st.sentence_words(), vec![WordID::Baby]);
    let root = *st.sentence.get(st.root);
    let adjective = match root.kind {
        PhraseKind::Noun { adjective } => adjective,
        other => panic!("expected a noun root, got {:?}", other),
    };
    let leaf = *st.sentence.get(adjective);
    assert_eq!(leaf.kind, PhraseKind::Adjective);
    assert_eq!(leaf.word, None);
    assert!(!leaf.locked);
}

#[test]
fn fan_keeps_the_existing_adjective_when_engaging_and_disengaging() {
    let mut st = parse(&[WordID::Wide, WordID::Baby]);
    assert!(fan_engage(&mut st, WordID::FlutteringUp));
    assert_eq!(
        st.sentence_words(),
        vec![WordID::FlutteringUp, WordID::And, WordID::Wide, WordID::Baby]
    );
    assert!(fan_disengage(&mut st));
    assert_eq!(st.sentence_words(), vec![WordID::Wide, WordID::Baby]);
}

#[test]
fn fan_cannot_engage_an_empty_sentence() {
    let mut st = parse(&[]);
    assert!(!fan_engage(&mut st, WordID::FlutteringUp));
    assert!(!st.valid);
    assert_eq!(st.sentence_words(), Vec::<WordID>::new());
}

#[test]
fn fan_round_trips_over_a_conjunction_sentence() {
    // Engaging over "wide and tall baby" and disengaging again restores
    // the player's word run exactly; no adjective is lost.
    let original = vec![WordID::Wide, WordID::And, WordID::Tall, WordID::Baby];
    let mut st = parse(&original);
    assert!(fan_engage(&mut st, WordID::FlutteringUp));
    assert_eq!(
        st.sentence_words(),
        vec![
            WordID::FlutteringUp,
            WordID::And,
            WordID::Wide,
            WordID::And,
            WordID::Tall,
            WordID::Baby,
        ]
    );
    assert!(fan_disengage(&mut st));
    assert!(st.valid);
    assert_eq!(st.sentence_words(), original);
}

#[test]
fn sentence_without_fluttering_does_not_disengage() {
    let mut st = parse(&[WordID::Wide, WordID::Baby]);
    assert!(!fan_disengage(&mut st));
    assert_eq!(st.sentence_words(), vec![WordID::Wide, WordID::Baby]);
}

#[test]
fn first_adjective_slot_is_the_leftmost_leaf() {
    let st = parse(&[WordID::Wide, WordID::And, WordID::Tall, WordID::Baby]);
    let slot = id_of_adjective(&st).expect("an adjective slot");
    let data = *st.sentence.get(slot);
    assert_eq!(data.kind, PhraseKind::Adjective);
    assert_eq!(data.word, Some(WordID::Wide));
}

#[test]
fn player_spawner_moves_the_player_once() {
    let here = WorldPos { x: 32, y: 64 };
    assert_eq!(player_spawner_update(Some(here), false), Some(here));
    assert_eq!(player_spawner_update(Some(here), true), None);
    assert_eq!(player_spawner_update(None, false), None);
}

#[test]
fn camera_zone_bounds_follow_the_player() {
    let zones = vec![
        WorldRect { min_x: 0, min_y: 0, max_x: 100, max_y: 100 },
        WorldRect { min_x: 50, min_y: 50, max_x: 300, max_y: 300 },
    ];
    let inside_first = camera_zone::update(&zones, WorldPos { x: 60, y: 60 });
    assert_eq!(inside_first, zones[0]);
    let inside_second = camera_zone::update(&zones, WorldPos { x: 200, y: 200 });
    assert_eq!(inside_second, zones[1]);
    let outside = camera_zone::update(&zones, WorldPos { x: -5, y: -5 });
    assert_eq!(outside, WorldRect { min_x: 0, min_y: 0, max_x: 0, max_y: 0 });
}

#[test]
fn death_zone_respawns_the_player_when_an_object_falls_in() {
    let spawner = WorldPos { x: 1, y: 2 };
    let colliding = vec![3u64, 4u64];
    let word_objects = vec![4u64];
    assert_eq!(death_zone::update(&colliding, &word_objects, spawner), Some(spawner));
    assert_eq!(death_zone::update(&colliding, &vec![9u64], spawner), None);
    assert_eq!(death_zone::update(&Vec::new(), &word_objects, spawner), None);
}

#[test]
fn camera_target_clamps_to_bounds() {
    let bounds = WorldRect { min_x: 0, min_y: 0, max_x: 100, max_y: 100 };
    let area_min = WorldPos { x: -10, y: -10 };
    let area_max = WorldPos { x: 10, y: 10 };
    let centred = camera_update(
        WorldPos { x: 50, y: 50 },
        bounds,
        area_min,
        area_max,
        CameraMoveMode::SnapToBounds,
    );
    assert_eq!(centred, WorldPos { x: 50, y: 50 });
    let clamped = camera_update(
        WorldPos { x: -40, y: 400 },
        bounds,
        area_min,
        area_max,
        CameraMoveMode::SnapToBounds,
    );
    assert_eq!(clamped, WorldPos { x: 10, y: 90 });
    let free = camera_update(
        WorldPos { x: -40, y: 400 },
        bounds,
        area_min,
        area_max,
        CameraMoveMode::Free,
    );
    assert_eq!(free, WorldPos { x: -40, y: 400 });
}

#[test]
fn level_rect_contains_positions_inside_the_level() {
    let origin = WorldPos { x: 0, y: 0 };
    let rect = level_is_in_position(origin, 10, 10, WorldPos { x: 50, y: 50 });
    assert_eq!(
        rect,
        Some(WorldRect { min_x: -8, min_y: -8, max_x: 152, max_y: 152 })
    );
    assert_eq!(level_is_in_position(origin, 10, 10, WorldPos { x: 500, y: 0 }), None);
}
