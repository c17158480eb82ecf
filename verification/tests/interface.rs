//! The sentence-builder interface: drag and drop, token ordering, the
//! vocabulary, and the dock-widget synchronizer.

use word_game::drag_and_drop::{do_drag, do_snap, do_unsnap, DraggableWord, UiRect};
use word_game::structure::SentenceStructure;
use word_game::sync::{reorder_sentence_ui, spawn_snap_for, DockNode, EntityAllocator};
use word_game::ui::{
    indicate_sentence_section_locks, regenerate_sentence_structure, sort_tokens,
    update_vocabulary, DockedToken, SentenceUIPart, VocabChange, Vocabulary,
};
use word_game::word_id::{PartOfSpeech, WordID};

fn parse(words: &[WordID]) -> SentenceStructure {
    let mut sentence = SentenceStructure::new();
    sentence.regenerate(&words.to_vec());
    sentence
}

#[test]
fn lexicon_forms_and_parts() {
    let forms = WordID::Baby.forms();
    assert_eq!(forms.basic, "Baby");
    assert_eq!(forms.filename, "baby");
    assert_eq!(WordID::FlutteringRight.forms().basic, "Fluttering");
    assert_eq!(WordID::FlutteringRight.forms().filename, "fluttering_right");
    assert_eq!(
        WordID::Baby.part_of_speech(),
        vec![PartOfSpeech::Noun, PartOfSpeech::Adjective]
    );
    assert_eq!(WordID::And.part_of_speech(), vec![PartOfSpeech::Conjunction]);
    assert!(WordID::Horse.is_noun() && !WordID::Horse.is_adjective());
}

#[test]
fn unsnap_refuses_locked_tokens() {
    let unlocked = DraggableWord { word_id: WordID::Wide, locked: false };
    let locked = DraggableWord { word_id: WordID::Wide, locked: true };
    assert!(do_unsnap(&unlocked, true));
    assert!(!do_unsnap(&locked, true));
    assert!(!do_unsnap(&unlocked, false));
}

#[test]
fn drag_follows_the_pointer() {
    assert_eq!(do_drag(10, 20, 3, -5), (13, 15));
}

#[test]
fn snap_picks_the_first_containing_region_or_the_inventory() {
    let parents = vec![
        (1u64, UiRect { min_x: 0, min_y: 0, max_x: 10, max_y: 10 }),
        (2u64, UiRect { min_x: 5, min_y: 5, max_x: 20, max_y: 20 }),
    ];
    assert_eq!(do_snap(7, 7, &parents, 99), 1);
    assert_eq!(do_snap(15, 15, &parents, 99), 2);
    assert_eq!(do_snap(50, 50, &parents, 99), 99);
}

#[test]
fn tokens_sort_left_to_right_and_stay_stable() {
    let tokens = vec![
        DockedToken { entity: 1, word_id: WordID::Baby, x: 30 },
        DockedToken { entity: 2, word_id: WordID::Wide, x: 10 },
        DockedToken { entity: 3, word_id: WordID::Tall, x: 30 },
    ];
    let sorted = sort_tokens(tokens);
    assert_eq!(
        sorted.iter().map(|t| t.entity).collect::<Vec<_>>(),
        vec![2, 1, 3]
    );
}

#[test]
fn regenerate_reads_tokens_in_screen_order_with_the_pending_drop() {
    let tokens = vec![
        DockedToken { entity: 1, word_id: WordID::Baby, x: 50 },
        DockedToken { entity: 2, word_id: WordID::Wide, x: 90 },
    ];
    let mut st = SentenceStructure::new();
    // Token 2 just dropped at position 10, left of the noun.
    let words = regenerate_sentence_structure(&tokens, 2, 10, &mut st);
    assert_eq!(words, vec![WordID::Wide, WordID::Baby]);
    assert!(st.valid);
    assert_eq!(st.sentence_words(), words);
}

#[test]
fn vocabulary_keeps_one_entry_per_word() {
    let mut vocab = Vocabulary::new();
    assert!(!vocab.contains(WordID::Baby));
    let token = update_vocabulary(&mut vocab, &VocabChange::Added { word: WordID::Baby, to: 1 });
    assert_eq!(token, DraggableWord { word_id: WordID::Baby, locked: false });
    let again = update_vocabulary(&mut vocab, &VocabChange::Added { word: WordID::Baby, to: 1 });
    assert_eq!(again.word_id, WordID::Baby);
    assert!(vocab.contains(WordID::Baby));
    assert!(!vocab.contains(WordID::Horse));
}

#[test]
fn lock_indication_reaches_the_docked_token() {
    let mut token = DraggableWord { word_id: WordID::Tall, locked: false };
    assert!(indicate_sentence_section_locks(true, &mut token));
    assert!(token.locked);
    assert!(!indicate_sentence_section_locks(false, &mut token));
    assert!(!token.locked);
}

#[test]
fn sibling_order_follows_the_named_roles() {
    let children = vec![
        (10u64, SentenceUIPart::NounSlot),
        (11u64, SentenceUIPart::AdjectiveSlot),
        (12u64, SentenceUIPart::NounJoint),
    ];
    let ordered = reorder_sentence_ui(children);
    assert_eq!(
        ordered,
        vec![
            (11u64, SentenceUIPart::AdjectiveSlot),
            (12u64, SentenceUIPart::NounJoint),
            (10u64, SentenceUIPart::NounSlot),
        ]
    );
    assert!(SentenceUIPart::NounSlot.is_slot());
    assert!(!SentenceUIPart::CombineJointL.is_slot());
    assert!(SentenceUIPart::CombineJointL < SentenceUIPart::CombineJoint);
    assert!(SentenceUIPart::AndSlot < SentenceUIPart::CombineJointR);
}

fn count_nodes(node: &DockNode) -> usize {
    1 + node.children.iter().map(count_nodes).sum::<usize>()
}

#[test]
fn synchronizer_builds_the_dock_tree_for_a_conjunction() {
    let st = parse(&[WordID::Wide, WordID::And, WordID::Tall, WordID::Baby]);
    let mut alloc = EntityAllocator { next: 100 };
    let mut spawned = Vec::new();
    let mut despawned = Vec::new();
    let tree = spawn_snap_for(&st, None, &mut alloc, &mut spawned, &mut despawned);
    assert_eq!(tree.part, SentenceUIPart::NounJoint);
    assert_eq!(tree.children.len(), 2);
    assert_eq!(tree.children[0].part, SentenceUIPart::CombineJoint);
    assert_eq!(tree.children[1].part, SentenceUIPart::NounSlot);
    let joint = &tree.children[0];
    assert_eq!(joint.children.len(), 3);
    assert_eq!(joint.children[0].part, SentenceUIPart::CombineJointL);
    assert_eq!(joint.children[1].part, SentenceUIPart::AndSlot);
    assert_eq!(joint.children[2].part, SentenceUIPart::CombineJointR);
    assert_eq!(spawned.len(), count_nodes(&tree));
    assert!(despawned.is_empty());
}

#[test]
fn resynchronizing_an_unchanged_tree_spawns_and_despawns_nothing() {
    // Full reuse: the second pass returns the same widgets with the same
    // entities and no churn at all.
    let st = parse(&[WordID::Wide, WordID::And, WordID::Tall, WordID::Baby]);
    let mut alloc = EntityAllocator { next: 100 };
    let mut spawned = Vec::new();
    let mut despawned = Vec::new();
    let first = spawn_snap_for(&st, None, &mut alloc, &mut spawned, &mut despawned);
    // The build is deterministic: a fresh pass from the same allocator
    // state yields an identical tree to hand back in as the existing one.
    let mut alloc_copy = EntityAllocator { next: 100 };
    let first_copy =
        spawn_snap_for(&st, None, &mut alloc_copy, &mut Vec::new(), &mut Vec::new());
    assert_eq!(first_copy, first);
    let alloc_after_first = alloc;
    let mut spawned2 = Vec::new();
    let mut despawned2 = Vec::new();
    let second = spawn_snap_for(&st, Some(first_copy), &mut alloc, &mut spawned2, &mut despawned2);
    assert_eq!(second, first);
    assert!(spawned2.is_empty());
    assert!(despawned2.is_empty());
    assert_eq!(alloc, alloc_after_first);
}

#[test]
fn synchronizer_replaces_a_tree_of_the_wrong_shape() {
    let st = parse(&[WordID::Baby]);
    let mut alloc = EntityAllocator { next: 0 };
    let mut spawned = Vec::new();
    let mut despawned = Vec::new();
    let stale = DockNode {
        entity: 77,
        part: SentenceUIPart::AdjectiveSlot,
        for_phrase: st.root,
        children: Vec::new(),
    };
    let tree = spawn_snap_for(&st, Some(stale), &mut alloc, &mut spawned, &mut despawned);
    assert_eq!(tree.part, SentenceUIPart::NounJoint);
    assert_eq!(despawned, vec![77]);
    assert!(!spawned.is_empty());
}
