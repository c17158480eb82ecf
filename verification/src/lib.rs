//! A verified sentence-structure engine for a word-building puzzle game.
//!
//! The player assembles sentences out of draggable word tokens (nouns,
//! adjectives, conjunctions).  The parsed sentence decides which game object
//! exists and which physical properties apply to it.  This crate holds the
//! game's rules: the phrase arena, the word lexicon, the sentence parser, the
//! drag-and-drop bookkeeping, the sentence-UI synchronizer and the
//! adjective-effect resolver.  Rendering, physics and file I/O live outside.

pub mod apply_words;
pub mod arena;
pub mod camera;
pub mod drag_and_drop;
pub mod entity;
pub mod movement;
pub mod parser;
pub mod spawn;
pub mod structure;
pub mod sync;
pub mod ui;
pub mod word_id;
pub mod world;
