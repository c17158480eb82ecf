//! The word lexicon: the closed set of words, their display forms and their
//! parts of speech.

use vstd::prelude::*;

verus! {

/// A lexical item the player can pick up and place in a sentence.  The set is
/// closed: words are looked up by value and never constructed dynamically.
#[derive(Copy, Clone, PartialEq, Eq, Structural, Debug, Hash, Default)]
pub enum WordID {
    #[default]
    Baby,
    Wide,
    Tall,
    Fast,
    Horse,
    And,
    FlutteringUp,
    FlutteringRight,
}

/// A grammatical category a word may belong to.  A word can carry several
/// (for example `Baby` is both a noun and an adjective).
#[derive(Copy, Clone, PartialEq, Eq, Structural, Debug)]
pub enum PartOfSpeech {
    Noun,
    Adjective,
    Conjunction,
}

/// Whether `w` can stand as the noun of a sentence.
pub open spec fn spec_is_noun(w: WordID) -> bool {
    w == WordID::Baby || w == WordID::Horse
}

/// Whether `w` can stand in an adjective slot.
pub open spec fn spec_is_adjective(w: WordID) -> bool {
    w == WordID::Baby || w == WordID::Wide || w == WordID::Tall || w == WordID::Fast
        || w == WordID::FlutteringUp || w == WordID::FlutteringRight
}

/// Whether `w` joins two adjective phrases.
pub open spec fn spec_is_conjunction(w: WordID) -> bool {
    w == WordID::And
}

/// The full part-of-speech table, in the order the lexicon lists categories.
pub open spec fn spec_parts_of_speech(w: WordID) -> Seq<PartOfSpeech> {
    match w {
        WordID::Baby => seq![PartOfSpeech::Noun, PartOfSpeech::Adjective],
        WordID::Wide => seq![PartOfSpeech::Adjective],
        WordID::Tall => seq![PartOfSpeech::Adjective],
        WordID::Fast => seq![PartOfSpeech::Adjective],
        WordID::Horse => seq![PartOfSpeech::Noun],
        WordID::And => seq![PartOfSpeech::Conjunction],
        WordID::FlutteringUp => seq![PartOfSpeech::Adjective],
        WordID::FlutteringRight => seq![PartOfSpeech::Adjective],
    }
}

/// The display text and asset key of a word.
#[derive(Copy, Clone, Debug)]
pub struct WordForms {
    pub basic: &'static str,
    pub filename: &'static str,
}

/// The display text of each word.
pub open spec fn spec_basic_form(w: WordID) -> Seq<char> {
    match w {
        WordID::Baby => "Baby"@,
        WordID::Wide => "Wide"@,
        WordID::Tall => "Tall"@,
        WordID::Fast => "Fast"@,
        WordID::Horse => "Horse"@,
        WordID::And => "And"@,
        WordID::FlutteringUp => "Fluttering"@,
        WordID::FlutteringRight => "Fluttering"@,
    }
}

/// The asset key of each word.
pub open spec fn spec_filename_form(w: WordID) -> Seq<char> {
    match w {
        WordID::Baby => "baby"@,
        WordID::Wide => "wide"@,
        WordID::Tall => "tall"@,
        WordID::Fast => "fast"@,
        WordID::Horse => "horse"@,
        WordID::And => "and"@,
        WordID::FlutteringUp => "fluttering_up"@,
        WordID::FlutteringRight => "fluttering_right"@,
    }
}

impl WordID {
    /// The display form and asset key of this word.
    pub fn forms(self) -> (r: WordForms)
        ensures
            r.basic@ == spec_basic_form(self),
            r.filename@ == spec_filename_form(self),
    {
        match self {
            WordID::Baby => WordForms { basic: "Baby", filename: "baby" },
            WordID::Wide => WordForms { basic: "Wide", filename: "wide" },
            WordID::Tall => WordForms { basic: "Tall", filename: "tall" },
            WordID::Fast => WordForms { basic: "Fast", filename: "fast" },
            WordID::Horse => WordForms { basic: "Horse", filename: "horse" },
            WordID::And => WordForms { basic: "And", filename: "and" },
            WordID::FlutteringUp => WordForms { basic: "Fluttering", filename: "fluttering_up" },
            WordID::FlutteringRight => WordForms {
                basic: "Fluttering",
                filename: "fluttering_right",
            },
        }
    }

    /// The set of parts of speech this word can take.
    pub fn part_of_speech(self) -> (r: Vec<PartOfSpeech>)
        ensures
            r@ == spec_parts_of_speech(self),
            (exists|i: int| 0 <= i < r@.len() && r@[i] == PartOfSpeech::Noun) <==> spec_is_noun(
                self,
            ),
            (exists|i: int|
                0 <= i < r@.len() && r@[i] == PartOfSpeech::Adjective) <==> spec_is_adjective(self),
            (exists|i: int|
                0 <= i < r@.len() && r@[i] == PartOfSpeech::Conjunction) <==> spec_is_conjunction(
                self,
            ),
    {
        let r: Vec<PartOfSpeech> = match self {
            WordID::Baby => vec![PartOfSpeech::Noun, PartOfSpeech::Adjective],
            WordID::Wide => vec![PartOfSpeech::Adjective],
            WordID::Tall => vec![PartOfSpeech::Adjective],
            WordID::Fast => vec![PartOfSpeech::Adjective],
            WordID::Horse => vec![PartOfSpeech::Noun],
            WordID::And => vec![PartOfSpeech::Conjunction],
            WordID::FlutteringUp => vec![PartOfSpeech::Adjective],
            WordID::FlutteringRight => vec![PartOfSpeech::Adjective],
        };
        proof {
            assert(r@ =~= spec_parts_of_speech(self));
        }
        r
    }

    /// Whether this word can stand as the sentence's noun.
    pub fn is_noun(self) -> (r: bool)
        ensures
            r == spec_is_noun(self),
    {
        matches!(self, WordID::Baby | WordID::Horse)
    }

    /// Whether this word can stand in an adjective slot.
    pub fn is_adjective(self) -> (r: bool)
        ensures
            r == spec_is_adjective(self),
    {
        matches!(
            self,
            WordID::Baby | WordID::Wide | WordID::Tall | WordID::Fast | WordID::FlutteringUp
                | WordID::FlutteringRight
        )
    }

    /// Whether this word joins two adjective phrases.
    pub fn is_conjunction(self) -> (r: bool)
        ensures
            r == spec_is_conjunction(self),
    {
        matches!(self, WordID::And)
    }
}

} // verus!
