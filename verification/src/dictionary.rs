//! The dictionary's data model: the values protected operations carry.
//!
//! The content store that persists them is a collaborator outside this
//! library; these types only give its records a shape.

use vstd::prelude::*;

verus! {

/// A label a word can carry.
#[derive(Debug)]
pub struct Tag {
    pub tag: String,
}

/// A dictionary word with its readings and tags.
#[derive(Debug)]
pub struct Word {
    pub word: String,
    pub readings: Vec<WordReading>,
    pub tags: Vec<Tag>,
}

/// One reading of a word, with its accent and definitions.
#[derive(Debug)]
pub struct WordReading {
    pub full: String,
    pub accent: String,
    pub definitions: Vec<Definition>,
}

/// One definition of a reading.
#[derive(Debug)]
pub struct Definition {
    pub definition: String,
}

/// A kanji with its mnemonic.
#[derive(Debug)]
pub struct Kanji {
    pub kanji: char,
    pub memonic: String,
}

} // verus!
