//! The records that the word database serves.
use vstd::prelude::*;

verus! {

/// A word of the dictionary, with how often and how commonly it occurs in the
/// corpus and the surface forms it was seen in.
#[derive(Clone, Debug, PartialEq)]
pub struct Word {
    pub id: i64,
    pub lemma: String,
    pub frequency_count: i64,
    pub frequency_rank: i64,
    pub surface_forms: Option<String>,
}

/// One meaning of a word, with its part of speech and where it comes from.
#[derive(Clone, Debug, PartialEq)]
pub struct Definition {
    pub id: i64,
    pub word_id: i64,
    pub part_of_speech: String,
    pub meaning: String,
    pub source: String,
}

} // verus!
