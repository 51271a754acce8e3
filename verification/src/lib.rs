//! The verified core of a vocabulary trainer: planning word searches over a
//! full-text index, gathering query rows, the bookkeeping of spaced
//! repetition, and the planning and drawing of flashcard decks.
pub mod answer;
pub mod deck;
pub mod progress;
pub mod rows;
pub mod sampling;
pub mod search;
mod text;
pub mod words;
