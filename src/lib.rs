//! Transliteration of Serbian text between the Latin and Cyrillic scripts.
pub mod charmaps;
pub mod cli;
pub mod foreign;
pub mod laws;
pub mod processor;
pub mod transliterate;
pub mod unicode;

pub use charmaps::{Case, Character, DigraphException};
pub use transliterate::{Charset, Error, Transliterator};
