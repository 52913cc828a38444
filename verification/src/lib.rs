//! A spellchecker compatible with the Hunspell dictionary format, together
//! with the string metrics (Levenshtein distance) that it builds on.

pub mod affix;
pub mod cli;
pub mod dict;
pub mod download;
pub mod error;
pub mod errors;
pub mod levenshtein;
pub mod morph;
pub mod num;
pub mod parser_affix;
pub mod re;
pub mod test_manager;
pub mod text;

pub use affix::{Config, PartOfSpeech};
pub use dict::{DictBuilder, Dictionary, WordList};
pub use error::Error;
pub use levenshtein::{
    levenshtein, levenshtein_limit, levenshtein_limit_weight, levenshtein_limit_weight_iter,
    levenshtein_weight, Grapheme,
};
pub use morph::MorphInfo;
