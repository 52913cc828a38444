//! The options of the command line program.

use vstd::prelude::*;

verus! {

/// The command line options: where the dictionary is, what to print, and an
/// optional subcommand.
#[derive(Debug, Clone, PartialEq, Eq)]
pub struct Cli {
    /// Path to a dictionary, without extension: `dictionaries/de_DE` if
    /// `dictionaries/de_DE.aff` and `dictionaries/de_DE.dic` exist
    pub dict_path: Option<String>,
    /// Whether to print misspelled words
    pub list_misspelled: bool,
    /// Print a compiled dictionary's word list
    pub generate_wordlist: bool,
    /// Print the search path and found dictionaries
    pub show_dictionaries: bool,
    pub command: Option<Commands>,
}

/// The subcommands.
#[derive(Debug, Clone, PartialEq, Eq)]
pub enum Commands {
    /// Levenshtein distance tools: the distance from `string_a` to
    /// `string_b`, capped at `limit`
    Lev { string_a: String, string_b: String, limit: u32 },
}

} // verus!
