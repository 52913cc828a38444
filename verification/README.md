# zspell

A spellchecker for dictionaries in the Hunspell format, with the string
metrics it builds on, written in Verus: each function states what it
computes in its `requires`/`ensures`, and Verus proves the code against it.

Layout:

- `src/levenshtein.rs`: Levenshtein distances over grapheme clusters, with
  weights and limits.
- `src/parser_affix.rs` and `src/parser_affix/`: reading an affix file into
  entries (`AffixNode`), line by line and table by table.
- `src/affix.rs` and `src/affix/`: the settings of an affix file
  (`ParsedCfg`), flag types, and the flags that the settings give a meaning;
  `src/affix/config.rs` holds `Config`, the same settings with the flags
  kept as written.
- `src/dict.rs` and `src/dict/`: dictionary files, personal dictionaries,
  affix rules, word lists, and the `Dictionary` with its builder.
- `src/morph.rs`, `src/error.rs`, `src/errors.rs`: morphological
  information and error types with their messages.
- `src/download.rs`: locating the files of a dictionary in the listing of
  the dictionary repository, and Git hashes.
- `src/test_manager.rs`: collections of checks read from `.test` files.
- `src/text.rs`, `src/num.rs`, `src/re.rs`: text, number and regular
  expression helpers.
- `app/`: the command line program (argument parsing, file and network
  access).
- `tests/`: tests of the library.
