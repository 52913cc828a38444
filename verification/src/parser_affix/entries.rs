//! The entries of an affix file, kind by kind: what each kind of key reads
//! from its line or table, and the errors it reports.

use vstd::prelude::*;
use vstd::string::StrSliceExecFns;

use super::lines::{
    lemma_split_at_key, placed, read_rows, row_texts, rows_from, rows_view, split_at_key, split_line,
    table_at, table_rows, TableShape,
};
use super::node::{
    conversion_view, pattern_view, phonetic_view, strings_view, CompoundPatternView,
    ConversionView, GroupView, NodeValue, PhoneticView,
};
use super::types::{condition_of, strip_of, ParsedRule, ParsedRuleGroup};
use crate::affix::{
    compound_pattern_of, encoding_of, flag_type_of, CompoundPattern, CompoundSyllable, Conversion,
    Encoding, FlagType, Phonetic, RuleType, COMPOUND_PATTERN_RE,
};
use crate::dict::rule::PatternView;
use crate::error::{ParseError, ParseErrorKind};
use crate::morph::{morph_of, morphs_all, morphs_view, MorphInfo};
use crate::num::{parse_u16, parse_u8, unsigned_value};
use crate::re::{condition_pattern, regex_compiles};
use crate::text::{
    chars_are, chars_of, fields, first_index, is_whitespace, lemma_first_index_bound, split_whitespace,
    string_from, string_of, ws,
};

verus! {

/// The kinds of entries.
pub enum Kind {
    Comment,
    Encoding,
    FlagType,
    Bool,
    Str,
    Chars,
    Keys,
    U16,
    U8,
    Syllable,
    StrTable,
    ConvTable,
    MapTable,
    PhoneTable,
    PatTable,
    AfxTable(RuleType),
}

/// The kinds of parse errors, without what they carry.
pub enum ErrClass {
    Boolean,
    Int,
    TableCount,
    AffixHeader,
    AffixBody,
    AffixFlagMismatch,
    AffixCrossProduct,
    NonWhitespace,
    ContainsWhitespace,
    Morph,
    ConversionSplit,
    Encoding,
    FlagType,
    CompoundSyllable,
    CompoundPattern,
    Phonetic,
    Char,
    Regex,
    Other,
}

/// The class of an error kind.
pub open spec fn class_of(k: ParseErrorKind) -> ErrClass {
    match k {
        ParseErrorKind::Boolean => ErrClass::Boolean,
        ParseErrorKind::Int(_) => ErrClass::Int,
        ParseErrorKind::TableCount { .. } => ErrClass::TableCount,
        ParseErrorKind::AffixHeader => ErrClass::AffixHeader,
        ParseErrorKind::AffixBody => ErrClass::AffixBody,
        ParseErrorKind::AffixFlagMismatch(_) => ErrClass::AffixFlagMismatch,
        ParseErrorKind::AffixCrossProduct => ErrClass::AffixCrossProduct,
        ParseErrorKind::NonWhitespace(_) => ErrClass::NonWhitespace,
        ParseErrorKind::ContainsWhitespace => ErrClass::ContainsWhitespace,
        ParseErrorKind::MorphInfoDelim(_) => ErrClass::Morph,
        ParseErrorKind::MorphInvalidTag(_) => ErrClass::Morph,
        ParseErrorKind::PartOfSpeech(_) => ErrClass::Morph,
        ParseErrorKind::ConversionSplit(_) => ErrClass::ConversionSplit,
        ParseErrorKind::Encoding => ErrClass::Encoding,
        ParseErrorKind::FlagType => ErrClass::FlagType,
        ParseErrorKind::CompoundSyllableCount(_) => ErrClass::CompoundSyllable,
        ParseErrorKind::CompoundSyllableParse(_) => ErrClass::CompoundSyllable,
        ParseErrorKind::CompoundPattern => ErrClass::CompoundPattern,
        ParseErrorKind::Phonetic(_) => ErrClass::Phonetic,
        ParseErrorKind::Char(_, _) => ErrClass::Char,
        ParseErrorKind::Regex(_) => ErrClass::Regex,
        _ => ErrClass::Other,
    }
}

/// The line of an error, counted from where the entry starts; `0` if it
/// has no location.
pub open spec fn err_line(e: ParseError) -> nat {
    match e.spec_span() {
        Some(s) => s.start.line as nat,
        None => 0,
    }
}

/// What reading an entry gives: its value, where the rest of the text
/// starts and how many lines it took after its first; or the class of the
/// error and its line.
pub enum Entry {
    Node(NodeValue, nat, nat),
    Fail(ErrClass, nat),
}

/// Whether `r` is the outcome that `entry` describes, with `value` saying
/// whether a read value is the one described.
pub open spec fn outcome<T>(
    entry: Option<Entry>,
    r: Result<Option<(T, usize, u32)>, ParseError>,
    value: spec_fn(T) -> NodeValue,
) -> bool {
    match entry {
        None => r matches Ok(None),
        Some(Entry::Node(v, e, n)) => r matches Ok(Some((x, e2, n2))) && value(x) == v && e2 == e
            && n2 == n,
        Some(Entry::Fail(c, l)) => r matches Err(err) && class_of(err.kind()) == c && placed(err, l),
    }
}

/* Entries that take one line */

/// The parts of `s` between the characters `|`, as `str::split('|')`
/// gives them.
pub open spec fn split_bar(s: Seq<char>) -> Seq<Seq<char>>
    decreases s.len(),
{
    let i = first_index(s, |c: char| c == '|');
    if i >= s.len() {
        seq![s]
    } else {
        proof {
            lemma_first_index_bound(s, |c: char| c == '|');
        }
        seq![s.take(i as int)] + split_bar(s.skip(i as int + 1))
    }
}

/// The syllable setting that `c` gives.
pub open spec fn syllable_of(c: Seq<char>) -> Option<(nat, Seq<char>)> {
    let f = fields(c);
    if f.len() == 2 {
        match unsigned_value(f[0]) {
            Some(n) => if n <= u16::MAX {
                Some((n, f[1]))
            } else {
                None
            },
            None => None,
        }
    } else {
        None
    }
}

/// What an entry of a one-line kind makes of its content `c`, ending at
/// `e`.
pub open spec fn line_entry(kind: Kind, c: Seq<char>, e: nat) -> Entry {
    match kind {
        Kind::Comment => Entry::Node(NodeValue::Unit, e, 0),
        Kind::Bool => if c.len() == 0 {
            Entry::Node(NodeValue::Unit, e, 0)
        } else {
            Entry::Fail(ErrClass::Boolean, 0)
        },
        Kind::Str => Entry::Node(NodeValue::Text(c), e, 0),
        Kind::Chars => Entry::Node(NodeValue::Chars(c), e, 0),
        Kind::Keys => Entry::Node(NodeValue::Texts(split_bar(c)), e, 0),
        Kind::U16 => match unsigned_value(c) {
            Some(v) => if v <= u16::MAX {
                Entry::Node(NodeValue::Number(v), e, 0)
            } else {
                Entry::Fail(ErrClass::Int, 0)
            },
            None => Entry::Fail(ErrClass::Int, 0),
        },
        Kind::U8 => match unsigned_value(c) {
            Some(v) => if v <= u8::MAX {
                Entry::Node(NodeValue::Number(v), e, 0)
            } else {
                Entry::Fail(ErrClass::Int, 0)
            },
            None => Entry::Fail(ErrClass::Int, 0),
        },
        Kind::Encoding => match encoding_of(c) {
            Some(x) => Entry::Node(NodeValue::Encoding(x), e, 0),
            None => Entry::Fail(ErrClass::Encoding, 0),
        },
        Kind::FlagType => match flag_type_of(c) {
            Some(x) => Entry::Node(NodeValue::FlagType(x), e, 0),
            None => Entry::Fail(ErrClass::FlagType, 0),
        },
        Kind::Syllable => match syllable_of(c) {
            Some((n, v)) => Entry::Node(NodeValue::Syllable(n, v), e, 0),
            None => Entry::Fail(ErrClass::CompoundSyllable, 0),
        },
        _ => Entry::Fail(ErrClass::Other, 0),
    }
}

/* Entries that take a table */

/// Position of the first text of `cs` that `p` rejects, or its length.
pub open spec fn first_bad(cs: Seq<Seq<char>>, p: spec_fn(Seq<char>) -> bool) -> nat
    decreases cs.len(),
{
    if cs.len() == 0 {
        0
    } else if !p(cs[0]) {
        0
    } else {
        1 + first_bad(cs.drop_first(), p)
    }
}

pub proof fn lemma_first_bad(cs: Seq<Seq<char>>, p: spec_fn(Seq<char>) -> bool)
    ensures
        first_bad(cs, p) <= cs.len(),
        first_bad(cs, p) < cs.len() ==> !p(cs[first_bad(cs, p) as int]),
        forall|k: int| 0 <= k < first_bad(cs, p) ==> p(#[trigger] cs[k]),
    decreases cs.len(),
{
    if cs.len() > 0 && p(cs[0]) {
        lemma_first_bad(cs.drop_first(), p);
        assert forall|k: int| 0 <= k < first_bad(cs, p) implies p(#[trigger] cs[k]) by {
            if k > 0 {
                assert(cs[k] == cs.drop_first()[k - 1]);
            }
        }
    }
}

/// Whether `c` holds no whitespace.
pub open spec fn no_ws(c: Seq<char>) -> bool {
    first_index(c, ws()) >= c.len()
}

/// Whether `c` is two whitespace-separated items.
pub open spec fn two_fields(c: Seq<char>) -> bool {
    fields(c).len() == 2
}

/// Whether `c` has at least two characters.
pub open spec fn two_chars(c: Seq<char>) -> bool {
    c.len() >= 2
}

/// Whether `c` is a valid compound pattern row.
pub open spec fn pattern_row(c: Seq<char>) -> bool {
    regex_compiles(COMPOUND_PATTERN_RE@) && compound_pattern_of(c) is Some
}

/// The row predicate of a table kind.
pub open spec fn row_ok(kind: Kind) -> spec_fn(Seq<char>) -> bool {
    match kind {
        Kind::StrTable => |c: Seq<char>| no_ws(c),
        Kind::ConvTable => |c: Seq<char>| two_fields(c),
        Kind::MapTable => |c: Seq<char>| two_chars(c),
        Kind::PhoneTable => |c: Seq<char>| two_fields(c),
        _ => |c: Seq<char>| pattern_row(c),
    }
}

/// The error class of a rejected row of a table kind.
pub open spec fn row_error(kind: Kind, c: Seq<char>) -> ErrClass {
    match kind {
        Kind::StrTable => ErrClass::ContainsWhitespace,
        Kind::ConvTable => ErrClass::ConversionSplit,
        Kind::MapTable => ErrClass::Char,
        Kind::PhoneTable => ErrClass::Phonetic,
        _ => if regex_compiles(COMPOUND_PATTERN_RE@) {
            ErrClass::CompoundPattern
        } else {
            ErrClass::Regex
        },
    }
}

/// The value of a table kind whose rows are all accepted.
pub open spec fn table_value(kind: Kind, cs: Seq<Seq<char>>) -> NodeValue {
    match kind {
        Kind::StrTable => NodeValue::Texts(cs),
        Kind::ConvTable => NodeValue::Conversions(
            cs.map_values(|c: Seq<char>| (fields(c)[0], fields(c)[1], false)),
        ),
        Kind::MapTable => NodeValue::Maps(cs.map_values(|c: Seq<char>| (c[0], c[1]))),
        Kind::PhoneTable => NodeValue::Phonetics(
            cs.map_values(|c: Seq<char>| (fields(c)[0], fields(c)[1])),
        ),
        _ => NodeValue::Patterns(cs.map_values(|c: Seq<char>| compound_pattern_of(c)->0)),
    }
}

/// What a table kind makes of its rows.
pub open spec fn rows_entry(kind: Kind, cs: Seq<Seq<char>>, end: nat, n: nat) -> Entry {
    let i = first_bad(cs, row_ok(kind));
    if i < cs.len() {
        Entry::Fail(row_error(kind, cs[i as int]), i + 1)
    } else {
        Entry::Node(table_value(kind, cs), end, n)
    }
}

/* Affix tables */

/// The rule that the row `c` of an affix table with flag `flag` gives, or
/// the class of its error.
pub open spec fn rule_of(kind: RuleType, flag: Seq<char>, c: Seq<char>) -> Result<PatternView, ErrClass> {
    let f = fields(c);
    if f.len() < 4 {
        Err(ErrClass::AffixBody)
    } else if f[0] != flag {
        Err(ErrClass::AffixFlagMismatch)
    } else {
        match morphs_all(f.skip(4)) {
            None => Err(ErrClass::Morph),
            Some(ms) => if f[3] != "."@ && !regex_compiles(condition_pattern(kind, f[3])) {
                Err(ErrClass::Regex)
            } else {
                Ok(
                    PatternView {
                        affix: f[2],
                        condition: condition_of(kind, f[3]),
                        strip: strip_of(f[1]),
                        morph: ms,
                    },
                )
            },
        }
    }
}

/// What an affix table makes of its header `h` and the rows after `e`.
pub open spec fn afx_entry(kind: RuleType, t: Seq<char>, key: Seq<char>, h: Seq<char>, e: nat) -> Entry {
    let hf = fields(h);
    if hf.len() != 3 {
        Entry::Fail(ErrClass::AffixHeader, 0)
    } else if hf[1] != "Y"@ && hf[1] != "N"@ {
        Entry::Fail(ErrClass::AffixCrossProduct, 0)
    } else {
        match unsigned_value(hf[2]) {
            Some(n) => if n <= u16::MAX {
                match rows_from(t, e, key, n) {
                    Err(k) => Entry::Fail(ErrClass::TableCount, k + 1),
                    Ok((rs, end)) => {
                        let cs = row_texts(t, rs);
                        let i = first_bad(cs, |c: Seq<char>| rule_of(kind, hf[0], c) is Ok);
                        if i < cs.len() {
                            Entry::Fail(rule_of(kind, hf[0], cs[i as int])->Err_0, i + 1)
                        } else {
                            Entry::Node(
                                NodeValue::Group(
                                    GroupView {
                                        flag: hf[0],
                                        kind,
                                        can_combine: hf[1] == "Y"@,
                                        rules: cs.map_values(
                                            |c: Seq<char>| rule_of(kind, hf[0], c)->Ok_0,
                                        ),
                                    },
                                ),
                                end,
                                n,
                            )
                        }
                    },
                }
            } else {
                Entry::Fail(ErrClass::Int, 0)
            },
            None => Entry::Fail(ErrClass::Int, 0),
        }
    }
}

/// What the key `key` of kind `kind` reads at `pos`; `None` if the text
/// there does not start with the key.
pub open spec fn kind_entry(kind: Kind, t: Seq<char>, pos: nat, key: Seq<char>) -> Option<Entry> {
    match kind {
        Kind::StrTable | Kind::ConvTable | Kind::MapTable | Kind::PhoneTable | Kind::PatTable => {
            match table_at(t, pos, key) {
                None => None,
                Some(TableShape::BadCount) => Some(Entry::Fail(ErrClass::Int, 0)),
                Some(TableShape::Missing(n, k)) => Some(Entry::Fail(ErrClass::TableCount, k + 1)),
                Some(TableShape::Rows(n, rs, end)) => Some(rows_entry(kind, row_texts(t, rs), end, n)),
            }
        },
        Kind::AfxTable(rt) => match split_at_key(t, pos, key) {
            None => None,
            Some((a, b, e)) => Some(afx_entry(rt, t, key, t.subrange(a as int, b as int), e)),
        },
        _ => match split_at_key(t, pos, key) {
            None => None,
            Some((a, b, e)) => Some(line_entry(kind, t.subrange(a as int, b as int), e)),
        },
    }
}


/* Reading entries */

proof fn lemma_first_bad_step(cs: Seq<Seq<char>>, i: int, p: spec_fn(Seq<char>) -> bool)
    requires
        0 <= i < cs.len(),
        p(cs[i]),
    ensures
        first_bad(cs.skip(i), p) == 1 + first_bad(cs.skip(i + 1), p),
{
    assert(cs.skip(i)[0] == cs[i]);
    assert(cs.skip(i).drop_first() =~= cs.skip(i + 1));
}

proof fn lemma_first_bad_stop(cs: Seq<Seq<char>>, i: int, p: spec_fn(Seq<char>) -> bool)
    requires
        0 <= i < cs.len(),
        !p(cs[i]),
        first_bad(cs, p) == i + first_bad(cs.skip(i), p),
    ensures
        first_bad(cs, p) == i,
{
    assert(cs.skip(i)[0] == cs[i]);
}

proof fn lemma_first_bad_end(cs: Seq<Seq<char>>, p: spec_fn(Seq<char>) -> bool)
    requires
        first_bad(cs, p) == cs.len() + first_bad(cs.skip(cs.len() as int), p),
    ensures
        first_bad(cs, p) == cs.len(),
{
    assert(cs.skip(cs.len() as int).len() == 0);
}

/// The content of the key `key` at `pos` and where the rest of the text
/// starts.
pub fn line_text(t: &[char], pos: usize, key: &[char]) -> (r: Option<(String, usize)>)
    requires
        pos <= t@.len(),
    ensures
        match split_at_key(t@, pos as nat, key@) {
            None => r is None,
            Some((a, b, e)) => r matches Some((s, e2)) && s@ == t@.subrange(a as int, b as int)
                && e2 == e,
        },
{
    match split_line(t, pos, key) {
        None => None,
        Some((a, b, e)) => {
            proof {
                lemma_split_at_key(t@, pos as nat, key@);
            }
            Some((string_from(t, a, b), e))
        },
    }
}

/// A comment (`boolean` false) or a boolean key (`boolean` true), which
/// must have nothing after the key.
pub fn unit_entry(t: &[char], pos: usize, key: &[char], boolean: bool) -> (r: Result<
    Option<((), usize, u32)>,
    ParseError,
>)
    requires
        pos <= t@.len(),
    ensures
        outcome(
            kind_entry(
                if boolean {
                    Kind::Bool
                } else {
                    Kind::Comment
                },
                t@,
                pos as nat,
                key@,
            ),
            r,
            |x: ()| NodeValue::Unit,
        ),
{
    match line_text(t, pos, key) {
        None => Ok(None),
        Some((c, e)) => {
            if boolean && c.as_str().unicode_len() != 0 {
                Err(ParseError::new_nospan(ParseErrorKind::Boolean, c.as_str()))
            } else {
                Ok(Some(((), e, 0)))
            }
        },
    }
}

/// A key whose content is kept as written.
pub fn text_entry(t: &[char], pos: usize, key: &[char]) -> (r: Result<
    Option<(String, usize, u32)>,
    ParseError,
>)
    requires
        pos <= t@.len(),
    ensures
        outcome(kind_entry(Kind::Str, t@, pos as nat, key@), r, |x: String| NodeValue::Text(x@)),
{
    match line_text(t, pos, key) {
        None => Ok(None),
        Some((c, e)) => Ok(Some((c, e, 0))),
    }
}

/// A key whose content is a list of characters.
pub fn chars_entry(t: &[char], pos: usize, key: &[char]) -> (r: Result<
    Option<(Vec<char>, usize, u32)>,
    ParseError,
>)
    requires
        pos <= t@.len(),
    ensures
        outcome(kind_entry(Kind::Chars, t@, pos as nat, key@), r, |x: Vec<char>| NodeValue::Chars(x@)),
{
    match line_text(t, pos, key) {
        None => Ok(None),
        Some((c, e)) => Ok(Some((chars_of(c.as_str()), e, 0))),
    }
}

/// Split `s` at each `|`.
pub fn split_bars(s: &str) -> (r: Vec<String>)
    ensures
        strings_view(r@) == split_bar(s@),
    decreases s@.len(),
{
    let t = chars_of(s);
    let mut k: usize = 0;
    while k < t.len() && t[k] != '|'
        invariant
            t@ == s@,
            k <= t@.len(),
            forall|m: int| 0 <= m < k ==> t@[m] != '|',
        decreases t@.len() - k,
    {
        k += 1;
    }
    let ghost bar = |c: char| c == '|';
    proof {
        lemma_first_index_bound(s@, bar);
        if first_index(s@, bar) < k {
            assert(s@[first_index(s@, bar) as int] == '|');
        }
        if k < t@.len() {
            if first_index(s@, bar) > k {
                assert(!bar(s@[k as int]));
            }
        }
        assert(first_index(s@, bar) == k);
    }
    let mut out: Vec<String> = Vec::new();
    if k >= t.len() {
        out.push(string_of(t.as_slice()));
        proof {
            assert(strings_view(out@) =~= seq![s@]);
        }
        out
    } else {
        let head = string_from(t.as_slice(), 0, k);
        let rest = string_from(t.as_slice(), k + 1, t.len());
        proof {
            assert(t@.subrange(0, k as int) =~= s@.take(k as int));
            assert(t@.subrange(k + 1, t@.len() as int) =~= s@.skip(k + 1));
        }
        let tail = split_bars(rest.as_str());
        out.push(head);
        let mut all = out;
        let mut tail_mut = tail;
        let ghost tv = strings_view(tail_mut@);
        all.append(&mut tail_mut);
        proof {
            assert(strings_view(all@) =~= seq![s@.take(k as int)] + tv);
        }
        all
    }
}

/// `KEY`: the neighbouring keys, separated by `|`.
pub fn keys_entry(t: &[char], pos: usize, key: &[char]) -> (r: Result<
    Option<(Vec<String>, usize, u32)>,
    ParseError,
>)
    requires
        pos <= t@.len(),
    ensures
        outcome(
            kind_entry(Kind::Keys, t@, pos as nat, key@),
            r,
            |x: Vec<String>| NodeValue::Texts(strings_view(x@)),
        ),
{
    match line_text(t, pos, key) {
        None => Ok(None),
        Some((c, e)) => Ok(Some((split_bars(c.as_str()), e, 0))),
    }
}

/// A key whose content is a 16-bit count.
pub fn u16_entry(t: &[char], pos: usize, key: &[char]) -> (r: Result<
    Option<(u16, usize, u32)>,
    ParseError,
>)
    requires
        pos <= t@.len(),
    ensures
        outcome(kind_entry(Kind::U16, t@, pos as nat, key@), r, |x: u16| NodeValue::Number(x as nat)),
{
    match line_text(t, pos, key) {
        None => Ok(None),
        Some((c, e)) => match parse_u16(c.as_str()) {
            Ok(v) => Ok(Some((v, e, 0))),
            Err(err) => Err(ParseError::new_nospan(ParseErrorKind::Int(err), c.as_str())),
        },
    }
}

/// A key whose content is an 8-bit count.
pub fn u8_entry(t: &[char], pos: usize, key: &[char]) -> (r: Result<
    Option<(u8, usize, u32)>,
    ParseError,
>)
    requires
        pos <= t@.len(),
    ensures
        outcome(kind_entry(Kind::U8, t@, pos as nat, key@), r, |x: u8| NodeValue::Number(x as nat)),
{
    match line_text(t, pos, key) {
        None => Ok(None),
        Some((c, e)) => match parse_u8(c.as_str()) {
            Ok(v) => Ok(Some((v, e, 0))),
            Err(err) => Err(ParseError::new_nospan(ParseErrorKind::Int(err), c.as_str())),
        },
    }
}

/// `SET`: the encoding.
pub fn encoding_entry(t: &[char], pos: usize, key: &[char]) -> (r: Result<
    Option<(Encoding, usize, u32)>,
    ParseError,
>)
    requires
        pos <= t@.len(),
    ensures
        outcome(
            kind_entry(Kind::Encoding, t@, pos as nat, key@),
            r,
            |x: Encoding| NodeValue::Encoding(x),
        ),
{
    match line_text(t, pos, key) {
        None => Ok(None),
        Some((c, e)) => match Encoding::try_from(c.as_str()) {
            Ok(v) => Ok(Some((v, e, 0))),
            Err(k) => Err(ParseError::new_nospan(k, c.as_str())),
        },
    }
}

/// `FLAG`: the flag type.
pub fn flag_type_entry(t: &[char], pos: usize, key: &[char]) -> (r: Result<
    Option<(FlagType, usize, u32)>,
    ParseError,
>)
    requires
        pos <= t@.len(),
    ensures
        outcome(
            kind_entry(Kind::FlagType, t@, pos as nat, key@),
            r,
            |x: FlagType| NodeValue::FlagType(x),
        ),
{
    match line_text(t, pos, key) {
        None => Ok(None),
        Some((c, e)) => match FlagType::try_from(c.as_str()) {
            Ok(v) => Ok(Some((v, e, 0))),
            Err(k) => Err(ParseError::new_nospan(k, c.as_str())),
        },
    }
}

/// `COMPOUNDSYLLABLE`: a count and the vowels.
pub fn syllable_entry(t: &[char], pos: usize, key: &[char]) -> (r: Result<
    Option<(CompoundSyllable, usize, u32)>,
    ParseError,
>)
    requires
        pos <= t@.len(),
    ensures
        outcome(
            kind_entry(Kind::Syllable, t@, pos as nat, key@),
            r,
            |x: CompoundSyllable| NodeValue::Syllable(x.count as nat, x.vowels@),
        ),
{
    match line_text(t, pos, key) {
        None => Ok(None),
        Some((c, e)) => match CompoundSyllable::try_from(c.as_str()) {
            Ok(v) => Ok(Some((v, e, 0))),
            Err(k) => Err(ParseError::new_nospan(k, c.as_str())),
        },
    }
}

/// The contents of the rows with bounds `rows`.
pub fn row_strings(t: &[char], rows: &Vec<(usize, usize)>) -> (r: Vec<String>)
    requires
        forall|i: int| 0 <= i < rows@.len() ==> #[trigger] rows_view(rows@)[i].0 <= rows_view(rows@)[i].1
            <= t@.len(),
    ensures
        strings_view(r@) == row_texts(t@, rows_view(rows@)),
{
    let mut out: Vec<String> = Vec::new();
    let mut i: usize = 0;
    while i < rows.len()
        invariant
            i <= rows@.len(),
            forall|k: int| 0 <= k < rows@.len() ==> #[trigger] rows_view(rows@)[k].0 <= rows_view(rows@)[k].1
                <= t@.len(),
            strings_view(out@) == row_texts(t@, rows_view(rows@)).take(i as int),
        decreases rows@.len() - i,
    {
        let (a, b) = rows[i];
        proof {
            assert(rows_view(rows@)[i as int] == (a as nat, b as nat));
        }
        let s = string_from(t, a, b);
        let ghost before = out@;
        out.push(s);
        proof {
            assert(strings_view(out@) =~= strings_view(before).push(s@));
            assert(row_texts(t@, rows_view(rows@))[i as int] == t@.subrange(a as int, b as int));
            assert(row_texts(t@, rows_view(rows@)).take(i + 1) =~= row_texts(t@, rows_view(rows@)).take(
                i as int,
            ).push(t@.subrange(a as int, b as int)));
        }
        i += 1;
    }
    proof {
        assert(row_texts(t@, rows_view(rows@)).take(i as int) =~= row_texts(t@, rows_view(rows@)));
    }
    out
}


/// The outcome of checking the rows `cs` of a table of kind `kind`, whose
/// values, when all rows are accepted, are related to the rows by `value`.
pub open spec fn rows_outcome<T>(
    kind: Kind,
    cs: Seq<Seq<char>>,
    r: Result<Vec<T>, ParseError>,
    value: spec_fn(Seq<T>) -> NodeValue,
) -> bool {
    let i = first_bad(cs, row_ok(kind));
    if i < cs.len() {
        r matches Err(e) && class_of(e.kind()) == row_error(kind, cs[i as int]) && placed(e, i + 1)
    } else {
        r matches Ok(v) && value(v@) == table_value(kind, cs)
    }
}

/// Check that no row of a string table holds whitespace.
pub fn str_rows(cs: Vec<String>) -> (r: Result<Vec<String>, ParseError>)
    requires
        cs@.len() <= u16::MAX,
    ensures
        rows_outcome(
            Kind::StrTable,
            strings_view(cs@),
            r,
            |v: Seq<String>| NodeValue::Texts(strings_view(v)),
        ),
{
    let ghost sv = strings_view(cs@);
    let ghost p = row_ok(Kind::StrTable);
    let mut i: usize = 0;
    proof {
        assert(sv.skip(0) =~= sv);
    }
    while i < cs.len()
        invariant
            sv == strings_view(cs@),
            p == row_ok(Kind::StrTable),
            i <= cs@.len() <= u16::MAX,
            first_bad(sv, p) == i + first_bad(sv.skip(i as int), p),
        decreases cs@.len() - i,
    {
        let c = chars_of(cs[i].as_str());
        let w = crate::text::find_whitespace(c.as_slice(), 0, c.len());
        proof {
            assert(sv[i as int] == cs@[i as int]@);
            assert(c@.subrange(0, c@.len() as int) =~= c@);
        }
        if w < c.len() {
            proof {
                lemma_first_bad_stop(sv, i as int, p);
            }
            return Err(
                ParseError::new(ParseErrorKind::ContainsWhitespace, cs[i].as_str(), (i + 1) as u32, 0),
            );
        }
        proof {
            lemma_first_bad_step(sv, i as int, p);
        }
        i += 1;
    }
    proof {
        lemma_first_bad_end(sv, p);
    }
    Ok(cs)
}

/// Read each row of a conversion table.
pub fn conv_rows(cs: &Vec<String>) -> (r: Result<Vec<Conversion>, ParseError>)
    requires
        cs@.len() <= u16::MAX,
    ensures
        rows_outcome(
            Kind::ConvTable,
            strings_view(cs@),
            r,
            |v: Seq<Conversion>| NodeValue::Conversions(super::node::conversions_view(v)),
        ),
{
    let ghost sv = strings_view(cs@);
    let ghost p = row_ok(Kind::ConvTable);
    let ghost f = |c: Seq<char>| (fields(c)[0], fields(c)[1], false);
    let mut out: Vec<Conversion> = Vec::new();
    let mut i: usize = 0;
    proof {
        assert(sv.skip(0) =~= sv);
    }
    while i < cs.len()
        invariant
            sv == strings_view(cs@),
            p == row_ok(Kind::ConvTable),
            f == (|c: Seq<char>| (fields(c)[0], fields(c)[1], false)),
            i <= cs@.len() <= u16::MAX,
            first_bad(sv, p) == i + first_bad(sv.skip(i as int), p),
            out@.map_values(|c: Conversion| conversion_view(c)) == sv.take(i as int).map_values(f),
        decreases cs@.len() - i,
    {
        proof {
            assert(sv[i as int] == cs@[i as int]@);
        }
        match Conversion::from_str(cs[i].as_str(), false) {
            Ok(c) => {
                let ghost before = out@;
                out.push(c);
                proof {
                    lemma_first_bad_step(sv, i as int, p);
                    assert(out@.map_values(|c: Conversion| conversion_view(c)) =~= before.map_values(
                        |c: Conversion| conversion_view(c),
                    ).push(conversion_view(c)));
                    assert(sv.take(i + 1).map_values(f) =~= sv.take(i as int).map_values(f).push(
                        f(sv[i as int]),
                    ));
                }
            },
            Err(k) => {
                proof {
                    lemma_first_bad_stop(sv, i as int, p);
                }
                return Err(ParseError::new(k, cs[i].as_str(), (i + 1) as u32, 0));
            },
        }
        i += 1;
    }
    proof {
        lemma_first_bad_end(sv, p);
        assert(sv.take(i as int) =~= sv);
    }
    Ok(out)
}

/// Read each row of a mapping table: its first two characters.
pub fn map_rows(cs: &Vec<String>) -> (r: Result<Vec<(char, char)>, ParseError>)
    requires
        cs@.len() <= u16::MAX,
    ensures
        rows_outcome(Kind::MapTable, strings_view(cs@), r, |v: Seq<(char, char)>| NodeValue::Maps(v)),
{
    let ghost sv = strings_view(cs@);
    let ghost p = row_ok(Kind::MapTable);
    let ghost f = |c: Seq<char>| (c[0], c[1]);
    let mut out: Vec<(char, char)> = Vec::new();
    let mut i: usize = 0;
    proof {
        assert(sv.skip(0) =~= sv);
    }
    while i < cs.len()
        invariant
            sv == strings_view(cs@),
            p == row_ok(Kind::MapTable),
            f == (|c: Seq<char>| (c[0], c[1])),
            i <= cs@.len() <= u16::MAX,
            first_bad(sv, p) == i + first_bad(sv.skip(i as int), p),
            out@ == sv.take(i as int).map_values(f),
        decreases cs@.len() - i,
    {
        proof {
            assert(sv[i as int] == cs@[i as int]@);
        }
        let c = chars_of(cs[i].as_str());
        if c.len() < 2 {
            proof {
                lemma_first_bad_stop(sv, i as int, p);
            }
            return Err(ParseError::new(ParseErrorKind::Char(2, c.len()), cs[i].as_str(), (i + 1) as u32, 0));
        }
        out.push((c[0], c[1]));
        proof {
            lemma_first_bad_step(sv, i as int, p);
            assert(sv.take(i + 1).map_values(f) =~= sv.take(i as int).map_values(f).push(f(sv[i as int])));
        }
        i += 1;
    }
    proof {
        lemma_first_bad_end(sv, p);
        assert(sv.take(i as int) =~= sv);
    }
    Ok(out)
}

/// Read each row of a phonetic table.
pub fn phone_rows(cs: &Vec<String>) -> (r: Result<Vec<Phonetic>, ParseError>)
    requires
        cs@.len() <= u16::MAX,
    ensures
        rows_outcome(
            Kind::PhoneTable,
            strings_view(cs@),
            r,
            |v: Seq<Phonetic>| NodeValue::Phonetics(super::node::phonetics_view(v)),
        ),
{
    let ghost sv = strings_view(cs@);
    let ghost p = row_ok(Kind::PhoneTable);
    let ghost f = |c: Seq<char>| (fields(c)[0], fields(c)[1]);
    let mut out: Vec<Phonetic> = Vec::new();
    let mut i: usize = 0;
    proof {
        assert(sv.skip(0) =~= sv);
    }
    while i < cs.len()
        invariant
            sv == strings_view(cs@),
            p == row_ok(Kind::PhoneTable),
            f == (|c: Seq<char>| (fields(c)[0], fields(c)[1])),
            i <= cs@.len() <= u16::MAX,
            first_bad(sv, p) == i + first_bad(sv.skip(i as int), p),
            out@.map_values(|x: Phonetic| phonetic_view(x)) == sv.take(i as int).map_values(f),
        decreases cs@.len() - i,
    {
        proof {
            assert(sv[i as int] == cs@[i as int]@);
        }
        match Phonetic::try_from(cs[i].as_str()) {
            Ok(x) => {
                let ghost before = out@;
                out.push(x);
                proof {
                    lemma_first_bad_step(sv, i as int, p);
                    assert(out@.map_values(|x: Phonetic| phonetic_view(x)) =~= before.map_values(
                        |x: Phonetic| phonetic_view(x),
                    ).push(phonetic_view(x)));
                    assert(sv.take(i + 1).map_values(f) =~= sv.take(i as int).map_values(f).push(
                        f(sv[i as int]),
                    ));
                }
            },
            Err(k) => {
                proof {
                    lemma_first_bad_stop(sv, i as int, p);
                }
                return Err(ParseError::new(k, cs[i].as_str(), (i + 1) as u32, 0));
            },
        }
        i += 1;
    }
    proof {
        lemma_first_bad_end(sv, p);
        assert(sv.take(i as int) =~= sv);
    }
    Ok(out)
}

/// Read each row of a compound pattern table.
pub fn pat_rows(cs: &Vec<String>) -> (r: Result<Vec<CompoundPattern>, ParseError>)
    requires
        cs@.len() <= u16::MAX,
    ensures
        rows_outcome(
            Kind::PatTable,
            strings_view(cs@),
            r,
            |v: Seq<CompoundPattern>| NodeValue::Patterns(super::node::patterns_view(v)),
        ),
{
    let ghost sv = strings_view(cs@);
    let ghost p = row_ok(Kind::PatTable);
    let ghost f = |c: Seq<char>| compound_pattern_of(c)->0;
    let mut out: Vec<CompoundPattern> = Vec::new();
    let mut i: usize = 0;
    proof {
        assert(sv.skip(0) =~= sv);
    }
    while i < cs.len()
        invariant
            sv == strings_view(cs@),
            p == row_ok(Kind::PatTable),
            f == (|c: Seq<char>| compound_pattern_of(c)->0),
            i <= cs@.len() <= u16::MAX,
            first_bad(sv, p) == i + first_bad(sv.skip(i as int), p),
            out@.map_values(|x: CompoundPattern| pattern_view(x)) == sv.take(i as int).map_values(f),
        decreases cs@.len() - i,
    {
        proof {
            assert(sv[i as int] == cs@[i as int]@);
        }
        match CompoundPattern::try_from(cs[i].as_str()) {
            Ok(x) => {
                let ghost before = out@;
                out.push(x);
                proof {
                    lemma_first_bad_step(sv, i as int, p);
                    assert(out@.map_values(|x: CompoundPattern| pattern_view(x)) =~= before.map_values(
                        |x: CompoundPattern| pattern_view(x),
                    ).push(pattern_view(x)));
                    assert(sv.take(i + 1).map_values(f) =~= sv.take(i as int).map_values(f).push(
                        f(sv[i as int]),
                    ));
                }
            },
            Err(k) => {
                proof {
                    lemma_first_bad_stop(sv, i as int, p);
                }
                return Err(ParseError::new(k, cs[i].as_str(), (i + 1) as u32, 0));
            },
        }
        i += 1;
    }
    proof {
        lemma_first_bad_end(sv, p);
        assert(sv.take(i as int) =~= sv);
    }
    Ok(out)
}


/// The rows that a table at `pos` gives are within the text.
pub proof fn lemma_table_rows(t: Seq<char>, pos: nat, key: Seq<char>)
    requires
        pos <= t.len(),
        key.len() > 0,
        table_at(t, pos, key) matches Some(TableShape::Rows(_, _, _)),
    ensures
        ({
            let rs = table_at(t, pos, key)->0->Rows_1;
            let end = table_at(t, pos, key)->0->Rows_2;
            &&& rs.len() == table_at(t, pos, key)->0->Rows_0
            &&& pos < end <= t.len()
            &&& forall|i: int| 0 <= i < rs.len() ==> #[trigger] rs[i].0 <= rs[i].1 <= t.len()
        }),
{
    lemma_split_at_key(t, pos, key);
    let (a, b, e) = split_at_key(t, pos, key)->0;
    let n = unsigned_value(t.subrange(a as int, b as int))->0;
    super::lines::lemma_rows_from(t, e, key, n);
}

/// A table of strings, none of which may hold whitespace.
pub fn str_table_entry(t: &[char], pos: usize, key: &[char]) -> (r: Result<
    Option<(Vec<String>, usize, u32)>,
    ParseError,
>)
    requires
        pos <= t@.len(),
        key@.len() > 0,
    ensures
        outcome(
            kind_entry(Kind::StrTable, t@, pos as nat, key@),
            r,
            |x: Vec<String>| NodeValue::Texts(strings_view(x@)),
        ),
{
    match table_rows(t, pos, key) {
        Err(e) => Err(e),
        Ok(None) => Ok(None),
        Ok(Some((n, rows, end))) => {
            proof {
                lemma_table_rows(t@, pos as nat, key@);
            }
            let cs = row_strings(t, &rows);
            match str_rows(cs) {
                Ok(v) => Ok(Some((v, end, n as u32))),
                Err(e) => Err(e),
            }
        },
    }
}

/// A table of conversions.
pub fn conv_table_entry(t: &[char], pos: usize, key: &[char]) -> (r: Result<
    Option<(Vec<Conversion>, usize, u32)>,
    ParseError,
>)
    requires
        pos <= t@.len(),
        key@.len() > 0,
    ensures
        outcome(
            kind_entry(Kind::ConvTable, t@, pos as nat, key@),
            r,
            |x: Vec<Conversion>| NodeValue::Conversions(super::node::conversions_view(x@)),
        ),
{
    match table_rows(t, pos, key) {
        Err(e) => Err(e),
        Ok(None) => Ok(None),
        Ok(Some((n, rows, end))) => {
            proof {
                lemma_table_rows(t@, pos as nat, key@);
            }
            let cs = row_strings(t, &rows);
            match conv_rows(&cs) {
                Ok(v) => Ok(Some((v, end, n as u32))),
                Err(e) => Err(e),
            }
        },
    }
}

/// A table of character pairs.
pub fn map_table_entry(t: &[char], pos: usize, key: &[char]) -> (r: Result<
    Option<(Vec<(char, char)>, usize, u32)>,
    ParseError,
>)
    requires
        pos <= t@.len(),
        key@.len() > 0,
    ensures
        outcome(
            kind_entry(Kind::MapTable, t@, pos as nat, key@),
            r,
            |x: Vec<(char, char)>| NodeValue::Maps(x@),
        ),
{
    match table_rows(t, pos, key) {
        Err(e) => Err(e),
        Ok(None) => Ok(None),
        Ok(Some((n, rows, end))) => {
            proof {
                lemma_table_rows(t@, pos as nat, key@);
            }
            let cs = row_strings(t, &rows);
            match map_rows(&cs) {
                Ok(v) => Ok(Some((v, end, n as u32))),
                Err(e) => Err(e),
            }
        },
    }
}

/// A table of phonetic rules.
pub fn phone_table_entry(t: &[char], pos: usize, key: &[char]) -> (r: Result<
    Option<(Vec<Phonetic>, usize, u32)>,
    ParseError,
>)
    requires
        pos <= t@.len(),
        key@.len() > 0,
    ensures
        outcome(
            kind_entry(Kind::PhoneTable, t@, pos as nat, key@),
            r,
            |x: Vec<Phonetic>| NodeValue::Phonetics(super::node::phonetics_view(x@)),
        ),
{
    match table_rows(t, pos, key) {
        Err(e) => Err(e),
        Ok(None) => Ok(None),
        Ok(Some((n, rows, end))) => {
            proof {
                lemma_table_rows(t@, pos as nat, key@);
            }
            let cs = row_strings(t, &rows);
            match phone_rows(&cs) {
                Ok(v) => Ok(Some((v, end, n as u32))),
                Err(e) => Err(e),
            }
        },
    }
}

/// A table of compound patterns.
pub fn pat_table_entry(t: &[char], pos: usize, key: &[char]) -> (r: Result<
    Option<(Vec<CompoundPattern>, usize, u32)>,
    ParseError,
>)
    requires
        pos <= t@.len(),
        key@.len() > 0,
    ensures
        outcome(
            kind_entry(Kind::PatTable, t@, pos as nat, key@),
            r,
            |x: Vec<CompoundPattern>| NodeValue::Patterns(super::node::patterns_view(x@)),
        ),
{
    match table_rows(t, pos, key) {
        Err(e) => Err(e),
        Ok(None) => Ok(None),
        Ok(Some((n, rows, end))) => {
            proof {
                lemma_table_rows(t@, pos as nat, key@);
            }
            let cs = row_strings(t, &rows);
            match pat_rows(&cs) {
                Ok(v) => Ok(Some((v, end, n as u32))),
                Err(e) => Err(e),
            }
        },
    }
}


/// Read one row of an affix table whose flag is `flag`.
pub fn afx_row(kind: RuleType, flag: &str, c: &str) -> (r: Result<ParsedRule, ParseErrorKind>)
    ensures
        match rule_of(kind, flag@, c@) {
            Ok(pv) => r matches Ok(x) && x@ == pv,
            Err(cl) => r matches Err(k) && class_of(k) == cl,
        },
{
    let f = split_whitespace(c);
    let ghost fv = f@.map_values(|x: String| x@);
    proof {
        assert(fv.len() == f@.len());
    }
    if f.len() < 4 {
        return Err(ParseErrorKind::AffixBody);
    }
    proof {
        assert(fv[0] == f@[0]@);
        assert(fv[1] == f@[1]@);
        assert(fv[2] == f@[2]@);
        assert(fv[3] == f@[3]@);
    }
    if !crate::text::str_eq(f[0].as_str(), flag) {
        return Err(ParseErrorKind::AffixFlagMismatch(flag.to_owned()));
    }
    let morphs = match crate::morph::many_from_fields(&f, 4) {
        Ok(m) => m,
        Err(k) => {
            return Err(k);
        },
    };
    ParsedRule::new_parse(kind, f[2].as_str(), f[1].as_str(), f[3].as_str(), morphs)
}

/// Read the rows of an affix table whose flag is `flag`.
pub fn afx_rows(kind: RuleType, flag: &str, cs: &Vec<String>) -> (r: Result<Vec<ParsedRule>, ParseError>)
    requires
        cs@.len() <= u16::MAX,
    ensures
        ({
            let sv = strings_view(cs@);
            let p = |c: Seq<char>| rule_of(kind, flag@, c) is Ok;
            let i = first_bad(sv, p);
            if i < sv.len() {
                r matches Err(e) && class_of(e.kind()) == rule_of(kind, flag@, sv[i as int])->Err_0
                    && placed(e, i + 1)
            } else {
                r matches Ok(v) && v@.map_values(|x: ParsedRule| x@) == sv.map_values(
                    |c: Seq<char>| rule_of(kind, flag@, c)->Ok_0,
                )
            }
        }),
{
    let ghost sv = strings_view(cs@);
    let ghost p = |c: Seq<char>| rule_of(kind, flag@, c) is Ok;
    let ghost f = |c: Seq<char>| rule_of(kind, flag@, c)->Ok_0;
    let mut out: Vec<ParsedRule> = Vec::new();
    let mut i: usize = 0;
    proof {
        assert(sv.skip(0) =~= sv);
    }
    while i < cs.len()
        invariant
            sv == strings_view(cs@),
            p == (|c: Seq<char>| rule_of(kind, flag@, c) is Ok),
            f == (|c: Seq<char>| rule_of(kind, flag@, c)->Ok_0),
            i <= cs@.len() <= u16::MAX,
            first_bad(sv, p) == i + first_bad(sv.skip(i as int), p),
            out@.map_values(|x: ParsedRule| x@) == sv.take(i as int).map_values(f),
        decreases cs@.len() - i,
    {
        proof {
            assert(sv[i as int] == cs@[i as int]@);
        }
        match afx_row(kind, flag, cs[i].as_str()) {
            Ok(x) => {
                let ghost before = out@;
                out.push(x);
                proof {
                    lemma_first_bad_step(sv, i as int, p);
                    assert(out@.map_values(|x: ParsedRule| x@) =~= before.map_values(|x: ParsedRule| x@).push(x@));
                    assert(sv.take(i + 1).map_values(f) =~= sv.take(i as int).map_values(f).push(
                        f(sv[i as int]),
                    ));
                }
            },
            Err(k) => {
                proof {
                    lemma_first_bad_stop(sv, i as int, p);
                }
                return Err(ParseError::new(k, cs[i].as_str(), (i + 1) as u32, 0));
            },
        }
        i += 1;
    }
    proof {
        lemma_first_bad_end(sv, p);
        assert(sv.take(i as int) =~= sv);
    }
    Ok(out)
}

/// An affix table (`PFX` or `SFX`): a header with the flag, `Y` or `N` for
/// whether the rules combine with those of the other kind, and the row
/// count; then the rows.
pub fn afx_table_entry(t: &[char], pos: usize, key: &[char], kind: RuleType) -> (r: Result<
    Option<(ParsedRuleGroup, usize, u32)>,
    ParseError,
>)
    requires
        pos <= t@.len(),
        key@.len() > 0,
    ensures
        outcome(
            kind_entry(Kind::AfxTable(kind), t@, pos as nat, key@),
            r,
            |x: ParsedRuleGroup| NodeValue::Group(super::node::group_view(x)),
        ),
{
    let (h, e) = match line_text(t, pos, key) {
        None => {
            return Ok(None);
        },
        Some(x) => x,
    };
    proof {
        lemma_split_at_key(t@, pos as nat, key@);
    }
    let hf = split_whitespace(h.as_str());
    let ghost hv = hf@.map_values(|x: String| x@);
    proof {
        assert(hv.len() == hf@.len());
    }
    if hf.len() != 3 {
        return Err(ParseError::new_nospan(ParseErrorKind::AffixHeader, h.as_str()));
    }
    proof {
        assert(hv[0] == hf@[0]@);
        assert(hv[1] == hf@[1]@);
        assert(hv[2] == hf@[2]@);
    }
    let can_combine = if crate::text::str_eq(hf[1].as_str(), "Y") {
        true
    } else if crate::text::str_eq(hf[1].as_str(), "N") {
        false
    } else {
        return Err(ParseError::new_nospan(ParseErrorKind::AffixCrossProduct, h.as_str()));
    };
    let n = match parse_u16(hf[2].as_str()) {
        Ok(n) => n,
        Err(err) => {
            return Err(ParseError::new_nospan(ParseErrorKind::Int(err), h.as_str()));
        },
    };
    let (rows, end) = match read_rows(t, e, key, n) {
        Ok(x) => x,
        Err(err) => {
            return Err(err);
        },
    };
    proof {
        super::lines::lemma_rows_from(t@, e as nat, key@, n as nat);
    }
    let cs = row_strings(t, &rows);
    let rules = match afx_rows(kind, hf[0].as_str(), &cs) {
        Ok(v) => v,
        Err(err) => {
            return Err(err);
        },
    };
    let group = ParsedRuleGroup { flag: hf[0].clone(), kind, can_combine, rules };
    proof {
        assert(group.spec_rules() == group.rules@.map_values(|x: ParsedRule| x@));
    }
    Ok(Some((group, end, n as u32)))
}

} // verus!
