//! Reading dictionary files (`.dic`) and personal dictionaries.

use vstd::prelude::*;

use crate::affix::{flags_of, FlagType};
use crate::error::{convertu32, ParseError, ParseErrorKind};
use crate::morph::{morphs_all, morphs_view, MorphInfo, MorphView};
use crate::num::{parse_usize, unsigned_value};
use crate::re::{opt_view, regex_captures, regex_compiles, ReWrapper};
use crate::text::{fields, lines_of, trim, trimmed_lines};

verus! {

/// One line of a dictionary file: the stem, then optionally `/` and its
/// flags, then optionally morphological information, then optionally a
/// comment.
pub const RE_DICT_LINE: &'static str = "^(?P<stem>\\S+?)(?:/(?P<flags>\\S+))?(?:\\s+(?P<morph>[\\s\\w:]+?))?(?:\\s+\\#.*)?$";

/// One line of a personal dictionary: optionally `*` (the word is
/// forbidden), the stem, then optionally `/` and a friend word, then
/// optionally morphological information, then optionally a comment.
pub const RE_PERSONAL_LINE: &'static str = "^(?P<forbid>\\*)?(?P<stem>\\S+?)(?:/(?P<friend>\\w+))?(?:\\s+(?P<morph>[\\s\\w:]+?))?(?:\\s+\\#.*)?$";

/// A single line in a dictionary file.
///
/// ```text
/// word[/flags...] [morphinfo ...]
/// band/ESGD po:noun
/// laser/M
/// ```
#[derive(Clone, Debug, PartialEq, Eq, Hash)]
pub struct DictEntry {
    pub(crate) stem: String,
    pub(crate) flags: Vec<u32>,
    pub(crate) morph: Vec<MorphInfo>,
}

/// The value of a [`DictEntry`]: stem, flags and morphs.
pub type DictEntryView = (Seq<char>, Seq<u32>, Seq<MorphView>);

impl View for DictEntry {
    type V = DictEntryView;

    closed spec fn view(&self) -> DictEntryView {
        (self.stem@, self.flags@, morphs_view(self.morph@))
    }
}

/// An entry from a personal dictionary.
///
/// ```text
/// [*]word[/friend] [morphinfo ...]
/// enum/apple po:noun
/// someword
/// *ignoreword
/// ```
#[derive(Clone, Debug, PartialEq, Eq, Hash)]
pub struct PersonalEntry {
    pub stem: String,
    pub friend: Option<String>,
    pub morph: Vec<MorphInfo>,
    pub forbid: bool,
}

/// The value of a [`PersonalEntry`]: stem, friend, morphs and whether it is
/// forbidden.
pub type PersonalView = (Seq<char>, Option<Seq<char>>, Seq<MorphView>, bool);

impl View for PersonalEntry {
    type V = PersonalView;

    open spec fn view(&self) -> PersonalView {
        (self.stem@, opt_view(self.friend), morphs_view(self.morph@), self.forbid)
    }
}

/// The friend and morphs of a personal entry.
#[derive(Clone, Debug, PartialEq, Eq, Hash)]
pub struct ParsedPersonalMeta {
    friend: Option<String>,
    morph: Vec<MorphInfo>,
}

impl ParsedPersonalMeta {
    pub closed spec fn spec_friend(&self) -> Option<Seq<char>> {
        opt_view(self.friend)
    }

    pub closed spec fn spec_morph(&self) -> Seq<MorphView> {
        morphs_view(self.morph@)
    }

    /// Meta information with a friend word and morphs.
    pub fn new(friend: Option<&str>, morph: Vec<MorphInfo>) -> (r: ParsedPersonalMeta)
        ensures
            r.spec_friend() == match friend {
                Some(f) => Some(f@),
                None => None::<Seq<char>>,
            },
            r.spec_morph() == morphs_view(morph@),
    {
        let friend = match friend {
            Some(f) => Some(f.to_owned()),
            None => None,
        };
        ParsedPersonalMeta { friend, morph }
    }

    /// The morphs.
    pub fn morph(&self) -> (r: &Vec<MorphInfo>)
        ensures
            morphs_view(r@) == self.spec_morph(),
    {
        &self.morph
    }
}

/// The entry that the capture groups `g` of a dictionary line give, with
/// flags of type `ft`.
pub open spec fn dict_entry_of_groups(ft: FlagType, g: Seq<Option<Seq<char>>>) -> Option<DictEntryView> {
    if g.len() >= 4 && g[1] is Some {
        let flags = match g[2] {
            Some(f) => flags_of(ft, f),
            None => Some(Seq::empty()),
        };
        let morph = match g[3] {
            Some(m) => morphs_all(fields(m)),
            None => Some(Seq::empty()),
        };
        if flags is Some && morph is Some {
            Some((g[1]->0, flags->0, morph->0))
        } else {
            None
        }
    } else {
        None
    }
}

/// The entry that the dictionary line `s` gives, with flags of type `ft`.
pub open spec fn dict_entry_of(ft: FlagType, s: Seq<char>) -> Option<DictEntryView> {
    match regex_captures(RE_DICT_LINE@, s) {
        Some(g) => dict_entry_of_groups(ft, g),
        None => None,
    }
}

/// The entry that the capture groups `g` of a personal dictionary line
/// give.
pub open spec fn personal_of_groups(g: Seq<Option<Seq<char>>>) -> Option<PersonalView> {
    if g.len() >= 5 && g[2] is Some {
        let morph = match g[4] {
            Some(m) => morphs_all(fields(m)),
            None => Some(Seq::empty()),
        };
        match morph {
            Some(ms) => Some((g[2]->0, g[3], ms, g[1] is Some)),
            None => None,
        }
    } else {
        None
    }
}

/// The entry that the personal dictionary line `s` gives.
pub open spec fn personal_of(s: Seq<char>) -> Option<PersonalView> {
    match regex_captures(RE_PERSONAL_LINE@, s) {
        Some(g) => personal_of_groups(g),
        None => None,
    }
}

/// The capture groups of a match, each given by its text.
pub open spec fn groups_view(v: Seq<Option<String>>) -> Seq<Option<Seq<char>>> {
    v.map_values(|g: Option<String>| opt_view(g))
}

impl DictEntry {
    /// A dictionary entry.
    pub fn new(stem: String, flags: &[u32], morph: Vec<MorphInfo>) -> (r: DictEntry)
        ensures
            r@ == (stem@, flags@, morphs_view(morph@)),
    {
        let mut fl: Vec<u32> = Vec::new();
        let mut i: usize = 0;
        while i < flags.len()
            invariant
                i <= flags@.len(),
                fl@ == flags@.take(i as int),
            decreases flags@.len() - i,
        {
            fl.push(flags[i]);
            proof {
                assert(fl@ =~= flags@.take(i + 1));
            }
            i += 1;
        }
        proof {
            assert(flags@.take(i as int) =~= flags@);
        }
        DictEntry { stem, flags: fl, morph }
    }

    /// The stem.
    pub fn stem(&self) -> (r: &str)
        ensures
            r@ == self@.0,
    {
        self.stem.as_str()
    }

    /// The flags.
    pub fn flags(&self) -> (r: &Vec<u32>)
        ensures
            r@ == self@.1,
    {
        &self.flags
    }

    /// The morphs.
    pub fn morph(&self) -> (r: &Vec<MorphInfo>)
        ensures
            morphs_view(r@) == self@.2,
    {
        &self.morph
    }

    /// The entry that the capture groups `groups` of the line `value` give,
    /// with flags of type `flag_type`.
    pub fn from_captures(groups: &Vec<Option<String>>, flag_type: FlagType, value: &str, line_num: u32) -> (r: Result<
        DictEntry,
        ParseError,
    >)
        requires
            line_num < u32::MAX,
        ensures
            match dict_entry_of_groups(flag_type, groups_view(groups@)) {
                Some(v) => r matches Ok(e) && e@ == v,
                None => r is Err,
            },
    {
        let ghost g = groups_view(groups@);
        proof {
            assert(g.len() == groups@.len());
        }
        if groups.len() < 4 {
            return Err(ParseError::new_nocol(ParseErrorKind::DictEntry, value, line_num));
        }
        proof {
            assert(g[1] == opt_view(groups@[1]));
            assert(g[2] == opt_view(groups@[2]));
            assert(g[3] == opt_view(groups@[3]));
        }
        let stem = match &groups[1] {
            Some(s) => s.clone(),
            None => {
                return Err(ParseError::new_nocol(ParseErrorKind::DictEntry, value, line_num));
            },
        };
        let flags = match &groups[2] {
            Some(f) => match flag_type.parse_str(f.as_str()) {
                Ok(v) => v,
                Err(e) => {
                    return Err(ParseError::new_nospan(e, f.as_str()));
                },
            },
            None => Vec::new(),
        };
        let morph = match &groups[3] {
            Some(m) => match MorphInfo::many_from_str(m.as_str()) {
                Ok(v) => v,
                Err(e) => {
                    return Err(e);
                },
            },
            None => Vec::new(),
        };
        proof {
            assert(morph@.len() == 0 ==> morphs_view(morph@) =~= Seq::<MorphView>::empty());
        }
        Ok(DictEntry { stem, flags, morph })
    }

    /// Read one line of a dictionary file with the compiled line expression
    /// `re`.
    fn parse_with(re: &ReWrapper, value: &str, flag_type: FlagType, line_num: u32) -> (r: Result<
        DictEntry,
        ParseError,
    >)
        requires
            re.spec_pattern() == RE_DICT_LINE@,
            line_num < u32::MAX,
        ensures
            match dict_entry_of(flag_type, value@) {
                Some(v) => r matches Ok(e) && e@ == v,
                None => r is Err,
            },
    {
        match re.captures(value) {
            Some(groups) => Self::from_captures(&groups, flag_type, value, line_num),
            None => Err(ParseError::new_nocol(ParseErrorKind::DictEntry, value, line_num)),
        }
    }

    /// Read one line of a dictionary file, with flags of type `flag_type`.
    pub fn parse_str(value: &str, flag_type: FlagType, line_num: u32) -> (r: Result<DictEntry, ParseError>)
        requires
            line_num < u32::MAX,
        ensures
            r is Ok ==> regex_compiles(RE_DICT_LINE@),
            regex_compiles(RE_DICT_LINE@) ==> match dict_entry_of(flag_type, value@) {
                Some(v) => r matches Ok(e) && e@ == v,
                None => r is Err,
            },
    {
        match ReWrapper::new(RE_DICT_LINE) {
            Ok(re) => Self::parse_with(&re, value, flag_type, line_num),
            Err(e) => Err(ParseError::new_nospan(ParseErrorKind::Regex(e), value)),
        }
    }
}

impl PersonalEntry {
    /// A personal dictionary entry.
    pub fn new(stem: &str, friend: Option<&str>, morph: Vec<MorphInfo>, forbid: bool) -> (r: PersonalEntry)
        ensures
            r@ == (stem@, match friend {
                Some(f) => Some(f@),
                None => None::<Seq<char>>,
            }, morphs_view(morph@), forbid),
    {
        let friend = match friend {
            Some(f) => Some(f.to_owned()),
            None => None,
        };
        PersonalEntry { stem: stem.to_owned(), friend, morph, forbid }
    }

    /// The entry that the capture groups `groups` of the line `value` give.
    pub fn from_captures(groups: &Vec<Option<String>>, value: &str, line_num: u32) -> (r: Result<
        PersonalEntry,
        ParseError,
    >)
        requires
            line_num < u32::MAX,
        ensures
            match personal_of_groups(groups_view(groups@)) {
                Some(v) => r matches Ok(e) && e@ == v,
                None => r is Err,
            },
    {
        let ghost g = groups_view(groups@);
        proof {
            assert(g.len() == groups@.len());
        }
        if groups.len() < 5 {
            return Err(ParseError::new_nocol(ParseErrorKind::Personal, value, line_num));
        }
        proof {
            assert(g[1] == opt_view(groups@[1]));
            assert(g[2] == opt_view(groups@[2]));
            assert(g[3] == opt_view(groups@[3]));
            assert(g[4] == opt_view(groups@[4]));
        }
        let forbid = groups[1].is_some();
        let stem = match &groups[2] {
            Some(s) => s.clone(),
            None => {
                return Err(ParseError::new_nocol(ParseErrorKind::Personal, value, line_num));
            },
        };
        let friend = match &groups[3] {
            Some(f) => Some(f.clone()),
            None => None,
        };
        let morph = match &groups[4] {
            Some(m) => match MorphInfo::many_from_str(m.as_str()) {
                Ok(v) => v,
                Err(e) => {
                    return Err(e);
                },
            },
            None => Vec::new(),
        };
        proof {
            assert(morph@.len() == 0 ==> morphs_view(morph@) =~= Seq::<MorphView>::empty());
        }
        Ok(PersonalEntry { stem, friend, morph, forbid })
    }

    fn parse_with(re: &ReWrapper, value: &str, line_num: u32) -> (r: Result<PersonalEntry, ParseError>)
        requires
            re.spec_pattern() == RE_PERSONAL_LINE@,
            line_num < u32::MAX,
        ensures
            match personal_of(value@) {
                Some(v) => r matches Ok(e) && e@ == v,
                None => r is Err,
            },
    {
        match re.captures(value) {
            Some(groups) => Self::from_captures(&groups, value, line_num),
            None => Err(ParseError::new_nocol(ParseErrorKind::Personal, value, line_num)),
        }
    }

    /// Read one line of a personal dictionary.
    pub fn parse_str(value: &str, line_num: u32) -> (r: Result<PersonalEntry, ParseError>)
        requires
            line_num < u32::MAX,
        ensures
            r is Ok ==> regex_compiles(RE_PERSONAL_LINE@),
            regex_compiles(RE_PERSONAL_LINE@) ==> match personal_of(value@) {
                Some(v) => r matches Ok(e) && e@ == v,
                None => r is Err,
            },
    {
        match ReWrapper::new(RE_PERSONAL_LINE) {
            Ok(re) => Self::parse_with(&re, value, line_num),
            Err(e) => Err(ParseError::new_nospan(ParseErrorKind::Regex(e), value)),
        }
    }
}

/// Whether a trimmed line holds an entry: it is not empty and not a
/// comment.
pub open spec fn is_entry_line(l: Seq<char>) -> bool {
    !(l.len() == 0 || l[0] == '#')
}

/// The trimmed lines of `ls` that hold entries, in order.
pub open spec fn entry_lines(ls: Seq<Seq<char>>) -> Seq<Seq<char>>
    decreases ls.len(),
{
    if ls.len() == 0 {
        Seq::empty()
    } else if is_entry_line(trim(ls[0])) {
        seq![trim(ls[0])] + entry_lines(ls.drop_first())
    } else {
        entry_lines(ls.drop_first())
    }
}

/// The lines of a dictionary file that hold words: those after a leading
/// word count, if the first line holding an entry is a count.
pub open spec fn dict_body(s: Seq<char>) -> Seq<Seq<char>> {
    let ls = entry_lines(lines_of(s));
    if ls.len() > 0 && unsigned_value(ls[0]) is Some && unsigned_value(ls[0])->0 <= usize::MAX {
        ls.drop_first()
    } else {
        ls
    }
}

/// The entries that every line of `ls` gives, if each gives one.
pub open spec fn dict_entries(ft: FlagType, ls: Seq<Seq<char>>) -> Option<Seq<DictEntryView>>
    decreases ls.len(),
{
    if ls.len() == 0 {
        Some(Seq::empty())
    } else {
        match dict_entries(ft, ls.drop_last()) {
            Some(es) => match dict_entry_of(ft, ls.last()) {
                Some(e) => Some(es.push(e)),
                None => None,
            },
            None => None,
        }
    }
}

/// The views of a list of dictionary entries.
pub open spec fn entries_view(v: Seq<DictEntry>) -> Seq<DictEntryView> {
    v.map_values(|e: DictEntry| e@)
}

proof fn lemma_entry_lines_step(ls: Seq<Seq<char>>, i: int)
    requires
        0 <= i < ls.len(),
    ensures
        entry_lines(ls.skip(i)) == if is_entry_line(trim(ls[i])) {
            seq![trim(ls[i])] + entry_lines(ls.skip(i + 1))
        } else {
            entry_lines(ls.skip(i + 1))
        },
{
    assert(ls.skip(i)[0] == ls[i]);
    assert(ls.skip(i).drop_first() =~= ls.skip(i + 1));
}

/// The trimmed lines of `s` that hold entries.
fn entry_line_strings(s: &str) -> (r: Vec<String>)
    ensures
        r@.map_values(|x: String| x@) == entry_lines(lines_of(s@)),
{
    let lines = trimmed_lines(s);
    let ghost ls = lines_of(s@);
    let mut out: Vec<String> = Vec::new();
    let mut i: usize = 0;
    proof {
        assert(ls.skip(0) =~= ls);
        assert(lines@.map_values(|x: String| x@).len() == ls.len());
    }
    while i < lines.len()
        invariant
            ls == lines_of(s@),
            lines@.map_values(|x: String| x@) == ls.map_values(|l: Seq<char>| trim(l)),
            lines@.len() == ls.len(),
            i <= lines@.len(),
            out@.map_values(|x: String| x@) + entry_lines(ls.skip(i as int)) == entry_lines(ls),
        decreases lines@.len() - i,
    {
        let l = &lines[i];
        proof {
            assert(lines@.map_values(|x: String| x@)[i as int] == l@);
            assert(l@ == trim(ls[i as int]));
            lemma_entry_lines_step(ls, i as int);
        }
        let c = crate::text::chars_of(l.as_str());
        let keep = !(c.len() == 0 || c[0] == '#');
        if keep {
            let ghost before = out@;
            out.push(l.clone());
            proof {
                assert(out@.map_values(|x: String| x@) =~= before.map_values(|x: String| x@).push(l@));
                assert(out@.map_values(|x: String| x@) + entry_lines(ls.skip(i + 1)) =~= before.map_values(
                    |x: String| x@,
                ) + (seq![l@] + entry_lines(ls.skip(i + 1))));
            }
        }
        i += 1;
    }
    proof {
        assert(ls.skip(i as int).len() == 0);
        assert(out@.map_values(|x: String| x@) + Seq::<Seq<char>>::empty() =~= out@.map_values(
            |x: String| x@,
        ));
    }
    out
}

/// Parse a complete dictionary file. Blank lines and comments are skipped;
/// a first line that is a number (the count of words) is skipped too. The
/// error of a line carries its place among the lines read, counted from 1.
pub fn parse_dict(s: &str, flag_type: FlagType) -> (r: Result<Vec<DictEntry>, ParseError>)
    requires
        s@.len() < u32::MAX,
    ensures
        r is Ok && dict_body(s@).len() > 0 ==> regex_compiles(RE_DICT_LINE@),
        regex_compiles(RE_DICT_LINE@) ==> match dict_entries(flag_type, dict_body(s@)) {
            Some(es) => r matches Ok(v) && entries_view(v@) == es,
            None => r is Err,
        },
{
    let lines = entry_line_strings(s);
    let ghost ls = entry_lines(lines_of(s@));
    proof {
        assert(lines@.map_values(|x: String| x@).len() == lines@.len());
        lemma_entry_lines_len(lines_of(s@));
        lemma_lines_len(s@);
    }
    if lines.len() == 0 {
        proof {
            assert(dict_body(s@) =~= Seq::<Seq<char>>::empty());
        }
        return Ok(Vec::new());
    }
    let start: usize = match parse_usize(lines[0].as_str()) {
        Ok(_) => 1,
        Err(_) => 0,
    };
    proof {
        assert(ls[0] == lines@[0]@);
    }
    let ghost body = dict_body(s@);
    proof {
        assert(body =~= ls.skip(start as int));
    }
    let mut ret: Vec<DictEntry> = Vec::new();
    if start >= lines.len() {
        proof {
            assert(body.len() == 0);
        }
        return Ok(ret);
    }
    let re = match ReWrapper::new(RE_DICT_LINE) {
        Ok(re) => re,
        Err(e) => {
            return Err(ParseError::new_nospan(ParseErrorKind::Regex(e), lines[start].as_str()));
        },
    };
    let mut i: usize = start;
    proof {
        assert(ls.skip(start as int).take(0) =~= Seq::<Seq<char>>::empty());
    }
    while i < lines.len()
        invariant
            ls == entry_lines(lines_of(s@)),
            lines@.map_values(|x: String| x@) == ls,
            lines@.len() == ls.len(),
            ls.len() <= s@.len() < u32::MAX,
            body == ls.skip(start as int),
            body == dict_body(s@),
            start <= 1,
            start <= i <= lines@.len(),
            re.spec_pattern() == RE_DICT_LINE@,
            dict_entries(flag_type, body.take(i - start)) == Some(entries_view(ret@)),
        decreases lines@.len() - i,
    {
        proof {
            assert(ls[i as int] == lines@[i as int]@);
            assert(body.take(i - start + 1).drop_last() =~= body.take(i - start));
            assert(body.take(i - start + 1).last() == ls[i as int]);
        }
        let line_num = convertu32(i + 1);
        match DictEntry::parse_with(&re, lines[i].as_str(), flag_type, line_num) {
            Ok(e) => {
                let ghost before = ret@;
                ret.push(e);
                proof {
                    assert(entries_view(ret@) =~= entries_view(before).push(e@));
                }
            },
            Err(err) => {
                proof {
                    let t = body.take(i - start + 1);
                    assert(dict_entry_of(flag_type, t.last()) is None);
                    assert(dict_entries(flag_type, t) is None);
                    lemma_dict_entries_none(flag_type, body, (i - start + 1) as nat);
                }
                return Err(err);
            },
        }
        i += 1;
    }
    proof {
        assert(body.take(i - start) =~= body);
    }
    Ok(ret)
}

/// A line that gives no entry spoils the whole list.
proof fn lemma_dict_entries_none(ft: FlagType, ls: Seq<Seq<char>>, k: nat)
    requires
        k <= ls.len(),
        dict_entries(ft, ls.take(k as int)) is None,
    ensures
        dict_entries(ft, ls) is None,
    decreases ls.len() - k,
{
    if k < ls.len() {
        assert(ls.take(k as int + 1).drop_last() =~= ls.take(k as int));
        lemma_dict_entries_none(ft, ls, k + 1);
    } else {
        assert(ls.take(k as int) =~= ls);
    }
}

proof fn lemma_entry_lines_len(ls: Seq<Seq<char>>)
    ensures
        entry_lines(ls).len() <= ls.len(),
    decreases ls.len(),
{
    if ls.len() > 0 {
        lemma_entry_lines_len(ls.drop_first());
    }
}

/// A text has no more lines than characters.
proof fn lemma_lines_len(s: Seq<char>)
    ensures
        lines_of(s).len() <= s.len(),
    decreases s.len(),
{
    if s.len() > 0 {
        let i = crate::text::first_index(s, |c: char| c == '\n');
        crate::text::lemma_first_index_bound(s, |c: char| c == '\n');
        if i < s.len() {
            lemma_lines_len(s.skip(i as int + 1));
        }
    }
}

/// The personal entries that the lines `ls` give, if each line that holds
/// an entry gives one.
pub open spec fn personal_entries(ls: Seq<Seq<char>>) -> Option<Seq<PersonalView>>
    decreases ls.len(),
{
    if ls.len() == 0 {
        Some(Seq::empty())
    } else {
        match personal_entries(ls.drop_last()) {
            Some(es) => if is_entry_line(trim(ls.last())) {
                match personal_of(trim(ls.last())) {
                    Some(e) => Some(es.push(e)),
                    None => None,
                }
            } else {
                Some(es)
            },
            None => None,
        }
    }
}

proof fn lemma_personal_entries_none(ls: Seq<Seq<char>>, k: nat)
    requires
        k <= ls.len(),
        personal_entries(ls.take(k as int)) is None,
    ensures
        personal_entries(ls) is None,
    decreases ls.len() - k,
{
    if k < ls.len() {
        assert(ls.take(k as int + 1).drop_last() =~= ls.take(k as int));
        lemma_personal_entries_none(ls, k + 1);
    } else {
        assert(ls.take(k as int) =~= ls);
    }
}

/// Parse a personal dictionary file. Blank lines and comments are skipped;
/// the error of a line carries its place among all lines, counted from 0.
pub fn parse_personal_dict(s: &str) -> (r: Result<Vec<PersonalEntry>, ParseError>)
    requires
        s@.len() < u32::MAX,
    ensures
        r is Ok && entry_lines(lines_of(s@)).len() > 0 ==> regex_compiles(RE_PERSONAL_LINE@),
        r matches Ok(v) && v@.len() > 0 ==> regex_compiles(RE_PERSONAL_LINE@),
        regex_compiles(RE_PERSONAL_LINE@) ==> match personal_entries(lines_of(s@)) {
            Some(es) => r matches Ok(v) && v@.map_values(|e: PersonalEntry| e@) == es,
            None => r is Err,
        },
{
    let lines = trimmed_lines(s);
    let ghost ls = lines_of(s@);
    let mut ret: Vec<PersonalEntry> = Vec::new();
    let mut re: Option<ReWrapper> = None;
    let mut i: usize = 0;
    proof {
        lemma_lines_len(s@);
        assert(lines@.map_values(|x: String| x@).len() == lines@.len());
        assert(ls.take(0) =~= Seq::<Seq<char>>::empty());
        assert(ls.skip(0) =~= ls);
    }
    while i < lines.len()
        invariant
            ls == lines_of(s@),
            lines@.map_values(|x: String| x@) == ls.map_values(|l: Seq<char>| trim(l)),
            lines@.len() == ls.len(),
            ls.len() <= s@.len() < u32::MAX,
            i <= lines@.len(),
            re matches Some(w) ==> w.spec_pattern() == RE_PERSONAL_LINE@ && regex_compiles(RE_PERSONAL_LINE@),
            re is None ==> entry_lines(ls.take(i as int)).len() == 0,
            ret@.len() > 0 ==> re is Some,
            personal_entries(ls.take(i as int)) == Some(ret@.map_values(|e: PersonalEntry| e@)),
        decreases lines@.len() - i,
    {
        let l = &lines[i];
        proof {
            assert(lines@.map_values(|x: String| x@)[i as int] == l@);
            assert(l@ == trim(ls[i as int]));
            assert(ls.take(i + 1).drop_last() =~= ls.take(i as int));
            assert(ls.take(i + 1).last() == ls[i as int]);
        }
        let c = crate::text::chars_of(l.as_str());
        if !(c.len() == 0 || c[0] == '#') {
            if re.is_none() {
                match ReWrapper::new(RE_PERSONAL_LINE) {
                    Ok(w) => {
                        re = Some(w);
                    },
                    Err(e) => {
                        return Err(ParseError::new_nospan(ParseErrorKind::Regex(e), l.as_str()));
                    },
                }
            }
            let w = match &re {
                Some(w) => w,
                None => {
                    return Err(ParseError::new_nospan(ParseErrorKind::Personal, l.as_str()));
                },
            };
            match PersonalEntry::parse_with(w, l.as_str(), convertu32(i)) {
                Ok(e) => {
                    let ghost before = ret@;
                    ret.push(e);
                    proof {
                        assert(ret@.map_values(|e: PersonalEntry| e@) =~= before.map_values(
                            |e: PersonalEntry| e@,
                        ).push(e@));
                    }
                },
                Err(err) => {
                    proof {
                        lemma_personal_entries_none(ls, (i + 1) as nat);
                    }
                    return Err(err);
                },
            }
        }
        proof {
            if re is None {
                lemma_entry_lines_take(ls, i as nat);
            }
        }
        i += 1;
    }
    proof {
        assert(ls.take(i as int) =~= ls);
    }
    Ok(ret)
}

/// Taking one more line that holds no entry adds no entry line.
proof fn lemma_entry_lines_take(ls: Seq<Seq<char>>, i: nat)
    requires
        i < ls.len(),
        entry_lines(ls.take(i as int)).len() == 0,
        !is_entry_line(trim(ls[i as int])),
    ensures
        entry_lines(ls.take(i as int + 1)).len() == 0,
    decreases i,
{
    lemma_entry_lines_append(ls.take(i as int), ls[i as int]);
    assert(ls.take(i as int).push(ls[i as int]) =~= ls.take(i as int + 1));
}

proof fn lemma_entry_lines_append(ls: Seq<Seq<char>>, l: Seq<char>)
    ensures
        entry_lines(ls.push(l)) == entry_lines(ls) + if is_entry_line(trim(l)) {
            seq![trim(l)]
        } else {
            Seq::<Seq<char>>::empty()
        },
    decreases ls.len(),
{
    if ls.len() == 0 {
        assert(ls.push(l).drop_first() =~= Seq::<Seq<char>>::empty());
        assert(entry_lines(Seq::<Seq<char>>::empty()) == Seq::<Seq<char>>::empty());
        if is_entry_line(trim(l)) {
            assert(seq![trim(l)] + Seq::<Seq<char>>::empty() =~= seq![trim(l)]);
        }
        assert(Seq::<Seq<char>>::empty() + Seq::<Seq<char>>::empty() =~= Seq::<Seq<char>>::empty());
    } else {
        assert(ls.push(l).drop_first() =~= ls.drop_first().push(l));
        lemma_entry_lines_append(ls.drop_first(), l);
        if is_entry_line(trim(ls[0])) {
            assert((seq![trim(ls[0])] + entry_lines(ls.drop_first())) + (if is_entry_line(trim(l)) {
                seq![trim(l)]
            } else {
                Seq::<Seq<char>>::empty()
            }) =~= seq![trim(ls[0])] + (entry_lines(ls.drop_first()) + (if is_entry_line(trim(l)) {
                seq![trim(l)]
            } else {
                Seq::<Seq<char>>::empty()
            })));
        }
    }
}

} // verus!
