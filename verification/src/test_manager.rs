//! Collections of checks read from a `.test` file: an affix file, a
//! dictionary file and what to expect of the dictionary they build, each in
//! a section introduced by its title and `====`.

use vstd::prelude::*;

use crate::morph::{MorphInfo, MorphView};
use crate::text::{
    first_index, lemma_first_index_bound, split_on, split_sep, std_lines, str_eq, str_lines, string_from, trim,
    trim_str, chars_of,
};

verus! {

/// A collection of checks from a `.test` file.
#[derive(Debug)]
pub struct TestManager {
    /// The affix file
    afx_str: String,
    /// The dictionary file
    dic_str: String,
    /// The personal dictionary file
    personal_str: Option<String>,
    /// Words or sentences that the dictionary must accept
    check_valid: Vec<String>,
    /// Words or sentences that the dictionary must reject
    check_invalid: Vec<String>,
    wordlist: Option<Vec<String>>,
    wordlist_nosuggest: Option<Vec<String>>,
    wordlist_forbidden: Option<Vec<String>>,
    /// Each misspelled word with the suggestions expected for it
    suggestions: Option<Vec<(String, Vec<String>)>>,
    stems: Option<Vec<(String, String)>>,
    morphs: Option<Vec<(String, Vec<MorphInfo>)>>,
}

/// The value of a [`TestManager`].
pub struct ManagerView {
    pub afx_str: Seq<char>,
    pub dic_str: Seq<char>,
    pub personal_str: Option<Seq<char>>,
    pub check_valid: Seq<Seq<char>>,
    pub check_invalid: Seq<Seq<char>>,
    pub wordlist: Option<Seq<Seq<char>>>,
    pub wordlist_nosuggest: Option<Seq<Seq<char>>>,
    pub wordlist_forbidden: Option<Seq<Seq<char>>>,
    pub suggestions: Option<Seq<(Seq<char>, Seq<Seq<char>>)>>,
    /// Whether there are stems or morphs to check
    pub has_stems: bool,
    pub has_morphs: bool,
}

/// The values of a list of strings.
pub open spec fn texts(v: Seq<String>) -> Seq<Seq<char>> {
    v.map_values(|x: String| x@)
}

/// The values of an optional list of strings.
pub open spec fn opt_texts(o: Option<Vec<String>>) -> Option<Seq<Seq<char>>> {
    match o {
        Some(v) => Some(texts(v@)),
        None => None,
    }
}

/// The values of a list of suggestions.
pub open spec fn suggestions_view(v: Seq<(String, Vec<String>)>) -> Seq<(Seq<char>, Seq<Seq<char>>)> {
    v.map_values(|p: (String, Vec<String>)| (p.0@, texts(p.1@)))
}

impl View for TestManager {
    type V = ManagerView;

    closed spec fn view(&self) -> ManagerView {
        ManagerView {
            afx_str: self.afx_str@,
            dic_str: self.dic_str@,
            personal_str: match self.personal_str {
                Some(s) => Some(s@),
                None => None,
            },
            check_valid: texts(self.check_valid@),
            check_invalid: texts(self.check_invalid@),
            wordlist: opt_texts(self.wordlist),
            wordlist_nosuggest: opt_texts(self.wordlist_nosuggest),
            wordlist_forbidden: opt_texts(self.wordlist_forbidden),
            suggestions: match self.suggestions {
                Some(v) => Some(suggestions_view(v@)),
                None => None,
            },
            has_stems: self.stems is Some,
            has_morphs: self.morphs is Some,
        }
    }
}

/// A collection with nothing in it.
pub open spec fn empty_manager() -> ManagerView {
    ManagerView {
        afx_str: Seq::empty(),
        dic_str: Seq::empty(),
        personal_str: None,
        check_valid: Seq::empty(),
        check_invalid: Seq::empty(),
        wordlist: None,
        wordlist_nosuggest: None,
        wordlist_forbidden: None,
        suggestions: None,
        has_stems: false,
        has_morphs: false,
    }
}

impl Default for TestManager {
    fn default() -> (r: TestManager)
        ensures
            r@ == empty_manager(),
    {
        let r = TestManager {
            afx_str: String::new(),
            dic_str: String::new(),
            personal_str: None,
            check_valid: Vec::new(),
            check_invalid: Vec::new(),
            wordlist: None,
            wordlist_nosuggest: None,
            wordlist_forbidden: None,
            suggestions: None,
            stems: None,
            morphs: None,
        };
        proof {
            assert(texts(r.check_valid@) =~= Seq::<Seq<char>>::empty());
            assert(texts(r.check_invalid@) =~= Seq::<Seq<char>>::empty());
        }
        r
    }
}

/// Whether a line is a comment.
pub open spec fn is_comment(l: Seq<char>) -> bool {
    l.len() > 0 && l[0] == '#'
}

/// The lines of `ls` that are not comments, in order.
pub open spec fn uncommented(ls: Seq<Seq<char>>) -> Seq<Seq<char>>
    decreases ls.len(),
{
    if ls.len() == 0 {
        Seq::empty()
    } else if is_comment(ls.last()) {
        uncommented(ls.drop_last())
    } else {
        uncommented(ls.drop_last()).push(ls.last())
    }
}

/// The lines of the content of a section: those of its trimmed text that
/// are not comments.
pub open spec fn content_lines(c: Seq<char>) -> Seq<Seq<char>> {
    uncommented(std_lines(trim(c)))
}

/// The position of the `>` of a suggestion line.
pub open spec fn arrow_index(l: Seq<char>) -> nat {
    first_index(l, |c: char| c == '>')
}

/// A suggestion line `word > sug | sug | ...`: the text before the first
/// `>`, and the trimmed parts after it between the `|`.
pub open spec fn suggestion_of(l: Seq<char>) -> (Seq<char>, Seq<Seq<char>>) {
    let i = arrow_index(l);
    (l.take(i as int), split_on(l.skip(i as int + 1), "|"@, 0).map_values(|p: Seq<char>| trim(p)))
}

/// Whether every line holds a `>`.
pub open spec fn suggestions_ok(ls: Seq<Seq<char>>) -> bool {
    forall|i: int| 0 <= i < ls.len() ==> arrow_index(#[trigger] ls[i]) < ls[i].len()
}

/// Whether `t` is the title of a known section.
pub open spec fn known_title(t: Seq<char>) -> bool {
    t == "afx_str"@ || t == "dic_str"@ || t == "personal_str"@ || t == "check_valid"@ || t
        == "check_invalid"@ || t == "wordlist"@ || t == "wordlist_nosuggest"@ || t == "wordlist_forbidden"@
        || t == "suggestions"@ || t == "end"@
}

/// `m` after the section titled `title` with content `c`.
pub open spec fn with_section(m: ManagerView, title: Seq<char>, c: Seq<char>) -> ManagerView {
    let lines = content_lines(c);
    if title == "afx_str"@ {
        ManagerView { afx_str: c, ..m }
    } else if title == "dic_str"@ {
        ManagerView { dic_str: c, ..m }
    } else if title == "personal_str"@ {
        ManagerView { personal_str: Some(c), ..m }
    } else if title == "check_valid"@ {
        ManagerView { check_valid: lines, ..m }
    } else if title == "check_invalid"@ {
        ManagerView { check_invalid: lines, ..m }
    } else if title == "wordlist"@ {
        ManagerView { wordlist: Some(lines), ..m }
    } else if title == "wordlist_nosuggest"@ {
        ManagerView { wordlist_nosuggest: Some(lines), ..m }
    } else if title == "wordlist_forbidden"@ {
        ManagerView { wordlist_forbidden: Some(lines), ..m }
    } else {
        ManagerView { suggestions: Some(lines.map_values(|l: Seq<char>| suggestion_of(l))), ..m }
    }
}

/// Whether the parts `parts`, from `k` on, are sections that read: each a
/// known title followed by its content, the suggestions each with a `>`,
/// up to the end or a section titled `end`.
pub open spec fn sections_ok(parts: Seq<Seq<char>>, k: int) -> bool
    decreases parts.len() - k,
{
    if k < 0 || k >= parts.len() {
        true
    } else {
        let title = trim(parts[k]);
        &&& k + 1 < parts.len()
        &&& known_title(title)
        &&& (title == "suggestions"@ ==> suggestions_ok(content_lines(parts[k + 1])))
        &&& (title != "end"@ ==> sections_ok(parts, k + 2))
    }
}

/// `m` after the sections `parts` from `k` on, up to a section titled
/// `end`.
pub open spec fn with_sections(m: ManagerView, parts: Seq<Seq<char>>, k: int) -> ManagerView
    decreases parts.len() - k,
{
    if k < 0 || k + 1 >= parts.len() {
        m
    } else {
        let title = trim(parts[k]);
        if title == "end"@ {
            m
        } else {
            with_sections(with_section(m, title, parts[k + 1]), parts, k + 2)
        }
    }
}

/// The sections of the text `s`: the parts of it, trimmed, between the
/// occurrences of `====`.
pub open spec fn sections_of(s: Seq<char>) -> Seq<Seq<char>> {
    split_on(trim(s), "===="@, 0)
}

/// The lines of a section that are not comments.
fn section_lines(c: &str) -> (r: Vec<String>)
    ensures
        texts(r@) == content_lines(c@),
{
    let t = trim_str(c);
    let ls = str_lines(t.as_str());
    let ghost all = texts(ls@);
    let mut out: Vec<String> = Vec::new();
    let mut i: usize = 0;
    proof {
        assert(all.take(0) =~= Seq::<Seq<char>>::empty());
        assert(texts(out@) =~= Seq::<Seq<char>>::empty());
    }
    while i < ls.len()
        invariant
            i <= ls@.len(),
            all == texts(ls@),
            all == std_lines(trim(c@)),
            texts(out@) == uncommented(all.take(i as int)),
        decreases ls@.len() - i,
    {
        proof {
            assert(all.take(i + 1).drop_last() =~= all.take(i as int));
            assert(all.take(i + 1).last() == ls@[i as int]@);
        }
        let cs = chars_of(ls[i].as_str());
        if !(cs.len() > 0 && cs[0] == '#') {
            let ghost before = out@;
            out.push(ls[i].clone());
            proof {
                assert(texts(out@) =~= texts(before).push(ls@[i as int]@));
            }
        }
        i += 1;
    }
    proof {
        assert(all.take(i as int) =~= all);
    }
    out
}

/// The word and the suggestions of a suggestion line.
fn parse_suggestion(l: &str) -> (r: (String, Vec<String>))
    requires
        arrow_index(l@) < l@.len(),
    ensures
        r.0@ == suggestion_of(l@).0,
        texts(r.1@) == suggestion_of(l@).1,
{
    let t = chars_of(l);
    let mut i: usize = 0;
    proof {
        lemma_first_index_bound(l@, |c: char| c == '>');
    }
    while i < t.len() && t[i] != '>'
        invariant
            t@ == l@,
            i <= arrow_index(l@),
            arrow_index(l@) < t@.len(),
            t@[arrow_index(l@) as int] == '>',
            forall|k: int| 0 <= k < arrow_index(l@) ==> t@[k] != '>',
        decreases t@.len() - i,
    {
        i += 1;
    }
    proof {
        if i < arrow_index(l@) {
            assert(t@[i as int] != '>');
        }
        assert(i == arrow_index(l@));
        assert(t@.subrange(0, i as int) =~= l@.take(i as int));
        assert(t@.subrange(i + 1, t@.len() as int) =~= l@.skip(i + 1));
    }
    let word = string_from(t.as_slice(), 0, i);
    let rest = string_from(t.as_slice(), i + 1, t.len());
    proof {
        reveal_strlit("|");
    }
    let parts = split_sep(rest.as_str(), "|");
    let ghost ps = texts(parts@);
    let mut sugs: Vec<String> = Vec::new();
    let mut k: usize = 0;
    while k < parts.len()
        invariant
            k <= parts@.len(),
            ps == texts(parts@),
            ps == split_on(rest@, "|"@, 0),
            texts(sugs@) == ps.take(k as int).map_values(|p: Seq<char>| trim(p)),
        decreases parts@.len() - k,
    {
        let ghost before = sugs@;
        let one = trim_str(parts[k].as_str());
        sugs.push(one);
        proof {
            assert(ps[k as int] == parts@[k as int]@);
            assert(texts(sugs@) =~= texts(before).push(trim(ps[k as int])));
            assert(ps.take(k + 1).map_values(|p: Seq<char>| trim(p)) =~= ps.take(k as int).map_values(
                |p: Seq<char>| trim(p),
            ).push(trim(ps[k as int])));
        }
        k += 1;
    }
    proof {
        assert(ps.take(k as int) =~= ps);
    }
    (word, sugs)
}

impl TestManager {
    /// Read a collection from the text of a `.test` file: sections, each a
    /// title and its content, separated by `====`, up to a section titled
    /// `end`. The affix, dictionary and personal files are taken as they
    /// stand; the other sections give their lines that are not comments.
    pub fn load_str(input: &str) -> (r: TestManager)
        requires
            sections_ok(sections_of(input@), 0),
        ensures
            r@ == with_sections(empty_manager(), sections_of(input@), 0),
    {
        let mut ret = TestManager::default();
        let t = trim_str(input);
        let parts = split_sep(t.as_str(), "====");
        let ghost ps = texts(parts@);
        let mut k: usize = 0;
        while k < parts.len()
            invariant
                ps == texts(parts@),
                ps == sections_of(input@),
                sections_ok(ps, k as int),
                with_sections(empty_manager(), ps, 0) == with_sections(ret@, ps, k as int),
            decreases parts@.len() - k,
        {
            proof {
                assert(ps[k as int] == parts@[k as int]@);
                assert(ps[k + 1] == parts@[k + 1]@);
            }
            let title = trim_str(parts[k].as_str());
            let content = &parts[k + 1];
            if str_eq(title.as_str(), "end") {
                return ret;
            }
            let lines = section_lines(content.as_str());
            if str_eq(title.as_str(), "afx_str") {
                ret.afx_str = content.clone();
            } else if str_eq(title.as_str(), "dic_str") {
                ret.dic_str = content.clone();
            } else if str_eq(title.as_str(), "personal_str") {
                ret.personal_str = Some(content.clone());
            } else if str_eq(title.as_str(), "check_valid") {
                ret.check_valid = lines;
            } else if str_eq(title.as_str(), "check_invalid") {
                ret.check_invalid = lines;
            } else if str_eq(title.as_str(), "wordlist") {
                ret.wordlist = Some(lines);
            } else if str_eq(title.as_str(), "wordlist_nosuggest") {
                ret.wordlist_nosuggest = Some(lines);
            } else if str_eq(title.as_str(), "wordlist_forbidden") {
                ret.wordlist_forbidden = Some(lines);
            } else {
                let ghost ls = texts(lines@);
                let mut sugs: Vec<(String, Vec<String>)> = Vec::new();
                let mut j: usize = 0;
                while j < lines.len()
                    invariant
                        j <= lines@.len(),
                        ls == texts(lines@),
                        suggestions_ok(ls),
                        suggestions_view(sugs@) == ls.take(j as int).map_values(|l: Seq<char>| suggestion_of(l)),
                    decreases lines@.len() - j,
                {
                    proof {
                        assert(ls[j as int] == lines@[j as int]@);
                    }
                    let sug = parse_suggestion(lines[j].as_str());
                    let ghost before = sugs@;
                    sugs.push(sug);
                    proof {
                        assert(suggestions_view(sugs@) =~= suggestions_view(before).push(
                            suggestion_of(ls[j as int]),
                        ));
                        assert(ls.take(j + 1).map_values(|l: Seq<char>| suggestion_of(l)) =~= ls.take(
                            j as int,
                        ).map_values(|l: Seq<char>| suggestion_of(l)).push(suggestion_of(ls[j as int])));
                        assert(suggestions_view(sugs@) =~= ls.take(j + 1).map_values(
                            |l: Seq<char>| suggestion_of(l),
                        ));
                    }
                    j += 1;
                }
                proof {
                    assert(ls.take(j as int) =~= ls);
                }
                ret.suggestions = Some(sugs);
            }
            k += 2;
        }
        ret
    }

    /// The affix file.
    pub fn afx_str(&self) -> (r: &str)
        ensures
            r@ == self@.afx_str,
    {
        self.afx_str.as_str()
    }

    /// The dictionary file.
    pub fn dic_str(&self) -> (r: &str)
        ensures
            r@ == self@.dic_str,
    {
        self.dic_str.as_str()
    }

    /// The words or sentences to accept.
    pub fn check_valid(&self) -> (r: &Vec<String>)
        ensures
            texts(r@) == self@.check_valid,
    {
        &self.check_valid
    }

    /// The words or sentences to reject.
    pub fn check_invalid(&self) -> (r: &Vec<String>)
        ensures
            texts(r@) == self@.check_invalid,
    {
        &self.check_invalid
    }

    /// The expected main word list, if given.
    pub fn wordlist(&self) -> (r: Option<&Vec<String>>)
        ensures
            match r {
                Some(v) => self@.wordlist == Some(texts(v@)),
                None => self@.wordlist is None,
            },
    {
        match &self.wordlist {
            Some(v) => Some(v),
            None => None,
        }
    }

    /// The expected no-suggest word list, if given.
    pub fn wordlist_nosuggest(&self) -> (r: Option<&Vec<String>>)
        ensures
            match r {
                Some(v) => self@.wordlist_nosuggest == Some(texts(v@)),
                None => self@.wordlist_nosuggest is None,
            },
    {
        match &self.wordlist_nosuggest {
            Some(v) => Some(v),
            None => None,
        }
    }

    /// The expected forbidden word list, if given.
    pub fn wordlist_forbidden(&self) -> (r: Option<&Vec<String>>)
        ensures
            match r {
                Some(v) => self@.wordlist_forbidden == Some(texts(v@)),
                None => self@.wordlist_forbidden is None,
            },
    {
        match &self.wordlist_forbidden {
            Some(v) => Some(v),
            None => None,
        }
    }

    /// The expected suggestions, if given.
    pub fn suggestions(&self) -> (r: Option<&Vec<(String, Vec<String>)>>)
        ensures
            match r {
                Some(v) => self@.suggestions == Some(suggestions_view(v@)),
                None => self@.suggestions is None,
            },
    {
        match &self.suggestions {
            Some(v) => Some(v),
            None => None,
        }
    }
}

} // verus!
