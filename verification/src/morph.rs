//! Morphological information attached to words and affix rules, written as
//! `tag:value` pairs such as `po:noun` or `st:foot`.

use vstd::prelude::*;

use crate::affix::PartOfSpeech;
use crate::error::ParseErrorKind;
use crate::text::{chars_are, chars_of, fields, split_whitespace, string_from, string_of};

verus! {

/// One piece of morphological information.
#[derive(Debug, PartialEq, Eq, Hash)]
pub enum MorphInfo {
    /// `st:` stem word
    Stem(String),
    /// `ph:` better phonetic transliteration if available
    Phonetic(String),
    /// `al:` allomorphs (e.g. sing -> sang, sung)
    Allomorph(String),
    /// `po:` part of speech
    Part(PartOfSpeech),
    /// `ds:` derivational suffix
    DerivSfx(String),
    /// `is:` inflectional suffix
    InflecSfx(String),
    /// `ts:` terminal suffix
    TerminalSfx(String),
    /// `dp:` derivational prefix
    DerivPfx(String),
    /// `ip:` inflectional prefix
    InflecPfx(String),
    /// `tp:` terminal prefix
    TermPfx(String),
    /// `sp:` surface prefix
    SurfacePfx(String),
    /// `pa:` parts of compound words
    CompPart(String),
}

/// The value of a [`MorphInfo`]: its kind and its text.
pub enum MorphView {
    Stem(Seq<char>),
    Phonetic(Seq<char>),
    Allomorph(Seq<char>),
    Part(PartOfSpeech),
    DerivSfx(Seq<char>),
    InflecSfx(Seq<char>),
    TerminalSfx(Seq<char>),
    DerivPfx(Seq<char>),
    InflecPfx(Seq<char>),
    TermPfx(Seq<char>),
    SurfacePfx(Seq<char>),
    CompPart(Seq<char>),
}

impl View for MorphInfo {
    type V = MorphView;

    open spec fn view(&self) -> MorphView {
        match self {
            MorphInfo::Stem(s) => MorphView::Stem(s@),
            MorphInfo::Phonetic(s) => MorphView::Phonetic(s@),
            MorphInfo::Allomorph(s) => MorphView::Allomorph(s@),
            MorphInfo::Part(p) => MorphView::Part(*p),
            MorphInfo::DerivSfx(s) => MorphView::DerivSfx(s@),
            MorphInfo::InflecSfx(s) => MorphView::InflecSfx(s@),
            MorphInfo::TerminalSfx(s) => MorphView::TerminalSfx(s@),
            MorphInfo::DerivPfx(s) => MorphView::DerivPfx(s@),
            MorphInfo::InflecPfx(s) => MorphView::InflecPfx(s@),
            MorphInfo::TermPfx(s) => MorphView::TermPfx(s@),
            MorphInfo::SurfacePfx(s) => MorphView::SurfacePfx(s@),
            MorphInfo::CompPart(s) => MorphView::CompPart(s@),
        }
    }
}

impl Clone for MorphInfo {
    fn clone(&self) -> (r: Self)
        ensures
            r@ == self@,
    {
        match self {
            MorphInfo::Stem(s) => MorphInfo::Stem(s.clone()),
            MorphInfo::Phonetic(s) => MorphInfo::Phonetic(s.clone()),
            MorphInfo::Allomorph(s) => MorphInfo::Allomorph(s.clone()),
            MorphInfo::Part(p) => MorphInfo::Part(*p),
            MorphInfo::DerivSfx(s) => MorphInfo::DerivSfx(s.clone()),
            MorphInfo::InflecSfx(s) => MorphInfo::InflecSfx(s.clone()),
            MorphInfo::TerminalSfx(s) => MorphInfo::TerminalSfx(s.clone()),
            MorphInfo::DerivPfx(s) => MorphInfo::DerivPfx(s.clone()),
            MorphInfo::InflecPfx(s) => MorphInfo::InflecPfx(s.clone()),
            MorphInfo::TermPfx(s) => MorphInfo::TermPfx(s.clone()),
            MorphInfo::SurfacePfx(s) => MorphInfo::SurfacePfx(s.clone()),
            MorphInfo::CompPart(s) => MorphInfo::CompPart(s.clone()),
        }
    }
}

/// The views of a list of morphs.
pub open spec fn morphs_view(v: Seq<MorphInfo>) -> Seq<MorphView> {
    v.map_values(|m: MorphInfo| m@)
}

/// Position of the first `:` in `s`, or its length.
pub open spec fn colon_index(s: Seq<char>) -> nat
    decreases s.len(),
{
    if s.len() == 0 {
        0
    } else if s[0] == ':' {
        0
    } else {
        1 + colon_index(s.drop_first())
    }
}

/// The morph that the tag `tag` with text `val` stands for, if any.
pub open spec fn morph_of_parts(tag: Seq<char>, val: Seq<char>) -> Option<MorphView> {
    if tag == "st"@ {
        Some(MorphView::Stem(val))
    } else if tag == "ph"@ {
        Some(MorphView::Phonetic(val))
    } else if tag == "al"@ {
        Some(MorphView::Allomorph(val))
    } else if tag == "po"@ {
        match crate::affix::part_of_speech(val) {
            Some(p) => Some(MorphView::Part(p)),
            None => None,
        }
    } else if tag == "ds"@ {
        Some(MorphView::DerivSfx(val))
    } else if tag == "is"@ {
        Some(MorphView::InflecSfx(val))
    } else if tag == "ts"@ {
        Some(MorphView::TerminalSfx(val))
    } else if tag == "dp"@ {
        Some(MorphView::DerivPfx(val))
    } else if tag == "ip"@ {
        Some(MorphView::InflecPfx(val))
    } else if tag == "tp"@ {
        Some(MorphView::TermPfx(val))
    } else if tag == "sp"@ {
        Some(MorphView::SurfacePfx(val))
    } else if tag == "pa"@ {
        Some(MorphView::CompPart(val))
    } else {
        None
    }
}

/// The morph written as `s` (`tag:value`, split at the first `:`), if `s`
/// is a valid one.
pub open spec fn morph_of(s: Seq<char>) -> Option<MorphView> {
    let i = colon_index(s);
    if i >= s.len() {
        None
    } else {
        morph_of_parts(s.take(i as int), s.skip(i as int + 1))
    }
}

/// The tag that writes a morph of the kind of `m`, as the documentation of
/// each kind of [`MorphInfo`] gives it.
pub open spec fn morph_tag(m: MorphView) -> Seq<char> {
    match m {
        MorphView::Stem(_) => "st"@,
        MorphView::Phonetic(_) => "ph"@,
        MorphView::Allomorph(_) => "al"@,
        MorphView::Part(_) => "po"@,
        MorphView::DerivSfx(_) => "ds"@,
        MorphView::InflecSfx(_) => "is"@,
        MorphView::TerminalSfx(_) => "ts"@,
        MorphView::DerivPfx(_) => "dp"@,
        MorphView::InflecPfx(_) => "ip"@,
        MorphView::TermPfx(_) => "tp"@,
        MorphView::SurfacePfx(_) => "sp"@,
        MorphView::CompPart(_) => "pa"@,
    }
}

/// The text that a morph other than a part of speech carries.
pub open spec fn morph_text(m: MorphView) -> Option<Seq<char>> {
    match m {
        MorphView::Part(_) => None,
        MorphView::Stem(t) | MorphView::Phonetic(t) | MorphView::Allomorph(t) | MorphView::DerivSfx(t)
        | MorphView::InflecSfx(t) | MorphView::TerminalSfx(t) | MorphView::DerivPfx(t)
        | MorphView::InflecPfx(t) | MorphView::TermPfx(t) | MorphView::SurfacePfx(t)
        | MorphView::CompPart(t) => Some(t),
    }
}

/// Each tag reads as its own kind of morph: the morph read from a tag and a
/// text is written back with that same tag, and, but for a part of speech,
/// carries that same text. Every tag but `po` reads whatever its text.
pub proof fn law_morph_tag(tag: Seq<char>, val: Seq<char>)
    ensures
        morph_of_parts(tag, val) matches Some(m) ==> morph_tag(m) == tag && (tag != "po"@ ==> morph_text(m)
            == Some(val)),
        tag == "st"@ || tag == "ph"@ || tag == "al"@ || tag == "ds"@ || tag == "is"@ || tag == "ts"@
            || tag == "dp"@ || tag == "ip"@ || tag == "tp"@ || tag == "sp"@ || tag == "pa"@
            ==> morph_of_parts(tag, val) is Some,
{
    reveal_strlit("st");
    reveal_strlit("ph");
    reveal_strlit("al");
    reveal_strlit("po");
    reveal_strlit("ds");
    reveal_strlit("is");
    reveal_strlit("ts");
    reveal_strlit("dp");
    reveal_strlit("ip");
    reveal_strlit("tp");
    reveal_strlit("sp");
    reveal_strlit("pa");
    assert("st"@[0] == 's' && "st"@[1] == 't');
    assert("ph"@[0] == 'p' && "ph"@[1] == 'h');
    assert("al"@[0] == 'a' && "al"@[1] == 'l');
    assert("po"@[0] == 'p' && "po"@[1] == 'o');
    assert("ds"@[0] == 'd' && "ds"@[1] == 's');
    assert("is"@[0] == 'i' && "is"@[1] == 's');
    assert("ts"@[0] == 't' && "ts"@[1] == 's');
    assert("dp"@[0] == 'd' && "dp"@[1] == 'p');
    assert("ip"@[0] == 'i' && "ip"@[1] == 'p');
    assert("tp"@[0] == 't' && "tp"@[1] == 'p');
    assert("sp"@[0] == 's' && "sp"@[1] == 'p');
    assert("pa"@[0] == 'p' && "pa"@[1] == 'a');
}

/// A morph read from `tag:value` is written back with the tag before the
/// first `:`.
pub proof fn law_morph_round_trip(s: Seq<char>)
    ensures
        morph_of(s) matches Some(m) ==> morph_tag(m) == s.take(colon_index(s) as int),
{
    let i = colon_index(s);
    if i < s.len() {
        law_morph_tag(s.take(i as int), s.skip(i as int + 1));
    }
}

/// The error that `MorphInfo::try_from` gives for `s`, with the text it
/// carries.
pub open spec fn morph_error(s: Seq<char>, e: ParseErrorKind) -> bool {
    let i = colon_index(s);
    if i >= s.len() {
        e matches ParseErrorKind::MorphInfoDelim(x) && x@ == s
    } else {
        let tag = s.take(i as int);
        let val = s.skip(i as int + 1);
        if tag == "po"@ {
            e matches ParseErrorKind::PartOfSpeech(x) && x@ == val
        } else {
            e matches ParseErrorKind::MorphInvalidTag(x) && x@ == tag
        }
    }
}

proof fn lemma_colon_index(s: Seq<char>)
    ensures
        colon_index(s) <= s.len(),
        colon_index(s) < s.len() ==> s[colon_index(s) as int] == ':',
        forall|k: int| 0 <= k < colon_index(s) ==> s[k] != ':',
    decreases s.len(),
{
    if s.len() > 0 && s[0] != ':' {
        lemma_colon_index(s.drop_first());
        assert forall|k: int| 0 <= k < colon_index(s) implies s[k] != ':' by {
            if k > 0 {
                assert(s[k] == s.drop_first()[k - 1]);
            }
        }
    }
}

fn find_colon(t: &[char]) -> (r: usize)
    ensures
        r == colon_index(t@),
{
    let mut k: usize = 0;
    proof {
        assert(t@.skip(0) =~= t@);
    }
    while k < t.len() && t[k] != ':'
        invariant
            k <= t@.len(),
            colon_index(t@) == k + colon_index(t@.skip(k as int)),
        decreases t@.len() - k,
    {
        proof {
            assert(t@.skip(k as int).drop_first() =~= t@.skip(k + 1));
        }
        k += 1;
    }
    proof {
        if k < t@.len() {
            assert(t@.skip(k as int)[0] == t@[k as int]);
        } else {
            assert(t@.skip(k as int).len() == 0);
        }
    }
    k
}

impl MorphInfo {
    /// Parse one `tag:value` morph.
    pub fn try_from(value: &str) -> (r: Result<MorphInfo, ParseErrorKind>)
        ensures
            match r {
                Ok(m) => morph_of(value@) == Some(m@),
                Err(e) => morph_of(value@) is None && morph_error(value@, e),
            },
    {
        let t = chars_of(value);
        let i = find_colon(t.as_slice());
        if i >= t.len() {
            return Err(ParseErrorKind::MorphInfoDelim(string_of(t.as_slice())));
        }
        let tag = string_from(t.as_slice(), 0, i);
        let val = string_from(t.as_slice(), i + 1, t.len());
        proof {
            assert(t@.subrange(0, i as int) =~= t@.take(i as int));
            assert(t@.subrange(i + 1, t@.len() as int) =~= t@.skip(i + 1));
        }
        let tg = chars_of(tag.as_str());
        if chars_are(tg.as_slice(), "st") {
            Ok(MorphInfo::Stem(val))
        } else if chars_are(tg.as_slice(), "ph") {
            Ok(MorphInfo::Phonetic(val))
        } else if chars_are(tg.as_slice(), "al") {
            Ok(MorphInfo::Allomorph(val))
        } else if chars_are(tg.as_slice(), "po") {
            match PartOfSpeech::try_from(val.as_str()) {
                Ok(p) => Ok(MorphInfo::Part(p)),
                Err(e) => Err(e),
            }
        } else if chars_are(tg.as_slice(), "ds") {
            Ok(MorphInfo::DerivSfx(val))
        } else if chars_are(tg.as_slice(), "is") {
            Ok(MorphInfo::InflecSfx(val))
        } else if chars_are(tg.as_slice(), "ts") {
            Ok(MorphInfo::TerminalSfx(val))
        } else if chars_are(tg.as_slice(), "dp") {
            Ok(MorphInfo::DerivPfx(val))
        } else if chars_are(tg.as_slice(), "ip") {
            Ok(MorphInfo::InflecPfx(val))
        } else if chars_are(tg.as_slice(), "tp") {
            Ok(MorphInfo::TermPfx(val))
        } else if chars_are(tg.as_slice(), "sp") {
            Ok(MorphInfo::SurfacePfx(val))
        } else if chars_are(tg.as_slice(), "pa") {
            Ok(MorphInfo::CompPart(val))
        } else {
            Err(ParseErrorKind::MorphInvalidTag(tag))
        }
    }

    /// Parse whitespace-separated morphs, failing at the first one that is
    /// not valid; the error's context is that morph.
    pub fn many_from_str(s: &str) -> (r: Result<Vec<MorphInfo>, crate::error::ParseError>)
        ensures
            match r {
                Ok(v) => morphs_all(fields(s@)) == Some(morphs_view(v@)),
                Err(e) => morphs_all(fields(s@)) is None && e.spec_span() is None && exists|k: int|
                    0 <= k < fields(s@).len() && morphs_all(fields(s@).take(k)) is Some
                        && morph_of(#[trigger] fields(s@)[k]) is None && morph_error(
                        fields(s@)[k],
                        e.kind(),
                    ) && e.context() == fields(s@)[k],
            },
    {
        let parts = split_whitespace(s);
        let ghost fs = fields(s@);
        let mut res: Vec<MorphInfo> = Vec::new();
        let mut k: usize = 0;
        while k < parts.len()
            invariant
                parts@.map_values(|x: String| x@) == fs,
                fs == fields(s@),
                k <= parts@.len(),
                morphs_all(fs.take(k as int)) == Some(morphs_view(res@)),
            decreases parts@.len() - k,
        {
            proof {
                assert(fs[k as int] == parts@[k as int]@);
            }
            match MorphInfo::try_from(parts[k].as_str()) {
                Ok(m) => {
                    let ghost before = res@;
                    res.push(m);
                    proof {
                        lemma_morphs_all_push(fs, k as nat);
                        assert(morphs_view(res@) =~= morphs_view(before).push(m@));
                    }
                },
                Err(e) => {
                    proof {
                        lemma_morphs_all_fail(fs, k as nat);
                    }
                    return Err(crate::error::ParseError::new_nospan(e, parts[k].as_str()));
                },
            }
            k += 1;
        }
        proof {
            assert(fs.take(k as int) =~= fs);
        }
        Ok(res)
    }
}

/// The morphs written by the texts `fs`, if each of them is valid.
pub open spec fn morphs_all(fs: Seq<Seq<char>>) -> Option<Seq<MorphView>>
    decreases fs.len(),
{
    if fs.len() == 0 {
        Some(Seq::empty())
    } else {
        match morphs_all(fs.drop_last()) {
            Some(ms) => match morph_of(fs.last()) {
                Some(m) => Some(ms.push(m)),
                None => None,
            },
            None => None,
        }
    }
}

pub proof fn lemma_morphs_all_push(fs: Seq<Seq<char>>, k: nat)
    requires
        k < fs.len(),
        morphs_all(fs.take(k as int)) is Some,
        morph_of(fs[k as int]) is Some,
    ensures
        morphs_all(fs.take(k as int + 1)) == Some(
            morphs_all(fs.take(k as int))->0.push(morph_of(fs[k as int])->0),
        ),
{
    assert(fs.take(k as int + 1).drop_last() =~= fs.take(k as int));
}

pub proof fn lemma_morphs_all_none_extends(fs: Seq<Seq<char>>, k: nat)
    requires
        k <= fs.len(),
        morphs_all(fs.take(k as int)) is None,
    ensures
        morphs_all(fs) is None,
    decreases fs.len() - k,
{
    if k < fs.len() {
        assert(fs.take(k as int + 1).drop_last() =~= fs.take(k as int));
        lemma_morphs_all_none_extends(fs, k + 1);
    } else {
        assert(fs.take(k as int) =~= fs);
    }
}

pub proof fn lemma_morphs_all_fail(fs: Seq<Seq<char>>, k: nat)
    requires
        k < fs.len(),
        morphs_all(fs.take(k as int)) is Some,
        morph_of(fs[k as int]) is None,
    ensures
        morphs_all(fs) is None,
{
    assert(fs.take(k as int + 1).drop_last() =~= fs.take(k as int));
    lemma_morphs_all_none_extends(fs, k + 1);
}


/// Read the morphs written by `parts[from..]`.
pub fn many_from_fields(parts: &Vec<String>, from: usize) -> (r: Result<Vec<MorphInfo>, ParseErrorKind>)
    requires
        from <= parts@.len(),
    ensures
        ({
            let fs = parts@.map_values(|x: String| x@).skip(from as int);
            match morphs_all(fs) {
                Some(ms) => r matches Ok(v) && morphs_view(v@) == ms,
                None => r matches Err(k) && (k is MorphInfoDelim || k is MorphInvalidTag
                    || k is PartOfSpeech),
            }
        }),
{
    let ghost fs = parts@.map_values(|x: String| x@).skip(from as int);
    let mut res: Vec<MorphInfo> = Vec::new();
    let mut k: usize = from;
    proof {
        assert(fs.take(0) =~= Seq::<Seq<char>>::empty());
        assert(morphs_view(res@) =~= Seq::<MorphView>::empty());
    }
    while k < parts.len()
        invariant
            fs == parts@.map_values(|x: String| x@).skip(from as int),
            from <= k <= parts@.len(),
            morphs_all(fs.take(k - from)) == Some(morphs_view(res@)),
        decreases parts@.len() - k,
    {
        proof {
            assert(fs[k - from] == parts@[k as int]@);
        }
        match MorphInfo::try_from(parts[k].as_str()) {
            Ok(m) => {
                let ghost before = res@;
                res.push(m);
                proof {
                    lemma_morphs_all_push(fs, (k - from) as nat);
                    assert(morphs_view(res@) =~= morphs_view(before).push(m@));
                }
            },
            Err(e) => {
                proof {
                    lemma_morphs_all_fail(fs, (k - from) as nat);
                }
                return Err(e);
            },
        }
        k += 1;
    }
    proof {
        assert(fs.take(k - from) =~= fs);
    }
    Ok(res)
}

} // verus!
