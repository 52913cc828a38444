//! Character-level helpers on strings: classification, splitting, searching
//! and comparing, each stated over the characters of the string.

use vstd::prelude::*;
use vstd::std_specs::iter::IteratorSpec;

verus! {

broadcast use vstd::string::axiom_spec_iter, vstd::string::next_postcondition;

/// The characters of a string, collected into a vector.
pub fn chars_of(s: &str) -> (r: Vec<char>)
    ensures
        r@ == s@,
{
    let mut out: Vec<char> = Vec::new();
    for c in it: s.chars()
        invariant
            it.seq() == s@,
            out@ == s@.take(it.index() as int),
    {
        out.push(c);
        assert(out@ =~= s@.take(it.index() + 1));
    }
    assert(out@ =~= s@);
    out
}

/// Whether `c` has the Unicode `White_Space` property, as
/// `char::is_whitespace` decides it: the property holds of exactly these
/// code points.
pub open spec fn spec_is_whitespace(c: char) -> bool {
    let v = c as u32;
    ||| 0x09 <= v <= 0x0D
    ||| v == 0x20
    ||| v == 0x85
    ||| v == 0xA0
    ||| v == 0x1680
    ||| 0x2000 <= v <= 0x200A
    ||| v == 0x2028
    ||| v == 0x2029
    ||| v == 0x202F
    ||| v == 0x205F
    ||| v == 0x3000
}

/// Whether `c` is alphabetic or numeric, as `char::is_alphanumeric`
/// decides it.
pub uninterp spec fn spec_is_alphanumeric(c: char) -> bool;

/// The lowercase form of a string, as `str::to_lowercase` gives it.
pub uninterp spec fn spec_to_lowercase(s: Seq<char>) -> Seq<char>;

/// The ASCII letters and digits.
pub open spec fn is_ascii_alphanumeric(c: char) -> bool {
    ('a' <= c && c <= 'z') || ('A' <= c && c <= 'Z') || ('0' <= c && c <= '9')
}

/// `char::is_whitespace`.
///
/// Trusted: the answer is whether `c` has the `White_Space` property, which
/// `spec_is_whitespace` lists.
#[verifier::external_body]
pub(crate) fn is_whitespace(c: char) -> (r: bool)
    ensures
        r == spec_is_whitespace(c),
{
    c.is_whitespace()
}

/// `char::is_alphanumeric`.
///
/// Trusted: the answer is what `spec_is_alphanumeric` names; among ASCII
/// characters exactly the letters and digits are alphanumeric.
#[verifier::external_body]
pub(crate) fn is_alphanumeric(c: char) -> (r: bool)
    ensures
        r == spec_is_alphanumeric(c),
        (c as u32) < 128 ==> (r <==> is_ascii_alphanumeric(c)),
{
    c.is_alphanumeric()
}

/// `str::to_lowercase`.
///
/// Trusted: the result is what `spec_to_lowercase` names; nothing is
/// claimed of how Unicode case mapping treats any character.
#[verifier::external_body]
pub(crate) fn to_lowercase(s: &str) -> (r: String)
    ensures
        r@ == spec_to_lowercase(s@),
{
    s.to_lowercase()
}

/// `String::push`: appends one character.
#[verifier::external_body]
pub(crate) fn push_char(s: &mut String, c: char)
    ensures
        final(s)@ == old(s)@.push(c),
{
    s.push(c)
}

/// The predicate "is whitespace".
pub open spec fn ws() -> spec_fn(char) -> bool {
    |c: char| spec_is_whitespace(c)
}

/// The predicate "is not whitespace".
pub open spec fn non_ws() -> spec_fn(char) -> bool {
    |c: char| !spec_is_whitespace(c)
}

/// Position of the first character of `s` that satisfies `p`, or the length
/// of `s` if none does.
pub open spec fn first_index(s: Seq<char>, p: spec_fn(char) -> bool) -> nat
    decreases s.len(),
{
    if s.len() == 0 {
        0
    } else if p(s[0]) {
        0
    } else {
        1 + first_index(s.drop_first(), p)
    }
}

/// Length of `s` once every trailing character that satisfies `p` is
/// removed.
pub open spec fn last_keep(s: Seq<char>, p: spec_fn(char) -> bool) -> nat
    decreases s.len(),
{
    if s.len() == 0 {
        0
    } else if p(s.last()) {
        last_keep(s.drop_last(), p)
    } else {
        s.len()
    }
}

/// `s` without leading and trailing whitespace, as `str::trim` leaves it.
pub open spec fn trim(s: Seq<char>) -> Seq<char> {
    let st = s.skip(first_index(s, non_ws()) as int);
    st.take(last_keep(st, ws()) as int)
}

pub proof fn lemma_first_index_bound(s: Seq<char>, p: spec_fn(char) -> bool)
    ensures
        first_index(s, p) <= s.len(),
        first_index(s, p) < s.len() ==> p(s[first_index(s, p) as int]),
        forall|k: int| 0 <= k < first_index(s, p) ==> !p(#[trigger] s[k]),
    decreases s.len(),
{
    if s.len() > 0 && !p(s[0]) {
        lemma_first_index_bound(s.drop_first(), p);
        assert forall|k: int| 0 <= k < first_index(s, p) implies !p(#[trigger] s[k]) by {
            if k > 0 {
                assert(s[k] == s.drop_first()[k - 1]);
            }
        }
    }
}

/// The first index of a character that satisfies `p` is `k` where `s[k]`
/// does and no character before it does.
pub proof fn lemma_first_index_at(s: Seq<char>, p: spec_fn(char) -> bool, k: int)
    requires
        0 <= k < s.len(),
        p(s[k]),
        forall|j: int| 0 <= j < k ==> !p(#[trigger] s[j]),
    ensures
        first_index(s, p) == k,
    decreases k,
{
    if k > 0 {
        assert(!p(s[0]));
        assert forall|j: int| 0 <= j < k - 1 implies !p(#[trigger] s.drop_first()[j]) by {
            assert(s.drop_first()[j] == s[j + 1]);
        }
        lemma_first_index_at(s.drop_first(), p, k - 1);
    }
}

pub proof fn lemma_last_keep_bound(s: Seq<char>, p: spec_fn(char) -> bool)
    ensures
        last_keep(s, p) <= s.len(),
        last_keep(s, p) > 0 ==> !p(s[last_keep(s, p) - 1]),
        forall|k: int| last_keep(s, p) <= k < s.len() ==> p(#[trigger] s[k]),
    decreases s.len(),
{
    if s.len() > 0 && p(s.last()) {
        lemma_last_keep_bound(s.drop_last(), p);
        assert forall|k: int| last_keep(s, p) <= k < s.len() implies p(#[trigger] s[k]) by {
            if k < s.len() - 1 {
                assert(s[k] == s.drop_last()[k]);
            }
        }
    }
}

/// Scanning one step past a character that fails `p`.
pub proof fn lemma_first_index_step(t: Seq<char>, k: int, to: int, p: spec_fn(char) -> bool)
    requires
        0 <= k < to <= t.len(),
        !p(t[k]),
    ensures
        first_index(t.subrange(k, to), p) == 1 + first_index(t.subrange(k + 1, to), p),
{
    assert(t.subrange(k, to).drop_first() =~= t.subrange(k + 1, to));
}

/// Scanning one step back over a trailing character that satisfies `p`.
pub proof fn lemma_last_keep_step(t: Seq<char>, from: int, k: int, p: spec_fn(char) -> bool)
    requires
        0 <= from < k <= t.len(),
        p(t[k - 1]),
    ensures
        from + last_keep(t.subrange(from, k), p) == from + last_keep(t.subrange(from, k - 1), p),
{
    assert(t.subrange(from, k).drop_last() =~= t.subrange(from, k - 1));
}

/// Position of the first whitespace character in `t[from..to]`, or `to`.
pub fn find_whitespace(t: &[char], from: usize, to: usize) -> (r: usize)
    requires
        from <= to <= t@.len(),
    ensures
        r == from + first_index(t@.subrange(from as int, to as int), ws()),
        from <= r <= to,
{
    let mut k = from;
    while k < to && !is_whitespace(t[k])
        invariant
            from <= k <= to <= t@.len(),
            from + first_index(t@.subrange(from as int, to as int), ws()) == k + first_index(
                t@.subrange(k as int, to as int),
                ws(),
            ),
        decreases to - k,
    {
        proof {
            lemma_first_index_step(t@, k as int, to as int, ws());
        }
        k += 1;
    }
    proof {
        lemma_first_index_bound(t@.subrange(from as int, to as int), ws());
        if k < to {
            assert(t@.subrange(k as int, to as int)[0] == t@[k as int]);
        }
    }
    k
}

/// Position of the first non-whitespace character in `t[from..to]`, or `to`.
pub fn skip_whitespace(t: &[char], from: usize, to: usize) -> (r: usize)
    requires
        from <= to <= t@.len(),
    ensures
        r == from + first_index(t@.subrange(from as int, to as int), non_ws()),
        from <= r <= to,
{
    let mut k = from;
    while k < to && is_whitespace(t[k])
        invariant
            from <= k <= to <= t@.len(),
            from + first_index(t@.subrange(from as int, to as int), non_ws()) == k + first_index(
                t@.subrange(k as int, to as int),
                non_ws(),
            ),
        decreases to - k,
    {
        proof {
            lemma_first_index_step(t@, k as int, to as int, non_ws());
        }
        k += 1;
    }
    proof {
        lemma_first_index_bound(t@.subrange(from as int, to as int), non_ws());
        if k < to {
            assert(t@.subrange(k as int, to as int)[0] == t@[k as int]);
        }
    }
    k
}

/// End of `t[from..to]` once trailing whitespace is removed.
pub fn trim_end_at(t: &[char], from: usize, to: usize) -> (r: usize)
    requires
        from <= to <= t@.len(),
    ensures
        r == from + last_keep(t@.subrange(from as int, to as int), ws()),
        from <= r <= to,
{
    let mut k = to;
    while k > from && is_whitespace(t[k - 1])
        invariant
            from <= k <= to <= t@.len(),
            from + last_keep(t@.subrange(from as int, to as int), ws()) == from + last_keep(
                t@.subrange(from as int, k as int),
                ws(),
            ),
        decreases k - from,
    {
        proof {
            lemma_last_keep_step(t@, from as int, k as int, ws());
        }
        k -= 1;
    }
    proof {
        lemma_last_keep_bound(t@.subrange(from as int, to as int), ws());
        if k > from {
            assert(t@.subrange(from as int, k as int).last() == t@[k - 1]);
        }
    }
    k
}

/// Bounds of `t[from..to]` with leading and trailing whitespace removed.
pub fn trim_range(t: &[char], from: usize, to: usize) -> (r: (usize, usize))
    requires
        from <= to <= t@.len(),
    ensures
        from <= r.0 <= r.1 <= to,
        t@.subrange(r.0 as int, r.1 as int) == trim(t@.subrange(from as int, to as int)),
{
    let a = skip_whitespace(t, from, to);
    let b = trim_end_at(t, a, to);
    proof {
        let s = t@.subrange(from as int, to as int);
        assert(s.skip(first_index(s, non_ws()) as int) =~= t@.subrange(a as int, to as int));
        lemma_last_keep_bound(t@.subrange(a as int, to as int), ws());
        assert(t@.subrange(a as int, to as int).take(last_keep(t@.subrange(a as int, to as int), ws()) as int)
            =~= t@.subrange(a as int, b as int));
    }
    (a, b)
}

/// A new string holding the characters `t[from..to]`.
pub fn string_from(t: &[char], from: usize, to: usize) -> (r: String)
    requires
        from <= to <= t@.len(),
    ensures
        r@ == t@.subrange(from as int, to as int),
{
    let mut out = String::new();
    let mut k = from;
    while k < to
        invariant
            from <= k <= to <= t@.len(),
            out@ == t@.subrange(from as int, k as int),
        decreases to - k,
    {
        push_char(&mut out, t[k]);
        proof {
            assert(out@ =~= t@.subrange(from as int, k + 1));
        }
        k += 1;
    }
    out
}

/// Whether `t[pos..]` begins with `key`.
pub fn starts_with_at(t: &[char], pos: usize, key: &[char]) -> (r: bool)
    requires
        pos <= t@.len(),
    ensures
        r == (pos + key@.len() <= t@.len() && t@.subrange(pos as int, pos + key@.len()) == key@),
{
    if key.len() > t.len() - pos {
        return false;
    }
    let mut k: usize = 0;
    while k < key.len()
        invariant
            pos + key@.len() <= t@.len(),
            t@.len() == t.len(),
            k <= key@.len(),
            forall|m: int| 0 <= m < k ==> t@[pos + m] == key@[m],
        decreases key@.len() - k,
    {
        if t[pos + k] != key[k] {
            assert(t@.subrange(pos as int, pos + key@.len())[k as int] != key@[k as int]);
            return false;
        }
        k += 1;
    }
    assert(t@.subrange(pos as int, pos + key@.len()) =~= key@);
    true
}

/// Whether two character sequences are equal.
pub fn chars_eq(a: &[char], b: &[char]) -> (r: bool)
    ensures
        r == (a@ == b@),
{
    if a.len() != b.len() {
        return false;
    }
    let r = starts_with_at(a, 0, b);
    proof {
        assert(a@ =~= a@.subrange(0, b@.len() as int));
    }
    r
}


/// The whitespace-separated fields of `s`, in order, as
/// `str::split_whitespace` yields them.
pub open spec fn fields(s: Seq<char>) -> Seq<Seq<char>>
    decreases s.len(),
{
    let a = first_index(s, non_ws());
    if a >= s.len() {
        Seq::empty()
    } else {
        let rest = s.skip(a as int);
        let b = first_index(rest, ws());
        proof {
            lemma_first_index_bound(s, non_ws());
            lemma_first_index_bound(rest, ws());
            assert(rest[0] == s[a as int]);
        }
        if b == 0 {
            Seq::empty()
        } else {
            seq![rest.take(b as int)] + fields(rest.skip(b as int))
        }
    }
}

/// Unfolds [`fields`] at a position found by scanning.
proof fn lemma_fields_step(t: Seq<char>, pos: int, a: int, b: int)
    requires
        0 <= pos <= a < b <= t.len(),
        a == pos + first_index(t.subrange(pos, t.len() as int), non_ws()),
        b == a + first_index(t.subrange(a, t.len() as int), ws()),
    ensures
        fields(t.skip(pos)) == seq![t.subrange(a, b)] + fields(t.skip(b)),
{
    let s = t.skip(pos);
    assert(t.subrange(pos, t.len() as int) =~= s);
    let rest = s.skip(a - pos);
    assert(rest =~= t.subrange(a, t.len() as int));
    lemma_first_index_bound(s, non_ws());
    lemma_first_index_bound(rest, ws());
    assert(rest[0] == t[a]);
    assert(rest.take(b - a) =~= t.subrange(a, b));
    assert(rest.skip(b - a) =~= t.skip(b));
}

/// The whitespace-separated fields of `s`, each as a new string.
pub fn split_whitespace(s: &str) -> (r: Vec<String>)
    ensures
        r@.map_values(|x: String| x@) == fields(s@),
{
    let t = chars_of(s);
    let n = t.len();
    let mut out: Vec<String> = Vec::new();
    let mut pos: usize = 0;
    let mut done = false;
    proof {
        assert(t@.skip(0) =~= s@);
        assert(out@.map_values(|x: String| x@) + fields(s@) =~= fields(s@));
    }
    while !done
        invariant
            t@ == s@,
            n == t@.len(),
            pos <= n,
            done ==> fields(t@.skip(pos as int)) == Seq::<Seq<char>>::empty(),
            out@.map_values(|x: String| x@) + fields(t@.skip(pos as int)) == fields(s@),
        decreases n - pos + (if done { 0int } else { 1int }),
    {
        let a = skip_whitespace(t.as_slice(), pos, n);
        if a == n {
            proof {
                let u = t@.skip(pos as int);
                assert(t@.subrange(pos as int, n as int) =~= u);
                lemma_first_index_bound(u, non_ws());
            }
            done = true;
        } else {
            let b = find_whitespace(t.as_slice(), a, n);
            proof {
                lemma_first_index_bound(t@.subrange(a as int, n as int), ws());
                assert(t@.subrange(a as int, n as int)[0] == t@[a as int]);
                lemma_first_index_bound(t@.subrange(pos as int, n as int), non_ws());
                lemma_fields_step(t@, pos as int, a as int, b as int);
            }
            let f = string_from(t.as_slice(), a, b);
            let ghost before = out@;
            out.push(f);
            proof {
                assert(out@.map_values(|x: String| x@) =~= before.map_values(|x: String| x@).push(f@));
                assert(out@.map_values(|x: String| x@) + fields(t@.skip(b as int)) =~= before.map_values(
                    |x: String| x@,
                ) + (seq![t@.subrange(a as int, b as int)] + fields(t@.skip(b as int))));
            }
            pos = b;
        }
    }
    proof {
        assert(out@.map_values(|x: String| x@) + Seq::<Seq<char>>::empty() =~= out@.map_values(
            |x: String| x@,
        ));
    }
    out
}

/// The ASCII lowercase form of one character.
pub open spec fn ascii_lower_char(c: char) -> char {
    if 'A' <= c && c <= 'Z' {
        ((c as u32) + 32) as char
    } else {
        c
    }
}

/// `s` with its ASCII capitals lowered, as `str::to_ascii_lowercase` leaves
/// it.
pub open spec fn ascii_lower(s: Seq<char>) -> Seq<char> {
    s.map_values(|c: char| ascii_lower_char(c))
}

fn lower_char(c: char) -> (r: char)
    ensures
        r == ascii_lower_char(c),
{
    if 'A' <= c && c <= 'Z' {
        let v: u32 = (c as u32) + 32;
        match char_from_u32(v) {
            Some(r) => r,
            None => c,
        }
    } else {
        c
    }
}

/// Whether `v` is a Unicode scalar value, that is, the code of some `char`.
pub open spec fn is_char_value(v: u32) -> bool {
    v < 0xD800 || (0xE000 <= v && v <= 0x10FFFF)
}

/// `char::from_u32`.
///
/// Trusted: as the standard library documents, it gives the character with
/// code `v` when `v` is a Unicode scalar value, and `None` otherwise.
#[verifier::external_body]
pub(crate) fn char_from_u32(v: u32) -> (r: Option<char>)
    ensures
        r == (if is_char_value(v) {
            Some(v as char)
        } else {
            None
        }),
        r matches Some(c) ==> c as u32 == v,
{
    char::from_u32(v)
}

/// The characters of `s` with ASCII capitals lowered.
pub fn ascii_lowercase(s: &str) -> (r: Vec<char>)
    ensures
        r@ == ascii_lower(s@),
{
    let t = chars_of(s);
    let mut out: Vec<char> = Vec::new();
    let mut k: usize = 0;
    while k < t.len()
        invariant
            t@ == s@,
            k <= t@.len(),
            out@ == ascii_lower(s@).take(k as int),
        decreases t@.len() - k,
    {
        out.push(lower_char(t[k]));
        proof {
            assert(out@ =~= ascii_lower(s@).take(k + 1));
        }
        k += 1;
    }
    proof {
        assert(out@ =~= ascii_lower(s@));
    }
    out
}

/// Whether the characters `t` spell out `lit`.
pub fn chars_are(t: &[char], lit: &str) -> (r: bool)
    ensures
        r == (t@ == lit@),
{
    let l = chars_of(lit);
    chars_eq(t, l.as_slice())
}

/// Whether two strings are equal.
pub fn str_eq(a: &str, b: &str) -> (r: bool)
    ensures
        r == (a@ == b@),
{
    let l = chars_of(a);
    chars_are(l.as_slice(), b)
}

/// Append `t` to `s`.
pub fn push_str(s: &mut String, t: &str)
    ensures
        final(s)@ == old(s)@ + t@,
{
    let cs = chars_of(t);
    let mut i: usize = 0;
    while i < cs.len()
        invariant
            cs@ == t@,
            i <= cs@.len(),
            s@ == old(s)@ + t@.take(i as int),
        decreases cs@.len() - i,
    {
        push_char(s, cs[i]);
        proof {
            assert(t@.take(i + 1) =~= t@.take(i as int).push(cs@[i as int]));
            assert(s@ =~= old(s)@ + t@.take(i + 1));
        }
        i += 1;
    }
    proof {
        assert(t@.take(i as int) =~= t@);
    }
}

/// A new string holding the characters of `t`.
pub fn string_of(t: &[char]) -> (r: String)
    ensures
        r@ == t@,
{
    let r = string_from(t, 0, t.len());
    proof {
        assert(t@.subrange(0, t@.len() as int) =~= t@);
    }
    r
}


/// The lines of `s`: the parts between line feeds, where a line feed at the
/// very end does not start another line. (A carriage return before the
/// line feed stays on the line; every caller trims it away with the rest
/// of the blank space.)
pub open spec fn lines_of(s: Seq<char>) -> Seq<Seq<char>>
    decreases s.len(),
{
    if s.len() == 0 {
        Seq::empty()
    } else {
        let i = first_index(s, |c: char| c == '\n');
        if i >= s.len() {
            seq![s]
        } else {
            proof {
                lemma_first_index_bound(s, |c: char| c == '\n');
            }
            seq![s.take(i as int)] + lines_of(s.skip(i as int + 1))
        }
    }
}

/// The lines of `s`, each trimmed of blank space.
pub fn trimmed_lines(s: &str) -> (r: Vec<String>)
    ensures
        r@.map_values(|x: String| x@) == lines_of(s@).map_values(|l: Seq<char>| trim(l)),
{
    let t = chars_of(s);
    let n = t.len();
    let mut out: Vec<String> = Vec::new();
    let mut pos: usize = 0;
    let ghost nl = |c: char| c == '\n';
    proof {
        assert(t@.skip(0) =~= s@);
    }
    while pos < n
        invariant
            t@ == s@,
            n == t@.len(),
            pos <= n,
            nl == (|c: char| c == '\n'),
            out@.map_values(|x: String| x@) + lines_of(t@.skip(pos as int)).map_values(|l: Seq<char>| trim(l))
                == lines_of(s@).map_values(|l: Seq<char>| trim(l)),
        decreases n - pos,
    {
        let mut e = pos;
        while e < n && t[e] != '\n'
            invariant
                pos <= e <= n,
                n == t@.len(),
                forall|m: int| pos <= m < e ==> t@[m] != '\n',
            decreases n - e,
        {
            e += 1;
        }
        let ghost rest = t@.skip(pos as int);
        proof {
            lemma_first_index_bound(rest, nl);
            if first_index(rest, nl) < e - pos {
                assert(rest[first_index(rest, nl) as int] == t@[pos + first_index(rest, nl)]);
            }
            if e < n && first_index(rest, nl) > e - pos {
                assert(rest[e - pos] == t@[e as int]);
            }
            assert(first_index(rest, nl) == e - pos);
            assert(rest.take(e - pos) =~= t@.subrange(pos as int, e as int));
            if e < n {
                assert(rest.skip(e - pos + 1) =~= t@.skip(e + 1));
            }
        }
        let (a, b) = trim_range(t.as_slice(), pos, e);
        let line = string_from(t.as_slice(), a, b);
        let ghost before = out@;
        out.push(line);
        proof {
            let f = |l: Seq<char>| trim(l);
            assert(out@.map_values(|x: String| x@) =~= before.map_values(|x: String| x@).push(
                trim(t@.subrange(pos as int, e as int)),
            ));
            if e < n {
                assert(lines_of(rest) == seq![t@.subrange(pos as int, e as int)] + lines_of(t@.skip(e + 1)));
                assert(lines_of(rest).map_values(f) =~= seq![trim(t@.subrange(pos as int, e as int))]
                    + lines_of(t@.skip(e + 1)).map_values(f));
                assert(out@.map_values(|x: String| x@) + lines_of(t@.skip(e + 1)).map_values(f) =~= before.map_values(
                    |x: String| x@,
                ) + lines_of(rest).map_values(f));
            } else {
                assert(rest =~= t@.subrange(pos as int, e as int));
                assert(lines_of(rest) == seq![rest]);
                assert(t@.skip(n as int).len() == 0);
                assert(lines_of(t@.skip(n as int)) =~= Seq::<Seq<char>>::empty());
                assert(lines_of(rest).map_values(f) =~= seq![trim(rest)]);
                assert(out@.map_values(|x: String| x@) + lines_of(t@.skip(n as int)).map_values(f) =~= before.map_values(
                    |x: String| x@,
                ) + lines_of(rest).map_values(f));
            }
        }
        if e < n {
            pos = e + 1;
        } else {
            pos = n;
        }
    }
    proof {
        assert(t@.skip(pos as int).len() == 0);
        assert(lines_of(t@.skip(pos as int)).map_values(|l: Seq<char>| trim(l)) =~= Seq::<Seq<char>>::empty());
        assert(out@.map_values(|x: String| x@) + Seq::<Seq<char>>::empty() =~= out@.map_values(|x: String| x@));
    }
    out
}

/// `s` without blank space at either end.
pub fn trim_str(s: &str) -> (r: String)
    ensures
        r@ == trim(s@),
{
    let t = chars_of(s);
    let (a, b) = trim_range(t.as_slice(), 0, t.len());
    proof {
        assert(t@.subrange(0, t@.len() as int) =~= s@);
    }
    string_from(t.as_slice(), a, b)
}

/// The position of the first occurrence of `sep` in `s` at or after `i`, or
/// the length of `s` if there is none.
pub open spec fn find_from(s: Seq<char>, sep: Seq<char>, i: int) -> int
    decreases s.len() - i,
{
    if i < 0 || i + sep.len() > s.len() || i >= s.len() {
        s.len() as int
    } else if s.subrange(i, i + sep.len()) == sep {
        i
    } else {
        find_from(s, sep, i + 1)
    }
}

pub proof fn lemma_find_from_bound(s: Seq<char>, sep: Seq<char>, i: int)
    requires
        0 <= i,
    ensures
        find_from(s, sep, i) == s.len() || (i <= find_from(s, sep, i) && find_from(s, sep, i) + sep.len()
            <= s.len()),
    decreases s.len() - i,
{
    if !(i + sep.len() > s.len() || i >= s.len()) && s.subrange(i, i + sep.len()) != sep {
        lemma_find_from_bound(s, sep, i + 1);
    }
}

/// The parts of `s[from..]` between the occurrences of `sep`, as
/// `str::split` gives them.
pub open spec fn split_on(s: Seq<char>, sep: Seq<char>, from: int) -> Seq<Seq<char>>
    decreases s.len() - from,
{
    let i = find_from(s, sep, from);
    if from < 0 || from > s.len() || sep.len() == 0 || i + sep.len() > s.len() {
        seq![s.subrange(from, s.len() as int)]
    } else {
        proof {
            lemma_find_from_bound(s, sep, from);
        }
        seq![s.subrange(from, i)] + split_on(s, sep, i + sep.len())
    }
}

/// The parts of `s` between the occurrences of the non-empty `sep`.
pub fn split_sep(s: &str, sep: &str) -> (r: Vec<String>)
    requires
        sep@.len() > 0,
    ensures
        r@.map_values(|x: String| x@) == split_on(s@, sep@, 0),
{
    let t = chars_of(s);
    let p = chars_of(sep);
    let n = t.len();
    let mut out: Vec<String> = Vec::new();
    let mut from: usize = 0;
    let mut i: usize = 0;
    proof {
        assert(out@.map_values(|x: String| x@) =~= Seq::<Seq<char>>::empty());
    }
    while i < n
        invariant
            t@ == s@,
            p@ == sep@,
            p@.len() > 0,
            n == t@.len(),
            from <= i <= n,
            find_from(s@, sep@, from as int) == find_from(s@, sep@, i as int),
            out@.map_values(|x: String| x@) + split_on(s@, sep@, from as int) == split_on(s@, sep@, 0),
        decreases n - i,
    {
        let hit = p.len() <= n - i && starts_with_at(t.as_slice(), i, p.as_slice());
        if hit {
            proof {
                assert(find_from(s@, sep@, i as int) == i);
                lemma_find_from_bound(s@, sep@, from as int);
            }
            let part = string_from(t.as_slice(), from, i);
            let ghost before = out@;
            out.push(part);
            proof {
                assert(split_on(s@, sep@, from as int) == seq![s@.subrange(from as int, i as int)] + split_on(
                    s@,
                    sep@,
                    i + sep@.len(),
                ));
                assert(out@.map_values(|x: String| x@) =~= before.map_values(|x: String| x@).push(part@));
                assert(out@.map_values(|x: String| x@) + split_on(s@, sep@, i + sep@.len()) =~= before.map_values(
                    |x: String| x@,
                ) + split_on(s@, sep@, from as int));
            }
            from = i + p.len();
            i = from;
        } else {
            proof {
                if i + sep@.len() <= s@.len() {
                    assert(s@.subrange(i as int, i + sep@.len()) != sep@);
                }
            }
            i += 1;
        }
    }
    proof {
        assert(find_from(s@, sep@, i as int) == s@.len());
        assert(split_on(s@, sep@, from as int) == seq![s@.subrange(from as int, s@.len() as int)]);
    }
    let last = string_from(t.as_slice(), from, n);
    let ghost before = out@;
    out.push(last);
    proof {
        assert(out@.map_values(|x: String| x@) =~= before.map_values(|x: String| x@).push(last@));
        assert(out@.map_values(|x: String| x@) =~= before.map_values(|x: String| x@) + split_on(
            s@,
            sep@,
            from as int,
        ));
    }
    out
}

/// A line without the carriage return that ended it, if any.
pub open spec fn strip_cr(l: Seq<char>) -> Seq<char> {
    if l.len() > 0 && l.last() == '\r' {
        l.drop_last()
    } else {
        l
    }
}

/// The lines of `s` as `str::lines` gives them: the parts ended by a line
/// feed (with the carriage return before it removed) and the part after
/// the last line feed, if it is not empty.
pub open spec fn std_lines(s: Seq<char>) -> Seq<Seq<char>>
    decreases s.len(),
{
    if s.len() == 0 {
        Seq::empty()
    } else {
        let i = first_index(s, |c: char| c == '\n');
        if i >= s.len() {
            seq![s]
        } else {
            proof {
                lemma_first_index_bound(s, |c: char| c == '\n');
            }
            seq![strip_cr(s.take(i as int))] + std_lines(s.skip(i as int + 1))
        }
    }
}

/// `str::lines`: the lines of `s`.
///
/// Trusted: as the standard library documents, the lines are the parts
/// ended by `\n` or `\r\n` (the ending removed) and a last part without an
/// ending, if it is not empty.
#[verifier::external_body]
pub(crate) fn str_lines(s: &str) -> (r: Vec<String>)
    ensures
        r@.map_values(|x: String| x@) == std_lines(s@),
{
    s.lines().map(|l| l.to_owned()).collect()
}

} // verus!
