//! Reading the lines of an affix file: finding a key at the start of a line,
//! the content that follows it, the end of the line, and the rows of a
//! table.

use vstd::prelude::*;

use crate::error::{convertu32, LineCol, ParseError, ParseErrorKind, Span};
use crate::num::{parse_u16, unsigned_value};
use crate::text::{
    first_index, is_whitespace, lemma_first_index_bound, lemma_first_index_step, non_ws,
    skip_whitespace, spec_is_whitespace, starts_with_at, string_from, trim_end_at, last_keep, ws,
};

verus! {

/// The characters that end the content of a line: a line break or the start
/// of a comment.
pub open spec fn is_terminator(c: char) -> bool {
    c == '\r' || c == '\n' || c == '#'
}

pub open spec fn term() -> spec_fn(char) -> bool {
    |c: char| is_terminator(c)
}

pub open spec fn newline() -> spec_fn(char) -> bool {
    |c: char| c == '\n'
}

/// The characters that are not blank space within a line (whitespace other
/// than a line feed).
pub open spec fn not_blank() -> spec_fn(char) -> bool {
    |c: char| !(spec_is_whitespace(c) && c != '\n')
}

/// Where the key `key` at `pos` leaves its content and the rest of the text:
/// the content runs from the first to the second position, with the blank
/// space around it removed, and the rest starts at the third, the first
/// line terminator after the key (or the end of the text). `None` if the
/// text at `pos` does not start with the key.
pub open spec fn split_at_key(t: Seq<char>, pos: nat, key: Seq<char>) -> Option<(nat, nat, nat)> {
    if pos + key.len() <= t.len() && t.subrange(pos as int, (pos + key.len()) as int) == key {
        let ks = pos + key.len();
        let e = ks + first_index(t.subrange(ks as int, t.len() as int), term());
        let a = ks + first_index(t.subrange(ks as int, e as int), non_ws());
        let b = a + last_keep(t.subrange(a as int, e as int), ws());
        Some((a, b, e))
    } else {
        None
    }
}

/// The bounds that [`split_at_key`] gives are in order and within the text.
pub proof fn lemma_split_at_key(t: Seq<char>, pos: nat, key: Seq<char>)
    requires
        split_at_key(t, pos, key) is Some,
    ensures
        ({
            let (a, b, e) = split_at_key(t, pos, key)->0;
            pos + key.len() <= a <= b <= e <= t.len()
        }),
{
    let ks = pos + key.len();
    lemma_first_index_bound(t.subrange(ks as int, t.len() as int), term());
    let e = ks + first_index(t.subrange(ks as int, t.len() as int), term());
    lemma_first_index_bound(t.subrange(ks as int, e as int), non_ws());
    let a = ks + first_index(t.subrange(ks as int, e as int), non_ws());
    crate::text::lemma_last_keep_bound(t.subrange(a as int, e as int), ws());
}

/// What follows the end of an entry.
pub enum LineEnd {
    /// The line ends; the next line starts here
    Next(nat),
    /// The text ends
    End,
    /// Something other than blank space or a comment follows
    Junk(char),
}

/// How the text at `pos` ends its line: after blank space comes a line
/// feed, a comment (which runs to the next line feed), the end of the text,
/// or something else.
pub open spec fn line_end_at(t: Seq<char>, pos: nat) -> LineEnd {
    let p = pos + first_index(t.subrange(pos as int, t.len() as int), not_blank());
    if p >= t.len() {
        LineEnd::End
    } else if t[p as int] == '\n' {
        LineEnd::Next(p + 1)
    } else if t[p as int] == '#' {
        let q = p + first_index(t.subrange(p as int, t.len() as int), newline());
        if q >= t.len() {
            LineEnd::End
        } else {
            LineEnd::Next(q + 1)
        }
    } else {
        LineEnd::Junk(t[p as int])
    }
}

/// Scan `t[from..]` for the first character that `which` picks: `0` a line
/// terminator, `1` a line feed, `2` a character other than blank space.
fn scan(t: &[char], from: usize, which: u8) -> (r: usize)
    requires
        from <= t@.len(),
        which < 3,
    ensures
        r == from + first_index(
            t@.subrange(from as int, t@.len() as int),
            if which == 0 {
                term()
            } else if which == 1 {
                newline()
            } else {
                not_blank()
            },
        ),
        from <= r <= t@.len(),
{
    let ghost p = if which == 0 {
        term()
    } else if which == 1 {
        newline()
    } else {
        not_blank()
    };
    let n = t.len();
    let mut k = from;
    while k < n
        invariant
            from <= k <= n,
            n == t@.len(),
            p == (if which == 0 {
                term()
            } else if which == 1 {
                newline()
            } else {
                not_blank()
            }),
            from + first_index(t@.subrange(from as int, n as int), p) == k + first_index(
                t@.subrange(k as int, n as int),
                p,
            ),
        decreases n - k,
    {
        let c = t[k];
        let hit = if which == 0 {
            c == '\r' || c == '\n' || c == '#'
        } else if which == 1 {
            c == '\n'
        } else {
            !(is_whitespace(c) && c != '\n')
        };
        assert(hit == p(c));
        if hit {
            proof {
                assert(t@.subrange(k as int, n as int)[0] == c);
            }
            proof {
                lemma_first_index_bound(t@.subrange(from as int, n as int), p);
            }
            return k;
        }
        proof {
            lemma_first_index_step(t@, k as int, n as int, p);
        }
        k += 1;
    }
    proof {
        lemma_first_index_bound(t@.subrange(from as int, n as int), p);
    }
    k
}

/// Find the key `key` at `pos` and the bounds of its content and of the
/// rest of the text.
pub fn split_line(t: &[char], pos: usize, key: &[char]) -> (r: Option<(usize, usize, usize)>)
    requires
        pos <= t@.len(),
    ensures
        match r {
            Some((a, b, e)) => split_at_key(t@, pos as nat, key@) == Some((a as nat, b as nat, e as nat)),
            None => split_at_key(t@, pos as nat, key@) is None,
        },
{
    if !starts_with_at(t, pos, key) {
        return None;
    }
    assert(key@.len() == key.len() && t@.len() == t.len());
    let ks = pos + key.len();
    let e = scan(t, ks, 0);
    let a = skip_whitespace(t, ks, e);
    let b = trim_end_at(t, a, e);
    Some((a, b, e))
}

/// How the line at `pos` ends.
pub fn line_end(t: &[char], pos: usize) -> (r: Result<Option<usize>, char>)
    requires
        pos <= t@.len(),
    ensures
        match line_end_at(t@, pos as nat) {
            LineEnd::Next(p) => r == Ok::<Option<usize>, char>(Some(p as usize)) && pos < p <= t@.len(),
            LineEnd::End => r == Ok::<Option<usize>, char>(None),
            LineEnd::Junk(c) => r == Err::<Option<usize>, char>(c),
        },
{
    let p = scan(t, pos, 2);
    if p >= t.len() {
        Ok(None)
    } else if t[p] == '\n' {
        Ok(Some(p + 1))
    } else if t[p] == '#' {
        let q = scan(t, p, 1);
        if q >= t.len() {
            Ok(None)
        } else {
            Ok(Some(q + 1))
        }
    } else {
        Err(t[p])
    }
}

/// Whether the error `e` is placed at the start of line `l`, counted from
/// where the entry starts; an error with no location stands for line `0`.
pub open spec fn placed(e: ParseError, l: nat) -> bool {
    match e.spec_span() {
        Some(s) => l < u32::MAX && s == (Span {
            start: LineCol { line: l as u32, col: 0 },
            end: LineCol { line: (l + 1) as u32, col: 0 },
        }),
        None => l == 0,
    }
}

/// The rows of a table with `n` rows whose first row follows position
/// `cur`: the bounds of each row's content and where the table ends. Each
/// row is on a line of its own and starts with `key`. When a row is
/// missing, the index of the first missing row.
pub open spec fn rows_from(t: Seq<char>, cur: nat, key: Seq<char>, n: nat) -> Result<
    (Seq<(nat, nat)>, nat),
    nat,
>
    decreases n,
{
    if n == 0 {
        Ok((Seq::empty(), cur))
    } else {
        match line_end_at(t, cur) {
            LineEnd::Next(p) => match split_at_key(t, p, key) {
                Some((a, b, e)) => match rows_from(t, e, key, (n - 1) as nat) {
                    Ok((rs, end)) => Ok((seq![(a, b)] + rs, end)),
                    Err(k) => Err(k + 1),
                },
                None => Err(0),
            },
            _ => Err(0),
        }
    }
}

/// The contents of the rows with bounds `rows`.
pub open spec fn row_texts(t: Seq<char>, rows: Seq<(nat, nat)>) -> Seq<Seq<char>> {
    rows.map_values(|r: (nat, nat)| t.subrange(r.0 as int, r.1 as int))
}

/// A table at `pos`: `None` if the text there does not start with `key`;
/// otherwise the row count its header declares and either the rows, or the
/// error: an unreadable count, or the index of the first missing row.
pub enum TableShape {
    Rows(nat, Seq<(nat, nat)>, nat),
    BadCount,
    Missing(nat, nat),
}

pub open spec fn table_at(t: Seq<char>, pos: nat, key: Seq<char>) -> Option<TableShape> {
    match split_at_key(t, pos, key) {
        Some((a, b, e)) => Some(
            match unsigned_value(t.subrange(a as int, b as int)) {
                Some(n) => if n <= u16::MAX {
                    match rows_from(t, e, key, n) {
                        Ok((rs, end)) => TableShape::Rows(n, rs, end),
                        Err(k) => TableShape::Missing(n, k),
                    }
                } else {
                    TableShape::BadCount
                },
                None => TableShape::BadCount,
            },
        ),
        None => None,
    }
}

/// Facts about the positions [`rows_from`] gives.
pub proof fn lemma_rows_from(t: Seq<char>, cur: nat, key: Seq<char>, n: nat)
    requires
        cur <= t.len(),
        key.len() > 0,
        rows_from(t, cur, key, n) is Ok,
    ensures
        ({
            let (rs, end) = rows_from(t, cur, key, n)->Ok_0;
            &&& rs.len() == n
            &&& cur <= end <= t.len()
            &&& end >= cur + n
            &&& forall|i: int| 0 <= i < n ==> #[trigger] rs[i].0 <= rs[i].1 <= t.len()
        }),
    decreases n,
{
    if n > 0 {
        let p = line_end_at(t, cur)->Next_0;
        lemma_line_end(t, cur);
        lemma_split_at_key(t, p, key);
        let (a, b, e) = split_at_key(t, p, key)->0;
        lemma_rows_from(t, e, key, (n - 1) as nat);
        let (rs1, end1) = rows_from(t, e, key, (n - 1) as nat)->Ok_0;
        let rs = seq![(a, b)] + rs1;
        assert forall|i: int| 0 <= i < n implies #[trigger] rs[i].0 <= rs[i].1 <= t.len() by {
            if i > 0 {
                assert(rs[i] == rs1[i - 1]);
            }
        }
    }
}

/// The next line after a line end lies further on in the text.
pub proof fn lemma_line_end(t: Seq<char>, pos: nat)
    requires
        pos <= t.len(),
    ensures
        line_end_at(t, pos) matches LineEnd::Next(p) ==> pos < p <= t.len(),
{
    lemma_first_index_bound(t.subrange(pos as int, t.len() as int), not_blank());
    let p = pos + first_index(t.subrange(pos as int, t.len() as int), not_blank());
    if p < t.len() && t[p as int] == '#' {
        lemma_first_index_bound(t.subrange(p as int, t.len() as int), newline());
    }
}

/// The bounds of a list of rows as natural numbers.
pub open spec fn rows_view(v: Seq<(usize, usize)>) -> Seq<(nat, nat)> {
    v.map_values(|x: (usize, usize)| (x.0 as nat, x.1 as nat))
}

/// Read the `count` rows of a table that follow position `cur`: the bounds
/// of their contents and where the table ends. A missing row is an error
/// placed at that row, counted from the header.
pub fn read_rows(t: &[char], cur: usize, key: &[char], count: u16) -> (r: Result<
    (Vec<(usize, usize)>, usize),
    ParseError,
>)
    requires
        cur <= t@.len(),
        key@.len() > 0,
    ensures
        match rows_from(t@, cur as nat, key@, count as nat) {
            Ok((rs, end)) => r matches Ok((v, e)) && rows_view(v@) == rs && e == end,
            Err(k) => r matches Err(err) && err.kind() == (ParseErrorKind::TableCount {
                expected: count as u32,
                actual: k as u32,
            }) && placed(err, k + 1),
        },
{
    let mut rows: Vec<(usize, usize)> = Vec::new();
    let mut pos = cur;
    let mut i: u16 = 0;
    while i < count
        invariant
            pos <= t@.len(),
            key@.len() > 0,
            i <= count,
            rows_from(t@, cur as nat, key@, count as nat) == match rows_from(
                t@,
                pos as nat,
                key@,
                (count - i) as nat,
            ) {
                Ok((rs, end)) => Ok((rows_view(rows@) + rs, end)),
                Err(k) => Err::<(Seq<(nat, nat)>, nat), nat>((k + i) as nat),
            },
        decreases count - i,
    {
        let ghost m = (count - i) as nat;
        let le = line_end(t, pos);
        proof {
            lemma_line_end(t@, pos as nat);
        }
        let next = match le {
            Ok(Some(p)) => p,
            _ => {
                proof {
                    assert(rows_from(t@, pos as nat, key@, m) == Err::<(Seq<(nat, nat)>, nat), nat>(0));
                }
                let err = ParseError::new(
                    ParseErrorKind::TableCount { expected: count as u32, actual: i as u32 },
                    "",
                    (i as u32) + 1,
                    0,
                );
                return Err(err);
            },
        };
        proof {
            match line_end_at(t@, pos as nat) {
                LineEnd::Next(p) => {
                    assert(le == Ok::<Option<usize>, char>(Some(p as usize)));
                    assert(t@.len() == t.len());
                    assert(p == next);
                },
                LineEnd::End => {
                    assert(le == Ok::<Option<usize>, char>(None));
                },
                LineEnd::Junk(c) => {
                    assert(le == Err::<Option<usize>, char>(c));
                },
            }
        }
        let (ra, rb, re) = match split_line(t, next, key) {
            Some(x) => x,
            None => {
                proof {
                    assert(rows_from(t@, pos as nat, key@, m) == Err::<(Seq<(nat, nat)>, nat), nat>(0));
                }
                let err = ParseError::new(
                    ParseErrorKind::TableCount { expected: count as u32, actual: i as u32 },
                    "",
                    (i as u32) + 1,
                    0,
                );
                return Err(err);
            },
        };
        proof {
            lemma_split_at_key(t@, next as nat, key@);
            assert(rows_from(t@, pos as nat, key@, m) == match rows_from(t@, re as nat, key@, (m - 1) as nat) {
                Ok((rs, end)) => Ok((seq![(ra as nat, rb as nat)] + rs, end)),
                Err(k) => Err::<(Seq<(nat, nat)>, nat), nat>(k + 1),
            });
        }
        let ghost before = rows@;
        rows.push((ra, rb));
        proof {
            assert(rows_view(rows@) =~= rows_view(before).push((ra as nat, rb as nat)));
            match rows_from(t@, re as nat, key@, (m - 1) as nat) {
                Ok((rs, end)) => {
                    assert(rows_view(before) + (seq![(ra as nat, rb as nat)] + rs) =~= rows_view(rows@) + rs);
                },
                Err(k) => {},
            }
        }
        pos = re;
        i += 1;
    }
    proof {
        assert(rows_view(rows@) + Seq::<(nat, nat)>::empty() =~= rows_view(rows@));
    }
    Ok((rows, pos))
}

/// Read the table at `pos`: the count its header declares, the bounds of
/// its rows and where it ends. The rows are at the lines that follow, one
/// line each. Errors are placed at the row where they occur, counted from
/// the header.
pub fn table_rows(t: &[char], pos: usize, key: &[char]) -> (r: Result<
    Option<(u16, Vec<(usize, usize)>, usize)>,
    ParseError,
>)
    requires
        pos <= t@.len(),
        key@.len() > 0,
    ensures
        match table_at(t@, pos as nat, key@) {
            None => r matches Ok(None),
            Some(TableShape::Rows(n, rs, end)) => r matches Ok(Some((c, v, e))) && c == n
                && rows_view(v@) == rs && e == end,
            Some(TableShape::BadCount) => r matches Err(err) && err.kind() is Int
                && placed(err, 0),
            Some(TableShape::Missing(n, k)) => r matches Err(err) && err.kind()
                == (ParseErrorKind::TableCount { expected: n as u32, actual: k as u32 })
                && placed(err, k + 1),
        },
{
    let (a, b, e) = match split_line(t, pos, key) {
        Some(x) => x,
        None => {
            return Ok(None);
        },
    };
    proof {
        lemma_split_at_key(t@, pos as nat, key@);
    }
    let header = string_from(t, a, b);
    let count = match parse_u16(header.as_str()) {
        Ok(c) => c,
        Err(err) => {
            return Err(ParseError::new_nospan(ParseErrorKind::Int(err), header.as_str()));
        },
    };
    match read_rows(t, e, key, count) {
        Ok((rows, end)) => Ok(Some((count, rows, end))),
        Err(err) => Err(err),
    }
}

} // verus!
