//! Levenshtein distance, plain, limited and weighted.
//!
//! The distance is computed with two rows of the classic dynamic programming
//! table. Every function here returns the weighted edit distance between its
//! two inputs, capped at the given limit.

use unicode_segmentation::UnicodeSegmentation;
use vstd::prelude::*;
use vstd::std_specs::cmp::PartialEqSpec;

verus! {

/// The smaller of two naturals.
pub open spec fn nat_min(x: nat, y: nat) -> nat {
    if x <= y {
        x
    } else {
        y
    }
}

/// Weighted edit distance between the first `i` items of `a` and the first
/// `j` items of `b`, where `eq` says when two items are the same.
///
/// Turning `a[..i]` into `b[..j]` may insert an item of `b` (cost `w_ins`),
/// delete an item of `a` (cost `w_del`) or substitute one item for another
/// (cost `w_sub`, free when the two items are the same).
pub open spec fn edit_distance<T>(
    a: Seq<T>,
    b: Seq<T>,
    eq: spec_fn(T, T) -> bool,
    i: nat,
    j: nat,
    w_ins: nat,
    w_del: nat,
    w_sub: nat,
) -> nat
    decreases i + j,
{
    if i == 0 {
        j * w_ins
    } else if j == 0 {
        i * w_del
    } else {
        let ins = edit_distance(a, b, eq, i, (j - 1) as nat, w_ins, w_del, w_sub) + w_ins;
        let del = edit_distance(a, b, eq, (i - 1) as nat, j, w_ins, w_del, w_sub) + w_del;
        let sub = edit_distance(a, b, eq, (i - 1) as nat, (j - 1) as nat, w_ins, w_del, w_sub)
            + if eq(a[i - 1], b[j - 1]) {
            0nat
        } else {
            w_sub
        };
        nat_min(nat_min(ins, del), sub)
    }
}

/// Weighted edit distance between the whole of `a` and the whole of `b`.
pub open spec fn weighted_distance<T>(
    a: Seq<T>,
    b: Seq<T>,
    eq: spec_fn(T, T) -> bool,
    w_ins: nat,
    w_del: nat,
    w_sub: nat,
) -> nat {
    edit_distance(a, b, eq, a.len(), b.len(), w_ins, w_del, w_sub)
}

/// Equality of items as their `PartialEq` implementation states it.
pub open spec fn spec_eq_of<I: PartialEqSpec>() -> spec_fn(I, I) -> bool {
    |x: I, y: I| x.eq_spec(&y)
}

/// Plain equality of character sequences.
pub open spec fn seq_eq() -> spec_fn(Seq<char>, Seq<char>) -> bool {
    |x: Seq<char>, y: Seq<char>| x == y
}

/// The grapheme clusters of a string, each given by its characters, in the
/// order in which `UnicodeSegmentation::graphemes(s, true)` yields them.
pub uninterp spec fn spec_graphemes(s: Seq<char>) -> Seq<Seq<char>>;

/// One extended grapheme cluster of a string.
#[derive(Clone, Debug)]
pub struct Grapheme(pub String);

impl PartialEq for Grapheme {
    fn eq(&self, other: &Self) -> (r: bool) {
        self.0 == other.0
    }
}

impl vstd::std_specs::cmp::PartialEqSpecImpl for Grapheme {
    open spec fn obeys_eq_spec() -> bool {
        true
    }

    open spec fn eq_spec(&self, other: &Grapheme) -> bool {
        self.0@ == other.0@
    }
}

/// Splits a string into its extended grapheme clusters with
/// `unicode_segmentation::UnicodeSegmentation::graphemes(s, true)`.
///
/// Trusted: the clusters it returns are those that `spec_graphemes` names;
/// nothing is claimed of how the segmentation rules split a string.
#[verifier::external_body]
fn graphemes(s: &str) -> (r: Vec<Grapheme>)
    ensures
        r@.map_values(|g: Grapheme| g.0@) == spec_graphemes(s@),
{
    s.graphemes(true).map(|g| Grapheme(g.to_owned())).collect()
}

/// The capped table entry computed from its three neighbours.
proof fn lemma_capped_step<T>(
    a: Seq<T>,
    b: Seq<T>,
    eq: spec_fn(T, T) -> bool,
    i: nat,
    j: nat,
    w_ins: nat,
    w_del: nat,
    w_sub: nat,
    limit: nat,
)
    requires
        i > 0,
        j > 0,
    ensures
        nat_min(edit_distance(a, b, eq, i, j, w_ins, w_del, w_sub), limit) == nat_min(
            nat_min(
                nat_min(
                    nat_min(edit_distance(a, b, eq, i, (j - 1) as nat, w_ins, w_del, w_sub), limit)
                        + w_ins,
                    nat_min(edit_distance(a, b, eq, (i - 1) as nat, j, w_ins, w_del, w_sub), limit)
                        + w_del,
                ),
                nat_min(
                    edit_distance(a, b, eq, (i - 1) as nat, (j - 1) as nat, w_ins, w_del, w_sub),
                    limit,
                ) + if eq(a[i - 1], b[j - 1]) {
                    0nat
                } else {
                    w_sub
                },
            ),
            limit,
        ),
{
}

/// The first row and column of the table grow by one weight per step.
proof fn lemma_edge_step(k: nat, w: nat)
    ensures
        (k + 1) * w == k * w + w,
{
    assert((k + 1) * w == k * w + w) by (nonlinear_arith);
}

/// The first row and the first column of the table.
proof fn lemma_edges<T>(
    a: Seq<T>,
    b: Seq<T>,
    eq: spec_fn(T, T) -> bool,
    i: nat,
    j: nat,
    w_ins: nat,
    w_del: nat,
    w_sub: nat,
)
    ensures
        edit_distance(a, b, eq, 0, j, w_ins, w_del, w_sub) == j * w_ins,
        edit_distance(a, b, eq, i, 0, w_ins, w_del, w_sub) == i * w_del,
{
    if i == 0 {
        assert(i * w_del == 0) by (nonlinear_arith)
            requires
                i == 0,
        ;
    }
}

/// Levenshthein distance computation on two sequences of items that
/// implement [`PartialEq`].
///
/// Returns the weighted edit distance between `a` and `b`, with costs
/// `w_ins`, `w_del` and `w_sub` for an insertion, a deletion and a
/// substitution, or `limit` if that is smaller.
pub fn levenshtein_limit_weight_iter<I: PartialEq + PartialEqSpec>(
    a: Vec<I>,
    b: Vec<I>,
    limit: u32,
    w_ins: u32,
    w_del: u32,
    w_sub: u32,
) -> (r: u32)
    requires
        I::obeys_eq_spec(),
    ensures
        r == nat_min(
            weighted_distance(a@, b@, spec_eq_of::<I>(), w_ins as nat, w_del as nat, w_sub as nat),
            limit as nat,
        ),
{
    let ghost eq = spec_eq_of::<I>();
    let ghost (wi, wd, ws) = (w_ins as nat, w_del as nat, w_sub as nat);
    let a_len = a.len();
    let b_len = b.len();
    let lim = limit as u64;
    // The first row: inserting the first j items of b.
    let mut v_prev: Vec<u64> = Vec::new();
    v_prev.push(0);
    let mut j: usize = 0;
    while j < b_len
        invariant
            j <= b_len,
            b_len == b@.len(),
            lim == limit,
            wi == w_ins as nat,
            wd == w_del as nat,
            ws == w_sub as nat,
            v_prev@.len() == j + 1,
            forall|k: int|
                0 <= k <= j ==> #[trigger] v_prev@[k] == nat_min(
                    edit_distance(a@, b@, eq, 0, k as nat, wi, wd, ws),
                    limit as nat,
                ),
        decreases b_len - j,
    {
        let ghost old_prev = v_prev@;
        let last = v_prev[j];
        let next = if last + (w_ins as u64) < lim {
            last + (w_ins as u64)
        } else {
            lim
        };
        proof {
            lemma_edge_step(j as nat, wi);
            lemma_edges(a@, b@, eq, 0, (j + 1) as nat, wi, wd, ws);
            lemma_edges(a@, b@, eq, 0, j as nat, wi, wd, ws);
        }
        v_prev.push(next);
        proof {
            assert forall|k: int| 0 <= k <= j + 1 implies #[trigger] v_prev@[k] == nat_min(
                edit_distance(a@, b@, eq, 0, k as nat, wi, wd, ws),
                limit as nat,
            ) by {
                if k <= j {
                    assert(v_prev@[k] == old_prev[k]);
                } else {
                    assert(v_prev@[k] == next);
                    assert(k as nat == (j + 1) as nat);
                    assert(last == nat_min(j as nat * wi, limit as nat));
                    assert(next == nat_min(j as nat * wi + wi, limit as nat));
                }
            }
        }
        j += 1;
    }
    let mut i: usize = 0;
    while i < a_len
        invariant
            i <= a_len,
            a_len == a@.len(),
            b_len == b@.len(),
            lim == limit,
            wi == w_ins as nat,
            wd == w_del as nat,
            ws == w_sub as nat,
            eq == spec_eq_of::<I>(),
            I::obeys_eq_spec(),
            v_prev@.len() == b_len + 1,
            forall|k: int|
                0 <= k <= b_len ==> #[trigger] v_prev@[k] == nat_min(
                    edit_distance(a@, b@, eq, i as nat, k as nat, wi, wd, ws),
                    limit as nat,
                ),
        decreases a_len - i,
    {
        let first = if v_prev[0] + (w_del as u64) < lim {
            v_prev[0] + (w_del as u64)
        } else {
            lim
        };
        proof {
            lemma_edge_step(i as nat, wd);
            lemma_edges(a@, b@, eq, (i + 1) as nat, 0, wi, wd, ws);
            lemma_edges(a@, b@, eq, i as nat, 0, wi, wd, ws);
            assert(v_prev@[0] == nat_min(edit_distance(a@, b@, eq, i as nat, 0, wi, wd, ws), limit as nat));
        }
        let mut v_curr: Vec<u64> = Vec::new();
        v_curr.push(first);
        let mut j: usize = 0;
        while j < b_len
            invariant
                j <= b_len,
                i < a_len,
                a_len == a@.len(),
                b_len == b@.len(),
                lim == limit,
                wi == w_ins as nat,
                wd == w_del as nat,
                ws == w_sub as nat,
            wi == w_ins as nat,
            wd == w_del as nat,
            ws == w_sub as nat,
                eq == spec_eq_of::<I>(),
                I::obeys_eq_spec(),
                v_prev@.len() == b_len + 1,
                v_curr@.len() == j + 1,
                forall|k: int|
                    0 <= k <= b_len ==> #[trigger] v_prev@[k] == nat_min(
                        edit_distance(a@, b@, eq, i as nat, k as nat, wi, wd, ws),
                        limit as nat,
                    ),
                forall|k: int|
                    0 <= k <= j ==> #[trigger] v_curr@[k] == nat_min(
                        edit_distance(a@, b@, eq, (i + 1) as nat, k as nat, wi, wd, ws),
                        limit as nat,
                    ),
            decreases b_len - j,
        {
            let ins_cost = v_curr[j] + (w_ins as u64);
            let del_cost = v_prev[j + 1] + (w_del as u64);
            let same = a[i] == b[j];
            let sub_cost = if same {
                v_prev[j]
            } else {
                v_prev[j] + (w_sub as u64)
            };
            let m1 = if ins_cost < del_cost {
                ins_cost
            } else {
                del_cost
            };
            let m2 = if m1 < sub_cost {
                m1
            } else {
                sub_cost
            };
            let cell = if m2 < lim {
                m2
            } else {
                lim
            };
            proof {
                lemma_capped_step(a@, b@, eq, (i + 1) as nat, (j + 1) as nat, wi, wd, ws, limit as nat);
                assert(a@[i as int] == a@[(i + 1) - 1]);
            }
            let ghost old_curr = v_curr@;
            v_curr.push(cell);
            proof {
                assert forall|k: int| 0 <= k <= j + 1 implies #[trigger] v_curr@[k] == nat_min(
                    edit_distance(a@, b@, eq, (i + 1) as nat, k as nat, wi, wd, ws),
                    limit as nat,
                ) by {
                    if k <= j {
                        assert(v_curr@[k] == old_curr[k]);
                    } else {
                        assert(v_curr@[k] == cell);
                        assert(k as nat == (j + 1) as nat);
                    }
                }
            }
            j += 1;
        }
        v_prev = v_curr;
        i += 1;
    }
    let res = v_prev[b_len];
    res as u32
}

/// Levenshtein distance computations with adjustable weights and a limit.
///
/// The strings are compared grapheme by grapheme. Returns the weighted edit
/// distance between the grapheme clusters of `a` and of `b`, or `limit` if
/// that is smaller.
pub fn levenshtein_limit_weight(
    a: &str,
    b: &str,
    limit: u32,
    w_ins: u32,
    w_del: u32,
    w_sub: u32,
) -> (r: u32)
    ensures
        r == nat_min(
            weighted_distance(
                spec_graphemes(a@),
                spec_graphemes(b@),
                seq_eq(),
                w_ins as nat,
                w_del as nat,
                w_sub as nat,
            ),
            limit as nat,
        ),
{
    let ga = graphemes(a);
    let gb = graphemes(b);
    let ghost (va, vb) = (ga@, gb@);
    let r = levenshtein_limit_weight_iter(ga, gb, limit, w_ins, w_del, w_sub);
    proof {
        lemma_distance_view(va, vb, w_ins as nat, w_del as nat, w_sub as nat);
    }
    r
}

/// The distance over graphemes equals the distance over their characters.
proof fn lemma_distance_view(a: Seq<Grapheme>, b: Seq<Grapheme>, w_ins: nat, w_del: nat, w_sub: nat)
    ensures
        weighted_distance(a, b, spec_eq_of::<Grapheme>(), w_ins, w_del, w_sub) == weighted_distance(
            a.map_values(|g: Grapheme| g.0@),
            b.map_values(|g: Grapheme| g.0@),
            seq_eq(),
            w_ins,
            w_del,
            w_sub,
        ),
{
    lemma_distance_view_at(a, b, a.len(), b.len(), w_ins, w_del, w_sub);
}

proof fn lemma_distance_view_at(
    a: Seq<Grapheme>,
    b: Seq<Grapheme>,
    i: nat,
    j: nat,
    w_ins: nat,
    w_del: nat,
    w_sub: nat,
)
    requires
        i <= a.len(),
        j <= b.len(),
    ensures
        edit_distance(a, b, spec_eq_of::<Grapheme>(), i, j, w_ins, w_del, w_sub) == edit_distance(
            a.map_values(|g: Grapheme| g.0@),
            b.map_values(|g: Grapheme| g.0@),
            seq_eq(),
            i,
            j,
            w_ins,
            w_del,
            w_sub,
        ),
    decreases i + j,
{
    if i > 0 && j > 0 {
        lemma_distance_view_at(a, b, i, (j - 1) as nat, w_ins, w_del, w_sub);
        lemma_distance_view_at(a, b, (i - 1) as nat, j, w_ins, w_del, w_sub);
        lemma_distance_view_at(a, b, (i - 1) as nat, (j - 1) as nat, w_ins, w_del, w_sub);
        let ma = a.map_values(|g: Grapheme| g.0@);
        let mb = b.map_values(|g: Grapheme| g.0@);
        assert(ma[i - 1] == a[i - 1].0@);
        assert(mb[j - 1] == b[j - 1].0@);
    }
}

/// Basic Levenshtein distance computation: all costs are 1 and there is no
/// limit.
///
/// Returns the edit distance between the grapheme clusters of `a` and `b`,
/// or `u32::MAX` if that is smaller.
#[inline]
pub fn levenshtein(a: &str, b: &str) -> (r: u32)
    ensures
        r == nat_min(
            weighted_distance(spec_graphemes(a@), spec_graphemes(b@), seq_eq(), 1, 1, 1),
            u32::MAX as nat,
        ),
{
    levenshtein_limit_weight(a, b, u32::MAX, 1, 1, 1)
}

/// Levenshtein distance computation with a limit: the distance, or `limit`
/// if that is smaller.
#[inline]
pub fn levenshtein_limit(a: &str, b: &str, limit: u32) -> (r: u32)
    ensures
        r == nat_min(
            weighted_distance(spec_graphemes(a@), spec_graphemes(b@), seq_eq(), 1, 1, 1),
            limit as nat,
        ),
{
    levenshtein_limit_weight(a, b, limit, 1, 1, 1)
}

/// Levenshtein distance computation with weights for inserts, deletes and
/// substitutions, and no limit.
#[inline]
pub fn levenshtein_weight(a: &str, b: &str, w_ins: u32, w_del: u32, w_sub: u32) -> (r: u32)
    ensures
        r == nat_min(
            weighted_distance(
                spec_graphemes(a@),
                spec_graphemes(b@),
                seq_eq(),
                w_ins as nat,
                w_del as nat,
                w_sub as nat,
            ),
            u32::MAX as nat,
        ),
{
    levenshtein_limit_weight(a, b, u32::MAX, w_ins, w_del, w_sub)
}

proof fn lemma_self_distance_at(x: Seq<Seq<char>>, i: nat, w_ins: nat, w_del: nat, w_sub: nat)
    requires
        i <= x.len(),
    ensures
        edit_distance(x, x, seq_eq(), i, i, w_ins, w_del, w_sub) == 0,
    decreases i,
{
    if i > 0 {
        lemma_self_distance_at(x, (i - 1) as nat, w_ins, w_del, w_sub);
    }
}

proof fn lemma_symmetric_at(
    a: Seq<Seq<char>>,
    b: Seq<Seq<char>>,
    i: nat,
    j: nat,
    w: nat,
    w_sub: nat,
)
    ensures
        edit_distance(a, b, seq_eq(), i, j, w, w, w_sub) == edit_distance(
            b,
            a,
            seq_eq(),
            j,
            i,
            w,
            w,
            w_sub,
        ),
    decreases i + j,
{
    if i > 0 && j > 0 {
        lemma_symmetric_at(a, b, i, (j - 1) as nat, w, w_sub);
        lemma_symmetric_at(a, b, (i - 1) as nat, j, w, w_sub);
        lemma_symmetric_at(a, b, (i - 1) as nat, (j - 1) as nat, w, w_sub);
    }
}

/// A string is at distance zero from itself, whatever the weights.
pub proof fn law_distance_to_self(s: Seq<char>, w_ins: nat, w_del: nat, w_sub: nat)
    ensures
        weighted_distance(spec_graphemes(s), spec_graphemes(s), seq_eq(), w_ins, w_del, w_sub)
            == 0,
{
    lemma_self_distance_at(spec_graphemes(s), spec_graphemes(s).len(), w_ins, w_del, w_sub);
}

/// With equal insertion and deletion costs the distance does not depend on
/// the order of its two arguments; in particular the plain Levenshtein
/// distance is symmetric.
pub proof fn law_distance_symmetric(a: Seq<char>, b: Seq<char>, w: nat, w_sub: nat)
    ensures
        weighted_distance(spec_graphemes(a), spec_graphemes(b), seq_eq(), w, w, w_sub)
            == weighted_distance(spec_graphemes(b), spec_graphemes(a), seq_eq(), w, w, w_sub),
{
    lemma_symmetric_at(
        spec_graphemes(a),
        spec_graphemes(b),
        spec_graphemes(a).len(),
        spec_graphemes(b).len(),
        w,
        w_sub,
    );
}

/// Against an empty string the distance is the cost of inserting (or
/// deleting) every grapheme of the other one.
pub proof fn law_distance_to_empty(s: Seq<char>, w_ins: nat, w_del: nat, w_sub: nat)
    ensures
        weighted_distance(spec_graphemes(s), Seq::empty(), seq_eq(), w_ins, w_del, w_sub)
            == spec_graphemes(s).len() * w_del,
        weighted_distance(Seq::empty(), spec_graphemes(s), seq_eq(), w_ins, w_del, w_sub)
            == spec_graphemes(s).len() * w_ins,
{
    lemma_edges(
        spec_graphemes(s),
        Seq::<Seq<char>>::empty(),
        seq_eq(),
        spec_graphemes(s).len(),
        0,
        w_ins,
        w_del,
        w_sub,
    );
    lemma_edges(
        Seq::<Seq<char>>::empty(),
        spec_graphemes(s),
        seq_eq(),
        0,
        spec_graphemes(s).len(),
        w_ins,
        w_del,
        w_sub,
    );
}

/// No limited distance exceeds its limit, and a limit at least as large as
/// the distance does not change it.
pub proof fn law_limit_caps(a: Seq<char>, b: Seq<char>, limit: nat, w_ins: nat, w_del: nat, w_sub: nat)
    ensures
        nat_min(
            weighted_distance(spec_graphemes(a), spec_graphemes(b), seq_eq(), w_ins, w_del, w_sub),
            limit,
        ) <= limit,
        weighted_distance(spec_graphemes(a), spec_graphemes(b), seq_eq(), w_ins, w_del, w_sub)
            <= limit ==> nat_min(
            weighted_distance(spec_graphemes(a), spec_graphemes(b), seq_eq(), w_ins, w_del, w_sub),
            limit,
        ) == weighted_distance(
            spec_graphemes(a),
            spec_graphemes(b),
            seq_eq(),
            w_ins,
            w_del,
            w_sub,
        ),
{
}

} // verus!
