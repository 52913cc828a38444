//! Decimal numbers: reading unsigned integers out of text with `str::parse`,
//! and writing them back as decimal digits.

use std::num::ParseIntError;
use vstd::prelude::*;

verus! {

#[verifier::external_type_specification]
#[verifier::external_body]
pub struct ExParseIntError(std::num::ParseIntError);

/// `ParseIntError::clone`: the derived clone copies the error kind it
/// holds, so the clone is the same error.
pub assume_specification[ <std::num::ParseIntError as Clone>::clone ](e: &std::num::ParseIntError) -> (r:
    std::num::ParseIntError)
    ensures
        r == *e,
;

/// An ASCII decimal digit.
pub open spec fn is_digit(c: char) -> bool {
    '0' <= c && c <= '9'
}

/// The value of one decimal digit.
pub open spec fn digit_val(c: char) -> nat {
    (c as int - '0' as int) as nat
}

/// Whether every character of `s` is a decimal digit.
pub open spec fn all_digits(s: Seq<char>) -> bool {
    forall|i: int| 0 <= i < s.len() ==> is_digit(#[trigger] s[i])
}

/// The number written by the decimal digits `s`, most significant first.
pub open spec fn digits_value(s: Seq<char>) -> nat
    decreases s.len(),
{
    if s.len() == 0 {
        0
    } else {
        digits_value(s.drop_last()) * 10 + digit_val(s.last())
    }
}

/// The number that `str::parse` reads from `s` for an unsigned integer type
/// wide enough to hold it: an optional `+` followed by at least one decimal
/// digit. `None` for any other text.
pub open spec fn unsigned_value(s: Seq<char>) -> Option<nat> {
    let t = if s.len() > 0 && s[0] == '+' {
        s.drop_first()
    } else {
        s
    };
    if t.len() > 0 && all_digits(t) {
        Some(digits_value(t))
    } else {
        None
    }
}

/// `str::parse::<u8>`.
///
/// Trusted: as the standard library documents for `from_str_radix`, the text
/// is an optional `+` followed by decimal digits only, and an error comes
/// back exactly when it is not, or when the value does not fit.
#[verifier::external_body]
pub(crate) fn parse_u8(s: &str) -> (r: Result<u8, ParseIntError>)
    ensures
        r is Ok <==> (unsigned_value(s@) is Some && unsigned_value(s@)->0 <= u8::MAX),
        r matches Ok(v) ==> unsigned_value(s@) == Some(v as nat),
{
    s.parse::<u8>()
}

/// `str::parse::<u16>`.
///
/// Trusted: as for [`parse_u8`], with the bound of `u16`.
#[verifier::external_body]
pub(crate) fn parse_u16(s: &str) -> (r: Result<u16, ParseIntError>)
    ensures
        r is Ok <==> (unsigned_value(s@) is Some && unsigned_value(s@)->0 <= u16::MAX),
        r matches Ok(v) ==> unsigned_value(s@) == Some(v as nat),
{
    s.parse::<u16>()
}

/// `str::parse::<u32>`.
///
/// Trusted: as for [`parse_u8`], with the bound of `u32`.
#[verifier::external_body]
pub(crate) fn parse_u32(s: &str) -> (r: Result<u32, ParseIntError>)
    ensures
        r is Ok <==> (unsigned_value(s@) is Some && unsigned_value(s@)->0 <= u32::MAX),
        r matches Ok(v) ==> unsigned_value(s@) == Some(v as nat),
{
    s.parse::<u32>()
}

/// `str::parse::<usize>`.
///
/// Trusted: as for [`parse_u8`], with the bound of `usize`.
#[verifier::external_body]
pub(crate) fn parse_usize(s: &str) -> (r: Result<usize, ParseIntError>)
    ensures
        r is Ok <==> (unsigned_value(s@) is Some && unsigned_value(s@)->0 <= usize::MAX),
        r matches Ok(v) ==> unsigned_value(s@) == Some(v as nat),
{
    s.parse::<usize>()
}

/// The message of a `ParseIntError`, as its `Display` implementation writes
/// it.
pub uninterp spec fn parse_int_error_text(e: ParseIntError) -> Seq<char>;

/// `ParseIntError::to_string`.
///
/// Trusted: the text is what `parse_int_error_text` names.
#[verifier::external_body]
pub(crate) fn parse_int_error_message(e: &ParseIntError) -> (r: String)
    ensures
        r@ == parse_int_error_text(*e),
{
    e.to_string()
}

/// The character of a decimal digit.
pub open spec fn digit_char(d: nat) -> char {
    if d == 0 {
        '0'
    } else if d == 1 {
        '1'
    } else if d == 2 {
        '2'
    } else if d == 3 {
        '3'
    } else if d == 4 {
        '4'
    } else if d == 5 {
        '5'
    } else if d == 6 {
        '6'
    } else if d == 7 {
        '7'
    } else if d == 8 {
        '8'
    } else {
        '9'
    }
}

/// `n` written in decimal, without leading zeros.
pub open spec fn decimal(n: nat) -> Seq<char>
    decreases n,
{
    if n < 10 {
        seq![digit_char(n)]
    } else {
        decimal(n / 10).push(digit_char(n % 10))
    }
}

proof fn lemma_digit_char(d: nat)
    requires
        d < 10,
    ensures
        is_digit(digit_char(d)),
        digit_val(digit_char(d)) == d,
{
}

/// Writing a number in decimal and reading it back gives the number.
pub proof fn lemma_decimal_reads_back(n: nat)
    ensures
        decimal(n).len() > 0,
        decimal(n)[0] != '+',
        all_digits(decimal(n)),
        digits_value(decimal(n)) == n,
        unsigned_value(decimal(n)) == Some(n),
    decreases n,
{
    if n < 10 {
        lemma_digit_char(n);
        assert(decimal(n).drop_last() =~= Seq::<char>::empty());
        assert(digits_value(Seq::<char>::empty()) == 0);
        assert(decimal(n).last() == digit_char(n));
    } else {
        lemma_decimal_reads_back(n / 10);
        lemma_digit_char(n % 10);
        let d = decimal(n);
        assert(d.drop_last() =~= decimal(n / 10));
        assert(d[0] == decimal(n / 10)[0]);
        assert(d.last() == digit_char(n % 10));
        assert((n / 10) * 10 + n % 10 == n) by (nonlinear_arith);
        assert forall|i: int| 0 <= i < d.len() implies is_digit(#[trigger] d[i]) by {
            if i < d.len() - 1 {
                assert(d[i] == decimal(n / 10)[i]);
            }
        }
    }
}

fn digit_to_char(d: u64) -> (c: char)
    requires
        d < 10,
    ensures
        c == digit_char(d as nat),
{
    match d {
        0 => '0',
        1 => '1',
        2 => '2',
        3 => '3',
        4 => '4',
        5 => '5',
        6 => '6',
        7 => '7',
        8 => '8',
        _ => '9',
    }
}

/// `n` written in decimal, as `to_string` writes an unsigned integer.
pub fn decimal_string(n: u64) -> (r: String)
    ensures
        r@ == decimal(n as nat),
    decreases n,
{
    if n < 10 {
        let mut s = String::new();
        crate::text::push_char(&mut s, digit_to_char(n));
        assert(s@ =~= decimal(n as nat));
        s
    } else {
        let mut s = decimal_string(n / 10);
        crate::text::push_char(&mut s, digit_to_char(n % 10));
        s
    }
}

} // verus!
