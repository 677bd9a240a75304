//! The character-level scanners, taken from `nom`, and what they do.
use nom::Parser;
use vstd::prelude::*;

use crate::errors::ParseError;

verus! {

/// What an executable parser returns: the input left over and the value read.
pub type PResult<'a, T> = Result<(&'a str, T), ParseError>;

/// What a parser does, stated on the characters of its input: the characters
/// left over and the value read.
pub type SRes<V> = Result<(Seq<char>, V), ParseError>;

/// An executable result, seen as characters and values.
pub open spec fn res_view<'a, T: View>(r: PResult<'a, T>) -> SRes<T::V> {
    match r {
        Ok((rest, v)) => Ok((rest@, v@)),
        Err(e) => Err(e),
    }
}

/// Length of the longest prefix of `s` whose characters all satisfy `p`.
pub open spec fn prefix_len(s: Seq<char>, p: spec_fn(char) -> bool) -> nat
    decreases s.len(),
{
    if s.len() == 0 || !p(s[0]) {
        0
    } else {
        1 + prefix_len(s.drop_first(), p)
    }
}

pub proof fn lemma_prefix_len(s: Seq<char>, p: spec_fn(char) -> bool)
    ensures
        prefix_len(s, p) <= s.len(),
        forall|i: int| 0 <= i < prefix_len(s, p) ==> #[trigger] p(s[i]),
        prefix_len(s, p) < s.len() ==> !p(s[prefix_len(s, p) as int]),
    decreases s.len(),
{
    if s.len() > 0 && p(s[0]) {
        lemma_prefix_len(s.drop_first(), p);
        assert forall|i: int| 0 <= i < prefix_len(s, p) implies #[trigger] p(s[i]) by {
            if i > 0 {
                assert(s[i] == s.drop_first()[i - 1]);
            }
        }
    }
}

pub open spec fn is_space(c: char) -> bool {
    c == ' ' || c == '\t' || c == '\r' || c == '\n'
}

pub open spec fn is_digit(c: char) -> bool {
    '0' <= c && c <= '9'
}

pub open spec fn is_line_end(c: char) -> bool {
    c == '\r' || c == '\n'
}

/// The value of a string of decimal digits.
pub open spec fn decimal(d: Seq<char>) -> nat
    decreases d.len(),
{
    if d.len() == 0 {
        0
    } else {
        decimal(d.drop_last()) * 10 + ((d.last() as int - '0' as int) as nat)
    }
}

/// `char(c)`: one character equal to `c`.
pub open spec fn spec_char(s: Seq<char>, c: char) -> SRes<char> {
    if s.len() > 0 && s[0] == c {
        Ok((s.drop_first(), c))
    } else {
        Err(ParseError::Error)
    }
}

/// `tag(t)`: the characters of `t`, in order.
pub open spec fn spec_tag(s: Seq<char>, t: Seq<char>) -> SRes<Seq<char>> {
    if t.len() <= s.len() && s.take(t.len() as int) == t {
        Ok((s.skip(t.len() as int), t))
    } else {
        Err(ParseError::Error)
    }
}

/// `multispace0`: spaces, tabs, carriage returns and line feeds, as many as there are.
pub open spec fn spec_multispace0(s: Seq<char>) -> SRes<Seq<char>> {
    let n = prefix_len(s, |c: char| is_space(c));
    Ok((s.skip(n as int), s.take(n as int)))
}

/// `not_line_ending`: everything up to the end of the line. A carriage return
/// that is not followed by a line feed is refused.
pub open spec fn spec_not_line_ending(s: Seq<char>) -> SRes<Seq<char>> {
    let n = prefix_len(s, |c: char| !is_line_end(c));
    if n == s.len() || s[n as int] == '\n' || (n + 1 < s.len() && s[(n + 1) as int] == '\n') {
        Ok((s.skip(n as int), s.take(n as int)))
    } else {
        Err(ParseError::Error)
    }
}

/// `take_till1(|c| c == '=')`: at least one character, up to the first `=`.
pub open spec fn spec_take_till_equals(s: Seq<char>) -> SRes<Seq<char>> {
    let n = prefix_len(s, |c: char| c != '=');
    if n == 0 {
        Err(ParseError::Error)
    } else {
        Ok((s.skip(n as int), s.take(n as int)))
    }
}

/// The unsigned decimal number at the start of `s`, if it does not exceed `max`:
/// all the leading digits are read.
pub open spec fn spec_unsigned(s: Seq<char>, max: nat) -> SRes<nat> {
    let n = prefix_len(s, |c: char| is_digit(c));
    if n == 0 || decimal(s.take(n as int)) > max {
        Err(ParseError::Error)
    } else {
        Ok((s.skip(n as int), decimal(s.take(n as int))))
    }
}

/// `u8`: an unsigned decimal number below 256.
pub open spec fn spec_u8(s: Seq<char>) -> SRes<u8> {
    match spec_unsigned(s, 255) {
        Ok((r, v)) => Ok((r, v as u8)),
        Err(e) => Err(e),
    }
}

/// `u64`: an unsigned decimal number that fits in 64 bits.
pub open spec fn spec_u64(s: Seq<char>) -> SRes<u64> {
    match spec_unsigned(s, u64::MAX as nat) {
        Ok((r, v)) => Ok((r, v as u64)),
        Err(e) => Err(e),
    }
}

/// Number of decimal digits starting at position `i` of `s`.
pub open spec fn digits_at(s: Seq<char>, i: int) -> nat {
    prefix_len(s.skip(i), |c: char| is_digit(c))
}

/// Length of the number in the usual decimal notation at the start of `s`:
/// an optional sign, digits with an optional fraction (or a fraction alone),
/// and an optional exponent. An exponent marker with no digits after it is a `Failure`.
pub open spec fn spec_decimal_notation(s: Seq<char>) -> Result<nat, ParseError> {
    let a: int = if s.len() > 0 && (s[0] == '+' || s[0] == '-') { 1 } else { 0 };
    let d = digits_at(s, a);
    let mantissa: Option<int> = if d > 0 {
        let p = a + d;
        if p < s.len() && s[p] == '.' {
            Some(p + 1 + digits_at(s, p + 1))
        } else {
            Some(p)
        }
    } else if a < s.len() && s[a] == '.' && digits_at(s, a + 1) > 0 {
        Some(a + 1 + digits_at(s, a + 1))
    } else {
        None
    };
    match mantissa {
        None => Err(ParseError::Error),
        Some(m) => if m < s.len() && (s[m] == 'e' || s[m] == 'E') {
            let b = if m + 1 < s.len() && (s[m + 1] == '+' || s[m + 1] == '-') {
                m + 2
            } else {
                m + 1
            };
            if digits_at(s, b) > 0 {
                Ok((b + digits_at(s, b)) as nat)
            } else {
                Err(ParseError::Failure)
            }
        } else {
            Ok(m as nat)
        },
    }
}

pub open spec fn ascii_lower(c: char) -> char {
    if 'A' <= c && c <= 'Z' {
        ((c as u32) + 32) as char
    } else {
        c
    }
}

/// `s` starts with the lower-case word `w`, ignoring case.
pub open spec fn starts_with_no_case(s: Seq<char>, w: Seq<char>) -> bool {
    w.len() <= s.len() && forall|i: int| 0 <= i < w.len() ==> ascii_lower(#[trigger] s[i]) == w[i]
}

/// Length of the floating-point number at the start of `s`, as `double` reads it:
/// decimal notation, else `nan`, `infinity` or `inf` in any case.
pub open spec fn spec_float_len(s: Seq<char>) -> Result<nat, ParseError> {
    match spec_decimal_notation(s) {
        Err(ParseError::Error) => if starts_with_no_case(s, seq!['n', 'a', 'n']) {
            Ok(3)
        } else if starts_with_no_case(s, seq!['i', 'n', 'f', 'i', 'n', 'i', 't', 'y']) {
            Ok(8)
        } else if starts_with_no_case(s, seq!['i', 'n', 'f']) {
            Ok(3)
        } else {
            Err(ParseError::Error)
        },
        r => r,
    }
}

/// The text of the floating-point number at the start of `s`.
pub open spec fn spec_float(s: Seq<char>) -> SRes<Seq<char>> {
    match spec_float_len(s) {
        Ok(n) => Ok((s.skip(n as int), s.take(n as int))),
        Err(e) => Err(e),
    }
}

/// Whether two texts are the same: `b` is a prefix of `a` and nothing of `a` is left.
pub fn text_eq(a: &str, b: &str) -> (r: bool)
    ensures
        r == (a@ == b@),
{
    match scan_tag(a, b) {
        Ok((rest, _)) => {
            proof {
                if rest@.len() == 0 {
                    assert(a@ =~= a@.take(b@.len() as int));
                }
            }
            rest.is_empty()
        },
        Err(_) => {
            proof {
                if a@ == b@ {
                    assert(a@.take(b@.len() as int) =~= b@);
                }
            }
            false
        },
    }
}

/// Whether `c` ends a field name (`c` is `=`).
pub fn is_equals_sign(c: char) -> (b: bool)
    ensures
        b == (c == '='),
{
    c == '='
}

/// `nom::character::complete::char`: one character equal to `c`.
#[verifier::external_body]
pub fn scan_char<'a>(input: &'a str, c: char) -> (r: PResult<'a, char>)
    ensures
        res_view(r) == spec_char(input@, c),
{
    match nom::character::complete::char::<&'a str, ()>(c)(input) {
        Ok((rest, v)) => Ok((rest, v)),
        Err(nom::Err::Failure(_)) => Err(ParseError::Failure),
        Err(_) => Err(ParseError::Error),
    }
}

/// `nom::bytes::complete::tag`: the characters of `t`; the value is the matched part of `input`.
#[verifier::external_body]
pub fn scan_tag<'a>(input: &'a str, t: &str) -> (r: PResult<'a, &'a str>)
    ensures
        res_view(r) == spec_tag(input@, t@),
{
    match nom::bytes::complete::tag::<&str, &'a str, ()>(t)(input) {
        Ok((rest, v)) => Ok((rest, v)),
        Err(nom::Err::Failure(_)) => Err(ParseError::Failure),
        Err(_) => Err(ParseError::Error),
    }
}

/// `nom::character::complete::multispace0`: leading spaces, tabs, carriage returns and line feeds.
#[verifier::external_body]
pub fn scan_multispace0<'a>(input: &'a str) -> (r: PResult<'a, &'a str>)
    ensures
        res_view(r) == spec_multispace0(input@),
{
    match nom::character::complete::multispace0::<&'a str, ()>(input) {
        Ok((rest, v)) => Ok((rest, v)),
        Err(nom::Err::Failure(_)) => Err(ParseError::Failure),
        Err(_) => Err(ParseError::Error),
    }
}

/// `nom::character::complete::not_line_ending`: the rest of the line.
#[verifier::external_body]
pub fn scan_not_line_ending<'a>(input: &'a str) -> (r: PResult<'a, &'a str>)
    ensures
        res_view(r) == spec_not_line_ending(input@),
{
    match nom::character::complete::not_line_ending::<&'a str, ()>(input) {
        Ok((rest, v)) => Ok((rest, v)),
        Err(nom::Err::Failure(_)) => Err(ParseError::Failure),
        Err(_) => Err(ParseError::Error),
    }
}

/// `nom::bytes::complete::take_till1`, stopping at `=`: a non-empty field name.
#[verifier::external_body]
pub fn scan_take_till_equals<'a>(input: &'a str) -> (r: PResult<'a, &'a str>)
    ensures
        res_view(r) == spec_take_till_equals(input@),
{
    match nom::bytes::complete::take_till1::<_, &'a str, ()>(|c: char| is_equals_sign(c))(input) {
        Ok((rest, v)) => Ok((rest, v)),
        Err(nom::Err::Failure(_)) => Err(ParseError::Failure),
        Err(_) => Err(ParseError::Error),
    }
}

/// `nom::character::complete::u8`: an unsigned decimal number below 256.
#[verifier::external_body]
pub fn scan_u8<'a>(input: &'a str) -> (r: PResult<'a, u8>)
    ensures
        res_view(r) == spec_u8(input@),
{
    match nom::character::complete::u8::<&'a str, ()>(input) {
        Ok((rest, v)) => Ok((rest, v)),
        Err(nom::Err::Failure(_)) => Err(ParseError::Failure),
        Err(_) => Err(ParseError::Error),
    }
}

/// `nom::character::complete::u64`: an unsigned decimal number that fits in 64 bits.
#[verifier::external_body]
pub fn scan_u64<'a>(input: &'a str) -> (r: PResult<'a, u64>)
    ensures
        res_view(r) == spec_u64(input@),
{
    match nom::character::complete::u64::<&'a str, ()>(input) {
        Ok((rest, v)) => Ok((rest, v)),
        Err(nom::Err::Failure(_)) => Err(ParseError::Failure),
        Err(_) => Err(ParseError::Error),
    }
}

/// `nom::number::complete::recognize_float_or_exceptions`, the part of `double` that
/// finds the number: its value is the text of the number, which `double` then converts.
#[verifier::external_body]
pub fn scan_float<'a>(input: &'a str) -> (r: PResult<'a, &'a str>)
    ensures
        res_view(r) == spec_float(input@),
{
    match nom::number::complete::recognize_float_or_exceptions::<&'a str, ()>(input) {
        Ok((rest, v)) => Ok((rest, v)),
        Err(nom::Err::Failure(_)) => Err(ParseError::Failure),
        Err(_) => Err(ParseError::Error),
    }
}

} // verus!
