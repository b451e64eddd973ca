//! Texts and numbers written out as JSON, which `serde_json` does.

use vstd::prelude::*;
use vstd::string::{StrSliceExecFns, StringExecFns};

verus! {

/// The failure that `serde_json` reports.
#[verifier::external_type_specification]
#[verifier::external_body]
pub struct ExJsonError(serde_json::Error);

/// The JSON that `serde_json::to_string` writes for a text: the text
/// between quotes, with what JSON cannot hold as it is written in escapes;
/// `None` where it reports a failure.
pub uninterp spec fn json_of_text(text: Seq<char>) -> Option<Seq<char>>;

/// The JSON that `serde_json::to_string` writes for a whole number: its
/// decimal text; `None` where it reports a failure.
pub uninterp spec fn json_of_number(n: i64) -> Option<Seq<char>>;

/// The character that stands for a digit.
pub open spec fn digit_char(d: int) -> char {
    if d == 0 {
        '0'
    } else if d == 1 {
        '1'
    } else if d == 2 {
        '2'
    } else if d == 3 {
        '3'
    } else if d == 4 {
        '4'
    } else if d == 5 {
        '5'
    } else if d == 6 {
        '6'
    } else if d == 7 {
        '7'
    } else if d == 8 {
        '8'
    } else {
        '9'
    }
}

/// The digits of a number that is not negative, the highest first and
/// without a zero before them.
pub open spec fn digits(n: nat) -> Seq<char>
    decreases n,
{
    if n < 10 {
        seq![digit_char(n as int)]
    } else {
        digits(n / 10).push(digit_char((n % 10) as int))
    }
}

/// The decimal text of a whole number: its digits, behind a minus sign
/// where it is negative.
pub open spec fn decimal_text(n: int) -> Seq<char> {
    if n < 0 {
        seq!['-'] + digits((-n) as nat)
    } else {
        digits(n as nat)
    }
}

/// Writes a text out as JSON with `serde_json::to_string`: the result's
/// text is what [`json_of_text`] names.
#[verifier::external_body]
pub(crate) fn text_to_json(text: &str) -> (r: Result<String, serde_json::Error>)
    ensures
        r is Ok == json_of_text(text@) is Some,
        r matches Ok(s) ==> json_of_text(text@) == Some(s@),
{
    serde_json::to_string(text)
}

/// Writes a whole number out as JSON with `serde_json::to_string`: the
/// result's text is what [`json_of_number`] names, and it is the decimal
/// text of the number.
#[verifier::external_body]
pub(crate) fn number_to_json(n: i64) -> (r: Result<String, serde_json::Error>)
    ensures
        r is Ok == json_of_number(n) is Some,
        r matches Ok(s) ==> json_of_number(n) == Some(s@),
        r matches Ok(s) ==> s@ == decimal_text(n as int),
{
    serde_json::to_string(&n)
}

/// The index of the first character of `s` at `from` or behind it that is
/// no quotation mark; the length of `s` where there is none.
pub open spec fn quotes_end(s: Seq<char>, from: int) -> int
    decreases s.len() - from,
{
    if from < 0 || from >= s.len() {
        s.len() as int
    } else if s[from] != '"' {
        from
    } else {
        quotes_end(s, from + 1)
    }
}

/// The index at which the quotation marks begin that `s` has right before
/// `until`; `until` itself where it has none there.
pub open spec fn quotes_start(s: Seq<char>, until: int) -> int
    decreases until,
{
    if until <= 0 || until > s.len() {
        until
    } else if s[until - 1] != '"' {
        until
    } else {
        quotes_start(s, until - 1)
    }
}

/// `s` without the quotation marks it begins with and the ones it ends with.
pub open spec fn unquoted(s: Seq<char>) -> Seq<char> {
    let from = quotes_end(s, 0);
    if from >= s.len() {
        Seq::empty()
    } else {
        s.subrange(from, quotes_start(s, s.len() as int))
    }
}

/// A text without the quotation marks it begins with and the ones it ends with.
pub fn trim_quotes(text: &str) -> (r: String)
    ensures
        r@ == unquoted(text@),
{
    let n = text.unicode_len();
    let mut from: usize = 0;
    while from < n && text.get_char(from) == '"'
        invariant
            from <= n,
            n == text@.len(),
            quotes_end(text@, 0) == quotes_end(text@, from as int),
        decreases n - from,
    {
        from += 1;
    }
    if from >= n {
        return String::new();
    }
    let mut until: usize = n;
    while until > from + 1 && text.get_char(until - 1) == '"'
        invariant
            from < until <= n,
            n == text@.len(),
            text@[from as int] != '"',
            quotes_start(text@, n as int) == quotes_start(text@, until as int),
        decreases until,
    {
        until -= 1;
    }
    String::from_str(text.substring_char(from, until))
}

} // verus!
