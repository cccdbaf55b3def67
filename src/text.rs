use vstd::prelude::*;

verus! {

/// The character of a decimal digit.
pub open spec fn digit_char(d: int) -> char {
    seq!['0', '1', '2', '3', '4', '5', '6', '7', '8', '9'][d]
}

/// The decimal digits of a number, without sign or leading zeros.
pub open spec fn decimal_text(n: nat) -> Seq<char>
    decreases n,
{
    if n < 10 {
        seq![digit_char(n as int)]
    } else {
        decimal_text(n / 10).push(digit_char((n % 10) as int))
    }
}

/// Whether a character is an ASCII decimal digit.
pub open spec fn is_digit(c: char) -> bool {
    '0' <= c && c <= '9'
}

/// The value of a sequence of decimal digits.
pub open spec fn digits_value(s: Seq<char>) -> int
    decreases s.len(),
{
    if s.len() == 0 {
        0
    } else {
        digits_value(s.drop_last()) * 10 + (s.last() as int - '0' as int)
    }
}

/// An unsigned number written in decimal: an optional `+`, then one or more
/// digits, with a value of at most `max`.
pub open spec fn parse_decimal(s: Seq<char>, max: int) -> Option<int> {
    let body = if s.len() > 0 && s[0] == '+' {
        s.drop_first()
    } else {
        s
    };
    if body.len() > 0 && (forall|i: int| 0 <= i < body.len() ==> is_digit(#[trigger] body[i])) && digits_value(body)
        <= max {
        Some(digits_value(body))
    } else {
        None
    }
}

/// An unsigned 64-bit number written in decimal.
pub open spec fn parse_u64_spec(s: Seq<char>) -> Option<u64> {
    match parse_decimal(s, u64::MAX as int) {
        Some(v) => Some(v as u64),
        None => None,
    }
}

/// An unsigned 128-bit number written in decimal.
pub open spec fn parse_u128_spec(s: Seq<char>) -> Option<u128> {
    match parse_decimal(s, u128::MAX as int) {
        Some(v) => Some(v as u128),
        None => None,
    }
}

/// The text with leading and trailing whitespace removed, as `str::trim`
/// gives it.
pub uninterp spec fn trimmed(s: Seq<char>) -> Seq<char>;

/// The decimal text of a number.
///
/// Relies on `u128::to_string` (its `Display`): the decimal digits of the
/// value, without sign or leading zeros.
#[verifier::external_body]
pub(crate) fn decimal(n: u128) -> (r: String)
    ensures
        r@ == decimal_text(n as nat),
{
    n.to_string()
}

/// Reads an unsigned 64-bit number from its decimal text.
///
/// Relies on `<u64 as FromStr>::from_str`: an optional `+` followed by one or
/// more ASCII digits, failing on anything else and on overflow.
#[verifier::external_body]
pub(crate) fn parse_u64(s: &str) -> (r: Option<u64>)
    ensures
        r == parse_u64_spec(s@),
{
    s.parse::<u64>().ok()
}

/// Reads an unsigned 128-bit number from its decimal text.
///
/// Relies on `<u128 as FromStr>::from_str`: an optional `+` followed by one or
/// more ASCII digits, failing on anything else and on overflow.
#[verifier::external_body]
pub(crate) fn parse_u128(s: &str) -> (r: Option<u128>)
    ensures
        r == parse_u128_spec(s@),
{
    s.parse::<u128>().ok()
}

/// The text without leading and trailing whitespace.
///
/// Relies on `str::trim`, whose result depends on the text alone.
#[verifier::external_body]
pub(crate) fn trim_text(s: &str) -> (r: &str)
    ensures
        r@ == trimmed(s@),
{
    s.trim()
}

/// Whether two strings hold the same characters.
pub fn same_text(a: &str, b: &str) -> (r: bool)
    ensures
        r == (a@ == b@),
{
    let a_owned = a.to_owned();
    let b_owned = b.to_owned();
    a_owned == b_owned
}

} // verus!
