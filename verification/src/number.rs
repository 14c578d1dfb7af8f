//! Reading a JSON number out of a text.

use vstd::prelude::*;

verus! {

/// What a text is when it is read as one JSON number.
#[derive(Debug, Clone, Copy, PartialEq, Eq, Structural)]
pub enum ParsedNumber {
    /// An integer from zero to `u64::MAX`.
    Unsigned(u64),
    /// A number that is no such integer: a negative one, one with a fraction
    /// or an exponent, or one beyond `u64::MAX`.
    NotUnsigned,
    /// No JSON number at all.
    Malformed,
}

/// What `serde_json` makes of `text` when it reads the whole of it as one
/// JSON number. Nothing is said here of what that is for a given text: the
/// grammar of numbers and the limits of the number types are `serde_json`'s.
pub uninterp spec fn json_number(text: Seq<char>) -> ParsedNumber;

/// Reads `text` as one JSON number.
///
/// Trusted, not proved. The body calls `serde_json`: `FromStr for Number`
/// through `str::parse`, which accepts a text only if one JSON number fills
/// it from start to end, and then `Number::as_u64`, which gives a value
/// exactly for the numbers that are held as unsigned integers. The contract
/// claims one thing: that the outcome depends on the characters of `text`
/// and on nothing else. It calls that outcome [`json_number`].
#[verifier::external_body]
pub(crate) fn parse_json_number(text: &str) -> (parsed: ParsedNumber)
    ensures
        parsed == json_number(text@),
{
    match text.parse::<serde_json::Number>() {
        Ok(number) => match number.as_u64() {
            Some(value) => ParsedNumber::Unsigned(value),
            None => ParsedNumber::NotUnsigned,
        },
        Err(_) => ParsedNumber::Malformed,
    }
}

} // verus!
