//! Building the texts of error reasons.
use vstd::prelude::*;
use vstd::string::StringExecFns;

verus! {

/// The character of a digit below 16 (lowercase for 10 to 15).
pub open spec fn digit_char(d: nat) -> char {
    if d < 10 {
        (48 + d) as char
    } else {
        (87 + d) as char
    }
}

/// `v` in decimal, without leading zeros.
pub open spec fn decimal_digits(v: nat) -> Seq<char>
    decreases v,
{
    if v < 10 {
        seq![digit_char(v)]
    } else {
        decimal_digits(v / 10).push(digit_char(v % 10))
    }
}

/// `v` in lowercase hexadecimal, without leading zeros.
pub open spec fn hex_digits(v: nat) -> Seq<char>
    decreases v,
{
    if v < 16 {
        seq![digit_char(v)]
    } else {
        hex_digits(v / 16).push(digit_char(v % 16))
    }
}

/// `v` in decimal, with `u64::to_string`.
/// Trusted: `Display` for integers writes the decimal digits without leading
/// zeros, as the standard library documents.
#[verifier::external_body]
pub(crate) fn decimal_text(v: u64) -> (s: String)
    ensures
        s@ == decimal_digits(v as nat),
{
    v.to_string()
}

/// `v` in hexadecimal, with the `{:x}` format.
/// Trusted: `LowerHex` writes the lowercase hexadecimal digits without
/// leading zeros, as the standard library documents.
#[verifier::external_body]
pub(crate) fn hex_text(v: u64) -> (s: String)
    ensures
        s@ == hex_digits(v as nat),
{
    format!("{:x}", v)
}

/// `prefix` followed by `tail`.
pub fn join(prefix: &str, tail: &String) -> (s: String)
    ensures
        s@ == prefix@ + tail@,
{
    let s = String::from_str(prefix);
    s.concat(tail.as_str())
}

/// A string holding `s`.
pub fn text(s: &str) -> (out: String)
    ensures
        out@ == s@,
{
    String::from_str(s)
}

} // verus!
