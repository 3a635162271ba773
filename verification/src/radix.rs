//! Reading unsigned numbers written in a given radix.
use vstd::prelude::*;

verus! {

/// The value of `c` as a digit, for radices up to 36: `0-9`, then `a-z` or
/// `A-Z` for ten and above.
pub open spec fn digit_value(c: char) -> Option<nat> {
    if '0' <= c && c <= '9' {
        Some((c as nat - '0' as nat) as nat)
    } else if 'a' <= c && c <= 'z' {
        Some((c as nat - 'a' as nat + 10) as nat)
    } else if 'A' <= c && c <= 'Z' {
        Some((c as nat - 'A' as nat + 10) as nat)
    } else {
        None
    }
}

/// True when every character of `s` is a digit of `radix`.
pub open spec fn all_digits(s: Seq<char>, radix: nat) -> bool {
    forall|i: int|
        0 <= i < s.len() ==> match #[trigger] digit_value(s[i]) {
            Some(d) => d < radix,
            None => false,
        }
}

/// The number written by the digits `s`, most significant first.
pub open spec fn digits_value(s: Seq<char>, radix: nat) -> nat
    decreases s.len(),
{
    if s.len() == 0 {
        0
    } else {
        digits_value(s.drop_last(), radix) * radix + match digit_value(s.last()) {
            Some(d) => d,
            None => 0,
        }
    }
}

/// What a text denotes as an unsigned number: an optional `+`, then one or
/// more digits of `radix` and nothing else.
pub open spec fn parse_radix(s: Seq<char>, radix: nat) -> Option<nat> {
    let body = if s.len() > 0 && s[0] == '+' {
        s.subrange(1, s.len() as int)
    } else {
        s
    };
    if body.len() > 0 && all_digits(body, radix) {
        Some(digits_value(body, radix))
    } else {
        None
    }
}

/// `std::num::ParseIntError`: the error of the standard number parsers,
/// handed on as it comes.
#[verifier::external_type_specification]
#[verifier::external_body]
pub struct ExParseIntError(std::num::ParseIntError);

/// `u32::from_str_radix`: succeeds exactly on an optional `+` followed by
/// digits of `radix` whose value fits in 32 bits, and returns that value.
#[verifier::external_body]
pub(crate) fn u32_from_str_radix(src: &str, radix: u32) -> (r: Result<u32, std::num::ParseIntError>)
    requires
        2 <= radix <= 36,
    ensures
        match r {
            Ok(v) => parse_radix(src@, radix as nat) == Some(v as nat),
            Err(_) => match parse_radix(src@, radix as nat) {
                Some(n) => n > u32::MAX,
                None => true,
            },
        },
{
    u32::from_str_radix(src, radix)
}

/// `u16::from_str_radix`: succeeds exactly on an optional `+` followed by
/// digits of `radix` whose value fits in 16 bits, and returns that value.
#[verifier::external_body]
pub(crate) fn u16_from_str_radix(src: &str, radix: u32) -> (r: Result<u16, std::num::ParseIntError>)
    requires
        2 <= radix <= 36,
    ensures
        match r {
            Ok(v) => parse_radix(src@, radix as nat) == Some(v as nat),
            Err(_) => match parse_radix(src@, radix as nat) {
                Some(n) => n > u16::MAX,
                None => true,
            },
        },
{
    u16::from_str_radix(src, radix)
}

/// Reads a hexadecimal number of at most 32 bits.
pub fn parse_hex(src: &str) -> (r: Result<u32, std::num::ParseIntError>)
    ensures
        match r {
            Ok(v) => parse_radix(src@, 16) == Some(v as nat),
            Err(_) => match parse_radix(src@, 16) {
                Some(n) => n > u32::MAX,
                None => true,
            },
        },
{
    u32_from_str_radix(src, 16)
}

} // verus!
