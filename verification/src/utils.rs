//! Shared helpers: the token alphabet, random string generation, and the
//! parsing of the configured port value.

pub mod dnsmasq;
pub mod drives;
pub mod files;
pub mod hotspot;
pub mod text;

use vstd::prelude::*;

verus! {

/// The port used when no usable port value is configured.
pub const DEFAULT_PORT: u16 = 80;

/// The alphabet tokens are drawn from: letters, digits and one punctuation
/// symbol.
pub open spec fn spec_token_charset() -> Seq<char> {
    "abcdefghijklmnopqrstuvwxyzABCDEFGHIJKLMNOPQRSTUVWXYZ0123456789-"@
}

/// The token alphabet as a string slice.
pub fn token_charset() -> (charset: &'static str)
    ensures
        charset@ == spec_token_charset(),
        charset@.len() == 63,
{
    let charset = "abcdefghijklmnopqrstuvwxyzABCDEFGHIJKLMNOPQRSTUVWXYZ0123456789-";
    proof {
        reveal_strlit("abcdefghijklmnopqrstuvwxyzABCDEFGHIJKLMNOPQRSTUVWXYZ0123456789-");
    }
    charset
}

/// The token alphabet as a vector of characters, for callers that index it.
pub fn create_character_set() -> (charset: Vec<char>)
    ensures
        charset@ == spec_token_charset(),
{
    let source = token_charset();
    let len = source.unicode_len();
    let mut charset: Vec<char> = Vec::new();
    for i in 0..len
        invariant
            len == source@.len(),
            source@ == spec_token_charset(),
            charset@ =~= source@.subrange(0, i as int),
    {
        charset.push(source.get_char(i));
        proof {
            assert(charset@ =~= source@.subrange(0, i + 1));
        }
    }
    proof {
        assert(charset@ =~= source@);
    }
    charset
}

/// Relies on `rand::random`: a sample of the standard distribution of `T`.
/// Nothing is promised of the value.
pub assume_specification<T>[ rand::random::<T> ]() -> (r: T)
    where
        rand::distributions::Standard: rand::distributions::Distribution<T>,
;

/// Draws an index below `bound`, from the process-wide random generator.
fn random_below(bound: usize) -> (index: usize)
    requires
        bound > 0,
    ensures
        index < bound,
{
    let raw = rand::random::<u64>();
    let index = raw % (bound as u64);
    index as usize
}

/// Builds a string of `length` characters drawn independently from
/// `charset`. Each character of the result is a member of `charset`;
/// nothing is promised about which.
pub fn create_random_string(charset: &str, length: usize) -> (result: String)
    requires
        charset@.len() > 0,
    ensures
        result@.len() == length,
        forall|i: int| 0 <= i < length ==> charset@.contains(#[trigger] result@[i]),
{
    let char_count = charset.unicode_len();
    let mut result = String::new();
    for drawn in 0..length
        invariant
            char_count == charset@.len(),
            char_count > 0,
            result@.len() == drawn,
            forall|i: int| 0 <= i < drawn ==> charset@.contains(#[trigger] result@[i]),
    {
        let pick = random_below(char_count);
        let piece = charset.substring_char(pick, pick + 1);
        result.append(piece);
        proof {
            assert(piece@ =~= seq![charset@[pick as int]]);
            assert(charset@.contains(charset@[pick as int]));
        }
    }
    result
}

/// A character that stands for a decimal digit.
pub open spec fn is_dec_digit(c: char) -> bool {
    48 <= c as u32 <= 57
}

/// The digit a decimal character stands for.
pub open spec fn digit_val(c: char) -> nat
    recommends
        is_dec_digit(c),
{
    (c as u32 - 48) as nat
}

/// Every character of `s` is a decimal digit.
pub open spec fn all_dec_digits(s: Seq<char>) -> bool {
    forall|i: int| 0 <= i < s.len() ==> is_dec_digit(#[trigger] s[i])
}

/// The number a digit string denotes, most significant digit first.
pub open spec fn dec_value(s: Seq<char>) -> nat
    decreases s.len(),
{
    if s.len() == 0 {
        0
    } else {
        dec_value(s.drop_last()) * 10 + digit_val(s.last())
    }
}

/// The digits of a port value, after an optional leading plus sign.
pub open spec fn port_digits(s: Seq<char>) -> Seq<char> {
    if s.len() > 0 && s[0] == '+' {
        s.subrange(1, s.len() as int)
    } else {
        s
    }
}

/// A string is an acceptable port value when, after an optional leading
/// plus sign, it is one or more decimal digits denoting a number that fits
/// in sixteen bits.
pub open spec fn port_value_ok(s: Seq<char>) -> bool {
    let digits = port_digits(s);
    digits.len() > 0 && all_dec_digits(digits) && dec_value(digits) <= u16::MAX
}

/// The port an acceptable port value denotes.
pub open spec fn spec_port_value(s: Seq<char>) -> u16
    recommends
        port_value_ok(s),
{
    dec_value(port_digits(s)) as u16
}

/// Appending digits can only grow the number a digit string denotes.
proof fn lemma_dec_value_prefix_le(s: Seq<char>, k: int)
    requires
        0 <= k <= s.len(),
    ensures
        dec_value(s.subrange(0, k)) <= dec_value(s),
    decreases s.len() - k,
{
    if k == s.len() {
        assert(s.subrange(0, k) =~= s);
    } else {
        let shorter = s.subrange(0, k);
        let longer = s.subrange(0, k + 1);
        assert(longer.drop_last() =~= shorter);
        lemma_dec_value_prefix_le(s, k + 1);
    }
}

/// Reads a port number from a string: an optional leading plus sign, then
/// decimal digits. Returns `None` on an empty digit string, a non-digit
/// character, or a value over `u16::MAX`.
pub fn parse_port(s: &str) -> (result: Option<u16>)
    ensures
        result matches Some(port) ==> port_value_ok(s@) && port == spec_port_value(s@),
        result is None ==> !port_value_ok(s@),
{
    let len = s.unicode_len();
    let start: usize = if len > 0 && s.get_char(0) == '+' {
        1
    } else {
        0
    };
    if start >= len {
        return None;
    }
    let ghost digits = port_digits(s@);
    proof {
        assert(digits =~= s@.subrange(start as int, len as int));
    }
    let mut acc: u32 = 0;
    for i in start..len
        invariant
            len == s@.len(),
            start <= i <= len,
            start == if s@.len() > 0 && s@[0] == '+' { 1int } else { 0int },
            digits == port_digits(s@),
            digits =~= s@.subrange(start as int, len as int),
            all_dec_digits(digits.subrange(0, i - start)),
            acc == dec_value(digits.subrange(0, i - start)),
            acc <= u16::MAX,
    {
        let c = s.get_char(i);
        let code = c as u32;
        proof {
            assert(digits[i - start] == s@[i as int]);
        }
        if code < 48 || code > 57 {
            proof {
                assert(!is_dec_digit(digits[i - start]));
            }
            return None;
        }
        let digit = code - 48;
        let next = acc * 10 + digit;
        proof {
            let taken = digits.subrange(0, i - start + 1);
            assert(taken.drop_last() =~= digits.subrange(0, i - start));
            assert(taken.last() == digits[i - start]);
        }
        if next > u16::MAX as u32 {
            proof {
                lemma_dec_value_prefix_le(digits, i - start + 1);
            }
            return None;
        }
        acc = next;
    }
    proof {
        assert(digits.subrange(0, (len - start) as int) =~= digits);
    }
    Some(acc as u16)
}

/// Resolves the configured port value: a missing or unusable value falls
/// back to the default port.
pub fn get_env_port(raw: Option<&str>) -> (port: u16)
    ensures
        match raw {
            Some(s) => port == if port_value_ok(s@) {
                spec_port_value(s@)
            } else {
                DEFAULT_PORT
            },
            None => port == DEFAULT_PORT,
        },
{
    match raw {
        Some(s) => match parse_port(s) {
            Some(port) => port,
            None => DEFAULT_PORT,
        },
        None => DEFAULT_PORT,
    }
}

} // verus!
