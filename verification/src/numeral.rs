//! Numbers written as text and read from it.

use vstd::prelude::*;

use crate::text;

verus! {

/// The character of a decimal digit.
pub open spec fn digit_char(d: nat) -> char {
    (d + 48) as char
}

/// A number in decimal notation, without leading zeros.
pub open spec fn decimal(n: nat) -> Seq<char>
    decreases n,
{
    if n < 10 {
        seq![digit_char(n)]
    } else {
        decimal(n / 10).push(digit_char(n % 10))
    }
}

/// Decimal notation is ASCII, and `k` digits are enough below the `k`-th power
/// of ten.
pub proof fn decimal_length(n: nat, k: nat)
    requires
        k > 0,
        n < vstd::arithmetic::power::pow(10, k),
    ensures
        vstd::utf8::is_ascii_chars(decimal(n)),
        decimal(n).len() <= k,
    decreases k,
{
    vstd::arithmetic::power::lemma_pow1(10);
    if n >= 10 {
        vstd::arithmetic::power::lemma_pow_adds(10, (k - 1) as nat, 1);
        decimal_length(n / 10, (k - 1) as nat);
    }
}

fn digit_of(d: u128) -> (r: char)
    requires
        d < 10,
    ensures
        r == digit_char(d as nat),
{
    (d as u8 + 48) as char
}

pub fn u128_text(n: u128) -> (r: String)
    ensures
        r@ == decimal(n as nat),
    decreases n,
{
    let last = digit_of(n % 10);
    if n < 10 {
        let mut r = String::new();
        r.push(last);
        assert(r@ =~= seq![digit_char(n as nat)]);
        r
    } else {
        let mut r = u128_text(n / 10);
        r.push(last);
        r
    }
}

pub fn u64_text(n: u64) -> (r: String)
    ensures
        r@ == decimal(n as nat),
{
    u128_text(n as u128)
}

/// The value of a run of decimal digits.
pub open spec fn digits_value(s: Seq<char>) -> nat
    decreases s.len(),
{
    if s.len() == 0 {
        0
    } else {
        digits_value(s.drop_last()) * 10 + digit_value(s.last())
    }
}

/// The value of one decimal digit.
pub open spec fn digit_value(c: char) -> nat {
    if text::is_ascii_digit(c) {
        (c as nat - 48) as nat
    } else {
        0
    }
}

/// Whether every character is a decimal digit.
pub open spec fn all_digits(s: Seq<char>) -> bool {
    forall|i: int| 0 <= i < s.len() ==> text::is_ascii_digit(#[trigger] s[i])
}

/// The digits of a number that may carry one plus sign.
pub open spec fn unsigned_digits(s: Seq<char>) -> Seq<char> {
    if s.len() > 0 && s[0] == '+' {
        s.skip(1)
    } else {
        s
    }
}

/// The number that `s` writes: an optional plus sign and at least one digit,
/// nothing else, and no more than fits.
pub open spec fn parsed_u32(s: Seq<char>) -> Option<u32> {
    let digits = unsigned_digits(s);
    if digits.len() > 0 && all_digits(digits) && digits_value(digits) <= u32::MAX {
        Some(digits_value(digits) as u32)
    } else {
        None
    }
}

proof fn digits_value_grows(s: Seq<char>, n: int)
    requires
        0 <= n <= s.len(),
    ensures
        digits_value(s.take(n)) <= digits_value(s),
    decreases s.len(),
{
    if n < s.len() {
        assert(s.drop_last().take(n) =~= s.take(n));
        digits_value_grows(s.drop_last(), n);
    } else {
        assert(s.take(n) =~= s);
    }
}

pub fn parse_u32(s: &str) -> (r: Option<u32>)
    ensures
        r == parsed_u32(s@),
{
    let chars = text::chars_of(s);
    let n: usize = chars.len();
    let start: usize = if n > 0 && chars[0] == '+' {
        1
    } else {
        0
    };
    let ghost digits = unsigned_digits(s@);
    if start == n {
        return None;
    }
    let mut value: u64 = 0;
    for i in start..n
        invariant
            chars@ == s@,
            n == chars@.len(),
            start <= n,
            digits == unsigned_digits(s@),
            digits =~= s@.skip(start as int),
            value == digits_value(digits.take(i - start)),
            value <= u32::MAX,
            forall|j: int| 0 <= j < i - start ==> text::is_ascii_digit(#[trigger] digits[j]),
    {
        let c = chars[i];
        assert(c == digits[i - start]);
        if !text::char_is_ascii_digit(c) {
            return None;
        }
        let next: u64 = value * 10 + (c as u8 - 48) as u64;
        proof {
            assert(digits.take(i - start + 1).drop_last() =~= digits.take(i - start));
            assert(next == digits_value(digits.take(i - start + 1)));
        }
        if next > u32::MAX as u64 {
            proof {
                digits_value_grows(digits, i - start + 1);
            }
            return None;
        }
        value = next;
    }
    assert(digits.take(n - start) =~= digits);
    Some(value as u32)
}

/// The character of an upper-case hexadecimal digit.
pub open spec fn hex_char(d: nat) -> char {
    if d < 10 {
        digit_char(d)
    } else {
        (d + 55) as char
    }
}

/// A port in four upper-case hexadecimal digits.
pub open spec fn hex4(n: u16) -> Seq<char> {
    seq![
        hex_char(n as nat / 4096),
        hex_char(n as nat / 256 % 16),
        hex_char(n as nat / 16 % 16),
        hex_char(n as nat % 16),
    ]
}

fn hex_digit(d: u16) -> (r: char)
    requires
        d < 16,
    ensures
        r == hex_char(d as nat),
{
    if d < 10 {
        (d as u8 + 48) as char
    } else {
        (d as u8 + 55) as char
    }
}

pub fn u16_hex(n: u16) -> (r: String)
    ensures
        r@ == hex4(n),
{
    let mut r = String::new();
    r.push(hex_digit(n / 4096));
    r.push(hex_digit(n / 256 % 16));
    r.push(hex_digit(n / 16 % 16));
    r.push(hex_digit(n % 16));
    assert(r@ =~= hex4(n));
    r
}

} // verus!
