//! Reading and writing unsigned numbers as text.
use vstd::prelude::*;

verus! {

/// The value of `c` as a digit: `0`–`9`, then `a`–`f` or `A`–`F` for ten to
/// fifteen.
pub open spec fn digit_value(c: char) -> Option<nat> {
    if '0' <= c && c <= '9' {
        Some((c as nat - '0' as nat) as nat)
    } else if 'a' <= c && c <= 'f' {
        Some((c as nat - 'a' as nat + 10) as nat)
    } else if 'A' <= c && c <= 'F' {
        Some((c as nat - 'A' as nat + 10) as nat)
    } else {
        None
    }
}

/// Whether `c` is a digit of the given radix.
pub open spec fn is_digit(c: char, radix: nat) -> bool {
    digit_value(c) matches Some(d) && d < radix
}

/// Whether every character of `s` is a digit of the given radix.
pub open spec fn all_digits(s: Seq<char>, radix: nat) -> bool {
    forall|i: int| 0 <= i < s.len() ==> is_digit(#[trigger] s[i], radix)
}

/// The number that the digits of `s` spell in the given radix, most
/// significant digit first.
pub open spec fn digits_value(s: Seq<char>, radix: nat) -> nat
    decreases s.len(),
{
    if s.len() == 0 {
        0
    } else {
        digits_value(s.drop_last(), radix) * radix + match digit_value(s.last()) {
            Some(d) => d,
            None => 0,
        }
    }
}

/// `s` without a leading plus sign.
pub open spec fn unsigned_digits(s: Seq<char>) -> Seq<char> {
    if s.len() > 0 && s[0] == '+' {
        s.skip(1)
    } else {
        s
    }
}

/// The 32-bit number that `s` denotes in the given radix: an optional plus
/// sign followed by one or more digits whose value fits in 32 bits. Anything
/// else denotes no number.
pub open spec fn parsed_unsigned(s: Seq<char>, radix: nat) -> Option<u32> {
    let digits = unsigned_digits(s);
    if digits.len() > 0 && all_digits(digits, radix) && digits_value(digits, radix) <= u32::MAX {
        Some(digits_value(digits, radix) as u32)
    } else {
        None
    }
}

/// The digit value of `c`, if it is a hexadecimal digit.
pub fn digit_of(c: char) -> (d: Option<u32>)
    ensures
        match d {
            Some(v) => digit_value(c) == Some(v as nat),
            None => digit_value(c) is None,
        },
{
    if c >= '0' && c <= '9' {
        Some(c as u32 - '0' as u32)
    } else if c >= 'a' && c <= 'f' {
        Some(c as u32 - 'a' as u32 + 10)
    } else if c >= 'A' && c <= 'F' {
        Some(c as u32 - 'A' as u32 + 10)
    } else {
        None
    }
}

fn parse_unsigned(s: &[char], radix: u32) -> (r: Option<u32>)
    requires
        radix == 10 || radix == 16,
    ensures
        r == parsed_unsigned(s@, radix as nat),
{
    let n = s.len();
    let start: usize = if n > 0 && s[0] == '+' { 1 } else { 0 };
    if start == n {
        return None;
    }
    let ghost digits = unsigned_digits(s@);
    let mut value: u64 = 0;
    let mut fits = true;
    let mut i: usize = start;
    while i < n
        invariant
            radix == 10 || radix == 16,
            n == s@.len(),
            start <= i <= n,
            digits == unsigned_digits(s@),
            digits == s@.skip(start as int),
            all_digits(digits.take(i - start), radix as nat),
            fits ==> value == digits_value(digits.take(i - start), radix as nat) && value <= u32::MAX,
            !fits ==> digits_value(digits.take(i - start), radix as nat) > u32::MAX,
        decreases n - i,
    {
        let ghost seen = digits.take(i - start);
        let ghost next = digits.take(i + 1 - start);
        assert(next.drop_last() =~= seen);
        assert(next.last() == s@[i as int]);
        match digit_of(s[i]) {
            Some(d) if d < radix => {
                assert(digits_value(next, radix as nat) == digits_value(seen, radix as nat) * radix
                    + d);
                if fits {
                    let wider: u64 = value * (radix as u64) + d as u64;
                    if wider > u32::MAX as u64 {
                        fits = false;
                    } else {
                        value = wider;
                    }
                } else {
                    assert(digits_value(seen, radix as nat) * radix >= digits_value(
                        seen,
                        radix as nat,
                    )) by (nonlinear_arith)
                        requires
                            radix >= 1,
                    ;
                }
                assert forall|k: int| 0 <= k < next.len() implies is_digit(
                    #[trigger] next[k],
                    radix as nat,
                ) by {
                    if k < seen.len() {
                        assert(next[k] == seen[k]);
                    }
                }
            },
            _ => {
                assert(!is_digit(digits[i - start], radix as nat));
                return None;
            },
        }
        i += 1;
    }
    assert(digits.take(n - start) =~= digits);
    if fits {
        Some(value as u32)
    } else {
        None
    }
}

/// Reads `s` as a decimal number of 32 bits.
pub fn parse_decimal(s: &[char]) -> (r: Option<u32>)
    ensures
        r == parsed_unsigned(s@, 10),
{
    parse_unsigned(s, 10)
}

/// Reads `s` as a hexadecimal number of 32 bits.
pub fn parse_hex(s: &[char]) -> (r: Option<u32>)
    ensures
        r == parsed_unsigned(s@, 16),
{
    parse_unsigned(s, 16)
}

/// The character that writes a digit value below sixteen, letters in upper
/// case.
pub open spec fn digit_char(d: nat) -> char {
    if d < 10 {
        (d + '0' as nat) as char
    } else {
        (d - 10 + 'A' as nat) as char
    }
}

/// `n` written in decimal without leading zeros.
pub open spec fn decimal_text(n: nat) -> Seq<char>
    decreases n,
{
    if n < 10 {
        seq![digit_char(n)]
    } else {
        decimal_text(n / 10).push(digit_char(n % 10))
    }
}

/// `n` written in hexadecimal without leading zeros, letters in upper case.
pub open spec fn upper_hex_text(n: nat) -> Seq<char>
    decreases n,
{
    if n < 16 {
        seq![digit_char(n)]
    } else {
        upper_hex_text(n / 16).push(digit_char(n % 16))
    }
}

fn digit_to_char(d: u64) -> (c: char)
    requires
        d < 16,
    ensures
        c == digit_char(d as nat),
{
    let code: u8 = if d < 10 {
        (d + 0x30) as u8
    } else {
        (d - 10 + 0x41) as u8
    };
    code as char
}

/// Appends `n` in decimal to `out`.
pub fn push_decimal(out: &mut Vec<char>, n: u64)
    ensures
        final(out)@ == old(out)@ + decimal_text(n as nat),
    decreases n,
{
    if n >= 10 {
        push_decimal(out, n / 10);
    }
    out.push(digit_to_char(n % 10));
}

/// Appends `n` in upper-case hexadecimal to `out`.
pub fn push_upper_hex(out: &mut Vec<char>, n: u64)
    ensures
        final(out)@ == old(out)@ + upper_hex_text(n as nat),
    decreases n,
{
    if n >= 16 {
        push_upper_hex(out, n / 16);
    }
    out.push(digit_to_char(n % 16));
}

} // verus!
