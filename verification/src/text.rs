//! Rendering of numbers and bytes as text, the way the messages of this crate
//! show them.

use vstd::prelude::*;
use vstd::string::*;

verus! {

/// `String::push`: the character is appended to the end of the string.
pub assume_specification[ String::push ](s: &mut String, c: char)
    ensures
        final(s)@ == old(s)@.push(c),
;

/// The lower-case hexadecimal digit of a value below sixteen.
pub open spec fn digit_char(d: int) -> char {
    if d < 10 {
        ('0' as int + d) as char
    } else {
        ('a' as int + (d - 10)) as char
    }
}

/// The digits of `n` in base `base`, most significant first; zero is one digit.
pub open spec fn digits(n: nat, base: nat) -> Seq<char>
    decreases n,
{
    if base < 2 || n < base {
        seq![digit_char(n as int)]
    } else {
        proof {
            vstd::arithmetic::div_mod::lemma_div_decreases(n as int, base as int);
        }
        digits(n / base, base).push(digit_char((n % base) as int))
    }
}

/// `n` in decimal.
pub open spec fn decimal(n: int) -> Seq<char> {
    if n < 0 {
        seq!['-'] + digits((-n) as nat, 10)
    } else {
        digits(n as nat, 10)
    }
}

/// `n` in lower-case hexadecimal, without leading zeros.
pub open spec fn hex(n: nat) -> Seq<char> {
    digits(n, 16)
}

/// A byte as exactly two lower-case hexadecimal digits.
pub open spec fn hex_byte(b: u8) -> Seq<char> {
    seq![digit_char(b as int / 16), digit_char(b as int % 16)]
}

fn digit(d: u64) -> (c: char)
    requires
        d < 16,
    ensures
        c == digit_char(d as int),
{
    if d < 10 {
        (48 + d as u8) as char
    } else {
        (97 + (d as u8 - 10)) as char
    }
}

fn push_digits(s: &mut String, n: u64, base: u64)
    requires
        2 <= base <= 16,
    ensures
        final(s)@ == old(s)@ + digits(n as nat, base as nat),
    decreases n,
{
    if n >= base {
        proof {
            vstd::arithmetic::div_mod::lemma_div_decreases(n as int, base as int);
        }
        push_digits(s, n / base, base);
    }
    proof {
        vstd::arithmetic::div_mod::lemma_mod_bound(n as int, base as int);
        if n < base {
            vstd::arithmetic::div_mod::lemma_small_mod(n as nat, base as nat);
        }
    }
    s.push(digit(n % base));
    assert(s@ =~= old(s)@ + digits(n as nat, base as nat));
}

/// Append `n` in decimal.
pub fn push_decimal(s: &mut String, n: u64)
    ensures
        final(s)@ == old(s)@ + decimal(n as int),
{
    push_digits(s, n, 10)
}

/// Append a signed number in decimal.
pub fn push_signed(s: &mut String, n: i32)
    ensures
        final(s)@ == old(s)@ + decimal(n as int),
{
    if n < 0 {
        s.push('-');
        push_digits(s, (-(n as i64)) as u64, 10);
        assert(s@ =~= old(s)@ + decimal(n as int));
    } else {
        push_digits(s, n as u64, 10)
    }
}

/// Append `n` in lower-case hexadecimal.
pub fn push_hex(s: &mut String, n: u64)
    ensures
        final(s)@ == old(s)@ + hex(n as nat),
{
    push_digits(s, n, 16)
}

/// Append a byte as two lower-case hexadecimal digits.
pub fn push_hex_byte(s: &mut String, b: u8)
    ensures
        final(s)@ == old(s)@ + hex_byte(b),
{
    s.push(digit((b / 16) as u64));
    s.push(digit((b % 16) as u64));
    assert(s@ =~= old(s)@ + hex_byte(b));
}

} // verus!
