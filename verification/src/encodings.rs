//! Byte encodings of the characters that the lexer reads, and powers of ten.

use vstd::prelude::*;

verus! {

/// The bytes that name a character the compiler knows: `!`, `*`, `+`, `-`,
/// `/`, `<`, `>`, `^`, `~`, the decimal digits and the ASCII letters.
pub open spec fn is_known_byte(b: u8) -> bool {
    ||| b == 33
    ||| b == 42
    ||| b == 43
    ||| b == 45
    ||| b == 47
    ||| 48 <= b <= 57
    ||| b == 60
    ||| b == 62
    ||| 65 <= b <= 90
    ||| b == 94
    ||| 97 <= b <= 122
    ||| b == 126
}

/// The character a byte stands for, where it is one the compiler knows.
pub open spec fn byte_char(b: u8) -> Option<char> {
    if is_known_byte(b) {
        Some(b as char)
    } else {
        None
    }
}

/// The value of a decimal digit byte.
pub open spec fn byte_digit(b: u8) -> Option<u64> {
    if 48 <= b <= 57 {
        Some((b - 48) as u64)
    } else {
        None
    }
}

/// The value of the ASCII decimal digit `byte`, if it is one.
pub fn byte_to_digit(byte: u8) -> (r: Option<u64>)
    ensures
        r == byte_digit(byte),
{
    if 48 <= byte && byte <= 57 {
        Some((byte - 48) as u64)
    } else {
        None
    }
}

/// The character that `byte` encodes, for the bytes the compiler knows.
pub fn byte_to_char(byte: u8) -> (r: Option<char>)
    ensures
        r == byte_char(byte),
{
    if byte == 33 || byte == 42 || byte == 43 || byte == 45 || byte == 47 || (48 <= byte
        && byte <= 57) || byte == 60 || byte == 62 || (65 <= byte && byte <= 90) || byte == 94
        || (97 <= byte && byte <= 122) || byte == 126 {
        Some(byte as char)
    } else {
        None
    }
}

/// A byte the compiler knows decodes to the ASCII character with that code.
pub proof fn lemma_byte_char_ascii(b: u8)
    ensures
        byte_char(b) matches Some(c) ==> c as u32 == b as u32 && c <= '\u{7f}',
{
}

/// The two decodings agree on digits: a digit byte decodes to the digit
/// character of its value.
pub proof fn lemma_digit_bytes(b: u8)
    ensures
        byte_digit(b) matches Some(d) ==> d < 10 && byte_char(b) == Some(
            crate::text::digit_char(d as nat),
        ),
{
}

/// Ten to the power `n - 1`; one for `n` of zero.
pub open spec fn pow10(n: nat) -> nat
    decreases n,
{
    if n <= 1 {
        1
    } else {
        10 * pow10((n - 1) as nat)
    }
}

/// Each further place is worth ten times the one before.
pub proof fn lemma_pow10_step(n: nat)
    requires
        n >= 1,
    ensures
        pow10(n + 1) == 10 * pow10(n),
{
}

/// Powers of ten grow with the exponent.
pub proof fn lemma_pow10_monotone(a: nat, b: nat)
    requires
        a <= b,
    ensures
        pow10(a) <= pow10(b),
    decreases b,
{
    if a < b {
        lemma_pow10_monotone(a, (b - 1) as nat);
    }
}

/// The place value of the `n`-th digit from the right: ten to the power `n - 1`.
pub fn magnitude(n: usize) -> (m: u64)
    requires
        pow10(n as nat) <= u64::MAX,
    ensures
        m == pow10(n as nat),
{
    let mut m: u64 = 1;
    let mut i: usize = 1;
    while i < n
        invariant
            1 <= i,
            i <= n || i == 1,
            m == pow10(i as nat),
            pow10(n as nat) <= u64::MAX,
        decreases n - i,
    {
        proof {
            lemma_pow10_monotone((i + 1) as nat, n as nat);
        }
        m = m * 10;
        i = i + 1;
    }
    assert(pow10(1) == 1 && pow10(0) == 1);
    m
}

} // verus!
