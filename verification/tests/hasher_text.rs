use mech_syntax::hasher::Hasher;
use mech_syntax::text::{decimal_string, push_decimal};

#[test]
fn hash_of_empty_string_is_zero() {
    assert_eq!(Hasher::hash_string(String::new()), 0);
}

#[test]
fn hash_of_one_byte_is_its_code() {
    assert_eq!(Hasher::hash_string(String::from("a")), 97);
    assert_eq!(Hasher::hash_string(String::from("x")), 120);
}

#[test]
fn hash_reads_groups_of_four_little_endian() {
    assert_eq!(Hasher::hash_string(String::from("ab")), 97 + 98 * 256);
    assert_eq!(Hasher::hash_string(String::from("abcd")), 1684234849);
    assert_eq!(Hasher::hash_string(String::from("abcdef")), 1684261062);
    assert_eq!(Hasher::hash_string(String::from("1,1")), 3222577);
}

#[test]
fn hash_adds_up_over_groups_of_four() {
    let whole = Hasher::hash_string(String::from("abcdef"));
    let head = Hasher::hash_string(String::from("abcd"));
    let tail = Hasher::hash_string(String::from("ef"));
    assert_eq!(whole, head + tail);
}

#[test]
fn decimal_string_spells_numbers() {
    assert_eq!(decimal_string(0), "0");
    assert_eq!(decimal_string(7), "7");
    assert_eq!(decimal_string(10), "10");
    assert_eq!(decimal_string(1234), "1234");
    assert_eq!(decimal_string(u64::MAX), "18446744073709551615");
}

#[test]
fn push_decimal_appends() {
    let mut s = String::from("1,");
    push_decimal(&mut s, 42);
    assert_eq!(s, "1,42");
}

#[test]
fn hash_reads_the_bytes_of_non_ascii_text() {
    // 'é' is the two bytes 0xC3 0xA9.
    assert_eq!(Hasher::hash_string(String::from("é")), 0xC3 + 0xA9 * 256);
    assert_eq!(Hasher::hash_string(String::from("aé")), 97 + 0xC3 * 256 + 0xA9 * 65536);
}
