use mech_syntax::encodings::{byte_to_char, byte_to_digit, magnitude};

#[test]
fn byte_to_digit_reads_each_decimal_digit() {
    for b in 48u8..=57 {
        assert_eq!(byte_to_digit(b), Some((b - 48) as u64));
    }
}

#[test]
fn byte_to_digit_refuses_other_bytes() {
    assert_eq!(byte_to_digit(47), None);
    assert_eq!(byte_to_digit(58), None);
    assert_eq!(byte_to_digit(b'a'), None);
    assert_eq!(byte_to_digit(0), None);
    assert_eq!(byte_to_digit(255), None);
}

#[test]
fn byte_to_char_reads_known_bytes() {
    assert_eq!(byte_to_char(33), Some('!'));
    assert_eq!(byte_to_char(42), Some('*'));
    assert_eq!(byte_to_char(43), Some('+'));
    assert_eq!(byte_to_char(45), Some('-'));
    assert_eq!(byte_to_char(47), Some('/'));
    assert_eq!(byte_to_char(48), Some('0'));
    assert_eq!(byte_to_char(57), Some('9'));
    assert_eq!(byte_to_char(60), Some('<'));
    assert_eq!(byte_to_char(62), Some('>'));
    assert_eq!(byte_to_char(65), Some('A'));
    assert_eq!(byte_to_char(90), Some('Z'));
    assert_eq!(byte_to_char(94), Some('^'));
    assert_eq!(byte_to_char(97), Some('a'));
    assert_eq!(byte_to_char(122), Some('z'));
    assert_eq!(byte_to_char(126), Some('~'));
}

#[test]
fn byte_to_char_refuses_unknown_bytes() {
    assert_eq!(byte_to_char(32), None);
    assert_eq!(byte_to_char(35), None);
    assert_eq!(byte_to_char(61), None);
    assert_eq!(byte_to_char(95), None);
    assert_eq!(byte_to_char(127), None);
    assert_eq!(byte_to_char(200), None);
}

#[test]
fn byte_to_char_agrees_with_ascii_on_every_known_byte() {
    for b in 0u8..=255 {
        if let Some(c) = byte_to_char(b) {
            assert_eq!(c as u32, b as u32);
        }
    }
}

#[test]
fn magnitude_is_ten_to_one_less_than_its_argument() {
    assert_eq!(magnitude(0), 1);
    assert_eq!(magnitude(1), 1);
    assert_eq!(magnitude(2), 10);
    assert_eq!(magnitude(3), 100);
    assert_eq!(magnitude(5), 10000);
    assert_eq!(magnitude(20), 10_000_000_000_000_000_000);
}

#[test]
fn magnitude_grows_tenfold_per_place() {
    for n in 1usize..20 {
        assert_eq!(magnitude(n + 1), 10 * magnitude(n));
    }
}
