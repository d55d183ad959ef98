use typst_preview::text::{
    bytes_eq, copy_range, digit_for, digit_of, find_byte, parse_u64, parse_usize, push_unsigned,
    starts_with, token, token_bounds, unsigned_string,
};

#[test]
fn hex_numbers_are_read() {
    assert_eq!(parse_u64(b"deadbeef", 16), Some(0xdead_beef));
    assert_eq!(parse_u64(b"DEADBEEF", 16), Some(0xdead_beef));
    assert_eq!(parse_u64(b"+ff", 16), Some(255));
    assert_eq!(parse_u64(b"0", 16), Some(0));
    assert_eq!(parse_u64(b"000a", 16), Some(10));
    assert_eq!(parse_u64(b"ffffffffffffffff", 16), Some(u64::MAX));
}

#[test]
fn what_is_no_number_is_not_read() {
    assert_eq!(parse_u64(b"", 16), None);
    assert_eq!(parse_u64(b"+", 16), None);
    assert_eq!(parse_u64(b"-1", 16), None);
    assert_eq!(parse_u64(b"g", 16), None);
    assert_eq!(parse_u64(b" 1", 16), None);
    assert_eq!(parse_u64(b"1 ", 16), None);
    assert_eq!(parse_u64(b"1_0", 16), None);
    assert_eq!(parse_u64(b"a", 10), None);
    assert_eq!(parse_u64(b"10000000000000000", 16), None);
    assert_eq!(parse_u64(b"18446744073709551616", 10), None);
}

#[test]
fn reading_agrees_with_the_standard_library() {
    let samples = [
        "0", "7", "+7", "-7", "", "+", "++1", "ff", "FF", "fg", "0x10", "deadbeef", "1e3",
        "18446744073709551615", "18446744073709551616", "ffffffffffffffff", "fffffffffffffffff",
        " 12", "12 ", "١٢",
    ];
    for s in samples {
        assert_eq!(parse_u64(s.as_bytes(), 16), u64::from_str_radix(s, 16).ok(), "{s} in 16");
        assert_eq!(parse_u64(s.as_bytes(), 10), u64::from_str_radix(s, 10).ok(), "{s} in 10");
        assert_eq!(parse_usize(s.as_bytes(), 10), s.parse::<usize>().ok(), "{s} as usize");
    }
}

#[test]
fn digits_have_their_values() {
    assert_eq!(digit_of(b'0', 16), Some(0));
    assert_eq!(digit_of(b'9', 10), Some(9));
    assert_eq!(digit_of(b'a', 16), Some(10));
    assert_eq!(digit_of(b'F', 16), Some(15));
    assert_eq!(digit_of(b'a', 10), None);
    assert_eq!(digit_of(b'z', 36), Some(35));
    assert_eq!(digit_of(b'/', 36), None);
    assert_eq!(digit_for(0), b'0');
    assert_eq!(digit_for(9), b'9');
    assert_eq!(digit_for(10), b'a');
    assert_eq!(digit_for(15), b'f');
}

#[test]
fn numbers_are_written_without_leading_zero() {
    let mut out = b"x=".to_vec();
    push_unsigned(&mut out, 0, 10);
    assert_eq!(out, b"x=0");
    let mut out = Vec::new();
    push_unsigned(&mut out, 1203, 10);
    assert_eq!(out, b"1203");
    let mut out = Vec::new();
    push_unsigned(&mut out, 0xdead_beef, 16);
    assert_eq!(out, b"deadbeef");
    assert_eq!(unsigned_string(u64::MAX, 16), "ffffffffffffffff");
    assert_eq!(unsigned_string(u64::MAX, 10), "18446744073709551615");
    assert_eq!(unsigned_string(0, 16), "0");
}

#[test]
fn what_is_written_is_read_back() {
    for v in [0u64, 1, 9, 10, 15, 16, 255, 256, 65535, 1 << 48, u64::MAX] {
        for radix in [2u8, 8, 10, 16] {
            let mut out = Vec::new();
            push_unsigned(&mut out, v, radix);
            assert_eq!(parse_u64(&out, radix), Some(v));
        }
    }
}

#[test]
fn tokens_are_cut_at_every_separator() {
    let text = b"srclocation deadbeef  x";
    assert_eq!(token(text, b' ', 0), Some(b"srclocation".to_vec()));
    assert_eq!(token(text, b' ', 1), Some(b"deadbeef".to_vec()));
    assert_eq!(token(text, b' ', 2), Some(Vec::new()));
    assert_eq!(token(text, b' ', 3), Some(b"x".to_vec()));
    assert_eq!(token(text, b' ', 4), None);
    assert_eq!(token(b"", b' ', 0), Some(Vec::new()));
    assert_eq!(token(b"", b' ', 1), None);
    assert_eq!(token_bounds(b"a,bc,d", b',', 1), Some((2, 4)));
    assert_eq!(token_bounds(b"a,bc,d", b',', 3), None);
}

#[test]
fn tokens_agree_with_the_standard_library() {
    for s in ["", " ", "a", "a b", " a  b ", "outline-sync,1 2 3", "a,b,,c,"] {
        for sep in [' ', ','] {
            for n in 0..6 {
                let expected = s.split(sep).nth(n).map(|t| t.as_bytes().to_vec());
                assert_eq!(token(s.as_bytes(), sep as u8, n), expected, "{s:?} {sep:?} {n}");
            }
        }
    }
}

#[test]
fn bytes_are_found_and_copied() {
    assert_eq!(find_byte(b"abcabc", b'c', 0), 2);
    assert_eq!(find_byte(b"abcabc", b'c', 3), 5);
    assert_eq!(find_byte(b"abcabc", b'x', 0), 6);
    assert_eq!(find_byte(b"abcabc", b'a', 6), 6);
    assert_eq!(copy_range(b"abcdef", 2, 4), b"cd");
    assert_eq!(copy_range(b"abcdef", 3, 3), b"");
}

#[test]
fn prefixes_are_told() {
    assert!(starts_with(b"srcpath [1]", b"srcpath"));
    assert!(starts_with(b"srcpath", b"srcpath"));
    assert!(starts_with(b"anything", b""));
    assert!(!starts_with(b"srcpat", b"srcpath"));
    assert!(!starts_with(b"Srcpath", b"srcpath"));
    assert!(bytes_eq(b"current", b"current"));
    assert!(!bytes_eq(b"current", b"current "));
    assert!(!bytes_eq(b"current", b"currenT"));
    assert!(bytes_eq(b"", b""));
}
