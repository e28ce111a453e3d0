use trng::num::Num;
use trng::text::{dec_i64_to_bytes, dec_u64_to_bytes, parse_signed, parse_unsigned};

#[test]
fn u16_encodes_big_endian_test() {
    let bytes = 0x1234u16.get_bytes();

    assert_eq!(bytes.as_slice(), &[0x12, 0x34]);
}

#[test]
fn i32_encodes_two_complement_big_endian_test() {
    let bytes = (-2i32).get_bytes();

    assert_eq!(bytes.as_slice(), &[0xff, 0xff, 0xff, 0xfe]);
}

#[test]
fn u16_round_trip_test() {
    let x: u16 = 0xbeef;

    let back = <u16 as Num>::from(x.get_bytes());

    assert_eq!(back, x);
}

#[test]
fn i64_round_trip_test() {
    let x: i64 = i64::MIN;

    let back = <i64 as Num>::from(x.get_bytes());

    assert_eq!(back, x);
}

#[test]
fn i8_round_trip_all_values_test() {
    let mut x: i16 = -128;
    while x <= 127 {
        let v = x as i8;
        let back = <i8 as Num>::from(v.get_bytes());
        assert_eq!(back, v);
        x += 1;
    }
}

#[test]
fn u32_round_trip_test() {
    let x: u32 = 0x01020304;

    let back = <u32 as Num>::from(x.get_bytes());

    assert_eq!(back, x);
}

#[test]
fn number_of_bytes_matches_widths_test() {
    assert_eq!(<u8 as Num>::number_of_bytes(), 1);
    assert_eq!(<i8 as Num>::number_of_bytes(), 1);
    assert_eq!(<u16 as Num>::number_of_bytes(), 2);
    assert_eq!(<i16 as Num>::number_of_bytes(), 2);
    assert_eq!(<u32 as Num>::number_of_bytes(), 4);
    assert_eq!(<i32 as Num>::number_of_bytes(), 4);
    assert_eq!(<u64 as Num>::number_of_bytes(), 8);
    assert_eq!(<i64 as Num>::number_of_bytes(), 8);
}

#[test]
fn decimal_text_of_values_test() {
    assert_eq!(dec_u64_to_bytes(0).as_slice(), b"0");
    assert_eq!(dec_u64_to_bytes(12345).as_slice(), b"12345");
    assert_eq!(dec_u64_to_bytes(u64::MAX).as_slice(), b"18446744073709551615");
    assert_eq!(dec_i64_to_bytes(-1).as_slice(), b"-1");
    assert_eq!(dec_i64_to_bytes(i64::MIN).as_slice(), b"-9223372036854775808");
    assert_eq!(255u8.text().as_slice(), b"255");
    assert_eq!((-128i8).text().as_slice(), b"-128");
}

#[test]
fn parse_unsigned_accepts_plain_and_signed_forms_test() {
    assert_eq!(parse_unsigned(b"42", 255), Some(42));
    assert_eq!(parse_unsigned(b"+42", 255), Some(42));
    assert_eq!(parse_unsigned(b"0042", 255), Some(42));
    assert_eq!(parse_unsigned(b"255", 255), Some(255));
    assert_eq!(parse_unsigned(b"256", 255), None);
    assert_eq!(parse_unsigned(b"-1", 255), None);
    assert_eq!(parse_unsigned(b"", 255), None);
    assert_eq!(parse_unsigned(b"+", 255), None);
    assert_eq!(parse_unsigned(b"4x2", 255), None);
    assert_eq!(
        parse_unsigned(b"18446744073709551615", u64::MAX),
        Some(u64::MAX)
    );
    assert_eq!(parse_unsigned(b"18446744073709551616", u64::MAX), None);
}

#[test]
fn parse_signed_handles_both_bounds_test() {
    assert_eq!(parse_signed(b"-128", -128, 127), Some(-128));
    assert_eq!(parse_signed(b"127", -128, 127), Some(127));
    assert_eq!(parse_signed(b"+127", -128, 127), Some(127));
    assert_eq!(parse_signed(b"-129", -128, 127), None);
    assert_eq!(parse_signed(b"128", -128, 127), None);
    assert_eq!(parse_signed(b"-", -128, 127), None);
    assert_eq!(
        parse_signed(b"-9223372036854775808", i64::MIN, i64::MAX),
        Some(i64::MIN)
    );
}
