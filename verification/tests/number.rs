use std::{num::IntErrorKind, time::Duration};

use tuxedo_driver::number::{
    decimal_text, duration_as_text, hex_bits_text, parse_u32, signed_decimal_text, NumberError,
};

#[test]
fn decimal_numerals() {
    for n in [0, 1, 9, 10, 19, 99, 100, 101, 4_294_967_295, u64::MAX] {
        assert_eq!(decimal_text(n), n.to_string());
    }
    for n in [i32::MIN, -100, -1, 0, 1, 42, i32::MAX] {
        assert_eq!(signed_decimal_text(n), n.to_string());
    }
}

#[test]
fn hexadecimal_numerals() {
    for n in [0, 1, 15, 16, 0xa0, 0xb0, 0xff, 0x100, i32::MAX, -1, -256, i32::MIN] {
        assert_eq!(hex_bits_text(n), format!("{n:02x}"));
    }
    assert_eq!(hex_bits_text(0), "00");
    assert_eq!(hex_bits_text(-1), "ffffffff");
}

#[test]
fn durations() {
    assert_eq!(duration_as_text(0), "0ns");
    assert_eq!(duration_as_text(500), "500ms");
    assert_eq!(duration_as_text(1_500), "1.5s");
    assert_eq!(duration_as_text(30_000), "30s");
    for millis in (0..5000).chain([30_000, 61_234, u64::MAX]) {
        let expected = format!("{:?}", Duration::from_millis(millis));
        assert_eq!(duration_as_text(millis), expected);
    }
}

#[test]
fn numbers_are_parsed() {
    assert_eq!(parse_u32("0"), Ok(0));
    assert_eq!(parse_u32("+7"), Ok(7));
    assert_eq!(parse_u32("007"), Ok(7));
    assert_eq!(parse_u32("4294967295"), Ok(u32::MAX));
    assert_eq!(parse_u32(""), Err(NumberError::Empty));
    assert_eq!(parse_u32("+"), Err(NumberError::InvalidDigit));
    assert_eq!(parse_u32("-1"), Err(NumberError::InvalidDigit));
    assert_eq!(parse_u32("12a"), Err(NumberError::InvalidDigit));
    assert_eq!(parse_u32("4294967296"), Err(NumberError::PosOverflow));
}

#[test]
fn parsing_agrees_with_the_standard_library() {
    let texts = [
        "", "0", "1", "+", "-", "++1", "+-1", "-1", "+1", " 1", "1 ", "1_0", "a", "4294967295",
        "4294967296", "+4294967295", "99999999999", "99999999999x", "4294967296x", "429496729x",
        "\u{661}", "00000000000000000001", "+0", "0x10",
    ];
    for text in texts {
        let expected = text.parse::<u32>().map_err(|error| match error.kind() {
            IntErrorKind::Empty => NumberError::Empty,
            IntErrorKind::PosOverflow => NumberError::PosOverflow,
            _ => NumberError::InvalidDigit,
        });
        assert_eq!(parse_u32(text), expected, "{text:?}");
    }
}

#[test]
fn numerals_differ_and_need_no_trimming() {
    let texts: Vec<String> = (0..2000).map(decimal_text).collect();
    for (i, text) in texts.iter().enumerate() {
        assert_eq!(text.trim(), text);
        assert!(!texts[..i].contains(text));
    }
}

#[test]
fn numbers_read_back() {
    for n in [0, 1, 2, 10, 255, 65_536, u32::MAX] {
        assert_eq!(parse_u32(&decimal_text(u64::from(n))), Ok(n));
    }
}
