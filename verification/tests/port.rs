use iou::port::{digit_of, parse_port, PortError, MAX_PORT};
use std::num::IntErrorKind;

fn std_kind(text: &str) -> Option<IntErrorKind> {
    text.parse::<u16>().err().map(|e| e.kind().clone())
}

fn kind_of(e: PortError) -> IntErrorKind {
    match e {
        PortError::Empty => IntErrorKind::Empty,
        PortError::InvalidDigit => IntErrorKind::InvalidDigit,
        PortError::TooLarge => IntErrorKind::PosOverflow,
    }
}

fn agrees_with_std(text: &str) {
    match (parse_port(text), text.parse::<u16>()) {
        (Ok(ours), Ok(theirs)) => assert_eq!(ours, theirs, "value of {:?}", text),
        (Err(ours), Err(theirs)) => {
            assert_eq!(&kind_of(ours), theirs.kind(), "error of {:?}", text);
            assert_eq!(ours.message(), theirs.to_string(), "message of {:?}", text);
            assert_eq!(
                ours.description(),
                format!("{:?}", theirs.to_string()),
                "description of {:?}",
                text
            );
        }
        (ours, theirs) => panic!("{:?}: {:?} against {:?}", text, ours, theirs),
    }
}

#[test]
fn default_port_is_read() {
    assert_eq!(parse_port("3756"), Ok(3756));
}

#[test]
fn smallest_and_largest_port() {
    assert_eq!(parse_port("0"), Ok(0));
    assert_eq!(parse_port("1"), Ok(1));
    assert_eq!(parse_port("65535"), Ok(65535));
    assert_eq!(MAX_PORT, 65535);
}

#[test]
fn one_past_the_largest_is_too_large() {
    assert_eq!(parse_port("65536"), Err(PortError::TooLarge));
    assert_eq!(parse_port("65540"), Err(PortError::TooLarge));
    assert_eq!(parse_port("70000"), Err(PortError::TooLarge));
    assert_eq!(parse_port("100000"), Err(PortError::TooLarge));
    assert_eq!(
        parse_port("340282366920938463463374607431768211456"),
        Err(PortError::TooLarge)
    );
}

#[test]
fn every_port_number_reads_back() {
    for n in 0..=u16::MAX {
        assert_eq!(parse_port(&n.to_string()), Ok(n));
        assert_eq!(parse_port(&format!("+{}", n)), Ok(n));
        assert_eq!(parse_port(&format!("000{}", n)), Ok(n));
    }
}

#[test]
fn numbers_above_the_range_are_refused() {
    for n in 65536u32..=200_000 {
        assert_eq!(parse_port(&n.to_string()), Err(PortError::TooLarge));
    }
}

#[test]
fn empty_text_is_empty() {
    assert_eq!(parse_port(""), Err(PortError::Empty));
}

#[test]
fn lone_sign_is_an_invalid_digit() {
    assert_eq!(parse_port("+"), Err(PortError::InvalidDigit));
    assert_eq!(parse_port("-"), Err(PortError::InvalidDigit));
}

#[test]
fn one_plus_sign_is_allowed() {
    assert_eq!(parse_port("+80"), Ok(80));
    assert_eq!(parse_port("+0"), Ok(0));
    assert_eq!(parse_port("+65535"), Ok(65535));
    assert_eq!(parse_port("+65536"), Err(PortError::TooLarge));
    assert_eq!(parse_port("++80"), Err(PortError::InvalidDigit));
    assert_eq!(parse_port("8+0"), Err(PortError::InvalidDigit));
    assert_eq!(parse_port("80+"), Err(PortError::InvalidDigit));
}

#[test]
fn minus_sign_is_refused() {
    assert_eq!(parse_port("-1"), Err(PortError::InvalidDigit));
    assert_eq!(parse_port("-0"), Err(PortError::InvalidDigit));
    assert_eq!(parse_port("-70000"), Err(PortError::InvalidDigit));
}

#[test]
fn leading_zeros_are_allowed() {
    assert_eq!(parse_port("0080"), Ok(80));
    assert_eq!(parse_port("000000000000000000000000065535"), Ok(65535));
    assert_eq!(parse_port("00000"), Ok(0));
    assert_eq!(
        parse_port("000000000000000000000000065536"),
        Err(PortError::TooLarge)
    );
}

#[test]
fn non_numeric_text_is_refused() {
    assert_eq!(parse_port("http"), Err(PortError::InvalidDigit));
    assert_eq!(parse_port("80a"), Err(PortError::InvalidDigit));
    assert_eq!(parse_port("a80"), Err(PortError::InvalidDigit));
    assert_eq!(parse_port("8 0"), Err(PortError::InvalidDigit));
    assert_eq!(parse_port(" 80"), Err(PortError::InvalidDigit));
    assert_eq!(parse_port("80 "), Err(PortError::InvalidDigit));
    assert_eq!(parse_port("80\n"), Err(PortError::InvalidDigit));
    assert_eq!(parse_port("0x50"), Err(PortError::InvalidDigit));
    assert_eq!(parse_port("8_0"), Err(PortError::InvalidDigit));
    assert_eq!(parse_port("80.0"), Err(PortError::InvalidDigit));
    assert_eq!(parse_port("1e3"), Err(PortError::InvalidDigit));
}

#[test]
fn digits_of_other_scripts_are_refused() {
    assert_eq!(parse_port("\u{ff18}\u{ff10}"), Err(PortError::InvalidDigit));
    assert_eq!(parse_port("\u{0663}"), Err(PortError::InvalidDigit));
    assert_eq!(parse_port("80\u{e9}"), Err(PortError::InvalidDigit));
    assert_eq!(parse_port("\u{1f600}"), Err(PortError::InvalidDigit));
}

#[test]
fn the_first_fault_decides_the_error() {
    assert_eq!(parse_port("9999x"), Err(PortError::InvalidDigit));
    assert_eq!(parse_port("65535x"), Err(PortError::InvalidDigit));
    assert_eq!(parse_port("65536x"), Err(PortError::TooLarge));
    assert_eq!(parse_port("99999x"), Err(PortError::TooLarge));
    assert_eq!(parse_port("x99999"), Err(PortError::InvalidDigit));
    assert_eq!(parse_port("6553x6"), Err(PortError::InvalidDigit));
    assert_eq!(parse_port("99999\u{e9}"), Err(PortError::TooLarge));
    assert_eq!(parse_port("+99999x"), Err(PortError::TooLarge));
}

#[test]
fn messages_name_the_error() {
    assert_eq!(
        PortError::Empty.message(),
        "cannot parse integer from empty string"
    );
    assert_eq!(
        PortError::InvalidDigit.message(),
        "invalid digit found in string"
    );
    assert_eq!(
        PortError::TooLarge.message(),
        "number too large to fit in target type"
    );
}

#[test]
fn descriptions_are_the_quoted_messages() {
    assert_eq!(
        PortError::Empty.description(),
        "\"cannot parse integer from empty string\""
    );
    assert_eq!(
        PortError::InvalidDigit.description(),
        "\"invalid digit found in string\""
    );
    assert_eq!(
        PortError::TooLarge.description(),
        "\"number too large to fit in target type\""
    );
    for e in [PortError::Empty, PortError::InvalidDigit, PortError::TooLarge] {
        assert_eq!(e.description(), format!("\"{}\"", e.message()));
    }
}

#[test]
fn single_digits_are_read() {
    let digits = ['0', '1', '2', '3', '4', '5', '6', '7', '8', '9'];
    for (n, c) in digits.iter().enumerate() {
        assert_eq!(digit_of(*c), Some(n as u8));
    }
    for c in ['/', ':', 'a', ' ', '+', '-', '\u{0660}', '\u{ff11}'] {
        assert_eq!(digit_of(c), None);
    }
}

#[test]
fn reads_as_the_standard_library_does_on_chosen_texts() {
    let texts = [
        "", "+", "-", "0", "00", "+0", "-0", "3756", "+3756", "65535", "65536", "655350",
        "99999", "99999x", "9999x", "65535x", "65536x", "x", "x1", "1x", " 1", "1 ", "+-1",
        "-+1", "++1", "+ 1", "1+", "\u{e9}", "1\u{e9}", "99999\u{e9}", "\u{ff11}", "١٢٣",
        "0000000000000000000065535", "0000000000000000000065536", "18446744073709551616",
        "\0", "1\0", "٣", "８０８０",
    ];
    for text in texts {
        agrees_with_std(text);
    }
}

#[test]
fn reads_as_the_standard_library_does_on_short_texts() {
    let alphabet = ['0', '1', '6', '9', '+', '-', ' ', 'x', '\u{e9}'];
    let mut texts: Vec<String> = vec![String::new()];
    let mut from = 0;
    for _ in 0..5 {
        let upto = texts.len();
        for i in from..upto {
            for c in alphabet {
                let mut t = texts[i].clone();
                t.push(c);
                texts.push(t);
            }
        }
        from = upto;
    }
    assert_eq!(texts.len(), 1 + 9 + 81 + 729 + 6561 + 59049);
    for text in &texts {
        agrees_with_std(text);
    }
}

#[test]
fn reads_as_the_standard_library_does_around_the_limit() {
    for n in 65000u32..=66000 {
        for tail in ["", "0", "9", "x", "+", " "] {
            agrees_with_std(&format!("{}{}", n, tail));
            agrees_with_std(&format!("+{}{}", n, tail));
            agrees_with_std(&format!("0{}{}", n, tail));
        }
    }
    assert_eq!(std_kind("65536"), Some(IntErrorKind::PosOverflow));
}
