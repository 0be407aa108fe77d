use std::str::FromStr;
use vending_machine::text::chars_of;
use vending_machine::format_spec::{
    parse, precision_from_text, sign_from_text, ParseError, Precision, Sign,
};

#[test]
fn pest_parses_sign() {
    for (input, expected) in [
        ("", None),
        (">8.*", None),
        (">+8.*", Some(Sign::Plus)),
        ("-.1$x", Some(Sign::Minus)),
        ("a^#043.8?", None),
    ] {
        let (sign, ..) = parse(input);
        assert_eq!(sign, expected);
    }
}

#[test]
fn pest_parses_width() {
    println!("start");
    for (input, expected) in [
        ("", None),
        (">8.*", Some(8)),
        (">+8.*", Some(8)),
        ("-.1$x", None),
        ("a^#043.8?", Some(43)),
    ] {
        let (_, width, _) = parse(input);
        assert_eq!(width, expected);
    }
}

#[test]
fn pest_parses_precision() {
    for (input, expected) in [
        ("", None),
        (">8.*", Some(Precision::Asterisk)),
        (">+8.*", Some(Precision::Asterisk)),
        ("-.1$x", Some(Precision::Argument(1))),
        ("a^#043.8?", Some(Precision::Integer(8))),
    ] {
        let (_, _, precision) = parse(input);
        assert_eq!(precision, expected);
    }
}

#[test]
fn regex_parses_sign() {
    for (input, expected) in [
        ("", None),
        (">8.*", None),
        (">+8.*", Some(Sign::Plus)),
        ("-.1$x", Some(Sign::Minus)),
        ("a^#043.8?", None),
    ] {
        let (sign, ..) = parse(input);
        assert_eq!(sign, expected);
    }
}

#[test]
fn regex_parses_width() {
    println!("start");
    for (input, expected) in [
        ("", None),
        (">8.*", Some(8)),
        (">+8.*", Some(8)),
        ("-.1$x", None),
        ("a^#043.8?", Some(43)),
    ] {
        let (_, width, _) = parse(input);
        assert_eq!(width, expected);
    }
}

#[test]
fn regex_parses_precision() {
    for (input, expected) in [
        ("", None),
        (">8.*", Some(Precision::Asterisk)),
        (">+8.*", Some(Precision::Asterisk)),
        ("-.1$x", Some(Precision::Argument(1))),
        ("a^#043.8?", Some(Precision::Integer(8))),
    ] {
        let (_, _, precision) = parse(input);
        assert_eq!(precision, expected);
    }
}

#[test]
fn sign_is_a_lone_plus_or_minus() {
    assert_eq!(Sign::from_str("+").ok(), Some(Sign::Plus));
    assert_eq!(Sign::from_str("-").ok(), Some(Sign::Minus));
    assert!(Sign::from_str("").is_err());
    assert!(Sign::from_str("++").is_err());
    assert!(Sign::from_str("+-").is_err());
    assert!(Sign::from_str("x").is_err());
    assert_eq!(sign_from_text("-").ok(), Some(Sign::Minus));
    let refused: ParseError = sign_from_text(" ").unwrap_err();
    assert_eq!(refused.message(), "parse error");
}

#[test]
fn precision_is_asterisk_argument_or_number() {
    assert_eq!(Precision::from_str("*").ok(), Some(Precision::Asterisk));
    assert_eq!(Precision::from_str("7$").ok(), Some(Precision::Argument(7)));
    assert_eq!(Precision::from_str("007").ok(), Some(Precision::Integer(7)));
    assert_eq!(Precision::from_str("+7").ok(), Some(Precision::Integer(7)));
    assert_eq!(Precision::from_str("+7$").ok(), Some(Precision::Argument(7)));
    assert_eq!(Precision::from_str("0").ok(), Some(Precision::Integer(0)));
    assert!(Precision::from_str("").is_err());
    assert!(Precision::from_str("$").is_err());
    assert!(Precision::from_str("+").is_err());
    assert!(Precision::from_str("-7").is_err());
    assert!(Precision::from_str("**").is_err());
    assert!(Precision::from_str("7 ").is_err());
    assert!(Precision::from_str("x$").is_err());
    assert!(Precision::from_str("7$$").is_err());
    assert_eq!(
        precision_from_text("18446744073709551615").ok().is_some(),
        usize::MAX as u128 >= 18446744073709551615u128
    );
    assert!(precision_from_text("340282366920938463463374607431768211456").is_err());
}

#[test]
fn numbers_are_read_as_the_standard_library_reads_them() {
    for text in [
        "", "0", "00", "42", "+42", "+", "-1", "4 2", "42$", "٣", "99999999999999999999999999",
        "18446744073709551615", "18446744073709551616", "4294967295", "4294967296",
    ] {
        let expected = text.parse::<usize>().ok().map(Precision::Integer);
        let read = if text == "42$" {
            None
        } else {
            precision_from_text(text).ok()
        };
        assert_eq!(read, expected, "reading {:?}", text);
    }
}

#[test]
fn a_text_that_is_no_format_specification_asks_for_nothing() {
    for input in ["+5!", "5 ", " 5", ".", ".x", "+.", "5.5.5", "??", "x?y", "5$$", "++5", "é"] {
        assert_eq!(parse(input), (None, None, None), "reading {:?}", input);
    }
}

#[test]
fn parts_of_a_format_specification() {
    assert_eq!(parse("é^+5"), (Some(Sign::Plus), Some(5), None));
    assert_eq!(parse("<<-#012.3x?"), (Some(Sign::Minus), Some(12), Some(Precision::Integer(3))));
    assert_eq!(parse("+<"), (None, None, None));
    assert_eq!(parse("+<7"), (None, Some(7), None));
    assert_eq!(parse("^"), (None, None, None));
    assert_eq!(parse("0"), (None, None, None));
    assert_eq!(parse("00"), (None, Some(0), None));
    assert_eq!(parse("007"), (None, Some(7), None));
    assert_eq!(parse("+0$"), (Some(Sign::Plus), None, None));
    assert_eq!(parse("+width$.prec$e"), (Some(Sign::Plus), None, None));
    assert_eq!(parse("3$.4$"), (None, None, Some(Precision::Argument(4))));
    assert_eq!(parse("-#X?"), (Some(Sign::Minus), None, None));
    assert_eq!(parse("_x1"), (None, None, None));
    assert_eq!(parse("10debug"), (None, Some(10), None));
    assert_eq!(
        parse("99999999999999999999999999.1"),
        (None, None, Some(Precision::Integer(1)))
    );
    assert_eq!(parse("1.99999999999999999999999999"), (None, Some(1), None));
}

#[test]
fn characters_are_taken_one_by_one() {
    assert_eq!(chars_of(""), Vec::<char>::new());
    assert_eq!(chars_of("aé^"), vec!['a', 'é', '^']);
}
