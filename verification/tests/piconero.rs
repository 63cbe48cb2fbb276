use opuza_monero_client::piconero::rejection_message;
use opuza_monero_client::{AmountError, Piconero};

fn invalid_value(input: &str) {
    let expected = format!(
        "invalid value: string {:?}, expected integer number of XMR, including unit, e.g. \"1000 XMR\"",
        input
    );
    let error: AmountError = Piconero::parse(input).unwrap_err();
    assert_eq!(error.input(), input);
    assert_eq!(error.to_string(), expected);
}

#[test]
fn leading_space() {
    invalid_value(" 1 XMR");
}

#[test]
fn trailing_space() {
    invalid_value("1 XMR ");
}

#[test]
fn wrong_unit() {
    invalid_value("1 mXMR");
}

#[test]
fn missing_unit() {
    invalid_value("1");
}

#[test]
fn number_type() {
    invalid_value("1");
}

#[test]
fn negative_number() {
    invalid_value("-1 XMR");
}

#[test]
fn display_singular() {
    assert_eq!(Piconero::new(1).to_string(), "0.000000000001 XMR");
}

#[test]
fn display_plural() {
    assert_eq!(Piconero::new(0).to_string(), "0 XMR");
}

#[test]
fn display_piconeros_no_trailing_zeros() {
    assert_eq!(Piconero::new(10).to_string(), "0.00000000001 XMR");
}

#[test]
fn display_xmr_with_comma() {
    assert_eq!(
        Piconero::new(1_000_000_000_000_000).to_string(),
        "1,000 XMR"
    );
}

#[test]
fn display_xmr_with_comma_and_decimal_separator() {
    assert_eq!(
        Piconero::new(1_000_123_000_000_000).to_string(),
        "1,000.123 XMR"
    );
}

#[test]
fn from_string_decimal() {
    assert_eq!(Piconero::parse("1.1 XMR").unwrap().to_string(), "1.1 XMR");
}

#[test]
fn from_string_decimal_zero() {
    assert_eq!(
        Piconero::parse("0.231 XMR").unwrap().to_string(),
        "0.231 XMR"
    );
}

#[test]
fn from_string_no_decimal() {
    assert_eq!(Piconero::parse("2 XMR").unwrap().to_string(), "2 XMR");
}

#[test]
fn new_and_value_agree() {
    assert_eq!(Piconero::new(0).value(), 0);
    assert_eq!(Piconero::new(42).value(), 42);
    assert_eq!(Piconero::new(u64::MAX).value(), u64::MAX);
    assert_eq!(Piconero::one_xmr().value(), 1_000_000_000_000);
    assert_eq!(Piconero::new(7), Piconero::new(7));
    assert_ne!(Piconero::new(7), Piconero::new(8));
}

#[test]
fn parse_gives_exact_piconero() {
    assert_eq!(Piconero::parse("0 XMR").unwrap().value(), 0);
    assert_eq!(Piconero::parse("2 XMR").unwrap().value(), 2_000_000_000_000);
    assert_eq!(Piconero::parse("1.1 XMR").unwrap().value(), 1_100_000_000_000);
    assert_eq!(Piconero::parse("0.231 XMR").unwrap().value(), 231_000_000_000);
    assert_eq!(Piconero::parse("0.000000000001 XMR").unwrap().value(), 1);
    assert_eq!(Piconero::parse("007.50 XMR").unwrap().value(), 7_500_000_000_000);
    assert_eq!(
        Piconero::parse("18446744.073709551615 XMR").unwrap().value(),
        u64::MAX
    );
}

#[test]
fn parse_drops_places_below_one_piconero() {
    assert_eq!(Piconero::parse("0.0000000000019 XMR").unwrap().value(), 1);
    assert_eq!(Piconero::parse("0.0000000000009 XMR").unwrap().value(), 0);
    assert_eq!(
        Piconero::parse("1.1234567890129999 XMR").unwrap().value(),
        1_123_456_789_012
    );
}

#[test]
fn parse_holds_large_amounts_at_the_largest() {
    assert_eq!(
        Piconero::parse("18446744.073709551616 XMR").unwrap().value(),
        u64::MAX
    );
    assert_eq!(Piconero::parse("18446745 XMR").unwrap().value(), u64::MAX);
    assert_eq!(
        Piconero::parse("99999999999999999999999999999999999 XMR")
            .unwrap()
            .value(),
        u64::MAX
    );
}

#[test]
fn parse_rejects_what_is_no_amount() {
    for input in [
        "", " XMR", "XMR", "1XMR", "1  XMR", "1 xmr", "1 XMR\n", "\t1 XMR", "+1 XMR", "1. XMR",
        ".5 XMR", "1.2.3 XMR", "1e3 XMR", "1 XMR XMR", "0x10 XMR", "١ XMR", "1 XMRs",
        "1.-5 XMR", "- XMR", "1,00 XMR", ",000 XMR", "1, XMR", "1,0000 XMR", "1000,000 XMR",
        "1,,000 XMR", "1,000,00 XMR", "1,000. XMR", "1.000,5 XMR", "1.5,000 XMR", ", XMR",
        "12,34 XMR", "1234,567 XMR", "1,000,0000 XMR", ",1 XMR", "1 ,000 XMR",
    ] {
        let error = Piconero::parse(input).unwrap_err();
        assert_eq!(error.input(), input);
    }
}

#[test]
fn error_message_quotes_the_input() {
    let error = Piconero::parse("a \"b\" XMR").unwrap_err();
    assert_eq!(
        error.to_string(),
        "invalid value: string \"a \\\"b\\\" XMR\", expected integer number of XMR, including unit, e.g. \"1000 XMR\""
    );
}

#[test]
fn display_groups_by_three() {
    assert_eq!(Piconero::new(999_000_000_000_000).to_string(), "999 XMR");
    assert_eq!(
        Piconero::new(12_345_678_000_000_000_000).to_string(),
        "12,345,678 XMR"
    );
    assert_eq!(
        Piconero::new(u64::MAX).to_string(),
        "18,446,744.073709551615 XMR"
    );
    assert_eq!(Piconero::new(1_000_000_000_000).to_string(), "1 XMR");
    assert_eq!(Piconero::new(1_500_000_000_000).to_string(), "1.5 XMR");
    assert_eq!(Piconero::new(100_000_000_000).to_string(), "0.1 XMR");
    assert_eq!(Piconero::new(1_001_000_000_000_000).to_string(), "1,001 XMR");
}

#[test]
fn plain_text_has_no_grouping_and_no_unit() {
    assert_eq!(Piconero::new(0).to_plain_string(), "0");
    assert_eq!(Piconero::new(1).to_plain_string(), "0.000000000001");
    assert_eq!(Piconero::new(1_500_000_000_000).to_plain_string(), "1.5");
    assert_eq!(
        Piconero::new(1_000_123_000_000_000).to_plain_string(),
        "1000.123"
    );
    assert_eq!(
        Piconero::new(u64::MAX).to_plain_string(),
        "18446744.073709551615"
    );
}

#[test]
fn parse_format_parse_keeps_the_value() {
    for input in [
        "0 XMR", "1 XMR", "1.1 XMR", "0.231 XMR", "999.999999999999 XMR", "12.500 XMR",
        "0.000000000001 XMR", "000.1 XMR", "5.0 XMR",
    ] {
        let first = Piconero::parse(input).unwrap();
        let again = Piconero::parse(&first.to_string()).unwrap();
        assert_eq!(first, again);
    }
}

#[test]
fn grouped_amounts_read_back() {
    let shown = Piconero::new(1_000_000_000_000_000).to_string();
    assert_eq!(shown, "1,000 XMR");
    assert_eq!(
        Piconero::parse(&shown).unwrap().value(),
        1_000_000_000_000_000
    );
    assert_eq!(
        Piconero::parse("1000 XMR").unwrap().to_string(),
        "1,000 XMR"
    );
}

#[test]
fn parse_reads_groups_of_three() {
    assert_eq!(
        Piconero::parse("1,000 XMR").unwrap().value(),
        1_000_000_000_000_000
    );
    assert_eq!(
        Piconero::parse("1,000.123 XMR").unwrap().value(),
        1_000_123_000_000_000
    );
    assert_eq!(
        Piconero::parse("12,345,678 XMR").unwrap().value(),
        12_345_678_000_000_000_000
    );
    assert_eq!(
        Piconero::parse("123,456.5 XMR").unwrap().value(),
        123_456_500_000_000_000
    );
    assert_eq!(
        Piconero::parse("18,446,744.073709551615 XMR").unwrap().value(),
        u64::MAX
    );
    assert_eq!(
        Piconero::parse("18,446,744.073709551616 XMR").unwrap().value(),
        u64::MAX
    );
    assert_eq!(
        Piconero::parse("999,999,999,999 XMR").unwrap().value(),
        u64::MAX
    );
    assert_eq!(
        Piconero::parse("0,001 XMR").unwrap().value(),
        1_000_000_000_000
    );
    assert_eq!(Piconero::parse("999 XMR").unwrap().value(), 999_000_000_000_000);
}

#[test]
fn every_amount_reads_back_from_its_display() {
    let mut values: Vec<u64> = vec![
        0,
        1,
        10,
        999_999_999_999,
        1_000_000_000_000,
        999_999_999_999_999,
        1_000_000_000_000_000,
        1_000_123_000_000_000,
        999_999_999_999_999_999,
        1_000_000_000_000_000_000,
        12_345_678_000_000_000_001,
        u64::MAX - 1,
        u64::MAX,
    ];
    let mut v: u64 = 1;
    for _ in 0..64 {
        values.push(v);
        values.push(v.wrapping_mul(0x9E37_79B9_7F4A_7C15).rotate_left(17));
        v = v.wrapping_mul(3).wrapping_add(7);
    }
    for value in values {
        let shown = Piconero::new(value).to_string();
        assert_eq!(Piconero::parse(&shown).unwrap().value(), value, "{}", shown);
    }
}

#[test]
fn rejection_message_wraps_the_quoted_input() {
    assert_eq!(
        rejection_message("\"1\""),
        "invalid value: string \"1\", expected integer number of XMR, including unit, e.g. \"1000 XMR\""
    );
    assert_eq!(
        rejection_message(""),
        "invalid value: string , expected integer number of XMR, including unit, e.g. \"1000 XMR\""
    );
}
