use usage_billing::decimal::{i64_to_text, line_amount, parse_i64, total_amount};

#[test]
fn integer_amounts_do_not_overflow_i64() {
    assert_eq!(
        line_amount("9223372036854775808", "1000000"),
        Some("9223372036854775808000000".to_owned())
    );
}

#[test]
fn amounts_are_canonical() {
    assert_eq!(line_amount("+0012", "3"), Some("36".to_owned()));
    assert_eq!(line_amount("1_000", "2"), Some("2000".to_owned()));
    assert_eq!(line_amount("-5", "7"), Some("-35".to_owned()));
    assert_eq!(line_amount("-0", "7"), Some("0".to_owned()));
    assert_eq!(total_amount("0", "-35"), Some("-35".to_owned()));
    assert_eq!(
        total_amount("9223372036854775807", "1"),
        Some("9223372036854775808".to_owned())
    );
}

#[test]
fn what_is_no_whole_number_has_no_amount() {
    for text in ["", "+", "-", "--1", "+-1", "_1", "1.5", "1e3", " 1", "1 ", "0x10", "\u{661}"] {
        assert_eq!(line_amount(text, "1"), None, "{text}");
        assert_eq!(line_amount("1", text), None, "{text}");
        assert_eq!(total_amount(text, "1"), None, "{text}");
        assert_eq!(total_amount("1", text), None, "{text}");
    }
}

#[test]
fn revisions_are_read_as_the_standard_library_reads_them() {
    for text in [
        "",
        "+",
        "-",
        "0",
        "-0",
        "+7",
        "007",
        "1_0",
        "--1",
        "9223372036854775807",
        "9223372036854775808",
        "-9223372036854775808",
        "-9223372036854775809",
        "99999999999999999999999999999999999999999999",
        " 1",
        "1 ",
        "\u{661}",
    ] {
        assert_eq!(parse_i64(text), text.parse::<i64>().ok(), "{text}");
    }
}

#[test]
fn revisions_are_written_as_the_standard_library_writes_them() {
    for value in [0, 1, -1, 9, 10, -10, 1234567890, i64::MAX, i64::MIN] {
        assert_eq!(i64_to_text(value), value.to_string());
        assert_eq!(parse_i64(&i64_to_text(value)), Some(value));
    }
}
