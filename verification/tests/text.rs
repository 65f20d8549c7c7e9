use usage_billing::text::{
    is_control, is_white_space, valid_currency, valid_id, valid_idempotency_key, valid_identifier,
    valid_text,
};

#[test]
fn character_classes_are_those_of_the_standard_library() {
    let mut code: u32 = 0;
    while code <= 0x10FFFF {
        if let Some(c) = char::from_u32(code) {
            assert_eq!(is_control(c), c.is_control());
            assert_eq!(is_white_space(c), c.is_whitespace());
        }
        code += 1;
    }
}

#[test]
fn text_is_bounded_in_bytes() {
    assert!(valid_text("abc", 3, false));
    assert!(!valid_text("abcd", 3, false));
    // Two bytes each.
    assert!(valid_text("\u{e9}\u{e9}", 4, false));
    assert!(!valid_text("\u{e9}\u{e9}", 3, false));
    assert!(valid_id(&"x".repeat(512)));
    assert!(!valid_id(&"x".repeat(513)));
    assert!(valid_idempotency_key(&"k".repeat(200)));
    assert!(!valid_idempotency_key(&"k".repeat(201)));
}

#[test]
fn blank_text_is_rejected_unless_allowed() {
    assert!(!valid_text("", 10, false));
    assert!(valid_text("", 10, true));
    assert!(!valid_text(" \u{3000} ", 10, false));
    assert!(valid_text(" \u{3000} ", 10, true));
    assert!(valid_text(" a ", 10, false));
}

#[test]
fn control_characters_are_rejected() {
    assert!(!valid_text("a\nb", 10, false));
    assert!(!valid_text("a\u{7f}", 10, true));
    assert!(!valid_text("\u{85}", 10, true));
    assert!(valid_text("a b", 10, false));
}

#[test]
fn identifiers_hold_no_white_space() {
    assert!(valid_identifier("usage-billing/database-url", 256));
    assert!(!valid_identifier("usage billing", 256));
    assert!(!valid_identifier("usage\u{2003}billing", 256));
    assert!(!valid_identifier("", 256));
    assert!(!valid_identifier("abc", 2));
}

#[test]
fn currencies_are_three_capital_letters() {
    assert!(valid_currency("USD"));
    assert!(!valid_currency("US"));
    assert!(!valid_currency("USDX"));
    assert!(!valid_currency("usd"));
    assert!(!valid_currency("U1D"));
    assert!(!valid_currency("\u{c9}U"));
}
