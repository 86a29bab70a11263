use timecard_pdf::text::{
    char_is_whitespace, digit_str, format_int, get_text_from_value, push_int, push_nat,
    push_two_digits, str_eq, str_is_blank, TextValue,
};

#[test]
fn blank_strings_show_nothing() {
    assert_eq!(get_text_from_value(&TextValue::Text(String::new())), None);
    assert_eq!(get_text_from_value(&TextValue::Text("   ".to_string())), None);
    assert_eq!(get_text_from_value(&TextValue::Text("\t\n".to_string())), None);
    assert_eq!(get_text_from_value(&TextValue::Text("\u{3000}".to_string())), None);
}

#[test]
fn strings_show_themselves() {
    assert_eq!(
        get_text_from_value(&TextValue::Text("出勤".to_string())),
        Some("出勤".to_string())
    );
    assert_eq!(
        get_text_from_value(&TextValue::Text(" a ".to_string())),
        Some(" a ".to_string())
    );
}

#[test]
fn numbers_show_their_decimal_representation() {
    assert_eq!(
        get_text_from_value(&TextValue::Number("12.5".to_string())),
        Some("12.5".to_string())
    );
    assert_eq!(get_text_from_value(&TextValue::Number("0".to_string())), Some("0".to_string()));
}

#[test]
fn absent_payloads_show_nothing() {
    assert_eq!(get_text_from_value(&TextValue::Absent), None);
}

#[test]
fn white_space_is_the_unicode_property() {
    for c in [' ', '\t', '\n', '\u{0B}', '\u{0C}', '\r', '\u{85}', '\u{A0}', '\u{1680}', '\u{2000}',
        '\u{200A}', '\u{2028}', '\u{2029}', '\u{202F}', '\u{205F}', '\u{3000}']
    {
        assert!(char_is_whitespace(c), "{:?}", c);
        assert!(c.is_whitespace());
    }
    for c in ['a', '0', '\u{200B}', '\u{8}', '\u{E}', '日', '\u{180E}', '\u{FEFF}'] {
        assert!(!char_is_whitespace(c), "{:?}", c);
        assert!(!c.is_whitespace());
    }
}

#[test]
fn white_space_agrees_with_std_everywhere() {
    for u in 0u32..0x11_0000 {
        if let Some(c) = char::from_u32(u) {
            assert_eq!(char_is_whitespace(c), c.is_whitespace(), "U+{:04X}", u);
        }
    }
}

#[test]
fn blank_means_white_space_only() {
    assert!(str_is_blank(""));
    assert!(str_is_blank(" \u{3000} "));
    assert!(!str_is_blank(" x "));
    assert!(!str_is_blank("0"));
}

#[test]
fn strings_compare_by_characters() {
    assert!(str_eq("", ""));
    assert!(str_eq("公休", "公休"));
    assert!(!str_eq("公休", "有休"));
    assert!(!str_eq("a", "ab"));
}

#[test]
fn digits() {
    assert_eq!(digit_str(0), "0");
    assert_eq!(digit_str(5), "5");
    assert_eq!(digit_str(9), "9");
}

#[test]
fn integers_as_decimal_text() {
    assert_eq!(format_int(0), "0");
    assert_eq!(format_int(7), "7");
    assert_eq!(format_int(10), "10");
    assert_eq!(format_int(12_345), "12345");
    assert_eq!(format_int(-5), "-5");
    assert_eq!(format_int(-120), "-120");
    assert_eq!(format_int(i64::MAX), i64::MAX.to_string());
    assert_eq!(format_int(i64::MIN), i64::MIN.to_string());
}

#[test]
fn numbers_are_appended() {
    let mut out = "x".to_string();
    push_nat(&mut out, 305);
    assert_eq!(out, "x305");
    push_int(&mut out, -7);
    assert_eq!(out, "x305-7");
    push_two_digits(&mut out, 3);
    assert_eq!(out, "x305-703");
    push_two_digits(&mut out, 12);
    assert_eq!(out, "x305-70312");
    push_two_digits(&mut out, 123);
    assert_eq!(out, "x305-70312123");
    push_nat(&mut out, u64::MAX);
    assert_eq!(out, format!("x305-70312123{}", u64::MAX));
}
