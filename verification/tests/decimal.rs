use command_counter::decimal::{parse_i64, render_i64};

#[test]
fn parses_plain_digits() {
    assert_eq!(parse_i64("0"), Some(0));
    assert_eq!(parse_i64("7"), Some(7));
    assert_eq!(parse_i64("42"), Some(42));
    assert_eq!(parse_i64("1234567890"), Some(1234567890));
}

#[test]
fn parses_an_explicit_sign() {
    assert_eq!(parse_i64("+5"), Some(5));
    assert_eq!(parse_i64("-5"), Some(-5));
    assert_eq!(parse_i64("-0"), Some(0));
    assert_eq!(parse_i64("+0"), Some(0));
}

#[test]
fn parses_leading_zeros() {
    assert_eq!(parse_i64("007"), Some(7));
    assert_eq!(parse_i64("-007"), Some(-7));
    assert_eq!(parse_i64("0000000000000000000000000000000000000001"), Some(1));
}

#[test]
fn parses_the_ends_of_the_range() {
    assert_eq!(parse_i64("9223372036854775807"), Some(i64::MAX));
    assert_eq!(parse_i64("+9223372036854775807"), Some(i64::MAX));
    assert_eq!(parse_i64("-9223372036854775808"), Some(i64::MIN));
    assert_eq!(parse_i64("-9223372036854775807"), Some(i64::MIN + 1));
}

#[test]
fn rejects_what_does_not_fit() {
    assert_eq!(parse_i64("9223372036854775808"), None);
    assert_eq!(parse_i64("-9223372036854775809"), None);
    assert_eq!(parse_i64("10000000000000000000"), None);
    assert_eq!(parse_i64("99999999999999999999999999999999999999999999"), None);
    assert_eq!(parse_i64("-99999999999999999999999999999999999999999999"), None);
}

#[test]
fn rejects_text_without_digits() {
    assert_eq!(parse_i64(""), None);
    assert_eq!(parse_i64("+"), None);
    assert_eq!(parse_i64("-"), None);
    assert_eq!(parse_i64("abc"), None);
}

#[test]
fn rejects_anything_around_the_digits() {
    assert_eq!(parse_i64(" 5"), None);
    assert_eq!(parse_i64("5 "), None);
    assert_eq!(parse_i64("5a"), None);
    assert_eq!(parse_i64("a5"), None);
    assert_eq!(parse_i64("1_000"), None);
    assert_eq!(parse_i64("1.0"), None);
    assert_eq!(parse_i64("1e3"), None);
    assert_eq!(parse_i64("--5"), None);
    assert_eq!(parse_i64("+-5"), None);
    assert_eq!(parse_i64("5-"), None);
    assert_eq!(parse_i64("0x10"), None);
}

#[test]
fn rejects_digits_outside_ascii() {
    assert_eq!(parse_i64("\u{ff15}"), None);
    assert_eq!(parse_i64("\u{0661}\u{0662}"), None);
    assert_eq!(parse_i64("12\u{e9}"), None);
    assert_eq!(parse_i64("\u{2212}5"), None);
}

#[test]
fn parse_agrees_with_the_standard_library() {
    let texts = [
        "", "0", "1", "-1", "+1", "00", "-00", "+", "-", "12345", "9223372036854775807",
        "9223372036854775808", "-9223372036854775808", "-9223372036854775809", " 1", "1 ",
        "1a", "++1", "deploy", "18446744073709551616",
    ];
    for text in texts {
        assert_eq!(parse_i64(text), text.parse::<i64>().ok(), "text {:?}", text);
    }
}

#[test]
fn renders_without_leading_zeros() {
    assert_eq!(render_i64(0), "0");
    assert_eq!(render_i64(1), "1");
    assert_eq!(render_i64(9), "9");
    assert_eq!(render_i64(10), "10");
    assert_eq!(render_i64(1203), "1203");
    assert_eq!(render_i64(1000000), "1000000");
}

#[test]
fn renders_a_sign_for_negative_values_only() {
    assert_eq!(render_i64(-1), "-1");
    assert_eq!(render_i64(-10), "-10");
    assert_eq!(render_i64(-1203), "-1203");
}

#[test]
fn renders_the_ends_of_the_range() {
    assert_eq!(render_i64(i64::MAX), "9223372036854775807");
    assert_eq!(render_i64(i64::MIN), "-9223372036854775808");
}

#[test]
fn render_agrees_with_the_standard_library() {
    let values = [0, 1, -1, 9, 10, 11, 99, 100, 101, -99, -100, 123456789, i64::MAX, i64::MIN];
    for value in values {
        assert_eq!(render_i64(value), value.to_string());
    }
}

#[test]
fn parse_reads_back_what_render_wrote() {
    let values = [
        0,
        1,
        2,
        9,
        10,
        19,
        20,
        100,
        999,
        1000,
        -1,
        -9,
        -10,
        -1000,
        i64::MAX,
        i64::MAX - 1,
        i64::MIN,
        i64::MIN + 1,
    ];
    for value in values {
        assert_eq!(parse_i64(render_i64(value).as_str()), Some(value));
    }
}
