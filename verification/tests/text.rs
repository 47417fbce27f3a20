use mu::text::{compare_text, contains_str, is_float_text, lines_of, parse_number, split_str, starts_with_text, trim, TextOrder};

#[test]
fn compare_orders_by_code_point() {
    assert_eq!(compare_text("abc", "abd"), TextOrder::Before);
    assert_eq!(compare_text("ab", "abc"), TextOrder::Before);
    assert_eq!(compare_text("b", "abc"), TextOrder::After);
    assert_eq!(compare_text("Zed", "abba"), TextOrder::Before);
    assert_eq!(compare_text("same", "same"), TextOrder::Same);
    assert_eq!(compare_text("", ""), TextOrder::Same);
}

#[test]
fn lines_like_str_lines() {
    for text in ["", "a", "a\n", "a\r\nb", "a\n\nb\n", "x\r", "\n", "a\rb\r\n"] {
        let expected: Vec<String> = text.lines().map(|l| l.to_string()).collect();
        assert_eq!(lines_of(text), expected, "{text:?}");
    }
}

#[test]
fn split_like_str_split() {
    for text in ["", "a", "a\tb", "\t", "a\t\tb\t"] {
        let expected: Vec<String> = text.split('\t').map(|l| l.to_string()).collect();
        assert_eq!(split_str(text, '\t'), expected);
    }
}

#[test]
fn trim_like_str_trim() {
    for text in ["", "  a ", "\t\na b\r\n", "x"] {
        assert_eq!(trim(text), text.trim());
    }
}

#[test]
fn numbers_like_str_parse() {
    assert_eq!(parse_number("255", 255), Some(255));
    assert_eq!(parse_number("256", 255), None);
    assert_eq!(parse_number("+7", 255), Some(7));
    assert_eq!(parse_number("", 255), None);
    assert_eq!(parse_number("+", 255), None);
    assert_eq!(parse_number("1a", 255), None);
    assert_eq!(parse_number("65535", 65535), Some(65535));
}

#[test]
fn substring_and_prefix() {
    assert!(contains_str("rescan database", "scan"));
    assert!(contains_str("abc", ""));
    assert!(!contains_str("ab", "abc"));
    assert!(starts_with_text("Abba", "Ab"));
    assert!(!starts_with_text("Abba", "b"));
}

#[test]
fn float_text_like_f32_parse() {
    let cases = [
        "0", "0.0", "-1.5", "+2", ".5", "5.", "1e5", "1.5E+3", "2e-7", "1.e3", "inf", "-INF", "+Infinity",
        "nan", "NaN", "", ".", "e5", "1e", "1e+", "++1", "1.5.2", " 1", "1 ", "0x1", "1_0", "infin", "nanx",
        "-", "1.5e3.0", ".e3", "-.5", "inFINity",
    ];
    for c in cases {
        assert_eq!(is_float_text(c), c.parse::<f32>().is_ok(), "{}", c);
    }
}
