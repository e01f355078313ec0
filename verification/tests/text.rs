use r_ressources::text::{
    chars_eq, chars_of, contains_char, find_from, int_to_string, is_text_less, is_whitespace,
    join_strings,
    nat_to_string, pad, str_eq, string_of, string_of_range, trim, trim_bounds,
};
use r_ressources::utils::{format_doc, split_lines};
use r_ressources::{Color, UrlParts};

#[test]
fn characters_and_back() {
    let v = chars_of("héllo");
    assert_eq!(v, vec!['h', 'é', 'l', 'l', 'o']);
    assert_eq!(string_of(&v), "héllo");
    assert_eq!(string_of_range(&v, 1, 3), "él");
    assert_eq!(string_of_range(&v, 2, 2), "");
}

#[test]
fn equality_and_search() {
    assert!(str_eq("abc", "abc"));
    assert!(!str_eq("abc", "abd"));
    assert!(!str_eq("abc", "ab"));
    assert!(chars_eq(&vec![], &vec![]));
    assert!(contains_char("a.b", '.'));
    assert!(!contains_char("ab", '.'));
    let v = chars_of("a/b/c");
    assert_eq!(find_from(&v, '/', 0), Some(1));
    assert_eq!(find_from(&v, '/', 2), Some(3));
    assert_eq!(find_from(&v, '/', 4), None);
    assert_eq!(find_from(&v, '/', 9), None);
}

#[test]
fn trimming() {
    assert_eq!(trim("  a b \t\n"), "a b");
    assert_eq!(trim("\u{a0}x\u{3000}"), "x");
    assert_eq!(trim("   "), "");
    assert_eq!(trim(""), "");
    assert_eq!(trim_bounds(&chars_of("  ab ")), (2, 4));
}

#[test]
fn decimal_notation() {
    assert_eq!(nat_to_string(0), "0");
    assert_eq!(nat_to_string(7), "7");
    assert_eq!(nat_to_string(1234567890), "1234567890");
    assert_eq!(nat_to_string(u64::MAX), "18446744073709551615");
    assert_eq!(int_to_string(-1), "-1");
    assert_eq!(int_to_string(i64::MIN), "-9223372036854775808");
    assert_eq!(int_to_string(i64::MAX), "9223372036854775807");
}

#[test]
fn padding_and_joining() {
    assert_eq!(pad(0), "");
    assert_eq!(pad(4), "    ");
    assert_eq!(join_strings(&vec![], ", "), "");
    assert_eq!(join_strings(&vec!["a".to_string()], ", "), "a");
    assert_eq!(join_strings(&vec!["a".to_string(), "b".to_string(), "".to_string()], "/"), "a/b/");
}

#[test]
fn text_order_is_the_order_of_strings() {
    let samples = ["", "a", "ab", "b", "B", "é", "z", "a/b", "ab_"];
    for x in samples {
        for y in samples {
            assert_eq!(is_text_less(x, y), x < y, "{x:?} {y:?}");
        }
    }
}

#[test]
fn lines_as_the_standard_library_splits_them() {
    for s in ["", "a", "a\n", "a\nb", "a\r\nb\r\n", "\n", "\n\n", "a\r", "a\rb\n", "\r\n"] {
        let expected: Vec<String> = s.lines().map(|l| l.to_string()).collect();
        assert_eq!(split_lines(s), expected, "{s:?}");
    }
}

#[test]
fn documentation_comments() {
    assert_eq!(format_doc(&None, 4), "");
    assert_eq!(format_doc(&Some(String::new()), 4), "");
    assert_eq!(format_doc(&Some("One.".to_string()), 0), "/// One.\n");
    assert_eq!(
        format_doc(&Some("  One.  \nTwo.\n".to_string()), 4),
        "    /// One.\n    /// Two.\n"
    );
}

#[test]
fn color_channels() {
    let c = Color::new(0x12, 0x34, 0x56, 0x78);
    assert_eq!((c.r(), c.g(), c.b(), c.a()), (0x12, 0x34, 0x56, 0x78));
    assert_eq!(c.to_rgba_u32(), 0x7812_3456);
    assert_eq!(c.to_rgb_tuple(), (0x12, 0x34, 0x56));
    assert_eq!(Color::new(255, 255, 255, 255).to_rgba_u32(), u32::MAX);
    assert_eq!(Color::new(0, 0, 0, 0).to_rgba_u32(), 0);
    assert_eq!(c, Color::new(0x12, 0x34, 0x56, 0x78));
}

#[test]
fn url_parts() {
    let u = UrlParts::new("https", "example.com", "/api");
    assert_eq!(u.scheme(), "https");
    assert_eq!(u.host(), "example.com");
    assert_eq!(u.path(), "/api");
}

#[test]
fn whitespace_is_what_the_standard_library_calls_whitespace() {
    for code in 0..=0x10ffff_u32 {
        if let Some(c) = char::from_u32(code) {
            assert_eq!(is_whitespace(c), c.is_whitespace(), "{code:#x}");
        }
    }
}
