use httpie::text::{
    chars_of, digit_char, find_char, is_whitespace, push_decimal, same_chars,
    same_ignoring_ascii_case, starts_with, starts_with_at, string_of, to_ascii_lower, trim_bounds,
};

fn chars(s: &str) -> Vec<char> {
    s.chars().collect()
}

#[test]
fn chars_of_lists_the_characters() {
    assert_eq!(chars_of(""), Vec::<char>::new());
    assert_eq!(chars_of("aé😀"), vec!['a', 'é', '😀']);
}

#[test]
fn string_of_copies_a_range() {
    let v = chars("héllo");
    assert_eq!(string_of(&v, 0, 5), "héllo");
    assert_eq!(string_of(&v, 1, 3), "él");
    assert_eq!(string_of(&v, 2, 2), "");
}

#[test]
fn white_space_is_what_the_standard_library_says() {
    let mut n: u32 = 0;
    while n <= 0x10FFFF {
        if let Some(c) = char::from_u32(n) {
            assert_eq!(is_whitespace(c), c.is_whitespace(), "U+{:04X}", n);
        }
        n += 1;
    }
}

#[test]
fn ascii_lower_is_what_the_standard_library_says() {
    let mut n: u32 = 0;
    while n <= 0x10FFFF {
        if let Some(c) = char::from_u32(n) {
            assert_eq!(to_ascii_lower(c), c.to_ascii_lowercase(), "U+{:04X}", n);
        }
        n += 1;
    }
}

#[test]
fn trim_bounds_leave_out_the_white_space_around() {
    let v = chars(" \t a b \r\n");
    assert_eq!(trim_bounds(&v, 0, v.len()), (3, 6));
    assert_eq!(trim_bounds(&v, 4, 9), (5, 6));
    let blank = chars(" \u{3000}\u{a0} ");
    let (lo, hi) = trim_bounds(&blank, 0, blank.len());
    assert_eq!(lo, hi);
    let plain = chars("ab");
    assert_eq!(trim_bounds(&plain, 0, 2), (0, 2));
    assert_eq!(trim_bounds(&plain, 1, 1), (1, 1));
}

#[test]
fn trim_bounds_agree_with_the_standard_library() {
    for s in ["", " ", "a", " a", "a ", "  a  b  ", "\u{2003}x\u{2028}", "\n\r\t", "#  x"] {
        let v = chars(s);
        let (lo, hi) = trim_bounds(&v, 0, v.len());
        assert_eq!(string_of(&v, lo, hi), s.trim());
    }
}

#[test]
fn find_char_gives_the_first_position() {
    let v = chars("a=b=c");
    assert_eq!(find_char(&v, 0, 5, '='), 1);
    assert_eq!(find_char(&v, 2, 5, '='), 3);
    assert_eq!(find_char(&v, 4, 5, '='), 5);
    assert_eq!(find_char(&v, 0, 1, '='), 1);
    assert_eq!(find_char(&v, 0, 0, '='), 0);
}

#[test]
fn starts_with_compares_the_first_characters() {
    assert!(starts_with(&chars("http://x"), &chars("http://")));
    assert!(starts_with(&chars("abc"), &chars("")));
    assert!(starts_with(&chars("abc"), &chars("abc")));
    assert!(!starts_with(&chars("ab"), &chars("abc")));
    assert!(!starts_with(&chars("abd"), &chars("abc")));
    let v = chars("xxabcxx");
    assert!(starts_with_at(&v, 2, 7, &chars("abc")));
    assert!(!starts_with_at(&v, 2, 4, &chars("abc")));
    assert!(!starts_with_at(&v, 1, 7, &chars("abc")));
}

#[test]
fn same_chars_is_equality() {
    assert!(same_chars(&chars("abc"), &chars("abc")));
    assert!(same_chars(&chars(""), &chars("")));
    assert!(!same_chars(&chars("abc"), &chars("abd")));
    assert!(!same_chars(&chars("abc"), &chars("ab")));
    assert!(!same_chars(&chars("ab"), &chars("abc")));
}

#[test]
fn case_of_ascii_letters_can_be_ignored() {
    assert!(same_ignoring_ascii_case(&chars("Content-Type"), &chars("content-type")));
    assert!(same_ignoring_ascii_case(&chars("CONTENT-TYPE"), &chars("content-type")));
    assert!(!same_ignoring_ascii_case(&chars("content-type"), &chars("content_type")));
    assert!(!same_ignoring_ascii_case(&chars("content-type "), &chars("content-type")));
    assert!(!same_ignoring_ascii_case(&chars("É"), &chars("é")));
}

#[test]
fn decimal_digits() {
    let mut all = String::new();
    for d in 0..10u16 {
        all.push(digit_char(d));
    }
    assert_eq!(all, "0123456789");
}

#[test]
fn decimal_is_appended() {
    for n in [0u16, 7, 10, 99, 100, 200, 404, 999, 1000, 9999, 10000, 65535] {
        let mut s = String::from("x");
        push_decimal(&mut s, n);
        assert_eq!(s, format!("x{}", n));
    }
}
