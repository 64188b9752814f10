use notes2md::text::{
    all_whitespace, char_in_class, char_is_whitespace, count_leading, count_trailing, find_char,
    find_last_char, from_chars, push_decimal, push_range, push_str_chars, slice_chars, to_chars,
    trimmed, trimmed_start, CharClass,
};

fn chars(s: &str) -> Vec<char> {
    s.chars().collect()
}

#[test]
fn whitespace_is_what_std_calls_whitespace() {
    let mut code: u32 = 0;
    while code <= 0x10FFFF {
        if let Some(c) = char::from_u32(code) {
            assert_eq!(c.is_whitespace(), char_is_whitespace(c), "U+{:04X}", code);
        }
        code += 1;
    }
}

#[test]
fn padding_is_space_and_dot() {
    assert!(char_in_class(' ', CharClass::Padding));
    assert!(char_in_class('.', CharClass::Padding));
    assert!(!char_in_class('\t', CharClass::Padding));
    assert!(!char_in_class(',', CharClass::Padding));
    assert!(char_in_class('\t', CharClass::Whitespace));
    assert!(!char_in_class('.', CharClass::Whitespace));
}

#[test]
fn strings_and_characters_convert_both_ways() {
    assert_eq!(vec!['a', 'ß', '日', '🙂'], to_chars("aß日🙂"));
    assert_eq!("aß日🙂", from_chars(&vec!['a', 'ß', '日', '🙂']));
    assert_eq!(Vec::<char>::new(), to_chars(""));
    assert_eq!("", from_chars(&Vec::new()));
}

#[test]
fn characters_are_appended_in_order() {
    let mut out = chars("ab");
    push_str_chars(&mut out, "cd");
    assert_eq!(chars("abcd"), out);
    push_range(&mut out, &chars("0123456"), 2, 5);
    assert_eq!(chars("abcd234"), out);
    push_range(&mut out, &chars("0123456"), 3, 3);
    assert_eq!(chars("abcd234"), out);
    assert_eq!(chars("234"), slice_chars(&chars("0123456"), 2, 5));
    assert_eq!(chars(""), slice_chars(&chars("0123456"), 7, 7));
}

#[test]
fn leading_and_trailing_characters_are_counted() {
    assert_eq!(3, count_leading(&chars(" \t\nabc "), CharClass::Whitespace));
    assert_eq!(1, count_trailing(&chars(" \t\nabc "), CharClass::Whitespace));
    assert_eq!(4, count_leading(&chars(". ..Some Title"), CharClass::Padding));
    assert_eq!(0, count_leading(&chars("abc"), CharClass::Padding));
    assert_eq!(0, count_trailing(&chars("abc"), CharClass::Whitespace));
    assert_eq!(0, count_leading(&chars(""), CharClass::Whitespace));
    assert_eq!(0, count_trailing(&chars(""), CharClass::Whitespace));
    assert_eq!(3, count_leading(&chars("   "), CharClass::Whitespace));
    assert_eq!(3, count_trailing(&chars("   "), CharClass::Whitespace));
}

#[test]
fn trimmed_is_what_std_trims() {
    let samples = [
        "",
        " ",
        "abc",
        "  abc",
        "abc  ",
        " \t a b \r\n",
        "\u{a0}x\u{2003}",
        "\u{3000}\u{85}",
        ". x .",
        "\u{feff}x",
    ];
    for sample in samples {
        assert_eq!(sample.trim(), from_chars(&trimmed(&chars(sample))), "{:?}", sample);
        assert_eq!(
            sample.trim_start(),
            from_chars(&trimmed_start(&chars(sample), CharClass::Whitespace)),
            "{:?}",
            sample
        );
        assert_eq!(
            sample.trim_start_matches([' ', '.']),
            from_chars(&trimmed_start(&chars(sample), CharClass::Padding)),
            "{:?}",
            sample
        );
        assert_eq!(sample.trim().is_empty(), all_whitespace(&chars(sample)), "{:?}", sample);
    }
}

#[test]
fn characters_are_found_from_both_ends() {
    let v = chars("a/b/c");
    assert_eq!(1, find_char(&v, 0, '/'));
    assert_eq!(1, find_char(&v, 1, '/'));
    assert_eq!(3, find_char(&v, 2, '/'));
    assert_eq!(5, find_char(&v, 4, '/'));
    assert_eq!(5, find_char(&v, 5, '/'));
    assert_eq!(5, find_char(&v, 0, 'x'));
    assert_eq!(Some(3), find_last_char(&v, '/'));
    assert_eq!(Some(0), find_last_char(&v, 'a'));
    assert_eq!(None, find_last_char(&v, 'x'));
    assert_eq!(None, find_last_char(&chars(""), 'x'));
}

#[test]
fn numbers_are_written_in_decimal() {
    let numbers: [usize; 12] = [0, 1, 9, 10, 11, 99, 100, 101, 1234567890, 4294967295, 909, 7000];
    for n in numbers {
        let mut out = chars("n=");
        push_decimal(&mut out, n);
        assert_eq!(format!("n={}", n), from_chars(&out));
    }
    let mut out = Vec::new();
    push_decimal(&mut out, usize::MAX);
    assert_eq!(format!("{}", usize::MAX), from_chars(&out));
}
