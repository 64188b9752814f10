use notes2md::processor::title::{title_from_content, TITLE_LIMIT};
use regex::Regex;

fn title_by_patterns(content: &str) -> String {
    let link_target = Regex::new(r"\([^)]*\)").unwrap();
    let banned = Regex::new(r#"['"`#()!~>_\[\]\*]"#).unwrap();
    let mut first_line = "";
    for line in content.lines() {
        if "" != line.trim() {
            first_line = line;
            break;
        }
    }
    let without_targets = link_target.replace_all(first_line, "").to_string();
    let plain = banned.replace_all(&without_targets, "").to_string();
    let title = plain.trim_start_matches([' ', '.']).trim();
    title.chars().take(200).collect()
}

#[test]
fn title_agrees_with_the_patterns_it_stands_for() {
    let samples = [
        "",
        "\n",
        "\r\n",
        "   \n\t\n",
        "plain",
        "plain\n",
        "plain\r\n",
        "plain\r",
        "first\nsecond",
        "\n\n  \nthird line is first\nfourth",
        " \r\n\t\r\nafter blank lines\r\nmore",
        "# Heading",
        "## *Emphasis* and `code`",
        "> quoted _text_",
        "[link](http://example.com) tail",
        "[one](a) and [two](b)",
        "![image](pic.png)",
        "(only a target)",
        "()",
        "(",
        ")",
        ")(",
        "a(b",
        "a)b",
        "a)b(c",
        "a(b)c(d",
        "a(b(c)d)e",
        "((a)b)",
        "(a)(b)(c)",
        "x (y) z (w",
        "(((",
        ")))",
        "a ( b ) c",
        "(\r)",
        "tab\t(inside\ttarget)\tkept",
        ". .. dotted",
        "...",
        " . # . ",
        ".\t.x",
        "#.hidden",
        "it's \"quoted\"",
        "a_b_c",
        "!~>[]*'\"`#()_",
        "  spaced   out  ",
        "\u{a0}no-break\u{a0}",
        "\u{2003}em\u{3000}",
        "日本語のタイトル (注)",
        "émoji 🙂 (🙃) end",
        "url https://www.rust-lang.org/learn/get-started",
        "trailing dots...",
        "mid.dle",
        "(a)\n(b)",
        "line with \u{b} vertical tab",
        "\u{c}form feed first\nnext",
    ];
    for sample in samples {
        assert_eq!(
            title_by_patterns(sample),
            title_from_content(&String::from(sample)),
            "{:?}",
            sample
        );
    }
}

#[test]
fn title_agrees_with_the_patterns_on_generated_lines() {
    let alphabet = ['a', '(', ')', ' ', '.', '#', '\n', '\r', '_', 'é'];
    let mut seed: u64 = 0x2545F4914F6CDD1D;
    for _ in 0..3000 {
        let mut sample = String::new();
        seed ^= seed << 13;
        seed ^= seed >> 7;
        seed ^= seed << 17;
        let length = (seed % 14) as usize;
        for _ in 0..length {
            seed ^= seed << 13;
            seed ^= seed >> 7;
            seed ^= seed << 17;
            sample.push(alphabet[(seed % alphabet.len() as u64) as usize]);
        }
        assert_eq!(
            title_by_patterns(&sample),
            title_from_content(&sample),
            "{:?}",
            sample
        );
    }
}

#[test]
fn title_of_punctuation_is_empty() {
    assert_eq!("", title_from_content(&String::from("# ~ _ *")));
    assert_eq!("", title_from_content(&String::from("(all of it is a target)")));
    assert_eq!("", title_from_content(&String::from(" . . . ")));
    assert_eq!("", title_from_content(&String::from("\n\n\n")));
}

#[test]
fn title_is_cut_by_characters_not_bytes() {
    let long: String = std::iter::repeat('é').take(250).collect();
    let expected: String = std::iter::repeat('é').take(200).collect();
    let actual = title_from_content(&long);
    assert_eq!(expected, actual);
    assert_eq!(200, actual.chars().count());
    assert_eq!(400, actual.len());
    assert_eq!(200, TITLE_LIMIT);
}

#[test]
fn title_of_exactly_the_limit_is_kept() {
    let exact: String = std::iter::repeat('x').take(200).collect();
    assert_eq!(exact, title_from_content(&exact));
    let under: String = std::iter::repeat('x').take(199).collect();
    assert_eq!(under, title_from_content(&under));
    let over: String = std::iter::repeat('x').take(201).collect();
    assert_eq!(exact, title_from_content(&over));
}

#[test]
fn title_is_cut_after_it_is_trimmed() {
    let mut body = String::from("   ");
    for _ in 0..199 {
        body.push('x');
    }
    body.push_str(" yz");
    let mut expected = String::new();
    for _ in 0..199 {
        expected.push('x');
    }
    expected.push(' ');
    assert_eq!(expected, title_from_content(&body));
}

#[test]
fn clean_line_is_its_own_title() {
    for line in ["A clean title", "x", "with.dot inside", "däs ist güt", "a-b+c=d"] {
        assert_eq!(line, title_from_content(&String::from(line)));
        assert_eq!(line, title_from_content(&format!("{}\nand more text", line)));
        assert_eq!(line, title_from_content(&format!("  {} \t\r\nand more text", line)));
        assert_eq!(line, title_from_content(&title_from_content(&String::from(line))));
    }
}

#[test]
fn title_has_the_shape_of_a_title() {
    let bodies = [
        "# A (b) c\nrest",
        "\n\n> ![x](y) `z`\n",
        "plain text that goes on",
        ". . .",
        "'quoted' \"twice\"",
    ];
    for body in bodies {
        let title = title_from_content(&String::from(body));
        assert!(title.chars().count() <= TITLE_LIMIT);
        assert!(!title.contains('\n'));
        for banned in ['\'', '"', '`', '#', '(', ')', '!', '~', '>', '_', '[', ']', '*'] {
            assert!(!title.contains(banned), "{:?} in {:?}", banned, title);
        }
    }
}
