use notes2md::error::ErrorKind;
use notes2md::processor::markdown::{
    frame_markdown, increment_filepath_if_exists, serialize_markdown, serialize_meta,
    title_to_filepath, write_markdown, Markdown, MarkdownMeta,
};
use std::path::PathBuf;

#[test]
fn serialize_meta_with_all_fields() {
    let source = MarkdownMeta {
        title: String::from("A title"),
        created: String::from("2022-01-13T22:36:18.906Z"),
        modified: String::from("2022-01-14T07:36:50.656Z"),
        deleted: Some(true),
        favorited: Some(true),
        pinned: Some(true),
        tags: Some(vec![String::from("Personal"), String::from("Business")]),
    };
    let expected = r#"---
title: A title
created: "2022-01-13T22:36:18.906Z"
modified: "2022-01-14T07:36:50.656Z"
deleted: true
favorited: true
pinned: true
tags:
  - Personal
  - Business
"#;
    let actual = serialize_meta(&source).unwrap();
    println!("{}", expected);
    println!("{}", actual);
    assert_eq!(expected, actual);
}

#[test]
fn serialize_meta_with_minimal_fields() {
    let source = MarkdownMeta {
        title: String::from("A title"),
        created: String::from("2022-01-13T22:36:18.906Z"),
        modified: String::from("2022-01-14T07:36:50.656Z"),
        deleted: None,
        favorited: None,
        pinned: None,
        tags: None,
    };
    let expected = r#"---
title: A title
created: "2022-01-13T22:36:18.906Z"
modified: "2022-01-14T07:36:50.656Z"
"#;
    let actual = serialize_meta(&source).unwrap();
    println!("{}", expected);
    println!("{}", actual);
    assert_eq!(expected, actual);
}

#[test]
fn serialize_markdown_with_all_meta_fields() {
    let meta = MarkdownMeta {
        title: String::from("A title"),
        created: String::from("2022-01-13T22:36:18.906Z"),
        modified: String::from("2022-01-14T07:36:50.656Z"),
        deleted: Some(true),
        favorited: Some(true),
        pinned: Some(true),
        tags: Some(vec![String::from("Personal"), String::from("Business")]),
    };
    let source = Markdown {
        meta: meta,
        content: String::from("This is a\ngreat piece of\nsample content!"),
    };
    let expected = r#"---
title: A title
created: "2022-01-13T22:36:18.906Z"
modified: "2022-01-14T07:36:50.656Z"
deleted: true
favorited: true
pinned: true
tags:
  - Personal
  - Business
---
This is a
great piece of
sample content!
"#;
    let actual = serialize_markdown(&source).unwrap();
    println!("{}", expected);
    println!("{}", actual);
    assert_eq!(expected, actual);
}

#[test]
fn serialize_markdown_with_minimal_meta_fields() {
    let meta = MarkdownMeta {
        title: String::from("A title"),
        created: String::from("2022-01-13T22:36:18.906Z"),
        modified: String::from("2022-01-14T07:36:50.656Z"),
        deleted: None,
        favorited: None,
        pinned: None,
        tags: None,
    };
    let source = Markdown {
        meta: meta,
        content: String::from("This is a\ngreat piece of\nsample content!"),
    };
    let expected = r#"---
title: A title
created: "2022-01-13T22:36:18.906Z"
modified: "2022-01-14T07:36:50.656Z"
---
This is a
great piece of
sample content!
"#;
    let actual = serialize_markdown(&source).unwrap();
    println!("{}", expected);
    println!("{}", actual);
    assert_eq!(expected, actual);
}

#[test]
fn filepath_invalid_empty() {
    let path = PathBuf::from("/tmp");
    let title = "";
    let error = title_to_filepath(path.to_str().unwrap(), title).unwrap_err();
    assert_eq!(ErrorKind::InvalidData, error.kind());
    assert_eq!(
        format!("title: '{}' is not valid for a filename", title),
        error.to_text()
    );
}

#[test]
fn filename_strips_leading_trailing_spaces() {
    let path = PathBuf::from("/tmp");
    let title = "  A Title With Spaces  ";
    let actual = PathBuf::from(title_to_filepath(path.to_str().unwrap(), title).unwrap());
    let mut expected = PathBuf::from(path.to_str().unwrap());
    expected.push(title.trim_start_matches(" ").trim_end_matches(" "));
    expected.set_extension("md");
    assert_eq!(actual, expected);
}

#[test]
fn filename_simple_success() {
    let path = PathBuf::from("/tmp");
    let title = "A Simple Filename";
    let actual = PathBuf::from(title_to_filepath(path.to_str().unwrap(), title).unwrap());
    let mut expected = PathBuf::from(path.to_str().unwrap());
    expected.push(title.trim_start_matches(" ").trim_end_matches(" "));
    expected.set_extension("md");
    assert_eq!(actual, expected);
}

#[test]
fn filename_uses_last_slash_part() {
    let path = PathBuf::from("/tmp");
    let title = "https://www.rust-lang.org/learn/get-started";
    let actual = PathBuf::from(title_to_filepath(path.to_str().unwrap(), title).unwrap());
    let mut expected = PathBuf::from(path.to_str().unwrap());
    expected.push("get-started");
    expected.set_extension("md");
    assert_eq!(actual, expected);
}

#[test]
fn filename_strips_question_and_colon() {
    let path = PathBuf::from("/tmp");
    let title = "A: Simple? Filename";
    let actual = PathBuf::from(title_to_filepath(path.to_str().unwrap(), title).unwrap());
    let mut expected = PathBuf::from(path.to_str().unwrap());
    expected.push("A_ Simple_ Filename");
    expected.set_extension("md");
    assert_eq!(actual, expected);
}

#[test]
fn filename_url_part_with_trailing_slash() {
    let path = PathBuf::from("/tmp");
    let title = "http://example.com/name-with-trailing-slash/";
    let actual = PathBuf::from(title_to_filepath(path.to_str().unwrap(), title).unwrap());
    let mut expected = PathBuf::from(path.to_str().unwrap());
    expected.push("name-with-trailing-slash");
    expected.set_extension("md");
    assert_eq!(actual, expected);
}

#[test]
fn filename_with_leading_dots() {
    let path = PathBuf::from("/tmp");
    let title = ". ..Some Title";
    let actual = PathBuf::from(title_to_filepath(path.to_str().unwrap(), title).unwrap());
    let mut expected = PathBuf::from(path.to_str().unwrap());
    expected.push("Some Title");
    expected.set_extension("md");
    assert_eq!(actual, expected);
}

#[test]
fn filepath_increments_if_already_exists_once() {
    let existing = vec![String::from("test_data/dir_you_can_write/single-exists.md")];
    let path = "test_data/dir_you_can_write/single-exists.md";
    let expected = PathBuf::from("test_data/dir_you_can_write/single-exists (1).md");
    let actual = PathBuf::from(increment_filepath_if_exists(path, &existing));
    assert_eq!(actual, expected);
}

#[test]
fn filepath_increments_if_already_exists_n3() {
    // the directory holds `sample-exists.md` and its variants `(1)` and `(2)`, so `(3)` is next
    let existing = vec![
        String::from("test_data/dir_you_can_write/sample-exists (1).md"),
        String::from("test_data/dir_you_can_write/sample-exists (2).md"),
        String::from("test_data/dir_you_can_write/sample-exists.md"),
        String::from("test_data/dir_you_can_write/single-exists.md"),
    ];
    let path = "test_data/dir_you_can_write/sample-exists.md";
    let expected = PathBuf::from("test_data/dir_you_can_write/sample-exists (3).md");
    let actual = PathBuf::from(increment_filepath_if_exists(path, &existing));
    assert_eq!(actual, expected);
}

#[test]
fn markdown_writes_correct_content_to_expected_file() {
    let expected = r#"---
title: A title
created: "2022-01-13T22:36:18.906Z"
modified: "2022-01-14T07:36:50.656Z"
deleted: true
favorited: true
pinned: true
tags:
  - Personal
  - Business
---
This is a
great piece of
sample content!
"#;
    let meta = MarkdownMeta {
        title: String::from("A title"),
        created: String::from("2022-01-13T22:36:18.906Z"),
        modified: String::from("2022-01-14T07:36:50.656Z"),
        deleted: Some(true),
        favorited: Some(true),
        pinned: Some(true),
        tags: Some(vec![String::from("Personal"), String::from("Business")]),
    };
    let source = Markdown {
        meta: meta,
        content: String::from("This is a\ngreat piece of\nsample content!"),
    };
    let mut existing: Vec<String> = Vec::new();
    let file = write_markdown(source, "test_data/out", &mut existing).unwrap();

    assert_eq!("test_data/out/A title.md", file.path);
    println!("{}", expected);
    println!("{}", file.text);
    assert_eq!(expected, file.text);
    assert_eq!(vec![String::from("test_data/out/A title.md")], existing);
}

#[test]
fn frame_markdown_puts_a_rule_between_and_a_line_feed_behind() {
    assert_eq!(
        "---\ntitle: T\n---\nbody\n",
        frame_markdown(String::from("---\ntitle: T\n"), "body")
    );
    assert_eq!("---\n\n", frame_markdown(String::new(), ""));
    assert_eq!("a---\nb\n\n", frame_markdown(String::from("a"), "b\n"));
}

#[test]
fn write_markdown_reports_the_title_before_anything_else() {
    let source = Markdown {
        meta: MarkdownMeta {
            title: String::from(" . "),
            created: String::from("c"),
            modified: String::from("m"),
            deleted: None,
            favorited: None,
            pinned: None,
            tags: None,
        },
        content: String::from("body"),
    };
    let mut existing = vec![String::from("out/x.md")];
    let error = write_markdown(source, "out", &mut existing).unwrap_err();
    assert_eq!(ErrorKind::InvalidData, error.kind());
    assert_eq!("title: ' . ' is not valid for a filename", error.to_text());
    assert_eq!(vec![String::from("out/x.md")], existing);
}

#[test]
fn write_markdown_takes_the_next_free_path() {
    let mut existing = vec![String::from("out/A title.md"), String::from("out/A title (1).md")];
    for expected in ["out/A title (2).md", "out/A title (3).md"] {
        let source = Markdown {
            meta: MarkdownMeta {
                title: String::from("A title"),
                created: String::from("c"),
                modified: String::from("m"),
                deleted: None,
                favorited: None,
                pinned: None,
                tags: None,
            },
            content: String::from("body"),
        };
        let file = write_markdown(source, "out", &mut existing).unwrap();
        assert_eq!(expected, file.path);
        assert_eq!("---\ntitle: A title\ncreated: c\nmodified: m\n---\nbody\n", file.text);
        assert_eq!(Some(&String::from(expected)), existing.last());
    }
    assert_eq!(4, existing.len());
}
