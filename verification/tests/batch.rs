use notes2md::error::{ErrorKind, NoteError};
use notes2md::preflight::{NodeKind, Probe};
use notes2md::processor::markdown::{write_markdown, Markdown, MarkdownMeta, NoteFile};
use notes2md::processor::simplenote::{
    convert_to_markdown, process, process_export, process_notes, Outcome, SimpleNote, SimpleNotes,
};
use notes2md::{process_applenotes, process_simplenote, Observed};

fn note(content: &str) -> SimpleNote {
    SimpleNote {
        id: String::from("id"),
        content: String::from(content),
        creation_date: String::from("2022-01-13T22:36:18.906Z"),
        last_modified: String::from("2022-01-14T07:36:50.656Z"),
        markdown: None,
        pinned: None,
        tags: None,
    }
}

fn text_of(title: &str, body: &str) -> String {
    format!(
        "---\ntitle: {}\ncreated: \"2022-01-13T22:36:18.906Z\"\nmodified: \"2022-01-14T07:36:50.656Z\"\n---\n{}\n",
        title, body
    )
}

fn paths(outcomes: &Vec<Outcome>) -> Vec<String> {
    let mut found = Vec::new();
    for outcome in outcomes {
        if let Outcome::Written(file) = outcome {
            found.push(file.path.clone());
        }
    }
    found
}

fn ready(content: &str, existing: Vec<String>) -> Observed {
    Observed {
        dest: Probe { node: Ok(NodeKind::Directory), access: Ok(()) },
        source: Probe { node: Ok(NodeKind::File), access: Ok(()) },
        content: Ok(Vec::from(content.as_bytes())),
        existing,
    }
}

#[test]
fn two_notes_with_one_title_get_two_files() {
    let notes = vec![note("Same title\nfirst body"), note("Same title\nsecond body")];
    let mut existing: Vec<String> = Vec::new();
    let outcomes = process_notes(Some(notes), false, "out", &mut existing);
    assert_eq!(
        vec![
            Outcome::Written(NoteFile {
                path: String::from("out/Same title.md"),
                text: text_of("Same title", "Same title\nfirst body"),
            }),
            Outcome::Written(NoteFile {
                path: String::from("out/Same title (1).md"),
                text: text_of("Same title", "Same title\nsecond body"),
            }),
        ],
        outcomes
    );
    assert_eq!(
        vec![String::from("out/Same title.md"), String::from("out/Same title (1).md")],
        existing
    );
}

#[test]
fn three_notes_with_one_title_beside_files_that_exist() {
    let notes = vec![note("T"), note("T"), note("T")];
    let mut existing = vec![String::from("out/T.md"), String::from("out/T (2).md")];
    let outcomes = process_notes(Some(notes), false, "out", &mut existing);
    assert_eq!(
        vec![
            String::from("out/T (1).md"),
            String::from("out/T (3).md"),
            String::from("out/T (4).md"),
        ],
        paths(&outcomes)
    );
    assert_eq!(5, existing.len());
}

#[test]
fn a_note_without_a_title_fails_and_the_run_goes_on() {
    let notes = vec![note("first"), note("# ~ _ *\nno title in the first line"), note("third")];
    let mut existing: Vec<String> = Vec::new();
    let outcomes = process_notes(Some(notes), false, "out", &mut existing);
    assert_eq!(3, outcomes.len());
    assert_eq!(
        Outcome::Written(NoteFile {
            path: String::from("out/first.md"),
            text: text_of("first", "first"),
        }),
        outcomes[0]
    );
    assert_eq!(
        Outcome::Failed(NoteError::new(
            ErrorKind::InvalidData,
            String::from("title: '' is not valid for a filename"),
        )),
        outcomes[1]
    );
    assert_eq!(
        Outcome::Written(NoteFile {
            path: String::from("out/third.md"),
            text: text_of("third", "third"),
        }),
        outcomes[2]
    );
    assert_eq!(vec![String::from("out/first.md"), String::from("out/third.md")], existing);
}

#[test]
fn a_run_over_no_notes_writes_nothing() {
    let mut existing = vec![String::from("out/kept.md")];
    let outcomes = process_notes(Some(Vec::new()), true, "out", &mut existing);
    assert_eq!(Vec::<Outcome>::new(), outcomes);
    assert_eq!(vec![String::from("out/kept.md")], existing);
}

#[test]
fn an_absent_part_gives_a_notice() {
    let mut existing: Vec<String> = Vec::new();
    assert_eq!(
        vec![Outcome::Notice(String::from("No active notes found to process."))],
        process_notes(None, false, "out", &mut existing)
    );
    assert_eq!(
        vec![Outcome::Notice(String::from("No trashed notes found to process."))],
        process_notes(None, true, "out", &mut existing)
    );
    assert!(existing.is_empty());
}

#[test]
fn an_empty_export_gives_two_notices_and_no_file() {
    let outcomes = process_simplenote("notes.json", "out", ready("{}", Vec::new())).unwrap();
    assert_eq!(
        vec![
            Outcome::Notice(String::from("No active notes found to process.")),
            Outcome::Notice(String::from("No trashed notes found to process.")),
        ],
        outcomes
    );
    assert!(paths(&outcomes).is_empty());
}

#[test]
fn notes_from_the_trash_are_marked_as_deleted() {
    let export = SimpleNotes {
        active_notes: Some(vec![note("kept")]),
        trashed_notes: Some(vec![note("thrown away")]),
    };
    let mut existing: Vec<String> = Vec::new();
    let outcomes = process_export(export, "out", &mut existing);
    assert_eq!(
        vec![
            Outcome::Written(NoteFile {
                path: String::from("out/kept.md"),
                text: text_of("kept", "kept"),
            }),
            Outcome::Written(NoteFile {
                path: String::from("out/thrown away.md"),
                text: String::from(
                    "---\ntitle: thrown away\ncreated: \"2022-01-13T22:36:18.906Z\"\nmodified: \"2022-01-14T07:36:50.656Z\"\ndeleted: true\n---\nthrown away\n"
                ),
            }),
        ],
        outcomes
    );
}

#[test]
fn a_note_in_the_trash_keeps_clear_of_a_note_in_use() {
    let export = SimpleNotes {
        active_notes: Some(vec![note("same")]),
        trashed_notes: Some(vec![note("same")]),
    };
    let mut existing: Vec<String> = Vec::new();
    let outcomes = process_export(export, "out", &mut existing);
    assert_eq!(
        vec![String::from("out/same.md"), String::from("out/same (1).md")],
        paths(&outcomes)
    );
}

#[test]
fn convert_marks_the_trash_and_passes_the_rest_on() {
    let source = SimpleNote {
        id: String::from("someid"),
        content: String::from("# The *title*\r\nfirst line\r\nsecond line\rstill second\r\n"),
        creation_date: String::from("created"),
        last_modified: String::from("modified"),
        markdown: Some(true),
        pinned: Some(false),
        tags: Some(vec![String::from("b"), String::from("a")]),
    };
    let expected = Markdown {
        meta: MarkdownMeta {
            title: String::from("The title"),
            created: String::from("created"),
            modified: String::from("modified"),
            deleted: Some(true),
            favorited: None,
            pinned: Some(false),
            tags: Some(vec![String::from("b"), String::from("a")]),
        },
        content: String::from("# The *title*\nfirst line\nsecond line\rstill second\n"),
    };
    assert_eq!(expected, convert_to_markdown(source, true));
}

#[test]
fn convert_takes_only_carriage_returns_before_line_feeds() {
    let markdown = convert_to_markdown(note("a\r\r\nb\r\n\r\nc\rd\n\re\r"), false);
    assert_eq!("a\r\nb\n\nc\rd\n\re\r", markdown.content);
    assert_eq!("a", markdown.meta.title);
}

#[test]
fn write_markdown_leaves_the_paths_alone_where_it_fails() {
    let markdown = convert_to_markdown(note("..."), false);
    let mut existing = vec![String::from("out/a.md")];
    let error = write_markdown(markdown, "out", &mut existing).unwrap_err();
    assert_eq!(ErrorKind::InvalidData, error.kind());
    assert_eq!("title: '' is not valid for a filename", error.to_text());
    assert_eq!(vec![String::from("out/a.md")], existing);
}

#[test]
fn simplenote_converted_and_written_to_expected_file() {
    let source = r##"{
        "activeNotes": [
            {
                "id": "1",
                "content": "# Sample Document\r\n\r\nSome text.",
                "creationDate": "2022-01-13T22:36:18.906Z",
                "lastModified": "2022-01-14T07:36:50.656Z",
                "markdown": true,
                "pinned": true,
                "tags": ["Personal", "Business"]
            }
        ],
        "trashedNotes": []
    }"##;
    let mut existing = vec![String::from("test_data/out/Other.md")];
    let outcomes =
        process(
            "test_data/simplenote-single.json",
            Vec::from(source.as_bytes()),
            "test_data/out",
            &mut existing,
        )
        .unwrap();
    assert_eq!(
        vec![Outcome::Written(NoteFile {
            path: String::from("test_data/out/Sample Document.md"),
            text: String::from(
                "---\ntitle: Sample Document\ncreated: \"2022-01-13T22:36:18.906Z\"\nmodified: \"2022-01-14T07:36:50.656Z\"\npinned: true\ntags:\n  - Personal\n  - Business\n---\n# Sample Document\n\nSome text.\n"
            ),
        })],
        outcomes
    );
    assert_eq!(
        vec![
            String::from("test_data/out/Other.md"),
            String::from("test_data/out/Sample Document.md"),
        ],
        existing
    );
}

#[test]
fn process_fails_on_bytes_that_are_no_text() {
    let mut existing: Vec<String> = Vec::new();
    let error = process("notes.json", vec![0xff, 0xfe], "out", &mut existing).unwrap_err();
    assert_eq!(ErrorKind::InvalidData, error.kind());
    assert_eq!(
        "source_file: 'notes.json' contains data which is not UTF8",
        error.to_text()
    );
    assert!(existing.is_empty());
}

#[test]
fn process_fails_on_text_that_is_no_json() {
    let mut existing: Vec<String> = Vec::new();
    let error =
        process("notes.json", Vec::from("{ not json".as_bytes()), "out", &mut existing)
            .unwrap_err();
    assert_eq!(ErrorKind::InvalidData, error.kind());
    assert!(error.to_text().contains("line 1"), "{}", error.to_text());
    assert!(existing.is_empty());
}

#[test]
fn process_simplenote_checks_the_destination_first() {
    let observed = Observed {
        dest: Probe {
            node: Err(NoteError::new(ErrorKind::NotFound, String::from("os error 2"))),
            access: Ok(()),
        },
        source: Probe {
            node: Err(NoteError::new(ErrorKind::NotFound, String::from("os error 2"))),
            access: Ok(()),
        },
        content: Err(NoteError::new(ErrorKind::NotFound, String::from("os error 2"))),
        existing: Vec::new(),
    };
    let error = process_simplenote("notes.json", "out", observed).unwrap_err();
    assert_eq!(ErrorKind::NotFound, error.kind());
    assert_eq!("dest_dir: 'out' not found", error.to_text());
}

#[test]
fn process_simplenote_checks_the_source_second() {
    let mut observed = ready("{}", Vec::new());
    observed.source = Probe { node: Ok(NodeKind::Directory), access: Ok(()) };
    let error = process_simplenote("export", "out", observed).unwrap_err();
    assert_eq!(ErrorKind::InvalidInput, error.kind());
    assert_eq!(
        "source_path: 'export' is a directory but file was required",
        error.to_text()
    );
}

#[test]
fn process_simplenote_hands_on_the_failure_to_read() {
    let mut observed = ready("{}", Vec::new());
    let failure = NoteError::new(ErrorKind::Other, String::from("Input/output error"));
    observed.content = Err(failure.clone());
    assert_eq!(Err(failure), process_simplenote("notes.json", "out", observed));
}

#[test]
fn process_simplenote_keeps_clear_of_the_files_that_exist() {
    let source = r#"{"activeNotes": [
        {"id": "1", "content": "Title", "creationDate": "c", "lastModified": "m"}
    ]}"#;
    let observed = ready(source, vec![String::from("out/Title.md")]);
    let outcomes = process_simplenote("notes.json", "out", observed).unwrap();
    assert_eq!(
        vec![
            Outcome::Written(NoteFile {
                path: String::from("out/Title (1).md"),
                text: String::from("---\ntitle: Title\ncreated: c\nmodified: m\n---\nTitle\n"),
            }),
            Outcome::Notice(String::from("No trashed notes found to process.")),
        ],
        outcomes
    );
}

#[test]
fn process_applenotes_checks_and_writes_nothing() {
    let observed = Observed {
        dest: Probe { node: Ok(NodeKind::Directory), access: Ok(()) },
        source: Probe { node: Ok(NodeKind::Directory), access: Ok(()) },
        content: Ok(Vec::new()),
        existing: Vec::new(),
    };
    assert_eq!(Ok(Vec::new()), process_applenotes("export", "out", observed));

    let observed = Observed {
        dest: Probe { node: Ok(NodeKind::Directory), access: Ok(()) },
        source: Probe { node: Ok(NodeKind::File), access: Ok(()) },
        content: Ok(Vec::new()),
        existing: Vec::new(),
    };
    let error = process_applenotes("notes.json", "out", observed).unwrap_err();
    assert_eq!(ErrorKind::InvalidInput, error.kind());
    assert_eq!(
        "source_path: 'notes.json' is a file but directory was required",
        error.to_text()
    );

    let observed = Observed {
        dest: Probe { node: Ok(NodeKind::File), access: Ok(()) },
        source: Probe { node: Ok(NodeKind::Directory), access: Ok(()) },
        content: Ok(Vec::new()),
        existing: Vec::new(),
    };
    let error = process_applenotes("export", "out.txt", observed).unwrap_err();
    assert_eq!("dest_dir: 'out.txt' must be a directory", error.to_text());
}
