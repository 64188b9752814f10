//! Notes as Simplenote exports them: the Markdown that a note becomes, and the run
//! that writes a whole export.
use vstd::prelude::*;
use vstd::string::*;
use vstd::utf8::{decode_utf8, valid_utf8};
use crate::error::{text_result, ErrorKind, ErrorModel, NoteError};
use crate::json::{json_document, json_error_message, json_from_value, json_parse};
use crate::path::{free_path, lemma_free_exists};
use crate::processor::markdown::{
    file_stem_of, invalid_title, placed, title_path, write_markdown, FileModel, Markdown,
    MarkdownMeta, MarkdownModel, MetaModel, NoteFile,
};
use crate::processor::schema::{export_of, export_result, notes_from_json};
use crate::processor::title::{title_from_content, title_of};
use crate::text::{from_chars, join3, string_from_utf8, texts, to_chars};

verus! {

/// One note of an export.
#[derive(Debug, PartialEq)]
pub struct SimpleNote {
    pub id: String,
    pub content: String,
    pub creation_date: String,
    pub last_modified: String,
    pub markdown: Option<bool>,
    pub pinned: Option<bool>,
    pub tags: Option<Vec<String>>,
}

/// The mathematical value of a [`SimpleNote`].
pub struct NoteModel {
    pub id: Seq<char>,
    pub content: Seq<char>,
    pub creation_date: Seq<char>,
    pub last_modified: Seq<char>,
    pub markdown: Option<bool>,
    pub pinned: Option<bool>,
    pub tags: Option<Seq<Seq<char>>>,
}

impl View for SimpleNote {
    type V = NoteModel;

    open spec fn view(&self) -> NoteModel {
        NoteModel {
            id: self.id@,
            content: self.content@,
            creation_date: self.creation_date@,
            last_modified: self.last_modified@,
            markdown: self.markdown,
            pinned: self.pinned,
            tags: match self.tags {
                Some(tags) => Some(texts(tags@)),
                None => None,
            },
        }
    }
}

/// The notes of an export: those that are in use and those in the trash. A part that
/// the export does not hold is `None`.
#[derive(Debug, PartialEq)]
pub struct SimpleNotes {
    pub active_notes: Option<Vec<SimpleNote>>,
    pub trashed_notes: Option<Vec<SimpleNote>>,
}

/// The mathematical value of a [`SimpleNotes`].
pub struct NotesModel {
    pub active_notes: Option<Seq<NoteModel>>,
    pub trashed_notes: Option<Seq<NoteModel>>,
}

/// The values of the notes of a sequence, in order.
pub open spec fn note_models(notes: Seq<SimpleNote>) -> Seq<NoteModel> {
    notes.map_values(|note: SimpleNote| note@)
}

/// The value of a part of an export.
pub open spec fn part_model(part: Option<Vec<SimpleNote>>) -> Option<Seq<NoteModel>> {
    match part {
        Some(notes) => Some(note_models(notes@)),
        None => None,
    }
}

impl View for SimpleNotes {
    type V = NotesModel;

    open spec fn view(&self) -> NotesModel {
        NotesModel {
            active_notes: part_model(self.active_notes),
            trashed_notes: part_model(self.trashed_notes),
        }
    }
}

/// `s` with every carriage return that a line feed follows taken out.
pub open spec fn unix_lines(s: Seq<char>) -> Seq<char>
    decreases s.len(),
{
    if s.len() == 0 {
        s
    } else if s.len() >= 2 && s[0] == '\r' && s[1] == '\n' {
        seq!['\n'] + unix_lines(s.skip(2))
    } else {
        seq![s[0]] + unix_lines(s.drop_first())
    }
}

/// The Markdown that a note becomes: the title from its text, the dates as they
/// are, deleted where it comes from the trash, never favorited, pinned and tags as
/// they are, and its text with the line ends of Unix.
pub open spec fn markdown_of(note: NoteModel, trashed: bool) -> MarkdownModel {
    MarkdownModel {
        meta: MetaModel {
            title: title_of(note.content),
            created: note.creation_date,
            modified: note.last_modified,
            deleted: if trashed {
                Some(true)
            } else {
                None
            },
            favorited: None,
            pinned: note.pinned,
            tags: note.tags,
        },
        content: unix_lines(note.content),
    }
}

/// `v` with the line ends of Unix.
fn to_unix_lines(v: &Vec<char>) -> (r: Vec<char>)
    ensures
        r@ == unix_lines(v@),
{
    let mut out: Vec<char> = Vec::new();
    let mut i: usize = 0;
    assert(v@.skip(0) == v@);
    while i < v.len()
        invariant
            i <= v.len(),
            out@ + unix_lines(v@.skip(i as int)) == unix_lines(v@),
        decreases v.len() - i,
    {
        let ghost rest = v@.skip(i as int);
        let ghost before = out@;
        assert(rest[0] == v@[i as int]);
        if v[i] == '\r' && i + 1 < v.len() && v[i + 1] == '\n' {
            assert(rest[1] == v@[i + 1]);
            assert(rest.skip(2) == v@.skip(i + 2));
            out.push('\n');
            assert(out@ + unix_lines(v@.skip(i + 2)) =~= before + (seq!['\n'] + unix_lines(
                rest.skip(2),
            )));
            i = i + 2;
        } else {
            proof {
                if rest.len() >= 2 {
                    assert(rest[1] == v@[i + 1]);
                }
            }
            assert(rest.drop_first() == v@.skip(i + 1));
            out.push(v[i]);
            assert(out@ + unix_lines(v@.skip(i + 1)) =~= before + (seq![rest[0]] + unix_lines(
                rest.drop_first(),
            )));
            i = i + 1;
        }
    }
    assert(v@.skip(i as int).len() == 0);
    assert(out@ + unix_lines(v@.skip(i as int)) =~= out@);
    out
}

/// Turns a note of an export into Markdown. `trashed` says whether it comes from the
/// trash.
pub fn convert_to_markdown(source: SimpleNote, trashed: bool) -> (r: Markdown)
    ensures
        r@ == markdown_of(source@, trashed),
{
    let title = title_from_content(&source.content);
    let content = from_chars(&to_unix_lines(&to_chars(source.content.as_str())));
    Markdown {
        meta: MarkdownMeta {
            title,
            created: source.creation_date,
            modified: source.last_modified,
            deleted: if trashed {
                Some(true)
            } else {
                None
            },
            favorited: None,
            pinned: source.pinned,
            tags: source.tags,
        },
        content,
    }
}

/// Reads an export from its text.
///
/// A text that is a JSON document gives what [`notes_from_json`] gives for that
/// document. Any other text fails with `InvalidData` and the message of the parser.
pub fn deserialize_notes(source_text: String) -> (r: Result<SimpleNotes, NoteError>)
    ensures
        match json_document(source_text@) {
            Some(document) => export_result(r) == export_of(document),
            None => r is Err && r->Err_0@.kind == ErrorKind::InvalidData,
        },
{
    match json_parse(source_text.as_str()) {
        Ok(value) => {
            let document = json_from_value(value);
            notes_from_json(&document)
        },
        Err(e) => Err(NoteError::new(ErrorKind::InvalidData, json_error_message(&e))),
    }
}

/// The text of a source file with the given bytes, or the failure where they are no
/// UTF-8.
pub open spec fn decoded(source_file: Seq<char>, bytes: Seq<u8>) -> Result<Seq<char>, ErrorModel> {
    if valid_utf8(bytes) {
        Ok(decode_utf8(bytes))
    } else {
        Err(
            ErrorModel {
                kind: ErrorKind::InvalidData,
                message: "source_file: '"@ + source_file + "' contains data which is not UTF8"@,
            },
        )
    }
}

/// Turns the bytes of the source file into text.
///
/// Fails with `InvalidData`, and names the file, exactly where the bytes are no
/// valid UTF-8.
pub fn load_file(source_file: &str, bytes: Vec<u8>) -> (r: Result<String, NoteError>)
    ensures
        text_result(r) == decoded(source_file@, bytes@),
{
    match string_from_utf8(bytes) {
        Ok(text) => Ok(text),
        Err(_) => Err(
            NoteError::new(
                ErrorKind::InvalidData,
                join3("source_file: '", source_file, "' contains data which is not UTF8"),
            ),
        ),
    }
}

/// What became of one note, or of a part of the export that holds none.
#[derive(Debug, PartialEq)]
pub enum Outcome {
    /// The export lacks a part; the text says which.
    Notice(String),
    /// The note goes to this file.
    Written(NoteFile),
    /// The note goes to no file; the error says why.
    Failed(NoteError),
}

/// The mathematical value of an [`Outcome`].
pub enum OutcomeModel {
    Notice(Seq<char>),
    Written(FileModel),
    Failed(ErrorModel),
}

impl View for Outcome {
    type V = OutcomeModel;

    open spec fn view(&self) -> OutcomeModel {
        match self {
            Outcome::Notice(text) => OutcomeModel::Notice(text@),
            Outcome::Written(file) => OutcomeModel::Written(file@),
            Outcome::Failed(e) => OutcomeModel::Failed(e@),
        }
    }
}

/// The values of the outcomes of a sequence, in order.
pub open spec fn outcome_models(outcomes: Seq<Outcome>) -> Seq<OutcomeModel> {
    outcomes.map_values(|outcome: Outcome| outcome@)
}

/// Where a run stands: the outcomes so far, and the paths that are taken.
pub struct RunModel {
    pub outcomes: Seq<OutcomeModel>,
    pub taken: Seq<Seq<char>>,
}

/// What becomes of one note that is written to `dest_dir` while the paths of `taken`
/// exist.
pub open spec fn outcome_of(
    note: NoteModel,
    trashed: bool,
    dest_dir: Seq<char>,
    taken: Seq<Seq<char>>,
) -> OutcomeModel {
    match placed(markdown_of(note, trashed), dest_dir, taken) {
        Ok(file) => OutcomeModel::Written(file),
        Err(e) => OutcomeModel::Failed(e),
    }
}

/// The paths that are taken after an outcome: one more where a file was written.
pub open spec fn taken_after(taken: Seq<Seq<char>>, outcome: OutcomeModel) -> Seq<Seq<char>> {
    match outcome {
        OutcomeModel::Written(file) => taken.push(file.path),
        _ => taken,
    }
}

/// The run over a sequence of notes: each note in its turn gets its outcome, and a
/// note that fails does not keep the next from its turn. Each file takes a path
/// that neither existed before the run nor was taken by an earlier note.
pub open spec fn run(
    notes: Seq<NoteModel>,
    trashed: bool,
    dest_dir: Seq<char>,
    taken: Seq<Seq<char>>,
) -> RunModel
    decreases notes.len(),
{
    if notes.len() == 0 {
        RunModel { outcomes: Seq::empty(), taken }
    } else {
        let before = run(notes.drop_last(), trashed, dest_dir, taken);
        let outcome = outcome_of(notes.last(), trashed, dest_dir, before.taken);
        RunModel {
            outcomes: before.outcomes.push(outcome),
            taken: taken_after(before.taken, outcome),
        }
    }
}

/// The notice that a part of the export is absent.
pub open spec fn nothing_found(trashed: bool) -> Seq<char> {
    if trashed {
        "No trashed notes found to process."@
    } else {
        "No active notes found to process."@
    }
}

/// The run over a part of an export: a notice where the part is absent, and the run
/// over its notes where it is there.
pub open spec fn part_run(
    part: Option<Seq<NoteModel>>,
    trashed: bool,
    dest_dir: Seq<char>,
    taken: Seq<Seq<char>>,
) -> RunModel {
    match part {
        None => RunModel { outcomes: seq![OutcomeModel::Notice(nothing_found(trashed))], taken },
        Some(notes) => run(notes, trashed, dest_dir, taken),
    }
}

/// The run over an export: first the notes in use, then those in the trash.
pub open spec fn export_run(notes: NotesModel, dest_dir: Seq<char>, taken: Seq<Seq<char>>) -> RunModel {
    let active = part_run(notes.active_notes, false, dest_dir, taken);
    let trashed = part_run(notes.trashed_notes, true, dest_dir, active.taken);
    RunModel { outcomes: active.outcomes + trashed.outcomes, taken: trashed.taken }
}

/// Whether a note gets a file: its title leaves a file name and its front matter can
/// be rendered. Which files exist plays no part in it.
pub open spec fn gets_file(note: NoteModel, trashed: bool, dest_dir: Seq<char>) -> bool {
    placed(markdown_of(note, trashed), dest_dir, Seq::empty()) is Ok
}

/// The number of files among the outcomes.
pub open spec fn files_written(outcomes: Seq<OutcomeModel>) -> nat {
    outcomes.filter(|o: OutcomeModel| o is Written).len()
}

/// The number of failures among the outcomes.
pub open spec fn failures(outcomes: Seq<OutcomeModel>) -> nat {
    outcomes.filter(|o: OutcomeModel| o is Failed).len()
}

/// The number of notes of a part that get a file.
pub open spec fn part_files(part: Option<Seq<NoteModel>>, trashed: bool, dest_dir: Seq<char>) -> nat {
    match part {
        Some(notes) => notes.filter(|note: NoteModel| gets_file(note, trashed, dest_dir)).len(),
        None => 0,
    }
}

/// A run gives every note one outcome, in the order of the notes. A note gets a
/// file exactly where [`gets_file`] holds of it, and a failure where it does not;
/// so the files are as many as the notes that get one, the failures as many as the
/// others, and a failure keeps no later note from its file. A note whose title
/// leaves no file name fails with [`invalid_title`].
pub proof fn lemma_run_outcomes(
    notes: Seq<NoteModel>,
    trashed: bool,
    dest_dir: Seq<char>,
    taken: Seq<Seq<char>>,
)
    ensures
        ({
            let outcomes = run(notes, trashed, dest_dir, taken).outcomes;
            &&& outcomes.len() == notes.len()
            &&& forall|i: int|
                0 <= i < notes.len() ==> (#[trigger] outcomes[i] is Written) == gets_file(
                    notes[i],
                    trashed,
                    dest_dir,
                )
            &&& forall|i: int|
                0 <= i < notes.len() ==> (#[trigger] outcomes[i] is Failed) == !gets_file(
                    notes[i],
                    trashed,
                    dest_dir,
                )
            &&& forall|i: int|
                0 <= i < notes.len() && file_stem_of(title_of(notes[i].content)).len() == 0
                    ==> #[trigger] outcomes[i] == OutcomeModel::Failed(
                    invalid_title(title_of(notes[i].content)),
                )
            &&& files_written(outcomes) == notes.filter(
                |note: NoteModel| gets_file(note, trashed, dest_dir),
            ).len()
            &&& failures(outcomes) == notes.filter(
                |note: NoteModel| !gets_file(note, trashed, dest_dir),
            ).len()
            &&& run(notes, trashed, dest_dir, taken).taken.len() == taken.len() + files_written(
                outcomes,
            )
        }),
    decreases notes.len(),
{
    reveal(Seq::filter);
    if notes.len() > 0 {
        lemma_run_outcomes(notes.drop_last(), trashed, dest_dir, taken);
        let before = run(notes.drop_last(), trashed, dest_dir, taken);
        let all = run(notes, trashed, dest_dir, taken);
        assert(all.outcomes.drop_last() == before.outcomes);
        assert forall|i: int| 0 <= i < notes.len() implies (#[trigger] all.outcomes[i] is Written)
            == gets_file(notes[i], trashed, dest_dir) && (all.outcomes[i] is Failed) == !gets_file(
            notes[i],
            trashed,
            dest_dir,
        ) && (file_stem_of(title_of(notes[i].content)).len() == 0 ==> all.outcomes[i]
            == OutcomeModel::Failed(invalid_title(title_of(notes[i].content)))) by {
            if i < notes.len() - 1 {
                assert(all.outcomes[i] == before.outcomes[i]);
                assert(notes[i] == notes.drop_last()[i]);
            }
        }
    }
}

/// What a run over an export gives: a notice for each part that is absent, and for
/// the notes of the parts that are there as many files as notes that get one.
pub proof fn lemma_export_outcomes(notes: NotesModel, dest_dir: Seq<char>, taken: Seq<Seq<char>>)
    ensures
        files_written(export_run(notes, dest_dir, taken).outcomes) == part_files(
            notes.active_notes,
            false,
            dest_dir,
        ) + part_files(notes.trashed_notes, true, dest_dir),
        notes.active_notes is None && notes.trashed_notes is None ==> export_run(
            notes,
            dest_dir,
            taken,
        ).outcomes == seq![
            OutcomeModel::Notice(nothing_found(false)),
            OutcomeModel::Notice(nothing_found(true)),
        ] && export_run(notes, dest_dir, taken).taken == taken,
{
    let active = part_run(notes.active_notes, false, dest_dir, taken);
    let trashed = part_run(notes.trashed_notes, true, dest_dir, active.taken);
    lemma_part_files(notes.active_notes, false, dest_dir, taken);
    lemma_part_files(notes.trashed_notes, true, dest_dir, active.taken);
    Seq::filter_distributes_over_add(
        active.outcomes,
        trashed.outcomes,
        |o: OutcomeModel| o is Written,
    );
    if notes.active_notes is None && notes.trashed_notes is None {
        assert(active.outcomes + trashed.outcomes =~= seq![
            OutcomeModel::Notice(nothing_found(false)),
            OutcomeModel::Notice(nothing_found(true)),
        ]);
    }
}

/// The files of the run over a part are as many as its notes that get one.
proof fn lemma_part_files(
    part: Option<Seq<NoteModel>>,
    trashed: bool,
    dest_dir: Seq<char>,
    taken: Seq<Seq<char>>,
)
    ensures
        files_written(part_run(part, trashed, dest_dir, taken).outcomes) == part_files(
            part,
            trashed,
            dest_dir,
        ),
{
    reveal(Seq::filter);
    match part {
        Some(notes) => {
            lemma_run_outcomes(notes, trashed, dest_dir, taken);
        },
        None => {
            let only = seq![OutcomeModel::Notice(nothing_found(trashed))];
            assert(only.drop_last().len() == 0);
            reveal_with_fuel(Seq::filter, 2);
        },
    }
}

/// No file of a run replaces one that existed or one that the run wrote before: the
/// path of each file is none of those that were taken when the run began, and no
/// two files of the run have the same path. All paths that were or became taken are
/// taken when the run ends.
pub proof fn lemma_run_paths(
    notes: Seq<NoteModel>,
    trashed: bool,
    dest_dir: Seq<char>,
    taken: Seq<Seq<char>>,
)
    ensures
        ({
            let all = run(notes, trashed, dest_dir, taken);
            &&& forall|p: Seq<char>| taken.contains(p) ==> #[trigger] all.taken.contains(p)
            &&& forall|i: int|
                0 <= i < all.outcomes.len() && (#[trigger] all.outcomes[i]) is Written ==> {
                    &&& !taken.contains(all.outcomes[i]->Written_0.path)
                    &&& all.taken.contains(all.outcomes[i]->Written_0.path)
                }
            &&& forall|i: int, j: int|
                0 <= i < j < all.outcomes.len() && (#[trigger] all.outcomes[i]) is Written && (
                #[trigger] all.outcomes[j]) is Written ==> all.outcomes[i]->Written_0.path
                    != all.outcomes[j]->Written_0.path
        }),
    decreases notes.len(),
{
    let all = run(notes, trashed, dest_dir, taken);
    if notes.len() > 0 {
        lemma_run_paths(notes.drop_last(), trashed, dest_dir, taken);
        lemma_run_outcomes(notes.drop_last(), trashed, dest_dir, taken);
        let before = run(notes.drop_last(), trashed, dest_dir, taken);
        let last = outcome_of(notes.last(), trashed, dest_dir, before.taken);
        let n = notes.len() - 1;
        assert(all.outcomes.len() == n + 1);
        assert(all.outcomes[n] == last);
        assert forall|i: int| 0 <= i < n implies all.outcomes[i] == before.outcomes[i] by {}
        assert forall|p: Seq<char>| before.taken.contains(p) implies all.taken.contains(p) by {
            if last is Written {
                let k = choose|k: int| 0 <= k < before.taken.len() && before.taken[k] == p;
                assert(all.taken[k] == p);
            }
        }
        if last is Written {
            let path = last->Written_0.path;
            let initial = title_path(dest_dir, markdown_of(notes.last(), trashed).meta.title)->Ok_0;
            lemma_free_exists(initial, before.taken);
            assert(path == free_path(initial, before.taken));
            assert(all.taken.last() == path);
            assert(all.taken.contains(path));
        }
    }
}

/// What [`lemma_run_paths`] says of a run holds of the run over a part.
proof fn lemma_part_paths(
    part: Option<Seq<NoteModel>>,
    trashed: bool,
    dest_dir: Seq<char>,
    taken: Seq<Seq<char>>,
)
    ensures
        ({
            let all = part_run(part, trashed, dest_dir, taken);
            &&& forall|p: Seq<char>| taken.contains(p) ==> #[trigger] all.taken.contains(p)
            &&& forall|i: int|
                0 <= i < all.outcomes.len() && (#[trigger] all.outcomes[i]) is Written ==> {
                    &&& !taken.contains(all.outcomes[i]->Written_0.path)
                    &&& all.taken.contains(all.outcomes[i]->Written_0.path)
                }
            &&& forall|i: int, j: int|
                0 <= i < j < all.outcomes.len() && (#[trigger] all.outcomes[i]) is Written && (
                #[trigger] all.outcomes[j]) is Written ==> all.outcomes[i]->Written_0.path
                    != all.outcomes[j]->Written_0.path
        }),
{
    if let Some(notes) = part {
        lemma_run_paths(notes, trashed, dest_dir, taken);
    }
}

/// No file of a run over an export replaces one that existed or another of the run,
/// be it of a note in use or of one in the trash.
pub proof fn lemma_export_paths(notes: NotesModel, dest_dir: Seq<char>, taken: Seq<Seq<char>>)
    ensures
        ({
            let all = export_run(notes, dest_dir, taken);
            &&& forall|i: int|
                0 <= i < all.outcomes.len() && (#[trigger] all.outcomes[i]) is Written
                    ==> !taken.contains(all.outcomes[i]->Written_0.path)
            &&& forall|i: int, j: int|
                0 <= i < j < all.outcomes.len() && (#[trigger] all.outcomes[i]) is Written && (
                #[trigger] all.outcomes[j]) is Written ==> all.outcomes[i]->Written_0.path
                    != all.outcomes[j]->Written_0.path
        }),
{
    let active = part_run(notes.active_notes, false, dest_dir, taken);
    let trashed = part_run(notes.trashed_notes, true, dest_dir, active.taken);
    let all = export_run(notes, dest_dir, taken);
    let n = active.outcomes.len() as int;
    lemma_part_paths(notes.active_notes, false, dest_dir, taken);
    lemma_part_paths(notes.trashed_notes, true, dest_dir, active.taken);
    assert forall|i: int| 0 <= i < all.outcomes.len() implies all.outcomes[i] == if i < n {
        active.outcomes[i]
    } else {
        trashed.outcomes[i - n]
    } by {}
    assert forall|i: int|
        0 <= i < all.outcomes.len() && (#[trigger] all.outcomes[i]) is Written implies !taken.contains(
        all.outcomes[i]->Written_0.path,
    ) by {
        if i >= n {
            let path = trashed.outcomes[i - n]->Written_0.path;
            assert(!active.taken.contains(path));
        }
    }
    assert forall|i: int, j: int|
        0 <= i < j < all.outcomes.len() && (#[trigger] all.outcomes[i]) is Written && (
        #[trigger] all.outcomes[j]) is Written implies all.outcomes[i]->Written_0.path
        != all.outcomes[j]->Written_0.path by {
        if i < n && j >= n {
            assert(active.taken.contains(active.outcomes[i]->Written_0.path));
            assert(!active.taken.contains(trashed.outcomes[j - n]->Written_0.path));
        } else if i >= n {
            assert(trashed.outcomes[i - n] is Written);
            assert(trashed.outcomes[j - n] is Written);
        }
    }
}

/// Converts the notes of one part of an export and writes them into `dest_dir`, of
/// which `existing` holds the paths that are taken.
///
/// Every note gets its outcome, in the order of the notes: the file that it goes to,
/// whose path is then taken, or the failure that keeps it from one. A part that is
/// absent gives a notice instead.
pub fn process_notes(
    notes: Option<Vec<SimpleNote>>,
    trashed: bool,
    dest_dir: &str,
    existing: &mut Vec<String>,
) -> (r: Vec<Outcome>)
    ensures
        outcome_models(r@) == part_run(
            part_model(notes),
            trashed,
            dest_dir@,
            texts(old(existing)@),
        ).outcomes,
        texts(final(existing)@) == part_run(
            part_model(notes),
            trashed,
            dest_dir@,
            texts(old(existing)@),
        ).taken,
{
    let mut outcomes: Vec<Outcome> = Vec::new();
    match notes {
        Some(list) => {
            let ghost all = note_models(list@);
            let ghost taken = texts(existing@);
            assert(all.take(0).len() == 0);
            assert(outcome_models(outcomes@) =~= Seq::empty());
            for note in it: list.into_iter()
                invariant
                    it.seq() == list@,
                    all == note_models(list@),
                    outcome_models(outcomes@) == run(
                        all.take(it.index()),
                        trashed,
                        dest_dir@,
                        taken,
                    ).outcomes,
                    texts(existing@) == run(all.take(it.index()), trashed, dest_dir@, taken).taken,
            {
                let ghost before = outcome_models(outcomes@);
                let ghost i = it.index();
                assert(all.take(i + 1).drop_last() == all.take(i));
                assert(all.take(i + 1).last() == note@);
                let outcome = match write_markdown(
                    convert_to_markdown(note, trashed),
                    dest_dir,
                    existing,
                ) {
                    Ok(file) => Outcome::Written(file),
                    Err(e) => Outcome::Failed(e),
                };
                outcomes.push(outcome);
                assert(outcome_models(outcomes@) =~= before.push(outcome@));
            }
            assert(all.take(all.len() as int) == all);
        },
        None => {
            let text = if trashed {
                String::from_str("No trashed notes found to process.")
            } else {
                String::from_str("No active notes found to process.")
            };
            outcomes.push(Outcome::Notice(text));
            assert(outcome_models(outcomes@) =~= seq![OutcomeModel::Notice(nothing_found(trashed))]);
        },
    }
    outcomes
}

/// Converts the notes of an export and writes them into `dest_dir`, of which
/// `existing` holds the paths that are taken: first the notes in use, then those in
/// the trash, which are marked as deleted.
pub fn process_export(notes: SimpleNotes, dest_dir: &str, existing: &mut Vec<String>) -> (r: Vec<
    Outcome,
>)
    ensures
        outcome_models(r@) == export_run(notes@, dest_dir@, texts(old(existing)@)).outcomes,
        texts(final(existing)@) == export_run(notes@, dest_dir@, texts(old(existing)@)).taken,
{
    let mut outcomes = process_notes(notes.active_notes, false, dest_dir, existing);
    let ghost active = outcome_models(outcomes@);
    let mut trashed = process_notes(notes.trashed_notes, true, dest_dir, existing);
    let ghost rest = outcome_models(trashed@);
    outcomes.append(&mut trashed);
    assert(outcome_models(outcomes@) =~= active + rest);
    outcomes
}

/// What a run over the source file with the given bytes gives: the outcomes of the
/// export that the bytes hold, or the failure where they hold none.
///
/// Bytes that are no UTF-8 fail as [`decoded`] says, and the text of an export that
/// does not follow the schema fails as [`export_of`] says. A text that is no JSON
/// document fails too; that failure is not given here.
pub open spec fn processed(
    source_file: Seq<char>,
    content: Seq<u8>,
    dest_dir: Seq<char>,
    taken: Seq<Seq<char>>,
) -> Option<Result<RunModel, ErrorModel>> {
    match decoded(source_file, content) {
        Err(e) => Some(Err(e)),
        Ok(text) => match json_document(text) {
            None => None,
            Some(document) => match export_of(document) {
                Err(e) => Some(Err(e)),
                Ok(notes) => Some(Ok(export_run(notes, dest_dir, taken))),
            },
        },
    }
}

/// Converts the export that the source file holds and writes its notes into
/// `dest_dir`. `content` holds the bytes of the file, `existing` the paths that are
/// taken in `dest_dir`.
///
/// Where the bytes hold an export, the run goes over all its notes and succeeds,
/// whatever becomes of each note; the outcomes say it. Where the bytes hold none,
/// the run fails with `InvalidData` and nothing is written.
pub fn process(source_file: &str, content: Vec<u8>, dest_dir: &str, existing: &mut Vec<String>) -> (r:
    Result<Vec<Outcome>, NoteError>)
    ensures
        match processed(source_file@, content@, dest_dir@, texts(old(existing)@)) {
            Some(Ok(state)) => r is Ok && outcome_models(r->Ok_0@) == state.outcomes && texts(
                final(existing)@,
            ) == state.taken,
            Some(Err(e)) => r is Err && r->Err_0@ == e && final(existing)@ == old(existing)@,
            None => r is Err && r->Err_0@.kind == ErrorKind::InvalidData && final(existing)@ == old(
                existing,
            )@,
        },
{
    let source_text = match load_file(source_file, content) {
        Ok(text) => text,
        Err(e) => {
            return Err(e);
        },
    };
    let all_notes = match deserialize_notes(source_text) {
        Ok(notes) => notes,
        Err(e) => {
            return Err(e);
        },
    };
    Ok(process_export(all_notes, dest_dir, existing))
}

} // verus!
