//! The schema of an export: which members a JSON document has to hold to stand for
//! notes, and the failures of those that do not.
use vstd::prelude::*;
use vstd::string::*;
use crate::error::{text_result, ErrorKind, ErrorModel, NoteError};
use crate::json::{lemma_view, JsonModel, JsonValue};
use crate::processor::simplenote::{
    note_models, part_model, NoteModel, NotesModel, SimpleNote, SimpleNotes,
};
use crate::text::{join3, texts};

verus! {

/// The value of the first member named `key` among `members`, if there is one.
pub open spec fn member(members: Seq<(Seq<char>, JsonModel)>, key: Seq<char>) -> Option<
    JsonModel,
>
    decreases members.len(),
{
    if members.len() == 0 {
        None
    } else if members[0].0 == key {
        Some(members[0].1)
    } else {
        member(members.drop_first(), key)
    }
}

/// The value of the member named `key` of a JSON object; none where `value` is no
/// object or has no such member.
pub open spec fn lookup(value: JsonModel, key: Seq<char>) -> Option<JsonModel> {
    match value {
        JsonModel::Object(members) => member(members, key),
        _ => None,
    }
}

/// The failure that an object gives which lacks the member `key`.
pub open spec fn missing_field(key: Seq<char>) -> ErrorModel {
    ErrorModel { kind: ErrorKind::InvalidData, message: "missing field `"@ + key + "`"@ }
}

/// The failure that a value of the wrong type gives; `expected` names the right one
/// and the place.
pub open spec fn invalid_type(expected: Seq<char>) -> ErrorModel {
    ErrorModel { kind: ErrorKind::InvalidData, message: "invalid type: expected "@ + expected }
}

/// The failure that the member `key` gives where its value has the wrong type;
/// `expected` names the right one.
pub open spec fn invalid_field(key: Seq<char>, expected: Seq<char>) -> ErrorModel {
    invalid_type(expected + " for `"@ + key + "`"@)
}

/// The string that the member `key` of a note holds. The member is required.
pub open spec fn text_field(note: JsonModel, key: Seq<char>) -> Result<Seq<char>, ErrorModel> {
    match lookup(note, key) {
        None => Err(missing_field(key)),
        Some(JsonModel::Text(text)) => Ok(text),
        Some(_) => Err(invalid_field(key, "a string"@)),
    }
}

/// The boolean that the member `key` of a note holds. The member may be absent or
/// null.
pub open spec fn flag_field(note: JsonModel, key: Seq<char>) -> Result<Option<bool>, ErrorModel> {
    match lookup(note, key) {
        None => Ok(None),
        Some(JsonModel::Null) => Ok(None),
        Some(JsonModel::Bool(flag)) => Ok(Some(flag)),
        Some(_) => Err(invalid_field(key, "a boolean"@)),
    }
}

/// Whether every item is a string.
pub open spec fn all_text(items: Seq<JsonModel>) -> bool {
    forall|i: int| 0 <= i < items.len() ==> (#[trigger] items[i]) is Text
}

/// The strings that the items are.
pub open spec fn text_items(items: Seq<JsonModel>) -> Seq<Seq<char>> {
    items.map_values(|item: JsonModel| item->Text_0)
}

/// The tags that a note holds. The member may be absent or null; else it is a
/// sequence of strings.
pub open spec fn tags_field(note: JsonModel) -> Result<Option<Seq<Seq<char>>>, ErrorModel> {
    match lookup(note, "tags"@) {
        None => Ok(None),
        Some(JsonModel::Null) => Ok(None),
        Some(JsonModel::Array(items)) => if all_text(items) {
            Ok(Some(text_items(items)))
        } else {
            Err(invalid_field("tags"@, "a sequence of strings"@))
        },
        Some(_) => Err(invalid_field("tags"@, "a sequence of strings"@)),
    }
}

/// The note that a JSON value stands for.
///
/// It is an object with the strings `id`, `content`, `creationDate` and
/// `lastModified`, and may hold the booleans `markdown` and `pinned` and the
/// sequence of strings `tags`. Other members are passed over. The first member in
/// this order that is missing or of the wrong type decides the failure.
pub open spec fn note_of(value: JsonModel) -> Result<NoteModel, ErrorModel> {
    if !(value is Object) {
        Err(invalid_type("a note"@))
    } else if text_field(value, "id"@) is Err {
        Err(text_field(value, "id"@)->Err_0)
    } else if text_field(value, "content"@) is Err {
        Err(text_field(value, "content"@)->Err_0)
    } else if text_field(value, "creationDate"@) is Err {
        Err(text_field(value, "creationDate"@)->Err_0)
    } else if text_field(value, "lastModified"@) is Err {
        Err(text_field(value, "lastModified"@)->Err_0)
    } else if flag_field(value, "markdown"@) is Err {
        Err(flag_field(value, "markdown"@)->Err_0)
    } else if flag_field(value, "pinned"@) is Err {
        Err(flag_field(value, "pinned"@)->Err_0)
    } else if tags_field(value) is Err {
        Err(tags_field(value)->Err_0)
    } else {
        Ok(
            NoteModel {
                id: text_field(value, "id"@)->Ok_0,
                content: text_field(value, "content"@)->Ok_0,
                creation_date: text_field(value, "creationDate"@)->Ok_0,
                last_modified: text_field(value, "lastModified"@)->Ok_0,
                markdown: flag_field(value, "markdown"@)->Ok_0,
                pinned: flag_field(value, "pinned"@)->Ok_0,
                tags: tags_field(value)->Ok_0,
            },
        )
    }
}

/// The notes that the items of a JSON array stand for, or the failure of the first
/// item that stands for none.
pub open spec fn notes_of(items: Seq<JsonModel>) -> Result<Seq<NoteModel>, ErrorModel>
    decreases items.len(),
{
    if items.len() == 0 {
        Ok(Seq::empty())
    } else {
        match notes_of(items.drop_last()) {
            Err(e) => Err(e),
            Ok(notes) => match note_of(items.last()) {
                Err(e) => Err(e),
                Ok(note) => Ok(notes.push(note)),
            },
        }
    }
}

/// The part of an export that the member `key` holds. The member may be absent or
/// null; else it is a sequence of notes.
pub open spec fn part_field(export: JsonModel, key: Seq<char>) -> Result<
    Option<Seq<NoteModel>>,
    ErrorModel,
> {
    match lookup(export, key) {
        None => Ok(None),
        Some(JsonModel::Null) => Ok(None),
        Some(JsonModel::Array(items)) => match notes_of(items) {
            Ok(notes) => Ok(Some(notes)),
            Err(e) => Err(e),
        },
        Some(_) => Err(invalid_field(key, "a sequence"@)),
    }
}

/// The export that a JSON document stands for: an object that may hold the notes in
/// use as `activeNotes` and those in the trash as `trashedNotes`. Other members are
/// passed over. A failure among the notes in use comes before one in the trash.
pub open spec fn export_of(document: JsonModel) -> Result<NotesModel, ErrorModel> {
    if !(document is Object) {
        Err(invalid_type("an export"@))
    } else {
        match part_field(document, "activeNotes"@) {
            Err(e) => Err(e),
            Ok(active_notes) => match part_field(document, "trashedNotes"@) {
                Err(e) => Err(e),
                Ok(trashed_notes) => Ok(NotesModel { active_notes, trashed_notes }),
            },
        }
    }
}

/// The member named `key` of a JSON object.
fn find_member<'a>(value: &'a JsonValue, key: &str) -> (r: Option<&'a JsonValue>)
    ensures
        match r {
            Some(found) => lookup(value@, key@) == Some(found@),
            None => lookup(value@, key@) is None,
        },
{
    match value {
        JsonValue::Object(members) => {
            let name = String::from_str(key);
            let ghost all = value@->Object_0;
            let mut i: usize = 0;
            proof {
                lemma_view(*value);
                assert(all.skip(0) == all);
            }
            while i < members.len()
                invariant
                    i <= members.len(),
                    name@ == key@,
                    value@ == JsonModel::Object(all),
                    all.len() == members@.len(),
                    forall|j: int|
                        0 <= j < all.len() ==> #[trigger] all[j] == (members@[j].0@, members@[j].1@),
                    member(all, key@) == member(all.skip(i as int), key@),
                decreases members.len() - i,
            {
                let ghost rest = all.skip(i as int);
                assert(rest[0] == all[i as int]);
                assert(rest.drop_first() == all.skip(i + 1));
                if members[i].0 == name {
                    return Some(&members[i].1);
                }
                i = i + 1;
            }
            None
        },
        _ => None,
    }
}

/// The failure of the member `key` whose value is not `expected`.
fn wrong_field(key: &str, expected: &str) -> (r: NoteError)
    ensures
        r@ == invalid_field(key@, expected@),
{
    let mut message = String::from_str("invalid type: expected ");
    message.append(expected);
    message.append(" for `");
    message.append(key);
    message.append("`");
    assert(message@ =~= "invalid type: expected "@ + (expected@ + " for `"@ + key@ + "`"@));
    NoteError::new(ErrorKind::InvalidData, message)
}

/// The failure of a value that is not `expected`.
fn wrong_type(expected: &str) -> (r: NoteError)
    ensures
        r@ == invalid_type(expected@),
{
    NoteError::new(
        ErrorKind::InvalidData,
        String::from_str("invalid type: expected ").concat(expected),
    )
}

/// Reads a required string of a note.
fn read_text(note: &JsonValue, key: &str) -> (r: Result<String, NoteError>)
    ensures
        text_result(r) == text_field(note@, key@),
{
    match find_member(note, key) {
        None => Err(NoteError::new(ErrorKind::InvalidData, join3("missing field `", key, "`"))),
        Some(JsonValue::Text(text)) => Ok(text.clone()),
        Some(_) => Err(wrong_field(key, "a string")),
    }
}

/// The view of a flag that was read.
pub open spec fn flag_result(r: Result<Option<bool>, NoteError>) -> Result<
    Option<bool>,
    ErrorModel,
> {
    match r {
        Ok(flag) => Ok(flag),
        Err(e) => Err(e@),
    }
}

/// Reads a boolean of a note that may be absent.
fn read_flag(note: &JsonValue, key: &str) -> (r: Result<Option<bool>, NoteError>)
    ensures
        flag_result(r) == flag_field(note@, key@),
{
    match find_member(note, key) {
        None => Ok(None),
        Some(JsonValue::Null) => Ok(None),
        Some(JsonValue::Bool(flag)) => Ok(Some(*flag)),
        Some(_) => Err(wrong_field(key, "a boolean")),
    }
}

/// The view of tags that were read.
pub open spec fn tags_result(r: Result<Option<Vec<String>>, NoteError>) -> Result<
    Option<Seq<Seq<char>>>,
    ErrorModel,
> {
    match r {
        Ok(Some(tags)) => Ok(Some(texts(tags@))),
        Ok(None) => Ok(None),
        Err(e) => Err(e@),
    }
}

/// Reads the tags of a note, which may be absent.
fn read_tags(note: &JsonValue) -> (r: Result<Option<Vec<String>>, NoteError>)
    ensures
        tags_result(r) == tags_field(note@),
{
    let found = match find_member(note, "tags") {
        None => {
            return Ok(None);
        },
        Some(found) => found,
    };
    proof {
        lemma_view(*found);
    }
    match found {
        JsonValue::Null => Ok(None),
        JsonValue::Array(items) => {
            let ghost all = found@->Array_0;
            let mut tags: Vec<String> = Vec::new();
            let mut i: usize = 0;
            assert(texts(tags@) =~= text_items(all.take(0)));
            while i < items.len()
                invariant
                    i <= items.len(),
                    all.len() == items@.len(),
                    forall|j: int| 0 <= j < all.len() ==> #[trigger] all[j] == items@[j]@,
                    lookup(note@, "tags"@) == Some(JsonModel::Array(all)),
                    all_text(all.take(i as int)),
                    tags@.len() == i,
                    texts(tags@) == text_items(all.take(i as int)),
                decreases items.len() - i,
            {
                let ghost before = tags@;
                proof {
                    lemma_view(items@[i as int]);
                }
                match &items[i] {
                    JsonValue::Text(tag) => {
                        tags.push(tag.clone());
                    },
                    _ => {
                        assert(!(all[i as int] is Text));
                        return Err(wrong_field("tags", "a sequence of strings"));
                    },
                }
                i = i + 1;
                proof {
                    assert(all.take(i as int) == all.take(i - 1).push(all[i - 1]));
                    assert forall|k: int| 0 <= k < i implies texts(tags@)[k] == text_items(
                        all.take(i as int),
                    )[k] by {
                        if k < i - 1 {
                            assert(texts(before)[k] == text_items(all.take(i - 1))[k]);
                        }
                    }
                    assert(texts(tags@) =~= text_items(all.take(i as int)));
                }
            }
            assert(all.take(i as int) == all);
            Ok(Some(tags))
        },
        _ => Err(wrong_field("tags", "a sequence of strings")),
    }
}

/// The view of a note that was read.
pub open spec fn note_result(r: Result<SimpleNote, NoteError>) -> Result<NoteModel, ErrorModel> {
    match r {
        Ok(note) => Ok(note@),
        Err(e) => Err(e@),
    }
}

/// Reads one note of an export.
pub fn note_from_json(value: &JsonValue) -> (r: Result<SimpleNote, NoteError>)
    ensures
        note_result(r) == note_of(value@),
{
    match value {
        JsonValue::Object(_) => {},
        _ => {
            return Err(wrong_type("a note"));
        },
    }
    let id = match read_text(value, "id") {
        Ok(text) => text,
        Err(e) => {
            return Err(e);
        },
    };
    let content = match read_text(value, "content") {
        Ok(text) => text,
        Err(e) => {
            return Err(e);
        },
    };
    let creation_date = match read_text(value, "creationDate") {
        Ok(text) => text,
        Err(e) => {
            return Err(e);
        },
    };
    let last_modified = match read_text(value, "lastModified") {
        Ok(text) => text,
        Err(e) => {
            return Err(e);
        },
    };
    let markdown = match read_flag(value, "markdown") {
        Ok(flag) => flag,
        Err(e) => {
            return Err(e);
        },
    };
    let pinned = match read_flag(value, "pinned") {
        Ok(flag) => flag,
        Err(e) => {
            return Err(e);
        },
    };
    let tags = match read_tags(value) {
        Ok(tags) => tags,
        Err(e) => {
            return Err(e);
        },
    };
    Ok(SimpleNote { id, content, creation_date, last_modified, markdown, pinned, tags })
}

/// The view of a part that was read.
pub open spec fn part_result(r: Result<Option<Vec<SimpleNote>>, NoteError>) -> Result<
    Option<Seq<NoteModel>>,
    ErrorModel,
> {
    match r {
        Ok(part) => Ok(part_model(part)),
        Err(e) => Err(e@),
    }
}

/// Reads a part of an export.
fn read_part(export: &JsonValue, key: &str) -> (r: Result<Option<Vec<SimpleNote>>, NoteError>)
    ensures
        part_result(r) == part_field(export@, key@),
{
    let found = match find_member(export, key) {
        None => {
            return Ok(None);
        },
        Some(found) => found,
    };
    proof {
        lemma_view(*found);
    }
    match found {
        JsonValue::Null => Ok(None),
        JsonValue::Array(items) => {
            let ghost all = found@->Array_0;
            let mut notes: Vec<SimpleNote> = Vec::new();
            let mut i: usize = 0;
            assert(note_models(notes@) =~= Seq::empty());
            assert(all.take(0).len() == 0);
            while i < items.len()
                invariant
                    i <= items.len(),
                    all.len() == items@.len(),
                    forall|j: int| 0 <= j < all.len() ==> #[trigger] all[j] == items@[j]@,
                    lookup(export@, key@) == Some(JsonModel::Array(all)),
                    notes_of(all.take(i as int)) == Ok::<Seq<NoteModel>, ErrorModel>(
                        note_models(notes@),
                    ),
                decreases items.len() - i,
            {
                assert(all.take(i + 1).drop_last() == all.take(i as int));
                match note_from_json(&items[i]) {
                    Ok(note) => {
                        let ghost before = note_models(notes@);
                        notes.push(note);
                        assert(note_models(notes@) =~= before.push(note@));
                    },
                    Err(e) => {
                        proof {
                            assert(all[i as int] == items@[i as int]@);
                            lemma_first_failure(all, i as int);
                        }
                        return Err(e);
                    },
                }
                i = i + 1;
            }
            assert(all.take(i as int) == all);
            Ok(Some(notes))
        },
        _ => Err(wrong_field(key, "a sequence")),
    }
}

/// Where all items before the `i`-th stand for notes and the `i`-th stands for none,
/// its failure is that of the whole array.
proof fn lemma_first_failure(items: Seq<JsonModel>, i: int)
    requires
        0 <= i < items.len(),
        notes_of(items.take(i)) is Ok,
        note_of(items[i]) is Err,
    ensures
        notes_of(items) == Err::<Seq<NoteModel>, ErrorModel>(note_of(items[i])->Err_0),
    decreases items.len(),
{
    if i == items.len() - 1 {
        assert(items.drop_last() == items.take(i));
    } else {
        assert(items.drop_last().take(i) == items.take(i));
        lemma_first_failure(items.drop_last(), i);
    }
}

/// The view of an export that was read.
pub open spec fn export_result(r: Result<SimpleNotes, NoteError>) -> Result<
    NotesModel,
    ErrorModel,
> {
    match r {
        Ok(notes) => Ok(notes@),
        Err(e) => Err(e@),
    }
}

/// Reads an export from the JSON document that holds it.
///
/// Fails with `InvalidData` where the document does not follow the schema of
/// [`export_of`]; the message names the member that is missing or has the wrong type.
pub fn notes_from_json(document: &JsonValue) -> (r: Result<SimpleNotes, NoteError>)
    ensures
        export_result(r) == export_of(document@),
{
    match document {
        JsonValue::Object(_) => {},
        _ => {
            return Err(wrong_type("an export"));
        },
    }
    let active_notes = match read_part(document, "activeNotes") {
        Ok(part) => part,
        Err(e) => {
            return Err(e);
        },
    };
    let trashed_notes = match read_part(document, "trashedNotes") {
        Ok(part) => part,
        Err(e) => {
            return Err(e);
        },
    };
    Ok(SimpleNotes { active_notes, trashed_notes })
}

} // verus!
