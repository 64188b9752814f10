//! A note as Markdown with a front matter, the text that it is rendered to, and the
//! path of the file that it is written to.
use vstd::prelude::*;
use vstd::string::*;
use crate::error::{ErrorKind, ErrorModel, NoteError};
use crate::path::{
    dir_part, free_path, join_chars, joined, lemma_first_free_unique, lemma_joined_parts,
    lemma_path_parts, lemma_stem, lemma_taken_variants, name_part, name_start, numbered,
    numbered_path, stem, stem_len, with_md,
};
use crate::text::{
    from_chars, join3, leading, lemma_leading_bounds, lemma_trailing_bounds, push_str_chars,
    slice_chars, texts, to_chars, trim, trim_start, trimmed, trimmed_start, CharClass,
};
use crate::yaml::{
    has_key, yaml_document, yaml_entries, yaml_error_message, yaml_error_text, yaml_insert_flag,
    yaml_insert_list, yaml_insert_text, yaml_new, yaml_to_string, YamlValue,
};

verus! {

/// What the front matter of a note says.
///
/// A field that is `None` is left out of the front matter.
#[derive(Debug, PartialEq)]
pub struct MarkdownMeta {
    pub title: String,
    pub created: String,
    pub modified: String,
    pub deleted: Option<bool>,
    pub favorited: Option<bool>,
    pub pinned: Option<bool>,
    pub tags: Option<Vec<String>>,
}

/// The mathematical value of a [`MarkdownMeta`].
pub struct MetaModel {
    pub title: Seq<char>,
    pub created: Seq<char>,
    pub modified: Seq<char>,
    pub deleted: Option<bool>,
    pub favorited: Option<bool>,
    pub pinned: Option<bool>,
    pub tags: Option<Seq<Seq<char>>>,
}

impl View for MarkdownMeta {
    type V = MetaModel;

    open spec fn view(&self) -> MetaModel {
        MetaModel {
            title: self.title@,
            created: self.created@,
            modified: self.modified@,
            deleted: self.deleted,
            favorited: self.favorited,
            pinned: self.pinned,
            tags: match self.tags {
                Some(tags) => Some(texts(tags@)),
                None => None,
            },
        }
    }
}

/// A note: its front matter and its body.
#[derive(Debug, PartialEq)]
pub struct Markdown {
    pub meta: MarkdownMeta,
    pub content: String,
}

/// The mathematical value of a [`Markdown`].
pub struct MarkdownModel {
    pub meta: MetaModel,
    pub content: Seq<char>,
}

impl View for Markdown {
    type V = MarkdownModel;

    open spec fn view(&self) -> MarkdownModel {
        MarkdownModel { meta: self.meta@, content: self.content@ }
    }
}

/// A file that is to be written: its path and all of its text.
#[derive(Debug, PartialEq, Eq)]
pub struct NoteFile {
    pub path: String,
    pub text: String,
}

/// The mathematical value of a [`NoteFile`].
pub struct FileModel {
    pub path: Seq<char>,
    pub text: Seq<char>,
}

impl View for NoteFile {
    type V = FileModel;

    open spec fn view(&self) -> FileModel {
        FileModel { path: self.path@, text: self.text@ }
    }
}

/// The entry of a flag: none where the flag is absent.
pub open spec fn flag_entry(key: Seq<char>, flag: Option<bool>) -> Seq<(Seq<char>, YamlValue)> {
    match flag {
        Some(b) => seq![(key, YamlValue::Flag(b))],
        None => seq![],
    }
}

/// The entry of the tags: none where they are absent.
pub open spec fn tags_entry(tags: Option<Seq<Seq<char>>>) -> Seq<(Seq<char>, YamlValue)> {
    match tags {
        Some(list) => seq![("tags"@, YamlValue::List(list))],
        None => seq![],
    }
}

/// The entries of a front matter: title, created and modified, then each of
/// deleted, favorited, pinned and tags that is present, in this order.
pub open spec fn meta_entries(meta: MetaModel) -> Seq<(Seq<char>, YamlValue)> {
    seq![
        ("title"@, YamlValue::Text(meta.title)),
        ("created"@, YamlValue::Text(meta.created)),
        ("modified"@, YamlValue::Text(meta.modified)),
    ] + flag_entry("deleted"@, meta.deleted) + flag_entry("favorited"@, meta.favorited)
        + flag_entry("pinned"@, meta.pinned) + tags_entry(meta.tags)
}

/// The text of a file: the front matter, a line of three hyphens, the body, and a
/// line feed.
pub open spec fn framed(front: Seq<char>, content: Seq<char>) -> Seq<char> {
    front + "---\n"@ + content + "\n"@
}

/// The text of a note: its front matter as a YAML document and its body, put
/// together as [`framed`] says. Where the front matter cannot be rendered, the
/// message that says why.
pub open spec fn rendered(markdown: MarkdownModel) -> Result<Seq<char>, Seq<char>> {
    match yaml_document(meta_entries(markdown.meta)) {
        Ok(front) => Ok(framed(front, markdown.content)),
        Err(message) => Err(message),
    }
}

/// The seven keys of a front matter are seven different texts.
proof fn lemma_keys_differ()
    ensures
        "title"@.len() == 5,
        "created"@.len() == 7 && "created"@[0] == 'c',
        "modified"@.len() == 8,
        "deleted"@.len() == 7 && "deleted"@[0] == 'd',
        "favorited"@.len() == 9,
        "pinned"@.len() == 6,
        "tags"@.len() == 4,
{
    reveal_strlit("title");
    reveal_strlit("created");
    reveal_strlit("modified");
    reveal_strlit("deleted");
    reveal_strlit("favorited");
    reveal_strlit("pinned");
    reveal_strlit("tags");
}

/// Adds the entry of a flag, if the flag is present.
fn insert_flag(m: &mut serde_yaml::Mapping, key: &str, flag: Option<bool>)
    requires
        !has_key(yaml_entries(*old(m)), key@),
    ensures
        yaml_entries(*final(m)) == yaml_entries(*old(m)) + flag_entry(key@, flag),
{
    if let Some(b) = flag {
        yaml_insert_flag(m, key, b);
    }
}

/// The mapping that holds the entries of a front matter.
fn meta_mapping(meta: &MarkdownMeta) -> (m: serde_yaml::Mapping)
    ensures
        yaml_entries(m) == meta_entries(meta@),
{
    proof {
        lemma_keys_differ();
    }
    let mut m = yaml_new();
    yaml_insert_text(&mut m, "title", meta.title.as_str());
    yaml_insert_text(&mut m, "created", meta.created.as_str());
    yaml_insert_text(&mut m, "modified", meta.modified.as_str());
    insert_flag(&mut m, "deleted", meta.deleted);
    insert_flag(&mut m, "favorited", meta.favorited);
    insert_flag(&mut m, "pinned", meta.pinned);
    if let Some(tags) = &meta.tags {
        yaml_insert_list(&mut m, "tags", tags);
    }
    m
}

/// Renders a front matter as a YAML document.
///
/// The document holds the entries of [`meta_entries`], in their order. `serde_yaml`
/// decides how it is written down, and whether it can be.
pub fn serialize_meta(meta: &MarkdownMeta) -> (r: Result<String, serde_yaml::Error>)
    ensures
        match r {
            Ok(text) => yaml_document(meta_entries(meta@)) == Ok::<Seq<char>, Seq<char>>(text@),
            Err(e) => yaml_document(meta_entries(meta@)) == Err::<Seq<char>, Seq<char>>(
                yaml_error_text(e),
            ),
        },
{
    let m = meta_mapping(meta);
    yaml_to_string(&m)
}

/// Puts a front matter that is rendered and a body together as the text of a file.
pub fn frame_markdown(front: String, content: &str) -> (r: String)
    ensures
        r@ == framed(front@, content@),
{
    let mut text = front;
    text.append("---\n");
    text.append(content);
    text.append("\n");
    text
}

/// Renders a note as the text of its file.
///
/// The front matter comes first, as [`serialize_meta`] renders it; the body follows
/// a line of three hyphens and is followed by a line feed.
pub fn serialize_markdown(markdown: &Markdown) -> (r: Result<String, serde_yaml::Error>)
    ensures
        match r {
            Ok(text) => rendered(markdown@) == Ok::<Seq<char>, Seq<char>>(text@),
            Err(e) => rendered(markdown@) == Err::<Seq<char>, Seq<char>>(yaml_error_text(e)),
        },
{
    match serialize_meta(&markdown.meta) {
        Ok(front) => Ok(frame_markdown(front, markdown.content.as_str())),
        Err(e) => Err(e),
    }
}

impl Markdown {
    /// The note as it is shown to a reader: the text of its file, or, where it
    /// cannot be rendered, the message that says why.
    pub fn to_text(&self) -> (r: String)
        ensures
            r@ == match rendered(self@) {
                Ok(text) => text,
                Err(message) => message,
            },
    {
        match serialize_markdown(self) {
            Ok(text) => text,
            Err(e) => yaml_error_message(&e),
        }
    }
}

/// The character that stands in a file name for `c`: an underscore for a colon and
/// for a question mark, which file systems reserve, and `c` itself for any other.
pub open spec fn replace_reserved(c: char) -> char {
    if c == ':' || c == '?' {
        '_'
    } else {
        c
    }
}

/// `s` with every reserved character replaced.
pub open spec fn without_reserved(s: Seq<char>) -> Seq<char> {
    s.map_values(|c: char| replace_reserved(c))
}

/// `s` without one `/` at its end, if it ends in one.
pub open spec fn without_final_slash(s: Seq<char>) -> Seq<char> {
    if s.len() > 0 && s.last() == '/' {
        s.drop_last()
    } else {
        s
    }
}

/// The name that a title gives to a file, before the extension is added.
///
/// Colons and question marks become underscores; spaces and dots at the start and
/// white space at both ends go; one `/` at the end goes; of what is left, only what
/// follows the last `/` stays, without the white space at its ends.
pub open spec fn file_stem_of(title: Seq<char>) -> Seq<char> {
    trim(
        name_part(
            without_final_slash(trim(trim_start(without_reserved(title), CharClass::Padding))),
        ),
    )
}

/// The failure that a title gives from which no file name is left.
pub open spec fn invalid_title(title: Seq<char>) -> ErrorModel {
    ErrorModel {
        kind: ErrorKind::InvalidData,
        message: "title: '"@ + title + "' is not valid for a filename"@,
    }
}

/// The path of the file that a title names in a directory, or the failure where the
/// title leaves no name.
pub open spec fn title_path(dest_dir: Seq<char>, title: Seq<char>) -> Result<
    Seq<char>,
    ErrorModel,
> {
    if file_stem_of(title).len() == 0 {
        Err(invalid_title(title))
    } else {
        Ok(joined(dest_dir, with_md(file_stem_of(title))))
    }
}

/// The file that a title names lies in the directory that it is written to: its
/// path is the directory, a `/` where the directory needs one, and a name that
/// holds no `/`, is not empty and ends in `.md`.
pub proof fn lemma_title_path_parts(dest_dir: Seq<char>, title: Seq<char>)
    requires
        title_path(dest_dir, title) is Ok,
    ensures
        name_part(title_path(dest_dir, title)->Ok_0) == with_md(file_stem_of(title)),
        dir_part(title_path(dest_dir, title)->Ok_0) == if dest_dir.len() == 0 || dest_dir.last()
            == '/' {
            dest_dir
        } else {
            dest_dir.push('/')
        },
        with_md(file_stem_of(title)).len() > 3,
        forall|i: int|
            0 <= i < with_md(file_stem_of(title)).len() ==> #[trigger] with_md(
                file_stem_of(title),
            )[i] != '/',
{
    reveal_strlit(".md");
    let cut = without_final_slash(trim(trim_start(without_reserved(title), CharClass::Padding)));
    let tail = name_part(cut);
    let name = file_stem_of(title);
    lemma_path_parts(cut);
    lemma_leading_bounds(tail, CharClass::Whitespace);
    lemma_trailing_bounds(trim_start(tail, CharClass::Whitespace), CharClass::Whitespace);
    assert forall|i: int| 0 <= i < name.len() implies #[trigger] name[i] != '/' by {
        assert(name[i] == tail[leading(tail, CharClass::Whitespace) + i]);
    }
    lemma_stem(name);
    let file = with_md(name);
    assert forall|i: int| 0 <= i < file.len() implies #[trigger] file[i] != '/' by {
        if i < stem(name).len() {
            assert(file[i] == name[i]);
        } else {
            assert(file[i] == ".md"@[i - stem(name).len()]);
        }
    }
    lemma_joined_parts(dest_dir, file);
}

/// `v` with every reserved character replaced.
fn replace_reserved_chars(v: &Vec<char>) -> (r: Vec<char>)
    ensures
        r@ == without_reserved(v@),
{
    let mut out: Vec<char> = Vec::new();
    let mut i: usize = 0;
    while i < v.len()
        invariant
            i <= v.len(),
            out@ == without_reserved(v@.take(i as int)),
        decreases v.len() - i,
    {
        let c = v[i];
        if c == ':' || c == '?' {
            out.push('_');
        } else {
            out.push(c);
        }
        i = i + 1;
        assert(out@ =~= without_reserved(v@.take(i as int)));
    }
    assert(v@.take(v.len() as int) == v@);
    out
}

/// The path of the file that the note with the given title is written to in
/// `dest_dir`, before it is known which files exist there.
///
/// Fails with `InvalidData` exactly where the title leaves no file name, which an
/// empty title does.
pub fn title_to_filepath(dest_dir: &str, title: &str) -> (r: Result<String, NoteError>)
    ensures
        match r {
            Ok(path) => title_path(dest_dir@, title@) == Ok::<Seq<char>, ErrorModel>(path@),
            Err(e) => title_path(dest_dir@, title@) == Err::<Seq<char>, ErrorModel>(e@),
        },
{
    let chars = to_chars(title);
    let replaced = replace_reserved_chars(&chars);
    let unpadded = trimmed_start(&replaced, CharClass::Padding);
    let stripped = trimmed(&unpadded);
    let end = if stripped.len() > 0 && stripped[stripped.len() - 1] == '/' {
        stripped.len() - 1
    } else {
        stripped.len()
    };
    let cut = slice_chars(&stripped, 0, end);
    assert(cut@ == without_final_slash(stripped@));
    let start = name_start(&cut);
    let tail = slice_chars(&cut, start, cut.len());
    let name = trimmed(&tail);
    assert(name@ == file_stem_of(title@));
    if name.len() == 0 {
        Err(
            NoteError::new(
                ErrorKind::InvalidData,
                join3("title: '", title, "' is not valid for a filename"),
            ),
        )
    } else {
        let keep = stem_len(&name);
        let mut file = slice_chars(&name, 0, keep);
        push_str_chars(&mut file, ".md");
        let dir = to_chars(dest_dir);
        Ok(from_chars(&join_chars(&dir, &file)))
    }
}

/// Whether `existing` holds `path`.
fn is_taken(existing: &Vec<String>, path: &String) -> (r: bool)
    ensures
        r == texts(existing@).contains(path@),
{
    let mut i: usize = 0;
    while i < existing.len()
        invariant
            i <= existing.len(),
            forall|j: int| 0 <= j < i ==> texts(existing@)[j] != path@,
        decreases existing.len() - i,
    {
        if existing[i] == *path {
            assert(texts(existing@)[i as int] == path@);
            return true;
        }
        i = i + 1;
    }
    false
}

/// The path under which a file can be written without replacing one that exists.
///
/// `existing` holds the paths that are taken. The result is `file_path` itself where
/// it is free, and else the first of its variants ` (1)`, ` (2)`, … that is.
pub fn increment_filepath_if_exists(file_path: &str, existing: &Vec<String>) -> (r: String)
    ensures
        r@ == free_path(file_path@, texts(existing@)),
        !texts(existing@).contains(r@),
{
    let path = to_chars(file_path);
    let ghost taken = texts(existing@);
    let mut n: usize = 0;
    let mut candidate = from_chars(&numbered_path(&path, 0));
    while is_taken(existing, &candidate)
        invariant
            path@ == file_path@,
            taken == texts(existing@),
            candidate@ == numbered(path@, n as nat),
            forall|j: nat| j < n ==> taken.contains(#[trigger] numbered(path@, j)),
            n <= existing.len(),
        decreases existing.len() - n,
    {
        proof {
            assert forall|j: nat| j <= n implies taken.contains(#[trigger] numbered(path@, j)) by {
                if j == n {
                } else {
                    assert(j < n);
                }
            }
            lemma_taken_variants(path@, taken, n as nat);
        }
        n = n + 1;
        candidate = from_chars(&numbered_path(&path, n));
    }
    proof {
        lemma_first_free_unique(path@, taken, n as nat, n as nat);
    }
    candidate
}

/// The failure that a front matter gives which cannot be rendered.
pub open spec fn yaml_failure(message: Seq<char>) -> ErrorModel {
    ErrorModel { kind: ErrorKind::InvalidData, message: "YAML ERROR: "@ + message }
}

/// The file that a note is written to in a directory in which the paths of `taken`
/// exist, or the failure to name or to render it.
pub open spec fn placed(markdown: MarkdownModel, dest_dir: Seq<char>, taken: Seq<Seq<char>>) -> Result<
    FileModel,
    ErrorModel,
> {
    match title_path(dest_dir, markdown.meta.title) {
        Err(e) => Err(e),
        Ok(path) => match rendered(markdown) {
            Err(message) => Err(yaml_failure(message)),
            Ok(text) => Ok(FileModel { path: free_path(path, taken), text }),
        },
    }
}

/// Writes a note into the directory `dest_dir`, of which `existing` holds the paths
/// that are taken: decides the path and the text of the file, and takes the path.
///
/// The path is the one that the title names, or where that is taken its first free
/// variant; it was not in `existing` and is added to it, so that no later note gets
/// it. A note whose title leaves no file name, or whose front matter cannot be
/// rendered, fails with `InvalidData` and leaves `existing` as it was.
pub fn write_markdown(markdown: Markdown, dest_dir: &str, existing: &mut Vec<String>) -> (r:
    Result<NoteFile, NoteError>)
    ensures
        match r {
            Ok(file) => placed(markdown@, dest_dir@, texts(old(existing)@)) == Ok::<
                FileModel,
                ErrorModel,
            >(file@) && texts(final(existing)@) == texts(old(existing)@).push(file@.path),
            Err(e) => placed(markdown@, dest_dir@, texts(old(existing)@)) == Err::<
                FileModel,
                ErrorModel,
            >(e@) && texts(final(existing)@) == texts(old(existing)@),
        },
{
    match title_to_filepath(dest_dir, markdown.meta.title.as_str()) {
        Err(e) => Err(e),
        Ok(initial) => match serialize_markdown(&markdown) {
            Err(e) => {
                let message = yaml_error_message(&e);
                Err(
                    NoteError::new(
                        ErrorKind::InvalidData,
                        String::from_str("YAML ERROR: ").concat(message.as_str()),
                    ),
                )
            },
            Ok(text) => {
                let path = increment_filepath_if_exists(initial.as_str(), existing);
                existing.push(path.clone());
                assert(texts(existing@) =~= texts(old(existing)@).push(path@));
                Ok(NoteFile { path, text })
            },
        },
    }
}

} // verus!
