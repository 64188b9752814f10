//! Converts exported notes into Markdown files with a YAML front matter.
//!
//! The crate decides and computes; it reads and writes no file. What its caller
//! found on the file system comes in as an [`Observed`], and what is to be written
//! goes out as a list of [`Outcome`]s, each with the path and the text of one file
//! or with the reason why a note got none.
use vstd::prelude::*;
use crate::error::{ErrorKind, ErrorModel, NoteError};
use crate::preflight::{
    dest_verdict, source_verdict, verify_dest, verify_source, Probe, ProbeModel, SourceType,
};
use crate::processor::simplenote::{outcome_models, process, processed, Outcome, OutcomeModel};
use crate::text::texts;

pub mod error;
pub mod json;
pub mod path;
pub mod preflight;
pub mod processor;
pub mod text;
pub mod yaml;

verus! {

/// What was found on the file system before a run.
#[derive(Debug, PartialEq, Eq)]
pub struct Observed {
    /// What the destination directory is, and whether a file can be created in it.
    pub dest: Probe,
    /// What the source is, and whether it can be read.
    pub source: Probe,
    /// The bytes of the source, or the failure to read them. They count only for a
    /// source that is a file.
    pub content: Result<Vec<u8>, NoteError>,
    /// The paths that exist in the destination directory, each written as
    /// [`path::joined`] writes the path of a file in that directory.
    pub existing: Vec<String>,
}

/// The mathematical value of an [`Observed`].
pub struct ObservedModel {
    pub dest: ProbeModel,
    pub source: ProbeModel,
    pub content: Result<Seq<u8>, ErrorModel>,
    pub existing: Seq<Seq<char>>,
}

impl View for Observed {
    type V = ObservedModel;

    open spec fn view(&self) -> ObservedModel {
        ObservedModel {
            dest: self.dest@,
            source: self.source@,
            content: match self.content {
                Ok(bytes) => Ok(bytes@),
                Err(e) => Err(e@),
            },
            existing: texts(self.existing@),
        }
    }
}

/// What the checks before a run say: the failure of the destination, else that of
/// the source, else nothing.
pub open spec fn preflight(
    source: Seq<char>,
    wanted: SourceType,
    dest_dir: Seq<char>,
    observed: ObservedModel,
) -> Result<(), ErrorModel> {
    match dest_verdict(dest_dir, observed.dest) {
        Err(e) => Err(e),
        Ok(_) => source_verdict(source, wanted, observed.source),
    }
}

/// What a run over a Simplenote export gives: the failure of a check, or of reading
/// the source, or of the source to hold an export; else the outcomes of its notes.
/// `None` stands for the failure of a text that is no JSON document.
pub open spec fn simplenote_run(
    source_file: Seq<char>,
    dest_dir: Seq<char>,
    observed: ObservedModel,
) -> Option<Result<Seq<OutcomeModel>, ErrorModel>> {
    match preflight(source_file, SourceType::File, dest_dir, observed) {
        Err(e) => Some(Err(e)),
        Ok(_) => match observed.content {
            Err(e) => Some(Err(e)),
            Ok(bytes) => match processed(source_file, bytes, dest_dir, observed.existing) {
                None => None,
                Some(Err(e)) => Some(Err(e)),
                Some(Ok(state)) => Some(Ok(state.outcomes)),
            },
        },
    }
}

/// Checks the destination and the source directory of an export of Apple Notes.
///
/// This kind of export has no converter: where both checks pass, the run succeeds
/// and no note is written.
pub fn process_applenotes(source_dir: &str, dest_dir: &str, observed: Observed) -> (r: Result<
    Vec<Outcome>,
    NoteError,
>)
    ensures
        match preflight(source_dir@, SourceType::Directory, dest_dir@, observed@) {
            Err(e) => r is Err && r->Err_0@ == e,
            Ok(_) => r is Ok && r->Ok_0@.len() == 0,
        },
{
    match verify_dest(dest_dir, &observed.dest) {
        Err(e) => Err(e),
        Ok(_) => match verify_source(source_dir, SourceType::Directory, &observed.source) {
            Err(e) => Err(e),
            Ok(_) => Ok(Vec::new()),
        },
    }
}

/// Converts a Simplenote export into Markdown files.
///
/// The destination is checked first, then the source, which has to be a file. The
/// notes in use are converted first, then those in the trash. The run succeeds
/// where the checks pass and the source holds an export, whatever becomes of each
/// note: the outcomes say which file each note goes to, or why it goes to none.
pub fn process_simplenote(source_file: &str, dest_dir: &str, observed: Observed) -> (r: Result<
    Vec<Outcome>,
    NoteError,
>)
    ensures
        match simplenote_run(source_file@, dest_dir@, observed@) {
            Some(Ok(outcomes)) => r is Ok && outcome_models(r->Ok_0@) == outcomes,
            Some(Err(e)) => r is Err && r->Err_0@ == e,
            None => r is Err && r->Err_0@.kind == ErrorKind::InvalidData,
        },
{
    let Observed { dest, source, content, existing } = observed;
    let mut existing = existing;
    match verify_dest(dest_dir, &dest) {
        Err(e) => Err(e),
        Ok(_) => match verify_source(source_file, SourceType::File, &source) {
            Err(e) => Err(e),
            Ok(_) => match content {
                Err(e) => Err(e),
                Ok(bytes) => process(source_file, bytes, dest_dir, &mut existing),
            },
        },
    }
}

} // verus!
