//! The checks that come before a run: is the destination a directory that can be
//! written to, is the source a node of the expected kind that can be read.
//!
//! Asking the file system is the caller's part. What it answered comes in as a
//! [`Probe`]; the functions here decide what the answers mean.
use vstd::prelude::*;
use crate::error::{ErrorKind, ErrorModel, NoteError};
use crate::text::join3;

verus! {

/// The kind of node that a source has to be.
#[derive(Clone, Copy, Debug, PartialEq, Eq, Structural)]
pub enum SourceType {
    File,
    Directory,
}

/// The kind of node that a path names.
#[derive(Clone, Copy, Debug, PartialEq, Eq, Structural)]
pub enum NodeKind {
    Directory,
    File,
    /// Neither a directory nor a regular file: a device, a socket, a pipe.
    Other,
}

/// What the file system answered about one path.
#[derive(Debug, PartialEq, Eq)]
pub struct Probe {
    /// The kind of the node, or the failure to learn it.
    pub node: Result<NodeKind, NoteError>,
    /// How the trial of access ended: for a destination, creating a temporary file in
    /// it; for a source directory, listing it; for a source file, opening it.
    /// It counts only where `node` is the kind that is asked for.
    pub access: Result<(), NoteError>,
}

/// The mathematical value of a [`Probe`].
pub struct ProbeModel {
    pub node: Result<NodeKind, ErrorModel>,
    pub access: Result<(), ErrorModel>,
}

/// The view of a verdict.
pub open spec fn verdict_view(r: Result<(), NoteError>) -> Result<(), ErrorModel> {
    match r {
        Ok(_) => Ok(()),
        Err(e) => Err(e@),
    }
}

impl View for Probe {
    type V = ProbeModel;

    open spec fn view(&self) -> ProbeModel {
        ProbeModel {
            node: match self.node {
                Ok(kind) => Ok(kind),
                Err(e) => Err(e@),
            },
            access: verdict_view(self.access),
        }
    }
}

/// The failure of kind `kind` whose message is `path` in single quotes between
/// `prefix` and `suffix`.
pub open spec fn path_failure(
    kind: ErrorKind,
    prefix: Seq<char>,
    path: Seq<char>,
    suffix: Seq<char>,
) -> ErrorModel {
    ErrorModel { kind, message: prefix + path + suffix }
}

/// What a failed trial of access means: a denial is told in the words of `denied`,
/// any other failure is handed on as it came.
pub open spec fn access_verdict(
    access: Result<(), ErrorModel>,
    prefix: Seq<char>,
    path: Seq<char>,
    denied: Seq<char>,
) -> Result<(), ErrorModel> {
    match access {
        Ok(_) => Ok(()),
        Err(e) => if e.kind == ErrorKind::PermissionDenied {
            Err(path_failure(ErrorKind::PermissionDenied, prefix, path, denied))
        } else {
            Err(e)
        },
    }
}

/// Whether a destination can be written to, and if not, why.
///
/// A path that names nothing is `NotFound`; one that names no directory is
/// `InvalidInput`; a directory in which no file could be created for want of
/// permission is `PermissionDenied`. Any other failure is handed on as it came.
pub open spec fn dest_verdict(dest_dir: Seq<char>, probe: ProbeModel) -> Result<(), ErrorModel> {
    match probe.node {
        Err(e) => if e.kind == ErrorKind::NotFound {
            Err(path_failure(ErrorKind::NotFound, "dest_dir: '"@, dest_dir, "' not found"@))
        } else {
            Err(e)
        },
        Ok(NodeKind::Directory) => access_verdict(
            probe.access,
            "dest_dir: '"@,
            dest_dir,
            "' not writable"@,
        ),
        Ok(_) => Err(
            path_failure(
                ErrorKind::InvalidInput,
                "dest_dir: '"@,
                dest_dir,
                "' must be a directory"@,
            ),
        ),
    }
}

/// Whether a source can be read as a node of kind `wanted`, and if not, why.
///
/// A path that names nothing is `NotFound`; a node of another kind than `wanted` is
/// `InvalidInput`; a node of that kind that could not be listed or opened for want of
/// permission is `PermissionDenied`. Any other failure is handed on as it came.
pub open spec fn source_verdict(
    source_path: Seq<char>,
    wanted: SourceType,
    probe: ProbeModel,
) -> Result<(), ErrorModel> {
    match probe.node {
        Err(e) => if e.kind == ErrorKind::NotFound {
            Err(path_failure(ErrorKind::NotFound, "source_path: '"@, source_path, "' not found"@))
        } else {
            Err(e)
        },
        Ok(NodeKind::Directory) => if wanted == SourceType::Directory {
            access_verdict(
                probe.access,
                "source_path: '"@,
                source_path,
                "' directory access denied"@,
            )
        } else {
            Err(
                path_failure(
                    ErrorKind::InvalidInput,
                    "source_path: '"@,
                    source_path,
                    "' is a directory but file was required"@,
                ),
            )
        },
        Ok(NodeKind::File) => if wanted == SourceType::File {
            access_verdict(
                probe.access,
                "source_path: '"@,
                source_path,
                "' file access denied"@,
            )
        } else {
            Err(
                path_failure(
                    ErrorKind::InvalidInput,
                    "source_path: '"@,
                    source_path,
                    "' is a file but directory was required"@,
                ),
            )
        },
        Ok(NodeKind::Other) => Err(
            path_failure(
                ErrorKind::InvalidInput,
                "source_path: '"@,
                source_path,
                "' is not a file or directory"@,
            ),
        ),
    }
}

/// The failure of kind `kind` that names `path` between `prefix` and `suffix`.
fn failure(kind: ErrorKind, prefix: &str, path: &str, suffix: &str) -> (r: NoteError)
    ensures
        r@ == path_failure(kind, prefix@, path@, suffix@),
{
    NoteError::new(kind, join3(prefix, path, suffix))
}

/// Judges the trial of access to a node that has the right kind.
fn verify_access(access: &Result<(), NoteError>, prefix: &str, path: &str, denied: &str) -> (r:
    Result<(), NoteError>)
    ensures
        verdict_view(r) == access_verdict(verdict_view(*access), prefix@, path@, denied@),
{
    match access {
        Ok(_) => Ok(()),
        Err(e) => {
            if e.kind == ErrorKind::PermissionDenied {
                Err(failure(ErrorKind::PermissionDenied, prefix, path, denied))
            } else {
                Err(e.clone())
            }
        },
    }
}

/// Decides from what the file system answered whether notes can be written to
/// `dest_dir`.
pub fn verify_dest(dest_dir: &str, probe: &Probe) -> (r: Result<(), NoteError>)
    ensures
        verdict_view(r) == dest_verdict(dest_dir@, probe@),
{
    match &probe.node {
        Err(e) => {
            if e.kind == ErrorKind::NotFound {
                Err(failure(ErrorKind::NotFound, "dest_dir: '", dest_dir, "' not found"))
            } else {
                Err(e.clone())
            }
        },
        Ok(NodeKind::Directory) => verify_access(
            &probe.access,
            "dest_dir: '",
            dest_dir,
            "' not writable",
        ),
        Ok(_) => Err(
            failure(ErrorKind::InvalidInput, "dest_dir: '", dest_dir, "' must be a directory"),
        ),
    }
}

/// Decides from what the file system answered whether `source_path` can be read as
/// a node of kind `source_type`.
pub fn verify_source(source_path: &str, source_type: SourceType, probe: &Probe) -> (r: Result<
    (),
    NoteError,
>)
    ensures
        verdict_view(r) == source_verdict(source_path@, source_type, probe@),
{
    match &probe.node {
        Err(e) => {
            if e.kind == ErrorKind::NotFound {
                Err(failure(ErrorKind::NotFound, "source_path: '", source_path, "' not found"))
            } else {
                Err(e.clone())
            }
        },
        Ok(NodeKind::Directory) => {
            if source_type == SourceType::Directory {
                verify_access(
                    &probe.access,
                    "source_path: '",
                    source_path,
                    "' directory access denied",
                )
            } else {
                Err(
                    failure(
                        ErrorKind::InvalidInput,
                        "source_path: '",
                        source_path,
                        "' is a directory but file was required",
                    ),
                )
            }
        },
        Ok(NodeKind::File) => {
            if source_type == SourceType::File {
                verify_access(
                    &probe.access,
                    "source_path: '",
                    source_path,
                    "' file access denied",
                )
            } else {
                Err(
                    failure(
                        ErrorKind::InvalidInput,
                        "source_path: '",
                        source_path,
                        "' is a file but directory was required",
                    ),
                )
            }
        },
        Ok(NodeKind::Other) => Err(
            failure(
                ErrorKind::InvalidInput,
                "source_path: '",
                source_path,
                "' is not a file or directory",
            ),
        ),
    }
}

} // verus!
