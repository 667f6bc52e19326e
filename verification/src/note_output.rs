//! Writing a note's path or text for other programs.
use vstd::prelude::*;

use crate::cli::OutputMode;
use crate::text::{append, concat, concat3, string_of};
use crate::workspace::files::{file_error_text, FileError, LoadedNote};
use crate::workspace::paths::{joined_below, path_error_text, PathError};
use crate::workspace::root::{workspace_error_text, WorkspaceError};

verus! {

/// Why a note's output could not be written.
#[derive(Debug, PartialEq, Eq)]
pub enum NoteOutputError {
    Workspace(WorkspaceError),
    Path(PathError),
    File(FileError),
    Missing { path: String },
    Write { path: String, message: String },
}

impl NoteOutputError {
    /// What the error says.
    pub fn message(&self) -> (text: String)
        ensures
            text@ == match self {
                NoteOutputError::Workspace(e) => workspace_error_text(e@),
                NoteOutputError::Path(e) => path_error_text(e@),
                NoteOutputError::File(e) => file_error_text(e@),
                NoteOutputError::Missing { path } => "note does not exist: "@ + path@,
                NoteOutputError::Write { path, message } => "could not write output for "@ + path@
                    + ": "@ + message@,
            },
    {
        match self {
            NoteOutputError::Workspace(e) => e.message(),
            NoteOutputError::Path(e) => e.message(),
            NoteOutputError::File(e) => e.message(),
            NoteOutputError::Missing { path } => concat("note does not exist: ", path.as_str()),
            NoteOutputError::Write { path, message } => concat3(
                "could not write output for ",
                &concat(path.as_str(), ": "),
                message.as_str(),
            ),
        }
    }
}

/// What to write for a note: its absolute path below the repository `root`
/// followed by one newline, or its text as it is. A note that does not exist
/// yet has no output: the request for `requested` fails.
pub fn note_output(requested: &str, mode: OutputMode, root: &str, note: &LoadedNote) -> (result:
    Result<String, NoteOutputError>)
    ensures
        note.hash_view() is None ==> (result matches Err(NoteOutputError::Missing { path }) && path@
            == requested@),
        note.hash_view() is Some ==> (result matches Ok(out) && out@ == match mode {
            OutputMode::Path => joined_below(root@, note.path_view().relative_view()) + seq!['\n'],
            OutputMode::Print => note.text_view(),
        }),
{
    if !note.is_saved() {
        return Err(NoteOutputError::Missing { path: requested.to_owned() });
    }
    match mode {
        OutputMode::Path => {
            let mut out: Vec<char> = Vec::new();
            append(&mut out, root);
            let n = out.len();
            if n > 0 && out[n - 1] != '/' {
                out.push('/');
            }
            append(&mut out, note.path().relative());
            out.push('\n');
            proof {
                let r = root@;
                let rel = note.path_view().relative_view();
                if r.len() == 0 || r.last() == '/' {
                    assert(out@ =~= r + rel + seq!['\n']);
                } else {
                    assert(out@ =~= r + seq!['/'] + rel + seq!['\n']);
                }
            }
            Ok(string_of(out.as_slice()))
        },
        OutputMode::Print => Ok(note.text().to_owned()),
    }
}

} // verus!
