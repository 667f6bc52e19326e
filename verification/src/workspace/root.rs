//! Opening a repository as a workspace.
use vstd::prelude::*;

use crate::text::{concat, concat3, same_text};

verus! {

/// Why a repository cannot be opened as a workspace.
#[derive(Debug, PartialEq, Eq)]
pub enum WorkspaceError {
    NonCanonicalRoot { path: String },
    Io { path: String, message: String },
}

/// [`WorkspaceError`] as mathematical values.
pub enum WorkspaceErrorView {
    NonCanonicalRoot(Seq<char>),
    Io(Seq<char>, Seq<char>),
}

impl View for WorkspaceError {
    type V = WorkspaceErrorView;

    open spec fn view(&self) -> WorkspaceErrorView {
        match self {
            WorkspaceError::NonCanonicalRoot { path } => WorkspaceErrorView::NonCanonicalRoot(path@),
            WorkspaceError::Io { path, message } => WorkspaceErrorView::Io(path@, message@),
        }
    }
}

/// What a [`WorkspaceError`] says.
pub open spec fn workspace_error_text(e: WorkspaceErrorView) -> Seq<char> {
    match e {
        WorkspaceErrorView::NonCanonicalRoot(p) => "repository path is not canonical: "@ + p,
        WorkspaceErrorView::Io(p, m) => "could not inspect repository at "@ + p + ": "@ + m,
    }
}

impl WorkspaceError {
    /// What the error says.
    pub fn message(&self) -> (text: String)
        ensures
            text@ == workspace_error_text(self@),
    {
        match self {
            WorkspaceError::NonCanonicalRoot { path } => concat(
                "repository path is not canonical: ",
                path.as_str(),
            ),
            WorkspaceError::Io { path, message } => concat3(
                "could not inspect repository at ",
                &concat(path.as_str(), ": "),
                message.as_str(),
            ),
        }
    }
}

/// What resolving a repository root on disk found: its canonical path and
/// whether it is a directory, or the message of the failure.
#[derive(Debug)]
pub enum RootProbe {
    Resolved { canonical: String, is_dir: bool },
    Failed(String),
}

/// Checks a registered repository root before it is opened: it must resolve,
/// be a directory, and already be its own canonical path.
pub fn check_workspace_root(path: &str, probe: &RootProbe) -> (result: Result<(), WorkspaceError>)
    ensures
        match probe {
            RootProbe::Failed(m) => result matches Err(e) && e@ == WorkspaceErrorView::Io(path@, m@),
            RootProbe::Resolved { canonical, is_dir } => if canonical@ == path@ && *is_dir {
                result is Ok
            } else {
                result matches Err(e) && e@ == WorkspaceErrorView::NonCanonicalRoot(path@)
            },
        },
{
    match probe {
        RootProbe::Failed(m) => Err(WorkspaceError::Io { path: path.to_owned(), message: m.clone() }),
        RootProbe::Resolved { canonical, is_dir } => {
            if !same_text(canonical.as_str(), path) || !*is_dir {
                Err(WorkspaceError::NonCanonicalRoot { path: path.to_owned() })
            } else {
                Ok(())
            }
        },
    }
}

} // verus!
