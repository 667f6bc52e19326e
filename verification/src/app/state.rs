//! Small pieces of application state: the sidebar, the repository form, the
//! request to quit and what the status line says of the last push.
use vstd::prelude::*;

use super::ids::{AppExitStatus, RequestId};
use super::home::HomeState;
use super::keymap::RepositoryFormField;
use super::session::WorkspaceSession;
use crate::git::{git_error_text, GitError, PushOutcome};
use crate::workspace::files::{file_error_text, FileError};
use crate::workspace::paths::{path_error_text, PathError};
use crate::workspace::root::{workspace_error_text, WorkspaceError};
use crate::text::concat3;

verus! {

/// Whether the file tree is shown, and whether it was shown only for the
/// moment (so that leaving the tree hides it again).
#[derive(Clone, Copy, PartialEq, Eq, Structural, Debug)]
pub struct SidebarState {
    pub visible: bool,
    pub overlay_intent: bool,
}

impl SidebarState {
    /// Shown, for good.
    pub fn new() -> (sidebar: Self)
        ensures
            sidebar.visible && !sidebar.overlay_intent,
    {
        SidebarState { visible: true, overlay_intent: false }
    }

    /// Shows the tree if it is hidden and hides it if it is shown.
    pub fn toggle(&mut self)
        ensures
            final(self).visible == !old(self).visible,
            final(self).overlay_intent == old(self).overlay_intent,
    {
        self.visible = !self.visible;
    }

    /// Leaving the tree: a tree shown only for the moment is hidden again.
    pub fn leave_tree(&mut self)
        ensures
            final(self).visible == (old(self).visible && !old(self).overlay_intent),
            final(self).overlay_intent == old(self).overlay_intent,
    {
        if self.overlay_intent {
            self.visible = false;
        }
    }
}

/// The form that names (and, for a new registration, locates) a repository.
#[derive(Debug)]
pub struct RepositoryFormState {
    pub name: String,
    pub path: String,
    pub active_field: RepositoryFormField,
}

impl RepositoryFormState {
    /// An empty form, editing the name.
    pub fn new() -> (form: Self)
        ensures
            form.name@ == Seq::<char>::empty(),
            form.path@ == Seq::<char>::empty(),
            form.active_field == RepositoryFormField::Name,
    {
        RepositoryFormState { name: String::new(), path: String::new(), active_field: RepositoryFormField::Name }
    }

    /// Moves to the other field.
    pub fn toggle_field(&mut self)
        ensures
            final(self).active_field != old(self).active_field,
            final(self).name@ == old(self).name@,
            final(self).path@ == old(self).path@,
    {
        self.active_field = match self.active_field {
            RepositoryFormField::Name => RepositoryFormField::Path,
            RepositoryFormField::Path => RepositoryFormField::Name,
        };
    }

    /// The field being edited now holds `text`; the other is unchanged.
    pub fn set_input(&mut self, text: String)
        ensures
            final(self).active_field == old(self).active_field,
            old(self).active_field == RepositoryFormField::Name ==> final(self).name@ == text@
                && final(self).path@ == old(self).path@,
            old(self).active_field == RepositoryFormField::Path ==> final(self).path@ == text@
                && final(self).name@ == old(self).name@,
    {
        match self.active_field {
            RepositoryFormField::Name => self.name = text,
            RepositoryFormField::Path => self.path = text,
        }
    }
}

/// Whether quitting was asked for, and the exit status it settled on.
#[derive(Clone, Copy, PartialEq, Eq, Structural, Debug)]
pub struct QuitState {
    pub requested: bool,
    pub final_status: Option<AppExitStatus>,
}

impl QuitState {
    /// Nothing asked yet.
    pub fn new() -> (quit: Self)
        ensures
            !quit.requested && quit.final_status is None,
    {
        QuitState { requested: false, final_status: None }
    }

    /// Quitting is asked for: the exit status is a failure while any failure
    /// is unresolved, a success otherwise.
    pub fn request(&mut self, failures_unresolved: bool)
        ensures
            final(self).requested,
            final(self).final_status == Some(
                if failures_unresolved {
                    AppExitStatus::Failure
                } else {
                    AppExitStatus::Success
                },
            ),
    {
        self.requested = true;
        self.final_status = Some(
            if failures_unresolved {
                AppExitStatus::Failure
            } else {
                AppExitStatus::Success
            },
        );
    }
}

/// A failure is unresolved: the home screen's, the open workspace's, or one
/// the application met itself (`other`).
pub open spec fn failures_unresolved(home: &HomeState, session: Option<&WorkspaceSession>, other: bool) -> bool {
    ||| home.catalog_failure is Some
    ||| home.open_failure is Some
    ||| match session {
        Some(s) => s.write_failure is Some || s.git_failure is Some || s.load_failure is Some
            || s.mutation_failure is Some || s.refresh_failure is Some,
        None => false,
    }
    ||| other
}

impl QuitState {
    /// Quitting is asked for: the exit status is a failure while any failure
    /// of the home screen, the open workspace or the application is unresolved.
    pub fn request_for(&mut self, home: &HomeState, session: Option<&WorkspaceSession>, other: bool)
        ensures
            final(self).requested,
            final(self).final_status == Some(
                if failures_unresolved(home, session, other) {
                    AppExitStatus::Failure
                } else {
                    AppExitStatus::Success
                },
            ),
    {
        let in_session = match session {
            Some(s) => s.has_unresolved_failures(),
            None => false,
        };
        self.request(home.has_unresolved_failures() || in_session || other);
    }
}

/// Where the last push stands.
#[derive(Clone, PartialEq, Eq, Debug)]
pub enum PushStatus {
    Idle,
    Pushing,
    Pushed,
    UpToDate,
    Failed { message: String },
}

/// What the status line says of a push, if anything.
pub open spec fn push_part(push: PushStatus) -> Option<Seq<char>> {
    match push {
        PushStatus::Idle => None,
        PushStatus::Pushing => Some("pushing"@),
        PushStatus::Pushed => Some("pushed"@),
        PushStatus::UpToDate => Some("remote up to date"@),
        PushStatus::Failed { message } => Some(message@),
    }
}

impl PushStatus {
    /// How a push that ended stands.
    pub fn of_result(result: Result<PushOutcome, GitError>) -> (status: PushStatus)
        ensures
            match result {
                Ok(PushOutcome::Pushed) => status == PushStatus::Pushed,
                Ok(PushOutcome::UpToDate) => status == PushStatus::UpToDate,
                Err(e) => status matches PushStatus::Failed { message } && message@ == git_error_text(e),
            },
    {
        match result {
            Ok(PushOutcome::Pushed) => PushStatus::Pushed,
            Ok(PushOutcome::UpToDate) => PushStatus::UpToDate,
            Err(error) => PushStatus::Failed { message: error.message() },
        }
    }
}

/// The background operation a runtime failure belongs to.
#[derive(Clone, Copy, PartialEq, Eq, Structural, Debug)]
pub enum RuntimeOperation {
    OpenWorkspace,
    LoadNote,
    Mutation,
    RefreshTree,
}

/// A runtime failure not resolved yet: the request it answered (if any), the
/// repository and operation it belongs to, and what it says. One is kept for
/// each repository and operation: a newer one replaces it.
#[derive(Debug, PartialEq, Eq)]
pub struct RuntimeFailure {
    pub request_id: Option<RequestId>,
    pub repository_id: u128,
    pub operation: RuntimeOperation,
    pub message: String,
}

/// Why background work for the runtime failed.
#[derive(Debug, PartialEq, Eq)]
pub enum RuntimeError {
    Workspace(WorkspaceError),
    Git(GitError),
    Path(PathError),
    File(FileError),
    WorkerPanicked { operation: String },
}

/// What a runtime error says: the inner error's own words, or which worker
/// panicked.
pub open spec fn runtime_error_text(e: RuntimeError) -> Seq<char> {
    match e {
        RuntimeError::Workspace(w) => workspace_error_text(w@),
        RuntimeError::Git(g) => git_error_text(g),
        RuntimeError::Path(p) => path_error_text(p@),
        RuntimeError::File(f) => file_error_text(f@),
        RuntimeError::WorkerPanicked { operation } => "background "@ + operation@ + " worker panicked"@,
    }
}

impl RuntimeError {
    /// What the error says.
    pub fn message(&self) -> (text: String)
        ensures
            text@ == runtime_error_text(*self),
    {
        match self {
            RuntimeError::Workspace(error) => error.message(),
            RuntimeError::Git(error) => error.message(),
            RuntimeError::Path(error) => error.message(),
            RuntimeError::File(error) => error.message(),
            RuntimeError::WorkerPanicked { operation } => concat3("background ", operation.as_str(), " worker panicked"),
        }
    }
}

} // verus!
