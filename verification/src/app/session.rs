//! The editing session in an open repository: saving a note as one file write
//! and one Git commit, the questions asked when unsaved changes or a change
//! made outside are in the way, and retrying a commit that failed after the
//! file was written.
use vstd::prelude::*;

use super::ids::{MutationId, RequestId};
use super::state::{RuntimeFailure, RuntimeOperation};
use super::keymap::{ConflictChoice, DirtyChoice};
use super::mutation::{
    mutation_plan, mutation_reconciles_editor, reconciles_editor, FileMutationAction,
    PendingMutationKind,
};
use crate::catalog::RepoEntry;
use crate::editor::editing::{applied, Editor, EditorCommand, EditorOutcome, EditorView};
use crate::git::{
    git_error_text, mutation_commit_error_text, CommitIntent, CommitOutcome, GitError,
    MutationCommitError,
};
use crate::text::same_text;
use crate::workspace::files::{FileError, FileOperation, FileOutcome, LoadedNote};
use super::mutation::rebase_path;
use super::mutation::rebased;
use super::mutation::is_plan;
use super::mutation::path_starts_with;
use super::mutation::starts_with_path;

verus! {

/// A save in flight: which one, and the text it writes.
#[derive(Debug, PartialEq, Eq)]
pub struct PendingSave {
    pub generation: u64,
    pub snapshot: String,
}

/// A change to the repository in flight: its identity, what it does and the
/// commit it makes.
#[derive(Debug, PartialEq, Eq)]
pub struct PendingMutation {
    pub mutation_id: MutationId,
    pub repository_id: u128,
    pub repository_root: String,
    pub kind: PendingMutationKind,
    pub intent: CommitIntent,
    pub save: Option<PendingSave>,
    pub reconciles_editor: bool,
}

/// A file that was written whose commit failed, kept so that the commit alone
/// can be retried.
#[derive(Debug, PartialEq, Eq)]
pub struct SavedCommitFailure {
    pub repository_id: u128,
    pub intent: CommitIntent,
    pub message: String,
}

/// What the status line says of the last commit.
#[derive(Debug, PartialEq, Eq)]
pub enum CommitStatus {
    Idle,
    Pending,
    Committed { revision: String },
    NoChanges,
    SavedCommitFailed { message: String },
}

/// A change made outside the editor to the file being saved.
#[derive(Debug, PartialEq, Eq)]
pub enum ExternalConflict {
    Modified { path: String },
    Deleted { path: String },
}

/// The kind of an unresolved failure.
#[derive(Clone, Copy, PartialEq, Eq, Structural, Debug)]
pub enum FailureKind {
    Runtime,
    Write,
    Git,
}

/// A question or report the session puts on screen.
#[derive(Debug, PartialEq, Eq)]
pub enum SessionDialog {
    DirtyNavigation,
    ExternalConflict(ExternalConflict),
    SavedCommitFailed { message: String },
    Failure { kind: FailureKind, message: String },
}

/// Where the user asked to go.
#[derive(Debug, PartialEq, Eq)]
pub enum NavigationAction {
    Home,
    Repository { repository: RepoEntry, note: Option<String> },
    Note(String),
    Quit,
}

/// What waits for the unsaved-changes question to be answered.
#[derive(Debug, PartialEq, Eq)]
pub enum PendingIntent {
    Navigation(NavigationAction),
    Mutation(FileMutationAction),
}

/// What the session asks the application to do.
#[derive(Debug)]
pub enum SessionEffect {
    /// Apply a file operation and commit it.
    ApplyAndCommit {
        mutation_id: MutationId,
        repository_id: u128,
        repository_root: String,
        operation: FileOperation,
        intent: CommitIntent,
    },
    /// Commit again what was already written.
    RetryCommit {
        mutation_id: MutationId,
        repository_id: u128,
        repository_root: String,
        intent: CommitIntent,
    },
    /// Go where the user asked to go.
    Navigate(NavigationAction),
    /// Load this note into the editor, answering the request.
    LoadNote { request_id: RequestId, path: String },
}

/// A note load in flight.
#[derive(Debug, PartialEq, Eq)]
pub struct PendingLoad {
    pub request_id: RequestId,
    pub path: String,
}

/// A failure the user has not resolved yet: it is shown and makes the
/// program exit with a failure status.
#[derive(Debug, PartialEq, Eq)]
pub struct UnresolvedFailure {
    pub kind: FailureKind,
    pub message: String,
}

/// An editing session on one repository.
pub struct WorkspaceSession {
    pub repository_id: u128,
    pub repository_root: String,
    pub editor: Option<Editor>,
    pub pending_mutation: Option<PendingMutation>,
    pub pending_intent: Option<PendingIntent>,
    pub saved_commit_failure: Option<SavedCommitFailure>,
    pub commit_status: CommitStatus,
    pub status_message: Option<String>,
    pub dialog: Option<SessionDialog>,
    pub write_failure: Option<UnresolvedFailure>,
    pub git_failure: Option<UnresolvedFailure>,
    /// The failure of the last note load, until a load succeeds.
    pub load_failure: Option<RuntimeFailure>,
    /// The runtime failure of the last mutation, until one is applied.
    pub mutation_failure: Option<RuntimeFailure>,
    /// The failure to list the tree again after a mutation, until it is listed.
    pub refresh_failure: Option<RuntimeFailure>,
    pub pending_load: Option<PendingLoad>,
    pub next_mutation_id: u64,
    pub next_save_generation: u64,
    pub next_request_id: u64,
}

/// A failed file operation as the conflict it reports: a change made outside
/// to the file being saved, or its deletion; any other failure stays a file
/// error.
pub fn conflict_of(error: FileError) -> (result: Result<ExternalConflict, FileError>)
    ensures
        match error {
            FileError::ExternalModification { path } => result == Ok::<ExternalConflict, FileError>(
                ExternalConflict::Modified { path },
            ),
            FileError::ExternalDeletion { path } => result == Ok::<ExternalConflict, FileError>(
                ExternalConflict::Deleted { path },
            ),
            _ => result == Err::<ExternalConflict, FileError>(error),
        },
{
    match error {
        FileError::ExternalModification { path } => Ok(ExternalConflict::Modified { path }),
        FileError::ExternalDeletion { path } => Ok(ExternalConflict::Deleted { path }),
        other => Err(other),
    }
}

/// The tree entry to select after a file outcome: what was created, or where
/// a renamed or moved entry now is; after a save or a deletion, none (the
/// selection is only kept in range).
pub fn selected_after(file: &FileOutcome) -> (path: Option<String>)
    ensures
        match file {
            FileOutcome::CreatedFile(p) => path matches Some(s) && s@ == p.relative_view(),
            FileOutcome::CreatedFolder(p) => path matches Some(s) && s@ == p@,
            FileOutcome::Renamed { to, .. } => path matches Some(s) && s@ == to@,
            FileOutcome::Moved { to, .. } => path matches Some(s) && s@ == to@,
            _ => path is None,
        },
{
    match file {
        FileOutcome::CreatedFile(p) => Some(p.relative().to_owned()),
        FileOutcome::CreatedFolder(p) => Some(p.clone()),
        FileOutcome::Renamed { to, .. } => Some(to.clone()),
        FileOutcome::Moved { to, .. } => Some(to.clone()),
        _ => None,
    }
}

/// The commit that saving a note records: an update of a note that exists,
/// the creation of one that does not.
pub open spec fn is_save_intent(intent: CommitIntent, note: LoadedNote) -> bool {
    match intent {
        CommitIntent::Update(p) => note.hash_view() is Some && p@ == note.path_view().relative_view(),
        CommitIntent::Create(p) => note.hash_view() is None && p@ == note.path_view().relative_view(),
        _ => false,
    }
}

/// The session's editor has unsaved changes.
pub open spec fn editor_dirty(s: &WorkspaceSession) -> bool {
    s.editor matches Some(e) && e@.text != e@.loaded
}

/// The identifiers of a result match the mutation in flight.
/// A call that changes nothing and asks for nothing.
pub open spec fn ignored(o: &WorkspaceSession, n: &WorkspaceSession, effects: Seq<SessionEffect>) -> bool {
    effects.len() == 0 && *n == *o
}

pub open spec fn is_current(
    pending: Option<PendingMutation>,
    mutation_id: MutationId,
    repository_id: u128,
    repository_root: Seq<char>,
) -> bool {
    pending matches Some(p) && p.mutation_id.value() == mutation_id.value() && p.repository_id == repository_id
        && p.repository_root@ == repository_root
}

/// The mutation that saving records: a save of the editor's text over its
/// note, with the session's next identifiers.
pub open spec fn save_pending(p: PendingMutation, s: &WorkspaceSession, overwrite: bool) -> bool {
    let e = s.editor->0;
    &&& p.kind == PendingMutationKind::Save { overwrite }
    &&& p.repository_id == s.repository_id
    &&& p.repository_root == s.repository_root
    &&& is_save_intent(p.intent, e.loaded_note())
    &&& !p.reconciles_editor
    &&& p.mutation_id.value() == s.next_mutation_id
    &&& match p.save {
        Some(ps) => ps.snapshot@ == e@.text && ps.generation == s.next_save_generation,
        None => false,
    }
}

/// The effect that saving asks for: write the editor's text over its note
/// (with its format) and commit.
pub open spec fn save_effect(effect: SessionEffect, s: &WorkspaceSession, overwrite: bool) -> bool {
    let e = s.editor->0;
    let n = e.loaded_note();
    match effect {
        SessionEffect::ApplyAndCommit { mutation_id, repository_id, repository_root, operation, intent } => {
            &&& mutation_id.value() == s.next_mutation_id
            &&& repository_id == s.repository_id
            &&& repository_root == s.repository_root
            &&& is_save_intent(intent, n)
            &&& match operation {
                FileOperation::Save { note, content, overwrite: o } => {
                    &&& content@ == e@.text
                    &&& o == overwrite
                    &&& note.text_view() == n.text_view()
                    &&& note.hash_view() == n.hash_view()
                    &&& note.path_view().root_view() == n.path_view().root_view()
                    &&& note.path_view().relative_view() == n.path_view().relative_view()
                    &&& note.bom_view() == n.bom_view()
                    &&& note.newline_view() == n.newline_view()
                    &&& note.final_newline_view() == n.final_newline_view()
                    &&& note.permissions_view() == n.permissions_view()
                },
                _ => false,
            }
        },
        _ => false,
    }
}

/// The note open in the editor, if any.
pub open spec fn current_note(s: &WorkspaceSession) -> Option<Seq<char>> {
    match s.editor {
        Some(e) => Some(e.loaded_note().path_view().relative_view()),
        None => None,
    }
}

/// What saving leaves: nothing changes while a change is in flight or when
/// there is nothing to save; otherwise a save of the editor's text is in
/// flight, the commit is pending, and the one effect writes and commits it.
pub open spec fn saved(
    o: &WorkspaceSession,
    n: &WorkspaceSession,
    effects: Seq<SessionEffect>,
    overwrite: bool,
) -> bool {
    if o.pending_mutation is Some || !editor_dirty(o) {
        effects.len() == 0 && *n == *o
    } else {
        &&& effects.len() == 1
        &&& *n == (WorkspaceSession {
            pending_mutation: n.pending_mutation,
            commit_status: CommitStatus::Pending,
            next_mutation_id: (o.next_mutation_id + 1) as u64,
            next_save_generation: (o.next_save_generation + 1) as u64,
            ..*o
        })
        &&& match n.pending_mutation {
            Some(p) => save_pending(p, o, overwrite),
            None => false,
        }
        &&& save_effect(effects[0], o, overwrite)
    }
}

/// What starting a file mutation leaves: nothing changes while a change is in
/// flight; otherwise the mutation is in flight (touching the editor when it
/// affects the open note), the commit is pending, and the one effect applies
/// the planned operation and commits it.
pub open spec fn started(
    o: &WorkspaceSession,
    n: &WorkspaceSession,
    action: FileMutationAction,
    effects: Seq<SessionEffect>,
) -> bool {
    if o.pending_mutation is Some {
        effects.len() == 0 && *n == *o
    } else {
        &&& effects.len() == 1
        &&& *n == (WorkspaceSession {
            pending_mutation: n.pending_mutation,
            commit_status: CommitStatus::Pending,
            next_mutation_id: (o.next_mutation_id + 1) as u64,
            ..*o
        })
        &&& match (n.pending_mutation, effects[0]) {
            (
                Some(p),
                SessionEffect::ApplyAndCommit {
                    mutation_id,
                    repository_id,
                    repository_root,
                    operation,
                    intent,
                },
            ) => {
                &&& is_plan(action, o.repository_root@, (p.kind, operation, intent))
                &&& p.intent == intent
                &&& p.save is None
                &&& p.reconciles_editor == reconciles_editor(
                    action,
                    current_note(o),
                    o.editor is Some,
                )
                &&& p.mutation_id == mutation_id
                &&& mutation_id.value() == o.next_mutation_id
                &&& p.repository_id == o.repository_id && repository_id == o.repository_id
                &&& p.repository_root == o.repository_root && repository_root
                    == o.repository_root
            },
            _ => false,
        }
    }
}

/// What asking for a note load leaves: nothing without a note; otherwise the
/// load is in flight under the next request identifier, and the one effect
/// asks for it.
pub open spec fn load_requested(
    o: &WorkspaceSession,
    n: &WorkspaceSession,
    note: Option<Seq<char>>,
    effects: Seq<SessionEffect>,
) -> bool {
    match note {
        None => effects.len() == 0 && *n == *o,
        Some(path) => {
            &&& effects.len() == 1
            &&& match effects[0] {
                SessionEffect::LoadNote { request_id, path: p } => request_id.value()
                    == o.next_request_id && p@ == path,
                _ => false,
            }
            &&& match n.pending_load {
                Some(l) => l.request_id.value() == o.next_request_id && l.path@ == path,
                None => false,
            }
            &&& *n == (WorkspaceSession {
                pending_load: n.pending_load,
                next_request_id: (o.next_request_id + 1) as u64,
                ..*o
            })
        },
    }
}

/// What going somewhere leaves: a note is loaded in this session, any other
/// target is handed to the application.
pub open spec fn navigated(
    o: &WorkspaceSession,
    n: &WorkspaceSession,
    target: NavigationAction,
    effects: Seq<SessionEffect>,
) -> bool {
    match target {
        NavigationAction::Note(path) => load_requested(o, n, Some(path@), effects),
        _ => effects == seq![SessionEffect::Navigate(target)] && *n == *o,
    }
}

/// What carrying out a waiting intent leaves: the navigation is carried out,
/// or the file mutation starts.
pub open spec fn performed(
    o: &WorkspaceSession,
    n: &WorkspaceSession,
    intent: PendingIntent,
    effects: Seq<SessionEffect>,
) -> bool {
    match intent {
        PendingIntent::Navigation(target) => navigated(o, n, target, effects),
        PendingIntent::Mutation(action) => started(o, n, action, effects),
    }
}

/// The status a commit outcome leaves.
pub open spec fn status_of(commit: CommitOutcome) -> CommitStatus {
    match commit {
        CommitOutcome::Committed { revision } => CommitStatus::Committed { revision },
        CommitOutcome::NoChanges => CommitStatus::NoChanges,
    }
}

/// The save recorded a snapshot that the editor's text no longer matches.
pub open spec fn snapshot_differs(save: Option<PendingSave>, text: Seq<char>) -> bool {
    match save {
        Some(ps) => ps.snapshot@ != text,
        None => false,
    }
}

/// After a save, the editor holds edits that the save did not write: its text
/// differs from the snapshot that was saved, or from the note as saved.
pub open spec fn newer_edits(o: &WorkspaceSession, p: PendingMutation, file: FileOutcome) -> bool {
    match (file, o.editor) {
        (FileOutcome::Saved(note), Some(e)) => snapshot_differs(p.save, e@.text) || e@.text
            != note.text_view(),
        _ => false,
    }
}

/// The note to load after a file outcome: a created file, or the open note at
/// the place a rename or move of it (or of a folder above it) put it.
pub open spec fn note_to_load(o: &WorkspaceSession, file: FileOutcome) -> Option<Seq<char>> {
    match file {
        FileOutcome::CreatedFile(path) => Some(path.relative_view()),
        FileOutcome::Renamed { from, to } => match current_note(o) {
            Some(c) => rebased(c, from@, to@),
            None => None,
        },
        FileOutcome::Moved { from, to } => match current_note(o) {
            Some(c) => rebased(c, from@, to@),
            None => None,
        },
        _ => None,
    }
}

/// What a file outcome does to the editor: a save becomes its new baseline,
/// deleting the open note (or a folder above it) closes it, and nothing else
/// touches it.
pub open spec fn reconciled_editor(o: &WorkspaceSession, editor: Option<Editor>, file: FileOutcome) -> bool {
    match file {
        FileOutcome::Saved(note) => match (o.editor, editor) {
            (Some(e), Some(x)) => x@ == (EditorView { loaded: note.text_view(), ..e@ })
                && x.loaded_note() == note && x.wf(),
            (None, None) => true,
            _ => false,
        },
        FileOutcome::Deleted(path) => match current_note(o) {
            Some(c) => if path_starts_with(c, path@) {
                editor is None
            } else {
                editor == o.editor
            },
            None => editor == o.editor,
        },
        _ => editor == o.editor,
    }
}

/// The session once a finished mutation has been reconciled: nothing in
/// flight, the editor as reconciled, the status showing the commit, and no
/// write failure left.
pub open spec fn after_reconcile(o: &WorkspaceSession, editor: Option<Editor>, commit: CommitOutcome) -> WorkspaceSession {
    WorkspaceSession {
        editor,
        pending_mutation: None,
        commit_status: status_of(commit),
        status_message: None,
        write_failure: None,
        mutation_failure: None,
        ..*o
    }
}

/// The failure to list the tree again after a mutation in the repository.
pub open spec fn refresh_failure_of(repository_id: u128, message: String) -> RuntimeFailure {
    RuntimeFailure { request_id: None, repository_id, operation: RuntimeOperation::RefreshTree, message }
}

fn refresh_failure(repository_id: u128, message: String) -> (failure: RuntimeFailure)
    ensures
        failure == refresh_failure_of(repository_id, message),
{
    RuntimeFailure { request_id: None, repository_id, operation: RuntimeOperation::RefreshTree, message }
}

/// What a mutation that was written and committed leaves. When the tree could
/// not be listed again, that runtime failure is reported and the note to load
/// is loaded. After a save, edits made since it wait (asking again before a
/// waiting intent), and otherwise the waiting intent is carried out. After
/// another mutation, the note to load is loaded.
pub open spec fn mutation_applied_result(
    o: &WorkspaceSession,
    n: &WorkspaceSession,
    file: FileOutcome,
    commit: CommitOutcome,
    tree_error: Option<String>,
    effects: Seq<SessionEffect>,
) -> bool {
    let p = o.pending_mutation->0;
    let m = after_reconcile(o, n.editor, commit);
    &&& reconciled_editor(o, n.editor, file)
    &&& match tree_error {
        Some(message) => {
            load_requested(
                &WorkspaceSession {
                    refresh_failure: Some(refresh_failure_of(o.repository_id, message)),
                    dialog: Some(SessionDialog::Failure { kind: FailureKind::Runtime, message }),
                    ..m
                },
                n,
                note_to_load(o, file),
                effects,
            )
        },
        None => {
            let m = WorkspaceSession { refresh_failure: None, ..m };
            if p.kind is Save {
                if newer_edits(o, p, file) {
                    &&& effects.len() == 0
                    &&& *n == (WorkspaceSession {
                        dialog: if o.pending_intent is Some {
                            Some(SessionDialog::DirtyNavigation)
                        } else {
                            o.dialog
                        },
                        ..m
                    })
                } else {
                    match o.pending_intent {
                        Some(i) => performed(&WorkspaceSession { pending_intent: None, ..m }, n, i, effects),
                        None => effects.len() == 0 && *n == m,
                    }
                }
            } else {
                load_requested(&m, n, note_to_load(o, file), effects)
            }
        },
    }
}

/// The record of a commit that failed after its file was written.
pub open spec fn commit_failed(
    n: &WorkspaceSession,
    repository_id: u128,
    intent: CommitIntent,
    message: Seq<char>,
) -> bool {
    &&& n.saved_commit_failure matches Some(f)
    &&& f.repository_id == repository_id
    &&& f.intent == intent
    &&& f.message@ == message
    &&& n.git_failure matches Some(g) && g.kind == FailureKind::Git && g.message@ == message
    &&& n.commit_status matches CommitStatus::SavedCommitFailed { message: s } && s@ == message
    &&& n.status_message matches Some(s) && s@ == message
    &&& n.dialog matches Some(SessionDialog::SavedCommitFailed { message: d }) && d@ == message
}

/// The message shown when a save finds the file changed outside.
pub open spec fn external_change_message() -> Seq<char> {
    "file changed outside Carnet"@
}

/// What Ctrl+S leaves: nothing while a change is in flight; after a commit
/// failed on a written file of this repository, a retry of that commit alone
/// (and nothing for another repository's failure); otherwise a save.
pub open spec fn global_saved(o: &WorkspaceSession, n: &WorkspaceSession, effects: Seq<SessionEffect>) -> bool {
    if o.pending_mutation is Some {
        effects.len() == 0 && *n == *o
    } else {
        match o.saved_commit_failure {
            Some(f) => if f.repository_id != o.repository_id {
                effects.len() == 0 && *n == *o
            } else {
                &&& *n == (WorkspaceSession {
                    pending_mutation: n.pending_mutation,
                    commit_status: CommitStatus::Pending,
                    next_mutation_id: (o.next_mutation_id + 1) as u64,
                    ..*o
                })
                &&& effects.len() == 1
                &&& match (n.pending_mutation, effects[0]) {
                    (
                        Some(p),
                        SessionEffect::RetryCommit {
                            mutation_id,
                            repository_id,
                            repository_root,
                            intent,
                        },
                    ) => {
                        &&& p.kind == PendingMutationKind::RetryCommit
                        &&& p.intent == f.intent && intent == f.intent
                        &&& p.save is None && !p.reconciles_editor
                        &&& p.mutation_id == mutation_id
                        &&& mutation_id.value() == o.next_mutation_id
                        &&& p.repository_id == f.repository_id && repository_id
                            == f.repository_id
                        &&& p.repository_root == o.repository_root
                            && repository_root == o.repository_root
                    },
                    _ => false,
                }
            },
            None => saved(o, n, effects, false),
        }
    }
}

/// What discarding leaves of the editor: its note's text as last loaded or
/// saved, with a fresh cursor, history and find navigation.
pub open spec fn discarded(o: &WorkspaceSession, editor: Option<Editor>) -> bool {
    match (o.editor, editor) {
        (Some(e), Some(x)) => {
            &&& x.wf()
            &&& x.loaded_note() == e.loaded_note()
            &&& x@ == (EditorView {
                text: e@.loaded,
                cursor: 0,
                anchor: None,
                preferred_column: None,
                undo: Seq::empty(),
                redo: Seq::empty(),
                found: None,
                ..e@
            })
        },
        (None, None) => true,
        _ => false,
    }
}

impl WorkspaceSession {
    /// The session's well-formedness: its editor is well formed.
    pub open spec fn wf(&self) -> bool {
        self.editor matches Some(e) ==> e.wf()
    }

    /// A session on a repository, with the note (if any) open in an editor.
    pub fn new(repository_id: u128, repository_root: String, note: Option<LoadedNote>) -> (session:
        WorkspaceSession)
        ensures
            session.wf(),
            session.repository_id == repository_id,
            session.repository_root == repository_root,
            session.pending_mutation is None,
            session.pending_intent is None,
            session.saved_commit_failure is None,
            session.commit_status == CommitStatus::Idle,
            session.dialog is None,
            session.pending_load is None,
            session.status_message is None,
            session.write_failure is None,
            session.git_failure is None,
            session.load_failure is None,
            session.mutation_failure is None,
            session.refresh_failure is None,
            session.next_mutation_id == 1,
            session.next_save_generation == 1,
            session.next_request_id == 1,
            match note {
                Some(n) => session.editor matches Some(e) && e.loaded_note() == n && e@.text
                    == n.text_view(),
                None => session.editor is None,
            },
    {
        let editor = match note {
            Some(n) => Some(Editor::from_loaded(n)),
            None => None,
        };
        WorkspaceSession {
            repository_id,
            repository_root,
            editor,
            pending_mutation: None,
            pending_intent: None,
            saved_commit_failure: None,
            commit_status: CommitStatus::Idle,
            status_message: None,
            dialog: None,
            write_failure: None,
            git_failure: None,
            load_failure: None,
            mutation_failure: None,
            refresh_failure: None,
            pending_load: None,
            next_mutation_id: 1,
            next_save_generation: 1,
            next_request_id: 1,
        }
    }

    /// Whether the editor has unsaved changes.
    pub fn is_dirty(&self) -> (dirty: bool)
        ensures
            dirty == editor_dirty(self),
    {
        match &self.editor {
            Some(e) => e.is_dirty(),
            None => false,
        }
    }

    fn next_mutation(&mut self) -> (id: MutationId)
        requires
            old(self).next_mutation_id < u64::MAX,
        ensures
            id.value() == old(self).next_mutation_id,
            *final(self) == (WorkspaceSession {
                next_mutation_id: (old(self).next_mutation_id + 1) as u64,
                ..*old(self)
            }),
    {
        let id = MutationId::new(self.next_mutation_id);
        self.next_mutation_id = self.next_mutation_id + 1;
        id
    }

    /// Saves the note: when no change is in flight and the editor has unsaved
    /// changes, writes its text over the note (overwriting a change made
    /// outside when `overwrite` is set) and commits it.
    pub fn save(&mut self, overwrite: bool) -> (effects: Vec<SessionEffect>)
        requires
            old(self).wf(),
            old(self).next_mutation_id < u64::MAX,
            old(self).next_save_generation < u64::MAX,
        ensures
            final(self).wf(),
            saved(old(self), final(self), effects@, overwrite),
    {
        if self.pending_mutation.is_some() || !self.is_dirty() {
            return Vec::new();
        }
        let (operation, snapshot, intent, intent_copy) = match &self.editor {
            Some(editor) => {
                let operation = editor.save_operation(overwrite);
                let snapshot = editor.text();
                let (intent, intent_copy) = match &operation {
                    FileOperation::Save { note, .. } => {
                        let path = note.path().relative();
                        if note.is_saved() {
                            (CommitIntent::Update(path.to_owned()), CommitIntent::Update(path.to_owned()))
                        } else {
                            (CommitIntent::Create(path.to_owned()), CommitIntent::Create(path.to_owned()))
                        }
                    },
                    _ => {
                        proof {
                            assert(false);
                        }
                        return Vec::new();
                    },
                };
                (operation, snapshot, intent, intent_copy)
            },
            None => {
                return Vec::new();
            },
        };
        let generation = self.next_save_generation;
        self.next_save_generation = self.next_save_generation + 1;
        let mutation_id = self.next_mutation();
        let repository_root = self.repository_root.clone();
        self.pending_mutation = Some(
            PendingMutation {
                mutation_id,
                repository_id: self.repository_id,
                repository_root: self.repository_root.clone(),
                kind: PendingMutationKind::Save { overwrite },
                intent,
                save: Some(PendingSave { generation, snapshot }),
                reconciles_editor: false,
            },
        );
        self.commit_status = CommitStatus::Pending;
        let mut effects = Vec::new();
        effects.push(
            SessionEffect::ApplyAndCommit {
                mutation_id,
                repository_id: self.repository_id,
                repository_root,
                operation,
                intent: intent_copy,
            },
        );
        effects
    }

    /// The note open in the editor, if any.
    pub fn current_note(&self) -> (note: Option<String>)
        ensures
            match note {
                Some(n) => current_note(self) == Some(n@),
                None => current_note(self) is None,
            },
    {
        match &self.editor {
            Some(e) => Some(e.loaded_note_ref().path().relative().to_owned()),
            None => None,
        }
    }

    /// Starts a file mutation (see [`started`]).
    pub fn start_file_mutation(&mut self, action: FileMutationAction) -> (effects: Vec<SessionEffect>)
        requires
            old(self).wf(),
            old(self).next_mutation_id < u64::MAX,
        ensures
            final(self).wf(),
            started(old(self), final(self), action, effects@),
    {
        if self.pending_mutation.is_some() {
            return Vec::new();
        }
        let note = self.current_note();
        let reconciles = mutation_reconciles_editor(&action, &note, self.editor.is_some());
        let (kind, operation, intent) = mutation_plan(action, self.repository_root.as_str());
        let mutation_id = self.next_mutation();
        self.pending_mutation = Some(
            PendingMutation {
                mutation_id,
                repository_id: self.repository_id,
                repository_root: self.repository_root.clone(),
                kind,
                intent: intent.clone(),
                save: None,
                reconciles_editor: reconciles,
            },
        );
        self.commit_status = CommitStatus::Pending;
        let mut effects = Vec::new();
        effects.push(
            SessionEffect::ApplyAndCommit {
                mutation_id,
                repository_id: self.repository_id,
                repository_root: self.repository_root.clone(),
                operation,
                intent,
            },
        );
        effects
    }

    /// Carries out a waiting intent (see [`performed`]).
    fn perform_intent(&mut self, intent: PendingIntent) -> (effects: Vec<SessionEffect>)
        requires
            old(self).wf(),
            old(self).next_mutation_id < u64::MAX,
            old(self).next_request_id < u64::MAX,
        ensures
            final(self).wf(),
            performed(old(self), final(self), intent, effects@),
    {
        match intent {
            PendingIntent::Navigation(target) => self.go(target),
            PendingIntent::Mutation(action) => self.start_file_mutation(action),
        }
    }

    /// Goes somewhere (see [`navigated`]).
    fn go(&mut self, target: NavigationAction) -> (effects: Vec<SessionEffect>)
        requires
            old(self).wf(),
            old(self).next_request_id < u64::MAX,
        ensures
            final(self).wf(),
            navigated(old(self), final(self), target, effects@),
    {
        match target {
            NavigationAction::Note(path) => self.request_load(Some(path)),
            _ => {
                let mut effects = Vec::new();
                effects.push(SessionEffect::Navigate(target));
                effects
            },
        }
    }

    /// Asks for a note load (see [`load_requested`]).
    pub fn request_load(&mut self, note: Option<String>) -> (effects: Vec<SessionEffect>)
        requires
            old(self).next_request_id < u64::MAX,
        ensures
            load_requested(
                old(self),
                final(self),
                match note {
                    Some(p) => Some(p@),
                    None => None,
                },
                effects@,
            ),
    {
        let mut effects = Vec::new();
        match note {
            Some(path) => {
                let request_id = RequestId::new(self.next_request_id);
                self.next_request_id = self.next_request_id + 1;
                self.pending_load = Some(PendingLoad { request_id, path: path.clone() });
                effects.push(SessionEffect::LoadNote { request_id, path });
            },
            None => {},
        }
        effects
    }

    /// Ctrl+S: after a commit failed on a written file, retries only the
    /// commit; otherwise saves (see [`saved`]).
    pub fn global_save(&mut self) -> (effects: Vec<SessionEffect>)
        requires
            old(self).wf(),
            old(self).next_mutation_id < u64::MAX,
            old(self).next_save_generation < u64::MAX,
        ensures
            final(self).wf(),
            global_saved(old(self), final(self), effects@),
    {
        if self.pending_mutation.is_some() {
            return Vec::new();
        }
        match &self.saved_commit_failure {
            Some(failure) => {
                if failure.repository_id != self.repository_id {
                    return Vec::new();
                }
                let intent = failure.intent.clone();
                let repository_id = failure.repository_id;
                let mutation_id = self.next_mutation();
                self.pending_mutation = Some(
                    PendingMutation {
                        mutation_id,
                        repository_id,
                        repository_root: self.repository_root.clone(),
                        kind: PendingMutationKind::RetryCommit,
                        intent: intent.clone(),
                        save: None,
                        reconciles_editor: false,
                    },
                );
                self.commit_status = CommitStatus::Pending;
                let mut effects = Vec::new();
                effects.push(
                    SessionEffect::RetryCommit {
                        mutation_id,
                        repository_id,
                        repository_root: self.repository_root.clone(),
                        intent,
                    },
                );
                effects
            },
            None => self.save(false),
        }
    }

    /// Asks to go somewhere: refused while a change is in flight; with unsaved
    /// changes, the target waits for the unsaved-changes question; otherwise
    /// it is handed to the application.
    pub fn navigate(&mut self, target: NavigationAction) -> (effects: Vec<SessionEffect>)
        requires
            old(self).wf(),
            old(self).next_request_id < u64::MAX,
        ensures
            final(self).wf(),
            old(self).pending_mutation is Some ==> ignored(old(self), final(self), effects@),
            old(self).pending_mutation is None && editor_dirty(old(self)) ==> effects@.len() == 0
                && *final(self) == (WorkspaceSession {
                pending_intent: Some(PendingIntent::Navigation(target)),
                dialog: Some(SessionDialog::DirtyNavigation),
                ..*old(self)
            }),
            old(self).pending_mutation is None && !editor_dirty(old(self)) ==> navigated(
                old(self),
                final(self),
                target,
                effects@,
            ),
    {
        if self.pending_mutation.is_some() {
            return Vec::new();
        }
        if self.is_dirty() {
            self.pending_intent = Some(PendingIntent::Navigation(target));
            self.dialog = Some(SessionDialog::DirtyNavigation);
            return Vec::new();
        }
        self.go(target)
    }

    /// Asks for a file mutation: refused while a change is in flight; when it
    /// touches the open note while it has unsaved changes, it waits for the
    /// unsaved-changes question; otherwise it starts.
    pub fn request_file_mutation(&mut self, action: FileMutationAction) -> (effects: Vec<
        SessionEffect,
    >)
        requires
            old(self).wf(),
            old(self).next_mutation_id < u64::MAX,
        ensures
            final(self).wf(),
            old(self).pending_mutation is Some ==> ignored(old(self), final(self), effects@),
            old(self).pending_mutation is None && editor_dirty(
                old(self),
            ) && reconciles_editor(
                action,
                current_note(old(self)),
                old(self).editor is Some,
            ) ==> effects@.len() == 0 && *final(self) == (WorkspaceSession {
                pending_intent: Some(PendingIntent::Mutation(action)),
                dialog: Some(SessionDialog::DirtyNavigation),
                ..*old(self)
            }),
            old(self).pending_mutation is None && !(editor_dirty(
                old(self),
            ) && reconciles_editor(
                action,
                current_note(old(self)),
                old(self).editor is Some,
            )) ==> started(old(self), final(self), action, effects@),
    {
        if self.pending_mutation.is_some() {
            return Vec::new();
        }
        let note = self.current_note();
        let guard = self.is_dirty() && mutation_reconciles_editor(&action, &note, self.editor.is_some());
        if guard {
            self.pending_intent = Some(PendingIntent::Mutation(action));
            self.dialog = Some(SessionDialog::DirtyNavigation);
            return Vec::new();
        }
        self.start_file_mutation(action)
    }

    /// Reconciles the editor with what a finished mutation did to the files;
    /// gives whether the editor holds edits the save did not write, and the
    /// note to load.
    fn reconcile(&mut self, pending: &PendingMutation, file: FileOutcome) -> (result: (
        bool,
        Option<String>,
    ))
        requires
            old(self).wf(),
        ensures
            final(self).wf(),
            reconciled_editor(old(self), final(self).editor, file),
            result.0 == newer_edits(old(self), *pending, file),
            match result.1 {
                Some(path) => note_to_load(old(self), file) == Some(path@),
                None => note_to_load(old(self), file) is None,
            },
            *final(self) == (WorkspaceSession { editor: final(self).editor, ..*old(self) }),
    {
        let note = self.current_note();
        match file {
            FileOutcome::Saved(saved) => {
                match self.editor.take() {
                    Some(mut editor) => {
                        let text = editor.text();
                        let differs = match &pending.save {
                            Some(save) => !same_text(save.snapshot.as_str(), text.as_str()),
                            None => false,
                        };
                        editor.accept_saved(saved);
                        let dirty = editor.is_dirty();
                        self.editor = Some(editor);
                        (differs || dirty, None)
                    },
                    None => (false, None),
                }
            },
            FileOutcome::CreatedFile(path) => (false, Some(path.relative().to_owned())),
            FileOutcome::CreatedFolder(_) => (false, None),
            FileOutcome::Renamed { from, to } => match note {
                Some(current) => (false, rebase_path(current.as_str(), from.as_str(), to.as_str())),
                None => (false, None),
            },
            FileOutcome::Moved { from, to } => match note {
                Some(current) => (false, rebase_path(current.as_str(), from.as_str(), to.as_str())),
                None => (false, None),
            },
            FileOutcome::Deleted(path) => {
                match note {
                    Some(current) => {
                        if starts_with_path(current.as_str(), path.as_str()) {
                            self.editor = None;
                        }
                    },
                    None => {},
                }
                (false, None)
            },
        }
    }

    /// A mutation was written and committed (see [`mutation_applied_result`]);
    /// a result for another mutation than the one in flight is ignored.
    pub fn mutation_applied(
        &mut self,
        mutation_id: MutationId,
        repository_id: u128,
        repository_root: &str,
        file: FileOutcome,
        commit: CommitOutcome,
        tree_error: Option<String>,
    ) -> (effects: Vec<SessionEffect>)
        requires
            old(self).wf(),
            old(self).next_request_id < u64::MAX,
            old(self).next_mutation_id < u64::MAX,
        ensures
            final(self).wf(),
            !is_current(old(self).pending_mutation, mutation_id, repository_id, repository_root@)
                ==> ignored(old(self), final(self), effects@),
            is_current(old(self).pending_mutation, mutation_id, repository_id, repository_root@)
                ==> mutation_applied_result(old(self), final(self), file, commit, tree_error, effects@),
    {
        if !self.is_current(mutation_id, repository_id, repository_root) {
            return Vec::new();
        }
        let pending = match self.pending_mutation.take() {
            Some(p) => p,
            None => {
                return Vec::new();
            },
        };
        let ghost o = *old(self);
        let (newer, load) = self.reconcile(&pending, file);
        self.commit_status = match commit {
            CommitOutcome::Committed { revision } => CommitStatus::Committed { revision },
            CommitOutcome::NoChanges => CommitStatus::NoChanges,
        };
        self.status_message = None;
        self.write_failure = None;
        self.mutation_failure = None;
        match tree_error {
            Some(message) => {
                self.refresh_failure = Some(refresh_failure(self.repository_id, message.clone()));
                self.dialog = Some(SessionDialog::Failure { kind: FailureKind::Runtime, message });
                return self.request_load(load);
            },
            None => {
                self.refresh_failure = None;
            },
        }
        match pending.kind {
            PendingMutationKind::Save { .. } => {
                if newer {
                    if self.pending_intent.is_some() {
                        self.dialog = Some(SessionDialog::DirtyNavigation);
                    }
                    return Vec::new();
                }
                match self.pending_intent.take() {
                    Some(intent) => self.perform_intent(intent),
                    None => Vec::new(),
                }
            },
            _ => self.request_load(load),
        }
    }

    /// Whether a result names the mutation in flight.
    pub fn is_current(&self, mutation_id: MutationId, repository_id: u128, repository_root: &str) -> (current: bool)
        ensures
            current == is_current(self.pending_mutation, mutation_id, repository_id, repository_root@),
    {
        match &self.pending_mutation {
            Some(p) => p.mutation_id.get() == mutation_id.get() && p.repository_id == repository_id
                && same_text(p.repository_root.as_str(), repository_root),
            None => false,
        }
    }

    /// A mutation's file was written but its commit failed: the editor is
    /// reconciled as after a success, the failure is kept so that Ctrl+S
    /// retries only the commit, and the note to load is loaded.
    pub fn mutation_saved_commit_failed(
        &mut self,
        mutation_id: MutationId,
        repository_id: u128,
        repository_root: &str,
        file: FileOutcome,
        error: GitError,
        tree_error: Option<String>,
    ) -> (effects: Vec<SessionEffect>)
        requires
            old(self).wf(),
            old(self).next_request_id < u64::MAX,
        ensures
            final(self).wf(),
            !is_current(old(self).pending_mutation, mutation_id, repository_id, repository_root@)
                ==> ignored(old(self), final(self), effects@),
            is_current(old(self).pending_mutation, mutation_id, repository_id, repository_root@)
                ==> {
                &&& reconciled_editor(old(self), final(self).editor, file)
                &&& commit_failed(
                    final(self),
                    repository_id,
                    old(self).pending_mutation->0.intent,
                    git_error_text(error),
                )
                &&& load_requested(
                    &WorkspaceSession {
                        editor: final(self).editor,
                        pending_mutation: None,
                        write_failure: None,
                        mutation_failure: None,
                        refresh_failure: match tree_error {
                            Some(message) => Some(refresh_failure_of(old(self).repository_id, message)),
                            None => None,
                        },
                        saved_commit_failure: final(self).saved_commit_failure,
                        git_failure: final(self).git_failure,
                        commit_status: final(self).commit_status,
                        status_message: final(self).status_message,
                        dialog: final(self).dialog,
                        ..*old(self)
                    },
                    final(self),
                    note_to_load(old(self), file),
                    effects@,
                )
            },
    {
        if !self.is_current(mutation_id, repository_id, repository_root) {
            return Vec::new();
        }
        let pending = match self.pending_mutation.take() {
            Some(p) => p,
            None => {
                return Vec::new();
            },
        };
        let (_, load) = self.reconcile(&pending, file);
        self.write_failure = None;
        self.mutation_failure = None;
        self.refresh_failure = match tree_error {
            Some(message) => Some(refresh_failure(self.repository_id, message)),
            None => None,
        };
        let message = error.message();
        self.saved_commit_failure = Some(
            SavedCommitFailure { repository_id, intent: pending.intent, message: message.clone() },
        );
        self.git_failure = Some(UnresolvedFailure { kind: FailureKind::Git, message: message.clone() });
        self.commit_status = CommitStatus::SavedCommitFailed { message: message.clone() };
        self.status_message = Some(message.clone());
        self.dialog = Some(SessionDialog::SavedCommitFailed { message });
        self.request_load(load)
    }

    /// A mutation failed before its commit: nothing is in flight any more and
    /// the failure is reported, as a write failure or a runtime one.
    pub fn mutation_failed(
        &mut self,
        mutation_id: MutationId,
        repository_id: u128,
        repository_root: &str,
        error: MutationCommitError,
    ) -> (effects: Vec<SessionEffect>)
        requires
            old(self).wf(),
        ensures
            final(self).wf(),
            effects@.len() == 0,
            !is_current(old(self).pending_mutation, mutation_id, repository_id, repository_root@)
                ==> ignored(old(self), final(self), effects@),
            is_current(old(self).pending_mutation, mutation_id, repository_id, repository_root@)
                ==> {
                let text = mutation_commit_error_text(error);
                &&& final(self).status_message matches Some(m) && m@ == text
                &&& if error is File {
                    &&& final(self).write_failure matches Some(f) && f.kind == FailureKind::Write
                        && f.message@ == text
                    &&& final(self).dialog matches Some(SessionDialog::Failure { kind, message })
                        && kind == FailureKind::Write && message@ == text
                    &&& *final(self) == (WorkspaceSession {
                        pending_mutation: None,
                        write_failure: final(self).write_failure,
                        commit_status: CommitStatus::Idle,
                        status_message: final(self).status_message,
                        dialog: final(self).dialog,
                        ..*old(self)
                    })
                } else {
                    &&& final(self).mutation_failure matches Some(f) && f.request_id is None
                        && f.repository_id == repository_id && f.operation == RuntimeOperation::Mutation
                        && f.message@ == text
                    &&& final(self).dialog matches Some(SessionDialog::Failure { kind, message })
                        && kind == FailureKind::Runtime && message@ == text
                    &&& *final(self) == (WorkspaceSession {
                        pending_mutation: None,
                        mutation_failure: final(self).mutation_failure,
                        commit_status: CommitStatus::Idle,
                        status_message: final(self).status_message,
                        dialog: final(self).dialog,
                        ..*old(self)
                    })
                }
            },
    {
        if !self.is_current(mutation_id, repository_id, repository_root) {
            return Vec::new();
        }
        self.pending_mutation = None;
        self.commit_status = CommitStatus::Idle;
        let message = error.message();
        let kind = match error {
            MutationCommitError::File(_) => FailureKind::Write,
            _ => FailureKind::Runtime,
        };
        match kind {
            FailureKind::Write => {
                self.write_failure = Some(UnresolvedFailure { kind, message: message.clone() });
            },
            _ => {
                self.mutation_failure = Some(
                    RuntimeFailure {
                        request_id: None,
                        repository_id,
                        operation: RuntimeOperation::Mutation,
                        message: message.clone(),
                    },
                );
            },
        }
        self.status_message = Some(message.clone());
        self.dialog = Some(SessionDialog::Failure { kind, message });
        Vec::new()
    }

    /// A save found its file changed outside: nothing is in flight any more,
    /// the editor keeps its text, and the conflict is put to the user.
    pub fn mutation_conflict(
        &mut self,
        mutation_id: MutationId,
        repository_id: u128,
        repository_root: &str,
        conflict: ExternalConflict,
    ) -> (effects: Vec<SessionEffect>)
        requires
            old(self).wf(),
        ensures
            final(self).wf(),
            effects@.len() == 0,
            !is_current(old(self).pending_mutation, mutation_id, repository_id, repository_root@)
                ==> ignored(old(self), final(self), effects@),
            is_current(old(self).pending_mutation, mutation_id, repository_id, repository_root@)
                ==> {
                &&& final(self).status_message matches Some(m) && m@ == external_change_message()
                &&& *final(self) == (WorkspaceSession {
                    pending_mutation: None,
                    commit_status: CommitStatus::Idle,
                    status_message: final(self).status_message,
                    dialog: Some(SessionDialog::ExternalConflict(conflict)),
                    ..*old(self)
                })
            },
    {
        if !self.is_current(mutation_id, repository_id, repository_root) {
            return Vec::new();
        }
        self.pending_mutation = None;
        self.commit_status = CommitStatus::Idle;
        proof {
            reveal_strlit("file changed outside Carnet");
        }
        self.status_message = Some("file changed outside Carnet".to_owned());
        self.dialog = Some(SessionDialog::ExternalConflict(conflict));
        Vec::new()
    }

    /// Whether the mutation in flight is a commit retry.
    fn retry_in_flight(&self) -> (retry: bool)
        ensures
            retry == (self.pending_mutation matches Some(p) && p.kind
                == PendingMutationKind::RetryCommit),
    {
        match &self.pending_mutation {
            Some(p) => match p.kind {
                PendingMutationKind::RetryCommit => true,
                _ => false,
            },
            None => false,
        }
    }

    /// A retried commit went through: the commit failure is resolved, and a
    /// waiting intent is carried out, unless the editor has unsaved changes,
    /// in which case the unsaved-changes question is asked again. A result
    /// that does not answer the retry in flight is ignored.
    pub fn commit_retry_applied(
        &mut self,
        mutation_id: MutationId,
        repository_id: u128,
        repository_root: &str,
        commit: CommitOutcome,
    ) -> (effects: Vec<SessionEffect>)
        requires
            old(self).wf(),
            old(self).next_request_id < u64::MAX,
            old(self).next_mutation_id < u64::MAX,
        ensures
            final(self).wf(),
            !(is_current(old(self).pending_mutation, mutation_id, repository_id, repository_root@)
                && old(self).pending_mutation->0.kind == PendingMutationKind::RetryCommit)
                ==> effects@.len() == 0 && *final(self) == *old(self),
            is_current(old(self).pending_mutation, mutation_id, repository_id, repository_root@)
                && old(self).pending_mutation->0.kind == PendingMutationKind::RetryCommit ==> {
                let m = WorkspaceSession {
                    pending_mutation: None,
                    saved_commit_failure: None,
                    git_failure: None,
                    dialog: match old(self).dialog {
                        Some(SessionDialog::SavedCommitFailed { .. }) => None,
                        d => d,
                    },
                    commit_status: status_of(commit),
                    status_message: None,
                    ..*old(self)
                };
                if old(self).pending_intent is Some && editor_dirty(old(self)) {
                    effects@.len() == 0 && *final(self) == (WorkspaceSession {
                        dialog: Some(SessionDialog::DirtyNavigation),
                        ..m
                    })
                } else {
                    match old(self).pending_intent {
                        Some(i) => performed(
                            &WorkspaceSession { pending_intent: None, ..m },
                            final(self),
                            i,
                            effects@,
                        ),
                        None => effects@.len() == 0 && *final(self) == m,
                    }
                }
            },
    {
        if !self.is_current(mutation_id, repository_id, repository_root) || !self.retry_in_flight() {
            return Vec::new();
        }
        self.pending_mutation = None;
        self.saved_commit_failure = None;
        self.git_failure = None;
        let failed_dialog = match &self.dialog {
            Some(SessionDialog::SavedCommitFailed { .. }) => true,
            _ => false,
        };
        if failed_dialog {
            self.dialog = None;
        }
        self.commit_status = match commit {
            CommitOutcome::Committed { revision } => CommitStatus::Committed { revision },
            CommitOutcome::NoChanges => CommitStatus::NoChanges,
        };
        self.status_message = None;
        if self.pending_intent.is_some() && self.is_dirty() {
            self.dialog = Some(SessionDialog::DirtyNavigation);
            return Vec::new();
        }
        match self.pending_intent.take() {
            Some(intent) => self.perform_intent(intent),
            None => Vec::new(),
        }
    }

    /// A retried commit failed again: the file stays written and the commit
    /// stays retryable. A result that does not answer the retry in flight is
    /// ignored.
    pub fn commit_retry_failed(
        &mut self,
        mutation_id: MutationId,
        repository_id: u128,
        repository_root: &str,
        error: GitError,
    ) -> (effects: Vec<SessionEffect>)
        requires
            old(self).wf(),
        ensures
            final(self).wf(),
            effects@.len() == 0,
            !(is_current(old(self).pending_mutation, mutation_id, repository_id, repository_root@)
                && old(self).pending_mutation->0.kind == PendingMutationKind::RetryCommit)
                ==> *final(self) == *old(self),
            is_current(old(self).pending_mutation, mutation_id, repository_id, repository_root@)
                && old(self).pending_mutation->0.kind == PendingMutationKind::RetryCommit ==> {
                &&& commit_failed(
                    final(self),
                    repository_id,
                    old(self).pending_mutation->0.intent,
                    git_error_text(error),
                )
                &&& *final(self) == (WorkspaceSession {
                    pending_mutation: None,
                    saved_commit_failure: final(self).saved_commit_failure,
                    git_failure: final(self).git_failure,
                    commit_status: final(self).commit_status,
                    status_message: final(self).status_message,
                    dialog: final(self).dialog,
                    ..*old(self)
                })
            },
    {
        if !self.is_current(mutation_id, repository_id, repository_root) || !self.retry_in_flight() {
            return Vec::new();
        }
        let pending = match self.pending_mutation.take() {
            Some(p) => p,
            None => {
                return Vec::new();
            },
        };
        let message = error.message();
        self.saved_commit_failure = Some(
            SavedCommitFailure { repository_id, intent: pending.intent, message: message.clone() },
        );
        self.git_failure = Some(UnresolvedFailure { kind: FailureKind::Git, message: message.clone() });
        self.commit_status = CommitStatus::SavedCommitFailed { message: message.clone() };
        self.status_message = Some(message.clone());
        self.dialog = Some(SessionDialog::SavedCommitFailed { message });
        Vec::new()
    }

    /// The answer to the unsaved-changes question, ignored while a change is
    /// in flight. Save: saves (or retries a failed commit), and the waiting
    /// intent waits for the result. Discard: puts the editor back to its note
    /// and carries out the waiting intent. Cancel: forgets the intent.
    pub fn dirty_choice(&mut self, choice: DirtyChoice) -> (effects: Vec<SessionEffect>)
        requires
            old(self).wf(),
            old(self).next_request_id < u64::MAX,
            old(self).next_mutation_id < u64::MAX,
            old(self).next_save_generation < u64::MAX,
        ensures
            final(self).wf(),
            old(self).pending_mutation is Some ==> ignored(old(self), final(self), effects@),
            old(self).pending_mutation is None ==> match choice {
                DirtyChoice::Save => global_saved(
                    &WorkspaceSession { dialog: None, ..*old(self) },
                    final(self),
                    effects@,
                ),
                DirtyChoice::Discard => {
                    &&& discarded(old(self), final(self).editor)
                    &&& {
                        let m = WorkspaceSession {
                            editor: final(self).editor,
                            pending_intent: None,
                            dialog: None,
                            ..*old(self)
                        };
                        match old(self).pending_intent {
                            Some(i) => performed(&m, final(self), i, effects@),
                            None => effects@.len() == 0 && *final(self) == m,
                        }
                    }
                },
                DirtyChoice::Cancel => effects@.len() == 0 && *final(self) == (WorkspaceSession {
                    pending_intent: None,
                    dialog: None,
                    ..*old(self)
                }),
            },
    {
        if self.pending_mutation.is_some() {
            return Vec::new();
        }
        match choice {
            DirtyChoice::Save => {
                self.dialog = None;
                self.global_save()
            },
            DirtyChoice::Discard => {
                let intent = self.pending_intent.take();
                match self.editor.take() {
                    Some(mut editor) => {
                        editor.discard_changes();
                        self.editor = Some(editor);
                    },
                    None => {},
                }
                self.dialog = None;
                match intent {
                    Some(intent) => self.perform_intent(intent),
                    None => Vec::new(),
                }
            },
            DirtyChoice::Cancel => {
                self.pending_intent = None;
                self.dialog = None;
                Vec::new()
            },
        }
    }

    /// The answer to a conflict with a change made outside. Reload: forgets
    /// the waiting intent and loads the note again from disk. Overwrite: saves
    /// over the outside change. Cancel: keeps the editor as it is.
    pub fn conflict_choice(&mut self, choice: ConflictChoice) -> (effects: Vec<SessionEffect>)
        requires
            old(self).wf(),
            old(self).next_request_id < u64::MAX,
            old(self).next_mutation_id < u64::MAX,
            old(self).next_save_generation < u64::MAX,
        ensures
            final(self).wf(),
            match choice {
                ConflictChoice::Reload => load_requested(
                    &WorkspaceSession { pending_intent: None, dialog: None, ..*old(self) },
                    final(self),
                    current_note(old(self)),
                    effects@,
                ),
                ConflictChoice::Overwrite => saved(
                    &WorkspaceSession { dialog: None, ..*old(self) },
                    final(self),
                    effects@,
                    true,
                ),
                ConflictChoice::Cancel => effects@.len() == 0 && *final(self) == (WorkspaceSession {
                    pending_intent: None,
                    dialog: None,
                    ..*old(self)
                }),
            },
    {
        match choice {
            ConflictChoice::Reload => {
                self.dialog = None;
                self.pending_intent = None;
                let note = self.current_note();
                self.request_load(note)
            },
            ConflictChoice::Overwrite => {
                self.dialog = None;
                self.save(true)
            },
            ConflictChoice::Cancel => {
                self.dialog = None;
                self.pending_intent = None;
                Vec::new()
            },
        }
    }

    /// Carries out an editor command on the open note; ignored (giving
    /// `None`) while a note load or a mutation that will reconcile the editor
    /// is in flight, or when no note is open.
    pub fn edit(&mut self, command: EditorCommand) -> (outcome: Option<EditorOutcome>)
        requires
            old(self).wf(),
        ensures
            final(self).wf(),
            match outcome {
                Some(out) => {
                    &&& !(old(self).pending_mutation matches Some(p) && p.reconciles_editor)
                    &&& old(self).pending_load is None
                    &&& old(self).editor matches Some(e)
                    &&& final(self).editor matches Some(f)
                    &&& applied(e@, command, f@, out)
                    &&& f.loaded_note() == e.loaded_note()
                    &&& *final(self) == (WorkspaceSession { editor: final(self).editor, ..*old(self) })
                },
                None => {
                    &&& (old(self).pending_mutation matches Some(p) && p.reconciles_editor)
                        || old(self).pending_load is Some || old(self).editor is None
                    &&& *final(self) == *old(self)
                },
            },
    {
        let suppressed = match &self.pending_mutation {
            Some(p) => p.reconciles_editor,
            None => false,
        } || self.pending_load.is_some();
        if suppressed {
            return None;
        }
        match self.editor.take() {
            Some(mut editor) => {
                let outcome = editor.apply(command);
                self.editor = Some(editor);
                Some(outcome)
            },
            None => None,
        }
    }

    /// Closes the dialog on screen.
    pub fn dismiss(&mut self)
        ensures
            *final(self) == (WorkspaceSession { dialog: None, ..*old(self) }),
    {
        self.dialog = None;
    }

    /// Whether a failure of the session is unresolved: a write, a commit, or
    /// a load, mutation or tree listing that failed at run time.
    pub fn has_unresolved_failures(&self) -> (unresolved: bool)
        ensures
            unresolved == (self.write_failure is Some || self.git_failure is Some || self.load_failure
                is Some || self.mutation_failure is Some || self.refresh_failure is Some),
    {
        self.write_failure.is_some() || self.git_failure.is_some() || self.load_failure.is_some()
            || self.mutation_failure.is_some() || self.refresh_failure.is_some()
    }

    /// A note was loaded. When it answers the load in flight (same request,
    /// this repository, the path asked for), it replaces the editor, the load
    /// is done and a runtime failure is cleared; otherwise it is ignored.
    pub fn note_loaded(&mut self, request_id: RequestId, repository_id: u128, note: LoadedNote) -> (accepted:
        bool)
        requires
            old(self).wf(),
        ensures
            final(self).wf(),
            accepted == (old(self).pending_load matches Some(l) && l.request_id.value()
                == request_id.value() && repository_id == old(self).repository_id && l.path@
                == note.path_view().relative_view()),
            !accepted ==> *final(self) == *old(self),
            accepted ==> {
                &&& final(self).editor matches Some(e)
                &&& e.loaded_note() == note
                &&& e@.text == note.text_view()
                &&& e@.cursor == 0
                &&& e@.undo.len() == 0
                &&& *final(self) == (WorkspaceSession {
                    editor: final(self).editor,
                    pending_load: None,
                    load_failure: None,
                    ..*old(self)
                })
            },
    {
        let matches = match &self.pending_load {
            Some(l) => l.request_id.get() == request_id.get() && repository_id == self.repository_id
                && same_text(l.path.as_str(), note.path().relative()),
            None => false,
        };
        if !matches {
            return false;
        }
        self.editor = Some(Editor::from_loaded(note));
        self.pending_load = None;
        self.load_failure = None;
        true
    }

    /// A note load failed. When it was the load in flight (same request, this
    /// repository), the load is done and the failure is kept for this
    /// repository's loads, replacing an earlier one, and reported; otherwise it
    /// is ignored.
    pub fn load_failed(&mut self, request_id: RequestId, repository_id: u128, message: String) -> (accepted: bool)
        requires
            old(self).wf(),
        ensures
            final(self).wf(),
            accepted == (old(self).pending_load matches Some(l) && l.request_id.value()
                == request_id.value() && repository_id == old(self).repository_id),
            !accepted ==> *final(self) == *old(self),
            accepted ==> *final(self) == (WorkspaceSession {
                pending_load: None,
                load_failure: Some(
                    RuntimeFailure {
                        request_id: Some(request_id),
                        repository_id,
                        operation: RuntimeOperation::LoadNote,
                        message,
                    },
                ),
                status_message: Some(message),
                dialog: Some(SessionDialog::Failure { kind: FailureKind::Runtime, message }),
                ..*old(self)
            }),
    {
        let matches = match &self.pending_load {
            Some(l) => l.request_id.get() == request_id.get() && repository_id == self.repository_id,
            None => false,
        };
        if !matches {
            return false;
        }
        self.pending_load = None;
        self.load_failure = Some(
            RuntimeFailure {
                request_id: Some(request_id),
                repository_id,
                operation: RuntimeOperation::LoadNote,
                message: message.clone(),
            },
        );
        self.status_message = Some(message.clone());
        self.dialog = Some(SessionDialog::Failure { kind: FailureKind::Runtime, message });
        true
    }
}

} // verus!
