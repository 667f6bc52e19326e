use carnet::app::state::{RuntimeFailure, RuntimeOperation};
use carnet::app::ids::{MutationId, RequestId};
use carnet::app::keymap::{ConflictChoice, DirtyChoice};
use carnet::app::mutation::{FileMutationAction, PendingMutationKind};
use carnet::app::session::{
    CommitStatus, ExternalConflict, FailureKind,
    NavigationAction, PendingIntent, SessionDialog, SessionEffect, WorkspaceSession,
};
use carnet::editor::editing::EditorCommand;
use carnet::git::{CommitIntent, CommitOutcome, GitError, MutationCommitError};
use carnet::workspace::files::FileError;
use carnet::workspace::files::{FileOperation, FileOutcome, LoadedNote};
use carnet::workspace::paths::NotePath;

fn session_with_note(id: u128, name: &str, contents: &str) -> WorkspaceSession {
    let note = LoadedNote::decode(
        NotePath::new("/repo".to_string(), name.to_string()),
        contents.as_bytes(),
        None,
    )
    .unwrap();
    WorkspaceSession::new(id, "/repo".to_string(), Some(note))
}

fn insert(session: &mut WorkspaceSession, text: &str) {
    session.edit(EditorCommand::Insert(text.to_string()));
}

fn editor_text(session: &WorkspaceSession) -> String {
    session.editor.as_ref().unwrap().text()
}

fn editor_dirty(session: &WorkspaceSession) -> bool {
    session.editor.as_ref().unwrap().is_dirty()
}

fn identity(effect: &SessionEffect) -> (MutationId, u128, String) {
    match effect {
        SessionEffect::ApplyAndCommit { mutation_id, repository_id, repository_root, .. }
        | SessionEffect::RetryCommit { mutation_id, repository_id, repository_root, .. } => {
            (*mutation_id, *repository_id, repository_root.clone())
        }
        other => panic!("expected mutation effect, got {other:?}"),
    }
}

fn pending_identity(session: &WorkspaceSession) -> (MutationId, u128, String) {
    let pending = session.pending_mutation.as_ref().expect("expected pending mutation");
    (pending.mutation_id, pending.repository_id, pending.repository_root.clone())
}

/// Carries out a save effect as the disk would: the note comes back with the
/// content that was written.
fn apply_save(effect: SessionEffect) -> (MutationId, u128, String, FileOutcome) {
    match effect {
        SessionEffect::ApplyAndCommit {
            mutation_id,
            repository_id,
            repository_root,
            operation: FileOperation::Save { note, content, .. },
            ..
        } => {
            let saved = LoadedNote::decode(note.path().clone(), content.as_bytes(), None).unwrap();
            (mutation_id, repository_id, repository_root, FileOutcome::Saved(saved))
        }
        other => panic!("expected a save, got {other:?}"),
    }
}

/// Carries out any other mutation effect as the disk would.
fn apply_mutation(effect: SessionEffect) -> (MutationId, u128, String, FileOutcome) {
    match effect {
        SessionEffect::ApplyAndCommit { mutation_id, repository_id, repository_root, operation, .. } => {
            let file = match operation {
                FileOperation::CreateFile { root, path } => FileOutcome::CreatedFile(NotePath::new(root, path)),
                FileOperation::CreateFolder { path, .. } => FileOutcome::CreatedFolder(path),
                FileOperation::Rename { from, to, .. } => FileOutcome::Renamed { from, to },
                FileOperation::Move { from, to, .. } => FileOutcome::Moved { from, to },
                FileOperation::Delete { path, .. } => FileOutcome::Deleted(path),
                FileOperation::Save { .. } => panic!("use apply_save for saves"),
            };
            (mutation_id, repository_id, repository_root, file)
        }
        other => panic!("expected mutation effect, got {other:?}"),
    }
}

fn git_error(stderr: &str) -> GitError {
    GitError::CommandFailed { operation: "commit".to_string(), status: Some(1), stderr: stderr.to_string() }
}

fn enter_saved_commit_failure(session: &mut WorkspaceSession) {
    insert(session, "persisted ");
    let effects = session.global_save();
    let (mutation_id, repository_id, root, file) = apply_save(effects.into_iter().next().unwrap());
    session.mutation_saved_commit_failed(mutation_id, repository_id, &root, file, git_error("commit failed"), None);
}

#[test]
fn session_global_save_emits_one_save_and_suppresses_competing_saves() {
    let mut session = session_with_note(22, "note.md", "base");
    insert(&mut session, "x");
    let effects = session.global_save();
    assert!(matches!(
        session.pending_mutation.as_ref().map(|p| p.kind),
        Some(PendingMutationKind::Save { overwrite: false })
    ));
    assert_eq!(session.commit_status, CommitStatus::Pending);
    assert_eq!(effects.len(), 1);
    match &effects[0] {
        SessionEffect::ApplyAndCommit {
            repository_id,
            operation: FileOperation::Save { note, content, overwrite },
            intent,
            ..
        } => {
            assert_eq!(*repository_id, 22);
            assert_eq!(note.path().relative(), "note.md");
            assert_eq!(content, "xbase");
            assert!(!overwrite);
            assert_eq!(intent, &CommitIntent::Update("note.md".to_string()));
        }
        other => panic!("unexpected effect: {other:?}"),
    }
    assert!(session.global_save().is_empty());
}

#[test]
fn session_clean_editor_saves_nothing() {
    let mut session = session_with_note(1, "note.md", "base");
    assert!(session.global_save().is_empty());
    assert_eq!(session.pending_mutation, None);
    assert_eq!(session.commit_status, CommitStatus::Idle);
}

#[test]
fn session_new_note_is_created_by_its_first_save() {
    let note = LoadedNote::unsaved(NotePath::new("/repo".to_string(), "fresh.md".to_string()));
    let mut session = WorkspaceSession::new(2, "/repo".to_string(), Some(note));
    insert(&mut session, "hello");
    let effects = session.global_save();
    match &effects[0] {
        SessionEffect::ApplyAndCommit { intent, .. } => {
            assert_eq!(intent, &CommitIntent::Create("fresh.md".to_string()));
        }
        other => panic!("unexpected effect: {other:?}"),
    }
}

#[test]
fn session_pending_mutation_rejects_navigation_and_dirty_choices() {
    let mut session = session_with_note(71, "note.md", "base");
    insert(&mut session, "dirty ");
    session.navigate(NavigationAction::Quit);
    let save = session.dirty_choice(DirtyChoice::Save);
    assert_eq!(save.len(), 1);
    assert!(session.dirty_choice(DirtyChoice::Discard).is_empty());
    assert_eq!(session.pending_intent, Some(PendingIntent::Navigation(NavigationAction::Quit)));
    assert!(session.navigate(NavigationAction::Home).is_empty());
    assert!(session
        .request_file_mutation(FileMutationAction::CreateFolder { path: "f".to_string() })
        .is_empty());
}

#[test]
fn session_dirty_create_file_waits_for_the_save_before_creating() {
    let mut session = session_with_note(84, "note.md", "base");
    insert(&mut session, "dirty ");
    let premature = session.request_file_mutation(FileMutationAction::CreateFile { path: "created.md".to_string() });
    assert!(premature.is_empty());
    assert_eq!(session.dialog, Some(SessionDialog::DirtyNavigation));

    let save = session.dirty_choice(DirtyChoice::Save);
    assert!(matches!(
        &save[0],
        SessionEffect::ApplyAndCommit { operation: FileOperation::Save { content, .. }, .. } if content == "dirty base"
    ));
    let (id, repo, root, file) = apply_save(save.into_iter().next().unwrap());
    let create = session.mutation_applied(id, repo, &root, file, CommitOutcome::NoChanges, None);
    assert_eq!(create.len(), 1);
    match &create[0] {
        SessionEffect::ApplyAndCommit { operation: FileOperation::CreateFile { path, .. }, intent, .. } => {
            assert_eq!(path, "created.md");
            assert_eq!(intent, &CommitIntent::Create("created.md".to_string()));
        }
        other => panic!("unexpected effect: {other:?}"),
    }
    assert!(!editor_dirty(&session));
}

#[test]
fn session_dirty_create_file_asks_again_when_edits_arrive_during_the_save() {
    let mut session = session_with_note(89, "note.md", "base");
    insert(&mut session, "saved ");
    session.request_file_mutation(FileMutationAction::CreateFile { path: "created.md".to_string() });
    let save = session.dirty_choice(DirtyChoice::Save);
    insert(&mut session, "newer ");
    let (id, repo, root, file) = apply_save(save.into_iter().next().unwrap());
    assert!(session.mutation_applied(id, repo, &root, file, CommitOutcome::NoChanges, None).is_empty());
    assert_eq!(session.dialog, Some(SessionDialog::DirtyNavigation));
    assert_eq!(
        session.pending_intent,
        Some(PendingIntent::Mutation(FileMutationAction::CreateFile { path: "created.md".to_string() }))
    );
    assert_eq!(editor_text(&session), "saved newer base");
    assert!(editor_dirty(&session));
    assert_eq!(session.pending_mutation, None);
}

#[test]
fn session_discarding_before_an_ancestor_rename_abandons_the_edits() {
    let mut session = session_with_note(90, "folder/note.md", "base");
    insert(&mut session, "dirty ");
    let action = FileMutationAction::Rename { from: "folder".to_string(), to: "renamed".to_string() };
    assert!(session.request_file_mutation(action).is_empty());
    let rename = session.dirty_choice(DirtyChoice::Discard);
    assert_eq!(editor_text(&session), "base");
    assert!(!editor_dirty(&session));
    assert_eq!(rename.len(), 1);
    assert!(session.pending_mutation.as_ref().unwrap().reconciles_editor);
    // Edits are refused while the rename will reconcile the editor.
    assert_eq!(session.edit(EditorCommand::Insert("late ".to_string())), None);
    assert_eq!(editor_text(&session), "base");
    let (id, repo, root, file) = apply_mutation(rename.into_iter().next().unwrap());
    let load = session.mutation_applied(id, repo, &root, file, CommitOutcome::NoChanges, None);
    assert!(matches!(&load[..], [SessionEffect::LoadNote { path, .. }] if path == "renamed/note.md"));
}

#[test]
fn session_cancelling_a_dirty_ancestor_move_keeps_the_note() {
    let mut session = session_with_note(91, "folder/note.md", "base");
    insert(&mut session, "dirty ");
    let action = FileMutationAction::Move { from: "folder".to_string(), to: "archive/folder".to_string() };
    session.request_file_mutation(action);
    assert!(session.dirty_choice(DirtyChoice::Cancel).is_empty());
    assert_eq!(session.pending_intent, None);
    assert_eq!(session.dialog, None);
    assert_eq!(session.pending_mutation, None);
    assert_eq!(editor_text(&session), "dirty base");
}

#[test]
fn session_dirty_unrelated_rename_starts_at_once() {
    let mut session = session_with_note(92, "note.md", "base");
    insert(&mut session, "dirty ");
    let effects = session.request_file_mutation(FileMutationAction::Rename {
        from: "other.md".to_string(),
        to: "else.md".to_string(),
    });
    assert_eq!(effects.len(), 1);
    assert!(!session.pending_mutation.as_ref().unwrap().reconciles_editor);
    assert_eq!(session.edit(EditorCommand::Insert("more ".to_string())), Some(carnet::editor::editing::EditorOutcome::Changed));
}

#[test]
fn session_stale_success_cannot_clear_a_newer_mutation() {
    let mut session = WorkspaceSession::new(94, "/repo".to_string(), None);
    let stale = session
        .request_file_mutation(FileMutationAction::CreateFolder { path: "stale".to_string() })
        .pop()
        .unwrap();
    let (stale_id, repo, root) = identity(&stale);
    session.mutation_failed(stale_id, repo, &root, MutationCommitError::WorkspaceMismatch);
    assert_eq!(session.dialog, Some(SessionDialog::Failure { kind: FailureKind::Runtime, message: "file operation belongs to a different workspace".to_string() }));
    session.dismiss();
    let current = session.request_file_mutation(FileMutationAction::CreateFolder { path: "current".to_string() });
    let current_identity = identity(&current[0]);
    assert!(stale_id.get() < current_identity.0.get());
    let (id, repo, root, file) = apply_mutation(stale);
    assert!(session.mutation_applied(id, repo, &root, file, CommitOutcome::NoChanges, None).is_empty());
    assert_eq!(pending_identity(&session), current_identity);
    assert_eq!(session.commit_status, CommitStatus::Pending);
}

#[test]
fn session_other_repository_success_cannot_touch_this_one() {
    let mut a = WorkspaceSession::new(95, "/a".to_string(), None);
    let from_a = a.request_file_mutation(FileMutationAction::CreateFolder { path: "from-a".to_string() }).pop().unwrap();
    let mut b = WorkspaceSession::new(96, "/b".to_string(), None);
    let current = b.request_file_mutation(FileMutationAction::CreateFolder { path: "from-b".to_string() });
    let current_identity = identity(&current[0]);
    let (id, repo, root, file) = apply_mutation(from_a);
    assert_eq!(id, current_identity.0);
    assert!(b.mutation_applied(id, repo, &root, file, CommitOutcome::NoChanges, None).is_empty());
    assert_eq!(pending_identity(&b), current_identity);
}

#[test]
fn session_stale_failure_and_conflict_cannot_replace_the_current_mutation() {
    let mut session = WorkspaceSession::new(97, "/repo".to_string(), None);
    let stale = session.request_file_mutation(FileMutationAction::CreateFolder { path: "stale".to_string() });
    let (stale_id, repo, root) = identity(&stale[0]);
    session.mutation_failed(stale_id, repo, &root, MutationCommitError::WorkspaceMismatch);
    session.dismiss();
    let current = session.request_file_mutation(FileMutationAction::CreateFolder { path: "current".to_string() });
    let current_identity = identity(&current[0]);
    let failure = session.mutation_failure.as_ref().map(|f| f.message.clone());
    session.mutation_failed(stale_id, repo, &root, MutationCommitError::RepositoryMismatch);
    session.mutation_conflict(stale_id, repo, &root, ExternalConflict::Modified { path: "stale".to_string() });
    assert_eq!(pending_identity(&session), current_identity);
    assert_eq!(session.commit_status, CommitStatus::Pending);
    assert_eq!(session.dialog, None);
    assert_eq!(session.mutation_failure.as_ref().map(|f| f.message.clone()), failure);
    assert_eq!(failure.as_deref(), Some("file operation belongs to a different workspace"));
}

#[test]
fn session_stale_commit_failure_cannot_mark_a_newer_save() {
    let mut session = session_with_note(98, "note.md", "base");
    insert(&mut session, "dirty ");
    let stale = session.global_save();
    let (stale_id, repo, root, file) = apply_save(stale.into_iter().next().unwrap());
    session.mutation_failed(stale_id, repo, &root, MutationCommitError::WorkspaceMismatch);
    session.dismiss();
    let current = session.global_save();
    let current_identity = identity(&current[0]);
    session.mutation_saved_commit_failed(stale_id, repo, &root, file, git_error("stale failure"), None);
    assert_eq!(pending_identity(&session), current_identity);
    assert!(editor_dirty(&session));
    assert_eq!(session.saved_commit_failure, None);
    assert_eq!(session.git_failure, None);
    assert_eq!(session.commit_status, CommitStatus::Pending);
    assert_eq!(session.dialog, None);
}

#[test]
fn session_edits_after_the_save_started_stay_dirty() {
    let mut session = session_with_note(72, "note.md", "base");
    insert(&mut session, "saved ");
    let save = session.global_save();
    insert(&mut session, "newer ");
    let (id, repo, root, file) = apply_save(save.into_iter().next().unwrap());
    match &file {
        FileOutcome::Saved(note) => assert_eq!(note.text(), "saved base"),
        other => panic!("unexpected outcome: {other:?}"),
    }
    session.mutation_applied(id, repo, &root, file, CommitOutcome::NoChanges, None);
    assert_eq!(editor_text(&session), "saved newer base");
    assert!(editor_dirty(&session));
    assert_eq!(session.commit_status, CommitStatus::NoChanges);
}

#[test]
fn session_waiting_navigation_does_not_resume_after_newer_edits() {
    let mut session = session_with_note(73, "note.md", "base");
    insert(&mut session, "saved ");
    session.navigate(NavigationAction::Quit);
    let save = session.dirty_choice(DirtyChoice::Save);
    insert(&mut session, "newer ");
    let (id, repo, root, file) = apply_save(save.into_iter().next().unwrap());
    let effects = session.mutation_applied(id, repo, &root, file, CommitOutcome::NoChanges, None);
    assert!(effects.is_empty());
    assert_eq!(session.pending_intent, Some(PendingIntent::Navigation(NavigationAction::Quit)));
    assert_eq!(session.dialog, Some(SessionDialog::DirtyNavigation));
    assert!(editor_dirty(&session));
}

#[test]
fn session_cancel_clears_the_waiting_navigation() {
    let mut session = session_with_note(23, "note.md", "base");
    insert(&mut session, "dirty ");
    let target = NavigationAction::Note("other.md".to_string());
    assert!(session.navigate(target).is_empty());
    assert_eq!(session.pending_intent, Some(PendingIntent::Navigation(NavigationAction::Note("other.md".to_string()))));
    assert_eq!(session.dialog, Some(SessionDialog::DirtyNavigation));
    assert!(session.dirty_choice(DirtyChoice::Cancel).is_empty());
    assert_eq!(session.pending_intent, None);
    assert_eq!(session.dialog, None);
    assert_eq!(editor_text(&session), "dirty base");
}

#[test]
fn session_discard_resumes_the_waiting_navigation_at_once() {
    let mut session = session_with_note(24, "note.md", "base");
    insert(&mut session, "dirty ");
    session.navigate(NavigationAction::Note("other.md".to_string()));
    let effects = session.dirty_choice(DirtyChoice::Discard);
    assert_eq!(session.pending_intent, None);
    assert_eq!(session.dialog, None);
    assert!(matches!(&effects[..], [SessionEffect::LoadNote { path, .. }] if path == "other.md"));
    assert_eq!(editor_text(&session), "base");
}

#[test]
fn session_clean_navigation_is_handed_over_at_once() {
    let mut session = session_with_note(45, "note.md", "base");
    let effects = session.navigate(NavigationAction::Home);
    assert!(matches!(&effects[..], [SessionEffect::Navigate(NavigationAction::Home)]));
    assert_eq!(session.pending_intent, None);
}

#[test]
fn session_save_resumes_navigation_only_after_the_confirmed_result() {
    let mut session = session_with_note(25, "note.md", "base");
    insert(&mut session, "dirty ");
    session.navigate(NavigationAction::Note("other.md".to_string()));
    let save = session.dirty_choice(DirtyChoice::Save);
    assert_eq!(session.pending_intent, Some(PendingIntent::Navigation(NavigationAction::Note("other.md".to_string()))));
    assert_eq!(session.dialog, None);
    assert_eq!(save.len(), 1);
    let (id, repo, root, file) = apply_save(save.into_iter().next().unwrap());
    let resumed = session.mutation_applied(id, repo, &root, file, CommitOutcome::NoChanges, None);
    assert_eq!(session.pending_mutation, None);
    assert_eq!(session.pending_intent, None);
    assert_eq!(session.commit_status, CommitStatus::NoChanges);
    assert!(!editor_dirty(&session));
    assert!(matches!(&resumed[..], [SessionEffect::LoadNote { path, .. }] if path == "other.md"));
}

#[test]
fn session_cancelling_an_external_conflict_keeps_the_dirty_buffer() {
    let mut session = session_with_note(28, "note.md", "base");
    insert(&mut session, "mine ");
    session.global_save();
    let (id, repo, root) = pending_identity(&session);
    let conflict = ExternalConflict::Modified { path: "note.md".to_string() };
    session.mutation_conflict(id, repo, &root, conflict);
    assert_eq!(session.pending_mutation, None);
    assert_eq!(
        session.dialog,
        Some(SessionDialog::ExternalConflict(ExternalConflict::Modified { path: "note.md".to_string() }))
    );
    assert_eq!(session.status_message.as_deref(), Some("file changed outside Carnet"));
    assert_eq!(session.commit_status, CommitStatus::Idle);
    assert!(editor_dirty(&session));
    session.conflict_choice(ConflictChoice::Cancel);
    assert_eq!(session.dialog, None);
    assert!(editor_dirty(&session));
}

#[test]
fn session_overwriting_an_external_conflict_saves_with_overwrite() {
    let mut session = session_with_note(29, "note.md", "base");
    insert(&mut session, "mine ");
    session.global_save();
    let (id, repo, root) = pending_identity(&session);
    session.mutation_conflict(id, repo, &root, ExternalConflict::Modified { path: "note.md".to_string() });
    let effects = session.conflict_choice(ConflictChoice::Overwrite);
    assert_eq!(session.dialog, None);
    assert!(matches!(
        session.pending_mutation.as_ref().map(|p| p.kind),
        Some(PendingMutationKind::Save { overwrite: true })
    ));
    assert!(matches!(
        &effects[0],
        SessionEffect::ApplyAndCommit { operation: FileOperation::Save { overwrite: true, .. }, .. }
    ));
}

#[test]
fn session_reloading_an_external_conflict_loads_the_note_again() {
    let mut session = session_with_note(30, "note.md", "base");
    insert(&mut session, "mine ");
    session.global_save();
    let (id, repo, root) = pending_identity(&session);
    session.mutation_conflict(id, repo, &root, ExternalConflict::Deleted { path: "note.md".to_string() });
    let effects = session.conflict_choice(ConflictChoice::Reload);
    assert_eq!(editor_text(&session), "mine base");
    assert!(matches!(&effects[..], [SessionEffect::LoadNote { path, .. }] if path == "note.md"));
    assert_eq!(session.dialog, None);
}

#[test]
fn session_commit_failure_marks_the_buffer_clean_and_save_retries_only_git() {
    let mut session = session_with_note(31, "note.md", "base");
    insert(&mut session, "saved ");
    let save = session.global_save();
    let (id, repo, root, file) = apply_save(save.into_iter().next().unwrap());
    let load = session.mutation_saved_commit_failed(id, repo, &root, file, git_error("hook rejected"), None);
    assert!(load.is_empty());
    assert!(!editor_dirty(&session));
    let message = "git commit failed: hook rejected".to_string();
    assert_eq!(session.commit_status, CommitStatus::SavedCommitFailed { message: message.clone() });
    assert_eq!(session.dialog, Some(SessionDialog::SavedCommitFailed { message: message.clone() }));
    assert_eq!(session.git_failure.as_ref().map(|f| (f.kind, f.message.clone())), Some((FailureKind::Git, message)));

    let retry = session.global_save();
    assert!(matches!(
        session.pending_mutation.as_ref().map(|p| p.kind),
        Some(PendingMutationKind::RetryCommit)
    ));
    assert!(matches!(
        &retry[..],
        [SessionEffect::RetryCommit { intent: CommitIntent::Update(path), .. }] if path == "note.md"
    ));
    assert!(session.global_save().is_empty());

    let (id, repo, root) = identity(&retry[0]);
    session.commit_retry_applied(id, repo, &root, CommitOutcome::Committed { revision: "abc123".to_string() });
    assert_eq!(session.pending_mutation, None);
    assert_eq!(session.saved_commit_failure, None);
    assert_eq!(session.git_failure, None);
    assert_eq!(session.dialog, None);
    assert_eq!(session.commit_status, CommitStatus::Committed { revision: "abc123".to_string() });
}

#[test]
fn session_failed_retry_stays_retryable_without_rewriting_the_file() {
    let mut session = session_with_note(32, "note.md", "saved");
    enter_saved_commit_failure(&mut session);
    session.global_save();
    let (id, repo, root) = pending_identity(&session);
    session.commit_retry_failed(id, repo, &root, git_error("still rejected"));
    assert_eq!(session.pending_mutation, None);
    assert_eq!(session.saved_commit_failure.as_ref().map(|f| f.message.as_str()), Some("git commit failed: still rejected"));
    let retry = session.global_save();
    assert!(matches!(
        session.pending_mutation.as_ref().map(|p| p.kind),
        Some(PendingMutationKind::RetryCommit)
    ));
    assert!(matches!(&retry[..], [SessionEffect::RetryCommit { .. }]));
}

#[test]
fn session_retry_result_for_another_mutation_is_ignored() {
    let mut session = session_with_note(35, "note.md", "saved");
    enter_saved_commit_failure(&mut session);
    session.global_save();
    let (id, repo, root) = pending_identity(&session);
    let stale = MutationId::new(id.get() + 7);
    assert!(session.commit_retry_applied(stale, repo, &root, CommitOutcome::NoChanges).is_empty());
    session.commit_retry_failed(stale, repo, &root, git_error("late"));
    assert_eq!(pending_identity(&session), (id, repo, root));
    assert_eq!(session.commit_status, CommitStatus::Pending);
}

#[test]
fn session_waiting_navigation_during_commit_failure_asks_before_saving_newer_edits() {
    let mut session = session_with_note(36, "note.md", "saved");
    enter_saved_commit_failure(&mut session);
    insert(&mut session, "new ");
    session.navigate(NavigationAction::Quit);
    let retry = session.dirty_choice(DirtyChoice::Save);
    assert!(matches!(&retry[..], [SessionEffect::RetryCommit { .. }]));
    assert_eq!(session.pending_intent, Some(PendingIntent::Navigation(NavigationAction::Quit)));
    let (id, repo, root) = identity(&retry[0]);
    let save = session.commit_retry_applied(id, repo, &root, CommitOutcome::Committed { revision: "old-save".to_string() });
    assert!(save.is_empty());
    assert_eq!(session.pending_intent, Some(PendingIntent::Navigation(NavigationAction::Quit)));
    assert_eq!(session.dialog, Some(SessionDialog::DirtyNavigation));
    assert!(editor_dirty(&session));
    let newer_save = session.dirty_choice(DirtyChoice::Save);
    assert!(matches!(&newer_save[..], [SessionEffect::ApplyAndCommit { .. }]));
}

#[test]
fn session_failed_save_stays_on_the_dirty_note() {
    let mut session = session_with_note(33, "note.md", "base");
    insert(&mut session, "dirty ");
    session.navigate(NavigationAction::Quit);
    session.dirty_choice(DirtyChoice::Save);
    let (id, repo, root) = pending_identity(&session);
    session.mutation_failed(id, repo, &root, MutationCommitError::File(FileError::Io { path: "note.md".to_string(), message: "read only".to_string() }));
    assert_eq!(session.pending_mutation, None);
    assert_eq!(session.pending_intent, Some(PendingIntent::Navigation(NavigationAction::Quit)));
    assert!(editor_dirty(&session));
    let message = "could not access file at note.md: read only".to_string();
    assert_eq!(session.write_failure.as_ref().map(|f| (f.kind, f.message.clone())), Some((FailureKind::Write, message.clone())));
    assert_eq!(session.dialog, Some(SessionDialog::Failure { kind: FailureKind::Write, message }));
    assert_eq!(session.commit_status, CommitStatus::Idle);
    assert!(matches!(session.global_save().as_slice(), [SessionEffect::ApplyAndCommit { .. }]));
}

#[test]
fn session_tree_refresh_failure_after_save_keeps_the_saved_result() {
    let mut session = session_with_note(44, "note.md", "base");
    insert(&mut session, "saved ");
    let save = session.global_save();
    let (id, repo, root, file) = apply_save(save.into_iter().next().unwrap());
    session.mutation_applied(id, repo, &root, file, CommitOutcome::NoChanges, Some("tree unavailable".to_string()));
    assert!(!editor_dirty(&session));
    assert_eq!(session.pending_mutation, None);
    assert_eq!(
        session.refresh_failure.as_ref().map(|f| (f.request_id, f.repository_id, f.operation, f.message.as_str())),
        Some((None, 44, RuntimeOperation::RefreshTree, "tree unavailable"))
    );
    assert_eq!(
        session.dialog,
        Some(SessionDialog::Failure { kind: FailureKind::Runtime, message: "tree unavailable".to_string() })
    );
}

#[test]
fn session_renaming_an_ancestor_reloads_the_note_at_its_new_path() {
    let mut session = session_with_note(81, "folder/sub/note.md", "base");
    let effect = session
        .request_file_mutation(FileMutationAction::Rename { from: "folder".to_string(), to: "renamed".to_string() })
        .pop()
        .unwrap();
    let (id, repo, root, file) = apply_mutation(effect);
    let follow_up = session.mutation_applied(id, repo, &root, file, CommitOutcome::NoChanges, None);
    assert!(matches!(&follow_up[..], [SessionEffect::LoadNote { path, .. }] if path == "renamed/sub/note.md"));
}

#[test]
fn session_moving_an_ancestor_reloads_the_note_below_the_destination() {
    let mut session = session_with_note(82, "folder/sub/note.md", "base");
    let effect = session
        .request_file_mutation(FileMutationAction::Move { from: "folder".to_string(), to: "archive/folder".to_string() })
        .pop()
        .unwrap();
    let (id, repo, root, file) = apply_mutation(effect);
    let follow_up = session.mutation_applied(id, repo, &root, file, CommitOutcome::NoChanges, None);
    assert!(matches!(&follow_up[..], [SessionEffect::LoadNote { path, .. }] if path == "archive/folder/sub/note.md"));
}

#[test]
fn session_deleting_an_ancestor_closes_the_note() {
    let mut session = session_with_note(83, "folder/sub/note.md", "base");
    let effect = session
        .request_file_mutation(FileMutationAction::Delete { path: "folder".to_string() })
        .pop()
        .unwrap();
    let (id, repo, root, file) = apply_mutation(effect);
    assert!(session.mutation_applied(id, repo, &root, file, CommitOutcome::NoChanges, None).is_empty());
    assert!(session.editor.is_none());
    assert_eq!(session.current_note(), None);
}

#[test]
fn session_deleting_an_unrelated_file_keeps_the_note() {
    let mut session = session_with_note(85, "folder/note.md", "base");
    let effect = session
        .request_file_mutation(FileMutationAction::Delete { path: "folder2".to_string() })
        .pop()
        .unwrap();
    let (id, repo, root, file) = apply_mutation(effect);
    session.mutation_applied(id, repo, &root, file, CommitOutcome::NoChanges, None);
    assert_eq!(session.current_note().as_deref(), Some("folder/note.md"));
}

#[test]
fn session_created_file_is_loaded() {
    let mut session = session_with_note(86, "note.md", "base");
    let effect = session
        .request_file_mutation(FileMutationAction::CreateFile { path: "new.md".to_string() })
        .pop()
        .unwrap();
    assert!(matches!(
        session.pending_mutation.as_ref().map(|p| p.kind),
        Some(PendingMutationKind::File(_))
    ));
    let (id, repo, root, file) = apply_mutation(effect);
    let follow_up = session.mutation_applied(
        id,
        repo,
        &root,
        file,
        CommitOutcome::Committed { revision: "r1".to_string() },
        None,
    );
    assert!(matches!(&follow_up[..], [SessionEffect::LoadNote { path, .. }] if path == "new.md"));
    assert_eq!(session.commit_status, CommitStatus::Committed { revision: "r1".to_string() });
}

fn load_request(effect: &SessionEffect) -> (RequestId, String) {
    match effect {
        SessionEffect::LoadNote { request_id, path } => (*request_id, path.clone()),
        other => panic!("expected a load, got {other:?}"),
    }
}

fn decoded(name: &str, contents: &str) -> LoadedNote {
    LoadedNote::decode(NotePath::new("/repo".to_string(), name.to_string()), contents.as_bytes(), None).unwrap()
}

#[test]
fn session_pending_load_blocks_edits_but_not_file_mutations() {
    let mut session = session_with_note(90, "note.md", "base");
    let load = session.navigate(NavigationAction::Note("note.md".to_string()));
    let (request_id, path) = load_request(&load[0]);
    assert_eq!(path, "note.md");
    let folder = session.request_file_mutation(FileMutationAction::CreateFolder { path: "folder".to_string() });
    assert!(matches!(
        &folder[0],
        SessionEffect::ApplyAndCommit { operation: FileOperation::CreateFolder { .. }, .. }
    ));
    assert!(session.pending_mutation.is_some());
    assert_eq!(session.edit(EditorCommand::Insert("x".to_string())), None);
    let (mutation_id, root) = match &folder[0] {
        SessionEffect::ApplyAndCommit { mutation_id, repository_root, .. } => (*mutation_id, repository_root.clone()),
        _ => unreachable!(),
    };
    let _ = session.mutation_applied(
        mutation_id,
        90,
        &root,
        FileOutcome::CreatedFolder("folder".to_string()),
        CommitOutcome::NoChanges,
        None,
    );
    assert_eq!(session.pending_mutation, None);
    assert!(session.note_loaded(request_id, 90, decoded("note.md", "fresh")));
    assert_eq!(editor_text(&session), "fresh");
    assert_eq!(session.pending_load, None);
    let rename = session.request_file_mutation(FileMutationAction::Rename {
        from: "note.md".to_string(),
        to: "renamed.md".to_string(),
    });
    assert!(matches!(
        &rename[0],
        SessionEffect::ApplyAndCommit { operation: FileOperation::Rename { from, to, .. }, .. }
            if from == "note.md" && to == "renamed.md"
    ));
}

#[test]
fn session_stale_or_foreign_loads_never_replace_the_editor() {
    let mut session = session_with_note(91, "note.md", "base");
    let first = session.navigate(NavigationAction::Note("a.md".to_string()));
    let (first_id, _) = load_request(&first[0]);
    assert!(session.note_loaded(first_id, 91, decoded("a.md", "a")));
    let second = session.navigate(NavigationAction::Note("b.md".to_string()));
    let (second_id, _) = load_request(&second[0]);
    assert!(first_id.get() < second_id.get());
    assert!(!session.note_loaded(first_id, 91, decoded("b.md", "stale")));
    assert!(!session.note_loaded(second_id, 92, decoded("b.md", "other repository")));
    assert!(!session.note_loaded(second_id, 91, decoded("c.md", "other path")));
    assert_eq!(editor_text(&session), "a");
    assert!(session.note_loaded(second_id, 91, decoded("b.md", "b")));
    assert_eq!(editor_text(&session), "b");
    assert_eq!(session.current_note().as_deref(), Some("b.md"));
}

#[test]
fn session_failed_load_is_reported_and_ends_the_load() {
    let mut session = session_with_note(93, "note.md", "base");
    let load = session.navigate(NavigationAction::Note("missing.md".to_string()));
    let (request_id, _) = load_request(&load[0]);
    assert!(!session.load_failed(RequestId::new(request_id.get() + 1), 93, "late".to_string()));
    assert!(!session.load_failed(request_id, 94, "other repository".to_string()));
    assert!(session.pending_load.is_some());
    assert!(session.load_failed(request_id, 93, "note does not exist".to_string()));
    assert_eq!(session.pending_load, None);
    assert_eq!(
        session.load_failure,
        Some(RuntimeFailure {
            request_id: Some(request_id),
            repository_id: 93,
            operation: RuntimeOperation::LoadNote,
            message: "note does not exist".to_string(),
        })
    );
    assert!(session.has_unresolved_failures());
    assert_eq!(
        session.dialog,
        Some(SessionDialog::Failure { kind: FailureKind::Runtime, message: "note does not exist".to_string() })
    );
    assert_eq!(editor_text(&session), "base");
}

#[test]
fn session_reload_after_a_conflict_replaces_the_buffer_only_with_the_load_result() {
    let mut session = session_with_note(30, "note.md", "base");
    insert(&mut session, "mine ");
    session.global_save();
    let (id, repo, root) = pending_identity(&session);
    session.mutation_conflict(id, repo, &root, ExternalConflict::Modified { path: "note.md".to_string() });
    let effects = session.conflict_choice(ConflictChoice::Reload);
    assert_eq!(editor_text(&session), "mine base");
    let (request_id, path) = load_request(&effects[0]);
    assert_eq!(path, "note.md");
    assert!(session.note_loaded(request_id, 30, decoded("note.md", "external")));
    assert_eq!(session.pending_load, None);
    assert_eq!(editor_text(&session), "external");
    assert!(!editor_dirty(&session));
}
