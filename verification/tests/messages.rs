use carnet::ui::dialogs::{choice_pieces, ChoicePiece};
use carnet::ui::dialogs::{confirm_set_default_content, confirm_unregister_content, repository_form_content};
use carnet::app::keymap::RepositoryActionKind;
use carnet::git::{check_mutation_target, DirectoryIdentity};
use carnet::workspace::files::FileOperation;
use carnet::app::browser::FileActionKind;
use carnet::app::session::{ExternalConflict, FailureKind, SessionDialog};
use carnet::git::{GitError, MutationCommitError};
use carnet::ui::dialogs::{
    confirm_delete_content, file_action_content, session_dialog_content, Accent, DialogLine,
};
use carnet::workspace::files::FileError;
use carnet::workspace::paths::PathError;
use carnet::catalog::CatalogError;
use carnet::cli::CliError;
use carnet::note_output::NoteOutputError;
use carnet::workspace::root::WorkspaceError;
use carnet::app::session::CommitStatus;
use carnet::editor::HighlightLanguage;
use carnet::app::state::{PushStatus, QuitState, RepositoryFormState, RuntimeError, SidebarState};
use carnet::app::ids::AppExitStatus;
use carnet::app::keymap::RepositoryFormField;
use carnet::git::PushOutcome;
use carnet::ui::status::{mutation_activity, status_line, Activity};
use carnet::app::mutation::PendingMutationKind;
use carnet::ui::status::tree_row_label;
use carnet::ui::editor_view::{editor_lines, editor_scroll, EditorCell};
use carnet::editor::syntax::{HighlightSpan, HighlightStyle};
use carnet::workspace::tree::TreeEntryKind;
use carnet::ui::status::{cursor_position, editor_title};

fn text(line: &DialogLine) -> &str {
    match line {
        DialogLine::Text { text, .. } => text.as_str(),
        other => panic!("expected text, got {other:?}"),
    }
}

fn choices(line: &DialogLine) -> Vec<(String, String)> {
    match line {
        DialogLine::Choices(choices) => choices.clone(),
        other => panic!("expected choices, got {other:?}"),
    }
}

fn pair(key: &str, label: &str) -> (String, String) {
    (key.to_string(), label.to_string())
}

#[test]
fn git_errors_say_what_failed() {
    let failed = GitError::CommandFailed {
        operation: "commit".to_string(),
        status: Some(1),
        stderr: "hook rejected".to_string(),
    };
    assert_eq!(failed.message(), "git commit failed: hook rejected");
    assert_eq!(
        GitError::Io { operation: "status".to_string(), message: "not found".to_string() }.message(),
        "could not run git status: not found"
    );
    assert_eq!(
        GitError::NotWorkTree { path: "/tmp/x".to_string() }.message(),
        "path is not a Git work tree: /tmp/x"
    );
    assert_eq!(
        GitError::WorkerPanicked { operation: "push".to_string() }.message(),
        "background push worker panicked"
    );
    assert_eq!(
        GitError::RootChanged { path: "/r".to_string() }.message(),
        "opened repository root changed: /r"
    );
    assert_eq!(
        GitError::Cancelled { operation: "commit".to_string() }.message(),
        "git commit was cancelled during shutdown"
    );
}

#[test]
fn mutation_errors_say_what_failed() {
    assert_eq!(
        MutationCommitError::WorkspaceMismatch.message(),
        "file operation belongs to a different workspace"
    );
    assert_eq!(
        MutationCommitError::RepositoryMismatch.message(),
        "Git repository belongs to a different workspace"
    );
    assert_eq!(
        MutationCommitError::Runtime { message: "boom".to_string() }.message(),
        "background mutation worker panicked: boom"
    );
    assert_eq!(
        MutationCommitError::File(FileError::Missing { path: "a.md".to_string() }).message(),
        "path does not exist: a.md"
    );
}

#[test]
fn file_and_path_errors_say_what_failed() {
    assert_eq!(
        FileError::ExternalModification { path: "note.md".to_string() }.message(),
        "note was modified outside Carnet: note.md"
    );
    assert_eq!(
        FileError::Io { path: "note.md".to_string(), message: "denied".to_string() }.message(),
        "could not access file at note.md: denied"
    );
    assert_eq!(
        FileError::Path(PathError::Traversal { path: "../x".to_string() }).message(),
        "path must not traverse outside the repository: ../x"
    );
    assert_eq!(
        PathError::Io { path: "x".to_string(), message: "gone".to_string() }.message(),
        "could not inspect path x: gone"
    );
    assert_eq!(
        FileError::ConfirmationRequired { path: "d".to_string() }.message(),
        "deletion requires confirmation: d"
    );
}

#[test]
fn unsaved_changes_dialog_offers_save_discard_and_cancel() {
    let content = session_dialog_content(&SessionDialog::DirtyNavigation);
    assert_eq!(content.title, " Unsaved changes ");
    assert_eq!(content.height, 7);
    assert_eq!(content.accent, Accent::Yellow);
    assert_eq!(text(&content.lines[0]), "This note has changes that have not been saved.");
    assert_eq!(content.lines[1], DialogLine::Blank);
    assert_eq!(
        choices(&content.lines[2]),
        vec![pair("s", "Save"), pair("d", "Discard"), pair("Esc", "Cancel")]
    );
}

#[test]
fn conflict_dialog_names_the_path_and_what_happened_to_it() {
    let modified = session_dialog_content(&SessionDialog::ExternalConflict(ExternalConflict::Modified {
        path: "note.md".to_string(),
    }));
    assert_eq!(modified.title, " External conflict ");
    assert_eq!(text(&modified.lines[0]), "note.md was modified outside Carnet.");
    assert_eq!(modified.height, 8);
    let deleted = session_dialog_content(&SessionDialog::ExternalConflict(ExternalConflict::Deleted {
        path: "gone.md".to_string(),
    }));
    assert_eq!(text(&deleted.lines[0]), "gone.md was deleted outside Carnet.");
    assert_eq!(
        choices(&deleted.lines[3]),
        vec![pair("r", "Reload"), pair("o", "Overwrite"), pair("Esc", "Cancel")]
    );
}

#[test]
fn commit_failure_dialog_says_the_file_was_saved() {
    let content = session_dialog_content(&SessionDialog::SavedCommitFailed { message: "git commit failed: x".to_string() });
    assert_eq!(content.title, " Git failure ");
    assert_eq!(
        content.lines[0],
        DialogLine::Text { text: "The file was saved, but it was not committed.".to_string(), bold: true }
    );
    assert_eq!(text(&content.lines[1]), "git commit failed: x");
    assert_eq!(choices(&content.lines[3]), vec![pair("r", "Retry commit"), pair("Esc", "Continue editing")]);
    assert_eq!(content.accent, Accent::Red);
}

#[test]
fn failure_dialog_titles_follow_the_kind() {
    for (kind, title) in [
        (FailureKind::Runtime, " Runtime failure "),
        (FailureKind::Write, " Write failure "),
        (FailureKind::Git, " Git failure "),
    ] {
        let content = session_dialog_content(&SessionDialog::Failure { kind, message: "m".to_string() });
        assert_eq!(content.title, title);
        assert_eq!(text(&content.lines[0]), "m");
        assert_eq!(choices(&content.lines[2]), vec![pair("Enter/Esc", "Dismiss")]);
        assert_eq!(content.height, 7);
    }
}

#[test]
fn file_action_dialog_shows_the_target_and_the_typed_path() {
    let rename = file_action_content(FileActionKind::Rename, Some("docs/a.md"), "docs/b");
    assert_eq!(rename.title, " Rename ");
    assert_eq!(text(&rename.lines[0]), "Selected: docs/a.md");
    assert_eq!(text(&rename.lines[1]), "New path: docs/b_");
    assert_eq!(rename.accent, Accent::Cyan);
    let create = file_action_content(FileActionKind::NewFile, None, "");
    assert_eq!(create.title, " New file ");
    assert_eq!(text(&create.lines[0]), "At repository root");
    assert_eq!(text(&create.lines[1]), "Path for the new file: _");
    assert_eq!(choices(&create.lines[3]), vec![pair("Enter", "Submit"), pair("Esc", "Cancel")]);
}

#[test]
fn delete_confirmation_asks_about_the_path() {
    let content = confirm_delete_content("old.md");
    assert_eq!(content.title, " Confirm delete ");
    assert_eq!(text(&content.lines[0]), "Delete old.md?");
    assert_eq!(choices(&content.lines[3]), vec![pair("y/Enter", "Delete"), pair("n/Esc", "Cancel")]);
}

#[test]
fn catalog_errors_quote_names_and_write_identifiers_and_versions() {
    assert_eq!(
        CatalogError::RepositoryNotFound { name: "missing".to_string() }.message(),
        "repository named \"missing\" is not registered"
    );
    assert_eq!(
        CatalogError::DuplicateName { name: "a\"b".to_string() }.message(),
        "a repository named \"a\\\"b\" is already registered"
    );
    assert_eq!(CatalogError::UnsupportedVersion { found: 42 }.message(), "catalog version 42 is not supported");
    assert_eq!(CatalogError::UnsupportedVersion { found: 0 }.message(), "catalog version 0 is not supported");
    assert_eq!(
        CatalogError::DuplicateId { id: 0x67e5504410b1426f9247bb680e5fe0c8 }.message(),
        "catalog contains duplicate repository ID 67e55044-10b1-426f-9247-bb680e5fe0c8"
    );
    assert_eq!(
        CatalogError::Parse { path: "/c/catalog.toml".to_string(), message: "bad".to_string() }.message(),
        "could not parse catalog at /c/catalog.toml: bad"
    );
    assert_eq!(CatalogError::EmptyName.message(), "repository name must not be empty");
}

#[test]
fn command_line_errors_say_what_is_wrong() {
    assert_eq!(CliError::AbsoluteNotePath { path: "/x.md".to_string() }.message(), "note path must be relative: /x.md");
    assert_eq!(
        CliError::TraversalNotePath { path: "../x.md".to_string() }.message(),
        "note path must not traverse outside its repository: ../x.md"
    );
    assert_eq!(CliError::OutputNoteRequired.message(), "--path and --print require a note path");
    assert_eq!(
        CliError::Catalog(CatalogError::DefaultRepositoryNotSet).message(),
        "the default repository is not registered"
    );
}

#[test]
fn workspace_and_output_errors_say_what_is_wrong() {
    assert_eq!(
        WorkspaceError::NonCanonicalRoot { path: "/r/../r".to_string() }.message(),
        "repository path is not canonical: /r/../r"
    );
    assert_eq!(
        NoteOutputError::Missing { path: "missing.md".to_string() }.message(),
        "note does not exist: missing.md"
    );
    assert_eq!(
        NoteOutputError::Workspace(WorkspaceError::Io { path: "/r".to_string(), message: "gone".to_string() }).message(),
        "could not inspect repository at /r: gone"
    );
}

#[test]
fn status_line_joins_what_the_workspace_shows() {
    assert_eq!(
        status_line(Some(HighlightLanguage::Markdown), true, 3, 7, Some(Activity::Saving), &PushStatus::Idle, &CommitStatus::Pending, None),
        " Markdown  ·  modified  ·  Ln 3, Col 7  ·  saving  ·  commit pending "
    );
    assert_eq!(
        status_line(None, false, 1, 1, None, &PushStatus::Idle, &CommitStatus::Committed { revision: "0123456789abcdef".to_string() }, None),
        " No file  ·  saved  ·  Ln 1, Col 1  ·  committed 01234567 "
    );
    assert_eq!(
        status_line(
            Some(HighlightLanguage::PlainText),
            false,
            1,
            1,
            None,
            &PushStatus::Idle,
            &CommitStatus::SavedCommitFailed { message: "git commit failed: x".to_string() },
            Some("git commit failed: x"),
        ),
        " Plain text  ·  saved  ·  Ln 1, Col 1  ·  saved · not committed: git commit failed: x "
    );
    assert_eq!(
        status_line(Some(HighlightLanguage::Html), false, 2, 1, Some(Activity::Loading), &PushStatus::Idle, &CommitStatus::Idle, Some("tree unavailable")),
        " HTML  ·  saved  ·  Ln 2, Col 1  ·  loading  ·  tree unavailable "
    );
}

#[test]
fn tree_rows_show_a_mark_and_the_entry_name() {
    assert_eq!(tree_row_label(TreeEntryKind::Directory, true, "docs/guides"), "▸ guides");
    assert_eq!(tree_row_label(TreeEntryKind::File, true, "docs/a.md"), "• a.md");
    assert_eq!(tree_row_label(TreeEntryKind::File, false, "logo.png"), "× logo.png");
    assert_eq!(tree_row_label(TreeEntryKind::Symlink, false, "link"), "↗ link");
}

#[test]
fn editor_title_and_cursor_position_follow_the_note() {
    assert_eq!(editor_title(true, Some("notes/a.md")), " Editing · notes/a.md ");
    assert_eq!(editor_title(false, None), " Preview ");
    assert_eq!(cursor_position("ab\ncd", 0), (1, 1));
    assert_eq!(cursor_position("ab\ncd", 4), (2, 2));
    assert_eq!(cursor_position("ab\n", 3), (2, 1));
    assert_eq!(cursor_position("日本", 1), (1, 3));
}

#[test]
fn the_push_stands_between_the_activity_and_the_commit() {
    assert_eq!(
        status_line(None, false, 1, 1, Some(Activity::RetryingCommit), &PushStatus::Pushing, &CommitStatus::Pending, None),
        " No file  ·  saved  ·  Ln 1, Col 1  ·  retrying commit  ·  pushing  ·  commit pending "
    );
    let failed = PushStatus::of_result(Err(GitError::NotWorkTree { path: "/r".into() }));
    assert_eq!(failed, PushStatus::Failed { message: "path is not a Git work tree: /r".into() });
    assert_eq!(
        status_line(None, false, 1, 1, None, &failed, &CommitStatus::Idle, Some("path is not a Git work tree: /r")),
        " No file  ·  saved  ·  Ln 1, Col 1  ·  path is not a Git work tree: /r "
    );
    assert_eq!(PushStatus::of_result(Ok(PushOutcome::UpToDate)), PushStatus::UpToDate);
    assert_eq!(
        status_line(None, false, 1, 1, None, &PushStatus::of_result(Ok(PushOutcome::Pushed)), &CommitStatus::Idle, None),
        " No file  ·  saved  ·  Ln 1, Col 1  ·  pushed "
    );
}

#[test]
fn each_mutation_in_flight_has_its_activity() {
    assert_eq!(mutation_activity(PendingMutationKind::Save { overwrite: true }), Activity::Saving);
    assert_eq!(mutation_activity(PendingMutationKind::RetryCommit), Activity::RetryingCommit);
    assert_eq!(mutation_activity(PendingMutationKind::Delete), Activity::ApplyingMutation);
    assert_eq!(mutation_activity(PendingMutationKind::File(FileActionKind::Rename)), Activity::ApplyingMutation);
}

#[test]
fn quitting_settles_on_failure_while_a_failure_is_unresolved() {
    let mut quit = QuitState::new();
    assert!(!quit.requested);
    quit.request(true);
    assert_eq!(quit, QuitState { requested: true, final_status: Some(AppExitStatus::Failure) });
    quit.request(false);
    assert_eq!(quit.final_status, Some(AppExitStatus::Success));
}

#[test]
fn the_sidebar_shown_for_the_moment_hides_again_on_leaving() {
    let mut sidebar = SidebarState::new();
    sidebar.leave_tree();
    assert!(sidebar.visible);
    sidebar.overlay_intent = true;
    sidebar.leave_tree();
    assert!(!sidebar.visible);
    sidebar.toggle();
    assert!(sidebar.visible);
}

#[test]
fn the_repository_form_edits_the_active_field() {
    let mut form = RepositoryFormState::new();
    form.set_input("notes".into());
    form.toggle_field();
    assert_eq!(form.active_field, RepositoryFormField::Path);
    form.set_input("/r/notes".into());
    assert_eq!((form.name.as_str(), form.path.as_str()), ("notes", "/r/notes"));
}

#[test]
fn runtime_errors_say_what_failed() {
    assert_eq!(
        RuntimeError::WorkerPanicked { operation: "note load".into() }.message(),
        "background note load worker panicked"
    );
    assert_eq!(
        RuntimeError::Git(GitError::NotWorkTree { path: "/r".into() }).message(),
        "path is not a Git work tree: /r"
    );
}

fn cell_texts(lines: &[Vec<EditorCell>]) -> Vec<Vec<String>> {
    lines.iter().map(|line| line.iter().map(|cell| cell.text.clone()).collect()).collect()
}

#[test]
fn the_editor_pane_cuts_lines_at_line_feeds_and_marks_the_cursor() {
    let lines = editor_lines("ab\ncd", 2, None, &[]);
    assert_eq!(cell_texts(&lines), vec![vec!["a", "b", " "], vec!["c", "d"]]);
    assert!(lines[0][2].cursor && !lines[0][0].cursor);

    let lines = editor_lines("e\u{301}x", 3, Some(0..2), &[]);
    assert_eq!(cell_texts(&lines), vec![vec!["e\u{301}", "x", " "]]);
    assert!(lines[0][0].selected && !lines[0][1].selected);
    assert!(lines[0][2].cursor);

    let style = HighlightStyle { foreground: [1, 2, 3, 255], background: [0, 0, 0, 255], bold: true, italic: false, underline: false };
    let spans = vec![HighlightSpan { range: 1..2, style }];
    let lines = editor_lines("xy", 0, None, &spans);
    assert_eq!(lines[0][0].highlight, None);
    assert_eq!(lines[0][1].highlight, Some(style));
    assert!(lines[0][0].cursor);
    assert_eq!(editor_lines("", 0, None, &[]).len(), 1);
}

#[test]
fn the_editor_pane_scrolls_just_enough_to_show_the_cursor() {
    assert_eq!(editor_scroll("abc", 1, 10, 5), (0, 0));
    let tall = "1\n2\n3\n4\n5\n6";
    assert_eq!(editor_scroll(tall, tall.chars().count(), 10, 3), (3, 0));
    assert_eq!(editor_scroll("abcdefghij", 10, 5, 3), (0, 6));
    assert_eq!(editor_scroll("ab\u{4e2d}", 2, 3, 3), (0, 1));
    assert_eq!(editor_scroll("x", 0, 0, 0), (0, 1));
}

fn all_text(content: &carnet::ui::dialogs::DialogContent) -> String {
    let mut out = content.title.clone();
    for line in &content.lines {
        match line {
            DialogLine::Text { text, .. } | DialogLine::Selected(text) | DialogLine::Muted(text) => out.push_str(text),
            DialogLine::Choices(choices) => {
                for (key, label) in choices {
                    out.push_str(&format!("[{key}] {label}"));
                }
            }
            DialogLine::Blank => {}
        }
        out.push('\n');
    }
    out
}

#[test]
fn repository_dialogs_show_their_fields_and_safe_choices() {
    let create = all_text(&repository_form_content(RepositoryActionKind::Create, "", "", RepositoryFormField::Name));
    for text in ["Create repository", "Repository name", "Directory to create", "[Tab] Switch field"] {
        assert!(create.contains(text), "{create}");
    }
    let register = all_text(&repository_form_content(RepositoryActionKind::Register, "a", "/r", RepositoryFormField::Path));
    for text in ["Register repository", "Repository name: a\n", "Existing directory: /r_", "[Tab] Switch field"] {
        assert!(register.contains(text), "{register}");
    }
    let rename = all_text(&repository_form_content(RepositoryActionKind::Rename, "field-notes", "", RepositoryFormField::Name));
    assert!(rename.contains("Rename registration"));
    assert!(rename.contains("Repository name: field-notes_"));
    assert!(rename.contains("[Enter] Rename"));
    let default = all_text(&confirm_set_default_content("field-notes"));
    assert!(default.contains("Use field-notes as the default repository?"));
    assert!(default.contains("[y/Enter] Set default"));
    let unregister = all_text(&confirm_unregister_content("field-notes"));
    assert!(unregister.contains("Remove field-notes from Carnet's registrations?"));
    assert!(unregister.contains("will not be deleted"));
    assert!(unregister.contains("[y/Enter] Unregister"));
}

#[test]
fn a_mutation_must_belong_to_its_workspace_and_repository() {
    let here = DirectoryIdentity { device: 1, inode: 7 };
    let elsewhere = DirectoryIdentity { device: 1, inode: 8 };
    let create = FileOperation::CreateFile { root: "/r".to_string(), path: "a.md".to_string() };
    assert_eq!(check_mutation_target(&create, "/r", Some(here), here, here), Ok(()));
    assert_eq!(check_mutation_target(&create, "/other", Some(here), here, here), Err(MutationCommitError::WorkspaceMismatch));
    assert_eq!(check_mutation_target(&create, "/r", Some(elsewhere), here, here), Err(MutationCommitError::WorkspaceMismatch));
    assert_eq!(check_mutation_target(&create, "/r", None, here, here), Err(MutationCommitError::WorkspaceMismatch));
    assert_eq!(check_mutation_target(&create, "/r", Some(here), here, elsewhere), Err(MutationCommitError::RepositoryMismatch));
}

#[test]
fn quitting_fails_while_the_home_screen_or_application_has_a_failure() {
    let mut home = carnet::app::home::HomeState::new(Vec::new(), None, None);
    let mut quit = QuitState::new();
    quit.request_for(&home, None, false);
    assert_eq!(quit.final_status, Some(AppExitStatus::Success));
    quit.request_for(&home, None, true);
    assert_eq!(quit.final_status, Some(AppExitStatus::Failure));
    home.catalog_failed("could not write".to_string());
    quit.request_for(&home, None, false);
    assert_eq!(quit.final_status, Some(AppExitStatus::Failure));
    let clean = carnet::app::home::HomeState::new(Vec::new(), None, None);
    let session = carnet::app::session::WorkspaceSession::new(1, "/r".to_string(), None);
    quit.request_for(&clean, Some(&session), false);
    assert_eq!(quit.final_status, Some(AppExitStatus::Success));
}

#[test]
fn choice_lines_read_as_bracketed_keys_with_their_labels() {
    let choices = vec![("s".to_string(), "Save".to_string()), ("Esc".to_string(), "Cancel".to_string())];
    let pieces = choice_pieces(&choices);
    let piece = |text: &str, key: bool| ChoicePiece { text: text.to_string(), key };
    assert_eq!(
        pieces,
        vec![piece("[s]", true), piece(" Save", false), piece("   ", false), piece("[Esc]", true), piece(" Cancel", false)]
    );
    assert!(choice_pieces(&Vec::new()).is_empty());
}
