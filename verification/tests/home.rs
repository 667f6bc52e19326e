use carnet::app::home::RepositoryDialog;
use carnet::app::keymap::{HomeAction, RepositoryActionKind, RepositoryFormField};
use carnet::app::state::{RuntimeFailure, RuntimeOperation};
use carnet::ui::home_view::{home_lines, HomeLineStyle};
use carnet::app::home::{
    CatalogSnapshot, DefaultChoiceState, HomeEffect, HomeState, RepositoryAvailability,
};
use carnet::app::ids::RequestId;
use carnet::catalog::RepoEntry;

fn repository(id: u128, name: &str) -> RepoEntry {
    RepoEntry { id, name: name.to_string(), path: format!("/repos/{name}") }
}

fn opened(effect: &HomeEffect) -> (RequestId, RepoEntry, Option<String>) {
    match effect {
        HomeEffect::OpenWorkspace { request_id, repository, note } => {
            (*request_id, repository.clone(), note.clone())
        }
        other => panic!("expected an open, got {other:?}"),
    }
}

#[test]
fn home_selection_moves_within_the_list_and_opening_asks_for_the_selected_repository() {
    let first = repository(1, "first");
    let second = repository(2, "second");
    let mut home = HomeState::new(vec![first.clone(), second.clone()], Some(first.id), None);
    assert_eq!(home.selected, Some(0));
    home.down();
    home.up();
    assert_eq!(home.selected, Some(0));
    home.up();
    assert_eq!(home.selected, Some(0));
    home.down();
    home.down();
    assert_eq!(home.selected, Some(1));
    let effects = home.open_selected();
    assert_eq!(effects.len(), 1);
    let (_, repository, note) = opened(&effects[0]);
    assert_eq!(repository, second);
    assert_eq!(note, None);
    assert!(home.pending_open.is_some());
}

#[test]
fn home_selects_the_default_or_else_the_first_repository() {
    let a = repository(1, "a");
    let b = repository(2, "b");
    assert_eq!(HomeState::new(vec![a.clone(), b.clone()], Some(2), None).selected, Some(1));
    assert_eq!(HomeState::new(vec![a.clone(), b.clone()], Some(9), None).selected, Some(0));
    assert_eq!(HomeState::new(vec![a, b], None, None).selected, Some(0));
    assert_eq!(HomeState::new(Vec::new(), None, None).selected, None);
    let home = HomeState::new(vec![repository(3, "c")], None, None);
    assert_eq!(home.repository_availability, vec![RepositoryAvailability::Available]);
    assert_eq!(home.default_choice, DefaultChoiceState::NotNeeded);
}

#[test]
fn home_choosing_a_default_keeps_the_note_until_the_workspace_opens() {
    let chosen = repository(7, "chosen");
    let mut home = HomeState::new(vec![chosen.clone()], None, Some("inbox/today.md".to_string()));
    assert_eq!(home.default_choice, DefaultChoiceState::AwaitingSelection);

    let effects = home.choose_selected_as_default();
    assert!(matches!(&effects[..], [HomeEffect::SetDefaultRepository { repository_id }] if *repository_id == 7));
    assert_eq!(home.default_repository, None);
    assert_eq!(home.default_choice, DefaultChoiceState::AwaitingSelection);
    assert_eq!(home.pending_note.as_deref(), Some("inbox/today.md"));
    assert!(home.pending_open.is_none());

    let effects = home.catalog_changed(CatalogSnapshot {
        repositories: vec![chosen.clone()],
        default_repository: Some(7),
        selected_repository: Some(7),
    });
    assert_eq!(home.default_repository, Some(7));
    assert_eq!(
        home.default_choice,
        DefaultChoiceState::ResumingPendingNote { repository_id: 7, note: "inbox/today.md".to_string() }
    );
    let (request_id, repository, note) = opened(&effects[0]);
    assert_eq!(repository, chosen);
    assert_eq!(note.as_deref(), Some("inbox/today.md"));

    assert!(home.workspace_opened(request_id, &chosen));
    assert_eq!(home.pending_note, None);
    assert_eq!(home.default_choice, DefaultChoiceState::NotNeeded);
    assert!(home.pending_open.is_none());
}

#[test]
fn home_enter_with_a_waiting_note_records_the_default_before_opening() {
    let chosen = repository(70, "chosen");
    let mut home = HomeState::new(vec![chosen], None, Some("inbox/today.md".to_string()));
    let effects = home.open_selected();
    assert!(matches!(&effects[..], [HomeEffect::SetDefaultRepository { repository_id }] if *repository_id == 70));
    assert_eq!(home.default_repository, None);
    assert_eq!(home.pending_note.as_deref(), Some("inbox/today.md"));
    assert!(home.pending_open.is_none());
}

#[test]
fn home_failed_catalog_save_keeps_the_default_and_the_note() {
    let first = repository(71, "first");
    let chosen = repository(72, "chosen");
    let mut home = HomeState::new(vec![first, chosen], Some(71), Some("pending.md".to_string()));
    home.selected = Some(1);
    home.choose_selected_as_default();
    home.catalog_failed("catalog save failed".to_string());
    assert_eq!(home.default_repository, Some(71));
    assert_eq!(home.pending_note.as_deref(), Some("pending.md"));
    assert!(home.pending_open.is_none());
    assert_eq!(home.catalog_failure.as_deref(), Some("catalog save failed"));
}

#[test]
fn home_opening_the_default_resumes_its_note() {
    let default = repository(6, "default");
    let mut home = HomeState::new(vec![default.clone()], Some(6), Some("today.md".to_string()));
    let effects = home.open_selected();
    assert_eq!(
        home.default_choice,
        DefaultChoiceState::ResumingPendingNote { repository_id: 6, note: "today.md".to_string() }
    );
    let (_, repository, note) = opened(&effects[0]);
    assert_eq!(repository, default);
    assert_eq!(note.as_deref(), Some("today.md"));
}

#[test]
fn home_catalog_rename_or_unregister_drops_the_open_in_flight() {
    let original = repository(73, "original");
    for repositories in [Vec::new(), vec![RepoEntry { id: 73, name: "renamed".to_string(), path: "/repos/original".to_string() }]] {
        let mut home = HomeState::new(vec![original.clone()], Some(73), None);
        let effects = home.open_selected();
        let (request_id, _, _) = opened(&effects[0]);
        home.catalog_changed(CatalogSnapshot { repositories, default_repository: None, selected_repository: None });
        assert!(home.pending_open.is_none());
        assert!(!home.workspace_opened(request_id, &original));
    }
}

#[test]
fn home_unchanged_registration_keeps_the_open_in_flight() {
    let notes = repository(75, "notes");
    let mut home = HomeState::new(vec![notes.clone()], Some(75), None);
    let effects = home.open_selected();
    let (request_id, _, _) = opened(&effects[0]);
    home.catalog_changed(CatalogSnapshot {
        repositories: vec![repository(76, "other"), notes.clone()],
        default_repository: Some(75),
        selected_repository: Some(76),
    });
    assert_eq!(home.selected, Some(0));
    assert!(home.pending_open.is_some());
    assert!(!home.workspace_opened(RequestId::new(request_id.get() + 1), &notes));
    assert!(home.workspace_opened(request_id, &notes));
}

#[test]
fn home_pending_open_refuses_a_new_default() {
    let notes = repository(74, "notes");
    let mut home = HomeState::new(vec![notes], Some(74), Some("n.md".to_string()));
    home.open_selected();
    assert!(home.choose_selected_as_default().is_empty());
}

#[test]
fn home_failed_open_marks_the_repository_unavailable() {
    let a = repository(1, "a");
    let b = repository(2, "b");
    let mut home = HomeState::new(vec![a, b], Some(2), None);
    let effects = home.open_selected();
    let (request_id, _, _) = opened(&effects[0]);
    assert!(!home.open_failed(RequestId::new(request_id.get() + 1), "late".to_string()));
    assert!(home.open_failed(request_id, "repository path is not canonical: /r/b".to_string()));
    assert_eq!(
        home.open_failure,
        Some(RuntimeFailure {
            request_id: Some(request_id),
            repository_id: 2,
            operation: RuntimeOperation::OpenWorkspace,
            message: "repository path is not canonical: /r/b".to_string(),
        })
    );
    assert!(home.has_unresolved_failures());
    assert_eq!(
        home.repository_availability,
        vec![RepositoryAvailability::Available, RepositoryAvailability::MissingOrInvalid]
    );
    assert!(home.pending_open.is_none());
}

#[test]
fn the_home_screen_lists_each_repository_in_columns() {
    let repositories = vec![
        carnet::catalog::RepoEntry { id: 1, name: "notes".into(), path: "/r/notes".into() },
        carnet::catalog::RepoEntry { id: 2, name: "journal".into(), path: "/r/journal".into() },
    ];
    let home = carnet::app::home::HomeState::new(repositories, Some(2), Some("a.md".into()));
    let lines = home_lines(&home);
    assert_eq!(lines[0].text, "  Registered repositories");
    assert_eq!(lines[0].style, HomeLineStyle::Bold);
    assert_eq!(lines[1].text, "   notes                        ready               /r/notes");
    assert_eq!(lines[1].style, HomeLineStyle::Plain);
    assert_eq!(lines[2].text, " > journal             default  ready               /r/journal");
    assert_eq!(lines[2].style, HomeLineStyle::Selected);
    assert_eq!(lines[3].text, "");
    assert_eq!(lines[4].text, "  Pending note: a.md");
    assert_eq!(lines.len(), 5);
}

#[test]
fn an_empty_home_screen_says_how_to_start() {
    let home = carnet::app::home::HomeState::new(Vec::new(), None, Some("a.md".into()));
    let lines = home_lines(&home);
    assert_eq!(lines[1].text, "  No repositories registered yet.");
    assert_eq!(lines.len(), 7);
    assert_eq!(lines[6].text, "  Choose a repository to resume: a.md");
    assert_eq!(lines[6].style, HomeLineStyle::Warning);
}

#[test]
fn repository_actions_open_their_dialogs_unless_an_open_is_in_flight() {
    let notes = repository(5, "field-notes");
    let mut home = HomeState::new(vec![notes.clone()], Some(5), None);
    assert_eq!(home.next_request_id, 1);
    match home.repository_dialog(HomeAction::RenameSelected) {
        Some(RepositoryDialog::Form { kind, form }) => {
            assert_eq!(kind, RepositoryActionKind::Rename);
            assert_eq!(form.name, "field-notes");
            assert_eq!(form.active_field, RepositoryFormField::Name);
        }
        other => panic!("expected the rename form, got {other:?}"),
    }
    match home.repository_dialog(HomeAction::CreateRepository) {
        Some(RepositoryDialog::Form { kind, form }) => {
            assert_eq!(kind, RepositoryActionKind::Create);
            assert!(form.name.is_empty() && form.path.is_empty());
        }
        other => panic!("expected the create form, got {other:?}"),
    }
    assert!(matches!(
        home.repository_dialog(HomeAction::UnregisterSelected),
        Some(RepositoryDialog::ConfirmUnregister { repository }) if repository == notes
    ));
    assert!(home.repository_dialog(HomeAction::Down).is_none());
    home.open_selected();
    assert!(home.repository_dialog(HomeAction::SetDefaultSelected).is_none());
    assert!(HomeState::new(Vec::new(), None, None).repository_dialog(HomeAction::SetDefaultSelected).is_none());
}
