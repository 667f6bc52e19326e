use carnet::catalog::{CanonicalProbe, Catalog, CatalogError};
use carnet::cli::{
    resolve_invocation, route, validate_note_path, Cli, CliError, Invocation, Launch, OutputMode,
};

fn cli(repo: Option<&str>, path: bool, print: bool, note: Option<&str>) -> Cli {
    Cli { repo: repo.map(str::to_string), path, print, note_path: note.map(str::to_string) }
}

fn catalog_with(name: &str) -> Catalog {
    let mut catalog = Catalog::create_at("/sandbox/catalog.toml".into());
    let probe = CanonicalProbe::Resolved { canonical: "/sandbox/notes".into(), is_dir: true };
    catalog.register(name.into(), "/sandbox/notes", &probe).unwrap();
    catalog
}

#[test]
fn resolves_path_output_for_a_note_in_a_named_repository() {
    let catalog = catalog_with("work");
    let invocation =
        resolve_invocation(cli(Some("work"), true, false, Some("onboarding.md")), &catalog).unwrap();
    assert!(matches!(
        invocation,
        Invocation::NoteOutput(request)
            if request.mode == OutputMode::Path
                && request.note == "onboarding.md"
                && request.repository.name == "work"
    ));
}

#[test]
fn resolves_print_output_for_a_note_in_the_default_repository() {
    let catalog = catalog_with("personal");
    let invocation =
        resolve_invocation(cli(None, false, true, Some("onboarding.md")), &catalog).unwrap();
    assert!(matches!(
        invocation,
        Invocation::NoteOutput(request)
            if request.mode == OutputMode::Print
                && request.note == "onboarding.md"
                && request.repository.name == "personal"
    ));
}

#[test]
fn resolves_an_ordinary_invocation_to_the_existing_interactive_launch() {
    let catalog = catalog_with("personal");
    let invocation = resolve_invocation(cli(None, false, false, Some("onboarding.md")), &catalog).unwrap();
    assert!(matches!(
        invocation,
        Invocation::Interactive(Launch::Repository { repository, note })
            if repository.name == "personal" && note.as_deref() == Some("onboarding.md")
    ));
}

#[test]
fn route_rejects_absolute_and_parent_traversal_note_paths() {
    let catalog = catalog_with("personal");
    let absolute = route(cli(None, false, false, Some("/tmp/today.md")), &catalog).unwrap_err();
    let traversal = route(cli(None, false, false, Some("../outside.md")), &catalog).unwrap_err();
    assert!(matches!(absolute, CliError::AbsoluteNotePath { .. }));
    assert!(matches!(traversal, CliError::TraversalNotePath { .. }));
}

#[test]
fn route_reports_missing_named_registrations() {
    let catalog = catalog_with("personal");
    let named_error = route(cli(Some("work"), false, false, None), &catalog).unwrap_err();
    assert!(matches!(named_error, CliError::Catalog(CatalogError::RepositoryNotFound { .. })));
}

#[test]
fn no_arguments_enters_home_even_without_a_default_repository() {
    let catalog = Catalog::create_at("/sandbox/catalog.toml".into());
    let launch = route(cli(None, false, false, None), &catalog).unwrap();
    assert_eq!(launch, Launch::Home { selected_repository: None, pending_note: None });
}

#[test]
fn a_note_without_a_default_enters_home_and_preserves_the_pending_path() {
    let catalog = Catalog::create_at("/sandbox/catalog.toml".into());
    let launch = route(cli(None, false, false, Some("inbox/today.md")), &catalog).unwrap();
    assert_eq!(
        launch,
        Launch::Home { selected_repository: None, pending_note: Some("inbox/today.md".into()) }
    );
}

#[test]
fn no_arguments_selects_the_default_repository_at_home() {
    let catalog = catalog_with("personal");
    let default = catalog.default_repository_id();
    assert!(default.is_some());
    assert_eq!(
        route(cli(None, false, false, None), &catalog).unwrap(),
        Launch::Home { selected_repository: default, pending_note: None }
    );
}

#[test]
fn output_modes_need_a_note_and_a_repository() {
    let catalog = Catalog::create_at("/sandbox/catalog.toml".into());
    assert_eq!(
        resolve_invocation(cli(None, true, false, None), &catalog).unwrap_err(),
        CliError::OutputNoteRequired
    );
    assert_eq!(
        resolve_invocation(cli(None, false, true, Some("n.md")), &catalog).unwrap_err(),
        CliError::Catalog(CatalogError::DefaultRepositoryNotSet)
    );
    assert!(matches!(
        resolve_invocation(cli(None, true, false, Some("../n.md")), &catalog).unwrap_err(),
        CliError::TraversalNotePath { .. }
    ));
}

#[test]
fn note_paths_from_the_command_line_must_stay_inside() {
    assert!(validate_note_path("notes/today.md").is_ok());
    assert!(validate_note_path("./today.md").is_ok());
    assert!(validate_note_path("a/..b/c").is_ok());
    assert!(matches!(validate_note_path("a/../b"), Err(CliError::TraversalNotePath { .. })));
    assert!(matches!(validate_note_path("/abs"), Err(CliError::AbsoluteNotePath { .. })));
}
