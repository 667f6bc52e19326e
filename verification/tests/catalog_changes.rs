use carnet::catalog::{CanonicalProbe, Catalog, CatalogError, CatalogFile, RepoEntry};
use carnet::cli::Launch;
use carnet::runtime::initial_home;
use carnet::runtime::catalog::{
    default_draft, lexical_absolute, register_draft, rename_draft, repository_name, snapshot_after,
    unregister_draft, validate_new_name,
};

fn dir(path: &str) -> CanonicalProbe {
    CanonicalProbe::Resolved { canonical: path.to_string(), is_dir: true }
}

fn two_repositories() -> Catalog {
    let file = CatalogFile {
        version: 1,
        default_repo_id: Some(1),
        repos: vec![
            RepoEntry { id: 1, name: "notes".into(), path: "/r/notes".into() },
            RepoEntry { id: 2, name: "journal".into(), path: "/r/journal".into() },
        ],
    };
    Catalog::from_file("/c.toml".into(), file, &vec![dir("/r/notes"), dir("/r/journal")]).unwrap()
}

#[test]
fn a_new_name_must_be_neither_blank_nor_taken() {
    let catalog = two_repositories();
    assert_eq!(validate_new_name(&catalog, "  \t"), Err(CatalogError::EmptyName));
    assert_eq!(validate_new_name(&catalog, "journal"), Err(CatalogError::DuplicateName { name: "journal".into() }));
    assert_eq!(validate_new_name(&catalog, "work"), Ok(()));
}

#[test]
fn an_unknown_id_is_reported_by_its_uuid() {
    let catalog = two_repositories();
    assert_eq!(repository_name(&catalog, 2), Ok("journal".to_owned()));
    assert_eq!(
        repository_name(&catalog, 3),
        Err("repository ID 00000000-0000-0000-0000-000000000003 is not registered".to_owned())
    );
}

#[test]
fn drafts_leave_the_catalog_itself_unchanged() {
    let catalog = two_repositories();
    let draft = default_draft(&catalog, 2).unwrap();
    assert_eq!(draft.default_repository_id(), Some(2));
    assert_eq!(catalog.default_repository_id(), Some(1));

    let renamed = rename_draft(&catalog, 2, "diary".into()).unwrap();
    assert_eq!(renamed.repositories()[1].name, "diary");
    assert_eq!(catalog.repositories()[1].name, "journal");
    assert_eq!(
        rename_draft(&catalog, 2, "notes".into()).err(),
        Some("a repository named \"notes\" is already registered".to_owned())
    );
    assert_eq!(rename_draft(&catalog, 2, "journal".into()).unwrap().repositories()[1].name, "journal");

    let without = unregister_draft(&catalog, 1).unwrap();
    assert_eq!(without.repositories().len(), 1);
    assert_eq!(without.default_repository_id(), None);
    assert_eq!(catalog.repositories().len(), 2);
    assert!(unregister_draft(&catalog, 9).is_err());
}

#[test]
fn registering_on_a_draft_keeps_the_default() {
    let catalog = two_repositories();
    let (draft, entry) = register_draft(&catalog, "work".into(), "/r/work", &dir("/r/work")).unwrap();
    assert_eq!(entry.name, "work");
    assert_eq!(entry.path, "/r/work");
    assert_eq!(draft.repositories().len(), 3);
    assert_eq!(draft.default_repository_id(), Some(1));
    assert_eq!(catalog.repositories().len(), 2);
    assert_eq!(
        register_draft(&catalog, " ".into(), "/r/work", &dir("/r/work")).err(),
        Some("repository name must not be empty".to_owned())
    );
}

#[test]
fn the_snapshot_selects_a_registered_repository_or_the_default() {
    let catalog = two_repositories();
    let snapshot = snapshot_after(&catalog, 2);
    assert_eq!(snapshot.selected_repository, Some(2));
    assert_eq!(snapshot.default_repository, Some(1));
    assert_eq!(snapshot.repositories.len(), 2);
    assert_eq!(snapshot_after(&catalog, 42).selected_repository, Some(1));
}

#[test]
fn repository_paths_are_made_absolute_and_normalized_by_text() {
    assert_eq!(lexical_absolute("notes", "/home/me"), Ok("/home/me/notes".to_owned()));
    assert_eq!(lexical_absolute("./a/../b/", "/home/me"), Ok("/home/me/b".to_owned()));
    assert_eq!(lexical_absolute("/srv//x/./y/..", "/home/me"), Ok("/srv/x".to_owned()));
    assert_eq!(lexical_absolute("/", "/home/me"), Ok("/".to_owned()));
    assert_eq!(lexical_absolute("../..", "/home"), Err("repository path traverses above its root".to_owned()));
}

#[test]
fn a_launch_on_the_home_screen_selects_the_repository_it_names() {
    let catalog = two_repositories();
    let (home, open) = initial_home(&catalog, Launch::Home { selected_repository: Some(2), pending_note: None });
    assert!(open.is_none());
    assert_eq!(home.selected, Some(1));
    assert_eq!(home.default_repository, Some(1));

    let (home, _) = initial_home(&catalog, Launch::Home { selected_repository: Some(9), pending_note: None });
    assert_eq!(home.selected, None);

    let (home, _) = initial_home(&catalog, Launch::Home { selected_repository: None, pending_note: Some("a.md".into()) });
    assert_eq!(home.selected, Some(0));
    assert_eq!(home.pending_note.as_deref(), Some("a.md"));
}

#[test]
fn a_launch_into_a_repository_opens_it_over_the_home_screen() {
    let catalog = two_repositories();
    let journal = RepoEntry { id: 2, name: "journal".into(), path: "/r/journal".into() };
    let (home, open) = initial_home(
        &catalog,
        Launch::Repository { repository: journal.clone(), note: Some("today.md".into()) },
    );
    assert_eq!(open, Some((journal, Some("today.md".to_owned()))));
    assert_eq!(home.selected, Some(0));
    assert!(home.pending_note.is_none());
}

#[test]
fn an_unknown_id_is_written_in_lower_case_hexadecimal_groups() {
    let catalog = two_repositories();
    assert_eq!(
        repository_name(&catalog, 0xa1a2a3a4b1b2c1c2d1d2d3d4d5d6d7d8),
        Err("repository ID a1a2a3a4-b1b2-c1c2-d1d2-d3d4d5d6d7d8 is not registered".to_owned())
    );
}
