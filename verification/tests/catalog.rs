use carnet::catalog::{
    parent_directory, valid_name, validate_canonical_repository_path, validate_entries,
    CanonicalProbe, Catalog, CatalogError, CatalogFile, RepoEntry,
};

fn dir(path: &str) -> CanonicalProbe {
    CanonicalProbe::Resolved { canonical: path.to_string(), is_dir: true }
}

fn entry(id: u128, name: &str, path: &str) -> RepoEntry {
    RepoEntry { id, name: name.to_string(), path: path.to_string() }
}

#[test]
fn rejects_registration_of_a_missing_path() {
    let mut catalog = Catalog::create_at("/config/catalog.toml".to_string());
    let error = catalog.register("personal".into(), "/sandbox/missing", &CanonicalProbe::Missing).unwrap_err();
    assert!(matches!(error, CatalogError::RepositoryPathMissing { .. }));
    assert!(catalog.repositories().is_empty());
}

#[test]
fn rejects_a_persisted_catalog_with_a_missing_repository_path() {
    let file = CatalogFile {
        version: 1,
        default_repo_id: Some(7),
        repos: vec![entry(7, "personal", "/sandbox/missing")],
    };
    let error = Catalog::from_file("/config/catalog.toml".into(), file, &vec![CanonicalProbe::Missing])
        .unwrap_err();
    assert!(matches!(error, CatalogError::RepositoryPathMissing { .. }));
}

#[test]
fn rejects_a_persisted_catalog_with_a_non_directory_repository_path() {
    let file = CatalogFile { version: 1, default_repo_id: None, repos: vec![entry(1, "a", "/f")] };
    let probe = CanonicalProbe::Resolved { canonical: "/f".into(), is_dir: false };
    assert!(matches!(
        Catalog::from_file("/c.toml".into(), file, &vec![probe]),
        Err(CatalogError::RepositoryPathNotDirectory { .. })
    ));
}

#[test]
fn rejects_a_persisted_catalog_with_a_non_canonical_repository_path() {
    let file = CatalogFile { version: 1, default_repo_id: None, repos: vec![entry(1, "a", "/x/../r")] };
    assert!(matches!(
        Catalog::from_file("/c.toml".into(), file, &vec![dir("/r")]),
        Err(CatalogError::RepositoryPathNotCanonical { ref path }) if path == "/x/../r"
    ));
}

#[test]
fn loading_checks_version_entries_and_default() {
    let bad_version = CatalogFile { version: 2, default_repo_id: None, repos: Vec::new() };
    assert_eq!(
        Catalog::from_file("/c".into(), bad_version, &Vec::new()).unwrap_err(),
        CatalogError::UnsupportedVersion { found: 2 }
    );
    let dangling = CatalogFile { version: 1, default_repo_id: Some(9), repos: vec![entry(1, "a", "/r")] };
    assert_eq!(
        Catalog::from_file("/c".into(), dangling, &vec![dir("/r")]).unwrap_err(),
        CatalogError::DefaultRepositoryNotSet
    );
    let good = CatalogFile { version: 1, default_repo_id: Some(1), repos: vec![entry(1, "a", "/r")] };
    let catalog = Catalog::from_file("/c".into(), good, &vec![dir("/r")]).unwrap();
    assert_eq!(catalog.resolve_repo(None).unwrap(), entry(1, "a", "/r"));
    let file = catalog.to_file();
    assert_eq!(file.version, 1);
    assert_eq!(file.default_repo_id, Some(1));
    assert_eq!(file.repos, vec![entry(1, "a", "/r")]);
}

#[test]
fn rejects_a_duplicate_registration_name() {
    let mut catalog = Catalog::create_at("/c.toml".into());
    catalog.register("personal".into(), "/r", &dir("/r")).unwrap();
    let error = catalog.register("personal".into(), "/r", &dir("/r")).unwrap_err();
    assert!(matches!(error, CatalogError::DuplicateName { .. }));
    assert_eq!(catalog.repositories().len(), 1);
}

#[test]
fn blank_names_are_refused() {
    let mut catalog = Catalog::create_at("/c.toml".into());
    assert_eq!(catalog.register("  \t".into(), "/r", &dir("/r")).unwrap_err(), CatalogError::EmptyName);
    assert_eq!(catalog.register("".into(), "/r", &dir("/r")).unwrap_err(), CatalogError::EmptyName);
    assert_eq!(valid_name(" x ".into()).unwrap(), " x ");
    assert_eq!(valid_name("\u{3000}".into()).unwrap_err(), CatalogError::EmptyName);
}

#[test]
fn the_first_registration_becomes_the_default() {
    let mut catalog = Catalog::create_at("/c.toml".into());
    let first = catalog.register("personal".into(), "/home/me/notes", &dir("/home/me/notes")).unwrap();
    assert_eq!(first.path, "/home/me/notes");
    assert_eq!(catalog.default_repository_id(), Some(first.id));
    let second = catalog.register("work".into(), "./work", &dir("/home/me/work")).unwrap();
    assert_eq!(second.path, "/home/me/work");
    assert_eq!(catalog.default_repository_id(), Some(first.id));
    assert_eq!(catalog.resolve_repo(Some("work")).unwrap(), second);
    assert_eq!(catalog.resolve_repo(None).unwrap(), first);
}

#[test]
fn rename_set_default_and_unregister_keep_repository_directories_untouched() {
    let mut catalog = Catalog::create_at("/c.toml".into());
    catalog.register("work".into(), "/work", &dir("/work")).unwrap();
    let personal_entry = catalog.register("personal".into(), "/personal", &dir("/personal")).unwrap();
    catalog.rename_registration("personal", "notes".into()).unwrap();
    catalog.set_default("notes").unwrap();

    let removed = catalog.unregister("work").unwrap();

    assert_eq!(removed.name, "work");
    assert_eq!(catalog.resolve_repo(None).unwrap().id, personal_entry.id);
    assert_eq!(catalog.resolve_repo(Some("notes")).unwrap().path, "/personal");
    assert!(matches!(catalog.resolve_repo(Some("personal")), Err(CatalogError::RepositoryNotFound { .. })));
}

#[test]
fn unregistering_the_default_leaves_no_default() {
    let mut catalog = Catalog::create_at("/c.toml".into());
    catalog.register("only".into(), "/r", &dir("/r")).unwrap();
    catalog.unregister("only").unwrap();
    assert_eq!(catalog.default_repository_id(), None);
    assert_eq!(catalog.resolve_repo(None).unwrap_err(), CatalogError::DefaultRepositoryNotSet);
    assert!(matches!(catalog.unregister("only"), Err(CatalogError::RepositoryNotFound { .. })));
}

#[test]
fn renaming_checks_the_new_name() {
    let mut catalog = Catalog::create_at("/c.toml".into());
    catalog.register("a".into(), "/a", &dir("/a")).unwrap();
    catalog.register("b".into(), "/b", &dir("/b")).unwrap();
    assert!(matches!(catalog.rename_registration("a", "b".into()), Err(CatalogError::DuplicateName { .. })));
    assert!(catalog.rename_registration("a", "a".into()).is_ok());
    assert!(matches!(catalog.rename_registration("zzz", "c".into()), Err(CatalogError::RepositoryNotFound { .. })));
    assert_eq!(catalog.rename_registration("a", " ".into()), Err(CatalogError::EmptyName));
    assert!(matches!(catalog.set_default("zzz"), Err(CatalogError::RepositoryNotFound { .. })));
}

#[test]
fn registration_reports_what_resolving_the_path_found() {
    let mut catalog = Catalog::create_at("/c.toml".into());
    let file = CanonicalProbe::Resolved { canonical: "/f".into(), is_dir: false };
    assert!(matches!(
        catalog.register("a".into(), "/f", &file),
        Err(CatalogError::RepositoryPathNotDirectory { ref path }) if path == "/f"
    ));
    assert!(matches!(
        catalog.register("a".into(), "/x", &CanonicalProbe::Failed("denied".into())),
        Err(CatalogError::Io { ref path, ref message }) if path == "/x" && message == "denied"
    ));
}

#[test]
fn entry_validation_reports_the_first_problem() {
    assert!(validate_entries(&vec![entry(1, "a", "/a"), entry(2, "b", "/b")]).is_ok());
    assert_eq!(
        validate_entries(&vec![entry(1, "a", "/a"), entry(2, "a", "/b")]),
        Err(CatalogError::DuplicateName { name: "a".into() })
    );
    assert_eq!(
        validate_entries(&vec![entry(1, "a", "/a"), entry(1, "b", "/b")]),
        Err(CatalogError::DuplicateId { id: 1 })
    );
    assert_eq!(validate_entries(&vec![entry(1, " ", "/a")]), Err(CatalogError::EmptyName));
}

#[test]
fn canonical_checks_compare_the_resolved_path() {
    assert!(validate_canonical_repository_path("/r", &dir("/r")).is_ok());
    assert!(matches!(
        validate_canonical_repository_path("/r/", &dir("/r")),
        Err(CatalogError::RepositoryPathNotCanonical { .. })
    ));
}

#[test]
fn the_catalog_directory_is_the_parent_of_its_file() {
    assert_eq!(parent_directory("/home/me/.config/carnet/catalog.toml"), "/home/me/.config/carnet");
    assert_eq!(parent_directory("catalog.toml"), ".");
    assert_eq!(parent_directory("/"), ".");
    assert_eq!(parent_directory("/catalog.toml"), "/");
}
