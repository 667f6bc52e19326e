use carnet::workspace::files::{
    bytes_are_text, check_create, check_delete, check_relocate, load_from_read, plan_save,
    verify_unchanged, DiskRead, FileError, LoadedNote, NewlineStyle,
};
use carnet::workspace::paths::{
    join_components, lexical_components, path_components, resolve_walk, NotePath, PathError,
    Probe,
};
use carnet::workspace::tree::{
    assemble_directory, directory_entries, ignore_verdict, visible_tree, ListedEntry, TreeEntry,
    TreeEntryKind,
};

fn path(root: &str, relative: &str) -> NotePath {
    NotePath::new(root.to_string(), relative.to_string())
}

fn decode(relative: &str, bytes: &[u8]) -> Result<LoadedNote, FileError> {
    LoadedNote::decode(path("/repo", relative), bytes, None)
}

#[test]
fn rejects_absolute_traversal_and_git_note_paths() {
    let cases = [
        ("/tmp/outside.md", "absolute"),
        ("../outside.md", "traversal"),
        ("notes/../../outside.md", "traversal"),
        (".git/config", "git"),
        ("notes/.git/config", "git"),
    ];
    for (candidate, kind) in cases {
        let error = lexical_components(candidate).unwrap_err();
        assert_eq!(error.kind(), kind, "path: {candidate}");
        assert!(matches!(
            error,
            PathError::Absolute { .. } | PathError::Traversal { .. } | PathError::GitMetadata { .. }
        ));
    }
}

#[test]
fn rejects_git_metadata_components_case_insensitively() {
    for candidate in [".GIT/config", "notes/.Git/index", "nested/.gIt/HEAD"] {
        assert!(matches!(lexical_components(candidate), Err(PathError::GitMetadata { .. })));
    }
}

#[test]
fn lexical_components_drop_empty_and_current_segments() {
    let parts = lexical_components("./notes//today/./plan.md/").unwrap();
    assert_eq!(parts, vec!["notes".to_string(), "today".to_string(), "plan.md".to_string()]);
    assert_eq!(join_components(&parts), "notes/today/plan.md");
    assert_eq!(path_components(""), Vec::<String>::new());
    assert_eq!(lexical_components(".gitignore").unwrap(), vec![".gitignore".to_string()]);
    assert_eq!(lexical_components("a/.github/x").unwrap().len(), 3);
}

#[test]
fn the_first_refused_component_decides_the_error() {
    assert!(matches!(lexical_components(".git/../x"), Err(PathError::GitMetadata { .. })));
    assert!(matches!(lexical_components("../.git/x"), Err(PathError::Traversal { .. })));
}

#[test]
fn path_error_kinds_name_every_variant() {
    let p = || "p".to_string();
    assert_eq!(PathError::DirectoryTarget { path: p() }.kind(), "directory");
    assert_eq!(PathError::Symlink { path: p() }.kind(), "symlink");
    assert_eq!(PathError::RootChanged { path: p() }.kind(), "root-changed");
    assert_eq!(PathError::Io { path: p(), message: p() }.kind(), "io");
}

#[test]
fn rejects_directory_targets_and_symlink_components() {
    let parts = lexical_components("folder").unwrap();
    let directory = resolve_walk(&parts, &vec![Probe::Found(TreeEntryKind::Directory)], false);
    assert!(matches!(directory, Err(PathError::DirectoryTarget { ref path }) if path == "folder"));
    let allowed = resolve_walk(&parts, &vec![Probe::Found(TreeEntryKind::Directory)], true).unwrap();
    assert_eq!(allowed.metadata, Some(TreeEntryKind::Directory));

    let parts = lexical_components("link/note.md").unwrap();
    let probes = vec![Probe::Found(TreeEntryKind::Symlink), Probe::Missing];
    assert!(matches!(
        resolve_walk(&parts, &probes, false),
        Err(PathError::Symlink { ref path }) if path == "link"
    ));

    let empty = lexical_components(".").unwrap();
    assert!(matches!(resolve_walk(&empty, &Vec::new(), true), Err(PathError::DirectoryTarget { .. })));
}

#[test]
fn resolving_reports_what_is_at_the_target() {
    let parts = lexical_components("notes/today.md").unwrap();
    let missing = resolve_walk(&parts, &vec![Probe::Missing, Probe::Missing], false).unwrap();
    assert_eq!(missing.relative, "notes/today.md");
    assert_eq!(missing.metadata, None);
    let found = resolve_walk(
        &parts,
        &vec![Probe::Found(TreeEntryKind::Directory), Probe::Found(TreeEntryKind::File)],
        false,
    )
    .unwrap();
    assert_eq!(found.metadata, Some(TreeEntryKind::File));
    let failed = resolve_walk(&parts, &vec![Probe::Failed("denied".into()), Probe::Missing], false);
    assert!(matches!(
        failed,
        Err(PathError::Io { ref path, ref message }) if path == "notes" && message == "denied"
    ));
}

#[test]
fn loads_utf8_notes_with_round_trip_metadata_and_keeps_missing_notes_unsaved() {
    let bom_crlf = decode("bom.md", b"\xef\xbb\xbfone\r\ntwo\r\n").unwrap();
    assert_eq!(bom_crlf.text(), "one\ntwo\n");
    assert!(bom_crlf.has_bom());
    assert_eq!(bom_crlf.newline_style(), NewlineStyle::CrLf);
    assert!(bom_crlf.had_final_newline());
    assert!(bom_crlf.is_saved());

    let plain = decode("plain.md", b"plain").unwrap();
    assert_eq!(plain.text(), "plain");
    assert!(!plain.has_bom());
    assert_eq!(plain.newline_style(), NewlineStyle::Lf);
    assert!(!plain.had_final_newline());

    let missing = load_from_read(path("/repo", "missing.md"), DiskRead::Missing, None).unwrap();
    assert!(!missing.is_saved());
    assert_eq!(missing.text(), "");
    assert_eq!(missing.content_hash(), None);
}

#[test]
fn load_rejects_binary_and_invalid_utf8_files_with_typed_errors() {
    assert!(matches!(
        decode("binary.bin", b"a\0b"),
        Err(FileError::Binary { ref path }) if path == "/repo/binary.bin"
    ));
    assert!(matches!(
        decode("invalid.md", &[0xff, 0xfe]),
        Err(FileError::InvalidUtf8 { ref path }) if path == "/repo/invalid.md"
    ));
    assert!(matches!(
        load_from_read(path("/repo/", "x.md"), DiskRead::Failed("denied".into()), None),
        Err(FileError::Io { ref path, ref message }) if path == "/repo/x.md" && message == "denied"
    ));
}

#[test]
fn bytes_are_text_accepts_utf8_after_a_byte_order_mark_only() {
    assert!(bytes_are_text(b"hello"));
    assert!(bytes_are_text(b"\xef\xbb\xbfhello"));
    assert!(bytes_are_text(b""));
    assert!(bytes_are_text("caf\u{e9}".as_bytes()));
    assert!(!bytes_are_text(b"nul\0byte"));
    assert!(!bytes_are_text(&[0xc3]));
    assert!(!bytes_are_text(b"\xef\xbb"));
}

#[test]
fn the_content_digest_is_sha256_of_the_file_bytes() {
    let note = decode("abc.md", b"abc").unwrap();
    let expected: [u8; 32] = [
        0xba, 0x78, 0x16, 0xbf, 0x8f, 0x01, 0xcf, 0xea, 0x41, 0x41, 0x40, 0xde, 0x5d, 0xae, 0x22,
        0x23, 0xb0, 0x03, 0x61, 0xa3, 0x96, 0x17, 0x7a, 0x9c, 0xb4, 0x10, 0xff, 0x61, 0xf2, 0x00,
        0x15, 0xad,
    ];
    assert_eq!(note.content_hash(), Some(expected));
}

#[test]
fn saving_keeps_the_byte_order_mark_line_endings_and_final_newline() {
    let note = decode("n.md", b"\xef\xbb\xbfa\r\nb\r\n").unwrap();
    assert_eq!(note.encode("a\nb\nc"), b"\xef\xbb\xbfa\r\nb\r\nc\r\n".to_vec());
    let no_final = decode("n.md", b"x\ny").unwrap();
    assert_eq!(no_final.encode("x\ny\n\n\n"), b"x\ny".to_vec());
    let unsaved = load_from_read(path("/repo", "new.md"), DiskRead::Missing, None).unwrap();
    assert_eq!(unsaved.encode("one\r\ntwo"), b"one\ntwo".to_vec());
}

#[test]
fn what_saving_writes_loads_back_as_the_saved_text() {
    let crlf = decode("n.md", b"\xef\xbb\xbfa\r\nb\r\n").unwrap();
    for content in ["a\nb\n", "new text", "", "\u{feff}lead\n"] {
        let bytes = crlf.encode(content);
        let reloaded = decode("n.md", &bytes).unwrap();
        let expected = if content.ends_with('\n') { content.to_string() } else { format!("{content}\n") };
        assert_eq!(reloaded.text(), expected);
        assert!(reloaded.has_bom());
        assert_eq!(reloaded.newline_style(), NewlineStyle::CrLf);
    }
    let lf = decode("n.md", b"x").unwrap();
    let reloaded = decode("n.md", &lf.encode("one\ntwo\n")).unwrap();
    assert_eq!(reloaded.text(), "one\ntwo");
    assert_eq!(reloaded.newline_style(), NewlineStyle::Lf);
}

#[test]
fn save_reports_external_modification_and_deletion_conflicts_unless_overwritten() {
    let note = decode("modified.md", b"loaded").unwrap();
    let changed = DiskRead::Bytes(b"external".to_vec());
    assert!(matches!(
        plan_save(&note, "mine", false, &changed),
        Err(FileError::ExternalModification { ref path }) if path == "modified.md"
    ));
    assert_eq!(plan_save(&note, "mine", true, &changed).unwrap(), b"mine".to_vec());
    assert!(matches!(
        plan_save(&note, "mine", false, &DiskRead::Missing),
        Err(FileError::ExternalDeletion { ref path }) if path == "modified.md"
    ));
    assert_eq!(plan_save(&note, "mine", false, &DiskRead::Bytes(b"loaded".to_vec())).unwrap(), b"mine".to_vec());

    let unsaved = load_from_read(path("/repo", "new.md"), DiskRead::Missing, None).unwrap();
    assert!(verify_unchanged(&unsaved, "/repo/new.md", &DiskRead::Missing).is_ok());
    assert!(matches!(
        verify_unchanged(&unsaved, "/repo/new.md", &DiskRead::Bytes(Vec::new())),
        Err(FileError::ExternalModification { .. })
    ));
    assert!(matches!(
        verify_unchanged(&note, "/repo/modified.md", &DiskRead::Failed("eio".into())),
        Err(FileError::Io { ref path, .. }) if path == "/repo/modified.md"
    ));
}

#[test]
fn file_operations_check_their_targets() {
    assert!(check_create("new.md", false).is_ok());
    assert!(matches!(check_create("new.md", true), Err(FileError::AlreadyExists { .. })));
    assert!(check_relocate("a", true, "b", false).is_ok());
    assert!(matches!(check_relocate("a", false, "b", false), Err(FileError::Missing { ref path }) if path == "a"));
    assert!(matches!(check_relocate("a", true, "b", true), Err(FileError::AlreadyExists { ref path }) if path == "b"));
    assert!(matches!(check_delete("x", false, "x", true), Err(FileError::ConfirmationRequired { .. })));
    assert!(matches!(check_delete("x", true, "x", false), Err(FileError::Missing { .. })));
    assert!(check_delete("x", true, "x", true).is_ok());
}

fn listed(name: &str, relative: &str, kind: TreeEntryKind, ignored: bool) -> ListedEntry {
    ListedEntry {
        name: name.to_string(),
        ignored,
        entry: TreeEntry::new(relative.to_string(), kind, kind != TreeEntryKind::Symlink, Vec::new()),
    }
}

#[test]
fn tree_hides_git_and_ignored_paths_and_lists_directories_first() {
    let entries = assemble_directory(vec![
        listed("zeta.md", "zeta.md", TreeEntryKind::File, false),
        listed(".git", ".git", TreeEntryKind::Directory, false),
        listed("link", "link", TreeEntryKind::Symlink, false),
        listed("build", "build", TreeEntryKind::Directory, true),
        listed("alpha.md", "alpha.md", TreeEntryKind::File, false),
        listed("docs", "docs", TreeEntryKind::Directory, false),
    ]);
    let shown: Vec<(&str, TreeEntryKind)> =
        entries.iter().map(|entry| (entry.path(), entry.kind())).collect();
    assert_eq!(
        shown,
        vec![
            ("docs", TreeEntryKind::Directory),
            ("alpha.md", TreeEntryKind::File),
            ("zeta.md", TreeEntryKind::File),
            ("link", TreeEntryKind::Symlink),
        ]
    );
    assert!(!entries[3].is_enabled());
}

#[test]
fn git_ignore_verdicts_follow_the_exit_status() {
    assert_eq!(ignore_verdict(Some(0), String::new()), Ok(true));
    assert_eq!(ignore_verdict(Some(1), String::new()), Ok(false));
    assert_eq!(ignore_verdict(Some(128), String::new()), Ok(false));
    assert_eq!(ignore_verdict(Some(2), "fatal".into()), Err("fatal".to_string()));
    assert_eq!(ignore_verdict(None, "killed".into()), Err("killed".to_string()));
}

fn sample_tree() -> Vec<TreeEntry> {
    vec![
        TreeEntry::new(
            "docs".into(),
            TreeEntryKind::Directory,
            true,
            vec![
                TreeEntry::new(
                    "docs/deep".into(),
                    TreeEntryKind::Directory,
                    true,
                    vec![TreeEntry::new("docs/deep/x.md".into(), TreeEntryKind::File, true, Vec::new())],
                ),
                TreeEntry::new("docs/a.md".into(), TreeEntryKind::File, true, Vec::new()),
            ],
        ),
        TreeEntry::new("readme.md".into(), TreeEntryKind::File, true, Vec::new()),
        TreeEntry::new("image.png".into(), TreeEntryKind::File, false, Vec::new()),
    ]
}

#[test]
fn visible_tree_shows_expanded_directories_below_their_rows() {
    let tree = sample_tree();
    let collapsed = visible_tree(&tree, &Vec::new());
    let paths: Vec<&str> = collapsed.iter().map(|row| row.path.as_str()).collect();
    assert_eq!(paths, vec!["docs", "readme.md", "image.png"]);

    let expanded = visible_tree(&tree, &vec!["docs".to_string(), "docs/deep".to_string()]);
    let rows: Vec<(&str, Option<&str>)> =
        expanded.iter().map(|row| (row.path.as_str(), row.parent.as_deref())).collect();
    assert_eq!(
        rows,
        vec![
            ("docs", None),
            ("docs/deep", Some("docs")),
            ("docs/deep/x.md", Some("docs/deep")),
            ("docs/a.md", Some("docs")),
            ("readme.md", None),
            ("image.png", None),
        ]
    );
    assert!(!expanded[5].enabled);
}

#[test]
fn directory_entries_find_a_directory_anywhere_in_the_tree() {
    let tree = sample_tree();
    assert_eq!(directory_entries(&tree, "").len(), 3);
    let deep: Vec<&str> = directory_entries(&tree, "docs/deep").iter().map(|e| e.path()).collect();
    assert_eq!(deep, vec!["docs/deep/x.md"]);
    assert_eq!(directory_entries(&tree, "docs").len(), 2);
    assert!(directory_entries(&tree, "nowhere").is_empty());
    assert!(directory_entries(&tree, "readme.md").is_empty());
}

#[test]
fn note_paths_know_their_absolute_location() {
    assert_eq!(path("/repo", "a/b.md").absolute(), "/repo/a/b.md");
    assert_eq!(path("/", "b.md").absolute(), "/b.md");
    assert_eq!(path("", "b.md").absolute(), "b.md");
}

#[test]
fn hostile_components_never_resolve_inside_or_outside_the_root() {
    let befores: [&[&str]; 3] = [&[], &["a"], &["notes", "deep_2"]];
    let afters: [&[&str]; 3] = [&[], &["x"], &["y-1", "z"]];
    for before in befores {
        for after in afters {
            for hostile in ["..", ".git", ".GiT", ".GIT"] {
                let mut parts: Vec<&str> = before.to_vec();
                parts.push(hostile);
                parts.extend_from_slice(after);
                parts.push("note.md");
                let path = parts.join("/");
                assert!(lexical_components(&path).is_err(), "{path} resolved");
            }
        }
    }
    assert!(matches!(lexical_components("/etc/passwd"), Err(PathError::Absolute { .. })));
    let parts = lexical_components("a/b/c.md").unwrap();
    let through_link = vec![Probe::Found(TreeEntryKind::Directory), Probe::Found(TreeEntryKind::Symlink), Probe::Missing];
    assert!(matches!(resolve_walk(&parts, &through_link, false), Err(PathError::Symlink { ref path }) if path == "a/b"));
}
