use carnet::app::browser::{FileActionKind, Focus, TreeAction, TreeBrowser, TreeStep};
use carnet::app::ids::{AppExitStatus, ClipboardRequestId, EditorInstanceId, MutationId, PushId, RequestId};
use carnet::app::mutation::{
    mutation_plan, mutation_reconciles_editor, rebase_path, starts_with_path, submitted_mutation,
    FileMutationAction, PendingMutationKind,
};
use carnet::git::{push_outcome, staged_changes, CommitIntent, PushOutcome, StagedChanges};
use carnet::ui::layout::{centered, editor_shortcuts, global_shortcuts, selection_viewport, Area, ShortcutStyle};
use carnet::workspace::files::FileOperation;
use carnet::workspace::tree::{TreeEntry, TreeEntryKind};

fn tree() -> Vec<TreeEntry> {
    vec![
        TreeEntry::new(
            "docs".into(),
            TreeEntryKind::Directory,
            true,
            vec![
                TreeEntry::new("docs/a.md".into(), TreeEntryKind::File, true, Vec::new()),
                TreeEntry::new("docs/b.png".into(), TreeEntryKind::File, false, Vec::new()),
            ],
        ),
        TreeEntry::new("readme.md".into(), TreeEntryKind::File, true, Vec::new()),
    ]
}

fn browser_at(selection: usize) -> TreeBrowser {
    let mut browser = TreeBrowser::new();
    browser.selection = Some(selection);
    browser
}

#[test]
fn ids_keep_their_values_and_exit_codes_follow_the_status() {
    assert_eq!(RequestId::new(7).get(), 7);
    assert_eq!(MutationId::new(8).get(), 8);
    assert_eq!(PushId::new(9).get(), 9);
    assert_eq!(ClipboardRequestId::new(10).get(), 10);
    assert_eq!(EditorInstanceId::new(u64::MAX).get(), u64::MAX);
    assert_eq!(AppExitStatus::Success.code(), 0);
    assert_eq!(AppExitStatus::Failure.code(), 1);
}

#[test]
fn request_ids_compare_by_their_numbers() {
    assert!(RequestId::new(3) < RequestId::new(4));
    assert!(!(RequestId::new(4) < RequestId::new(3)));
    assert!(RequestId::new(5) <= RequestId::new(5));
    assert_eq!(RequestId::new(1).partial_cmp(&RequestId::new(u64::MAX)), Some(std::cmp::Ordering::Less));
    assert_eq!(RequestId::new(9).cmp(&RequestId::new(2)), std::cmp::Ordering::Greater);
}

#[test]
fn tree_keys_move_the_selection_within_the_rows() {
    let tree = tree();
    let mut browser = browser_at(0);
    assert_eq!(browser.tree_action(&tree, TreeAction::Up, false, false), TreeStep::Stay);
    assert_eq!(browser.selection, Some(0));
    browser.tree_action(&tree, TreeAction::Down, false, false);
    assert_eq!(browser.selection, Some(1));
    browser.tree_action(&tree, TreeAction::Down, false, false);
    assert_eq!(browser.selection, Some(1));
}

#[test]
fn right_expands_left_collapses_and_then_selects_the_parent() {
    let tree = tree();
    let mut browser = browser_at(0);
    browser.tree_action(&tree, TreeAction::Right, false, false);
    assert_eq!(browser.expanded, vec!["docs".to_string()]);
    browser.tree_action(&tree, TreeAction::Right, false, false);
    assert_eq!(browser.expanded, vec!["docs".to_string()]);
    browser.tree_action(&tree, TreeAction::Down, false, false);
    assert_eq!(browser.selection, Some(1));
    browser.tree_action(&tree, TreeAction::Left, false, false);
    assert_eq!(browser.selection, Some(0));
    browser.tree_action(&tree, TreeAction::Left, false, false);
    assert!(browser.expanded.is_empty());
}

#[test]
fn open_toggles_directories_and_opens_only_enabled_files() {
    let tree = tree();
    let mut browser = browser_at(0);
    assert_eq!(browser.tree_action(&tree, TreeAction::Open, false, false), TreeStep::Stay);
    assert_eq!(browser.expanded, vec!["docs".to_string()]);
    browser.selection = Some(1);
    assert_eq!(
        browser.tree_action(&tree, TreeAction::Open, false, false),
        TreeStep::OpenNote("docs/a.md".into())
    );
    browser.selection = Some(2);
    assert_eq!(browser.tree_action(&tree, TreeAction::Open, false, false), TreeStep::Stay);
    browser.selection = Some(0);
    browser.tree_action(&tree, TreeAction::Open, false, false);
    assert!(browser.expanded.is_empty());
}

#[test]
fn file_actions_open_dialogs_unless_a_mutation_is_pending() {
    let tree = tree();
    let mut browser = browser_at(1);
    assert_eq!(
        browser.tree_action(&tree, TreeAction::Rename, false, false),
        TreeStep::FileDialog { kind: FileActionKind::Rename, target: Some("readme.md".into()) }
    );
    assert_eq!(
        browser.tree_action(&tree, TreeAction::Delete, false, false),
        TreeStep::ConfirmDelete("readme.md".into())
    );
    assert_eq!(browser.tree_action(&tree, TreeAction::Delete, true, false), TreeStep::Stay);
    let mut empty = TreeBrowser::new();
    assert_eq!(
        empty.tree_action(&Vec::new(), TreeAction::NewFolder, false, false),
        TreeStep::FileDialog { kind: FileActionKind::NewFolder, target: None }
    );
    assert_eq!(empty.tree_action(&Vec::new(), TreeAction::Rename, false, false), TreeStep::Stay);
}

#[test]
fn escape_returns_focus_to_the_editor() {
    let tree = tree();
    let mut browser = browser_at(0);
    assert_eq!(
        browser.tree_action(&tree, TreeAction::Escape, false, true),
        TreeStep::ToEditor { hide_sidebar: true }
    );
    assert_eq!(browser.focus, Focus::Editor);
    assert_eq!(browser.tree_action(&tree, TreeAction::Down, false, false), TreeStep::Stay);
    assert_eq!(browser.selection, Some(0));
}

#[test]
fn selecting_a_path_expands_its_directories() {
    let tree = tree();
    let mut browser = TreeBrowser::new();
    browser.select_tree_path(&tree, "docs/a.md");
    assert_eq!(browser.expanded, vec!["docs".to_string()]);
    assert_eq!(browser.selection, Some(1));
    browser.select_tree_path(&tree, "nowhere.md");
    assert_eq!(browser.selection, Some(3));
    browser.selection = Some(9);
    browser.clamp_tree_selection(&tree);
    assert_eq!(browser.selection, Some(3));
    browser.clamp_tree_selection(&Vec::new());
    assert_eq!(browser.selection, None);
}

#[test]
fn paths_below_a_moved_entry_follow_it() {
    assert_eq!(rebase_path("docs", "docs", "archive"), Some("archive".into()));
    assert_eq!(rebase_path("docs/a.md", "docs", "archive/docs"), Some("archive/docs/a.md".into()));
    assert_eq!(rebase_path("docsx/a.md", "docs", "archive"), None);
    assert_eq!(rebase_path("other.md", "docs", "archive"), None);
    assert!(starts_with_path("docs/a.md", "docs"));
    assert!(starts_with_path("docs", "docs"));
    assert!(!starts_with_path("docs", "docs/a.md"));
    assert!(!starts_with_path("/docs", "docs"));
}

#[test]
fn mutations_that_touch_the_open_note_need_a_decision_first() {
    let note = Some("docs/a.md".to_string());
    let delete = FileMutationAction::Delete { path: "docs".into() };
    assert!(mutation_reconciles_editor(&delete, &note, true));
    let rename = FileMutationAction::Rename { from: "other".into(), to: "x".into() };
    assert!(!mutation_reconciles_editor(&rename, &note, true));
    let folder = FileMutationAction::CreateFolder { path: "f".into() };
    assert!(!mutation_reconciles_editor(&folder, &note, true));
    let file = FileMutationAction::CreateFile { path: "f.md".into() };
    assert!(mutation_reconciles_editor(&file, &None, true));
    assert!(!mutation_reconciles_editor(&file, &None, false));
}

#[test]
fn dialogs_and_plans_map_to_operations_and_commits() {
    assert_eq!(
        submitted_mutation(FileActionKind::Move, Some("a.md".into()), "b/a.md".into()),
        Some(FileMutationAction::Move { from: "a.md".into(), to: "b/a.md".into() })
    );
    assert_eq!(submitted_mutation(FileActionKind::Rename, None, "b.md".into()), None);
    let (kind, operation, intent) =
        mutation_plan(FileMutationAction::Delete { path: "old.md".into() }, "/repo");
    assert_eq!(kind, PendingMutationKind::Delete);
    assert!(matches!(operation, FileOperation::Delete { ref root, ref path, confirmed: true } if root == "/repo" && path == "old.md"));
    assert_eq!(intent, CommitIntent::Delete("old.md".into()));
    assert_eq!(intent.message(), "carnet: delete old.md");
}

#[test]
fn commit_messages_name_the_change() {
    assert_eq!(CommitIntent::Create("note.md".into()).message(), "carnet: create note.md");
    assert_eq!(CommitIntent::Update("note.md".into()).message(), "carnet: update note.md");
    assert_eq!(
        CommitIntent::Move { from: "old.md".into(), to: "new.md".into() }.message(),
        "carnet: move old.md to new.md"
    );
}

#[test]
fn push_reports_and_diff_statuses_are_read() {
    assert_eq!(push_outcome("To origin\n=\trefs/heads/main:refs/heads/main\t[up to date]\nDone\n"), PushOutcome::UpToDate);
    assert_eq!(push_outcome("To origin\n \trefs/heads/main:refs/heads/main\tabc..def\nDone\n"), PushOutcome::Pushed);
    assert_eq!(push_outcome("=first line"), PushOutcome::UpToDate);
    assert_eq!(push_outcome("a=b"), PushOutcome::Pushed);
    assert_eq!(staged_changes(Some(0)), StagedChanges::Clean);
    assert_eq!(staged_changes(Some(1)), StagedChanges::Pending);
    assert_eq!(staged_changes(Some(128)), StagedChanges::Failed);
    assert_eq!(staged_changes(None), StagedChanges::Failed);
}

#[test]
fn viewports_keep_the_selection_visible() {
    assert_eq!(selection_viewport(0, None, 5), 0..0);
    assert_eq!(selection_viewport(3, Some(2), 10), 0..3);
    assert_eq!(selection_viewport(100, Some(50), 10), 45..55);
    assert_eq!(selection_viewport(100, Some(99), 10), 90..100);
    assert_eq!(selection_viewport(100, Some(500), 10), 90..100);
    assert_eq!(selection_viewport(100, None, 10), 0..10);
}

#[test]
fn dialogs_are_centred_within_the_screen() {
    let screen = Area { x: 0, y: 0, width: 100, height: 30 };
    assert_eq!(centered(screen, 66, 8), Area { x: 17, y: 11, width: 66, height: 8 });
    let tiny = Area { x: 2, y: 3, width: 10, height: 2 };
    assert_eq!(centered(tiny, 66, 8), Area { x: 2 + 1, y: 3, width: 8, height: 1 });
}

#[test]
fn shortcut_lines_follow_the_platform_style() {
    assert!(global_shortcuts(ShortcutStyle::Portable).starts_with("^S Save"));
    assert!(global_shortcuts(ShortcutStyle::MacOs).starts_with("⌘S Save"));
    assert!(editor_shortcuts(ShortcutStyle::Portable).contains("Home/End Line"));
    assert!(editor_shortcuts(ShortcutStyle::MacOs).contains("⌘↑↓ Doc"));
}

#[test]
fn expanding_twice_keeps_one_entry_and_collapsing_removes_it() {
    let tree = tree();
    let mut browser = browser_at(0);
    browser.tree_action(&tree, TreeAction::Right, false, false);
    browser.tree_action(&tree, TreeAction::Right, false, false);
    assert_eq!(browser.expanded, vec!["docs".to_string()]);
    browser.tree_action(&tree, TreeAction::Open, false, false);
    assert!(browser.expanded.is_empty());
    browser.tree_action(&tree, TreeAction::Open, false, false);
    assert_eq!(browser.expanded, vec!["docs".to_string()]);
}
