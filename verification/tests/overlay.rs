use carnet::app::overlay::{
    matching_text_paths, move_selection, occurs, quick_open_choice, quick_open_overlay, search_overlay,
    with_query, OverlayState,
};
use carnet::ui::dialogs::{quick_open_content, quick_open_height, search_content, DialogLine};
use carnet::ui::layout::{centered, Area};
use carnet::workspace::tree::{TreeEntry, TreeEntryKind};

fn file(path: &str, enabled: bool) -> TreeEntry {
    TreeEntry::new(path.to_string(), TreeEntryKind::File, enabled, Vec::new())
}

fn tree() -> Vec<TreeEntry> {
    vec![
        TreeEntry::new(
            "Docs".to_string(),
            TreeEntryKind::Directory,
            true,
            vec![file("Docs/Guide.md", true), file("Docs/logo.png", false)],
        ),
        file("notes.md", true),
        TreeEntry::new("link".to_string(), TreeEntryKind::Symlink, false, Vec::new()),
        file("todo.txt", true),
    ]
}

#[test]
fn quick_open_offers_enabled_text_files_in_tree_order() {
    assert_eq!(
        matching_text_paths(&tree(), ""),
        vec!["Docs/Guide.md".to_string(), "notes.md".to_string(), "todo.txt".to_string()]
    );
}

#[test]
fn quick_open_matches_the_query_ignoring_case() {
    assert_eq!(matching_text_paths(&tree(), "GUIDE"), vec!["Docs/Guide.md".to_string()]);
    assert_eq!(matching_text_paths(&tree(), ".md"), vec!["Docs/Guide.md".to_string(), "notes.md".to_string()]);
    assert!(matching_text_paths(&tree(), "logo").is_empty());
    assert!(matching_text_paths(&tree(), "zzz").is_empty());
}

#[test]
fn occurrence_finds_a_text_anywhere_in_another() {
    assert!(occurs("abcdef", "cde"));
    assert!(occurs("abc", ""));
    assert!(occurs("abc", "abc"));
    assert!(!occurs("abc", "abcd"));
    assert!(!occurs("abcabd", "abe"));
    assert!(occurs("aab", "ab"));
}

#[test]
fn quick_open_selects_and_opens_the_first_matching_text_file() {
    let overlay = quick_open_overlay();
    assert_eq!(overlay, OverlayState::QuickOpen { query: String::new(), selected: Some(0) });
    let matches = matching_text_paths(&tree(), "");
    let OverlayState::QuickOpen { selected, .. } = overlay else {
        panic!("expected quick open");
    };
    assert_eq!(quick_open_choice(selected, &matches), Some("Docs/Guide.md".to_string()));
    assert_eq!(quick_open_choice(Some(3), &matches), None);
    assert_eq!(quick_open_choice(None, &Vec::new()), None);
}

#[test]
fn typing_changes_the_query_and_restarts_the_selection() {
    let overlay = move_selection(quick_open_overlay(), 1, 3);
    assert_eq!(overlay, OverlayState::QuickOpen { query: String::new(), selected: Some(1) });
    let overlay = with_query(overlay, "no".to_string());
    assert_eq!(overlay, OverlayState::QuickOpen { query: "no".to_string(), selected: Some(0) });
    assert_eq!(with_query(search_overlay(), "x".to_string()), OverlayState::Search { query: "x".to_string() });
    assert_eq!(with_query(OverlayState::Nothing, "x".to_string()), OverlayState::Nothing);
}

#[test]
fn the_selection_stops_at_the_first_and_last_match() {
    let top = OverlayState::QuickOpen { query: String::new(), selected: Some(0) };
    assert_eq!(move_selection(top, -1, 3), OverlayState::QuickOpen { query: String::new(), selected: Some(0) });
    let bottom = OverlayState::QuickOpen { query: String::new(), selected: Some(2) };
    assert_eq!(move_selection(bottom, 1, 3), OverlayState::QuickOpen { query: String::new(), selected: Some(2) });
    let past = OverlayState::QuickOpen { query: String::new(), selected: Some(9) };
    assert_eq!(move_selection(past, -1, 3), OverlayState::QuickOpen { query: String::new(), selected: Some(1) });
    let empty = OverlayState::QuickOpen { query: String::new(), selected: Some(0) };
    assert_eq!(move_selection(empty, 1, 0), OverlayState::QuickOpen { query: String::new(), selected: None });
    assert_eq!(move_selection(search_overlay(), 1, 3), search_overlay());
}

#[test]
fn search_overlay_shows_the_query_and_its_keys() {
    let content = search_content("needle");
    assert_eq!(content.title, " Find in note ");
    assert_eq!(content.lines[0], DialogLine::Text { text: "Find: needle_".to_string(), bold: false });
    match &content.lines[1] {
        DialogLine::Choices(choices) => {
            assert!(choices.contains(&("Enter".to_string(), "Next".to_string())));
            assert!(choices.contains(&("Shift+Enter".to_string(), "Previous".to_string())));
        }
        other => panic!("unexpected line {other:?}"),
    }
}

#[test]
fn quick_open_viewport_keeps_selection_and_footer_visible() {
    let files: Vec<String> = (0..30).map(|i| format!("file-{i}.txt")).collect();
    let height = quick_open_height(files.len());
    assert_eq!(height, 16);
    let area = centered(Area { x: 0, y: 0, width: 80, height: 12 }, 68, height);
    let content = quick_open_content("", &files, Some(25), area.height);
    assert!(content.lines.contains(&DialogLine::Selected("file-25.txt".to_string())));
    let last = content.lines.last().unwrap();
    match last {
        DialogLine::Choices(choices) => {
            assert!(choices.contains(&("↑/↓".to_string(), "Select".to_string())));
            assert!(choices.contains(&("Enter".to_string(), "Open".to_string())));
        }
        other => panic!("unexpected line {other:?}"),
    }
    assert!(content.lines.len() as u16 <= area.height - 2);
}

#[test]
fn quick_open_without_matches_says_so() {
    let content = quick_open_content("zzz", &Vec::new(), Some(0), 7);
    assert_eq!(content.lines[0], DialogLine::Text { text: "Open: zzz_".to_string(), bold: false });
    assert_eq!(content.lines[1], DialogLine::Muted("No matching text files".to_string()));
    assert_eq!(content.height, 7);
}
