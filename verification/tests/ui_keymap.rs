use carnet::app::browser::{Focus, TreeAction};
use carnet::app::keymap::{
    accepts_paste, map_key, ConflictChoice, DialogKind, DirtyChoice, EditorKey, GlobalAction, HomeAction,
    KeyAction, KeyCode, KeyContext, KeyEvent, KeyEventKind, KeyModifiers, KeyOutcome,
    OverlayKind, RepositoryActionKind, RepositoryFormField, ScreenKind,
};
use carnet::editor::{EditorCommand, Motion};
use carnet::ui::layout::{workspace_geometry, Area, COMFORTABLE_WIDTH};

const NONE: KeyModifiers =
    KeyModifiers { shift: false, control: false, alt: false, super_key: false, hyper: false, meta: false };
const CONTROL: KeyModifiers = KeyModifiers { control: true, ..NONE };
const SHIFT: KeyModifiers = KeyModifiers { shift: true, ..NONE };
const ALT: KeyModifiers = KeyModifiers { alt: true, ..NONE };
const SUPER: KeyModifiers = KeyModifiers { super_key: true, ..NONE };

fn key(code: KeyCode, modifiers: KeyModifiers) -> KeyEvent {
    KeyEvent { code, modifiers, kind: KeyEventKind::Press }
}

fn plain(code: KeyCode) -> KeyEvent {
    key(code, NONE)
}

fn context(screen: ScreenKind) -> KeyContext {
    KeyContext {
        dialog: None,
        dialog_input: String::new(),
        form_name: String::new(),
        form_path: String::new(),
        form_field: RepositoryFormField::Name,
        overlay: OverlayKind::Nothing,
        overlay_query: String::new(),
        screen,
    }
}

fn home() -> KeyContext {
    context(ScreenKind::Home)
}

fn editor() -> KeyContext {
    context(ScreenKind::Workspace(Focus::Editor))
}

fn mapped_action(context: &KeyContext, event: KeyEvent) -> KeyAction {
    match map_key(context, event) {
        Some(KeyOutcome::Action(action)) => action,
        other => panic!("expected an action, got {other:?}"),
    }
}

#[test]
fn narrow_geometry_preserves_the_full_editor_and_overlays_the_tree() {
    let area = Area { x: 0, y: 0, width: COMFORTABLE_WIDTH - 1, height: 20 };

    let geometry = workspace_geometry(area, true);

    assert_eq!(geometry.editor, area);
    assert!(geometry.tree_is_overlay);
    assert_eq!(geometry.tree.unwrap().x, area.x);
    assert!(geometry.tree.unwrap().width < geometry.editor.width);

    let wide = workspace_geometry(Area { x: 0, y: 0, width: COMFORTABLE_WIDTH, height: 20 }, true);
    assert!(!wide.tree_is_overlay);
    assert_eq!(wide.tree.unwrap().width, 30);
    assert_eq!(wide.editor.x, 30);
}

#[test]
fn ctrl_shortcuts_map_to_portable_global_actions() {
    let app = home();
    let cases = [
        ('s', CONTROL, GlobalAction::Save),
        ('f', CONTROL, GlobalAction::Find),
        ('p', CONTROL, GlobalAction::QuickOpen),
        ('b', CONTROL, GlobalAction::ToggleSidebar),
        ('z', CONTROL, GlobalAction::Undo),
        ('y', CONTROL, GlobalAction::Redo),
        ('Z', KeyModifiers { shift: true, ..CONTROL }, GlobalAction::Redo),
        ('c', CONTROL, GlobalAction::Copy),
        ('x', CONTROL, GlobalAction::Cut),
        ('v', CONTROL, GlobalAction::Paste),
        ('a', CONTROL, GlobalAction::SelectAll),
        ('q', CONTROL, GlobalAction::Quit),
    ];
    for (character, modifiers, expected) in cases {
        assert_eq!(
            mapped_action(&app, key(KeyCode::Char(character), modifiers)),
            KeyAction::Global(expected),
            "shortcut Ctrl+{character}"
        );
    }
}

#[test]
fn home_and_tree_keys_map_only_to_their_pure_actions() {
    let home = home();
    assert_eq!(mapped_action(&home, plain(KeyCode::Up)), KeyAction::Home(HomeAction::Up));
    assert_eq!(mapped_action(&home, plain(KeyCode::Down)), KeyAction::Home(HomeAction::Down));
    assert_eq!(mapped_action(&home, plain(KeyCode::Enter)), KeyAction::Home(HomeAction::OpenSelected));

    let tree = context(ScreenKind::Workspace(Focus::Tree));
    let cases = [
        (plain(KeyCode::Up), TreeAction::Up),
        (plain(KeyCode::Down), TreeAction::Down),
        (plain(KeyCode::Left), TreeAction::Left),
        (plain(KeyCode::Right), TreeAction::Right),
        (plain(KeyCode::Enter), TreeAction::Open),
        (key(KeyCode::Char('n'), NONE), TreeAction::NewFile),
        (key(KeyCode::Char('N'), SHIFT), TreeAction::NewFolder),
        (key(KeyCode::Char('r'), NONE), TreeAction::Rename),
        (key(KeyCode::Char('m'), NONE), TreeAction::Move),
        (plain(KeyCode::Delete), TreeAction::Delete),
        (plain(KeyCode::Esc), TreeAction::Escape),
    ];
    for (event, expected) in cases {
        assert_eq!(mapped_action(&tree, event), KeyAction::Tree(expected));
    }
}

#[test]
fn editor_escape_requests_a_safe_return_to_files() {
    assert_eq!(mapped_action(&editor(), plain(KeyCode::Esc)), KeyAction::BrowseFiles);
}

#[test]
fn editor_modifier_arrows_map_to_word_line_and_document_motion() {
    let app = editor();
    let cases = [
        (KeyCode::Left, ALT, Motion::WordLeft, false),
        (KeyCode::Right, ALT, Motion::WordRight, false),
        (KeyCode::Left, SUPER, Motion::LineStart, false),
        (KeyCode::Right, SUPER, Motion::LineEnd, false),
        (KeyCode::Up, SUPER, Motion::DocumentStart, false),
        (KeyCode::Down, KeyModifiers { shift: true, ..SUPER }, Motion::DocumentEnd, true),
    ];
    for (code, modifiers, motion, extend_selection) in cases {
        assert_eq!(
            mapped_action(&app, key(code, modifiers)),
            KeyAction::Editor(EditorKey::Move { motion, extend_selection })
        );
    }
    assert_eq!(mapped_action(&app, key(KeyCode::Enter, SHIFT)), KeyAction::Editor(EditorKey::Newline));
}

#[test]
fn modal_choices_and_search_input_map_to_explicit_app_events() {
    let mut app = home();
    app.dialog = Some(DialogKind::DirtyNavigation);
    assert_eq!(
        map_key(&app, key(KeyCode::Char('s'), NONE)),
        Some(KeyOutcome::DirtyChoice(DirtyChoice::Save))
    );
    assert_eq!(map_key(&app, plain(KeyCode::Esc)), Some(KeyOutcome::DirtyChoice(DirtyChoice::Cancel)));

    app.dialog = Some(DialogKind::ExternalConflict);
    assert_eq!(
        map_key(&app, key(KeyCode::Char('o'), NONE)),
        Some(KeyOutcome::ConflictChoice(ConflictChoice::Overwrite))
    );

    app.dialog = None;
    app.overlay = OverlayKind::Search;
    app.overlay_query = "ca".into();
    assert_eq!(mapped_action(&app, key(KeyCode::Char('t'), NONE)), KeyAction::SetOverlayQuery("cat".into()));
    assert_eq!(mapped_action(&app, plain(KeyCode::Backspace)), KeyAction::SetOverlayQuery("c".into()));
}

#[test]
fn file_dialog_and_quick_open_keys_preserve_input_in_app_actions() {
    let mut app = context(ScreenKind::Workspace(Focus::Tree));
    app.dialog = Some(DialogKind::FileAction);
    assert_eq!(mapped_action(&app, key(KeyCode::Char('n'), NONE)), KeyAction::SetDialogInput("n".into()));
    app.dialog_input = "new.md".into();
    assert_eq!(mapped_action(&app, plain(KeyCode::Enter)), KeyAction::SubmitFileAction("new.md".into()));

    app.dialog = None;
    app.overlay = OverlayKind::QuickOpen;
    app.overlay_query = "note".into();
    assert_eq!(mapped_action(&app, plain(KeyCode::Down)), KeyAction::MoveOverlaySelection(1));
    assert_eq!(mapped_action(&app, plain(KeyCode::Up)), KeyAction::MoveOverlaySelection(-1));
    assert_eq!(mapped_action(&app, plain(KeyCode::Enter)), KeyAction::SubmitOverlay);
}

#[test]
fn dialogs_and_overlays_consume_keys_that_are_not_explicit_choices() {
    let mut app = editor();
    for dialog in [DialogKind::DirtyNavigation, DialogKind::ExternalConflict, DialogKind::Failure] {
        app.dialog = Some(dialog);
        assert!(map_key(&app, key(KeyCode::Char('b'), CONTROL)).is_none());
        assert!(map_key(&app, key(KeyCode::Char('x'), NONE)).is_none());
        assert!(map_key(&app, plain(KeyCode::Up)).is_none());
    }

    app.dialog = None;
    app.overlay = OverlayKind::Search;
    assert!(map_key(&app, key(KeyCode::Char('b'), CONTROL)).is_none());
    assert!(map_key(&app, plain(KeyCode::Up)).is_none());

    app.overlay = OverlayKind::Nothing;
    app.dialog = Some(DialogKind::FileAction);
    assert!(map_key(&app, plain(KeyCode::Enter)).is_none());
    assert!(map_key(&app, key(KeyCode::Char('s'), CONTROL)).is_none());
    assert_eq!(mapped_action(&app, key(KeyCode::Char('x'), NONE)), KeyAction::SetDialogInput("x".into()));

    app.dialog = Some(DialogKind::RepositoryForm(RepositoryActionKind::Create));
    assert!(map_key(&app, plain(KeyCode::Enter)).is_none());
    assert!(map_key(&app, key(KeyCode::Char('q'), CONTROL)).is_none());
    assert_eq!(
        mapped_action(&app, key(KeyCode::Char('x'), NONE)),
        KeyAction::SetRepositoryFormInput("x".into())
    );
}

#[test]
fn released_keys_do_nothing() {
    let event = KeyEvent { code: KeyCode::Char('s'), modifiers: CONTROL, kind: KeyEventKind::Release };
    assert!(map_key(&home(), event).is_none());
}

#[test]
fn repository_form_submits_only_with_the_needed_fields() {
    let mut app = home();
    app.dialog = Some(DialogKind::RepositoryForm(RepositoryActionKind::Register));
    app.form_name = "notes".into();
    assert!(map_key(&app, plain(KeyCode::Enter)).is_none());
    app.form_path = "  ".into();
    assert!(map_key(&app, plain(KeyCode::Enter)).is_none());
    app.form_path = "~/notes".into();
    assert_eq!(mapped_action(&app, plain(KeyCode::Enter)), KeyAction::SubmitRepositoryForm);
    assert_eq!(mapped_action(&app, plain(KeyCode::Tab)), KeyAction::ToggleRepositoryFormField);
    app.form_field = RepositoryFormField::Path;
    assert_eq!(
        mapped_action(&app, plain(KeyCode::Backspace)),
        KeyAction::SetRepositoryFormInput("~/note".into())
    );

    app.dialog = Some(DialogKind::RepositoryForm(RepositoryActionKind::Rename));
    app.form_path = String::new();
    assert_eq!(mapped_action(&app, plain(KeyCode::Enter)), KeyAction::SubmitRepositoryForm);
    assert!(map_key(&app, plain(KeyCode::Tab)).is_none());
}

#[test]
fn delete_confirmation_needs_a_lower_case_y() {
    let mut app = editor();
    app.dialog = Some(DialogKind::ConfirmDelete);
    assert_eq!(mapped_action(&app, key(KeyCode::Char('y'), NONE)), KeyAction::ConfirmDelete);
    assert!(map_key(&app, key(KeyCode::Char('Y'), SHIFT)).is_none());
    assert_eq!(mapped_action(&app, key(KeyCode::Char('N'), SHIFT)), KeyAction::Dismiss);
    assert_eq!(mapped_action(&app, plain(KeyCode::Enter)), KeyAction::ConfirmDelete);
    assert_eq!(mapped_action(&app, plain(KeyCode::Esc)), KeyAction::Dismiss);

    app.dialog = Some(DialogKind::ConfirmUnregister);
    assert_eq!(mapped_action(&app, key(KeyCode::Char('Y'), SHIFT)), KeyAction::ConfirmRepositoryAction);
    app.dialog = Some(DialogKind::SavedCommitFailed);
    assert_eq!(mapped_action(&app, key(KeyCode::Char('r'), NONE)), KeyAction::Global(GlobalAction::Save));
}

#[test]
fn home_letters_need_no_modifiers_and_ctrl_g_pushes() {
    let app = home();
    assert_eq!(mapped_action(&app, key(KeyCode::Char('c'), NONE)), KeyAction::Home(HomeAction::CreateRepository));
    assert!(map_key(&app, key(KeyCode::Char('c'), ALT)).is_none());
    assert_eq!(mapped_action(&app, key(KeyCode::Char('R'), SHIFT)), KeyAction::Home(HomeAction::RenameSelected));
    assert_eq!(mapped_action(&app, key(KeyCode::Char('g'), CONTROL)), KeyAction::Global(GlobalAction::Push));
}

#[test]
fn typed_characters_become_editor_insertions() {
    let app = editor();
    let action = mapped_action(&app, key(KeyCode::Char('é'), SHIFT));
    assert_eq!(action, KeyAction::Editor(EditorKey::Insert('é')));
    let KeyAction::Editor(command) = action else { panic!() };
    assert!(matches!(command.command(), EditorCommand::Insert(text) if text == "é"));
    assert!(map_key(&app, key(KeyCode::Char('e'), SUPER)).is_none());
    assert_eq!(mapped_action(&app, plain(KeyCode::BackTab)), KeyAction::Editor(EditorKey::Outdent));
}

#[test]
fn pasted_text_goes_to_a_focused_editor_with_nothing_in_front() {
    assert!(accepts_paste(&editor(), true));
    assert!(!accepts_paste(&editor(), false));
    assert!(!accepts_paste(&home(), true));
    assert!(!accepts_paste(&context(ScreenKind::Workspace(Focus::Tree)), true));
    let mut searching = editor();
    searching.overlay = OverlayKind::Search;
    assert!(!accepts_paste(&searching, true));
    let mut asking = editor();
    asking.dialog = Some(DialogKind::ConfirmDelete);
    assert!(!accepts_paste(&asking, true));
}

#[test]
fn wide_geometry_puts_a_thirty_cell_tree_beside_the_editor() {
    let area = Area { x: 5, y: 2, width: 100, height: 20 };
    let geometry = workspace_geometry(area, true);
    assert!(!geometry.tree_is_overlay);
    assert_eq!(geometry.tree, Some(Area { x: 5, y: 2, width: 30, height: 20 }));
    assert_eq!(geometry.editor, Area { x: 35, y: 2, width: 70, height: 20 });
    let hidden = workspace_geometry(area, false);
    assert_eq!(hidden.editor, area);
    assert_eq!(hidden.tree, None);
}
