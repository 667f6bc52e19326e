//! What a key does: the application event a key press stands for, given what
//! is on screen (a dialog, an overlay, the home, or a workspace with the tree
//! or the editor focused).
use vstd::prelude::*;

use super::browser::{Focus, TreeAction};
use crate::catalog::{blank, is_blank};
use crate::editor::editing::{EditorCommand, Motion};
use crate::editor::highlight::{ascii_lower, to_ascii_lower};
use crate::text::{chars_of, string_of};

verus! {

/// A key.
#[derive(Clone, Copy, PartialEq, Eq, Structural, Debug)]
pub enum KeyCode {
    Char(char),
    Enter,
    Esc,
    Backspace,
    Delete,
    Tab,
    BackTab,
    Left,
    Right,
    Up,
    Down,
    Home,
    End,
    /// Any other key.
    Other,
}

/// The modifier keys held.
#[derive(Clone, Copy, PartialEq, Eq, Structural, Debug)]
pub struct KeyModifiers {
    pub shift: bool,
    pub control: bool,
    pub alt: bool,
    pub super_key: bool,
    pub hyper: bool,
    pub meta: bool,
}

/// Whether a key went down, repeats, or went up.
#[derive(Clone, Copy, PartialEq, Eq, Structural, Debug)]
pub enum KeyEventKind {
    Press,
    Repeat,
    Release,
}

/// A key event.
#[derive(Clone, Copy, PartialEq, Eq, Structural, Debug)]
pub struct KeyEvent {
    pub code: KeyCode,
    pub modifiers: KeyModifiers,
    pub kind: KeyEventKind,
}

/// No modifier is held.
pub open spec fn no_modifiers(m: KeyModifiers) -> bool {
    !m.shift && !m.control && !m.alt && !m.super_key && !m.hyper && !m.meta
}

/// Commands that apply everywhere.
#[derive(Clone, Copy, PartialEq, Eq, Structural, Debug)]
pub enum GlobalAction {
    Save,
    Push,
    Find,
    QuickOpen,
    ToggleSidebar,
    Undo,
    Redo,
    Copy,
    Cut,
    Paste,
    SelectAll,
    Quit,
}

/// Keys of the repository home.
#[derive(Clone, Copy, PartialEq, Eq, Structural, Debug)]
pub enum HomeAction {
    Up,
    Down,
    OpenSelected,
    CreateRepository,
    RegisterRepository,
    RenameSelected,
    SetDefaultSelected,
    UnregisterSelected,
}

/// The answer to the unsaved-changes question.
#[derive(Clone, Copy, PartialEq, Eq, Structural, Debug)]
pub enum DirtyChoice {
    Cancel,
    Discard,
    Save,
}

/// The answer to a conflict with a change made outside.
#[derive(Clone, Copy, PartialEq, Eq, Structural, Debug)]
pub enum ConflictChoice {
    Cancel,
    Overwrite,
    Reload,
}

/// An editor command that a key stands for.
#[derive(Clone, Copy, PartialEq, Eq, Structural, Debug)]
pub enum EditorKey {
    Move { motion: Motion, extend_selection: bool },
    Insert(char),
    Backspace,
    Delete,
    Newline,
    Indent,
    Outdent,
    FindNext,
    FindPrevious,
}

impl EditorKey {
    /// The editor command.
    pub fn command(self) -> (command: EditorCommand)
        ensures
            match self {
                EditorKey::Move { motion, extend_selection } => command == EditorCommand::Move {
                    motion,
                    extend_selection,
                },
                EditorKey::Insert(c) => command matches EditorCommand::Insert(t) && t@ == seq![c],
                EditorKey::Backspace => command == EditorCommand::Backspace,
                EditorKey::Delete => command == EditorCommand::Delete,
                EditorKey::Newline => command == EditorCommand::Newline,
                EditorKey::Indent => command == EditorCommand::Indent,
                EditorKey::Outdent => command == EditorCommand::Outdent,
                EditorKey::FindNext => command == EditorCommand::FindNext,
                EditorKey::FindPrevious => command == EditorCommand::FindPrevious,
            },
    {
        match self {
            EditorKey::Move { motion, extend_selection } => EditorCommand::Move {
                motion,
                extend_selection,
            },
            EditorKey::Insert(c) => {
                let one = vec![c];
                let t = string_of(one.as_slice());
                assert(one@ =~= seq![c]);
                EditorCommand::Insert(t)
            },
            EditorKey::Backspace => EditorCommand::Backspace,
            EditorKey::Delete => EditorCommand::Delete,
            EditorKey::Newline => EditorCommand::Newline,
            EditorKey::Indent => EditorCommand::Indent,
            EditorKey::Outdent => EditorCommand::Outdent,
            EditorKey::FindNext => EditorCommand::FindNext,
            EditorKey::FindPrevious => EditorCommand::FindPrevious,
        }
    }
}

/// What a key asks the application to do.
#[derive(Debug, PartialEq, Eq)]
pub enum KeyAction {
    Home(HomeAction),
    Global(GlobalAction),
    Editor(EditorKey),
    Tree(TreeAction),
    Dismiss,
    SubmitFileAction(String),
    ConfirmDelete,
    BrowseFiles,
    SetDialogInput(String),
    ToggleRepositoryFormField,
    SubmitRepositoryForm,
    SetRepositoryFormInput(String),
    ConfirmRepositoryAction,
    SetOverlayQuery(String),
    SubmitOverlay,
    MoveOverlaySelection(i32),
}

/// The event a key press stands for.
#[derive(Debug, PartialEq, Eq)]
pub enum KeyOutcome {
    Action(KeyAction),
    DirtyChoice(DirtyChoice),
    ConflictChoice(ConflictChoice),
}

/// [`KeyAction`] as mathematical values.
pub enum KeyActionView {
    Home(HomeAction),
    Global(GlobalAction),
    Editor(EditorKey),
    Tree(TreeAction),
    Dismiss,
    SubmitFileAction(Seq<char>),
    ConfirmDelete,
    BrowseFiles,
    SetDialogInput(Seq<char>),
    ToggleRepositoryFormField,
    SubmitRepositoryForm,
    SetRepositoryFormInput(Seq<char>),
    ConfirmRepositoryAction,
    SetOverlayQuery(Seq<char>),
    SubmitOverlay,
    MoveOverlaySelection(i32),
}

/// [`KeyOutcome`] as mathematical values.
pub enum KeyOutcomeView {
    Action(KeyActionView),
    DirtyChoice(DirtyChoice),
    ConflictChoice(ConflictChoice),
}

impl View for KeyAction {
    type V = KeyActionView;

    open spec fn view(&self) -> KeyActionView {
        match self {
            KeyAction::Home(a) => KeyActionView::Home(*a),
            KeyAction::Global(a) => KeyActionView::Global(*a),
            KeyAction::Editor(k) => KeyActionView::Editor(*k),
            KeyAction::Tree(a) => KeyActionView::Tree(*a),
            KeyAction::Dismiss => KeyActionView::Dismiss,
            KeyAction::SubmitFileAction(p) => KeyActionView::SubmitFileAction(p@),
            KeyAction::ConfirmDelete => KeyActionView::ConfirmDelete,
            KeyAction::BrowseFiles => KeyActionView::BrowseFiles,
            KeyAction::SetDialogInput(t) => KeyActionView::SetDialogInput(t@),
            KeyAction::ToggleRepositoryFormField => KeyActionView::ToggleRepositoryFormField,
            KeyAction::SubmitRepositoryForm => KeyActionView::SubmitRepositoryForm,
            KeyAction::SetRepositoryFormInput(t) => KeyActionView::SetRepositoryFormInput(t@),
            KeyAction::ConfirmRepositoryAction => KeyActionView::ConfirmRepositoryAction,
            KeyAction::SetOverlayQuery(q) => KeyActionView::SetOverlayQuery(q@),
            KeyAction::SubmitOverlay => KeyActionView::SubmitOverlay,
            KeyAction::MoveOverlaySelection(d) => KeyActionView::MoveOverlaySelection(*d),
        }
    }
}

impl View for KeyOutcome {
    type V = KeyOutcomeView;

    open spec fn view(&self) -> KeyOutcomeView {
        match self {
            KeyOutcome::Action(a) => KeyOutcomeView::Action(a@),
            KeyOutcome::DirtyChoice(c) => KeyOutcomeView::DirtyChoice(*c),
            KeyOutcome::ConflictChoice(c) => KeyOutcomeView::ConflictChoice(*c),
        }
    }
}

/// The repository form's purpose.
#[derive(Clone, Copy, PartialEq, Eq, Structural, Debug)]
pub enum RepositoryActionKind {
    Create,
    Register,
    Rename,
}

/// The repository form's field being edited.
#[derive(Clone, Copy, PartialEq, Eq, Structural, Debug)]
pub enum RepositoryFormField {
    Name,
    Path,
}

/// The dialog on screen.
#[derive(Clone, Copy, PartialEq, Eq, Structural, Debug)]
pub enum DialogKind {
    DirtyNavigation,
    ExternalConflict,
    SavedCommitFailed,
    ConfirmDelete,
    FileAction,
    RepositoryForm(RepositoryActionKind),
    ConfirmSetDefault,
    ConfirmUnregister,
    Failure,
}

/// The overlay on screen.
#[derive(Clone, Copy, PartialEq, Eq, Structural, Debug)]
pub enum OverlayKind {
    Nothing,
    Search,
    QuickOpen,
}

/// The screen.
#[derive(Clone, Copy, PartialEq, Eq, Structural, Debug)]
pub enum ScreenKind {
    Home,
    Workspace(Focus),
}

/// What the key mapping reads of the application.
#[derive(Debug)]
pub struct KeyContext {
    pub dialog: Option<DialogKind>,
    pub dialog_input: String,
    pub form_name: String,
    pub form_path: String,
    pub form_field: RepositoryFormField,
    pub overlay: OverlayKind,
    pub overlay_query: String,
    pub screen: ScreenKind,
}

/// Pasted text goes to the editor only when no dialog or overlay is in front,
/// and a workspace's editor, holding a note, has the focus.
pub open spec fn paste_goes_to_editor(context: &KeyContext, has_editor: bool) -> bool {
    &&& context.dialog is None
    &&& context.overlay == OverlayKind::Nothing
    &&& context.screen == ScreenKind::Workspace(Focus::Editor)
    &&& has_editor
}

/// Whether pasted text goes to the editor (see [`paste_goes_to_editor`]).
pub fn accepts_paste(context: &KeyContext, has_editor: bool) -> (accepted: bool)
    ensures
        accepted == paste_goes_to_editor(context, has_editor),
{
    let screen_ok = match context.screen {
        ScreenKind::Workspace(Focus::Editor) => true,
        _ => false,
    };
    let overlay_ok = match context.overlay {
        OverlayKind::Nothing => true,
        _ => false,
    };
    context.dialog.is_none() && overlay_ok && screen_ok && has_editor
}

/// A text without its last character (unchanged when empty).
pub open spec fn without_last(s: Seq<char>) -> Seq<char> {
    if s.len() == 0 {
        s
    } else {
        s.drop_last()
    }
}

/// The character of a plain key (no Control or Alt), in ASCII lower case.
pub open spec fn plain_char(key: KeyEvent) -> Option<char> {
    if key.modifiers.control || key.modifiers.alt {
        None
    } else {
        match key.code {
            KeyCode::Char(c) => Some(ascii_lower(c)),
            _ => None,
        }
    }
}

/// Control with a letter: the commands that apply everywhere.
pub open spec fn global_of(key: KeyEvent) -> Option<GlobalAction> {
    if !key.modifiers.control {
        None
    } else {
        match key.code {
            KeyCode::Char(c) => {
                let l = ascii_lower(c);
                if l == 's' {
                    Some(GlobalAction::Save)
                } else if l == 'g' {
                    Some(GlobalAction::Push)
                } else if l == 'f' {
                    Some(GlobalAction::Find)
                } else if l == 'p' {
                    Some(GlobalAction::QuickOpen)
                } else if l == 'b' {
                    Some(GlobalAction::ToggleSidebar)
                } else if l == 'z' {
                    if key.modifiers.shift {
                        Some(GlobalAction::Redo)
                    } else {
                        Some(GlobalAction::Undo)
                    }
                } else if l == 'y' {
                    Some(GlobalAction::Redo)
                } else if l == 'c' {
                    Some(GlobalAction::Copy)
                } else if l == 'x' {
                    Some(GlobalAction::Cut)
                } else if l == 'v' {
                    Some(GlobalAction::Paste)
                } else if l == 'a' {
                    Some(GlobalAction::SelectAll)
                } else if l == 'q' {
                    Some(GlobalAction::Quit)
                } else {
                    None
                }
            },
            _ => None,
        }
    }
}

/// Keys of the repository home.
pub open spec fn home_of(key: KeyEvent) -> Option<HomeAction> {
    match key.code {
        KeyCode::Up => Some(HomeAction::Up),
        KeyCode::Down => Some(HomeAction::Down),
        KeyCode::Enter => Some(HomeAction::OpenSelected),
        KeyCode::Char(c) => if c == 'c' && no_modifiers(key.modifiers) {
            Some(HomeAction::CreateRepository)
        } else if c == 'a' && no_modifiers(key.modifiers) {
            Some(HomeAction::RegisterRepository)
        } else if (c == 'R' || c == 'r') && key.modifiers.shift {
            Some(HomeAction::RenameSelected)
        } else if c == 'd' && no_modifiers(key.modifiers) {
            Some(HomeAction::SetDefaultSelected)
        } else if c == 'u' && no_modifiers(key.modifiers) {
            Some(HomeAction::UnregisterSelected)
        } else {
            None
        },
        _ => None,
    }
}

/// Keys of the file tree.
pub open spec fn tree_of(key: KeyEvent) -> Option<TreeAction> {
    match key.code {
        KeyCode::Up => Some(TreeAction::Up),
        KeyCode::Down => Some(TreeAction::Down),
        KeyCode::Left => Some(TreeAction::Left),
        KeyCode::Right => Some(TreeAction::Right),
        KeyCode::Enter => Some(TreeAction::Open),
        KeyCode::Char(c) => if c == 'n' && !key.modifiers.shift {
            Some(TreeAction::NewFile)
        } else if (c == 'N' || c == 'n') && key.modifiers.shift {
            Some(TreeAction::NewFolder)
        } else if c == 'r' && no_modifiers(key.modifiers) {
            Some(TreeAction::Rename)
        } else if c == 'm' && no_modifiers(key.modifiers) {
            Some(TreeAction::Move)
        } else {
            None
        },
        KeyCode::Delete => Some(TreeAction::Delete),
        KeyCode::Esc => Some(TreeAction::Escape),
        _ => None,
    }
}

/// Keys of the editor: arrows move (by line end or document end with Super,
/// by word with Alt), Shift extends the selection, and plain characters type.
pub open spec fn editor_of(key: KeyEvent) -> Option<EditorKey> {
    let command = key.modifiers.super_key;
    let option = key.modifiers.alt;
    let motion = match key.code {
        KeyCode::Left => Some(
            if command {
                Motion::LineStart
            } else if option {
                Motion::WordLeft
            } else {
                Motion::Left
            },
        ),
        KeyCode::Right => Some(
            if command {
                Motion::LineEnd
            } else if option {
                Motion::WordRight
            } else {
                Motion::Right
            },
        ),
        KeyCode::Up => Some(if command { Motion::DocumentStart } else { Motion::Up }),
        KeyCode::Down => Some(if command { Motion::DocumentEnd } else { Motion::Down }),
        KeyCode::Home => Some(Motion::LineStart),
        KeyCode::End => Some(Motion::LineEnd),
        _ => None,
    };
    match motion {
        Some(m) => Some(EditorKey::Move { motion: m, extend_selection: key.modifiers.shift }),
        None => match key.code {
            KeyCode::Enter => Some(EditorKey::Newline),
            KeyCode::Backspace => Some(EditorKey::Backspace),
            KeyCode::Delete => Some(EditorKey::Delete),
            KeyCode::Tab => Some(EditorKey::Indent),
            KeyCode::BackTab => Some(EditorKey::Outdent),
            KeyCode::Char(c) => if !(key.modifiers.control || key.modifiers.alt
                || key.modifiers.super_key) {
                Some(EditorKey::Insert(c))
            } else {
                None
            },
            _ => None,
        },
    }
}

/// In the editor each editing key does what it names, whatever modifiers are
/// held: Delete deletes forward and Backspace backward, Enter breaks the line,
/// Tab and Shift-Tab indent and outdent, and Home and End go to the start and
/// end of the line (selecting with Shift). A character typed without Control,
/// Alt or Command is inserted.
pub proof fn law_editor_keys_do_what_they_name(key: KeyEvent)
    ensures
        key.code == KeyCode::Delete ==> editor_of(key) == Some(EditorKey::Delete),
        key.code == KeyCode::Backspace ==> editor_of(key) == Some(EditorKey::Backspace),
        key.code == KeyCode::Enter ==> editor_of(key) == Some(EditorKey::Newline),
        key.code == KeyCode::Tab ==> editor_of(key) == Some(EditorKey::Indent),
        key.code == KeyCode::BackTab ==> editor_of(key) == Some(EditorKey::Outdent),
        key.code == KeyCode::Home ==> editor_of(key) == Some(
            EditorKey::Move { motion: Motion::LineStart, extend_selection: key.modifiers.shift },
        ),
        key.code == KeyCode::End ==> editor_of(key) == Some(
            EditorKey::Move { motion: Motion::LineEnd, extend_selection: key.modifiers.shift },
        ),
        key.code is Char && !key.modifiers.control && !key.modifiers.alt && !key.modifiers.super_key
            ==> editor_of(key) == Some(EditorKey::Insert(key.code->Char_0)),
        key.code is Char && (key.modifiers.control || key.modifiers.alt || key.modifiers.super_key)
            ==> editor_of(key) is None,
{
}

/// The arrow keys move the cursor, selecting with Shift: alone by one
/// grapheme or one line; with Alt, Left and Right by a word; with Command,
/// Left and Right to the line's start and end and Up and Down to the
/// document's start and end.
pub proof fn law_arrow_keys_move_as_their_modifiers_say(key: KeyEvent)
    ensures
        ({
            let shift = key.modifiers.shift;
            let command = key.modifiers.super_key;
            let option = key.modifiers.alt;
            let moves = |m: Motion| Some(EditorKey::Move { motion: m, extend_selection: shift });
            &&& key.code == KeyCode::Left ==> editor_of(key) == moves(
                if command { Motion::LineStart } else if option { Motion::WordLeft } else { Motion::Left },
            )
            &&& key.code == KeyCode::Right ==> editor_of(key) == moves(
                if command { Motion::LineEnd } else if option { Motion::WordRight } else { Motion::Right },
            )
            &&& key.code == KeyCode::Up ==> editor_of(key) == moves(
                if command { Motion::DocumentStart } else { Motion::Up },
            )
            &&& key.code == KeyCode::Down ==> editor_of(key) == moves(
                if command { Motion::DocumentEnd } else { Motion::Down },
            )
        }),
{
}

/// Keys of a search or quick-open overlay.
pub open spec fn overlay_of(overlay: OverlayKind, query: Seq<char>, key: KeyEvent) -> Option<
    KeyActionView,
> {
    if overlay == OverlayKind::Nothing {
        None
    } else {
        match key.code {
            KeyCode::Esc => Some(KeyActionView::Dismiss),
            KeyCode::Backspace => Some(KeyActionView::SetOverlayQuery(without_last(query))),
            KeyCode::Enter => if overlay == OverlayKind::Search {
                Some(
                    KeyActionView::Editor(
                        if key.modifiers.shift {
                            EditorKey::FindPrevious
                        } else {
                            EditorKey::FindNext
                        },
                    ),
                )
            } else {
                Some(KeyActionView::SubmitOverlay)
            },
            KeyCode::Up => if overlay == OverlayKind::QuickOpen {
                Some(KeyActionView::MoveOverlaySelection(-1i32))
            } else {
                None
            },
            KeyCode::Down => if overlay == OverlayKind::QuickOpen {
                Some(KeyActionView::MoveOverlaySelection(1i32))
            } else {
                None
            },
            KeyCode::Char(c) => if !(key.modifiers.control || key.modifiers.alt) {
                Some(KeyActionView::SetOverlayQuery(query.push(c)))
            } else {
                None
            },
            _ => None,
        }
    }
}

/// The value of the form field being edited.
pub open spec fn active_field(c: KeyContext) -> Seq<char> {
    match c.form_field {
        RepositoryFormField::Name => c.form_name@,
        RepositoryFormField::Path => c.form_path@,
    }
}

/// Keys of a dialog: its choices by letter (any case, without Control or
/// Alt), Escape to cancel, Enter to confirm where that is safe, and typing
/// into the dialogs that take text.
pub open spec fn dialog_of(c: KeyContext, dialog: DialogKind, key: KeyEvent) -> Option<
    KeyOutcomeView,
> {
    let ch = plain_char(key);
    let esc = key.code == KeyCode::Esc;
    let enter = key.code == KeyCode::Enter;
    let typed = !(key.modifiers.control || key.modifiers.alt);
    match dialog {
        DialogKind::DirtyNavigation => if ch == Some('s') {
            Some(KeyOutcomeView::DirtyChoice(DirtyChoice::Save))
        } else if ch == Some('d') {
            Some(KeyOutcomeView::DirtyChoice(DirtyChoice::Discard))
        } else if ch == Some('c') || esc {
            Some(KeyOutcomeView::DirtyChoice(DirtyChoice::Cancel))
        } else {
            None
        },
        DialogKind::ExternalConflict => if ch == Some('r') {
            Some(KeyOutcomeView::ConflictChoice(ConflictChoice::Reload))
        } else if ch == Some('o') {
            Some(KeyOutcomeView::ConflictChoice(ConflictChoice::Overwrite))
        } else if ch == Some('c') || esc {
            Some(KeyOutcomeView::ConflictChoice(ConflictChoice::Cancel))
        } else {
            None
        },
        DialogKind::SavedCommitFailed => if ch == Some('r') || ch == Some('s') {
            Some(KeyOutcomeView::Action(KeyActionView::Global(GlobalAction::Save)))
        } else if esc {
            Some(KeyOutcomeView::Action(KeyActionView::Dismiss))
        } else {
            None
        },
        DialogKind::ConfirmDelete => if ch == Some('y') && key.code == KeyCode::Char('y') {
            Some(KeyOutcomeView::Action(KeyActionView::ConfirmDelete))
        } else if ch == Some('n') {
            Some(KeyOutcomeView::Action(KeyActionView::Dismiss))
        } else if ch == Some('y') {
            None
        } else if enter {
            Some(KeyOutcomeView::Action(KeyActionView::ConfirmDelete))
        } else if esc {
            Some(KeyOutcomeView::Action(KeyActionView::Dismiss))
        } else {
            None
        },
        DialogKind::FileAction => match key.code {
            KeyCode::Esc => Some(KeyOutcomeView::Action(KeyActionView::Dismiss)),
            KeyCode::Enter => if c.dialog_input@.len() > 0 {
                Some(KeyOutcomeView::Action(KeyActionView::SubmitFileAction(c.dialog_input@)))
            } else {
                None
            },
            KeyCode::Backspace => Some(
                KeyOutcomeView::Action(KeyActionView::SetDialogInput(without_last(c.dialog_input@))),
            ),
            KeyCode::Char(x) => if typed {
                Some(KeyOutcomeView::Action(KeyActionView::SetDialogInput(c.dialog_input@.push(x))))
            } else {
                None
            },
            _ => None,
        },
        DialogKind::RepositoryForm(kind) => match key.code {
            KeyCode::Esc => Some(KeyOutcomeView::Action(KeyActionView::Dismiss)),
            KeyCode::Tab => if kind == RepositoryActionKind::Create || kind
                == RepositoryActionKind::Register {
                Some(KeyOutcomeView::Action(KeyActionView::ToggleRepositoryFormField))
            } else {
                None
            },
            KeyCode::Enter => if !is_blank(c.form_name@) && (kind == RepositoryActionKind::Rename
                || !is_blank(c.form_path@)) {
                Some(KeyOutcomeView::Action(KeyActionView::SubmitRepositoryForm))
            } else {
                None
            },
            KeyCode::Backspace => Some(
                KeyOutcomeView::Action(
                    KeyActionView::SetRepositoryFormInput(without_last(active_field(c))),
                ),
            ),
            KeyCode::Char(x) => if typed {
                Some(
                    KeyOutcomeView::Action(
                        KeyActionView::SetRepositoryFormInput(active_field(c).push(x)),
                    ),
                )
            } else {
                None
            },
            _ => None,
        },
        DialogKind::ConfirmSetDefault | DialogKind::ConfirmUnregister => if ch == Some('y') {
            Some(KeyOutcomeView::Action(KeyActionView::ConfirmRepositoryAction))
        } else if ch == Some('n') {
            Some(KeyOutcomeView::Action(KeyActionView::Dismiss))
        } else if enter {
            Some(KeyOutcomeView::Action(KeyActionView::ConfirmRepositoryAction))
        } else if esc {
            Some(KeyOutcomeView::Action(KeyActionView::Dismiss))
        } else {
            None
        },
        DialogKind::Failure => if esc || enter {
            Some(KeyOutcomeView::Action(KeyActionView::Dismiss))
        } else {
            None
        },
    }
}

/// What a key press stands for: a released key nothing; a dialog takes every
/// key; then an overlay; then the commands that apply everywhere; then the
/// home, the tree, or the editor (where Escape returns to the files).
pub open spec fn key_outcome(c: KeyContext, key: KeyEvent) -> Option<KeyOutcomeView> {
    if key.kind == KeyEventKind::Release {
        None
    } else if c.dialog is Some {
        dialog_of(c, c.dialog->0, key)
    } else if c.overlay != OverlayKind::Nothing {
        match overlay_of(c.overlay, c.overlay_query@, key) {
            Some(a) => Some(KeyOutcomeView::Action(a)),
            None => None,
        }
    } else if global_of(key) is Some {
        Some(KeyOutcomeView::Action(KeyActionView::Global(global_of(key)->0)))
    } else {
        match c.screen {
            ScreenKind::Home => match home_of(key) {
                Some(a) => Some(KeyOutcomeView::Action(KeyActionView::Home(a))),
                None => None,
            },
            ScreenKind::Workspace(Focus::Tree) => match tree_of(key) {
                Some(a) => Some(KeyOutcomeView::Action(KeyActionView::Tree(a))),
                None => None,
            },
            ScreenKind::Workspace(Focus::Editor) => if key.code == KeyCode::Esc {
                Some(KeyOutcomeView::Action(KeyActionView::BrowseFiles))
            } else {
                match editor_of(key) {
                    Some(k) => Some(KeyOutcomeView::Action(KeyActionView::Editor(k))),
                    None => None,
                }
            },
        }
    }
}

/// The outcome's view, if any.
pub open spec fn outcome_view(o: Option<KeyOutcome>) -> Option<KeyOutcomeView> {
    match o {
        Some(x) => Some(x@),
        None => None,
    }
}

fn plain_character(key: KeyEvent) -> (c: Option<char>)
    ensures
        c == plain_char(key),
{
    if key.modifiers.control || key.modifiers.alt {
        return None;
    }
    match key.code {
        KeyCode::Char(c) => Some(to_ascii_lower(c)),
        _ => None,
    }
}

fn is_plain(m: KeyModifiers) -> (plain: bool)
    ensures
        plain == no_modifiers(m),
{
    !m.shift && !m.control && !m.alt && !m.super_key && !m.hyper && !m.meta
}

/// The commands that apply everywhere (see [`global_of`]).
pub fn global_action(key: KeyEvent) -> (action: Option<GlobalAction>)
    ensures
        action == global_of(key),
{
    if !key.modifiers.control {
        return None;
    }
    let c = match key.code {
        KeyCode::Char(c) => to_ascii_lower(c),
        _ => {
            return None;
        },
    };
    if c == 's' {
        Some(GlobalAction::Save)
    } else if c == 'g' {
        Some(GlobalAction::Push)
    } else if c == 'f' {
        Some(GlobalAction::Find)
    } else if c == 'p' {
        Some(GlobalAction::QuickOpen)
    } else if c == 'b' {
        Some(GlobalAction::ToggleSidebar)
    } else if c == 'z' {
        if key.modifiers.shift {
            Some(GlobalAction::Redo)
        } else {
            Some(GlobalAction::Undo)
        }
    } else if c == 'y' {
        Some(GlobalAction::Redo)
    } else if c == 'c' {
        Some(GlobalAction::Copy)
    } else if c == 'x' {
        Some(GlobalAction::Cut)
    } else if c == 'v' {
        Some(GlobalAction::Paste)
    } else if c == 'a' {
        Some(GlobalAction::SelectAll)
    } else if c == 'q' {
        Some(GlobalAction::Quit)
    } else {
        None
    }
}

/// Keys of the repository home (see [`home_of`]).
pub fn home_action(key: KeyEvent) -> (action: Option<HomeAction>)
    ensures
        action == home_of(key),
{
    match key.code {
        KeyCode::Up => Some(HomeAction::Up),
        KeyCode::Down => Some(HomeAction::Down),
        KeyCode::Enter => Some(HomeAction::OpenSelected),
        KeyCode::Char(c) => {
            let plain = is_plain(key.modifiers);
            if c == 'c' && plain {
                Some(HomeAction::CreateRepository)
            } else if c == 'a' && plain {
                Some(HomeAction::RegisterRepository)
            } else if (c == 'R' || c == 'r') && key.modifiers.shift {
                Some(HomeAction::RenameSelected)
            } else if c == 'd' && plain {
                Some(HomeAction::SetDefaultSelected)
            } else if c == 'u' && plain {
                Some(HomeAction::UnregisterSelected)
            } else {
                None
            }
        },
        _ => None,
    }
}

/// Keys of the file tree (see [`tree_of`]).
pub fn tree_action(key: KeyEvent) -> (action: Option<TreeAction>)
    ensures
        action == tree_of(key),
{
    match key.code {
        KeyCode::Up => Some(TreeAction::Up),
        KeyCode::Down => Some(TreeAction::Down),
        KeyCode::Left => Some(TreeAction::Left),
        KeyCode::Right => Some(TreeAction::Right),
        KeyCode::Enter => Some(TreeAction::Open),
        KeyCode::Char(c) => {
            let plain = is_plain(key.modifiers);
            if c == 'n' && !key.modifiers.shift {
                Some(TreeAction::NewFile)
            } else if (c == 'N' || c == 'n') && key.modifiers.shift {
                Some(TreeAction::NewFolder)
            } else if c == 'r' && plain {
                Some(TreeAction::Rename)
            } else if c == 'm' && plain {
                Some(TreeAction::Move)
            } else {
                None
            }
        },
        KeyCode::Delete => Some(TreeAction::Delete),
        KeyCode::Esc => Some(TreeAction::Escape),
        _ => None,
    }
}

/// Keys of the editor (see [`editor_of`]).
pub fn editor_action(key: KeyEvent) -> (action: Option<EditorKey>)
    ensures
        action == editor_of(key),
{
    let extend_selection = key.modifiers.shift;
    let command = key.modifiers.super_key;
    let option = key.modifiers.alt;
    let motion = match key.code {
        KeyCode::Left => Some(
            if command {
                Motion::LineStart
            } else if option {
                Motion::WordLeft
            } else {
                Motion::Left
            },
        ),
        KeyCode::Right => Some(
            if command {
                Motion::LineEnd
            } else if option {
                Motion::WordRight
            } else {
                Motion::Right
            },
        ),
        KeyCode::Up => Some(if command { Motion::DocumentStart } else { Motion::Up }),
        KeyCode::Down => Some(if command { Motion::DocumentEnd } else { Motion::Down }),
        KeyCode::Home => Some(Motion::LineStart),
        KeyCode::End => Some(Motion::LineEnd),
        _ => None,
    };
    if let Some(motion) = motion {
        return Some(EditorKey::Move { motion, extend_selection });
    }
    match key.code {
        KeyCode::Enter => Some(EditorKey::Newline),
        KeyCode::Backspace => Some(EditorKey::Backspace),
        KeyCode::Delete => Some(EditorKey::Delete),
        KeyCode::Tab => Some(EditorKey::Indent),
        KeyCode::BackTab => Some(EditorKey::Outdent),
        KeyCode::Char(c) => if !(key.modifiers.control || key.modifiers.alt
            || key.modifiers.super_key) {
            Some(EditorKey::Insert(c))
        } else {
            None
        },
        _ => None,
    }
}

/// A text without its last character.
fn dropped_last(s: &str) -> (rest: String)
    ensures
        rest@ == without_last(s@),
{
    let cs = chars_of(s);
    let n = cs.len();
    if n == 0 {
        return string_of(cs.as_slice());
    }
    let mut out: Vec<char> = Vec::new();
    let mut i: usize = 0;
    while i + 1 < n
        invariant
            n == cs@.len(),
            n > 0,
            i + 1 <= n,
            out@ == cs@.take(i as int),
        decreases n - i,
    {
        out.push(cs[i]);
        i = i + 1;
        assert(out@ =~= cs@.take(i as int));
    }
    assert(out@ =~= cs@.drop_last());
    string_of(out.as_slice())
}

/// A text with one more character.
fn pushed(s: &str, c: char) -> (more: String)
    ensures
        more@ == s@.push(c),
{
    let mut cs = chars_of(s);
    cs.push(c);
    string_of(cs.as_slice())
}

/// Keys of a search or quick-open overlay (see [`overlay_of`]).
pub fn overlay_action(overlay: OverlayKind, query: &str, key: KeyEvent) -> (action: Option<
    KeyAction,
>)
    ensures
        match action {
            Some(a) => overlay_of(overlay, query@, key) == Some(a@),
            None => overlay_of(overlay, query@, key) is None,
        },
{
    if overlay == OverlayKind::Nothing {
        return None;
    }
    match key.code {
        KeyCode::Esc => Some(KeyAction::Dismiss),
        KeyCode::Backspace => Some(KeyAction::SetOverlayQuery(dropped_last(query))),
        KeyCode::Enter => if overlay == OverlayKind::Search {
            Some(
                KeyAction::Editor(
                    if key.modifiers.shift {
                        EditorKey::FindPrevious
                    } else {
                        EditorKey::FindNext
                    },
                ),
            )
        } else {
            Some(KeyAction::SubmitOverlay)
        },
        KeyCode::Up => if overlay == OverlayKind::QuickOpen {
            Some(KeyAction::MoveOverlaySelection(-1))
        } else {
            None
        },
        KeyCode::Down => if overlay == OverlayKind::QuickOpen {
            Some(KeyAction::MoveOverlaySelection(1))
        } else {
            None
        },
        KeyCode::Char(c) => if !(key.modifiers.control || key.modifiers.alt) {
            Some(KeyAction::SetOverlayQuery(pushed(query, c)))
        } else {
            None
        },
        _ => None,
    }
}

/// Keys of a dialog (see [`dialog_of`]).
pub fn dialog_event(context: &KeyContext, dialog: DialogKind, key: KeyEvent) -> (outcome: Option<
    KeyOutcome,
>)
    ensures
        outcome_view(outcome) == dialog_of(*context, dialog, key),
{
    let ch = plain_character(key);
    let esc = key.code == KeyCode::Esc;
    let enter = key.code == KeyCode::Enter;
    let typed = !(key.modifiers.control || key.modifiers.alt);
    match dialog {
        DialogKind::DirtyNavigation => if ch == Some('s') {
            Some(KeyOutcome::DirtyChoice(DirtyChoice::Save))
        } else if ch == Some('d') {
            Some(KeyOutcome::DirtyChoice(DirtyChoice::Discard))
        } else if ch == Some('c') || esc {
            Some(KeyOutcome::DirtyChoice(DirtyChoice::Cancel))
        } else {
            None
        },
        DialogKind::ExternalConflict => if ch == Some('r') {
            Some(KeyOutcome::ConflictChoice(ConflictChoice::Reload))
        } else if ch == Some('o') {
            Some(KeyOutcome::ConflictChoice(ConflictChoice::Overwrite))
        } else if ch == Some('c') || esc {
            Some(KeyOutcome::ConflictChoice(ConflictChoice::Cancel))
        } else {
            None
        },
        DialogKind::SavedCommitFailed => if ch == Some('r') || ch == Some('s') {
            Some(KeyOutcome::Action(KeyAction::Global(GlobalAction::Save)))
        } else if esc {
            Some(KeyOutcome::Action(KeyAction::Dismiss))
        } else {
            None
        },
        DialogKind::ConfirmDelete => if ch == Some('y') && key.code == KeyCode::Char('y') {
            Some(KeyOutcome::Action(KeyAction::ConfirmDelete))
        } else if ch == Some('n') {
            Some(KeyOutcome::Action(KeyAction::Dismiss))
        } else if ch == Some('y') {
            None
        } else if enter {
            Some(KeyOutcome::Action(KeyAction::ConfirmDelete))
        } else if esc {
            Some(KeyOutcome::Action(KeyAction::Dismiss))
        } else {
            None
        },
        DialogKind::FileAction => match key.code {
            KeyCode::Esc => Some(KeyOutcome::Action(KeyAction::Dismiss)),
            KeyCode::Enter => if !context.dialog_input.as_str().is_empty() {
                Some(KeyOutcome::Action(KeyAction::SubmitFileAction(context.dialog_input.clone())))
            } else {
                None
            },
            KeyCode::Backspace => Some(
                KeyOutcome::Action(
                    KeyAction::SetDialogInput(dropped_last(context.dialog_input.as_str())),
                ),
            ),
            KeyCode::Char(x) => if typed {
                Some(
                    KeyOutcome::Action(
                        KeyAction::SetDialogInput(pushed(context.dialog_input.as_str(), x)),
                    ),
                )
            } else {
                None
            },
            _ => None,
        },
        DialogKind::RepositoryForm(kind) => {
            let field = match context.form_field {
                RepositoryFormField::Name => context.form_name.as_str(),
                RepositoryFormField::Path => context.form_path.as_str(),
            };
            match key.code {
                KeyCode::Esc => Some(KeyOutcome::Action(KeyAction::Dismiss)),
                KeyCode::Tab => if kind == RepositoryActionKind::Create || kind
                    == RepositoryActionKind::Register {
                    Some(KeyOutcome::Action(KeyAction::ToggleRepositoryFormField))
                } else {
                    None
                },
                KeyCode::Enter => if !blank(context.form_name.as_str()) && (kind
                    == RepositoryActionKind::Rename || !blank(context.form_path.as_str())) {
                    Some(KeyOutcome::Action(KeyAction::SubmitRepositoryForm))
                } else {
                    None
                },
                KeyCode::Backspace => Some(
                    KeyOutcome::Action(KeyAction::SetRepositoryFormInput(dropped_last(field))),
                ),
                KeyCode::Char(x) => if typed {
                    Some(KeyOutcome::Action(KeyAction::SetRepositoryFormInput(pushed(field, x))))
                } else {
                    None
                },
                _ => None,
            }
        },
        DialogKind::ConfirmSetDefault | DialogKind::ConfirmUnregister => if ch == Some('y') {
            Some(KeyOutcome::Action(KeyAction::ConfirmRepositoryAction))
        } else if ch == Some('n') {
            Some(KeyOutcome::Action(KeyAction::Dismiss))
        } else if enter {
            Some(KeyOutcome::Action(KeyAction::ConfirmRepositoryAction))
        } else if esc {
            Some(KeyOutcome::Action(KeyAction::Dismiss))
        } else {
            None
        },
        DialogKind::Failure => if esc || enter {
            Some(KeyOutcome::Action(KeyAction::Dismiss))
        } else {
            None
        },
    }
}

/// What a key press stands for (see [`key_outcome`]).
pub fn map_key(context: &KeyContext, key: KeyEvent) -> (outcome: Option<KeyOutcome>)
    ensures
        outcome_view(outcome) == key_outcome(*context, key),
{
    if key.kind == KeyEventKind::Release {
        return None;
    }
    if let Some(dialog) = context.dialog {
        return dialog_event(context, dialog, key);
    }
    if context.overlay != OverlayKind::Nothing {
        return match overlay_action(context.overlay, context.overlay_query.as_str(), key) {
            Some(a) => Some(KeyOutcome::Action(a)),
            None => None,
        };
    }
    if let Some(action) = global_action(key) {
        return Some(KeyOutcome::Action(KeyAction::Global(action)));
    }
    match context.screen {
        ScreenKind::Home => match home_action(key) {
            Some(a) => Some(KeyOutcome::Action(KeyAction::Home(a))),
            None => None,
        },
        ScreenKind::Workspace(Focus::Tree) => match tree_action(key) {
            Some(a) => Some(KeyOutcome::Action(KeyAction::Tree(a))),
            None => None,
        },
        ScreenKind::Workspace(Focus::Editor) => if key.code == KeyCode::Esc {
            Some(KeyOutcome::Action(KeyAction::BrowseFiles))
        } else {
            match editor_action(key) {
                Some(k) => Some(KeyOutcome::Action(KeyAction::Editor(k))),
                None => None,
            }
        },
    }
}

} // verus!
