//! What each dialog says: its title, its lines, the choices it offers, its
//! height and its accent colour.
use vstd::prelude::*;

use crate::app::browser::FileActionKind;
use crate::app::keymap::{RepositoryActionKind, RepositoryFormField};
use crate::app::session::{ExternalConflict, FailureKind, SessionDialog};
use crate::workspace::tree::text_views;
use crate::text::{concat, concat3};
use crate::ui::layout::{selection_viewport, viewport_of};

verus! {

/// The colour of a dialog's border.
#[derive(Clone, Copy, PartialEq, Eq, Structural, Debug)]
pub enum Accent {
    Yellow,
    Red,
    Cyan,
}

/// One line of a dialog.
#[derive(Debug, PartialEq, Eq)]
pub enum DialogLine {
    /// Text, in bold or not.
    Text { text: String, bold: bool },
    /// An empty line.
    Blank,
    /// The keys the dialog answers to, each with what it does.
    Choices(Vec<(String, String)>),
    /// A row of a list, the selected one.
    Selected(String),
    /// A remark shown dimmed.
    Muted(String),
}

/// What a dialog shows.
#[derive(Debug, PartialEq, Eq)]
pub struct DialogContent {
    pub title: String,
    pub lines: Vec<DialogLine>,
    pub height: u16,
    pub accent: Accent,
}

/// [`DialogLine`] as mathematical values.
pub enum LineView {
    Text(Seq<char>, bool),
    Blank,
    Choices(Seq<(Seq<char>, Seq<char>)>),
    Selected(Seq<char>),
    Muted(Seq<char>),
}

/// [`DialogContent`] as mathematical values.
pub struct ContentView {
    pub title: Seq<char>,
    pub lines: Seq<LineView>,
    pub height: u16,
    pub accent: Accent,
}

/// The key and label of each choice.
pub open spec fn choice_views(choices: Seq<(String, String)>) -> Seq<(Seq<char>, Seq<char>)> {
    choices.map_values(|c: (String, String)| (c.0@, c.1@))
}

/// A piece of a line of choices: its text, and whether it is a key (shown
/// emphasised) or plain text.
#[derive(Debug, PartialEq, Eq)]
pub struct ChoicePiece {
    pub text: String,
    pub key: bool,
}

/// [`ChoicePiece`]s as mathematical values.
pub open spec fn piece_views(pieces: Seq<ChoicePiece>) -> Seq<(Seq<char>, bool)> {
    pieces.map_values(|p: ChoicePiece| (p.text@, p.key))
}

/// How a line of choices reads: for each choice its key in brackets, then a
/// space and its label, the choices three spaces apart.
pub open spec fn choice_pieces_of(choices: Seq<(Seq<char>, Seq<char>)>) -> Seq<(Seq<char>, bool)>
    decreases choices.len(),
{
    if choices.len() == 0 {
        Seq::empty()
    } else {
        let before = choice_pieces_of(choices.drop_last());
        let gap: Seq<(Seq<char>, bool)> = if choices.len() > 1 {
            seq![(seq![' ', ' ', ' '], false)]
        } else {
            Seq::empty()
        };
        before + gap + seq![
            (seq!['['] + choices.last().0 + seq![']'], true),
            (seq![' '] + choices.last().1, false),
        ]
    }
}

/// The pieces that a line of choices is drawn from (see [`choice_pieces_of`]).
pub fn choice_pieces(choices: &Vec<(String, String)>) -> (pieces: Vec<ChoicePiece>)
    ensures
        piece_views(pieces@) == choice_pieces_of(choice_views(choices@)),
{
    let ghost cs = choice_views(choices@);
    let mut pieces: Vec<ChoicePiece> = Vec::new();
    let mut i: usize = 0;
    proof {
        assert(cs.take(0) =~= Seq::<(Seq<char>, Seq<char>)>::empty());
        assert(piece_views(pieces@) =~= Seq::<(Seq<char>, bool)>::empty());
    }
    while i < choices.len()
        invariant
            i <= choices@.len(),
            cs == choice_views(choices@),
            cs.len() == choices@.len(),
            piece_views(pieces@) == choice_pieces_of(cs.take(i as int)),
        decreases choices@.len() - i,
    {
        proof {
            reveal_strlit("   ");
            reveal_strlit("[");
            reveal_strlit("]");
            reveal_strlit(" ");
        }
        let ghost before = pieces@;
        if i > 0 {
            pieces.push(ChoicePiece { text: "   ".to_owned(), key: false });
        }
        let key = concat3("[", choices[i].0.as_str(), "]");
        let label = concat(" ", choices[i].1.as_str());
        pieces.push(ChoicePiece { text: key, key: true });
        pieces.push(ChoicePiece { text: label, key: false });
        proof {
            let t = cs.take(i + 1);
            assert(t.drop_last() =~= cs.take(i as int));
            assert(t.last() == cs[i as int]);
            assert(cs[i as int] == (choices@[i as int].0@, choices@[i as int].1@));
            let gap: Seq<(Seq<char>, bool)> = if i > 0 {
                seq![(seq![' ', ' ', ' '], false)]
            } else {
                Seq::empty()
            };
            let want = piece_views(before) + gap + seq![
                (seq!['['] + cs[i as int].0 + seq![']'], true),
                (seq![' '] + cs[i as int].1, false),
            ];
            assert(pieces@.len() == before.len() + gap.len() + 2);
            assert forall|j: int| 0 <= j < pieces@.len() implies piece_views(pieces@)[j] == want[j] by {
                if j < before.len() {
                    assert(pieces@[j] == before[j]);
                }
            }
            assert(piece_views(pieces@) =~= want);
        }
        i = i + 1;
    }
    proof {
        assert(cs.take(choices@.len() as int) =~= cs);
    }
    pieces
}

/// A line as mathematical values.
pub open spec fn line_view(line: DialogLine) -> LineView {
    match line {
        DialogLine::Text { text, bold } => LineView::Text(text@, bold),
        DialogLine::Blank => LineView::Blank,
        DialogLine::Choices(choices) => LineView::Choices(choice_views(choices@)),
        DialogLine::Selected(text) => LineView::Selected(text@),
        DialogLine::Muted(text) => LineView::Muted(text@),
    }
}

/// The content as mathematical values.
pub open spec fn content_view(content: DialogContent) -> ContentView {
    ContentView {
        title: content.title@,
        lines: content.lines@.map_values(|l: DialogLine| line_view(l)),
        height: content.height,
        accent: content.accent,
    }
}

/// A plain line of text.
pub open spec fn plain(text: Seq<char>) -> LineView {
    LineView::Text(text, false)
}

/// What the unsaved-changes, conflict, commit-failure and failure dialogs show.
pub open spec fn session_dialog_view(dialog: SessionDialog) -> ContentView {
    match dialog {
        SessionDialog::DirtyNavigation => ContentView {
            title: " Unsaved changes "@,
            lines: seq![
                plain("This note has changes that have not been saved."@),
                LineView::Blank,
                LineView::Choices(seq![("s"@, "Save"@), ("d"@, "Discard"@), ("Esc"@, "Cancel"@)]),
            ],
            height: 7,
            accent: Accent::Yellow,
        },
        SessionDialog::ExternalConflict(conflict) => {
            let (verb, path) = match conflict {
                ExternalConflict::Modified { path } => ("modified"@, path@),
                ExternalConflict::Deleted { path } => ("deleted"@, path@),
            };
            ContentView {
                title: " External conflict "@,
                lines: seq![
                    plain(path + " was "@ + verb + " outside Carnet."@),
                    plain("Reload uses the disk version; overwrite keeps this editor version."@),
                    LineView::Blank,
                    LineView::Choices(
                        seq![("r"@, "Reload"@), ("o"@, "Overwrite"@), ("Esc"@, "Cancel"@)],
                    ),
                ],
                height: 8,
                accent: Accent::Yellow,
            }
        },
        SessionDialog::SavedCommitFailed { message } => ContentView {
            title: " Git failure "@,
            lines: seq![
                LineView::Text("The file was saved, but it was not committed."@, true),
                plain(message@),
                LineView::Blank,
                LineView::Choices(seq![("r"@, "Retry commit"@), ("Esc"@, "Continue editing"@)]),
            ],
            height: 8,
            accent: Accent::Red,
        },
        SessionDialog::Failure { kind, message } => ContentView {
            title: match kind {
                FailureKind::Runtime => " Runtime failure "@,
                FailureKind::Write => " Write failure "@,
                FailureKind::Git => " Git failure "@,
            },
            lines: seq![
                plain(message@),
                LineView::Blank,
                LineView::Choices(seq![("Enter/Esc"@, "Dismiss"@)]),
            ],
            height: 7,
            accent: Accent::Red,
        },
    }
}

/// The title and prompt of each file action.
pub open spec fn file_action_words(kind: FileActionKind) -> (Seq<char>, Seq<char>) {
    match kind {
        FileActionKind::NewFile => (" New file "@, "Path for the new file"@),
        FileActionKind::NewFolder => (" New folder "@, "Path for the new folder"@),
        FileActionKind::Rename => (" Rename "@, "New path"@),
        FileActionKind::Move => (" Move "@, "Destination path"@),
    }
}

/// What the dialog of a file action shows: where it acts, and the path typed
/// so far after the prompt, with a cursor mark.
pub open spec fn file_action_view(kind: FileActionKind, target: Option<Seq<char>>, input: Seq<char>) -> ContentView {
    ContentView {
        title: file_action_words(kind).0,
        lines: seq![
            plain(
                match target {
                    Some(path) => "Selected: "@ + path,
                    None => "At repository root"@,
                },
            ),
            plain(file_action_words(kind).1 + ": "@ + input + "_"@),
            LineView::Blank,
            LineView::Choices(seq![("Enter"@, "Submit"@), ("Esc"@, "Cancel"@)]),
        ],
        height: 8,
        accent: Accent::Cyan,
    }
}

/// What the delete confirmation shows.
pub open spec fn confirm_delete_view(path: Seq<char>) -> ContentView {
    ContentView {
        title: " Confirm delete "@,
        lines: seq![
            plain("Delete "@ + path + "?"@),
            plain("This removes the selected file or folder from disk."@),
            LineView::Blank,
            LineView::Choices(seq![("y/Enter"@, "Delete"@), ("n/Esc"@, "Cancel"@)]),
        ],
        height: 8,
        accent: Accent::Red,
    }
}

fn text_line(text: &str) -> (line: DialogLine)
    ensures
        line_view(line) == plain(text@),
{
    DialogLine::Text { text: text.to_owned(), bold: false }
}

fn choice(key: &str, label: &str) -> (pair: (String, String))
    ensures
        pair.0@ == key@,
        pair.1@ == label@,
{
    (key.to_owned(), label.to_owned())
}

/// The line of one choice.
fn one_choice(k1: &str, l1: &str) -> (line: DialogLine)
    ensures
        line_view(line) == LineView::Choices(seq![(k1@, l1@)]),
{
    let cs = vec![choice(k1, l1)];
    assert(choice_views(cs@) =~= seq![(k1@, l1@)]);
    DialogLine::Choices(cs)
}

/// The line of two choices.
fn two_choices(k1: &str, l1: &str, k2: &str, l2: &str) -> (line: DialogLine)
    ensures
        line_view(line) == LineView::Choices(seq![(k1@, l1@), (k2@, l2@)]),
{
    let cs = vec![choice(k1, l1), choice(k2, l2)];
    assert(choice_views(cs@) =~= seq![(k1@, l1@), (k2@, l2@)]);
    DialogLine::Choices(cs)
}

/// The line of three choices.
fn three_choices(k1: &str, l1: &str, k2: &str, l2: &str, k3: &str, l3: &str) -> (line: DialogLine)
    ensures
        line_view(line) == LineView::Choices(seq![(k1@, l1@), (k2@, l2@), (k3@, l3@)]),
{
    let cs = vec![choice(k1, l1), choice(k2, l2), choice(k3, l3)];
    assert(choice_views(cs@) =~= seq![(k1@, l1@), (k2@, l2@), (k3@, l3@)]);
    DialogLine::Choices(cs)
}

/// What a dialog of the session shows.
pub fn session_dialog_content(dialog: &SessionDialog) -> (content: DialogContent)
    ensures
        content_view(content) == session_dialog_view(*dialog),
{
    let content = match dialog {
        SessionDialog::DirtyNavigation => DialogContent {
            title: " Unsaved changes ".to_owned(),
            lines: vec![
                text_line("This note has changes that have not been saved."),
                DialogLine::Blank,
                three_choices("s", "Save", "d", "Discard", "Esc", "Cancel"),
            ],
            height: 7,
            accent: Accent::Yellow,
        },
        SessionDialog::ExternalConflict(conflict) => {
            let (verb, path) = match conflict {
                ExternalConflict::Modified { path } => ("modified", path),
                ExternalConflict::Deleted { path } => ("deleted", path),
            };
            let first = concat(&concat(&concat(path.as_str(), " was "), verb), " outside Carnet.");
            DialogContent {
                title: " External conflict ".to_owned(),
                lines: vec![
                    DialogLine::Text { text: first, bold: false },
                    text_line("Reload uses the disk version; overwrite keeps this editor version."),
                    DialogLine::Blank,
                    three_choices("r", "Reload", "o", "Overwrite", "Esc", "Cancel"),
                ],
                height: 8,
                accent: Accent::Yellow,
            }
        },
        SessionDialog::SavedCommitFailed { message } => DialogContent {
            title: " Git failure ".to_owned(),
            lines: vec![
                DialogLine::Text {
                    text: "The file was saved, but it was not committed.".to_owned(),
                    bold: true,
                },
                text_line(message.as_str()),
                DialogLine::Blank,
                two_choices("r", "Retry commit", "Esc", "Continue editing"),
            ],
            height: 8,
            accent: Accent::Red,
        },
        SessionDialog::Failure { kind, message } => {
            let title = match kind {
                FailureKind::Runtime => " Runtime failure ",
                FailureKind::Write => " Write failure ",
                FailureKind::Git => " Git failure ",
            };
            DialogContent {
                title: title.to_owned(),
                lines: vec![
                    text_line(message.as_str()),
                    DialogLine::Blank,
                    one_choice("Enter/Esc", "Dismiss"),
                ],
                height: 7,
                accent: Accent::Red,
            }
        },
    };
    proof {
        assert(content_view(content).lines =~~= session_dialog_view(*dialog).lines);
    }
    content
}


/// What the dialog of a file action shows (see [`file_action_view`]).
pub fn file_action_content(kind: FileActionKind, target: Option<&str>, input: &str) -> (content:
    DialogContent)
    ensures
        content_view(content) == file_action_view(
            kind,
            match target {
                Some(t) => Some(t@),
                None => None,
            },
            input@,
        ),
{
    let (title, prompt) = match kind {
        FileActionKind::NewFile => (" New file ", "Path for the new file"),
        FileActionKind::NewFolder => (" New folder ", "Path for the new folder"),
        FileActionKind::Rename => (" Rename ", "New path"),
        FileActionKind::Move => (" Move ", "Destination path"),
    };
    let context = match target {
        Some(path) => concat("Selected: ", path),
        None => "At repository root".to_owned(),
    };
    let typed = concat(&concat(&concat(prompt, ": "), input), "_");
    let content = DialogContent {
        title: title.to_owned(),
        lines: vec![
            DialogLine::Text { text: context, bold: false },
            DialogLine::Text { text: typed, bold: false },
            DialogLine::Blank,
            two_choices("Enter", "Submit", "Esc", "Cancel"),
        ],
        height: 8,
        accent: Accent::Cyan,
    };
    proof {
        let t = match target {
            Some(t) => Some(t@),
            None => None,
        };
        assert(content_view(content).lines =~= file_action_view(kind, t, input@).lines);
    }
    content
}

/// What the delete confirmation shows (see [`confirm_delete_view`]).
pub fn confirm_delete_content(path: &str) -> (content: DialogContent)
    ensures
        content_view(content) == confirm_delete_view(path@),
{
    let question = concat(&concat("Delete ", path), "?");
    let content = DialogContent {
        title: " Confirm delete ".to_owned(),
        lines: vec![
            DialogLine::Text { text: question, bold: false },
            text_line("This removes the selected file or folder from disk."),
            DialogLine::Blank,
            two_choices("y/Enter", "Delete", "n/Esc", "Cancel"),
        ],
        height: 8,
        accent: Accent::Red,
    };
    assert(content_view(content).lines =~= confirm_delete_view(path@).lines);
    content
}


/// What the find overlay shows: the query typed so far, with a cursor mark.
pub open spec fn search_view(query: Seq<char>) -> ContentView {
    ContentView {
        title: " Find in note "@,
        lines: seq![
            plain("Find: "@ + query + "_"@),
            LineView::Choices(
                seq![("Enter"@, "Next"@), ("Shift+Enter"@, "Previous"@), ("Esc"@, "Close"@)],
            ),
        ],
        height: 5,
        accent: Accent::Cyan,
    }
}

/// What the find overlay shows (see [`search_view`]).
pub fn search_content(query: &str) -> (content: DialogContent)
    ensures
        content_view(content) == search_view(query@),
{
    let content = DialogContent {
        title: " Find in note ".to_owned(),
        lines: vec![
            DialogLine::Text { text: concat3("Find: ", query, "_"), bold: false },
            three_choices("Enter", "Next", "Shift+Enter", "Previous", "Esc", "Close"),
        ],
        height: 5,
        accent: Accent::Cyan,
    };
    assert(content_view(content).lines =~= search_view(query@).lines);
    content
}

/// The height the quick-open box asks for: a line per file and five more,
/// between 7 and 16.
pub open spec fn quick_open_height_of(count: int) -> int {
    let h = count + 5;
    if h < 7 {
        7
    } else if h > 16 {
        16
    } else {
        h
    }
}

/// The height the quick-open box asks for (see [`quick_open_height_of`]).
pub fn quick_open_height(count: usize) -> (height: u16)
    ensures
        height as int == quick_open_height_of(count as int),
{
    if count < 2 {
        7
    } else if count > 11 {
        16
    } else {
        (count + 5) as u16
    }
}

/// The file rows of the quick-open box, from `from` to `to`: the selected one
/// marked.
pub open spec fn file_rows(files: Seq<Seq<char>>, selected: int, from: int, to: int) -> Seq<LineView>
    decreases to - from,
{
    if to <= from {
        Seq::empty()
    } else {
        file_rows(files, selected, from, to - 1).push(
            if to - 1 == selected {
                LineView::Selected(files[to - 1])
            } else {
                plain(files[to - 1])
            },
        )
    }
}

/// What the quick-open box of height `box_height` shows: the query, the
/// matching files that fit around the selected one (the first when none is
/// selected), or a remark when none matches, and its keys.
pub open spec fn quick_open_view(
    query: Seq<char>,
    files: Seq<Seq<char>>,
    selected: Option<int>,
    box_height: int,
) -> ContentView {
    let capacity = if box_height >= 5 { box_height - 5 } else { 0 };
    let s = match selected {
        Some(s) => s,
        None => 0,
    };
    let rows = viewport_of(files.len() as int, Some(s), capacity);
    ContentView {
        title: " Quick open "@,
        lines: seq![plain("Open: "@ + query + "_"@)] + (if files.len() == 0 {
            seq![LineView::Muted("No matching text files"@)]
        } else {
            file_rows(files, s, rows.0, rows.1)
        }) + seq![
            LineView::Blank,
            LineView::Choices(seq![("↑/↓"@, "Select"@), ("Enter"@, "Open"@), ("Esc"@, "Close"@)]),
        ],
        height: quick_open_height_of(files.len() as int) as u16,
        accent: Accent::Cyan,
    }
}

/// What the quick-open box shows (see [`quick_open_view`]).
pub fn quick_open_content(query: &str, files: &Vec<String>, selected: Option<usize>, box_height: u16) -> (content:
    DialogContent)
    ensures
        content_view(content) == quick_open_view(
            query@,
            text_views(files@),
            match selected {
                Some(s) => Some(s as int),
                None => None,
            },
            box_height as int,
        ),
{
    let capacity: usize = if box_height >= 5 { (box_height - 5) as usize } else { 0 };
    let s = match selected {
        Some(s) => s,
        None => 0,
    };
    let mut lines: Vec<DialogLine> = Vec::new();
    lines.push(DialogLine::Text { text: concat3("Open: ", query, "_"), bold: false });
    let ghost head = lines@.map_values(|l: DialogLine| line_view(l));
    assert(head =~= seq![plain("Open: "@ + query@ + "_"@)]);
    if files.len() == 0 {
        lines.push(DialogLine::Muted("No matching text files".to_owned()));
        assert(lines@.map_values(|l: DialogLine| line_view(l)) =~= head + seq![
            LineView::Muted("No matching text files"@),
        ]);
    } else {
        let rows = selection_viewport(files.len(), Some(s), capacity);
        let mut i = rows.start;
        while i < rows.end
            invariant
                rows.start <= i <= rows.end,
                rows.end <= files@.len(),
                lines@.map_values(|l: DialogLine| line_view(l)) == head + file_rows(
                    text_views(files@),
                    s as int,
                    rows.start as int,
                    i as int,
                ),
            decreases rows.end - i,
        {
            let ghost before = lines@;
            if i == s {
                lines.push(DialogLine::Selected(files[i].clone()));
            } else {
                lines.push(DialogLine::Text { text: files[i].clone(), bold: false });
            }
            assert(lines@.map_values(|l: DialogLine| line_view(l)) =~= before.map_values(
                |l: DialogLine| line_view(l),
            ).push(line_view(lines@[lines@.len() - 1])));
            i = i + 1;
        }
        assert(text_views(files@).len() == files@.len());
    }
    let ghost body = lines@.map_values(|l: DialogLine| line_view(l));
    lines.push(DialogLine::Blank);
    lines.push(three_choices("↑/↓", "Select", "Enter", "Open", "Esc", "Close"));
    assert(lines@.map_values(|l: DialogLine| line_view(l)) =~= body + seq![
        LineView::Blank,
        LineView::Choices(seq![("↑/↓"@, "Select"@), ("Enter"@, "Open"@), ("Esc"@, "Close"@)]),
    ]);
    let content = DialogContent {
        title: " Quick open ".to_owned(),
        lines,
        height: quick_open_height(files.len()),
        accent: Accent::Cyan,
    };
    proof {
        let v = quick_open_view(
            query@,
            text_views(files@),
            match selected {
                Some(s) => Some(s as int),
                None => None,
            },
            box_height as int,
        );
        assert(content_view(content).lines =~= v.lines);
    }
    content
}

/// A field of the repository form: its label, what was typed, and a cursor
/// mark when it is the field being edited.
pub open spec fn form_field_text(label: Seq<char>, value: Seq<char>, active: bool) -> Seq<char> {
    label + ": "@ + value + if active {
        "_"@
    } else {
        Seq::empty()
    }
}

/// What the repository form shows: to create a repository (a name and a
/// directory to create), to register one (a name and an existing directory),
/// or to rename a registration (the name alone).
pub open spec fn repository_form_view(
    kind: RepositoryActionKind,
    name: Seq<char>,
    path: Seq<char>,
    field: RepositoryFormField,
) -> ContentView {
    let name_line = plain(form_field_text("Repository name"@, name, field == RepositoryFormField::Name));
    match kind {
        RepositoryActionKind::Create => ContentView {
            title: " Create repository "@,
            lines: seq![
                name_line,
                plain(form_field_text("Directory to create"@, path, field == RepositoryFormField::Path)),
                LineView::Blank,
                LineView::Choices(seq![("Tab"@, "Switch field"@), ("Enter"@, "Create"@), ("Esc"@, "Cancel"@)]),
            ],
            height: 8,
            accent: Accent::Cyan,
        },
        RepositoryActionKind::Register => ContentView {
            title: " Register repository "@,
            lines: seq![
                name_line,
                plain(form_field_text("Existing directory"@, path, field == RepositoryFormField::Path)),
                LineView::Blank,
                LineView::Choices(seq![("Tab"@, "Switch field"@), ("Enter"@, "Register"@), ("Esc"@, "Cancel"@)]),
            ],
            height: 8,
            accent: Accent::Cyan,
        },
        RepositoryActionKind::Rename => ContentView {
            title: " Rename registration "@,
            lines: seq![
                plain(form_field_text("Repository name"@, name, true)),
                LineView::Blank,
                LineView::Choices(seq![("Enter"@, "Rename"@), ("Esc"@, "Cancel"@)]),
            ],
            height: 7,
            accent: Accent::Cyan,
        },
    }
}

fn form_field_line(label: &str, value: &str, active: bool) -> (line: DialogLine)
    ensures
        line_view(line) == plain(form_field_text(label@, value@, active)),
{
    let text = concat3(label, ": ", value);
    let text = if active {
        concat(text.as_str(), "_")
    } else {
        text
    };
    proof {
        reveal_strlit("");
        assert(label@ + ": "@ + value@ + Seq::<char>::empty() =~= label@ + ": "@ + value@);
    }
    DialogLine::Text { text, bold: false }
}

/// What the repository form shows (see [`repository_form_view`]).
pub fn repository_form_content(
    kind: RepositoryActionKind,
    name: &str,
    path: &str,
    field: RepositoryFormField,
) -> (content: DialogContent)
    ensures
        content_view(content) == repository_form_view(kind, name@, path@, field),
{
    let name_active = match field {
        RepositoryFormField::Name => true,
        RepositoryFormField::Path => false,
    };
    let content = match kind {
        RepositoryActionKind::Create => DialogContent {
            title: " Create repository ".to_owned(),
            lines: vec![
                form_field_line("Repository name", name, name_active),
                form_field_line("Directory to create", path, !name_active),
                DialogLine::Blank,
                three_choices("Tab", "Switch field", "Enter", "Create", "Esc", "Cancel"),
            ],
            height: 8,
            accent: Accent::Cyan,
        },
        RepositoryActionKind::Register => DialogContent {
            title: " Register repository ".to_owned(),
            lines: vec![
                form_field_line("Repository name", name, name_active),
                form_field_line("Existing directory", path, !name_active),
                DialogLine::Blank,
                three_choices("Tab", "Switch field", "Enter", "Register", "Esc", "Cancel"),
            ],
            height: 8,
            accent: Accent::Cyan,
        },
        RepositoryActionKind::Rename => DialogContent {
            title: " Rename registration ".to_owned(),
            lines: vec![
                form_field_line("Repository name", name, true),
                DialogLine::Blank,
                two_choices("Enter", "Rename", "Esc", "Cancel"),
            ],
            height: 7,
            accent: Accent::Cyan,
        },
    };
    assert(content_view(content).lines =~= repository_form_view(kind, name@, path@, field).lines);
    content
}

/// What the question before making a repository the default shows.
pub open spec fn confirm_set_default_view(name: Seq<char>) -> ContentView {
    ContentView {
        title: " Default repository "@,
        lines: seq![
            plain("Use "@ + name + " as the default repository?"@),
            LineView::Blank,
            LineView::Choices(seq![("y/Enter"@, "Set default"@), ("n/Esc"@, "Cancel"@)]),
        ],
        height: 7,
        accent: Accent::Cyan,
    }
}

/// What the question before making a repository the default shows (see
/// [`confirm_set_default_view`]).
pub fn confirm_set_default_content(name: &str) -> (content: DialogContent)
    ensures
        content_view(content) == confirm_set_default_view(name@),
{
    let content = DialogContent {
        title: " Default repository ".to_owned(),
        lines: vec![
            DialogLine::Text { text: concat3("Use ", name, " as the default repository?"), bold: false },
            DialogLine::Blank,
            two_choices("y/Enter", "Set default", "n/Esc", "Cancel"),
        ],
        height: 7,
        accent: Accent::Cyan,
    };
    assert(content_view(content).lines =~= confirm_set_default_view(name@).lines);
    content
}

/// What the question before removing a registration shows: the repository's
/// files stay on disk.
pub open spec fn confirm_unregister_view(name: Seq<char>) -> ContentView {
    ContentView {
        title: " Unregister repository "@,
        lines: seq![
            plain("Remove "@ + name + " from Carnet's registrations?"@),
            plain("Its files on disk will not be deleted."@),
            LineView::Blank,
            LineView::Choices(seq![("y/Enter"@, "Unregister"@), ("n/Esc"@, "Cancel"@)]),
        ],
        height: 8,
        accent: Accent::Red,
    }
}

/// What the question before removing a registration shows (see
/// [`confirm_unregister_view`]).
pub fn confirm_unregister_content(name: &str) -> (content: DialogContent)
    ensures
        content_view(content) == confirm_unregister_view(name@),
{
    let content = DialogContent {
        title: " Unregister repository ".to_owned(),
        lines: vec![
            DialogLine::Text { text: concat3("Remove ", name, " from Carnet's registrations?"), bold: false },
            text_line("Its files on disk will not be deleted."),
            DialogLine::Blank,
            two_choices("y/Enter", "Unregister", "n/Esc", "Cancel"),
        ],
        height: 8,
        accent: Accent::Red,
    };
    assert(content_view(content).lines =~= confirm_unregister_view(name@).lines);
    content
}

} // verus!
