//! Editing commands on a loaded note.
use vstd::prelude::*;

use super::buffer::{
    boundary_at_or_after, boundary_at_or_before, line_end, line_start, next_boundary,
    next_word_end, previous_boundary, previous_word_start, vertical_column, vertical_target,
    TextBuffer,
};
use super::clipboard::{Clipboard, FallbackClipboard};
use super::highlight::{language_for, language_for_path, HighlightLanguage};
use super::syntax::{highlights_of, HighlightCache, HighlightSpan};
use super::history::{recorded_undo, History, Snapshot, EDITOR_HISTORY_ENTRY_LIMIT};
use super::rope::{rope_char_to_line, rope_len_lines, rope_line_to_char};
use super::search::{literal_matches, navigated_index, SearchState};
use crate::text::{chars_of, string_of};
use crate::workspace::files::{FileOperation, LoadedNote};

verus! {

/// A cursor motion.
#[derive(Clone, Copy, PartialEq, Eq, Structural, Debug)]
pub enum Motion {
    Left,
    Right,
    Up,
    Down,
    LineStart,
    LineEnd,
    DocumentStart,
    DocumentEnd,
    WordLeft,
    WordRight,
}

/// A command the editor carries out.
#[derive(Clone, Debug)]
pub enum EditorCommand {
    Move { motion: Motion, extend_selection: bool },
    Insert(String),
    Backspace,
    Delete,
    Newline,
    BracketedPaste(String),
    Copy,
    Cut,
    Paste,
    SelectAll,
    Indent,
    Outdent,
    Undo,
    Redo,
    SetFindQuery(String),
    FindNext,
    FindPrevious,
}

/// What a command did.
#[derive(Clone, Copy, PartialEq, Eq, Structural, Debug)]
pub enum EditorOutcome {
    NoChange,
    Moved,
    Changed,
    Copied,
    SearchMatch { current: usize, total: usize },
}

/// The state an undo or redo brings back.
pub struct SnapshotView {
    pub text: Seq<char>,
    pub cursor: int,
    pub anchor: Option<int>,
    pub preferred_column: Option<usize>,
}

/// What an editor holds, as mathematical values.
pub struct EditorView {
    pub text: Seq<char>,
    pub cursor: int,
    pub anchor: Option<int>,
    pub preferred_column: Option<usize>,
    /// The text of the note as last loaded or saved.
    pub loaded: Seq<char>,
    pub undo: Seq<SnapshotView>,
    pub redo: Seq<SnapshotView>,
    pub query: Seq<char>,
    /// The match that the last find step selected.
    pub found: Option<usize>,
    /// The text the editor last copied or pasted.
    pub clipboard: Seq<char>,
    pub has_primary_clipboard: bool,
    pub language: HighlightLanguage,
}

pub open spec fn opt_int(o: Option<usize>) -> Option<int> {
    match o {
        Some(x) => Some(x as int),
        None => None,
    }
}

pub open spec fn snapshot_view(s: Snapshot) -> SnapshotView {
    SnapshotView {
        text: s.text@,
        cursor: s.cursor as int,
        anchor: opt_int(s.anchor),
        preferred_column: s.preferred_column,
    }
}

/// The snapshot of a state.
pub open spec fn snapshot_of(v: EditorView) -> SnapshotView {
    SnapshotView {
        text: v.text,
        cursor: v.cursor,
        anchor: v.anchor,
        preferred_column: v.preferred_column,
    }
}

/// The selected range: from the anchor to the cursor, when they differ.
pub open spec fn selection_of(cursor: int, anchor: Option<int>) -> Option<(int, int)> {
    match anchor {
        Some(a) => if a != cursor {
            Some(if a < cursor { (a, cursor) } else { (cursor, a) })
        } else {
            None
        },
        None => None,
    }
}

/// Line endings normalised: each `\r\n` and each other `\r` becomes `\n`.
pub open spec fn normalized(s: Seq<char>) -> Seq<char>
    decreases s.len(),
{
    if s.len() == 0 {
        s
    } else if s[0] == '\r' && s.len() > 1 && s[1] == '\n' {
        seq!['\n'] + normalized(s.skip(2))
    } else if s[0] == '\r' {
        seq!['\n'] + normalized(s.skip(1))
    } else {
        seq![s[0]] + normalized(s.skip(1))
    }
}

/// Where a motion takes the cursor, and the preferred column it leaves.
pub open spec fn motion_target(text: Seq<char>, cursor: int, preferred: Option<usize>, motion: Motion) -> (
    int,
    Option<usize>,
) {
    match motion {
        Motion::Left => (previous_boundary(text, cursor), None),
        Motion::Right => (next_boundary(text, cursor), None),
        Motion::Up => (
            vertical_target(text, cursor, -1, preferred),
            Some(vertical_column(text, cursor, preferred) as usize),
        ),
        Motion::Down => (
            vertical_target(text, cursor, 1, preferred),
            Some(vertical_column(text, cursor, preferred) as usize),
        ),
        Motion::LineStart => (line_start(text, cursor), None),
        Motion::LineEnd => (line_end(text, cursor), None),
        Motion::DocumentStart => (0, None),
        Motion::DocumentEnd => (text.len() as int, None),
        Motion::WordLeft => (previous_word_start(text, cursor), None),
        Motion::WordRight => (next_word_end(text, cursor), None),
    }
}

/// The result of a cursor motion. Left and Right (by grapheme or by word)
/// without extending collapse a selection to its start or end; otherwise the cursor moves to the motion's
/// target, carrying the anchor along when extending. A move that changes the
/// cursor or the selection restarts find navigation.
pub open spec fn moved(v: EditorView, motion: Motion, extend: bool) -> (EditorView, EditorOutcome) {
    let sel = selection_of(v.cursor, v.anchor);
    let range = match sel {
        Some(r) => r,
        None => (v.cursor, v.cursor),
    };
    if !extend && sel is Some && (motion == Motion::Left || motion == Motion::Right || motion
        == Motion::WordLeft || motion == Motion::WordRight) {
        (
            EditorView {
                cursor: if motion == Motion::Left || motion == Motion::WordLeft {
                    range.0
                } else {
                    range.1
                },
                anchor: None,
                preferred_column: None,
                ..v
            },
            EditorOutcome::Moved,
        )
    } else {
        let anchor1 = if extend && v.anchor is None { Some(v.cursor) } else { v.anchor };
        let target = motion_target(v.text, v.cursor, v.preferred_column, motion);
        let anchor2 = if extend { anchor1 } else { None };
        let changed = v.cursor != target.0 || sel != selection_of(target.0, anchor2);
        (
            EditorView {
                cursor: target.0,
                anchor: anchor2,
                preferred_column: target.1,
                found: if changed { None } else { v.found },
                ..v
            },
            if changed { EditorOutcome::Moved } else { EditorOutcome::NoChange },
        )
    }
}

/// The selection (or the empty range at the cursor) replaced with `t`; the
/// cursor lands on the first boundary at or after the end of the new text.
pub open spec fn replaced(v: EditorView, t: Seq<char>) -> EditorView {
    let sel = selection_of(v.cursor, v.anchor);
    let range = match sel {
        Some(r) => r,
        None => (v.cursor, v.cursor),
    };
    if range.0 == range.1 && t.len() == 0 {
        v
    } else {
        let text = v.text.take(range.0) + t + v.text.skip(range.1);
        EditorView {
            text: text,
            cursor: boundary_at_or_after(text, range.0 + t.len()),
            anchor: None,
            preferred_column: None,
            found: None,
            ..v
        }
    }
}

/// Backspace: removes the selection, or the grapheme before the cursor.
pub open spec fn backspaced(v: EditorView) -> EditorView {
    if selection_of(v.cursor, v.anchor) is Some {
        replaced(v, Seq::empty())
    } else {
        let start = previous_boundary(v.text, v.cursor);
        if start == v.cursor {
            v
        } else {
            let text = v.text.take(start) + v.text.skip(v.cursor);
            EditorView {
                text: text,
                cursor: boundary_at_or_after(text, start),
                anchor: None,
                preferred_column: None,
                ..v
            }
        }
    }
}

/// Delete: removes the selection, or the grapheme after the cursor.
pub open spec fn deleted(v: EditorView) -> EditorView {
    if selection_of(v.cursor, v.anchor) is Some {
        replaced(v, Seq::empty())
    } else {
        let end = next_boundary(v.text, v.cursor);
        if end == v.cursor {
            v
        } else {
            let text = v.text.take(v.cursor) + v.text.skip(end);
            EditorView {
                text: text,
                cursor: boundary_at_or_after(text, v.cursor),
                anchor: None,
                preferred_column: None,
                ..v
            }
        }
    }
}

/// The undo stack after recording a snapshot, as views.
pub open spec fn recorded_undo_views(undo: Seq<SnapshotView>, before: SnapshotView) -> Seq<SnapshotView> {
    if undo.len() >= EDITOR_HISTORY_ENTRY_LIMIT {
        undo.remove(1).push(before)
    } else {
        undo.push(before)
    }
}

/// An edit as one transaction: when the text changed, the state before it is
/// recorded for undo, redo is cleared and find navigation restarts.
pub open spec fn transacted(before: EditorView, after: EditorView) -> (EditorView, EditorOutcome) {
    if after.text != before.text {
        (
            EditorView {
                undo: recorded_undo_views(before.undo, snapshot_of(before)),
                redo: Seq::empty(),
                found: None,
                ..after
            },
            EditorOutcome::Changed,
        )
    } else if after.cursor != before.cursor || after.anchor != before.anchor {
        (after, EditorOutcome::Moved)
    } else {
        (after, EditorOutcome::NoChange)
    }
}

/// Select all: the anchor at the start and the cursor at the end.
pub open spec fn selected_all(v: EditorView) -> (EditorView, EditorOutcome) {
    let len = v.text.len() as int;
    let changed = v.cursor != len || selection_of(v.cursor, v.anchor) != selection_of(len, Some(0));
    (
        EditorView {
            anchor: Some(0),
            cursor: len,
            preferred_column: None,
            found: if changed { None } else { v.found },
            ..v
        },
        if changed { EditorOutcome::Moved } else { EditorOutcome::NoChange },
    )
}

/// A state brought back from a snapshot; find navigation restarts.
pub open spec fn restored(v: EditorView, s: SnapshotView) -> EditorView {
    EditorView {
        text: s.text,
        cursor: s.cursor,
        anchor: s.anchor,
        preferred_column: s.preferred_column,
        found: None,
        ..v
    }
}

/// Undo: the last undo snapshot comes back and the current state goes to redo.
pub open spec fn undone(v: EditorView) -> (EditorView, EditorOutcome) {
    if v.undo.len() == 0 {
        (v, EditorOutcome::NoChange)
    } else {
        (
            EditorView {
                undo: v.undo.drop_last(),
                redo: v.redo.push(snapshot_of(v)),
                ..restored(v, v.undo.last())
            },
            EditorOutcome::Changed,
        )
    }
}

/// Redo: the last redo snapshot comes back and the current state goes to undo.
pub open spec fn redone(v: EditorView) -> (EditorView, EditorOutcome) {
    if v.redo.len() == 0 {
        (v, EditorOutcome::NoChange)
    } else {
        (
            EditorView {
                redo: v.redo.drop_last(),
                undo: v.undo.push(snapshot_of(v)),
                ..restored(v, v.redo.last())
            },
            EditorOutcome::Changed,
        )
    }
}

/// A find step: selects the next (or previous) literal match of the query.
pub open spec fn found_step(v: EditorView, forward: bool) -> (EditorView, EditorOutcome) {
    let matches = literal_matches(v.text, v.query);
    if matches.len() == 0 {
        (EditorView { found: None, ..v }, EditorOutcome::NoChange)
    } else {
        let k = navigated_index(matches, v.found, v.cursor, forward);
        (
            EditorView {
                anchor: Some(matches[k].0),
                cursor: matches[k].1,
                preferred_column: None,
                found: Some(k as usize),
                ..v
            },
            EditorOutcome::SearchMatch { current: (k + 1) as usize, total: matches.len() as usize },
        )
    }
}

/// The lines an indent or outdent acts on: from the line of the selection's
/// start to that of its end, leaving out a last line that the selection reaches
/// only at its very start.
pub open spec fn selected_line_range(v: EditorView) -> (int, int) {
    let sel = selection_of(v.cursor, v.anchor);
    let r = match sel {
        Some(r) => r,
        None => (v.cursor, v.cursor),
    };
    let first = rope_char_to_line(v.text, r.0 as usize) as int;
    let last = rope_char_to_line(v.text, r.1 as usize) as int;
    if sel is Some && r.1 > r.0 && r.1 == rope_line_to_char(v.text, last as usize) && last > first {
        (first, last - 1)
    } else {
        (first, last)
    }
}

/// Where the lines that an indent or outdent acts on start.
pub open spec fn selected_line_starts(v: EditorView) -> Seq<int> {
    let range = selected_line_range(v);
    if range.1 >= range.0 {
        Seq::new(
            (range.1 - range.0 + 1) as nat,
            |i: int| rope_line_to_char(v.text, (range.0 + i) as usize) as int,
        )
    } else {
        Seq::empty()
    }
}

/// Four spaces inserted at each of `starts`, the last one first.
pub open spec fn with_indents(text: Seq<char>, starts: Seq<int>) -> Seq<char>
    decreases starts.len(),
{
    if starts.len() == 0 {
        text
    } else {
        let p = starts.last();
        with_indents(text.take(p) + seq![' ', ' ', ' ', ' '] + text.skip(p), starts.drop_last())
    }
}

/// How many of `starts` are at or before `position`.
pub open spec fn count_at_or_before(starts: Seq<int>, position: int) -> int {
    starts.filter(|s: int| s <= position).len() as int
}

/// The cursor and anchor moved onto grapheme boundaries, each away from the other.
pub open spec fn snapped(text: Seq<char>, cursor: int, anchor: Option<int>) -> (int, Option<int>) {
    match anchor {
        None => (boundary_at_or_after(text, cursor), None),
        Some(a) => if a < cursor {
            (boundary_at_or_after(text, cursor), Some(boundary_at_or_before(text, a)))
        } else if a > cursor {
            (boundary_at_or_before(text, cursor), Some(boundary_at_or_after(text, a)))
        } else {
            let c = boundary_at_or_after(text, cursor);
            (c, Some(c))
        },
    }
}

/// Indent: four spaces at the start of each selected line; the cursor and the
/// anchor shift past the spaces inserted at or before them.
pub open spec fn indented(v: EditorView) -> EditorView {
    let starts = selected_line_starts(v);
    let text = with_indents(v.text, starts);
    let cursor = v.cursor + 4 * count_at_or_before(starts, v.cursor);
    let anchor = match v.anchor {
        Some(a) => Some(a + 4 * count_at_or_before(starts, a)),
        None => None,
    };
    let s = snapped(text, cursor, anchor);
    EditorView { text: text, cursor: s.0, anchor: s.1, preferred_column: None, ..v }
}

/// The number of leading spaces among the first `max` characters.
pub open spec fn leading_spaces(line: Seq<char>, max: int) -> int
    decreases line.len(),
{
    if line.len() == 0 || max <= 0 || line[0] != ' ' {
        0
    } else {
        1 + leading_spaces(line.skip(1), max - 1)
    }
}

/// How many characters an outdent removes from the line that starts at
/// `start`: a leading tab, or up to four leading spaces.
pub open spec fn outdent_width(text: Seq<char>, start: int) -> int {
    let line = text.subrange(start, line_end(text, start));
    if line.len() > 0 && line[0] == '\t' {
        1
    } else {
        leading_spaces(line, 4)
    }
}

/// The removals of an outdent: for each selected line with something to remove,
/// its start and how many characters leave.
pub open spec fn outdent_removals(v: EditorView) -> Seq<(int, int)> {
    selected_line_starts(v).filter(|s: int| outdent_width(v.text, s) > 0).map_values(
        |s: int| (s, outdent_width(v.text, s)),
    )
}

/// The removals carried out, the last one first.
pub open spec fn with_removals(text: Seq<char>, removals: Seq<(int, int)>) -> Seq<char>
    decreases removals.len(),
{
    if removals.len() == 0 {
        text
    } else {
        let r = removals.last();
        with_removals(text.take(r.0) + text.skip(r.0 + r.1), removals.drop_last())
    }
}

/// How many removed characters lay before `position`.
pub open spec fn removed_before(position: int, removals: Seq<(int, int)>) -> int
    decreases removals.len(),
{
    if removals.len() == 0 {
        0
    } else {
        let r = removals.last();
        let overlap = if position <= r.0 { 0 } else if position - r.0 < r.1 { position - r.0 } else { r.1 };
        removed_before(position, removals.drop_last()) + overlap
    }
}

/// Outdent: a leading tab, or up to four leading spaces, leave each selected
/// line; the cursor and the anchor shift back by what left before them.
pub open spec fn outdented(v: EditorView) -> EditorView {
    let removals = outdent_removals(v);
    let text = with_removals(v.text, removals);
    let cursor = v.cursor - removed_before(v.cursor, removals);
    let anchor = match v.anchor {
        Some(a) => Some(a - removed_before(a, removals)),
        None => None,
    };
    let s = snapped(text, cursor, anchor);
    EditorView { text: text, cursor: s.0, anchor: s.1, preferred_column: None, ..v }
}

/// Copy: the selected text goes to the clipboard.
pub open spec fn copied(v: EditorView) -> (EditorView, EditorOutcome) {
    match selected_text_of(v) {
        Some(t) => (EditorView { clipboard: t, ..v }, EditorOutcome::Copied),
        None => (v, EditorOutcome::NoChange),
    }
}

/// Cut: the selected text goes to the clipboard and leaves the text in one transaction.
pub open spec fn cut_out(v: EditorView) -> (EditorView, EditorOutcome) {
    match selected_text_of(v) {
        Some(t) => {
            let with_clipboard = EditorView { clipboard: t, ..v };
            transacted(with_clipboard, replaced(with_clipboard, Seq::empty()))
        },
        None => (v, EditorOutcome::NoChange),
    }
}

/// Paste of `pasted` (what the clipboard gave, which it also keeps): the text,
/// line endings normalised, replaces the selection in one transaction.
pub open spec fn pasted_with(v: EditorView, pasted: Seq<char>) -> (EditorView, EditorOutcome) {
    let with_clipboard = EditorView { clipboard: pasted, ..v };
    transacted(with_clipboard, replaced(with_clipboard, normalized(pasted)))
}

/// What a command does: `after` and `outcome` are the state and the outcome
/// that `command` leaves from `before`. Only a paste from a primary clipboard
/// leaves the pasted text open; it is then what the clipboard now keeps.
pub open spec fn applied(before: EditorView, command: EditorCommand, after: EditorView, outcome: EditorOutcome) -> bool {
    match command {
        EditorCommand::Move { motion, extend_selection } => (after, outcome) == moved(
            before,
            motion,
            extend_selection,
        ),
        EditorCommand::Insert(t) => (after, outcome) == transacted(
            before,
            replaced(before, normalized(t@)),
        ),
        EditorCommand::BracketedPaste(t) => (after, outcome) == transacted(
            before,
            replaced(before, normalized(t@)),
        ),
        EditorCommand::Newline => (after, outcome) == transacted(before, replaced(before, seq!['\n'])),
        EditorCommand::Backspace => (after, outcome) == transacted(before, backspaced(before)),
        EditorCommand::Delete => (after, outcome) == transacted(before, deleted(before)),
        EditorCommand::Copy => (after, outcome) == copied(before),
        EditorCommand::Cut => (after, outcome) == cut_out(before),
        EditorCommand::Paste => {
            &&& (after, outcome) == pasted_with(before, after.clipboard)
            &&& !before.has_primary_clipboard ==> after.clipboard == before.clipboard
        },
        EditorCommand::SelectAll => (after, outcome) == selected_all(before),
        EditorCommand::Indent => (after, outcome) == transacted(before, indented(before)),
        EditorCommand::Outdent => (after, outcome) == transacted(before, outdented(before)),
        EditorCommand::Undo => (after, outcome) == undone(before),
        EditorCommand::Redo => (after, outcome) == redone(before),
        EditorCommand::SetFindQuery(q) => after == (EditorView { query: q@, found: None, ..before })
            && outcome == EditorOutcome::NoChange,
        EditorCommand::FindNext => (after, outcome) == found_step(before, true),
        EditorCommand::FindPrevious => (after, outcome) == found_step(before, false),
    }
}

/// The selected text, if any.
pub open spec fn selected_text_of(v: EditorView) -> Option<Seq<char>> {
    match selection_of(v.cursor, v.anchor) {
        Some(r) => Some(v.text.subrange(r.0, r.1)),
        None => None,
    }
}

/// The editor.
pub struct Editor {
    loaded: LoadedNote,
    buffer: TextBuffer,
    cursor: usize,
    anchor: Option<usize>,
    preferred_column: Option<usize>,
    history: History,
    clipboard: FallbackClipboard,
    search: SearchState,
    language: HighlightLanguage,
    highlights: HighlightCache,
}

impl View for Editor {
    type V = EditorView;

    closed spec fn view(&self) -> EditorView {
        EditorView {
            text: self.buffer@,
            cursor: self.cursor as int,
            anchor: opt_int(self.anchor),
            preferred_column: self.preferred_column,
            loaded: self.loaded.text_view(),
            undo: self.history.undo_stack().map_values(|s: Snapshot| snapshot_view(s)),
            redo: self.history.redo_stack().map_values(|s: Snapshot| snapshot_view(s)),
            query: self.search.query_view(),
            found: self.search.current_view(),
            clipboard: self.clipboard.local_view(),
            has_primary_clipboard: self.clipboard.has_primary(),
            language: self.language,
        }
    }
}

/// A snapshot's cursor and anchor lie within its text.
pub open spec fn snapshot_wf(s: SnapshotView) -> bool {
    &&& 0 <= s.cursor <= s.text.len()
    &&& s.anchor matches Some(a) ==> 0 <= a <= s.text.len()
}

impl Editor {
    /// The cursor and anchor lie within the text, and so do those of every snapshot.
    pub closed spec fn wf(&self) -> bool {
        &&& self.cursor <= self.buffer@.len()
        &&& self.anchor matches Some(a) ==> a <= self.buffer@.len()
        &&& self.history.wf()
        &&& self.highlights.wf()
        &&& self.highlights.language_view() == self.language
        &&& forall|i: int|
            0 <= i < self.history.undo_stack().len() ==> snapshot_wf(
                snapshot_view(#[trigger] self.history.undo_stack()[i]),
            )
        &&& forall|i: int|
            0 <= i < self.history.redo_stack().len() ==> snapshot_wf(
                snapshot_view(#[trigger] self.history.redo_stack()[i]),
            )
    }

    /// The note the editor edits.
    pub closed spec fn loaded_note(&self) -> LoadedNote {
        self.loaded
    }

    /// The note the editor edits, as last loaded or saved.
    pub fn loaded_note_ref(&self) -> (note: &LoadedNote)
        ensures
            *note == self.loaded_note(),
    {
        &self.loaded
    }

    /// An editor on a loaded note, with only the in-process clipboard.
    pub fn from_loaded(note: LoadedNote) -> (editor: Editor)
        ensures
            editor.wf(),
            editor@.text == note.text_view(),
            editor@.loaded == note.text_view(),
            editor@.cursor == 0,
            editor@.anchor is None,
            editor@.preferred_column is None,
            editor@.undo.len() == 0,
            editor@.redo.len() == 0,
            editor@.query.len() == 0,
            editor@.found is None,
            editor@.clipboard.len() == 0,
            !editor@.has_primary_clipboard,
            editor@.language == language_for(note.path_view().relative_view()),
            editor.loaded_note() == note,
    {
        Self::with_clipboard(note, None)
    }

    /// An editor on a loaded note, copying to and pasting from `clipboard` and
    /// falling back to an in-process copy when it fails.
    pub fn from_loaded_with_clipboard(note: LoadedNote, clipboard: Box<dyn Clipboard>) -> (editor:
        Editor)
        ensures
            editor.wf(),
            editor@.text == note.text_view(),
            editor@.loaded == note.text_view(),
            editor@.cursor == 0,
            editor@.anchor is None,
            editor@.preferred_column is None,
            editor@.undo.len() == 0,
            editor@.redo.len() == 0,
            editor@.query.len() == 0,
            editor@.found is None,
            editor@.clipboard.len() == 0,
            editor@.has_primary_clipboard,
            editor@.language == language_for(note.path_view().relative_view()),
            editor.loaded_note() == note,
    {
        Self::with_clipboard(note, Some(clipboard))
    }

    fn with_clipboard(note: LoadedNote, primary: Option<Box<dyn Clipboard>>) -> (editor: Editor)
        ensures
            editor.wf(),
            editor@.text == note.text_view(),
            editor@.loaded == note.text_view(),
            editor@.cursor == 0,
            editor@.anchor is None,
            editor@.preferred_column is None,
            editor@.undo.len() == 0,
            editor@.redo.len() == 0,
            editor@.query.len() == 0,
            editor@.found is None,
            editor@.clipboard.len() == 0,
            editor@.has_primary_clipboard == primary is Some,
            editor@.language == language_for(note.path_view().relative_view()),
            editor.loaded_note() == note,
    {
        let buffer = TextBuffer::new(note.text());
        let language = language_for_path(note.path().relative());
        let editor = Editor {
            loaded: note,
            buffer,
            cursor: 0,
            anchor: None,
            preferred_column: None,
            history: History::new(),
            clipboard: FallbackClipboard::new(primary),
            search: SearchState::new(),
            language,
            highlights: HighlightCache::for_language(language),
        };
        assert(editor@.undo =~= Seq::<SnapshotView>::empty());
        assert(editor@.redo =~= Seq::<SnapshotView>::empty());
        editor
    }

    /// The text being edited.
    pub fn text(&self) -> (text: String)
        ensures
            text@ == self@.text,
    {
        self.buffer.text()
    }

    /// The text differs from the note as last loaded or saved.
    pub fn is_dirty(&self) -> (dirty: bool)
        ensures
            dirty == (self@.text != self@.loaded),
    {
        let text = self.buffer.text();
        let loaded = self.loaded.text().to_owned();
        !(text == loaded)
    }

    /// The cursor, as a character index.
    pub fn cursor(&self) -> (cursor: usize)
        ensures
            cursor == self@.cursor,
    {
        self.cursor
    }

    /// The selected range, if the anchor and the cursor differ.
    pub fn selection(&self) -> (range: Option<std::ops::Range<usize>>)
        ensures
            match range {
                Some(r) => selection_of(self@.cursor, self@.anchor) == Some(
                    (r.start as int, r.end as int),
                ),
                None => selection_of(self@.cursor, self@.anchor) is None,
            },
    {
        match self.selection_bounds() {
            Some((start, end)) => Some(start..end),
            None => None,
        }
    }

    fn selection_bounds(&self) -> (range: Option<(usize, usize)>)
        ensures
            match range {
                Some(r) => selection_of(self@.cursor, self@.anchor) == Some((r.0 as int, r.1 as int)),
                None => selection_of(self@.cursor, self@.anchor) is None,
            },
    {
        match self.anchor {
            Some(anchor) => if anchor != self.cursor {
                if anchor < self.cursor {
                    Some((anchor, self.cursor))
                } else {
                    Some((self.cursor, anchor))
                }
            } else {
                None
            },
            None => None,
        }
    }

    /// The selected text, if any.
    pub fn selected_text(&self) -> (text: Option<String>)
        requires
            self.wf(),
        ensures
            match text {
                Some(t) => selected_text_of(self@) == Some(t@),
                None => selected_text_of(self@) is None,
            },
    {
        match self.selection_bounds() {
            Some((start, end)) => Some(self.buffer.slice(start, end)),
            None => None,
        }
    }

    /// The highlighting language of the note.
    pub fn highlight_language(&self) -> (language: HighlightLanguage)
        ensures
            language == self@.language,
    {
        self.language
    }

    /// The highlighted spans of the current text (see
    /// [`super::syntax::highlighted`]): they tile it from its start, and plain
    /// text or an empty text has none. They are computed again only when the
    /// text has changed since the last call.
    pub fn highlighted_spans(&mut self) -> (spans: &[HighlightSpan])
        requires
            old(self).wf(),
        ensures
            final(self).wf(),
            final(self)@ == old(self)@,
            final(self).loaded_note() == old(self).loaded_note(),
            highlights_of(old(self)@.language, old(self)@.text, spans@),
    {
        let text = self.buffer.text();
        self.highlights.spans(text.as_str())
    }

    /// The operation that saves the current text over the loaded note.
    pub fn save_operation(&self, overwrite: bool) -> (operation: FileOperation)
        ensures
            operation matches FileOperation::Save { note, content, overwrite: o } && content@
                == self@.text && o == overwrite && note.text_view() == self.loaded_note().text_view()
                && note.hash_view() == self.loaded_note().hash_view() && note.path_view().root_view()
                == self.loaded_note().path_view().root_view()
                && note.path_view().relative_view()
                == self.loaded_note().path_view().relative_view() && note.bom_view()
                == self.loaded_note().bom_view() && note.newline_view()
                == self.loaded_note().newline_view() && note.final_newline_view()
                == self.loaded_note().final_newline_view() && note.permissions_view()
                == self.loaded_note().permissions_view(),
    {
        FileOperation::Save { note: self.loaded.clone(), content: self.text(), overwrite }
    }

    /// Takes the saved note as the new baseline.
    pub fn accept_saved(&mut self, note: LoadedNote)
        requires
            old(self).wf(),
        ensures
            final(self).wf(),
            final(self)@ == (EditorView { loaded: note.text_view(), ..old(self)@ }),
            final(self).loaded_note() == note,
    {
        self.loaded = note;
    }

    /// Puts the text back to the note as last loaded or saved, with a fresh
    /// cursor, history and find navigation.
    pub fn discard_changes(&mut self)
        requires
            old(self).wf(),
        ensures
            final(self).wf(),
            final(self)@ == (EditorView {
                text: old(self)@.loaded,
                cursor: 0,
                anchor: None,
                preferred_column: None,
                undo: Seq::empty(),
                redo: Seq::empty(),
                found: None,
                ..old(self)@
            }),
            final(self).loaded_note() == old(self).loaded_note(),
    {
        self.buffer = TextBuffer::new(self.loaded.text());
        self.cursor = 0;
        self.anchor = None;
        self.preferred_column = None;
        self.history = History::new();
        self.search.reset_navigation();
        assert(self@.undo =~= Seq::<SnapshotView>::empty());
        assert(self@.redo =~= Seq::<SnapshotView>::empty());
    }
}

proof fn lemma_recorded_views(undo: Seq<Snapshot>, before: Snapshot)
    ensures
        recorded_undo(undo, before).map_values(|s: Snapshot| snapshot_view(s)) == recorded_undo_views(
            undo.map_values(|s: Snapshot| snapshot_view(s)),
            snapshot_view(before),
        ),
{
    let f = |s: Snapshot| snapshot_view(s);
    if undo.len() >= EDITOR_HISTORY_ENTRY_LIMIT {
        assert(undo.remove(1).push(before).map_values(f) =~= undo.map_values(f).remove(1).push(
            snapshot_view(before),
        ));
    } else {
        assert(undo.push(before).map_values(f) =~= undo.map_values(f).push(snapshot_view(before)));
    }
}

/// `normalized` in code.
pub fn normalize_newlines(text: &str) -> (normal: String)
    ensures
        normal@ == normalized(text@),
{
    let chars = chars_of(text);
    let len = chars.len();
    let mut out: Vec<char> = Vec::new();
    let mut i: usize = 0;
    assert(chars@.skip(0) =~= chars@);
    assert(out@ + normalized(chars@.skip(0)) =~= normalized(chars@));
    while i < len
        invariant
            len == chars@.len(),
            i <= len,
            out@ + normalized(chars@.skip(i as int)) == normalized(chars@),
        decreases len - i,
    {
        let ghost rest = chars@.skip(i as int);
        if chars[i] == '\r' && i + 1 < len && chars[i + 1] == '\n' {
            assert(rest.skip(2) =~= chars@.skip(i + 2));
            out.push('\n');
            assert(out@ + normalized(chars@.skip(i + 2)) =~= normalized(chars@));
            i = i + 2;
        } else {
            assert(rest.skip(1) =~= chars@.skip(i + 1));
            if chars[i] == '\r' {
                out.push('\n');
            } else {
                out.push(chars[i]);
            }
            assert(out@ + normalized(chars@.skip(i + 1)) =~= normalized(chars@));
            i = i + 1;
        }
    }
    assert(chars@.skip(len as int) =~= Seq::<char>::empty());
    assert(out@ =~= normalized(chars@));
    string_of(out.as_slice())
}

impl Editor {
    fn snapshot(&self) -> (snapshot: Snapshot)
        requires
            self.wf(),
        ensures
            snapshot_view(snapshot) == snapshot_of(self@),
            snapshot_wf(snapshot_view(snapshot)),
    {
        Snapshot {
            text: self.buffer.text(),
            cursor: self.cursor,
            anchor: self.anchor,
            preferred_column: self.preferred_column,
        }
    }

    /// Closes an edit as a transaction.
    fn finish_transaction(&mut self, before: Snapshot, Ghost(bv): Ghost<EditorView>) -> (outcome:
        EditorOutcome)
        requires
            old(self).wf(),
            snapshot_view(before) == snapshot_of(bv),
            snapshot_wf(snapshot_of(bv)),
            old(self)@.undo == bv.undo,
            old(self)@.redo == bv.redo,
        ensures
            final(self).highlights == old(self).highlights,
            final(self).wf(),
            (final(self)@, outcome) == transacted(bv, old(self)@),
            final(self).loaded_note() == old(self).loaded_note(),
    {
        let text = self.buffer.text();
        if !(text == before.text) {
            proof {
                lemma_recorded_views(self.history.undo_stack(), before);
            }
            let ghost prev = self@;
            self.history.record(before);
            self.search.reset_navigation();
            assert(self@.redo =~= Seq::<SnapshotView>::empty());
            assert forall|i: int| 0 <= i < self@.undo.len() implies snapshot_wf(
                #[trigger] self@.undo[i],
            ) by {
                if bv.undo.len() >= EDITOR_HISTORY_ENTRY_LIMIT {
                    if i < self@.undo.len() - 1 {
                        if i >= 1 {
                            assert(self@.undo[i] == prev.undo[i + 1]);
                        } else {
                            assert(self@.undo[i] == prev.undo[i]);
                        }
                    }
                } else {
                    if i < self@.undo.len() - 1 {
                        assert(self@.undo[i] == prev.undo[i]);
                    }
                }
            }
            EditorOutcome::Changed
        } else if self.cursor != before.cursor || self.anchor != before.anchor {
            EditorOutcome::Moved
        } else {
            EditorOutcome::NoChange
        }
    }

    fn restore(&mut self, snapshot: Snapshot)
        requires
            snapshot_wf(snapshot_view(snapshot)),
        ensures
            final(self).highlights == old(self).highlights,
            final(self)@ == restored(old(self)@, snapshot_view(snapshot)),
            final(self).history == old(self).history,
            final(self).loaded_note() == old(self).loaded_note(),
    {
        self.buffer = TextBuffer::new(snapshot.text.as_str());
        self.cursor = snapshot.cursor;
        self.anchor = snapshot.anchor;
        self.preferred_column = snapshot.preferred_column;
        self.search.reset_navigation();
    }

    fn undo(&mut self) -> (outcome: EditorOutcome)
        requires
            old(self).wf(),
        ensures
            final(self).highlights == old(self).highlights,
            final(self).wf(),
            (final(self)@, outcome) == undone(old(self)@),
            final(self).loaded_note() == old(self).loaded_note(),
    {
        let current = self.snapshot();
        let ghost v = self@;
        let ghost stacks = (self.history.undo_stack(), self.history.redo_stack());
        match self.history.undo(current) {
            Some(previous) => {
                assert(snapshot_view(previous) == v.undo.last());
                assert(snapshot_wf(v.undo[v.undo.len() - 1]));
                self.restore(previous);
                assert(self@.undo =~= v.undo.drop_last());
                assert(self@.redo =~= v.redo.push(snapshot_of(v)));
                assert forall|i: int| 0 <= i < self@.redo.len() implies snapshot_wf(
                    #[trigger] self@.redo[i],
                ) by {
                    if i < v.redo.len() {
                        assert(self@.redo[i] == v.redo[i]);
                    }
                }
                assert forall|i: int| 0 <= i < self@.undo.len() implies snapshot_wf(
                    #[trigger] self@.undo[i],
                ) by {
                    assert(self@.undo[i] == v.undo[i]);
                }
                EditorOutcome::Changed
            },
            None => {
                assert(self@ == v);
                EditorOutcome::NoChange
            },
        }
    }

    fn redo(&mut self) -> (outcome: EditorOutcome)
        requires
            old(self).wf(),
        ensures
            final(self).highlights == old(self).highlights,
            final(self).wf(),
            (final(self)@, outcome) == redone(old(self)@),
            final(self).loaded_note() == old(self).loaded_note(),
    {
        let current = self.snapshot();
        let ghost v = self@;
        match self.history.redo(current) {
            Some(next) => {
                assert(snapshot_view(next) == v.redo.last());
                assert(snapshot_wf(v.redo[v.redo.len() - 1]));
                self.restore(next);
                assert(self@.redo =~= v.redo.drop_last());
                assert(self@.undo =~= v.undo.push(snapshot_of(v)));
                assert forall|i: int| 0 <= i < self@.undo.len() implies snapshot_wf(
                    #[trigger] self@.undo[i],
                ) by {
                    if i < v.undo.len() {
                        assert(self@.undo[i] == v.undo[i]);
                    }
                }
                assert forall|i: int| 0 <= i < self@.redo.len() implies snapshot_wf(
                    #[trigger] self@.redo[i],
                ) by {
                    assert(self@.redo[i] == v.redo[i]);
                }
                EditorOutcome::Changed
            },
            None => {
                assert(self@ == v);
                EditorOutcome::NoChange
            },
        }
    }

    fn replace_selection(&mut self, text: &str)
        requires
            old(self).wf(),
        ensures
            final(self).highlights == old(self).highlights,
            final(self).wf(),
            final(self)@ == replaced(old(self)@, text@),
            final(self).history == old(self).history,
            final(self).loaded_note() == old(self).loaded_note(),
    {
        let (start, end) = match self.selection_bounds() {
            Some(range) => range,
            None => (self.cursor, self.cursor),
        };
        if start == end && text.is_empty() {
            return;
        }
        self.buffer.replace(start, end, text);
        let n = text.unicode_len();
        let len = self.buffer.len_chars();
        assert(start + n <= len);
        self.cursor = self.buffer.boundary_at_or_after(start + n);
        self.anchor = None;
        self.preferred_column = None;
        self.search.reset_navigation();
    }

    fn backspace(&mut self)
        requires
            old(self).wf(),
        ensures
            final(self).highlights == old(self).highlights,
            final(self).wf(),
            final(self)@ == backspaced(old(self)@),
            final(self).history == old(self).history,
            final(self).loaded_note() == old(self).loaded_note(),
    {
        if self.selection_bounds().is_some() {
            self.replace_selection("");
            proof {
                reveal_strlit("");
                assert(""@ =~= Seq::<char>::empty());
            }
            return;
        }
        let start = self.buffer.previous_grapheme_boundary(self.cursor);
        if start == self.cursor {
            return;
        }
        self.buffer.replace(start, self.cursor, "");
        proof {
            reveal_strlit("");
            assert(""@ =~= Seq::<char>::empty());
        }
        self.cursor = self.buffer.boundary_at_or_after(start);
        self.anchor = None;
        self.preferred_column = None;
    }
}

fn same_selection(a: Option<(usize, usize)>, b: Option<(usize, usize)>) -> (same: bool)
    ensures
        same == (a == b),
{
    match (a, b) {
        (Some(x), Some(y)) => x.0 == y.0 && x.1 == y.1,
        (None, None) => true,
        _ => false,
    }
}

impl Editor {
    fn delete(&mut self)
        requires
            old(self).wf(),
        ensures
            final(self).highlights == old(self).highlights,
            final(self).wf(),
            final(self)@ == deleted(old(self)@),
            final(self).history == old(self).history,
            final(self).loaded_note() == old(self).loaded_note(),
    {
        if self.selection_bounds().is_some() {
            self.replace_selection("");
            proof {
                reveal_strlit("");
                assert(""@ =~= Seq::<char>::empty());
            }
            return;
        }
        let end = self.buffer.next_grapheme_boundary(self.cursor);
        if end == self.cursor {
            return;
        }
        self.buffer.replace(self.cursor, end, "");
        proof {
            reveal_strlit("");
            assert(""@ =~= Seq::<char>::empty());
        }
        self.cursor = self.buffer.boundary_at_or_after(self.cursor);
        self.anchor = None;
        self.preferred_column = None;
    }

    fn move_cursor(&mut self, motion: Motion, extend: bool) -> (outcome: EditorOutcome)
        requires
            old(self).wf(),
        ensures
            final(self).highlights == old(self).highlights,
            final(self).wf(),
            (final(self)@, outcome) == moved(old(self)@, motion, extend),
            final(self).loaded_note() == old(self).loaded_note(),
    {
        let before_cursor = self.cursor;
        let before_selection = self.selection_bounds();
        if !extend {
            match before_selection {
                Some((start, end)) => {
                    match motion {
                        Motion::Left | Motion::WordLeft => {
                            self.cursor = start;
                            self.anchor = None;
                            self.preferred_column = None;
                            return EditorOutcome::Moved;
                        },
                        Motion::Right | Motion::WordRight => {
                            self.cursor = end;
                            self.anchor = None;
                            self.preferred_column = None;
                            return EditorOutcome::Moved;
                        },
                        _ => {},
                    }
                },
                None => {},
            }
        } else if self.anchor.is_none() {
            self.anchor = Some(self.cursor);
        }
        let cursor = self.cursor;
        let target = match motion {
            Motion::Left => {
                self.preferred_column = None;
                self.buffer.previous_grapheme_boundary(cursor)
            },
            Motion::Right => {
                self.preferred_column = None;
                self.buffer.next_grapheme_boundary(cursor)
            },
            Motion::Up => {
                let (target, column) = self.buffer.vertical_target(cursor, false, self.preferred_column);
                self.preferred_column = Some(column);
                target
            },
            Motion::Down => {
                let (target, column) = self.buffer.vertical_target(cursor, true, self.preferred_column);
                self.preferred_column = Some(column);
                target
            },
            Motion::LineStart => {
                self.preferred_column = None;
                self.buffer.line_start(cursor)
            },
            Motion::LineEnd => {
                self.preferred_column = None;
                self.buffer.line_end(cursor)
            },
            Motion::DocumentStart => {
                self.preferred_column = None;
                0
            },
            Motion::DocumentEnd => {
                self.preferred_column = None;
                self.buffer.len_chars()
            },
            Motion::WordLeft => {
                self.preferred_column = None;
                self.buffer.previous_word_start(cursor)
            },
            Motion::WordRight => {
                self.preferred_column = None;
                self.buffer.next_word_end(cursor)
            },
        };
        self.cursor = target;
        if !extend {
            self.anchor = None;
        }
        let after_selection = self.selection_bounds();
        if before_cursor != self.cursor || !same_selection(before_selection, after_selection) {
            self.search.reset_navigation();
            EditorOutcome::Moved
        } else {
            EditorOutcome::NoChange
        }
    }

    fn select_all(&mut self) -> (outcome: EditorOutcome)
        requires
            old(self).wf(),
        ensures
            final(self).highlights == old(self).highlights,
            final(self).wf(),
            (final(self)@, outcome) == selected_all(old(self)@),
            final(self).loaded_note() == old(self).loaded_note(),
    {
        let before_cursor = self.cursor;
        let before_selection = self.selection_bounds();
        self.anchor = Some(0);
        self.cursor = self.buffer.len_chars();
        self.preferred_column = None;
        let after_selection = self.selection_bounds();
        if before_cursor != self.cursor || !same_selection(before_selection, after_selection) {
            self.search.reset_navigation();
            EditorOutcome::Moved
        } else {
            EditorOutcome::NoChange
        }
    }

    fn find(&mut self, forward: bool) -> (outcome: EditorOutcome)
        requires
            old(self).wf(),
        ensures
            final(self).highlights == old(self).highlights,
            final(self).wf(),
            (final(self)@, outcome) == found_step(old(self)@, forward),
            final(self).loaded_note() == old(self).loaded_note(),
    {
        let text = self.buffer.text();
        match self.search.navigate(text.as_str(), self.cursor, forward) {
            Some(found) => {
                self.anchor = Some(found.start);
                self.cursor = found.end;
                self.preferred_column = None;
                EditorOutcome::SearchMatch { current: found.current, total: found.total }
            },
            None => EditorOutcome::NoChange,
        }
    }

    fn copy(&mut self) -> (outcome: EditorOutcome)
        requires
            old(self).wf(),
        ensures
            final(self).highlights == old(self).highlights,
            final(self).wf(),
            (final(self)@, outcome) == copied(old(self)@),
            final(self).loaded_note() == old(self).loaded_note(),
    {
        match self.selected_text() {
            Some(text) => {
                self.clipboard.write_text(text.as_str());
                EditorOutcome::Copied
            },
            None => EditorOutcome::NoChange,
        }
    }

    fn cut(&mut self) -> (outcome: EditorOutcome)
        requires
            old(self).wf(),
        ensures
            final(self).highlights == old(self).highlights,
            final(self).wf(),
            (final(self)@, outcome) == cut_out(old(self)@),
            final(self).loaded_note() == old(self).loaded_note(),
    {
        match self.selected_text() {
            Some(text) => {
                self.clipboard.write_text(text.as_str());
                let before = self.snapshot();
                let ghost bv = self@;
                self.replace_selection("");
                proof {
                    reveal_strlit("");
                    assert(""@ =~= Seq::<char>::empty());
                }
                self.finish_transaction(before, Ghost(bv))
            },
            None => EditorOutcome::NoChange,
        }
    }

    fn paste(&mut self) -> (outcome: EditorOutcome)
        requires
            old(self).wf(),
        ensures
            final(self).highlights == old(self).highlights,
            final(self).wf(),
            (final(self)@, outcome) == pasted_with(old(self)@, final(self)@.clipboard),
            !old(self)@.has_primary_clipboard ==> final(self)@.clipboard == old(self)@.clipboard,
            final(self).loaded_note() == old(self).loaded_note(),
    {
        let text = self.clipboard.read_text();
        let text = normalize_newlines(text.as_str());
        let before = self.snapshot();
        let ghost bv = self@;
        self.replace_selection(text.as_str());
        self.finish_transaction(before, Ghost(bv))
    }

    fn transact_replace(&mut self, text: &str) -> (outcome: EditorOutcome)
        requires
            old(self).wf(),
        ensures
            final(self).highlights == old(self).highlights,
            final(self).wf(),
            (final(self)@, outcome) == transacted(old(self)@, replaced(old(self)@, text@)),
            final(self).loaded_note() == old(self).loaded_note(),
    {
        let before = self.snapshot();
        let ghost bv = self@;
        self.replace_selection(text);
        self.finish_transaction(before, Ghost(bv))
    }
}

proof fn lemma_with_indents_step(text: Seq<char>, starts: Seq<int>, k: int)
    requires
        0 < k <= starts.len(),
    ensures
        with_indents(text, starts.take(k)) == with_indents(
            text.take(starts[k - 1]) + seq![' ', ' ', ' ', ' '] + text.skip(starts[k - 1]),
            starts.take(k - 1),
        ),
{
    assert(starts.take(k).drop_last() =~= starts.take(k - 1));
    assert(starts.take(k).last() == starts[k - 1]);
}

proof fn lemma_with_removals_step(text: Seq<char>, removals: Seq<(int, int)>, k: int)
    requires
        0 < k <= removals.len(),
    ensures
        with_removals(text, removals.take(k)) == with_removals(
            text.take(removals[k - 1].0) + text.skip(removals[k - 1].0 + removals[k - 1].1),
            removals.take(k - 1),
        ),
{
    assert(removals.take(k).drop_last() =~= removals.take(k - 1));
    assert(removals.take(k).last() == removals[k - 1]);
}

/// The removals are in order, disjoint and of non-negative extent.
pub open spec fn removals_ordered(removals: Seq<(int, int)>) -> bool {
    &&& forall|i: int| 0 <= i < removals.len() ==> 0 <= (#[trigger] removals[i]).0 && 0 <= removals[i].1
    &&& forall|i: int, j: int|
        0 <= i < j < removals.len() ==> (#[trigger] removals[i]).0 + removals[i].1 <= (
        #[trigger] removals[j]).0
}

proof fn lemma_removed_before_bound(position: int, removals: Seq<(int, int)>)
    requires
        removals_ordered(removals),
        position >= 0,
    ensures
        0 <= removed_before(position, removals),
        removals.len() > 0 ==> removed_before(position, removals) <= (if position < removals.last().0
            + removals.last().1 { position } else { removals.last().0 + removals.last().1 }),
        removed_before(position, removals) <= position,
    decreases removals.len(),
{
    if removals.len() > 0 {
        let rest = removals.drop_last();
        assert(removals_ordered(rest)) by {
            assert forall|i: int, j: int| 0 <= i < j < rest.len() implies (#[trigger] rest[i]).0
                + rest[i].1 <= (#[trigger] rest[j]).0 by {
                assert(rest[i] == removals[i] && rest[j] == removals[j]);
            }
            assert forall|i: int| 0 <= i < rest.len() implies 0 <= (#[trigger] rest[i]).0 && 0
                <= rest[i].1 by {
                assert(rest[i] == removals[i]);
            }
        }
        lemma_removed_before_bound(position, rest);
        if rest.len() > 0 {
            assert(rest.last() == removals[removals.len() - 2]);
            assert(removals[removals.len() - 1] == removals.last());
        }
    }
}

impl Editor {
    fn selected_line_starts(&self) -> (starts: Vec<usize>)
        requires
            self.wf(),
        ensures
            starts@.map_values(|s: usize| s as int) == selected_line_starts(self@),
            forall|i: int| 0 <= i < starts@.len() ==> starts@[i] <= self@.text.len(),
            forall|i: int|
                0 <= i < starts@.len() ==> rope_char_to_line(self@.text, #[trigger] starts@[i])
                    == selected_line_range(self@).0 + i,
            forall|i: int|
                0 <= i < starts@.len() ==> #[trigger] starts@[i] as int == rope_line_to_char(
                    self@.text,
                    (selected_line_range(self@).0 + i) as usize,
                ),
            starts@.len() > 0 ==> selected_line_range(self@).0 + starts@.len() <= rope_len_lines(
                self@.text,
            ),
    {
        let selection = self.selection_bounds();
        let (start, end) = match selection {
            Some(range) => range,
            None => (self.cursor, self.cursor),
        };
        let first = self.buffer.char_to_line(start);
        let mut last = self.buffer.char_to_line(end);
        if selection.is_some() && end > start && end == self.buffer.line_to_char(last) && last
            > first {
            last = last - 1;
        }
        let ghost range = selected_line_range(self@);
        assert(first == range.0 && last == range.1);
        let mut starts: Vec<usize> = Vec::new();
        if last >= first {
            let mut line = first;
            while line <= last
                invariant
                    first <= line <= last + 1,
                    last < rope_len_lines(self@.text),
                    first == range.0,
                    last == range.1,
                    starts@.len() == line - first,
                    forall|i: int|
                        0 <= i < starts@.len() ==> starts@[i] as int == rope_line_to_char(
                            self@.text,
                            (first + i) as usize,
                        ),
                    forall|i: int| 0 <= i < starts@.len() ==> starts@[i] <= self@.text.len(),
                    forall|i: int|
                        0 <= i < starts@.len() ==> rope_char_to_line(self@.text, #[trigger] starts@[i])
                            == first + i,
                decreases last + 1 - line,
            {
                let at = self.buffer.line_to_char(line);
                starts.push(at);
                line = line + 1;
            }
        }
        assert(starts@.map_values(|s: usize| s as int) =~= selected_line_starts(self@));
        starts
    }

    fn snap_endpoints(&mut self)
        requires
            old(self).history.wf(),
        ensures
            final(self).highlights == old(self).highlights,
            (final(self)@.cursor, final(self)@.anchor) == snapped(
                old(self)@.text,
                old(self)@.cursor,
                old(self)@.anchor,
            ),
            final(self)@ == (EditorView {
                cursor: final(self)@.cursor,
                anchor: final(self)@.anchor,
                ..old(self)@
            }),
            final(self)@.cursor <= final(self)@.text.len(),
            final(self)@.anchor matches Some(a) ==> a <= final(self)@.text.len(),
            final(self).history == old(self).history,
            final(self).loaded_note() == old(self).loaded_note(),
    {
        match self.anchor {
            None => {
                self.cursor = self.buffer.boundary_at_or_after(self.cursor);
            },
            Some(anchor) => {
                if anchor < self.cursor {
                    self.anchor = Some(self.buffer.boundary_at_or_before(anchor));
                    self.cursor = self.buffer.boundary_at_or_after(self.cursor);
                } else if anchor > self.cursor {
                    self.anchor = Some(self.buffer.boundary_at_or_after(anchor));
                    self.cursor = self.buffer.boundary_at_or_before(self.cursor);
                } else {
                    self.cursor = self.buffer.boundary_at_or_after(self.cursor);
                    self.anchor = Some(self.cursor);
                }
            },
        }
    }

    fn indent(&mut self)
        requires
            old(self).wf(),
        ensures
            final(self).highlights == old(self).highlights,
            final(self).wf(),
            final(self)@ == indented(old(self)@),
            final(self).history == old(self).history,
            final(self).loaded_note() == old(self).loaded_note(),
    {
        let ghost v = self@;
        let starts = self.selected_line_starts();
        let ghost ss = starts@.map_values(|s: usize| s as int);
        let n = starts.len();
        let old_len = self.buffer.len_chars();
        let mut i = n;
        proof {
            reveal_strlit("    ");
            assert("    "@ =~= seq![' ', ' ', ' ', ' ']);
            assert(ss.take(n as int) =~= ss);
        }
        while i > 0
            invariant
                i <= n,
                n == starts@.len(),
                ss == starts@.map_values(|s: usize| s as int),
                forall|j: int| 0 <= j < n ==> starts@[j] <= old_len,
                old_len == v.text.len(),
                self.buffer@.len() == old_len + 4 * (n - i),
                with_indents(v.text, ss) == with_indents(self.buffer@, ss.take(i as int)),
                "    "@ == seq![' ', ' ', ' ', ' '],
                self@ == (EditorView { text: self.buffer@, ..v }),
                self.history == old(self).history,
                self.highlights == old(self).highlights,
                self.loaded_note() == old(self).loaded_note(),
                self.cursor <= old_len,
                self.anchor matches Some(a) ==> a <= old_len,
                self.cursor == v.cursor,
                opt_int(self.anchor) == v.anchor,
            decreases i,
        {
            i = i - 1;
            proof {
                lemma_with_indents_step(self.buffer@, ss, i + 1);
            }
            let at = starts[i];
            self.buffer.replace(at, at, "    ");
            assert(self.buffer@.skip(0) =~= self.buffer@);
        }
        assert(ss.take(0) =~= Seq::<int>::empty());
        let cursor = self.cursor;
        let mut before_cursor: usize = 0;
        let mut before_anchor: usize = 0;
        let anchor_value = match self.anchor {
            Some(a) => a,
            None => 0,
        };
        let mut j: usize = 0;
        assert(ss.take(0).filter(|s: int| s <= cursor) =~= Seq::<int>::empty());
        assert(ss.take(0).filter(|s: int| s <= anchor_value) =~= Seq::<int>::empty());
        while j < n
            invariant
                j <= n,
                n == starts@.len(),
                ss == starts@.map_values(|s: usize| s as int),
                before_cursor == ss.take(j as int).filter(|s: int| s <= cursor).len(),
                before_anchor == ss.take(j as int).filter(|s: int| s <= anchor_value).len(),
                before_cursor <= j,
                before_anchor <= j,
            decreases n - j,
        {
            proof {
                assert(ss.take(j + 1) =~= ss.take(j as int).push(ss[j as int]));
                ss.take(j as int).lemma_filter_push(ss[j as int], |s: int| s <= cursor);
                ss.take(j as int).lemma_filter_push(ss[j as int], |s: int| s <= anchor_value);
            }
            if starts[j] <= cursor {
                before_cursor = before_cursor + 1;
            }
            if starts[j] <= anchor_value {
                before_anchor = before_anchor + 1;
            }
            j = j + 1;
        }
        assert(ss.take(n as int) =~= ss);
        let new_len = self.buffer.len_chars();
        assert(cursor + 4 * before_cursor <= new_len);
        self.cursor = cursor + 4 * before_cursor;
        match self.anchor {
            Some(a) => {
                assert(a + 4 * before_anchor <= new_len);
                self.anchor = Some(a + 4 * before_anchor);
            },
            None => {},
        }
        self.snap_endpoints();
        self.preferred_column = None;
    }
}

proof fn lemma_leading_spaces(line: Seq<char>, max: int, k: int)
    requires
        0 <= k <= max,
        k <= line.len(),
        forall|i: int| 0 <= i < k ==> line[i] == ' ',
        k == max || k == line.len() || line[k] != ' ',
    ensures
        leading_spaces(line, max) == k,
    decreases k,
{
    if k > 0 {
        lemma_leading_spaces(line.skip(1), max - 1, k - 1);
    }
}

proof fn lemma_ordered_prefix(removals: Seq<(int, int)>, k: int)
    requires
        removals_ordered(removals),
        0 <= k <= removals.len(),
    ensures
        removals_ordered(removals.take(k)),
{
    let t = removals.take(k);
    assert forall|i: int, j: int| 0 <= i < j < t.len() implies (#[trigger] t[i]).0 + t[i].1 <= (
    #[trigger] t[j]).0 by {
        assert(t[i] == removals[i] && t[j] == removals[j]);
    }
    assert forall|i: int| 0 <= i < t.len() implies 0 <= (#[trigger] t[i]).0 && 0 <= t[i].1 by {
        assert(t[i] == removals[i]);
    }
}

impl Editor {
    fn outdent_width_at(&self, start: usize) -> (width: usize)
        requires
            start <= self@.text.len(),
            rope_line_to_char(self@.text, rope_char_to_line(self@.text, start)) == start,
        ensures
            width == outdent_width(self@.text, start as int),
            start + width <= line_end(self@.text, start as int),
            width <= 4,
            line_end(self@.text, start as int) <= self@.text.len(),
            line_end(self@.text, start as int) <= rope_line_to_char(
                self@.text,
                (rope_char_to_line(self@.text, start) + 1) as usize,
            ),
    {
        let end = self.buffer.line_end(start);
        let ghost line = self@.text.subrange(start as int, end as int);
        if start < end && self.buffer.char_at(start) == '\t' {
            assert(line[0] == self@.text[start as int]);
            return 1;
        }
        let mut k: usize = 0;
        while k < 4 && start + k < end && self.buffer.char_at(start + k) == ' '
            invariant
                k <= 4,
                start <= end <= self@.text.len(),
                start + k <= end,
                line == self@.text.subrange(start as int, end as int),
                forall|i: int| 0 <= i < k ==> line[i] == ' ',
            decreases 4 - k,
        {
            assert(line[k as int] == self@.text[start + k]);
            k = k + 1;
        }
        proof {
            if k < 4 && start + k < end {
                assert(line[k as int] == self@.text[start + k]);
            }
            lemma_leading_spaces(line, 4, k as int);
            if start < end {
                assert(line[0] == self@.text[start as int]);
            }
        }
        k
    }

    fn outdent(&mut self)
        requires
            old(self).wf(),
        ensures
            final(self).highlights == old(self).highlights,
            final(self).wf(),
            final(self)@ == outdented(old(self)@),
            final(self).history == old(self).history,
            final(self).loaded_note() == old(self).loaded_note(),
    {
        let ghost v = self@;
        let starts = self.selected_line_starts();
        let ghost ss = starts@.map_values(|s: usize| s as int);
        let ghost first = selected_line_range(v).0;
        let ghost keep = |s: int| outdent_width(v.text, s) > 0;
        let ghost pair = |s: int| (s, outdent_width(v.text, s));
        let n = starts.len();
        let len = self.buffer.len_chars();
        let mut removals: Vec<(usize, usize)> = Vec::new();
        let mut i: usize = 0;
        assert(ss.take(0).filter(keep) =~= Seq::<int>::empty());
        while i < n
            invariant
                n == starts@.len(),
                len == v.text.len(),
                self@ == v,
                ss == starts@.map_values(|s: usize| s as int),
                keep == (|s: int| outdent_width(v.text, s) > 0),
                pair == (|s: int| (s, outdent_width(v.text, s))),
                first == selected_line_range(v).0,
                i <= n,
                forall|j: int| 0 <= j < n ==> starts@[j] <= v.text.len(),
                forall|j: int|
                    0 <= j < n ==> rope_char_to_line(v.text, #[trigger] starts@[j]) == first + j,
                forall|j: int|
                    0 <= j < n ==> #[trigger] starts@[j] as int == rope_line_to_char(
                        v.text,
                        (first + j) as usize,
                    ),
                n > 0 ==> first + n <= rope_len_lines(v.text),
                removals@.map_values(|r: (usize, usize)| (r.0 as int, r.1 as int)) == ss.take(
                    i as int,
                ).filter(keep).map_values(pair),
                removals_ordered(removals@.map_values(|r: (usize, usize)| (r.0 as int, r.1 as int))),
                forall|j: int|
                    0 <= j < removals@.len() ==> (#[trigger] removals@[j]).0 + removals@[j].1 <= len,
                i < n ==> forall|j: int|
                    0 <= j < removals@.len() ==> (#[trigger] removals@[j]).0 + removals@[j].1
                        <= starts@[i as int],
            decreases n - i,
        {
            let start = starts[i];
            assert(rope_line_to_char(v.text, rope_char_to_line(v.text, start)) == start);
            let width = self.outdent_width_at(start);
            let ghost rs_before = removals@;
            proof {
                assert(ss.take(i + 1) =~= ss.take(i as int).push(ss[i as int]));
                ss.take(i as int).lemma_filter_push(ss[i as int], keep);
                if i + 1 < n {
                    assert(starts@[i + 1] as int == rope_line_to_char(v.text, (first + i + 1) as usize));
                }
            }
            if width > 0 {
                removals.push((start, width));
                proof {
                    let rs = removals@.map_values(|r: (usize, usize)| (r.0 as int, r.1 as int));
                    assert(ss.take(i as int).filter(keep).push(ss[i as int]).map_values(pair)
                        =~= ss.take(i as int).filter(keep).map_values(pair).push(pair(ss[i as int])));
                    assert(rs =~= rs_before.map_values(|r: (usize, usize)| (r.0 as int, r.1 as int)).push(
                        (start as int, width as int),
                    ));
                    assert forall|a: int, b: int| 0 <= a < b < rs.len() implies (#[trigger] rs[a]).0
                        + rs[a].1 <= (#[trigger] rs[b]).0 by {
                        if b == rs.len() - 1 {
                            assert(removals@[a] == rs_before[a]);
                        } else {
                            assert(rs[a] == rs_before.map_values(|r: (usize, usize)| (r.0 as int, r.1 as int))[a]);
                            assert(rs[b] == rs_before.map_values(|r: (usize, usize)| (r.0 as int, r.1 as int))[b]);
                        }
                    }
                    assert forall|a: int| 0 <= a < rs.len() implies 0 <= (#[trigger] rs[a]).0 && 0
                        <= rs[a].1 by {
                        assert(rs[a] == (removals@[a].0 as int, removals@[a].1 as int));
                    }
                }
            }
            i = i + 1;
            proof {
                assert forall|j: int| 0 <= j < removals@.len() implies (#[trigger] removals@[j]).0
                    + removals@[j].1 <= len by {
                    if j < rs_before.len() {
                        assert(removals@[j] == rs_before[j]);
                    }
                }
                if i < n {
                    assert forall|j: int| 0 <= j < removals@.len() implies (#[trigger] removals@[j]).0
                        + removals@[j].1 <= starts@[i as int] by {
                        if j < rs_before.len() {
                            assert(removals@[j] == rs_before[j]);
                        }
                    }
                }
            }
        }
        assert(ss.take(n as int) =~= ss);
        let ghost rs = removals@.map_values(|r: (usize, usize)| (r.0 as int, r.1 as int));
        assert(rs == outdent_removals(v));
        let count = removals.len();
        let mut k = count;
        assert(rs.take(count as int) =~= rs);
        while k > 0
            invariant
                k <= count,
                count == removals@.len(),
                rs == removals@.map_values(|r: (usize, usize)| (r.0 as int, r.1 as int)),
                removals_ordered(rs),
                with_removals(v.text, rs) == with_removals(self.buffer@, rs.take(k as int)),
                forall|j: int| 0 <= j < k ==> (#[trigger] rs[j]).0 + rs[j].1 <= self.buffer@.len(),
                self@ == (EditorView { text: self.buffer@, ..v }),
                self.history == old(self).history,
                self.highlights == old(self).highlights,
                self.loaded_note() == old(self).loaded_note(),
                self.cursor == v.cursor,
                opt_int(self.anchor) == v.anchor,
            decreases k,
        {
            k = k - 1;
            proof {
                lemma_with_removals_step(self.buffer@, rs, k + 1);
            }
            let (start, width) = removals[k];
            assert(rs[k as int] == (start as int, width as int));
            let ghost before = self.buffer@;
            let current_len = self.buffer.len_chars();
            assert(start + width <= current_len);
            self.buffer.replace(start, start + width, "");
            proof {
                reveal_strlit("");
                assert(""@ =~= Seq::<char>::empty());
                assert(self.buffer@ =~= before.take(start as int) + before.skip(start + width));
                assert forall|j: int| 0 <= j < k implies (#[trigger] rs[j]).0 + rs[j].1
                    <= self.buffer@.len() by {
                    assert(rs[j].0 + rs[j].1 <= rs[k as int].0);
                }
            }
        }
        assert(rs.take(0) =~= Seq::<(int, int)>::empty());
        let cursor = self.cursor;
        let cursor_removed = removed_before_in(&removals, cursor, Ghost(rs));
        self.cursor = cursor - cursor_removed;
        match self.anchor {
            Some(a) => {
                let anchor_removed = removed_before_in(&removals, a, Ghost(rs));
                self.anchor = Some(a - anchor_removed);
            },
            None => {},
        }
        self.snap_endpoints();
        self.preferred_column = None;
    }
}

fn removed_before_in(removals: &Vec<(usize, usize)>, position: usize, Ghost(rs): Ghost<Seq<(int, int)>>) -> (removed: usize)
    requires
        rs == removals@.map_values(|r: (usize, usize)| (r.0 as int, r.1 as int)),
        removals_ordered(rs),
    ensures
        removed == removed_before(position as int, rs),
        removed <= position,
{
    let count = removals.len();
    let mut sum: usize = 0;
    let mut j: usize = 0;
    assert(rs.take(0) =~= Seq::<(int, int)>::empty());
    while j < count
        invariant
            count == removals@.len(),
            rs == removals@.map_values(|r: (usize, usize)| (r.0 as int, r.1 as int)),
            removals_ordered(rs),
            j <= count,
            sum == removed_before(position as int, rs.take(j as int)),
            sum <= position,
        decreases count - j,
    {
        let (start, width) = removals[j];
        assert(rs[j as int] == (start as int, width as int));
        proof {
            assert(rs.take(j + 1).drop_last() =~= rs.take(j as int));
            assert(rs.take(j + 1).last() == rs[j as int]);
            lemma_ordered_prefix(rs, j + 1);
            lemma_removed_before_bound(position as int, rs.take(j + 1));
        }
        let overlap = if position <= start {
            0
        } else if position - start < width {
            position - start
        } else {
            width
        };
        sum = sum + overlap;
        j = j + 1;
    }
    assert(rs.take(count as int) =~= rs);
    sum
}

impl Editor {
    /// Carries out a command (see [`applied`] for what each one does).
    pub fn apply(&mut self, command: EditorCommand) -> (outcome: EditorOutcome)
        requires
            old(self).wf(),
        ensures
            final(self).wf(),
            applied(old(self)@, command, final(self)@, outcome),
            final(self).loaded_note() == old(self).loaded_note(),
    {
        match command {
            EditorCommand::Move { motion, extend_selection } => self.move_cursor(
                motion,
                extend_selection,
            ),
            EditorCommand::Insert(text) => {
                let text = normalize_newlines(text.as_str());
                self.transact_replace(text.as_str())
            },
            EditorCommand::BracketedPaste(text) => {
                let text = normalize_newlines(text.as_str());
                self.transact_replace(text.as_str())
            },
            EditorCommand::Newline => {
                proof {
                    reveal_strlit("\n");
                    assert("\n"@ =~= seq!['\n']);
                }
                self.transact_replace("\n")
            },
            EditorCommand::Backspace => {
                let before = self.snapshot();
                let ghost bv = self@;
                self.backspace();
                self.finish_transaction(before, Ghost(bv))
            },
            EditorCommand::Delete => {
                let before = self.snapshot();
                let ghost bv = self@;
                self.delete();
                self.finish_transaction(before, Ghost(bv))
            },
            EditorCommand::Copy => self.copy(),
            EditorCommand::Cut => self.cut(),
            EditorCommand::Paste => self.paste(),
            EditorCommand::SelectAll => self.select_all(),
            EditorCommand::Indent => {
                let before = self.snapshot();
                let ghost bv = self@;
                self.indent();
                self.finish_transaction(before, Ghost(bv))
            },
            EditorCommand::Outdent => {
                let before = self.snapshot();
                let ghost bv = self@;
                self.outdent();
                self.finish_transaction(before, Ghost(bv))
            },
            EditorCommand::Undo => self.undo(),
            EditorCommand::Redo => self.redo(),
            EditorCommand::SetFindQuery(query) => {
                self.search.set_query(query);
                EditorOutcome::NoChange
            },
            EditorCommand::FindNext => self.find(true),
            EditorCommand::FindPrevious => self.find(false),
        }
    }

    /// The number of snapshots held for undo and redo.
    pub fn history_entry_count(&self) -> (count: usize)
        requires
            self.wf(),
        ensures
            count == self@.undo.len() + self@.redo.len(),
            count <= EDITOR_HISTORY_ENTRY_LIMIT,
    {
        self.history.entry_count()
    }
}

} // verus!
