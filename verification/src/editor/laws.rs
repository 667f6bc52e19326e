//! What holds of the editor across commands: undo takes back an edit, redo
//! takes back an undo, an edit starts a new redo history, and a run of edits
//! is taken back by as many undos.
use vstd::prelude::*;

use super::editing::{
    applied, backspaced, deleted, indented, normalized, outdented, recorded_undo_views, redone,
    replaced, selected_text_of, snapshot_of, transacted, undone, EditorCommand, EditorOutcome,
    EditorView, SnapshotView,
};
use super::buffer::{cluster_bounds, first_at_least, grapheme_bounds};
use super::editing::{selection_of, Motion};
use super::history::EDITOR_HISTORY_ENTRY_LIMIT;
use super::rope::{rope_char_to_line, rope_len_lines, rope_line_len, rope_line_to_char};
use super::search::lemma_first_at_least_exists;
use super::segment::grapheme_clusters;

verus! {

/// An edit is any command other than undo and redo.
pub open spec fn is_edit(command: EditorCommand) -> bool {
    !(command is Undo) && !(command is Redo)
}

/// An edit that changed the text can be taken back: undo right after it brings
/// back the text, the cursor, the selection anchor and the preferred column
/// from before the edit, and leaves that edit's result as the only redo step.
/// The edit itself empties the redo history.
pub proof fn law_undo_takes_back_edit(
    before: EditorView,
    command: EditorCommand,
    after: EditorView,
)
    requires
        before.undo.len() <= EDITOR_HISTORY_ENTRY_LIMIT,
        is_edit(command),
        applied(before, command, after, EditorOutcome::Changed),
    ensures
        after.redo.len() == 0,
        undone(after).1 == EditorOutcome::Changed,
        undone(after).0.text == before.text,
        undone(after).0.cursor == before.cursor,
        undone(after).0.anchor == before.anchor,
        undone(after).0.preferred_column == before.preferred_column,
        undone(after).0.redo == seq![snapshot_of(after)],
{
    match command {
        EditorCommand::Insert(_) | EditorCommand::BracketedPaste(_) | EditorCommand::Newline
        | EditorCommand::Backspace | EditorCommand::Delete | EditorCommand::Indent
        | EditorCommand::Outdent | EditorCommand::Paste | EditorCommand::Cut => {
            assert(after.undo.last() == snapshot_of(before) && after.redo.len() == 0 && after.undo.len()
                > 0) by {
                let b2 = EditorView { clipboard: after.clipboard, ..before };
                if command is Cut || command is Paste {
                    assert(snapshot_of(b2) == snapshot_of(before));
                }
            }
            assert(seq![].push(snapshot_of(after)) =~= seq![snapshot_of(after)]);
        },
        _ => {},
    }
}

/// Redo right after an undo brings back everything the undo changed: the
/// state is the one before the undo, with find navigation restarted.
pub proof fn law_redo_takes_back_undo(v: EditorView)
    requires
        v.undo.len() > 0,
    ensures
        undone(v).1 == EditorOutcome::Changed,
        redone(undone(v).0).1 == EditorOutcome::Changed,
        redone(undone(v).0).0 == (EditorView { found: None, ..v }),
{
    let u = undone(v).0;
    assert(snapshot_of(u) == v.undo.last());
    assert(u.undo.push(snapshot_of(u)) =~= v.undo);
    assert(u.redo.drop_last() =~= v.redo);
}

/// Undo right after a redo brings back everything the redo changed: the state
/// is the one before the redo, with find navigation restarted.
pub proof fn law_undo_takes_back_redo(v: EditorView)
    requires
        v.redo.len() > 0,
    ensures
        redone(v).1 == EditorOutcome::Changed,
        undone(redone(v).0).1 == EditorOutcome::Changed,
        undone(redone(v).0).0 == (EditorView { found: None, ..v }),
{
    let r = redone(v).0;
    assert(snapshot_of(r) == v.redo.last());
    assert(r.redo.push(snapshot_of(r)) =~= v.redo);
    assert(r.undo.drop_last() =~= v.undo);
}

/// An undo or redo with nothing to take back changes nothing.
pub proof fn law_empty_history_is_inert(v: EditorView)
    ensures
        v.undo.len() == 0 ==> undone(v) == (v, EditorOutcome::NoChange),
        v.redo.len() == 0 ==> redone(v) == (v, EditorOutcome::NoChange),
{
}

/// An edit that changed the text records the state before it on top of the
/// undo history, while the history is below its limit.
proof fn lemma_edit_records_before(before: EditorView, command: EditorCommand, after: EditorView)
    requires
        before.undo.len() < EDITOR_HISTORY_ENTRY_LIMIT,
        is_edit(command),
        applied(before, command, after, EditorOutcome::Changed),
    ensures
        after.undo == before.undo.push(snapshot_of(before)),
{
    match command {
        EditorCommand::Insert(_) | EditorCommand::BracketedPaste(_) | EditorCommand::Newline
        | EditorCommand::Backspace | EditorCommand::Delete | EditorCommand::Indent
        | EditorCommand::Outdent | EditorCommand::Paste | EditorCommand::Cut => {
            let b2 = EditorView { clipboard: after.clipboard, ..before };
            if command is Cut || command is Paste {
                assert(snapshot_of(b2) == snapshot_of(before));
                assert(b2.undo == before.undo);
            }
        },
        _ => {},
    }
}

/// Undo taken `n` times, one after the other.
pub open spec fn undone_times(v: EditorView, n: nat) -> EditorView
    decreases n,
{
    if n == 0 {
        v
    } else {
        undone_times(undone(v).0, (n - 1) as nat)
    }
}

/// Undoing as many times as there are entries to take back gives the same
/// text and history from any two states with the same undo history.
proof fn lemma_undone_times_depends_on_history(a: EditorView, b: EditorView, n: nat)
    requires
        a.undo == b.undo,
        0 < n <= a.undo.len(),
    ensures
        undone_times(a, n).text == undone_times(b, n).text,
        undone_times(a, n).undo == undone_times(b, n).undo,
    decreases n,
{
    let ua = undone(a).0;
    let ub = undone(b).0;
    assert(ua.undo == ub.undo);
    assert(ua.text == ub.text);
    if n > 1 {
        lemma_undone_times_depends_on_history(ua, ub, (n - 1) as nat);
    }
}

/// Undoing `k` times after `k` edits that each changed the text brings back
/// the text and undo history from before the first of them.
proof fn lemma_undo_edits(views: Seq<EditorView>, commands: Seq<EditorCommand>, k: nat)
    requires
        views.len() == commands.len() + 1,
        k <= commands.len(),
        views[0].undo.len() + commands.len() <= EDITOR_HISTORY_ENTRY_LIMIT,
        forall|i: int|
            0 <= i < commands.len() ==> is_edit(#[trigger] commands[i]) && applied(
                views[i],
                commands[i],
                views[i + 1],
                EditorOutcome::Changed,
            ),
    ensures
        forall|i: int| 0 <= i <= k ==> (#[trigger] views[i]).undo.len() == views[0].undo.len() + i,
        undone_times(views[k as int], k).text == views[0].text,
        undone_times(views[k as int], k).undo == views[0].undo,
    decreases k,
{
    if k > 0 {
        let j = (k - 1) as int;
        lemma_undo_edits(views, commands, (k - 1) as nat);
        lemma_edit_records_before(views[j], commands[j], views[k as int]);
        let u = undone(views[k as int]).0;
        assert(views[k as int].undo.drop_last() =~= views[j].undo);
        assert(u.undo == views[j].undo);
        assert(u.text == views[j].text);
        assert(undone_times(views[k as int], k) == undone_times(u, (k - 1) as nat));
        if k > 1 {
            lemma_undone_times_depends_on_history(u, views[j], (k - 1) as nat);
        } else {
            assert(undone_times(u, 0) == u);
        }
    }
}

/// Undo takes back a whole run of edits: after edits that each changed the
/// text, as many undos bring back the text and undo history from before the
/// first of them, as long as the history did not reach its limit of entries
/// on the way (beyond it, the oldest entries are dropped).
pub proof fn law_undo_takes_back_a_run_of_edits(views: Seq<EditorView>, commands: Seq<EditorCommand>)
    requires
        views.len() == commands.len() + 1,
        views[0].undo.len() + commands.len() <= EDITOR_HISTORY_ENTRY_LIMIT,
        forall|i: int|
            0 <= i < commands.len() ==> is_edit(#[trigger] commands[i]) && applied(
                views[i],
                commands[i],
                views[i + 1],
                EditorOutcome::Changed,
            ),
    ensures
        undone_times(views.last(), commands.len()).text == views[0].text,
        undone_times(views.last(), commands.len()).undo == views[0].undo,
{
    lemma_undo_edits(views, commands, commands.len());
}


/// The text that undoing everything would bring back: that of the oldest undo
/// entry, or the current text when there is none.
pub open spec fn first_text(v: EditorView) -> Seq<char> {
    if v.undo.len() == 0 {
        v.text
    } else {
        v.undo[0].text
    }
}

/// Undoing as many times as there are undo entries brings back the text of
/// the oldest one.
proof fn lemma_undo_everything(v: EditorView)
    ensures
        undone_times(v, v.undo.len()).text == first_text(v),
    decreases v.undo.len(),
{
    if v.undo.len() > 0 {
        let u = undone(v).0;
        assert(undone_times(v, v.undo.len()) == undone_times(u, u.undo.len()));
        lemma_undo_everything(u);
        if v.undo.len() > 1 {
            assert(u.undo[0] == v.undo[0]);
        }
    }
}

/// Recording an undo entry keeps the oldest one, also at the limit, where
/// the second oldest is dropped instead.
proof fn lemma_recorded_keeps_first(undo: Seq<SnapshotView>, before: SnapshotView)
    ensures
        recorded_undo_views(undo, before).len() > 0,
        recorded_undo_views(undo, before)[0] == (if undo.len() == 0 {
            before
        } else {
            undo[0]
        }),
{
}

/// An edit leaves the text that undoing everything brings back as it was.
proof fn lemma_transacted_keeps_first(before: EditorView, after: EditorView)
    requires
        after.undo == before.undo,
    ensures
        first_text(transacted(before, after).0) == first_text(before),
{
    lemma_recorded_keeps_first(before.undo, snapshot_of(before));
}

/// Any command leaves the text that undoing everything brings back as it was.
proof fn lemma_command_keeps_first(
    before: EditorView,
    command: EditorCommand,
    after: EditorView,
    outcome: EditorOutcome,
)
    requires
        applied(before, command, after, outcome),
    ensures
        first_text(after) == first_text(before),
{
    match command {
        EditorCommand::Insert(t) => lemma_transacted_keeps_first(before, replaced(before, normalized(t@))),
        EditorCommand::BracketedPaste(t) => lemma_transacted_keeps_first(
            before,
            replaced(before, normalized(t@)),
        ),
        EditorCommand::Newline => lemma_transacted_keeps_first(before, replaced(before, seq!['\n'])),
        EditorCommand::Backspace => lemma_transacted_keeps_first(before, backspaced(before)),
        EditorCommand::Delete => lemma_transacted_keeps_first(before, deleted(before)),
        EditorCommand::Indent => lemma_transacted_keeps_first(before, indented(before)),
        EditorCommand::Outdent => lemma_transacted_keeps_first(before, outdented(before)),
        EditorCommand::Cut => {
            match selected_text_of(before) {
                Some(t) => {
                    let with_clipboard = EditorView { clipboard: t, ..before };
                    lemma_transacted_keeps_first(with_clipboard, replaced(with_clipboard, Seq::empty()));
                },
                None => {},
            }
        },
        EditorCommand::Paste => {
            let with_clipboard = EditorView { clipboard: after.clipboard, ..before };
            lemma_transacted_keeps_first(
                with_clipboard,
                replaced(with_clipboard, normalized(after.clipboard)),
            );
        },
        EditorCommand::Undo => {
            if before.undo.len() > 1 {
                assert(after.undo[0] == before.undo[0]);
            }
        },
        EditorCommand::Redo => {
            if before.redo.len() > 0 && before.undo.len() > 0 {
                assert(after.undo[0] == before.undo[0]);
            }
        },
        _ => {},
    }
}

/// After the first `k` commands the text that undoing everything brings back
/// is still that of the first state.
proof fn lemma_commands_keep_first(
    views: Seq<EditorView>,
    commands: Seq<EditorCommand>,
    outcomes: Seq<EditorOutcome>,
    k: int,
)
    requires
        views.len() == commands.len() + 1,
        outcomes.len() == commands.len(),
        0 <= k <= commands.len(),
        views[0].undo.len() == 0,
        forall|i: int|
            0 <= i < commands.len() ==> applied(
                views[i],
                #[trigger] commands[i],
                views[i + 1],
                outcomes[i],
            ),
    ensures
        first_text(views[k]) == views[0].text,
    decreases k,
{
    if k > 0 {
        lemma_commands_keep_first(views, commands, outcomes, k - 1);
        lemma_command_keeps_first(views[k - 1], commands[k - 1], views[k], outcomes[k - 1]);
    }
}

/// Undo takes back everything: after any commands from a state with no undo
/// history (such as a note just loaded), undoing as many times as the undo
/// history then holds entries brings back the text of that first state. When
/// the history is at its limit an edit drops its second oldest entry, never
/// the oldest, so this holds however many commands there were.
pub proof fn law_undo_everything_brings_back_the_first_text(
    views: Seq<EditorView>,
    commands: Seq<EditorCommand>,
    outcomes: Seq<EditorOutcome>,
)
    requires
        views.len() == commands.len() + 1,
        outcomes.len() == commands.len(),
        views[0].undo.len() == 0,
        forall|i: int|
            0 <= i < commands.len() ==> applied(
                views[i],
                #[trigger] commands[i],
                views[i + 1],
                outcomes[i],
            ),
    ensures
        undone_times(views.last(), views.last().undo.len()).text == views[0].text,
{
    lemma_commands_keep_first(views, commands, outcomes, commands.len() as int);
    lemma_undo_everything(views.last());
}


/// How `ropey` numbers the lines of a text, as `rope_line_of` and
/// `rope_line_start` state it on each call: every index up to the end lies in
/// a line that starts at or before it and, unless it is the end, starts the
/// next line after it; the index at which a line starts lies in that line; and
/// the next line starts where a line's characters end.
pub open spec fn line_numbering(text: Seq<char>) -> bool {
    &&& forall|c: int|
        0 <= c <= text.len() ==> {
            let l = #[trigger] rope_char_to_line(text, c as usize);
            &&& l < rope_len_lines(text)
            &&& rope_line_to_char(text, l) <= c
            &&& c < text.len() ==> c < rope_line_to_char(text, (l + 1) as usize)
        }
    &&& forall|l: usize|
        l < rope_len_lines(text) ==> rope_char_to_line(text, #[trigger] rope_line_to_char(text, l))
            == l
    &&& forall|l: usize|
        l < rope_len_lines(text) ==> rope_line_to_char(text, l) + #[trigger] rope_line_len(text, l)
            == rope_line_to_char(text, (l + 1) as usize)
}

/// Home goes to the start of the cursor's line: the cursor moves back to the
/// first index that lies in the same line as the cursor (the index before it,
/// if any, lies in another line), the selection is dropped and the text stays.
pub proof fn law_home_goes_to_the_start_of_the_line(
    v: EditorView,
    after: EditorView,
    outcome: EditorOutcome,
)
    requires
        0 <= v.cursor <= v.text.len(),
        line_numbering(v.text),
        applied(v, EditorCommand::Move { motion: Motion::LineStart, extend_selection: false }, after, outcome),
    ensures
        after.text == v.text,
        after.anchor is None,
        0 <= after.cursor <= v.cursor,
        rope_char_to_line(v.text, after.cursor as usize) == rope_char_to_line(v.text, v.cursor as usize),
        after.cursor > 0 ==> rope_char_to_line(v.text, (after.cursor - 1) as usize) != rope_char_to_line(
            v.text,
            v.cursor as usize,
        ),
{
    let t = v.text;
    let l = rope_char_to_line(t, v.cursor as usize);
    let s = rope_line_to_char(t, l);
    assert(s <= v.cursor);
    assert(rope_char_to_line(t, s) == l);
    assert(after.cursor == s);
    if s > 0 {
        let c = s - 1;
        let l2 = rope_char_to_line(t, c as usize);
        assert(rope_line_to_char(t, l2) <= c);
        assert(c < rope_line_to_char(t, (l2 + 1) as usize));
    }
}

/// The grapheme boundaries never decrease along their sequence.
proof fn lemma_bounds_grow(clusters: Seq<Seq<char>>, i: int, j: int)
    requires
        0 <= i <= j <= clusters.len(),
    ensures
        cluster_bounds(clusters)[i] <= cluster_bounds(clusters)[j],
    decreases j - i,
{
    if i < j {
        lemma_bounds_grow(clusters, i, j - 1);
        clusters.take(j - 1).lemma_flatten_push(clusters[j - 1]);
        assert(clusters.take(j - 1).push(clusters[j - 1]) =~= clusters.take(j));
    }
}

/// Backspace over a selection removes exactly the selected characters: the
/// text is what comes before the selection followed by what comes after it, the
/// selection is dropped, and the cursor lands on the first grapheme boundary at
/// or after the selection's start (the end of the text when there is none).
pub proof fn law_backspace_removes_the_selection(v: EditorView, after: EditorView, outcome: EditorOutcome)
    requires
        0 <= v.cursor <= v.text.len(),
        v.anchor is Some,
        0 <= v.anchor->0 <= v.text.len(),
        v.anchor->0 != v.cursor,
        applied(v, EditorCommand::Backspace, after, outcome),
    ensures
        ({
            let a = v.anchor->0;
            let start = if a < v.cursor { a } else { v.cursor };
            let end = if a < v.cursor { v.cursor } else { a };
            let b = grapheme_bounds(after.text);
            &&& after.text == v.text.take(start) + v.text.skip(end)
            &&& after.anchor is None
            &&& outcome == EditorOutcome::Changed
            &&& start <= after.cursor
            &&& after.cursor == after.text.len() || b.contains(after.cursor)
            &&& forall|i: int| 0 <= i < b.len() ==> !(start <= #[trigger] b[i] < after.cursor)
        }),
{
    let a = v.anchor->0;
    let start = if a < v.cursor { a } else { v.cursor };
    let end = if a < v.cursor { v.cursor } else { a };
    assert(selection_of(v.cursor, v.anchor) == Some((start, end)));
    let text = v.text.take(start) + v.text.skip(end);
    assert(text.len() < v.text.len());
    let b = grapheme_bounds(text);
    lemma_first_at_least_exists(b, start, 0);
    let k = first_at_least(b, start);
    assert(after.text == text);
    if k < b.len() {
        assert(after.cursor == b[k]);
        assert forall|i: int| 0 <= i < b.len() implies !(start <= #[trigger] b[i] < after.cursor) by {
            if i >= k {
                lemma_bounds_grow(grapheme_clusters(text), k, i);
            }
        }
    }
}


/// Without a selection, Backspace removes the grapheme before the cursor and
/// Delete the one after it: the removed stretch runs from the cursor to the
/// nearest grapheme boundary on that side (with no boundary in between), or to
/// the end of the text for Delete when no boundary lies past the cursor. At the
/// start of the text Backspace changes nothing.
pub proof fn law_backspace_and_delete_remove_one_grapheme(
    v: EditorView,
    command: EditorCommand,
    after: EditorView,
    outcome: EditorOutcome,
)
    requires
        0 <= v.cursor <= v.text.len(),
        v.anchor is None || v.anchor->0 == v.cursor,
        command == EditorCommand::Backspace || command == EditorCommand::Delete,
        applied(v, command, after, outcome),
    ensures
        ({
            let b = grapheme_bounds(v.text);
            &&& command == EditorCommand::Backspace && v.cursor > 0 ==> exists|p: int|
                #![trigger b.contains(p)]
                0 <= p < v.cursor && b.contains(p) && (forall|i: int|
                    0 <= i < b.len() ==> !(p < #[trigger] b[i] < v.cursor)) && after.text == v.text.take(p)
                    + v.text.skip(v.cursor) && outcome == EditorOutcome::Changed
            &&& command == EditorCommand::Delete && v.cursor < v.text.len() ==> exists|q: int|
                #![trigger v.text.skip(q)]
                v.cursor < q && (q == v.text.len() || b.contains(q)) && (forall|i: int|
                    0 <= i < b.len() ==> !(v.cursor < #[trigger] b[i] < q)) && after.text == v.text.take(
                    v.cursor,
                ) + v.text.skip(q)
            &&& command == EditorCommand::Backspace && v.cursor == 0 ==> after.text == v.text && outcome
                == EditorOutcome::NoChange
        }),
{
    let t = v.text;
    let b = grapheme_bounds(t);
    let c = v.cursor;
    assert(selection_of(c, v.anchor) is None);
    assert(b[0] == 0) by {
        assert(grapheme_clusters(t).take(0) =~= Seq::<Seq<char>>::empty());
    }
    if command == EditorCommand::Backspace {
        lemma_first_at_least_exists(b, c, 0);
        let k = first_at_least(b, c);
        if c == 0 {
            assert(k == 0);
        }
        if c > 0 {
            assert(k > 0);
            let p = b[k - 1];
            assert(p < c);
            assert(b.contains(p));
            assert forall|i: int| 0 <= i < b.len() implies !(p < #[trigger] b[i] < c) by {
                if i < k - 1 {
                    lemma_bounds_grow(grapheme_clusters(t), i, k - 1);
                } else if i > k {
                    lemma_bounds_grow(grapheme_clusters(t), k, i);
                }
            }
            assert(t.take(p) + t.skip(c) != t) by {
                assert((t.take(p) + t.skip(c)).len() < t.len());
            }
        }
    } else {
        lemma_first_at_least_exists(b, c + 1, 0);
        let k = first_at_least(b, c + 1);
        if c < t.len() {
            let q = if k < b.len() { b[k] } else { t.len() as int };
            assert(c < q);
            assert(q == t.len() || b.contains(q));
            assert forall|i: int| 0 <= i < b.len() implies !(c < #[trigger] b[i] < q) by {
                if i >= k && k < b.len() {
                    lemma_bounds_grow(grapheme_clusters(t), k, i);
                }
            }
            if q <= t.len() {
                assert(t.take(c) + t.skip(q) != t) by {
                    assert((t.take(c) + t.skip(q)).len() < t.len());
                }
            }
            assert(after.text == t.take(c) + t.skip(q));
        }
    }
}


/// Without a selection, the cursor motions go where they name: Left to the
/// nearest grapheme boundary before the cursor and Right to the nearest one
/// after it (the end of the text when there is none), staying put at the
/// start and at the end; End to the end of the cursor's line, before the line
/// feed that ends it; Command-Up to the start of the text and Command-Down to
/// its end. The text stays and no selection is made.
pub proof fn law_motions_go_where_they_name(
    v: EditorView,
    motion: Motion,
    after: EditorView,
    outcome: EditorOutcome,
)
    requires
        0 <= v.cursor <= v.text.len(),
        v.anchor is None || v.anchor->0 == v.cursor,
        line_numbering(v.text),
        applied(v, EditorCommand::Move { motion, extend_selection: false }, after, outcome),
    ensures
        after.text == v.text,
        after.anchor is None,
        motion == Motion::DocumentStart ==> after.cursor == 0,
        motion == Motion::DocumentEnd ==> after.cursor == v.text.len(),
        ({
            let b = grapheme_bounds(v.text);
            &&& motion == Motion::Left && v.cursor > 0 ==> {
                &&& after.cursor < v.cursor
                &&& b.contains(after.cursor)
                &&& forall|i: int| 0 <= i < b.len() ==> !(after.cursor < #[trigger] b[i] < v.cursor)
            }
            &&& motion == Motion::Left && v.cursor == 0 ==> after.cursor == 0
            &&& motion == Motion::Right && v.cursor < v.text.len() ==> {
                &&& v.cursor < after.cursor
                &&& after.cursor == v.text.len() || b.contains(after.cursor)
                &&& forall|i: int| 0 <= i < b.len() ==> !(v.cursor < #[trigger] b[i] < after.cursor)
            }
        }),
        ({
            let l = rope_char_to_line(v.text, v.cursor as usize);
            let start = rope_line_to_char(v.text, l);
            let next = rope_line_to_char(v.text, (l + 1) as usize) as int;
            motion == Motion::LineEnd && v.cursor < v.text.len() ==> {
                &&& v.cursor <= after.cursor
                &&& next > start && v.text[next - 1] == '\n' ==> after.cursor == next - 1
                &&& !(next > start && v.text[next - 1] == '\n') ==> after.cursor == next
            }
        }),
{
    let t = v.text;
    let c = v.cursor;
    let b = grapheme_bounds(t);
    assert(selection_of(c, v.anchor) is None);
    assert(b[0] == 0) by {
        assert(grapheme_clusters(t).take(0) =~= Seq::<Seq<char>>::empty());
    }
    if motion == Motion::Left {
        lemma_first_at_least_exists(b, c, 0);
        let k = first_at_least(b, c);
        if c == 0 {
            assert(k == 0);
        } else {
            assert(k > 0);
            let p = b[k - 1];
            assert(b.contains(p));
            assert forall|i: int| 0 <= i < b.len() implies !(p < #[trigger] b[i] < c) by {
                if i < k - 1 {
                    lemma_bounds_grow(grapheme_clusters(t), i, k - 1);
                } else if i > k {
                    lemma_bounds_grow(grapheme_clusters(t), k, i);
                }
            }
        }
    } else if motion == Motion::Right {
        lemma_first_at_least_exists(b, c + 1, 0);
        let k = first_at_least(b, c + 1);
        if k < b.len() {
            assert(b.contains(b[k]));
            assert forall|i: int| 0 <= i < b.len() implies !(c < #[trigger] b[i] < b[k]) by {
                if i > k {
                    lemma_bounds_grow(grapheme_clusters(t), k, i);
                }
            }
        }
    } else if motion == Motion::LineEnd && c < t.len() {
        let l = rope_char_to_line(t, c as usize);
        assert(l < rope_len_lines(t));
        assert(rope_line_to_char(t, l) <= c);
        assert(c < rope_line_to_char(t, (l + 1) as usize));
        assert(rope_line_to_char(t, l) + rope_line_len(t, l) == rope_line_to_char(t, (l + 1) as usize));
    }
}

/// Left and Right without Shift collapse a selection: Left (by grapheme or by
/// word) puts the cursor at the selection's start and Right at its end, and the
/// text stays.
pub proof fn law_left_and_right_collapse_a_selection(
    v: EditorView,
    motion: Motion,
    after: EditorView,
    outcome: EditorOutcome,
)
    requires
        v.anchor is Some,
        v.anchor->0 != v.cursor,
        applied(v, EditorCommand::Move { motion, extend_selection: false }, after, outcome),
    ensures
        ({
            let a = v.anchor->0;
            let start = if a < v.cursor { a } else { v.cursor };
            let end = if a < v.cursor { v.cursor } else { a };
            &&& (motion == Motion::Left || motion == Motion::WordLeft) ==> after.cursor == start
                && after.anchor is None && after.text == v.text
            &&& (motion == Motion::Right || motion == Motion::WordRight) ==> after.cursor == end
                && after.anchor is None && after.text == v.text
        }),
{
}

/// Moving with Shift keeps the selection's anchor where it was, or puts it at
/// the cursor when there was none, so the selection runs from there to the new
/// cursor; the text stays.
pub proof fn law_shift_motions_extend_the_selection(
    v: EditorView,
    motion: Motion,
    after: EditorView,
    outcome: EditorOutcome,
)
    requires
        applied(v, EditorCommand::Move { motion, extend_selection: true }, after, outcome),
    ensures
        after.text == v.text,
        after.anchor == (if v.anchor is Some { v.anchor } else { Some(v.cursor) }),
{
}

} // verus!
