//! The status line of a workspace, the label of a tree row and the title of
//! the editor pane.
use vstd::prelude::*;

use crate::app::mutation::PendingMutationKind;
use crate::app::overlay::{occurs, occurs_in};
use crate::app::session::CommitStatus;
use crate::app::state::{push_part, PushStatus};
use crate::editor::highlight::HighlightLanguage;
use crate::editor::segment::{display_width, width};
use crate::text::{append, concat, decimal, decimal_of, string_of};
use crate::workspace::tree::TreeEntryKind;

verus! {

/// What is in flight in a workspace, as the status line names it.
#[derive(Clone, Copy, PartialEq, Eq, Structural, Debug)]
pub enum Activity {
    Saving,
    RetryingCommit,
    ApplyingMutation,
    Loading,
}

/// The status line's name of a file type.
pub open spec fn file_type_name(language: Option<HighlightLanguage>) -> Seq<char> {
    match language {
        None => "No file"@,
        Some(HighlightLanguage::Markdown) => "Markdown"@,
        Some(HighlightLanguage::Html) => "HTML"@,
        Some(HighlightLanguage::PlainText) => "Plain text"@,
    }
}

/// The status line's name of an activity.
pub open spec fn activity_name(activity: Activity) -> Seq<char> {
    match activity {
        Activity::Saving => "saving"@,
        Activity::RetryingCommit => "retrying commit"@,
        Activity::ApplyingMutation => "applying mutation"@,
        Activity::Loading => "loading"@,
    }
}

/// What the status line calls a mutation in flight: a save, a commit that is
/// tried again, or a change to the files.
pub open spec fn mutation_activity_of(kind: PendingMutationKind) -> Activity {
    match kind {
        PendingMutationKind::Save { .. } => Activity::Saving,
        PendingMutationKind::RetryCommit => Activity::RetryingCommit,
        PendingMutationKind::File(_) => Activity::ApplyingMutation,
        PendingMutationKind::Delete => Activity::ApplyingMutation,
    }
}

/// The activity of a mutation in flight (see [`mutation_activity_of`]).
pub fn mutation_activity(kind: PendingMutationKind) -> (activity: Activity)
    ensures
        activity == mutation_activity_of(kind),
{
    match kind {
        PendingMutationKind::Save { .. } => Activity::Saving,
        PendingMutationKind::RetryCommit => Activity::RetryingCommit,
        PendingMutationKind::File(_) => Activity::ApplyingMutation,
        PendingMutationKind::Delete => Activity::ApplyingMutation,
    }
}

/// What the status line says of the last commit, if anything: a committed
/// revision shows its first eight characters.
pub open spec fn commit_part(commit: CommitStatus) -> Option<Seq<char>> {
    match commit {
        CommitStatus::Idle => None,
        CommitStatus::Pending => Some("commit pending"@),
        CommitStatus::Committed { revision } => Some(
            "committed "@ + if revision@.len() <= 8 {
                revision@
            } else {
                revision@.take(8)
            },
        ),
        CommitStatus::NoChanges => Some("saved · no Git changes"@),
        CommitStatus::SavedCommitFailed { message } => Some("saved · not committed: "@ + message@),
    }
}

/// The parts of the status line, in order: the file type, whether the note is
/// saved, the cursor's line and column, what is in flight, the last push, the
/// commit, and the status message unless a part already says it.
pub open spec fn status_parts(
    language: Option<HighlightLanguage>,
    dirty: bool,
    line: nat,
    column: nat,
    activity: Option<Activity>,
    push: PushStatus,
    commit: CommitStatus,
    message: Option<Seq<char>>,
) -> Seq<Seq<char>> {
    let base = seq![
        file_type_name(language),
        if dirty {
            "modified"@
        } else {
            "saved"@
        },
        "Ln "@ + decimal_of(line) + ", Col "@ + decimal_of(column),
    ];
    let with_activity = match activity {
        Some(a) => base.push(activity_name(a)),
        None => base,
    };
    let with_push = match push_part(push) {
        Some(p) => with_activity.push(p),
        None => with_activity,
    };
    let with_commit = match commit_part(commit) {
        Some(c) => with_push.push(c),
        None => with_push,
    };
    with_message(with_commit, message)
}

/// The parts, and the message after them unless one of them already says it.
pub open spec fn with_message(parts: Seq<Seq<char>>, message: Option<Seq<char>>) -> Seq<Seq<char>> {
    match message {
        Some(m) => if exists|i: int| 0 <= i < parts.len() && occurs_in(#[trigger] parts[i], m) {
            parts
        } else {
            parts.push(m)
        },
        None => parts,
    }
}

/// The parts joined by `  ·  `.
pub open spec fn joined_parts(parts: Seq<Seq<char>>) -> Seq<char>
    decreases parts.len(),
{
    if parts.len() == 0 {
        Seq::empty()
    } else if parts.len() == 1 {
        parts[0]
    } else {
        joined_parts(parts.drop_last()) + "  ·  "@ + parts.last()
    }
}

/// The status line: the parts, joined, with a space on each side.
pub open spec fn status_text(
    language: Option<HighlightLanguage>,
    dirty: bool,
    line: nat,
    column: nat,
    activity: Option<Activity>,
    push: PushStatus,
    commit: CommitStatus,
    message: Option<Seq<char>>,
) -> Seq<char> {
    " "@ + joined_parts(status_parts(language, dirty, line, column, activity, push, commit, message))
        + " "@
}

fn file_type_text(language: Option<HighlightLanguage>) -> (text: &'static str)
    ensures
        text@ == file_type_name(language),
{
    match language {
        None => "No file",
        Some(HighlightLanguage::Markdown) => "Markdown",
        Some(HighlightLanguage::Html) => "HTML",
        Some(HighlightLanguage::PlainText) => "Plain text",
    }
}

fn activity_text(activity: Activity) -> (text: &'static str)
    ensures
        text@ == activity_name(activity),
{
    match activity {
        Activity::Saving => "saving",
        Activity::RetryingCommit => "retrying commit",
        Activity::ApplyingMutation => "applying mutation",
        Activity::Loading => "loading",
    }
}

fn push_text(push: &PushStatus) -> (text: Option<String>)
    ensures
        match text {
            Some(t) => push_part(*push) == Some(t@),
            None => push_part(*push) is None,
        },
{
    match push {
        PushStatus::Idle => None,
        PushStatus::Pushing => Some("pushing".to_owned()),
        PushStatus::Pushed => Some("pushed".to_owned()),
        PushStatus::UpToDate => Some("remote up to date".to_owned()),
        PushStatus::Failed { message } => Some(message.clone()),
    }
}

fn commit_text(commit: &CommitStatus) -> (text: Option<String>)
    ensures
        match text {
            Some(t) => commit_part(*commit) == Some(t@),
            None => commit_part(*commit) is None,
        },
{
    match commit {
        CommitStatus::Idle => None,
        CommitStatus::Pending => Some("commit pending".to_owned()),
        CommitStatus::Committed { revision } => {
            let cs = crate::text::chars_of(revision.as_str());
            let mut short: Vec<char> = Vec::new();
            let mut i: usize = 0;
            while i < cs.len() && i < 8
                invariant
                    i <= cs@.len(),
                    i <= 8,
                    short@ == cs@.take(i as int),
                decreases cs@.len() - i,
            {
                short.push(cs[i]);
                assert(cs@.take(i + 1) =~= cs@.take(i as int).push(cs@[i as int]));
                i = i + 1;
            }
            if cs.len() <= 8 {
                assert(cs@.take(cs@.len() as int) =~= cs@);
            }
            Some(concat("committed ", string_of(short.as_slice()).as_str()))
        },
        CommitStatus::NoChanges => Some("saved · no Git changes".to_owned()),
        CommitStatus::SavedCommitFailed { message } => Some(
            concat("saved · not committed: ", message.as_str()),
        ),
    }
}

/// The status line of a workspace (see [`status_text`]).
pub fn status_line(
    language: Option<HighlightLanguage>,
    dirty: bool,
    line: u64,
    column: u64,
    activity: Option<Activity>,
    push: &PushStatus,
    commit: &CommitStatus,
    message: Option<&str>,
) -> (text: String)
    ensures
        text@ == status_text(
            language,
            dirty,
            line as nat,
            column as nat,
            activity,
            *push,
            *commit,
            match message {
                Some(m) => Some(m@),
                None => None,
            },
        ),
{
    let mut parts: Vec<String> = Vec::new();
    parts.push(file_type_text(language).to_owned());
    parts.push(if dirty { "modified" } else { "saved" }.to_owned());
    let position = concat(
        &concat(&concat("Ln ", decimal(line).as_str()), ", Col "),
        decimal(column).as_str(),
    );
    parts.push(position);
    match activity {
        Some(a) => parts.push(activity_text(a).to_owned()),
        None => {},
    }
    match push_text(push) {
        Some(p) => parts.push(p),
        None => {},
    }
    match commit_text(commit) {
        Some(c) => parts.push(c),
        None => {},
    }
    let ghost with_commit = parts@.map_values(|p: String| p@);
    let ghost wc = {
        let base = seq![
            file_type_name(language),
            if dirty {
                "modified"@
            } else {
                "saved"@
            },
            "Ln "@ + decimal_of(line as nat) + ", Col "@ + decimal_of(column as nat),
        ];
        let wa = match activity {
            Some(a) => base.push(activity_name(a)),
            None => base,
        };
        let wp = match push_part(*push) {
            Some(p) => wa.push(p),
            None => wa,
        };
        match commit_part(*commit) {
            Some(c) => wp.push(c),
            None => wp,
        }
    };
    assert(with_commit =~= wc);
    let mut said = false;
    match message {
        Some(m) => {
            let mut i: usize = 0;
            while i < parts.len()
                invariant
                    i <= parts@.len(),
                    with_commit == parts@.map_values(|p: String| p@),
                    said == exists|k: int| 0 <= k < i && occurs_in(#[trigger] with_commit[k], m@),
                decreases parts@.len() - i,
            {
                if occurs(parts[i].as_str(), m) {
                    assert(occurs_in(with_commit[i as int], m@));
                    said = true;
                }
                i = i + 1;
            }
            if !said {
                parts.push(m.to_owned());
                assert(parts@.map_values(|p: String| p@) =~= with_commit.push(m@));
            }
        },
        None => {},
    }
    proof {
        match message {
            Some(m) => {
                if said {
                    assert(exists|k: int| 0 <= k < wc.len() && occurs_in(#[trigger] wc[k], m@));
                    assert(with_message(wc, Some(m@)) == wc);
                    assert(status_parts(language, dirty, line as nat, column as nat, activity, *push, *commit, Some(m@)) == wc);
                } else {
                    assert(!exists|k: int| 0 <= k < wc.len() && occurs_in(#[trigger] wc[k], m@));
                    assert(status_parts(language, dirty, line as nat, column as nat, activity, *push, *commit, Some(m@)) == wc.push(m@));
                }
            },
            None => {
                assert(status_parts(language, dirty, line as nat, column as nat, activity, *push, *commit, None) == wc);
            },
        }
    }
    let ghost views = parts@.map_values(|p: String| p@);
    let mut out: Vec<char> = Vec::new();
    out.push(' ');
    let mut k: usize = 0;
    while k < parts.len()
        invariant
            k <= parts@.len(),
            views == parts@.map_values(|p: String| p@),
            out@ == seq![' '] + joined_parts(views.take(k as int)),
        decreases parts@.len() - k,
    {
        if k > 0 {
            append(&mut out, "  ·  ");
        }
        append(&mut out, parts[k].as_str());
        proof {
            let t = views.take(k + 1);
            assert(t.drop_last() =~= views.take(k as int));
            assert(t.last() == parts@[k as int]@);
            if k == 0 {
                assert(views.take(0) =~= Seq::<Seq<char>>::empty());
                assert(out@ =~= seq![' '] + joined_parts(t));
            } else {
                assert(out@ =~= seq![' '] + joined_parts(t));
            }
        }
        k = k + 1;
    }
    assert(views.take(parts@.len() as int) =~= views);
    out.push(' ');
    proof {
        reveal_strlit(" ");
        assert(views == status_parts(
            language,
            dirty,
            line as nat,
            column as nat,
            activity,
            *push,
            *commit,
            match message {
                Some(m) => Some(m@),
                None => None,
            },
        ));
        assert(out@ =~= " "@ + joined_parts(views) + " "@);
    }
    string_of(out.as_slice())
}

/// The last component of a `/`-separated path.
pub open spec fn file_name_of(path: Seq<char>) -> Seq<char>
    decreases path.len(),
{
    if path.len() == 0 {
        path
    } else if path.last() == '/' {
        Seq::empty()
    } else {
        file_name_of(path.drop_last()).push(path.last())
    }
}

/// The mark of a tree row: a directory, an enabled file, a file that cannot
/// be opened, a symbolic link.
pub open spec fn row_icon(kind: TreeEntryKind, enabled: bool) -> Seq<char> {
    match kind {
        TreeEntryKind::Directory => "▸"@,
        TreeEntryKind::File => if enabled {
            "•"@
        } else {
            "×"@
        },
        TreeEntryKind::Symlink => "↗"@,
    }
}

/// The label of a tree row: its mark and the entry's name.
pub fn tree_row_label(kind: TreeEntryKind, enabled: bool, path: &str) -> (label: String)
    ensures
        label@ == row_icon(kind, enabled) + " "@ + file_name_of(path@),
{
    let icon = match kind {
        TreeEntryKind::Directory => "▸",
        TreeEntryKind::File => if enabled {
            "•"
        } else {
            "×"
        },
        TreeEntryKind::Symlink => "↗",
    };
    let cs = crate::text::chars_of(path);
    let mut start: usize = cs.len();
    assert(cs@.take(cs@.len() as int) =~= cs@);
    assert(cs@.skip(cs@.len() as int) =~= Seq::<char>::empty());
    assert(file_name_of(cs@) + Seq::<char>::empty() =~= file_name_of(cs@));
    while start > 0 && cs[start - 1] != '/'
        invariant
            start <= cs@.len(),
            forall|j: int| start <= j < cs@.len() ==> cs@[j] != '/',
            file_name_of(cs@) == file_name_of(cs@.take(start as int)) + cs@.skip(start as int),
        decreases start,
    {
        proof {
            let t = cs@.take(start as int);
            assert(t.drop_last() =~= cs@.take(start - 1));
            assert(cs@.skip(start - 1) =~= seq![cs@[start - 1]] + cs@.skip(start as int));
            assert(file_name_of(t) == file_name_of(cs@.take(start - 1)).push(cs@[start - 1]));
        }
        start = start - 1;
    }
    proof {
        if start > 0 {
            let t = cs@.take(start as int);
            assert(t.last() == '/');
        } else {
            assert(cs@.take(0) =~= Seq::<char>::empty());
        }
    }
    let mut out: Vec<char> = Vec::new();
    append(&mut out, icon);
    out.push(' ');
    proof {
        reveal_strlit(" ");
        assert(cs@.subrange(start as int, start as int) =~= Seq::<char>::empty());
        assert(out@ =~= icon@ + " "@ + cs@.subrange(start as int, start as int));
    }
    let mut i = start;
    while i < cs.len()
        invariant
            start <= i <= cs@.len(),
            out@ == icon@ + " "@ + cs@.subrange(start as int, i as int),
        decreases cs@.len() - i,
    {
        out.push(cs[i]);
        proof {
            reveal_strlit(" ");
            assert(cs@.subrange(start as int, i + 1) =~= cs@.subrange(start as int, i as int).push(
                cs@[i as int],
            ));
        }
        i = i + 1;
    }
    proof {
        reveal_strlit(" ");
        assert(cs@.subrange(start as int, cs@.len() as int) =~= cs@.skip(start as int));
    }
    string_of(out.as_slice())
}

/// The title of the editor pane: editing or previewing, and the note, if any.
pub open spec fn editor_title_text(focused: bool, note: Option<Seq<char>>) -> Seq<char> {
    let mode = if focused {
        "Editing"@
    } else {
        "Preview"@
    };
    match note {
        Some(n) => " "@ + mode + " · "@ + n + " "@,
        None => " "@ + mode + " "@,
    }
}

/// The title of the editor pane (see [`editor_title_text`]).
pub fn editor_title(focused: bool, note: Option<&str>) -> (title: String)
    ensures
        title@ == editor_title_text(
            focused,
            match note {
                Some(n) => Some(n@),
                None => None,
            },
        ),
{
    let mode = if focused {
        "Editing"
    } else {
        "Preview"
    };
    let mut out: Vec<char> = Vec::new();
    append(&mut out, " ");
    append(&mut out, mode);
    match note {
        Some(n) => {
            append(&mut out, " · ");
            append(&mut out, n);
        },
        None => {},
    }
    append(&mut out, " ");
    string_of(out.as_slice())
}



/// The number of line feeds in a text.
pub open spec fn newline_count(text: Seq<char>) -> nat
    decreases text.len(),
{
    if text.len() == 0 {
        0
    } else {
        newline_count(text.drop_last()) + if text.last() == '\n' {
            1nat
        } else {
            0nat
        }
    }
}

/// What follows the last line feed of a text (all of it when it has none).
pub open spec fn last_line(text: Seq<char>) -> Seq<char>
    decreases text.len(),
{
    if text.len() == 0 {
        text
    } else if text.last() == '\n' {
        Seq::empty()
    } else {
        last_line(text.drop_last()).push(text.last())
    }
}

/// The line and column of the cursor, from 1: one more than the line feeds
/// before it, and one more than the display width of its line before it (a
/// width that fills `usize` is kept as it is).
pub fn cursor_position(text: &str, cursor: usize) -> (position: (usize, usize))
    requires
        cursor <= text@.len(),
        text@.len() < usize::MAX,
    ensures
        position.0 == newline_count(text@.take(cursor as int)) + 1,
        position.1 == if display_width(last_line(text@.take(cursor as int))) < usize::MAX {
            display_width(last_line(text@.take(cursor as int))) + 1
        } else {
            usize::MAX as int
        },
{
    let cs = crate::text::chars_of(text);
    let mut lines: usize = 0;
    let mut current: Vec<char> = Vec::new();
    let mut i: usize = 0;
    while i < cursor
        invariant
            cs@ == text@,
            cursor <= cs@.len(),
            cs@.len() < usize::MAX,
            i <= cursor,
            lines == newline_count(cs@.take(i as int)),
            lines <= i,
            current@ == last_line(cs@.take(i as int)),
        decreases cursor - i,
    {
        assert(cs@.take(i + 1).drop_last() =~= cs@.take(i as int));
        if cs[i] == '\n' {
            lines = lines + 1;
            current = Vec::new();
        } else {
            current.push(cs[i]);
        }
        i = i + 1;
    }
    let line_text = string_of(current.as_slice());
    let columns = width(line_text.as_str());
    let column = if columns < usize::MAX {
        columns + 1
    } else {
        columns
    };
    (lines + 1, column)
}

} // verus!
