//! File mutations requested from the tree: which operation and commit each
//! one makes, whether it touches the open note, and where paths below a moved
//! entry end up. Paths are compared by their components, as `std::path`
//! compares them (repository-relative paths carry no leading `./`).
use vstd::prelude::*;

use super::browser::FileActionKind;
use crate::git::CommitIntent;
use crate::text::same_text;
use crate::workspace::files::FileOperation;
use crate::workspace::paths::{
    components, is_absolute, join_below, join_components, joined, joined_below, path_components,
    string_views,
};
use crate::text::chars_of;

verus! {

/// A change to the repository's files that the tree asks for.
#[derive(Debug, PartialEq, Eq)]
pub enum FileMutationAction {
    CreateFile { path: String },
    CreateFolder { path: String },
    Rename { from: String, to: String },
    Move { from: String, to: String },
    Delete { path: String },
}

/// What kind of mutation is in flight.
#[derive(Clone, Copy, PartialEq, Eq, Structural, Debug)]
pub enum PendingMutationKind {
    Save { overwrite: bool },
    RetryCommit,
    File(FileActionKind),
    Delete,
}

/// Two paths are the same path: both absolute or both relative, with the same components.
pub open spec fn same_path(p: Seq<char>, q: Seq<char>) -> bool {
    is_absolute(p) == is_absolute(q) && components(p) == components(q)
}

/// `p` lies at or below `q`: the components of `q` begin those of `p`.
pub open spec fn path_starts_with(p: Seq<char>, q: Seq<char>) -> bool {
    &&& is_absolute(p) == is_absolute(q)
    &&& components(q).len() <= components(p).len()
    &&& components(p).take(components(q).len() as int) == components(q)
}

/// Where `path` ends up when `from` becomes `to`: `to` itself for `from`, the
/// same place below `to` for a path below `from`, and nowhere otherwise.
pub open spec fn rebased(path: Seq<char>, from: Seq<char>, to: Seq<char>) -> Option<Seq<char>> {
    if same_path(path, from) {
        Some(to)
    } else if path_starts_with(path, from) {
        Some(joined_below(to, joined(components(path).skip(components(from).len() as int))))
    } else {
        None
    }
}

fn starts_absolute(p: &str) -> (absolute: bool)
    ensures
        absolute == is_absolute(p@),
{
    let cs = chars_of(p);
    cs.len() > 0 && cs[0] == '/'
}

/// Whether the first `k` components of `a` are those of `b` (all of `b`).
fn components_prefix(a: &Vec<String>, b: &Vec<String>) -> (prefix: bool)
    ensures
        prefix == (b@.len() <= a@.len() && string_views(a@).take(b@.len() as int) == string_views(
            b@,
        )),
{
    if b.len() > a.len() {
        return false;
    }
    let mut i: usize = 0;
    while i < b.len()
        invariant
            b@.len() <= a@.len(),
            i <= b@.len(),
            forall|k: int| 0 <= k < i ==> a@[k]@ == b@[k]@,
        decreases b@.len() - i,
    {
        if !same_text(a[i].as_str(), b[i].as_str()) {
            assert(string_views(a@).take(b@.len() as int)[i as int] != string_views(b@)[i as int]);
            return false;
        }
        i = i + 1;
    }
    assert(string_views(a@).take(b@.len() as int) =~= string_views(b@));
    true
}

/// Whether `p` lies at or below `q`.
pub fn starts_with_path(p: &str, q: &str) -> (below: bool)
    ensures
        below == path_starts_with(p@, q@),
{
    if starts_absolute(p) != starts_absolute(q) {
        return false;
    }
    let pc = path_components(p);
    let qc = path_components(q);
    components_prefix(&pc, &qc)
}

/// Where `path` ends up when `from` becomes `to` (see [`rebased`]).
pub fn rebase_path(path: &str, from: &str, to: &str) -> (moved: Option<String>)
    ensures
        match moved {
            Some(m) => rebased(path@, from@, to@) == Some(m@),
            None => rebased(path@, from@, to@) is None,
        },
{
    if starts_absolute(path) != starts_absolute(from) {
        return None;
    }
    let pc = path_components(path);
    let fc = path_components(from);
    if !components_prefix(&pc, &fc) {
        assert(string_views(pc@).take(string_views(pc@).len() as int) =~= string_views(pc@));
        return None;
    }
    if pc.len() == fc.len() {
        assert(string_views(pc@) =~= string_views(pc@).take(fc@.len() as int));
        return Some(to.to_owned());
    }
    let mut suffix: Vec<String> = Vec::new();
    let mut i: usize = fc.len();
    let ghost start = fc@.len() as int;
    while i < pc.len()
        invariant
            start <= i <= pc@.len(),
            start == fc@.len(),
            string_views(suffix@) == string_views(pc@).subrange(start, i as int),
        decreases pc@.len() - i,
    {
        let ghost before = suffix@;
        suffix.push(pc[i].clone());
        assert(string_views(suffix@) =~= string_views(before).push(pc@[i as int]@));
        i = i + 1;
        assert(string_views(suffix@) =~= string_views(pc@).subrange(start, i as int));
    }
    assert(string_views(pc@).subrange(start, pc@.len() as int) =~= string_views(pc@).skip(start));
    let rest = join_components(&suffix);
    proof {
        assert(!same_path(path@, from@));
    }
    Some(join_below(to, rest.as_str()))
}

/// Whether a mutation touches the note open in the editor, so that unsaved
/// changes must be dealt with first: creating a file does when an editor is
/// open, creating a folder never does, and renaming, moving or deleting does
/// when the open note lies at or below the entry.
pub open spec fn reconciles_editor(
    action: FileMutationAction,
    current_note: Option<Seq<char>>,
    has_editor: bool,
) -> bool {
    match action {
        FileMutationAction::CreateFile { .. } => has_editor,
        FileMutationAction::CreateFolder { .. } => false,
        FileMutationAction::Rename { from, .. } => current_note matches Some(n) && path_starts_with(
            n,
            from@,
        ),
        FileMutationAction::Move { from, .. } => current_note matches Some(n) && path_starts_with(
            n,
            from@,
        ),
        FileMutationAction::Delete { path } => current_note matches Some(n) && path_starts_with(
            n,
            path@,
        ),
    }
}

/// Whether a mutation touches the open note (see [`reconciles_editor`]).
pub fn mutation_reconciles_editor(
    action: &FileMutationAction,
    current_note: &Option<String>,
    has_editor: bool,
) -> (touches: bool)
    ensures
        touches == reconciles_editor(
            *action,
            match current_note {
                Some(n) => Some(n@),
                None => None,
            },
            has_editor,
        ),
{
    match action {
        FileMutationAction::CreateFile { .. } => has_editor,
        FileMutationAction::CreateFolder { .. } => false,
        FileMutationAction::Rename { from, .. } | FileMutationAction::Move { from, .. } =>
            match current_note {
            Some(n) => starts_with_path(n.as_str(), from.as_str()),
            None => false,
        },
        FileMutationAction::Delete { path } => match current_note {
            Some(n) => starts_with_path(n.as_str(), path.as_str()),
            None => false,
        },
    }
}

/// The mutation a file dialog asks for once a path is entered: a new file or
/// folder at the path, or the dialog's entry renamed or moved to it (which
/// needs an entry).
pub fn submitted_mutation(kind: FileActionKind, target: Option<String>, path: String) -> (action:
    Option<FileMutationAction>)
    ensures
        match kind {
            FileActionKind::NewFile => action == Some(FileMutationAction::CreateFile { path }),
            FileActionKind::NewFolder => action == Some(FileMutationAction::CreateFolder { path }),
            FileActionKind::Rename => match target {
                Some(from) => action == Some(FileMutationAction::Rename { from, to: path }),
                None => action is None,
            },
            FileActionKind::Move => match target {
                Some(from) => action == Some(FileMutationAction::Move { from, to: path }),
                None => action is None,
            },
        },
{
    match kind {
        FileActionKind::NewFile => Some(FileMutationAction::CreateFile { path }),
        FileActionKind::NewFolder => Some(FileMutationAction::CreateFolder { path }),
        FileActionKind::Rename => match target {
            Some(from) => Some(FileMutationAction::Rename { from, to: path }),
            None => None,
        },
        FileActionKind::Move => match target {
            Some(from) => Some(FileMutationAction::Move { from, to: path }),
            None => None,
        },
    }
}

/// The mutation in flight, the file operation on the repository at `root`,
/// and the commit that `action` makes (see [`mutation_plan`]).
pub open spec fn is_plan(
    action: FileMutationAction,
    root: Seq<char>,
    plan: (PendingMutationKind, FileOperation, CommitIntent),
) -> bool {
    match action {
        FileMutationAction::CreateFile { path } => plan.0 == PendingMutationKind::File(
            FileActionKind::NewFile,
        ) && (plan.1 matches FileOperation::CreateFile { root: r, path: p } && r@ == root
            && p == path) && plan.2 == CommitIntent::Create(path),
        FileMutationAction::CreateFolder { path } => plan.0 == PendingMutationKind::File(
            FileActionKind::NewFolder,
        ) && (plan.1 matches FileOperation::CreateFolder { root: r, path: p } && r@ == root
            && p == path) && plan.2 == CommitIntent::Create(path),
        FileMutationAction::Rename { from, to } => plan.0 == PendingMutationKind::File(
            FileActionKind::Rename,
        ) && (plan.1 matches FileOperation::Rename { root: r, from: f, to: t } && r@ == root
            && f == from && t == to) && plan.2 == CommitIntent::Move { from, to },
        FileMutationAction::Move { from, to } => plan.0 == PendingMutationKind::File(
            FileActionKind::Move,
        ) && (plan.1 matches FileOperation::Move { root: r, from: f, to: t } && r@ == root
            && f == from && t == to) && plan.2 == CommitIntent::Move { from, to },
        FileMutationAction::Delete { path } => plan.0 == PendingMutationKind::Delete && (
        plan.1 matches FileOperation::Delete { root: r, path: p, confirmed: c } && r@ == root
            && p == path && c) && plan.2 == CommitIntent::Delete(path),
    }
}

/// The mutation in flight, the file operation on the repository at `root`,
/// and the commit that a mutation makes: creating records a create, renaming
/// and moving a move, deleting (confirmed) a delete.
pub fn mutation_plan(action: FileMutationAction, root: &str) -> (plan: (
    PendingMutationKind,
    FileOperation,
    CommitIntent,
))
    ensures
        is_plan(action, root@, plan),
{
    match action {
        FileMutationAction::CreateFile { path } => (
            PendingMutationKind::File(FileActionKind::NewFile),
            FileOperation::CreateFile { root: root.to_owned(), path: path.clone() },
            CommitIntent::Create(path),
        ),
        FileMutationAction::CreateFolder { path } => (
            PendingMutationKind::File(FileActionKind::NewFolder),
            FileOperation::CreateFolder { root: root.to_owned(), path: path.clone() },
            CommitIntent::Create(path),
        ),
        FileMutationAction::Rename { from, to } => (
            PendingMutationKind::File(FileActionKind::Rename),
            FileOperation::Rename { root: root.to_owned(), from: from.clone(), to: to.clone() },
            CommitIntent::Move { from, to },
        ),
        FileMutationAction::Move { from, to } => (
            PendingMutationKind::File(FileActionKind::Move),
            FileOperation::Move { root: root.to_owned(), from: from.clone(), to: to.clone() },
            CommitIntent::Move { from, to },
        ),
        FileMutationAction::Delete { path } => (
            PendingMutationKind::Delete,
            FileOperation::Delete { root: root.to_owned(), path: path.clone(), confirmed: true },
            CommitIntent::Delete(path),
        ),
    }
}

} // verus!
