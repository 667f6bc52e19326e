//! Browsing the file tree beside the editor: which directories are expanded,
//! which row is selected, and what a tree key asks the application to do.
use vstd::prelude::*;

use crate::text::same_text;
use crate::workspace::paths::{
    components, join_components, joined, path_components, prefix_of, string_views,
};
use crate::workspace::tree::{
    text_views, visible_rows, visible_tree, visible_views, TreeEntry, TreeEntryKind,
    VisibleTreeEntry, VisibleView,
};

verus! {

/// Where keys go in a workspace.
#[derive(Clone, Copy, PartialEq, Eq, Structural, Debug)]
pub enum Focus {
    Editor,
    Tree,
}

/// A key's meaning in the file tree.
#[derive(Clone, Copy, PartialEq, Eq, Structural, Debug)]
pub enum TreeAction {
    Up,
    Down,
    Left,
    Right,
    Open,
    NewFile,
    NewFolder,
    Rename,
    Move,
    Delete,
    Escape,
}

/// The file action a dialog asks for.
#[derive(Clone, Copy, PartialEq, Eq, Structural, Debug)]
pub enum FileActionKind {
    NewFile,
    NewFolder,
    Rename,
    Move,
}

/// What the application does after a tree key.
#[derive(Debug, PartialEq, Eq)]
pub enum TreeStep {
    /// Nothing beyond the browser's own change.
    Stay,
    /// Focus went back to the editor; the tree overlay closes when it was only
    /// opened for browsing.
    ToEditor { hide_sidebar: bool },
    /// Open this note.
    OpenNote(String),
    /// Ask for a path for this action, on this entry.
    FileDialog { kind: FileActionKind, target: Option<String> },
    /// Ask to confirm deleting this entry.
    ConfirmDelete(String),
}

/// [`TreeStep`] as mathematical values.
pub enum TreeStepView {
    Stay,
    ToEditor { hide_sidebar: bool },
    OpenNote(Seq<char>),
    FileDialog { kind: FileActionKind, target: Option<Seq<char>> },
    ConfirmDelete(Seq<char>),
}

impl View for TreeStep {
    type V = TreeStepView;

    open spec fn view(&self) -> TreeStepView {
        match self {
            TreeStep::Stay => TreeStepView::Stay,
            TreeStep::ToEditor { hide_sidebar } => TreeStepView::ToEditor {
                hide_sidebar: *hide_sidebar,
            },
            TreeStep::OpenNote(p) => TreeStepView::OpenNote(p@),
            TreeStep::FileDialog { kind, target } => TreeStepView::FileDialog {
                kind: *kind,
                target: match target {
                    Some(t) => Some(t@),
                    None => None,
                },
            },
            TreeStep::ConfirmDelete(p) => TreeStepView::ConfirmDelete(p@),
        }
    }
}

/// The browser as mathematical values.
pub struct BrowserView {
    pub focus: Focus,
    pub expanded: Seq<Seq<char>>,
    pub selection: Option<int>,
}

/// `p` added to the expanded directories, unless it is there already.
pub open spec fn with_expanded(s: Seq<Seq<char>>, p: Seq<char>) -> Seq<Seq<char>> {
    if s.contains(p) {
        s
    } else {
        s.push(p)
    }
}

/// The expanded directories other than `p`.
pub open spec fn without_expanded(s: Seq<Seq<char>>, p: Seq<char>) -> Seq<Seq<char>>
    decreases s.len(),
{
    if s.len() == 0 {
        s
    } else {
        let rest = without_expanded(s.drop_last(), p);
        if s.last() == p {
            rest
        } else {
            rest.push(s.last())
        }
    }
}

/// Collapsing keeps the other expanded directories, and only them.
proof fn lemma_without_expanded(s: Seq<Seq<char>>, p: Seq<char>)
    ensures
        !without_expanded(s, p).contains(p),
        forall|q: Seq<char>| q != p ==> (without_expanded(s, p).contains(q) <==> s.contains(q)),
        s.no_duplicates() ==> without_expanded(s, p).no_duplicates(),
    decreases s.len(),
{
    if s.len() > 0 {
        let prev = s.drop_last();
        lemma_without_expanded(prev, p);
        let rest = without_expanded(prev, p);
        assert forall|q: Seq<char>| #[trigger] s.contains(q) <==> prev.contains(q) || q == s.last() by {
            if s.contains(q) {
                let i = choose|i: int| 0 <= i < s.len() && s[i] == q;
                if i < s.len() - 1 {
                    assert(prev[i] == q);
                }
            }
            if prev.contains(q) {
                let i = choose|i: int| 0 <= i < prev.len() && prev[i] == q;
                assert(s[i] == q);
            }
            if q == s.last() {
                assert(s[s.len() - 1] == q);
            }
        }
        if s.last() != p {
            let out = rest.push(s.last());
            assert forall|q: Seq<char>| #[trigger] out.contains(q) <==> rest.contains(q) || q == s.last() by {
                if out.contains(q) {
                    let i = choose|i: int| 0 <= i < out.len() && out[i] == q;
                    if i < rest.len() {
                        assert(rest[i] == q);
                    }
                }
                if rest.contains(q) {
                    let i = choose|i: int| 0 <= i < rest.len() && rest[i] == q;
                    assert(out[i] == q);
                }
                if q == s.last() {
                    assert(out[out.len() - 1] == q);
                }
            }
            if s.no_duplicates() {
                assert(prev.no_duplicates()) by {
                    assert forall|i: int, j: int| 0 <= i < prev.len() && 0 <= j < prev.len() && i != j implies prev[i] != prev[j] by {
                        assert(prev[i] == s[i] && prev[j] == s[j]);
                    }
                }
                assert(!prev.contains(s.last())) by {
                    if prev.contains(s.last()) {
                        let i = choose|i: int| 0 <= i < prev.len() && prev[i] == s.last();
                        assert(s[i] == s[s.len() - 1]);
                    }
                }
                assert forall|i: int, j: int| 0 <= i < out.len() && 0 <= j < out.len() && i != j implies out[i] != out[j] by {
                    if i < rest.len() && j < rest.len() {
                        assert(out[i] == rest[i] && out[j] == rest[j]);
                    } else if i < rest.len() {
                        assert(rest.contains(out[i]));
                    } else if j < rest.len() {
                        assert(rest.contains(out[j]));
                    }
                }
            }
        } else if s.no_duplicates() {
            assert(prev.no_duplicates()) by {
                assert forall|i: int, j: int| 0 <= i < prev.len() && 0 <= j < prev.len() && i != j implies prev[i] != prev[j] by {
                    assert(prev[i] == s[i] && prev[j] == s[j]);
                }
            }
        }
    }
}

/// The expanded directories never hold one twice: expanding a directory adds
/// it unless it is there already, collapsing takes it out and keeps the
/// others, and so every step of the tree keeps them distinct.
pub proof fn law_expanded_directories_stay_distinct(
    b: BrowserView,
    rows: Seq<VisibleView>,
    action: TreeAction,
    mutation_pending: bool,
    overlay_intent: bool,
    p: Seq<char>,
)
    requires
        b.expanded.no_duplicates(),
    ensures
        with_expanded(b.expanded, p).no_duplicates(),
        with_expanded(b.expanded, p).contains(p),
        without_expanded(b.expanded, p).no_duplicates(),
        !without_expanded(b.expanded, p).contains(p),
        forall|q: Seq<char>| q != p ==> (without_expanded(b.expanded, p).contains(q) <==> b.expanded.contains(q)),
        tree_stepped(b, rows, action, mutation_pending, overlay_intent).0.expanded.no_duplicates(),
{
    let s = b.expanded;
    lemma_without_expanded(s, p);
    if !s.contains(p) {
        let t = s.push(p);
        assert(t[t.len() - 1] == p);
        assert forall|i: int, j: int| 0 <= i < t.len() && 0 <= j < t.len() && i != j implies t[i] != t[j] by {
            if i < s.len() && j < s.len() {
                assert(t[i] == s[i] && t[j] == s[j]);
            } else if i < s.len() {
                assert(s.contains(t[i]));
            } else if j < s.len() {
                assert(s.contains(t[j]));
            }
        }
    }
    if !(mutation_pending && is_mutating(action)) && b.focus == Focus::Tree && rows.len() > 0 {
        if let Some(k) = b.selection {
            if 0 <= k < rows.len() {
                let r = rows[k];
                lemma_without_expanded(s, r.path);
                if !s.contains(r.path) {
                    let t = s.push(r.path);
                    assert forall|i: int, j: int| 0 <= i < t.len() && 0 <= j < t.len() && i != j implies t[i] != t[j] by {
                        if i < s.len() && j < s.len() {
                            assert(t[i] == s[i] && t[j] == s[j]);
                        } else if i < s.len() {
                            assert(s.contains(t[i]));
                        } else if j < s.len() {
                            assert(s.contains(t[j]));
                        }
                    }
                }
            }
        }
    }
}

/// Up and Down move the tree selection by one row: from a selected row, Up
/// selects the row above it (staying on the first row) and Down the row below
/// it (staying on the last row); nothing else changes and no dialog opens.
pub proof fn law_up_and_down_move_one_row(
    b: BrowserView,
    rows: Seq<VisibleView>,
    mutation_pending: bool,
    overlay_intent: bool,
)
    requires
        b.focus == Focus::Tree,
        b.selection is Some,
        0 <= b.selection->0 < rows.len(),
    ensures
        ({
            let s = b.selection->0;
            let (up, up_step) = tree_stepped(b, rows, TreeAction::Up, mutation_pending, overlay_intent);
            let (down, down_step) = tree_stepped(b, rows, TreeAction::Down, mutation_pending, overlay_intent);
            &&& s > 0 ==> up.selection == Some(s - 1)
            &&& s == 0 ==> up.selection == Some(0int)
            &&& s + 1 < rows.len() ==> down.selection == Some(s + 1)
            &&& s + 1 == rows.len() ==> down.selection == Some(s)
            &&& up.focus == b.focus && up.expanded == b.expanded && up_step == TreeStepView::Stay
            &&& down.focus == b.focus && down.expanded == b.expanded && down_step == TreeStepView::Stay
        }),
{
}

/// The keys that act on the selected row of a focused tree do what they name:
/// Right expands a directory (keeping the others expanded) and leaves a file
/// alone; Open opens an enabled file, and on a directory collapses it when it
/// is expanded and expands it otherwise; Delete asks to confirm deleting the
/// row's path; Escape goes back to the editor. The selection stays.
pub proof fn law_tree_keys_act_on_the_selected_row(
    b: BrowserView,
    rows: Seq<VisibleView>,
    mutation_pending: bool,
    overlay_intent: bool,
)
    requires
        b.focus == Focus::Tree,
        b.selection is Some,
        0 <= b.selection->0 < rows.len(),
    ensures
        ({
            let r = rows[b.selection->0];
            let (right, right_step) = tree_stepped(b, rows, TreeAction::Right, mutation_pending, overlay_intent);
            let (open, open_step) = tree_stepped(b, rows, TreeAction::Open, mutation_pending, overlay_intent);
            let (esc, esc_step) = tree_stepped(b, rows, TreeAction::Escape, mutation_pending, overlay_intent);
            &&& right.selection == b.selection && right_step == TreeStepView::Stay
            &&& r.kind == TreeEntryKind::Directory ==> right.expanded.contains(r.path) && forall|q: Seq<char>|
                b.expanded.contains(q) ==> #[trigger] right.expanded.contains(q)
            &&& r.kind != TreeEntryKind::Directory ==> right == b
            &&& open.selection == b.selection
            &&& r.kind == TreeEntryKind::File && r.enabled ==> open == b && open_step == TreeStepView::OpenNote(r.path)
            &&& r.kind == TreeEntryKind::Directory && b.expanded.contains(r.path) ==> !open.expanded.contains(r.path)
            &&& r.kind == TreeEntryKind::Directory && !b.expanded.contains(r.path) ==> open.expanded.contains(r.path)
            &&& !mutation_pending ==> tree_stepped(b, rows, TreeAction::Delete, mutation_pending, overlay_intent).1
                == TreeStepView::ConfirmDelete(r.path)
            &&& esc.focus == Focus::Editor && esc_step == TreeStepView::ToEditor { hide_sidebar: overlay_intent }
        }),
{
    let r = rows[b.selection->0];
    lemma_without_expanded(b.expanded, r.path);
    if !b.expanded.contains(r.path) {
        let t = b.expanded.push(r.path);
        assert(t[t.len() - 1] == r.path);
        assert forall|q: Seq<char>| b.expanded.contains(q) implies #[trigger] t.contains(q) by {
            let i = choose|i: int| 0 <= i < b.expanded.len() && b.expanded[i] == q;
            assert(t[i] == q);
        }
    }
}

/// The index of the first row showing `path`.
pub open spec fn row_index_from(rows: Seq<VisibleView>, path: Seq<char>, k: int) -> Option<int>
    decreases rows.len() - k,
{
    if k < 0 || k >= rows.len() {
        None
    } else if rows[k].path == path {
        Some(k)
    } else {
        row_index_from(rows, path, k + 1)
    }
}

/// A file action that changes the repository.
pub open spec fn is_mutating(action: TreeAction) -> bool {
    action == TreeAction::NewFile || action == TreeAction::NewFolder || action == TreeAction::Rename
        || action == TreeAction::Move || action == TreeAction::Delete
}

/// What a tree key does, given the tree's rows: with a mutation pending,
/// file actions are ignored; nothing happens unless the tree has focus; Escape
/// returns to the editor; on an empty tree only new-file and new-folder
/// dialogs open; otherwise the key acts on the selected row (Up and Down move
/// the selection, Right expands a directory, Left collapses an expanded
/// directory or else selects the row's parent, Open toggles a directory or
/// opens an enabled file, and file actions open their dialog on the row).
pub open spec fn tree_stepped(
    b: BrowserView,
    rows: Seq<VisibleView>,
    action: TreeAction,
    mutation_pending: bool,
    overlay_intent: bool,
) -> (BrowserView, TreeStepView) {
    if mutation_pending && is_mutating(action) {
        (b, TreeStepView::Stay)
    } else if b.focus != Focus::Tree {
        (b, TreeStepView::Stay)
    } else if action == TreeAction::Escape {
        (BrowserView { focus: Focus::Editor, ..b }, TreeStepView::ToEditor { hide_sidebar: overlay_intent })
    } else if rows.len() == 0 {
        match action {
            TreeAction::NewFile => (b, TreeStepView::FileDialog { kind: FileActionKind::NewFile, target: None }),
            TreeAction::NewFolder => (b, TreeStepView::FileDialog { kind: FileActionKind::NewFolder, target: None }),
            _ => (b, TreeStepView::Stay),
        }
    } else {
        match b.selection {
            None => (b, TreeStepView::Stay),
            Some(s) => if s < 0 || s >= rows.len() {
                (b, TreeStepView::Stay)
            } else {
                let r = rows[s];
                match action {
                    TreeAction::Up => (
                        BrowserView { selection: Some(if s == 0 { 0 } else { s - 1 }), ..b },
                        TreeStepView::Stay,
                    ),
                    TreeAction::Down => (
                        BrowserView {
                            selection: Some(if s + 1 < rows.len() { s + 1 } else { rows.len() - 1 }),
                            ..b
                        },
                        TreeStepView::Stay,
                    ),
                    TreeAction::Right => if r.kind == TreeEntryKind::Directory {
                        (BrowserView { expanded: with_expanded(b.expanded, r.path), ..b }, TreeStepView::Stay)
                    } else {
                        (b, TreeStepView::Stay)
                    },
                    TreeAction::Left => if r.kind == TreeEntryKind::Directory && b.expanded.contains(r.path) {
                        (BrowserView { expanded: without_expanded(b.expanded, r.path), ..b }, TreeStepView::Stay)
                    } else {
                        match r.parent {
                            Some(p) => match row_index_from(rows, p, 0) {
                                Some(k) => (BrowserView { selection: Some(k), ..b }, TreeStepView::Stay),
                                None => (b, TreeStepView::Stay),
                            },
                            None => (b, TreeStepView::Stay),
                        }
                    },
                    TreeAction::Open => if r.kind == TreeEntryKind::Directory {
                        if b.expanded.contains(r.path) {
                            (BrowserView { expanded: without_expanded(b.expanded, r.path), ..b }, TreeStepView::Stay)
                        } else {
                            (BrowserView { expanded: with_expanded(b.expanded, r.path), ..b }, TreeStepView::Stay)
                        }
                    } else if r.enabled {
                        (b, TreeStepView::OpenNote(r.path))
                    } else {
                        (b, TreeStepView::Stay)
                    },
                    TreeAction::NewFile => (b, TreeStepView::FileDialog { kind: FileActionKind::NewFile, target: Some(r.path) }),
                    TreeAction::NewFolder => (b, TreeStepView::FileDialog { kind: FileActionKind::NewFolder, target: Some(r.path) }),
                    TreeAction::Rename => (b, TreeStepView::FileDialog { kind: FileActionKind::Rename, target: Some(r.path) }),
                    TreeAction::Move => (b, TreeStepView::FileDialog { kind: FileActionKind::Move, target: Some(r.path) }),
                    TreeAction::Delete => (b, TreeStepView::ConfirmDelete(r.path)),
                    TreeAction::Escape => (b, TreeStepView::Stay),
                }
            },
        }
    }
}

/// The file tree's browsing state.
#[derive(Debug)]
pub struct TreeBrowser {
    pub focus: Focus,
    pub expanded: Vec<String>,
    pub selection: Option<usize>,
}

impl View for TreeBrowser {
    type V = BrowserView;

    open spec fn view(&self) -> BrowserView {
        BrowserView {
            focus: self.focus,
            expanded: text_views(self.expanded@),
            selection: match self.selection {
                Some(s) => Some(s as int),
                None => None,
            },
        }
    }
}

/// Whether `p` is among the strings.
fn holds_text(v: &Vec<String>, p: &str) -> (found: bool)
    ensures
        found == text_views(v@).contains(p@),
{
    let mut i: usize = 0;
    while i < v.len()
        invariant
            i <= v@.len(),
            forall|k: int| 0 <= k < i ==> v@[k]@ != p@,
        decreases v@.len() - i,
    {
        if same_text(v[i].as_str(), p) {
            assert(text_views(v@)[i as int] == p@);
            return true;
        }
        i = i + 1;
    }
    proof {
        if text_views(v@).contains(p@) {
            let k = choose|k: int| 0 <= k < text_views(v@).len() && text_views(v@)[k] == p@;
            assert(v@[k]@ == p@);
        }
    }
    false
}

/// The strings other than `p`, in order.
fn without_text(v: &Vec<String>, p: &str) -> (rest: Vec<String>)
    ensures
        text_views(rest@) == without_expanded(text_views(v@), p@),
{
    let mut out: Vec<String> = Vec::new();
    let mut i: usize = 0;
    while i < v.len()
        invariant
            i <= v@.len(),
            text_views(out@) == without_expanded(text_views(v@).take(i as int), p@),
        decreases v@.len() - i,
    {
        let ghost t = text_views(v@).take(i + 1);
        assert(t.drop_last() =~= text_views(v@).take(i as int));
        assert(t.last() == v@[i as int]@);
        if !same_text(v[i].as_str(), p) {
            let ghost before = out@;
            out.push(v[i].clone());
            assert(text_views(out@) =~= text_views(before).push(v@[i as int]@));
        }
        i = i + 1;
    }
    assert(text_views(v@).take(v@.len() as int) =~= text_views(v@));
    out
}

/// The index of the first row showing `path`.
fn row_index(rows: &Vec<VisibleTreeEntry>, path: &str) -> (found: Option<usize>)
    ensures
        match found {
            Some(k) => row_index_from(visible_views(rows@), path@, 0) == Some(k as int),
            None => row_index_from(visible_views(rows@), path@, 0) is None,
        },
{
    let ghost rv = visible_views(rows@);
    let mut k: usize = 0;
    while k < rows.len()
        invariant
            k <= rows@.len(),
            rv == visible_views(rows@),
            rv.len() == rows@.len(),
            row_index_from(rv, path@, 0) == row_index_from(rv, path@, k as int),
        decreases rows@.len() - k,
    {
        assert(rv[k as int] == rows@[k as int]@);
        if same_text(rows[k].path.as_str(), path) {
            return Some(k);
        }
        k = k + 1;
    }
    None
}

impl TreeBrowser {
    /// A browser with focus on the tree, nothing expanded and nothing selected.
    pub fn new() -> (browser: TreeBrowser)
        ensures
            browser@ == (BrowserView { focus: Focus::Tree, expanded: Seq::empty(), selection: None }),
    {
        let b = TreeBrowser { focus: Focus::Tree, expanded: Vec::new(), selection: None };
        assert(b@.expanded =~= Seq::<Seq<char>>::empty());
        b
    }

    fn expand(&mut self, path: &str)
        ensures
            final(self)@ == (BrowserView { expanded: with_expanded(old(self)@.expanded, path@), ..old(self)@ }),
    {
        if !holds_text(&self.expanded, path) {
            let ghost before = self.expanded@;
            self.expanded.push(path.to_owned());
            assert(text_views(self.expanded@) =~= text_views(before).push(path@));
        }
    }

    fn collapse(&mut self, path: &str)
        ensures
            final(self)@ == (BrowserView {
                expanded: without_expanded(old(self)@.expanded, path@),
                ..old(self)@
            }),
    {
        self.expanded = without_text(&self.expanded, path);
    }

    /// Carries out a tree key on the tree `tree` (see [`tree_stepped`]).
    pub fn tree_action(
        &mut self,
        tree: &Vec<TreeEntry>,
        action: TreeAction,
        mutation_pending: bool,
        overlay_intent: bool,
    ) -> (step: TreeStep)
        ensures
            (final(self)@, step@) == tree_stepped(
                old(self)@,
                visible_rows(tree@, text_views(old(self).expanded@), None),
                action,
                mutation_pending,
                overlay_intent,
            ),
    {
        if mutation_pending && (action == TreeAction::NewFile || action == TreeAction::NewFolder
            || action == TreeAction::Rename || action == TreeAction::Move || action
            == TreeAction::Delete) {
            return TreeStep::Stay;
        }
        if self.focus != Focus::Tree {
            return TreeStep::Stay;
        }
        if action == TreeAction::Escape {
            self.focus = Focus::Editor;
            return TreeStep::ToEditor { hide_sidebar: overlay_intent };
        }
        let rows = visible_tree(tree, &self.expanded);
        let ghost rv = visible_views(rows@);
        let n = rows.len();
        if n == 0 {
            return match action {
                TreeAction::NewFile => TreeStep::FileDialog { kind: FileActionKind::NewFile, target: None },
                TreeAction::NewFolder => TreeStep::FileDialog { kind: FileActionKind::NewFolder, target: None },
                _ => TreeStep::Stay,
            };
        }
        let s = match self.selection {
            Some(s) => s,
            None => {
                return TreeStep::Stay;
            },
        };
        if s >= n {
            return TreeStep::Stay;
        }
        let row = &rows[s];
        assert(rv[s as int] == row@);
        match action {
            TreeAction::Up => {
                self.selection = Some(if s == 0 { 0 } else { s - 1 });
                TreeStep::Stay
            },
            TreeAction::Down => {
                self.selection = Some(if s + 1 < n { s + 1 } else { n - 1 });
                TreeStep::Stay
            },
            TreeAction::Right => {
                if row.kind == TreeEntryKind::Directory {
                    self.expand(row.path.as_str());
                }
                TreeStep::Stay
            },
            TreeAction::Left => {
                if row.kind == TreeEntryKind::Directory && holds_text(&self.expanded, row.path.as_str()) {
                    self.collapse(row.path.as_str());
                    return TreeStep::Stay;
                }
                match &row.parent {
                    Some(p) => match row_index(&rows, p.as_str()) {
                        Some(k) => {
                            self.selection = Some(k);
                        },
                        None => {},
                    },
                    None => {},
                }
                TreeStep::Stay
            },
            TreeAction::Open => {
                if row.kind == TreeEntryKind::Directory {
                    if holds_text(&self.expanded, row.path.as_str()) {
                        self.collapse(row.path.as_str());
                    } else {
                        self.expand(row.path.as_str());
                    }
                    TreeStep::Stay
                } else if row.enabled {
                    TreeStep::OpenNote(row.path.clone())
                } else {
                    TreeStep::Stay
                }
            },
            TreeAction::NewFile => TreeStep::FileDialog { kind: FileActionKind::NewFile, target: Some(row.path.clone()) },
            TreeAction::NewFolder => TreeStep::FileDialog { kind: FileActionKind::NewFolder, target: Some(row.path.clone()) },
            TreeAction::Rename => TreeStep::FileDialog { kind: FileActionKind::Rename, target: Some(row.path.clone()) },
            TreeAction::Move => TreeStep::FileDialog { kind: FileActionKind::Move, target: Some(row.path.clone()) },
            TreeAction::Delete => TreeStep::ConfirmDelete(row.path.clone()),
            TreeAction::Escape => TreeStep::Stay,
        }
    }
}


/// The directories above a path with components `cs`, nearest first, added
/// to the expanded ones: `joined(cs.take(k))` for `k` from `top` down to 1.
pub open spec fn with_ancestors(s: Seq<Seq<char>>, cs: Seq<Seq<char>>, top: int) -> Seq<Seq<char>>
    decreases top,
{
    if top <= 0 {
        s
    } else {
        with_ancestors(with_expanded(s, joined(cs.take(top))), cs, top - 1)
    }
}

/// The selection after revealing `path`: its row, or else the last row, or
/// nothing in an empty tree.
pub open spec fn revealed_selection(rows: Seq<VisibleView>, path: Seq<char>) -> Option<int> {
    match row_index_from(rows, path, 0) {
        Some(k) => Some(k),
        None => if rows.len() > 0 {
            Some(rows.len() - 1)
        } else {
            None
        },
    }
}

/// The selection kept within the rows: none in an empty tree, else the
/// current one (the first row when there is none) up to the last row.
pub open spec fn clamped_selection(selection: Option<int>, count: int) -> Option<int> {
    if count == 0 {
        None
    } else {
        let s = match selection {
            Some(s) => s,
            None => 0,
        };
        Some(if s < count - 1 { s } else { count - 1 })
    }
}

impl TreeBrowser {
    /// Expands every directory above `path` and selects its row (or the last
    /// row when it is not shown).
    pub fn select_tree_path(&mut self, tree: &Vec<TreeEntry>, path: &str)
        ensures
            final(self)@.focus == old(self)@.focus,
            final(self)@.expanded == with_ancestors(
                old(self)@.expanded,
                components(path@),
                components(path@).len() - 1,
            ),
            final(self)@.selection == revealed_selection(
                visible_rows(tree@, final(self)@.expanded, None),
                path@,
            ),
    {
        let parts = path_components(path);
        let ghost cs = string_views(parts@);
        let n = parts.len();
        let mut top: usize = if n > 0 { n - 1 } else { 0 };
        let ghost start = self@.expanded;
        assert(with_ancestors(start, cs, cs.len() - 1) == with_ancestors(start, cs, top as int));
        while top > 0
            invariant
                top < n || top == 0,
                n == parts@.len(),
                cs == string_views(parts@),
                cs == components(path@),
                with_ancestors(start, cs, cs.len() - 1) == with_ancestors(self@.expanded, cs, top as int),
                self@.focus == old(self)@.focus,
            decreases top,
        {
            let prefix = join_components(&prefix_of(&parts, top));
            self.expand(prefix.as_str());
            top = top - 1;
        }
        let rows = visible_tree(tree, &self.expanded);
        match row_index(&rows, path) {
            Some(k) => {
                self.selection = Some(k);
            },
            None => {
                self.selection = if rows.len() > 0 { Some(rows.len() - 1) } else { None };
            },
        }
    }

    /// Keeps the selection within the tree's rows.
    pub fn clamp_tree_selection(&mut self, tree: &Vec<TreeEntry>)
        ensures
            final(self)@ == (BrowserView {
                selection: clamped_selection(
                    old(self)@.selection,
                    visible_rows(tree@, old(self)@.expanded, None).len() as int,
                ),
                ..old(self)@
            }),
    {
        let rows = visible_tree(tree, &self.expanded);
        let count = rows.len();
        self.selection = if count == 0 {
            None
        } else {
            let s = match self.selection {
                Some(s) => s,
                None => 0,
            };
            Some(if s < count - 1 { s } else { count - 1 })
        };
    }
}

} // verus!
