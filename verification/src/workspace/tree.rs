//! The file tree of a repository. Tree paths are relative to the repository
//! root, `/`-separated, with no empty, `.` or `..` components, so two paths
//! name the same entry exactly when they are equal as strings.
use vstd::prelude::*;
use vstd::multiset::Multiset;
use vstd::relations::sorted_by;

use crate::text::{chars_of, same_text};

verus! {

broadcast use vstd::seq_lib::to_multiset_insert;

/// What a tree entry is. Directories come first, then files, then symbolic links.
#[derive(Clone, Copy, PartialEq, Eq, Structural, Debug)]
pub enum TreeEntryKind {
    Directory,
    File,
    Symlink,
}

/// The place of a kind in the listing order.
pub open spec fn kind_rank(k: TreeEntryKind) -> int {
    match k {
        TreeEntryKind::Directory => 0,
        TreeEntryKind::File => 1,
        TreeEntryKind::Symlink => 2,
    }
}

/// An entry of the tree: a directory with its entries, a file (enabled when it
/// holds text), or a symbolic link (never enabled, never followed).
#[derive(Debug, PartialEq, Eq)]
pub struct TreeEntry {
    pub(crate) path: String,
    pub(crate) kind: TreeEntryKind,
    pub(crate) enabled: bool,
    pub(crate) children: Vec<TreeEntry>,
}

impl TreeEntry {
    pub closed spec fn path_view(&self) -> Seq<char> {
        self.path@
    }

    pub closed spec fn kind_view(&self) -> TreeEntryKind {
        self.kind
    }

    pub closed spec fn enabled_view(&self) -> bool {
        self.enabled
    }

    pub closed spec fn children_view(&self) -> Seq<TreeEntry> {
        self.children@
    }

    /// The entry's children come before it in the order that recursion over
    /// the tree follows.
    pub proof fn lemma_children_decrease(&self)
        ensures
            decreases_to!(*self => self.children_view()),
    {
        assert(decreases_to!(*self => self.children));
    }

    /// An entry from its parts.
    pub fn new(path: String, kind: TreeEntryKind, enabled: bool, children: Vec<TreeEntry>) -> (entry:
        TreeEntry)
        ensures
            entry.path_view() == path@,
            entry.kind_view() == kind,
            entry.enabled_view() == enabled,
            entry.children_view() == children@,
    {
        TreeEntry { path, kind, enabled, children }
    }

    /// The path relative to the repository root.
    pub fn path(&self) -> (path: &str)
        ensures
            path@ == self.path_view(),
    {
        self.path.as_str()
    }

    pub fn kind(&self) -> (kind: TreeEntryKind)
        ensures
            kind == self.kind_view(),
    {
        self.kind
    }

    /// Whether the entry can be opened: a directory, or a file that holds text.
    pub fn is_enabled(&self) -> (enabled: bool)
        ensures
            enabled == self.enabled_view(),
    {
        self.enabled
    }

    /// The entries of a directory, in listing order.
    pub fn children(&self) -> (children: &[TreeEntry])
        ensures
            children@ == self.children_view(),
    {
        self.children.as_slice()
    }
}

/// `a` comes before `b` in character order (a proper prefix comes first).
pub open spec fn chars_lt(a: Seq<char>, b: Seq<char>) -> bool
    decreases a.len(),
{
    if a.len() == 0 {
        b.len() > 0
    } else if b.len() == 0 {
        false
    } else if a[0] != b[0] {
        a[0] < b[0]
    } else {
        chars_lt(a.drop_first(), b.drop_first())
    }
}

pub proof fn lemma_chars_lt_irreflexive(a: Seq<char>)
    ensures
        !chars_lt(a, a),
    decreases a.len(),
{
    if a.len() > 0 {
        lemma_chars_lt_irreflexive(a.drop_first());
    }
}

pub proof fn lemma_chars_lt_transitive(a: Seq<char>, b: Seq<char>, c: Seq<char>)
    requires
        chars_lt(a, b),
        chars_lt(b, c),
    ensures
        chars_lt(a, c),
    decreases a.len(),
{
    if a.len() > 0 && b.len() > 0 && c.len() > 0 && a[0] == b[0] && b[0] == c[0] {
        lemma_chars_lt_transitive(a.drop_first(), b.drop_first(), c.drop_first());
    }
}

pub proof fn lemma_chars_lt_total(a: Seq<char>, b: Seq<char>)
    ensures
        chars_lt(a, b) || chars_lt(b, a) || a == b,
    decreases a.len(),
{
    if a.len() > 0 && b.len() > 0 && a[0] == b[0] {
        lemma_chars_lt_total(a.drop_first(), b.drop_first());
        if a.drop_first() == b.drop_first() {
            assert(a =~= seq![a[0]] + a.drop_first());
            assert(b =~= seq![b[0]] + b.drop_first());
        }
    } else if a.len() == 0 && b.len() == 0 {
        assert(a =~= b);
    }
}

/// The listing order: by kind, then by path.
pub open spec fn entry_before(a: TreeEntry, b: TreeEntry) -> bool {
    kind_rank(a.kind_view()) < kind_rank(b.kind_view()) || (kind_rank(a.kind_view()) == kind_rank(
        b.kind_view(),
    ) && chars_lt(a.path_view(), b.path_view()))
}

/// `a` may come before `b` in a listing: `b` does not strictly precede `a`.
pub open spec fn entry_le(a: TreeEntry, b: TreeEntry) -> bool {
    !entry_before(b, a)
}

/// Whether `a` comes before `b` in character order.
fn str_lt(a: &str, b: &str) -> (lt: bool)
    ensures
        lt == chars_lt(a@, b@),
{
    let x = chars_of(a);
    let y = chars_of(b);
    let mut i: usize = 0;
    assert(x@.skip(0) =~= x@);
    assert(y@.skip(0) =~= y@);
    while i < x.len() && i < y.len() && x[i] == y[i]
        invariant
            i <= x@.len(),
            i <= y@.len(),
            chars_lt(a@, b@) == chars_lt(x@.skip(i as int), y@.skip(i as int)),
            x@ == a@,
            y@ == b@,
        decreases x@.len() - i,
    {
        assert(x@.skip(i as int).drop_first() =~= x@.skip(i + 1));
        assert(y@.skip(i as int).drop_first() =~= y@.skip(i + 1));
        i = i + 1;
    }
    if i == x.len() {
        i < y.len()
    } else if i == y.len() {
        false
    } else {
        x[i] < y[i]
    }
}

fn kind_rank_of(k: TreeEntryKind) -> (rank: u8)
    ensures
        rank == kind_rank(k),
{
    match k {
        TreeEntryKind::Directory => 0,
        TreeEntryKind::File => 1,
        TreeEntryKind::Symlink => 2,
    }
}

/// Whether `a` comes strictly before `b` in listing order.
fn listed_before(a: &TreeEntry, b: &TreeEntry) -> (before: bool)
    ensures
        before == entry_before(*a, *b),
{
    let ra = kind_rank_of(a.kind);
    let rb = kind_rank_of(b.kind);
    ra < rb || (ra == rb && str_lt(a.path.as_str(), b.path.as_str()))
}

/// An entry found while listing a directory: its name there, whether Git
/// ignores it, and the entry it makes.
#[derive(Debug)]
pub struct ListedEntry {
    pub name: String,
    pub ignored: bool,
    pub entry: TreeEntry,
}

/// The entries a listing keeps, in listing order of the file system: all but
/// `.git` and those that Git ignores.
pub open spec fn kept_entries(ls: Seq<ListedEntry>) -> Seq<TreeEntry>
    decreases ls.len(),
{
    if ls.len() == 0 {
        Seq::empty()
    } else {
        let rest = kept_entries(ls.drop_last());
        let l = ls.last();
        if l.name@ != ".git"@ && !l.ignored {
            rest.push(l.entry)
        } else {
            rest
        }
    }
}

proof fn lemma_entry_order(a: TreeEntry, b: TreeEntry, c: TreeEntry)
    ensures
        !entry_before(a, a),
        entry_before(a, b) && entry_before(b, c) ==> entry_before(a, c),
        entry_before(a, b) || entry_le(b, a),
        !entry_before(a, b) ==> entry_le(b, a),
        entry_before(a, b) ==> entry_le(a, b),
{
    lemma_chars_lt_irreflexive(a.path_view());
    if entry_before(a, b) && entry_before(b, c) {
        if chars_lt(a.path_view(), b.path_view()) && chars_lt(b.path_view(), c.path_view()) {
            lemma_chars_lt_transitive(a.path_view(), b.path_view(), c.path_view());
        }
    }
    if entry_before(a, b) && entry_before(b, a) {
        lemma_chars_lt_transitive(a.path_view(), b.path_view(), a.path_view());
    }
}

/// Inserts `x` into a sorted listing, after every entry that does not come after it.
fn insert_sorted(out: &mut Vec<TreeEntry>, x: TreeEntry)
    requires
        sorted_by(old(out)@, |a: TreeEntry, b: TreeEntry| entry_le(a, b)),
    ensures
        sorted_by(final(out)@, |a: TreeEntry, b: TreeEntry| entry_le(a, b)),
        final(out)@.to_multiset() == old(out)@.to_multiset().insert(x),
{
    let n = out.len();
    let mut p: usize = 0;
    while p < n && !listed_before(&x, &out[p])
        invariant
            n == out@.len(),
            p <= n,
            forall|i: int| 0 <= i < p ==> !entry_before(x, #[trigger] out@[i]),
        decreases n - p,
    {
        p = p + 1;
    }
    let ghost before = out@;
    out.insert(p, x);
    proof {
        let leq = |a: TreeEntry, b: TreeEntry| entry_le(a, b);
        let s = out@;
        assert forall|i: int, j: int| 0 <= i < j < s.len() implies #[trigger] leq(s[i], s[j]) by {
            lemma_entry_order(s[i], s[j], x);
            if i < p && j == p {
                lemma_entry_order(x, s[i], s[i]);
            } else if i == p && j > p {
                assert(s[j] == before[j - 1]);
                assert(entry_before(x, before[p as int]));
                if p < j - 1 {
                    assert(leq(before[p as int], before[j - 1]));
                }
                lemma_entry_order(x, before[p as int], before[j - 1]);
                lemma_entry_order(before[j - 1], x, before[p as int]);
                lemma_entry_order(before[j - 1], before[p as int], x);
                lemma_entry_order(x, before[j - 1], x);
            } else if i < p && j > p {
                assert(s[i] == before[i] && s[j] == before[j - 1]);
                assert(leq(before[i], before[j - 1]));
            } else if j < p {
                assert(s[i] == before[i] && s[j] == before[j]);
            } else {
                assert(s[i] == before[i - 1] && s[j] == before[j - 1]);
                assert(leq(before[i - 1], before[j - 1]));
            }
        }
    }
}

/// The entries of one directory from its listing: `.git` and what Git ignores
/// are left out, and the rest is sorted by kind, then by path.
pub fn assemble_directory(listing: Vec<ListedEntry>) -> (entries: Vec<TreeEntry>)
    ensures
        sorted_by(entries@, |a: TreeEntry, b: TreeEntry| entry_le(a, b)),
        entries@.to_multiset() == kept_entries(listing@).to_multiset(),
{
    let ghost all = listing@;
    let mut rest = listing;
    let total = rest.len();
    let mut out: Vec<TreeEntry> = Vec::new();
    let mut i: usize = 0;
    assert(all.skip(0) =~= all);
    assert(all.take(0) =~= Seq::<ListedEntry>::empty());
    assert(out@.to_multiset() =~= Multiset::<TreeEntry>::empty()) by {
        broadcast use vstd::multiset::group_multiset_axioms;
        broadcast use vstd::seq_lib::group_to_multiset_ensures;

    }
    while rest.len() > 0
        invariant
            i <= all.len(),
            all.len() == total,
            rest@ == all.skip(i as int),
            sorted_by(out@, |a: TreeEntry, b: TreeEntry| entry_le(a, b)),
            out@.to_multiset() == kept_entries(all.take(i as int)).to_multiset(),
        decreases rest@.len(),
    {
        let l = rest.remove(0);
        proof {
            assert(all.take(i + 1).drop_last() =~= all.take(i as int));
            assert(all.take(i + 1).last() == l);
            assert(rest@ =~= all.skip(i + 1));
        }
        let keep = !l.ignored && !is_git_name_exact(l.name.as_str());
        if keep {
            insert_sorted(&mut out, l.entry);
            proof {
                vstd::seq_lib::to_multiset_build(kept_entries(all.take(i as int)), all[i as int].entry);
            }
        }
        i = i + 1;
    }
    assert(all.take(i as int) =~= all);
    out
}

/// Whether a name is exactly `.git`.
fn is_git_name_exact(name: &str) -> (git: bool)
    ensures
        git == (name@ == ".git"@),
{
    proof {
        reveal_strlit(".git");
    }
    let cs = chars_of(name);
    let git = cs.len() == 4 && cs[0] == '.' && cs[1] == 'g' && cs[2] == 'i' && cs[3] == 't';
    proof {
        if git {
            assert(cs@ =~= ".git"@);
        }
    }
    git
}

/// Whether a listing keeps an entry of that name that Git does (or does not)
/// ignore: all but `.git` and the ignored ones.
pub fn is_listed(name: &str, ignored: bool) -> (kept: bool)
    ensures
        kept == (name@ != ".git"@ && !ignored),
{
    !ignored && !is_git_name_exact(name)
}

/// Git's verdict on whether an entry is ignored: status 0 means ignored, 1 and
/// 128 mean not ignored, anything else is a failure reported with Git's
/// message (its standard error output, trimmed).
pub fn ignore_verdict(status: Option<i32>, message: String) -> (verdict: Result<bool, String>)
    ensures
        status == Some(0i32) ==> verdict == Ok::<bool, String>(true),
        status == Some(1i32) || status == Some(128i32) ==> verdict == Ok::<bool, String>(false),
        !(status == Some(0i32) || status == Some(1i32) || status == Some(128i32)) ==> (
        verdict matches Err(m) && m@ == message@),
{
    match status {
        Some(0) => Ok(true),
        Some(1) | Some(128) => Ok(false),
        _ => Err(message),
    }
}


/// A row of the browsable tree: an entry and the directory it is listed under.
#[derive(Debug, PartialEq, Eq)]
pub struct VisibleTreeEntry {
    pub path: String,
    pub kind: TreeEntryKind,
    pub enabled: bool,
    pub parent: Option<String>,
}

/// [`VisibleTreeEntry`] as mathematical values.
pub struct VisibleView {
    pub path: Seq<char>,
    pub kind: TreeEntryKind,
    pub enabled: bool,
    pub parent: Option<Seq<char>>,
}

impl View for VisibleTreeEntry {
    type V = VisibleView;

    open spec fn view(&self) -> VisibleView {
        VisibleView {
            path: self.path@,
            kind: self.kind,
            enabled: self.enabled,
            parent: match self.parent {
                Some(p) => Some(p@),
                None => None,
            },
        }
    }
}

/// The views of the strings.
pub open spec fn text_views(v: Seq<String>) -> Seq<Seq<char>> {
    v.map_values(|s: String| s@)
}

/// The views of the rows.
pub open spec fn visible_views(v: Seq<VisibleTreeEntry>) -> Seq<VisibleView> {
    v.map_values(|e: VisibleTreeEntry| e@)
}

/// The rows that a list of entries shows, in order: each entry, followed by
/// the rows of its children when it is an expanded directory.
pub open spec fn visible_rows(
    entries: Seq<TreeEntry>,
    expanded: Seq<Seq<char>>,
    parent: Option<Seq<char>>,
) -> Seq<VisibleView>
    decreases entries,
{
    if entries.len() == 0 {
        Seq::empty()
    } else {
        let e = entries.last();
        let row = VisibleView {
            path: e.path_view(),
            kind: e.kind_view(),
            enabled: e.enabled_view(),
            parent: parent,
        };
        proof {
            e.lemma_children_decrease();
        }
        let below = if e.kind_view() == TreeEntryKind::Directory && expanded.contains(e.path_view()) {
            visible_rows(e.children_view(), expanded, Some(e.path_view()))
        } else {
            Seq::empty()
        };
        visible_rows(entries.drop_last(), expanded, parent) + seq![row] + below
    }
}

/// Whether `path` is one of the expanded directories.
fn is_expanded(expanded: &Vec<String>, path: &str) -> (found: bool)
    ensures
        found == text_views(expanded@).contains(path@),
{
    let mut i: usize = 0;
    while i < expanded.len()
        invariant
            i <= expanded@.len(),
            forall|k: int| 0 <= k < i ==> expanded@[k]@ != path@,
        decreases expanded@.len() - i,
    {
        if same_text(expanded[i].as_str(), path) {
            assert(text_views(expanded@)[i as int] == path@);
            return true;
        }
        i = i + 1;
    }
    proof {
        if text_views(expanded@).contains(path@) {
            let k = choose|k: int| 0 <= k < text_views(expanded@).len() && text_views(expanded@)[k] == path@;
            assert(expanded@[k]@ == path@);
        }
    }
    false
}

fn collect_visible(
    output: &mut Vec<VisibleTreeEntry>,
    entries: &Vec<TreeEntry>,
    expanded: &Vec<String>,
    parent: &Option<String>,
)
    ensures
        visible_views(final(output)@) == visible_views(old(output)@) + visible_rows(
            entries@,
            text_views(expanded@),
            match parent {
                Some(p) => Some(p@),
                None => None,
            },
        ),
    decreases entries@,
{
    let ghost ex = text_views(expanded@);
    let ghost par = match parent {
        Some(p) => Some(p@),
        None => None::<Seq<char>>,
    };
    let ghost start = visible_views(output@);
    let n = entries.len();
    let mut i: usize = 0;
    assert(entries@.take(0) =~= Seq::<TreeEntry>::empty());
    assert(start + Seq::<VisibleView>::empty() =~= start);
    while i < n
        invariant
            n == entries@.len(),
            i <= n,
            ex == text_views(expanded@),
            par == (match parent {
                Some(p) => Some(p@),
                None => None::<Seq<char>>,
            }),
            visible_views(output@) == start + visible_rows(entries@.take(i as int), ex, par),
        decreases n - i,
    {
        let e = &entries[i];
        let parent_copy = match parent {
            Some(p) => Some(p.clone()),
            None => None,
        };
        let row = VisibleTreeEntry {
            path: e.path.clone(),
            kind: e.kind,
            enabled: e.enabled,
            parent: parent_copy,
        };
        let ghost before = visible_views(output@);
        output.push(row);
        assert(visible_views(output@) =~= before + seq![row@]);
        let ghost mid = visible_views(output@);
        if e.kind == TreeEntryKind::Directory && is_expanded(expanded, e.path.as_str()) {
            proof {
                assert(decreases_to!(entries@ => entries@[i as int]));
                assert(decreases_to!(entries@[i as int] => entries@[i as int].children));
            }
            let child_parent = Some(e.path.clone());
            collect_visible(output, &e.children, expanded, &child_parent);
        }
        proof {
            let t = entries@.take(i + 1);
            assert(t.drop_last() =~= entries@.take(i as int));
            assert(t.last() == *e);
            let below = if e.kind_view() == TreeEntryKind::Directory && ex.contains(e.path_view()) {
                visible_rows(e.children_view(), ex, Some(e.path_view()))
            } else {
                Seq::empty()
            };
            assert(visible_views(output@) =~= mid + below);
            assert(visible_rows(t, ex, par) == visible_rows(entries@.take(i as int), ex, par)
                + seq![row@] + below);
            assert(visible_views(output@) =~= start + visible_rows(t, ex, par));
        }
        i = i + 1;
    }
    assert(entries@.take(n as int) =~= entries@);
}

/// The rows of the browsable tree: every top-level entry, and below each
/// expanded directory its own rows; each row remembers the directory above it.
pub fn visible_tree(entries: &Vec<TreeEntry>, expanded: &Vec<String>) -> (rows: Vec<
    VisibleTreeEntry,
>)
    ensures
        visible_views(rows@) == visible_rows(entries@, text_views(expanded@), None),
{
    let mut rows: Vec<VisibleTreeEntry> = Vec::new();
    let top: Option<String> = None;
    collect_visible(&mut rows, entries, expanded, &top);
    assert(visible_views(Seq::<VisibleTreeEntry>::empty()) =~= Seq::<VisibleView>::empty());
    assert(Seq::<VisibleView>::empty() + visible_rows(entries@, text_views(expanded@), None)
        =~= visible_rows(entries@, text_views(expanded@), None));
    rows
}

/// The entries of the directory `directory`, searched depth first: the
/// children of the first directory entry with that path.
pub open spec fn directory_children(entries: Seq<TreeEntry>, directory: Seq<char>) -> Option<
    Seq<TreeEntry>,
>
    decreases entries,
{
    if entries.len() == 0 {
        None
    } else {
        let e = entries[0];
        proof {
            e.lemma_children_decrease();
        }
        let here = if e.kind_view() == TreeEntryKind::Directory {
            if e.path_view() == directory {
                Some(e.children_view())
            } else {
                directory_children(e.children_view(), directory)
            }
        } else {
            None
        };
        match here {
            Some(c) => Some(c),
            None => directory_children(entries.drop_first(), directory),
        }
    }
}

fn find_directory<'a>(entries: &'a [TreeEntry], directory: &str) -> (found: Option<
    &'a [TreeEntry],
>)
    ensures
        match found {
            Some(c) => directory_children(entries@, directory@) == Some(c@),
            None => directory_children(entries@, directory@) is None,
        },
    decreases entries@,
{
    let n = entries.len();
    let mut i: usize = 0;
    assert(entries@.skip(0) =~= entries@);
    while i < n
        invariant
            n == entries@.len(),
            i <= n,
            directory_children(entries@, directory@) == directory_children(
                entries@.skip(i as int),
                directory@,
            ),
        decreases n - i,
    {
        let e = &entries[i];
        assert(entries@.skip(i as int)[0] == *e);
        assert(entries@.skip(i as int).drop_first() =~= entries@.skip(i + 1));
        if e.kind == TreeEntryKind::Directory {
            if same_text(e.path.as_str(), directory) {
                return Some(e.children.as_slice());
            }
            proof {
                assert(decreases_to!(entries@ => entries@[i as int]));
                assert(decreases_to!(entries@[i as int] => entries@[i as int].children));
            }
            match find_directory(e.children.as_slice(), directory) {
                Some(c) => {
                    return Some(c);
                },
                None => {},
            }
        }
        i = i + 1;
    }
    None
}

/// The entries listed in `directory` (the whole tree for the empty path;
/// nothing when no such directory is in the tree).
pub fn directory_entries<'a>(entries: &'a [TreeEntry], directory: &str) -> (listed: &'a [
    TreeEntry])
    ensures
        directory@.len() == 0 ==> listed@ == entries@,
        directory@.len() > 0 ==> listed@ == match directory_children(entries@, directory@) {
            Some(c) => c,
            None => Seq::<TreeEntry>::empty(),
        },
{
    if directory.is_empty() {
        return entries;
    }
    match find_directory(entries, directory) {
        Some(c) => c,
        None => &[],
    }
}
} // verus!
