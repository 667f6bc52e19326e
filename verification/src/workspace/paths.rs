//! Repository-relative note paths and the rules a path must meet to be used
//! inside a repository.
use vstd::prelude::*;

use super::tree::TreeEntryKind;
use crate::text::{chars_of, concat, concat3, string_of};

verus! {

/// A note's path: the repository root it belongs to and its path relative to that root.
#[derive(Debug, PartialEq, Eq)]
pub struct NotePath {
    pub(crate) root: String,
    pub(crate) relative: String,
}

impl NotePath {
    /// The path relative to the repository root.
    pub closed spec fn relative_view(&self) -> Seq<char> {
        self.relative@
    }

    /// The repository root.
    pub closed spec fn root_view(&self) -> Seq<char> {
        self.root@
    }

    pub fn new(root: String, relative: String) -> (path: NotePath)
        ensures
            path.root_view() == root@,
            path.relative_view() == relative@,
    {
        NotePath { root, relative }
    }

    /// The path relative to the repository root.
    pub fn relative(&self) -> (relative: &str)
        ensures
            relative@ == self.relative_view(),
    {
        self.relative.as_str()
    }

    /// The repository root.
    pub fn root(&self) -> (root: &str)
        ensures
            root@ == self.root_view(),
    {
        self.root.as_str()
    }
}

/// A relative path put below a root: joined with one `/`, unless the root is
/// empty or already ends with one.
pub open spec fn joined_below(root: Seq<char>, relative: Seq<char>) -> Seq<char> {
    if root.len() == 0 || root.last() == '/' {
        root + relative
    } else {
        root + seq!['/'] + relative
    }
}

/// A relative path put below a root, as `Path::join` does for a relative path.
pub fn join_below(root: &str, relative: &str) -> (path: String)
    ensures
        path@ == joined_below(root@, relative@),
{
    let root_chars = chars_of(root);
    let rel = chars_of(relative);
    let mut out: Vec<char> = chars_of(root);
    let n = root_chars.len();
    if n > 0 && root_chars[n - 1] != '/' {
        out.push('/');
    }
    let ghost mid = out@;
    let mut k: usize = 0;
    while k < rel.len()
        invariant
            k <= rel@.len(),
            out@ == mid + rel@.take(k as int),
        decreases rel@.len() - k,
    {
        out.push(rel[k]);
        k = k + 1;
        assert(out@ =~= mid + rel@.take(k as int));
    }
    assert(rel@.take(rel@.len() as int) =~= rel@);
    string_of(out.as_slice())
}

impl NotePath {
    /// The note's absolute path.
    pub fn absolute(&self) -> (path: String)
        ensures
            path@ == joined_below(self.root_view(), self.relative_view()),
    {
        join_below(self.root.as_str(), self.relative.as_str())
    }
}

impl Clone for NotePath {
    fn clone(&self) -> (copy: Self)
        ensures
            copy.root_view() == self.root_view(),
            copy.relative_view() == self.relative_view(),
    {
        NotePath { root: self.root.clone(), relative: self.relative.clone() }
    }
}

/// Why a path cannot be used inside a repository.
#[derive(Debug, PartialEq, Eq)]
pub enum PathError {
    Absolute { path: String },
    Traversal { path: String },
    GitMetadata { path: String },
    DirectoryTarget { path: String },
    Symlink { path: String },
    RootChanged { path: String },
    Io { path: String, message: String },
}

/// What a [`PathError`] says.
pub open spec fn path_error_text(e: PathErrorView) -> Seq<char> {
    match e {
        PathErrorView::Absolute(p) => "path must be relative: "@ + p,
        PathErrorView::Traversal(p) => "path must not traverse outside the repository: "@ + p,
        PathErrorView::GitMetadata(p) => "path must not access Git metadata: "@ + p,
        PathErrorView::DirectoryTarget(p) => "note path is a directory: "@ + p,
        PathErrorView::Symlink(p) => "note path contains a symbolic link: "@ + p,
        PathErrorView::RootChanged(p) => "opened repository root changed: "@ + p,
        PathErrorView::Io(p, m) => "could not inspect path "@ + p + ": "@ + m,
    }
}

impl PathError {
    /// What the error says.
    pub fn message(&self) -> (text: String)
        ensures
            text@ == path_error_text(self@),
    {
        match self {
            PathError::Absolute { path } => concat("path must be relative: ", path.as_str()),
            PathError::Traversal { path } => concat(
                "path must not traverse outside the repository: ",
                path.as_str(),
            ),
            PathError::GitMetadata { path } => concat("path must not access Git metadata: ", path.as_str()),
            PathError::DirectoryTarget { path } => concat("note path is a directory: ", path.as_str()),
            PathError::Symlink { path } => concat("note path contains a symbolic link: ", path.as_str()),
            PathError::RootChanged { path } => concat("opened repository root changed: ", path.as_str()),
            PathError::Io { path, message } => concat3(
                "could not inspect path ",
                &concat(path.as_str(), ": "),
                message.as_str(),
            ),
        }
    }
}

/// A [`PathError`] as mathematical values.
pub enum PathErrorView {
    Absolute(Seq<char>),
    Traversal(Seq<char>),
    GitMetadata(Seq<char>),
    DirectoryTarget(Seq<char>),
    Symlink(Seq<char>),
    RootChanged(Seq<char>),
    Io(Seq<char>, Seq<char>),
}

impl View for PathError {
    type V = PathErrorView;

    open spec fn view(&self) -> PathErrorView {
        match self {
            PathError::Absolute { path } => PathErrorView::Absolute(path@),
            PathError::Traversal { path } => PathErrorView::Traversal(path@),
            PathError::GitMetadata { path } => PathErrorView::GitMetadata(path@),
            PathError::DirectoryTarget { path } => PathErrorView::DirectoryTarget(path@),
            PathError::Symlink { path } => PathErrorView::Symlink(path@),
            PathError::RootChanged { path } => PathErrorView::RootChanged(path@),
            PathError::Io { path, message } => PathErrorView::Io(path@, message@),
        }
    }
}

/// The short name of an error's kind.
pub open spec fn path_error_kind(e: PathErrorView) -> Seq<char> {
    match e {
        PathErrorView::Absolute(_) => "absolute"@,
        PathErrorView::Traversal(_) => "traversal"@,
        PathErrorView::GitMetadata(_) => "git"@,
        PathErrorView::DirectoryTarget(_) => "directory"@,
        PathErrorView::Symlink(_) => "symlink"@,
        PathErrorView::RootChanged(_) => "root-changed"@,
        PathErrorView::Io(_, _) => "io"@,
    }
}

impl PathError {
    /// The short name of the error's kind.
    pub fn kind(&self) -> (kind: &'static str)
        ensures
            kind@ == path_error_kind(self@),
    {
        match self {
            PathError::Absolute { .. } => "absolute",
            PathError::Traversal { .. } => "traversal",
            PathError::GitMetadata { .. } => "git",
            PathError::DirectoryTarget { .. } => "directory",
            PathError::Symlink { .. } => "symlink",
            PathError::RootChanged { .. } => "root-changed",
            PathError::Io { .. } => "io",
        }
    }
}

/// A `/`-separated path starts at the file system root.
pub open spec fn is_absolute(p: Seq<char>) -> bool {
    p.len() > 0 && p[0] == '/'
}

/// Where the segment that starts at `i` ends: the next `/`, or the end.
pub open spec fn segment_end(p: Seq<char>, i: int) -> int
    decreases p.len() - i,
{
    if i >= p.len() {
        p.len() as int
    } else if p[i] == '/' {
        i
    } else {
        segment_end(p, i + 1)
    }
}

pub proof fn lemma_segment_end(p: Seq<char>, i: int)
    requires
        0 <= i <= p.len(),
    ensures
        i <= segment_end(p, i) <= p.len(),
        segment_end(p, i) < p.len() ==> p[segment_end(p, i)] == '/',
        forall|k: int| i <= k < segment_end(p, i) ==> p[k] != '/',
    decreases p.len() - i,
{
    if i < p.len() && p[i] != '/' {
        lemma_segment_end(p, i + 1);
    }
}

/// The components of a path from index `i` on: its `/`-separated segments,
/// leaving out empty ones and `.`.
pub open spec fn components_from(p: Seq<char>, i: int) -> Seq<Seq<char>>
    decreases p.len() + 1 - i,
    via components_from_decreases
{
    if i < 0 || i >= p.len() {
        Seq::empty()
    } else {
        let e = segment_end(p, i);
        let seg = p.subrange(i, e);
        let rest = components_from(p, e + 1);
        if seg.len() == 0 || seg == seq!['.'] {
            rest
        } else {
            seq![seg] + rest
        }
    }
}

#[via_fn]
proof fn components_from_decreases(p: Seq<char>, i: int) {
    if 0 <= i < p.len() {
        lemma_segment_end(p, i);
    }
}

/// The components of a path.
pub open spec fn components(p: Seq<char>) -> Seq<Seq<char>> {
    components_from(p, 0)
}

/// `..`
pub open spec fn is_parent(c: Seq<char>) -> bool {
    c == seq!['.', '.']
}

/// `.git` in any ASCII case.
pub open spec fn is_git_name(c: Seq<char>) -> bool {
    &&& c.len() == 4
    &&& c[0] == '.'
    &&& (c[1] == 'g' || c[1] == 'G')
    &&& (c[2] == 'i' || c[2] == 'I')
    &&& (c[3] == 't' || c[3] == 'T')
}

/// The first component that is `..` or `.git`, from index `k` on.
pub open spec fn first_refused_from(cs: Seq<Seq<char>>, k: int) -> Option<int>
    decreases cs.len() - k,
{
    if k < 0 || k >= cs.len() {
        None
    } else if is_parent(cs[k]) || is_git_name(cs[k]) {
        Some(k)
    } else {
        first_refused_from(cs, k + 1)
    }
}

/// The components joined with `/`.
pub open spec fn joined(cs: Seq<Seq<char>>) -> Seq<char>
    decreases cs.len(),
{
    if cs.len() == 0 {
        Seq::empty()
    } else if cs.len() == 1 {
        cs[0]
    } else {
        joined(cs.drop_last()) + seq!['/'] + cs.last()
    }
}

/// What the lexical rules make of a path: the error for an absolute path, for
/// a `..` component and for a `.git` component (the first such component
/// decides), else its components.
pub open spec fn lexical_outcome(p: Seq<char>) -> Result<Seq<Seq<char>>, PathErrorView> {
    if is_absolute(p) {
        Err(PathErrorView::Absolute(p))
    } else {
        let cs = components(p);
        match first_refused_from(cs, 0) {
            Some(k) => if is_parent(cs[k]) {
                Err(PathErrorView::Traversal(p))
            } else {
                Err(PathErrorView::GitMetadata(p))
            },
            None => Ok(cs),
        }
    }
}

/// The views of a vector of strings.
pub open spec fn string_views(v: Seq<String>) -> Seq<Seq<char>> {
    v.map_values(|s: String| s@)
}

/// Splits a path into its components.
pub fn path_components(path: &str) -> (parts: Vec<String>)
    ensures
        string_views(parts@) == components(path@),
{
    let chars = chars_of(path);
    let n = chars.len();
    let ghost p = chars@;
    let mut out: Vec<String> = Vec::new();
    let mut i: usize = 0;
    while i < n
        invariant
            n == p.len(),
            p == chars@,
            p == path@,
            i <= n,
            string_views(out@) + components_from(p, i as int) == components_from(p, 0),
        decreases n - i,
    {
        proof {
            lemma_segment_end(p, i as int);
        }
        let mut j: usize = i;
        while j < n && chars[j] != '/'
            invariant
                n == p.len(),
                p == chars@,
                i <= j <= n,
                i < n,
                segment_end(p, j as int) == segment_end(p, i as int),
            decreases n - j,
        {
            j = j + 1;
        }
        let mut seg: Vec<char> = Vec::new();
        let mut k: usize = i;
        while k < j
            invariant
                i <= k <= j <= n,
                p == chars@,
                n == p.len(),
                seg@ == p.subrange(i as int, k as int),
            decreases j - k,
        {
            seg.push(chars[k]);
            k = k + 1;
        }
        let ghost old_out = string_views(out@);
        let keep = !(seg.len() == 0 || (seg.len() == 1 && seg[0] == '.'));
        proof {
            assert(seg@ == p.subrange(i as int, j as int));
            assert((seg@.len() == 0 || seg@ == seq!['.']) == !keep) by {
                if seg@.len() == 1 && seg@[0] == '.' {
                    assert(seg@ =~= seq!['.']);
                }
            }
        }
        if keep {
            let s = string_of(seg.as_slice());
            out.push(s);
            proof {
                assert(string_views(out@) =~= old_out + seq![seg@]);
                assert(old_out + seq![seg@] + components_from(p, j + 1) =~= old_out + (seq![seg@]
                    + components_from(p, j + 1)));
            }
        }
        if j == n {
            i = n;
        } else {
            i = j + 1;
        }
    }
    assert(components_from(p, i as int) =~= Seq::<Seq<char>>::empty());
    assert(string_views(out@) =~= string_views(out@) + Seq::<Seq<char>>::empty());
    out
}

/// Whether a component is `..`.
pub(crate) fn component_is_parent(c: &str) -> (b: bool)
    ensures
        b == is_parent(c@),
{
    let cs = chars_of(c);
    let b = cs.len() == 2 && cs[0] == '.' && cs[1] == '.';
    proof {
        if cs@.len() == 2 && cs@[0] == '.' && cs@[1] == '.' {
            assert(cs@ =~= seq!['.', '.']);
        }
    }
    b
}

/// Whether a component is `.git` in any ASCII case.
fn component_is_git(c: &str) -> (b: bool)
    ensures
        b == is_git_name(c@),
{
    let cs = chars_of(c);
    cs.len() == 4 && cs[0] == '.' && (cs[1] == 'g' || cs[1] == 'G') && (cs[2] == 'i' || cs[2]
        == 'I') && (cs[3] == 't' || cs[3] == 'T')
}

/// Applies the lexical rules to a path relative to a repository root: it must
/// not be absolute and must have no `..` or `.git` component. Gives its components.
pub fn lexical_components(path: &str) -> (result: Result<Vec<String>, PathError>)
    ensures
        match result {
            Ok(parts) => lexical_outcome(path@) == Ok::<Seq<Seq<char>>, PathErrorView>(
                string_views(parts@),
            ),
            Err(e) => lexical_outcome(path@) == Err::<Seq<Seq<char>>, PathErrorView>(e@),
        },
{
    let cs = chars_of(path);
    if cs.len() > 0 && cs[0] == '/' {
        return Err(PathError::Absolute { path: path.to_owned() });
    }
    let parts = path_components(path);
    let ghost v = string_views(parts@);
    let mut k: usize = 0;
    while k < parts.len()
        invariant
            k <= parts@.len(),
            v == string_views(parts@),
            v.len() == parts@.len(),
            v == components(path@),
            !is_absolute(path@),
            first_refused_from(v, 0) == first_refused_from(v, k as int),
        decreases parts@.len() - k,
    {
        let parent = component_is_parent(parts[k].as_str());
        if parent || component_is_git(parts[k].as_str()) {
            assert(v[k as int] == parts@[k as int]@);
            assert(first_refused_from(v, k as int) == Some(k as int));
            assert(!is_absolute(path@));
            if parent {
                return Err(PathError::Traversal { path: path.to_owned() });
            } else {
                return Err(PathError::GitMetadata { path: path.to_owned() });
            }
        }
        k = k + 1;
    }
    Ok(parts)
}

/// The components joined with `/`.
pub fn join_components(parts: &Vec<String>) -> (path: String)
    ensures
        path@ == joined(string_views(parts@)),
{
    let mut out: Vec<char> = Vec::new();
    let mut k: usize = 0;
    while k < parts.len()
        invariant
            k <= parts@.len(),
            out@ == joined(string_views(parts@).take(k as int)),
        decreases parts@.len() - k,
    {
        let ghost before = out@;
        if k > 0 {
            out.push('/');
        }
        let cs = chars_of(parts[k].as_str());
        let mut j: usize = 0;
        let ghost mid = out@;
        while j < cs.len()
            invariant
                j <= cs@.len(),
                out@ == mid + cs@.take(j as int),
            decreases cs@.len() - j,
        {
            out.push(cs[j]);
            j = j + 1;
            assert(out@ =~= mid + cs@.take(j as int));
        }
        proof {
            let t = string_views(parts@).take(k + 1);
            assert(t.drop_last() =~= string_views(parts@).take(k as int));
            assert(cs@.take(cs@.len() as int) =~= cs@);
            if k == 0 {
                assert(string_views(parts@).take(0) =~= Seq::<Seq<char>>::empty());
                assert(out@ =~= t[0]);
            } else {
                assert(out@ =~= before + seq!['/'] + t.last());
            }
        }
        k = k + 1;
    }
    assert(string_views(parts@).take(parts@.len() as int) =~= string_views(parts@));
    string_of(out.as_slice())
}

/// What inspecting one prefix of a path found.
#[derive(Debug)]
pub enum Probe {
    /// Nothing exists there.
    Missing,
    /// An entry of this kind (a symbolic link is not followed).
    Found(TreeEntryKind),
    /// The inspection failed with this message.
    Failed(String),
}

/// [`Probe`] as mathematical values.
pub enum ProbeView {
    Missing,
    Found(TreeEntryKind),
    Failed(Seq<char>),
}

impl View for Probe {
    type V = ProbeView;

    open spec fn view(&self) -> ProbeView {
        match self {
            Probe::Missing => ProbeView::Missing,
            Probe::Found(k) => ProbeView::Found(*k),
            Probe::Failed(m) => ProbeView::Failed(m@),
        }
    }
}

/// What walking the prefixes of a relative path finds, from the `k`-th on:
/// the first that failed to be inspected or is a symbolic link is an error, as
/// is a directory at the last component unless directories are allowed; a
/// missing prefix ends the walk (the target does not exist); else the target's kind.
pub open spec fn walk_from(
    cs: Seq<Seq<char>>,
    probes: Seq<ProbeView>,
    allow_directory: bool,
    k: int,
) -> Result<Option<TreeEntryKind>, PathErrorView>
    decreases cs.len() - k,
{
    if k < 0 || k >= cs.len() {
        if cs.len() == 0 {
            Err(PathErrorView::DirectoryTarget(Seq::empty()))
        } else {
            match probes[cs.len() - 1] {
                ProbeView::Found(kind) => Ok(Some(kind)),
                _ => Ok(None),
            }
        }
    } else {
        match probes[k] {
            ProbeView::Failed(m) => Err(PathErrorView::Io(joined(cs.take(k + 1)), m)),
            ProbeView::Missing => Ok(None),
            ProbeView::Found(TreeEntryKind::Symlink) => Err(
                PathErrorView::Symlink(joined(cs.take(k + 1))),
            ),
            ProbeView::Found(TreeEntryKind::Directory) => if k == cs.len() - 1 && !allow_directory {
                Err(PathErrorView::DirectoryTarget(joined(cs)))
            } else {
                walk_from(cs, probes, allow_directory, k + 1)
            },
            ProbeView::Found(TreeEntryKind::File) => walk_from(cs, probes, allow_directory, k + 1),
        }
    }
}

/// The views of a vector of probes.
pub open spec fn probe_views(v: Seq<Probe>) -> Seq<ProbeView> {
    v.map_values(|p: Probe| p@)
}

/// A path checked against what is on disk: its relative form and what is there.
#[derive(Debug, PartialEq, Eq)]
pub struct ResolvedPath {
    pub relative: String,
    pub metadata: Option<TreeEntryKind>,
}

/// Decides a relative path from what inspecting each of its prefixes found
/// (`probes[k]` for the first `k + 1` components).
pub fn resolve_walk(parts: &Vec<String>, probes: &Vec<Probe>, allow_directory: bool) -> (result:
    Result<ResolvedPath, PathError>)
    requires
        probes@.len() == parts@.len(),
    ensures
        match result {
            Ok(r) => r.relative@ == joined(string_views(parts@)) && walk_from(
                string_views(parts@),
                probe_views(probes@),
                allow_directory,
                0,
            ) == Ok::<Option<TreeEntryKind>, PathErrorView>(r.metadata),
            Err(e) => walk_from(string_views(parts@), probe_views(probes@), allow_directory, 0)
                == Err::<Option<TreeEntryKind>, PathErrorView>(e@),
        },
{
    let n = parts.len();
    let ghost cs = string_views(parts@);
    let ghost ps = probe_views(probes@);
    let mut k: usize = 0;
    while k < n
        invariant
            n == parts@.len(),
            n == probes@.len(),
            cs == string_views(parts@),
            ps == probe_views(probes@),
            k <= n,
            walk_from(cs, ps, allow_directory, 0) == walk_from(cs, ps, allow_directory, k as int),
        decreases n - k,
    {
        assert(ps[k as int] == probes@[k as int]@);
        match &probes[k] {
            Probe::Failed(message) => {
                let prefix: Vec<String> = prefix_of(parts, k + 1);
                assert(string_views(prefix@) =~= cs.take(k + 1));
                return Err(PathError::Io { path: join_components(&prefix), message: message.clone() });
            },
            Probe::Missing => {
                return Ok(ResolvedPath { relative: join_components(parts), metadata: None });
            },
            Probe::Found(TreeEntryKind::Symlink) => {
                let prefix: Vec<String> = prefix_of(parts, k + 1);
                assert(string_views(prefix@) =~= cs.take(k + 1));
                return Err(PathError::Symlink { path: join_components(&prefix) });
            },
            Probe::Found(TreeEntryKind::Directory) => {
                if k + 1 == n && !allow_directory {
                    return Err(PathError::DirectoryTarget { path: join_components(parts) });
                }
            },
            Probe::Found(TreeEntryKind::File) => {},
        }
        k = k + 1;
    }
    if n == 0 {
        return Err(PathError::DirectoryTarget { path: String::new() });
    }
    assert(ps[n - 1] == probes@[n - 1]@);
    let metadata = match &probes[n - 1] {
        Probe::Found(kind) => Some(*kind),
        _ => None,
    };
    Ok(ResolvedPath { relative: join_components(parts), metadata })
}

/// The first `k` components.
pub(crate) fn prefix_of(parts: &Vec<String>, k: usize) -> (prefix: Vec<String>)
    requires
        k <= parts@.len(),
    ensures
        string_views(prefix@) == string_views(parts@).take(k as int),
{
    let mut out: Vec<String> = Vec::new();
    let mut j: usize = 0;
    while j < k
        invariant
            j <= k <= parts@.len(),
            string_views(out@) == string_views(parts@).take(j as int),
        decreases k - j,
    {
        let s = parts[j].clone();
        assert(s@ == string_views(parts@)[j as int]);
        let ghost old = out@;
        assert(string_views(old).len() == j);
        out.push(s);
        proof {
            assert(out@.len() == j + 1);
            assert(string_views(out@).len() == j + 1);
            assert forall|i: int| 0 <= i < j + 1 implies string_views(out@)[i] == string_views(
                parts@,
            ).take(j + 1)[i] by {
                if i < j {
                    assert(string_views(old)[i] == string_views(parts@).take(j as int)[i]);
                    assert(out@[i] == old[i]);
                }
            }
            assert(string_views(out@) =~= string_views(parts@).take(j + 1));
        }
        j = j + 1;
    }
    out
}


/// What resolving a path relative to a repository root gives, from what
/// inspecting each of its prefixes found: the lexical rules first
/// ([`lexical_outcome`]), then the walk over the probes ([`walk_from`]); on
/// success, the relative path and what is there.
pub open spec fn resolution(p: Seq<char>, probes: Seq<ProbeView>, allow_directory: bool) -> Result<
    (Seq<char>, Option<TreeEntryKind>),
    PathErrorView,
> {
    match lexical_outcome(p) {
        Err(e) => Err(e),
        Ok(cs) => match walk_from(cs, probes, allow_directory, 0) {
            Ok(kind) => Ok((joined(cs), kind)),
            Err(e) => Err(e),
        },
    }
}

/// No prefix before the `k`-th was found missing.
pub open spec fn reached(probes: Seq<ProbeView>, k: int) -> bool {
    forall|j: int| 0 <= j < k ==> !(#[trigger] probes[j] is Missing)
}

/// What an accepted path satisfies: it is relative; its components are
/// non-empty and none is `..` or `.git` in any ASCII case; it is them joined
/// with `/`, and not empty; no prefix up to the first missing one is a
/// symbolic link or failed to be inspected; and it is no directory unless
/// directories are allowed.
pub open spec fn stays_inside(
    p: Seq<char>,
    probes: Seq<ProbeView>,
    allow_directory: bool,
    relative: Seq<char>,
    kind: Option<TreeEntryKind>,
) -> bool {
    let cs = components(p);
    &&& !is_absolute(p)
    &&& forall|k: int| 0 <= k < cs.len() ==> (#[trigger] cs[k]).len() > 0 && !is_parent(cs[k]) && !is_git_name(cs[k])
    &&& relative == joined(cs)
    &&& relative.len() > 0
    &&& forall|k: int|
        0 <= k < cs.len() && reached(probes, k) ==> !(#[trigger] probes[k] is Failed) && probes[k]
            != ProbeView::Found(TreeEntryKind::Symlink)
    &&& !allow_directory ==> kind != Some(TreeEntryKind::Directory)
}

/// A path resolves only inside its repository root: an absolute path is
/// refused as such, a path with a `..` or `.git` component is refused, and a
/// path that resolves is relative, made of ordinary components, not empty,
/// crosses no symbolic link, and is a directory only where directories are
/// allowed.
pub proof fn law_resolved_paths_stay_inside_the_root(p: Seq<char>, probes: Seq<ProbeView>, allow_directory: bool)
    requires
        probes.len() == components(p).len(),
    ensures
        is_absolute(p) ==> resolution(p, probes, allow_directory) == Err::<
            (Seq<char>, Option<TreeEntryKind>),
            PathErrorView,
        >(PathErrorView::Absolute(p)),
        (exists|k: int|
            0 <= k < components(p).len() && (is_parent(#[trigger] components(p)[k]) || is_git_name(
                components(p)[k],
            ))) ==> resolution(p, probes, allow_directory) is Err,
        match resolution(p, probes, allow_directory) {
            Ok(found) => stays_inside(p, probes, allow_directory, found.0, found.1),
            Err(_) => true,
        },
{
    let cs = components(p);
    lemma_components_not_empty(p, 0);
    if !is_absolute(p) {
        if first_refused_from(cs, 0) is None {
            lemma_none_refused(cs, 0);
            match walk_from(cs, probes, allow_directory, 0) {
                Ok(kind) => {
                    lemma_walk_accepts(cs, probes, allow_directory, 0);
                    assert(cs.len() > 0);
                    lemma_joined_not_empty(cs);
                },
                Err(_) => {},
            }
        } else {
            lemma_first_refused(cs, 0);
        }
    }
}

/// The components of a path are not empty.
proof fn lemma_components_not_empty(p: Seq<char>, i: int)
    ensures
        forall|k: int| 0 <= k < components_from(p, i).len() ==> (#[trigger] components_from(p, i)[k]).len() > 0,
    decreases p.len() + 1 - i,
{
    if 0 <= i < p.len() {
        lemma_segment_end(p, i);
        let e = segment_end(p, i);
        lemma_components_not_empty(p, e + 1);
        let seg = p.subrange(i, e);
        let rest = components_from(p, e + 1);
        if !(seg.len() == 0 || seg == seq!['.']) {
            assert forall|k: int| 0 <= k < components_from(p, i).len() implies (#[trigger] components_from(p, i)[k]).len() > 0 by {
                if k > 0 {
                    assert(components_from(p, i)[k] == rest[k - 1]);
                }
            }
        }
    }
}

/// When no component from `k` on is refused, none is `..` or `.git`.
proof fn lemma_none_refused(cs: Seq<Seq<char>>, k: int)
    requires
        0 <= k,
        first_refused_from(cs, k) is None,
    ensures
        forall|j: int| k <= j < cs.len() ==> !is_parent(#[trigger] cs[j]) && !is_git_name(cs[j]),
    decreases cs.len() - k,
{
    if k < cs.len() {
        lemma_none_refused(cs, k + 1);
    }
}

/// The first refused component from `k` on is a component, `..` or `.git`.
proof fn lemma_first_refused(cs: Seq<Seq<char>>, k: int)
    requires
        0 <= k,
        first_refused_from(cs, k) is Some,
    ensures
        k <= first_refused_from(cs, k)->0 < cs.len(),
        is_parent(cs[first_refused_from(cs, k)->0]) || is_git_name(cs[first_refused_from(cs, k)->0]),
    decreases cs.len() - k,
{
    if k < cs.len() && !(is_parent(cs[k]) || is_git_name(cs[k])) {
        lemma_first_refused(cs, k + 1);
    }
}

/// Components joined with `/` are not empty when there is one that is not.
proof fn lemma_joined_not_empty(cs: Seq<Seq<char>>)
    requires
        cs.len() > 0,
        cs.last().len() > 0,
    ensures
        joined(cs).len() > 0,
{
}

/// A walk that succeeds from `k` passes no failed probe and no symbolic link
/// before the first missing prefix, and ends at a directory only where
/// directories are allowed.
proof fn lemma_walk_accepts(cs: Seq<Seq<char>>, probes: Seq<ProbeView>, allow_directory: bool, k: int)
    requires
        0 <= k,
        probes.len() == cs.len(),
        walk_from(cs, probes, allow_directory, k) is Ok,
    ensures
        cs.len() > 0,
        forall|i: int|
            k <= i < cs.len() && (forall|j: int| k <= j < i ==> !(#[trigger] probes[j] is Missing)) ==> !(
            #[trigger] probes[i] is Failed) && probes[i] != ProbeView::Found(TreeEntryKind::Symlink),
        k < cs.len() && !allow_directory ==> walk_from(cs, probes, allow_directory, k)->Ok_0 != Some(
            TreeEntryKind::Directory,
        ),
    decreases cs.len() - k,
{
    if k < cs.len() {
        if probes[k] is Missing {
            assert forall|i: int|
                k <= i < cs.len() && (forall|j: int| k <= j < i ==> !(#[trigger] probes[j] is Missing)) implies !(
                #[trigger] probes[i] is Failed) && probes[i] != ProbeView::Found(TreeEntryKind::Symlink) by {
                if i > k {
                    assert(!(probes[k] is Missing));
                }
            }
        } else {
            lemma_walk_accepts(cs, probes, allow_directory, k + 1);
            if k + 1 == cs.len() {
                assert(walk_from(cs, probes, allow_directory, k + 1) == Ok::<
                    Option<TreeEntryKind>,
                    PathErrorView,
                >(Some(probes[k]->Found_0)));
            }
            assert forall|i: int|
                k <= i < cs.len() && (forall|j: int| k <= j < i ==> !(#[trigger] probes[j] is Missing)) implies !(
                #[trigger] probes[i] is Failed) && probes[i] != ProbeView::Found(TreeEntryKind::Symlink) by {
                if i > k {
                    assert forall|j: int| k + 1 <= j < i implies !(#[trigger] probes[j] is Missing) by {}
                }
            }
        }
    }
}

} // verus!
