//! The catalog of registered repositories: their names, where they are, and
//! which one is the default.
use vstd::prelude::*;
use vstd::arithmetic::power::pow;

use crate::text::{chars_of, concat, concat3, decimal, decimal_of, same_text};

verus! {

/// The catalog format version this library reads and writes.
pub const CATALOG_VERSION: u32 = 1;

/// Whether a character has the Unicode `White_Space` property.
pub uninterp spec fn white_space(c: char) -> bool;

/// `char::is_whitespace` of std: whether the character has the Unicode
/// `White_Space` property.
#[verifier::external_body]
fn is_whitespace(c: char) -> (ws: bool)
    ensures
        ws == white_space(c),
{
    c.is_whitespace()
}

/// A fresh repository ID: `Uuid::new_v4` of the `uuid` crate, as its 128-bit
/// value. The ID is random, so nothing is stated of it.
#[verifier::external_body]
fn random_repository_id() -> u128 {
    uuid::Uuid::new_v4().as_u128()
}

/// The parent of a path, as `std::path::Path::parent` gives it.
pub uninterp spec fn path_parent(path: Seq<char>) -> Option<Seq<char>>;

/// `Path::parent` of std: the path without its final component, if it has
/// one; a function of the path alone.
#[verifier::external_body]
fn parent_of(path: &str) -> (parent: Option<String>)
    ensures
        match parent {
            Some(p) => path_parent(path@) == Some(p@),
            None => path_parent(path@) is None,
        },
{
    std::path::Path::new(path).parent().map(|p| p.to_string_lossy().into_owned())
}

/// The directory that holds the file at `path`: its parent, or `.` when the
/// path has no parent or an empty one.
pub fn parent_directory(path: &str) -> (directory: String)
    ensures
        directory@ == match path_parent(path@) {
            Some(p) => if p.len() > 0 {
                p
            } else {
                "."@
            },
            None => "."@,
        },
{
    match parent_of(path) {
        Some(p) => if !p.as_str().is_empty() {
            p
        } else {
            ".".to_owned()
        },
        None => ".".to_owned(),
    }
}

/// A registered repository.
#[derive(Debug, PartialEq, Eq)]
pub struct RepoEntry {
    pub id: u128,
    pub name: String,
    pub path: String,
}

/// [`RepoEntry`] as mathematical values.
pub struct RepoView {
    pub id: u128,
    pub name: Seq<char>,
    pub path: Seq<char>,
}

impl View for RepoEntry {
    type V = RepoView;

    open spec fn view(&self) -> RepoView {
        RepoView { id: self.id, name: self.name@, path: self.path@ }
    }
}

impl Clone for RepoEntry {
    fn clone(&self) -> (copy: Self)
        ensures
            copy@ == self@,
    {
        RepoEntry { id: self.id, name: self.name.clone(), path: self.path.clone() }
    }
}

/// The views of the entries.
pub open spec fn repo_views(v: Seq<RepoEntry>) -> Seq<RepoView> {
    v.map_values(|r: RepoEntry| r@)
}

/// Why a catalog operation failed.
#[derive(Debug, PartialEq, Eq)]
pub enum CatalogError {
    ConfigDirectoryUnavailable,
    Io { path: String, message: String },
    Parse { path: String, message: String },
    Serialize { message: String },
    UnsupportedVersion { found: u32 },
    EmptyName,
    DuplicateName { name: String },
    RepositoryNotFound { name: String },
    DefaultRepositoryNotSet,
    RepositoryPathMissing { path: String },
    RepositoryPathNotDirectory { path: String },
    RepositoryPathNotCanonical { path: String },
    DuplicateId { id: u128 },
}

/// [`CatalogError`] as mathematical values.
pub enum CatalogErrorView {
    ConfigDirectoryUnavailable,
    Io(Seq<char>, Seq<char>),
    Parse(Seq<char>, Seq<char>),
    Serialize(Seq<char>),
    UnsupportedVersion(u32),
    EmptyName,
    DuplicateName(Seq<char>),
    RepositoryNotFound(Seq<char>),
    DefaultRepositoryNotSet,
    RepositoryPathMissing(Seq<char>),
    RepositoryPathNotDirectory(Seq<char>),
    RepositoryPathNotCanonical(Seq<char>),
    DuplicateId(u128),
}

impl View for CatalogError {
    type V = CatalogErrorView;

    open spec fn view(&self) -> CatalogErrorView {
        match self {
            CatalogError::ConfigDirectoryUnavailable => CatalogErrorView::ConfigDirectoryUnavailable,
            CatalogError::Io { path, message } => CatalogErrorView::Io(path@, message@),
            CatalogError::Parse { path, message } => CatalogErrorView::Parse(path@, message@),
            CatalogError::Serialize { message } => CatalogErrorView::Serialize(message@),
            CatalogError::UnsupportedVersion { found } => CatalogErrorView::UnsupportedVersion(
                *found,
            ),
            CatalogError::EmptyName => CatalogErrorView::EmptyName,
            CatalogError::DuplicateName { name } => CatalogErrorView::DuplicateName(name@),
            CatalogError::RepositoryNotFound { name } => CatalogErrorView::RepositoryNotFound(
                name@,
            ),
            CatalogError::DefaultRepositoryNotSet => CatalogErrorView::DefaultRepositoryNotSet,
            CatalogError::RepositoryPathMissing { path } => CatalogErrorView::RepositoryPathMissing(
                path@,
            ),
            CatalogError::RepositoryPathNotDirectory { path } =>
                CatalogErrorView::RepositoryPathNotDirectory(path@),
            CatalogError::RepositoryPathNotCanonical { path } =>
                CatalogErrorView::RepositoryPathNotCanonical(path@),
            CatalogError::DuplicateId { id } => CatalogErrorView::DuplicateId(*id),
        }
    }
}

/// A text as `{:?}` writes it: between double quotes, with quotes,
/// backslashes and control characters escaped.
pub uninterp spec fn debug_quoted_of(text: Seq<char>) -> Seq<char>;

/// `format!("{:?}", text)`: the text quoted as `Debug` writes a `str`.
#[verifier::external_body]
fn debug_quoted(text: &str) -> (quoted: String)
    ensures
        quoted@ == debug_quoted_of(text@),
{
    format!("{text:?}")
}

/// A value below 16 as a lower-case hexadecimal digit.
pub open spec fn hex_digit(d: int) -> char {
    if d < 10 {
        (48 + d) as char
    } else {
        (87 + d) as char
    }
}

/// The 32 hexadecimal digits of a 128-bit value, the most significant first.
pub open spec fn hex_digits(v: u128) -> Seq<char> {
    Seq::new(32, |k: int| hex_digit((v as int / pow(16, (31 - k) as nat)) % 16))
}

/// How `uuid` writes an identifier: its 32 lower-case hexadecimal digits in
/// groups of 8, 4, 4, 4 and 12, joined by hyphens.
pub open spec fn hyphenated_uuid(id: u128) -> Seq<char> {
    let h = hex_digits(id);
    h.subrange(0, 8) + seq!['-'] + h.subrange(8, 12) + seq!['-'] + h.subrange(12, 16) + seq!['-']
        + h.subrange(16, 20) + seq!['-'] + h.subrange(20, 32)
}

/// `Uuid::from_u128(id)` written by its `hyphenated` formatter: `uuid`
/// documents that the value's bytes are taken most significant first and
/// written as in `a1a2a3a4-b1b2-c1c2-d1d2-d3d4d5d6d7d8`.
#[verifier::external_body]
pub(crate) fn uuid_text(id: u128) -> (text: String)
    ensures
        text@ == hyphenated_uuid(id),
{
    uuid::Uuid::from_u128(id).hyphenated().to_string()
}

/// What a [`CatalogError`] says.
pub open spec fn catalog_error_text(e: CatalogErrorView) -> Seq<char> {
    match e {
        CatalogErrorView::ConfigDirectoryUnavailable => "the operating system did not provide a configuration directory"@,
        CatalogErrorView::Io(p, m) => "could not read or write catalog at "@ + p + ": "@ + m,
        CatalogErrorView::Parse(p, m) => "could not parse catalog at "@ + p + ": "@ + m,
        CatalogErrorView::Serialize(m) => "could not serialize catalog: "@ + m,
        CatalogErrorView::UnsupportedVersion(found) => "catalog version "@ + decimal_of(found as nat)
            + " is not supported"@,
        CatalogErrorView::EmptyName => "repository name must not be empty"@,
        CatalogErrorView::DuplicateName(name) => "a repository named "@ + debug_quoted_of(name)
            + " is already registered"@,
        CatalogErrorView::RepositoryNotFound(name) => "repository named "@ + debug_quoted_of(name)
            + " is not registered"@,
        CatalogErrorView::DefaultRepositoryNotSet => "the default repository is not registered"@,
        CatalogErrorView::RepositoryPathMissing(p) => "repository path does not exist: "@ + p,
        CatalogErrorView::RepositoryPathNotDirectory(p) => "repository path is not a directory: "@ + p,
        CatalogErrorView::RepositoryPathNotCanonical(p) => "repository path is not canonical: "@ + p,
        CatalogErrorView::DuplicateId(id) => "catalog contains duplicate repository ID "@
            + hyphenated_uuid(id),
    }
}

impl CatalogError {
    /// What the error says.
    pub fn message(&self) -> (text: String)
        ensures
            text@ == catalog_error_text(self@),
    {
        match self {
            CatalogError::ConfigDirectoryUnavailable => "the operating system did not provide a configuration directory".to_owned(),
            CatalogError::Io { path, message } => concat3(
                "could not read or write catalog at ",
                &concat(path.as_str(), ": "),
                message.as_str(),
            ),
            CatalogError::Parse { path, message } => concat3(
                "could not parse catalog at ",
                &concat(path.as_str(), ": "),
                message.as_str(),
            ),
            CatalogError::Serialize { message } => concat("could not serialize catalog: ", message.as_str()),
            CatalogError::UnsupportedVersion { found } => concat3(
                "catalog version ",
                decimal(*found as u64).as_str(),
                " is not supported",
            ),
            CatalogError::EmptyName => "repository name must not be empty".to_owned(),
            CatalogError::DuplicateName { name } => concat3(
                "a repository named ",
                debug_quoted(name.as_str()).as_str(),
                " is already registered",
            ),
            CatalogError::RepositoryNotFound { name } => concat3(
                "repository named ",
                debug_quoted(name.as_str()).as_str(),
                " is not registered",
            ),
            CatalogError::DefaultRepositoryNotSet => "the default repository is not registered".to_owned(),
            CatalogError::RepositoryPathMissing { path } => concat(
                "repository path does not exist: ",
                path.as_str(),
            ),
            CatalogError::RepositoryPathNotDirectory { path } => concat(
                "repository path is not a directory: ",
                path.as_str(),
            ),
            CatalogError::RepositoryPathNotCanonical { path } => concat(
                "repository path is not canonical: ",
                path.as_str(),
            ),
            CatalogError::DuplicateId { id } => concat(
                "catalog contains duplicate repository ID ",
                uuid_text(*id).as_str(),
            ),
        }
    }
}

/// A name is blank when all its characters are white space.
pub open spec fn is_blank(name: Seq<char>) -> bool {
    forall|i: int| 0 <= i < name.len() ==> white_space(#[trigger] name[i])
}

/// The index of the first entry named `name`, from index `k` on.
pub open spec fn name_index_from(repos: Seq<RepoView>, name: Seq<char>, k: int) -> Option<int>
    decreases repos.len() - k,
{
    if k < 0 || k >= repos.len() {
        None
    } else if repos[k].name == name {
        Some(k)
    } else {
        name_index_from(repos, name, k + 1)
    }
}

/// The index of the first entry named `name`.
pub open spec fn name_index(repos: Seq<RepoView>, name: Seq<char>) -> Option<int> {
    name_index_from(repos, name, 0)
}

/// The index of the first entry with ID `id`, from index `k` on.
pub open spec fn id_index_from(repos: Seq<RepoView>, id: u128, k: int) -> Option<int>
    decreases repos.len() - k,
{
    if k < 0 || k >= repos.len() {
        None
    } else if repos[k].id == id {
        Some(k)
    } else {
        id_index_from(repos, id, k + 1)
    }
}

/// The index of the first entry with ID `id`.
pub open spec fn id_index(repos: Seq<RepoView>, id: u128) -> Option<int> {
    id_index_from(repos, id, 0)
}

pub proof fn lemma_name_index_from(repos: Seq<RepoView>, name: Seq<char>, k: int)
    requires
        0 <= k,
    ensures
        match name_index_from(repos, name, k) {
            Some(i) => k <= i < repos.len() && repos[i].name == name && forall|j: int|
                k <= j < i ==> repos[j].name != name,
            None => forall|j: int| k <= j < repos.len() ==> repos[j].name != name,
        },
    decreases repos.len() - k,
{
    if k < repos.len() && repos[k].name != name {
        lemma_name_index_from(repos, name, k + 1);
    }
}

pub proof fn lemma_id_index_from(repos: Seq<RepoView>, id: u128, k: int)
    requires
        0 <= k,
    ensures
        match id_index_from(repos, id, k) {
            Some(i) => k <= i < repos.len() && repos[i].id == id && forall|j: int|
                k <= j < i ==> repos[j].id != id,
            None => forall|j: int| k <= j < repos.len() ==> repos[j].id != id,
        },
    decreases repos.len() - k,
{
    if k < repos.len() && repos[k].id != id {
        lemma_id_index_from(repos, id, k + 1);
    }
}

/// No two entries share a name.
pub open spec fn names_unique(repos: Seq<RepoView>) -> bool {
    forall|i: int, j: int| 0 <= i < j < repos.len() ==> repos[i].name != repos[j].name
}

/// No two entries share an ID.
pub open spec fn ids_unique(repos: Seq<RepoView>) -> bool {
    forall|i: int, j: int| 0 <= i < j < repos.len() ==> repos[i].id != repos[j].id
}

/// A catalog as mathematical values.
pub struct CatalogView {
    pub path: Seq<char>,
    pub version: u32,
    pub default_repo_id: Option<u128>,
    pub repos: Seq<RepoView>,
}

/// What every catalog keeps: names are unique and not blank, and the default
/// is the ID of a registered repository.
pub open spec fn catalog_wf(v: CatalogView) -> bool {
    &&& names_unique(v.repos)
    &&& forall|i: int| 0 <= i < v.repos.len() ==> !is_blank(#[trigger] v.repos[i].name)
    &&& v.default_repo_id matches Some(d) ==> id_index(v.repos, d) is Some
}

/// The registered repositories and which one is the default, stored at `path`.
#[derive(Debug)]
pub struct Catalog {
    path: String,
    version: u32,
    default_repo_id: Option<u128>,
    repos: Vec<RepoEntry>,
}

impl View for Catalog {
    type V = CatalogView;

    closed spec fn view(&self) -> CatalogView {
        CatalogView {
            path: self.path@,
            version: self.version,
            default_repo_id: self.default_repo_id,
            repos: repo_views(self.repos@),
        }
    }
}

impl Clone for Catalog {
    fn clone(&self) -> (copy: Self)
        ensures
            copy@ == self@,
    {
        let mut repos: Vec<RepoEntry> = Vec::new();
        let mut i: usize = 0;
        while i < self.repos.len()
            invariant
                i <= self.repos@.len(),
                repo_views(repos@) =~= repo_views(self.repos@).take(i as int),
            decreases self.repos@.len() - i,
        {
            let entry = self.repos[i].clone();
            let ghost before = repos@;
            repos.push(entry);
            proof {
                assert(repos@ == before.push(entry));
                assert(repo_views(repos@) =~= repo_views(before).push(entry@));
                assert(repo_views(self.repos@)[i as int] == self.repos@[i as int]@);
                assert(repo_views(self.repos@).take(i + 1) =~= repo_views(self.repos@).take(
                    i as int,
                ).push(self.repos@[i as int]@));
            }
            i = i + 1;
        }
        proof {
            assert(repo_views(self.repos@).take(self.repos@.len() as int) =~= repo_views(self.repos@));
        }
        Catalog {
            path: self.path.clone(),
            version: self.version,
            default_repo_id: self.default_repo_id,
            repos,
        }
    }
}

/// Within entries whose names are unique, an entry's name finds that entry.
pub proof fn lemma_unique_name_index(repos: Seq<RepoView>, i: int)
    requires
        names_unique(repos),
        0 <= i < repos.len(),
    ensures
        name_index(repos, repos[i].name) == Some(i),
{
    lemma_name_index_from(repos, repos[i].name, 0);
    match name_index(repos, repos[i].name) {
        Some(k) => {
            if k < i {
                assert(repos[k].name != repos[i].name);
            } else if k > i {
                assert(repos[i].name != repos[k].name);
            }
        },
        None => {},
    }
}

/// The contents of a catalog file.
#[derive(Debug)]
pub struct CatalogFile {
    pub version: u32,
    pub default_repo_id: Option<u128>,
    pub repos: Vec<RepoEntry>,
}

/// What resolving a repository path on disk found.
#[derive(Debug)]
pub enum CanonicalProbe {
    /// Nothing is at the path.
    Missing,
    /// Resolving failed with this message.
    Failed(String),
    /// The path resolves to `canonical`, a directory or not.
    Resolved { canonical: String, is_dir: bool },
}

/// What a repository path resolves to: the canonical path of a directory, or
/// the error for a missing path, a failed lookup, or a non-directory.
pub open spec fn canonical_outcome(path: Seq<char>, probe: CanonicalProbe) -> Result<
    Seq<char>,
    CatalogErrorView,
> {
    match probe {
        CanonicalProbe::Missing => Err(CatalogErrorView::RepositoryPathMissing(path)),
        CanonicalProbe::Failed(m) => Err(CatalogErrorView::Io(path, m@)),
        CanonicalProbe::Resolved { canonical, is_dir } => if is_dir {
            Ok(canonical@)
        } else {
            Err(CatalogErrorView::RepositoryPathNotDirectory(canonical@))
        },
    }
}

/// A repository path checked to be canonical: it must resolve to a directory
/// and already be that directory's canonical path.
pub open spec fn canonical_check(path: Seq<char>, probe: CanonicalProbe) -> Result<
    (),
    CatalogErrorView,
> {
    match canonical_outcome(path, probe) {
        Ok(c) => if c == path {
            Ok(())
        } else {
            Err(CatalogErrorView::RepositoryPathNotCanonical(path))
        },
        Err(e) => Err(e),
    }
}

/// The canonical path of a repository directory, from what resolving `path` found.
pub fn canonical_repository_path(path: &str, probe: &CanonicalProbe) -> (result: Result<
    String,
    CatalogError,
>)
    ensures
        match result {
            Ok(c) => canonical_outcome(path@, *probe) == Ok::<Seq<char>, CatalogErrorView>(c@),
            Err(e) => canonical_outcome(path@, *probe) == Err::<Seq<char>, CatalogErrorView>(e@),
        },
{
    match probe {
        CanonicalProbe::Missing => Err(CatalogError::RepositoryPathMissing { path: path.to_owned() }),
        CanonicalProbe::Failed(m) => Err(
            CatalogError::Io { path: path.to_owned(), message: m.clone() },
        ),
        CanonicalProbe::Resolved { canonical, is_dir } => if *is_dir {
            Ok(canonical.clone())
        } else {
            Err(CatalogError::RepositoryPathNotDirectory { path: canonical.clone() })
        },
    }
}

/// Checks that a repository path is the canonical path of a directory.
pub fn validate_canonical_repository_path(path: &str, probe: &CanonicalProbe) -> (result: Result<
    (),
    CatalogError,
>)
    ensures
        match result {
            Ok(()) => canonical_check(path@, *probe) == Ok::<(), CatalogErrorView>(()),
            Err(e) => canonical_check(path@, *probe) == Err::<(), CatalogErrorView>(e@),
        },
{
    let canonical = canonical_repository_path(path, probe)?;
    if !same_text(canonical.as_str(), path) {
        return Err(CatalogError::RepositoryPathNotCanonical { path: path.to_owned() });
    }
    Ok(())
}

/// Whether a name is blank.
pub(crate) fn blank(name: &str) -> (b: bool)
    ensures
        b == is_blank(name@),
{
    let cs = chars_of(name);
    let mut i: usize = 0;
    while i < cs.len()
        invariant
            cs@ == name@,
            i <= cs@.len(),
            forall|k: int| 0 <= k < i ==> white_space(#[trigger] cs@[k]),
        decreases cs@.len() - i,
    {
        if !is_whitespace(cs[i]) {
            return false;
        }
        i = i + 1;
    }
    true
}

/// A repository name is accepted unless it is blank.
pub fn valid_name(name: String) -> (result: Result<String, CatalogError>)
    ensures
        match result {
            Ok(n) => !is_blank(name@) && n@ == name@,
            Err(e) => is_blank(name@) && e@ == CatalogErrorView::EmptyName,
        },
{
    if blank(name.as_str()) {
        return Err(CatalogError::EmptyName);
    }
    Ok(name)
}

/// The index of the first entry named `name`.
fn find_name(repos: &Vec<RepoEntry>, name: &str) -> (found: Option<usize>)
    ensures
        match found {
            Some(i) => name_index(repo_views(repos@), name@) == Some(i as int) && i < repos@.len()
                && repos@[i as int].name@ == name@,
            None => name_index(repo_views(repos@), name@) is None,
        },
{
    let ghost rv = repo_views(repos@);
    proof {
        lemma_name_index_from(rv, name@, 0);
    }
    let mut i: usize = 0;
    while i < repos.len()
        invariant
            i <= repos@.len(),
            rv == repo_views(repos@),
            rv.len() == repos@.len(),
            name_index_from(rv, name@, 0) == name_index_from(rv, name@, i as int),
        decreases repos@.len() - i,
    {
        assert(rv[i as int] == repos@[i as int]@);
        if same_text(repos[i].name.as_str(), name) {
            return Some(i);
        }
        i = i + 1;
    }
    None
}

/// The index of the first entry with ID `id`.
fn find_id(repos: &Vec<RepoEntry>, id: u128) -> (found: Option<usize>)
    ensures
        match found {
            Some(i) => id_index(repo_views(repos@), id) == Some(i as int) && i < repos@.len()
                && repos@[i as int].id == id,
            None => id_index(repo_views(repos@), id) is None,
        },
{
    let ghost rv = repo_views(repos@);
    proof {
        lemma_id_index_from(rv, id, 0);
    }
    let mut i: usize = 0;
    while i < repos.len()
        invariant
            i <= repos@.len(),
            rv == repo_views(repos@),
            rv.len() == repos@.len(),
            id_index_from(rv, id, 0) == id_index_from(rv, id, i as int),
        decreases repos@.len() - i,
    {
        assert(rv[i as int] == repos@[i as int]@);
        if repos[i].id == id {
            return Some(i);
        }
        i = i + 1;
    }
    None
}

/// What checking entries finds, from the `k`-th on: the first entry with a
/// blank name, a name used by an earlier entry, or an ID used by an earlier
/// entry is refused, in that order of checks.
pub open spec fn entries_outcome_from(repos: Seq<RepoView>, k: int) -> Result<(), CatalogErrorView>
    decreases repos.len() - k,
{
    if k < 0 || k >= repos.len() {
        Ok(())
    } else if is_blank(repos[k].name) {
        Err(CatalogErrorView::EmptyName)
    } else if name_index(repos.take(k), repos[k].name) is Some {
        Err(CatalogErrorView::DuplicateName(repos[k].name))
    } else if id_index(repos.take(k), repos[k].id) is Some {
        Err(CatalogErrorView::DuplicateId(repos[k].id))
    } else {
        entries_outcome_from(repos, k + 1)
    }
}

/// Checks a catalog's entries: names must not be blank, and names and IDs
/// must not repeat.
pub fn validate_entries(entries: &Vec<RepoEntry>) -> (result: Result<(), CatalogError>)
    ensures
        match result {
            Ok(()) => entries_outcome_from(repo_views(entries@), 0) == Ok::<(), CatalogErrorView>(
                (),
            ),
            Err(e) => entries_outcome_from(repo_views(entries@), 0) == Err::<(), CatalogErrorView>(
                e@,
            ),
        },
{
    let ghost rv = repo_views(entries@);
    let mut k: usize = 0;
    while k < entries.len()
        invariant
            k <= entries@.len(),
            rv == repo_views(entries@),
            rv.len() == entries@.len(),
            entries_outcome_from(rv, 0) == entries_outcome_from(rv, k as int),
        decreases entries@.len() - k,
    {
        assert(rv[k as int] == entries@[k as int]@);
        let repo = &entries[k];
        if blank(repo.name.as_str()) {
            return Err(CatalogError::EmptyName);
        }
        let mut j: usize = 0;
        while j < k
            invariant
                j <= k < entries@.len(),
                rv == repo_views(entries@),
                rv.len() == entries@.len(),
                *repo == entries@[k as int],
                entries_outcome_from(rv, 0) == entries_outcome_from(rv, k as int),
                !is_blank(rv[k as int].name),
                name_index_from(rv.take(k as int), rv[k as int].name, 0) == name_index_from(
                    rv.take(k as int),
                    rv[k as int].name,
                    j as int,
                ),
            decreases k - j,
        {
            assert(rv.take(k as int)[j as int] == entries@[j as int]@);
            if same_text(entries[j].name.as_str(), repo.name.as_str()) {
                return Err(CatalogError::DuplicateName { name: repo.name.clone() });
            }
            j = j + 1;
        }
        let mut j: usize = 0;
        while j < k
            invariant
                j <= k < entries@.len(),
                rv == repo_views(entries@),
                rv.len() == entries@.len(),
                *repo == entries@[k as int],
                entries_outcome_from(rv, 0) == entries_outcome_from(rv, k as int),
                !is_blank(rv[k as int].name),
                name_index(rv.take(k as int), rv[k as int].name) is None,
                id_index_from(rv.take(k as int), rv[k as int].id, 0) == id_index_from(
                    rv.take(k as int),
                    rv[k as int].id,
                    j as int,
                ),
            decreases k - j,
        {
            assert(rv.take(k as int)[j as int] == entries@[j as int]@);
            if entries[j].id == repo.id {
                return Err(CatalogError::DuplicateId { id: repo.id });
            }
            j = j + 1;
        }
        k = k + 1;
    }
    Ok(())
}


/// The repository a name selects, or the default one when no name is given.
pub open spec fn resolved(v: CatalogView, name: Option<Seq<char>>) -> Result<
    RepoView,
    CatalogErrorView,
> {
    match name {
        Some(n) => match name_index(v.repos, n) {
            Some(i) => Ok(v.repos[i]),
            None => Err(CatalogErrorView::RepositoryNotFound(n)),
        },
        None => match v.default_repo_id {
            None => Err(CatalogErrorView::DefaultRepositoryNotSet),
            Some(d) => match id_index(v.repos, d) {
                Some(i) => Ok(v.repos[i]),
                None => Err(CatalogErrorView::DefaultRepositoryNotSet),
            },
        },
    }
}

/// The first repository path, from the `k`-th on, that is not canonical.
pub open spec fn canonical_failure_from(
    repos: Seq<RepoView>,
    locations: Seq<CanonicalProbe>,
    k: int,
) -> Option<CatalogErrorView>
    decreases repos.len() - k,
{
    if k < 0 || k >= repos.len() {
        None
    } else {
        match canonical_check(repos[k].path, locations[k]) {
            Err(e) => Some(e),
            Ok(()) => canonical_failure_from(repos, locations, k + 1),
        }
    }
}

/// What loading a catalog file finds: the version must be this library's, the
/// entries must pass [`validate_entries`], every repository path must be
/// canonical (`locations[k]` is what resolving the `k`-th one found), and the
/// default must be a registered ID.
pub open spec fn load_outcome(
    file_version: u32,
    default_repo_id: Option<u128>,
    repos: Seq<RepoView>,
    locations: Seq<CanonicalProbe>,
) -> Result<(), CatalogErrorView> {
    if file_version != CATALOG_VERSION {
        Err(CatalogErrorView::UnsupportedVersion(file_version))
    } else {
        match entries_outcome_from(repos, 0) {
            Err(e) => Err(e),
            Ok(()) => match canonical_failure_from(repos, locations, 0) {
                Some(e) => Err(e),
                None => if default_repo_id matches Some(d) && id_index(repos, d) is None {
                    Err(CatalogErrorView::DefaultRepositoryNotSet)
                } else {
                    Ok(())
                },
            },
        }
    }
}

/// The catalog after registering `r`: it is added last, and becomes the
/// default when there is none.
pub open spec fn with_registered(v: CatalogView, r: RepoView) -> CatalogView {
    CatalogView {
        repos: v.repos.push(r),
        default_repo_id: if v.default_repo_id is None {
            Some(r.id)
        } else {
            v.default_repo_id
        },
        ..v
    }
}

/// The catalog after the `i`-th registration is renamed to `name`.
pub open spec fn with_renamed(v: CatalogView, i: int, name: Seq<char>) -> CatalogView {
    CatalogView { repos: v.repos.update(i, RepoView { name: name, ..v.repos[i] }), ..v }
}

/// The catalog after the `i`-th registration is removed; the default goes
/// with it if it was that registration's ID.
pub open spec fn without_entry(v: CatalogView, i: int) -> CatalogView {
    CatalogView {
        repos: v.repos.remove(i),
        default_repo_id: if v.default_repo_id == Some(v.repos[i].id) {
            None
        } else {
            v.default_repo_id
        },
        ..v
    }
}

proof fn lemma_entries_ok(repos: Seq<RepoView>, k: int)
    requires
        0 <= k,
        entries_outcome_from(repos, k) is Ok,
    ensures
        forall|i: int| k <= i < repos.len() ==> !is_blank(#[trigger] repos[i].name),
        forall|i: int, j: int| 0 <= i < j < repos.len() && k <= j ==> repos[i].name != repos[j].name,
    decreases repos.len() - k,
{
    if k < repos.len() {
        lemma_entries_ok(repos, k + 1);
        lemma_name_index_from(repos.take(k), repos[k].name, 0);
        assert forall|i: int| 0 <= i < k implies repos[i].name != repos[k].name by {
            assert(repos.take(k)[i] == repos[i]);
        }
    }
}

proof fn lemma_id_index_push(repos: Seq<RepoView>, x: RepoView, d: u128)
    requires
        id_index(repos, d) is Some,
    ensures
        id_index(repos.push(x), d) == id_index(repos, d),
{
    lemma_id_index_from(repos, d, 0);
    lemma_id_index_from(repos.push(x), d, 0);
    let i = id_index(repos, d)->0;
    assert(repos.push(x)[i] == repos[i]);
    if let Some(j) = id_index(repos.push(x), d) {
        if j < i {
            assert(repos.push(x)[j] == repos[j]);
        }
    }
}

impl Catalog {
    /// An empty catalog to be stored at `path`.
    pub fn create_at(path: String) -> (catalog: Catalog)
        ensures
            catalog@ == (CatalogView {
                path: path@,
                version: CATALOG_VERSION,
                default_repo_id: None,
                repos: Seq::empty(),
            }),
            catalog_wf(catalog@),
    {
        let catalog = Catalog { path, version: CATALOG_VERSION, default_repo_id: None, repos: Vec::new() };
        assert(catalog@.repos =~= Seq::<RepoView>::empty());
        catalog
    }

    /// A catalog from the contents of its file at `path`, after the checks of
    /// [`load_outcome`].
    pub fn from_file(path: String, file: CatalogFile, locations: &Vec<CanonicalProbe>) -> (result:
        Result<Catalog, CatalogError>)
        requires
            locations@.len() == file.repos@.len(),
        ensures
            match result {
                Ok(catalog) => {
                    &&& load_outcome(
                        file.version,
                        file.default_repo_id,
                        repo_views(file.repos@),
                        locations@,
                    ) is Ok
                    &&& catalog@ == (CatalogView {
                        path: path@,
                        version: file.version,
                        default_repo_id: file.default_repo_id,
                        repos: repo_views(file.repos@),
                    })
                    &&& catalog_wf(catalog@)
                },
                Err(e) => load_outcome(
                    file.version,
                    file.default_repo_id,
                    repo_views(file.repos@),
                    locations@,
                ) == Err::<(), CatalogErrorView>(e@),
            },
    {
        if file.version != CATALOG_VERSION {
            return Err(CatalogError::UnsupportedVersion { found: file.version });
        }
        validate_entries(&file.repos)?;
        let ghost rv = repo_views(file.repos@);
        let mut k: usize = 0;
        while k < file.repos.len()
            invariant
                k <= file.repos@.len(),
                rv == repo_views(file.repos@),
                rv.len() == file.repos@.len(),
                locations@.len() == file.repos@.len(),
                file.version == CATALOG_VERSION,
                entries_outcome_from(rv, 0) is Ok,
                canonical_failure_from(rv, locations@, 0) == canonical_failure_from(
                    rv,
                    locations@,
                    k as int,
                ),
            decreases file.repos@.len() - k,
        {
            assert(rv[k as int] == file.repos@[k as int]@);
            match validate_canonical_repository_path(file.repos[k].path.as_str(), &locations[k]) {
                Ok(()) => {},
                Err(e) => {
                    return Err(e);
                },
            }
            k = k + 1;
        }
        if let Some(default_repo_id) = file.default_repo_id {
            if find_id(&file.repos, default_repo_id).is_none() {
                return Err(CatalogError::DefaultRepositoryNotSet);
            }
        }
        proof {
            lemma_entries_ok(rv, 0);
        }
        Ok(
            Catalog {
                path,
                version: file.version,
                default_repo_id: file.default_repo_id,
                repos: file.repos,
            },
        )
    }

    /// The contents of the catalog's file.
    pub fn to_file(&self) -> (file: CatalogFile)
        ensures
            file.version == self@.version,
            file.default_repo_id == self@.default_repo_id,
            repo_views(file.repos@) == self@.repos,
    {
        let mut repos: Vec<RepoEntry> = Vec::new();
        let mut i: usize = 0;
        while i < self.repos.len()
            invariant
                i <= self.repos@.len(),
                repo_views(repos@) == repo_views(self.repos@).take(i as int),
            decreases self.repos@.len() - i,
        {
            let ghost before = repos@;
            assert(repo_views(before).len() == i);
            repos.push(self.repos[i].clone());
            proof {
                assert forall|k: int| 0 <= k < i + 1 implies repo_views(repos@)[k] == repo_views(
                    self.repos@,
                ).take(i + 1)[k] by {
                    if k < i {
                        assert(repos@[k] == before[k]);
                        assert(repo_views(before)[k] == repo_views(self.repos@).take(i as int)[k]);
                    }
                }
                assert(repo_views(repos@) =~= repo_views(self.repos@).take(i + 1));
            }
            i = i + 1;
        }
        assert(repo_views(self.repos@).take(self.repos@.len() as int) =~= repo_views(self.repos@));
        CatalogFile { version: self.version, default_repo_id: self.default_repo_id, repos }
    }

    /// Where the catalog is stored.
    pub fn path(&self) -> (path: &str)
        ensures
            path@ == self@.path,
    {
        self.path.as_str()
    }

    /// The registered repositories, in registration order.
    pub fn repositories(&self) -> (repos: &[RepoEntry])
        ensures
            repo_views(repos@) == self@.repos,
    {
        self.repos.as_slice()
    }

    /// Whether a registration is named `name`.
    pub fn has_name(&self, name: &str) -> (found: bool)
        ensures
            found == name_index(self@.repos, name@) is Some,
    {
        find_name(&self.repos, name).is_some()
    }

    /// The name of the first registration with ID `id`.
    pub fn name_of(&self, id: u128) -> (name: Option<String>)
        ensures
            match id_index(self@.repos, id) {
                Some(i) => name matches Some(n) && n@ == self@.repos[i].name,
                None => name is None,
            },
    {
        match find_id(&self.repos, id) {
            Some(i) => Some(self.repos[i].name.clone()),
            None => None,
        }
    }

    /// The ID of the default repository, if one is set.
    pub fn default_repository_id(&self) -> (id: Option<u128>)
        ensures
            id == self@.default_repo_id,
    {
        self.default_repo_id
    }

    /// The repository named `name`, or the default one when no name is given.
    /// (Whether its path is still canonical is checked with
    /// [`validate_canonical_repository_path`] against the disk.)
    pub fn resolve_repo(&self, name: Option<&str>) -> (result: Result<RepoEntry, CatalogError>)
        ensures
            match result {
                Ok(r) => resolved(
                    self@,
                    match name {
                        Some(n) => Some(n@),
                        None => None,
                    },
                ) == Ok::<RepoView, CatalogErrorView>(r@),
                Err(e) => resolved(
                    self@,
                    match name {
                        Some(n) => Some(n@),
                        None => None,
                    },
                ) == Err::<RepoView, CatalogErrorView>(e@),
            },
    {
        proof {
            assert(self@.repos == repo_views(self.repos@));
        }
        match name {
            Some(n) => match find_name(&self.repos, n) {
                Some(i) => Ok(self.repos[i].clone()),
                None => Err(CatalogError::RepositoryNotFound { name: n.to_owned() }),
            },
            None => match self.default_repo_id {
                None => Err(CatalogError::DefaultRepositoryNotSet),
                Some(d) => match find_id(&self.repos, d) {
                    Some(i) => Ok(self.repos[i].clone()),
                    None => Err(CatalogError::DefaultRepositoryNotSet),
                },
            },
        }
    }

    /// Registers the repository at `path` (where resolving it found
    /// `location`) under `name`. The name must not be blank or taken, and the
    /// path must resolve to a directory, whose canonical path is registered
    /// under a fresh ID. The first registration becomes the default.
    pub fn register(&mut self, name: String, path: &str, location: &CanonicalProbe) -> (result:
        Result<RepoEntry, CatalogError>)
        requires
            catalog_wf(old(self)@),
        ensures
            catalog_wf(final(self)@),
            match result {
                Ok(r) => {
                    &&& !is_blank(name@)
                    &&& name_index(old(self)@.repos, name@) is None
                    &&& canonical_outcome(path@, *location) == Ok::<Seq<char>, CatalogErrorView>(
                        r.path@,
                    )
                    &&& r.name@ == name@
                    &&& final(self)@ == with_registered(old(self)@, r@)
                },
                Err(e) => {
                    &&& final(self)@ == old(self)@
                    &&& if is_blank(name@) {
                        e@ == CatalogErrorView::EmptyName
                    } else if name_index(old(self)@.repos, name@) is Some {
                        e@ == CatalogErrorView::DuplicateName(name@)
                    } else {
                        canonical_outcome(path@, *location) == Err::<Seq<char>, CatalogErrorView>(
                            e@,
                        )
                    }
                },
            },
    {
        let name = valid_name(name)?;
        if find_name(&self.repos, name.as_str()).is_some() {
            return Err(CatalogError::DuplicateName { name });
        }
        let canonical_path = canonical_repository_path(path, location)?;
        let repo = RepoEntry { id: random_repository_id(), name, path: canonical_path };
        let ghost old_view = self@;
        proof {
            lemma_name_index_from(old_view.repos, repo.name@, 0);
            if let Some(d) = old_view.default_repo_id {
                lemma_id_index_push(old_view.repos, repo@, d);
            }
        }
        if self.default_repo_id.is_none() {
            self.default_repo_id = Some(repo.id);
        }
        let copy = repo.clone();
        self.repos.push(repo);
        proof {
            assert(repo_views(self.repos@) =~= old_view.repos.push(copy@));
            let rs = self@.repos;
            if old_view.default_repo_id is None {
                lemma_id_index_from(rs, copy.id, 0);
                assert(rs[rs.len() - 1].id == copy.id);
            }
        }
        Ok(copy)
    }

    /// Renames the registration `current` to `new`, which must not be blank or
    /// taken by another registration.
    pub fn rename_registration(&mut self, current: &str, new: String) -> (result: Result<
        (),
        CatalogError,
    >)
        requires
            catalog_wf(old(self)@),
        ensures
            catalog_wf(final(self)@),
            match result {
                Ok(()) => {
                    &&& !is_blank(new@)
                    &&& name_index(old(self)@.repos, current@) matches Some(i) && final(self)@
                        == with_renamed(old(self)@, i, new@)
                    &&& (new@ == current@ || name_index(old(self)@.repos, new@) is None)
                },
                Err(e) => {
                    &&& final(self)@ == old(self)@
                    &&& if is_blank(new@) {
                        e@ == CatalogErrorView::EmptyName
                    } else if name_index(old(self)@.repos, current@) is None {
                        e@ == CatalogErrorView::RepositoryNotFound(current@)
                    } else {
                        new@ != current@ && name_index(old(self)@.repos, new@) is Some && e@
                            == CatalogErrorView::DuplicateName(new@)
                    }
                },
            },
    {
        let new = valid_name(new)?;
        let index = match find_name(&self.repos, current) {
            Some(i) => i,
            None => {
                return Err(CatalogError::RepositoryNotFound { name: current.to_owned() });
            },
        };
        if !same_text(new.as_str(), current) && find_name(&self.repos, new.as_str()).is_some() {
            return Err(CatalogError::DuplicateName { name: new });
        }
        let ghost old_view = self@;
        proof {
            lemma_name_index_from(old_view.repos, current@, 0);
            lemma_name_index_from(old_view.repos, new@, 0);
        }
        let id = self.repos[index].id;
        let path = self.repos[index].path.clone();
        let entry = RepoEntry { id, name: new, path };
        self.repos.set(index, entry);
        proof {
            let rs = self@.repos;
            assert(rs =~= old_view.repos.update(
                index as int,
                RepoView { name: rs[index as int].name, ..old_view.repos[index as int] },
            ));
            if let Some(d) = old_view.default_repo_id {
                lemma_id_index_from(old_view.repos, d, 0);
                lemma_id_index_from(rs, d, 0);
                let k = id_index(old_view.repos, d)->0;
                assert(rs[k].id == d);
            }
            assert forall|i: int, j: int| 0 <= i < j < rs.len() implies rs[i].name
                != rs[j].name by {
                assert(old_view.repos[i].name != old_view.repos[j].name);
            }
        }
        Ok(())
    }

    /// Makes the registration `name` the default.
    pub fn set_default(&mut self, name: &str) -> (result: Result<(), CatalogError>)
        requires
            catalog_wf(old(self)@),
        ensures
            catalog_wf(final(self)@),
            match result {
                Ok(()) => name_index(old(self)@.repos, name@) matches Some(i) && final(self)@ == (
                CatalogView { default_repo_id: Some(old(self)@.repos[i].id), ..old(self)@ }),
                Err(e) => final(self)@ == old(self)@ && name_index(old(self)@.repos, name@) is None
                    && e@ == CatalogErrorView::RepositoryNotFound(name@),
            },
    {
        match find_name(&self.repos, name) {
            Some(i) => {
                proof {
                    lemma_id_index_from(self@.repos, self@.repos[i as int].id, 0);
                }
                assert(self@.repos[i as int] == self.repos@[i as int]@);
                self.default_repo_id = Some(self.repos[i].id);
                Ok(())
            },
            None => Err(CatalogError::RepositoryNotFound { name: name.to_owned() }),
        }
    }

    /// Removes the registration `name` (the files stay where they are); if it
    /// was the default, no default remains.
    pub fn unregister(&mut self, name: &str) -> (result: Result<RepoEntry, CatalogError>)
        requires
            catalog_wf(old(self)@),
        ensures
            catalog_wf(final(self)@),
            match result {
                Ok(r) => name_index(old(self)@.repos, name@) matches Some(i) && r@ == old(
                    self,
                )@.repos[i] && final(self)@ == without_entry(old(self)@, i),
                Err(e) => final(self)@ == old(self)@ && name_index(old(self)@.repos, name@) is None
                    && e@ == CatalogErrorView::RepositoryNotFound(name@),
            },
    {
        let index = match find_name(&self.repos, name) {
            Some(i) => i,
            None => {
                return Err(CatalogError::RepositoryNotFound { name: name.to_owned() });
            },
        };
        let ghost old_view = self@;
        let removed = self.repos.remove(index);
        if self.default_repo_id == Some(removed.id) {
            self.default_repo_id = None;
        }
        proof {
            let rs = self@.repos;
            assert(rs =~= old_view.repos.remove(index as int));
            assert(removed@ == old_view.repos[index as int]);
            if let Some(d) = self.default_repo_id {
                lemma_id_index_from(old_view.repos, d, 0);
                let k = id_index(old_view.repos, d)->0;
                assert(k != index);
                lemma_id_index_from(rs, d, 0);
                if k < index {
                    assert(rs[k].id == d);
                } else {
                    assert(rs[k - 1].id == d);
                }
            }
            assert forall|i: int, j: int| 0 <= i < j < rs.len() implies rs[i].name
                != rs[j].name by {
                if j < index {
                } else if i < index {
                    assert(rs[j] == old_view.repos[j + 1]);
                } else {
                    assert(rs[i] == old_view.repos[i + 1] && rs[j] == old_view.repos[j + 1]);
                }
            }
            assert forall|i: int| 0 <= i < rs.len() implies !is_blank(#[trigger] rs[i].name) by {
                if i >= index {
                    assert(rs[i] == old_view.repos[i + 1]);
                }
            }
        }
        Ok(removed)
    }
}

/// A registration can be looked up by its name right after it is made; and
/// when the catalog had no default, the new registration is the default (if
/// its ID is not already taken).
pub proof fn law_register_then_resolve(v: CatalogView, r: RepoView)
    requires
        catalog_wf(v),
        !is_blank(r.name),
        name_index(v.repos, r.name) is None,
    ensures
        catalog_wf(with_registered(v, r)),
        resolved(with_registered(v, r), Some(r.name)) == Ok::<RepoView, CatalogErrorView>(r),
        v.default_repo_id is None && id_index(v.repos, r.id) is None ==> resolved(
            with_registered(v, r),
            None,
        ) == Ok::<RepoView, CatalogErrorView>(r),
{
    let w = with_registered(v, r);
    assert(w.repos[v.repos.len() as int] == r);
    lemma_name_index_from(v.repos, r.name, 0);
    lemma_name_index_from(w.repos, r.name, 0);
    lemma_id_index_from(v.repos, r.id, 0);
    lemma_id_index_from(w.repos, r.id, 0);
    if let Some(j) = name_index(w.repos, r.name) {
        if j < v.repos.len() {
            assert(w.repos[j] == v.repos[j]);
        }
    }
    if let Some(j) = id_index(w.repos, r.id) {
        if j < v.repos.len() {
            assert(w.repos[j] == v.repos[j]);
        }
    }
    if let Some(d) = v.default_repo_id {
        lemma_id_index_push(v.repos, r, d);
    }
    assert forall|i: int| 0 <= i < w.repos.len() implies !is_blank(#[trigger] w.repos[i].name) by {
        if i < v.repos.len() {
            assert(w.repos[i] == v.repos[i]);
        }
    }
    assert forall|i: int, j: int| 0 <= i < j < w.repos.len() implies w.repos[i].name
        != w.repos[j].name by {
        assert(w.repos[i] == v.repos[i]);
        if j < v.repos.len() {
            assert(w.repos[j] == v.repos[j]);
        }
    }
}

/// After setting a default, the default is the repository of that name
/// (among repositories with distinct IDs).
pub proof fn law_set_default_then_resolve(v: CatalogView, name: Seq<char>)
    requires
        catalog_wf(v),
        ids_unique(v.repos),
        name_index(v.repos, name) is Some,
    ensures
        resolved(
            CatalogView { default_repo_id: Some(v.repos[name_index(v.repos, name)->0].id), ..v },
            None,
        ) == resolved(v, Some(name)),
{
    let i = name_index(v.repos, name)->0;
    lemma_name_index_from(v.repos, name, 0);
    lemma_id_index_from(v.repos, v.repos[i].id, 0);
}

/// After unregistering a name, the name is no longer found, and the default
/// is gone exactly when it was the removed repository (among repositories
/// with distinct IDs).
pub proof fn law_unregister_forgets(v: CatalogView, name: Seq<char>)
    requires
        catalog_wf(v),
        ids_unique(v.repos),
        name_index(v.repos, name) is Some,
    ensures
        resolved(without_entry(v, name_index(v.repos, name)->0), Some(name)) == Err::<
            RepoView,
            CatalogErrorView,
        >(CatalogErrorView::RepositoryNotFound(name)),
        (resolved(without_entry(v, name_index(v.repos, name)->0), None) is Ok) == (resolved(
            v,
            None,
        ) is Ok && v.default_repo_id != Some(v.repos[name_index(v.repos, name)->0].id)),
{
    let i = name_index(v.repos, name)->0;
    let w = without_entry(v, i);
    lemma_name_index_from(v.repos, name, 0);
    lemma_name_index_from(w.repos, name, 0);
    if let Some(j) = name_index(w.repos, name) {
        if j < i {
            assert(w.repos[j] == v.repos[j]);
        } else {
            assert(w.repos[j] == v.repos[j + 1]);
        }
    }
    if let Some(d) = v.default_repo_id {
        lemma_id_index_from(v.repos, d, 0);
        lemma_id_index_from(w.repos, d, 0);
        if let Some(j) = id_index(w.repos, d) {
            if j < i {
                assert(w.repos[j] == v.repos[j]);
            } else {
                assert(w.repos[j] == v.repos[j + 1]);
            }
        }
        if d != v.repos[i].id {
            let k = id_index(v.repos, d)->0;
            if k < i {
                assert(w.repos[k] == v.repos[k]);
            } else {
                assert(w.repos[k - 1] == v.repos[k]);
            }
        }
    }
}

/// After a rename, the new name finds the same repository (same ID and path)
/// and, when the name changed, the old one finds nothing.
pub proof fn law_rename_then_resolve(v: CatalogView, current: Seq<char>, new: Seq<char>)
    requires
        catalog_wf(v),
        !is_blank(new),
        name_index(v.repos, current) is Some,
        new == current || name_index(v.repos, new) is None,
    ensures
        resolved(with_renamed(v, name_index(v.repos, current)->0, new), Some(new)) == Ok::<
            RepoView,
            CatalogErrorView,
        >(RepoView { name: new, ..v.repos[name_index(v.repos, current)->0] }),
        new != current ==> resolved(
            with_renamed(v, name_index(v.repos, current)->0, new),
            Some(current),
        ) == Err::<RepoView, CatalogErrorView>(CatalogErrorView::RepositoryNotFound(current)),
{
    let i = name_index(v.repos, current)->0;
    let w = with_renamed(v, i, new);
    lemma_name_index_from(v.repos, current, 0);
    assert(w.repos[i] == RepoView { name: new, ..v.repos[i] });
    lemma_name_index_from(v.repos, new, 0);
    lemma_name_index_from(w.repos, new, 0);
    lemma_name_index_from(w.repos, current, 0);
    if let Some(j) = name_index(w.repos, new) {
        if j != i {
            assert(w.repos[j] == v.repos[j]);
        }
    }
    if let Some(j) = name_index(w.repos, current) {
        if j != i {
            assert(w.repos[j] == v.repos[j]);
            assert(v.repos[i].name != v.repos[j].name);
        }
    }
}
} // verus!
