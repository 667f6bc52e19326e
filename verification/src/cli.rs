//! What a command line asks for: the terminal editor on a repository or the
//! repository home, or the path or text of a note written to standard output.
use vstd::prelude::*;

use crate::catalog::{
    catalog_error_text, resolved, Catalog, CatalogError, CatalogErrorView, CatalogView, RepoEntry,
    RepoView,
};
use crate::text::{chars_of, concat};
use crate::workspace::paths::{component_is_parent, components, is_absolute, is_parent, path_components, string_views};

verus! {

/// The command line: `--repo NAME`, `--path`, `--print` and a note path.
#[derive(Debug)]
pub struct Cli {
    pub repo: Option<String>,
    pub path: bool,
    pub print: bool,
    pub note_path: Option<String>,
}

/// What to write of a note.
#[derive(Clone, Copy, PartialEq, Eq, Structural, Debug)]
pub enum OutputMode {
    Path,
    Print,
}

/// A request to write a note's path or text.
#[derive(Debug, PartialEq, Eq)]
pub struct NoteOutputRequest {
    pub repository: RepoEntry,
    pub note: String,
    pub mode: OutputMode,
}

/// Where the terminal editor starts.
#[derive(Debug, PartialEq, Eq)]
pub enum Launch {
    Home { selected_repository: Option<u128>, pending_note: Option<String> },
    Repository { repository: RepoEntry, note: Option<String> },
}

/// What a command line asks for.
#[derive(Debug, PartialEq, Eq)]
pub enum Invocation {
    Interactive(Launch),
    NoteOutput(NoteOutputRequest),
}

/// Why a command line cannot be carried out.
#[derive(Debug, PartialEq, Eq)]
pub enum CliError {
    Catalog(CatalogError),
    AbsoluteNotePath { path: String },
    TraversalNotePath { path: String },
    OutputNoteRequired,
}

/// [`CliError`] as mathematical values.
pub enum CliErrorView {
    Catalog(CatalogErrorView),
    AbsoluteNotePath(Seq<char>),
    TraversalNotePath(Seq<char>),
    OutputNoteRequired,
}

impl View for CliError {
    type V = CliErrorView;

    open spec fn view(&self) -> CliErrorView {
        match self {
            CliError::Catalog(e) => CliErrorView::Catalog(e@),
            CliError::AbsoluteNotePath { path } => CliErrorView::AbsoluteNotePath(path@),
            CliError::TraversalNotePath { path } => CliErrorView::TraversalNotePath(path@),
            CliError::OutputNoteRequired => CliErrorView::OutputNoteRequired,
        }
    }
}

/// What a [`CliError`] says.
pub open spec fn cli_error_text(e: CliErrorView) -> Seq<char> {
    match e {
        CliErrorView::Catalog(c) => catalog_error_text(c),
        CliErrorView::AbsoluteNotePath(p) => "note path must be relative: "@ + p,
        CliErrorView::TraversalNotePath(p) => "note path must not traverse outside its repository: "@
            + p,
        CliErrorView::OutputNoteRequired => "--path and --print require a note path"@,
    }
}

impl CliError {
    /// What the error says.
    pub fn message(&self) -> (text: String)
        ensures
            text@ == cli_error_text(self@),
    {
        match self {
            CliError::Catalog(c) => c.message(),
            CliError::AbsoluteNotePath { path } => concat("note path must be relative: ", path.as_str()),
            CliError::TraversalNotePath { path } => concat(
                "note path must not traverse outside its repository: ",
                path.as_str(),
            ),
            CliError::OutputNoteRequired => "--path and --print require a note path".to_owned(),
        }
    }
}

/// What is wrong with a note path given on the command line, if anything: an
/// absolute path, or a `..` component.
pub open spec fn note_path_problem(p: Seq<char>) -> Option<CliErrorView> {
    if is_absolute(p) {
        Some(CliErrorView::AbsoluteNotePath(p))
    } else if exists|k: int| 0 <= k < components(p).len() && is_parent(#[trigger] components(p)[k]) {
        Some(CliErrorView::TraversalNotePath(p))
    } else {
        None
    }
}

/// Checks a note path from the command line: it must be relative and must
/// not have a `..` component.
pub fn validate_note_path(path: &str) -> (result: Result<(), CliError>)
    ensures
        match result {
            Ok(()) => note_path_problem(path@) is None,
            Err(e) => note_path_problem(path@) == Some(e@),
        },
{
    let cs = chars_of(path);
    if cs.len() > 0 && cs[0] == '/' {
        return Err(CliError::AbsoluteNotePath { path: path.to_owned() });
    }
    let parts = path_components(path);
    let ghost v = string_views(parts@);
    let mut k: usize = 0;
    while k < parts.len()
        invariant
            k <= parts@.len(),
            v == string_views(parts@),
            v == components(path@),
            !is_absolute(path@),
            forall|j: int| 0 <= j < k ==> !is_parent(#[trigger] v[j]),
        decreases parts@.len() - k,
    {
        assert(v[k as int] == parts@[k as int]@);
        if component_is_parent(parts[k].as_str()) {
            assert(is_parent(v[k as int]));
            return Err(CliError::TraversalNotePath { path: path.to_owned() });
        }
        k = k + 1;
    }
    Ok(())
}

/// The optional name as a view.
pub open spec fn name_view(name: Option<String>) -> Option<Seq<char>> {
    match name {
        Some(n) => Some(n@),
        None => None,
    }
}

/// Where the editor starts for a command line (when the note path, if any,
/// passed [`validate_note_path`]): with neither a repository nor a note, at the
/// home with the default selected; with only a note, in the default
/// repository, or at the home holding the note when there is no default; with
/// a repository name, in that repository.
pub open spec fn launch_matches(cli: Cli, catalog: CatalogView, launch: Launch) -> bool {
    match (cli.repo, cli.note_path) {
        (None, None) => launch == Launch::Home {
            selected_repository: catalog.default_repo_id,
            pending_note: None,
        },
        (None, Some(n)) => match resolved(catalog, None) {
            Ok(r) => launch matches Launch::Repository { repository, note } && repository@ == r
                && note == Some(n),
            Err(_) => launch == Launch::Home { selected_repository: None, pending_note: Some(n) },
        },
        (Some(name), note) => match resolved(catalog, Some(name@)) {
            Ok(r) => launch matches Launch::Repository { repository, note: chosen } && repository@
                == r && chosen == note,
            Err(_) => false,
        },
    }
}

/// Where the terminal editor starts for a command line. A selected
/// repository's path is still to be checked against the disk with
/// `validate_canonical_repository_path`.
pub fn route(cli: Cli, catalog: &Catalog) -> (result: Result<Launch, CliError>)
    ensures
        match result {
            Ok(launch) => (cli.note_path matches Some(n) ==> note_path_problem(n@) is None)
                && launch_matches(cli, catalog@, launch),
            Err(e) => match cli.note_path {
                Some(n) if note_path_problem(n@) is Some => note_path_problem(n@) == Some(e@),
                _ => cli.repo matches Some(name) && resolved(catalog@, Some(name@)) matches Err(
                    c,
                ) && e@ == CliErrorView::Catalog(c),
            },
        },
{
    if let Some(note) = &cli.note_path {
        validate_note_path(note.as_str())?;
    }
    let ghost original = cli;
    match (cli.repo, cli.note_path) {
        (None, None) => Ok(
            Launch::Home { selected_repository: catalog.default_repository_id(), pending_note: None },
        ),
        (None, Some(note)) => match catalog.resolve_repo(None) {
            Ok(repository) => Ok(Launch::Repository { repository, note: Some(note) }),
            Err(_) => Ok(Launch::Home { selected_repository: None, pending_note: Some(note) }),
        },
        (Some(name), note) => match catalog.resolve_repo(Some(name.as_str())) {
            Ok(repository) => Ok(Launch::Repository { repository, note }),
            Err(e) => Err(CliError::Catalog(e)),
        },
    }
}

/// What a command line asks for: with exactly one of `--path` and `--print`,
/// the output of an existing note (a note path is then required, must pass
/// [`validate_note_path`], and selects a repository as `--repo` or the default
/// does); otherwise the terminal editor, as [`route`] decides.
pub fn resolve_invocation(cli: Cli, catalog: &Catalog) -> (result: Result<Invocation, CliError>)
    ensures
        !(cli.path != cli.print) ==> match result {
            Ok(Invocation::Interactive(launch)) => (cli.note_path matches Some(n)
                ==> note_path_problem(n@) is None) && launch_matches(cli, catalog@, launch),
            Ok(Invocation::NoteOutput(_)) => false,
            Err(e) => match cli.note_path {
                Some(n) if note_path_problem(n@) is Some => note_path_problem(n@) == Some(e@),
                _ => cli.repo matches Some(name) && resolved(catalog@, Some(name@)) matches Err(
                    c,
                ) && e@ == CliErrorView::Catalog(c),
            },
        },
        cli.path != cli.print ==> match result {
            Ok(Invocation::NoteOutput(request)) => cli.note_path matches Some(n) && request.note
                == n && note_path_problem(n@) is None && request.mode == (if cli.path {
                OutputMode::Path
            } else {
                OutputMode::Print
            }) && resolved(catalog@, name_view(cli.repo)) == Ok::<RepoView, CatalogErrorView>(
                request.repository@,
            ),
            Ok(Invocation::Interactive(_)) => false,
            Err(e) => match cli.note_path {
                None => e@ == CliErrorView::OutputNoteRequired,
                Some(n) => if note_path_problem(n@) is Some {
                    note_path_problem(n@) == Some(e@)
                } else {
                    resolved(catalog@, name_view(cli.repo)) matches Err(c) && e@
                        == CliErrorView::Catalog(c)
                },
            },
        },
{
    let mode = if cli.path && !cli.print {
        Some(OutputMode::Path)
    } else if !cli.path && cli.print {
        Some(OutputMode::Print)
    } else {
        None
    };
    let mode = match mode {
        Some(m) => m,
        None => {
            return match route(cli, catalog) {
                Ok(launch) => Ok(Invocation::Interactive(launch)),
                Err(e) => Err(e),
            };
        },
    };
    let note = match cli.note_path {
        Some(n) => n,
        None => {
            return Err(CliError::OutputNoteRequired);
        },
    };
    validate_note_path(note.as_str())?;
    let repository = match &cli.repo {
        Some(name) => catalog.resolve_repo(Some(name.as_str())),
        None => catalog.resolve_repo(None),
    };
    match repository {
        Ok(repository) => Ok(Invocation::NoteOutput(NoteOutputRequest { repository, note, mode })),
        Err(e) => Err(CliError::Catalog(e)),
    }
}

} // verus!
