//! What Carnet records in Git: the commit message of each kind of change, and
//! how Git's answers are read.
use vstd::prelude::*;

use crate::text::{append, chars_of, concat, concat3, string_of};
use crate::workspace::files::{file_error_text, FileError, FileOperation};

verus! {

/// The change a commit records.
#[derive(Debug, PartialEq, Eq)]
pub enum CommitIntent {
    Create(String),
    Update(String),
    Move { from: String, to: String },
    Delete(String),
}

impl Clone for CommitIntent {
    fn clone(&self) -> (copy: Self)
        ensures
            copy == *self,
    {
        match self {
            CommitIntent::Create(p) => CommitIntent::Create(p.clone()),
            CommitIntent::Update(p) => CommitIntent::Update(p.clone()),
            CommitIntent::Move { from, to } => CommitIntent::Move { from: from.clone(), to: to.clone() },
            CommitIntent::Delete(p) => CommitIntent::Delete(p.clone()),
        }
    }
}

/// The commit message for a change.
pub open spec fn commit_message(intent: CommitIntent) -> Seq<char> {
    match intent {
        CommitIntent::Create(p) => "carnet: create "@ + p@,
        CommitIntent::Update(p) => "carnet: update "@ + p@,
        CommitIntent::Move { from, to } => "carnet: move "@ + from@ + " to "@ + to@,
        CommitIntent::Delete(p) => "carnet: delete "@ + p@,
    }
}

impl CommitIntent {
    /// The commit message: `carnet: create PATH`, `carnet: update PATH`,
    /// `carnet: move FROM to TO` or `carnet: delete PATH`.
    pub fn message(&self) -> (message: String)
        ensures
            message@ == commit_message(*self),
    {
        let mut out: Vec<char> = Vec::new();
        match self {
            CommitIntent::Create(p) => {
                append(&mut out, "carnet: create ");
                append(&mut out, p.as_str());
            },
            CommitIntent::Update(p) => {
                append(&mut out, "carnet: update ");
                append(&mut out, p.as_str());
            },
            CommitIntent::Move { from, to } => {
                append(&mut out, "carnet: move ");
                append(&mut out, from.as_str());
                append(&mut out, " to ");
                append(&mut out, to.as_str());
            },
            CommitIntent::Delete(p) => {
                append(&mut out, "carnet: delete ");
                append(&mut out, p.as_str());
            },
        }
        proof {
            match self {
                CommitIntent::Create(p) => {
                    assert(out@ =~= "carnet: create "@ + p@);
                },
                CommitIntent::Update(p) => {
                    assert(out@ =~= "carnet: update "@ + p@);
                },
                CommitIntent::Move { from, to } => {
                    assert(out@ =~= "carnet: move "@ + from@ + " to "@ + to@);
                },
                CommitIntent::Delete(p) => {
                    assert(out@ =~= "carnet: delete "@ + p@);
                },
            }
        }
        let message = string_of(out.as_slice());
        message
    }
}

/// What a commit did.
#[derive(Debug, PartialEq, Eq)]
pub enum CommitOutcome {
    Committed { revision: String },
    NoChanges,
}

/// What a push did.
#[derive(Clone, Copy, PartialEq, Eq, Structural, Debug)]
pub enum PushOutcome {
    Pushed,
    UpToDate,
}

/// Some line of the report starts with `=`.
pub open spec fn has_up_to_date_line(report: Seq<char>) -> bool {
    exists|p: int| 0 <= p < report.len() && #[trigger] report[p] == '=' && (p == 0 || report[p - 1] == '\n')
}

/// What `git push --porcelain` reported: up to date when some line starts
/// with `=`, pushed otherwise.
pub fn push_outcome(report: &str) -> (outcome: PushOutcome)
    ensures
        outcome == (if has_up_to_date_line(report@) {
            PushOutcome::UpToDate
        } else {
            PushOutcome::Pushed
        }),
{
    let cs = chars_of(report);
    let mut p: usize = 0;
    while p < cs.len()
        invariant
            cs@ == report@,
            p <= cs@.len(),
            forall|q: int| 0 <= q < p ==> !(#[trigger] cs@[q] == '=' && (q == 0 || cs@[q - 1] == '\n')),
        decreases cs@.len() - p,
    {
        if cs[p] == '=' && (p == 0 || cs[p - 1] == '\n') {
            return PushOutcome::UpToDate;
        }
        p = p + 1;
    }
    PushOutcome::Pushed
}

/// What `git diff --cached --quiet` said about the staged changes: nothing to
/// commit (status 0), something to commit (status 1), or a failure.
#[derive(Clone, Copy, PartialEq, Eq, Structural, Debug)]
pub enum StagedChanges {
    Clean,
    Pending,
    Failed,
}

/// Reads the exit status of `git diff --cached --quiet`.
pub fn staged_changes(status: Option<i32>) -> (staged: StagedChanges)
    ensures
        staged == (if status == Some(0i32) {
            StagedChanges::Clean
        } else if status == Some(1i32) {
            StagedChanges::Pending
        } else {
            StagedChanges::Failed
        }),
{
    match status {
        Some(0) => StagedChanges::Clean,
        Some(1) => StagedChanges::Pending,
        _ => StagedChanges::Failed,
    }
}

/// Why a Git command failed. Paths are written as text, and an I/O error by
/// its message.
#[derive(Debug, PartialEq, Eq)]
pub enum GitError {
    Io { operation: String, message: String },
    NotWorkTree { path: String },
    CommandFailed { operation: String, status: Option<i32>, stderr: String },
    WorkerPanicked { operation: String },
    RootChanged { path: String },
    Cancelled { operation: String },
}

/// What a [`GitError`] says.
pub open spec fn git_error_text(e: GitError) -> Seq<char> {
    match e {
        GitError::Io { operation, message } => "could not run git "@ + operation@ + ": "@ + message@,
        GitError::NotWorkTree { path } => "path is not a Git work tree: "@ + path@,
        GitError::CommandFailed { operation, stderr, .. } => "git "@ + operation@ + " failed: "@
            + stderr@,
        GitError::WorkerPanicked { operation } => "background "@ + operation@ + " worker panicked"@,
        GitError::RootChanged { path } => "opened repository root changed: "@ + path@,
        GitError::Cancelled { operation } => "git "@ + operation@ + " was cancelled during shutdown"@,
    }
}

impl GitError {
    /// What the error says.
    pub fn message(&self) -> (text: String)
        ensures
            text@ == git_error_text(*self),
    {
        match self {
            GitError::Io { operation, message } => concat3(
                "could not run git ",
                &concat(operation.as_str(), ": "),
                message.as_str(),
            ),
            GitError::NotWorkTree { path } => concat("path is not a Git work tree: ", path.as_str()),
            GitError::CommandFailed { operation, stderr, .. } => concat3(
                "git ",
                &concat(operation.as_str(), " failed: "),
                stderr.as_str(),
            ),
            GitError::WorkerPanicked { operation } => concat3(
                "background ",
                operation.as_str(),
                " worker panicked",
            ),
            GitError::RootChanged { path } => concat("opened repository root changed: ", path.as_str()),
            GitError::Cancelled { operation } => concat3(
                "git ",
                operation.as_str(),
                " was cancelled during shutdown",
            ),
        }
    }
}

/// Why a file change and its commit could not be carried out.
#[derive(Debug, PartialEq, Eq)]
pub enum MutationCommitError {
    File(FileError),
    WorkspaceMismatch,
    RepositoryMismatch,
    Runtime { message: String },
}

/// What a [`MutationCommitError`] says.
pub open spec fn mutation_commit_error_text(e: MutationCommitError) -> Seq<char> {
    match e {
        MutationCommitError::File(f) => file_error_text(f@),
        MutationCommitError::WorkspaceMismatch => "file operation belongs to a different workspace"@,
        MutationCommitError::RepositoryMismatch => "Git repository belongs to a different workspace"@,
        MutationCommitError::Runtime { message } => "background mutation worker panicked: "@
            + message@,
    }
}

impl MutationCommitError {
    /// What the error says.
    pub fn message(&self) -> (text: String)
        ensures
            text@ == mutation_commit_error_text(*self),
    {
        match self {
            MutationCommitError::File(f) => f.message(),
            MutationCommitError::WorkspaceMismatch => "file operation belongs to a different workspace".to_owned(),
            MutationCommitError::RepositoryMismatch => "Git repository belongs to a different workspace".to_owned(),
            MutationCommitError::Runtime { message } => concat(
                "background mutation worker panicked: ",
                message.as_str(),
            ),
        }
    }
}

/// A directory as the file system identifies it: its device and inode.
#[derive(Clone, Copy, PartialEq, Eq, Structural, Debug)]
pub struct DirectoryIdentity {
    pub device: u64,
    pub inode: u64,
}

/// The repository root a file operation works in.
pub open spec fn operation_root(operation: FileOperation) -> Seq<char> {
    match operation {
        FileOperation::Save { note, .. } => note.path_view().root_view(),
        FileOperation::CreateFile { root, .. } => root@,
        FileOperation::CreateFolder { root, .. } => root@,
        FileOperation::Rename { root, .. } => root@,
        FileOperation::Move { root, .. } => root@,
        FileOperation::Delete { root, .. } => root@,
    }
}

/// What checking a mutation's target finds: the operation must work in the
/// workspace's root, in the directory the workspace was opened on; the Git
/// repository must be that same directory.
pub open spec fn mutation_target_outcome(
    operation: FileOperation,
    workspace_root: Seq<char>,
    operation_identity: Option<DirectoryIdentity>,
    workspace_identity: DirectoryIdentity,
    repository_identity: DirectoryIdentity,
) -> Result<(), MutationCommitError> {
    if operation_root(operation) != workspace_root || operation_identity != Some(workspace_identity) {
        Err(MutationCommitError::WorkspaceMismatch)
    } else if repository_identity != workspace_identity {
        Err(MutationCommitError::RepositoryMismatch)
    } else {
        Ok(())
    }
}

/// Checks, before a mutation is applied and committed, that it belongs to the
/// workspace and its repository (see [`mutation_target_outcome`]).
pub fn check_mutation_target(
    operation: &FileOperation,
    workspace_root: &str,
    operation_identity: Option<DirectoryIdentity>,
    workspace_identity: DirectoryIdentity,
    repository_identity: DirectoryIdentity,
) -> (result: Result<(), MutationCommitError>)
    ensures
        result == mutation_target_outcome(
            *operation,
            workspace_root@,
            operation_identity,
            workspace_identity,
            repository_identity,
        ),
{
    let root = match operation {
        FileOperation::Save { note, .. } => note.path().root(),
        FileOperation::CreateFile { root, .. } => root.as_str(),
        FileOperation::CreateFolder { root, .. } => root.as_str(),
        FileOperation::Rename { root, .. } => root.as_str(),
        FileOperation::Move { root, .. } => root.as_str(),
        FileOperation::Delete { root, .. } => root.as_str(),
    };
    let same_identity = match operation_identity {
        Some(identity) => identity == workspace_identity,
        None => false,
    };
    if !crate::text::same_text(root, workspace_root) || !same_identity {
        return Err(MutationCommitError::WorkspaceMismatch);
    }
    if repository_identity != workspace_identity {
        return Err(MutationCommitError::RepositoryMismatch);
    }
    Ok(())
}

} // verus!
