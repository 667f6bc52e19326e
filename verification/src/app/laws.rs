//! What holds of the session across a save and its result: a save that comes
//! back without newer edits leaves the note clean, edits made while it was in
//! flight stay unsaved, and after a commit failed on a written file Ctrl+S
//! retries the commit alone.
use vstd::prelude::*;

use super::mutation::PendingMutationKind;
use super::ids::MutationId;
use super::session::{
    ignored, is_current,
    commit_failed, editor_dirty, global_saved, mutation_applied_result, saved, SessionEffect,
    WorkspaceSession,
};
use crate::git::{CommitIntent, CommitOutcome};
use crate::workspace::files::{FileOutcome, LoadedNote};

verus! {

/// A save that comes back written and committed, with no edit made while it
/// was in flight, leaves the editor clean: the note on disk is the text that
/// was saved. With nothing waiting, nothing else is in flight afterwards.
pub proof fn law_completed_save_leaves_editor_clean(
    before: &WorkspaceSession,
    during: &WorkspaceSession,
    after: &WorkspaceSession,
    overwrite: bool,
    save_effects: Seq<SessionEffect>,
    note: LoadedNote,
    commit: CommitOutcome,
    effects: Seq<SessionEffect>,
)
    requires
        before.pending_mutation is None,
        editor_dirty(before),
        saved(before, during, save_effects, overwrite),
        note.text_view() == before.editor->0@.text,
        mutation_applied_result(during, after, FileOutcome::Saved(note), commit, None, effects),
    ensures
        !editor_dirty(after),
        before.pending_intent is None ==> after.pending_mutation is None && effects.len() == 0,
{
}

/// Edits made while a save was in flight stay unsaved: when the save comes
/// back with the snapshot it wrote and the editor's text differs from it, the
/// editor is still dirty, nothing else is started, and a waiting intent keeps
/// waiting.
pub proof fn law_newer_edits_stay_unsaved(
    o: &WorkspaceSession,
    n: &WorkspaceSession,
    note: LoadedNote,
    commit: CommitOutcome,
    effects: Seq<SessionEffect>,
)
    requires
        o.pending_mutation matches Some(p) && p.kind is Save,
        o.pending_mutation->0.save matches Some(ps) && note.text_view() == ps.snapshot@,
        o.editor matches Some(e) && e@.text != o.pending_mutation->0.save->0.snapshot@,
        mutation_applied_result(o, n, FileOutcome::Saved(note), commit, None, effects),
    ensures
        editor_dirty(n),
        effects.len() == 0,
        n.pending_mutation is None,
        n.pending_intent == o.pending_intent,
{
}

/// Once a commit failed on a written file of the open repository, Ctrl+S
/// writes nothing: its one effect retries the commit with the same intent.
pub proof fn law_commit_failure_then_save_retries_commit(
    o: &WorkspaceSession,
    n: &WorkspaceSession,
    intent: CommitIntent,
    message: Seq<char>,
    effects: Seq<SessionEffect>,
)
    requires
        o.pending_mutation is None,
        commit_failed(o, o.repository_id, intent, message),
        global_saved(o, n, effects),
    ensures
        effects.len() == 1,
        effects[0] matches SessionEffect::RetryCommit { intent: i, .. } && i == intent,
        n.pending_mutation matches Some(p) && p.kind == PendingMutationKind::RetryCommit
            && p.intent == intent,
        n.editor == o.editor,
{
}

/// A result that is not the mutation in flight's (another mutation, another
/// repository, another root) changes nothing: the mutation in flight stays, and
/// its own result is still taken when it comes.
pub proof fn law_stale_result_keeps_the_mutation_in_flight(
    before: &WorkspaceSession,
    after: &WorkspaceSession,
    effects: Seq<SessionEffect>,
    mutation_id: MutationId,
    repository_id: u128,
    repository_root: Seq<char>,
    current_id: MutationId,
    current_repository: u128,
    current_root: Seq<char>,
)
    requires
        before.pending_mutation is Some,
        !is_current(before.pending_mutation, mutation_id, repository_id, repository_root),
        ignored(before, after, effects),
        is_current(before.pending_mutation, current_id, current_repository, current_root),
    ensures
        after.pending_mutation == before.pending_mutation,
        effects.len() == 0,
        is_current(after.pending_mutation, current_id, current_repository, current_root),
        after.editor == before.editor,
        after.dialog == before.dialog,
        after.commit_status == before.commit_status,
{
}

/// While a mutation is in flight, navigating (quitting included), answering
/// the unsaved-changes question and asking for another file change are refused:
/// the session is left as it was, with the same intent and load, and nothing
/// is asked for.
pub proof fn law_busy_session_refuses_navigation(
    before: &WorkspaceSession,
    after: &WorkspaceSession,
    effects: Seq<SessionEffect>,
)
    requires
        before.pending_mutation is Some,
        ignored(before, after, effects),
    ensures
        effects.len() == 0,
        after.pending_intent == before.pending_intent,
        after.pending_load == before.pending_load,
        after.pending_mutation == before.pending_mutation,
        after.dialog == before.dialog,
{
}

} // verus!
