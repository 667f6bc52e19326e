//! The runtime's own decisions: how the terminal is entered and left, which
//! background job runs next, what the driver reports when background work
//! cannot be waited for, and how the repository catalog is changed.
use vstd::prelude::*;

use crate::app::home::{position_of, selection_for, HomeState};
use crate::catalog::{repo_views, Catalog, RepoEntry};
use crate::cli::Launch;

pub mod catalog;
pub mod queue;

verus! {

/// An error of std's input and output, carried through as it came.
#[verifier::external_type_specification]
#[verifier::external_body]
pub struct ExIoError(std::io::Error);

/// The terminal modes the runtime enters and leaves.
pub trait TerminalLifecycle {
    fn enter(&mut self) -> Result<(), std::io::Error>;

    fn restore(&mut self) -> Result<(), std::io::Error>;
}

/// Holds an entered terminal and restores it once.
pub struct RestorationGuard<L: TerminalLifecycle> {
    lifecycle: Option<L>,
}

impl<L: TerminalLifecycle> RestorationGuard<L> {
    /// The guard still holds a terminal to restore.
    pub closed spec fn is_armed(&self) -> bool {
        self.lifecycle is Some
    }

    /// The guard holds this terminal, to restore it.
    pub closed spec fn holds(&self, lifecycle: L) -> bool {
        self.lifecycle == Some(lifecycle)
    }

    /// What entering gave: when it succeeded, a guard holding the entered
    /// terminal; when it failed, the terminal back (to be restored) with the
    /// error, as it came.
    pub fn after_enter(lifecycle: L, entered: Result<(), std::io::Error>) -> (outcome: Result<
        Self,
        (L, std::io::Error),
    >)
        ensures
            match entered {
                Ok(()) => outcome matches Ok(guard) && guard.holds(lifecycle) && guard.is_armed(),
                Err(e) => outcome matches Err((l, e2)) && l == lifecycle && e2 == e,
            },
    {
        match entered {
            Ok(()) => Ok(RestorationGuard { lifecycle: Some(lifecycle) }),
            Err(error) => Err((lifecycle, error)),
        }
    }

    /// Enters the terminal modes (see [`RestorationGuard::after_enter`]); when
    /// entering fails the modes are restored at once (a failure there is
    /// dropped) and the error of entering returned. Whether entering succeeds
    /// is up to the lifecycle.
    pub fn enter(lifecycle: L) -> (result: Result<Self, std::io::Error>)
        ensures
            result matches Ok(guard) ==> guard.is_armed(),
    {
        let mut lifecycle = lifecycle;
        let entered = lifecycle.enter();
        match Self::after_enter(lifecycle, entered) {
            Ok(guard) => Ok(guard),
            Err((lifecycle, error)) => {
                let mut lifecycle = lifecycle;
                let _ = lifecycle.restore();
                Err(error)
            },
        }
    }

    /// Restores the terminal modes, once: the guard is used up. A guard that
    /// holds no terminal restores nothing and succeeds; otherwise the result is
    /// what the lifecycle's own restoring gives.
    pub fn restore(self) -> (result: Result<(), std::io::Error>)
        ensures
            !self.is_armed() ==> result is Ok,
    {
        let mut guard = self;
        guard.restore_inner()
    }

    fn restore_inner(&mut self) -> (result: Result<(), std::io::Error>)
        ensures
            !final(self).is_armed(),
            !old(self).is_armed() ==> result is Ok,
    {
        match self.lifecycle.take() {
            Some(lifecycle) => {
                let mut lifecycle = lifecycle;
                lifecycle.restore()
            },
            None => Ok(()),
        }
    }
}

/// One of the keyboard enhancements a terminal can report keys with.
#[derive(Clone, Copy, PartialEq, Eq, Structural, Debug)]
pub enum KeyboardFlag {
    DisambiguateEscapeCodes,
    ReportAllKeysAsEscapeCodes,
    ReportAlternateKeys,
    ReportEventTypes,
}

/// A set of keyboard enhancements.
#[derive(Clone, Copy, PartialEq, Eq, Structural, Debug)]
pub struct KeyboardFlags {
    pub disambiguate_escape_codes: bool,
    pub report_all_keys_as_escape_codes: bool,
    pub report_alternate_keys: bool,
    pub report_event_types: bool,
}

/// Every enhancement the runtime asks a terminal for.
pub open spec fn all_keyboard_flags() -> KeyboardFlags {
    KeyboardFlags {
        disambiguate_escape_codes: true,
        report_all_keys_as_escape_codes: true,
        report_alternate_keys: true,
        report_event_types: true,
    }
}

impl KeyboardFlags {
    /// The set holds `flag`.
    pub open spec fn has(self, flag: KeyboardFlag) -> bool {
        match flag {
            KeyboardFlag::DisambiguateEscapeCodes => self.disambiguate_escape_codes,
            KeyboardFlag::ReportAllKeysAsEscapeCodes => self.report_all_keys_as_escape_codes,
            KeyboardFlag::ReportAlternateKeys => self.report_alternate_keys,
            KeyboardFlag::ReportEventTypes => self.report_event_types,
        }
    }

    /// Whether the set holds `flag`.
    pub fn contains(&self, flag: KeyboardFlag) -> (held: bool)
        ensures
            held == self.has(flag),
    {
        match flag {
            KeyboardFlag::DisambiguateEscapeCodes => self.disambiguate_escape_codes,
            KeyboardFlag::ReportAllKeysAsEscapeCodes => self.report_all_keys_as_escape_codes,
            KeyboardFlag::ReportAlternateKeys => self.report_alternate_keys,
            KeyboardFlag::ReportEventTypes => self.report_event_types,
        }
    }
}

/// Whether the runtime pushed keyboard enhancements that it must pop again.
#[derive(Debug, Default)]
pub struct KeyboardEnhancementState {
    pushed: bool,
}

impl KeyboardEnhancementState {
    /// Enhancements were pushed and not popped yet.
    pub closed spec fn owes_pop(&self) -> bool {
        self.pushed
    }

    /// Nothing pushed yet.
    pub fn new() -> (state: Self)
        ensures
            !state.owes_pop(),
    {
        KeyboardEnhancementState { pushed: false }
    }

    /// The enhancements to push, given whether the terminal said it supports
    /// them: all of them when it does, none when it does not or the probe failed.
    pub fn requested_flags<E>(probe: Result<bool, E>) -> (flags: Option<KeyboardFlags>)
        ensures
            flags == (if probe matches Ok(true) {
                Some(all_keyboard_flags())
            } else {
                None
            }),
    {
        match probe {
            Ok(true) => Some(
                KeyboardFlags {
                    disambiguate_escape_codes: true,
                    report_all_keys_as_escape_codes: true,
                    report_alternate_keys: true,
                    report_event_types: true,
                },
            ),
            _ => None,
        }
    }

    /// Records that the enhancements were pushed.
    pub fn mark_pushed(&mut self)
        ensures
            final(self).owes_pop(),
    {
        self.pushed = true;
    }

    /// Whether a pop is owed; after the call none is.
    pub fn take_pop(&mut self) -> (owed: bool)
        ensures
            owed == old(self).owes_pop(),
            !final(self).owes_pop(),
    {
        let owed = self.pushed;
        self.pushed = false;
        owed
    }
}

/// Pushes the keyboard enhancements when the probe says the terminal supports
/// them. The state owes a pop only after a push that succeeded; a failed push
/// is returned as it came.
pub fn enable_keyboard_enhancement<E, F: FnOnce(KeyboardFlags) -> Result<(), E>>(
    state: &mut KeyboardEnhancementState,
    probe: Result<bool, E>,
    push: F,
) -> (result: Result<(), E>)
    requires
        probe matches Ok(true) ==> call_requires(push, (all_keyboard_flags(),)),
    ensures
        probe matches Ok(true) ==> call_ensures(push, (all_keyboard_flags(),), result),
        probe matches Ok(true) ==> final(state).owes_pop() == (old(state).owes_pop()
            || result is Ok),
        !(probe matches Ok(true)) ==> result is Ok && final(state).owes_pop()
            == old(state).owes_pop(),
{
    let flags = match KeyboardEnhancementState::requested_flags(probe) {
        Some(flags) => flags,
        None => return Ok(()),
    };
    let pushed = push(flags);
    if pushed.is_ok() {
        state.mark_pushed();
    }
    pushed
}

/// Leaves the terminal modes: pops the keyboard enhancements if they are
/// owed, then restores the screen, then the raw mode. Every step runs whatever
/// the earlier ones gave; the result is the first failure in that order.
pub fn restore_terminal_modes<
    E,
    P: FnOnce() -> Result<(), E>,
    S: FnOnce() -> Result<(), E>,
    R: FnOnce() -> Result<(), E>,
>(
    state: &mut KeyboardEnhancementState,
    pop_keyboard: P,
    restore_screen: S,
    restore_raw: R,
) -> (result: Result<(), E>)
    requires
        old(state).owes_pop() ==> call_requires(pop_keyboard, ()),
        call_requires(restore_screen, ()),
        call_requires(restore_raw, ()),
    ensures
        !final(state).owes_pop(),
        exists|keyboard: Result<(), E>, screen: Result<(), E>, raw: Result<(), E>|
            {
                &&& (if old(state).owes_pop() {
                    call_ensures(pop_keyboard, (), keyboard)
                } else {
                    keyboard is Ok
                })
                &&& call_ensures(restore_screen, (), screen)
                &&& call_ensures(restore_raw, (), raw)
                &&& result == first_failure(keyboard, first_failure(screen, raw))
            },
{
    let keyboard_result = if state.take_pop() {
        pop_keyboard()
    } else {
        Ok(())
    };
    let screen_result = restore_screen();
    let raw_result = restore_raw();
    let rest = and_then_result(screen_result, raw_result);
    and_then_result(keyboard_result, rest)
}

/// The first of two results that failed, else the second.
pub open spec fn first_failure<E>(first: Result<(), E>, second: Result<(), E>) -> Result<(), E> {
    match first {
        Ok(()) => second,
        Err(e) => Err(e),
    }
}

fn and_then_result<E>(first: Result<(), E>, second: Result<(), E>) -> (result: Result<(), E>)
    ensures
        result == first_failure(first, second),
{
    match first {
        Ok(()) => second,
        Err(e) => Err(e),
    }
}

/// The worker a background job goes to.
#[derive(Clone, Copy, PartialEq, Eq, Structural, Debug)]
pub enum WorkerKind {
    OpenWorkspace,
    LoadNote,
    Mutation,
    RetryCommit,
    Push,
    Catalog,
    ClipboardRead,
    ClipboardWrite,
}

/// Told of each job just before a worker runs it.
pub trait WorkerHook {
    fn before_execute(&self, kind: WorkerKind) {
    }
}

/// Why the driver stopped waiting for background work.
#[derive(Clone, Copy, PartialEq, Eq, Structural, Debug)]
pub enum RuntimeDriverError {
    BackgroundTimeout,
    CompletionChannelClosed,
}

/// What a driver error says.
pub open spec fn driver_error_text(error: RuntimeDriverError) -> Seq<char> {
    match error {
        RuntimeDriverError::BackgroundTimeout => "timed out waiting for background work"@,
        RuntimeDriverError::CompletionChannelClosed => "the supervised worker completion channel closed"@,
    }
}

impl RuntimeDriverError {
    /// What the error says.
    pub fn message(&self) -> (text: String)
        ensures
            text@ == driver_error_text(*self),
    {
        match self {
            RuntimeDriverError::BackgroundTimeout => "timed out waiting for background work".to_owned(),
            RuntimeDriverError::CompletionChannelClosed => "the supervised worker completion channel closed".to_owned(),
        }
    }
}

/// The home screen a launch starts on, over the catalog's repositories with
/// its default, and the repository to open at once, if any. A launch on the
/// home screen selects the repository it names (none, if no repository has
/// that ID), else the default one, else the first.
pub fn initial_home(catalog: &Catalog, launch: Launch) -> (result: (HomeState, Option<(RepoEntry, Option<String>)>))
    ensures
        repo_views(result.0.repositories@) == catalog@.repos,
        result.0.default_repository == catalog@.default_repo_id,
        result.0.pending_open is None,
        result.0.catalog_failure is None,
        result.0.open_failure is None,
        result.0.next_request_id == 1,
        match launch {
            Launch::Home { selected_repository, pending_note } => {
                &&& result.1 is None
                &&& result.0.pending_note == pending_note
                &&& match selected_repository {
                    Some(id) => match result.0.selected {
                        Some(s) => position_of(catalog@.repos, id) == Some(s as int),
                        None => position_of(catalog@.repos, id) is None,
                    },
                    None => match result.0.selected {
                        Some(s) => selection_for(catalog@.repos, catalog@.default_repo_id) == Some(s as int),
                        None => selection_for(catalog@.repos, catalog@.default_repo_id) is None,
                    },
                }
            },
            Launch::Repository { repository, note } => {
                &&& result.0.pending_note is None
                &&& match result.1 {
                    Some((r, n)) => r == repository && n == note,
                    None => false,
                }
                &&& match result.0.selected {
                    Some(s) => selection_for(catalog@.repos, catalog@.default_repo_id) == Some(s as int),
                    None => selection_for(catalog@.repos, catalog@.default_repo_id) is None,
                }
            },
        },
{
    let repositories = copy_entries(catalog.repositories());
    match launch {
        Launch::Home { selected_repository, pending_note } => {
            let mut home = HomeState::new(repositories, catalog.default_repository_id(), pending_note);
            match selected_repository {
                Some(id) => home.select_id(id),
                None => {},
            }
            (home, None)
        },
        Launch::Repository { repository, note } => {
            let home = HomeState::new(repositories, catalog.default_repository_id(), None);
            (home, Some((repository, note)))
        },
    }
}

/// A copy of the entries.
pub(crate) fn copy_entries(entries: &[RepoEntry]) -> (copy: Vec<RepoEntry>)
    ensures
        repo_views(copy@) == repo_views(entries@),
{
    let mut copy: Vec<RepoEntry> = Vec::new();
    let mut i: usize = 0;
    while i < entries.len()
        invariant
            i <= entries@.len(),
            repo_views(copy@) =~= repo_views(entries@).take(i as int),
        decreases entries@.len() - i,
    {
        let entry = entries[i].clone();
        let ghost before = copy@;
        copy.push(entry);
        proof {
            assert(repo_views(copy@) =~= repo_views(before).push(entry@));
            assert(repo_views(entries@)[i as int] == entries@[i as int]@);
            assert(repo_views(entries@).take(i + 1) =~= repo_views(entries@).take(i as int).push(
                entries@[i as int]@,
            ));
        }
        i = i + 1;
    }
    proof {
        assert(repo_views(entries@).take(entries@.len() as int) =~= repo_views(entries@));
    }
    copy
}

} // verus!
