//! The home screen: the registered repositories, the one selected, the
//! default one, and a note asked for on the command line that waits for a
//! repository to open it in.
use vstd::prelude::*;

use super::ids::RequestId;
use super::keymap::{HomeAction, RepositoryActionKind, RepositoryFormField};
use super::state::{RepositoryFormState, RuntimeFailure, RuntimeOperation};
use crate::catalog::{repo_views, RepoEntry, RepoView};
use crate::text::same_text;

verus! {

/// Whether a repository could be opened last time it was tried.
#[derive(Clone, Copy, PartialEq, Eq, Structural, Debug)]
pub enum RepositoryAvailability {
    Available,
    MissingOrInvalid,
}

/// Where the note asked for on the command line stands.
#[derive(Debug, PartialEq, Eq)]
pub enum DefaultChoiceState {
    /// No note waits, or a default repository will open it.
    NotNeeded,
    /// A note waits and no repository is the default yet: the one chosen
    /// becomes the default first.
    AwaitingSelection,
    /// The note is being opened in this repository.
    ResumingPendingNote { repository_id: u128, note: String },
}

/// The dialog a repository action of the home screen opens.
#[derive(Debug)]
pub enum RepositoryDialog {
    /// The form to create, register or rename, as it starts.
    Form { kind: RepositoryActionKind, form: RepositoryFormState },
    /// The question before making the repository the default.
    ConfirmSetDefault { repository: RepoEntry },
    /// The question before removing the registration.
    ConfirmUnregister { repository: RepoEntry },
}

/// The repository selected, when the selection is in range.
pub open spec fn selected_entry(home: HomeState) -> Option<RepoEntry> {
    match home.selected {
        Some(s) => if s < home.repositories@.len() {
            Some(home.repositories@[s as int])
        } else {
            None
        },
        None => None,
    }
}

/// What the home screen asks the application to do.
#[derive(Debug)]
pub enum HomeEffect {
    /// Open a repository's workspace (and the note, if any), answering the
    /// request.
    OpenWorkspace { request_id: RequestId, repository: RepoEntry, note: Option<String> },
    /// Record a repository as the default in the catalog.
    SetDefaultRepository { repository_id: u128 },
}

/// The catalog as it is after a change.
#[derive(Debug)]
pub struct CatalogSnapshot {
    pub repositories: Vec<RepoEntry>,
    pub default_repository: Option<u128>,
    pub selected_repository: Option<u128>,
}

/// A workspace open in flight.
#[derive(Debug)]
pub struct PendingOpen {
    pub request_id: RequestId,
    pub repository: RepoEntry,
}

/// The home screen.
pub struct HomeState {
    pub repositories: Vec<RepoEntry>,
    pub repository_availability: Vec<RepositoryAvailability>,
    pub selected: Option<usize>,
    pub default_repository: Option<u128>,
    pub default_choice: DefaultChoiceState,
    pub pending_note: Option<String>,
    pub pending_open: Option<PendingOpen>,
    pub catalog_failure: Option<String>,
    /// The failure of the last workspace open, until one succeeds.
    pub open_failure: Option<RuntimeFailure>,
    pub next_request_id: u64,
}

/// The first position of a repository with that identifier.
pub open spec fn position_of(repositories: Seq<RepoView>, id: u128) -> Option<int>
    decreases repositories.len(),
{
    if repositories.len() == 0 {
        None
    } else {
        match position_of(repositories.drop_last(), id) {
            Some(i) => Some(i),
            None => if repositories.last().id == id {
                Some(repositories.len() - 1)
            } else {
                None
            },
        }
    }
}

/// The repository to select: the given one when it is registered, otherwise
/// the first, if any.
pub open spec fn selection_for(repositories: Seq<RepoView>, id: Option<u128>) -> Option<int> {
    let found = match id {
        Some(i) => position_of(repositories, i),
        None => None,
    };
    match found {
        Some(p) => Some(p),
        None => if repositories.len() > 0 {
            Some(0)
        } else {
            None
        },
    }
}

/// A position in range is the position of the first repository with that
/// identifier, and none with it comes earlier.
proof fn lemma_position_of(repositories: Seq<RepoView>, id: u128)
    ensures
        match position_of(repositories, id) {
            Some(p) => 0 <= p < repositories.len() && repositories[p].id == id && forall|k: int|
                0 <= k < p ==> repositories[k].id != id,
            None => forall|k: int| 0 <= k < repositories.len() ==> repositories[k].id != id,
        },
    decreases repositories.len(),
{
    if repositories.len() > 0 {
        let d = repositories.drop_last();
        lemma_position_of(d, id);
        assert forall|k: int| 0 <= k < d.len() implies d[k] == repositories[k] by {}
    }
}

/// The position of the first repository with that identifier.
fn find_position(repositories: &Vec<RepoEntry>, id: u128) -> (position: Option<usize>)
    ensures
        match position {
            Some(p) => position_of(repo_views(repositories@), id) == Some(p as int) && p
                < repositories@.len(),
            None => position_of(repo_views(repositories@), id) is None,
        },
{
    let mut i: usize = 0;
    while i < repositories.len()
        invariant
            i <= repositories@.len(),
            forall|k: int| 0 <= k < i ==> repositories@[k].id != id,
        decreases repositories@.len() - i,
    {
        if repositories[i].id == id {
            proof {
                let views = repo_views(repositories@);
                lemma_position_of(views, id);
                assert(views[i as int] == repositories@[i as int]@);
                match position_of(views, id) {
                    Some(p) => {
                        assert(views[p].id == id);
                        if p < i {
                            assert(views[p] == repositories@[p]@);
                        }
                        assert(!(i < p));
                    },
                    None => {
                        assert(views[i as int].id == id);
                    },
                }
            }
            return Some(i);
        }
        i = i + 1;
    }
    proof {
        let views = repo_views(repositories@);
        lemma_position_of(views, id);
        if let Some(p) = position_of(views, id) {
            assert(views[p].id == id);
            assert(repositories@[p].id == id);
        }
    }
    None
}

/// The repository to select (see [`selection_for`]).
fn selection_in(repositories: &Vec<RepoEntry>, id: Option<u128>) -> (selected: Option<usize>)
    ensures
        match selected {
            Some(s) => selection_for(repo_views(repositories@), id) == Some(s as int) && s
                < repositories@.len(),
            None => selection_for(repo_views(repositories@), id) is None,
        },
{
    proof {
        lemma_position_of(repo_views(repositories@), match id {
            Some(i) => i,
            None => 0,
        });
    }
    let found = match id {
        Some(i) => find_position(repositories, i),
        None => None,
    };
    match found {
        Some(p) => Some(p),
        None => if repositories.len() > 0 {
            Some(0)
        } else {
            None
        },
    }
}

/// Every repository is available.
pub open spec fn all_available(availability: Seq<RepositoryAvailability>, count: nat) -> bool {
    availability.len() == count && forall|i: int|
        0 <= i < count ==> availability[i] == RepositoryAvailability::Available
}

fn available_for(count: usize) -> (availability: Vec<RepositoryAvailability>)
    ensures
        all_available(availability@, count as nat),
{
    let mut v: Vec<RepositoryAvailability> = Vec::new();
    let mut i: usize = 0;
    while i < count
        invariant
            i <= count,
            all_available(v@, i as nat),
        decreases count - i,
    {
        v.push(RepositoryAvailability::Available);
        i = i + 1;
    }
    v
}

/// The same registration: the same identifier, name and path.
pub open spec fn same_repository(a: RepoView, b: RepoView) -> bool {
    a.id == b.id && a.name == b.name && a.path == b.path
}

fn same_entry(a: &RepoEntry, b: &RepoEntry) -> (same: bool)
    ensures
        same == same_repository(a@, b@),
{
    a.id == b.id && same_text(a.name.as_str(), b.name.as_str()) && same_text(
        a.path.as_str(),
        b.path.as_str(),
    )
}

/// The registration is in the list.
pub open spec fn registered(repositories: Seq<RepoView>, r: RepoView) -> bool {
    exists|i: int| 0 <= i < repositories.len() && same_repository(#[trigger] repositories[i], r)
}

fn is_registered(repositories: &Vec<RepoEntry>, r: &RepoEntry) -> (found: bool)
    ensures
        found == registered(repo_views(repositories@), r@),
{
    let mut i: usize = 0;
    while i < repositories.len()
        invariant
            i <= repositories@.len(),
            forall|k: int| 0 <= k < i ==> !same_repository(repositories@[k]@, r@),
        decreases repositories@.len() - i,
    {
        if same_entry(&repositories[i], r) {
            assert(same_repository(repo_views(repositories@)[i as int], r@));
            return true;
        }
        i = i + 1;
    }
    proof {
        assert forall|k: int| 0 <= k < repo_views(repositories@).len() implies !same_repository(
            #[trigger] repo_views(repositories@)[k],
            r@,
        ) by {
            assert(repo_views(repositories@)[k] == repositories@[k]@);
        }
    }
    false
}

/// The selected position, when it is in range.
pub open spec fn selected_index(h: &HomeState) -> Option<int> {
    match h.selected {
        Some(s) => if s < h.repositories@.len() {
            Some(s as int)
        } else {
            None
        },
        None => None,
    }
}

/// Where a note waiting for a default opens after the catalog changed: the
/// new default and its position, when the note was waiting for one and the
/// default is registered.
pub open spec fn resume_target(o: &HomeState, snapshot: &CatalogSnapshot) -> Option<(u128, int)> {
    if o.default_choice == DefaultChoiceState::AwaitingSelection && o.pending_note is Some {
        match snapshot.default_repository {
            Some(id) => match position_of(repo_views(snapshot.repositories@), id) {
                Some(p) => Some((id, p)),
                None => None,
            },
            None => None,
        }
    } else {
        None
    }
}

/// What asking to open a repository leaves: the open is in flight under the
/// next request identifier, and the one effect asks for it.
pub open spec fn open_requested(
    o: &HomeState,
    n: &HomeState,
    repository: RepoView,
    note: Option<Seq<char>>,
    effects: Seq<HomeEffect>,
) -> bool {
    &&& effects.len() == 1
    &&& match effects[0] {
        HomeEffect::OpenWorkspace { request_id, repository: r, note: m } => {
            &&& request_id.value() == o.next_request_id
            &&& r@ == repository
            &&& match (m, note) {
                (Some(a), Some(b)) => a@ == b,
                (None, None) => true,
                _ => false,
            }
        },
        _ => false,
    }
    &&& match n.pending_open {
        Some(p) => p.request_id.value() == o.next_request_id && p.repository@ == repository,
        None => false,
    }
    &&& n.next_request_id == o.next_request_id + 1
}

impl HomeState {
    /// The home screen over the registered repositories: the default one
    /// selected (or else the first), all available, and a note from the
    /// command line waiting for a default repository when none is set.
    pub fn new(repositories: Vec<RepoEntry>, default_repository: Option<u128>, pending_note: Option<String>) -> (home:
        HomeState)
        ensures
            repo_views(home.repositories@) == repo_views(repositories@),
            all_available(home.repository_availability@, repositories@.len()),
            match home.selected {
                Some(s) => selection_for(repo_views(repositories@), default_repository) == Some(
                    s as int,
                ),
                None => selection_for(repo_views(repositories@), default_repository) is None,
            },
            home.default_repository == default_repository,
            home.default_choice == if pending_note is Some && default_repository is None {
                DefaultChoiceState::AwaitingSelection
            } else {
                DefaultChoiceState::NotNeeded
            },
            home.pending_note == pending_note,
            home.pending_open is None,
            home.catalog_failure is None,
            home.open_failure is None,
            home.next_request_id == 1,
    {
        let selected = selection_in(&repositories, default_repository);
        let repository_availability = available_for(repositories.len());
        let default_choice = if pending_note.is_some() && default_repository.is_none() {
            DefaultChoiceState::AwaitingSelection
        } else {
            DefaultChoiceState::NotNeeded
        };
        HomeState {
            repositories,
            repository_availability,
            selected,
            default_repository,
            default_choice,
            pending_note,
            pending_open: None,
            catalog_failure: None,
            open_failure: None,
            next_request_id: 1,
        }
    }

    /// Selects the first repository with ID `id`; nothing is selected when no
    /// repository has it.
    pub fn select_id(&mut self, id: u128)
        ensures
            match final(self).selected {
                Some(s) => position_of(repo_views(old(self).repositories@), id) == Some(s as int),
                None => position_of(repo_views(old(self).repositories@), id) is None,
            },
            *final(self) == (HomeState { selected: final(self).selected, ..*old(self) }),
    {
        self.selected = find_position(&self.repositories, id);
    }

    /// Selects the repository above, stopping at the first.
    pub fn up(&mut self)
        ensures
            final(self).selected == match old(self).selected {
                Some(s) => Some(if s > 0 { (s - 1) as usize } else { 0usize }),
                None => None,
            },
            *final(self) == (HomeState { selected: final(self).selected, ..*old(self) }),
    {
        match self.selected {
            Some(s) => {
                self.selected = Some(if s > 0 { s - 1 } else { 0 });
            },
            None => {},
        }
    }

    /// Selects the repository below, stopping at the last.
    pub fn down(&mut self)
        ensures
            final(self).selected == match old(self).selected {
                Some(s) => {
                    let last = if old(self).repositories@.len() > 0 {
                        old(self).repositories@.len() - 1
                    } else {
                        0
                    };
                    Some((if s + 1 < last { s + 1 } else { last }) as usize)
                },
                None => None,
            },
            *final(self) == (HomeState { selected: final(self).selected, ..*old(self) }),
    {
        match self.selected {
            Some(s) => {
                let len = self.repositories.len();
                let last = if len > 0 { len - 1 } else { 0 };
                self.selected = Some(if s < last && s + 1 < last { s + 1 } else { last });
            },
            None => {},
        }
    }

    /// The dialog a repository action opens. None while a workspace open is
    /// in flight, and none for the actions that move or open. Creating and
    /// registering start from an empty form on its name; renaming needs a
    /// selected repository and starts from its name; making the default and
    /// unregistering ask about the selected repository.
    pub fn repository_dialog(&self, action: HomeAction) -> (dialog: Option<RepositoryDialog>)
        ensures
            self.pending_open is Some ==> dialog is None,
            self.pending_open is None ==> match action {
                HomeAction::CreateRepository | HomeAction::RegisterRepository => dialog matches Some(
                    RepositoryDialog::Form { kind, form },
                ) && kind == (if action == HomeAction::CreateRepository {
                    RepositoryActionKind::Create
                } else {
                    RepositoryActionKind::Register
                }) && form.name@.len() == 0 && form.path@.len() == 0 && form.active_field
                    == RepositoryFormField::Name,
                HomeAction::RenameSelected => match selected_entry(*self) {
                    Some(r) => dialog matches Some(RepositoryDialog::Form { kind, form }) && kind
                        == RepositoryActionKind::Rename && form.name@ == r.name@ && form.path@.len()
                        == 0 && form.active_field == RepositoryFormField::Name,
                    None => dialog is None,
                },
                HomeAction::SetDefaultSelected => match selected_entry(*self) {
                    Some(r) => dialog matches Some(RepositoryDialog::ConfirmSetDefault { repository })
                        && repository@ == r@,
                    None => dialog is None,
                },
                HomeAction::UnregisterSelected => match selected_entry(*self) {
                    Some(r) => dialog matches Some(RepositoryDialog::ConfirmUnregister { repository })
                        && repository@ == r@,
                    None => dialog is None,
                },
                _ => dialog is None,
            },
    {
        if self.pending_open.is_some() {
            return None;
        }
        match action {
            HomeAction::CreateRepository => Some(
                RepositoryDialog::Form { kind: RepositoryActionKind::Create, form: RepositoryFormState::new() },
            ),
            HomeAction::RegisterRepository => Some(
                RepositoryDialog::Form { kind: RepositoryActionKind::Register, form: RepositoryFormState::new() },
            ),
            HomeAction::RenameSelected => match self.selected_repository() {
                Some(r) => {
                    let mut form = RepositoryFormState::new();
                    form.set_input(r.name);
                    Some(RepositoryDialog::Form { kind: RepositoryActionKind::Rename, form })
                },
                None => None,
            },
            HomeAction::SetDefaultSelected => match self.selected_repository() {
                Some(r) => Some(RepositoryDialog::ConfirmSetDefault { repository: r }),
                None => None,
            },
            HomeAction::UnregisterSelected => match self.selected_repository() {
                Some(r) => Some(RepositoryDialog::ConfirmUnregister { repository: r }),
                None => None,
            },
            _ => None,
        }
    }

    /// The selected repository, if the selection is in range.
    fn selected_repository(&self) -> (repository: Option<RepoEntry>)
        ensures
            match repository {
                Some(r) => self.selected matches Some(s) && s < self.repositories@.len() && r@
                    == self.repositories@[s as int]@,
                None => !(self.selected matches Some(s) && s < self.repositories@.len()),
            },
    {
        match self.selected {
            Some(s) => if s < self.repositories.len() {
                Some(self.repositories[s].clone())
            } else {
                None
            },
            None => None,
        }
    }

    fn request_open(&mut self, repository: RepoEntry, note: Option<String>) -> (effects: Vec<HomeEffect>)
        requires
            old(self).next_request_id < u64::MAX,
        ensures
            open_requested(
                old(self),
                final(self),
                repository@,
                match note {
                    Some(n) => Some(n@),
                    None => None,
                },
                effects@,
            ),
            *final(self) == (HomeState {
                pending_open: final(self).pending_open,
                next_request_id: final(self).next_request_id,
                ..*old(self)
            }),
    {
        let request_id = RequestId::new(self.next_request_id);
        self.next_request_id = self.next_request_id + 1;
        self.pending_open = Some(PendingOpen { request_id, repository: repository.clone() });
        let mut effects = Vec::new();
        effects.push(HomeEffect::OpenWorkspace { request_id, repository, note });
        effects
    }

    /// Enter on the selected repository. With a note waiting and no default
    /// yet, the repository is first recorded as the default and nothing
    /// opens. Otherwise it opens, with the waiting note if any, which it then
    /// resumes.
    pub fn open_selected(&mut self) -> (effects: Vec<HomeEffect>)
        requires
            old(self).next_request_id < u64::MAX,
        ensures
            match old(self).selected {
                Some(s) if s < old(self).repositories@.len() => {
                    let r = old(self).repositories@[s as int]@;
                    match old(self).pending_note {
                        Some(note) => if old(self).default_repository is None {
                            effects@.len() == 1 && (match effects@[0] {
                                HomeEffect::SetDefaultRepository { repository_id } => repository_id
                                    == r.id,
                                _ => false,
                            }) && *final(self) == *old(self)
                        } else {
                            &&& open_requested(old(self), final(self), r, Some(note@), effects@)
                            &&& final(self).default_choice matches DefaultChoiceState::ResumingPendingNote {
                                repository_id,
                                note: n,
                            } && repository_id == r.id && n@ == note@
                            &&& *final(self) == (HomeState {
                                pending_open: final(self).pending_open,
                                next_request_id: final(self).next_request_id,
                                default_choice: final(self).default_choice,
                                ..*old(self)
                            })
                        },
                        None => {
                            &&& open_requested(old(self), final(self), r, None, effects@)
                            &&& *final(self) == (HomeState {
                                pending_open: final(self).pending_open,
                                next_request_id: final(self).next_request_id,
                                ..*old(self)
                            })
                        },
                    }
                },
                _ => effects@.len() == 0 && *final(self) == *old(self),
            },
    {
        let repository = match self.selected_repository() {
            Some(r) => r,
            None => {
                return Vec::new();
            },
        };
        match &self.pending_note {
            Some(note) => {
                if self.default_repository.is_none() {
                    let mut effects = Vec::new();
                    effects.push(HomeEffect::SetDefaultRepository { repository_id: repository.id });
                    return effects;
                }
                let note = note.clone();
                self.default_choice = DefaultChoiceState::ResumingPendingNote {
                    repository_id: repository.id,
                    note: note.clone(),
                };
                self.request_open(repository, Some(note))
            },
            None => self.request_open(repository, None),
        }
    }

    /// Chooses the selected repository as the default for a waiting note:
    /// only records it in the catalog; nothing opens until the catalog has
    /// changed. Refused while an open is in flight, without a selection, or
    /// without a waiting note.
    pub fn choose_selected_as_default(&mut self) -> (effects: Vec<HomeEffect>)
        ensures
            *final(self) == *old(self),
            match (old(self).pending_open, old(self).pending_note, selected_index(old(self))) {
                (None, Some(_), Some(s)) => {
                    &&& effects@.len() == 1
                    &&& match effects@[0] {
                        HomeEffect::SetDefaultRepository { repository_id } => repository_id == old(
                            self,
                        ).repositories@[s].id,
                        _ => false,
                    }
                },
                _ => effects@.len() == 0,
            },
    {
        if self.pending_open.is_some() || self.pending_note.is_none() {
            return Vec::new();
        }
        match self.selected_repository() {
            Some(r) => {
                let mut effects = Vec::new();
                effects.push(HomeEffect::SetDefaultRepository { repository_id: r.id });
                effects
            },
            None => Vec::new(),
        }
    }

    /// The catalog changed: the list, the default and the selection follow
    /// it, an open in flight whose registration is gone is dropped, and a
    /// note that waited for a default opens in the new default.
    pub fn catalog_changed(&mut self, snapshot: CatalogSnapshot) -> (effects: Vec<HomeEffect>)
        requires
            old(self).next_request_id < u64::MAX,
        ensures
            repo_views(final(self).repositories@) == repo_views(snapshot.repositories@),
            all_available(final(self).repository_availability@, snapshot.repositories@.len()),
            final(self).default_repository == snapshot.default_repository,
            match final(self).selected {
                Some(s) => selection_for(
                    repo_views(snapshot.repositories@),
                    snapshot.selected_repository,
                ) == Some(s as int),
                None => selection_for(
                    repo_views(snapshot.repositories@),
                    snapshot.selected_repository,
                ) is None,
            },
            final(self).pending_note == old(self).pending_note,
            final(self).catalog_failure is None,
            ({
                match resume_target(old(self), &snapshot) {
                    Some((id, p)) => {
                    let note = old(self).pending_note->0@;
                    &&& open_requested(
                        old(self),
                        final(self),
                        snapshot.repositories@[p]@,
                        Some(note),
                        effects@,
                    )
                    &&& final(self).default_choice matches DefaultChoiceState::ResumingPendingNote {
                        repository_id,
                        note: n,
                    } && repository_id == id && n@ == note
                },
                None => {
                    &&& effects@.len() == 0
                    &&& final(self).default_choice == old(self).default_choice
                    &&& final(self).next_request_id == old(self).next_request_id
                    &&& match old(self).pending_open {
                        Some(p) => if registered(repo_views(snapshot.repositories@), p.repository@) {
                            final(self).pending_open == old(self).pending_open
                        } else {
                            final(self).pending_open is None
                        },
                        None => final(self).pending_open is None,
                    }
                },
                }
            }),
    {
        let selected = selection_in(&snapshot.repositories, snapshot.selected_repository);
        let keep = match &self.pending_open {
            Some(p) => is_registered(&snapshot.repositories, &p.repository),
            None => false,
        };
        if !keep {
            self.pending_open = None;
        }
        self.repository_availability = available_for(snapshot.repositories.len());
        self.repositories = snapshot.repositories;
        self.default_repository = snapshot.default_repository;
        self.selected = selected;
        self.catalog_failure = None;
        let awaiting = match self.default_choice {
            DefaultChoiceState::AwaitingSelection => true,
            _ => false,
        };
        if !awaiting {
            return Vec::new();
        }
        let note = match &self.pending_note {
            Some(n) => n.clone(),
            None => {
                return Vec::new();
            },
        };
        let id = match self.default_repository {
            Some(id) => id,
            None => {
                return Vec::new();
            },
        };
        let position = match find_position(&self.repositories, id) {
            Some(p) => p,
            None => {
                return Vec::new();
            },
        };
        let repository = self.repositories[position].clone();
        self.default_choice = DefaultChoiceState::ResumingPendingNote {
            repository_id: id,
            note: note.clone(),
        };
        self.request_open(repository, Some(note))
    }

    /// The catalog could not be saved: the failure is recorded and nothing
    /// else changes (the default stays what it was, the note keeps waiting).
    pub fn catalog_failed(&mut self, message: String)
        ensures
            *final(self) == (HomeState { catalog_failure: Some(message), ..*old(self) }),
    {
        self.catalog_failure = Some(message);
    }

    /// The workspace asked for opened. When it answers the open in flight
    /// and its registration still stands, the open is done, the repository
    /// is available, and a note that was being resumed there stops waiting.
    pub fn workspace_opened(&mut self, request_id: RequestId, repository: &RepoEntry) -> (accepted: bool)
        ensures
            accepted == (old(self).pending_open matches Some(p) && p.request_id.value()
                == request_id.value() && same_repository(p.repository@, repository@)
                && registered(repo_views(old(self).repositories@), repository@)),
            !accepted ==> *final(self) == *old(self),
            accepted ==> {
                &&& final(self).pending_open is None
                &&& match old(self).default_choice {
                    DefaultChoiceState::ResumingPendingNote { repository_id, .. } => if repository_id
                        == repository.id {
                        final(self).pending_note is None && final(self).default_choice
                            == DefaultChoiceState::NotNeeded
                    } else {
                        final(self).pending_note == old(self).pending_note
                            && final(self).default_choice == old(self).default_choice
                    },
                    _ => final(self).pending_note == old(self).pending_note
                        && final(self).default_choice == old(self).default_choice,
                }
                &&& final(self).repositories == old(self).repositories
                &&& final(self).default_repository == old(self).default_repository
                &&& final(self).open_failure is None
            },
    {
        let matches = match &self.pending_open {
            Some(p) => p.request_id.get() == request_id.get() && same_entry(&p.repository, repository),
            None => false,
        };
        if !matches || !is_registered(&self.repositories, repository) {
            return false;
        }
        self.pending_open = None;
        self.open_failure = None;
        let resumed = match &self.default_choice {
            DefaultChoiceState::ResumingPendingNote { repository_id, .. } => *repository_id
                == repository.id,
            _ => false,
        };
        if resumed {
            self.pending_note = None;
            self.default_choice = DefaultChoiceState::NotNeeded;
        }
        true
    }

    /// Opening a workspace failed. When it was the open in flight, the open
    /// is done, the repository is marked missing or invalid, and the failure
    /// is kept (replacing an earlier one).
    pub fn open_failed(&mut self, request_id: RequestId, message: String) -> (accepted: bool)
        ensures
            accepted == (old(self).pending_open matches Some(p) && p.request_id.value()
                == request_id.value()),
            !accepted ==> *final(self) == *old(self),
            accepted ==> {
                &&& final(self).pending_open is None
                &&& final(self).repository_availability@.len()
                    == old(self).repository_availability@.len()
                &&& forall|i: int|
                    0 <= i < old(self).repository_availability@.len() ==> (#[trigger] final(self).repository_availability@[i])
                        == if i < old(self).repositories@.len()
                        && old(self).repositories@[i].id == old(self).pending_open->0.repository.id {
                        RepositoryAvailability::MissingOrInvalid
                    } else {
                        old(self).repository_availability@[i]
                    }
                &&& final(self).repositories == old(self).repositories
                &&& final(self).open_failure == Some(
                    RuntimeFailure {
                        request_id: Some(request_id),
                        repository_id: old(self).pending_open->0.repository.id,
                        operation: RuntimeOperation::OpenWorkspace,
                        message,
                    },
                )
            },
    {
        let id = match &self.pending_open {
            Some(p) => if p.request_id.get() == request_id.get() {
                p.repository.id
            } else {
                return false;
            },
            None => {
                return false;
            },
        };
        self.pending_open = None;
        let n = self.repository_availability.len();
        let mut i: usize = 0;
        let ghost before = self.repository_availability@;
        while i < n
            invariant
                n == self.repository_availability@.len(),
                n == before.len(),
                before == old(self).repository_availability@,
                self.repositories == old(self).repositories,
                self.pending_open is None,
                id == old(self).pending_open->0.repository.id,
                i <= n,
                forall|k: int|
                    0 <= k < n ==> (#[trigger] self.repository_availability@[k]) == if k < i && k
                        < self.repositories@.len() && self.repositories@[k].id == id {
                        RepositoryAvailability::MissingOrInvalid
                    } else {
                        before[k]
                    },
            decreases n - i,
        {
            if i < self.repositories.len() && self.repositories[i].id == id {
                self.repository_availability.set(i, RepositoryAvailability::MissingOrInvalid);
            }
            i = i + 1;
        }
        self.open_failure = Some(
            RuntimeFailure {
                request_id: Some(request_id),
                repository_id: id,
                operation: RuntimeOperation::OpenWorkspace,
                message,
            },
        );
        true
    }

    /// Whether a failure of the home screen is unresolved: the catalog's, or
    /// a workspace open's.
    pub fn has_unresolved_failures(&self) -> (unresolved: bool)
        ensures
            unresolved == (self.catalog_failure is Some || self.open_failure is Some),
    {
        self.catalog_failure.is_some() || self.open_failure.is_some()
    }
}

} // verus!
