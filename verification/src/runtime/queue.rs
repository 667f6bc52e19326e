//! The queue of background jobs: reads of a repository coalesce, and jobs of
//! one repository root run one at a time.
use std::collections::VecDeque;

use vstd::prelude::*;

use crate::text::same_text;

verus! {

/// A job waiting for an effect worker: its number, the repository root it
/// works in (if any), and whether it only reads that repository (opening it or
/// loading a note), so that a newer read of the same root makes it moot.
#[derive(Debug)]
pub struct QueuedJob {
    pub id: u64,
    pub root: Option<String>,
    pub coalescible: bool,
}

/// [`QueuedJob`] as mathematical values.
pub struct JobView {
    pub id: u64,
    pub root: Option<Seq<char>>,
    pub coalescible: bool,
}

impl View for QueuedJob {
    type V = JobView;

    open spec fn view(&self) -> JobView {
        JobView {
            id: self.id,
            root: match self.root {
                Some(r) => Some(r@),
                None => None,
            },
            coalescible: self.coalescible,
        }
    }
}

/// A new read makes a pending one moot: both only read, the same root.
pub open spec fn supersedes(new: JobView, pending: JobView) -> bool {
    new.coalescible && pending.coalescible && pending.root == new.root
}

/// The pending jobs that a new job leaves in the queue, in order.
pub open spec fn kept_jobs(pending: Seq<JobView>, new: JobView) -> Seq<JobView>
    decreases pending.len(),
{
    if pending.len() == 0 {
        pending
    } else {
        let rest = kept_jobs(pending.drop_last(), new);
        if supersedes(new, pending.last()) {
            rest
        } else {
            rest.push(pending.last())
        }
    }
}

/// The numbers of the pending jobs that a new job makes moot, in order.
pub open spec fn superseded_ids(pending: Seq<JobView>, new: JobView) -> Seq<u64>
    decreases pending.len(),
{
    if pending.len() == 0 {
        Seq::empty()
    } else {
        let rest = superseded_ids(pending.drop_last(), new);
        if supersedes(new, pending.last()) {
            rest.push(pending.last().id)
        } else {
            rest
        }
    }
}

/// At most one read of each root is pending.
pub open spec fn reads_coalesced(pending: Seq<JobView>) -> bool {
    forall|i: int, j: int|
        0 <= i < j < pending.len() ==> !supersedes(#[trigger] pending[j], #[trigger] pending[i])
}

/// A job can run now: it has a root and no worker is busy in that root.
pub open spec fn is_ready(job: JobView, active: Set<Seq<char>>) -> bool {
    match job.root {
        Some(r) => !active.contains(r),
        None => false,
    }
}

/// No job before position `end` can run now.
pub open spec fn none_ready_before(pending: Seq<JobView>, active: Set<Seq<char>>, end: int) -> bool {
    forall|k: int| 0 <= k < end ==> !is_ready(#[trigger] pending[k], active)
}

/// A worker took the oldest job that could run, at position `i`: it left the
/// queue, and its root became busy.
pub open spec fn took_first_ready(
    before: Seq<JobView>,
    active: Set<Seq<char>>,
    after: Seq<JobView>,
    active_after: Set<Seq<char>>,
    job: JobView,
    root: Seq<char>,
) -> bool {
    exists|i: int|
        0 <= i < before.len() && none_ready_before(before, active, i) && is_ready(before[i], active)
            && job == #[trigger] before[i] && job.root == Some(root) && after == before.remove(i)
            && active_after == active.insert(root)
}

/// Nothing was taken.
pub open spec fn unchanged_jobs(
    before: Seq<JobView>,
    active: Set<Seq<char>>,
    after: Seq<JobView>,
    active_after: Set<Seq<char>>,
) -> bool {
    after == before && active_after == active
}

/// What an effect worker does next.
#[derive(Debug)]
pub enum QueueStep {
    /// Run the job in the root, which is now busy until it is finished.
    Run { job: QueuedJob, root: String },
    /// Stop: the queue is closed and nothing pending can run.
    Closed,
    /// Wait until a job is queued, a root finished or the queue closed.
    Wait,
}

/// The jobs waiting for the effect workers and the roots in which a worker is
/// busy. Jobs of one root run one at a time, in the order they came.
#[derive(Debug)]
pub struct JobQueue {
    pending: VecDeque<QueuedJob>,
    active_roots: Vec<String>,
    closed: bool,
}

/// The texts of strings.
pub open spec fn root_views(roots: Seq<String>) -> Seq<Seq<char>> {
    roots.map_values(|r: String| r@)
}

impl JobQueue {
    /// The pending jobs, oldest first.
    pub closed spec fn pending_view(&self) -> Seq<JobView> {
        self.pending@.map_values(|j: QueuedJob| j@)
    }

    /// The roots in which a worker is busy.
    pub closed spec fn active_view(&self) -> Set<Seq<char>> {
        root_views(self.active_roots@).to_set()
    }

    /// No more jobs are to be taken once nothing pending can run.
    pub closed spec fn closed_view(&self) -> bool {
        self.closed
    }

    /// Each busy root is kept once, and at most one read of each root waits.
    pub closed spec fn wf(&self) -> bool {
        &&& root_views(self.active_roots@).no_duplicates()
        &&& reads_coalesced(self.pending_view())
    }

    /// An empty, open queue.
    pub fn new() -> (queue: Self)
        ensures
            queue.wf(),
            queue.pending_view() == Seq::<JobView>::empty(),
            queue.active_view() == Set::<Seq<char>>::empty(),
            !queue.closed_view(),
    {
        let queue = JobQueue { pending: VecDeque::new(), active_roots: Vec::new(), closed: false };
        proof {
            assert(queue.pending_view() =~= Seq::<JobView>::empty());
            assert(queue.active_view() =~= Set::<Seq<char>>::empty());
        }
        queue
    }

    /// Queues a job. A read (opening a repository or loading a note) makes
    /// every pending read of the same root moot: those leave the queue, and
    /// their numbers are returned, oldest first. Other jobs stay, in order,
    /// and the new job goes last.
    pub fn enqueue(&mut self, job: QueuedJob) -> (superseded: Vec<u64>)
        requires
            old(self).wf(),
            job.coalescible ==> job.root is Some,
        ensures
            final(self).wf(),
            final(self).pending_view() == kept_jobs(old(self).pending_view(), job@).push(job@),
            superseded@ == superseded_ids(old(self).pending_view(), job@),
            final(self).active_view() == old(self).active_view(),
            final(self).closed_view() == old(self).closed_view(),
    {
        let mut superseded: Vec<u64> = Vec::new();
        let mut remaining: VecDeque<QueuedJob> = VecDeque::new();
        std::mem::swap(&mut remaining, &mut self.pending);
        let ghost all = remaining@.map_values(|j: QueuedJob| j@);
        let ghost n = all.len();
        proof {
            assert(all.take(0) =~= Seq::<JobView>::empty());
            assert(self.pending@.map_values(|j: QueuedJob| j@) =~= Seq::<JobView>::empty());
            assert(remaining@.map_values(|j: QueuedJob| j@) =~= all.subrange(0, n as int));
        }
        while remaining.len() > 0
            invariant
                n == all.len(),
                remaining@.len() <= n,
                remaining@.map_values(|j: QueuedJob| j@) =~= all.subrange(
                    n - remaining@.len(),
                    n as int,
                ),
                self.pending@.map_values(|j: QueuedJob| j@) == kept_jobs(
                    all.take(n - remaining@.len()),
                    job@,
                ),
                superseded@ == superseded_ids(all.take(n - remaining@.len()), job@),
                self.active_roots == old(self).active_roots,
                self.closed == old(self).closed,
                all == old(self).pending_view(),
            decreases remaining@.len(),
        {
            let ghost k = n - remaining@.len();
            let ghost before_view = self.pending@.map_values(|j: QueuedJob| j@);
            let ghost rest_view = remaining@.map_values(|j: QueuedJob| j@);
            let ghost old_remaining = remaining@;
            match remaining.pop_front() {
                Some(pending) => {
                    proof {
                        assert(pending@ == rest_view[0]);
                        assert(rest_view[0] == all[k]);
                        assert(all.take(k + 1).drop_last() =~= all.take(k));
                        assert(all.take(k + 1).last() == all[k]);
                        assert(remaining@ == old_remaining.subrange(1, old_remaining.len() as int));
                        let new_rest = remaining@.map_values(|j: QueuedJob| j@);
                        assert forall|idx: int| 0 <= idx < remaining@.len() implies #[trigger] new_rest[idx]
                            == all.subrange(k + 1, n as int)[idx] by {
                            assert(remaining@[idx] == old_remaining[idx + 1]);
                            assert(rest_view[idx + 1] == old_remaining[idx + 1]@);
                            assert(rest_view[idx + 1] == all.subrange(k, n as int)[idx + 1]);
                        }
                        assert(new_rest =~= all.subrange(k + 1, n as int));
                    }
                    if job.coalescible && pending.coalescible && same_root(&pending.root, &job.root) {
                        superseded.push(pending.id);
                    } else {
                        self.pending.push_back(pending);
                        proof {
                            assert(self.pending@.map_values(|j: QueuedJob| j@) =~= before_view.push(
                                all[k],
                            ));
                        }
                    }
                },
                None => {},
            }
        }
        proof {
            assert(all.take(n as int) =~= all);
            lemma_kept_coalesced(all, job@);
            lemma_kept_not_superseded(all, job@);
        }
        let ghost kept_view = self.pending@.map_values(|j: QueuedJob| j@);
        self.pending.push_back(job);
        proof {
            assert(self.pending_view() =~= kept_view.push(job@));
            let v = self.pending_view();
            assert forall|i: int, j: int| 0 <= i < j < v.len() implies !supersedes(
                #[trigger] v[j],
                #[trigger] v[i],
            ) by {
                if j == v.len() - 1 {
                    assert(v[j] == job@);
                    assert(v[i] == kept_view[i]);
                } else {
                    assert(v[i] == kept_view[i] && v[j] == kept_view[j]);
                }
            }
        }
        superseded
    }
}

impl JobQueue {
    /// Whether no more jobs are to be taken once nothing pending can run.
    pub fn is_closed(&self) -> (closed: bool)
        ensures
            closed == self.closed_view(),
    {
        self.closed
    }

    /// Takes the oldest pending job that can run now, one whose root no worker
    /// is busy in; that root is busy from now on. When no job can run, nothing
    /// changes.
    pub fn next_ready(&mut self) -> (taken: Option<(QueuedJob, String)>)
        requires
            old(self).wf(),
        ensures
            final(self).wf(),
            final(self).closed_view() == old(self).closed_view(),
            taken is None <==> none_ready_before(
                old(self).pending_view(),
                old(self).active_view(),
                old(self).pending_view().len() as int,
            ),
            match taken {
                Some((job, root)) => took_first_ready(
                    old(self).pending_view(),
                    old(self).active_view(),
                    final(self).pending_view(),
                    final(self).active_view(),
                    job@,
                    root@,
                ),
                None => unchanged_jobs(
                    old(self).pending_view(),
                    old(self).active_view(),
                    final(self).pending_view(),
                    final(self).active_view(),
                ),
            },
    {
        let ghost before = self.pending_view();
        let ghost active = self.active_view();
        let mut i: usize = 0;
        while i < self.pending.len()
            invariant
                self.pending == old(self).pending,
                self.active_roots == old(self).active_roots,
                self.closed == old(self).closed,
                self.wf(),
                before == self.pending_view(),
                active == self.active_view(),
                i <= self.pending@.len(),
                none_ready_before(before, active, i as int),
            decreases self.pending@.len() - i,
        {
            proof {
                assert(before[i as int] == self.pending@[i as int]@);
            }
            let candidate = match &self.pending[i].root {
                Some(r) => if holds_root(&self.active_roots, r.as_str()) {
                    None
                } else {
                    Some(r.clone())
                },
                None => None,
            };
            match candidate {
                Some(root) => {
                    proof {
                        assert(root_views(self.active_roots@).contains(root@) <==> active.contains(
                            root@,
                        ));
                        assert(is_ready(before[i as int], active));
                    }
                    let ghost old_roots = self.active_roots@;
                    let taken = self.pending.remove(i);
                    match taken {
                        Some(job) => {
                            self.active_roots.push(root.clone());
                            proof {
                                assert(self.pending_view() =~= before.remove(i as int));
                                assert(root_views(self.active_roots@) =~= root_views(old_roots).push(
                                    root@,
                                ));
                                root_views(old_roots).lemma_push_to_set_commute(root@);
                                assert(self.active_view() =~= active.insert(root@));
                                let v = self.pending_view();
                                assert forall|a: int, b: int| 0 <= a < b < v.len() implies !supersedes(
                                    #[trigger] v[b],
                                    #[trigger] v[a],
                                ) by {
                                    let oa = if a < i { a } else { a + 1 };
                                    let ob = if b < i { b } else { b + 1 };
                                    assert(v[a] == before[oa] && v[b] == before[ob]);
                                }
                            }
                            return Some((job, root));
                        },
                        None => {
                            return None;
                        },
                    }
                },
                None => {},
            }
            i = i + 1;
        }
        None
    }

    /// What an effect worker does next: run the oldest job that can run now
    /// (see [`JobQueue::next_ready`]), else stop once the queue is closed, else wait.
    pub fn take(&mut self) -> (step: QueueStep)
        requires
            old(self).wf(),
        ensures
            final(self).wf(),
            final(self).closed_view() == old(self).closed_view(),
            match step {
                QueueStep::Run { job, root } => took_first_ready(
                    old(self).pending_view(),
                    old(self).active_view(),
                    final(self).pending_view(),
                    final(self).active_view(),
                    job@,
                    root@,
                ),
                QueueStep::Closed => old(self).closed_view() && none_ready_before(
                    old(self).pending_view(),
                    old(self).active_view(),
                    old(self).pending_view().len() as int,
                ) && unchanged_jobs(
                    old(self).pending_view(),
                    old(self).active_view(),
                    final(self).pending_view(),
                    final(self).active_view(),
                ),
                QueueStep::Wait => !old(self).closed_view() && none_ready_before(
                    old(self).pending_view(),
                    old(self).active_view(),
                    old(self).pending_view().len() as int,
                ) && unchanged_jobs(
                    old(self).pending_view(),
                    old(self).active_view(),
                    final(self).pending_view(),
                    final(self).active_view(),
                ),
            },
    {
        match self.next_ready() {
            Some((job, root)) => QueueStep::Run { job, root },
            None => if self.closed {
                QueueStep::Closed
            } else {
                QueueStep::Wait
            },
        }
    }

    /// A worker is done in `root`: jobs of that root can run again.
    pub fn finish(&mut self, root: &str)
        requires
            old(self).wf(),
        ensures
            final(self).wf(),
            final(self).pending_view() == old(self).pending_view(),
            final(self).closed_view() == old(self).closed_view(),
            final(self).active_view() == old(self).active_view().remove(root@),
    {
        let ghost roots = root_views(self.active_roots@);
        let mut i: usize = 0;
        while i < self.active_roots.len()
            invariant
                self.pending == old(self).pending,
                self.active_roots == old(self).active_roots,
                self.closed == old(self).closed,
                self.wf(),
                roots == root_views(self.active_roots@),
                i <= self.active_roots@.len(),
                forall|k: int| 0 <= k < i ==> roots[k] != root@,
            decreases self.active_roots@.len() - i,
        {
            if same_text(self.active_roots[i].as_str(), root) {
                let ghost old_roots = self.active_roots@;
                self.active_roots.remove(i);
                proof {
                    let now = root_views(self.active_roots@);
                    assert(now =~= roots.remove(i as int));
                    assert(roots[i as int] == root@);
                    assert forall|x: Seq<char>| #[trigger] now.contains(x) <==> (roots.contains(x)
                        && x != root@) by {
                        if now.contains(x) {
                            let k = choose|k: int| 0 <= k < now.len() && now[k] == x;
                            let ok = if k < i { k } else { k + 1 };
                            assert(roots[ok] == x);
                            assert(x != root@);
                        }
                        if roots.contains(x) && x != root@ {
                            let k = choose|k: int| 0 <= k < roots.len() && roots[k] == x;
                            assert(k != i);
                            let nk = if k < i { k } else { k - 1 };
                            assert(now[nk] == x);
                        }
                    }
                    assert(self.active_view() =~= old(self).active_view().remove(root@));
                    assert forall|a: int, b: int| 0 <= a < now.len() && 0 <= b < now.len() && a != b
                        implies now[a] != now[b] by {
                        let oa = if a < i { a } else { a + 1 };
                        let ob = if b < i { b } else { b + 1 };
                        assert(now[a] == roots[oa] && now[b] == roots[ob]);
                    }
                }
                return;
            }
            i = i + 1;
        }
        proof {
            assert forall|x: Seq<char>| #[trigger] roots.contains(x) implies x != root@ by {
                let k = choose|k: int| 0 <= k < roots.len() && roots[k] == x;
            }
            assert(self.active_view() =~= old(self).active_view().remove(root@));
        }
    }

    /// No more jobs come: workers stop once nothing pending can run.
    pub fn close(&mut self)
        requires
            old(self).wf(),
        ensures
            final(self).wf(),
            final(self).closed_view(),
            final(self).pending_view() == old(self).pending_view(),
            final(self).active_view() == old(self).active_view(),
    {
        self.closed = true;
    }
}

/// Whether `root` is among the roots.
fn holds_root(roots: &Vec<String>, root: &str) -> (found: bool)
    ensures
        found == root_views(roots@).contains(root@),
{
    let mut i: usize = 0;
    while i < roots.len()
        invariant
            i <= roots@.len(),
            forall|k: int| 0 <= k < i ==> roots@[k]@ != root@,
        decreases roots@.len() - i,
    {
        if same_text(roots[i].as_str(), root) {
            assert(root_views(roots@)[i as int] == root@);
            return true;
        }
        i = i + 1;
    }
    proof {
        if root_views(roots@).contains(root@) {
            let k = choose|k: int| 0 <= k < root_views(roots@).len() && root_views(roots@)[k] == root@;
            assert(roots@[k]@ == root@);
        }
    }
    false
}

/// Whether two optional roots are the same text.
fn same_root(a: &Option<String>, b: &Option<String>) -> (same: bool)
    ensures
        same == (match (a, b) {
            (Some(x), Some(y)) => x@ == y@,
            (None, None) => true,
            _ => false,
        }),
{
    match (a, b) {
        (Some(x), Some(y)) => same_text(x.as_str(), y.as_str()),
        (None, None) => true,
        _ => false,
    }
}

/// Every job the new one leaves was pending before it, at some position.
proof fn lemma_kept_from(pending: Seq<JobView>, new: JobView)
    ensures
        forall|i: int|
            0 <= i < kept_jobs(pending, new).len() ==> exists|k: int|
                0 <= k < pending.len() && #[trigger] kept_jobs(pending, new)[i] == pending[k],
    decreases pending.len(),
{
    if pending.len() > 0 {
        let prev = pending.drop_last();
        lemma_kept_from(prev, new);
        let kept = kept_jobs(pending, new);
        assert forall|i: int| 0 <= i < kept.len() implies exists|k: int|
            0 <= k < pending.len() && #[trigger] kept[i] == pending[k] by {
            if i < kept_jobs(prev, new).len() {
                let k = choose|k: int| 0 <= k < prev.len() && kept_jobs(prev, new)[i] == prev[k];
                assert(kept[i] == pending[k]);
            } else {
                assert(kept[i] == pending[pending.len() - 1]);
            }
        }
    }
}

/// A new job leaves no pending job that it makes moot.
proof fn lemma_kept_not_superseded(pending: Seq<JobView>, new: JobView)
    ensures
        forall|i: int|
            0 <= i < kept_jobs(pending, new).len() ==> !supersedes(new, #[trigger] kept_jobs(pending, new)[i]),
    decreases pending.len(),
{
    if pending.len() > 0 {
        let prev = pending.drop_last();
        lemma_kept_not_superseded(prev, new);
        let rest = kept_jobs(prev, new);
        let kept = kept_jobs(pending, new);
        assert forall|i: int| 0 <= i < kept.len() implies !supersedes(new, #[trigger] kept[i]) by {
            if i < rest.len() {
                assert(kept[i] == rest[i]);
            }
        }
    }
}

/// What a new job leaves of a coalesced queue is coalesced.
proof fn lemma_kept_coalesced(pending: Seq<JobView>, new: JobView)
    requires
        reads_coalesced(pending),
    ensures
        reads_coalesced(kept_jobs(pending, new)),
    decreases pending.len(),
{
    if pending.len() > 0 {
        let prev = pending.drop_last();
        assert(reads_coalesced(prev)) by {
            assert forall|i: int, j: int| 0 <= i < j < prev.len() implies !supersedes(
                #[trigger] prev[j],
                #[trigger] prev[i],
            ) by {
                assert(prev[i] == pending[i] && prev[j] == pending[j]);
            }
        }
        lemma_kept_coalesced(prev, new);
        lemma_kept_from(prev, new);
        let rest = kept_jobs(prev, new);
        let kept = kept_jobs(pending, new);
        if !supersedes(new, pending.last()) {
            assert forall|i: int, j: int| 0 <= i < j < kept.len() implies !supersedes(
                #[trigger] kept[j],
                #[trigger] kept[i],
            ) by {
                if j == kept.len() - 1 {
                    let k = choose|k: int| 0 <= k < prev.len() && rest[i] == prev[k];
                    assert(kept[i] == pending[k]);
                    assert(kept[j] == pending[pending.len() - 1]);
                } else {
                    assert(kept[i] == rest[i] && kept[j] == rest[j]);
                }
            }
        }
    }
}

/// At most one read of each repository root waits in the queue: queuing a
/// read, taking a job, finishing a root and closing all keep it so.
pub proof fn law_one_waiting_read_per_root(queue: &JobQueue)
    requires
        queue.wf(),
    ensures
        reads_coalesced(queue.pending_view()),
{
}

/// A queued read replaces the reads of its root that were waiting. Nothing
/// else is lost: every waiting job is either kept, in order, or reported moot.
pub proof fn law_queued_read_replaces_waiting_reads(pending: Seq<JobView>, job: JobView)
    ensures
        forall|i: int|
            0 <= i < kept_jobs(pending, job).len() ==> !supersedes(job, #[trigger] kept_jobs(pending, job)[i]),
        forall|i: int|
            0 <= i < pending.len() && !supersedes(job, #[trigger] pending[i]) ==> kept_jobs(
                pending,
                job,
            ).contains(pending[i]),
        kept_jobs(pending, job).len() + superseded_ids(pending, job).len() == pending.len(),
        !job.coalescible ==> kept_jobs(pending, job) == pending,
    decreases pending.len(),
{
    lemma_kept_not_superseded(pending, job);
    if pending.len() > 0 {
        let prev = pending.drop_last();
        law_queued_read_replaces_waiting_reads(prev, job);
        let rest = kept_jobs(prev, job);
        let kept = kept_jobs(pending, job);
        assert forall|i: int| 0 <= i < pending.len() && !supersedes(job, #[trigger] pending[i]) implies kept.contains(
            pending[i],
        ) by {
            if i < prev.len() {
                assert(prev[i] == pending[i]);
                let k = choose|k: int| 0 <= k < rest.len() && rest[k] == prev[i];
                assert(kept[k] == rest[k]);
            } else {
                assert(kept[kept.len() - 1] == pending[i]);
            }
        }
        if !job.coalescible {
            assert(kept =~= pending);
        }
    } else {
        assert(kept_jobs(pending, job) =~= pending);
    }
}

/// While a worker is busy in a root, no second job of that root is taken: two
/// jobs taken one after the other, with no root finished between them, work in
/// different roots.
pub proof fn law_busy_root_takes_no_second_job(
    pending: Seq<JobView>,
    active: Set<Seq<char>>,
    pending1: Seq<JobView>,
    active1: Set<Seq<char>>,
    first: JobView,
    root1: Seq<char>,
    pending2: Seq<JobView>,
    active2: Set<Seq<char>>,
    second: JobView,
    root2: Seq<char>,
)
    requires
        took_first_ready(pending, active, pending1, active1, first, root1),
        took_first_ready(pending1, active1, pending2, active2, second, root2),
    ensures
        root1 != root2,
        active1.contains(root1),
        !active.contains(root1),
{
    let j = choose|j: int|
        0 <= j < pending1.len() && none_ready_before(pending1, active1, j) && is_ready(
            pending1[j],
            active1,
        ) && second == #[trigger] pending1[j] && second.root == Some(root2) && pending2
            == pending1.remove(j) && active2 == active1.insert(root2);
    let i = choose|i: int|
        0 <= i < pending.len() && none_ready_before(pending, active, i) && is_ready(pending[i], active)
            && first == #[trigger] pending[i] && first.root == Some(root1) && pending1 == pending.remove(i)
            && active1 == active.insert(root1);
    assert(!active1.contains(root2));
}

/// Finishing the root of a taken job leaves the busy roots as they were
/// before it was taken.
pub proof fn law_finish_undoes_take(
    pending: Seq<JobView>,
    active: Set<Seq<char>>,
    pending1: Seq<JobView>,
    active1: Set<Seq<char>>,
    job: JobView,
    root: Seq<char>,
)
    requires
        took_first_ready(pending, active, pending1, active1, job, root),
    ensures
        active1.remove(root) == active,
{
    let i = choose|i: int|
        0 <= i < pending.len() && none_ready_before(pending, active, i) && is_ready(pending[i], active)
            && job == #[trigger] pending[i] && job.root == Some(root) && pending1 == pending.remove(i)
            && active1 == active.insert(root);
    assert(active1.remove(root) =~= active);
}

} // verus!
