//! The mathematical model of the queue.
//!
//! Every operation is described by a relation between the table before and
//! after it; the executable functions of the queue are proved against these
//! relations, and the laws of the queue are derived from them.

use crate::calendar::cron_next_after;
use crate::calendar::CALENDAR_END;
use crate::digest::occurrence_key;
use crate::digest::sha256;
use crate::instant::Instant;
use crate::runnable::NewTaskView;
use crate::runnable::ScheduledView;
use crate::runnable::COMMON_TYPE;
use crate::task::FangTaskState;
use crate::task::Task;
use crate::task::TaskView;
use vstd::prelude::*;

verus! {

/// Why a queue operation did not do what was asked.
#[derive(Clone, Copy, Debug, PartialEq, Eq, Structural)]
pub enum QueueError {
    /// No task with the given id is stored.
    TaskNotFound,
    /// Every id has been handed out.
    IdsExhausted,
    /// The task declares no schedule.
    NotSchedulable,
    /// The cron expression is invalid or never fires again.
    NoUpcomingOccurrence,
    /// The current instant lies after the year 9999.
    ClockOutOfRange,
}

/// The mathematical content of a queue: the stored records in the order of
/// their insertion, and the id that the next new record will get.
pub struct QueueView {
    pub tasks: Seq<TaskView>,
    pub next_id: u128,
}

/// The record of a task that has just been created.
pub open spec fn fresh_task(
    id: u128,
    metadata: Seq<u8>,
    task_type: Seq<char>,
    uniq_hash: Option<Seq<u8>>,
    scheduled_at: Instant,
    now: Instant,
) -> TaskView {
    TaskView {
        id,
        metadata,
        error_message: None,
        state: FangTaskState::New,
        task_type,
        uniq_hash,
        retries: 0,
        scheduled_at,
        created_at: now,
        updated_at: now,
    }
}

/// A task with the hash `hash` that is `New` or `InProgress` stands in the way
/// of another task with that hash.
pub open spec fn blocks(task: TaskView, hash: Seq<u8>) -> bool {
    task.uniq_hash == Some(hash) && task.state.is_pending()
}

/// A worker that asks for `task_type` at `now` may claim `task`: the task is
/// `New`, it is due, and its type is the one asked for or the common one.
pub open spec fn eligible(task: TaskView, task_type: Seq<char>, now: Instant) -> bool {
    &&& task.state is New
    &&& task.scheduled_at.at_or_before(now)
    &&& (task.task_type == task_type || task.task_type == COMMON_TYPE@)
}

/// The number of tasks in `tasks` that a worker asking for `task_type` at
/// `now` may claim.
pub open spec fn eligible_count(tasks: Seq<TaskView>, task_type: Seq<char>, now: Instant) -> nat
    decreases tasks.len(),
{
    if tasks.len() == 0 {
        0
    } else {
        let rest = eligible_count(tasks.drop_last(), task_type, now);
        if eligible(tasks.last(), task_type, now) {
            rest + 1
        } else {
            rest
        }
    }
}

/// `a` is to be claimed before `b`: it is due earlier or, due at the same
/// instant, was created earlier.
pub open spec fn ahead_of(a: TaskView, b: TaskView) -> bool {
    ||| a.scheduled_at.before(b.scheduled_at)
    ||| (a.scheduled_at == b.scheduled_at && a.created_at.before(b.created_at))
}

/// The record of `task` after a worker has claimed it at `now`.
pub open spec fn claimed(task: TaskView, now: Instant) -> TaskView {
    TaskView { state: FangTaskState::InProgress, updated_at: now, ..task }
}

/// The record of `task` after its state has been set to `state` at `now`.
pub open spec fn with_state(task: TaskView, state: FangTaskState, now: Instant) -> TaskView {
    TaskView { state, updated_at: now, ..task }
}

/// The record of `task` after it has failed for good at `now`.
pub open spec fn failed(task: TaskView, error_message: Seq<char>, now: Instant) -> TaskView {
    TaskView {
        state: FangTaskState::Failed,
        error_message: Some(error_message),
        updated_at: now,
        ..task
    }
}

/// The record of `task` after a failed attempt at `now` that is to be repeated
/// `backoff_seconds` later. The retry counter stops at `i32::MAX`.
pub open spec fn retried(
    task: TaskView,
    backoff_seconds: u32,
    error_message: Seq<char>,
    now: Instant,
) -> TaskView {
    TaskView {
        state: FangTaskState::New,
        error_message: Some(error_message),
        retries: if task.retries < i32::MAX {
            (task.retries + 1) as i32
        } else {
            task.retries
        },
        scheduled_at: now.shifted(backoff_seconds),
        updated_at: now,
        ..task
    }
}

/// The hash under which a task is enqueued at once or for one fixed instant:
/// the digest of its payload where its kind is unique, none otherwise.
pub open spec fn content_hash_of(new_task: NewTaskView) -> Option<Seq<u8>> {
    if new_task.uniq {
        Some(sha256(new_task.metadata))
    } else {
        None
    }
}

/// The record of `new_task` enqueued at `now` to run at `scheduled_at`.
pub open spec fn plain_candidate(
    id: u128,
    new_task: NewTaskView,
    scheduled_at: Instant,
    now: Instant,
) -> TaskView {
    fresh_task(
        id,
        new_task.metadata,
        new_task.task_type,
        content_hash_of(new_task),
        scheduled_at,
        now,
    )
}

/// The record of the occurrence of the recurring `new_task` that is due at
/// `due`, created at `now`. Its hash covers the payload and the due instant,
/// whether or not the kind is unique.
pub open spec fn occurrence_candidate(
    id: u128,
    new_task: NewTaskView,
    due: Instant,
    now: Instant,
) -> TaskView {
    fresh_task(
        id,
        new_task.metadata,
        new_task.task_type,
        Some(sha256(occurrence_key(new_task.metadata, due))),
        due,
        now,
    )
}

impl QueueView {
    /// Every stored id is below `next_id`, and no id occurs twice.
    pub open spec fn wf(self) -> bool {
        &&& forall|i: int|
            0 <= i < self.tasks.len() ==> (#[trigger] self.tasks[i]).id < self.next_id
        &&& forall|i: int, j: int|
            0 <= i < j < self.tasks.len() ==> (#[trigger] self.tasks[i]).id != (
            #[trigger] self.tasks[j]).id
    }

    /// No two tasks that are `New` or `InProgress` carry the same hash.
    pub open spec fn duplicate_free(self) -> bool {
        forall|i: int, j: int|
            0 <= i < j < self.tasks.len() && (#[trigger] self.tasks[i]).state.is_pending() && (
            #[trigger] self.tasks[j]).state.is_pending() && self.tasks[i].uniq_hash is Some
                ==> self.tasks[i].uniq_hash != self.tasks[j].uniq_hash
    }

    /// Some stored task stands in the way of a new task with the hash `hash`.
    pub open spec fn blocked(self, hash: Seq<u8>) -> bool {
        exists|i: int| 0 <= i < self.tasks.len() && blocks(#[trigger] self.tasks[i], hash)
    }

    /// The task at index `i` is the first one that stands in the way of a new
    /// task with the hash `hash`.
    pub open spec fn first_blocking(self, hash: Seq<u8>, i: int) -> bool {
        &&& 0 <= i < self.tasks.len()
        &&& blocks(self.tasks[i], hash)
        &&& forall|j: int| 0 <= j < i ==> !blocks(#[trigger] self.tasks[j], hash)
    }

    /// No stored task has the id `id`.
    pub open spec fn absent(self, id: u128) -> bool {
        forall|i: int| 0 <= i < self.tasks.len() ==> (#[trigger] self.tasks[i]).id != id
    }

    /// The task at index `i` has the id `id`.
    pub open spec fn holds_at(self, id: u128, i: int) -> bool {
        0 <= i < self.tasks.len() && self.tasks[i].id == id
    }

    /// The insertion of `candidate`, a fresh record with the id `self.next_id`.
    ///
    /// Where the candidate carries a hash and a stored task stands in its way,
    /// the table stays as it is and the first such task is the outcome.
    /// Otherwise the candidate is appended and is the outcome, unless the ids
    /// have run out.
    pub open spec fn stored(
        self,
        candidate: TaskView,
        post: QueueView,
        outcome: Result<TaskView, QueueError>,
    ) -> bool {
        if candidate.uniq_hash is Some && self.blocked(candidate.uniq_hash->0) {
            &&& post == self
            &&& exists|i: int|
                self.first_blocking(candidate.uniq_hash->0, i) && outcome == Ok::<
                    TaskView,
                    QueueError,
                >(#[trigger] self.tasks[i])
        } else if self.next_id == u128::MAX {
            &&& post == self
            &&& outcome == Err::<TaskView, QueueError>(QueueError::IdsExhausted)
        } else {
            &&& post == (QueueView {
                tasks: self.tasks.push(candidate),
                next_id: (self.next_id + 1) as u128,
            })
            &&& outcome == Ok::<TaskView, QueueError>(candidate)
        }
    }

    /// The enqueueing of `new_task` at `now` for immediate execution.
    pub open spec fn inserted(
        self,
        new_task: NewTaskView,
        now: Instant,
        post: QueueView,
        outcome: Result<TaskView, QueueError>,
    ) -> bool {
        self.stored(plain_candidate(self.next_id, new_task, now, now), post, outcome)
    }

    /// The enqueueing at `now` of the occurrence of the recurring `new_task`
    /// that is due at `due`. Without a due instant nothing changes and the
    /// outcome is `NoUpcomingOccurrence`.
    pub open spec fn materialized(
        self,
        new_task: NewTaskView,
        due: Option<Instant>,
        now: Instant,
        post: QueueView,
        outcome: Result<TaskView, QueueError>,
    ) -> bool {
        match due {
            Some(at) => self.stored(
                occurrence_candidate(self.next_id, new_task, at, now),
                post,
                outcome,
            ),
            None => {
                &&& post == self
                &&& outcome == Err::<TaskView, QueueError>(QueueError::NoUpcomingOccurrence)
            },
        }
    }

    /// The enqueueing of `new_task` at `now` according to its schedule.
    ///
    /// A task due once is enqueued for its instant. A recurring task is
    /// enqueued for the first instant after `now` at which its cron expression
    /// fires. A task without a schedule is refused with `NotSchedulable`, and
    /// a recurring task at an instant after the year 9999 with
    /// `ClockOutOfRange`.
    pub open spec fn scheduled(
        self,
        new_task: NewTaskView,
        now: Instant,
        post: QueueView,
        outcome: Result<TaskView, QueueError>,
    ) -> bool {
        match new_task.schedule {
            None => {
                &&& post == self
                &&& outcome == Err::<TaskView, QueueError>(QueueError::NotSchedulable)
            },
            Some(ScheduledView::ScheduleOnce(at)) => self.stored(
                plain_candidate(self.next_id, new_task, at, now),
                post,
                outcome,
            ),
            Some(ScheduledView::CronPattern(pattern)) => if now.secs > CALENDAR_END {
                &&& post == self
                &&& outcome == Err::<TaskView, QueueError>(QueueError::ClockOutOfRange)
            } else {
                self.materialized(new_task, cron_next_after(pattern, now), now, post, outcome)
            },
        }
    }

    /// The task at index `i` is the one that a worker asking for `task_type`
    /// at `now` claims: it is eligible, no eligible task is ahead of it, and
    /// among those that are level with it it stands first.
    pub open spec fn next_claim(self, task_type: Seq<char>, now: Instant, i: int) -> bool {
        &&& 0 <= i < self.tasks.len()
        &&& eligible(self.tasks[i], task_type, now)
        &&& forall|j: int|
            0 <= j < self.tasks.len() && eligible(#[trigger] self.tasks[j], task_type, now)
                ==> !ahead_of(self.tasks[j], self.tasks[i]) && (j < i ==> ahead_of(
                self.tasks[i],
                self.tasks[j],
            ))
    }

    /// A claim for `task_type` at `now`.
    ///
    /// Where no task is eligible nothing changes and nothing is handed out.
    /// Otherwise the task named by [`Self::next_claim`] becomes `InProgress`, and
    /// its new record is handed out.
    pub open spec fn claims(
        self,
        task_type: Seq<char>,
        now: Instant,
        post: QueueView,
        outcome: Option<TaskView>,
    ) -> bool {
        match outcome {
            None => {
                &&& post == self
                &&& forall|i: int|
                    0 <= i < self.tasks.len() ==> !eligible(
                        #[trigger] self.tasks[i],
                        task_type,
                        now,
                    )
            },
            Some(task) => exists|i: int|
                {
                    &&& #[trigger] self.next_claim(task_type, now, i)
                    &&& task == claimed(self.tasks[i], now)
                    &&& post == (QueueView {
                        tasks: self.tasks.update(i, task),
                        next_id: self.next_id,
                    })
                },
        }
    }

    /// The replacement of the task with the id `id` by `edit` of it.
    ///
    /// Where no such task is stored nothing changes and the outcome is
    /// `TaskNotFound`; otherwise the new record takes the place of the old one
    /// and is the outcome.
    pub open spec fn amended(
        self,
        id: u128,
        edit: spec_fn(TaskView) -> TaskView,
        post: QueueView,
        outcome: Result<TaskView, QueueError>,
    ) -> bool {
        if self.absent(id) {
            &&& post == self
            &&& outcome == Err::<TaskView, QueueError>(QueueError::TaskNotFound)
        } else {
            exists|i: int|
                {
                    &&& #[trigger] self.holds_at(id, i)
                    &&& outcome == Ok::<TaskView, QueueError>(edit(self.tasks[i]))
                    &&& post == (QueueView {
                        tasks: self.tasks.update(i, edit(self.tasks[i])),
                        next_id: self.next_id,
                    })
                }
        }
    }

    /// The removal of every task that `doomed` holds of: the others stay, in
    /// their order, and `count` tasks are gone.
    pub open spec fn purged(
        self,
        doomed: spec_fn(TaskView) -> bool,
        post: QueueView,
        count: usize,
    ) -> bool {
        &&& post.tasks == self.tasks.filter(|task: TaskView| !doomed(task))
        &&& post.next_id == self.next_id
        &&& count == self.tasks.len() - post.tasks.len()
    }
}

/// The view of what an operation hands back: the record, or the error.
pub open spec fn outcome_view(outcome: Result<Task, QueueError>) -> Result<TaskView, QueueError> {
    match outcome {
        Ok(task) => Ok(task@),
        Err(error) => Err(error),
    }
}

/// The view of a task that may be missing.
pub open spec fn found_view(found: Option<Task>) -> Option<TaskView> {
    match found {
        Some(task) => Some(task@),
        None => None,
    }
}

/// The view of bytes that may be missing.
pub open spec fn hash_view(hash: Option<Vec<u8>>) -> Option<Seq<u8>> {
    match hash {
        Some(bytes) => Some(bytes@),
        None => None,
    }
}

/// Two predicates that agree on every item of a sequence filter it alike.
pub proof fn lemma_filter_same<A>(items: Seq<A>, p: spec_fn(A) -> bool, q: spec_fn(A) -> bool)
    requires
        forall|i: int| 0 <= i < items.len() ==> p(#[trigger] items[i]) == q(items[i]),
    ensures
        items.filter(p) == items.filter(q),
    decreases items.len(),
{
    reveal(Seq::filter);
    if items.len() > 0 {
        lemma_filter_same(items.drop_last(), p, q);
    }
}

/// Every item that a filter keeps is an item of the sequence.
pub proof fn lemma_filter_source<A>(items: Seq<A>, p: spec_fn(A) -> bool, a: int)
    requires
        0 <= a < items.filter(p).len(),
    ensures
        exists|i: int| 0 <= i < items.len() && items.filter(p)[a] == #[trigger] items[i],
        p(items.filter(p)[a]),
    decreases items.len(),
{
    reveal(Seq::filter);
    if items.len() > 0 {
        let shorter = items.drop_last().filter(p);
        if a < shorter.len() {
            lemma_filter_source(items.drop_last(), p, a);
            let i = choose|i: int|
                0 <= i < items.drop_last().len() && shorter[a] == #[trigger] items.drop_last()[i];
            assert(items.filter(p)[a] == items[i]);
        } else {
            assert(items.filter(p)[a] == items[items.len() - 1]);
        }
    }
}

/// A filter keeps the order of the sequence: two items that it keeps, one
/// before the other, stand in that order in the sequence.
pub proof fn lemma_filter_sources_ordered<A>(items: Seq<A>, p: spec_fn(A) -> bool, a: int, b: int)
    requires
        0 <= a < b < items.filter(p).len(),
    ensures
        exists|i: int, j: int|
            0 <= i < j < items.len() && items.filter(p)[a] == #[trigger] items[i] && items.filter(
                p,
            )[b] == #[trigger] items[j],
    decreases items.len(),
{
    reveal(Seq::filter);
    if items.len() > 0 {
        let shorter = items.drop_last().filter(p);
        if b < shorter.len() {
            lemma_filter_sources_ordered(items.drop_last(), p, a, b);
            let (i, j) = choose|i: int, j: int|
                0 <= i < j < items.drop_last().len() && shorter[a] == #[trigger] items.drop_last()[i]
                    && shorter[b] == #[trigger] items.drop_last()[j];
            assert(items.filter(p)[a] == items[i]);
            assert(items.filter(p)[b] == items[j]);
        } else {
            lemma_filter_source(items.drop_last(), p, a);
            let i = choose|i: int|
                0 <= i < items.drop_last().len() && shorter[a] == #[trigger] items.drop_last()[i];
            assert(items.filter(p)[a] == items[i]);
            assert(items.filter(p)[b] == items[items.len() - 1]);
        }
    }
}

/// A well-formed table is still well-formed after tasks have been removed.
pub proof fn lemma_purge_keeps_wf(table: QueueView, keep: spec_fn(TaskView) -> bool)
    requires
        table.wf(),
    ensures
        (QueueView { tasks: table.tasks.filter(keep), next_id: table.next_id }).wf(),
    decreases table.tasks.len(),
{
    reveal(Seq::filter);
    let rest = table.tasks.filter(keep);
    if table.tasks.len() > 0 {
        let shorter = QueueView { tasks: table.tasks.drop_last(), next_id: table.next_id };
        assert(shorter.wf()) by {
            assert forall|i: int| 0 <= i < shorter.tasks.len() implies (
            #[trigger] shorter.tasks[i]).id < shorter.next_id by {
                assert(shorter.tasks[i] == table.tasks[i]);
            }
            assert forall|i: int, j: int| 0 <= i < j < shorter.tasks.len() implies (
            #[trigger] shorter.tasks[i]).id != (#[trigger] shorter.tasks[j]).id by {
                assert(shorter.tasks[i] == table.tasks[i]);
                assert(shorter.tasks[j] == table.tasks[j]);
            }
        }
        lemma_purge_keeps_wf(shorter, keep);
        let kept = shorter.tasks.filter(keep);
        let last = table.tasks.last();
        assert forall|i: int| 0 <= i < rest.len() implies (#[trigger] rest[i]).id
            < table.next_id by {
            if i < kept.len() {
                assert(rest[i] == kept[i]);
            } else {
                assert(rest[i] == last);
            }
        }
        assert forall|i: int, j: int| 0 <= i < j < rest.len() implies (#[trigger] rest[i]).id != (
        #[trigger] rest[j]).id by {
            assert(rest[i] == kept[i]);
            if j < kept.len() {
                assert(rest[j] == kept[j]);
            } else {
                assert(rest[j] == last);
                lemma_filter_source(shorter.tasks, keep, i);
                let k = choose|k: int|
                    0 <= k < shorter.tasks.len() && kept[i] == #[trigger] shorter.tasks[k];
                assert(shorter.tasks[k] == table.tasks[k]);
            }
        }
    }
}

/// A removal described by one predicate is the removal described by any
/// predicate that holds of the same tasks.
pub proof fn lemma_purged_same(
    pre: QueueView,
    p: spec_fn(TaskView) -> bool,
    q: spec_fn(TaskView) -> bool,
    post: QueueView,
    count: usize,
)
    requires
        pre.purged(p, post, count),
        forall|task: TaskView| #[trigger] p(task) == q(task),
    ensures
        pre.purged(q, post, count),
{
    lemma_filter_same(pre.tasks, |task: TaskView| !p(task), |task: TaskView| !q(task));
}

/// A replacement described by one edit is the replacement described by any
/// edit that gives the same records.
pub proof fn lemma_amended_same(
    pre: QueueView,
    id: u128,
    first: spec_fn(TaskView) -> TaskView,
    second: spec_fn(TaskView) -> TaskView,
    post: QueueView,
    outcome: Result<TaskView, QueueError>,
)
    requires
        pre.amended(id, first, post, outcome),
        forall|task: TaskView| #[trigger] first(task) == second(task),
    ensures
        pre.amended(id, second, post, outcome),
{
    if !pre.absent(id) {
        let i = choose|i: int|
            {
                &&& #[trigger] pre.holds_at(id, i)
                &&& outcome == Ok::<TaskView, QueueError>(first(pre.tasks[i]))
                &&& post == (QueueView {
                    tasks: pre.tasks.update(i, first(pre.tasks[i])),
                    next_id: pre.next_id,
                })
            };
        assert(pre.holds_at(id, i));
        assert(first(pre.tasks[i]) == second(pre.tasks[i]));
    }
}

} // verus!
