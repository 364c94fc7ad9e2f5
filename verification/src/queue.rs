//! The queue: the table of task records and the operations on it.

use crate::calendar::next_occurrence;
use crate::calendar::CALENDAR_END;
use crate::digest::content_hash;
use crate::digest::occurrence_hash;
use crate::instant::Instant;
use crate::model::ahead_of;
use crate::model::blocks;
use crate::model::claimed;
use crate::model::eligible;
use crate::model::failed;
use crate::model::found_view;
use crate::model::fresh_task;
use crate::model::hash_view;
use crate::model::lemma_purge_keeps_wf;
use crate::model::lemma_purged_same;
use crate::model::outcome_view;
use crate::model::plain_candidate;
use crate::model::retried;
use crate::model::with_state;
use crate::model::QueueError;
use crate::model::QueueView;
use crate::runnable::NewTask;
use crate::runnable::Scheduled;
use crate::runnable::COMMON_TYPE;
use crate::task::FangTaskState;
use crate::task::Task;
use crate::task::TaskView;
use vstd::prelude::*;

verus! {

/// A table of task records, kept in the order of their insertion.
pub struct Queue {
    tasks: Vec<Task>,
    next_id: u128,
}

impl View for Queue {
    type V = QueueView;

    closed spec fn view(&self) -> QueueView {
        QueueView { tasks: self.tasks@.map_values(|task: Task| task@), next_id: self.next_id }
    }
}

/// Tells whether two byte strings are equal.
pub fn bytes_equal(a: &Vec<u8>, b: &Vec<u8>) -> (same: bool)
    ensures
        same == (a@ == b@),
{
    if a.len() != b.len() {
        return false;
    }
    let mut k: usize = 0;
    while k < a.len()
        invariant
            a.len() == b.len(),
            k <= a.len(),
            forall|j: int| 0 <= j < k ==> a@[j] == b@[j],
        decreases a.len() - k,
    {
        if a[k] != b[k] {
            return false;
        }
        k += 1;
    }
    assert(a@ =~= b@);
    true
}

/// A predicate over the columns of a task record, for removals.
#[derive(Debug, PartialEq, Eq)]
pub enum Selector {
    /// The task with this id.
    Id(u128),
    /// The tasks of this type.
    Type(String),
    /// The tasks with this payload.
    Metadata(Vec<u8>),
    /// The tasks with this hash.
    UniqHash(Vec<u8>),
    /// The tasks that are due strictly after this instant.
    DueAfter(Instant),
    /// Every task.
    All,
}

impl Selector {
    /// The selector holds of `task`.
    pub open spec fn selects(&self, task: TaskView) -> bool {
        match self {
            Selector::Id(id) => task.id == *id,
            Selector::Type(task_type) => task.task_type == task_type@,
            Selector::Metadata(metadata) => task.metadata == metadata@,
            Selector::UniqHash(hash) => task.uniq_hash == Some(hash@),
            Selector::DueAfter(instant) => instant.before(task.scheduled_at),
            Selector::All => true,
        }
    }

    /// Tells whether the selector holds of `task`.
    pub fn holds_of(&self, task: &Task) -> (yes: bool)
        ensures
            yes == self.selects(task@),
    {
        match self {
            Selector::Id(id) => task.id == *id,
            Selector::Type(task_type) => task.task_type == *task_type,
            Selector::Metadata(metadata) => bytes_equal(&task.metadata, metadata),
            Selector::UniqHash(hash) => match &task.uniq_hash {
                Some(stored) => bytes_equal(stored, hash),
                None => false,
            },
            Selector::DueAfter(instant) => instant.is_before(&task.scheduled_at),
            Selector::All => true,
        }
    }
}

impl Queue {
    /// The ids of the stored tasks are distinct and below the next one.
    pub open spec fn wf(&self) -> bool {
        self@.wf()
    }

    /// An empty queue, whose first task will get the id 0.
    pub fn new() -> (queue: Queue)
        ensures
            queue.wf(),
            queue@ == (QueueView { tasks: Seq::empty(), next_id: 0 }),
    {
        let queue = Queue { tasks: Vec::new(), next_id: 0 };
        assert(queue@.tasks =~= Seq::empty());
        queue
    }

    /// An empty queue whose first task will get the id `first_id`, for a table
    /// that continues the numbering of an earlier one.
    pub fn starting_at(first_id: u128) -> (queue: Queue)
        ensures
            queue.wf(),
            queue@ == (QueueView { tasks: Seq::empty(), next_id: first_id }),
    {
        let queue = Queue { tasks: Vec::new(), next_id: first_id };
        assert(queue@.tasks =~= Seq::empty());
        queue
    }

    /// The number of stored tasks.
    pub fn len(&self) -> (count: usize)
        ensures
            count == self@.tasks.len(),
    {
        self.tasks.len()
    }

    /// The index of the task with the id `id`.
    fn position_of(&self, id: u128) -> (found: Option<usize>)
        ensures
            (match found {
                Some(i) => self@.holds_at(id, i as int),
                None => self@.absent(id),
            }),
    {
        let mut k: usize = 0;
        while k < self.tasks.len()
            invariant
                k <= self.tasks.len(),
                forall|j: int| 0 <= j < k ==> (#[trigger] self@.tasks[j]).id != id,
            decreases self.tasks.len() - k,
        {
            if self.tasks[k].id == id {
                return Some(k);
            }
            k += 1;
        }
        None
    }

    /// Looks a task up by its id.
    pub fn find_task_by_id(&self, id: u128) -> (found: Option<Task>)
        ensures
            (match found {
                Some(task) => exists|i: int|
                    #[trigger] self@.holds_at(id, i) && task@ == self@.tasks[i],
                None => self@.absent(id),
            }),
    {
        match self.position_of(id) {
            Some(i) => {
                assert(self@.holds_at(id, i as int));
                Some(self.tasks[i].clone())
            },
            None => None,
        }
    }

    /// The index of the first task that stands in the way of a new task with
    /// the hash `hash`.
    fn first_blocking_index(&self, hash: &Vec<u8>) -> (found: Option<usize>)
        ensures
            (match found {
                Some(i) => self@.first_blocking(hash@, i as int),
                None => !self@.blocked(hash@),
            }),
    {
        let mut k: usize = 0;
        while k < self.tasks.len()
            invariant
                k <= self.tasks.len(),
                forall|j: int| 0 <= j < k ==> !blocks(#[trigger] self@.tasks[j], hash@),
            decreases self.tasks.len() - k,
        {
            let task = &self.tasks[k];
            if task.state.pending() {
                match &task.uniq_hash {
                    Some(stored) => {
                        if bytes_equal(stored, hash) {
                            return Some(k);
                        }
                    },
                    None => {},
                }
            }
            k += 1;
        }
        None
    }

    /// Stores a new task with the given payload, type, hash and due instant,
    /// unless a task with the same hash is still `New` or `InProgress`: then
    /// that task is handed back and nothing is stored.
    pub fn insert_record(
        &mut self,
        metadata: Vec<u8>,
        task_type: String,
        uniq_hash: Option<Vec<u8>>,
        scheduled_at: Instant,
        now: Instant,
    ) -> (outcome: Result<Task, QueueError>)
        requires
            old(self).wf(),
        ensures
            final(self).wf(),
            old(self)@.stored(
                fresh_task(
                    old(self)@.next_id,
                    metadata@,
                    task_type@,
                    hash_view(uniq_hash),
                    scheduled_at,
                    now,
                ),
                final(self)@,
                outcome_view(outcome),
            ),
    {
        match &uniq_hash {
            Some(hash) => {
                match self.first_blocking_index(hash) {
                    Some(i) => {
                        assert(blocks(self@.tasks[i as int], hash@));
                        return Ok(self.tasks[i].clone());
                    },
                    None => {},
                }
            },
            None => {},
        }
        if self.next_id == u128::MAX {
            return Err(QueueError::IdsExhausted);
        }
        let task = Task {
            id: self.next_id,
            metadata,
            error_message: None,
            state: FangTaskState::New,
            task_type,
            uniq_hash,
            retries: 0,
            scheduled_at,
            created_at: now,
            updated_at: now,
        };
        let copy = task.clone();
        self.next_id = self.next_id + 1;
        self.tasks.push(task);
        assert(self@.tasks =~= old(self)@.tasks.push(copy@));
        Ok(copy)
    }

    /// Enqueues `new_task` for `scheduled_at`, under the digest of its payload
    /// where its kind is unique.
    fn insert_plain(&mut self, new_task: &NewTask, scheduled_at: Instant, now: Instant) -> (outcome:
        Result<Task, QueueError>)
        requires
            old(self).wf(),
        ensures
            final(self).wf(),
            old(self)@.stored(
                plain_candidate(old(self)@.next_id, new_task@, scheduled_at, now),
                final(self)@,
                outcome_view(outcome),
            ),
    {
        let hash = if new_task.uniq {
            Some(content_hash(&new_task.metadata))
        } else {
            None
        };
        self.insert_record(
            new_task.metadata.clone(),
            new_task.task_type.clone(),
            hash,
            scheduled_at,
            now,
        )
    }

    /// Enqueues `new_task` for immediate execution: a new task in state `New`
    /// that is due at `now`. Where the kind is unique and a task with the same
    /// payload is still `New` or `InProgress`, that task is handed back instead
    /// and nothing is stored.
    pub fn insert_task(&mut self, new_task: &NewTask, now: Instant) -> (outcome: Result<
        Task,
        QueueError,
    >)
        requires
            old(self).wf(),
        ensures
            final(self).wf(),
            old(self)@.inserted(new_task@, now, final(self)@, outcome_view(outcome)),
    {
        self.insert_plain(new_task, now, now)
    }

    /// Enqueues the occurrence of the recurring `new_task` that is due at
    /// `due`. A second call for the same occurrence, while the task of the
    /// first is still `New` or `InProgress`, stores nothing and hands that task
    /// back. Without a due instant the outcome is `NoUpcomingOccurrence`.
    pub fn schedule_occurrence(&mut self, new_task: &NewTask, due: Option<Instant>, now: Instant) -> (outcome:
        Result<Task, QueueError>)
        requires
            old(self).wf(),
        ensures
            final(self).wf(),
            old(self)@.materialized(new_task@, due, now, final(self)@, outcome_view(outcome)),
    {
        match due {
            None => Err(QueueError::NoUpcomingOccurrence),
            Some(at) => {
                let hash = occurrence_hash(&new_task.metadata, at);
                self.insert_record(
                    new_task.metadata.clone(),
                    new_task.task_type.clone(),
                    Some(hash),
                    at,
                    now,
                )
            },
        }
    }

    /// Enqueues `new_task` according to its schedule: for its instant where it
    /// is due once, for the next firing of its cron expression after `now`
    /// where it recurs.
    pub fn schedule_task(&mut self, new_task: &NewTask, now: Instant) -> (outcome: Result<
        Task,
        QueueError,
    >)
        requires
            old(self).wf(),
        ensures
            final(self).wf(),
            old(self)@.scheduled(new_task@, now, final(self)@, outcome_view(outcome)),
    {
        match &new_task.schedule {
            None => Err(QueueError::NotSchedulable),
            Some(Scheduled::ScheduleOnce(at)) => self.insert_plain(new_task, *at, now),
            Some(Scheduled::CronPattern(pattern)) => {
                if now.secs > CALENDAR_END {
                    Err(QueueError::ClockOutOfRange)
                } else {
                    let due = next_occurrence(pattern.as_str(), now);
                    self.schedule_occurrence(new_task, due, now)
                }
            },
        }
    }

    /// Tells whether a worker that asks for `task_type` at `now` may claim
    /// the task at index `i`.
    fn eligible_at(&self, i: usize, task_type: &String, common: &String, now: &Instant) -> (yes:
        bool)
        requires
            i < self@.tasks.len(),
            common@ == COMMON_TYPE@,
        ensures
            yes == eligible(self@.tasks[i as int], task_type@, *now),
    {
        let task = &self.tasks[i];
        match task.state {
            FangTaskState::New => task.scheduled_at.is_at_or_before(now) && (task.task_type
                == *task_type || task.task_type == *common),
            _ => false,
        }
    }

    /// Tells whether the task at index `a` is to be claimed before the one at
    /// index `b`.
    fn ahead_at(&self, a: usize, b: usize) -> (yes: bool)
        requires
            a < self@.tasks.len(),
            b < self@.tasks.len(),
        ensures
            yes == ahead_of(self@.tasks[a as int], self@.tasks[b as int]),
    {
        let first = &self.tasks[a];
        let second = &self.tasks[b];
        first.scheduled_at.is_before(&second.scheduled_at) || (first.scheduled_at
            == second.scheduled_at && first.created_at.is_before(&second.created_at))
    }

    /// Claims the task that is due first among those that are `New`, due at
    /// `now`, and of the type `task_type` or of the common type: the task
    /// becomes `InProgress` and its new record is handed out. Ties between tasks
    /// due at the same instant go to the one created first, then to the one
    /// stored first. Where no task is eligible, nothing changes and `None`
    /// comes back.
    pub fn fetch_and_touch_task(&mut self, task_type: String, now: Instant) -> (outcome: Option<
        Task,
    >)
        requires
            old(self).wf(),
        ensures
            final(self).wf(),
            old(self)@.claims(task_type@, now, final(self)@, found_view(outcome)),
    {
        let common: String = COMMON_TYPE.to_owned();
        let mut best: Option<usize> = None;
        let mut k: usize = 0;
        while k < self.tasks.len()
            invariant
                k <= self.tasks.len(),
                common@ == COMMON_TYPE@,
                match best {
                    None => forall|j: int|
                        0 <= j < k ==> !eligible(#[trigger] self@.tasks[j], task_type@, now),
                    Some(b) => {
                        &&& b < k
                        &&& eligible(self@.tasks[b as int], task_type@, now)
                        &&& forall|j: int|
                            0 <= j < k && eligible(#[trigger] self@.tasks[j], task_type@, now)
                                ==> !ahead_of(self@.tasks[j], self@.tasks[b as int]) && (j < b
                                ==> ahead_of(self@.tasks[b as int], self@.tasks[j]))
                    },
                },
            decreases self.tasks.len() - k,
        {
            if self.eligible_at(k, &task_type, &common, &now) {
                match best {
                    None => {
                        best = Some(k);
                    },
                    Some(b) => {
                        if self.ahead_at(k, b) {
                            best = Some(k);
                        }
                    },
                }
            }
            k += 1;
        }
        match best {
            None => None,
            Some(b) => {
                let mut task = self.tasks[b].clone();
                task.state = FangTaskState::InProgress;
                task.updated_at = now;
                let copy = task.clone();
                self.tasks.set(b, task);
                proof {
                    assert(old(self)@.next_claim(task_type@, now, b as int));
                    assert(copy@ == claimed(old(self)@.tasks[b as int], now));
                    assert(self@.tasks =~= old(self)@.tasks.update(b as int, copy@));
                }
                Some(copy)
            },
        }
    }

    /// Puts `task` in the place of the record at index `i`, which has the same
    /// id, and hands back a copy of it.
    fn replace(&mut self, i: usize, task: Task) -> (copy: Task)
        requires
            old(self).wf(),
            i < old(self)@.tasks.len(),
            task.id == old(self)@.tasks[i as int].id,
        ensures
            final(self).wf(),
            copy@ == task@,
            final(self)@ == (QueueView {
                tasks: old(self)@.tasks.update(i as int, task@),
                next_id: old(self)@.next_id,
            }),
    {
        let copy = task.clone();
        self.tasks.set(i, task);
        assert(self@.tasks =~= old(self)@.tasks.update(i as int, copy@));
        copy
    }

    /// Sets the state of the stored task that has the id of `task`, whatever
    /// its state was, and refreshes `updated_at`.
    pub fn update_task_state(&mut self, task: &Task, state: FangTaskState, now: Instant) -> (outcome:
        Result<Task, QueueError>)
        requires
            old(self).wf(),
        ensures
            final(self).wf(),
            old(self)@.amended(
                task.id,
                |stored: TaskView| with_state(stored, state, now),
                final(self)@,
                outcome_view(outcome),
            ),
    {
        match self.position_of(task.id) {
            None => Err(QueueError::TaskNotFound),
            Some(i) => {
                let mut updated = self.tasks[i].clone();
                updated.state = state;
                updated.updated_at = now;
                assert(old(self)@.holds_at(task.id, i as int));
                Ok(self.replace(i, updated))
            },
        }
    }

    /// Marks the stored task that has the id of `task` as `Failed` and records
    /// why. The retry counter stays as it is.
    pub fn fail_task(&mut self, task: &Task, error_message: &str, now: Instant) -> (outcome: Result<
        Task,
        QueueError,
    >)
        requires
            old(self).wf(),
        ensures
            final(self).wf(),
            old(self)@.amended(
                task.id,
                |stored: TaskView| failed(stored, error_message@, now),
                final(self)@,
                outcome_view(outcome),
            ),
    {
        match self.position_of(task.id) {
            None => Err(QueueError::TaskNotFound),
            Some(i) => {
                let mut updated = self.tasks[i].clone();
                updated.state = FangTaskState::Failed;
                updated.error_message = Some(error_message.to_owned());
                updated.updated_at = now;
                assert(old(self)@.holds_at(task.id, i as int));
                Ok(self.replace(i, updated))
            },
        }
    }

    /// Sends the stored task that has the id of `task` back to `New` after a
    /// failed attempt: the retry counter goes up by one, the task is due again
    /// `backoff_seconds` after `now`, and the error is recorded.
    pub fn schedule_retry(
        &mut self,
        task: &Task,
        backoff_seconds: u32,
        error_message: &str,
        now: Instant,
    ) -> (outcome: Result<Task, QueueError>)
        requires
            old(self).wf(),
        ensures
            final(self).wf(),
            old(self)@.amended(
                task.id,
                |stored: TaskView| retried(stored, backoff_seconds, error_message@, now),
                final(self)@,
                outcome_view(outcome),
            ),
    {
        match self.position_of(task.id) {
            None => Err(QueueError::TaskNotFound),
            Some(i) => {
                let mut updated = self.tasks[i].clone();
                updated.state = FangTaskState::New;
                updated.error_message = Some(error_message.to_owned());
                if updated.retries < i32::MAX {
                    updated.retries = updated.retries + 1;
                }
                updated.scheduled_at = now.plus_seconds(backoff_seconds);
                updated.updated_at = now;
                assert(old(self)@.holds_at(task.id, i as int));
                Ok(self.replace(i, updated))
            },
        }
    }

    /// Removes every task that `selector` holds of and tells how many went.
    /// The other tasks stay as they are, in their order.
    pub fn remove_where(&mut self, selector: &Selector) -> (count: usize)
        requires
            old(self).wf(),
        ensures
            final(self).wf(),
            old(self)@.purged(|task: TaskView| selector.selects(task), final(self)@, count),
    {
        let ghost doomed = |task: TaskView| selector.selects(task);
        let ghost keep = |task: TaskView| !doomed(task);
        let ghost before = self@.tasks;
        let mut kept: Vec<Task> = Vec::new();
        let mut k: usize = 0;
        proof {
            reveal(Seq::filter);
            assert(before.take(0) =~= Seq::<TaskView>::empty());
            assert(kept@.map_values(|task: Task| task@) =~= before.take(0).filter(keep));
        }
        while k < self.tasks.len()
            invariant
                k <= self.tasks.len(),
                before == self@.tasks,
                self@ == old(self)@,
                doomed == (|task: TaskView| selector.selects(task)),
                keep == (|task: TaskView| !doomed(task)),
                kept@.map_values(|task: Task| task@) == before.take(k as int).filter(keep),
            decreases self.tasks.len() - k,
        {
            proof {
                assert(before.take(k as int + 1) =~= before.take(k as int).push(before[k as int]));
                before.take(k as int).lemma_filter_push(before[k as int], keep);
            }
            if !selector.holds_of(&self.tasks[k]) {
                let ghost so_far = kept@.map_values(|task: Task| task@);
                kept.push(self.tasks[k].clone());
                assert(kept@.map_values(|task: Task| task@) =~= so_far.push(before[k as int]));
            }
            k += 1;
        }
        proof {
            assert(before.take(k as int) =~= before);
            before.lemma_filter_len(keep);
            lemma_purge_keeps_wf(old(self)@, keep);
        }
        let count = self.tasks.len() - kept.len();
        self.tasks = kept;
        count
    }

    /// Removes the task with the id `id`, if it is stored, and tells how many
    /// tasks went.
    pub fn remove_task(&mut self, id: u128) -> (count: usize)
        requires
            old(self).wf(),
        ensures
            final(self).wf(),
            old(self)@.purged(|task: TaskView| task.id == id, final(self)@, count),
    {
        let selector = Selector::Id(id);
        let count = self.remove_where(&selector);
        proof {
            lemma_purged_same(
                old(self)@,
                |task: TaskView| selector.selects(task),
                |task: TaskView| task.id == id,
                self@,
                count,
            );
        }
        count
    }

    /// Removes the tasks whose type is `task_type`, and no others, and tells
    /// how many went.
    pub fn remove_tasks_of_type(&mut self, task_type: &str) -> (count: usize)
        requires
            old(self).wf(),
        ensures
            final(self).wf(),
            old(self)@.purged(
                |task: TaskView| task.task_type == task_type@,
                final(self)@,
                count,
            ),
    {
        let selector = Selector::Type(task_type.to_owned());
        let count = self.remove_where(&selector);
        proof {
            lemma_purged_same(
                old(self)@,
                |task: TaskView| selector.selects(task),
                |task: TaskView| task.task_type == task_type@,
                self@,
                count,
            );
        }
        count
    }

    /// Removes the tasks whose payload is `metadata` and tells how many went.
    pub fn remove_task_by_metadata(&mut self, metadata: &Vec<u8>) -> (count: usize)
        requires
            old(self).wf(),
        ensures
            final(self).wf(),
            old(self)@.purged(|task: TaskView| task.metadata == metadata@, final(self)@, count),
    {
        let selector = Selector::Metadata(metadata.clone());
        let count = self.remove_where(&selector);
        proof {
            lemma_purged_same(
                old(self)@,
                |task: TaskView| selector.selects(task),
                |task: TaskView| task.metadata == metadata@,
                self@,
                count,
            );
        }
        count
    }

    /// Removes the tasks that are not yet due at `now` and tells how many
    /// went.
    pub fn remove_all_scheduled_tasks(&mut self, now: Instant) -> (count: usize)
        requires
            old(self).wf(),
        ensures
            final(self).wf(),
            old(self)@.purged(
                |task: TaskView| now.before(task.scheduled_at),
                final(self)@,
                count,
            ),
    {
        let selector = Selector::DueAfter(now);
        let count = self.remove_where(&selector);
        proof {
            lemma_purged_same(
                old(self)@,
                |task: TaskView| selector.selects(task),
                |task: TaskView| now.before(task.scheduled_at),
                self@,
                count,
            );
        }
        count
    }

    /// Removes every task and tells how many went.
    pub fn remove_all_tasks(&mut self) -> (count: usize)
        requires
            old(self).wf(),
        ensures
            final(self).wf(),
            final(self)@ == (QueueView { tasks: Seq::empty(), next_id: old(self)@.next_id }),
            count == old(self)@.tasks.len(),
    {
        let selector = Selector::All;
        let count = self.remove_where(&selector);
        proof {
            let doomed = |task: TaskView| selector.selects(task);
            old(self)@.tasks.lemma_all_neg_filter_empty(|task: TaskView| !doomed(task));
            assert(self@.tasks =~= Seq::empty());
        }
        count
    }
}

} // verus!
