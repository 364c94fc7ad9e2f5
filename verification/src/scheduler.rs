//! The scheduler: on every tick it enqueues the next occurrence of each
//! recurring task, once.

use crate::calendar::cron_next_after;
use crate::calendar::next_occurrence;
use crate::calendar::CALENDAR_END;
use crate::instant::Instant;
use crate::model::outcome_view;
use crate::model::QueueError;
use crate::model::QueueView;
use crate::queue::Queue;
use crate::runnable::NewTask;
use crate::runnable::NewTaskView;
use crate::runnable::Scheduled;
use crate::runnable::ScheduledView;
use crate::task::Task;
use crate::task::TaskView;
use vstd::prelude::*;

verus! {

/// A recurring task as the scheduler knows it: what to enqueue, and the due
/// instant of the latest occurrence that it has enqueued.
pub struct Recurring {
    new_task: NewTask,
    last_due: Option<Instant>,
}

/// The mathematical content of a [`Recurring`].
pub struct RecurringView {
    pub new_task: NewTaskView,
    pub last_due: Option<Instant>,
}

impl View for Recurring {
    type V = RecurringView;

    closed spec fn view(&self) -> RecurringView {
        RecurringView { new_task: self.new_task@, last_due: self.last_due }
    }
}

/// The view of an attempt that may not have been made.
pub open spec fn attempt_view(attempt: Option<Result<Task, QueueError>>) -> Option<
    Result<TaskView, QueueError>,
> {
    match attempt {
        Some(outcome) => Some(outcome_view(outcome)),
        None => None,
    }
}

impl RecurringView {
    /// The occurrence that a tick at `now` is to enqueue: the first firing of
    /// the cron expression after `now`. Occurrences before `now` that were
    /// missed are not made up for. After the year 9999 there is none, nor for
    /// a task without a cron expression.
    pub open spec fn due_after(self, now: Instant) -> Option<Instant> {
        match self.new_task.schedule {
            Some(ScheduledView::CronPattern(pattern)) => if now.secs > CALENDAR_END {
                None
            } else {
                cron_next_after(pattern, now)
            },
            _ => None,
        }
    }

    /// The occurrence due at `due` has not been enqueued yet: it lies strictly
    /// after the latest one that has.
    pub open spec fn is_news(self, due: Instant) -> bool {
        match self.last_due {
            Some(latest) => latest.before(due),
            None => true,
        }
    }

    /// What a tick does for the recurring task, given the occurrence `due` that is next.
    ///
    /// Where there is no next occurrence, or it has been enqueued already,
    /// nothing happens and no attempt is reported. Otherwise the occurrence is
    /// enqueued; where the queue hands a record back, the scheduler remembers
    /// the due instant.
    pub open spec fn ticked(
        self,
        table: QueueView,
        due: Option<Instant>,
        now: Instant,
        post: RecurringView,
        table_post: QueueView,
        attempt: Option<Result<TaskView, QueueError>>,
    ) -> bool {
        if due is Some && self.is_news(due->0) {
            &&& attempt is Some
            &&& table.materialized(self.new_task, due, now, table_post, attempt->0)
            &&& post == if attempt->0 is Ok {
                RecurringView { last_due: due, ..self }
            } else {
                self
            }
        } else {
            &&& attempt is None
            &&& table_post == table
            &&& post == self
        }
    }
}

/// A whole tick at `now`: the recurring tasks are gone through in their
/// order, each finds the table as the one before it left it, and
/// `attempts[k]` tells what came of task number `k`.
pub open spec fn tick_run(
    entries: Seq<RecurringView>,
    tables: Seq<QueueView>,
    now: Instant,
    entries_post: Seq<RecurringView>,
    attempts: Seq<Option<Result<TaskView, QueueError>>>,
) -> bool {
    &&& tables.len() == entries.len() + 1
    &&& entries_post.len() == entries.len()
    &&& attempts.len() == entries.len()
    &&& forall|k: int|
        0 <= k < entries.len() ==> (#[trigger] entries[k]).ticked(
            tables[k],
            entries[k].due_after(now),
            now,
            entries_post[k],
            tables[k + 1],
            attempts[k],
        )
}

/// The recurring tasks that are enqueued on every tick.
pub struct Scheduler {
    entries: Vec<Recurring>,
}

impl View for Scheduler {
    type V = Seq<RecurringView>;

    closed spec fn view(&self) -> Seq<RecurringView> {
        self.entries@.map_values(|entry: Recurring| entry@)
    }
}

impl Scheduler {
    /// A scheduler that knows no task yet.
    pub fn new() -> (scheduler: Scheduler)
        ensures
            scheduler@ == Seq::<RecurringView>::empty(),
    {
        let scheduler = Scheduler { entries: Vec::new() };
        assert(scheduler@ =~= Seq::<RecurringView>::empty());
        scheduler
    }

    /// The number of recurring tasks.
    pub fn len(&self) -> (count: usize)
        ensures
            count == self@.len(),
    {
        self.entries.len()
    }

    /// Adds a recurring task, of which no occurrence has been enqueued yet. A
    /// task without a cron expression is not taken.
    pub fn register(&mut self, new_task: NewTask) -> (taken: bool)
        ensures
            taken == (new_task@.schedule matches Some(ScheduledView::CronPattern(_))),
            final(self)@ == (if taken {
                old(self)@.push(RecurringView { new_task: new_task@, last_due: None })
            } else {
                old(self)@
            }),
    {
        let recurring = match &new_task.schedule {
            Some(Scheduled::CronPattern(_)) => true,
            _ => false,
        };
        if recurring {
            let ghost added = RecurringView { new_task: new_task@, last_due: None };
            self.entries.push(Recurring { new_task, last_due: None });
            assert(self@ =~= old(self)@.push(added));
        }
        recurring
    }

    /// Does for the task number `index` what a tick does, given the
    /// occurrence `due` that is next. Where the scheduler has no such task
    /// nothing happens.
    pub fn materialize(&mut self, index: usize, queue: &mut Queue, due: Option<Instant>, now: Instant) -> (attempt:
        Option<Result<Task, QueueError>>)
        requires
            old(queue).wf(),
        ensures
            final(queue).wf(),
            final(self)@.len() == old(self)@.len(),
            (if index < old(self)@.len() {
                &&& final(self)@ == old(self)@.update(index as int, final(self)@[index as int])
                &&& old(self)@[index as int].ticked(
                    old(queue)@,
                    due,
                    now,
                    final(self)@[index as int],
                    final(queue)@,
                    attempt_view(attempt),
                )
            } else {
                &&& final(self)@ == old(self)@
                &&& final(queue)@ == old(queue)@
                &&& attempt is None
            }),
    {
        if index >= self.entries.len() {
            return None;
        }
        let at = match due {
            None => {
                return None;
            },
            Some(at) => at,
        };
        let news = match self.entries[index].last_due {
            Some(latest) => latest.is_before(&at),
            None => true,
        };
        if !news {
            return None;
        }
        let outcome = queue.schedule_occurrence(&self.entries[index].new_task, due, now);
        if outcome.is_ok() {
            self.entries[index].last_due = due;
        }
        assert(self@ =~= old(self)@.update(index as int, self@[index as int]));
        Some(outcome)
    }

    /// The occurrence of the task number `index` that a tick at `now` is to
    /// enqueue.
    fn next_due(&self, index: usize, now: Instant) -> (due: Option<Instant>)
        requires
            index < self@.len(),
        ensures
            due == self@[index as int].due_after(now),
    {
        match &self.entries[index].new_task.schedule {
            Some(Scheduled::CronPattern(pattern)) => {
                if now.secs > CALENDAR_END {
                    None
                } else {
                    next_occurrence(pattern.as_str(), now)
                }
            },
            _ => None,
        }
    }

    /// One tick at `now`: for each recurring task, in the order of their
    /// registration, the next occurrence after `now` is enqueued unless it
    /// has been already. Tells how many records the queue has gained.
    pub fn tick(&mut self, queue: &mut Queue, now: Instant) -> (gained: usize)
        requires
            old(queue).wf(),
        ensures
            final(queue).wf(),
            gained == final(queue)@.tasks.len() - old(queue)@.tasks.len(),
            exists|tables: Seq<QueueView>, attempts: Seq<Option<Result<TaskView, QueueError>>>|
                ({
                    &&& #[trigger] tick_run(old(self)@, tables, now, final(self)@, attempts)
                    &&& tables[0] == old(queue)@
                    &&& tables[old(self)@.len() as int] == final(queue)@
                }),
    {
        let ghost mut tables: Seq<QueueView> = seq![queue@];
        let ghost mut attempts: Seq<Option<Result<TaskView, QueueError>>> = Seq::empty();
        let before = queue.len();
        let mut k: usize = 0;
        while k < self.entries.len()
            invariant
                k <= self.entries.len(),
                queue.wf(),
                self@.len() == old(self)@.len(),
                tables.len() == k + 1,
                attempts.len() == k,
                tables[0] == old(queue)@,
                tables[k as int] == queue@,
                before == old(queue)@.tasks.len(),
                before <= queue@.tasks.len(),
                forall|j: int| k <= j < self@.len() ==> #[trigger] self@[j] == old(self)@[j],
                forall|j: int|
                    0 <= j < k ==> (#[trigger] old(self)@[j]).ticked(
                        tables[j],
                        old(self)@[j].due_after(now),
                        now,
                        self@[j],
                        tables[j + 1],
                        attempts[j],
                    ),
            decreases self.entries.len() - k,
        {
            let due = self.next_due(k, now);
            let ghost entries_before = self@;
            let ghost table_before = queue@;
            let attempt = self.materialize(k, queue, due, now);
            proof {
                tables = tables.push(queue@);
                attempts = attempts.push(attempt_view(attempt));
                lemma_tick_never_shrinks(
                    entries_before[k as int],
                    table_before,
                    due,
                    now,
                    self@[k as int],
                    queue@,
                    attempt_view(attempt),
                );
                assert forall|j: int| 0 <= j < k + 1 implies (#[trigger] old(self)@[j]).ticked(
                    tables[j],
                    old(self)@[j].due_after(now),
                    now,
                    self@[j],
                    tables[j + 1],
                    attempts[j],
                ) by {
                    if j < k {
                        assert(self@[j] == entries_before[j]);
                    }
                }
            }
            k += 1;
        }
        let after = queue.len();
        proof {
            assert(tick_run(old(self)@, tables, now, self@, attempts));
        }
        after - before
    }
}

/// What a tick does for one task never removes a record from the table.
pub proof fn lemma_tick_never_shrinks(
    entry: RecurringView,
    table: QueueView,
    due: Option<Instant>,
    now: Instant,
    post: RecurringView,
    table_post: QueueView,
    attempt: Option<Result<TaskView, QueueError>>,
)
    requires
        entry.ticked(table, due, now, post, table_post, attempt),
    ensures
        table.tasks.len() <= table_post.tasks.len() <= table.tasks.len() + 1,
{
}

/// Two ticks for one occurrence enqueue it once: after a tick has enqueued the
/// occurrence that is due at `due`, a tick that finds the same occurrence next
/// attempts nothing and leaves the table and the scheduler as they are.
pub proof fn law_tick_twice(
    entry: RecurringView,
    table: QueueView,
    due: Instant,
    first_now: Instant,
    second_now: Instant,
    after_first: RecurringView,
    table_after_first: QueueView,
    first: TaskView,
    after_second: RecurringView,
    table_after_second: QueueView,
    second: Option<Result<TaskView, QueueError>>,
)
    requires
        entry.ticked(
            table,
            Some(due),
            first_now,
            after_first,
            table_after_first,
            Some(Ok(first)),
        ),
        after_first.ticked(
            table_after_first,
            Some(due),
            second_now,
            after_second,
            table_after_second,
            second,
        ),
    ensures
        second is None,
        table_after_second == table_after_first,
        after_second == after_first,
        table_after_first.tasks.len() <= table.tasks.len() + 1,
{
}

} // verus!
