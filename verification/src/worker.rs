//! The worker: what it does with a claimed task once the execution has ended,
//! and which step it takes next.
//!
//! A worker alternates between the queue and the task. The library decides;
//! the caller carries the steps out: it runs the task, sleeps, and stops.

use crate::instant::Instant;
use crate::model::failed;
use crate::model::found_view;
use crate::model::lemma_amended_same;
use crate::model::outcome_view;
use crate::model::retried;
use crate::model::with_state;
use crate::model::QueueError;
use crate::model::QueueView;
use crate::queue::Queue;
use crate::runnable::Runnable;
use crate::task::FangTaskState;
use crate::task::Task;
use crate::task::TaskView;
use vstd::prelude::*;

verus! {

/// The message recorded for a task whose execution ended abnormally.
pub const ABORT_MESSAGE: &'static str = "the task aborted while it ran";

/// The error that a task reports when its execution fails.
#[derive(Debug, PartialEq, Eq)]
pub struct FangError {
    pub description: String,
}

/// How the execution of a claimed task ended.
#[derive(Debug, PartialEq, Eq)]
pub enum Outcome {
    /// The task ran and reported success.
    Completed,
    /// The task ran and reported an error.
    Failed(FangError),
    /// The task ended abnormally while it ran.
    Aborted,
    /// The payload could not be turned back into a task; the text says why.
    Undecodable(String),
}

/// The mathematical content of an [`Outcome`].
pub enum OutcomeView {
    Completed,
    Failed(Seq<char>),
    Aborted,
    Undecodable(Seq<char>),
}

impl View for Outcome {
    type V = OutcomeView;

    open spec fn view(&self) -> OutcomeView {
        match self {
            Outcome::Completed => OutcomeView::Completed,
            Outcome::Failed(error) => OutcomeView::Failed(error.description@),
            Outcome::Aborted => OutcomeView::Aborted,
            Outcome::Undecodable(reason) => OutcomeView::Undecodable(reason@),
        }
    }
}

/// What is to become of a task after an execution.
#[derive(Debug, PartialEq, Eq)]
pub enum Resolution {
    /// The task is done.
    Finish,
    /// The task is tried again after a delay.
    Retry { backoff_seconds: u32, error: String },
    /// The task has failed for good.
    Fail { error: String },
}

/// The mathematical content of a [`Resolution`].
pub enum ResolutionView {
    Finish,
    Retry { backoff_seconds: u32, error: Seq<char> },
    Fail { error: Seq<char> },
}

impl View for Resolution {
    type V = ResolutionView;

    open spec fn view(&self) -> ResolutionView {
        match self {
            Resolution::Finish => ResolutionView::Finish,
            Resolution::Retry { backoff_seconds, error } => ResolutionView::Retry {
                backoff_seconds: *backoff_seconds,
                error: error@,
            },
            Resolution::Fail { error } => ResolutionView::Fail { error: error@ },
        }
    }
}

/// The resolution of a task that has been retried `retries` times, after an
/// execution that ended with `outcome`, under a policy of `max_retries` retries
/// with `backoff_seconds` before the next one.
///
/// Success finishes the task. A payload that cannot be decoded fails it at
/// once. An error or an abnormal end leads to a retry as long as retries are
/// left, and fails the task otherwise.
pub open spec fn resolution_for(
    retries: i32,
    outcome: OutcomeView,
    max_retries: i32,
    backoff_seconds: u32,
) -> ResolutionView {
    match outcome {
        OutcomeView::Completed => ResolutionView::Finish,
        OutcomeView::Undecodable(reason) => ResolutionView::Fail { error: reason },
        OutcomeView::Failed(description) => if retries < max_retries {
            ResolutionView::Retry { backoff_seconds, error: description }
        } else {
            ResolutionView::Fail { error: description }
        },
        OutcomeView::Aborted => if retries < max_retries {
            ResolutionView::Retry { backoff_seconds, error: ABORT_MESSAGE@ }
        } else {
            ResolutionView::Fail { error: ABORT_MESSAGE@ }
        },
    }
}

/// The record of `task` after `resolution` has been applied to it at `now`.
pub open spec fn settled(task: TaskView, resolution: ResolutionView, now: Instant) -> TaskView {
    match resolution {
        ResolutionView::Finish => with_state(task, FangTaskState::Finished, now),
        ResolutionView::Retry { backoff_seconds, error } => retried(
            task,
            backoff_seconds,
            error,
            now,
        ),
        ResolutionView::Fail { error } => failed(task, error, now),
    }
}

/// The number of the retry that follows `retries` earlier ones, as it is
/// handed to the backoff of a kind: the retries so far, none where the counter
/// is negative.
pub open spec fn attempt_after(retries: i32) -> u32 {
    if retries < 0 {
        0
    } else {
        retries as u32
    }
}

/// Computes the number of the retry that follows `retries` earlier ones.
pub fn attempt_number(retries: i32) -> (attempt: u32)
    ensures
        attempt == attempt_after(retries),
{
    if retries < 0 {
        0
    } else {
        retries as u32
    }
}

/// Decides what is to become of a task after an execution.
pub fn decide(retries: i32, outcome: &Outcome, max_retries: i32, backoff_seconds: u32) -> (resolution:
    Resolution)
    ensures
        resolution@ == resolution_for(retries, outcome@, max_retries, backoff_seconds),
{
    match outcome {
        Outcome::Completed => Resolution::Finish,
        Outcome::Undecodable(reason) => Resolution::Fail { error: reason.clone() },
        Outcome::Failed(error) => {
            if retries < max_retries {
                Resolution::Retry { backoff_seconds, error: error.description.clone() }
            } else {
                Resolution::Fail { error: error.description.clone() }
            }
        },
        Outcome::Aborted => {
            if retries < max_retries {
                Resolution::Retry { backoff_seconds, error: ABORT_MESSAGE.to_owned() }
            } else {
                Resolution::Fail { error: ABORT_MESSAGE.to_owned() }
            }
        },
    }
}

/// Applies `resolution` to the stored task that has the id of `task`.
pub fn resolve(queue: &mut Queue, task: &Task, resolution: &Resolution, now: Instant) -> (outcome:
    Result<Task, QueueError>)
    requires
        old(queue).wf(),
    ensures
        final(queue).wf(),
        old(queue)@.amended(
            task.id,
            |stored: TaskView| settled(stored, resolution@, now),
            final(queue)@,
            outcome_view(outcome),
        ),
{
    match resolution {
        Resolution::Finish => {
            let outcome = queue.update_task_state(task, FangTaskState::Finished, now);
            proof {
                lemma_amended_same(
                    old(queue)@,
                    task.id,
                    |stored: TaskView| with_state(stored, FangTaskState::Finished, now),
                    |stored: TaskView| settled(stored, resolution@, now),
                    queue@,
                    outcome_view(outcome),
                );
            }
            outcome
        },
        Resolution::Retry { backoff_seconds, error } => {
            let outcome = queue.schedule_retry(task, *backoff_seconds, error.as_str(), now);
            proof {
                lemma_amended_same(
                    old(queue)@,
                    task.id,
                    |stored: TaskView| retried(stored, *backoff_seconds, error@, now),
                    |stored: TaskView| settled(stored, resolution@, now),
                    queue@,
                    outcome_view(outcome),
                );
            }
            outcome
        },
        Resolution::Fail { error } => {
            let outcome = queue.fail_task(task, error.as_str(), now);
            proof {
                lemma_amended_same(
                    old(queue)@,
                    task.id,
                    |stored: TaskView| failed(stored, error@, now),
                    |stored: TaskView| settled(stored, resolution@, now),
                    queue@,
                    outcome_view(outcome),
                );
            }
            outcome
        },
    }
}

/// What a worker is to do next.
#[derive(Debug, PartialEq, Eq)]
pub enum Step {
    /// Run the given task, then settle it.
    Execute(Task),
    /// Nothing is due: wait this many seconds, then poll again.
    Sleep(u32),
    /// Shutdown was requested and no task is in flight: leave the loop.
    Stop,
}

/// The mathematical content of a [`Step`].
pub enum StepView {
    Execute(TaskView),
    Sleep(u32),
    Stop,
}

impl View for Step {
    type V = StepView;

    open spec fn view(&self) -> StepView {
        match self {
            Step::Execute(task) => StepView::Execute(task@),
            Step::Sleep(seconds) => StepView::Sleep(*seconds),
            Step::Stop => StepView::Stop,
        }
    }
}

/// What came of an attempt to claim a task.
#[derive(Debug, PartialEq, Eq)]
pub enum ClaimAttempt {
    /// The queue handed out the given task.
    Claimed(Task),
    /// The queue had no eligible task.
    Empty,
    /// The store could not be reached.
    StorageFailed,
}

/// One worker: the type of the tasks it asks for, how long it waits when
/// nothing is due, the task it has claimed and not yet settled, and whether it
/// has been told to stop.
pub struct Worker {
    task_type: String,
    poll_interval_seconds: u32,
    in_flight: Option<Task>,
    stop_requested: bool,
}

/// The mathematical content of a [`Worker`].
pub struct WorkerView {
    pub task_type: Seq<char>,
    pub poll_interval_seconds: u32,
    pub in_flight: Option<TaskView>,
    pub stop_requested: bool,
}

impl View for Worker {
    type V = WorkerView;

    closed spec fn view(&self) -> WorkerView {
        WorkerView {
            task_type: self.task_type@,
            poll_interval_seconds: self.poll_interval_seconds,
            in_flight: found_view(self.in_flight),
            stop_requested: self.stop_requested,
        }
    }
}

impl WorkerView {
    /// The step that follows an attempt to claim a task, and the worker after
    /// it. A claimed task is in flight from then on and is to be executed; an
    /// empty queue and a failing store both send the worker to sleep for its
    /// poll interval.
    pub open spec fn after_claim(self, claim: Option<TaskView>, post: WorkerView, step: StepView) -> bool {
        match claim {
            Some(task) => {
                &&& post == (WorkerView { in_flight: Some(task), ..self })
                &&& step == StepView::Execute(task)
            },
            None => {
                &&& post == self
                &&& step == StepView::Sleep(self.poll_interval_seconds)
            },
        }
    }

    /// One poll of the worker against the table `table` at `now`.
    ///
    /// A task in flight is still to be executed, and nothing else happens.
    /// Without one, a worker told to stop stops and leaves the table alone;
    /// any other claims a task of its type.
    pub open spec fn polled(
        self,
        table: QueueView,
        now: Instant,
        post: WorkerView,
        table_post: QueueView,
        step: StepView,
    ) -> bool {
        match self.in_flight {
            Some(task) => {
                &&& post == self
                &&& table_post == table
                &&& step == StepView::Execute(task)
            },
            None => if self.stop_requested {
                &&& post == self
                &&& table_post == table
                &&& step == StepView::Stop
            } else {
                let claim = match step {
                    StepView::Execute(task) => Some(task),
                    _ => None,
                };
                &&& table.claims(self.task_type, now, table_post, claim)
                &&& self.after_claim(claim, post, step)
            },
        }
    }

    /// The settlement at `now` of the task in flight, after an execution that
    /// ended with `outcome`, under a policy of `max_retries` retries with
    /// `backoff_seconds` before the next one.
    ///
    /// Without a task in flight nothing happens. With one, the worker lets go
    /// of it, and the stored task with its id is resolved as
    /// [`resolution_for`] says of the retries that the claimed record shows.
    pub open spec fn settles(
        self,
        table: QueueView,
        outcome: OutcomeView,
        max_retries: i32,
        backoff_seconds: u32,
        now: Instant,
        post: WorkerView,
        table_post: QueueView,
        result: Option<Result<TaskView, QueueError>>,
    ) -> bool {
        match self.in_flight {
            None => {
                &&& post == self
                &&& table_post == table
                &&& result is None
            },
            Some(task) => {
                &&& post == (WorkerView { in_flight: None, ..self })
                &&& result is Some
                &&& table.amended(
                    task.id,
                    |stored: TaskView|
                        settled(
                            stored,
                            resolution_for(task.retries, outcome, max_retries, backoff_seconds),
                            now,
                        ),
                    table_post,
                    result->0,
                )
            },
        }
    }
}

/// The view of a settlement that may not have taken place.
pub open spec fn settlement_view(result: Option<Result<Task, QueueError>>) -> Option<
    Result<TaskView, QueueError>,
> {
    match result {
        Some(outcome) => Some(outcome_view(outcome)),
        None => None,
    }
}

/// The view of what an attempt to claim a task brought.
pub open spec fn claim_view(attempt: ClaimAttempt) -> Option<TaskView> {
    match attempt {
        ClaimAttempt::Claimed(task) => Some(task@),
        ClaimAttempt::Empty => None,
        ClaimAttempt::StorageFailed => None,
    }
}

impl Worker {
    /// A worker for tasks of the type `task_type`, or of the common type, that
    /// waits `poll_interval_seconds` when nothing is due.
    pub fn new(task_type: String, poll_interval_seconds: u32) -> (worker: Worker)
        ensures
            worker@ == (WorkerView {
                task_type: task_type@,
                poll_interval_seconds,
                in_flight: None,
                stop_requested: false,
            }),
    {
        Worker { task_type, poll_interval_seconds, in_flight: None, stop_requested: false }
    }

    /// Tells the worker to claim no more tasks. A task in flight is not
    /// touched: it is still executed and settled.
    pub fn request_stop(&mut self)
        ensures
            final(self)@ == (WorkerView { stop_requested: true, ..old(self)@ }),
    {
        self.stop_requested = true;
    }

    /// Tells whether the worker has been told to stop.
    pub fn stop_requested(&self) -> (yes: bool)
        ensures
            yes == self@.stop_requested,
    {
        self.stop_requested
    }

    /// Tells whether the worker holds a task that it has claimed and not yet
    /// settled.
    pub fn is_busy(&self) -> (yes: bool)
        ensures
            yes == self@.in_flight is Some,
    {
        self.in_flight.is_some()
    }

    /// Tells whether the worker is to claim a task now: it holds none and has
    /// not been told to stop.
    pub fn wants_claim(&self) -> (yes: bool)
        ensures
            yes == (self@.in_flight is None && !self@.stop_requested),
    {
        self.in_flight.is_none() && !self.stop_requested
    }

    /// Takes note of an attempt to claim a task, made for a worker that
    /// [`Worker::wants_claim`], and tells what to do next. A failing store is
    /// passed over like an empty queue: the worker sleeps and polls again.
    pub fn note_claim(&mut self, attempt: ClaimAttempt) -> (step: Step)
        ensures
            old(self)@.after_claim(claim_view(attempt), final(self)@, step@),
    {
        match attempt {
            ClaimAttempt::Claimed(task) => {
                let copy = task.clone();
                self.in_flight = Some(task);
                Step::Execute(copy)
            },
            ClaimAttempt::Empty => Step::Sleep(self.poll_interval_seconds),
            ClaimAttempt::StorageFailed => Step::Sleep(self.poll_interval_seconds),
        }
    }

    /// Polls `queue` once and tells what to do next.
    pub fn poll(&mut self, queue: &mut Queue, now: Instant) -> (step: Step)
        requires
            old(queue).wf(),
        ensures
            final(queue).wf(),
            old(self)@.polled(old(queue)@, now, final(self)@, final(queue)@, step@),
    {
        match &self.in_flight {
            Some(task) => {
                return Step::Execute(task.clone());
            },
            None => {},
        }
        if self.stop_requested {
            return Step::Stop;
        }
        let attempt = match queue.fetch_and_touch_task(self.task_type.clone(), now) {
            Some(task) => ClaimAttempt::Claimed(task),
            None => ClaimAttempt::Empty,
        };
        self.note_claim(attempt)
    }

    /// Settles the task in flight after its execution has ended with
    /// `outcome`, under a policy of `max_retries` retries with
    /// `backoff_seconds` before the next one.
    pub fn settle(
        &mut self,
        queue: &mut Queue,
        outcome: &Outcome,
        max_retries: i32,
        backoff_seconds: u32,
        now: Instant,
    ) -> (result: Option<Result<Task, QueueError>>)
        requires
            old(queue).wf(),
        ensures
            final(queue).wf(),
            old(self)@.settles(
                old(queue)@,
                outcome@,
                max_retries,
                backoff_seconds,
                now,
                final(self)@,
                final(queue)@,
                settlement_view(result),
            ),
    {
        match self.in_flight.take() {
            None => None,
            Some(task) => {
                let resolution = decide(task.retries, outcome, max_retries, backoff_seconds);
                let outcome_of_store = resolve(queue, &task, &resolution, now);
                proof {
                    lemma_amended_same(
                        old(queue)@,
                        task.id,
                        |stored: TaskView| settled(stored, resolution@, now),
                        |stored: TaskView|
                            settled(
                                stored,
                                resolution_for(
                                    task@.retries,
                                    outcome@,
                                    max_retries,
                                    backoff_seconds,
                                ),
                                now,
                            ),
                        queue@,
                        outcome_view(outcome_of_store),
                    );
                }
                Some(outcome_of_store)
            },
        }
    }

    /// Settles the task in flight after its execution has ended with
    /// `outcome`, under the policy that `runnable`, the kind of the task,
    /// declares: its limit of retries, and its delay before the retry that
    /// follows those the claimed record shows.
    pub fn settle_for<R: Runnable>(
        &mut self,
        queue: &mut Queue,
        runnable: &R,
        outcome: &Outcome,
        now: Instant,
    ) -> (result: Option<Result<Task, QueueError>>)
        requires
            old(queue).wf(),
        ensures
            final(queue).wf(),
            exists|max_retries: i32, backoff_seconds: u32|
                ({
                    &&& call_ensures(R::max_retries, (runnable,), max_retries)
                    &&& call_ensures(
                        R::backoff,
                        (
                            runnable,
                            match old(self)@.in_flight {
                                Some(task) => attempt_after(task.retries),
                                None => 0,
                            },
                        ),
                        backoff_seconds,
                    )
                    &&& #[trigger] old(self)@.settles(
                        old(queue)@,
                        outcome@,
                        max_retries,
                        backoff_seconds,
                        now,
                        final(self)@,
                        final(queue)@,
                        settlement_view(result),
                    )
                }),
    {
        let retries = match &self.in_flight {
            Some(task) => task.retries,
            None => -1,
        };
        let max_retries = runnable.max_retries();
        let backoff_seconds = runnable.backoff(attempt_number(retries));
        self.settle(queue, outcome, max_retries, backoff_seconds, now)
    }
}

/// A fixed number of workers for one type of task. Each worker polls and
/// settles on its own; the pool tells them all to stop and knows when the last
/// task in flight has been settled.
pub struct WorkerPool {
    workers: Vec<Worker>,
}

impl View for WorkerPool {
    type V = Seq<WorkerView>;

    closed spec fn view(&self) -> Seq<WorkerView> {
        self.workers@.map_values(|worker: Worker| worker@)
    }
}

/// Every worker of `pool` has been told to stop and none holds a task.
pub open spec fn drained(pool: Seq<WorkerView>) -> bool {
    forall|i: int|
        0 <= i < pool.len() ==> (#[trigger] pool[i]).stop_requested && pool[i].in_flight is None
}

impl WorkerPool {
    /// A pool of `number_of_workers` idle workers for tasks of the type
    /// `task_type`.
    pub fn new(number_of_workers: usize, task_type: &str, poll_interval_seconds: u32) -> (pool:
        WorkerPool)
        ensures
            pool@ == Seq::new(
                number_of_workers as nat,
                |i: int|
                    (WorkerView {
                        task_type: task_type@,
                        poll_interval_seconds,
                        in_flight: None,
                        stop_requested: false,
                    }),
            ),
    {
        let mut workers: Vec<Worker> = Vec::new();
        let mut k: usize = 0;
        while k < number_of_workers
            invariant
                k <= number_of_workers,
                workers@.len() == k,
                forall|i: int|
                    0 <= i < k ==> (#[trigger] workers@[i])@ == (WorkerView {
                        task_type: task_type@,
                        poll_interval_seconds,
                        in_flight: None,
                        stop_requested: false,
                    }),
            decreases number_of_workers - k,
        {
            workers.push(Worker::new(task_type.to_owned(), poll_interval_seconds));
            k += 1;
        }
        let pool = WorkerPool { workers };
        assert(pool@ =~= Seq::new(
            number_of_workers as nat,
            |i: int|
                WorkerView {
                    task_type: task_type@,
                    poll_interval_seconds,
                    in_flight: None,
                    stop_requested: false,
                },
        ));
        pool
    }

    /// The number of workers.
    pub fn len(&self) -> (count: usize)
        ensures
            count == self@.len(),
    {
        self.workers.len()
    }

    /// Polls `queue` once for the worker number `index` and tells what that
    /// worker is to do next; `None` where the pool has no such worker. The
    /// other workers are not touched.
    pub fn poll(&mut self, index: usize, queue: &mut Queue, now: Instant) -> (step: Option<Step>)
        requires
            old(queue).wf(),
        ensures
            final(queue).wf(),
            (match step {
                None => index >= old(self)@.len() && final(self)@ == old(self)@ && final(queue)@
                    == old(queue)@,
                Some(next) => {
                    &&& index < old(self)@.len()
                    &&& final(self)@.len() == old(self)@.len()
                    &&& final(self)@ == old(self)@.update(index as int, final(self)@[index as int])
                    &&& old(self)@[index as int].polled(
                        old(queue)@,
                        now,
                        final(self)@[index as int],
                        final(queue)@,
                        next@,
                    )
                },
            }),
    {
        if index >= self.workers.len() {
            return None;
        }
        let step = self.workers[index].poll(queue, now);
        assert(self@ =~= old(self)@.update(index as int, self@[index as int]));
        Some(step)
    }

    /// Settles the task in flight of the worker number `index`; `None` where
    /// the pool has no such worker or the worker holds no task. The other
    /// workers are not touched.
    pub fn settle(
        &mut self,
        index: usize,
        queue: &mut Queue,
        outcome: &Outcome,
        max_retries: i32,
        backoff_seconds: u32,
        now: Instant,
    ) -> (result: Option<Result<Task, QueueError>>)
        requires
            old(queue).wf(),
        ensures
            final(queue).wf(),
            final(self)@.len() == old(self)@.len(),
            (if index < old(self)@.len() {
                &&& final(self)@ == old(self)@.update(index as int, final(self)@[index as int])
                &&& old(self)@[index as int].settles(
                    old(queue)@,
                    outcome@,
                    max_retries,
                    backoff_seconds,
                    now,
                    final(self)@[index as int],
                    final(queue)@,
                    settlement_view(result),
                )
            } else {
                &&& final(self)@ == old(self)@
                &&& final(queue)@ == old(queue)@
                &&& result is None
            }),
    {
        if index >= self.workers.len() {
            return None;
        }
        let result = self.workers[index].settle(queue, outcome, max_retries, backoff_seconds, now);
        assert(self@ =~= old(self)@.update(index as int, self@[index as int]));
        result
    }

    /// Tells every worker to stop claiming tasks. Tasks in flight are left to
    /// be executed and settled.
    pub fn shutdown(&mut self)
        ensures
            final(self)@.len() == old(self)@.len(),
            forall|i: int|
                0 <= i < old(self)@.len() ==> #[trigger] final(self)@[i] == (WorkerView {
                    stop_requested: true,
                    ..old(self)@[i]
                }),
    {
        let mut k: usize = 0;
        while k < self.workers.len()
            invariant
                k <= self.workers.len(),
                self@.len() == old(self)@.len(),
                forall|i: int|
                    0 <= i < k ==> #[trigger] self@[i] == (WorkerView {
                        stop_requested: true,
                        ..old(self)@[i]
                    }),
                forall|i: int| k <= i < self@.len() ==> #[trigger] self@[i] == old(self)@[i],
            decreases self.workers.len() - k,
        {
            let ghost before = self@;
            self.workers[k].request_stop();
            assert(self@ =~= before.update(
                k as int,
                WorkerView { stop_requested: true, ..before[k as int] },
            ));
            k += 1;
        }
    }

    /// Tells whether the pool has come to rest: every worker has been told to
    /// stop and no task is in flight.
    pub fn is_drained(&self) -> (yes: bool)
        ensures
            yes == drained(self@),
    {
        let mut k: usize = 0;
        while k < self.workers.len()
            invariant
                k <= self.workers.len(),
                forall|i: int|
                    0 <= i < k ==> (#[trigger] self@[i]).stop_requested && self@[i].in_flight is None,
            decreases self.workers.len() - k,
        {
            if !self.workers[k].stop_requested() || self.workers[k].is_busy() {
                assert(!((self@[k as int]).stop_requested && self@[k as int].in_flight is None));
                return false;
            }
            k += 1;
        }
        true
    }
}

} // verus!
