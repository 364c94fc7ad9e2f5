//! The task record: the persisted state of one unit of work.

use crate::instant::Instant;
use vstd::prelude::*;

verus! {

/// Where a task stands in its life cycle.
///
/// A task starts as `New`, becomes `InProgress` when a worker claims it, and
/// ends as `Finished` or `Failed`. A failed attempt that may be retried sends
/// it back to `New`.
#[derive(Clone, Copy, Debug, PartialEq, Eq, Structural)]
pub enum FangTaskState {
    New,
    InProgress,
    Failed,
    Finished,
}

impl FangTaskState {
    /// The task still waits for, or is under, execution.
    pub open spec fn is_pending(self) -> bool {
        self is New || self is InProgress
    }

    /// The task has reached an end state.
    pub open spec fn is_terminal(self) -> bool {
        self is Finished || self is Failed
    }

    /// Tells whether the task still waits for, or is under, execution.
    pub fn pending(&self) -> (b: bool)
        ensures
            b == self.is_pending(),
    {
        match self {
            FangTaskState::New => true,
            FangTaskState::InProgress => true,
            FangTaskState::Failed => false,
            FangTaskState::Finished => false,
        }
    }

    /// Tells whether the task has reached an end state.
    pub fn terminal(&self) -> (b: bool)
        ensures
            b == self.is_terminal(),
    {
        !self.pending()
    }
}

/// One task as the queue stores it.
#[derive(Debug, PartialEq, Eq)]
pub struct Task {
    /// Assigned by the queue when the task is created; never reused.
    pub id: u128,
    /// The serialised payload, opaque to the queue.
    pub metadata: Vec<u8>,
    /// Why the task failed; set only on the way into `Failed` or back to `New`.
    pub error_message: Option<String>,
    pub state: FangTaskState,
    /// The tag that routes the task to workers.
    pub task_type: String,
    /// The content hash of a task that must not be enqueued twice.
    pub uniq_hash: Option<Vec<u8>>,
    /// The number of failed attempts that were followed by a retry.
    pub retries: i32,
    /// The earliest instant at which the task may be claimed.
    pub scheduled_at: Instant,
    pub created_at: Instant,
    /// Refreshed on every change of state.
    pub updated_at: Instant,
}

/// The mathematical content of a [`Task`].
pub struct TaskView {
    pub id: u128,
    pub metadata: Seq<u8>,
    pub error_message: Option<Seq<char>>,
    pub state: FangTaskState,
    pub task_type: Seq<char>,
    pub uniq_hash: Option<Seq<u8>>,
    pub retries: i32,
    pub scheduled_at: Instant,
    pub created_at: Instant,
    pub updated_at: Instant,
}

impl View for Task {
    type V = TaskView;

    open spec fn view(&self) -> TaskView {
        TaskView {
            id: self.id,
            metadata: self.metadata@,
            error_message: match self.error_message {
                Some(text) => Some(text@),
                None => None,
            },
            state: self.state,
            task_type: self.task_type@,
            uniq_hash: match self.uniq_hash {
                Some(hash) => Some(hash@),
                None => None,
            },
            retries: self.retries,
            scheduled_at: self.scheduled_at,
            created_at: self.created_at,
            updated_at: self.updated_at,
        }
    }
}

impl Clone for Task {
    /// Copies the record field by field.
    fn clone(&self) -> (copy: Task)
        ensures
            copy@ == self@,
    {
        Task {
            id: self.id,
            metadata: self.metadata.clone(),
            error_message: match &self.error_message {
                Some(text) => Some(text.clone()),
                None => None,
            },
            state: self.state,
            task_type: self.task_type.clone(),
            uniq_hash: match &self.uniq_hash {
                Some(hash) => Some(hash.clone()),
                None => None,
            },
            retries: self.retries,
            scheduled_at: self.scheduled_at,
            created_at: self.created_at,
            updated_at: self.updated_at,
        }
    }
}

} // verus!
