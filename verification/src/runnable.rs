//! What an application declares about a kind of task.

use crate::instant::Instant;
use vstd::prelude::*;

verus! {

/// The type tag of tasks that any worker may take.
pub const COMMON_TYPE: &'static str = "common";

/// The number of retries a task gets unless its kind declares another.
pub const DEFAULT_MAX_RETRIES: i32 = 20;

/// When a task is due.
#[derive(Debug, PartialEq, Eq)]
pub enum Scheduled {
    /// Again and again, at the instants a cron expression names.
    CronPattern(String),
    /// Once, at the given instant.
    ScheduleOnce(Instant),
}

/// The mathematical content of a [`Scheduled`].
pub enum ScheduledView {
    CronPattern(Seq<char>),
    ScheduleOnce(Instant),
}

impl View for Scheduled {
    type V = ScheduledView;

    open spec fn view(&self) -> ScheduledView {
        match self {
            Scheduled::CronPattern(pattern) => ScheduledView::CronPattern(pattern@),
            Scheduled::ScheduleOnce(at) => ScheduledView::ScheduleOnce(*at),
        }
    }
}

/// The view of an optional schedule.
pub open spec fn schedule_view(schedule: Option<Scheduled>) -> Option<ScheduledView> {
    match schedule {
        Some(s) => Some(s@),
        None => None,
    }
}

/// The delay, in seconds, before retry number `attempt` under the default
/// policy: two to the power of `attempt`, held at `u32::MAX`.
pub open spec fn exponential_backoff(attempt: u32) -> u32 {
    if attempt < 32 {
        vstd::arithmetic::power2::pow2(attempt as nat) as u32
    } else {
        u32::MAX
    }
}

/// The type tag of a kind that declares none: the common one.
pub fn common_type() -> (tag: String)
    ensures
        tag@ == COMMON_TYPE@,
{
    COMMON_TYPE.to_owned()
}

/// The delay before retry number `attempt` of a kind that declares none: two
/// to the power of `attempt` seconds, held at `u32::MAX`.
pub fn default_backoff(attempt: u32) -> (delay: u32)
    ensures
        delay == exponential_backoff(attempt),
{
    if attempt >= 32 {
        return u32::MAX;
    }
    let mut delay: u32 = 1;
    let mut k: u32 = 0;
    proof {
        vstd::arithmetic::power2::lemma2_to64();
    }
    while k < attempt
        invariant
            k <= attempt < 32,
            delay == vstd::arithmetic::power2::pow2(k as nat),
        decreases attempt - k,
    {
        proof {
            vstd::arithmetic::power2::lemma_pow2_unfold((k + 1) as nat);
            vstd::arithmetic::power2::lemma2_to64();
            if k + 1 < 31 {
                vstd::arithmetic::power2::lemma_pow2_strictly_increases((k + 1) as nat, 31);
            }
        }
        delay = delay * 2;
        k += 1;
    }
    delay
}

/// The schedule of a task that is due once, at the instant read from its
/// payload: none where no instant could be read.
pub fn schedule_once(at: Option<Instant>) -> (schedule: Option<Scheduled>)
    ensures
        schedule_view(schedule) == (match at {
            Some(instant) => Some(ScheduledView::ScheduleOnce(instant)),
            None => None,
        }),
{
    match at {
        Some(instant) => Some(Scheduled::ScheduleOnce(instant)),
        None => None,
    }
}

/// The declarations of one kind of task: whether it may be enqueued twice, the
/// type tag under which workers find it, its schedule, and how often and how
/// soon a failed attempt is repeated.
///
/// A kind that declares nothing is not unique, of the common type, without a
/// schedule, and is retried up to twenty times with a delay that doubles from
/// one second on.
pub trait Runnable {
    /// Whether two equal payloads of this kind count as one task. A kind that
    /// does not say is not unique.
    fn uniq(&self) -> (unique: bool)
        default_ensures
            !unique,
    {
        false
    }

    /// The type tag of this kind. A kind that does not say is of the common
    /// type.
    fn task_type(&self) -> (tag: String)
        default_ensures
            tag@ == COMMON_TYPE@,
    {
        common_type()
    }

    /// The schedule of this kind, if it has one. A kind that does not say has
    /// none.
    fn cron(&self) -> (schedule: Option<Scheduled>)
        default_ensures
            schedule is None,
    {
        None
    }

    /// The number of retries this kind allows. A kind that does not say
    /// allows [`DEFAULT_MAX_RETRIES`].
    fn max_retries(&self) -> (limit: i32)
        default_ensures
            limit == DEFAULT_MAX_RETRIES,
    {
        DEFAULT_MAX_RETRIES
    }

    /// The delay in seconds before retry number `attempt`. A kind that does
    /// not say waits as [`exponential_backoff`] tells.
    fn backoff(&self, attempt: u32) -> (delay: u32)
        default_ensures
            delay == exponential_backoff(attempt),
    {
        default_backoff(attempt)
    }
}

/// What the queue is told about a task that is to be enqueued: the serialised
/// payload and the declarations of its kind.
#[derive(Debug, PartialEq, Eq)]
pub struct NewTask {
    pub metadata: Vec<u8>,
    pub task_type: String,
    pub uniq: bool,
    pub schedule: Option<Scheduled>,
}

/// The mathematical content of a [`NewTask`].
pub struct NewTaskView {
    pub metadata: Seq<u8>,
    pub task_type: Seq<char>,
    pub uniq: bool,
    pub schedule: Option<ScheduledView>,
}

impl View for NewTask {
    type V = NewTaskView;

    open spec fn view(&self) -> NewTaskView {
        NewTaskView {
            metadata: self.metadata@,
            task_type: self.task_type@,
            uniq: self.uniq,
            schedule: schedule_view(self.schedule),
        }
    }
}

impl NewTask {
    /// Describes a task of the kind `runnable` whose serialised form is
    /// `metadata`: the payload is `metadata`, and the type, the uniqueness and
    /// the schedule are what the kind declares.
    pub fn describe<R: Runnable>(runnable: &R, metadata: Vec<u8>) -> (new_task: NewTask)
        ensures
            new_task.metadata == metadata,
            call_ensures(R::task_type, (runnable,), new_task.task_type),
            call_ensures(R::uniq, (runnable,), new_task.uniq),
            call_ensures(R::cron, (runnable,), new_task.schedule),
    {
        NewTask {
            metadata,
            task_type: runnable.task_type(),
            uniq: runnable.uniq(),
            schedule: runnable.cron(),
        }
    }
}

} // verus!
