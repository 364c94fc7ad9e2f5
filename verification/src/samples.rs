//! Three small kinds of task, for trying the queue out.

use crate::calendar::parse_instant;
use crate::calendar::parsed_instant;
use crate::runnable::common_type;
use crate::runnable::default_backoff;
use crate::runnable::exponential_backoff;
use crate::runnable::schedule_once;
use crate::runnable::schedule_view;
use crate::runnable::Runnable;
use crate::runnable::Scheduled;
use crate::runnable::ScheduledView;
use crate::runnable::COMMON_TYPE;
use crate::runnable::DEFAULT_MAX_RETRIES;
use vstd::prelude::*;

verus! {

/// A unique task of the common type.
#[derive(Clone, Copy, Debug, PartialEq, Eq)]
pub struct PepeTask {
    pub number: u16,
}

impl Runnable for PepeTask {
    fn uniq(&self) -> (unique: bool)
        ensures
            unique,
    {
        true
    }

    fn task_type(&self) -> (tag: String)
        ensures
            tag@ == COMMON_TYPE@,
    {
        common_type()
    }

    fn cron(&self) -> (schedule: Option<Scheduled>)
        ensures
            schedule is None,
    {
        None
    }

    fn max_retries(&self) -> (limit: i32)
        ensures
            limit == DEFAULT_MAX_RETRIES,
    {
        DEFAULT_MAX_RETRIES
    }

    fn backoff(&self, attempt: u32) -> (delay: u32)
        ensures
            delay == exponential_backoff(attempt),
    {
        default_backoff(attempt)
    }
}

/// A unique task of a type of its own, `weirdo`.
#[derive(Clone, Copy, Debug, PartialEq, Eq)]
pub struct AyratTask {
    pub number: u16,
}

impl Runnable for AyratTask {
    fn uniq(&self) -> (unique: bool)
        ensures
            unique,
    {
        true
    }

    fn task_type(&self) -> (tag: String)
        ensures
            tag@ == "weirdo"@,
    {
        "weirdo".to_owned()
    }

    fn cron(&self) -> (schedule: Option<Scheduled>)
        ensures
            schedule is None,
    {
        None
    }

    fn max_retries(&self) -> (limit: i32)
        ensures
            limit == DEFAULT_MAX_RETRIES,
    {
        DEFAULT_MAX_RETRIES
    }

    fn backoff(&self, attempt: u32) -> (delay: u32)
        ensures
            delay == exponential_backoff(attempt),
    {
        default_backoff(attempt)
    }
}

/// A unique task of the type `scheduled` that is due once, at the date and
/// time written in `datetime`.
#[derive(Debug, PartialEq, Eq)]
pub struct ScheduledPepeTask {
    pub number: u16,
    pub datetime: String,
}

impl Runnable for ScheduledPepeTask {
    fn uniq(&self) -> (unique: bool)
        ensures
            unique,
    {
        true
    }

    fn task_type(&self) -> (tag: String)
        ensures
            tag@ == "scheduled"@,
    {
        "scheduled".to_owned()
    }

    /// Due once, at the instant that `datetime` names; without a schedule
    /// where `datetime` names none.
    fn cron(&self) -> (schedule: Option<Scheduled>)
        ensures
            schedule_view(schedule) == (match parsed_instant(self.datetime@) {
                Some(instant) => Some(ScheduledView::ScheduleOnce(instant)),
                None => None,
            }),
    {
        let at = parse_instant(self.datetime.as_str());
        schedule_once(at)
    }

    fn max_retries(&self) -> (limit: i32)
        ensures
            limit == DEFAULT_MAX_RETRIES,
    {
        DEFAULT_MAX_RETRIES
    }

    fn backoff(&self, attempt: u32) -> (delay: u32)
        ensures
            delay == exponential_backoff(attempt),
    {
        default_backoff(attempt)
    }
}

} // verus!
