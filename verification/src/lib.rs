//! A persistent job queue, modelled in memory and verified.
//!
//! Application code describes units of work ("tasks"), enqueues them for
//! immediate, delayed or recurring execution, and workers claim and run them.
//! The library holds the rules: the task record and its life cycle, the queue
//! operations with duplicate suppression and the claim order, the decisions a
//! worker takes after each execution, and the materialisation of recurring
//! tasks. Reading the clock, serialising payloads, sleeping and running the
//! tasks themselves is left to the caller.
//!
//! The parts, from the leaves up:
//!
//! - [`instant`], [`calendar`] and [`digest`]: points in time, the calendar
//!   questions that `chrono` and `cron` answer, and the content hash;
//! - [`task`] and [`runnable`]: the task record, and what an application
//!   declares about a kind of task;
//! - [`model`] and [`queue`]: the relations that describe the queue
//!   operations, and the queue that is proved against them;
//! - [`worker`], [`scheduler`] and [`registry`]: the decisions of a worker and
//!   of a pool of workers, the scheduler of recurring tasks, and the registry
//!   of task kinds;
//! - [`laws`]: what follows for every run of the queue;
//! - [`samples`], [`schema`] and [`mysql_schema`]: three small kinds of task,
//!   and the markers of the two SQL layouts of the task table.

pub mod calendar;
pub mod digest;
pub mod instant;
pub mod laws;
pub mod model;
pub mod mysql_schema;
pub mod queue;
pub mod registry;
pub mod runnable;
pub mod samples;
pub mod scheduler;
pub mod schema;
pub mod task;
pub mod worker;

pub use instant::Instant;
pub use model::QueueError;
pub use queue::Queue;
pub use runnable::NewTask;
pub use runnable::Runnable;
pub use runnable::Scheduled;
pub use task::FangTaskState;
pub use task::Task;
pub use worker::FangError;
