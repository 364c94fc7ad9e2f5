//! The task table as a MySQL store lays it out.
//!
//! The table is keyed by `id` and has one column for each field of a task
//! record: `id` (binary, 16 bytes), `metadata` (json), `error_message`
//! (nullable text), `state` (at most 11 characters), `task_type` (varchar, at
//! most 255 characters), `uniq_hash` (nullable varchar, at most 64
//! characters), `retries` (integer), and the three instants `scheduled_at`,
//! `created_at` and `updated_at` (datetime).

use vstd::prelude::*;

verus! {

/// Marks the SQL type of the `state` column: an `Enum`.
#[derive(Clone, Copy, Debug, PartialEq, Eq, Default)]
pub struct FangTasksStateEnum;

} // verus!
