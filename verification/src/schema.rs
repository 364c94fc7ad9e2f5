//! The task table as a PostgreSQL store lays it out.
//!
//! The table is keyed by `id` and has one column for each field of a task
//! record: `id` (uuid), `metadata` (jsonb), `error_message` (nullable text),
//! `state`, `task_type` (varchar), `uniq_hash` (nullable char), `retries`
//! (int4), and the three instants `scheduled_at`, `created_at` and
//! `updated_at` (timestamptz).

use vstd::prelude::*;

verus! {

/// Marks the SQL type of the `state` column: the enumeration
/// `fang_task_state`.
#[derive(Clone, Copy, Debug, PartialEq, Eq, Default)]
pub struct FangTaskStateEnum;

} // verus!
