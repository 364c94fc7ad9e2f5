//! Laws of the queue, derived from the relations that describe its operations.

use crate::instant::Instant;
use crate::model::blocks;
use crate::model::claimed;
use crate::model::content_hash_of;
use crate::model::eligible;
use crate::model::eligible_count;
use crate::model::lemma_filter_source;
use crate::model::lemma_filter_sources_ordered;
use crate::model::occurrence_candidate;
use crate::model::plain_candidate;
use crate::model::QueueError;
use crate::model::QueueView;
use crate::runnable::NewTaskView;
use crate::task::FangTaskState;
use crate::task::TaskView;
use crate::worker::resolution_for;
use crate::worker::settled;
use crate::worker::OutcomeView;
use crate::worker::StepView;
use crate::worker::WorkerView;
use vstd::prelude::*;

verus! {

/// Storing under a hash is idempotent: where a record has been stored or
/// found under a hash, a second record offered under the same hash right after
/// is not stored; the first is handed back and the table stays as it was.
pub proof fn law_store_twice(
    table: QueueView,
    first_candidate: TaskView,
    second_candidate: TaskView,
    after_first: QueueView,
    first: TaskView,
    after_second: QueueView,
    second: Result<TaskView, QueueError>,
)
    requires
        first_candidate.uniq_hash is Some,
        first_candidate.uniq_hash == second_candidate.uniq_hash,
        first_candidate.state.is_pending(),
        table.stored(first_candidate, after_first, Ok(first)),
        after_first.stored(second_candidate, after_second, second),
    ensures
        second == Ok::<TaskView, QueueError>(first),
        after_second == after_first,
{
    let hash = first_candidate.uniq_hash->0;
    if table.blocked(hash) {
        let i = choose|i: int| table.first_blocking(hash, i) && first == table.tasks[i];
        assert(after_first == table);
        assert(blocks(after_first.tasks[i], hash));
        let j = choose|j: int|
            after_first.first_blocking(hash, j) && second == Ok::<TaskView, QueueError>(
                after_first.tasks[j],
            );
        assert(i == j);
    } else {
        let last = table.tasks.len() as int;
        assert(after_first.tasks[last] == first);
        assert(blocks(after_first.tasks[last], hash));
        let j = choose|j: int|
            after_first.first_blocking(hash, j) && second == Ok::<TaskView, QueueError>(
                after_first.tasks[j],
            );
        if j < last {
            assert(after_first.tasks[j] == table.tasks[j]);
            assert(blocks(table.tasks[j], hash));
        }
        assert(j == last);
    }
}

/// Enqueueing a task of a unique kind is idempotent: a second insertion of the
/// same payload, right after the first, hands back the record of the first,
/// with the same id, and leaves the table as the first left it.
pub proof fn law_unique_insert_twice(
    table: QueueView,
    new_task: NewTaskView,
    first_now: Instant,
    second_now: Instant,
    after_first: QueueView,
    first: TaskView,
    after_second: QueueView,
    second: Result<TaskView, QueueError>,
)
    requires
        new_task.uniq,
        table.inserted(new_task, first_now, after_first, Ok(first)),
        after_first.inserted(new_task, second_now, after_second, second),
    ensures
        second == Ok::<TaskView, QueueError>(first),
        after_second == after_first,
{
    law_store_twice(
        table,
        plain_candidate(table.next_id, new_task, first_now, first_now),
        plain_candidate(after_first.next_id, new_task, second_now, second_now),
        after_first,
        first,
        after_second,
        second,
    );
}

/// One occurrence of a recurring task is stored once: a second attempt to
/// enqueue the occurrence that is due at the same instant, right after the
/// first, hands back the record of the first and stores nothing.
pub proof fn law_occurrence_twice(
    table: QueueView,
    new_task: NewTaskView,
    due: Instant,
    first_now: Instant,
    second_now: Instant,
    after_first: QueueView,
    first: TaskView,
    after_second: QueueView,
    second: Result<TaskView, QueueError>,
)
    requires
        table.materialized(new_task, Some(due), first_now, after_first, Ok(first)),
        after_first.materialized(new_task, Some(due), second_now, after_second, second),
    ensures
        second == Ok::<TaskView, QueueError>(first),
        after_second == after_first,
{
    law_store_twice(
        table,
        occurrence_candidate(table.next_id, new_task, due, first_now),
        occurrence_candidate(after_first.next_id, new_task, due, second_now),
        after_first,
        first,
        after_second,
        second,
    );
}

/// While a task of a unique kind is `New` or `InProgress`, every insertion of
/// the same payload hands back that task and stores nothing, whatever happened
/// to the table in between, as long as no two pending tasks share a hash.
pub proof fn law_unique_insert_finds_pending_twin(
    table: QueueView,
    new_task: NewTaskView,
    now: Instant,
    post: QueueView,
    outcome: Result<TaskView, QueueError>,
    twin: int,
)
    requires
        table.duplicate_free(),
        new_task.uniq,
        0 <= twin < table.tasks.len(),
        blocks(table.tasks[twin], content_hash_of(new_task)->0),
        table.inserted(new_task, now, post, outcome),
    ensures
        post == table,
        outcome == Ok::<TaskView, QueueError>(table.tasks[twin]),
{
    let hash = content_hash_of(new_task)->0;
    let i = choose|i: int|
        table.first_blocking(hash, i) && outcome == Ok::<TaskView, QueueError>(table.tasks[i]);
    if i < twin {
        assert(table.tasks[i].uniq_hash == table.tasks[twin].uniq_hash);
    }
    assert(i == twin);
}

/// Enqueueing a task of a kind that is not unique twice stores two records
/// with different ids.
pub proof fn law_plain_insert_twice(
    table: QueueView,
    new_task: NewTaskView,
    first_now: Instant,
    second_now: Instant,
    after_first: QueueView,
    first: TaskView,
    after_second: QueueView,
    second: TaskView,
)
    requires
        table.wf(),
        !new_task.uniq,
        table.inserted(new_task, first_now, after_first, Ok(first)),
        after_first.inserted(new_task, second_now, after_second, Ok(second)),
    ensures
        first.id != second.id,
        after_second.tasks == table.tasks.push(first).push(second),
        after_second.wf(),
{
    law_store_keeps_order(
        table,
        plain_candidate(table.next_id, new_task, first_now, first_now),
        after_first,
        Ok(first),
    );
    law_store_keeps_order(
        after_first,
        plain_candidate(after_first.next_id, new_task, second_now, second_now),
        after_second,
        Ok(second),
    );
}

/// An insertion keeps the table well-formed, and, where no two pending tasks
/// shared a hash before, none do after.
pub proof fn law_store_keeps_order(
    table: QueueView,
    candidate: TaskView,
    post: QueueView,
    outcome: Result<TaskView, QueueError>,
)
    requires
        table.wf(),
        candidate.id == table.next_id,
        table.stored(candidate, post, outcome),
    ensures
        post.wf(),
        table.duplicate_free() && candidate.state.is_pending() ==> post.duplicate_free(),
{
    if post != table {
        let last = table.tasks.len() as int;
        assert forall|i: int| 0 <= i < post.tasks.len() implies (#[trigger] post.tasks[i]).id
            < post.next_id by {
            if i < last {
                assert(post.tasks[i] == table.tasks[i]);
            }
        }
        assert forall|i: int, j: int| 0 <= i < j < post.tasks.len() implies (
        #[trigger] post.tasks[i]).id != (#[trigger] post.tasks[j]).id by {
            assert(post.tasks[i] == table.tasks[i]);
            if j < last {
                assert(post.tasks[j] == table.tasks[j]);
            }
        }
        if table.duplicate_free() {
            assert forall|i: int, j: int|
                0 <= i < j < post.tasks.len() && (#[trigger] post.tasks[i]).state.is_pending() && (
                #[trigger] post.tasks[j]).state.is_pending()
                    && post.tasks[i].uniq_hash is Some implies post.tasks[i].uniq_hash
                != post.tasks[j].uniq_hash by {
                assert(post.tasks[i] == table.tasks[i]);
                if j < last {
                    assert(post.tasks[j] == table.tasks[j]);
                } else {
                    if post.tasks[i].uniq_hash == candidate.uniq_hash {
                        assert(blocks(table.tasks[i], candidate.uniq_hash->0));
                        assert(table.blocked(candidate.uniq_hash->0));
                    }
                }
            }
        }
    }
}

/// A removal takes exactly the doomed tasks: every task that is left was there
/// before and is not doomed, and every task that was there and is not doomed
/// is left.
pub proof fn law_purge_takes_only_the_doomed(
    table: QueueView,
    doomed: spec_fn(TaskView) -> bool,
    post: QueueView,
    count: usize,
)
    requires
        table.purged(doomed, post, count),
    ensures
        forall|j: int|
            0 <= j < post.tasks.len() ==> !doomed(#[trigger] post.tasks[j])
                && table.tasks.contains(post.tasks[j]),
        forall|i: int|
            0 <= i < table.tasks.len() && !doomed(#[trigger] table.tasks[i])
                ==> post.tasks.contains(table.tasks[i]),
        forall|i: int|
            0 <= i < table.tasks.len() && doomed(#[trigger] table.tasks[i])
                ==> !post.tasks.contains(table.tasks[i]),
{
    let keep = |task: TaskView| !doomed(task);
    assert forall|j: int| 0 <= j < post.tasks.len() implies !doomed(#[trigger] post.tasks[j])
        && table.tasks.contains(post.tasks[j]) by {
        lemma_filter_source(table.tasks, keep, j);
    }
    assert forall|i: int|
        0 <= i < table.tasks.len() && !doomed(#[trigger] table.tasks[i]) implies post.tasks.contains(
        table.tasks[i],
    ) by {
        table.tasks.lemma_filter_contains(keep, i);
    }
    assert forall|i: int|
        0 <= i < table.tasks.len() && doomed(#[trigger] table.tasks[i]) implies !post.tasks.contains(
        table.tasks[i],
    ) by {
        if post.tasks.contains(table.tasks[i]) {
            let j = choose|j: int| 0 <= j < post.tasks.len() && post.tasks[j] == table.tasks[i];
            lemma_filter_source(table.tasks, keep, j);
        }
    }
}

/// A run of claims, one after the other: claim number `k` asks for
/// `types[k]` at `times[k]`, finds the table `tables[k]`, leaves `tables[k + 1]`
/// and hands out `handed[k]`.
pub open spec fn claim_run(
    tables: Seq<QueueView>,
    types: Seq<Seq<char>>,
    times: Seq<Instant>,
    handed: Seq<Option<TaskView>>,
) -> bool {
    &&& tables.len() == handed.len() + 1
    &&& types.len() == handed.len()
    &&& times.len() == handed.len()
    &&& forall|k: int|
        0 <= k < handed.len() ==> tables[k].claims(
            types[k],
            times[k],
            tables[k + 1],
            #[trigger] handed[k],
        )
}

/// What a claim does to the table: it stays well-formed, every task keeps its
/// place and its id, a task that was not `New` stays as it was, and the task
/// handed out was `New` before and is `InProgress` after.
pub proof fn law_claim_touches_one_new_task(
    table: QueueView,
    task_type: Seq<char>,
    now: Instant,
    post: QueueView,
    outcome: Option<TaskView>,
)
    requires
        table.wf(),
        table.claims(task_type, now, post, outcome),
    ensures
        post.wf(),
        post.next_id == table.next_id,
        post.tasks.len() == table.tasks.len(),
        forall|i: int|
            0 <= i < table.tasks.len() ==> (#[trigger] post.tasks[i]).id == table.tasks[i].id,
        forall|i: int|
            0 <= i < table.tasks.len() && !(table.tasks[i].state is New) ==> #[trigger] post.tasks[i]
                == table.tasks[i],
        forall|i: int|
            0 <= i < table.tasks.len() && post.tasks[i] != table.tasks[i] ==> outcome == Some(
                #[trigger] post.tasks[i],
            ),
        outcome matches Some(task) ==> task.state is InProgress && exists|i: int|
            0 <= i < table.tasks.len() && (#[trigger] table.tasks[i]).state is New
                && eligible(table.tasks[i], task_type, now) && post.tasks[i] == task
                && task.id == table.tasks[i].id,
        table.duplicate_free() ==> post.duplicate_free(),
{
    match outcome {
        None => {},
        Some(task) => {
            let i = choose|i: int|
                {
                    &&& #[trigger] table.next_claim(task_type, now, i)
                    &&& task == claimed(table.tasks[i], now)
                    &&& post == (QueueView {
                        tasks: table.tasks.update(i, task),
                        next_id: table.next_id,
                    })
                };
            assert(table.tasks[i].state is New);
            assert(post.tasks[i] == task);
            assert forall|a: int| 0 <= a < post.tasks.len() implies (#[trigger] post.tasks[a]).id
                < post.next_id by {
                assert(post.tasks[a].id == table.tasks[a].id);
            }
            assert forall|a: int, b: int| 0 <= a < b < post.tasks.len() implies (
            #[trigger] post.tasks[a]).id != (#[trigger] post.tasks[b]).id by {
                assert(post.tasks[a].id == table.tasks[a].id);
                assert(post.tasks[b].id == table.tasks[b].id);
            }
            if table.duplicate_free() {
                assert forall|a: int, b: int|
                    0 <= a < b < post.tasks.len() && (
                    #[trigger] post.tasks[a]).state.is_pending() && (
                    #[trigger] post.tasks[b]).state.is_pending()
                        && post.tasks[a].uniq_hash is Some implies post.tasks[a].uniq_hash
                    != post.tasks[b].uniq_hash by {
                    assert(post.tasks[a].uniq_hash == table.tasks[a].uniq_hash);
                    assert(post.tasks[b].uniq_hash == table.tasks[b].uniq_hash);
                    assert(table.tasks[a].state.is_pending());
                    assert(table.tasks[b].state.is_pending());
                }
            }
        },
    }
}

/// In a run of claims every table is well-formed and every task keeps its
/// place and its id; a task that is not `New` at some point of the run is the
/// same at every later point.
proof fn lemma_run_is_stable(
    tables: Seq<QueueView>,
    types: Seq<Seq<char>>,
    times: Seq<Instant>,
    handed: Seq<Option<TaskView>>,
    from: int,
    to: int,
)
    requires
        tables[0].wf(),
        claim_run(tables, types, times, handed),
        0 <= from <= to <= handed.len(),
    ensures
        tables[from].wf(),
        tables[to].wf(),
        tables[to].tasks.len() == tables[from].tasks.len(),
        forall|i: int|
            0 <= i < tables[from].tasks.len() ==> (#[trigger] tables[to].tasks[i]).id
                == tables[from].tasks[i].id,
        forall|i: int|
            0 <= i < tables[from].tasks.len() && !(tables[from].tasks[i].state is New)
                ==> #[trigger] tables[to].tasks[i] == tables[from].tasks[i],
    decreases to,
{
    if to == 0 {
    } else if from == to {
        lemma_run_is_stable(tables, types, times, handed, 0, to - 1);
        assert(tables[to - 1].claims(
            types[to - 1],
            times[to - 1],
            tables[to - 1 + 1],
            handed[to - 1],
        ));
        law_claim_touches_one_new_task(
            tables[to - 1],
            types[to - 1],
            times[to - 1],
            tables[to],
            handed[to - 1],
        );
    } else {
        lemma_run_is_stable(tables, types, times, handed, from, to - 1);
        assert(tables[to - 1].claims(
            types[to - 1],
            times[to - 1],
            tables[to - 1 + 1],
            handed[to - 1],
        ));
        law_claim_touches_one_new_task(
            tables[to - 1],
            types[to - 1],
            times[to - 1],
            tables[to],
            handed[to - 1],
        );
        assert forall|i: int|
            0 <= i < tables[from].tasks.len() && !(
            tables[from].tasks[i].state is New) implies #[trigger] tables[to].tasks[i]
            == tables[from].tasks[i] by {
            assert(tables[to - 1].tasks[i] == tables[from].tasks[i]);
        }
        assert forall|i: int| 0 <= i < tables[from].tasks.len() implies (
        #[trigger] tables[to].tasks[i]).id == tables[from].tasks[i].id by {
            assert(tables[to - 1].tasks[i].id == tables[from].tasks[i].id);
        }
    }
}

/// No task is delivered twice: in a run of claims, whatever types are asked
/// for and at whatever instants, two claims that hand out a task hand out
/// tasks with different ids.
pub proof fn law_claims_are_disjoint(
    tables: Seq<QueueView>,
    types: Seq<Seq<char>>,
    times: Seq<Instant>,
    handed: Seq<Option<TaskView>>,
    a: int,
    b: int,
)
    requires
        tables[0].wf(),
        claim_run(tables, types, times, handed),
        0 <= a < b < handed.len(),
        handed[a] is Some,
        handed[b] is Some,
    ensures
        handed[a]->0.id != handed[b]->0.id,
{
    lemma_run_is_stable(tables, types, times, handed, a, a);
    lemma_run_is_stable(tables, types, times, handed, a + 1, b);
    assert(tables[a].claims(types[a], times[a], tables[a + 1], handed[a]));
    assert(tables[b].claims(types[b], times[b], tables[b + 1], handed[b]));
    law_claim_touches_one_new_task(tables[a], types[a], times[a], tables[a + 1], handed[a]);
    law_claim_touches_one_new_task(tables[b], types[b], times[b], tables[b + 1], handed[b]);
    let first = handed[a]->0;
    let second = handed[b]->0;
    let i = choose|i: int|
        0 <= i < tables[a].tasks.len() && (#[trigger] tables[a].tasks[i]).state is New
            && eligible(tables[a].tasks[i], types[a], times[a]) && tables[a + 1].tasks[i] == first
            && first.id == tables[a].tasks[i].id;
    let j = choose|j: int|
        0 <= j < tables[b].tasks.len() && (#[trigger] tables[b].tasks[j]).state is New
            && eligible(tables[b].tasks[j], types[b], times[b]) && tables[b + 1].tasks[j] == second
            && second.id == tables[b].tasks[j].id;
    assert(tables[b].tasks[i] == tables[a + 1].tasks[i]);
    assert(i != j);
    assert(tables[b].tasks[i].id == first.id);
    assert(tables[b].tasks[j].id == second.id);
}

/// Where no task is eligible the count is zero, and the other way round.
proof fn lemma_count_zero(tasks: Seq<TaskView>, task_type: Seq<char>, now: Instant)
    ensures
        eligible_count(tasks, task_type, now) == 0 <==> forall|i: int|
            0 <= i < tasks.len() ==> !eligible(#[trigger] tasks[i], task_type, now),
    decreases tasks.len(),
{
    if tasks.len() > 0 {
        lemma_count_zero(tasks.drop_last(), task_type, now);
        if eligible_count(tasks, task_type, now) == 0 {
            assert forall|i: int| 0 <= i < tasks.len() implies !eligible(
                #[trigger] tasks[i],
                task_type,
                now,
            ) by {
                if i < tasks.len() - 1 {
                    assert(tasks[i] == tasks.drop_last()[i]);
                }
            }
        } else {
            if eligible_count(tasks.drop_last(), task_type, now) != 0 {
                let i = choose|i: int|
                    0 <= i < tasks.drop_last().len() && eligible(
                        #[trigger] tasks.drop_last()[i],
                        task_type,
                        now,
                    );
                assert(tasks[i] == tasks.drop_last()[i]);
            }
        }
    }
}

/// Replacing one task lowers the count of eligible tasks by one at most.
proof fn lemma_count_after_update(
    tasks: Seq<TaskView>,
    i: int,
    task: TaskView,
    task_type: Seq<char>,
    now: Instant,
)
    requires
        0 <= i < tasks.len(),
    ensures
        eligible_count(tasks.update(i, task), task_type, now) + 1 >= eligible_count(
            tasks,
            task_type,
            now,
        ),
    decreases tasks.len(),
{
    let updated = tasks.update(i, task);
    if i == tasks.len() - 1 {
        assert(updated.drop_last() =~= tasks.drop_last());
    } else {
        lemma_count_after_update(tasks.drop_last(), i, task, task_type, now);
        assert(updated.drop_last() =~= tasks.drop_last().update(i, task));
        assert(updated.last() == tasks.last());
    }
}

/// After `done` claims of a run for one type, at instants not before `since`,
/// the tasks that were eligible at `since` have shrunk by `done` at most.
proof fn lemma_run_leaves_enough(
    tables: Seq<QueueView>,
    task_type: Seq<char>,
    times: Seq<Instant>,
    handed: Seq<Option<TaskView>>,
    since: Instant,
    done: int,
)
    requires
        claim_run(tables, Seq::new(handed.len(), |k: int| task_type), times, handed),
        0 <= done <= handed.len(),
    ensures
        eligible_count(tables[done].tasks, task_type, since) + done >= eligible_count(
            tables[0].tasks,
            task_type,
            since,
        ),
    decreases done,
{
    if done > 0 {
        lemma_run_leaves_enough(tables, task_type, times, handed, since, done - 1);
        let types = Seq::new(handed.len(), |k: int| task_type);
        let before = tables[done - 1];
        let outcome = handed[done - 1];
        assert(before.claims(types[done - 1], times[done - 1], tables[done - 1 + 1], outcome));
        match outcome {
            None => {},
            Some(task) => {
                let i = choose|i: int|
                    {
                        &&& #[trigger] before.next_claim(task_type, times[done - 1], i)
                        &&& task == claimed(before.tasks[i], times[done - 1])
                        &&& tables[done] == (QueueView {
                            tasks: before.tasks.update(i, task),
                            next_id: before.next_id,
                        })
                    };
                lemma_count_after_update(before.tasks, i, task, task_type, since);
            },
        }
    }
}

/// No delivery is lost: where at least as many tasks are eligible for a type
/// at the instant `since` as claims follow for that type, none of them before
/// `since`, every one of these claims hands out a task.
pub proof fn law_claims_are_served(
    tables: Seq<QueueView>,
    task_type: Seq<char>,
    times: Seq<Instant>,
    handed: Seq<Option<TaskView>>,
    since: Instant,
    k: int,
)
    requires
        claim_run(tables, Seq::new(handed.len(), |k: int| task_type), times, handed),
        forall|j: int| 0 <= j < times.len() ==> since.at_or_before(#[trigger] times[j]),
        eligible_count(tables[0].tasks, task_type, since) >= handed.len(),
        0 <= k < handed.len(),
    ensures
        handed[k] is Some,
{
    lemma_run_leaves_enough(tables, task_type, times, handed, since, k);
    let types = Seq::new(handed.len(), |k: int| task_type);
    assert(tables[k].claims(types[k], times[k], tables[k + 1], handed[k]));
    if handed[k] is None {
        lemma_count_zero(tables[k].tasks, task_type, since);
        assert forall|i: int| 0 <= i < tables[k].tasks.len() implies !eligible(
            #[trigger] tables[k].tasks[i],
            task_type,
            since,
        ) by {
            assert(!eligible(tables[k].tasks[i], task_type, times[k]));
            assert(since.at_or_before(times[k]));
        }
    }
}

/// Ids are never reused: a record that an insertion stores gets the id that
/// the table kept for it, which lies above every id stored at that moment, and
/// the table keeps a higher one for the next. No other operation lowers the id
/// that the table keeps, so the id of a removed task does not come back.
pub proof fn law_store_hands_out_a_new_id(
    table: QueueView,
    candidate: TaskView,
    post: QueueView,
    outcome: Result<TaskView, QueueError>,
)
    requires
        table.wf(),
        candidate.id == table.next_id,
        table.stored(candidate, post, outcome),
    ensures
        post.next_id >= table.next_id,
        post != table ==> ({
            &&& post.next_id == table.next_id + 1
            &&& outcome == Ok::<TaskView, QueueError>(candidate)
            &&& table.absent(candidate.id)
        }),
{
}

/// An insertion leaves every record that was stored as it was, in its place.
pub proof fn law_store_leaves_the_rest(
    table: QueueView,
    candidate: TaskView,
    post: QueueView,
    outcome: Result<TaskView, QueueError>,
)
    requires
        table.stored(candidate, post, outcome),
    ensures
        table.tasks.len() <= post.tasks.len() <= table.tasks.len() + 1,
        forall|i: int| 0 <= i < table.tasks.len() ==> #[trigger] post.tasks[i] == table.tasks[i],
        outcome matches Ok(task) ==> post.tasks.contains(task),
{
    match outcome {
        Ok(task) => {
            if post == table {
                let i = choose|i: int| table.first_blocking(candidate.uniq_hash->0, i) && task == table.tasks[i];
                assert(post.tasks[i] == task);
            } else {
                assert(post.tasks[table.tasks.len() as int] == task);
            }
        },
        Err(_) => {},
    }
}

/// A replacement changes the record with the given id and no other: the
/// table keeps its length, and every record with another id stays as it was.
pub proof fn law_amend_touches_one_task(
    table: QueueView,
    id: u128,
    edit: spec_fn(TaskView) -> TaskView,
    post: QueueView,
    outcome: Result<TaskView, QueueError>,
)
    requires
        table.amended(id, edit, post, outcome),
    ensures
        post.next_id == table.next_id,
        post.tasks.len() == table.tasks.len(),
        forall|i: int|
            0 <= i < table.tasks.len() && table.tasks[i].id != id ==> #[trigger] post.tasks[i]
                == table.tasks[i],
        outcome is Err <==> table.absent(id),
        outcome is Err ==> post == table,
{
    if !table.absent(id) {
        let i = choose|i: int|
            {
                &&& #[trigger] table.holds_at(id, i)
                &&& outcome == Ok::<TaskView, QueueError>(edit(table.tasks[i]))
                &&& post == (QueueView {
                    tasks: table.tasks.update(i, edit(table.tasks[i])),
                    next_id: table.next_id,
                })
            };
        assert(table.holds_at(id, i));
    }
}

/// A replacement that keeps the id and the hash of a record, and does not
/// bring a finished or failed task back to life, keeps the table well-formed
/// and free of pending tasks that share a hash.
pub proof fn law_amend_keeps_order(
    table: QueueView,
    id: u128,
    edit: spec_fn(TaskView) -> TaskView,
    post: QueueView,
    outcome: Result<TaskView, QueueError>,
)
    requires
        table.wf(),
        table.duplicate_free(),
        table.amended(id, edit, post, outcome),
        forall|i: int|
            #[trigger] table.holds_at(id, i) ==> ({
                &&& edit(table.tasks[i]).id == id
                &&& edit(table.tasks[i]).uniq_hash == table.tasks[i].uniq_hash
                &&& edit(table.tasks[i]).state.is_pending() ==> table.tasks[i].state.is_pending()
            }),
    ensures
        post.wf(),
        post.duplicate_free(),
{
    if !table.absent(id) {
        let i = choose|i: int|
            {
                &&& #[trigger] table.holds_at(id, i)
                &&& outcome == Ok::<TaskView, QueueError>(edit(table.tasks[i]))
                &&& post == (QueueView {
                    tasks: table.tasks.update(i, edit(table.tasks[i])),
                    next_id: table.next_id,
                })
            };
        assert(table.holds_at(id, i));
        assert forall|a: int| 0 <= a < post.tasks.len() implies (#[trigger] post.tasks[a]).id
            < post.next_id by {
            assert(post.tasks[a].id == table.tasks[a].id);
        }
        assert forall|a: int, b: int| 0 <= a < b < post.tasks.len() implies (
        #[trigger] post.tasks[a]).id != (#[trigger] post.tasks[b]).id by {
            assert(post.tasks[a].id == table.tasks[a].id);
            assert(post.tasks[b].id == table.tasks[b].id);
        }
        assert forall|a: int, b: int|
            0 <= a < b < post.tasks.len() && (#[trigger] post.tasks[a]).state.is_pending() && (
            #[trigger] post.tasks[b]).state.is_pending()
                && post.tasks[a].uniq_hash is Some implies post.tasks[a].uniq_hash
            != post.tasks[b].uniq_hash by {
            assert(post.tasks[a].uniq_hash == table.tasks[a].uniq_hash);
            assert(post.tasks[b].uniq_hash == table.tasks[b].uniq_hash);
            assert(table.tasks[a].state.is_pending());
            assert(table.tasks[b].state.is_pending());
        }
    }
}

/// A removal keeps the table well-formed and free of pending tasks that share
/// a hash.
pub proof fn law_purge_keeps_order(
    table: QueueView,
    doomed: spec_fn(TaskView) -> bool,
    post: QueueView,
    count: usize,
)
    requires
        table.wf(),
        table.purged(doomed, post, count),
    ensures
        post.wf(),
        table.duplicate_free() ==> post.duplicate_free(),
{
    let keep = |task: TaskView| !doomed(task);
    crate::model::lemma_purge_keeps_wf(table, keep);
    assert(post == (QueueView { tasks: table.tasks.filter(keep), next_id: table.next_id }));
    if table.duplicate_free() {
        assert forall|a: int, b: int|
            0 <= a < b < post.tasks.len() && (#[trigger] post.tasks[a]).state.is_pending() && (
            #[trigger] post.tasks[b]).state.is_pending()
                && post.tasks[a].uniq_hash is Some implies post.tasks[a].uniq_hash
            != post.tasks[b].uniq_hash by {
            lemma_filter_sources_ordered(table.tasks, keep, a, b);
            let (i, j) = choose|i: int, j: int|
                0 <= i < j < table.tasks.len() && post.tasks[a] == #[trigger] table.tasks[i]
                    && post.tasks[b] == #[trigger] table.tasks[j];
            assert(table.tasks[i].state.is_pending());
            assert(table.tasks[j].state.is_pending());
        }
    }
}

/// The life cycle of a task under a worker: a claimed task that is settled
/// ends as `Finished`, as `Failed`, or as `New` again. The retry counter never
/// goes down; it goes up by one exactly when the task is sent back to `New`,
/// which happens only while it is below the limit, so that it never passes a
/// limit that it had not passed before.
pub proof fn law_settlement_respects_the_limit(
    task: TaskView,
    outcome: OutcomeView,
    max_retries: i32,
    backoff_seconds: u32,
    now: Instant,
)
    ensures
        ({
            let after = settled(
                task,
                resolution_for(task.retries, outcome, max_retries, backoff_seconds),
                now,
            );
            &&& after.id == task.id
            &&& after.metadata == task.metadata
            &&& after.task_type == task.task_type
            &&& after.uniq_hash == task.uniq_hash
            &&& after.created_at == task.created_at
            &&& after.updated_at == now
            &&& !(after.state is InProgress)
            &&& after.state is Finished <==> outcome is Completed
            &&& after.state is New <==> !(outcome is Completed) && !(outcome is Undecodable)
                && task.retries < max_retries
            &&& after.state is New ==> after.retries == task.retries + 1 && after.retries
                <= max_retries && after.scheduled_at == now.shifted(backoff_seconds)
            &&& !(after.state is New) ==> after.retries == task.retries && after.scheduled_at
                == task.scheduled_at
            &&& after.state is Failed ==> after.error_message is Some
        }),
{
}

/// A claim marks the task `InProgress` and changes nothing else about it but
/// `updated_at`; the task was due, and no eligible task was due before it.
pub proof fn law_claim_takes_the_oldest(
    table: QueueView,
    task_type: Seq<char>,
    now: Instant,
    post: QueueView,
    task: TaskView,
    other: int,
)
    requires
        table.claims(task_type, now, post, Some(task)),
        0 <= other < table.tasks.len(),
        eligible(table.tasks[other], task_type, now),
    ensures
        task.state == FangTaskState::InProgress,
        task.updated_at == now,
        task.scheduled_at.at_or_before(now),
        task.scheduled_at.at_or_before(table.tasks[other].scheduled_at),
        task.scheduled_at == table.tasks[other].scheduled_at ==> task.created_at.at_or_before(
            table.tasks[other].created_at,
        ),
{
    let i = choose|i: int|
        {
            &&& #[trigger] table.next_claim(task_type, now, i)
            &&& task == claimed(table.tasks[i], now)
            &&& post == (QueueView { tasks: table.tasks.update(i, task), next_id: table.next_id })
        };
    assert(!crate::model::ahead_of(table.tasks[other], table.tasks[i]));
}

/// The workers of `pool` hold their tasks apart: the stored record of every
/// task in flight is `InProgress`, and no two workers hold tasks with the same
/// id.
pub open spec fn held_apart(pool: Seq<WorkerView>, table: QueueView) -> bool {
    &&& forall|w: int|
        0 <= w < pool.len() && (#[trigger] pool[w]).in_flight is Some ==> exists|i: int|
            0 <= i < table.tasks.len() && (#[trigger] table.tasks[i]).id == pool[w].in_flight->0.id
                && table.tasks[i].state is InProgress
    &&& forall|v: int, w: int|
        0 <= v < w < pool.len() && (#[trigger] pool[v]).in_flight is Some && (
        #[trigger] pool[w]).in_flight is Some ==> pool[v].in_flight->0.id
            != pool[w].in_flight->0.id
}

/// No two workers execute the same task: where the workers of a pool hold
/// their tasks apart, they still do after one of them has polled the queue.
pub proof fn law_poll_keeps_workers_apart(
    pool: Seq<WorkerView>,
    table: QueueView,
    polling: int,
    now: Instant,
    worker_post: WorkerView,
    table_post: QueueView,
    step: StepView,
)
    requires
        table.wf(),
        held_apart(pool, table),
        0 <= polling < pool.len(),
        pool[polling].polled(table, now, worker_post, table_post, step),
    ensures
        table_post.wf(),
        held_apart(pool.update(polling, worker_post), table_post),
{
    let after = pool.update(polling, worker_post);
    if pool[polling].in_flight is None && !pool[polling].stop_requested {
        let claim = match step {
            StepView::Execute(task) => Some(task),
            _ => None,
        };
        law_claim_touches_one_new_task(table, pool[polling].task_type, now, table_post, claim);
        assert forall|w: int|
            0 <= w < after.len() && (#[trigger] after[w]).in_flight is Some implies exists|i: int|
            0 <= i < table_post.tasks.len() && (#[trigger] table_post.tasks[i]).id
                == after[w].in_flight->0.id && table_post.tasks[i].state is InProgress by {
            if w == polling {
                let task = claim->0;
                let i = choose|i: int|
                    0 <= i < table.tasks.len() && (#[trigger] table.tasks[i]).state is New
                        && eligible(table.tasks[i], pool[polling].task_type, now)
                        && table_post.tasks[i] == task && task.id == table.tasks[i].id;
                assert(table_post.tasks[i].id == after[w].in_flight->0.id);
            } else {
                assert(after[w] == pool[w]);
                let i = choose|i: int|
                    0 <= i < table.tasks.len() && (#[trigger] table.tasks[i]).id
                        == pool[w].in_flight->0.id && table.tasks[i].state is InProgress;
                assert(table_post.tasks[i] == table.tasks[i]);
            }
        }
        assert forall|v: int, w: int|
            0 <= v < w < after.len() && (#[trigger] after[v]).in_flight is Some && (
            #[trigger] after[w]).in_flight is Some implies after[v].in_flight->0.id
            != after[w].in_flight->0.id by {
            if v != polling && w != polling {
                assert(after[v] == pool[v]);
                assert(after[w] == pool[w]);
            } else {
                let other = if v == polling {
                    w
                } else {
                    v
                };
                assert(after[other] == pool[other]);
                let task = claim->0;
                let i = choose|i: int|
                    0 <= i < table.tasks.len() && (#[trigger] table.tasks[i]).state is New
                        && eligible(table.tasks[i], pool[polling].task_type, now)
                        && table_post.tasks[i] == task && task.id == table.tasks[i].id;
                let j = choose|j: int|
                    0 <= j < table.tasks.len() && (#[trigger] table.tasks[j]).id
                        == pool[other].in_flight->0.id && table.tasks[j].state is InProgress;
                assert(i != j);
            }
        }
    } else {
        assert(after =~= pool);
    }
}

/// Where the workers of a pool hold their tasks apart, they still do after
/// one of them has settled its task: the worker lets go of it, and the tasks
/// of the others are not touched.
pub proof fn law_settle_keeps_workers_apart(
    pool: Seq<WorkerView>,
    table: QueueView,
    settling: int,
    outcome: OutcomeView,
    max_retries: i32,
    backoff_seconds: u32,
    now: Instant,
    worker_post: WorkerView,
    table_post: QueueView,
    result: Option<Result<TaskView, QueueError>>,
)
    requires
        table.wf(),
        held_apart(pool, table),
        0 <= settling < pool.len(),
        pool[settling].settles(
            table,
            outcome,
            max_retries,
            backoff_seconds,
            now,
            worker_post,
            table_post,
            result,
        ),
    ensures
        held_apart(pool.update(settling, worker_post), table_post),
        pool[settling].in_flight is Some ==> (result matches Some(Ok(task)) && !(
        task.state is InProgress) && task.id == pool[settling].in_flight->0.id),
{
    let after = pool.update(settling, worker_post);
    match pool[settling].in_flight {
        None => {
            assert(after =~= pool);
        },
        Some(held) => {
            let edit = |stored: TaskView|
                settled(
                    stored,
                    resolution_for(held.retries, outcome, max_retries, backoff_seconds),
                    now,
                );
            law_amend_touches_one_task(table, held.id, edit, table_post, result->0);
            let at = choose|i: int|
                0 <= i < table.tasks.len() && (#[trigger] table.tasks[i]).id == held.id
                    && table.tasks[i].state is InProgress;
            assert(!table.absent(held.id));
            assert forall|w: int|
                0 <= w < after.len() && (#[trigger] after[w]).in_flight is Some implies exists|
                i: int,
            |
                0 <= i < table_post.tasks.len() && (#[trigger] table_post.tasks[i]).id
                    == after[w].in_flight->0.id && table_post.tasks[i].state is InProgress by {
                assert(w != settling);
                assert(after[w] == pool[w]);
                let i = choose|i: int|
                    0 <= i < table.tasks.len() && (#[trigger] table.tasks[i]).id
                        == pool[w].in_flight->0.id && table.tasks[i].state is InProgress;
                if settling < w {
                    assert(pool[settling].in_flight->0.id != pool[w].in_flight->0.id);
                } else {
                    assert(pool[w].in_flight->0.id != pool[settling].in_flight->0.id);
                }
                assert(table_post.tasks[i] == table.tasks[i]);
            }
            assert forall|v: int, w: int|
                0 <= v < w < after.len() && (#[trigger] after[v]).in_flight is Some && (
                #[trigger] after[w]).in_flight is Some implies after[v].in_flight->0.id
                != after[w].in_flight->0.id by {
                assert(after[v] == pool[v]);
                assert(after[w] == pool[w]);
            }
            let i = choose|i: int|
                {
                    &&& #[trigger] table.holds_at(held.id, i)
                    &&& result->0 == Ok::<TaskView, QueueError>(edit(table.tasks[i]))
                    &&& table_post == (QueueView {
                        tasks: table.tasks.update(i, edit(table.tasks[i])),
                        next_id: table.next_id,
                    })
                };
            assert(table.holds_at(held.id, i));
        },
    }
}

} // verus!
