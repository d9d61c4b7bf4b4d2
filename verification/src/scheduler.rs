//! Scheduling entry points: turn a creation request or a startup
//! recovery scan into wait tasks, and apply a task's delivery outcome to
//! the store.
//!
//! All timing policy lives here and in the task machine; `now` is always
//! handed in by the caller, so a due instant is fixed once at creation
//! and later clock readings never change it.

use crate::reminder::{Reminder, ReminderView};
use crate::store::{
    lemma_without_id_contains_other, lemma_without_id_distinct, lemma_without_id_len,
    lemma_without_id_removes, rows_contain_id, rows_ids_distinct, rows_without_id, ReminderStore,
};
use crate::task::{TaskEvent, TaskPhase, WaitTask};
use crate::units::{due_instant, resolve_due_at, TimeUnit, MAX_QUANTITY, MIN_QUANTITY};
use vstd::prelude::*;

verus! {

/// Handle one creation request made at instant `now`: resolve the due
/// instant, insert the row, and hand back the populated record together
/// with the wait task that now owns it. The due instant is exactly
/// `now` plus the requested delay.
pub fn create_reminder(
    store: &mut ReminderStore,
    now: i64,
    owner: u64,
    quantity: i64,
    unit: TimeUnit,
    message: String,
) -> (res: (Reminder, WaitTask))
    requires
        old(store).wf(),
        old(store)@.next_id < i64::MAX,
        MIN_QUANTITY <= quantity <= MAX_QUANTITY,
        due_instant(now, quantity, unit) <= i64::MAX,
    ensures
        final(store).wf(),
        res.0@.due_at == due_instant(now, quantity, unit),
        res.0@.owner == owner,
        res.0@.message == message@,
        res.0@.id == old(store)@.next_id,
        !rows_contain_id(old(store)@.rows, res.0@.id),
        final(store)@.rows == old(store)@.rows.push(res.0@),
        final(store)@.next_id == old(store)@.next_id + 1,
        res.1.row() == res.0@,
        res.1.phase == TaskPhase::Pending,
{
    let due_at = resolve_due_at(now, quantity, unit);
    let reminder = store.add(owner, due_at, message);
    let task = WaitTask::new(&reminder);
    (reminder, task)
}

/// The startup recovery scan: one fresh wait task per stored row,
/// exactly as creation would have spawned it, re-inserting nothing.
/// A store holding k undelivered rows yields exactly k tasks.
pub fn recover(store: &ReminderStore) -> (tasks: Vec<WaitTask>)
    ensures
        tasks@.len() == store@.rows.len(),
        forall|i: int| 0 <= i < tasks@.len() ==> (#[trigger] tasks@[i]).row() == store@.rows[i]
            && tasks@[i].phase == TaskPhase::Pending,
{
    let mut tasks: Vec<WaitTask> = Vec::new();
    let n = store.len();
    let mut i: usize = 0;
    while i < n
        invariant
            n == store@.rows.len(),
            i <= n,
            tasks@.len() == i,
            forall|j: int| 0 <= j < i ==> (#[trigger] tasks@[j]).row() == store@.rows[j]
                && tasks@[j].phase == TaskPhase::Pending,
        decreases n - i,
    {
        let task = WaitTask::new(store.row(i));
        tasks.push(task);
        i = i + 1;
    }
    tasks
}

/// Apply the outcome of a task's delivery attempt. Success removes the
/// task's row — and only that row — from the store; failure leaves the
/// store untouched, so the row is found again by the next recovery scan.
pub fn finish_delivery(store: &mut ReminderStore, task: &mut WaitTask, delivered: bool)
    requires
        old(store).wf(),
        old(task).phase == TaskPhase::Due,
    ensures
        final(store).wf(),
        final(task).row() == old(task).row(),
        final(store)@.next_id == old(store)@.next_id,
        delivered ==> final(task).phase == TaskPhase::Delivered
            && final(store)@.rows == rows_without_id(old(store)@.rows, old(task).id as int)
            && !rows_contain_id(final(store)@.rows, old(task).id as int),
        delivered && rows_contain_id(old(store)@.rows, old(task).id as int)
            ==> final(store)@.rows.len() == old(store)@.rows.len() - 1,
        delivered && !rows_contain_id(old(store)@.rows, old(task).id as int)
            ==> final(store)@.rows == old(store)@.rows,
        !delivered ==> final(task).phase == TaskPhase::Failed
            && final(store)@.rows == old(store)@.rows,
{
    let event = if delivered {
        TaskEvent::DeliverySucceeded
    } else {
        TaskEvent::DeliveryFailed
    };
    let action = task.step(event);
    if action.is_some() {
        store.remove(task.id);
    }
}

/// The store's rows after the tasks owning `ids` have each delivered
/// successfully and removed their own row, in that completion order.
pub open spec fn rows_after_removals(rows: Seq<ReminderView>, ids: Seq<int>) -> Seq<ReminderView>
    decreases ids.len(),
{
    if ids.len() == 0 {
        rows
    } else {
        rows_after_removals(rows_without_id(rows, ids.first()), ids.drop_first())
    }
}

/// When several outstanding reminders — however many share a due
/// instant — all deliver successfully, in any completion order, each
/// one's row is removed exactly once: the store loses exactly one row
/// per task, and afterwards holds exactly the rows of the ids that no
/// task owned, with no row duplicated or lost.
pub proof fn lemma_all_delivered_all_removed(rows: Seq<ReminderView>, ids: Seq<int>)
    requires
        rows_ids_distinct(rows),
        forall|k1: int, k2: int| 0 <= k1 < k2 < ids.len() ==> ids[k1] != ids[k2],
        forall|k: int| 0 <= k < ids.len() ==> rows_contain_id(rows, #[trigger] ids[k]),
    ensures
        rows_after_removals(rows, ids).len() == rows.len() - ids.len(),
        rows_ids_distinct(rows_after_removals(rows, ids)),
        forall|x: int| rows_contain_id(rows_after_removals(rows, ids), x)
            <==> rows_contain_id(rows, x) && !ids.contains(x),
    decreases ids.len(),
{
    let result = rows_after_removals(rows, ids);
    if ids.len() == 0 {
        assert(forall|x: int| !ids.contains(x));
    } else {
        let first = ids.first();
        let rest_ids = ids.drop_first();
        let rows1 = rows_without_id(rows, first);
        assert(forall|k: int| 0 <= k < rest_ids.len() ==> rest_ids[k] == ids[k + 1]);
        assert(result == rows_after_removals(rows1, rest_ids));
        lemma_without_id_distinct(rows, first);
        assert(rows_contain_id(rows, ids[0]));
        lemma_without_id_len(rows, first);
        assert forall|k: int| 0 <= k < rest_ids.len()
            implies rows_contain_id(rows1, #[trigger] rest_ids[k]) by {
            assert(rest_ids[k] == ids[k + 1]);
            assert(ids[k + 1] != ids[0]);
            assert(rows_contain_id(rows, ids[k + 1]));
            lemma_without_id_contains_other(rows, first, ids[k + 1]);
        }
        lemma_all_delivered_all_removed(rows1, rest_ids);
        assert forall|x: int|
            rows_contain_id(result, x) <==> rows_contain_id(rows, x) && !ids.contains(x) by {
            if x == first {
                lemma_without_id_removes(rows, first);
                assert(!rows_contain_id(rows1, x));
                assert(ids.contains(x)) by {
                    assert(ids[0] == x);
                }
            } else {
                lemma_without_id_contains_other(rows, first, x);
                assert(ids.contains(x) <==> rest_ids.contains(x)) by {
                    if rest_ids.contains(x) {
                        let k = choose|k: int| 0 <= k < rest_ids.len() && rest_ids[k] == x;
                        assert(ids[k + 1] == x);
                    }
                    if ids.contains(x) {
                        let k = choose|k: int| 0 <= k < ids.len() && ids[k] == x;
                        assert(k != 0);
                        assert(rest_ids[k - 1] == x);
                    }
                }
            }
        }
    }
}

/// Once every stored reminder's own task has delivered and removed its
/// row — in any completion order — the store is empty.
pub proof fn lemma_every_row_delivered_store_empty(rows: Seq<ReminderView>)
    requires
        rows_ids_distinct(rows),
    ensures
        rows_after_removals(rows, rows.map_values(|r: ReminderView| r.id)).len() == 0,
{
    let ids = rows.map_values(|r: ReminderView| r.id);
    assert forall|k1: int, k2: int| 0 <= k1 < k2 < ids.len() implies ids[k1] != ids[k2] by {
        assert(ids[k1] == rows[k1].id && ids[k2] == rows[k2].id);
    }
    assert forall|k: int| 0 <= k < ids.len() implies rows_contain_id(rows, #[trigger] ids[k]) by {
        assert(rows[k].id == ids[k]);
    }
    lemma_all_delivered_all_removed(rows, ids);
}

} // verus!
