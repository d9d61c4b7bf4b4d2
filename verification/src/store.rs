//! The reminder store model: the single source of truth for persisted
//! reminders.
//!
//! The store assigns each inserted row a fresh surrogate id, never holds
//! two rows with the same id, removes by id as an idempotent no-op when
//! the id is absent, and lists every row it holds. These are exactly the
//! guarantees the scheduler relies on, stated here over a sequence of
//! row images.

use crate::reminder::{Reminder, ReminderView};
use vstd::prelude::*;

verus! {

/// True when some row of `rows` carries `id`.
pub open spec fn rows_contain_id(rows: Seq<ReminderView>, id: int) -> bool {
    exists|i: int| 0 <= i < rows.len() && rows[i].id == id
}

/// True when no two rows of `rows` share an id.
pub open spec fn rows_ids_distinct(rows: Seq<ReminderView>) -> bool {
    forall|i: int, j: int| 0 <= i < j < rows.len() ==> rows[i].id != rows[j].id
}

/// True when every row id lies in `1 ..= bound - 1`.
pub open spec fn rows_ids_bounded(rows: Seq<ReminderView>, bound: int) -> bool {
    forall|i: int| 0 <= i < rows.len() ==> 1 <= #[trigger] rows[i].id < bound
}

/// The rows of `rows` whose id differs from `id`, in their held order.
pub open spec fn rows_without_id(rows: Seq<ReminderView>, id: int) -> Seq<ReminderView>
    decreases rows.len(),
{
    if rows.len() == 0 {
        rows
    } else {
        let rest = rows_without_id(rows.drop_last(), id);
        if rows.last().id == id {
            rest
        } else {
            rest.push(rows.last())
        }
    }
}

/// The rows of `rows` that carry `id`, in their held order.
pub open spec fn rows_with_id(rows: Seq<ReminderView>, id: int) -> Seq<ReminderView>
    decreases rows.len(),
{
    if rows.len() == 0 {
        rows
    } else {
        let rest = rows_with_id(rows.drop_last(), id);
        if rows.last().id == id {
            rest.push(rows.last())
        } else {
            rest
        }
    }
}

/// Removing an id that no row carries leaves the rows unchanged.
pub proof fn lemma_without_id_absent(rows: Seq<ReminderView>, id: int)
    requires
        !rows_contain_id(rows, id),
    ensures
        rows_without_id(rows, id) == rows,
    decreases rows.len(),
{
    if rows.len() > 0 {
        assert(forall|i: int| 0 <= i < rows.len() - 1 ==> rows.drop_last()[i] == rows[i]);
        lemma_without_id_absent(rows.drop_last(), id);
        assert(rows_without_id(rows, id) =~= rows);
    }
}

/// After a removal, no row carries the removed id.
pub proof fn lemma_without_id_removes(rows: Seq<ReminderView>, id: int)
    ensures
        !rows_contain_id(rows_without_id(rows, id), id),
    decreases rows.len(),
{
    if rows.len() > 0 {
        lemma_without_id_removes(rows.drop_last(), id);
    }
}

/// Removing the same id twice is the same as removing it once.
pub proof fn lemma_without_id_idempotent(rows: Seq<ReminderView>, id: int)
    ensures
        rows_without_id(rows_without_id(rows, id), id) == rows_without_id(rows, id),
{
    lemma_without_id_removes(rows, id);
    lemma_without_id_absent(rows_without_id(rows, id), id);
}

/// A removal leaves the rows carrying every other id exactly as they
/// were: same values, same multiplicity, same order.
pub proof fn lemma_without_id_keeps_others(rows: Seq<ReminderView>, id: int, other: int)
    requires
        other != id,
    ensures
        rows_with_id(rows_without_id(rows, id), other) == rows_with_id(rows, other),
    decreases rows.len(),
{
    if rows.len() > 0 {
        lemma_without_id_keeps_others(rows.drop_last(), id, other);
        if rows.last().id != id {
            let rest = rows_without_id(rows.drop_last(), id);
            assert(rows_without_id(rows, id) == rest.push(rows.last()));
            assert(rest.push(rows.last()).drop_last() =~= rest);
        }
    }
}

/// Distinctness of ids survives a removal, and a removal invents no
/// row: every row it leaves was already held.
pub proof fn lemma_without_id_distinct(rows: Seq<ReminderView>, id: int)
    requires
        rows_ids_distinct(rows),
    ensures
        rows_ids_distinct(rows_without_id(rows, id)),
        forall|i: int| 0 <= i < rows_without_id(rows, id).len()
            ==> rows.contains(#[trigger] rows_without_id(rows, id)[i]),
    decreases rows.len(),
{
    if rows.len() > 0 {
        let prefix = rows.drop_last();
        assert(forall|i: int| 0 <= i < prefix.len() ==> prefix[i] == rows[i]);
        lemma_without_id_distinct(prefix, id);
        let rest = rows_without_id(prefix, id);
        let result = rows_without_id(rows, id);
        if rows.last().id != id {
            assert(result == rest.push(rows.last()));
            assert forall|i: int, j: int| 0 <= i < j < result.len()
                implies result[i].id != result[j].id by {
                if j < result.len() - 1 {
                    assert(rest[i].id != rest[j].id);
                } else {
                    assert(result[i] == rest[i]);
                    assert(result[j] == rows.last());
                    assert(prefix.contains(rest[i]));
                    let w = choose|w: int| 0 <= w < prefix.len() && prefix[w] == rest[i];
                    assert(prefix[w] == rows[w]);
                    assert(rows.last() == rows[rows.len() - 1]);
                    assert(rows[w].id != rows[rows.len() - 1].id);
                }
            }
        }
        assert forall|i: int| 0 <= i < result.len() implies rows.contains(result[i]) by {
            if rows.last().id != id && i == result.len() - 1 {
                assert(result[i] == rows[rows.len() - 1]);
            } else {
                assert(result[i] == rest[i]);
                assert(prefix.contains(rest[i]));
                let w = choose|w: int| 0 <= w < prefix.len() && prefix[w] == rest[i];
                assert(rows[w] == result[i]);
            }
        }
    }
}

/// When ids are distinct, removing a present id drops exactly one row;
/// removing an absent id drops none.
pub proof fn lemma_without_id_len(rows: Seq<ReminderView>, id: int)
    requires
        rows_ids_distinct(rows),
    ensures
        rows_contain_id(rows, id) ==> rows_without_id(rows, id).len() == rows.len() - 1,
        !rows_contain_id(rows, id) ==> rows_without_id(rows, id).len() == rows.len(),
    decreases rows.len(),
{
    if rows.len() > 0 {
        let prefix = rows.drop_last();
        assert(forall|i: int| 0 <= i < prefix.len() ==> prefix[i] == rows[i]);
        lemma_without_id_len(prefix, id);
        if rows.last().id == id {
            assert(!rows_contain_id(prefix, id));
        } else {
            if rows_contain_id(rows, id) {
                let w = choose|i: int| 0 <= i < rows.len() && rows[i].id == id;
                assert(prefix[w].id == id);
                assert(rows_contain_id(prefix, id));
            } else {
                assert(!rows_contain_id(prefix, id));
            }
        }
    }
}

/// Some row carries `id` exactly when the rows matching `id` are not
/// empty.
pub proof fn lemma_contain_iff_with_id(rows: Seq<ReminderView>, id: int)
    ensures
        rows_contain_id(rows, id) <==> rows_with_id(rows, id).len() > 0,
    decreases rows.len(),
{
    if rows.len() > 0 {
        let prefix = rows.drop_last();
        assert(forall|i: int| 0 <= i < prefix.len() ==> prefix[i] == rows[i]);
        lemma_contain_iff_with_id(prefix, id);
        if rows.last().id == id {
            assert(rows[rows.len() - 1].id == id);
        } else {
            if rows_contain_id(rows, id) {
                let w = choose|w: int| 0 <= w < rows.len() && rows[w].id == id;
                assert(prefix[w].id == id);
            }
            if rows_contain_id(prefix, id) {
                let w = choose|w: int| 0 <= w < prefix.len() && prefix[w].id == id;
                assert(rows[w].id == id);
            }
        }
    }
}

/// A removal neither loses nor invents rows carrying another id.
pub proof fn lemma_without_id_contains_other(rows: Seq<ReminderView>, id: int, other: int)
    requires
        other != id,
    ensures
        rows_contain_id(rows_without_id(rows, id), other) <==> rows_contain_id(rows, other),
{
    lemma_without_id_keeps_others(rows, id, other);
    lemma_contain_iff_with_id(rows, other);
    lemma_contain_iff_with_id(rows_without_id(rows, id), other);
}

/// When no row carries `id`, no row matches it either.
pub proof fn lemma_with_id_absent(rows: Seq<ReminderView>, id: int)
    requires
        !rows_contain_id(rows, id),
    ensures
        rows_with_id(rows, id) == Seq::<ReminderView>::empty(),
    decreases rows.len(),
{
    if rows.len() > 0 {
        assert(forall|i: int| 0 <= i < rows.len() - 1 ==> rows.drop_last()[i] == rows[i]);
        lemma_with_id_absent(rows.drop_last(), id);
        assert(rows_with_id(rows, id) =~= Seq::<ReminderView>::empty());
    }
}

/// A freshly inserted row is the only row carrying its id: a listing
/// taken after the insertion shows exactly one row with the new id, and
/// that row bears exactly the inserted values.
pub proof fn lemma_fresh_row_unique(rows: Seq<ReminderView>, r: ReminderView)
    requires
        !rows_contain_id(rows, r.id),
    ensures
        rows_with_id(rows.push(r), r.id) == seq![r],
{
    lemma_with_id_absent(rows, r.id);
    assert(rows.push(r).drop_last() =~= rows);
    assert(rows.push(r).last() == r);
    assert(rows_with_id(rows.push(r), r.id) =~= seq![r]);
}

/// Mathematical image of the store: its rows and the id the next
/// insertion will take.
pub ghost struct StoreView {
    pub rows: Seq<ReminderView>,
    pub next_id: int,
}

/// In-memory reminder store. It realises the store contract the
/// scheduler relies on; a deployment backs the same contract with a
/// durable engine.
pub struct ReminderStore {
    rows: Vec<Reminder>,
    next_id: i64,
}

impl View for ReminderStore {
    type V = StoreView;

    closed spec fn view(&self) -> StoreView {
        StoreView {
            rows: self.rows@.map_values(|r: Reminder| r@),
            next_id: self.next_id as int,
        }
    }
}

impl ReminderStore {
    /// The store invariant: ids are pairwise distinct, every id was
    /// assigned before the next one will be, and ids start at 1.
    pub open spec fn wf(&self) -> bool {
        &&& rows_ids_distinct(self@.rows)
        &&& rows_ids_bounded(self@.rows, self@.next_id)
        &&& 1 <= self@.next_id
    }

    /// An empty store; the first insertion will take id 1.
    pub fn new() -> (s: ReminderStore)
        ensures
            s.wf(),
            s@.rows == Seq::<ReminderView>::empty(),
            s@.next_id == 1,
    {
        let s = ReminderStore { rows: Vec::new(), next_id: 1 };
        proof {
            assert(s@.rows =~= Seq::<ReminderView>::empty());
        }
        s
    }

    /// How many rows the store holds.
    pub fn len(&self) -> (n: usize)
        ensures
            n == self@.rows.len(),
    {
        self.rows.len()
    }

    /// The row at position `i` of the held order.
    pub fn row(&self, i: usize) -> (r: &Reminder)
        requires
            i < self@.rows.len(),
        ensures
            r@ == self@.rows[i as int],
    {
        &self.rows[i]
    }

    /// Every stored row, in the held order.
    pub fn list(&self) -> (v: &Vec<Reminder>)
        ensures
            v@.map_values(|r: Reminder| r@) == self@.rows,
    {
        &self.rows
    }

    /// Insert a new row and return it, fully populated with the fresh,
    /// store-assigned id: an id no present or past row ever carried.
    pub fn add(&mut self, owner: u64, due_at: i64, message: String) -> (r: Reminder)
        requires
            old(self).wf(),
            old(self)@.next_id < i64::MAX,
        ensures
            final(self).wf(),
            r@.id == old(self)@.next_id,
            r@.owner == owner,
            r@.due_at == due_at,
            r@.message == message@,
            !rows_contain_id(old(self)@.rows, r@.id),
            final(self)@.rows == old(self)@.rows.push(r@),
            final(self)@.next_id == old(self)@.next_id + 1,
    {
        let id = self.next_id;
        self.next_id = self.next_id + 1;
        let r = Reminder { id, owner, due_at, message };
        let stored = r.duplicate();
        self.rows.push(stored);
        proof {
            assert(self@.rows =~= old(self)@.rows.push(r@));
        }
        r
    }

    /// Delete the row carrying `id`, if any. Absent ids are a no-op, and
    /// rows with other ids are untouched.
    pub fn remove(&mut self, id: i64)
        requires
            old(self).wf(),
        ensures
            final(self).wf(),
            final(self)@.rows == rows_without_id(old(self)@.rows, id as int),
            final(self)@.next_id == old(self)@.next_id,
            !rows_contain_id(final(self)@.rows, id as int),
            rows_contain_id(old(self)@.rows, id as int)
                ==> final(self)@.rows.len() == old(self)@.rows.len() - 1,
            !rows_contain_id(old(self)@.rows, id as int)
                ==> final(self)@.rows == old(self)@.rows,
    {
        let ghost old_rows = self@.rows;
        let n = self.rows.len();
        let mut i: usize = 0;
        while i < n
            invariant
                self == old(self),
                old_rows == self@.rows,
                rows_ids_distinct(old_rows),
                rows_ids_bounded(old_rows, self@.next_id),
                1 <= self@.next_id,
                n == self.rows.len(),
                i <= n,
                forall|j: int| 0 <= j < i ==> old_rows[j].id != id,
            decreases n - i,
        {
            if self.rows[i].id == id {
                self.rows.remove(i);
                proof {
                    lemma_remove_index(old_rows, id as int, i as int);
                    lemma_without_id_distinct(old_rows, id as int);
                    assert(self@.rows =~= old_rows.remove(i as int));
                    assert(self@.rows == rows_without_id(old(self)@.rows, id as int));
                    let kept = rows_without_id(old_rows, id as int);
                    assert forall|j: int| 0 <= j < kept.len()
                        implies 1 <= (#[trigger] kept[j]).id < self@.next_id by {
                        assert(old_rows.contains(kept[j]));
                        let w = choose|w: int| 0 <= w < old_rows.len() && old_rows[w] == kept[j];
                        assert(1 <= old_rows[w].id < self@.next_id);
                    }
                    lemma_without_id_removes(old_rows, id as int);
                    lemma_without_id_len(old_rows, id as int);
                    assert(rows_contain_id(old_rows, id as int)) by {
                        assert(old_rows[i as int].id == id);
                    }
                }
                return ;
            }
            i = i + 1;
        }
        proof {
            assert(!rows_contain_id(old_rows, id as int));
            lemma_without_id_absent(old_rows, id as int);
        }
    }
}

/// For rows with distinct ids, removing the id found at `idx` is the
/// same as deleting position `idx`.
proof fn lemma_remove_index(rows: Seq<ReminderView>, id: int, idx: int)
    requires
        rows_ids_distinct(rows),
        0 <= idx < rows.len(),
        rows[idx].id == id,
    ensures
        rows_without_id(rows, id) == rows.remove(idx),
    decreases rows.len(),
{
    let prefix = rows.drop_last();
    assert(forall|i: int| 0 <= i < prefix.len() ==> prefix[i] == rows[i]);
    if idx == rows.len() - 1 {
        assert(forall|i: int| 0 <= i < prefix.len() ==> prefix[i].id != id);
        lemma_without_id_absent(prefix, id);
        assert(rows_without_id(rows, id) =~= rows.remove(idx));
    } else {
        assert(rows.last().id != id);
        lemma_remove_index(prefix, id, idx);
        assert(rows_without_id(rows, id) == prefix.remove(idx).push(rows.last()));
        assert(prefix.remove(idx).push(rows.last()) =~= rows.remove(idx));
    }
}

} // verus!
