//! The persisted reminder entity and the codec between a 64-bit owner
//! identifier and the signed column that stores it.
//!
//! The chat platform hands out owner identifiers as unsigned 64-bit
//! numbers, while the store's owner column is a signed 64-bit integer.
//! The column holds the identifier's bit pattern reinterpreted as a
//! signed value; the mapping is a bijection and round-trips exactly.

use vstd::prelude::*;

verus! {

/// The signed value whose 64-bit pattern equals `owner`'s: `owner`
/// itself when it fits, otherwise `owner` shifted down by 2^64.
pub open spec fn column_of_owner(owner: u64) -> int {
    if owner <= i64::MAX {
        owner as int
    } else {
        owner - 0x1_0000_0000_0000_0000
    }
}

/// The unsigned value whose 64-bit pattern equals `column`'s: `column`
/// itself when non-negative, otherwise `column` shifted up by 2^64.
pub open spec fn owner_of_column(column: i64) -> int {
    if column >= 0 {
        column as int
    } else {
        column + 0x1_0000_0000_0000_0000
    }
}

/// Reinterpret an owner identifier as the signed column value with the
/// same bit pattern. Nothing is truncated.
pub fn owner_to_column(owner: u64) -> (column: i64)
    ensures
        column == column_of_owner(owner),
{
    if owner <= i64::MAX as u64 {
        owner as i64
    } else {
        -((u64::MAX - owner) as i64) - 1
    }
}

/// Read an owner identifier back out of its signed column value.
pub fn owner_from_column(column: i64) -> (owner: u64)
    ensures
        owner == owner_of_column(column),
{
    if column >= 0 {
        column as u64
    } else {
        u64::MAX - ((-(column + 1)) as u64)
    }
}

/// Storing an owner identifier and reading it back returns the identifier
/// unchanged, for every 64-bit value.
pub proof fn lemma_owner_column_round_trip(owner: u64)
    ensures
        owner_of_column(column_of_owner(owner) as i64) == owner,
{
}

/// Reading a column and storing the result back returns the column
/// unchanged, for every signed 64-bit value.
pub proof fn lemma_column_owner_round_trip(column: i64)
    ensures
        column_of_owner(owner_of_column(column) as u64) == column,
{
}

/// One persisted reminder: the only entity the store holds.
pub struct Reminder {
    /// Surrogate key the store assigned at insertion; unique, never reused.
    pub id: i64,
    /// The requesting user's 64-bit identifier.
    pub owner: u64,
    /// Absolute UTC due instant, in seconds since the Unix epoch; fixed
    /// at creation, never changed afterwards.
    pub due_at: i64,
    /// Free-form text delivered verbatim; may be empty.
    pub message: String,
}

/// Mathematical image of a reminder: plain integers and a character
/// sequence.
pub ghost struct ReminderView {
    pub id: int,
    pub owner: u64,
    pub due_at: int,
    pub message: Seq<char>,
}

impl View for Reminder {
    type V = ReminderView;

    open spec fn view(&self) -> ReminderView {
        ReminderView {
            id: self.id as int,
            owner: self.owner,
            due_at: self.due_at as int,
            message: self.message@,
        }
    }
}

impl Reminder {
    /// Rebuild a reminder from the four column values of one stored row.
    /// The owner column carries the identifier's bit pattern as a signed
    /// value and is decoded exactly.
    pub fn from_columns(id: i64, owner_column: i64, due_at: i64, message: String) -> (r: Reminder)
        ensures
            r@.id == id,
            r@.owner == owner_of_column(owner_column),
            r@.due_at == due_at,
            r@.message == message@,
    {
        Reminder { id, owner: owner_from_column(owner_column), due_at, message }
    }

    /// A field-for-field copy.
    pub fn duplicate(&self) -> (r: Reminder)
        ensures
            r@ == self@,
    {
        Reminder {
            id: self.id,
            owner: self.owner,
            due_at: self.due_at,
            message: self.message.clone(),
        }
    }
}

} // verus!
