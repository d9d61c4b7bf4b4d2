//! Delay units for creation requests, and the conversion from a relative
//! delay to an absolute due instant.
//!
//! Instants are UTC timestamps counted in whole seconds since the Unix
//! epoch, held in an `i64`.

use vstd::prelude::*;

verus! {

/// The delay units a creation request may name. `Months` is a fixed-length
/// approximation: exactly 28 days, never a calendar month.
#[derive(Clone, Copy, Debug, PartialEq, Eq, Structural)]
pub enum TimeUnit {
    Seconds,
    Minutes,
    Hours,
    Days,
    Weeks,
    Months,
}

/// Smallest delay quantity a creation request may carry.
pub const MIN_QUANTITY: i64 = 1;

/// Largest delay quantity a creation request may carry.
pub const MAX_QUANTITY: i64 = 10000;

/// How many seconds one unit lasts.
pub open spec fn unit_seconds(unit: TimeUnit) -> int {
    match unit {
        TimeUnit::Seconds => 1,
        TimeUnit::Minutes => 60,
        TimeUnit::Hours => 3600,
        TimeUnit::Days => 86400,
        TimeUnit::Weeks => 7 * 86400int,
        TimeUnit::Months => 28 * 86400int,
    }
}

/// The instant at which a reminder requested at `now` for `quantity`
/// units falls due.
pub open spec fn due_instant(now: i64, quantity: i64, unit: TimeUnit) -> int {
    now + quantity * unit_seconds(unit)
}

/// Seconds in one unit, as a runtime value.
pub fn seconds_per_unit(unit: TimeUnit) -> (s: i64)
    ensures
        s == unit_seconds(unit),
{
    match unit {
        TimeUnit::Seconds => 1,
        TimeUnit::Minutes => 60,
        TimeUnit::Hours => 3600,
        TimeUnit::Days => 86400,
        TimeUnit::Weeks => 7 * 86400,
        TimeUnit::Months => 28 * 86400,
    }
}

/// Resolve a relative delay against the request instant `now`: the due
/// instant is exactly `now` plus `quantity` units' worth of seconds.
pub fn resolve_due_at(now: i64, quantity: i64, unit: TimeUnit) -> (due_at: i64)
    requires
        MIN_QUANTITY <= quantity <= MAX_QUANTITY,
        due_instant(now, quantity, unit) <= i64::MAX,
    ensures
        due_at == due_instant(now, quantity, unit),
{
    let step = seconds_per_unit(unit);
    assert(1 <= step <= 28 * 86400);
    assert(1 <= quantity * step <= 10000 * 28 * 86400) by (nonlinear_arith)
        requires
            1 <= quantity <= 10000,
            1 <= step <= 28 * 86400,
    ;
    let delay = quantity * step;
    now + delay
}

/// How late a delivery made at instant `now` is against the scheduled
/// instant, in seconds: positive when late, negative when early.
pub fn delivery_lateness(now: i64, due_at: i64) -> (late: i128)
    ensures
        late == now - due_at,
{
    (now as i128) - (due_at as i128)
}

} // verus!
