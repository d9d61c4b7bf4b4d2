use reminders::scheduler::create_reminder;
use reminders::store::ReminderStore;
use reminders::task::TaskPhase;
use reminders::units::{delivery_lateness, resolve_due_at, seconds_per_unit, TimeUnit};

const T0: i64 = 1_700_000_000;

#[test]
fn seconds_per_unit_table() {
    assert_eq!(seconds_per_unit(TimeUnit::Seconds), 1);
    assert_eq!(seconds_per_unit(TimeUnit::Minutes), 60);
    assert_eq!(seconds_per_unit(TimeUnit::Hours), 3600);
    assert_eq!(seconds_per_unit(TimeUnit::Days), 86400);
    assert_eq!(seconds_per_unit(TimeUnit::Weeks), 604_800);
    assert_eq!(seconds_per_unit(TimeUnit::Months), 2_419_200);
}

#[test]
fn resolve_each_unit() {
    assert_eq!(resolve_due_at(T0, 5, TimeUnit::Seconds), T0 + 5);
    assert_eq!(resolve_due_at(T0, 5, TimeUnit::Minutes), T0 + 5 * 60);
    assert_eq!(resolve_due_at(T0, 5, TimeUnit::Hours), T0 + 5 * 3600);
    assert_eq!(resolve_due_at(T0, 5, TimeUnit::Days), T0 + 5 * 86400);
    assert_eq!(resolve_due_at(T0, 5, TimeUnit::Weeks), T0 + 5 * 604_800);
    assert_eq!(resolve_due_at(T0, 5, TimeUnit::Months), T0 + 5 * 2_419_200);
}

#[test]
fn months_are_exactly_twenty_eight_days() {
    assert_eq!(
        resolve_due_at(T0, 300, TimeUnit::Months),
        resolve_due_at(T0, 300 * 28, TimeUnit::Days)
    );
}

#[test]
fn quantity_bounds() {
    assert_eq!(resolve_due_at(T0, 1, TimeUnit::Seconds), T0 + 1);
    assert_eq!(
        resolve_due_at(T0, 10_000, TimeUnit::Months),
        T0 + 10_000 * 2_419_200
    );
}

#[test]
fn resolve_with_negative_start() {
    assert_eq!(resolve_due_at(-100, 30, TimeUnit::Seconds), -70);
}

#[test]
fn lateness_positive_negative_zero() {
    assert_eq!(delivery_lateness(T0 + 3, T0), 3);
    assert_eq!(delivery_lateness(T0 - 4, T0), -4);
    assert_eq!(delivery_lateness(T0, T0), 0);
    assert_eq!(
        delivery_lateness(i64::MAX, i64::MIN),
        i64::MAX as i128 - i64::MIN as i128
    );
}

#[test]
fn create_returns_resolved_due_at() {
    let mut store = ReminderStore::new();
    let (reminder, task) = create_reminder(
        &mut store,
        T0,
        7,
        90,
        TimeUnit::Minutes,
        String::from("stand up"),
    );
    assert_eq!(reminder.due_at, T0 + 90 * 60);
    assert_eq!(reminder.owner, 7);
    assert_eq!(reminder.id, 1);
    assert_eq!(reminder.message, "stand up");
    assert_eq!(task.phase, TaskPhase::Pending);
    assert_eq!(task.id, reminder.id);
    assert_eq!(task.due_at, reminder.due_at);
    assert_eq!(task.message, reminder.message);
}

#[test]
fn create_accepts_empty_message() {
    let mut store = ReminderStore::new();
    let (reminder, _task) = create_reminder(&mut store, T0, 7, 1, TimeUnit::Seconds, String::new());
    assert_eq!(reminder.message, "");
    assert_eq!(store.list()[0].message, "");
}
