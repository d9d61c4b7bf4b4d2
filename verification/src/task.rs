//! The per-reminder wait task, as a state machine.
//!
//! A task owns exactly one reminder for its whole life. It decides; the
//! surrounding runtime acts. The runtime performs each returned action
//! (suspend, attempt delivery, delete the row) and reports what happened
//! back as the next event. Delivery and store failures are events like
//! any other: the task never panics and never retries within one process
//! life — a row left behind is picked up by the next recovery scan.

use crate::reminder::{Reminder, ReminderView};
use vstd::prelude::*;

verus! {

/// The phases a wait task passes through.
#[derive(Clone, Copy, Debug, PartialEq, Eq, Structural)]
pub enum TaskPhase {
    /// The due instant lies ahead; the task is waiting.
    Pending,
    /// The due instant has been reached; delivery is being attempted.
    Due,
    /// Delivery succeeded. Terminal.
    Delivered,
    /// Delivery failed; the row stays for a later restart. Terminal.
    Failed,
}

/// What the runtime reports back to a task.
#[derive(Clone, Copy, Debug, PartialEq, Eq, Structural)]
pub enum TaskEvent {
    /// The wall clock reached the due instant.
    DueReached,
    /// The delivery attempt succeeded.
    DeliverySucceeded,
    /// The delivery attempt failed.
    DeliveryFailed,
}

/// What a task asks the runtime to do next.
#[derive(Clone, Copy, Debug, PartialEq, Eq, Structural)]
pub enum TaskAction {
    /// Suspend for this many seconds, then report `DueReached`.
    Sleep(u64),
    /// Attempt delivery, then report the outcome.
    Deliver,
    /// Delete the task's row from the store.
    Remove,
}

/// The phase a task in `phase` moves to when `event` arrives. The two
/// terminal phases absorb every event, and an event that does not belong
/// to the current phase changes nothing.
pub open spec fn phase_after(phase: TaskPhase, event: TaskEvent) -> TaskPhase {
    match (phase, event) {
        (TaskPhase::Pending, TaskEvent::DueReached) => TaskPhase::Due,
        (TaskPhase::Due, TaskEvent::DeliverySucceeded) => TaskPhase::Delivered,
        (TaskPhase::Due, TaskEvent::DeliveryFailed) => TaskPhase::Failed,
        _ => phase,
    }
}

/// The action a task in `phase` requests when `event` arrives.
pub open spec fn action_after(phase: TaskPhase, event: TaskEvent) -> Option<TaskAction> {
    match (phase, event) {
        (TaskPhase::Pending, TaskEvent::DueReached) => Some(TaskAction::Deliver),
        (TaskPhase::Due, TaskEvent::DeliverySucceeded) => Some(TaskAction::Remove),
        _ => None,
    }
}

/// True exactly for the one step that requests the row's removal:
/// leaving `Due` on a successful delivery.
pub open spec fn step_removes(phase: TaskPhase, event: TaskEvent) -> bool {
    action_after(phase, event) == Some(TaskAction::Remove)
}

/// How many removal requests a task starting in `phase` issues while the
/// events of `events` arrive in order.
pub open spec fn removals_along(phase: TaskPhase, events: Seq<TaskEvent>) -> nat
    decreases events.len(),
{
    if events.len() == 0 {
        0
    } else {
        (if step_removes(phase, events.first()) {
            1nat
        } else {
            0nat
        }) + removals_along(phase_after(phase, events.first()), events.drop_first())
    }
}

/// A task in a terminal phase never requests a removal again.
pub proof fn lemma_terminal_no_removals(phase: TaskPhase, events: Seq<TaskEvent>)
    requires
        phase == TaskPhase::Delivered || phase == TaskPhase::Failed,
    ensures
        removals_along(phase, events) == 0,
    decreases events.len(),
{
    if events.len() > 0 {
        lemma_terminal_no_removals(phase_after(phase, events.first()), events.drop_first());
    }
}

/// Whatever events arrive, and in whatever order, a wait task requests
/// the removal of its row at most once over its whole life.
pub proof fn lemma_at_most_one_removal(phase: TaskPhase, events: Seq<TaskEvent>)
    ensures
        removals_along(phase, events) <= 1,
    decreases events.len(),
{
    if events.len() > 0 {
        if step_removes(phase, events.first()) {
            lemma_terminal_no_removals(phase_after(phase, events.first()), events.drop_first());
        } else {
            lemma_at_most_one_removal(phase_after(phase, events.first()), events.drop_first());
        }
    }
}

/// The concurrent unit owning one reminder from scheduling through its
/// terminal phase.
pub struct WaitTask {
    /// Id of the owned row.
    pub id: i64,
    /// The reminder's owner.
    pub owner: u64,
    /// The owned reminder's due instant, UTC seconds.
    pub due_at: i64,
    /// The text to deliver.
    pub message: String,
    /// Where in its life the task stands.
    pub phase: TaskPhase,
}

impl WaitTask {
    /// The owned row, as a mathematical value.
    pub open spec fn row(&self) -> ReminderView {
        ReminderView {
            id: self.id as int,
            owner: self.owner,
            due_at: self.due_at as int,
            message: self.message@,
        }
    }

    /// A fresh task owning `reminder`, not yet started.
    pub fn new(reminder: &Reminder) -> (t: WaitTask)
        ensures
            t.row() == reminder@,
            t.phase == TaskPhase::Pending,
    {
        WaitTask {
            id: reminder.id,
            owner: reminder.owner,
            due_at: reminder.due_at,
            message: reminder.message.clone(),
            phase: TaskPhase::Pending,
        }
    }

    /// The task's first decision, judged at instant `now`. A reminder
    /// whose due instant has already passed delivers at once, with no
    /// artificial wait; otherwise the task suspends for exactly the
    /// seconds that remain.
    pub fn start(&mut self, now: i64) -> (a: TaskAction)
        requires
            old(self).phase == TaskPhase::Pending,
        ensures
            final(self).row() == old(self).row(),
            old(self).due_at <= now ==> final(self).phase == TaskPhase::Due
                && a == TaskAction::Deliver,
            old(self).due_at > now ==> final(self).phase == TaskPhase::Pending
                && a == TaskAction::Sleep((old(self).due_at - now) as u64),
    {
        if self.due_at <= now {
            self.phase = TaskPhase::Due;
            TaskAction::Deliver
        } else {
            let delay = (self.due_at as i128) - (now as i128);
            TaskAction::Sleep(delay as u64)
        }
    }

    /// Advance the task by one event and return what the runtime must do
    /// next, exactly as the transition functions say.
    pub fn step(&mut self, event: TaskEvent) -> (a: Option<TaskAction>)
        ensures
            final(self).row() == old(self).row(),
            final(self).phase == phase_after(old(self).phase, event),
            a == action_after(old(self).phase, event),
    {
        match (self.phase, event) {
            (TaskPhase::Pending, TaskEvent::DueReached) => {
                self.phase = TaskPhase::Due;
                Some(TaskAction::Deliver)
            },
            (TaskPhase::Due, TaskEvent::DeliverySucceeded) => {
                self.phase = TaskPhase::Delivered;
                Some(TaskAction::Remove)
            },
            (TaskPhase::Due, TaskEvent::DeliveryFailed) => {
                self.phase = TaskPhase::Failed;
                None
            },
            _ => None,
        }
    }
}

} // verus!
