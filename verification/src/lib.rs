//! Core of a reminder service: a durable-store model, the per-reminder
//! wait-task state machine, and the scheduling entry points that turn a
//! creation request or a recovery scan into wait tasks.

pub mod reminder;
pub mod scheduler;
pub mod store;
pub mod task;
pub mod units;
