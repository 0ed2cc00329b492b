//! Time-triggered reminders: a lifecycle engine with per-user stores, a
//! multi-user registry with shared-secret authentication, and the decisions
//! of the polling client that claims and acknowledges due reminders.

pub mod client;
pub mod error;
pub mod registry;
pub mod reminder;
pub mod store;
pub mod time;

pub use client::{
    action_verdict, fetch_order, sleep_millis, sort_by_date, ListenAction, ListenEvent, ListenStage,
    Listener,
};
pub use error::{RemindmeError, RemindmeResult, ServiceError};
pub use registry::{Registry, UserEntry};
pub use reminder::{Reminder, ReminderId, ReminderRequest, ReminderState};
pub use store::ReminderStore;
pub use time::{now, parse, parse_at, Time};
