use vstd::prelude::*;

use crate::time::Time;

verus! {

pub type ReminderId = u64;

/// Lifecycle of a reminder: Upcoming, then Pending once its time has come,
/// then Expired once acknowledged.
#[derive(Debug, Clone, Copy, PartialEq, Eq, Structural, Hash)]
pub enum ReminderState {
    Upcoming,
    Pending,
    Expired,
}

impl ReminderState {
    /// The state that follows this one, if any.
    pub open spec fn successor(self) -> Option<ReminderState> {
        match self {
            ReminderState::Upcoming => Some(ReminderState::Pending),
            ReminderState::Pending => Some(ReminderState::Expired),
            ReminderState::Expired => None,
        }
    }

    /// Position in the lifecycle: 0, 1, 2.
    pub open spec fn rank(self) -> int {
        match self {
            ReminderState::Upcoming => 0,
            ReminderState::Pending => 1,
            ReminderState::Expired => 2,
        }
    }
}

/// A scheduled notification: trigger time, text, identity and lifecycle state.
#[derive(Debug, Clone, PartialEq, Eq, Hash)]
pub struct Reminder {
    pub date: Time,
    pub id: ReminderId,
    pub message: String,
    pub state: ReminderState,
}

/// What a client sends to create a reminder: no id, no state.
#[derive(Debug, Clone, PartialEq, Eq)]
pub struct ReminderRequest {
    pub date: Time,
    pub message: String,
}

impl ReminderRequest {
    pub fn new(date: Time, message: String) -> (r: ReminderRequest)
        ensures
            r.date == date,
            r.message == message,
    {
        ReminderRequest { date, message }
    }
}

impl Reminder {
    /// A fresh Upcoming reminder made from a request and an identifier.
    pub fn new(request: ReminderRequest, id: ReminderId) -> (r: Reminder)
        ensures
            r.date == request.date,
            r.message == request.message,
            r.id == id,
            r.state == ReminderState::Upcoming,
    {
        Reminder { date: request.date, message: request.message, id, state: ReminderState::Upcoming }
    }

    /// A reminder as received from the synchronization service.
    pub fn from_parts(id: ReminderId, date: Time, message: String, state: ReminderState) -> (r:
        Reminder)
        ensures
            r == (Reminder { date, id, message, state }),
    {
        Reminder { date, id, message, state }
    }

    /// A copy equal to this reminder.
    pub fn duplicate(&self) -> (r: Reminder)
        ensures
            r == *self,
    {
        Reminder {
            date: self.date,
            id: self.id,
            message: self.message.clone(),
            state: self.state,
        }
    }

    /// The trigger time has come at `now`.
    pub open spec fn is_due(self, now: Time) -> bool {
        self.date.secs <= now.secs
    }

    /// Whether the trigger time has come at `now`.
    pub fn expired(&self, now: Time) -> (r: bool)
        ensures
            r == self.is_due(now),
    {
        self.date.secs <= now.secs
    }

    /// Moves the reminder one step along its lifecycle.
    pub fn set_state(&mut self, state: ReminderState)
        requires
            old(self).state.successor() == Some(state),
        ensures
            *final(self) == (Reminder { state, ..*old(self) }),
    {
        self.state = state;
    }

    pub fn id(&self) -> (r: ReminderId)
        ensures
            r == self.id,
    {
        self.id
    }

    pub fn date(&self) -> (r: Time)
        ensures
            r == self.date,
    {
        self.date
    }

    pub fn message(&self) -> (r: &str)
        ensures
            r@ == self.message@,
    {
        self.message.as_str()
    }

    pub fn state(&self) -> (r: ReminderState)
        ensures
            r == self.state,
    {
        self.state
    }
}

} // verus!
