use vstd::prelude::*;

use crate::error::RemindmeError;
use crate::reminder::{Reminder, ReminderId, ReminderState};
use crate::store::{collect_in_state, in_state};

verus! {

broadcast use vstd::seq_lib::group_to_multiset_ensures, vstd::seq_lib::to_multiset_insert;

/// Trigger times never decrease along `s`.
pub open spec fn sorted_by_date(s: Seq<Reminder>) -> bool {
    forall|i: int, j: int| 0 <= i < j < s.len() ==> s[i].date.secs <= s[j].date.secs
}

/// The same reminders as `v`, in ascending order of trigger time; reminders
/// with equal times keep their relative order.
pub fn sort_by_date(v: &Vec<Reminder>) -> (r: Vec<Reminder>)
    ensures
        sorted_by_date(r@),
        r@.to_multiset() == v@.to_multiset(),
{
    let mut out: Vec<Reminder> = Vec::new();
    let mut i: usize = 0;
    while i < v.len()
        invariant
            i <= v.len(),
            sorted_by_date(out@),
            out@.to_multiset() == v@.take(i as int).to_multiset(),
        decreases v.len() - i,
    {
        let x = v[i].duplicate();
        let mut p: usize = 0;
        while p < out.len() && out[p].date.secs <= x.date.secs
            invariant
                p <= out.len(),
                forall|k: int| 0 <= k < p ==> out@[k].date.secs <= x.date.secs,
            decreases out.len() - p,
        {
            p = p + 1;
        }
        let ghost before = out@;
        out.insert(p, x);
        assert(out@ == before.insert(p as int, x));
        assert(v@.take(i + 1) =~= v@.take(i as int).push(v@[i as int]));
        assert(sorted_by_date(out@)) by {
            assert(forall|k: int| p < k < out@.len() ==> out@[k] == before[k - 1]);
            assert(forall|k: int| 0 <= k < p ==> out@[k] == before[k]);
        }
        i = i + 1;
    }
    assert(v@.take(v.len() as int) =~= v@);
    out
}

/// The reminders of one fetch, in the order the client notifies and
/// acknowledges them: the Pending ones, by ascending trigger time.
pub fn fetch_order(reminders: &Vec<Reminder>) -> (r: Vec<Reminder>)
    ensures
        sorted_by_date(r@),
        r@.to_multiset() == in_state(reminders@, ReminderState::Pending).to_multiset(),
{
    let mut pending: Vec<Reminder> = Vec::new();
    collect_in_state(reminders, ReminderState::Pending, &mut pending);
    assert(pending@ =~= in_state(reminders@, ReminderState::Pending));
    sort_by_date(&pending)
}

/// What the exit of the external action means for the reminder it was given:
/// success lets the client acknowledge it; any other exit ends the listen
/// loop with the exit code, or -1 when the action had none.
pub fn action_verdict(success: bool, code: Option<i32>) -> (r: Result<(), RemindmeError>)
    ensures
        success ==> r == Ok::<(), RemindmeError>(()),
        !success ==> r == Err::<(), RemindmeError>(RemindmeError::CommandExit(
            match code {
                Some(c) => c,
                None => -1i32,
            },
        )),
{
    if success {
        Ok(())
    } else {
        match code {
            Some(c) => Err(RemindmeError::CommandExit(c)),
            None => Err(RemindmeError::CommandExit(-1)),
        }
    }
}

/// How long the listen loop sleeps after a cycle that took `elapsed_millis`,
/// for an interval of `interval_secs`: the rest of the interval, or nothing
/// when the cycle took longer.
pub fn sleep_millis(interval_secs: u64, elapsed_millis: u128) -> (r: u128)
    ensures
        r == (if interval_secs * 1000 > elapsed_millis {
            interval_secs * 1000 - elapsed_millis
        } else {
            0
        }),
{
    let interval = interval_secs as u128 * 1000;
    if interval > elapsed_millis {
        interval - elapsed_millis
    } else {
        0
    }
}

/// Where the listen loop stands in its cycle.
#[derive(Debug, Clone, Copy, PartialEq, Eq, Structural)]
pub enum ListenStage {
    /// Waiting for the pending reminders.
    Fetching,
    /// Waiting for the external action on the current reminder to exit.
    Acting,
    /// Waiting for the current reminder to be acknowledged.
    Acknowledging,
    /// Waiting for the rest of the interval to pass.
    Resting,
    /// The loop has ended.
    Stopped,
}

/// What the listen loop asks its driver to do next.
#[derive(Debug, PartialEq, Eq)]
pub enum ListenAction {
    /// Ask the service for the pending reminders.
    Fetch,
    /// Feed this message to the external action.
    RunAction(String),
    /// Print this reminder and acknowledge it.
    Acknowledge(ReminderId),
    /// Sleep for what is left of the interval (see `sleep_millis`).
    Rest,
    /// End the loop with this error.
    Abort(RemindmeError),
}

/// What the driver reports back after doing an action.
#[derive(Debug)]
pub enum ListenEvent {
    /// The pending reminders the service returned.
    Fetched(Vec<Reminder>),
    /// The external action exited, successfully or not, with its code if any.
    ActionExited(bool, Option<i32>),
    /// The current reminder was acknowledged.
    Acknowledged,
    /// The rest of the interval has passed.
    Rested,
}

/// The decisions of the listen loop: which reminder comes next, when the
/// external action runs, when a reminder is acknowledged, when to rest and
/// when to stop.
pub struct Listener {
    pub with_action: bool,
    pub due: Vec<Reminder>,
    pub pos: usize,
    pub stage: ListenStage,
}

/// The event that answers the action asked for in `stage`.
pub open spec fn answers(stage: ListenStage, event: ListenEvent) -> bool {
    match stage {
        ListenStage::Fetching => event is Fetched,
        ListenStage::Acting => event is ActionExited,
        ListenStage::Acknowledging => event is Acknowledged,
        ListenStage::Resting => event is Rested,
        ListenStage::Stopped => false,
    }
}

impl Listener {
    pub open spec fn wf(&self) -> bool {
        &&& self.pos <= self.due@.len()
        &&& (self.stage is Acting || self.stage is Acknowledging) ==> self.pos < self.due@.len()
        &&& self.stage is Acting ==> self.with_action
    }

    /// The action that moves on to reminder `pos` of the cycle, and the
    /// stage it leads to.
    pub open spec fn advance_spec(&self, pos: int) -> (ListenAction, ListenStage) {
        if pos < self.due@.len() {
            if self.with_action {
                (ListenAction::RunAction(self.due@[pos].message), ListenStage::Acting)
            } else {
                (ListenAction::Acknowledge(self.due@[pos].id), ListenStage::Acknowledging)
            }
        } else {
            (ListenAction::Rest, ListenStage::Resting)
        }
    }

    /// A loop that starts by fetching; `with_action` says whether each
    /// reminder goes to the external action before it is acknowledged.
    pub fn new(with_action: bool) -> (r: (Listener, ListenAction))
        ensures
            r.0.wf(),
            r.0.with_action == with_action,
            r.0.stage == ListenStage::Fetching,
            r.0.due@.len() == 0,
            r.1 == ListenAction::Fetch,
    {
        (Listener { with_action, due: Vec::new(), pos: 0, stage: ListenStage::Fetching }, ListenAction::Fetch)
    }

    /// Whether `event` answers the action last asked for.
    pub fn accepts(&self, event: &ListenEvent) -> (r: bool)
        ensures
            r == answers(self.stage, *event),
    {
        match self.stage {
            ListenStage::Fetching => matches!(event, ListenEvent::Fetched(_)),
            ListenStage::Acting => matches!(event, ListenEvent::ActionExited(_, _)),
            ListenStage::Acknowledging => matches!(event, ListenEvent::Acknowledged),
            ListenStage::Resting => matches!(event, ListenEvent::Rested),
            ListenStage::Stopped => false,
        }
    }

    fn advance(&mut self) -> (r: ListenAction)
        requires
            old(self).pos <= old(self).due@.len(),
        ensures
            final(self).wf(),
            final(self).due == old(self).due,
            final(self).pos == old(self).pos,
            final(self).with_action == old(self).with_action,
            (r, final(self).stage) == old(self).advance_spec(old(self).pos as int),
    {
        if self.pos < self.due.len() {
            if self.with_action {
                self.stage = ListenStage::Acting;
                ListenAction::RunAction(self.due[self.pos].message.clone())
            } else {
                self.stage = ListenStage::Acknowledging;
                ListenAction::Acknowledge(self.due[self.pos].id)
            }
        } else {
            self.stage = ListenStage::Resting;
            ListenAction::Rest
        }
    }

    /// Takes the outcome of the last action and decides the next one. A
    /// fetch starts a cycle over the Pending reminders by ascending trigger
    /// time; each one goes to the external action, if any, and is
    /// acknowledged only once that action exits successfully; an
    /// unsuccessful exit stops the loop, leaving that reminder and the rest
    /// of the cycle unacknowledged; after the last one the loop rests, then
    /// fetches again.
    pub fn step(&mut self, event: ListenEvent) -> (r: ListenAction)
        requires
            old(self).wf(),
            answers(old(self).stage, event),
        ensures
            final(self).wf(),
            final(self).with_action == old(self).with_action,
            event matches ListenEvent::Fetched(v) ==> {
                &&& sorted_by_date(final(self).due@)
                &&& final(self).due@.to_multiset() == in_state(v@, ReminderState::Pending).to_multiset()
                &&& final(self).pos == 0
                &&& (r, final(self).stage) == final(self).advance_spec(0)
            },
            event matches ListenEvent::ActionExited(success, code) ==> {
                &&& final(self).due == old(self).due
                &&& final(self).pos == old(self).pos
                &&& success ==> r == ListenAction::Acknowledge(old(self).due@[old(self).pos as int].id)
                    && final(self).stage == ListenStage::Acknowledging
                &&& !success ==> r == ListenAction::Abort(RemindmeError::CommandExit(
                    match code {
                        Some(c) => c,
                        None => -1i32,
                    },
                )) && final(self).stage == ListenStage::Stopped
            },
            event is Acknowledged ==> {
                &&& final(self).due == old(self).due
                &&& final(self).pos == old(self).pos + 1
                &&& (r, final(self).stage) == old(self).advance_spec(old(self).pos + 1)
            },
            event is Rested ==> final(self).due == old(self).due && final(self).pos == old(self).pos
                && r == ListenAction::Fetch && final(self).stage == ListenStage::Fetching,
    {
        match event {
            ListenEvent::Fetched(v) => {
                self.due = fetch_order(&v);
                self.pos = 0;
                self.advance()
            },
            ListenEvent::ActionExited(success, code) => {
                match action_verdict(success, code) {
                    Ok(()) => {
                        self.stage = ListenStage::Acknowledging;
                        ListenAction::Acknowledge(self.due[self.pos].id)
                    },
                    Err(e) => {
                        self.stage = ListenStage::Stopped;
                        ListenAction::Abort(e)
                    },
                }
            },
            ListenEvent::Acknowledged => {
                assert(self.stage is Acknowledging);
                let n = self.due.len();
                assert(self.pos < n);
                self.pos = self.pos + 1;
                self.advance()
            },
            ListenEvent::Rested => {
                self.stage = ListenStage::Fetching;
                ListenAction::Fetch
            },
        }
    }
}

} // verus!
