use vstd::prelude::*;

use crate::client::{sort_by_date, sorted_by_date};
use crate::error::ServiceError;
use crate::reminder::{Reminder, ReminderId, ReminderRequest, ReminderState};
use crate::time::Time;

verus! {

broadcast use vstd::seq_lib::group_to_multiset_ensures;

/// A reminder after promotion at `now`: an Upcoming one whose time has come
/// becomes Pending; every other one stays as it is.
pub open spec fn promote(r: Reminder, now: Time) -> Reminder {
    if r.state == ReminderState::Upcoming && r.is_due(now) {
        Reminder { state: ReminderState::Pending, ..r }
    } else {
        r
    }
}

/// Every reminder of `s` promoted at `now`, in place.
pub open spec fn promoted(s: Seq<Reminder>, now: Time) -> Seq<Reminder> {
    s.map_values(|r: Reminder| promote(r, now))
}

/// The reminders of `s` in state `st`, in their order in `s`.
pub open spec fn in_state(s: Seq<Reminder>, st: ReminderState) -> Seq<Reminder>
    decreases s.len(),
{
    if s.len() == 0 {
        Seq::empty()
    } else if s.last().state == st {
        in_state(s.drop_last(), st).push(s.last())
    } else {
        in_state(s.drop_last(), st)
    }
}

/// No two reminders of `s` share an identifier.
pub open spec fn ids_unique(s: Seq<Reminder>) -> bool {
    forall|i: int, j: int| 0 <= i < j < s.len() ==> s[i].id != s[j].id
}

/// `s` holds a Pending reminder with identifier `id`.
pub open spec fn has_pending(s: Seq<Reminder>, id: ReminderId) -> bool {
    exists|i: int| 0 <= i < s.len() && s[i].id == id && s[i].state == ReminderState::Pending
}

/// `new` is `old` after acknowledging `id`, which gave `r`.
pub open spec fn acknowledged(
    old: Seq<Reminder>,
    new: Seq<Reminder>,
    id: ReminderId,
    r: Result<(), ServiceError>,
) -> bool {
    &&& r is Ok <==> has_pending(old, id)
    &&& r is Ok ==> exists|i: int|
        0 <= i < old.len() && old[i].id == id && old[i].state == ReminderState::Pending && new
            == old.update(i, Reminder { state: ReminderState::Expired, ..old[i] })
    &&& r is Err ==> r == Err::<(), ServiceError>(ServiceError::NotFound) && new == old
}

/// `new` is `old` promoted at `now`, and `r` lists it bucket after bucket.
pub open spec fn listed_all(old: Seq<Reminder>, new: Seq<Reminder>, now: Time, r: Seq<Reminder>) -> bool {
    &&& new == promoted(old, now)
    &&& r == in_state(new, ReminderState::Pending) + in_state(new, ReminderState::Upcoming)
        + in_state(new, ReminderState::Expired)
}

/// `new` is `old` promoted at `now`, and `r` holds its Pending reminders by
/// ascending trigger time.
pub open spec fn listed_pending(old: Seq<Reminder>, new: Seq<Reminder>, now: Time, r: Seq<Reminder>) -> bool {
    &&& new == promoted(old, now)
    &&& sorted_by_date(r)
    &&& r.to_multiset() == in_state(new, ReminderState::Pending).to_multiset()
}

/// Appends to `out` the reminders in state `st`, in stored order.
pub(crate) fn collect_in_state(s: &Vec<Reminder>, st: ReminderState, out: &mut Vec<Reminder>)
    ensures
        final(out)@ == old(out)@ + in_state(s@, st),
{
    let ghost start = out@;
    let mut i: usize = 0;
    while i < s.len()
        invariant
            i <= s@.len(),
            out@ == start + in_state(s@.take(i as int), st),
        decreases s@.len() - i,
    {
        assert(s@.take(i + 1).drop_last() =~= s@.take(i as int));
        if s[i].state == st {
            out.push(s[i].duplicate());
        }
        i = i + 1;
    }
    assert(s@.take(i as int) =~= s@);
}

/// The reminders of one user. Each reminder is in exactly one state, so the
/// Upcoming, Pending and Expired buckets are disjoint by construction.
pub struct ReminderStore {
    pub reminders: Vec<Reminder>,
}

impl ReminderStore {
    pub open spec fn wf(&self) -> bool {
        ids_unique(self.reminders@)
    }

    pub fn new() -> (r: ReminderStore)
        ensures
            r.wf(),
            r.reminders@ == Seq::<Reminder>::empty(),
    {
        ReminderStore { reminders: Vec::new() }
    }

    /// Adds a reminder whose identifier is not yet in the store.
    pub fn insert(&mut self, r: Reminder)
        requires
            old(self).wf(),
            forall|i: int| 0 <= i < old(self).reminders@.len() ==> old(self).reminders@[i].id != r.id,
        ensures
            final(self).wf(),
            final(self).reminders@ == old(self).reminders@.push(r),
    {
        self.reminders.push(r);
    }

    /// Moves every Upcoming reminder whose trigger time is at or before `now`
    /// to Pending.
    pub fn promote_due(&mut self, now: Time)
        requires
            old(self).wf(),
        ensures
            final(self).wf(),
            final(self).reminders@ == promoted(old(self).reminders@, now),
    {
        let ghost start = self.reminders@;
        let mut i: usize = 0;
        while i < self.reminders.len()
            invariant
                i <= self.reminders@.len() == start.len(),
                forall|k: int| 0 <= k < i ==> self.reminders@[k] == promote(start[k], now),
                forall|k: int| i <= k < start.len() ==> self.reminders@[k] == start[k],
            decreases start.len() - i,
        {
            if self.reminders[i].state == ReminderState::Upcoming && self.reminders[i].expired(now) {
                let mut r = self.reminders[i].duplicate();
                r.set_state(ReminderState::Pending);
                self.reminders.set(i, r);
            }
            i = i + 1;
        }
        assert(self.reminders@ =~= promoted(start, now));
    }

    /// Moves the Pending reminder `id` to Expired; fails with `NotFound`,
    /// changing nothing, when no Pending reminder has that identifier.
    pub fn acknowledge(&mut self, id: ReminderId) -> (r: Result<(), ServiceError>)
        requires
            old(self).wf(),
        ensures
            final(self).wf(),
            acknowledged(old(self).reminders@, final(self).reminders@, id, r),
    {
        let ghost start = self.reminders@;
        let mut i: usize = 0;
        while i < self.reminders.len()
            invariant
                i <= self.reminders@.len(),
                self.reminders@ == start,
                start == old(self).reminders@,
                ids_unique(start),
                forall|k: int|
                    0 <= k < i ==> !(self.reminders@[k].id == id && self.reminders@[k].state
                        == ReminderState::Pending),
            decreases self.reminders@.len() - i,
        {
            if self.reminders[i].id == id && self.reminders[i].state == ReminderState::Pending {
                let mut r = self.reminders[i].duplicate();
                r.set_state(ReminderState::Expired);
                self.reminders.set(i, r);
                assert(self.reminders@ =~= start.update(
                    i as int,
                    Reminder { state: ReminderState::Expired, ..start[i as int] },
                ));
                assert(has_pending(start, id));
                return Ok(());
            }
            i = i + 1;
        }
        Err(ServiceError::NotFound)
    }

    /// Promotes due reminders, then returns the Pending, the Upcoming and the
    /// Expired ones, bucket after bucket.
    pub fn list_all(&mut self, now: Time) -> (r: Vec<Reminder>)
        requires
            old(self).wf(),
        ensures
            final(self).wf(),
            listed_all(old(self).reminders@, final(self).reminders@, now, r@),
    {
        self.promote_due(now);
        let mut out: Vec<Reminder> = Vec::new();
        collect_in_state(&self.reminders, ReminderState::Pending, &mut out);
        collect_in_state(&self.reminders, ReminderState::Upcoming, &mut out);
        collect_in_state(&self.reminders, ReminderState::Expired, &mut out);
        out
    }

    /// Promotes due reminders, then returns the Pending ones in ascending
    /// order of trigger time.
    pub fn list_pending(&mut self, now: Time) -> (r: Vec<Reminder>)
        requires
            old(self).wf(),
        ensures
            final(self).wf(),
            listed_pending(old(self).reminders@, final(self).reminders@, now, r@),
    {
        self.promote_due(now);
        let mut out: Vec<Reminder> = Vec::new();
        collect_in_state(&self.reminders, ReminderState::Pending, &mut out);
        assert(out@ =~= in_state(self.reminders@, ReminderState::Pending));
        sort_by_date(&out)
    }
}

/// `new` holds the reminders of `old`, in the same places, each with its
/// identity and payload kept and its state unchanged or moved one step along
/// the lifecycle.
pub open spec fn steps_forward(old: Seq<Reminder>, new: Seq<Reminder>) -> bool {
    &&& new.len() == old.len()
    &&& forall|k: int|
        0 <= k < old.len() ==> {
            &&& (#[trigger] new[k]).id == old[k].id
            &&& new[k].date == old[k].date
            &&& new[k].message == old[k].message
            &&& (new[k].state == old[k].state || old[k].state.successor() == Some(new[k].state))
        }
}

/// Promotion never moves a reminder backward or past a state: at most
/// Upcoming to Pending.
pub proof fn lemma_promotion_steps_forward(s: Seq<Reminder>, now: Time)
    ensures
        steps_forward(s, promoted(s, now)),
{
}

/// Acknowledgement never moves a reminder backward or past a state: at most
/// Pending to Expired.
pub proof fn lemma_acknowledge_steps_forward(
    old: Seq<Reminder>,
    new: Seq<Reminder>,
    id: ReminderId,
    r: Result<(), ServiceError>,
)
    requires
        acknowledged(old, new, id, r),
    ensures
        steps_forward(old, new),
{
}

/// Promoting a second time at the same instant changes nothing.
pub proof fn lemma_promote_idempotent(s: Seq<Reminder>, now: Time)
    ensures
        promoted(promoted(s, now), now) == promoted(s, now),
{
    assert(promoted(promoted(s, now), now) =~= promoted(s, now));
}

/// Acknowledgement is final: the reminder is Expired afterwards, and
/// acknowledging the same identifier again fails and changes nothing.
pub proof fn lemma_acknowledge_once(
    s0: Seq<Reminder>,
    s1: Seq<Reminder>,
    s2: Seq<Reminder>,
    id: ReminderId,
    r1: Result<(), ServiceError>,
    r2: Result<(), ServiceError>,
)
    requires
        ids_unique(s0),
        acknowledged(s0, s1, id, r1),
        r1 is Ok,
        acknowledged(s1, s2, id, r2),
    ensures
        exists|i: int| 0 <= i < s1.len() && s1[i].id == id && s1[i].state == ReminderState::Expired,
        r2 == Err::<(), ServiceError>(ServiceError::NotFound),
        s2 == s1,
{
    let i = choose|i: int|
        0 <= i < s0.len() && s0[i].id == id && s0[i].state == ReminderState::Pending && s1
            == s0.update(i, Reminder { state: ReminderState::Expired, ..s0[i] });
    assert(s1[i].id == id && s1[i].state == ReminderState::Expired);
    if has_pending(s1, id) {
        let j = choose|j: int|
            0 <= j < s1.len() && s1[j].id == id && s1[j].state == ReminderState::Pending;
        assert(j != i);
        assert(s0[j].id == s1[j].id);
    }
}

/// `x` occurs in `in_state(s, st)` exactly when it occurs in `s` in state `st`.
pub proof fn lemma_in_state_contains(s: Seq<Reminder>, st: ReminderState, x: Reminder)
    ensures
        in_state(s, st).contains(x) <==> exists|i: int| 0 <= i < s.len() && s[i] == x && x.state == st,
    decreases s.len(),
{
    if s.len() > 0 {
        let p = s.drop_last();
        let q = in_state(p, st);
        lemma_in_state_contains(p, st, x);
        if in_state(s, st).contains(x) {
            let k = choose|k: int| 0 <= k < in_state(s, st).len() && in_state(s, st)[k] == x;
            if k < q.len() {
                assert(q[k] == x);
                assert(q.contains(x));
                let i = choose|i: int| 0 <= i < p.len() && p[i] == x && x.state == st;
                assert(s[i] == x);
            } else {
                assert(s[s.len() - 1] == x);
            }
        }
        if exists|i: int| 0 <= i < s.len() && s[i] == x && x.state == st {
            let i = choose|i: int| 0 <= i < s.len() && s[i] == x && x.state == st;
            if i < s.len() - 1 {
                assert(p[i] == x);
                let k = choose|k: int| 0 <= k < q.len() && q[k] == x;
                assert(in_state(s, st)[k] == x);
            } else {
                assert(in_state(s, st)[in_state(s, st).len() - 1] == x);
            }
        }
    }
}

/// The pending listing at `now` holds exactly the reminders that were not
/// yet acknowledged and whose trigger time is at or before `now`, each now
/// Pending, in ascending order of trigger time.
pub proof fn lemma_pending_listing(old: Seq<Reminder>, new: Seq<Reminder>, now: Time, r: Seq<Reminder>)
    requires
        listed_pending(old, new, now, r),
    ensures
        sorted_by_date(r),
        forall|x: Reminder|
            r.contains(x) <==> exists|i: int|
                0 <= i < old.len() && x == (Reminder { state: ReminderState::Pending, ..old[i] }) && (
                old[i].state == ReminderState::Pending || (old[i].state == ReminderState::Upcoming
                    && old[i].is_due(now))),
{
    assert forall|x: Reminder|
        r.contains(x) <==> exists|i: int|
            0 <= i < old.len() && x == (Reminder { state: ReminderState::Pending, ..old[i] }) && (
            old[i].state == ReminderState::Pending || (old[i].state == ReminderState::Upcoming
                && old[i].is_due(now))) by {
        lemma_in_state_contains(new, ReminderState::Pending, x);
        assert(r.contains(x) <==> r.to_multiset().count(x) > 0);
        assert(in_state(new, ReminderState::Pending).contains(x) <==> in_state(
            new,
            ReminderState::Pending,
        ).to_multiset().count(x) > 0);
        if exists|i: int|
            0 <= i < old.len() && x == (Reminder { state: ReminderState::Pending, ..old[i] }) && (
            old[i].state == ReminderState::Pending || (old[i].state == ReminderState::Upcoming
                && old[i].is_due(now))) {
            let i = choose|i: int|
                0 <= i < old.len() && x == (Reminder { state: ReminderState::Pending, ..old[i] })
                    && (old[i].state == ReminderState::Pending || (old[i].state
                    == ReminderState::Upcoming && old[i].is_due(now)));
            assert(new[i] == x);
        }
        if r.contains(x) {
            let i = choose|i: int| 0 <= i < new.len() && new[i] == x && x.state == ReminderState::Pending;
            assert(new[i] == promote(old[i], now));
        }
    }
}

} // verus!
