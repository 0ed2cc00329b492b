use vstd::prelude::*;

use crate::error::ServiceError;
use crate::reminder::{Reminder, ReminderId, ReminderRequest, ReminderState};
use crate::store::{acknowledged, listed_all, listed_pending, ReminderStore};
use crate::time::Time;

verus! {

/// One user: identity, shared secret and reminders.
pub struct UserEntry {
    pub name: String,
    pub secret: String,
    pub store: ReminderStore,
}

/// All users' stores and the one identifier counter they share.
pub struct Registry {
    pub next_id: u64,
    pub users: Vec<UserEntry>,
}

/// `b` is `a` with, at most, the reminders of user `i` changed.
pub open spec fn same_but_store(a: Seq<UserEntry>, b: Seq<UserEntry>, i: int) -> bool {
    &&& a.len() == b.len()
    &&& 0 <= i < a.len()
    &&& forall|j: int| 0 <= j < a.len() && j != i ==> b[j] == a[j]
    &&& b[i].name == a[i].name
    &&& b[i].secret == a[i].secret
}

/// Whether two texts are equal, character by character.
fn same_text(a: &str, b: &str) -> (r: bool)
    ensures
        r == (a@ == b@),
{
    let n = a.unicode_len();
    if n != b.unicode_len() {
        return false;
    }
    let mut i: usize = 0;
    while i < n
        invariant
            i <= n == a@.len() == b@.len(),
            forall|k: int| 0 <= k < i ==> a@[k] == b@[k],
        decreases n - i,
    {
        if a.get_char(i) != b.get_char(i) {
            return false;
        }
        i = i + 1;
    }
    assert(a@ =~= b@);
    true
}

/// The outcome of `Registry::add`, from `old` to `new`.
pub open spec fn added(old: Registry, new: Registry, user: Seq<char>, request: ReminderRequest, r: Result<Reminder, ServiceError>) -> bool {
    &&& r is Ok <==> old.has_user(user)
    &&& r matches Ok(rm) ==> {
        &&& rm == (Reminder {
            date: request.date,
            id: old.next_id,
            message: request.message,
            state: ReminderState::Upcoming,
        })
        &&& new.next_id == old.next_id + 1
        &&& exists|i: int|
            old.user_at(user, i) && same_but_store(old.users@, new.users@, i)
        && new.users@[i].store.reminders@ == old.users@[i].store.reminders@.push(rm)
    }
    &&& r is Err ==> r == Err::<Reminder, ServiceError>(ServiceError::Unauthorized)
        && new.next_id == old.next_id && new.users@ == old.users@
}

/// The outcome of `Registry::acknowledge`, from `old` to `new`.
pub open spec fn acknowledged_by(old: Registry, new: Registry, user: Seq<char>, id: ReminderId, r: Result<(), ServiceError>) -> bool {
    &&& new.next_id == old.next_id
    &&& !old.has_user(user) ==> r == Err::<(), ServiceError>(ServiceError::Unauthorized)
        && new.users@ == old.users@
    &&& old.has_user(user) ==> exists|i: int|
        old.user_at(user, i) && same_but_store(old.users@, new.users@, i)
            && acknowledged(
            old.users@[i].store.reminders@,
            new.users@[i].store.reminders@,
            id,
            r,
        )
}

/// The outcome of `Registry::list_all`, from `old` to `new`.
pub open spec fn listed_all_by(old: Registry, new: Registry, user: Seq<char>, now: Time, r: Result<Vec<Reminder>, ServiceError>) -> bool {
    &&& new.next_id == old.next_id
    &&& r is Ok <==> old.has_user(user)
    &&& r is Err ==> r == Err::<Vec<Reminder>, ServiceError>(ServiceError::Unauthorized)
        && new.users@ == old.users@
    &&& r matches Ok(v) ==> exists|i: int|
        old.user_at(user, i) && same_but_store(old.users@, new.users@, i)
            && listed_all(
            old.users@[i].store.reminders@,
            new.users@[i].store.reminders@,
            now,
            v@,
        )
}

/// The outcome of `Registry::list_pending`, from `old` to `new`.
pub open spec fn listed_pending_by(old: Registry, new: Registry, user: Seq<char>, now: Time, r: Result<Vec<Reminder>, ServiceError>) -> bool {
    &&& new.next_id == old.next_id
    &&& r is Ok <==> old.has_user(user)
    &&& r is Err ==> r == Err::<Vec<Reminder>, ServiceError>(ServiceError::Unauthorized)
        && new.users@ == old.users@
    &&& r matches Ok(v) ==> exists|i: int|
        old.user_at(user, i) && same_but_store(old.users@, new.users@, i)
            && listed_pending(
            old.users@[i].store.reminders@,
            new.users@[i].store.reminders@,
            now,
            v@,
        )
}

impl Registry {
    /// Names are unique, every store is well formed, and every identifier
    /// handed out so far lies below the counter.
    pub open spec fn wf(&self) -> bool {
        &&& forall|i: int, j: int|
            0 <= i < j < self.users@.len() ==> self.users@[i].name@ != self.users@[j].name@
        &&& forall|i: int| 0 <= i < self.users@.len() ==> (#[trigger] self.users@[i]).store.wf()
        &&& forall|i: int, k: int|
            0 <= i < self.users@.len() && 0 <= k < self.users@[i].store.reminders@.len()
                ==> (#[trigger] self.users@[i].store.reminders@[k]).id < self.next_id
    }

    /// User `i` is called `name`.
    pub open spec fn user_at(&self, name: Seq<char>, i: int) -> bool {
        0 <= i < self.users@.len() && self.users@[i].name@ == name
    }

    pub open spec fn has_user(&self, name: Seq<char>) -> bool {
        exists|i: int| self.user_at(name, i)
    }

    /// `name` is a user whose secret is exactly `secret`.
    pub open spec fn authorized(&self, name: Seq<char>, secret: Seq<char>) -> bool {
        exists|i: int| self.user_at(name, i) && self.users@[i].secret@ == secret
    }

    /// An empty registry: no users, and the first identifier is 0.
    pub fn new() -> (r: Registry)
        ensures
            r.wf(),
            r.next_id == 0,
            r.users@.len() == 0,
    {
        Registry { next_id: 0, users: Vec::new() }
    }

    fn find_user(&self, name: &str) -> (r: Option<usize>)
        requires
            self.wf(),
        ensures
            r matches Some(i) ==> self.user_at(name@, i as int),
            r is None ==> !self.has_user(name@),
    {
        let mut i: usize = 0;
        while i < self.users.len()
            invariant
                i <= self.users@.len(),
                forall|k: int| 0 <= k < i ==> self.users@[k].name@ != name@,
            decreases self.users@.len() - i,
        {
            if same_text(self.users[i].name.as_str(), name) {
                return Some(i);
            }
            i = i + 1;
        }
        None
    }

    /// Registers `name` with `secret`; a known user keeps its reminders and
    /// gets the new secret.
    pub fn add_user(&mut self, name: String, secret: String)
        requires
            old(self).wf(),
        ensures
            final(self).wf(),
            final(self).next_id == old(self).next_id,
            old(self).has_user(name@) ==> exists|i: int|
                old(self).user_at(name@, i) && final(self).users@ == old(self).users@.update(
                    i,
                    UserEntry { secret, ..old(self).users@[i] },
                ),
            !old(self).has_user(name@) ==> final(self).users@.len() == old(self).users@.len() + 1
                && final(self).users@.take(old(self).users@.len() as int) == old(self).users@
                && final(self).users@.last().name == name
                && final(self).users@.last().secret == secret
                && final(self).users@.last().store.reminders@.len() == 0,
    {
        match self.find_user(name.as_str()) {
            Some(i) => {
                let ghost before = self.users@;
                let mut e = self.users.remove(i);
                e.secret = secret;
                self.users.insert(i, e);
                assert(self.users@ =~= before.update(i as int, UserEntry { secret, ..before[i as int] }));
                assert(forall|j: int| 0 <= j < before.len() && j != i ==> self.users@[j] == before[j]);
            },
            None => {
                let ghost before = self.users@;
                self.users.push(UserEntry { name, secret, store: ReminderStore::new() });
                assert(self.users@.take(before.len() as int) =~= before);
                assert(forall|j: int| 0 <= j < before.len() ==> self.users@[j] == before[j]);
                assert forall|j: int| 0 <= j < before.len() implies before[j].name@ != name@ by {
                    if before[j].name@ == name@ {
                        assert(old(self).user_at(name@, j));
                    }
                }
            },
        }
    }

    /// A registry holding the given users, each with its secret and no
    /// reminders; where a name repeats, its last secret counts.
    pub fn with_users(users: &Vec<(String, String)>) -> (r: Registry)
        ensures
            r.wf(),
            r.next_id == 0,
            forall|u: int| 0 <= u < r.users@.len() ==> (#[trigger] r.users@[u]).store.reminders@.len() == 0,
            forall|name: Seq<char>|
                r.has_user(name) <==> exists|k: int| 0 <= k < users@.len() && (#[trigger] users@[k]).0@ == name,
            forall|k: int|
                0 <= k < users@.len() && (forall|j: int| k < j < users@.len() ==> (#[trigger] users@[j]).0@ != users@[k].0@)
                    ==> r.authorized(users@[k].0@, users@[k].1@),
    {
        let mut reg = Registry::new();
        let mut i: usize = 0;
        while i < users.len()
            invariant
                i <= users@.len(),
                reg.wf(),
                reg.next_id == 0,
                forall|u: int| 0 <= u < reg.users@.len() ==> (#[trigger] reg.users@[u]).store.reminders@.len() == 0,
                forall|name: Seq<char>|
                    reg.has_user(name) <==> exists|k: int| 0 <= k < i && (#[trigger] users@[k]).0@ == name,
                forall|k: int|
                    0 <= k < i && (forall|j: int| k < j < i ==> (#[trigger] users@[j]).0@ != users@[k].0@)
                        ==> reg.authorized(users@[k].0@, users@[k].1@),
            decreases users@.len() - i,
        {
            let ghost before = reg;
            let name = users[i].0.clone();
            let secret = users[i].1.clone();
            reg.add_user(name, secret);
            proof {
                let n = users@[i as int].0@;
                let sec = users@[i as int].1@;
                let bl = before.users@.len() as int;
                // The entries whose name is not `n` are those of `before`, in place.
                if before.has_user(n) {
                    let u = choose|u: int| before.user_at(n, u) && reg.users@ == before.users@.update(
                        u,
                        UserEntry { secret: users@[i as int].1, ..before.users@[u] },
                    );
                    assert(reg.user_at(n, u) && reg.users@[u].secret@ == sec);
                    assert(forall|v: int| 0 <= v < bl ==> (#[trigger] reg.users@[v]).name == before.users@[v].name);
                    assert(forall|v: int| 0 <= v < bl && v != u ==> #[trigger] reg.users@[v] == before.users@[v]);
                    assert(reg.users@.len() == bl);
                } else {
                    assert(reg.user_at(n, bl) && reg.users@[bl].secret@ == sec);
                    assert(forall|v: int| 0 <= v < bl ==> #[trigger] reg.users@[v] == reg.users@.take(bl)[v]);
                    assert(forall|v: int| 0 <= v < bl ==> #[trigger] reg.users@[v] == before.users@[v]);
                }
                assert(reg.has_user(n));
                assert forall|nm: Seq<char>|
                    reg.has_user(nm) <==> exists|k: int| 0 <= k < i + 1 && (#[trigger] users@[k]).0@ == nm by {
                    if nm == n {
                        assert(users@[i as int].0@ == nm);
                    } else {
                        if reg.has_user(nm) {
                            let u = choose|u: int| reg.user_at(nm, u);
                            assert(before.user_at(nm, u));
                        }
                        if before.has_user(nm) {
                            let u = choose|u: int| before.user_at(nm, u);
                            assert(reg.user_at(nm, u));
                        }
                    }
                }
                assert forall|k: int|
                    0 <= k < i + 1 && (forall|j: int| k < j < i + 1 ==> (#[trigger] users@[j]).0@ != users@[k].0@)
                        implies reg.authorized(users@[k].0@, users@[k].1@) by {
                    if k < i {
                        assert(users@[i as int].0@ != users@[k].0@);
                        let u = choose|u: int| before.user_at(users@[k].0@, u) && before.users@[u].secret@ == users@[k].1@;
                        assert(reg.user_at(users@[k].0@, u) && reg.users@[u].secret@ == users@[k].1@);
                    }
                }
            }
            i = i + 1;
        }
        reg
    }

    /// Whether `name` is a user whose secret is exactly `secret`; unknown
    /// users never match.
    pub fn check_auth(&self, name: &str, secret: &str) -> (r: bool)
        requires
            self.wf(),
        ensures
            r == self.authorized(name@, secret@),
    {
        match self.find_user(name) {
            Some(i) => same_text(self.users[i].secret.as_str(), secret),
            None => false,
        }
    }

    /// Stores a new Upcoming reminder for `user` under the next identifier;
    /// fails with `Unauthorized`, changing nothing, for an unknown user.
    pub fn add(&mut self, user: &str, request: ReminderRequest) -> (r: Result<Reminder, ServiceError>)
        requires
            old(self).wf(),
            old(self).next_id < u64::MAX,
        ensures
            final(self).wf(),
            added(*old(self), *final(self), user@, request, r),
    {
        match self.find_user(user) {
            None => Err(ServiceError::Unauthorized),
            Some(i) => {
                let ghost before = self.users@;
                let rm = Reminder::new(request, self.next_id);
                let mut e = self.users.remove(i);
                e.store.insert(rm.duplicate());
                self.users.insert(i, e);
                self.next_id = self.next_id + 1;
                assert(forall|j: int| 0 <= j < before.len() && j != i ==> self.users@[j] == before[j]);
                Ok(rm)
            },
        }
    }

    /// Acknowledges reminder `id` of `user`: `Unauthorized` for an unknown
    /// user, `NotFound` when the reminder is not Pending.
    pub fn acknowledge(&mut self, user: &str, id: ReminderId) -> (r: Result<(), ServiceError>)
        requires
            old(self).wf(),
        ensures
            final(self).wf(),
            acknowledged_by(*old(self), *final(self), user@, id, r),
    {
        match self.find_user(user) {
            None => Err(ServiceError::Unauthorized),
            Some(i) => {
                let ghost before = self.users@;
                let mut e = self.users.remove(i);
                let r = e.store.acknowledge(id);
                self.users.insert(i, e);
                assert(forall|j: int| 0 <= j < before.len() && j != i ==> self.users@[j] == before[j]);
                r
            },
        }
    }

    /// Promotes `user`'s due reminders and lists them all, bucket after
    /// bucket; `Unauthorized` for an unknown user.
    pub fn list_all(&mut self, user: &str, now: Time) -> (r: Result<Vec<Reminder>, ServiceError>)
        requires
            old(self).wf(),
        ensures
            final(self).wf(),
            listed_all_by(*old(self), *final(self), user@, now, r),
    {
        match self.find_user(user) {
            None => Err(ServiceError::Unauthorized),
            Some(i) => {
                let ghost before = self.users@;
                let mut e = self.users.remove(i);
                let v = e.store.list_all(now);
                self.users.insert(i, e);
                assert(forall|j: int| 0 <= j < before.len() && j != i ==> self.users@[j] == before[j]);
                Ok(v)
            },
        }
    }

    /// Promotes `user`'s due reminders and lists the Pending ones by
    /// ascending trigger time; `Unauthorized` for an unknown user.
    pub fn list_pending(&mut self, user: &str, now: Time) -> (r: Result<Vec<Reminder>, ServiceError>)
        requires
            old(self).wf(),
        ensures
            final(self).wf(),
            listed_pending_by(*old(self), *final(self), user@, now, r),
    {
        match self.find_user(user) {
            None => Err(ServiceError::Unauthorized),
            Some(i) => {
                let ghost before = self.users@;
                let mut e = self.users.remove(i);
                let v = e.store.list_pending(now);
                self.users.insert(i, e);
                assert(forall|j: int| 0 <= j < before.len() && j != i ==> self.users@[j] == before[j]);
                Ok(v)
            },
        }
    }

    /// Creates a reminder for an authenticated user. Bad credentials and unknown users get the same
    /// `Unauthorized`, and no store is touched before the check.
    pub fn serve_create(&mut self, user: &str, secret: &str, request: ReminderRequest) -> (r: Result<Reminder, ServiceError>)
        requires
            old(self).wf(),
            old(self).next_id < u64::MAX,
        ensures
            final(self).wf(),
            !old(self).authorized(user@, secret@) ==> r == Err::<Reminder, ServiceError>(ServiceError::Unauthorized)
                && final(self).next_id == old(self).next_id && final(self).users@ == old(self).users@,
            old(self).authorized(user@, secret@) ==> added(*old(self), *final(self), user@, request, r),
    {
        if !self.check_auth(user, secret) {
            return Err(ServiceError::Unauthorized);
        }
        self.add(user, request)
    }

    /// Acknowledges a reminder for an authenticated user. Bad credentials and unknown users get the same
    /// `Unauthorized`, and no store is touched before the check.
    pub fn serve_acknowledge(&mut self, user: &str, secret: &str, id: ReminderId) -> (r: Result<(), ServiceError>)
        requires
            old(self).wf(),
        ensures
            final(self).wf(),
            !old(self).authorized(user@, secret@) ==> r == Err::<(), ServiceError>(ServiceError::Unauthorized)
                && final(self).next_id == old(self).next_id && final(self).users@ == old(self).users@,
            old(self).authorized(user@, secret@) ==> acknowledged_by(*old(self), *final(self), user@, id, r),
    {
        if !self.check_auth(user, secret) {
            return Err(ServiceError::Unauthorized);
        }
        self.acknowledge(user, id)
    }

    /// Lists all reminders of an authenticated user. Bad credentials and unknown users get the same
    /// `Unauthorized`, and no store is touched before the check.
    pub fn serve_list_all(&mut self, user: &str, secret: &str, now: Time) -> (r: Result<Vec<Reminder>, ServiceError>)
        requires
            old(self).wf(),
        ensures
            final(self).wf(),
            !old(self).authorized(user@, secret@) ==> r == Err::<Vec<Reminder>, ServiceError>(ServiceError::Unauthorized)
                && final(self).next_id == old(self).next_id && final(self).users@ == old(self).users@,
            old(self).authorized(user@, secret@) ==> listed_all_by(*old(self), *final(self), user@, now, r),
    {
        if !self.check_auth(user, secret) {
            return Err(ServiceError::Unauthorized);
        }
        self.list_all(user, now)
    }

    /// Lists the Pending reminders of an authenticated user. Bad credentials and unknown users get the same
    /// `Unauthorized`, and no store is touched before the check.
    pub fn serve_list_pending(&mut self, user: &str, secret: &str, now: Time) -> (r: Result<Vec<Reminder>, ServiceError>)
        requires
            old(self).wf(),
        ensures
            final(self).wf(),
            !old(self).authorized(user@, secret@) ==> r == Err::<Vec<Reminder>, ServiceError>(ServiceError::Unauthorized)
                && final(self).next_id == old(self).next_id && final(self).users@ == old(self).users@,
            old(self).authorized(user@, secret@) ==> listed_pending_by(*old(self), *final(self), user@, now, r),
    {
        if !self.check_auth(user, secret) {
            return Err(ServiceError::Unauthorized);
        }
        self.list_pending(user, now)
    }
}

/// An unknown user and a known user with a wrong secret are refused alike:
/// neither is authorized, so every service operation answers both with the
/// same `Unauthorized` and leaves the registry as it was.
pub proof fn lemma_refusal_is_uniform(reg: Registry, name: Seq<char>, secret: Seq<char>)
    requires
        reg.wf(),
    ensures
        !reg.has_user(name) ==> !reg.authorized(name, secret),
        forall|i: int|
            reg.user_at(name, i) && reg.users@[i].secret@ != secret ==> !reg.authorized(name, secret),
{
}

/// An identifier, once issued, is never issued again: the reminder that
/// `add` stores carries an identifier held by no reminder of any user
/// before, and every identifier, the new one included, lies below the
/// counter from which later ones are drawn.
pub proof fn lemma_issued_id_fresh(
    old: Registry,
    new: Registry,
    user: Seq<char>,
    request: ReminderRequest,
    r: Result<Reminder, ServiceError>,
)
    requires
        old.wf(),
        new.wf(),
        added(old, new, user, request, r),
        r is Ok,
    ensures
        forall|u: int, k: int|
            0 <= u < old.users@.len() && 0 <= k < old.users@[u].store.reminders@.len()
                ==> (#[trigger] old.users@[u].store.reminders@[k]).id != r->Ok_0.id,
        r->Ok_0.id < new.next_id,
        forall|u: int, k: int|
            0 <= u < new.users@.len() && 0 <= k < new.users@[u].store.reminders@.len()
                ==> (#[trigger] new.users@[u].store.reminders@[k]).id < new.next_id,
{
}

} // verus!
