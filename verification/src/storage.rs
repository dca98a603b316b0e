//! A contract that keeps contract-wide settings, per-user records, and short-lived
//! session and cache entries.
use vstd::prelude::*;

use crate::address::Addr;
use crate::keymap::KeyMap;

verus! {

/// A user's record.
pub struct UserData {
    pub name: String,
    pub score: i128,
    pub active: bool,
}

/// A user's record as plain values.
pub struct UserDataView {
    pub name: Seq<char>,
    pub score: i128,
    pub active: bool,
}

impl View for UserData {
    type V = UserDataView;

    open spec fn view(&self) -> UserDataView {
        UserDataView { name: self.name@, score: self.score, active: self.active }
    }
}

/// The record reported for a user that has none.
pub open spec fn default_user_data() -> UserDataView {
    UserDataView { name: "NONE"@, score: 0, active: false }
}

/// The cache key under which `process_transaction` leaves the transaction count.
pub open spec fn last_tx_key() -> Seq<char> {
    "LAST_TX"@
}

/// The refusals of the contract.
#[derive(PartialEq, Eq, Structural, Debug, Clone, Copy)]
pub enum StorageError {
    AlreadyInitialized,
    NotInitialized,
}

impl StorageError {
    /// The text of the refusal's message.
    pub open spec fn message_text(self) -> Seq<char> {
        match self {
            StorageError::AlreadyInitialized => "already initialized"@,
            StorageError::NotInitialized => "not initialized"@,
        }
    }

    /// The message with which the contract refuses.
    pub fn message(&self) -> (r: &'static str)
        ensures
            r@ == self.message_text(),
    {
        match self {
            StorageError::AlreadyInitialized => "already initialized",
            StorageError::NotInitialized => "not initialized",
        }
    }
}

/// The contract as plain values.
pub struct StorageView {
    pub admin: Option<Seq<char>>,
    pub init_time: u64,
    pub counter: i128,
    pub balances: Map<Seq<char>, i128>,
    pub user_data: Map<Seq<char>, UserDataView>,
    pub sessions: Map<Seq<char>, i128>,
    pub cache: Map<Seq<char>, i128>,
}

/// The value stored under `k` in `m`, or zero.
pub open spec fn or_zero(m: Map<Seq<char>, i128>, k: Seq<char>) -> i128 {
    if m.contains_key(k) {
        m[k]
    } else {
        0
    }
}

/// What `process_transaction` does: counts the transaction, credits the user, caches the
/// count and records the amount as the user's session.
pub open spec fn process_transaction_spec(v: StorageView, user: Seq<char>, amount: i128) -> StorageView {
    let count = (v.counter + 1) as i128;
    StorageView {
        counter: count,
        balances: v.balances.insert(user, (or_zero(v.balances, user) + amount) as i128),
        cache: v.cache.insert(last_tx_key(), count),
        sessions: v.sessions.insert(user, amount),
        ..v
    }
}

/// The contract's state.
pub struct StorageContract {
    admin: Option<Addr>,
    init_time: u64,
    counter: i128,
    balances: KeyMap<Addr, i128>,
    user_data: KeyMap<Addr, UserData>,
    sessions: KeyMap<Addr, i128>,
    cache: KeyMap<String, i128>,
}

impl View for StorageContract {
    type V = StorageView;

    closed spec fn view(&self) -> StorageView {
        StorageView {
            admin: match self.admin {
                Some(a) => Some(a@),
                None => None,
            },
            init_time: self.init_time,
            counter: self.counter,
            balances: self.balances@,
            user_data: self.user_data@.map_values(|d: UserData| d@),
            sessions: self.sessions@,
            cache: self.cache@,
        }
    }
}

impl StorageContract {
    /// The state's invariant: each key is held once in each table.
    pub closed spec fn wf(&self) -> bool {
        &&& self.balances.wf()
        &&& self.user_data.wf()
        &&& self.sessions.wf()
        &&& self.cache.wf()
    }

    /// A contract with nothing stored.
    pub fn new() -> (r: StorageContract)
        ensures
            r.wf(),
            r@.admin is None,
            r@.init_time == 0,
            r@.counter == 0,
            r@.balances == Map::<Seq<char>, i128>::empty(),
            r@.user_data == Map::<Seq<char>, UserDataView>::empty(),
            r@.sessions == Map::<Seq<char>, i128>::empty(),
            r@.cache == Map::<Seq<char>, i128>::empty(),
    {
        let r = StorageContract {
            admin: None,
            init_time: 0,
            counter: 0,
            balances: KeyMap::new(),
            user_data: KeyMap::new(),
            sessions: KeyMap::new(),
            cache: KeyMap::new(),
        };
        assert(r@.user_data =~= Map::<Seq<char>, UserDataView>::empty());
        r
    }

    /// A contract restored from its stored admin, initialization time and counter, with no
    /// other entry loaded yet.
    pub fn restore(admin: Option<Addr>, init_time: u64, counter: i128) -> (r: StorageContract)
        ensures
            r.wf(),
            r@.admin == match admin {
                Some(a) => Some(a@),
                None => None::<Seq<char>>,
            },
            r@.init_time == init_time,
            r@.counter == counter,
            r@.balances == Map::<Seq<char>, i128>::empty(),
            r@.user_data == Map::<Seq<char>, UserDataView>::empty(),
            r@.sessions == Map::<Seq<char>, i128>::empty(),
            r@.cache == Map::<Seq<char>, i128>::empty(),
    {
        let r = StorageContract {
            admin,
            init_time,
            counter,
            balances: KeyMap::new(),
            user_data: KeyMap::new(),
            sessions: KeyMap::new(),
            cache: KeyMap::new(),
        };
        assert(r@.user_data =~= Map::<Seq<char>, UserDataView>::empty());
        r
    }

    /// Sets the admin, records ledger time `now` as the initialization time and zeroes the
    /// counter; refused once an admin is set.
    pub fn initialize(&mut self, admin: Addr, now: u64) -> (r: Result<(), StorageError>)
        ensures
            final(self).wf() == old(self).wf(),
            old(self)@.admin is Some ==> r == Err::<(), StorageError>(StorageError::AlreadyInitialized)
                && final(self)@ == old(self)@,
            old(self)@.admin is None ==> r is Ok && final(self)@ == (StorageView {
                admin: Some(admin@),
                init_time: now,
                counter: 0,
                ..old(self)@
            }),
    {
        if self.admin.is_some() {
            return Err(StorageError::AlreadyInitialized);
        }
        self.admin = Some(admin);
        self.init_time = now;
        self.counter = 0;
        Ok(())
    }

    /// Adds one to the contract-wide counter and returns the new value.
    pub fn increment_counter(&mut self) -> (r: i128)
        requires
            old(self)@.counter < i128::MAX,
        ensures
            final(self).wf() == old(self).wf(),
            r == old(self)@.counter + 1,
            final(self)@ == (StorageView { counter: r, ..old(self)@ }),
    {
        self.counter = self.counter + 1;
        self.counter
    }

    /// The contract-wide counter.
    pub fn get_counter(&self) -> (r: i128)
        ensures
            r == self@.counter,
    {
        self.counter
    }

    /// The admin; refused before initialization.
    pub fn get_admin(&self) -> (r: Result<Addr, StorageError>)
        ensures
            match self@.admin {
                None => r == Err::<Addr, StorageError>(StorageError::NotInitialized),
                Some(a) => r matches Ok(x) && x@ == a,
            },
    {
        match &self.admin {
            Some(a) => Ok(a.clone()),
            None => Err(StorageError::NotInitialized),
        }
    }

    /// The ledger time of initialization (zero before it).
    pub fn get_init_time(&self) -> (r: u64)
        ensures
            r == self@.init_time,
    {
        self.init_time
    }

    /// Sets `user`'s balance to `amount`.
    pub fn set_balance(&mut self, user: &Addr, amount: i128)
        requires
            old(self).wf(),
        ensures
            final(self).wf(),
            final(self)@ == (StorageView { balances: old(self)@.balances.insert(user@, amount), ..old(self)@ }),
    {
        self.balances.insert(user.clone(), amount);
    }

    /// The balance of `user` (zero when none was set).
    pub fn get_balance(&self, user: &Addr) -> (r: i128)
        requires
            self.wf(),
        ensures
            r == or_zero(self@.balances, user@),
    {
        match self.balances.get(user) {
            Some(b) => *b,
            None => 0,
        }
    }

    /// Stores `user`'s record.
    pub fn set_user_data(&mut self, user: &Addr, name: String, score: i128, active: bool)
        requires
            old(self).wf(),
        ensures
            final(self).wf(),
            final(self)@ == (StorageView {
                user_data: old(self)@.user_data.insert(
                    user@,
                    UserDataView { name: name@, score, active },
                ),
                ..old(self)@
            }),
    {
        let ghost v0 = self@;
        let ghost nv = name@;
        let data = UserData { name, score, active };
        self.user_data.insert(user.clone(), data);
        proof {
            assert(self@.user_data =~= v0.user_data.insert(
                user@,
                UserDataView { name: nv, score, active },
            ));
        }
    }

    /// `user`'s record, or the record named `"NONE"` with score zero, inactive, when there
    /// is none.
    pub fn get_user_data(&self, user: &Addr) -> (r: UserData)
        requires
            self.wf(),
        ensures
            self@.user_data.contains_key(user@) ==> r@ == self@.user_data[user@],
            !self@.user_data.contains_key(user@) ==> r@ == default_user_data(),
    {
        match self.user_data.get(user) {
            Some(d) => UserData { name: d.name.clone(), score: d.score, active: d.active },
            None => UserData { name: "NONE".to_owned(), score: 0, active: false },
        }
    }

    /// Deletes `user`'s record.
    pub fn remove_user_data(&mut self, user: &Addr)
        requires
            old(self).wf(),
        ensures
            final(self).wf(),
            final(self)@ == (StorageView { user_data: old(self)@.user_data.remove(user@), ..old(self)@ }),
    {
        let ghost v0 = self@;
        self.user_data.remove(user);
        proof {
            assert(self@.user_data =~= v0.user_data.remove(user@));
        }
    }

    /// Whether `user` has a record.
    pub fn has_user_data(&self, user: &Addr) -> (r: bool)
        requires
            self.wf(),
        ensures
            r == self@.user_data.contains_key(user@),
    {
        self.user_data.contains_key(user)
    }

    /// Records `value` as `user`'s session.
    pub fn set_session(&mut self, user: &Addr, value: i128)
        requires
            old(self).wf(),
        ensures
            final(self).wf(),
            final(self)@ == (StorageView { sessions: old(self)@.sessions.insert(user@, value), ..old(self)@ }),
    {
        self.sessions.insert(user.clone(), value);
    }

    /// `user`'s session value (zero when none).
    pub fn get_session(&self, user: &Addr) -> (r: i128)
        requires
            self.wf(),
        ensures
            r == or_zero(self@.sessions, user@),
    {
        match self.sessions.get(user) {
            Some(v) => *v,
            None => 0,
        }
    }

    /// Caches `value` under `key`.
    pub fn set_cache(&mut self, key: String, value: i128)
        requires
            old(self).wf(),
        ensures
            final(self).wf(),
            final(self)@ == (StorageView { cache: old(self)@.cache.insert(key@, value), ..old(self)@ }),
    {
        self.cache.insert(key, value);
    }

    /// The value cached under `key` (zero when none).
    pub fn get_cache(&self, key: &String) -> (r: i128)
        requires
            self.wf(),
        ensures
            r == or_zero(self@.cache, key@),
    {
        match self.cache.get(key) {
            Some(v) => *v,
            None => 0,
        }
    }

    /// Whether `user` has a session.
    pub fn has_session(&self, user: &Addr) -> (r: bool)
        requires
            self.wf(),
        ensures
            r == self@.sessions.contains_key(user@),
    {
        self.sessions.contains_key(user)
    }

    /// Counts a transaction of `amount` by `user`: increments the counter, credits the
    /// user's balance, caches the new count under `"LAST_TX"` and records the amount as the
    /// user's session.
    pub fn process_transaction(&mut self, user: &Addr, amount: i128)
        requires
            old(self).wf(),
            old(self)@.counter < i128::MAX,
            i128::MIN <= or_zero(old(self)@.balances, user@) + amount <= i128::MAX,
        ensures
            final(self).wf(),
            final(self)@ == process_transaction_spec(old(self)@, user@, amount),
    {
        let tx_count = self.increment_counter();
        let current_balance = self.get_balance(user);
        self.balances.insert(user.clone(), current_balance + amount);
        self.cache.insert("LAST_TX".to_owned(), tx_count);
        self.sessions.insert(user.clone(), amount);
    }

    /// The counter, `user`'s balance and `user`'s session value.
    pub fn get_storage_summary(&self, user: &Addr) -> (r: (i128, i128, i128))
        requires
            self.wf(),
        ensures
            r == (self@.counter, or_zero(self@.balances, user@), or_zero(self@.sessions, user@)),
    {
        let counter = self.get_counter();
        let balance = self.get_balance(user);
        let session = self.get_session(user);
        (counter, balance, session)
    }
}

/// After a transaction the summary reads the new count, the credited balance, and the
/// amount as session.
pub proof fn lemma_process_then_summary(v: StorageView, user: Seq<char>, amount: i128)
    requires
        v.counter < i128::MAX,
        i128::MIN <= or_zero(v.balances, user) + amount <= i128::MAX,
    ensures
        ({
            let w = process_transaction_spec(v, user, amount);
            &&& w.counter == v.counter + 1
            &&& or_zero(w.balances, user) == or_zero(v.balances, user) + amount
            &&& or_zero(w.sessions, user) == amount
            &&& or_zero(w.cache, last_tx_key()) == w.counter
        }),
{
}

} // verus!
