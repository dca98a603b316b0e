//! The contract that the cross-contract caller invokes: a counter, balances, and a product.
use vstd::prelude::*;

use crate::address::Addr;
use crate::keymap::KeyMap;

verus! {

/// What `get_data` hands back: the counter and the address that asked.
pub struct CalleeData {
    pub value: i128,
    pub caller: Addr,
}

/// The refusals of the callee.
#[derive(PartialEq, Eq, Structural, Debug, Clone, Copy)]
pub enum CalleeError {
    AlreadyInitialized,
    NotInitialized,
    NotAdmin,
    Overflow,
}

impl CalleeError {
    /// The text of the refusal's message.
    pub open spec fn message_text(self) -> Seq<char> {
        match self {
            CalleeError::AlreadyInitialized => "already initialized"@,
            CalleeError::NotInitialized => "not initialized"@,
            CalleeError::NotAdmin => "not the admin"@,
            CalleeError::Overflow => "overflow"@,
        }
    }

    /// The message with which the contract refuses.
    pub fn message(&self) -> (r: &'static str)
        ensures
            r@ == self.message_text(),
    {
        match self {
            CalleeError::AlreadyInitialized => "already initialized",
            CalleeError::NotInitialized => "not initialized",
            CalleeError::NotAdmin => "not the admin",
            CalleeError::Overflow => "overflow",
        }
    }
}

/// The callee as plain values.
pub struct CalleeView {
    pub admin: Option<Seq<char>>,
    pub counter: i128,
    pub balances: Map<Seq<char>, i128>,
}

impl CalleeView {
    /// The balance of `a` (zero when none was set).
    pub open spec fn balance_of(self, a: Seq<char>) -> i128 {
        if self.balances.contains_key(a) {
            self.balances[a]
        } else {
            0
        }
    }
}

/// The value `x` fits in an `i128`.
pub open spec fn fits(x: int) -> bool {
    i128::MIN <= x <= i128::MAX
}

/// The callee's state.
pub struct CalleeContract {
    admin: Option<Addr>,
    counter: i128,
    balances: KeyMap<Addr, i128>,
}

impl View for CalleeContract {
    type V = CalleeView;

    closed spec fn view(&self) -> CalleeView {
        CalleeView {
            admin: match self.admin {
                Some(a) => Some(a@),
                None => None,
            },
            counter: self.counter,
            balances: self.balances@,
        }
    }
}

impl CalleeContract {
    /// The state's invariant: each address is held once.
    pub closed spec fn wf(&self) -> bool {
        self.balances.wf()
    }

    /// A callee with no admin, a zero counter and no balance.
    pub fn new() -> (r: CalleeContract)
        ensures
            r.wf(),
            r@.admin is None,
            r@.counter == 0,
            r@.balances == Map::<Seq<char>, i128>::empty(),
    {
        CalleeContract { admin: None, counter: 0, balances: KeyMap::new() }
    }

    /// A callee restored from its stored admin and counter, with no balance loaded yet.
    pub fn restore(admin: Option<Addr>, counter: i128) -> (r: CalleeContract)
        ensures
            r.wf(),
            r@.admin == match admin {
                Some(a) => Some(a@),
                None => None::<Seq<char>>,
            },
            r@.counter == counter,
            r@.balances == Map::<Seq<char>, i128>::empty(),
    {
        CalleeContract { admin, counter, balances: KeyMap::new() }
    }

    /// Sets the admin and zeroes the counter; refused once an admin is set.
    pub fn initialize(&mut self, admin: Addr) -> (r: Result<(), CalleeError>)
        ensures
            final(self).wf() == old(self).wf(),
            old(self)@.admin is Some ==> r == Err::<(), CalleeError>(CalleeError::AlreadyInitialized)
                && final(self)@ == old(self)@,
            old(self)@.admin is None ==> r is Ok && final(self)@ == (CalleeView {
                admin: Some(admin@),
                counter: 0,
                ..old(self)@
            }),
    {
        if self.admin.is_some() {
            return Err(CalleeError::AlreadyInitialized);
        }
        self.admin = Some(admin);
        self.counter = 0;
        Ok(())
    }

    /// The counter.
    pub fn get_counter(&self) -> (r: i128)
        ensures
            r == self@.counter,
    {
        self.counter
    }

    /// Adds one to the counter and returns the new value.
    pub fn increment(&mut self) -> (r: i128)
        requires
            old(self)@.counter < i128::MAX,
        ensures
            final(self).wf() == old(self).wf(),
            r == old(self)@.counter + 1,
            final(self)@ == (CalleeView { counter: r, ..old(self)@ }),
    {
        self.counter = self.counter + 1;
        self.counter
    }

    /// Adds `value` to the counter and returns the new value.
    pub fn add_value(&mut self, value: i128) -> (r: i128)
        requires
            fits(old(self)@.counter + value),
        ensures
            final(self).wf() == old(self).wf(),
            r == old(self)@.counter + value,
            final(self)@ == (CalleeView { counter: r, ..old(self)@ }),
    {
        self.counter = self.counter + value;
        self.counter
    }

    /// Sets `user`'s balance to `amount`.
    pub fn set_balance(&mut self, user: &Addr, amount: i128)
        requires
            old(self).wf(),
        ensures
            final(self).wf(),
            final(self)@ == (CalleeView { balances: old(self)@.balances.insert(user@, amount), ..old(self)@ }),
    {
        self.balances.insert(user.clone(), amount);
    }

    /// The balance of `user`.
    pub fn get_balance(&self, user: &Addr) -> (r: i128)
        requires
            self.wf(),
        ensures
            r == self@.balance_of(user@),
    {
        match self.balances.get(user) {
            Some(b) => *b,
            None => 0,
        }
    }

    /// The counter and the admin; refused before initialization.
    pub fn get_stats(&self) -> (r: Result<(i128, Addr), CalleeError>)
        ensures
            match self@.admin {
                None => r == Err::<(i128, Addr), CalleeError>(CalleeError::NotInitialized),
                Some(a) => r matches Ok((c, x)) && c == self@.counter && x@ == a,
            },
    {
        match &self.admin {
            Some(a) => Ok((self.counter, a.clone())),
            None => Err(CalleeError::NotInitialized),
        }
    }

    /// The counter together with the address that asked.
    pub fn get_data(&self, caller: Addr) -> (r: CalleeData)
        ensures
            r.value == self@.counter,
            r.caller@ == caller@,
    {
        CalleeData { value: self.counter, caller }
    }

    /// The product `a * b`; refused when it does not fit an `i128`.
    pub fn multiply(a: i128, b: i128) -> (r: Result<i128, CalleeError>)
        ensures
            fits(a * b) ==> r == Ok::<i128, CalleeError>((a * b) as i128),
            !fits(a * b) ==> r == Err::<i128, CalleeError>(CalleeError::Overflow),
    {
        match a.checked_mul(b) {
            Some(p) => Ok(p),
            None => Err(CalleeError::Overflow),
        }
    }

    /// Zeroes the counter; only the admin may.
    pub fn reset_counter(&mut self, admin: &Addr) -> (r: Result<(), CalleeError>)
        ensures
            final(self).wf() == old(self).wf(),
            match old(self)@.admin {
                None => r == Err::<(), CalleeError>(CalleeError::NotInitialized) && final(self)@ == old(
                    self,
                )@,
                Some(a) => if a != admin@ {
                    r == Err::<(), CalleeError>(CalleeError::NotAdmin) && final(self)@ == old(self)@
                } else {
                    r is Ok && final(self)@ == (CalleeView { counter: 0, ..old(self)@ })
                },
            },
    {
        match &self.admin {
            None => Err(CalleeError::NotInitialized),
            Some(a) => if a.same(admin) {
                self.counter = 0;
                Ok(())
            } else {
                Err(CalleeError::NotAdmin)
            },
        }
    }
}

} // verus!
