//! The cross-contract caller: it keeps the callee's address and invokes the callee.
//!
//! Each call takes the callee's state, which stands for the contract at the stored address,
//! and does to it what the invoked entry point does.
use vstd::prelude::*;

use crate::address::Addr;
use crate::callee::{fits, CalleeContract, CalleeData, CalleeError, CalleeView};

verus! {

/// The refusals of the caller: its own, or the callee's, which the call passes on.
#[derive(PartialEq, Eq, Structural, Debug, Clone, Copy)]
pub enum CallerError {
    AlreadyInitialized,
    NotInitialized,
    Callee(CalleeError),
}

impl CallerError {
    /// The text of the refusal's message.
    pub open spec fn message_text(self) -> Seq<char> {
        match self {
            CallerError::AlreadyInitialized => "already initialized"@,
            CallerError::NotInitialized => "not initialized"@,
            CallerError::Callee(e) => e.message_text(),
        }
    }

    /// The message with which the contract refuses.
    pub fn message(&self) -> (r: &'static str)
        ensures
            r@ == self.message_text(),
    {
        match self {
            CallerError::AlreadyInitialized => "already initialized",
            CallerError::NotInitialized => "not initialized",
            CallerError::Callee(e) => e.message(),
        }
    }
}

/// The caller's state: the callee's address once set.
pub struct CallerContract {
    callee: Option<Addr>,
}

impl View for CallerContract {
    type V = Option<Seq<char>>;

    closed spec fn view(&self) -> Option<Seq<char>> {
        match self.callee {
            Some(a) => Some(a@),
            None => None,
        }
    }
}

impl CallerContract {
    /// A caller that knows no callee yet.
    pub fn new() -> (r: CallerContract)
        ensures
            r@ is None,
    {
        CallerContract { callee: None }
    }

    /// A caller restored from its stored callee address.
    pub fn restore(callee: Option<Addr>) -> (r: CallerContract)
        ensures
            r@ == match callee {
                Some(a) => Some(a@),
                None => None::<Seq<char>>,
            },
    {
        CallerContract { callee }
    }

    /// Stores the callee's address; refused once one is stored.
    pub fn initialize(&mut self, callee: Addr) -> (r: Result<(), CallerError>)
        ensures
            old(self)@ is Some ==> r == Err::<(), CallerError>(CallerError::AlreadyInitialized)
                && final(self)@ == old(self)@,
            old(self)@ is None ==> r is Ok && final(self)@ == Some(callee@),
    {
        if self.callee.is_some() {
            return Err(CallerError::AlreadyInitialized);
        }
        self.callee = Some(callee);
        Ok(())
    }

    fn check_initialized(&self) -> (r: Result<(), CallerError>)
        ensures
            self@ is None ==> r == Err::<(), CallerError>(CallerError::NotInitialized),
            self@ is Some ==> r is Ok,
    {
        match &self.callee {
            Some(_) => Ok(()),
            None => Err(CallerError::NotInitialized),
        }
    }

    /// Reads the callee's counter.
    pub fn call_get_counter(&self, callee: &CalleeContract) -> (r: Result<i128, CallerError>)
        ensures
            self@ is None ==> r == Err::<i128, CallerError>(CallerError::NotInitialized),
            self@ is Some ==> r == Ok::<i128, CallerError>(callee@.counter),
    {
        self.check_initialized()?;
        Ok(callee.get_counter())
    }

    /// Increments the callee's counter and returns the new value.
    pub fn call_increment(&self, callee: &mut CalleeContract) -> (r: Result<i128, CallerError>)
        requires
            self@ is Some ==> old(callee)@.counter < i128::MAX,
        ensures
            final(callee).wf() == old(callee).wf(),
            self@ is None ==> r == Err::<i128, CallerError>(CallerError::NotInitialized) && final(callee)@
                == old(callee)@,
            self@ is Some ==> r == Ok::<i128, CallerError>((old(callee)@.counter + 1) as i128)
                && final(callee)@ == (CalleeView {
                counter: (old(callee)@.counter + 1) as i128,
                ..old(callee)@
            }),
    {
        self.check_initialized()?;
        Ok(callee.increment())
    }

    /// Adds `value` to the callee's counter and returns the new value.
    pub fn call_add_value(&self, callee: &mut CalleeContract, value: i128) -> (r: Result<i128, CallerError>)
        requires
            self@ is Some ==> fits(old(callee)@.counter + value),
        ensures
            final(callee).wf() == old(callee).wf(),
            self@ is None ==> r == Err::<i128, CallerError>(CallerError::NotInitialized) && final(callee)@
                == old(callee)@,
            self@ is Some ==> r == Ok::<i128, CallerError>((old(callee)@.counter + value) as i128)
                && final(callee)@ == (CalleeView {
                counter: (old(callee)@.counter + value) as i128,
                ..old(callee)@
            }),
    {
        self.check_initialized()?;
        Ok(callee.add_value(value))
    }

    /// Reads `user`'s balance at the callee.
    pub fn call_get_balance(&self, callee: &CalleeContract, user: &Addr) -> (r: Result<i128, CallerError>)
        requires
            callee.wf(),
        ensures
            self@ is None ==> r == Err::<i128, CallerError>(CallerError::NotInitialized),
            self@ is Some ==> r == Ok::<i128, CallerError>(callee@.balance_of(user@)),
    {
        self.check_initialized()?;
        Ok(callee.get_balance(user))
    }

    /// Reads the callee's counter and admin.
    pub fn call_get_stats(&self, callee: &CalleeContract) -> (r: Result<(i128, Addr), CallerError>)
        ensures
            self@ is None ==> r == Err::<(i128, Addr), CallerError>(CallerError::NotInitialized),
            self@ is Some && callee@.admin is None ==> r == Err::<(i128, Addr), CallerError>(
                CallerError::Callee(CalleeError::NotInitialized),
            ),
            self@ is Some && callee@.admin is Some ==> (r matches Ok((c, a)) && c == callee@.counter
                && a@ == callee@.admin->Some_0),
    {
        self.check_initialized()?;
        match callee.get_stats() {
            Ok(s) => Ok(s),
            Err(e) => Err(CallerError::Callee(e)),
        }
    }

    /// Asks the callee for its data, naming this caller's own address `self_address`.
    pub fn call_get_data(&self, callee: &CalleeContract, self_address: &Addr) -> (r: Result<
        CalleeData,
        CallerError,
    >)
        ensures
            self@ is None ==> r == Err::<CalleeData, CallerError>(CallerError::NotInitialized),
            self@ is Some ==> (r matches Ok(d) && d.value == callee@.counter && d.caller@ == self_address@),
    {
        self.check_initialized()?;
        Ok(callee.get_data(self_address.clone()))
    }

    /// Reads the callee's counter, then increments it, then adds `value`; returns the three
    /// results in order.
    pub fn call_sequence(&self, callee: &mut CalleeContract, value: i128) -> (r: Result<
        (i128, i128, i128),
        CallerError,
    >)
        requires
            self@ is Some ==> old(callee)@.counter < i128::MAX && fits(
                old(callee)@.counter + 1 + value,
            ),
        ensures
            final(callee).wf() == old(callee).wf(),
            self@ is None ==> r == Err::<(i128, i128, i128), CallerError>(CallerError::NotInitialized)
                && final(callee)@ == old(callee)@,
            self@ is Some ==> r == Ok::<(i128, i128, i128), CallerError>(
                (
                    old(callee)@.counter,
                    (old(callee)@.counter + 1) as i128,
                    (old(callee)@.counter + 1 + value) as i128,
                ),
            ) && final(callee)@ == (CalleeView {
                counter: (old(callee)@.counter + 1 + value) as i128,
                ..old(callee)@
            }),
    {
        self.check_initialized()?;
        let initial = callee.get_counter();
        let after_increment = callee.increment();
        let after_add = callee.add_value(value);
        Ok((initial, after_increment, after_add))
    }

    /// Has the callee multiply `a` and `b`.
    pub fn call_multiply(&self, a: i128, b: i128) -> (r: Result<i128, CallerError>)
        ensures
            self@ is None ==> r == Err::<i128, CallerError>(CallerError::NotInitialized),
            self@ is Some && fits(a * b) ==> r == Ok::<i128, CallerError>((a * b) as i128),
            self@ is Some && !fits(a * b) ==> r == Err::<i128, CallerError>(
                CallerError::Callee(CalleeError::Overflow),
            ),
    {
        self.check_initialized()?;
        match CalleeContract::multiply(a, b) {
            Ok(p) => Ok(p),
            Err(e) => Err(CallerError::Callee(e)),
        }
    }

    /// Has the callee multiply `a` and `b`, then adds the product to the callee's counter;
    /// returns the new counter.
    pub fn call_and_process(&self, callee: &mut CalleeContract, a: i128, b: i128) -> (r: Result<
        i128,
        CallerError,
    >)
        requires
            self@ is Some && fits(a * b) ==> fits(old(callee)@.counter + a * b),
        ensures
            final(callee).wf() == old(callee).wf(),
            self@ is None ==> r == Err::<i128, CallerError>(CallerError::NotInitialized) && final(callee)@
                == old(callee)@,
            self@ is Some && !fits(a * b) ==> r == Err::<i128, CallerError>(
                CallerError::Callee(CalleeError::Overflow),
            ) && final(callee)@ == old(callee)@,
            self@ is Some && fits(a * b) ==> r == Ok::<i128, CallerError>(
                (old(callee)@.counter + a * b) as i128,
            ) && final(callee)@ == (CalleeView {
                counter: (old(callee)@.counter + a * b) as i128,
                ..old(callee)@
            }),
    {
        self.check_initialized()?;
        let product = match CalleeContract::multiply(a, b) {
            Ok(p) => p,
            Err(e) => {
                return Err(CallerError::Callee(e));
            },
        };
        Ok(callee.add_value(product))
    }

    /// The callee's address; refused before initialization.
    pub fn get_callee(&self) -> (r: Result<Addr, CallerError>)
        ensures
            self@ is None ==> r == Err::<Addr, CallerError>(CallerError::NotInitialized),
            self@ is Some ==> (r matches Ok(a) && a@ == self@->Some_0),
    {
        match &self.callee {
            Some(a) => Ok(a.clone()),
            None => Err(CallerError::NotInitialized),
        }
    }
}

} // verus!
