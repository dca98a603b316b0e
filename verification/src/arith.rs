//! Faults of fixed-width integer arithmetic, which abort a contract call.
use vstd::prelude::*;

verus! {

/// An arithmetic fault of `i128` arithmetic, which aborts the call.
#[derive(PartialEq, Eq, Structural, Debug, Clone, Copy)]
pub enum ArithFault {
    MulOverflow,
    AddOverflow,
    SubOverflow,
    DivByZero,
    DivOverflow,
}

impl ArithFault {
    /// The text of the fault's panic message.
    pub open spec fn message_text(self) -> Seq<char> {
        match self {
            ArithFault::MulOverflow => "attempt to multiply with overflow"@,
            ArithFault::AddOverflow => "attempt to add with overflow"@,
            ArithFault::SubOverflow => "attempt to subtract with overflow"@,
            ArithFault::DivByZero => "attempt to divide by zero"@,
            ArithFault::DivOverflow => "attempt to divide with overflow"@,
        }
    }

    /// The panic message of the fault.
    pub fn message(&self) -> (r: &'static str)
        ensures
            r@ == self.message_text(),
    {
        match self {
            ArithFault::MulOverflow => "attempt to multiply with overflow",
            ArithFault::AddOverflow => "attempt to add with overflow",
            ArithFault::SubOverflow => "attempt to subtract with overflow",
            ArithFault::DivByZero => "attempt to divide by zero",
            ArithFault::DivOverflow => "attempt to divide with overflow",
        }
    }
}

} // verus!
