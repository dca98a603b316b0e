use vstd::prelude::*;

pub mod address;
pub mod amm;
pub mod arith;
pub mod auth;
pub mod callee;
pub mod caller;
pub mod counter;
pub mod escrow;
pub mod events;
pub mod keymap;
pub mod multisig;
pub mod nft;
pub mod oracle;
pub mod storage;
pub mod token;
pub mod voting;

verus! {

} // verus!
