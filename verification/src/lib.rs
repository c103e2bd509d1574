//! A single-node proof-of-work ledger: blocks, mining, chain validation and
//! the bookkeeping of unspent outputs.

use vstd::prelude::*;

pub mod block;
pub mod blockchain;
mod clock;
pub mod codec;
pub mod comms;
pub mod config;
pub mod digest;
pub mod encoding;
pub mod keys;
pub mod laws;
pub mod text;
pub mod transaction;
pub mod validation;
pub mod wallet;
pub mod websockets;

verus! {

/// Sum of two amounts.
pub fn add(left: u64, right: u64) -> (sum: u64)
    requires
        left + right <= u64::MAX,
    ensures
        sum == left + right,
{
    left + right
}

} // verus!
