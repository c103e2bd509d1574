//! Fixed parameters of the ledger.

use vstd::prelude::*;

verus! {

/// Initial proof-of-work difficulty.
pub const BLOCKCHAIN_INITIAL_DIFFICULTY: u8 = 2;

/// Starting nonce for mining.
pub const BLOCKCHAIN_INITIAL_NONCE: u64 = 0;

/// Total supply of coins.
pub const BLOCKCHAIN_OXCOIN_SUPPLY: u64 = 1_000_000;

/// Reward for mining a standard block.
pub const BLOCKCHAIN_COINBASE_BLOCK_FEE: u64 = 20;

/// Reward for mining the genesis block.
pub const BLOCKCHAIN_COINBASE_GENESIS_BLOCK_FEE: u64 = 1_000;

/// Transaction fee for standard transactions.
pub const BLOCKCHAIN_TRANSACTION_FEE: u8 = 1;

/// Address on which a node listens for wallets.
pub const WEBSOCKET_URI: &'static str = "localhost:8080";

} // verus!
