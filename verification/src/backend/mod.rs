//! Backends hold the state that the machine runs against, and show it to the runtime.

pub mod memory;

use vstd::prelude::*;
use vstd::slice::slice_to_vec;
use crate::word::{Address, Word};

verus! {

/// Balance and nonce of an account.
#[derive(Clone, Copy, PartialEq, Eq, Debug)]
pub struct Basic {
    /// Account balance.
    pub balance: Word,
    /// Account nonce.
    pub nonce: Word,
}

impl Default for Basic {
    fn default() -> (r: Basic)
        ensures
            r.balance@ == 0,
            r.nonce@ == 0,
    {
        Basic { balance: Word::zero(), nonce: Word::zero() }
    }
}

/// A log entry.
#[derive(PartialEq, Eq, Debug)]
pub struct Log {
    /// The account that logged.
    pub address: Address,
    /// Topics.
    pub topics: Vec<Word>,
    /// Log data.
    pub data: Vec<u8>,
}

/// Whether the two logs say the same.
pub open spec fn same_log(a: Log, b: Log) -> bool {
    a.address == b.address && a.topics@ == b.topics@ && a.data@ == b.data@
}

impl Clone for Log {
    /// A log that says the same.
    fn clone(&self) -> (r: Log)
        ensures
            same_log(*self, r),
    {
        Log {
            address: self.address,
            topics: slice_to_vec(self.topics.as_slice()),
            data: slice_to_vec(self.data.as_slice()),
        }
    }
}

/// A change to the state.
#[derive(Debug)]
pub enum Apply {
    /// Set or create the account at an address.
    Modify {
        /// Address.
        address: Address,
        /// The new balance and nonce.
        basic: Basic,
        /// The new code. `None` leaves the code as it is.
        code: Option<Vec<u8>>,
        /// Storage slots to write, in this order.
        storage: Vec<(Word, Word)>,
        /// Whether the storage is emptied before the slots are written.
        reset_storage: bool,
    },
    /// Delete the account at an address.
    Delete {
        /// Address.
        address: Address,
    },
}

/// Whether the two changes ask for the same.
pub open spec fn same_change(a: Apply, b: Apply) -> bool {
    match (a, b) {
        (
            Apply::Modify { address, basic, code, storage, reset_storage },
            Apply::Modify {
                address: address2,
                basic: basic2,
                code: code2,
                storage: storage2,
                reset_storage: reset_storage2,
            },
        ) => {
            &&& address == address2
            &&& basic == basic2
            &&& storage@ == storage2@
            &&& reset_storage == reset_storage2
            &&& match (code, code2) {
                (Some(c), Some(c2)) => c@ == c2@,
                (None, None) => true,
                _ => false,
            }
        },
        (Apply::Delete { address }, Apply::Delete { address: address2 }) => address == address2,
        _ => false,
    }
}

impl Clone for Apply {
    /// A change that asks for the same.
    fn clone(&self) -> (r: Apply)
        ensures
            same_change(*self, r),
    {
        match self {
            Apply::Modify { address, basic, code, storage, reset_storage } => Apply::Modify {
                address: *address,
                basic: *basic,
                code: match code {
                    Some(c) => Some(slice_to_vec(c.as_slice())),
                    None => None,
                },
                storage: slice_to_vec(storage.as_slice()),
                reset_storage: *reset_storage,
            },
            Apply::Delete { address } => Apply::Delete { address: *address },
        }
    }
}

/// The state as the machine reads it.
pub trait Backend {
    /// Gas price.
    fn gas_price(&self) -> Word;

    /// Origin.
    fn origin(&self) -> Address;

    /// The hash of the block with the given number.
    fn block_hash(&self, number: Word) -> Word;

    /// The number of the current block.
    fn block_number(&self) -> Word;

    /// Coinbase of the current block.
    fn block_coinbase(&self) -> Address;

    /// Timestamp of the current block.
    fn block_timestamp(&self) -> Word;

    /// Difficulty of the current block.
    fn block_difficulty(&self) -> Word;

    /// Gas limit of the current block.
    fn block_gas_limit(&self) -> Word;

    /// Chain ID.
    fn chain_id(&self) -> Word;

    /// Whether there is an account at the address.
    fn account_exists(&self, address: Address) -> bool;

    /// Balance and nonce of the account at the address.
    fn basic(&self, address: Address) -> Basic;

    /// The hash of the code of the account at the address.
    fn code_hash(&self, address: Address) -> Word;

    /// The length of the code of the account at the address.
    fn code_size(&self, address: Address) -> usize;

    /// The code of the account at the address.
    fn code(&self, address: Address) -> Vec<u8>;

    /// The value of a storage slot of the account at the address.
    fn storage(&self, address: Address, index: Word) -> Word;
}

/// A backend that takes changes.
pub trait ApplyBackend {
    /// Applies the changes in their order, and appends the logs.
    fn apply(&mut self, values: Vec<Apply>, logs: Vec<Log>, delete_empty: bool);
}

} // verus!
