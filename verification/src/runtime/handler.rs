//! What the runtime asks of the world around the frame.

use vstd::prelude::*;
use crate::exit::{ExitError, ExitReason};
use crate::machine::{Capture, Machine};
use crate::opcode::{ExternalOpcode, Opcode};
use crate::runtime::{Context, CreateScheme};
use crate::stack::Stack;
use crate::word::{Address, Word};

verus! {

/// A transfer of value from one account to another.
#[derive(Clone, Copy, PartialEq, Eq, Debug)]
pub struct Transfer {
    /// Source address.
    pub source: Address,
    /// Target address.
    pub target: Address,
    /// Transfer value.
    pub value: Word,
}

/// The world around a frame: it answers the queries of the code, takes its effects, and starts
/// nested calls and creates. Nothing is said here of what it answers.
pub trait Handler {
    /// What a `CREATE` that cannot be answered at once hands to the host.
    type CreateInterrupt;

    /// What the host hands back for a `CREATE`.
    type CreateFeedback;

    /// What a `CALL` that cannot be answered at once hands to the host.
    type CallInterrupt;

    /// What the host hands back for a `CALL`.
    type CallFeedback;

    /// Balance of an address.
    fn balance(&self, address: Address) -> Word;

    /// Code size of an address.
    fn code_size(&self, address: Address) -> Word;

    /// Code hash of an address.
    fn code_hash(&self, address: Address) -> Word;

    /// Code of an address.
    fn code(&self, address: Address) -> Vec<u8>;

    /// Storage value of an address at an index.
    fn storage(&self, address: Address, index: Word) -> Word;

    /// Storage value of an address at an index as it was when the transaction began.
    fn original_storage(&self, address: Address, index: Word) -> Word;

    /// The gas that is left.
    fn gas_left(&self) -> Word;

    /// The gas price.
    fn gas_price(&self) -> Word;

    /// The origin of the execution.
    fn origin(&self) -> Address;

    /// The hash of a block.
    fn block_hash(&self, number: Word) -> Word;

    /// The number of the current block.
    fn block_number(&self) -> Word;

    /// The coinbase of the current block.
    fn block_coinbase(&self) -> Address;

    /// The timestamp of the current block.
    fn block_timestamp(&self) -> Word;

    /// The difficulty of the current block.
    fn block_difficulty(&self) -> Word;

    /// The gas limit of the current block.
    fn block_gas_limit(&self) -> Word;

    /// The chain ID.
    fn chain_id(&self) -> Word;

    /// Whether there is an account at the address.
    fn account_exists(&self, address: Address) -> bool;

    /// Whether the account at the address has been marked for deletion.
    fn deleted(&self, address: Address) -> bool;

    /// Sets the storage value of an address at an index.
    fn set_storage(&mut self, address: Address, index: Word, value: Word) -> Result<(), ExitError>;

    /// Takes a log of an address, with topics and data.
    fn log(&mut self, address: Address, topics: Vec<Word>, data: Vec<u8>) -> Result<(), ExitError>;

    /// Marks an address for deletion, its funds going to the target.
    fn mark_delete(&mut self, address: Address, target: Address) -> Result<(), ExitError>;

    /// Starts a create. The handler answers at once, with the exit of the nested frame, the
    /// address created and the data returned, or it hands out an interrupt.
    fn create(
        &mut self,
        caller: Address,
        scheme: CreateScheme,
        value: Word,
        init_code: Vec<u8>,
        target_gas: Option<usize>,
    ) -> Capture<(ExitReason, Option<Address>, Vec<u8>), Self::CreateInterrupt>;

    /// Takes the feedback for a create. A handler that does not say otherwise accepts it and
    /// stays as it is.
    fn create_feedback(&mut self, _feedback: Self::CreateFeedback) -> (r: Result<
        (),
        ExitError,
    >) where Self: Sized
        default_ensures
            r == Ok::<(), ExitError>(()),
            *final(self) == *old(self),
    {
        Ok(())
    }

    /// Starts a call. The handler answers at once, with the exit of the nested frame and the
    /// data returned, or it hands out an interrupt.
    fn call(
        &mut self,
        code_address: Address,
        transfer: Option<Transfer>,
        input: Vec<u8>,
        target_gas: Option<usize>,
        is_static: bool,
        context: Context,
    ) -> Capture<(ExitReason, Vec<u8>), Self::CallInterrupt>;

    /// Takes the feedback for a call. A handler that does not say otherwise accepts it and
    /// stays as it is.
    fn call_feedback(&mut self, _feedback: Self::CallFeedback) -> (r: Result<
        (),
        ExitError,
    >) where Self: Sized
        default_ensures
            r == Ok::<(), ExitError>(()),
            *final(self) == *old(self),
    {
        Ok(())
    }

    /// Is asked before every opcode, and may refuse it.
    fn pre_validate(
        &mut self,
        context: &Context,
        opcode: Result<Opcode, ExternalOpcode>,
        stack: &Stack,
    ) -> Result<(), ExitError>;

    /// Executes an opcode that the machine does not know. It may change the machine, but leaves
    /// it a later state of the same frame, at the same position. A handler that does not say
    /// otherwise knows no further opcode: it refuses with `OutOfGas`, and neither the machine nor
    /// the handler changes.
    fn other(&mut self, _opcode: u8, _machine: &mut Machine) -> (r: Result<
        (),
        ExitError,
    >) where Self: Sized
        requires
            old(_machine).wf(),
        ensures
            final(_machine).wf(),
            final(_machine).follows(*old(_machine)),
            final(_machine).position == old(_machine).position,
        default_ensures
            r == Err::<(), ExitError>(ExitError::OutOfGas),
            *final(_machine) == *old(_machine),
            *final(self) == *old(self),
    {
        Err(ExitError::OutOfGas)
    }
}

} // verus!
