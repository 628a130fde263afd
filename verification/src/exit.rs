//! The reasons for which a frame stops.

use vstd::prelude::*;

verus! {

/// The frame ended and its effects stand.
#[derive(Clone, Copy, PartialEq, Eq, Debug)]
pub enum ExitSucceed {
    /// The code ran to a `STOP` or to its end.
    Stopped,
    /// The code executed `RETURN`.
    Returned,
    /// The code executed `SELFDESTRUCT`.
    Suicided,
}

/// The frame ended and asks for its effects to be undone.
#[derive(Clone, Copy, PartialEq, Eq, Debug)]
pub enum ExitRevert {
    /// The code executed `REVERT`.
    Reverted,
}

/// The frame failed.
#[derive(Clone, Copy, PartialEq, Eq, Debug)]
pub enum ExitError {
    /// A push onto a full stack.
    StackOverflow,
    /// A read below the bottom of the stack.
    StackUnderflow,
    /// A jump to a byte that is no jump destination.
    InvalidJump,
    /// A memory range that cannot be addressed.
    InvalidRange,
    /// The `INVALID` opcode.
    DesignatedInvalid,
    /// Calls nested too deeply.
    CallTooDeep,
    /// A create at an address that is taken.
    CreateCollision,
    /// A created contract above the code size limit.
    CreateContractLimit,
    /// A read past the end of a buffer.
    OutOfOffset,
    /// No gas left.
    OutOfGas,
    /// No funds for the transfer.
    OutOfFund,
    /// A program counter below zero.
    PCUnderflow,
    /// A create with empty code.
    CreateEmpty,
    /// Any other failure, by name.
    Other(&'static str),
}

/// The whole execution cannot go on.
#[derive(Clone, Copy, PartialEq, Eq, Debug)]
pub enum ExitFatal {
    /// The operation is beyond what this machine supports.
    NotSupported,
    /// An interrupt was raised and nobody answered it.
    UnhandledInterrupt,
    /// An error of a nested call that must end everything.
    CallErrorAsFatal(ExitError),
}

/// Why a frame stopped.
#[derive(Clone, Copy, PartialEq, Eq, Debug)]
pub enum ExitReason {
    Succeed(ExitSucceed),
    Error(ExitError),
    Revert(ExitRevert),
    Fatal(ExitFatal),
}

impl ExitReason {
    /// Whether the frame ended and its effects stand.
    pub fn is_succeed(&self) -> (r: bool)
        ensures
            r == (*self is Succeed),
    {
        match self {
            ExitReason::Succeed(_) => true,
            _ => false,
        }
    }

    /// Whether the frame failed.
    pub fn is_error(&self) -> (r: bool)
        ensures
            r == (*self is Error),
    {
        match self {
            ExitReason::Error(_) => true,
            _ => false,
        }
    }

    /// Whether the frame asked for its effects to be undone.
    pub fn is_revert(&self) -> (r: bool)
        ensures
            r == (*self is Revert),
    {
        match self {
            ExitReason::Revert(_) => true,
            _ => false,
        }
    }

    /// Whether the whole execution cannot go on.
    pub fn is_fatal(&self) -> (r: bool)
        ensures
            r == (*self is Fatal),
    {
        match self {
            ExitReason::Fatal(_) => true,
            _ => false,
        }
    }
}

} // verus!
