//! The instruction set.

use vstd::prelude::*;

verus! {

/// An opcode that touches nothing but its own frame.
#[derive(Clone, Copy, PartialEq, Eq, Debug)]
pub enum Opcode {
    Stop,
    Add,
    Mul,
    Sub,
    Div,
    SDiv,
    Mod,
    SMod,
    AddMod,
    MulMod,
    Exp,
    SignExtend,
    Lt,
    Gt,
    SLt,
    SGt,
    Eq,
    IsZero,
    And,
    Or,
    Xor,
    Not,
    Byte,
    Shl,
    Shr,
    Sar,
    CallDataLoad,
    CallDataSize,
    CallDataCopy,
    CodeSize,
    CodeCopy,
    Pop,
    MLoad,
    MStore,
    MStore8,
    Jump,
    JumpI,
    PC,
    MSize,
    JumpDest,
    Return,
    Revert,
    Invalid,
    /// `PUSHn`, with `n` from 1 to 32.
    Push(u8),
    /// `DUPn`, with `n` from 1 to 16.
    Dup(u8),
    /// `SWAPn`, with `n` from 1 to 16.
    Swap(u8),
}

/// An opcode that needs the world outside the frame, or that the machine does not know.
#[derive(Clone, Copy, PartialEq, Eq, Debug)]
pub enum ExternalOpcode {
    Sha3,
    Address,
    Balance,
    Origin,
    Caller,
    CallValue,
    GasPrice,
    ExtCodeSize,
    ExtCodeCopy,
    ReturnDataSize,
    ReturnDataCopy,
    ExtCodeHash,
    BlockHash,
    Coinbase,
    Timestamp,
    Number,
    Difficulty,
    GasLimit,
    ChainId,
    SelfBalance,
    SLoad,
    SStore,
    Gas,
    Create,
    Call,
    CallCode,
    DelegateCall,
    Create2,
    StaticCall,
    Suicide,
    /// `LOGn`, with `n` from 0 to 4.
    Log(u8),
    /// A byte that is no opcode of the machine.
    Other(u8),
}

impl Opcode {
    /// The opcode that the byte `opcode` stands for.
    pub open spec fn decode(opcode: u8) -> Result<Opcode, ExternalOpcode> {
        if 0x60 <= opcode <= 0x7f {
            Ok(Opcode::Push((opcode - 0x5f) as u8))
        } else if 0x80 <= opcode <= 0x8f {
            Ok(Opcode::Dup((opcode - 0x7f) as u8))
        } else if 0x90 <= opcode <= 0x9f {
            Ok(Opcode::Swap((opcode - 0x8f) as u8))
        } else if 0xa0 <= opcode <= 0xa4 {
            Err(ExternalOpcode::Log((opcode - 0xa0) as u8))
        } else {
            match opcode {
                0x00 => Ok(Opcode::Stop),
                0x01 => Ok(Opcode::Add),
                0x02 => Ok(Opcode::Mul),
                0x03 => Ok(Opcode::Sub),
                0x04 => Ok(Opcode::Div),
                0x05 => Ok(Opcode::SDiv),
                0x06 => Ok(Opcode::Mod),
                0x07 => Ok(Opcode::SMod),
                0x08 => Ok(Opcode::AddMod),
                0x09 => Ok(Opcode::MulMod),
                0x0a => Ok(Opcode::Exp),
                0x0b => Ok(Opcode::SignExtend),
                0x10 => Ok(Opcode::Lt),
                0x11 => Ok(Opcode::Gt),
                0x12 => Ok(Opcode::SLt),
                0x13 => Ok(Opcode::SGt),
                0x14 => Ok(Opcode::Eq),
                0x15 => Ok(Opcode::IsZero),
                0x16 => Ok(Opcode::And),
                0x17 => Ok(Opcode::Or),
                0x18 => Ok(Opcode::Xor),
                0x19 => Ok(Opcode::Not),
                0x1a => Ok(Opcode::Byte),
                0x1b => Ok(Opcode::Shl),
                0x1c => Ok(Opcode::Shr),
                0x1d => Ok(Opcode::Sar),
                0x20 => Err(ExternalOpcode::Sha3),
                0x30 => Err(ExternalOpcode::Address),
                0x31 => Err(ExternalOpcode::Balance),
                0x32 => Err(ExternalOpcode::Origin),
                0x33 => Err(ExternalOpcode::Caller),
                0x34 => Err(ExternalOpcode::CallValue),
                0x35 => Ok(Opcode::CallDataLoad),
                0x36 => Ok(Opcode::CallDataSize),
                0x37 => Ok(Opcode::CallDataCopy),
                0x38 => Ok(Opcode::CodeSize),
                0x39 => Ok(Opcode::CodeCopy),
                0x3a => Err(ExternalOpcode::GasPrice),
                0x3b => Err(ExternalOpcode::ExtCodeSize),
                0x3c => Err(ExternalOpcode::ExtCodeCopy),
                0x3d => Err(ExternalOpcode::ReturnDataSize),
                0x3e => Err(ExternalOpcode::ReturnDataCopy),
                0x3f => Err(ExternalOpcode::ExtCodeHash),
                0x40 => Err(ExternalOpcode::BlockHash),
                0x41 => Err(ExternalOpcode::Coinbase),
                0x42 => Err(ExternalOpcode::Timestamp),
                0x43 => Err(ExternalOpcode::Number),
                0x44 => Err(ExternalOpcode::Difficulty),
                0x45 => Err(ExternalOpcode::GasLimit),
                0x46 => Err(ExternalOpcode::ChainId),
                0x47 => Err(ExternalOpcode::SelfBalance),
                0x50 => Ok(Opcode::Pop),
                0x51 => Ok(Opcode::MLoad),
                0x52 => Ok(Opcode::MStore),
                0x53 => Ok(Opcode::MStore8),
                0x54 => Err(ExternalOpcode::SLoad),
                0x55 => Err(ExternalOpcode::SStore),
                0x56 => Ok(Opcode::Jump),
                0x57 => Ok(Opcode::JumpI),
                0x58 => Ok(Opcode::PC),
                0x59 => Ok(Opcode::MSize),
                0x5a => Err(ExternalOpcode::Gas),
                0x5b => Ok(Opcode::JumpDest),
                0xf0 => Err(ExternalOpcode::Create),
                0xf1 => Err(ExternalOpcode::Call),
                0xf2 => Err(ExternalOpcode::CallCode),
                0xf3 => Ok(Opcode::Return),
                0xf4 => Err(ExternalOpcode::DelegateCall),
                0xf5 => Err(ExternalOpcode::Create2),
                0xfa => Err(ExternalOpcode::StaticCall),
                0xfd => Ok(Opcode::Revert),
                0xfe => Ok(Opcode::Invalid),
                0xff => Err(ExternalOpcode::Suicide),
                _ => Err(ExternalOpcode::Other(opcode)),
            }
        }
    }

    /// Reads one byte of code as an opcode.
    pub fn parse(opcode: u8) -> (r: Result<Opcode, ExternalOpcode>)
        ensures
            r == Opcode::decode(opcode),
    {
        if 0x60 <= opcode && opcode <= 0x7f {
            Ok(Opcode::Push(opcode - 0x5f))
        } else if 0x80 <= opcode && opcode <= 0x8f {
            Ok(Opcode::Dup(opcode - 0x7f))
        } else if 0x90 <= opcode && opcode <= 0x9f {
            Ok(Opcode::Swap(opcode - 0x8f))
        } else if 0xa0 <= opcode && opcode <= 0xa4 {
            Err(ExternalOpcode::Log(opcode - 0xa0))
        } else {
            match opcode {
                0x00 => Ok(Opcode::Stop),
                0x01 => Ok(Opcode::Add),
                0x02 => Ok(Opcode::Mul),
                0x03 => Ok(Opcode::Sub),
                0x04 => Ok(Opcode::Div),
                0x05 => Ok(Opcode::SDiv),
                0x06 => Ok(Opcode::Mod),
                0x07 => Ok(Opcode::SMod),
                0x08 => Ok(Opcode::AddMod),
                0x09 => Ok(Opcode::MulMod),
                0x0a => Ok(Opcode::Exp),
                0x0b => Ok(Opcode::SignExtend),
                0x10 => Ok(Opcode::Lt),
                0x11 => Ok(Opcode::Gt),
                0x12 => Ok(Opcode::SLt),
                0x13 => Ok(Opcode::SGt),
                0x14 => Ok(Opcode::Eq),
                0x15 => Ok(Opcode::IsZero),
                0x16 => Ok(Opcode::And),
                0x17 => Ok(Opcode::Or),
                0x18 => Ok(Opcode::Xor),
                0x19 => Ok(Opcode::Not),
                0x1a => Ok(Opcode::Byte),
                0x1b => Ok(Opcode::Shl),
                0x1c => Ok(Opcode::Shr),
                0x1d => Ok(Opcode::Sar),
                0x20 => Err(ExternalOpcode::Sha3),
                0x30 => Err(ExternalOpcode::Address),
                0x31 => Err(ExternalOpcode::Balance),
                0x32 => Err(ExternalOpcode::Origin),
                0x33 => Err(ExternalOpcode::Caller),
                0x34 => Err(ExternalOpcode::CallValue),
                0x35 => Ok(Opcode::CallDataLoad),
                0x36 => Ok(Opcode::CallDataSize),
                0x37 => Ok(Opcode::CallDataCopy),
                0x38 => Ok(Opcode::CodeSize),
                0x39 => Ok(Opcode::CodeCopy),
                0x3a => Err(ExternalOpcode::GasPrice),
                0x3b => Err(ExternalOpcode::ExtCodeSize),
                0x3c => Err(ExternalOpcode::ExtCodeCopy),
                0x3d => Err(ExternalOpcode::ReturnDataSize),
                0x3e => Err(ExternalOpcode::ReturnDataCopy),
                0x3f => Err(ExternalOpcode::ExtCodeHash),
                0x40 => Err(ExternalOpcode::BlockHash),
                0x41 => Err(ExternalOpcode::Coinbase),
                0x42 => Err(ExternalOpcode::Timestamp),
                0x43 => Err(ExternalOpcode::Number),
                0x44 => Err(ExternalOpcode::Difficulty),
                0x45 => Err(ExternalOpcode::GasLimit),
                0x46 => Err(ExternalOpcode::ChainId),
                0x47 => Err(ExternalOpcode::SelfBalance),
                0x50 => Ok(Opcode::Pop),
                0x51 => Ok(Opcode::MLoad),
                0x52 => Ok(Opcode::MStore),
                0x53 => Ok(Opcode::MStore8),
                0x54 => Err(ExternalOpcode::SLoad),
                0x55 => Err(ExternalOpcode::SStore),
                0x56 => Ok(Opcode::Jump),
                0x57 => Ok(Opcode::JumpI),
                0x58 => Ok(Opcode::PC),
                0x59 => Ok(Opcode::MSize),
                0x5a => Err(ExternalOpcode::Gas),
                0x5b => Ok(Opcode::JumpDest),
                0xf0 => Err(ExternalOpcode::Create),
                0xf1 => Err(ExternalOpcode::Call),
                0xf2 => Err(ExternalOpcode::CallCode),
                0xf3 => Ok(Opcode::Return),
                0xf4 => Err(ExternalOpcode::DelegateCall),
                0xf5 => Err(ExternalOpcode::Create2),
                0xfa => Err(ExternalOpcode::StaticCall),
                0xfd => Ok(Opcode::Revert),
                0xfe => Ok(Opcode::Invalid),
                0xff => Err(ExternalOpcode::Suicide),
                _ => Err(ExternalOpcode::Other(opcode)),
            }
        }
    }

    /// Whether the `n` of a `PUSHn`, `DUPn` or `SWAPn` is one that the machine has.
    pub open spec fn wf(self) -> bool {
        match self {
            Opcode::Push(n) => 1 <= n <= 32,
            Opcode::Dup(n) => 1 <= n <= 16,
            Opcode::Swap(n) => 1 <= n <= 16,
            _ => true,
        }
    }

    /// A byte of code never stands for a `PUSHn`, `DUPn`, `SWAPn` or `LOGn` that the machine
    /// does not have.
    pub proof fn lemma_decode_ranges(opcode: u8)
        ensures
            Opcode::decode(opcode) matches Ok(op) ==> op.wf(),
            Opcode::decode(opcode) matches Err(ExternalOpcode::Log(n)) ==> n <= 4,
    {
    }
}

} // verus!
