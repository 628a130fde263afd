//! The core of an Ethereum Virtual Machine: a bytecode interpreter over a
//! 256-bit word stack and a byte-addressed scratch memory, the runtime that
//! dispatches the opcodes which need the outside world to a handler, and an
//! in-memory backend holding accounts.

pub mod arith;
pub mod backend;
pub mod eval;
pub mod exit;
pub mod hash;
pub mod machine;
pub mod memory;
pub mod opcode;
pub mod runtime;
pub mod stack;
pub mod table;
pub mod valids;
pub mod word;
