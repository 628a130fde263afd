//! The opcodes that need the context of the frame or the world around it. When one of them
//! runs, the machine has already stepped over it, so none of them moves the position.

use vstd::prelude::*;
use crate::eval::misc::{copy_from, copy_spec};
use crate::eval::{
    arg, coverable, covering, memory_kept, pop_args, push_word, pushes, rest, truth, underflows,
    unsupported, Control,
};
use crate::exit::{ExitError, ExitFatal, ExitReason, ExitSucceed};
use crate::hash::{keccak256, keccak_word};
use crate::machine::{Capture, Machine};
use crate::memory::{copied, read};
use crate::runtime::eval::{lifted, Control as Outcome};
use crate::runtime::handler::{Handler, Transfer};
use crate::runtime::{CallScheme, Context, CreateScheme, Pending, Runtime};
use crate::word::{address_modulus, be_value, Address, Word};

verus! {

/// The bytes that an instruction reads from the `len` bytes of memory at `offset`: none for a
/// length of zero.
pub open spec fn window(m: Seq<u8>, offset: nat, len: nat) -> Seq<u8> {
    if len == 0 {
        Seq::empty()
    } else {
        read(m, offset, len)
    }
}

/// Reads the `len` bytes of memory at `offset`, which the memory has been grown to cover.
fn read_window(machine: &Machine, offset: Word, len: Word) -> (r: Vec<u8>)
    requires
        machine.wf(),
        len@ == 0 || offset@ + len@ <= usize::MAX,
    ensures
        r@ == window(machine.memory@, offset@, len@),
{
    if len.is_zero() {
        return Vec::new();
    }
    match (offset.to_usize(), len.to_usize()) {
        (Some(o), Some(l)) => machine.memory.get(o, l),
        _ => Vec::new(),
    }
}

/// `SHA3` pops an offset and a length, grows the memory to cover that window, and pushes the
/// Keccak-256 hash of its bytes.
pub open spec fn sha3_spec(before: Runtime, after: Runtime, r: Control) -> bool {
    &&& after.frame_kept(before)
    &&& if before.machine.stack@.len() < 2 {
        underflows(before.machine, after.machine, r)
    } else {
        let from = arg(before.machine, 0)@;
        let len = arg(before.machine, 1)@;
        if coverable(before.machine, from, len) {
            &&& r == Control::Continue(0)
            &&& after.machine.return_range == before.machine.return_range
            &&& after.machine.memory@ == covering(before.machine.memory@, from, len)
            &&& after.machine.stack@ == rest(before.machine, 2).push(
                Word::of(be_value(keccak256(window(after.machine.memory@, from, len)))),
            )
        } else {
            unsupported(before.machine, after.machine, r, 2)
        }
    }
}

/// Executes `SHA3`.
pub fn sha3(runtime: &mut Runtime) -> (r: Control)
    requires
        old(runtime).wf(),
    ensures
        final(runtime).wf(),
        final(runtime).follows(*old(runtime)),
        final(runtime).machine.position == old(runtime).machine.position,
        sha3_spec(*old(runtime), *final(runtime), r),
{
    let args = match pop_args(&mut runtime.machine, 2) {
        Some(a) => a,
        None => {
            return Control::Exit(ExitReason::Error(ExitError::StackUnderflow));
        },
    };
    let from = args[0];
    let len = args[1];
    match runtime.machine.memory.resize_offset(from, len) {
        Ok(()) => {},
        Err(e) => {
            return Control::Exit(ExitReason::Fatal(e));
        },
    }
    let data = read_window(&runtime.machine, from, len);
    let value = keccak_word(data.as_slice());
    push_word(&mut runtime.machine, value, 0)
}

/// An instruction that pushes a word which the frame itself knows.
pub open spec fn tells(before: Runtime, after: Runtime, r: Control, value: Word) -> bool {
    &&& after.frame_kept(before)
    &&& pushes(before.machine, after.machine, r, value, 0)
}

/// Pushes a word that the frame knows, or that the handler has answered.
pub fn tell(runtime: &mut Runtime, value: Word) -> (r: Control)
    requires
        old(runtime).wf(),
    ensures
        final(runtime).wf(),
        final(runtime).follows(*old(runtime)),
        final(runtime).machine.position == old(runtime).machine.position,
        tells(*old(runtime), *final(runtime), r, value),
{
    push_word(&mut runtime.machine, value, 0)
}

/// `ADDRESS` pushes the address of the context.
pub fn address(runtime: &mut Runtime) -> (r: Control)
    requires
        old(runtime).wf(),
    ensures
        final(runtime).wf(),
        final(runtime).follows(*old(runtime)),
        final(runtime).machine.position == old(runtime).machine.position,
        tells(*old(runtime), *final(runtime), r, Word::of(old(runtime).context.address@)),
{
    let value = runtime.context.address.to_word();
    tell(runtime, value)
}

/// `CALLER` pushes the caller of the context.
pub fn caller(runtime: &mut Runtime) -> (r: Control)
    requires
        old(runtime).wf(),
    ensures
        final(runtime).wf(),
        final(runtime).follows(*old(runtime)),
        final(runtime).machine.position == old(runtime).machine.position,
        tells(*old(runtime), *final(runtime), r, Word::of(old(runtime).context.caller@)),
{
    let value = runtime.context.caller.to_word();
    tell(runtime, value)
}

/// `CALLVALUE` pushes the value of the context.
pub fn callvalue(runtime: &mut Runtime) -> (r: Control)
    requires
        old(runtime).wf(),
    ensures
        final(runtime).wf(),
        final(runtime).follows(*old(runtime)),
        final(runtime).machine.position == old(runtime).machine.position,
        tells(*old(runtime), *final(runtime), r, old(runtime).context.apparent_value),
{
    let value = runtime.context.apparent_value;
    tell(runtime, value)
}

/// `RETURNDATASIZE` pushes the length of the return data buffer.
pub fn returndatasize(runtime: &mut Runtime) -> (r: Control)
    requires
        old(runtime).wf(),
    ensures
        final(runtime).wf(),
        final(runtime).follows(*old(runtime)),
        final(runtime).machine.position == old(runtime).machine.position,
        tells(
            *old(runtime),
            *final(runtime),
            r,
            Word::of(old(runtime).return_data_buffer@.len()),
        ),
{
    let value = Word::from_usize(runtime.return_data_buffer.len());
    tell(runtime, value)
}

/// `RETURNDATACOPY` pops destination, source offset and length. A window of the return data
/// that ends past its end is refused with `OutOfOffset`. Else the memory grows to cover the
/// destination, and the window is copied.
pub open spec fn returndatacopy_spec(before: Runtime, after: Runtime, r: Control) -> bool {
    &&& after.frame_kept(before)
    &&& if before.machine.stack@.len() < 3 {
        underflows(before.machine, after.machine, r)
    } else {
        let dst = arg(before.machine, 0)@;
        let src = arg(before.machine, 1)@;
        let len = arg(before.machine, 2)@;
        if src + len > before.return_data_buffer@.len() {
            &&& r == Control::Exit(ExitReason::Error(ExitError::OutOfOffset))
            &&& after.machine.stack@ == rest(before.machine, 3)
            &&& memory_kept(before.machine, after.machine)
        } else if coverable(before.machine, dst, len) {
            &&& r == Control::Continue(0)
            &&& after.machine.stack@ == rest(before.machine, 3)
            &&& after.machine.return_range == before.machine.return_range
            &&& after.machine.memory@ == copied(
                covering(before.machine.memory@, dst, len),
                dst,
                before.return_data_buffer@,
                src,
                len,
            )
        } else {
            unsupported(before.machine, after.machine, r, 3)
        }
    }
}

/// `RETURNDATACOPY` of a window that ends past the end of the return data ends the frame with
/// `OutOfOffset`.
pub proof fn lemma_returndatacopy_strict(before: Runtime, after: Runtime, r: Control)
    requires
        returndatacopy_spec(before, after, r),
        before.machine.stack@.len() >= 3,
        arg(before.machine, 1)@ + arg(before.machine, 2)@ > before.return_data_buffer@.len(),
    ensures
        r == Control::Exit(ExitReason::Error(ExitError::OutOfOffset)),
        memory_kept(before.machine, after.machine),
{
}

/// Executes `RETURNDATACOPY`.
pub fn returndatacopy(runtime: &mut Runtime) -> (r: Control)
    requires
        old(runtime).wf(),
    ensures
        final(runtime).wf(),
        final(runtime).follows(*old(runtime)),
        final(runtime).machine.position == old(runtime).machine.position,
        returndatacopy_spec(*old(runtime), *final(runtime), r),
{
    let args = match pop_args(&mut runtime.machine, 3) {
        Some(a) => a,
        None => {
            return Control::Exit(ExitReason::Error(ExitError::StackUnderflow));
        },
    };
    let memory_offset = args[0];
    let data_offset = args[1];
    let len = args[2];
    let held = Word::from_usize(runtime.return_data_buffer.len());
    let inside = match data_offset.checked_add(len) {
        Some(end) => !end.gt(held),
        None => false,
    };
    if !inside {
        return Control::Exit(ExitReason::Error(ExitError::OutOfOffset));
    }
    match runtime.machine.memory.resize_offset(memory_offset, len) {
        Ok(()) => {},
        Err(e) => {
            return Control::Exit(ExitReason::Fatal(e));
        },
    }
    match runtime.machine.memory.copy_large(
        memory_offset,
        data_offset,
        len,
        runtime.return_data_buffer.as_slice(),
    ) {
        Ok(()) => Control::Continue(0),
        Err(e) => Control::Exit(ExitReason::Fatal(e)),
    }
}

/// The first step of an instruction that pops `k` words: with `k` words there, they are taken,
/// topmost first; with fewer, the frame ends with an underflow.
pub open spec fn take_args_spec(
    before: Runtime,
    after: Runtime,
    k: usize,
    r: Result<Vec<Word>, Control>,
) -> bool {
    &&& after.frame_kept(before)
    &&& memory_kept(before.machine, after.machine)
    &&& if before.machine.stack@.len() < k {
        r matches Err(c) && underflows(before.machine, after.machine, c)
    } else {
        &&& after.machine.stack@ == rest(before.machine, k as int)
        &&& r matches Ok(args)
        &&& args@.len() == k
        &&& forall|i: int| 0 <= i < k ==> args@[i] == arg(before.machine, i)
    }
}

/// Takes the `k` arguments of an instruction off the stack.
pub fn take_args(runtime: &mut Runtime, k: usize) -> (r: Result<Vec<Word>, Control>)
    requires
        old(runtime).wf(),
    ensures
        final(runtime).wf(),
        final(runtime).follows(*old(runtime)),
        final(runtime).machine.position == old(runtime).machine.position,
        take_args_spec(*old(runtime), *final(runtime), k, r),
{
    match pop_args(&mut runtime.machine, k) {
        Some(args) => Ok(args),
        None => Err(Control::Exit(ExitReason::Error(ExitError::StackUnderflow))),
    }
}

/// An instruction that pops `k` words and pushes the word that the handler answered: some word.
pub open spec fn answers(before: Runtime, after: Runtime, r: Control, k: int) -> bool {
    &&& after.frame_kept(before)
    &&& exists|value: Word| #[trigger]
        answer_is(before.machine, after.machine, r, k, value)
}

/// The instruction pops `k` words and pushes `value`.
pub open spec fn answer_is(
    before: Machine,
    after: Machine,
    r: Control,
    k: int,
    value: Word,
) -> bool {
    if k == 0 {
        pushes(before, after, r, value, 0)
    } else if before.stack@.len() < k {
        underflows(before, after, r)
    } else {
        &&& r == Control::Continue(0)
        &&& after.stack@ == rest(before, k).push(value)
        &&& memory_kept(before, after)
    }
}

/// `BALANCE` pops an address and pushes the balance that the handler gives for it.
pub fn balance<H: Handler>(runtime: &mut Runtime, handler: &H) -> (r: Control)
    requires
        old(runtime).wf(),
    ensures
        final(runtime).wf(),
        final(runtime).follows(*old(runtime)),
        final(runtime).machine.position == old(runtime).machine.position,
        answers(*old(runtime), *final(runtime), r, 1),
{
    let args = match take_args(runtime, 1) {
        Ok(a) => a,
        Err(r) => {
            assert(answer_is(old(runtime).machine, runtime.machine, r, 1, Word::of(0)));
            return r;
        },
    };
    let value = handler.balance(Address::from_word(args[0]));
    let r = push_word(&mut runtime.machine, value, 0);
    assert(answer_is(old(runtime).machine, runtime.machine, r, 1, value));
    r
}

/// `SELFBALANCE` pushes the balance that the handler gives for the address of the context.
pub fn selfbalance<H: Handler>(runtime: &mut Runtime, handler: &H) -> (r: Control)
    requires
        old(runtime).wf(),
    ensures
        final(runtime).wf(),
        final(runtime).follows(*old(runtime)),
        final(runtime).machine.position == old(runtime).machine.position,
        answers(*old(runtime), *final(runtime), r, 0),
{
    let value = handler.balance(runtime.context.address);
    let r = push_word(&mut runtime.machine, value, 0);
    assert(answer_is(old(runtime).machine, runtime.machine, r, 0, value));
    r
}

/// `ORIGIN` pushes the origin that the handler gives.
pub fn origin<H: Handler>(runtime: &mut Runtime, handler: &H) -> (r: Control)
    requires
        old(runtime).wf(),
    ensures
        final(runtime).wf(),
        final(runtime).follows(*old(runtime)),
        final(runtime).machine.position == old(runtime).machine.position,
        answers(*old(runtime), *final(runtime), r, 0),
{
    let value = handler.origin().to_word();
    let r = push_word(&mut runtime.machine, value, 0);
    assert(answer_is(old(runtime).machine, runtime.machine, r, 0, value));
    r
}

/// `GASPRICE` pushes the gas price that the handler gives.
pub fn gasprice<H: Handler>(runtime: &mut Runtime, handler: &H) -> (r: Control)
    requires
        old(runtime).wf(),
    ensures
        final(runtime).wf(),
        final(runtime).follows(*old(runtime)),
        final(runtime).machine.position == old(runtime).machine.position,
        answers(*old(runtime), *final(runtime), r, 0),
{
    let value = handler.gas_price();
    let r = push_word(&mut runtime.machine, value, 0);
    assert(answer_is(old(runtime).machine, runtime.machine, r, 0, value));
    r
}

/// `EXTCODESIZE` pops an address and pushes the code size that the handler gives for it.
pub fn extcodesize<H: Handler>(runtime: &mut Runtime, handler: &H) -> (r: Control)
    requires
        old(runtime).wf(),
    ensures
        final(runtime).wf(),
        final(runtime).follows(*old(runtime)),
        final(runtime).machine.position == old(runtime).machine.position,
        answers(*old(runtime), *final(runtime), r, 1),
{
    let args = match take_args(runtime, 1) {
        Ok(a) => a,
        Err(r) => {
            assert(answer_is(old(runtime).machine, runtime.machine, r, 1, Word::of(0)));
            return r;
        },
    };
    let value = handler.code_size(Address::from_word(args[0]));
    let r = push_word(&mut runtime.machine, value, 0);
    assert(answer_is(old(runtime).machine, runtime.machine, r, 1, value));
    r
}

/// `EXTCODEHASH` pops an address and pushes the code hash that the handler gives for it.
pub fn extcodehash<H: Handler>(runtime: &mut Runtime, handler: &H) -> (r: Control)
    requires
        old(runtime).wf(),
    ensures
        final(runtime).wf(),
        final(runtime).follows(*old(runtime)),
        final(runtime).machine.position == old(runtime).machine.position,
        answers(*old(runtime), *final(runtime), r, 1),
{
    let args = match take_args(runtime, 1) {
        Ok(a) => a,
        Err(r) => {
            assert(answer_is(old(runtime).machine, runtime.machine, r, 1, Word::of(0)));
            return r;
        },
    };
    let value = handler.code_hash(Address::from_word(args[0]));
    let r = push_word(&mut runtime.machine, value, 0);
    assert(answer_is(old(runtime).machine, runtime.machine, r, 1, value));
    r
}

/// `BLOCKHASH` pops a block number and pushes the hash that the handler gives for it.
pub fn blockhash<H: Handler>(runtime: &mut Runtime, handler: &H) -> (r: Control)
    requires
        old(runtime).wf(),
    ensures
        final(runtime).wf(),
        final(runtime).follows(*old(runtime)),
        final(runtime).machine.position == old(runtime).machine.position,
        answers(*old(runtime), *final(runtime), r, 1),
{
    let args = match take_args(runtime, 1) {
        Ok(a) => a,
        Err(r) => {
            assert(answer_is(old(runtime).machine, runtime.machine, r, 1, Word::of(0)));
            return r;
        },
    };
    let value = handler.block_hash(args[0]);
    let r = push_word(&mut runtime.machine, value, 0);
    assert(answer_is(old(runtime).machine, runtime.machine, r, 1, value));
    r
}

/// `COINBASE` pushes the coinbase that the handler gives.
pub fn coinbase<H: Handler>(runtime: &mut Runtime, handler: &H) -> (r: Control)
    requires
        old(runtime).wf(),
    ensures
        final(runtime).wf(),
        final(runtime).follows(*old(runtime)),
        final(runtime).machine.position == old(runtime).machine.position,
        answers(*old(runtime), *final(runtime), r, 0),
{
    let value = handler.block_coinbase().to_word();
    let r = push_word(&mut runtime.machine, value, 0);
    assert(answer_is(old(runtime).machine, runtime.machine, r, 0, value));
    r
}

/// `TIMESTAMP` pushes the timestamp that the handler gives.
pub fn timestamp<H: Handler>(runtime: &mut Runtime, handler: &H) -> (r: Control)
    requires
        old(runtime).wf(),
    ensures
        final(runtime).wf(),
        final(runtime).follows(*old(runtime)),
        final(runtime).machine.position == old(runtime).machine.position,
        answers(*old(runtime), *final(runtime), r, 0),
{
    let value = handler.block_timestamp();
    let r = push_word(&mut runtime.machine, value, 0);
    assert(answer_is(old(runtime).machine, runtime.machine, r, 0, value));
    r
}

/// `NUMBER` pushes the block number that the handler gives.
pub fn number<H: Handler>(runtime: &mut Runtime, handler: &H) -> (r: Control)
    requires
        old(runtime).wf(),
    ensures
        final(runtime).wf(),
        final(runtime).follows(*old(runtime)),
        final(runtime).machine.position == old(runtime).machine.position,
        answers(*old(runtime), *final(runtime), r, 0),
{
    let value = handler.block_number();
    let r = push_word(&mut runtime.machine, value, 0);
    assert(answer_is(old(runtime).machine, runtime.machine, r, 0, value));
    r
}

/// `DIFFICULTY` pushes the difficulty that the handler gives.
pub fn difficulty<H: Handler>(runtime: &mut Runtime, handler: &H) -> (r: Control)
    requires
        old(runtime).wf(),
    ensures
        final(runtime).wf(),
        final(runtime).follows(*old(runtime)),
        final(runtime).machine.position == old(runtime).machine.position,
        answers(*old(runtime), *final(runtime), r, 0),
{
    let value = handler.block_difficulty();
    let r = push_word(&mut runtime.machine, value, 0);
    assert(answer_is(old(runtime).machine, runtime.machine, r, 0, value));
    r
}

/// `GASLIMIT` pushes the block gas limit that the handler gives.
pub fn gaslimit<H: Handler>(runtime: &mut Runtime, handler: &H) -> (r: Control)
    requires
        old(runtime).wf(),
    ensures
        final(runtime).wf(),
        final(runtime).follows(*old(runtime)),
        final(runtime).machine.position == old(runtime).machine.position,
        answers(*old(runtime), *final(runtime), r, 0),
{
    let value = handler.block_gas_limit();
    let r = push_word(&mut runtime.machine, value, 0);
    assert(answer_is(old(runtime).machine, runtime.machine, r, 0, value));
    r
}

/// `CHAINID` pushes the chain ID that the handler gives.
pub fn chainid<H: Handler>(runtime: &mut Runtime, handler: &H) -> (r: Control)
    requires
        old(runtime).wf(),
    ensures
        final(runtime).wf(),
        final(runtime).follows(*old(runtime)),
        final(runtime).machine.position == old(runtime).machine.position,
        answers(*old(runtime), *final(runtime), r, 0),
{
    let value = handler.chain_id();
    let r = push_word(&mut runtime.machine, value, 0);
    assert(answer_is(old(runtime).machine, runtime.machine, r, 0, value));
    r
}

/// `GAS` pushes the gas that the handler says is left.
pub fn gas<H: Handler>(runtime: &mut Runtime, handler: &H) -> (r: Control)
    requires
        old(runtime).wf(),
    ensures
        final(runtime).wf(),
        final(runtime).follows(*old(runtime)),
        final(runtime).machine.position == old(runtime).machine.position,
        answers(*old(runtime), *final(runtime), r, 0),
{
    let value = handler.gas_left();
    let r = push_word(&mut runtime.machine, value, 0);
    assert(answer_is(old(runtime).machine, runtime.machine, r, 0, value));
    r
}

/// `SLOAD` pops an index and pushes the value that the handler gives for that slot of the
/// account of the context.
pub fn sload<H: Handler>(runtime: &mut Runtime, handler: &H) -> (r: Control)
    requires
        old(runtime).wf(),
    ensures
        final(runtime).wf(),
        final(runtime).follows(*old(runtime)),
        final(runtime).machine.position == old(runtime).machine.position,
        answers(*old(runtime), *final(runtime), r, 1),
{
    let args = match take_args(runtime, 1) {
        Ok(a) => a,
        Err(r) => {
            assert(answer_is(old(runtime).machine, runtime.machine, r, 1, Word::of(0)));
            return r;
        },
    };
    let value = handler.storage(runtime.context.address, args[0]);
    let r = push_word(&mut runtime.machine, value, 0);
    assert(answer_is(old(runtime).machine, runtime.machine, r, 1, value));
    r
}

/// The same way to go on, for an instruction that the machine has already stepped over.
pub open spec fn at_rest(c: Control) -> Control {
    match c {
        Control::Continue(_) => Control::Continue(0),
        _ => c,
    }
}

/// `EXTCODECOPY` pops an address, and then destination, source offset and length; it copies
/// from the code that the handler gives for the address, which is some sequence of bytes.
pub open spec fn extcodecopy_spec(before: Runtime, after: Runtime, r: Control) -> bool {
    &&& after.frame_kept(before)
    &&& if before.machine.stack@.len() < 1 {
        underflows(before.machine, after.machine, r)
    } else {
        exists|mid: Machine, code: Seq<u8>, c: Control|
            {
                &&& #[trigger] copy_spec(mid, after.machine, c, code)
                &&& mid.stack@ == rest(before.machine, 1)
                &&& mid.follows(before.machine)
                &&& memory_kept(before.machine, mid)
                &&& r == at_rest(c)
            }
    }
}

/// Executes `EXTCODECOPY`.
pub fn extcodecopy<H: Handler>(runtime: &mut Runtime, handler: &H) -> (r: Control)
    requires
        old(runtime).wf(),
    ensures
        final(runtime).wf(),
        final(runtime).follows(*old(runtime)),
        final(runtime).machine.position == old(runtime).machine.position,
        extcodecopy_spec(*old(runtime), *final(runtime), r),
{
    let args = match take_args(runtime, 1) {
        Ok(a) => a,
        Err(r) => {
            return r;
        },
    };
    let code = handler.code(Address::from_word(args[0]));
    let ghost mid = runtime.machine;
    let c = copy_from(&mut runtime.machine, code.as_slice());
    assert(copy_spec(mid, runtime.machine, c, code@));
    match c {
        Control::Continue(_) => Control::Continue(0),
        other => other,
    }
}

/// How the machine goes on after the handler took, or refused, an effect.
pub open spec fn settled(result: Result<(), ExitError>) -> Control {
    match result {
        Ok(()) => Control::Continue(0),
        Err(e) => Control::Exit(ExitReason::Error(e)),
    }
}

/// Decides how to go on after the handler took, or refused, an effect.
pub fn settle(result: Result<(), ExitError>) -> (r: Control)
    ensures
        r == settled(result),
{
    match result {
        Ok(()) => Control::Continue(0),
        Err(e) => Control::Exit(ExitReason::Error(e)),
    }
}

/// `SSTORE` pops an index and a value and hands them to the handler, which takes them or
/// refuses with an error.
pub open spec fn sstore_spec(before: Runtime, after: Runtime, r: Control) -> bool {
    &&& after.frame_kept(before)
    &&& if before.machine.stack@.len() < 2 {
        underflows(before.machine, after.machine, r)
    } else {
        &&& after.machine.stack@ == rest(before.machine, 2)
        &&& memory_kept(before.machine, after.machine)
        &&& exists|result: Result<(), ExitError>| r == #[trigger] settled(result)
    }
}

/// Executes `SSTORE`.
pub fn sstore<H: Handler>(runtime: &mut Runtime, handler: &mut H) -> (r: Control)
    requires
        old(runtime).wf(),
    ensures
        final(runtime).wf(),
        final(runtime).follows(*old(runtime)),
        final(runtime).machine.position == old(runtime).machine.position,
        sstore_spec(*old(runtime), *final(runtime), r),
{
    let args = match take_args(runtime, 2) {
        Ok(a) => a,
        Err(r) => {
            return r;
        },
    };
    let result = handler.set_storage(runtime.context.address, args[0], args[1]);
    let r = settle(result);
    assert(r == settled(result));
    r
}

/// `LOGn` pops an offset and a length, grows the memory to cover that window, pops `n` topics,
/// and hands window and topics to the handler, which takes them or refuses with an error.
pub open spec fn log_spec(before: Runtime, after: Runtime, r: Control, n: u8) -> bool {
    &&& after.frame_kept(before)
    &&& if before.machine.stack@.len() < 2 {
        underflows(before.machine, after.machine, r)
    } else {
        let offset = arg(before.machine, 0)@;
        let len = arg(before.machine, 1)@;
        if !coverable(before.machine, offset, len) {
            unsupported(before.machine, after.machine, r, 2)
        } else {
            &&& after.machine.return_range == before.machine.return_range
            &&& after.machine.memory@ == covering(before.machine.memory@, offset, len)
            &&& if before.machine.stack@.len() < 2 + n {
                &&& r == Control::Exit(ExitReason::Error(ExitError::StackUnderflow))
                &&& after.machine.stack@ == Seq::<Word>::empty()
            } else {
                &&& after.machine.stack@ == rest(before.machine, 2 + n)
                &&& exists|result: Result<(), ExitError>| r == #[trigger] settled(result)
            }
        }
    }
}

/// What a `LOGn` hands to the handler.
pub struct LogRequest {
    /// The account that logs.
    pub address: Address,
    /// The topics, in the order in which they were popped.
    pub topics: Vec<Word>,
    /// The bytes of the window.
    pub data: Vec<u8>,
}

/// The first half of `LOGn`: offset and length are popped, the memory grows to cover that
/// window, and the `n` topics are popped. The request says what the handler is to be asked.
pub open spec fn prepare_log_spec(
    before: Runtime,
    after: Runtime,
    n: u8,
    r: Result<LogRequest, Control>,
) -> bool {
    let m = before.machine;
    &&& after.frame_kept(before)
    &&& if m.stack@.len() < 2 {
        r matches Err(c) && underflows(m, after.machine, c)
    } else {
        let offset = arg(m, 0)@;
        let len = arg(m, 1)@;
        if !coverable(m, offset, len) {
            r matches Err(c) && unsupported(m, after.machine, c, 2)
        } else {
            &&& after.machine.return_range == m.return_range
            &&& after.machine.memory@ == covering(m.memory@, offset, len)
            &&& if m.stack@.len() < 2 + n {
                &&& after.machine.stack@ == Seq::<Word>::empty()
                &&& r matches Err(c)
                &&& c == Control::Exit(ExitReason::Error(ExitError::StackUnderflow))
            } else {
                &&& after.machine.stack@ == rest(m, 2 + n)
                &&& r matches Ok(request)
                &&& request.address == before.context.address
                &&& request.data@ == window(after.machine.memory@, offset, len)
                &&& request.topics@.len() == n
                &&& forall|i: int| 0 <= i < n ==> request.topics@[i] == arg(m, 2 + i)
            }
        }
    }
}

/// Runs the first half of `LOGn`.
pub fn prepare_log(runtime: &mut Runtime, n: u8) -> (r: Result<LogRequest, Control>)
    requires
        old(runtime).wf(),
    ensures
        final(runtime).wf(),
        final(runtime).follows(*old(runtime)),
        final(runtime).machine.position == old(runtime).machine.position,
        prepare_log_spec(*old(runtime), *final(runtime), n, r),
{
    let args = match pop_args(&mut runtime.machine, 2) {
        Some(a) => a,
        None => {
            return Err(Control::Exit(ExitReason::Error(ExitError::StackUnderflow)));
        },
    };
    let offset = args[0];
    let len = args[1];
    match runtime.machine.memory.resize_offset(offset, len) {
        Ok(()) => {},
        Err(e) => {
            return Err(Control::Exit(ExitReason::Fatal(e)));
        },
    }
    let data = read_window(&runtime.machine, offset, len);
    let ghost mid = runtime.machine;
    let topics = match pop_args(&mut runtime.machine, n as usize) {
        Some(t) => t,
        None => {
            return Err(Control::Exit(ExitReason::Error(ExitError::StackUnderflow)));
        },
    };
    assert(runtime.machine.stack@ =~= rest(old(runtime).machine, 2 + n));
    assert forall|i: int| 0 <= i < n implies topics@[i] == arg(old(runtime).machine, 2 + i) by {
        assert(topics@[i] == arg(mid, i));
    }
    Ok(LogRequest { address: runtime.context.address, topics, data })
}

/// Executes `LOGn`.
pub fn log<H: Handler>(runtime: &mut Runtime, n: u8, handler: &mut H) -> (r: Control)
    requires
        old(runtime).wf(),
    ensures
        final(runtime).wf(),
        final(runtime).follows(*old(runtime)),
        final(runtime).machine.position == old(runtime).machine.position,
        log_spec(*old(runtime), *final(runtime), r, n),
{
    let request = match prepare_log(runtime, n) {
        Ok(request) => request,
        Err(r) => {
            return r;
        },
    };
    let result = handler.log(request.address, request.topics, request.data);
    let r = settle(result);
    assert(r == settled(result));
    r
}

/// `SELFDESTRUCT` pops a target and asks the handler to mark the account of the context for
/// deletion. The frame ends: with `Suicided`, or with the error that the handler gave.
pub open spec fn suicide_spec(before: Runtime, after: Runtime, r: Control) -> bool {
    &&& after.frame_kept(before)
    &&& if before.machine.stack@.len() < 1 {
        underflows(before.machine, after.machine, r)
    } else {
        &&& after.machine.stack@ == rest(before.machine, 1)
        &&& memory_kept(before.machine, after.machine)
        &&& exists|result: Result<(), ExitError>| r == #[trigger] ended(result)
    }
}

/// How the frame ends after the handler marked, or refused to mark, the account.
pub open spec fn ended(result: Result<(), ExitError>) -> Control {
    match result {
        Ok(()) => Control::Exit(ExitReason::Succeed(ExitSucceed::Suicided)),
        Err(e) => Control::Exit(ExitReason::Error(e)),
    }
}

/// Decides how the frame ends after the handler marked, or refused to mark, the account.
pub fn end(result: Result<(), ExitError>) -> (r: Control)
    ensures
        r == ended(result),
{
    match result {
        Ok(()) => Control::Exit(ExitReason::Succeed(ExitSucceed::Suicided)),
        Err(e) => Control::Exit(ExitReason::Error(e)),
    }
}

/// Executes `SELFDESTRUCT`.
pub fn suicide<H: Handler>(runtime: &mut Runtime, handler: &mut H) -> (r: Control)
    requires
        old(runtime).wf(),
    ensures
        final(runtime).wf(),
        final(runtime).follows(*old(runtime)),
        final(runtime).machine.position == old(runtime).machine.position,
        suicide_spec(*old(runtime), *final(runtime), r),
{
    let args = match take_args(runtime, 1) {
        Ok(a) => a,
        Err(r) => {
            return r;
        },
    };
    let result = handler.mark_delete(runtime.context.address, Address::from_word(args[0]));
    let r = end(result);
    assert(r == ended(result));
    r
}

/// What a create asks of the handler.
pub struct CreateRequest {
    /// The account that creates.
    pub caller: Address,
    /// How the new address is found.
    pub scheme: CreateScheme,
    /// The value sent along.
    pub value: Word,
    /// The code that builds the contract.
    pub init_code: Vec<u8>,
}

/// The first half of `CREATE` and `CREATE2`: the return data buffer is emptied; value, offset
/// and length are popped; the memory grows to cover the window of the init code; `CREATE2` then
/// pops the salt and hashes the code. The request says what the handler is to be asked.
pub open spec fn prepare_create_spec(
    before: Runtime,
    after: Runtime,
    is_create2: bool,
    r: Result<CreateRequest, Control>,
) -> bool {
    let m = before.machine;
    &&& after.context == before.context
    &&& after.status == before.status
    &&& after.pending == before.pending
    &&& after.return_data_buffer@ == Seq::<u8>::empty()
    &&& if m.stack@.len() < 3 {
        r matches Err(c) && underflows(m, after.machine, c)
    } else {
        let offset = arg(m, 1)@;
        let len = arg(m, 2)@;
        if !coverable(m, offset, len) {
            r matches Err(c) && unsupported(m, after.machine, c, 3)
        } else {
            let code = window(after.machine.memory@, offset, len);
            &&& after.machine.return_range == m.return_range
            &&& after.machine.memory@ == covering(m.memory@, offset, len)
            &&& if !is_create2 {
                &&& after.machine.stack@ == rest(m, 3)
                &&& r matches Ok(request)
                &&& request.caller == before.context.address
                &&& request.scheme == (CreateScheme::Legacy { caller: before.context.address })
                &&& request.value == arg(m, 0)
                &&& request.init_code@ == code
            } else if m.stack@.len() < 4 {
                &&& after.machine.stack@ == Seq::<Word>::empty()
                &&& r matches Err(c)
                &&& c == Control::Exit(ExitReason::Error(ExitError::StackUnderflow))
            } else {
                &&& after.machine.stack@ == rest(m, 4)
                &&& r matches Ok(request)
                &&& request.caller == before.context.address
                &&& request.scheme == (CreateScheme::Create2 {
                    caller: before.context.address,
                    code_hash: Word::of(be_value(keccak256(code))),
                    salt: arg(m, 3),
                })
                &&& request.value == arg(m, 0)
                &&& request.init_code@ == code
            }
        }
    }
}

/// Runs the first half of `CREATE` or `CREATE2`.
pub fn prepare_create(runtime: &mut Runtime, is_create2: bool) -> (r: Result<
    CreateRequest,
    Control,
>)
    requires
        old(runtime).wf(),
    ensures
        final(runtime).wf(),
        final(runtime).follows(*old(runtime)),
        final(runtime).machine.position == old(runtime).machine.position,
        prepare_create_spec(*old(runtime), *final(runtime), is_create2, r),
{
    runtime.return_data_buffer = Vec::new();
    let args = match pop_args(&mut runtime.machine, 3) {
        Some(a) => a,
        None => {
            return Err(Control::Exit(ExitReason::Error(ExitError::StackUnderflow)));
        },
    };
    let value = args[0];
    let code_offset = args[1];
    let len = args[2];
    match runtime.machine.memory.resize_offset(code_offset, len) {
        Ok(()) => {},
        Err(e) => {
            return Err(Control::Exit(ExitReason::Fatal(e)));
        },
    }
    let init_code = read_window(&runtime.machine, code_offset, len);
    let caller = runtime.context.address;
    let ghost mid = runtime.machine;
    assert(init_code@ == window(mid.memory@, code_offset@, len@));
    let scheme = if is_create2 {
        let salt = match pop_args(&mut runtime.machine, 1) {
            Some(a) => a[0],
            None => {
                return Err(Control::Exit(ExitReason::Error(ExitError::StackUnderflow)));
            },
        };
        assert(runtime.machine.stack@ =~= rest(old(runtime).machine, 4));
        assert(salt == arg(mid, 0));
        assert(arg(mid, 0) == arg(old(runtime).machine, 3));
        let code_hash = keccak_word(init_code.as_slice());
        CreateScheme::Create2 { caller, code_hash, salt }
    } else {
        CreateScheme::Legacy { caller }
    };
    Ok(CreateRequest { caller, scheme, value, init_code })
}

/// The second half of `CREATE` and `CREATE2`, for a nested frame that ended with `reason`,
/// created `address` and returned `data`: the data becomes the return data buffer, and the
/// address is pushed if the frame succeeded, else zero. A fatal exit ends this frame too.
pub open spec fn finish_create_spec(
    before: Runtime,
    after: Runtime,
    reason: ExitReason,
    address: Option<Address>,
    data: Seq<u8>,
    r: Control,
) -> bool {
    let m = before.machine;
    &&& after.context == before.context
    &&& after.status == before.status
    &&& after.pending.is_none()
    &&& after.return_data_buffer@ == data
    &&& memory_kept(m, after.machine)
    &&& if m.stack@.len() < m.stack.spec_limit() {
        &&& after.machine.stack@ == m.stack@.push(
            match address {
                Some(a) if reason is Succeed => Word::of(a@),
                _ => Word::of(0),
            },
        )
        &&& r == match reason {
            ExitReason::Fatal(e) => Control::Exit(ExitReason::Fatal(e)),
            _ => Control::Continue(0),
        }
    } else {
        &&& after.machine.stack@ == m.stack@
        &&& r == Control::Exit(ExitReason::Error(ExitError::StackOverflow))
    }
}

/// Runs the second half of `CREATE` or `CREATE2`.
pub fn finish_create(
    runtime: &mut Runtime,
    reason: ExitReason,
    address: Option<Address>,
    return_data: Vec<u8>,
) -> (r: Control)
    requires
        old(runtime).wf(),
    ensures
        final(runtime).wf(),
        final(runtime).follows(*old(runtime)),
        final(runtime).machine.position == old(runtime).machine.position,
        finish_create_spec(*old(runtime), *final(runtime), reason, address, return_data@, r),
{
    runtime.pending = None;
    runtime.return_data_buffer = return_data;
    let created = match (address, reason) {
        (Some(a), ExitReason::Succeed(_)) => a.to_word(),
        _ => Word::zero(),
    };
    let r = push_word(&mut runtime.machine, created, 0);
    match reason {
        ExitReason::Fatal(e) => match r {
            Control::Continue(_) => Control::Exit(ExitReason::Fatal(e)),
            _ => r,
        },
        _ => r,
    }
}

/// `CREATE` and `CREATE2`. The first half runs; if it gave a request, the handler is asked. An
/// answer goes through the second half. An interrupt is handed on, and the frame waits for the
/// result of the create.
pub open spec fn create_spec<H: Handler>(
    before: Runtime,
    after: Runtime,
    is_create2: bool,
    r: Outcome<H>,
) -> bool {
    exists|mid: Runtime, p: Result<CreateRequest, Control>|
        {
            &&& #[trigger] prepare_create_spec(before, mid, is_create2, p)
            &&& mid.machine.follows(before.machine)
            &&& match p {
                Err(c) => after == mid && r == lifted::<H>(c),
                Ok(request) => {
                    ||| r is CreateInterrupt && after == (Runtime {
                        pending: Some(Pending::Create),
                        ..mid
                    })
                    ||| exists|
                        reason: ExitReason,
                        address: Option<Address>,
                        data: Seq<u8>,
                        c: Control,
                    |
                        {
                            &&& #[trigger] finish_create_spec(mid, after, reason, address, data, c)
                            &&& r == lifted::<H>(c)
                        }
                },
            }
        }
}

/// Executes `CREATE` or `CREATE2`.
pub fn create<H: Handler>(runtime: &mut Runtime, is_create2: bool, handler: &mut H) -> (r: Outcome<
    H,
>)
    requires
        old(runtime).wf(),
    ensures
        final(runtime).wf(),
        final(runtime).follows(*old(runtime)),
        final(runtime).machine.position == old(runtime).machine.position,
        create_spec(*old(runtime), *final(runtime), is_create2, r),
{
    let p = prepare_create(runtime, is_create2);
    let ghost mid = *runtime;
    let ghost shown = p;
    assert(prepare_create_spec(*old(runtime), mid, is_create2, shown));
    match p {
        Err(c) => match c {
            Control::Exit(e) => Outcome::Exit(e),
            _ => Outcome::Continue,
        },
        Ok(request) => {
            match handler.create(
                request.caller,
                request.scheme,
                request.value,
                request.init_code,
                None,
            ) {
                Capture::Exit((reason, address, return_data)) => {
                    let c = finish_create(runtime, reason, address, return_data);
                    assert(finish_create_spec(mid, *runtime, reason, address, return_data@, c));
                    match c {
                        Control::Exit(e) => Outcome::Exit(e),
                        _ => Outcome::Continue,
                    }
                },
                Capture::Trap(interrupt) => {
                    runtime.pending = Some(Pending::Create);
                    Outcome::CreateInterrupt(interrupt)
                },
            }
        },
    }
}

/// What a call asks of the handler, and where its output is to go.
pub struct CallRequest {
    /// The account whose code runs.
    pub code_address: Address,
    /// The transfer that goes with the call, if any.
    pub transfer: Option<Transfer>,
    /// The call data.
    pub input: Vec<u8>,
    /// The gas offered, where it is a number the machine can hold.
    pub target_gas: Option<usize>,
    /// Whether the nested frame is barred from writing.
    pub is_static: bool,
    /// The context of the nested frame.
    pub context: Context,
    /// Where in memory the output goes.
    pub out_offset: Word,
    /// The most bytes of output that are taken.
    pub out_len: Word,
}

/// How many words a call pops: gas, target, the value where the scheme has one, and the
/// windows of input and output.
pub open spec fn call_arity(scheme: CallScheme) -> int {
    if scheme is Call || scheme is CallCode {
        7
    } else {
        6
    }
}

/// The context that the nested frame of a call sees.
pub open spec fn call_context(
    current: Context,
    scheme: CallScheme,
    to: Address,
    value: Word,
) -> Context {
    match scheme {
        CallScheme::Call => Context { address: to, caller: current.address, apparent_value: value },
        CallScheme::CallCode => Context {
            address: current.address,
            caller: current.address,
            apparent_value: value,
        },
        CallScheme::DelegateCall => current,
        CallScheme::StaticCall => Context {
            address: to,
            caller: current.address,
            apparent_value: Word::of(0),
        },
    }
}

/// The transfer that goes with a call: only `CALL` moves value.
pub open spec fn call_transfer(
    current: Context,
    scheme: CallScheme,
    to: Address,
    value: Word,
) -> Option<Transfer> {
    if scheme is Call {
        Some(Transfer { source: current.address, target: to, value })
    } else {
        None
    }
}

/// The first half of a call: the return data buffer is emptied, the arguments are popped, and
/// the memory grows to cover the input window and then the output window. The request says
/// what the handler is to be asked.
pub open spec fn prepare_call_spec(
    before: Runtime,
    after: Runtime,
    scheme: CallScheme,
    r: Result<CallRequest, Control>,
) -> bool {
    let m = before.machine;
    let k = call_arity(scheme);
    &&& after.context == before.context
    &&& after.status == before.status
    &&& after.pending == before.pending
    &&& after.return_data_buffer@ == Seq::<u8>::empty()
    &&& if m.stack@.len() < k {
        r matches Err(c) && underflows(m, after.machine, c)
    } else {
        let gas = arg(m, 0)@;
        let to = Address::of(arg(m, 1)@ % address_modulus());
        let value = if k == 7 {
            arg(m, 2)
        } else {
            Word::of(0)
        };
        let in_offset = arg(m, k - 4)@;
        let in_len = arg(m, k - 3)@;
        let out_offset = arg(m, k - 2);
        let out_len = arg(m, k - 1);
        if !coverable(m, in_offset, in_len) {
            r matches Err(c) && unsupported(m, after.machine, c, k)
        } else if !coverable(m, out_offset@, out_len@) {
            &&& r matches Err(c)
            &&& c == Control::Exit(ExitReason::Fatal(ExitFatal::NotSupported))
            &&& after.machine.stack@ == rest(m, k)
            &&& after.machine.return_range == m.return_range
            &&& after.machine.memory@ == covering(m.memory@, in_offset, in_len)
        } else {
            &&& after.machine.stack@ == rest(m, k)
            &&& after.machine.return_range == m.return_range
            &&& after.machine.memory@ == covering(
                covering(m.memory@, in_offset, in_len),
                out_offset@,
                out_len@,
            )
            &&& r matches Ok(request)
            &&& request.code_address == to
            &&& request.transfer == call_transfer(before.context, scheme, to, value)
            &&& request.input@ == window(after.machine.memory@, in_offset, in_len)
            &&& request.target_gas == (if gas <= usize::MAX {
                Some(gas as usize)
            } else {
                None
            })
            &&& request.is_static == (scheme is StaticCall)
            &&& request.context == call_context(before.context, scheme, to, value)
            &&& request.out_offset == out_offset
            &&& request.out_len == out_len
        }
    }
}

/// Runs the first half of a call.
pub fn prepare_call(runtime: &mut Runtime, scheme: CallScheme) -> (r: Result<CallRequest, Control>)
    requires
        old(runtime).wf(),
    ensures
        final(runtime).wf(),
        final(runtime).follows(*old(runtime)),
        final(runtime).machine.position == old(runtime).machine.position,
        prepare_call_spec(*old(runtime), *final(runtime), scheme, r),
{
    runtime.return_data_buffer = Vec::new();
    let with_value = match scheme {
        CallScheme::Call | CallScheme::CallCode => true,
        _ => false,
    };
    let k: usize = if with_value {
        7
    } else {
        6
    };
    let args = match pop_args(&mut runtime.machine, k) {
        Some(a) => a,
        None => {
            return Err(Control::Exit(ExitReason::Error(ExitError::StackUnderflow)));
        },
    };
    let target_gas = args[0].to_usize();
    let to = Address::from_word(args[1]);
    let value = if with_value {
        args[2]
    } else {
        Word::zero()
    };
    let in_offset = args[k - 4];
    let in_len = args[k - 3];
    let out_offset = args[k - 2];
    let out_len = args[k - 1];
    match runtime.machine.memory.resize_offset(in_offset, in_len) {
        Ok(()) => {},
        Err(e) => {
            return Err(Control::Exit(ExitReason::Fatal(e)));
        },
    }
    match runtime.machine.memory.resize_offset(out_offset, out_len) {
        Ok(()) => {},
        Err(e) => {
            return Err(Control::Exit(ExitReason::Fatal(e)));
        },
    }
    let input = read_window(&runtime.machine, in_offset, in_len);
    let current = runtime.context;
    let context = match scheme {
        CallScheme::Call => Context { address: to, caller: current.address, apparent_value: value },
        CallScheme::CallCode => Context {
            address: current.address,
            caller: current.address,
            apparent_value: value,
        },
        CallScheme::DelegateCall => current,
        CallScheme::StaticCall => Context {
            address: to,
            caller: current.address,
            apparent_value: Word::zero(),
        },
    };
    let transfer = match scheme {
        CallScheme::Call => Some(Transfer { source: current.address, target: to, value }),
        _ => None,
    };
    let is_static = match scheme {
        CallScheme::StaticCall => true,
        _ => false,
    };
    Ok(
        CallRequest {
            code_address: to,
            transfer,
            input,
            target_gas,
            is_static,
            context,
            out_offset,
            out_len,
        },
    )
}

/// The number of bytes of output that a call takes: as many as were returned, but no more than
/// the caller asked for.
pub open spec fn taken(out_len: Word, data: Seq<u8>) -> nat {
    if out_len@ < data.len() {
        out_len@
    } else {
        data.len()
    }
}

/// Whether the output of a call reaches the memory: the nested frame succeeded or reverted,
/// and the window is empty or does not end past the limit of the memory.
pub open spec fn output_lands(
    before: Runtime,
    reason: ExitReason,
    data: Seq<u8>,
    out_offset: Word,
    out_len: Word,
) -> bool {
    (reason is Succeed || reason is Revert) && (taken(out_len, data) == 0 || out_offset@ + taken(
        out_len,
        data,
    ) <= before.machine.memory.spec_limit())
}

/// The second half of a call, for a nested frame that ended with `reason` and returned `data`:
/// the data becomes the return data buffer; the output is copied to the window that the caller
/// chose, which does not grow the memory; and one is pushed if the frame succeeded and its
/// output reached the memory, else zero. A fatal exit ends this frame too.
pub open spec fn finish_call_spec(
    before: Runtime,
    after: Runtime,
    reason: ExitReason,
    data: Seq<u8>,
    out_offset: Word,
    out_len: Word,
    r: Control,
) -> bool {
    let m = before.machine;
    let lands = output_lands(before, reason, data, out_offset, out_len);
    &&& after.context == before.context
    &&& after.status == before.status
    &&& after.pending.is_none()
    &&& after.return_data_buffer@ == data
    &&& after.machine.return_range == m.return_range
    &&& after.machine.memory@ == if lands {
        copied(m.memory@, out_offset@, data, 0, taken(out_len, data))
    } else {
        m.memory@
    }
    &&& if m.stack@.len() < m.stack.spec_limit() {
        &&& after.machine.stack@ == m.stack@.push(truth(reason is Succeed && lands))
        &&& r == match reason {
            ExitReason::Fatal(e) => Control::Exit(ExitReason::Fatal(e)),
            _ => Control::Continue(0),
        }
    } else {
        &&& after.machine.stack@ == m.stack@
        &&& r == Control::Exit(ExitReason::Error(ExitError::StackOverflow))
    }
}

/// Runs the second half of a call.
pub fn finish_call(
    runtime: &mut Runtime,
    reason: ExitReason,
    return_data: Vec<u8>,
    out_offset: Word,
    out_len: Word,
) -> (r: Control)
    requires
        old(runtime).wf(),
    ensures
        final(runtime).wf(),
        final(runtime).follows(*old(runtime)),
        final(runtime).machine.position == old(runtime).machine.position,
        finish_call_spec(
            *old(runtime),
            *final(runtime),
            reason,
            return_data@,
            out_offset,
            out_len,
            r,
        ),
{
    runtime.pending = None;
    runtime.return_data_buffer = return_data;
    let held = Word::from_usize(runtime.return_data_buffer.len());
    let target_len = if out_len.lt(held) {
        out_len
    } else {
        held
    };
    let copies = match reason {
        ExitReason::Succeed(_) => true,
        ExitReason::Revert(_) => true,
        _ => false,
    };
    let mut lands = false;
    if copies {
        match runtime.machine.memory.copy_large(
            out_offset,
            Word::zero(),
            target_len,
            runtime.return_data_buffer.as_slice(),
        ) {
            Ok(()) => {
                lands = true;
            },
            Err(_) => {},
        }
    }
    let flag = match reason {
        ExitReason::Succeed(_) => lands,
        _ => false,
    };
    let r = push_word(&mut runtime.machine, Word::from_bool(flag), 0);
    match reason {
        ExitReason::Fatal(e) => match r {
            Control::Continue(_) => Control::Exit(ExitReason::Fatal(e)),
            _ => r,
        },
        _ => r,
    }
}

/// After the first half of a call has gone through, the second half, for a nested frame that
/// succeeded or reverted, goes on, puts one on the stack for success and zero for a revert, keeps
/// the data as the return data buffer, and copies as much of the data as the caller asked for to
/// the output window, and nothing past it.
pub proof fn lemma_call_output(
    before: Runtime,
    mid: Runtime,
    after: Runtime,
    scheme: CallScheme,
    request: CallRequest,
    reason: ExitReason,
    data: Seq<u8>,
    c: Control,
)
    requires
        before.wf(),
        mid.machine.follows(before.machine),
        prepare_call_spec(before, mid, scheme, Ok::<CallRequest, Control>(request)),
        finish_call_spec(mid, after, reason, data, request.out_offset, request.out_len, c),
        reason is Succeed || reason is Revert,
    ensures
        c == Control::Continue(0),
        after.machine.stack@ == rest(before.machine, call_arity(scheme)).push(
            truth(reason is Succeed),
        ),
        after.return_data_buffer@ == data,
        after.machine.memory@ == copied(
            mid.machine.memory@,
            request.out_offset@,
            data,
            0,
            taken(request.out_len, data),
        ),
{
    before.machine.memory.lemma_limit_bounded();
}

/// A call. The first half runs; if it gave a request, the handler is asked. An answer goes
/// through the second half. An interrupt is handed on, and the frame waits for the result of
/// the call, remembering where its output is to go.
pub open spec fn call_spec<H: Handler>(
    before: Runtime,
    after: Runtime,
    scheme: CallScheme,
    r: Outcome<H>,
) -> bool {
    exists|mid: Runtime, p: Result<CallRequest, Control>|
        {
            &&& #[trigger] prepare_call_spec(before, mid, scheme, p)
            &&& mid.machine.follows(before.machine)
            &&& match p {
                Err(c) => after == mid && r == lifted::<H>(c),
                Ok(request) => {
                    ||| r is CallInterrupt && after == (Runtime {
                        pending: Some(
                            Pending::Call {
                                out_offset: request.out_offset,
                                out_len: request.out_len,
                            },
                        ),
                        ..mid
                    })
                    ||| exists|reason: ExitReason, data: Seq<u8>, c: Control|
                        {
                            &&& #[trigger] finish_call_spec(
                                mid,
                                after,
                                reason,
                                data,
                                request.out_offset,
                                request.out_len,
                                c,
                            )
                            &&& r == lifted::<H>(c)
                        }
                },
            }
        }
}

/// Executes `CALL`, `CALLCODE`, `DELEGATECALL` or `STATICCALL`.
pub fn call<H: Handler>(runtime: &mut Runtime, scheme: CallScheme, handler: &mut H) -> (r: Outcome<
    H,
>)
    requires
        old(runtime).wf(),
    ensures
        final(runtime).wf(),
        final(runtime).follows(*old(runtime)),
        final(runtime).machine.position == old(runtime).machine.position,
        call_spec(*old(runtime), *final(runtime), scheme, r),
{
    let p = prepare_call(runtime, scheme);
    let ghost mid = *runtime;
    let ghost shown = p;
    assert(prepare_call_spec(*old(runtime), mid, scheme, shown));
    match p {
        Err(c) => match c {
            Control::Exit(e) => Outcome::Exit(e),
            _ => Outcome::Continue,
        },
        Ok(request) => {
            let out_offset = request.out_offset;
            let out_len = request.out_len;
            match handler.call(
                request.code_address,
                request.transfer,
                request.input,
                request.target_gas,
                request.is_static,
                request.context,
            ) {
                Capture::Exit((reason, return_data)) => {
                    let c = finish_call(runtime, reason, return_data, out_offset, out_len);
                    assert(finish_call_spec(
                        mid,
                        *runtime,
                        reason,
                        return_data@,
                        out_offset,
                        out_len,
                        c,
                    ));
                    match c {
                        Control::Exit(e) => Outcome::Exit(e),
                        _ => Outcome::Continue,
                    }
                },
                Capture::Trap(interrupt) => {
                    runtime.pending = Some(Pending::Call { out_offset, out_len });
                    Outcome::CallInterrupt(interrupt)
                },
            }
        },
    }
}

} // verus!
