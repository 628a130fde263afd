//! Code and call data, memory, jumps, and the stack instructions.

use vstd::prelude::*;
use crate::eval::{
    arg, coverable, covering, memory_kept, pop_args, push_word, pushes, replaces, rest,
    underflows, unsupported, Control,
};
use crate::exit::{ExitError, ExitFatal, ExitReason, ExitRevert, ExitSucceed};
use crate::machine::{Machine, MemoryRange};
use crate::memory::{copied, read, written};
use crate::valids::valid_jumpdest;
use crate::word::{be_bytes, be_value, pow256, Word};

verus! {

/// `CODESIZE` pushes the length of the code.
pub open spec fn codesize_spec(before: Machine, after: Machine, r: Control) -> bool {
    pushes(before, after, r, Word::of(before.code@.len()), 1)
}

/// Executes `CODESIZE`.
pub fn codesize(state: &mut Machine) -> (r: Control)
    requires
        old(state).wf(),
    ensures
        final(state).wf(),
        final(state).follows(*old(state)),
        final(state).position == old(state).position,
        codesize_spec(*old(state), *final(state), r),
{
    let size = Word::from_usize(state.code.len());
    push_word(state, size, 1)
}

/// A copy instruction pops destination, source offset and length, grows the memory to cover the
/// destination, and copies from `source`, reading zero past its end. A copy of no bytes does
/// nothing but pop, whatever the destination.
pub open spec fn copy_spec(before: Machine, after: Machine, r: Control, source: Seq<u8>) -> bool {
    if before.stack@.len() < 3 {
        underflows(before, after, r)
    } else {
        let dst = arg(before, 0)@;
        let src = arg(before, 1)@;
        let len = arg(before, 2)@;
        if coverable(before, dst, len) {
            &&& r == Control::Continue(1)
            &&& after.stack@ == rest(before, 3)
            &&& after.return_range == before.return_range
            &&& after.memory@ == copied(covering(before.memory@, dst, len), dst, source, src, len)
        } else {
            unsupported(before, after, r, 3)
        }
    }
}

/// `CODECOPY` copies from the code.
pub open spec fn codecopy_spec(before: Machine, after: Machine, r: Control) -> bool {
    copy_spec(before, after, r, before.code@)
}

/// Executes `CODECOPY`.
pub fn codecopy(state: &mut Machine) -> (r: Control)
    requires
        old(state).wf(),
    ensures
        final(state).wf(),
        final(state).follows(*old(state)),
        final(state).position == old(state).position,
        codecopy_spec(*old(state), *final(state), r),
{
    let args = match pop_args(state, 3) {
        Some(a) => a,
        None => {
            return Control::Exit(ExitReason::Error(ExitError::StackUnderflow));
        },
    };
    let memory_offset = args[0];
    let code_offset = args[1];
    let len = args[2];
    match state.memory.resize_offset(memory_offset, len) {
        Ok(()) => {},
        Err(e) => {
            return Control::Exit(ExitReason::Fatal(e));
        },
    }
    match state.memory.copy_large(memory_offset, code_offset, len, state.code.as_slice()) {
        Ok(()) => Control::Continue(1),
        Err(e) => Control::Exit(ExitReason::Fatal(e)),
    }
}

/// Copies from the code of another account, which the caller has fetched: pops destination,
/// source offset and length like `CODECOPY`, and copies from `source`.
pub fn copy_from(state: &mut Machine, source: &[u8]) -> (r: Control)
    requires
        old(state).wf(),
    ensures
        final(state).wf(),
        final(state).follows(*old(state)),
        final(state).position == old(state).position,
        copy_spec(*old(state), *final(state), r, source@),
{
    let args = match pop_args(state, 3) {
        Some(a) => a,
        None => {
            return Control::Exit(ExitReason::Error(ExitError::StackUnderflow));
        },
    };
    let memory_offset = args[0];
    let code_offset = args[1];
    let len = args[2];
    match state.memory.resize_offset(memory_offset, len) {
        Ok(()) => {},
        Err(e) => {
            return Control::Exit(ExitReason::Fatal(e));
        },
    }
    match state.memory.copy_large(memory_offset, code_offset, len, source) {
        Ok(()) => Control::Continue(1),
        Err(e) => Control::Exit(ExitReason::Fatal(e)),
    }
}

/// `CALLDATALOAD` pops an index and pushes the 32 bytes of call data from there on, read as
/// one number, where every byte past the end of the call data is zero.
pub open spec fn calldataload_spec(before: Machine, after: Machine, r: Control) -> bool {
    replaces(
        before,
        after,
        r,
        1,
        Word::of(be_value(read(before.data@, arg(before, 0)@, 32))),
    )
}

/// Executes `CALLDATALOAD`.
pub fn calldataload(state: &mut Machine) -> (r: Control)
    requires
        old(state).wf(),
    ensures
        final(state).wf(),
        final(state).follows(*old(state)),
        final(state).position == old(state).position,
        calldataload_spec(*old(state), *final(state), r),
{
    let args = match pop_args(state, 1) {
        Some(a) => a,
        None => {
            return Control::Exit(ExitReason::Error(ExitError::StackUnderflow));
        },
    };
    let index = args[0];
    let start = index.to_usize();
    let held: usize = state.data.len();
    let mut load: Vec<u8> = Vec::new();
    let mut i: usize = 0;
    while i < 32
        invariant
            i <= 32,
            held == state.data@.len(),
            match start {
                Some(p) => p as nat == index@,
                None => index@ > usize::MAX as nat,
            },
            load@.len() == i,
            forall|j: int| 0 <= j < i ==> load@[j] == read(state.data@, index@, 32)[j],
        decreases 32 - i,
    {
        let b: u8 = match start {
            Some(p) => if p < held && i < held - p {
                state.data[p + i]
            } else {
                0u8
            },
            None => 0u8,
        };
        load.push(b);
        i = i + 1;
    }
    assert(load@ =~= read(state.data@, index@, 32));
    let value = Word::from_big_endian(load.as_slice());
    push_word(state, value, 1)
}

/// `CALLDATASIZE` pushes the length of the call data.
pub open spec fn calldatasize_spec(before: Machine, after: Machine, r: Control) -> bool {
    pushes(before, after, r, Word::of(before.data@.len()), 1)
}

/// Executes `CALLDATASIZE`.
pub fn calldatasize(state: &mut Machine) -> (r: Control)
    requires
        old(state).wf(),
    ensures
        final(state).wf(),
        final(state).follows(*old(state)),
        final(state).position == old(state).position,
        calldatasize_spec(*old(state), *final(state), r),
{
    let len = Word::from_usize(state.data.len());
    push_word(state, len, 1)
}

/// `CALLDATACOPY` copies from the call data.
pub open spec fn calldatacopy_spec(before: Machine, after: Machine, r: Control) -> bool {
    copy_spec(before, after, r, before.data@)
}

/// Executes `CALLDATACOPY`.
pub fn calldatacopy(state: &mut Machine) -> (r: Control)
    requires
        old(state).wf(),
    ensures
        final(state).wf(),
        final(state).follows(*old(state)),
        final(state).position == old(state).position,
        calldatacopy_spec(*old(state), *final(state), r),
{
    let args = match pop_args(state, 3) {
        Some(a) => a,
        None => {
            return Control::Exit(ExitReason::Error(ExitError::StackUnderflow));
        },
    };
    let memory_offset = args[0];
    let data_offset = args[1];
    let len = args[2];
    match state.memory.resize_offset(memory_offset, len) {
        Ok(()) => {},
        Err(e) => {
            return Control::Exit(ExitReason::Fatal(e));
        },
    }
    if len.is_zero() {
        assert(state.memory@ =~= copied(
            old(state).memory@,
            memory_offset@,
            old(state).data@,
            data_offset@,
            0,
        ));
        return Control::Continue(1);
    }
    match state.memory.copy_large(memory_offset, data_offset, len, state.data.as_slice()) {
        Ok(()) => Control::Continue(1),
        Err(e) => Control::Exit(ExitReason::Fatal(e)),
    }
}

/// `POP` takes the top word off.
pub open spec fn pop_spec(before: Machine, after: Machine, r: Control) -> bool {
    if before.stack@.len() < 1 {
        underflows(before, after, r)
    } else {
        &&& r == Control::Continue(1)
        &&& after.stack@ == rest(before, 1)
        &&& memory_kept(before, after)
    }
}

/// Executes `POP`.
pub fn pop(state: &mut Machine) -> (r: Control)
    requires
        old(state).wf(),
    ensures
        final(state).wf(),
        final(state).follows(*old(state)),
        final(state).position == old(state).position,
        pop_spec(*old(state), *final(state), r),
{
    match pop_args(state, 1) {
        Some(_) => Control::Continue(1),
        None => Control::Exit(ExitReason::Error(ExitError::StackUnderflow)),
    }
}

/// `MLOAD` pops an index, grows the memory to cover the 32 bytes there, and pushes them, read as
/// one number.
pub open spec fn mload_spec(before: Machine, after: Machine, r: Control) -> bool {
    if before.stack@.len() < 1 {
        underflows(before, after, r)
    } else {
        let index = arg(before, 0)@;
        if before.memory.can_cover(index, 32) {
            &&& r == Control::Continue(1)
            &&& after.return_range == before.return_range
            &&& after.memory@ == covering(before.memory@, index, 32)
            &&& after.stack@ == rest(before, 1).push(
                Word::of(be_value(read(after.memory@, index, 32))),
            )
        } else {
            unsupported(before, after, r, 1)
        }
    }
}

/// Executes `MLOAD`.
pub fn mload(state: &mut Machine) -> (r: Control)
    requires
        old(state).wf(),
    ensures
        final(state).wf(),
        final(state).follows(*old(state)),
        final(state).position == old(state).position,
        mload_spec(*old(state), *final(state), r),
{
    let args = match pop_args(state, 1) {
        Some(a) => a,
        None => {
            return Control::Exit(ExitReason::Error(ExitError::StackUnderflow));
        },
    };
    let index = args[0];
    match state.memory.resize_offset(index, Word::from_u64(32)) {
        Ok(()) => {},
        Err(e) => {
            return Control::Exit(ExitReason::Fatal(e));
        },
    }
    let at = match index.to_usize() {
        Some(v) => v,
        None => {
            return Control::Exit(ExitReason::Fatal(ExitFatal::NotSupported));
        },
    };
    let bytes = state.memory.get(at, 32);
    let value = Word::from_big_endian(bytes.as_slice());
    push_word(state, value, 1)
}

/// `MSTORE` pops an index and a word, grows the memory to cover the 32 bytes at the index, and
/// writes the word there, most significant byte first.
pub open spec fn mstore_spec(before: Machine, after: Machine, r: Control) -> bool {
    if before.stack@.len() < 2 {
        underflows(before, after, r)
    } else {
        let index = arg(before, 0)@;
        if before.memory.can_cover(index, 32) {
            &&& r == Control::Continue(1)
            &&& after.return_range == before.return_range
            &&& after.stack@ == rest(before, 2)
            &&& after.memory@ == written(
                covering(before.memory@, index, 32),
                index,
                be_bytes(arg(before, 1)@, 32),
                32,
            )
        } else {
            unsupported(before, after, r, 2)
        }
    }
}

/// Executes `MSTORE`.
pub fn mstore(state: &mut Machine) -> (r: Control)
    requires
        old(state).wf(),
    ensures
        final(state).wf(),
        final(state).follows(*old(state)),
        final(state).position == old(state).position,
        mstore_spec(*old(state), *final(state), r),
{
    let args = match pop_args(state, 2) {
        Some(a) => a,
        None => {
            return Control::Exit(ExitReason::Error(ExitError::StackUnderflow));
        },
    };
    let index = args[0];
    let value = args[1];
    match state.memory.resize_offset(index, Word::from_u64(32)) {
        Ok(()) => {},
        Err(e) => {
            return Control::Exit(ExitReason::Fatal(e));
        },
    }
    let at = match index.to_usize() {
        Some(v) => v,
        None => {
            return Control::Exit(ExitReason::Fatal(ExitFatal::NotSupported));
        },
    };
    let bytes = value.to_big_endian();
    match state.memory.set(at, bytes.as_slice(), 32) {
        Ok(()) => Control::Continue(1),
        Err(e) => Control::Exit(ExitReason::Fatal(e)),
    }
}

/// `MSTORE8` pops an index and a word, grows the memory to cover the byte at the index, and
/// writes the least significant byte of the word there.
pub open spec fn mstore8_spec(before: Machine, after: Machine, r: Control) -> bool {
    if before.stack@.len() < 2 {
        underflows(before, after, r)
    } else {
        let index = arg(before, 0)@;
        if before.memory.can_cover(index, 1) {
            &&& r == Control::Continue(1)
            &&& after.return_range == before.return_range
            &&& after.stack@ == rest(before, 2)
            &&& after.memory@ == written(
                covering(before.memory@, index, 1),
                index,
                seq![(arg(before, 1)@ % 256) as u8],
                1,
            )
        } else {
            unsupported(before, after, r, 2)
        }
    }
}

/// Executes `MSTORE8`.
pub fn mstore8(state: &mut Machine) -> (r: Control)
    requires
        old(state).wf(),
    ensures
        final(state).wf(),
        final(state).follows(*old(state)),
        final(state).position == old(state).position,
        mstore8_spec(*old(state), *final(state), r),
{
    let args = match pop_args(state, 2) {
        Some(a) => a,
        None => {
            return Control::Exit(ExitReason::Error(ExitError::StackUnderflow));
        },
    };
    let index = args[0];
    let value = args[1];
    match state.memory.resize_offset(index, Word::one()) {
        Ok(()) => {},
        Err(e) => {
            return Control::Exit(ExitReason::Fatal(e));
        },
    }
    let at = match index.to_usize() {
        Some(v) => v,
        None => {
            return Control::Exit(ExitReason::Fatal(ExitFatal::NotSupported));
        },
    };
    let mut byte: Vec<u8> = Vec::new();
    byte.push(value.low_u8());
    assert(byte@ =~= seq![(value@ % 256) as u8]);
    match state.memory.set(at, byte.as_slice(), 1) {
        Ok(()) => Control::Continue(1),
        Err(e) => Control::Exit(ExitReason::Fatal(e)),
    }
}

/// Where a jump to `dest` leads: to `dest` where the code may be entered there, else to the end
/// of the frame.
pub open spec fn jump_to(before: Machine, dest: nat) -> Control {
    if valid_jumpdest(before.code@, dest as int) {
        Control::Jump(dest as usize)
    } else {
        Control::Exit(ExitReason::Error(ExitError::InvalidJump))
    }
}

/// `JUMP` pops a destination and jumps there.
pub open spec fn jump_spec(before: Machine, after: Machine, r: Control) -> bool {
    if before.stack@.len() < 1 {
        underflows(before, after, r)
    } else {
        &&& r == jump_to(before, arg(before, 0)@)
        &&& after.stack@ == rest(before, 1)
        &&& memory_kept(before, after)
    }
}

/// Executes `JUMP`.
pub fn jump(state: &mut Machine) -> (r: Control)
    requires
        old(state).wf(),
    ensures
        final(state).wf(),
        final(state).follows(*old(state)),
        final(state).position == old(state).position,
        jump_spec(*old(state), *final(state), r),
{
    let args = match pop_args(state, 1) {
        Some(a) => a,
        None => {
            return Control::Exit(ExitReason::Error(ExitError::StackUnderflow));
        },
    };
    let held: usize = state.code.len();
    let dest = match args[0].to_usize() {
        Some(v) => v,
        None => {
            assert(args[0]@ > held);
            return Control::Exit(ExitReason::Error(ExitError::InvalidJump));
        },
    };
    if state.valids.is_valid(dest) {
        Control::Jump(dest)
    } else {
        Control::Exit(ExitReason::Error(ExitError::InvalidJump))
    }
}

/// `JUMPI` pops a destination and a condition, and jumps where the condition is not zero.
pub open spec fn jumpi_spec(before: Machine, after: Machine, r: Control) -> bool {
    if before.stack@.len() < 2 {
        underflows(before, after, r)
    } else {
        &&& r == if arg(before, 1)@ == 0 {
            Control::Continue(1)
        } else {
            jump_to(before, arg(before, 0)@)
        }
        &&& after.stack@ == rest(before, 2)
        &&& memory_kept(before, after)
    }
}

/// Executes `JUMPI`.
pub fn jumpi(state: &mut Machine) -> (r: Control)
    requires
        old(state).wf(),
    ensures
        final(state).wf(),
        final(state).follows(*old(state)),
        final(state).position == old(state).position,
        jumpi_spec(*old(state), *final(state), r),
{
    let args = match pop_args(state, 2) {
        Some(a) => a,
        None => {
            return Control::Exit(ExitReason::Error(ExitError::StackUnderflow));
        },
    };
    let value = args[1];
    if value.is_zero() {
        return Control::Continue(1);
    }
    let held: usize = state.code.len();
    let dest = match args[0].to_usize() {
        Some(v) => v,
        None => {
            assert(args[0]@ > held);
            return Control::Exit(ExitReason::Error(ExitError::InvalidJump));
        },
    };
    if state.valids.is_valid(dest) {
        Control::Jump(dest)
    } else {
        Control::Exit(ExitReason::Error(ExitError::InvalidJump))
    }
}

/// `PC` pushes the position of the instruction itself.
pub open spec fn pc_spec(before: Machine, after: Machine, r: Control, position: usize) -> bool {
    pushes(before, after, r, Word::of(position as nat), 1)
}

/// Executes `PC`, read at `position`.
pub fn pc(state: &mut Machine, position: usize) -> (r: Control)
    requires
        old(state).wf(),
    ensures
        final(state).wf(),
        final(state).follows(*old(state)),
        final(state).position == old(state).position,
        pc_spec(*old(state), *final(state), r, position),
{
    push_word(state, Word::from_usize(position), 1)
}

/// `MSIZE` pushes the effective length of the memory.
pub open spec fn msize_spec(before: Machine, after: Machine, r: Control) -> bool {
    pushes(before, after, r, Word::of(before.memory@.len()), 1)
}

/// Executes `MSIZE`.
pub fn msize(state: &mut Machine) -> (r: Control)
    requires
        old(state).wf(),
    ensures
        final(state).wf(),
        final(state).follows(*old(state)),
        final(state).position == old(state).position,
        msize_spec(*old(state), *final(state), r),
{
    let size = state.memory.effective_len();
    push_word(state, size, 1)
}

/// `PUSHn` at `position` pushes the `n` bytes that follow it, read as one number, where every
/// byte past the end of the code is zero, and moves on past them.
pub open spec fn push_spec(
    before: Machine,
    after: Machine,
    r: Control,
    n: usize,
    position: usize,
) -> bool {
    pushes(
        before,
        after,
        r,
        Word::of(be_value(read(before.code@, (position + 1) as nat, n as nat))),
        (1 + n) as usize,
    )
}

/// Executes `PUSHn`, read at `position`.
pub fn push(state: &mut Machine, n: usize, position: usize) -> (r: Control)
    requires
        old(state).wf(),
        n <= 32,
        position < old(state).code@.len(),
    ensures
        final(state).wf(),
        final(state).follows(*old(state)),
        final(state).position == old(state).position,
        push_spec(*old(state), *final(state), r, n, position),
{
    let held: usize = state.code.len();
    let after: usize = held - position - 1;
    let mut bytes: Vec<u8> = Vec::new();
    let mut i: usize = 0;
    while i < n
        invariant
            i <= n <= 32,
            position < held,
            held == state.code@.len(),
            after == held - position - 1,
            bytes@.len() == i,
            forall|j: int|
                0 <= j < i ==> bytes@[j] == read(state.code@, (position + 1) as nat, n as nat)[j],
        decreases n - i,
    {
        let b: u8 = if i < after {
            state.code[position + 1 + i]
        } else {
            0u8
        };
        bytes.push(b);
        i = i + 1;
    }
    assert(bytes@ =~= read(state.code@, (position + 1) as nat, n as nat));
    let value = Word::from_big_endian(bytes.as_slice());
    push_word(state, value, 1 + n)
}

/// `DUPn` pushes a copy of the word `n - 1` places below the top.
pub open spec fn dup_spec(before: Machine, after: Machine, r: Control, n: usize) -> bool {
    if before.stack@.len() < n {
        &&& r == Control::Exit(ExitReason::Error(ExitError::StackUnderflow))
        &&& after.stack@ == before.stack@
        &&& memory_kept(before, after)
    } else {
        pushes(before, after, r, arg(before, n - 1), 1)
    }
}

/// Executes `DUPn`.
pub fn dup(state: &mut Machine, n: usize) -> (r: Control)
    requires
        old(state).wf(),
        1 <= n,
    ensures
        final(state).wf(),
        final(state).follows(*old(state)),
        final(state).position == old(state).position,
        dup_spec(*old(state), *final(state), r, n),
{
    let value = match state.stack.peek(n - 1) {
        Ok(value) => value,
        Err(e) => {
            return Control::Exit(ExitReason::Error(e));
        },
    };
    push_word(state, value, 1)
}

/// `SWAPn` exchanges the top word with the word `n` places below it.
pub open spec fn swap_spec(before: Machine, after: Machine, r: Control, n: usize) -> bool {
    &&& memory_kept(before, after)
    &&& if before.stack@.len() <= n {
        &&& r == Control::Exit(ExitReason::Error(ExitError::StackUnderflow))
        &&& after.stack@ == before.stack@
    } else {
        let top = before.stack@.len() - 1;
        &&& r == Control::Continue(1)
        &&& after.stack@ == before.stack@.update(top, arg(before, n as int)).update(
            top - n,
            arg(before, 0),
        )
    }
}

/// Executes `SWAPn`.
pub fn swap(state: &mut Machine, n: usize) -> (r: Control)
    requires
        old(state).wf(),
    ensures
        final(state).wf(),
        final(state).follows(*old(state)),
        final(state).position == old(state).position,
        swap_spec(*old(state), *final(state), r, n),
{
    let val1 = match state.stack.peek(0) {
        Ok(value) => value,
        Err(e) => {
            return Control::Exit(ExitReason::Error(e));
        },
    };
    let val2 = match state.stack.peek(n) {
        Ok(value) => value,
        Err(e) => {
            return Control::Exit(ExitReason::Error(e));
        },
    };
    match state.stack.set(0, val2) {
        Ok(()) => (),
        Err(e) => {
            return Control::Exit(ExitReason::Error(e));
        },
    }
    match state.stack.set(n, val1) {
        Ok(()) => (),
        Err(e) => {
            return Control::Exit(ExitReason::Error(e));
        },
    }
    Control::Continue(1)
}

/// `RETURN` and `REVERT` pop a start and a length, grow the memory to cover that window,
/// record it as the return window, and end the frame for `reason`.
pub open spec fn finish_spec(
    before: Machine,
    after: Machine,
    r: Control,
    reason: ExitReason,
) -> bool {
    if before.stack@.len() < 2 {
        underflows(before, after, r)
    } else {
        let start = arg(before, 0);
        let len = arg(before, 1);
        if coverable(before, start@, len@) {
            &&& r == Control::Exit(reason)
            &&& after.stack@ == rest(before, 2)
            &&& after.memory@ == covering(before.memory@, start@, len@)
            &&& after.return_range == (MemoryRange { start, end: Word::of(start@ + len@) })
        } else {
            unsupported(before, after, r, 2)
        }
    }
}

/// `RETURN` ends the frame with success.
pub open spec fn ret_spec(before: Machine, after: Machine, r: Control) -> bool {
    finish_spec(before, after, r, ExitReason::Succeed(ExitSucceed::Returned))
}

/// `REVERT` ends the frame and asks for its effects to be undone.
pub open spec fn revert_spec(before: Machine, after: Machine, r: Control) -> bool {
    finish_spec(before, after, r, ExitReason::Revert(ExitRevert::Reverted))
}

fn finish(state: &mut Machine, reason: ExitReason) -> (r: Control)
    requires
        old(state).wf(),
    ensures
        final(state).wf(),
        final(state).follows(*old(state)),
        final(state).position == old(state).position,
        finish_spec(*old(state), *final(state), r, reason),
{
    let args = match pop_args(state, 2) {
        Some(a) => a,
        None => {
            return Control::Exit(ExitReason::Error(ExitError::StackUnderflow));
        },
    };
    let start = args[0];
    let len = args[1];
    match state.memory.resize_offset(start, len) {
        Ok(()) => {},
        Err(e) => {
            return Control::Exit(ExitReason::Fatal(e));
        },
    }
    let end = start.wrapping_add(len);
    proof {
        end.lemma_of_view();
        Word::lemma_view_of(start@ + len@);
        state.memory.lemma_limit_bounded();
    }
    state.return_range = MemoryRange { start, end };
    Control::Exit(reason)
}

/// Executes `RETURN`.
pub fn ret(state: &mut Machine) -> (r: Control)
    requires
        old(state).wf(),
    ensures
        final(state).wf(),
        final(state).follows(*old(state)),
        final(state).position == old(state).position,
        ret_spec(*old(state), *final(state), r),
{
    finish(state, ExitReason::Succeed(ExitSucceed::Returned))
}

/// Executes `REVERT`.
pub fn revert(state: &mut Machine) -> (r: Control)
    requires
        old(state).wf(),
    ensures
        final(state).wf(),
        final(state).follows(*old(state)),
        final(state).position == old(state).position,
        revert_spec(*old(state), *final(state), r),
{
    finish(state, ExitReason::Revert(ExitRevert::Reverted))
}

/// Digits that are all zero denote zero.
pub proof fn lemma_be_value_zeros(bytes: Seq<u8>)
    requires
        forall|i: int| 0 <= i < bytes.len() ==> bytes[i] == 0,
    ensures
        be_value(bytes) == 0,
    decreases bytes.len(),
{
    if bytes.len() > 0 {
        lemma_be_value_zeros(bytes.drop_last());
    }
}

/// Digits followed by zeros up to `n` digits denote the number of the digits alone, moved up
/// by as many places as there are zeros.
pub proof fn lemma_be_value_padded(bytes: Seq<u8>, n: nat)
    requires
        bytes.len() <= n,
    ensures
        be_value(crate::memory::padded(bytes, n)) == be_value(bytes) * pow256(
            (n - bytes.len()) as nat,
        ),
    decreases n - bytes.len(),
{
    let whole = crate::memory::padded(bytes, n);
    if bytes.len() == n {
        assert(whole =~= bytes);
        assert(pow256(0) == 1);
        assert(be_value(bytes) * 1 == be_value(bytes)) by (nonlinear_arith);
    } else {
        lemma_be_value_padded(bytes, (n - 1) as nat);
        assert(whole.drop_last() =~= crate::memory::padded(bytes, (n - 1) as nat));
        assert(whole.last() == 0);
        let v = be_value(bytes) as int;
        let p = pow256((n - 1 - bytes.len()) as nat) as int;
        assert(pow256((n - bytes.len()) as nat) == 256 * p);
        assert(be_value(whole) == be_value(whole.drop_last()) * 256 + whole.last() as nat);
        assert(be_value(whole.drop_last()) == v * p);
        let q = pow256((n - bytes.len()) as nat) as int;
        assert(be_value(whole) == v * q) by (nonlinear_arith)
            requires
                be_value(whole) == v * p * 256,
                q == 256 * p,
        ;
    }
}

/// `CALLDATALOAD` at an index at or past the end of the call data pushes zero.
pub proof fn lemma_calldataload_past_end(before: Machine, after: Machine, r: Control)
    requires
        calldataload_spec(before, after, r),
        before.stack@.len() >= 1,
        arg(before, 0)@ >= before.data@.len(),
    ensures
        r == Control::Continue(1),
        after.stack@ == rest(before, 1).push(Word::of(0)),
{
    lemma_be_value_zeros(read(before.data@, arg(before, 0)@, 32));
}

/// A `PUSHn` whose immediate bytes run past the end of the code pushes the bytes that are
/// there, followed by zero bytes up to `n` bytes: the number of the bytes that are there, moved
/// up by the number of places that are missing.
pub proof fn lemma_push_past_end(
    before: Machine,
    after: Machine,
    r: Control,
    n: usize,
    position: usize,
)
    requires
        push_spec(before, after, r, n, position),
        before.stack@.len() < before.stack.spec_limit(),
        position < before.code@.len(),
        position + 1 + n > before.code@.len(),
    ensures
        ({
            let found = before.code@.subrange(position + 1, before.code@.len() as int);
            &&& read(before.code@, (position + 1) as nat, n as nat) == crate::memory::padded(
                found,
                n as nat,
            )
            &&& after.stack@ == before.stack@.push(
                Word::of(be_value(found) * pow256((n - found.len()) as nat)),
            )
        }),
{
    let found = before.code@.subrange(position + 1, before.code@.len() as int);
    assert(read(before.code@, (position + 1) as nat, n as nat) =~= crate::memory::padded(
        found,
        n as nat,
    ));
    lemma_be_value_padded(found, n as nat);
}

/// `MLOAD` of a word that ends within the limit goes on, and leaves the effective length of the
/// memory a multiple of 32: the greater of what it was and the end of the word, rounded up.
pub proof fn lemma_mload_grows(before: Machine, after: Machine, r: Control)
    requires
        before.memory@.len() % 32 == 0,
        before.stack@.len() >= 1,
        arg(before, 0)@ + 32 <= before.memory.spec_limit(),
        mload_spec(before, after, r),
    ensures
        r == Control::Continue(1),
        after.memory@.len() % 32 == 0,
        after.memory@.len() == if before.memory@.len() >= crate::memory::ceil32(
            (arg(before, 0)@ + 32) as int,
        ) {
            before.memory@.len() as int
        } else {
            crate::memory::ceil32((arg(before, 0)@ + 32) as int)
        },
{
}

/// A word stored with `MSTORE` is the word that `MLOAD` reads at the same index.
pub proof fn lemma_mstore_mload(
    start: Machine,
    stored: Machine,
    asked: Machine,
    loaded: Machine,
    r1: Control,
    r2: Control,
)
    requires
        start.wf(),
        start.stack@.len() >= 2,
        start.memory.can_cover(arg(start, 0)@, 32),
        mstore_spec(start, stored, r1),
        stored.follows(start),
        asked.follows(stored),
        memory_kept(stored, asked),
        asked.stack@ == stored.stack@.push(arg(start, 0)),
        mload_spec(asked, loaded, r2),
    ensures
        r1 == Control::Continue(1),
        r2 == Control::Continue(1),
        loaded.memory@ == stored.memory@,
        loaded.stack@ == stored.stack@.push(arg(start, 1)),
{
    let index = arg(start, 0)@;
    let value = arg(start, 1);
    assert(arg(asked, 0) == arg(start, 0));
    assert(rest(asked, 1) =~= stored.stack@);
    let grown = covering(start.memory@, index, 32);
    assert(grown.len() >= index + 32);
    assert(stored.memory@.len() == grown.len());
    assert(covering(asked.memory@, index, 32) =~= asked.memory@);
    crate::word::lemma_be_bytes_len(value@, 32);
    assert(read(stored.memory@, index, 32) =~= be_bytes(value@, 32));
    crate::word::lemma_be_value_of_bytes(value@, 32);
    crate::word::lemma_pow256_32();
    value.lemma_bounded();
    vstd::arithmetic::div_mod::lemma_small_mod(value@, crate::word::word_modulus());
    value.lemma_of_view();
}

/// A `PUSHn` followed by a `POP` leaves stack and memory as they were.
pub proof fn lemma_push_pop(
    start: Machine,
    pushed: Machine,
    popped: Machine,
    n: usize,
    position: usize,
    r1: Control,
    r2: Control,
)
    requires
        start.stack@.len() < start.stack.spec_limit(),
        push_spec(start, pushed, r1, n, position),
        pop_spec(pushed, popped, r2),
    ensures
        r1 == Control::Continue((1 + n) as usize),
        r2 == Control::Continue(1),
        popped.stack@ == start.stack@,
        popped.memory@ == start.memory@,
        popped.return_range == start.return_range,
{
    assert(rest(pushed, 1) =~= start.stack@);
}

} // verus!
