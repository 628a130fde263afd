//! What each opcode of the frame does to the machine.

pub mod misc;

use vstd::prelude::*;
use vstd::arithmetic::power::pow;
use vstd::arithmetic::power2::pow2;
use crate::arith::{sign_extended, trunc_div, trunc_rem};
use crate::exit::{ExitError, ExitFatal, ExitReason, ExitSucceed};
use crate::machine::Machine;
use crate::memory::{ceil32, grown};
use crate::opcode::Opcode;
use crate::valids::{in_push_data, lemma_jumpdest_outside_push_data, valid_jumpdest};
use crate::word::{be_bytes, Word};

verus! {

/// What the machine does after an instruction.
#[derive(Clone, Copy, PartialEq, Eq, Debug)]
pub enum Control {
    /// Go on, this many bytes further.
    Continue(usize),
    /// Stop, for this reason.
    Exit(ExitReason),
    /// Go on at this position.
    Jump(usize),
}

/// The word that an instruction pops as its argument number `i`, counted from 0: the word `i`
/// places below the top.
pub open spec fn arg(before: Machine, i: int) -> Word {
    before.stack.at_depth(i)
}

/// The stack below the `k` topmost words.
pub open spec fn rest(before: Machine, k: int) -> Seq<Word> {
    before.stack@.subrange(0, before.stack@.len() - k)
}

/// Memory and return window are as they were.
pub open spec fn memory_kept(before: Machine, after: Machine) -> bool {
    &&& after.memory@ == before.memory@
    &&& after.return_range == before.return_range
}

/// The instruction found fewer words than it pops. It took what was there and stopped.
pub open spec fn underflows(before: Machine, after: Machine, r: Control) -> bool {
    &&& r == Control::Exit(ExitReason::Error(ExitError::StackUnderflow))
    &&& after.stack@ == Seq::<Word>::empty()
    &&& memory_kept(before, after)
}

/// The instruction popped `k` words and stopped because the memory cannot cover its range.
pub open spec fn unsupported(before: Machine, after: Machine, r: Control, k: int) -> bool {
    &&& r == Control::Exit(ExitReason::Fatal(ExitFatal::NotSupported))
    &&& after.stack@ == rest(before, k)
    &&& memory_kept(before, after)
}

/// The instruction puts `value` on the stack and moves on by `advance`; on a full stack it stops
/// and changes nothing.
pub open spec fn pushes(
    before: Machine,
    after: Machine,
    r: Control,
    value: Word,
    advance: usize,
) -> bool {
    &&& memory_kept(before, after)
    &&& if before.stack@.len() < before.stack.spec_limit() {
        r == Control::Continue(advance) && after.stack@ == before.stack@.push(value)
    } else {
        r == Control::Exit(ExitReason::Error(ExitError::StackOverflow)) && after.stack@
            == before.stack@
    }
}

/// The instruction pops `k` words, at least one, and puts `value` in their place.
pub open spec fn replaces(
    before: Machine,
    after: Machine,
    r: Control,
    k: int,
    value: Word,
) -> bool {
    if before.stack@.len() < k {
        underflows(before, after, r)
    } else {
        &&& r == Control::Continue(1)
        &&& after.stack@ == rest(before, k).push(value)
        &&& memory_kept(before, after)
    }
}

/// The memory `m` after an instruction touched the `len` bytes at `offset`: as it was when
/// `len` is zero, else grown to cover them.
pub open spec fn covering(m: Seq<u8>, offset: nat, len: nat) -> Seq<u8> {
    if len == 0 {
        m
    } else {
        grown(m, ceil32((offset + len) as int) as nat)
    }
}

/// Whether an instruction may touch the `len` bytes of memory at `offset`.
pub open spec fn coverable(before: Machine, offset: nat, len: nat) -> bool {
    len == 0 || before.memory.can_cover(offset, len)
}

/// Takes `k` words off the stack, topmost first. With fewer than `k` words there, it takes them
/// all and gives none.
pub fn pop_args(state: &mut Machine, k: usize) -> (r: Option<Vec<Word>>)
    requires
        old(state).wf(),
    ensures
        final(state).wf(),
        final(state).follows(*old(state)),
        final(state).position == old(state).position,
        memory_kept(*old(state), *final(state)),
        old(state).stack@.len() >= k ==> r.is_some() && r.unwrap()@.len() == k && (forall|i: int|
            0 <= i < k ==> r.unwrap()@[i] == arg(*old(state), i)) && final(state).stack@ == rest(
            *old(state),
            k as int,
        ),
        old(state).stack@.len() < k ==> r.is_none() && final(state).stack@ == Seq::<Word>::empty(),
{
    let mut args: Vec<Word> = Vec::new();
    let mut i: usize = 0;
    while i < k
        invariant
            i <= k,
            state.wf(),
            state.follows(*old(state)),
            state.position == old(state).position,
            memory_kept(*old(state), *state),
            i <= old(state).stack@.len(),
            args@.len() == i,
            forall|j: int| 0 <= j < i ==> args@[j] == arg(*old(state), j),
            state.stack@ == rest(*old(state), i as int),
        decreases k - i,
    {
        match state.stack.pop() {
            Ok(v) => {
                args.push(v);
            },
            Err(_) => {
                return None;
            },
        }
        i = i + 1;
        assert(state.stack@ =~= rest(*old(state), i as int));
    }
    Some(args)
}

/// Puts `value` on the stack and says how to go on.
pub fn push_word(state: &mut Machine, value: Word, advance: usize) -> (r: Control)
    requires
        old(state).wf(),
    ensures
        final(state).wf(),
        final(state).follows(*old(state)),
        final(state).position == old(state).position,
        pushes(*old(state), *final(state), r, value, advance),
{
    match state.stack.push(value) {
        Ok(()) => Control::Continue(advance),
        Err(e) => Control::Exit(ExitReason::Error(e)),
    }
}

/// The word for a truth value: one for true, zero for false.
pub open spec fn truth(b: bool) -> Word {
    Word::of(
        if b {
            1
        } else {
            0
        },
    )
}

/// Whether `op` pops one word and pushes one.
pub open spec fn is_unary(op: Opcode) -> bool {
    op is IsZero || op is Not
}

/// Whether `op` pops two words and pushes one.
pub open spec fn is_binary(op: Opcode) -> bool {
    match op {
        Opcode::Add
        | Opcode::Mul
        | Opcode::Sub
        | Opcode::Div
        | Opcode::SDiv
        | Opcode::Mod
        | Opcode::SMod
        | Opcode::Exp
        | Opcode::SignExtend
        | Opcode::Lt
        | Opcode::Gt
        | Opcode::SLt
        | Opcode::SGt
        | Opcode::Eq
        | Opcode::And
        | Opcode::Or
        | Opcode::Xor
        | Opcode::Byte
        | Opcode::Shl
        | Opcode::Shr
        | Opcode::Sar => true,
        _ => false,
    }
}

/// Whether `op` pops three words and pushes one.
pub open spec fn is_ternary(op: Opcode) -> bool {
    op is AddMod || op is MulMod
}

/// What a one-operand instruction pushes for the operand `a`.
pub open spec fn unary_result(op: Opcode, a: Word) -> Word {
    match op {
        Opcode::IsZero => truth(a@ == 0),
        _ => Word { l0: !a.l0, l1: !a.l1, l2: !a.l2, l3: !a.l3 },
    }
}

/// What a two-operand instruction pushes for the operands `a`, popped first, and `b`.
pub open spec fn binary_result(op: Opcode, a: Word, b: Word) -> Word {
    match op {
        Opcode::Add => Word::of(a@ + b@),
        Opcode::Mul => Word::of(a@ * b@),
        Opcode::Sub => Word::of_int(a@ - b@),
        Opcode::Div => Word::of(
            if b@ == 0 {
                0
            } else {
                a@ / b@
            },
        ),
        Opcode::SDiv => Word::of_int(trunc_div(a.signed(), b.signed())),
        Opcode::Mod => Word::of(
            if b@ == 0 {
                0
            } else {
                a@ % b@
            },
        ),
        Opcode::SMod => Word::of_int(trunc_rem(a.signed(), b.signed())),
        Opcode::Exp => Word::of_int(pow(a@ as int, b@)),
        Opcode::SignExtend => if a@ >= 31 {
            b
        } else {
            Word::of(sign_extended(b@, a@))
        },
        Opcode::Lt => truth(a@ < b@),
        Opcode::Gt => truth(a@ > b@),
        Opcode::SLt => truth(a.signed() < b.signed()),
        Opcode::SGt => truth(a.signed() > b.signed()),
        Opcode::Eq => truth(a == b),
        Opcode::And => Word { l0: a.l0 & b.l0, l1: a.l1 & b.l1, l2: a.l2 & b.l2, l3: a.l3 & b.l3 },
        Opcode::Or => Word { l0: a.l0 | b.l0, l1: a.l1 | b.l1, l2: a.l2 | b.l2, l3: a.l3 | b.l3 },
        Opcode::Xor => Word { l0: a.l0 ^ b.l0, l1: a.l1 ^ b.l1, l2: a.l2 ^ b.l2, l3: a.l3 ^ b.l3 },
        Opcode::Byte => Word::of(
            if a@ >= 32 {
                0
            } else {
                be_bytes(b@, 32)[a@ as int] as nat
            },
        ),
        Opcode::Shl => Word::of(
            if a@ >= 256 {
                0
            } else {
                b@ * pow2(a@)
            },
        ),
        Opcode::Shr => Word::of(
            if a@ >= 256 {
                0
            } else {
                b@ / pow2(a@)
            },
        ),
        _ => Word::of_int(
            if a@ >= 256 {
                if b.signed() < 0 {
                    -1
                } else {
                    0
                }
            } else {
                b.signed() / (pow2(a@) as int)
            },
        ),
    }
}

/// What a three-operand instruction pushes for the operands `a`, popped first, `b` and `n`.
pub open spec fn ternary_result(op: Opcode, a: Word, b: Word, n: Word) -> Word {
    Word::of(
        if n@ == 0 {
            0
        } else if op is AddMod {
            (a@ + b@) % n@
        } else {
            (a@ * b@) % n@
        },
    )
}

/// Computes what a one-operand instruction pushes.
pub fn unary(op: Opcode, a: Word) -> (r: Word)
    requires
        is_unary(op),
    ensures
        r == unary_result(op, a),
{
    match op {
        Opcode::IsZero => Word::from_bool(a.is_zero()),
        _ => a.not(),
    }
}

/// Computes what a two-operand instruction pushes.
pub fn binary(op: Opcode, a: Word, b: Word) -> (r: Word)
    requires
        is_binary(op),
    ensures
        r == binary_result(op, a, b),
{
    match op {
        Opcode::Add => a.wrapping_add(b),
        Opcode::Mul => a.wrapping_mul(b),
        Opcode::Sub => a.wrapping_sub(b),
        Opcode::Div => a.div(b),
        Opcode::SDiv => a.sdiv(b),
        Opcode::Mod => a.rem(b),
        Opcode::SMod => a.smod(b),
        Opcode::Exp => a.wrapping_pow(b),
        Opcode::SignExtend => b.sign_extend(a),
        Opcode::Lt => Word::from_bool(a.lt(b)),
        Opcode::Gt => Word::from_bool(a.gt(b)),
        Opcode::SLt => Word::from_bool(a.slt(b)),
        Opcode::SGt => Word::from_bool(a.sgt(b)),
        Opcode::Eq => Word::from_bool(a == b),
        Opcode::And => a.bitand(b),
        Opcode::Or => a.bitor(b),
        Opcode::Xor => a.bitxor(b),
        Opcode::Byte => b.byte(a),
        Opcode::Shl => b.shl(a),
        Opcode::Shr => b.shr(a),
        _ => b.sar(a),
    }
}

/// Computes what a three-operand instruction pushes.
pub fn ternary(op: Opcode, a: Word, b: Word, n: Word) -> (r: Word)
    requires
        is_ternary(op),
    ensures
        r == ternary_result(op, a, b, n),
{
    match op {
        Opcode::AddMod => a.add_mod(b, n),
        _ => a.mul_mod(b, n),
    }
}

/// What the instruction `op`, read at `position`, makes of the machine, and how the machine is
/// to go on.
pub open spec fn eval_spec(
    before: Machine,
    after: Machine,
    op: Opcode,
    position: usize,
    r: Control,
) -> bool {
    if is_unary(op) {
        replaces(before, after, r, 1, unary_result(op, arg(before, 0)))
    } else if is_binary(op) {
        replaces(before, after, r, 2, binary_result(op, arg(before, 0), arg(before, 1)))
    } else if is_ternary(op) {
        replaces(
            before,
            after,
            r,
            3,
            ternary_result(op, arg(before, 0), arg(before, 1), arg(before, 2)),
        )
    } else {
        match op {
            Opcode::Stop => r == Control::Exit(ExitReason::Succeed(ExitSucceed::Stopped))
                && after.stack@ == before.stack@ && memory_kept(before, after),
            Opcode::Invalid => r == Control::Exit(ExitReason::Error(ExitError::DesignatedInvalid))
                && after.stack@ == before.stack@ && memory_kept(before, after),
            Opcode::JumpDest => r == Control::Continue(1) && after.stack@ == before.stack@
                && memory_kept(before, after),
            Opcode::CallDataLoad => misc::calldataload_spec(before, after, r),
            Opcode::CallDataSize => misc::calldatasize_spec(before, after, r),
            Opcode::CallDataCopy => misc::calldatacopy_spec(before, after, r),
            Opcode::CodeSize => misc::codesize_spec(before, after, r),
            Opcode::CodeCopy => misc::codecopy_spec(before, after, r),
            Opcode::Pop => misc::pop_spec(before, after, r),
            Opcode::MLoad => misc::mload_spec(before, after, r),
            Opcode::MStore => misc::mstore_spec(before, after, r),
            Opcode::MStore8 => misc::mstore8_spec(before, after, r),
            Opcode::Jump => misc::jump_spec(before, after, r),
            Opcode::JumpI => misc::jumpi_spec(before, after, r),
            Opcode::PC => misc::pc_spec(before, after, r, position),
            Opcode::MSize => misc::msize_spec(before, after, r),
            Opcode::Push(n) => misc::push_spec(before, after, r, n as usize, position),
            Opcode::Dup(n) => misc::dup_spec(before, after, r, n as usize),
            Opcode::Swap(n) => misc::swap_spec(before, after, r, n as usize),
            Opcode::Return => misc::ret_spec(before, after, r),
            _ => misc::revert_spec(before, after, r),
        }
    }
}

/// Pops `k` operands, computes, and pushes the result.
fn compute(state: &mut Machine, op: Opcode, k: usize) -> (r: Control)
    requires
        old(state).wf(),
        k == 1 && is_unary(op) || k == 2 && is_binary(op) || k == 3 && is_ternary(op),
    ensures
        final(state).wf(),
        final(state).follows(*old(state)),
        final(state).position == old(state).position,
        eval_spec(*old(state), *final(state), op, 0, r),
{
    let args = match pop_args(state, k) {
        Some(a) => a,
        None => {
            return Control::Exit(ExitReason::Error(ExitError::StackUnderflow));
        },
    };
    let value = if k == 1 {
        unary(op, args[0])
    } else if k == 2 {
        binary(op, args[0], args[1])
    } else {
        ternary(op, args[0], args[1], args[2])
    };
    push_word(state, value, 1)
}

/// Executes the instruction `opcode`, read at `position`.
pub fn eval(state: &mut Machine, opcode: Opcode, position: usize) -> (r: Control)
    requires
        old(state).wf(),
        opcode.wf(),
        position < old(state).code@.len(),
    ensures
        final(state).wf(),
        final(state).follows(*old(state)),
        final(state).position == old(state).position,
        eval_spec(*old(state), *final(state), opcode, position, r),
{
    match opcode {
        Opcode::Stop => Control::Exit(ExitReason::Succeed(ExitSucceed::Stopped)),
        Opcode::Invalid => Control::Exit(ExitReason::Error(ExitError::DesignatedInvalid)),
        Opcode::JumpDest => Control::Continue(1),
        Opcode::IsZero | Opcode::Not => compute(state, opcode, 1),
        Opcode::AddMod | Opcode::MulMod => compute(state, opcode, 3),
        Opcode::CallDataLoad => misc::calldataload(state),
        Opcode::CallDataSize => misc::calldatasize(state),
        Opcode::CallDataCopy => misc::calldatacopy(state),
        Opcode::CodeSize => misc::codesize(state),
        Opcode::CodeCopy => misc::codecopy(state),
        Opcode::Pop => misc::pop(state),
        Opcode::MLoad => misc::mload(state),
        Opcode::MStore => misc::mstore(state),
        Opcode::MStore8 => misc::mstore8(state),
        Opcode::Jump => misc::jump(state),
        Opcode::JumpI => misc::jumpi(state),
        Opcode::PC => misc::pc(state, position),
        Opcode::MSize => misc::msize(state),
        Opcode::Push(n) => misc::push(state, n as usize, position),
        Opcode::Dup(n) => misc::dup(state, n as usize),
        Opcode::Swap(n) => misc::swap(state, n as usize),
        Opcode::Return => misc::ret(state),
        Opcode::Revert => misc::revert(state),
        _ => compute(state, opcode, 2),
    }
}

/// An instruction jumps only to a position that holds the `JUMPDEST` byte and is not among the
/// immediate bytes of a `PUSHn`, and a jump to any other position ends the frame with
/// `InvalidJump`.
pub proof fn lemma_jump_lands(
    before: Machine,
    after: Machine,
    op: Opcode,
    position: usize,
    dest: usize,
)
    requires
        before.wf(),
        eval_spec(before, after, op, position, Control::Jump(dest)),
    ensures
        op is Jump || op is JumpI,
        arg(before, 0)@ == dest,
        valid_jumpdest(before.code@, dest as int),
        dest < before.code@.len(),
        before.code@[dest as int] == 0x5b,
        !in_push_data(before.code@, dest as int),
{
    lemma_jumpdest_outside_push_data(before.code@, dest as int);
}

/// A `JUMP`, and a `JUMPI` whose condition is not zero, to a position that is no `JUMPDEST`
/// byte or lies among the immediate bytes of a `PUSHn` ends the frame with `InvalidJump`.
pub proof fn lemma_jump_refused(
    before: Machine,
    after: Machine,
    op: Opcode,
    position: usize,
    r: Control,
)
    requires
        eval_spec(before, after, op, position, r),
        op is Jump && before.stack@.len() >= 1 || op is JumpI && before.stack@.len() >= 2 && arg(
            before,
            1,
        )@ != 0,
        ({
            let dest = arg(before, 0)@ as int;
            dest >= before.code@.len() || before.code@[dest] != 0x5b || in_push_data(
                before.code@,
                dest,
            )
        }),
    ensures
        r == Control::Exit(ExitReason::Error(ExitError::InvalidJump)),
{
    lemma_jumpdest_outside_push_data(before.code@, arg(before, 0)@ as int);
}

/// Division and remainder by zero give zero, and so does a sum modulo zero.
pub proof fn lemma_zero_divisor(a: Word, b: Word)
    ensures
        binary_result(Opcode::Div, a, Word::of(0)) == Word::of(0),
        binary_result(Opcode::Mod, a, Word::of(0)) == Word::of(0),
        ternary_result(Opcode::AddMod, a, b, Word::of(0)) == Word::of(0),
        ternary_result(Opcode::MulMod, a, b, Word::of(0)) == Word::of(0),
{
    Word::lemma_view_of(0);
}

/// The signed quotient of -2^255 by -1 is -2^255.
pub proof fn lemma_sdiv_overflow(min: Word, minus_one: Word)
    requires
        min.signed() == -(crate::word::sign_threshold() as int),
        minus_one.signed() == -1,
    ensures
        binary_result(Opcode::SDiv, min, minus_one) == min,
{
    let m = crate::word::word_modulus() as int;
    let t = crate::word::sign_threshold() as int;
    assert(trunc_div(min.signed(), minus_one.signed()) == t);
    vstd::arithmetic::div_mod::lemma_small_mod(t as nat, m as nat);
    min.lemma_of_view();
}

/// A shift by 256 bits or more gives zero, but for the shift that keeps the sign, which gives
/// the word of all ones for a negative number.
pub proof fn lemma_shift_past_word(shift: Word, value: Word)
    requires
        shift@ >= 256,
    ensures
        binary_result(Opcode::Shl, shift, value) == Word::of(0),
        binary_result(Opcode::Shr, shift, value) == Word::of(0),
        binary_result(Opcode::Sar, shift, value) == if value.signed() < 0 {
            Word {
                l0: 0xffff_ffff_ffff_ffff,
                l1: 0xffff_ffff_ffff_ffff,
                l2: 0xffff_ffff_ffff_ffff,
                l3: 0xffff_ffff_ffff_ffff,
            }
        } else {
            Word::of(0)
        },
{
    let m = crate::word::word_modulus() as int;
    let ones = Word {
        l0: 0xffff_ffff_ffff_ffff,
        l1: 0xffff_ffff_ffff_ffff,
        l2: 0xffff_ffff_ffff_ffff,
        l3: 0xffff_ffff_ffff_ffff,
    };
    vstd::arithmetic::div_mod::lemma_fundamental_div_mod_converse(-1, m, -1, m - 1);
    ones.lemma_of_unique(-1);
    vstd::arithmetic::div_mod::lemma_small_mod(0, m as nat);
}

} // verus!
