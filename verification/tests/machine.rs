use evm::eval::Control;
use evm::exit::{ExitError, ExitFatal, ExitReason, ExitRevert, ExitSucceed};
use evm::machine::{Capture, Machine};
use evm::memory::Memory;
use evm::opcode::{ExternalOpcode, Opcode};
use evm::stack::Stack;
use evm::valids::Valids;
use evm::word::Word;

fn machine(code: &[u8]) -> Machine {
    Machine::new(code.to_vec(), Vec::new(), 1024, 1 << 20)
}

fn run_to_exit(m: &mut Machine) -> ExitReason {
    match m.run(10_000) {
        Some(Capture::Exit(reason)) => reason,
        other => panic!("the machine did not stop: {:?}", other),
    }
}

fn word_bytes(low: &[u8]) -> Vec<u8> {
    let mut bytes = vec![0u8; 32 - low.len()];
    bytes.extend_from_slice(low);
    bytes
}

#[test]
fn hello_adder_returns_twelve() {
    let mut m = machine(&[0x60, 0x05, 0x60, 0x07, 0x01, 0x60, 0x00, 0x52, 0x60, 0x20, 0x60, 0x00, 0xf3]);
    assert_eq!(run_to_exit(&mut m), ExitReason::Succeed(ExitSucceed::Returned));
    assert_eq!(m.return_value(), word_bytes(&[12]));
}

#[test]
fn revert_keeps_its_payload() {
    let mut m = machine(&[0x60, 0x42, 0x60, 0x00, 0x52, 0x60, 0x20, 0x60, 0x00, 0xfd]);
    assert_eq!(run_to_exit(&mut m), ExitReason::Revert(ExitRevert::Reverted));
    assert_eq!(m.return_value(), word_bytes(&[0x42]));
}

#[test]
fn jump_to_a_plain_opcode_is_invalid() {
    let mut m = machine(&[0x60, 0x03, 0x56, 0x00, 0x5b]);
    assert_eq!(run_to_exit(&mut m), ExitReason::Error(ExitError::InvalidJump));
}

#[test]
fn jump_to_jumpdest_goes_on_to_stop() {
    let mut m = machine(&[0x60, 0x04, 0x56, 0x00, 0x5b, 0x00]);
    assert_eq!(m.step(), Ok(()));
    assert_eq!(m.step(), Ok(()));
    assert_eq!(m.position, Ok(4));
    assert_eq!(run_to_exit(&mut m), ExitReason::Succeed(ExitSucceed::Stopped));
}

#[test]
fn jump_into_push_data_is_invalid() {
    // PUSH1 4, JUMP, PUSH1 0x5b, STOP: the byte at 4 is a JUMPDEST byte inside push data.
    let mut m = machine(&[0x60, 0x04, 0x56, 0x60, 0x5b, 0x00]);
    assert_eq!(run_to_exit(&mut m), ExitReason::Error(ExitError::InvalidJump));
}

#[test]
fn jumpi_with_zero_condition_falls_through() {
    // PUSH1 0, PUSH1 0xff, JUMPI, STOP: the target is no destination, but the condition is zero.
    let mut m = machine(&[0x60, 0x00, 0x60, 0xff, 0x57, 0x00]);
    assert_eq!(run_to_exit(&mut m), ExitReason::Succeed(ExitSucceed::Stopped));
    assert_eq!(m.stack.len(), 0);
}

#[test]
fn jumpi_with_set_condition_jumps() {
    // PUSH1 1, PUSH1 6, JUMPI, INVALID, JUMPDEST, STOP
    let mut m = machine(&[0x60, 0x01, 0x60, 0x06, 0x57, 0xfe, 0x5b, 0x00]);
    assert_eq!(run_to_exit(&mut m), ExitReason::Succeed(ExitSucceed::Stopped));
}

#[test]
fn bare_pop_underflows() {
    let mut m = machine(&[0x50]);
    assert_eq!(run_to_exit(&mut m), ExitReason::Error(ExitError::StackUnderflow));
}

#[test]
fn msize_sees_memory_grow_once() {
    let mut m = machine(&[0x60, 0x00, 0x51, 0x59, 0x60, 0x00, 0x52, 0x59]);
    for _ in 0..3 {
        assert_eq!(m.step(), Ok(()));
    }
    assert_eq!(m.stack.peek(0), Ok(Word::from_u64(32)));
    for _ in 0..3 {
        assert_eq!(m.step(), Ok(()));
    }
    assert_eq!(m.stack.peek(0), Ok(Word::from_u64(32)));
    assert_eq!(m.memory.effective_len(), Word::from_u64(32));
    assert_eq!(run_to_exit(&mut m), ExitReason::Succeed(ExitSucceed::Stopped));
}

#[test]
fn push_at_end_of_code_pads_on_the_right() {
    let mut m = machine(&[0x7f, 0x01, 0x02, 0x03]);
    assert_eq!(m.step(), Ok(()));
    let mut expected = vec![0x01, 0x02, 0x03];
    expected.resize(32, 0);
    assert_eq!(m.stack.peek(0).unwrap().to_big_endian().to_vec(), expected);
    assert_eq!(m.position, Ok(4));
    assert_eq!(run_to_exit(&mut m), ExitReason::Succeed(ExitSucceed::Stopped));
}

#[test]
fn short_push_past_end_pads_to_its_own_width() {
    // PUSH2 with one byte left: the immediate is ab 00.
    let mut m = machine(&[0x61, 0xab]);
    assert_eq!(m.step(), Ok(()));
    assert_eq!(m.stack.peek(0), Ok(Word::from_u64(0xab00)));
}

#[test]
fn stopped_machine_stays_stopped() {
    let mut m = machine(&[0x60, 0x01, 0xfe]);
    let reason = run_to_exit(&mut m);
    assert_eq!(reason, ExitReason::Error(ExitError::DesignatedInvalid));
    let depth = m.stack.len();
    assert_eq!(m.step(), Err(Capture::Exit(reason)));
    assert_eq!(m.step(), Err(Capture::Exit(reason)));
    assert_eq!(m.stack.len(), depth);
    assert_eq!(m.position, Err(reason));
}

#[test]
fn end_of_code_stops() {
    let mut m = machine(&[]);
    assert_eq!(
        m.step(),
        Err(Capture::Exit(ExitReason::Succeed(ExitSucceed::Stopped)))
    );
}

#[test]
fn external_opcode_traps_and_is_stepped_over() {
    let mut m = machine(&[0x31, 0x00]);
    assert_eq!(m.step(), Err(Capture::Trap(ExternalOpcode::Balance)));
    assert_eq!(m.position, Ok(1));
}

#[test]
fn run_gives_up_after_its_steps() {
    // JUMPDEST, PUSH1 0, JUMP: an endless loop.
    let mut m = machine(&[0x5b, 0x60, 0x00, 0x56]);
    assert_eq!(m.run(100), None);
    assert!(m.position.is_ok());
}

#[test]
fn mstore_then_mload_gives_the_word_back() {
    // PUSH2 0xbeef, PUSH1 0x40, MSTORE, PUSH1 0x40, MLOAD
    let mut m = machine(&[0x61, 0xbe, 0xef, 0x60, 0x40, 0x52, 0x60, 0x40, 0x51]);
    assert_eq!(run_to_exit(&mut m), ExitReason::Succeed(ExitSucceed::Stopped));
    assert_eq!(m.stack.peek(0), Ok(Word::from_u64(0xbeef)));
    assert_eq!(m.memory.effective_len(), Word::from_u64(0x60));
}

#[test]
fn mstore8_writes_the_low_byte() {
    // PUSH2 0x1234, PUSH1 1, MSTORE8
    let mut m = machine(&[0x61, 0x12, 0x34, 0x60, 0x01, 0x53]);
    assert_eq!(run_to_exit(&mut m), ExitReason::Succeed(ExitSucceed::Stopped));
    assert_eq!(m.memory.get(0, 3), vec![0, 0x34, 0]);
    assert_eq!(m.memory.effective_len(), Word::from_u64(32));
}

#[test]
fn push_then_pop_changes_nothing() {
    let mut code = vec![0x7f];
    code.extend_from_slice(&[0xaa; 32]);
    code.push(0x50);
    let mut m = machine(&code);
    assert_eq!(run_to_exit(&mut m), ExitReason::Succeed(ExitSucceed::Stopped));
    assert_eq!(m.stack.len(), 0);
    assert_eq!(m.memory.effective_len(), Word::from_u64(0));
}

#[test]
fn stack_overflows_past_its_limit() {
    // PUSH1 1, JUMPDEST, DUP1, PUSH1 2, JUMP: pushes until the stack is full.
    let mut m = Machine::new(vec![0x60, 0x01, 0x5b, 0x80, 0x60, 0x02, 0x56], Vec::new(), 1024, 1 << 20);
    assert_eq!(run_to_exit(&mut m), ExitReason::Error(ExitError::StackOverflow));
    assert!(m.stack.len() <= 1024);
}

#[test]
fn stack_holds_exactly_its_limit() {
    let mut s = Stack::new(1024);
    for i in 0..1024u64 {
        assert_eq!(s.push(Word::from_u64(i)), Ok(()));
    }
    assert_eq!(s.push(Word::from_u64(7)), Err(ExitError::StackOverflow));
    assert_eq!(s.len(), 1024);
    assert_eq!(s.peek(0), Ok(Word::from_u64(1023)));
    assert_eq!(s.peek(1023), Ok(Word::from_u64(0)));
    assert_eq!(s.peek(1024), Err(ExitError::StackUnderflow));
    assert_eq!(s.set(1, Word::from_u64(9)), Ok(()));
    assert_eq!(s.peek(1), Ok(Word::from_u64(9)));
    assert_eq!(s.set(1024, Word::from_u64(9)), Err(ExitError::StackUnderflow));
    assert_eq!(s.pop(), Ok(Word::from_u64(1023)));
    assert_eq!(s.len(), 1023);
}

#[test]
fn empty_stack_underflows() {
    let mut s = Stack::new(4);
    assert_eq!(s.pop(), Err(ExitError::StackUnderflow));
    assert_eq!(s.peek(0), Err(ExitError::StackUnderflow));
    assert!(s.is_empty());
    assert_eq!(s.limit(), 4);
}

#[test]
fn swap_and_dup_move_the_right_words() {
    // PUSH1 1, PUSH1 2, PUSH1 3, SWAP2, DUP2
    let mut m = machine(&[0x60, 0x01, 0x60, 0x02, 0x60, 0x03, 0x91, 0x81]);
    assert_eq!(run_to_exit(&mut m), ExitReason::Succeed(ExitSucceed::Stopped));
    assert_eq!(m.stack.len(), 4);
    assert_eq!(m.stack.peek(0), Ok(Word::from_u64(2)));
    assert_eq!(m.stack.peek(1), Ok(Word::from_u64(1)));
    assert_eq!(m.stack.peek(2), Ok(Word::from_u64(2)));
    assert_eq!(m.stack.peek(3), Ok(Word::from_u64(3)));
}

#[test]
fn swap_without_partner_underflows() {
    let mut m = machine(&[0x60, 0x01, 0x90]);
    assert_eq!(run_to_exit(&mut m), ExitReason::Error(ExitError::StackUnderflow));
}

#[test]
fn dup_without_source_underflows() {
    let mut m = machine(&[0x80]);
    assert_eq!(run_to_exit(&mut m), ExitReason::Error(ExitError::StackUnderflow));
}

#[test]
fn calldataload_pads_and_reads_zero_past_the_end() {
    let data = vec![0x11, 0x22, 0x33];
    // PUSH1 1, CALLDATALOAD, PUSH1 3, CALLDATALOAD, CALLDATASIZE
    let mut m = Machine::new(vec![0x60, 0x01, 0x35, 0x60, 0x03, 0x35, 0x36], data, 1024, 1 << 20);
    assert_eq!(m.step(), Ok(()));
    assert_eq!(m.step(), Ok(()));
    let mut expected = vec![0x22, 0x33];
    expected.resize(32, 0);
    assert_eq!(m.stack.peek(0).unwrap().to_big_endian().to_vec(), expected);
    assert_eq!(run_to_exit(&mut m), ExitReason::Succeed(ExitSucceed::Stopped));
    assert_eq!(m.stack.peek(0), Ok(Word::from_u64(3)));
    assert_eq!(m.stack.peek(1), Ok(Word::zero()));
}

#[test]
fn calldataload_at_a_huge_index_is_zero() {
    let mut code = vec![0x7f];
    code.extend_from_slice(&[0xff; 32]);
    code.push(0x35);
    let mut m = Machine::new(code, vec![1, 2, 3], 1024, 1 << 20);
    assert_eq!(run_to_exit(&mut m), ExitReason::Succeed(ExitSucceed::Stopped));
    assert_eq!(m.stack.peek(0), Ok(Word::zero()));
}

#[test]
fn codecopy_and_calldatacopy_fill_with_zero() {
    // PUSH1 8, PUSH1 4, PUSH1 0, CODECOPY, CODESIZE
    let mut m = machine(&[0x60, 0x08, 0x60, 0x04, 0x60, 0x00, 0x39, 0x38]);
    assert_eq!(run_to_exit(&mut m), ExitReason::Succeed(ExitSucceed::Stopped));
    assert_eq!(m.memory.get(0, 8), vec![0x60, 0x00, 0x39, 0x38, 0, 0, 0, 0]);
    assert_eq!(m.stack.peek(0), Ok(Word::from_u64(8)));
    // PUSH1 4, PUSH1 1, PUSH1 2, CALLDATACOPY
    let mut m = Machine::new(vec![0x60, 0x04, 0x60, 0x01, 0x60, 0x02, 0x37], vec![9, 8, 7], 1024, 1 << 20);
    assert_eq!(run_to_exit(&mut m), ExitReason::Succeed(ExitSucceed::Stopped));
    assert_eq!(m.memory.get(0, 8), vec![0, 0, 8, 7, 0, 0, 0, 0]);
}

#[test]
fn zero_length_copies_do_nothing_past_the_limit() {
    // PUSH1 0, PUSH1 0, PUSH2 0x0400, then the copy: the destination is past a limit of 64.
    let code = |op: u8| vec![0x60, 0x00, 0x60, 0x00, 0x61, 0x04, 0x00, op];
    for op in [0x37, 0x39] {
        let mut m = Machine::new(code(op), vec![1, 2], 1024, 64);
        assert_eq!(run_to_exit(&mut m), ExitReason::Succeed(ExitSucceed::Stopped));
        assert_eq!(m.stack.len(), 0);
        assert_eq!(m.memory.effective_len(), Word::from_u64(0));
    }
    // One byte to the same destination cannot be covered.
    let code = |op: u8| vec![0x60, 0x01, 0x60, 0x00, 0x61, 0x04, 0x00, op];
    for op in [0x37, 0x39] {
        let mut m = Machine::new(code(op), vec![1, 2], 1024, 64);
        assert_eq!(run_to_exit(&mut m), ExitReason::Fatal(ExitFatal::NotSupported));
    }
}

#[test]
fn memory_past_the_limit_is_not_supported() {
    // PUSH1 0x40, MLOAD with a limit of 64 bytes: the word would end at 96.
    let mut m = Machine::new(vec![0x60, 0x40, 0x51], Vec::new(), 1024, 64);
    assert_eq!(run_to_exit(&mut m), ExitReason::Fatal(ExitFatal::NotSupported));
    assert_eq!(m.memory.effective_len(), Word::from_u64(0));
    // The last word within the limit can be read.
    let mut m = Machine::new(vec![0x60, 0x20, 0x51], Vec::new(), 1024, 64);
    assert_eq!(run_to_exit(&mut m), ExitReason::Succeed(ExitSucceed::Stopped));
    assert_eq!(m.memory.effective_len(), Word::from_u64(64));
}

#[test]
fn pc_pushes_its_own_position() {
    let mut m = machine(&[0x5b, 0x5b, 0x58]);
    assert_eq!(run_to_exit(&mut m), ExitReason::Succeed(ExitSucceed::Stopped));
    assert_eq!(m.stack.peek(0), Ok(Word::from_u64(2)));
}

#[test]
fn return_of_nothing_is_empty() {
    // PUSH1 0, PUSH1 0x77, RETURN
    let mut m = machine(&[0x60, 0x00, 0x60, 0x77, 0xf3]);
    assert_eq!(run_to_exit(&mut m), ExitReason::Succeed(ExitSucceed::Returned));
    assert_eq!(m.return_value(), Vec::<u8>::new());
    assert_eq!(m.return_range.start, Word::from_u64(0x77));
    assert_eq!(m.return_range.end, Word::from_u64(0x77));
    assert_eq!(m.memory.effective_len(), Word::from_u64(0));
}

#[test]
fn misc_functions_answer_with_control() {
    let mut m = machine(&[0x61, 0x01]);
    assert_eq!(evm::eval::misc::push(&mut m, 2, 0), Control::Continue(3));
    assert_eq!(evm::eval::misc::codesize(&mut m), Control::Continue(1));
    assert_eq!(evm::eval::misc::pc(&mut m, 7), Control::Continue(1));
    assert_eq!(m.stack.peek(0), Ok(Word::from_u64(7)));
    assert_eq!(m.stack.peek(1), Ok(Word::from_u64(2)));
    assert_eq!(m.stack.peek(2), Ok(Word::from_u64(0x0100)));
    assert_eq!(evm::eval::misc::jump(&mut m), Control::Exit(ExitReason::Error(ExitError::InvalidJump)));
    assert_eq!(evm::eval::eval(&mut m, Opcode::Add, 0), Control::Continue(1));
    assert_eq!(m.stack.peek(0), Ok(Word::from_u64(0x0102)));
}

#[test]
fn valids_mark_only_real_jumpdests() {
    // JUMPDEST, PUSH2 5b 5b, JUMPDEST, PUSH1 (cut off)
    let v = Valids::new(&[0x5b, 0x61, 0x5b, 0x5b, 0x5b, 0x60]);
    assert_eq!(v.len(), 6);
    assert!(v.is_valid(0));
    assert!(!v.is_valid(1));
    assert!(!v.is_valid(2));
    assert!(!v.is_valid(3));
    assert!(v.is_valid(4));
    assert!(!v.is_valid(5));
    assert!(!v.is_valid(6));
    assert!(!v.is_valid(usize::MAX));
}

#[test]
fn memory_operations_follow_their_rules() {
    let mut mem = Memory::new(100);
    assert!(mem.is_empty());
    assert_eq!(mem.limit(), 100);
    assert_eq!(mem.resize_offset(Word::from_u64(50), Word::zero()), Ok(()));
    assert_eq!(mem.effective_len(), Word::from_u64(0));
    assert_eq!(mem.resize_offset(Word::from_u64(1), Word::from_u64(32)), Ok(()));
    assert_eq!(mem.effective_len(), Word::from_u64(64));
    assert_eq!(mem.resize_offset(Word::from_u64(0), Word::from_u64(1)), Ok(()));
    assert_eq!(mem.effective_len(), Word::from_u64(64));
    assert_eq!(
        mem.resize_offset(Word::from_u64(100), Word::from_u64(1)),
        Err(ExitFatal::NotSupported)
    );
    assert_eq!(
        mem.resize_offset(Word::max_value(), Word::from_u64(1)),
        Err(ExitFatal::NotSupported)
    );
    assert_eq!(mem.effective_len(), Word::from_u64(64));
    assert_eq!(mem.set(2, &[1, 2], 4), Ok(()));
    assert_eq!(mem.get(0, 8), vec![0, 0, 1, 2, 0, 0, 0, 0]);
    assert_eq!(mem.set(3, &[7, 8, 9], 2), Ok(()));
    assert_eq!(mem.get(2, 4), vec![1, 7, 8, 0]);
    // A write past the effective length is dropped, one past the limit is refused.
    assert_eq!(mem.set(62, &[5, 5, 5, 5], 4), Ok(()));
    assert_eq!(mem.effective_len(), Word::from_u64(64));
    assert_eq!(mem.get(62, 4), vec![5, 5, 0, 0]);
    assert_eq!(mem.set(99, &[1, 1], 2), Err(ExitFatal::NotSupported));
    assert_eq!(mem.get(usize::MAX, 2), vec![0, 0]);
    assert_eq!(
        mem.copy_large(Word::from_u64(10), Word::from_u64(1), Word::from_u64(4), &[1, 2, 3]),
        Ok(())
    );
    assert_eq!(mem.get(10, 4), vec![2, 3, 0, 0]);
    assert_eq!(
        mem.copy_large(Word::from_u64(10), Word::max_value(), Word::from_u64(2), &[1, 2, 3]),
        Ok(())
    );
    assert_eq!(mem.get(10, 4), vec![0, 0, 0, 0]);
    // Nothing is written for a length of zero, wherever it is asked for.
    assert_eq!(mem.copy_large(Word::max_value(), Word::zero(), Word::zero(), &[1]), Ok(()));
    assert_eq!(mem.copy_large(Word::from_u64(200), Word::zero(), Word::zero(), &[1]), Ok(()));
    assert_eq!(mem.set(usize::MAX, &[1], 0), Ok(()));
    assert_eq!(mem.set(200, &[], 0), Ok(()));
    assert_eq!(mem.effective_len(), Word::from_u64(64));
    assert_eq!(mem.get(10, 4), vec![0, 0, 0, 0]);
    assert_eq!(
        mem.copy_large(Word::max_value(), Word::zero(), Word::from_u64(1), &[1]),
        Err(ExitFatal::NotSupported)
    );
}

#[test]
fn opcodes_parse_from_their_bytes() {
    assert_eq!(Opcode::parse(0x00), Ok(Opcode::Stop));
    assert_eq!(Opcode::parse(0x01), Ok(Opcode::Add));
    assert_eq!(Opcode::parse(0x60), Ok(Opcode::Push(1)));
    assert_eq!(Opcode::parse(0x7f), Ok(Opcode::Push(32)));
    assert_eq!(Opcode::parse(0x80), Ok(Opcode::Dup(1)));
    assert_eq!(Opcode::parse(0x9f), Ok(Opcode::Swap(16)));
    assert_eq!(Opcode::parse(0xa4), Err(ExternalOpcode::Log(4)));
    assert_eq!(Opcode::parse(0xa5), Err(ExternalOpcode::Other(0xa5)));
    assert_eq!(Opcode::parse(0xf3), Ok(Opcode::Return));
    assert_eq!(Opcode::parse(0xfd), Ok(Opcode::Revert));
    assert_eq!(Opcode::parse(0xfe), Ok(Opcode::Invalid));
    assert_eq!(Opcode::parse(0xff), Err(ExternalOpcode::Suicide));
    assert_eq!(Opcode::parse(0x20), Err(ExternalOpcode::Sha3));
    assert_eq!(Opcode::parse(0x5b), Ok(Opcode::JumpDest));
    assert_eq!(Opcode::parse(0xf1), Err(ExternalOpcode::Call));
}

#[test]
fn exit_reasons_know_their_kind() {
    assert!(ExitReason::Succeed(ExitSucceed::Suicided).is_succeed());
    assert!(ExitReason::Error(ExitError::Other("custom")).is_error());
    assert!(ExitReason::Revert(ExitRevert::Reverted).is_revert());
    assert!(ExitReason::Fatal(ExitFatal::CallErrorAsFatal(ExitError::OutOfGas)).is_fatal());
    assert!(!ExitReason::Fatal(ExitFatal::NotSupported).is_error());
}

#[test]
fn memory_covers_the_last_word_within_the_largest_limit() {
    // PUSH8 (usize::MAX - 32), MLOAD, MSIZE: the word ends at the limit, and the effective
    // length is the next multiple of 32, which is no `usize`.
    let index = (usize::MAX - 32) as u64;
    let mut code = vec![0x67];
    code.extend_from_slice(&index.to_be_bytes());
    code.extend_from_slice(&[0x51, 0x59]);
    let mut m = Machine::new(code, Vec::new(), 1024, usize::MAX);
    assert_eq!(run_to_exit(&mut m), ExitReason::Succeed(ExitSucceed::Stopped));
    let rounded = Word::from_usize(usize::MAX / 32 + 1).wrapping_mul(Word::from_u64(32));
    assert_eq!(m.stack.peek(0), Ok(rounded));
    assert_eq!(m.stack.peek(1), Ok(Word::zero()));
    assert_eq!(m.memory.effective_len(), rounded);
    assert_eq!(rounded.to_usize().is_none(), usize::MAX % 32 == 31);
}
