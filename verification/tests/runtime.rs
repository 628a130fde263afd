use evm::exit::{ExitError, ExitFatal, ExitReason, ExitRevert, ExitSucceed};
use evm::hash::keccak_word;
use evm::machine::{Capture, Machine};
use evm::opcode::{ExternalOpcode, Opcode};
use evm::runtime::eval::{eval, Control};
use evm::runtime::handler::{Handler, Transfer};
use evm::runtime::system::{finish_call, finish_create, prepare_call, prepare_create};
use evm::runtime::{CallScheme, Context, CreateScheme, Interrupt, Pending, Runtime};
use evm::stack::Stack;
use evm::word::{Address, Word};

fn w(v: u64) -> Word {
    Word::from_u64(v)
}

fn addr(v: u64) -> Address {
    Address { l0: v, l1: 0, l2: 0 }
}

/// What the handler under test was asked last.
#[derive(Default)]
struct Asked {
    call: Option<(Address, Option<Transfer>, Vec<u8>, Option<usize>, bool, Context)>,
    create: Option<(Address, CreateScheme, Word, Vec<u8>)>,
    stored: Vec<(Address, Word, Word)>,
    logged: Vec<(Address, Vec<Word>, Vec<u8>)>,
    deleted: Vec<(Address, Address)>,
    validated: usize,
}

/// A handler with fixed answers.
struct Fixed {
    asked: Asked,
    veto: Option<ExitError>,
    refuse_writes: Option<ExitError>,
    call_answer: Option<(ExitReason, Vec<u8>)>,
    create_answer: Option<(ExitReason, Option<Address>, Vec<u8>)>,
}

impl Fixed {
    fn new() -> Fixed {
        Fixed {
            asked: Asked::default(),
            veto: None,
            refuse_writes: None,
            call_answer: None,
            create_answer: None,
        }
    }
}

impl Handler for Fixed {
    type CreateInterrupt = u32;
    type CreateFeedback = ();
    type CallInterrupt = u64;
    type CallFeedback = ();

    fn balance(&self, address: Address) -> Word {
        w(1000 + address.l0)
    }
    fn code_size(&self, address: Address) -> Word {
        w(address.l0)
    }
    fn code_hash(&self, address: Address) -> Word {
        w(7000 + address.l0)
    }
    fn code(&self, _address: Address) -> Vec<u8> {
        vec![0xc0, 0xc1, 0xc2]
    }
    fn storage(&self, address: Address, index: Word) -> Word {
        w(address.l0 * 100 + index.l0)
    }
    fn original_storage(&self, _address: Address, _index: Word) -> Word {
        Word::zero()
    }
    fn gas_left(&self) -> Word {
        w(21000)
    }
    fn gas_price(&self) -> Word {
        w(2)
    }
    fn origin(&self) -> Address {
        addr(0x0a)
    }
    fn block_hash(&self, number: Word) -> Word {
        w(900 + number.l0)
    }
    fn block_number(&self) -> Word {
        w(12)
    }
    fn block_coinbase(&self) -> Address {
        addr(0x0c)
    }
    fn block_timestamp(&self) -> Word {
        w(1234)
    }
    fn block_difficulty(&self) -> Word {
        w(5)
    }
    fn block_gas_limit(&self) -> Word {
        w(30_000_000)
    }
    fn chain_id(&self) -> Word {
        w(61)
    }
    fn account_exists(&self, _address: Address) -> bool {
        true
    }
    fn deleted(&self, _address: Address) -> bool {
        false
    }
    fn set_storage(&mut self, address: Address, index: Word, value: Word) -> Result<(), ExitError> {
        if let Some(e) = self.refuse_writes {
            return Err(e);
        }
        self.asked.stored.push((address, index, value));
        Ok(())
    }
    fn log(&mut self, address: Address, topics: Vec<Word>, data: Vec<u8>) -> Result<(), ExitError> {
        if let Some(e) = self.refuse_writes {
            return Err(e);
        }
        self.asked.logged.push((address, topics, data));
        Ok(())
    }
    fn mark_delete(&mut self, address: Address, target: Address) -> Result<(), ExitError> {
        if let Some(e) = self.refuse_writes {
            return Err(e);
        }
        self.asked.deleted.push((address, target));
        Ok(())
    }
    fn create(
        &mut self,
        caller: Address,
        scheme: CreateScheme,
        value: Word,
        init_code: Vec<u8>,
        _target_gas: Option<usize>,
    ) -> Capture<(ExitReason, Option<Address>, Vec<u8>), u32> {
        self.asked.create = Some((caller, scheme, value, init_code));
        match self.create_answer.take() {
            Some(answer) => Capture::Exit(answer),
            None => Capture::Trap(77),
        }
    }
    fn call(
        &mut self,
        code_address: Address,
        transfer: Option<Transfer>,
        input: Vec<u8>,
        target_gas: Option<usize>,
        is_static: bool,
        context: Context,
    ) -> Capture<(ExitReason, Vec<u8>), u64> {
        self.asked.call = Some((code_address, transfer, input, target_gas, is_static, context));
        match self.call_answer.take() {
            Some(answer) => Capture::Exit(answer),
            None => Capture::Trap(99),
        }
    }
    fn pre_validate(
        &mut self,
        _context: &Context,
        _opcode: Result<Opcode, ExternalOpcode>,
        _stack: &Stack,
    ) -> Result<(), ExitError> {
        self.asked.validated += 1;
        match self.veto {
            Some(e) => Err(e),
            None => Ok(()),
        }
    }
}

fn context() -> Context {
    Context { address: addr(0x11), caller: addr(0x22), apparent_value: w(33) }
}

fn runtime(code: &[u8]) -> Runtime {
    Runtime::new(code.to_vec(), Vec::new(), 1024, 1 << 20, context())
}

fn push_all(rt: &mut Runtime, words: &[Word]) {
    for v in words.iter().rev() {
        rt.machine.stack.push(*v).unwrap();
    }
}

fn run_to_exit(rt: &mut Runtime, h: &mut Fixed) -> ExitReason {
    match rt.run(10_000, h) {
        Some(Capture::Exit(reason)) => reason,
        Some(Capture::Trap(_)) => panic!("the runtime was interrupted"),
        None => panic!("the runtime did not stop"),
    }
}

fn is_continue(c: &Control<Fixed>) -> bool {
    matches!(c, Control::Continue)
}

fn exit_of(c: &Control<Fixed>) -> Option<ExitReason> {
    match c {
        Control::Exit(e) => Some(*e),
        _ => None,
    }
}

#[test]
fn context_opcodes_push_the_context() {
    // ADDRESS, CALLER, CALLVALUE, RETURNDATASIZE
    let mut rt = runtime(&[0x30, 0x33, 0x34, 0x3d]);
    let mut h = Fixed::new();
    assert_eq!(run_to_exit(&mut rt, &mut h), ExitReason::Succeed(ExitSucceed::Stopped));
    assert_eq!(rt.machine.stack.peek(3), Ok(w(0x11)));
    assert_eq!(rt.machine.stack.peek(2), Ok(w(0x22)));
    assert_eq!(rt.machine.stack.peek(1), Ok(w(33)));
    assert_eq!(rt.machine.stack.peek(0), Ok(w(0)));
    assert_eq!(rt.status, Err(ExitReason::Succeed(ExitSucceed::Stopped)));
}

#[test]
fn queries_push_what_the_handler_answers() {
    // PUSH1 5, BALANCE, SELFBALANCE, ORIGIN, GASPRICE, PUSH1 6, EXTCODESIZE, PUSH1 7, EXTCODEHASH,
    // PUSH1 8, BLOCKHASH, COINBASE, TIMESTAMP, NUMBER, DIFFICULTY, GASLIMIT, CHAINID, GAS,
    // PUSH1 9, SLOAD
    let code = [
        0x60, 0x05, 0x31, 0x47, 0x32, 0x3a, 0x60, 0x06, 0x3b, 0x60, 0x07, 0x3f, 0x60, 0x08, 0x40,
        0x41, 0x42, 0x43, 0x44, 0x45, 0x46, 0x5a, 0x60, 0x09, 0x54,
    ];
    let mut rt = runtime(&code);
    let mut h = Fixed::new();
    assert_eq!(run_to_exit(&mut rt, &mut h), ExitReason::Succeed(ExitSucceed::Stopped));
    let expected = [
        1005, 1017, 0x0a, 2, 6, 7007, 908, 0x0c, 1234, 12, 5, 30_000_000, 61, 21000, 1709,
    ];
    assert_eq!(rt.machine.stack.len(), expected.len());
    for (i, v) in expected.iter().rev().enumerate() {
        assert_eq!(rt.machine.stack.peek(i), Ok(w(*v)));
    }
}

#[test]
fn balance_takes_the_low_bits_as_the_address() {
    let mut rt = runtime(&[]);
    push_all(&mut rt, &[Word { l0: 5, l1: 0, l2: 0, l3: 1 }]);
    let mut h = Fixed::new();
    assert!(is_continue(&eval(&mut rt, ExternalOpcode::Balance, &mut h)));
    assert_eq!(rt.machine.stack.peek(0), Ok(w(1005)));
}

#[test]
fn query_on_an_empty_stack_underflows() {
    let mut rt = runtime(&[0x31]);
    let mut h = Fixed::new();
    assert_eq!(run_to_exit(&mut rt, &mut h), ExitReason::Error(ExitError::StackUnderflow));
    assert_eq!(rt.machine.position, Err(ExitReason::Error(ExitError::StackUnderflow)));
}

#[test]
fn sha3_hashes_the_window() {
    // PUSH1 0xab, PUSH1 0, MSTORE8, PUSH1 1, PUSH1 0, SHA3, PUSH1 0, PUSH1 0x40, SHA3
    let mut rt = runtime(&[0x60, 0xab, 0x60, 0x00, 0x53, 0x60, 0x01, 0x60, 0x00, 0x20, 0x60, 0x00, 0x60, 0x40, 0x20]);
    let mut h = Fixed::new();
    assert_eq!(run_to_exit(&mut rt, &mut h), ExitReason::Succeed(ExitSucceed::Stopped));
    assert_eq!(rt.machine.stack.peek(1), Ok(keccak_word(&[0xab])));
    assert_eq!(rt.machine.stack.peek(0), Ok(keccak_word(&[])));
    assert_eq!(rt.machine.memory.effective_len(), Word::from_u64(32));
}

#[test]
fn returndatacopy_past_the_buffer_is_out_of_offset() {
    let mut rt = runtime(&[]);
    rt.return_data_buffer = vec![1, 2, 3, 4];
    let mut h = Fixed::new();
    push_all(&mut rt, &[w(0), w(2), w(3)]);
    assert_eq!(
        exit_of(&eval(&mut rt, ExternalOpcode::ReturnDataCopy, &mut h)),
        Some(ExitReason::Error(ExitError::OutOfOffset))
    );
    push_all(&mut rt, &[w(0), w(5), w(0)]);
    assert_eq!(
        exit_of(&eval(&mut rt, ExternalOpcode::ReturnDataCopy, &mut h)),
        Some(ExitReason::Error(ExitError::OutOfOffset))
    );
    push_all(&mut rt, &[w(0), Word::max_value(), w(1)]);
    assert_eq!(
        exit_of(&eval(&mut rt, ExternalOpcode::ReturnDataCopy, &mut h)),
        Some(ExitReason::Error(ExitError::OutOfOffset))
    );
    assert_eq!(rt.machine.memory.effective_len(), Word::from_u64(0));
}

#[test]
fn returndatacopy_within_the_buffer_copies() {
    let mut rt = runtime(&[]);
    rt.return_data_buffer = vec![1, 2, 3, 4];
    let mut h = Fixed::new();
    push_all(&mut rt, &[w(1), w(2), w(2)]);
    assert!(is_continue(&eval(&mut rt, ExternalOpcode::ReturnDataCopy, &mut h)));
    assert_eq!(rt.machine.memory.get(0, 4), vec![0, 3, 4, 0]);
    push_all(&mut rt, &[w(0), w(4), w(0)]);
    assert!(is_continue(&eval(&mut rt, ExternalOpcode::ReturnDataCopy, &mut h)));
    push_all(&mut rt, &[]);
    assert!(is_continue(&eval(&mut rt, ExternalOpcode::ReturnDataSize, &mut h)));
    assert_eq!(rt.machine.stack.peek(0), Ok(w(4)));
}

#[test]
fn extcodecopy_copies_the_code_of_the_handler() {
    let mut rt = runtime(&[]);
    let mut h = Fixed::new();
    push_all(&mut rt, &[w(0x99), w(2), w(1), w(4)]);
    assert!(is_continue(&eval(&mut rt, ExternalOpcode::ExtCodeCopy, &mut h)));
    assert_eq!(rt.machine.memory.get(0, 8), vec![0, 0, 0xc1, 0xc2, 0, 0, 0, 0]);
    assert_eq!(rt.machine.stack.len(), 0);
}

#[test]
fn sstore_hands_the_slot_to_the_handler() {
    // PUSH1 7, PUSH1 3, SSTORE
    let mut rt = runtime(&[0x60, 0x07, 0x60, 0x03, 0x55]);
    let mut h = Fixed::new();
    assert_eq!(run_to_exit(&mut rt, &mut h), ExitReason::Succeed(ExitSucceed::Stopped));
    assert_eq!(h.asked.stored, vec![(addr(0x11), w(3), w(7))]);
}

#[test]
fn refused_write_ends_the_frame_with_the_error() {
    let mut rt = runtime(&[0x60, 0x07, 0x60, 0x03, 0x55, 0x00]);
    let mut h = Fixed::new();
    h.refuse_writes = Some(ExitError::OutOfGas);
    assert_eq!(run_to_exit(&mut rt, &mut h), ExitReason::Error(ExitError::OutOfGas));
    assert_eq!(rt.status, Err(ExitReason::Error(ExitError::OutOfGas)));
    assert_eq!(
        rt.step(&mut h).err().map(|c| matches!(c, Capture::Exit(ExitReason::Error(ExitError::OutOfGas)))),
        Some(true)
    );
}

#[test]
fn log_hands_topics_and_data_to_the_handler() {
    // PUSH1 0xab, PUSH1 0, MSTORE8, PUSH1 9, PUSH1 8, PUSH1 2, PUSH1 0, LOG2
    let mut rt = runtime(&[0x60, 0xab, 0x60, 0x00, 0x53, 0x60, 0x09, 0x60, 0x08, 0x60, 0x02, 0x60, 0x00, 0xa2]);
    let mut h = Fixed::new();
    assert_eq!(run_to_exit(&mut rt, &mut h), ExitReason::Succeed(ExitSucceed::Stopped));
    assert_eq!(h.asked.logged, vec![(addr(0x11), vec![w(8), w(9)], vec![0xab, 0])]);
    assert_eq!(rt.machine.stack.len(), 0);
}

#[test]
fn log_without_its_topics_underflows() {
    let mut rt = runtime(&[0x60, 0x00, 0x60, 0x00, 0xa1]);
    let mut h = Fixed::new();
    assert_eq!(run_to_exit(&mut rt, &mut h), ExitReason::Error(ExitError::StackUnderflow));
    assert!(h.asked.logged.is_empty());
}

#[test]
fn selfdestruct_ends_the_frame() {
    // PUSH1 0x44, SELFDESTRUCT
    let mut rt = runtime(&[0x60, 0x44, 0xff]);
    let mut h = Fixed::new();
    assert_eq!(run_to_exit(&mut rt, &mut h), ExitReason::Succeed(ExitSucceed::Suicided));
    assert_eq!(h.asked.deleted, vec![(addr(0x11), addr(0x44))]);
}

#[test]
fn unknown_opcode_goes_to_the_handler() {
    let mut rt = runtime(&[0x0c]);
    let mut h = Fixed::new();
    assert_eq!(run_to_exit(&mut rt, &mut h), ExitReason::Error(ExitError::OutOfGas));
}

#[test]
fn veto_stops_the_frame_before_the_opcode() {
    let mut rt = runtime(&[0x60, 0x01]);
    let mut h = Fixed::new();
    h.veto = Some(ExitError::Other("no"));
    assert_eq!(run_to_exit(&mut rt, &mut h), ExitReason::Error(ExitError::Other("no")));
    assert_eq!(rt.machine.stack.len(), 0);
    assert_eq!(h.asked.validated, 1);
}

#[test]
fn every_opcode_is_validated_first() {
    let mut rt = runtime(&[0x60, 0x01, 0x30, 0x50, 0x00]);
    let mut h = Fixed::new();
    assert_eq!(run_to_exit(&mut rt, &mut h), ExitReason::Succeed(ExitSucceed::Stopped));
    assert_eq!(h.asked.validated, 4);
}

fn call_args(value: Option<u64>) -> Vec<Word> {
    // gas, to, [value], in_offset, in_len, out_offset, out_len
    let mut args = vec![w(5000), w(0xbb)];
    if let Some(v) = value {
        args.push(w(v));
    }
    args.extend_from_slice(&[w(0), w(2), w(32), w(4)]);
    args
}

#[test]
fn call_asks_the_handler_and_lands_the_output() {
    let mut rt = runtime(&[]);
    rt.return_data_buffer = vec![9, 9];
    let mut h = Fixed::new();
    h.call_answer = Some((ExitReason::Succeed(ExitSucceed::Returned), vec![1, 2, 3, 4, 5, 6]));
    push_all(&mut rt, &call_args(Some(10)));
    assert!(is_continue(&eval(&mut rt, ExternalOpcode::Call, &mut h)));
    assert_eq!(rt.machine.stack.len(), 1);
    assert_eq!(rt.machine.stack.peek(0), Ok(w(1)));
    assert_eq!(rt.return_data_buffer, vec![1, 2, 3, 4, 5, 6]);
    assert_eq!(rt.machine.memory.get(30, 8), vec![0, 0, 1, 2, 3, 4, 0, 0]);
    assert_eq!(rt.machine.memory.effective_len(), Word::from_u64(64));
    assert_eq!(rt.pending, None);
    let (code_address, transfer, input, gas, is_static, ctx) = h.asked.call.take().unwrap();
    assert_eq!(code_address, addr(0xbb));
    assert_eq!(transfer, Some(Transfer { source: addr(0x11), target: addr(0xbb), value: w(10) }));
    assert_eq!(input, vec![0, 0]);
    assert_eq!(gas, Some(5000));
    assert!(!is_static);
    assert_eq!(ctx, Context { address: addr(0xbb), caller: addr(0x11), apparent_value: w(10) });
}

#[test]
fn call_schemes_choose_their_contexts() {
    let ask = |op: ExternalOpcode, value: Option<u64>| {
        let mut rt = runtime(&[]);
        let mut h = Fixed::new();
        h.call_answer = Some((ExitReason::Succeed(ExitSucceed::Stopped), Vec::new()));
        push_all(&mut rt, &call_args(value));
        assert!(is_continue(&eval(&mut rt, op, &mut h)));
        assert_eq!(rt.machine.stack.len(), 1);
        let (code_address, transfer, _, _, is_static, ctx) = h.asked.call.take().unwrap();
        assert_eq!(code_address, addr(0xbb));
        (transfer, is_static, ctx)
    };
    assert_eq!(
        ask(ExternalOpcode::CallCode, Some(10)),
        (None, false, Context { address: addr(0x11), caller: addr(0x11), apparent_value: w(10) })
    );
    assert_eq!(
        ask(ExternalOpcode::DelegateCall, None),
        (None, false, Context { address: addr(0x11), caller: addr(0x22), apparent_value: w(33) })
    );
    assert_eq!(
        ask(ExternalOpcode::StaticCall, None),
        (None, true, Context { address: addr(0xbb), caller: addr(0x11), apparent_value: w(0) })
    );
}

#[test]
fn failed_calls_push_zero() {
    let outcome = |reason: ExitReason| {
        let mut rt = runtime(&[]);
        let mut h = Fixed::new();
        h.call_answer = Some((reason, vec![7, 8]));
        push_all(&mut rt, &call_args(Some(0)));
        let c = eval(&mut rt, ExternalOpcode::Call, &mut h);
        (exit_of(&c), rt.machine.stack.peek(0), rt.machine.memory.get(32, 2), rt.return_data_buffer.clone())
    };
    assert_eq!(
        outcome(ExitReason::Revert(ExitRevert::Reverted)),
        (None, Ok(w(0)), vec![7, 8], vec![7, 8])
    );
    assert_eq!(
        outcome(ExitReason::Error(ExitError::OutOfGas)),
        (None, Ok(w(0)), vec![0, 0], vec![7, 8])
    );
    assert_eq!(
        outcome(ExitReason::Fatal(ExitFatal::NotSupported)),
        (Some(ExitReason::Fatal(ExitFatal::NotSupported)), Ok(w(0)), vec![0, 0], vec![7, 8])
    );
}

#[test]
fn call_without_arguments_underflows() {
    let mut rt = runtime(&[]);
    rt.return_data_buffer = vec![1];
    let mut h = Fixed::new();
    push_all(&mut rt, &call_args(None));
    assert_eq!(
        exit_of(&eval(&mut rt, ExternalOpcode::Call, &mut h)),
        Some(ExitReason::Error(ExitError::StackUnderflow))
    );
    assert!(h.asked.call.is_none());
    assert_eq!(rt.return_data_buffer, Vec::<u8>::new());
}

#[test]
fn call_with_a_window_past_the_limit_is_not_supported() {
    let mut rt = Runtime::new(Vec::new(), Vec::new(), 1024, 64, context());
    let mut h = Fixed::new();
    push_all(&mut rt, &[w(1), w(2), w(0), w(0), w(2), w(60), w(8)]);
    assert_eq!(
        exit_of(&eval(&mut rt, ExternalOpcode::Call, &mut h)),
        Some(ExitReason::Fatal(ExitFatal::NotSupported))
    );
    assert!(h.asked.call.is_none());
    assert_eq!(rt.machine.memory.effective_len(), Word::from_u64(32));
}

#[test]
fn interrupted_call_resumes_with_its_result() {
    // PUSH1 4, PUSH1 0, PUSH1 0, PUSH1 0, PUSH1 0, PUSH1 0xbb, PUSH1 1, CALL, STOP
    let code = [0x60, 0x04, 0x60, 0x00, 0x60, 0x00, 0x60, 0x00, 0x60, 0x00, 0x60, 0xbb, 0x60, 0x01, 0xf1, 0x00];
    let mut rt = runtime(&code);
    let mut h = Fixed::new();
    match rt.run(100, &mut h) {
        Some(Capture::Trap(Interrupt::Call(99))) => {},
        _ => panic!("the call did not interrupt"),
    }
    assert_eq!(rt.pending, Some(Pending::Call { out_offset: w(0), out_len: w(4) }));
    assert_eq!(rt.machine.stack.len(), 0);
    assert_eq!(
        rt.resume_call(ExitReason::Succeed(ExitSucceed::Returned), vec![5, 6]),
        Ok(())
    );
    assert_eq!(rt.machine.stack.peek(0), Ok(w(1)));
    assert_eq!(rt.machine.memory.get(0, 4), vec![5, 6, 0, 0]);
    assert_eq!(rt.return_data_buffer, vec![5, 6]);
    assert_eq!(rt.pending, None);
    assert_eq!(run_to_exit(&mut rt, &mut h), ExitReason::Succeed(ExitSucceed::Stopped));
}

#[test]
fn interrupt_without_an_answer_is_fatal() {
    let code = [0x60, 0x00, 0x60, 0x00, 0x60, 0x00, 0x60, 0x00, 0x60, 0x00, 0x60, 0xbb, 0x60, 0x01, 0xf1, 0x00];
    let mut rt = runtime(&code);
    let mut h = Fixed::new();
    assert!(matches!(rt.run(100, &mut h), Some(Capture::Trap(Interrupt::Call(99)))));
    assert_eq!(
        run_to_exit(&mut rt, &mut h),
        ExitReason::Fatal(ExitFatal::UnhandledInterrupt)
    );
}

#[test]
fn resumed_call_with_a_fatal_result_stops_the_frame() {
    let code = [0x60, 0x00, 0x60, 0x00, 0x60, 0x00, 0x60, 0x00, 0x60, 0x00, 0x60, 0xbb, 0x60, 0x01, 0xf1, 0x00];
    let mut rt = runtime(&code);
    let mut h = Fixed::new();
    assert!(matches!(rt.run(100, &mut h), Some(Capture::Trap(Interrupt::Call(99)))));
    let fatal = ExitReason::Fatal(ExitFatal::CallErrorAsFatal(ExitError::CallTooDeep));
    assert_eq!(rt.resume_call(fatal, Vec::new()), Err(fatal));
    assert_eq!(rt.status, Err(fatal));
    assert_eq!(run_to_exit(&mut rt, &mut h), fatal);
}

#[test]
fn create_asks_the_handler_and_pushes_the_address() {
    let mut rt = runtime(&[]);
    let mut h = Fixed::new();
    h.create_answer = Some((ExitReason::Succeed(ExitSucceed::Returned), Some(addr(0xcafe)), vec![1]));
    rt.machine.memory.resize_offset(w(0), w(32)).unwrap();
    rt.machine.memory.set(0, &[0x60, 0x00], 2).unwrap();
    push_all(&mut rt, &[w(3), w(0), w(2)]);
    assert!(is_continue(&eval(&mut rt, ExternalOpcode::Create, &mut h)));
    assert_eq!(rt.machine.stack.peek(0), Ok(w(0xcafe)));
    assert_eq!(rt.return_data_buffer, vec![1]);
    assert_eq!(
        h.asked.create.take(),
        Some((addr(0x11), CreateScheme::Legacy { caller: addr(0x11) }, w(3), vec![0x60, 0x00]))
    );
}

#[test]
fn create2_hashes_the_code_and_takes_the_salt() {
    let mut rt = runtime(&[]);
    let mut h = Fixed::new();
    h.create_answer = Some((ExitReason::Revert(ExitRevert::Reverted), Some(addr(0xcafe)), vec![4, 4]));
    rt.machine.memory.resize_offset(w(0), w(32)).unwrap();
    rt.machine.memory.set(0, &[0xfe], 1).unwrap();
    push_all(&mut rt, &[w(0), w(0), w(1), w(0x5a17)]);
    assert!(is_continue(&eval(&mut rt, ExternalOpcode::Create2, &mut h)));
    assert_eq!(rt.machine.stack.len(), 1);
    assert_eq!(rt.machine.stack.peek(0), Ok(w(0)));
    assert_eq!(rt.return_data_buffer, vec![4, 4]);
    assert_eq!(
        h.asked.create.take(),
        Some((
            addr(0x11),
            CreateScheme::Create2 { caller: addr(0x11), code_hash: keccak_word(&[0xfe]), salt: w(0x5a17) },
            w(0),
            vec![0xfe]
        ))
    );
}

#[test]
fn interrupted_create_resumes_with_its_result() {
    // PUSH1 0, PUSH1 0, PUSH1 0, CREATE, STOP
    let mut rt = runtime(&[0x60, 0x00, 0x60, 0x00, 0x60, 0x00, 0xf0, 0x00]);
    let mut h = Fixed::new();
    assert!(matches!(rt.run(100, &mut h), Some(Capture::Trap(Interrupt::Create(77)))));
    assert_eq!(rt.pending, Some(Pending::Create));
    assert_eq!(
        rt.resume_create(ExitReason::Succeed(ExitSucceed::Returned), Some(addr(0xd00d)), Vec::new()),
        Ok(())
    );
    assert_eq!(rt.machine.stack.peek(0), Ok(w(0xd00d)));
    assert_eq!(run_to_exit(&mut rt, &mut h), ExitReason::Succeed(ExitSucceed::Stopped));
}

#[test]
fn halves_of_call_and_create_stand_alone() {
    let mut rt = runtime(&[]);
    push_all(&mut rt, &call_args(None));
    let request = prepare_call(&mut rt, CallScheme::StaticCall).ok().unwrap();
    assert!(request.is_static);
    assert_eq!(request.out_offset, w(32));
    assert_eq!(request.out_len, w(4));
    assert_eq!(request.target_gas, Some(5000));
    let c = finish_call(&mut rt, ExitReason::Succeed(ExitSucceed::Stopped), vec![1, 2], w(32), w(4));
    assert_eq!(c, evm::eval::Control::Continue(0));
    assert_eq!(rt.machine.stack.peek(0), Ok(w(1)));
    assert_eq!(rt.machine.memory.get(32, 4), vec![1, 2, 0, 0]);
    push_all(&mut rt, &[w(1), w(0), w(0)]);
    let request = prepare_create(&mut rt, false).ok().unwrap();
    assert_eq!(request.value, w(1));
    assert_eq!(request.init_code, Vec::<u8>::new());
    let c = finish_create(&mut rt, ExitReason::Error(ExitError::CreateCollision), Some(addr(5)), Vec::new());
    assert_eq!(c, evm::eval::Control::Continue(0));
    assert_eq!(rt.machine.stack.peek(0), Ok(w(0)));
}

#[test]
fn inner_opcodes_run_through_the_runtime() {
    let mut rt = runtime(&[0x60, 0x05, 0x60, 0x07, 0x01, 0x60, 0x00, 0x52, 0x60, 0x20, 0x60, 0x00, 0xf3]);
    let mut h = Fixed::new();
    assert_eq!(run_to_exit(&mut rt, &mut h), ExitReason::Succeed(ExitSucceed::Returned));
    let mut expected = vec![0u8; 31];
    expected.push(12);
    assert_eq!(rt.machine.return_value(), expected);
    let m: &Machine = &rt.machine;
    assert_eq!(m.position, Err(ExitReason::Succeed(ExitSucceed::Returned)));
}

#[test]
fn call_with_an_empty_output_window_past_the_limit_succeeds() {
    let mut rt = Runtime::new(Vec::new(), Vec::new(), 1024, 64, context());
    let mut h = Fixed::new();
    h.call_answer = Some((ExitReason::Succeed(ExitSucceed::Stopped), vec![1, 2]));
    // gas, to, value, in_offset, in_len, out_offset, out_len
    push_all(&mut rt, &[w(1), w(0xbb), w(0), w(0), w(0), w(1 << 21), w(0)]);
    assert!(is_continue(&eval(&mut rt, ExternalOpcode::Call, &mut h)));
    assert_eq!(rt.machine.stack.len(), 1);
    assert_eq!(rt.machine.stack.peek(0), Ok(w(1)));
    assert_eq!(rt.return_data_buffer, vec![1, 2]);
    assert_eq!(rt.machine.memory.effective_len(), Word::from_u64(0));
}

#[test]
fn call_that_returns_nothing_to_a_window_past_the_limit_succeeds() {
    let mut rt = Runtime::new(Vec::new(), Vec::new(), 1024, 64, context());
    let c = finish_call(&mut rt, ExitReason::Succeed(ExitSucceed::Stopped), Vec::new(), w(1 << 21), w(8));
    assert_eq!(c, evm::eval::Control::Continue(0));
    assert_eq!(rt.machine.stack.peek(0), Ok(w(1)));
    let c = finish_call(&mut rt, ExitReason::Revert(ExitRevert::Reverted), vec![1], w(1 << 21), w(0));
    assert_eq!(c, evm::eval::Control::Continue(0));
    assert_eq!(rt.machine.stack.peek(0), Ok(w(0)));
}

#[test]
fn resumed_call_with_an_empty_output_window_past_the_limit_succeeds() {
    // PUSH1 0, PUSH3 0x200000, PUSH1 0, PUSH1 0, PUSH1 0, PUSH1 0xbb, PUSH1 1, CALL, STOP
    let code = [
        0x60, 0x00, 0x62, 0x20, 0x00, 0x00, 0x60, 0x00, 0x60, 0x00, 0x60, 0x00, 0x60, 0xbb, 0x60,
        0x01, 0xf1, 0x00,
    ];
    let mut rt = Runtime::new(code.to_vec(), Vec::new(), 1024, 1 << 20, context());
    let mut h = Fixed::new();
    assert!(matches!(rt.run(100, &mut h), Some(Capture::Trap(Interrupt::Call(99)))));
    assert_eq!(rt.pending, Some(Pending::Call { out_offset: w(0x200000), out_len: w(0) }));
    assert_eq!(rt.resume_call(ExitReason::Succeed(ExitSucceed::Stopped), vec![7]), Ok(()));
    assert_eq!(rt.machine.stack.peek(0), Ok(w(1)));
    assert_eq!(rt.return_data_buffer, vec![7]);
    assert_eq!(run_to_exit(&mut rt, &mut h), ExitReason::Succeed(ExitSucceed::Stopped));
}

#[test]
fn zero_length_copies_of_outside_data_do_nothing_past_the_limit() {
    let mut rt = Runtime::new(Vec::new(), Vec::new(), 1024, 64, context());
    rt.return_data_buffer = vec![1, 2, 3];
    let mut h = Fixed::new();
    push_all(&mut rt, &[w(1 << 21), w(3), w(0)]);
    assert!(is_continue(&eval(&mut rt, ExternalOpcode::ReturnDataCopy, &mut h)));
    push_all(&mut rt, &[w(0x99), w(1 << 21), w(0), w(0)]);
    assert!(is_continue(&eval(&mut rt, ExternalOpcode::ExtCodeCopy, &mut h)));
    assert_eq!(rt.machine.stack.len(), 0);
    assert_eq!(rt.machine.memory.effective_len(), Word::from_u64(0));
    push_all(&mut rt, &[w(0x99), w(1 << 21), w(0), w(1)]);
    assert_eq!(
        exit_of(&eval(&mut rt, ExternalOpcode::ExtCodeCopy, &mut h)),
        Some(ExitReason::Fatal(ExitFatal::NotSupported))
    );
}
