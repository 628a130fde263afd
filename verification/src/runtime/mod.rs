//! The runtime: a machine in its context, and the opcodes that need the world around the frame.

pub mod eval;
pub mod handler;
pub mod system;

use vstd::prelude::*;
use crate::eval::memory_kept;
use crate::exit::{ExitError, ExitFatal, ExitReason};
use crate::machine::{Capture, Machine};
use crate::opcode::{ExternalOpcode, Opcode};
use crate::runtime::eval::{eval, external_spec, Control};
use crate::runtime::handler::Handler;
use crate::runtime::system::{finish_call, finish_call_spec, finish_create, finish_create_spec};
use crate::word::{Address, Word};

verus! {

/// Who runs, on whose behalf, with what value.
#[derive(Clone, Copy, PartialEq, Eq, Debug)]
pub struct Context {
    /// The account whose storage and balance the code works on.
    pub address: Address,
    /// The account that called.
    pub caller: Address,
    /// The value that the code sees as sent along.
    pub apparent_value: Word,
}

/// The four ways to call.
#[derive(Clone, Copy, PartialEq, Eq, Debug, Structural)]
pub enum CallScheme {
    /// `CALL`
    Call,
    /// `CALLCODE`
    CallCode,
    /// `DELEGATECALL`
    DelegateCall,
    /// `STATICCALL`
    StaticCall,
}

/// How the address of a created contract is found.
#[derive(Clone, Copy, PartialEq, Eq, Debug)]
pub enum CreateScheme {
    /// From the caller and its nonce.
    Legacy {
        /// The account that creates.
        caller: Address,
    },
    /// From the caller, a salt and the hash of the code.
    Create2 {
        /// The account that creates.
        caller: Address,
        /// The Keccak-256 hash of the code.
        code_hash: Word,
        /// The salt.
        salt: Word,
    },
    /// At a given address.
    Fixed(Address),
}

/// What a runtime waits for while the host runs a nested frame.
#[derive(Clone, Copy, PartialEq, Eq, Debug)]
pub enum Pending {
    /// The result of a call, whose output goes to this window of memory.
    Call {
        /// Where the output goes.
        out_offset: Word,
        /// The most bytes of output that are taken.
        out_len: Word,
    },
    /// The result of a create.
    Create,
}

/// A frame: a machine, its context, and what the last nested frame returned.
pub struct Runtime {
    /// The machine.
    pub machine: Machine,
    /// Whether the frame still runs, or why it stopped.
    pub status: Result<(), ExitReason>,
    /// The data that the last nested call or create returned.
    pub return_data_buffer: Vec<u8>,
    /// The context.
    pub context: Context,
    /// What the frame waits for, while it is interrupted.
    pub pending: Option<Pending>,
}

/// A nested frame that the host is asked to run.
pub enum Interrupt<H: Handler> {
    /// A call.
    Call(H::CallInterrupt),
    /// A create.
    Create(H::CreateInterrupt),
}

/// The frame has stopped for `reason`, and nothing else has changed.
pub open spec fn halted(before: Runtime, after: Runtime, reason: ExitReason) -> bool {
    &&& after.status == Err::<(), ExitReason>(reason)
    &&& after.machine.position == Err::<usize, ExitReason>(reason)
    &&& after.machine.stack@ == before.machine.stack@
    &&& memory_kept(before.machine, after.machine)
    &&& after.machine.follows(before.machine)
    &&& after.context == before.context
    &&& after.pending == before.pending
    &&& after.return_data_buffer@ == before.return_data_buffer@
}

/// What the runtime makes of a step of its machine that left the machine as `mid` and reported
/// `mr`: a step that went on, or stopped, is passed on; an opcode that the machine handed out is
/// run by the runtime, which then goes on, hands an interrupt to the host, or stops.
pub open spec fn went_on<H: Handler>(
    before: Runtime,
    mid: Machine,
    mr: Result<(), Capture<ExitReason, ExternalOpcode>>,
    after: Runtime,
    r: Result<(), Capture<ExitReason, Interrupt<H>>>,
) -> bool {
    let stepped = Runtime { machine: mid, ..before };
    match mr {
        Ok(()) => r == Ok::<(), Capture<ExitReason, Interrupt<H>>>(()) && after == stepped,
        Err(Capture::Exit(e)) => r == Err::<(), Capture<ExitReason, Interrupt<H>>>(
            Capture::Exit(e),
        ) && after == (Runtime { status: Err(e), ..stepped }),
        Err(Capture::Trap(op)) => exists|inner: Runtime, c: Control<H>|
            {
                &&& #[trigger] external_spec(stepped, inner, op, c)
                &&& match c {
                    Control::Continue => r == Ok::<(), Capture<ExitReason, Interrupt<H>>>(())
                        && after == inner,
                    Control::CallInterrupt(i) => r == Err::<
                        (),
                        Capture<ExitReason, Interrupt<H>>,
                    >(Capture::Trap(Interrupt::Call(i))) && after == inner,
                    Control::CreateInterrupt(i) => r == Err::<
                        (),
                        Capture<ExitReason, Interrupt<H>>,
                    >(Capture::Trap(Interrupt::Create(i))) && after == inner,
                    Control::Exit(e) => r == Err::<(), Capture<ExitReason, Interrupt<H>>>(
                        Capture::Exit(e),
                    ) && halted(inner, after, e),
                }
            },
    }
}

/// One step of the runtime. A frame that has stopped stays as it is and reports its exit
/// again. A frame that waits for a nested frame and is stepped without its result stops with
/// `UnhandledInterrupt`. Else the handler is asked about the opcode at the position, and may
/// refuse it with an error, which stops the frame; and if it does not, the machine steps.
pub open spec fn step_spec<H: Handler>(
    before: Runtime,
    after: Runtime,
    r: Result<(), Capture<ExitReason, Interrupt<H>>>,
) -> bool {
    match before.status {
        Err(e) => r == Err::<(), Capture<ExitReason, Interrupt<H>>>(Capture::Exit(e)) && after
            == before,
        Ok(()) => if before.pending.is_some() {
            &&& r == Err::<(), Capture<ExitReason, Interrupt<H>>>(
                Capture::Exit(ExitReason::Fatal(ExitFatal::UnhandledInterrupt)),
            )
            &&& halted(before, after, ExitReason::Fatal(ExitFatal::UnhandledInterrupt))
        } else {
            ||| {
                &&& before.machine.position matches Ok(p)
                &&& p < before.machine.code@.len()
                &&& exists|e: ExitError|
                    {
                        &&& #[trigger] halted(before, after, ExitReason::Error(e))
                        &&& r == Err::<(), Capture<ExitReason, Interrupt<H>>>(
                            Capture::Exit(ExitReason::Error(e)),
                        )
                    }
            }
            ||| exists|mid: Machine, mr: Result<(), Capture<ExitReason, ExternalOpcode>>|
                {
                    &&& #[trigger] crate::machine::step_spec(before.machine, mid, mr)
                    &&& mid.follows(before.machine)
                    &&& went_on(before, mid, mr, after, r)
                }
        },
    }
}

/// Whether each state of `trace` but the last goes over into the next by one step that goes
/// on.
pub open spec fn is_run<H: Handler>(trace: Seq<Runtime>) -> bool {
    forall|i: int|
        0 <= i < trace.len() - 1 ==> #[trigger] step_spec::<H>(
            trace[i],
            trace[i + 1],
            Ok::<(), Capture<ExitReason, Interrupt<H>>>(()),
        )
}

/// A run of at most `max_steps` steps: the runtime steps until a step stops or hands out an
/// interrupt, and reports what that step reported, or it makes `max_steps` steps that go on and
/// reports nothing.
pub open spec fn run_spec<H: Handler>(
    before: Runtime,
    after: Runtime,
    max_steps: usize,
    r: Option<Capture<ExitReason, Interrupt<H>>>,
) -> bool {
    exists|trace: Seq<Runtime>|
        {
            &&& #[trigger] is_run::<H>(trace)
            &&& trace.len() >= 1
            &&& trace[0] == before
            &&& match r {
                None => trace.len() == max_steps + 1 && trace.last() == after,
                Some(c) => trace.len() <= max_steps && step_spec::<H>(
                    trace.last(),
                    after,
                    Err::<(), Capture<ExitReason, Interrupt<H>>>(c),
                ),
            }
        }
}

/// What the runtime makes of the way to go on that the second half of a call or create gave:
/// it goes on, or it stops.
pub open spec fn resumed(
    inner: Runtime,
    after: Runtime,
    c: crate::eval::Control,
    r: Result<(), ExitReason>,
) -> bool {
    match c {
        crate::eval::Control::Exit(e) => r == Err::<(), ExitReason>(e) && halted(inner, after, e),
        _ => r == Ok::<(), ExitReason>(()) && after == inner,
    }
}

impl Runtime {
    /// What holds of a runtime between two steps: the machine is in order, and a frame that has
    /// stopped has a machine that has stopped for the same reason.
    pub open spec fn wf(&self) -> bool {
        &&& self.machine.wf()
        &&& self.status matches Err(e) ==> self.machine.position == Err::<usize, ExitReason>(e)
    }

    /// Whether this runtime is a later state of the frame that `before` is a state of.
    pub open spec fn follows(&self, before: Runtime) -> bool {
        &&& self.machine.follows(before.machine)
        &&& self.context == before.context
    }

    /// Whether nothing changed but the machine.
    pub open spec fn frame_kept(&self, before: Runtime) -> bool {
        &&& self.context == before.context
        &&& self.status == before.status
        &&& self.pending == before.pending
        &&& self.return_data_buffer@ == before.return_data_buffer@
    }

    /// A runtime at the start of `code`.
    pub fn new(
        code: Vec<u8>,
        data: Vec<u8>,
        stack_limit: usize,
        memory_limit: usize,
        context: Context,
    ) -> (r: Runtime)
        ensures
            r.wf(),
            r.machine.code@ == code@,
            r.machine.data@ == data@,
            r.machine.position == Ok::<usize, ExitReason>(0),
            r.machine.stack@ == Seq::<Word>::empty(),
            r.machine.memory@ == Seq::<u8>::empty(),
            r.machine.stack.spec_limit() == stack_limit,
            r.machine.memory.spec_limit() == memory_limit,
            r.machine.return_range == (crate::machine::MemoryRange {
                start: Word::of(0),
                end: Word::of(0),
            }),
            r.status == Ok::<(), ExitReason>(()),
            r.return_data_buffer@ == Seq::<u8>::empty(),
            r.context == context,
            r.pending.is_none(),
    {
        Runtime {
            machine: Machine::new(code, data, stack_limit, memory_limit),
            status: Ok(()),
            return_data_buffer: Vec::new(),
            context,
            pending: None,
        }
    }

    /// Stops the frame for `reason`.
    fn exit(&mut self, reason: ExitReason)
        requires
            old(self).machine.wf(),
        ensures
            final(self).wf(),
            final(self).follows(*old(self)),
            halted(*old(self), *final(self), reason),
    {
        self.machine.position = Err(reason);
        self.status = Err(reason);
    }

    /// Makes one step.
    pub fn step<H: Handler>(&mut self, handler: &mut H) -> (r: Result<
        (),
        Capture<ExitReason, Interrupt<H>>,
    >)
        requires
            old(self).wf(),
            ensures
            final(self).wf(),
            final(self).follows(*old(self)),
                step_spec(*old(self), *final(self), r),
    {
        match self.status {
            Ok(()) => {},
            Err(e) => {
                return Err(Capture::Exit(e));
            },
        }
        if self.pending.is_some() {
            let reason = ExitReason::Fatal(ExitFatal::UnhandledInterrupt);
            self.exit(reason);
            return Err(Capture::Exit(reason));
        }
        match self.machine.position {
            Ok(p) => {
                if p < self.machine.code.len() {
                    let opcode = Opcode::parse(self.machine.code[p]);
                    match handler.pre_validate(&self.context, opcode, &self.machine.stack) {
                        Ok(()) => {},
                        Err(e) => {
                            let reason = ExitReason::Error(e);
                            self.exit(reason);
                            assert(halted(*old(self), *self, ExitReason::Error(e)));
                            return Err(Capture::Exit(reason));
                        },
                    }
                }
            },
            Err(_) => {},
        }
        let mr = self.machine.step();
        let ghost mid = self.machine;
        let ghost stepped = *self;
        assert(crate::machine::step_spec(old(self).machine, mid, mr));
        assert(stepped == (Runtime { machine: mid, ..*old(self) }));
        match mr {
            Ok(()) => Ok(()),
            Err(Capture::Exit(e)) => {
                proof {
                    Machine::lemma_exit_sets_position(old(self).machine, mid, e);
                }
                self.status = Err(e);
                Err(Capture::Exit(e))
            },
            Err(Capture::Trap(opcode)) => {
                let c = eval(self, opcode, handler);
                let ghost inner = *self;
                assert(external_spec(stepped, inner, opcode, c));
                match c {
                    Control::Continue => Ok(()),
                    Control::CallInterrupt(i) => Err(Capture::Trap(Interrupt::Call(i))),
                    Control::CreateInterrupt(i) => Err(Capture::Trap(Interrupt::Create(i))),
                    Control::Exit(e) => {
                        self.exit(e);
                        Err(Capture::Exit(e))
                    },
                }
            },
        }
    }

    /// Steps until a step stops or hands out an interrupt, `max_steps` times at most.
    pub fn run<H: Handler>(&mut self, max_steps: usize, handler: &mut H) -> (r: Option<
        Capture<ExitReason, Interrupt<H>>,
    >)
        requires
            old(self).wf(),
            ensures
            final(self).wf(),
            final(self).follows(*old(self)),
                run_spec(*old(self), *final(self), max_steps, r),
    {
        let ghost mut trace: Seq<Runtime> = seq![*self];
        let mut steps: usize = 0;
        while steps < max_steps
            invariant
                self.wf(),
                self.follows(*old(self)),
                        steps <= max_steps,
                trace.len() == steps + 1,
                trace[0] == *old(self),
                trace.last() == *self,
                is_run::<H>(trace),
            decreases max_steps - steps,
        {
            match self.step(handler) {
                Ok(()) => {
                    proof {
                        trace = trace.push(*self);
                    }
                },
                Err(c) => {
                    assert(is_run::<H>(trace));
                    return Some(c);
                },
            }
            steps = steps + 1;
        }
        assert(is_run::<H>(trace));
        None
    }

    /// Takes the result of the call that the frame waits for: the nested frame ended with
    /// `reason` and returned `return_data`. The second half of the call runs, and the frame goes
    /// on or stops.
    pub fn resume_call(&mut self, reason: ExitReason, return_data: Vec<u8>) -> (r: Result<
        (),
        ExitReason,
    >)
        requires
            old(self).wf(),
            old(self).status.is_ok(),
            old(self).pending matches Some(Pending::Call { .. }),
        ensures
            final(self).wf(),
            final(self).follows(*old(self)),
            old(self).pending matches Some(Pending::Call { out_offset, out_len }) && exists|
                inner: Runtime,
                c: crate::eval::Control,
            |
                {
                    &&& #[trigger] finish_call_spec(
                        *old(self),
                        inner,
                        reason,
                        return_data@,
                        out_offset,
                        out_len,
                        c,
                    )
                    &&& resumed(inner, *final(self), c, r)
                },
    {
        match self.pending {
            Some(Pending::Call { out_offset, out_len }) => {
                let c = finish_call(self, reason, return_data, out_offset, out_len);
                let ghost inner = *self;
                assert(finish_call_spec(
                    *old(self),
                    inner,
                    reason,
                    return_data@,
                    out_offset,
                    out_len,
                    c,
                ));
                match c {
                    crate::eval::Control::Exit(e) => {
                        self.exit(e);
                        Err(e)
                    },
                    _ => Ok(()),
                }
            },
            _ => Ok(()),
        }
    }

    /// Takes the result of the create that the frame waits for: the nested frame ended with
    /// `reason`, created `address` and returned `return_data`. The second half of the create
    /// runs, and the frame goes on or stops.
    pub fn resume_create(
        &mut self,
        reason: ExitReason,
        address: Option<Address>,
        return_data: Vec<u8>,
    ) -> (r: Result<(), ExitReason>)
        requires
            old(self).wf(),
            old(self).status.is_ok(),
            old(self).pending == Some(Pending::Create),
        ensures
            final(self).wf(),
            final(self).follows(*old(self)),
            exists|inner: Runtime, c: crate::eval::Control|
                {
                    &&& #[trigger] finish_create_spec(
                        *old(self),
                        inner,
                        reason,
                        address,
                        return_data@,
                        c,
                    )
                    &&& resumed(inner, *final(self), c, r)
                },
    {
        let c = finish_create(self, reason, address, return_data);
        let ghost inner = *self;
        assert(finish_create_spec(*old(self), inner, reason, address, return_data@, c));
        match c {
            crate::eval::Control::Exit(e) => {
                self.exit(e);
                Err(e)
            },
            _ => Ok(()),
        }
    }
}

} // verus!
