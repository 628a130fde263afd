//! The state of one frame.

use vstd::prelude::*;
use crate::eval::{eval, eval_spec, lemma_jump_lands, memory_kept, Control};
use crate::exit::{ExitReason, ExitSucceed};
use crate::opcode::{ExternalOpcode, Opcode};
use crate::memory::Memory;
use crate::stack::Stack;
use crate::valids::Valids;
use crate::word::Word;

verus! {

/// Either the end of a piece of work, or a request that somebody else goes on with it.
#[derive(PartialEq, Eq, Debug)]
pub enum Capture<E, T> {
    /// The work ended.
    Exit(E),
    /// The work stopped and waits.
    Trap(T),
}

/// The window of memory that `RETURN` or `REVERT` chose, from `start` up to `end`.
#[derive(Clone, Copy, PartialEq, Eq, Debug)]
pub struct MemoryRange {
    pub start: Word,
    pub end: Word,
}

/// Where the machine reads next after an instruction at `p` that ended in `c`. A step past the
/// end of the code stops at the end.
pub open spec fn position_after(before: Machine, p: usize, c: Control) -> Result<
    usize,
    ExitReason,
> {
    match c {
        Control::Continue(k) => Ok(
            if p + k <= before.code@.len() {
                (p + k) as usize
            } else {
                before.code@.len() as usize
            },
        ),
        Control::Jump(d) => Ok(d),
        Control::Exit(e) => Err(e),
    }
}

/// What a step reports for an instruction that ended in `c`.
pub open spec fn outcome(c: Control) -> Result<(), Capture<ExitReason, ExternalOpcode>> {
    match c {
        Control::Exit(e) => Err(Capture::Exit(e)),
        _ => Ok(()),
    }
}

/// One step of the machine. A machine that has stopped stays as it is and reports its exit
/// again. At the end of the code the machine stops. An opcode of the frame is executed; any
/// other is stepped over and reported as a trap.
pub open spec fn step_spec(
    before: Machine,
    after: Machine,
    r: Result<(), Capture<ExitReason, ExternalOpcode>>,
) -> bool {
    match before.position {
        Err(reason) => r == Err::<(), Capture<ExitReason, ExternalOpcode>>(Capture::Exit(reason))
            && after.same_state(before),
        Ok(p) => if p >= before.code@.len() {
            &&& r == Err::<(), Capture<ExitReason, ExternalOpcode>>(
                Capture::Exit(ExitReason::Succeed(ExitSucceed::Stopped)),
            )
            &&& after.position == Err::<usize, ExitReason>(
                ExitReason::Succeed(ExitSucceed::Stopped),
            )
            &&& after.stack@ == before.stack@
            &&& memory_kept(before, after)
        } else {
            match Opcode::decode(before.code@[p as int]) {
                Err(external) => {
                    &&& r == Err::<(), Capture<ExitReason, ExternalOpcode>>(
                        Capture::Trap(external),
                    )
                    &&& after.position == Ok::<usize, ExitReason>((p + 1) as usize)
                    &&& after.stack@ == before.stack@
                    &&& memory_kept(before, after)
                },
                Ok(op) => exists|c: Control|
                    {
                        &&& #[trigger] eval_spec(before, after, op, p, c)
                        &&& after.position == position_after(before, p, c)
                        &&& r == outcome(c)
                    },
            }
        },
    }
}

/// Whether each state of `trace` but the last goes over into the next by one step that does
/// not stop.
pub open spec fn is_run(trace: Seq<Machine>) -> bool {
    forall|i: int|
        0 <= i < trace.len() - 1 ==> #[trigger] step_spec(
            trace[i],
            trace[i + 1],
            Ok::<(), Capture<ExitReason, ExternalOpcode>>(()),
        )
}

/// A run of at most `max_steps` steps: the machine steps until a step stops, and reports what
/// that step reported, or it makes `max_steps` steps that do not stop and reports nothing.
pub open spec fn run_spec(
    before: Machine,
    after: Machine,
    max_steps: usize,
    r: Option<Capture<ExitReason, ExternalOpcode>>,
) -> bool {
    exists|trace: Seq<Machine>|
        {
            &&& #[trigger] is_run(trace)
            &&& trace.len() >= 1
            &&& trace[0] == before
            &&& match r {
                None => trace.len() == max_steps + 1 && trace.last() == after,
                Some(c) => trace.len() <= max_steps && step_spec(
                    trace.last(),
                    after,
                    Err::<(), Capture<ExitReason, ExternalOpcode>>(c),
                ),
            }
        }
}

/// The interpreter state of one frame.
pub struct Machine {
    /// The call data.
    pub data: Vec<u8>,
    /// The code that runs.
    pub code: Vec<u8>,
    /// Where the next opcode is read, or why the frame stopped.
    pub position: Result<usize, ExitReason>,
    /// The window of memory that the last `RETURN` or `REVERT` chose.
    pub return_range: MemoryRange,
    /// The jump destinations of the code.
    pub valids: Valids,
    /// The scratch memory.
    pub memory: Memory,
    /// The word stack.
    pub stack: Stack,
}

impl Machine {
    /// What holds of a machine between two instructions: stack and memory are in order, the
    /// jump table is that of the code, and the position is not past the end of the code.
    pub open spec fn wf(&self) -> bool {
        &&& self.stack.wf()
        &&& self.memory.wf()
        &&& self.valids.matches(self.code@)
        &&& self.code@.len() <= usize::MAX
        &&& self.position matches Ok(p) ==> p <= self.code@.len()
    }

    /// Whether this machine is a later state of the frame that `before` is a state of: code,
    /// call data, jump table and limits are the same, and the memory has not become shorter.
    pub open spec fn follows(&self, before: Machine) -> bool {
        &&& self.code@ == before.code@
        &&& self.data@ == before.data@
        &&& self.valids@ == before.valids@
        &&& self.stack.spec_limit() == before.stack.spec_limit()
        &&& self.memory.spec_limit() == before.memory.spec_limit()
        &&& self.memory@.len() >= before.memory@.len()
    }

    /// Whether the two states differ in nothing that code can observe.
    pub open spec fn same_state(&self, before: Machine) -> bool {
        &&& self.follows(before)
        &&& self.position == before.position
        &&& self.return_range == before.return_range
        &&& self.stack@ == before.stack@
        &&& self.memory@ == before.memory@
    }

    /// The stack depth stays within the limit, and the effective memory length is a multiple
    /// of 32, in every state.
    pub proof fn lemma_bounds(self)
        requires
            self.wf(),
        ensures
            0 <= self.stack@.len() <= self.stack.spec_limit(),
            self.memory@.len() % 32 == 0,
    {
        self.memory.lemma_aligned();
    }

    /// A machine at the start of `code`, with empty stack and memory.
    pub fn new(code: Vec<u8>, data: Vec<u8>, stack_limit: usize, memory_limit: usize) -> (r:
        Machine)
        ensures
            r.wf(),
            r.code@ == code@,
            r.data@ == data@,
            r.position == Ok::<usize, ExitReason>(0),
            r.stack@ == Seq::<Word>::empty(),
            r.memory@ == Seq::<u8>::empty(),
            r.stack.spec_limit() == stack_limit,
            r.memory.spec_limit() == memory_limit,
            r.return_range == (MemoryRange { start: Word::of(0), end: Word::of(0) }),
    {
        let valids = Valids::new(code.as_slice());
        assert(code.len() <= usize::MAX);
        Machine {
            data,
            code,
            position: Ok(0),
            return_range: MemoryRange { start: Word::zero(), end: Word::zero() },
            valids,
            memory: Memory::new(memory_limit),
            stack: Stack::new(stack_limit),
        }
    }

    /// Once a step has reported an exit, every later step reports the same exit and changes
    /// nothing.
    pub proof fn lemma_exit_is_final(
        before: Machine,
        stopped: Machine,
        later: Machine,
        reason: ExitReason,
        r: Result<(), Capture<ExitReason, ExternalOpcode>>,
    )
        requires
            step_spec(
                before,
                stopped,
                Err::<(), Capture<ExitReason, ExternalOpcode>>(Capture::Exit(reason)),
            ),
            step_spec(stopped, later, r),
        ensures
            r == Err::<(), Capture<ExitReason, ExternalOpcode>>(Capture::Exit(reason)),
            later.same_state(stopped),
    {
    }

    /// A step that reports an exit leaves the machine stopped for that reason.
    pub proof fn lemma_exit_sets_position(before: Machine, after: Machine, reason: ExitReason)
        requires
            step_spec(
                before,
                after,
                Err::<(), Capture<ExitReason, ExternalOpcode>>(Capture::Exit(reason)),
            ),
        ensures
            after.position == Err::<usize, ExitReason>(reason),
    {
    }

    /// Executes the instruction at the position, if the machine has not stopped.
    pub fn step(&mut self) -> (r: Result<(), Capture<ExitReason, ExternalOpcode>>)
        requires
            old(self).wf(),
        ensures
            final(self).wf(),
            final(self).follows(*old(self)),
            step_spec(*old(self), *final(self), r),
    {
        let position = match self.position {
            Ok(p) => p,
            Err(reason) => {
                return Err(Capture::Exit(reason));
            },
        };
        let len: usize = self.code.len();
        if position >= len {
            let reason = ExitReason::Succeed(ExitSucceed::Stopped);
            self.position = Err(reason);
            return Err(Capture::Exit(reason));
        }
        match Opcode::parse(self.code[position]) {
            Ok(opcode) => {
                proof {
                    Opcode::lemma_decode_ranges(self.code@[position as int]);
                }
                let control = eval(self, opcode, position);
                let r = match control {
                    Control::Continue(k) => {
                        self.position = Ok(
                            if k <= len - position {
                                position + k
                            } else {
                                len
                            },
                        );
                        Ok(())
                    },
                    Control::Exit(e) => {
                        self.position = Err(e);
                        Err(Capture::Exit(e))
                    },
                    Control::Jump(p) => {
                        proof {
                            lemma_jump_lands(*old(self), *self, opcode, position, p);
                        }
                        self.position = Ok(p);
                        Ok(())
                    },
                };
                assert(eval_spec(*old(self), *self, opcode, position, control));
                r
            },
            Err(external) => {
                self.position = Ok(position + 1);
                Err(Capture::Trap(external))
            },
        }
    }

    /// Steps until a step stops, `max_steps` times at most.
    pub fn run(&mut self, max_steps: usize) -> (r: Option<Capture<ExitReason, ExternalOpcode>>)
        requires
            old(self).wf(),
        ensures
            final(self).wf(),
            final(self).follows(*old(self)),
            run_spec(*old(self), *final(self), max_steps, r),
    {
        let ghost mut trace: Seq<Machine> = seq![*self];
        let mut steps: usize = 0;
        while steps < max_steps
            invariant
                self.wf(),
                self.follows(*old(self)),
                steps <= max_steps,
                trace.len() == steps + 1,
                trace[0] == *old(self),
                trace.last() == *self,
                is_run(trace),
            decreases max_steps - steps,
        {
            match self.step() {
                Ok(()) => {
                    proof {
                        trace = trace.push(*self);
                    }
                },
                Err(c) => {
                    assert(is_run(trace));
                    return Some(c);
                },
            }
            steps = steps + 1;
        }
        assert(is_run(trace));
        None
    }

    /// The bytes of the window that `RETURN` or `REVERT` chose. A window that cannot be
    /// addressed reads as empty.
    pub fn return_value(&self) -> (r: Vec<u8>)
        requires
            self.wf(),
        ensures
            r@ == crate::memory::read(
                self.memory@,
                self.return_range.start@,
                if self.return_range.start@ <= self.return_range.end@ <= usize::MAX {
                    (self.return_range.end@ - self.return_range.start@) as nat
                } else {
                    0
                },
            ),
    {
        let start = self.return_range.start.to_usize();
        let end = self.return_range.end.to_usize();
        match (start, end) {
            (Some(s), Some(e)) => {
                if s <= e {
                    self.memory.get(s, e - s)
                } else {
                    let r = Vec::new();
                    assert(r@ =~= crate::memory::read(self.memory@, self.return_range.start@, 0));
                    r
                }
            },
            _ => {
                let r = Vec::new();
                assert(r@ =~= crate::memory::read(self.memory@, self.return_range.start@, 0));
                r
            },
        }
    }
}

} // verus!
