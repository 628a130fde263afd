//! The dispatch of the opcodes that the machine hands to the runtime.

use vstd::prelude::*;
use crate::exit::{ExitError, ExitReason};
use crate::opcode::ExternalOpcode;
use crate::runtime::handler::Handler;
use crate::runtime::system;
use crate::runtime::{CallScheme, Runtime};
use crate::word::Word;

verus! {

/// What the runtime does after an opcode that it ran itself.
pub enum Control<H: Handler> {
    /// Go on.
    Continue,
    /// Wait: the handler has started a call and the host is to run it.
    CallInterrupt(H::CallInterrupt),
    /// Wait: the handler has started a create and the host is to run it.
    CreateInterrupt(H::CreateInterrupt),
    /// Stop, for this reason.
    Exit(ExitReason),
}

/// The way to go on that the runtime makes of what an opcode decided.
pub open spec fn lifted<H: Handler>(c: crate::eval::Control) -> Control<H> {
    match c {
        crate::eval::Control::Exit(e) => Control::Exit(e),
        _ => Control::Continue,
    }
}

/// What the opcode `opcode` makes of the runtime, where it is none that starts a nested frame.
/// An unknown opcode goes to the handler, which takes it or refuses with an error.
pub open spec fn system_spec(
    before: Runtime,
    after: Runtime,
    opcode: ExternalOpcode,
    c: crate::eval::Control,
) -> bool {
    match opcode {
        ExternalOpcode::Sha3 => system::sha3_spec(before, after, c),
        ExternalOpcode::Address => system::tells(
            before,
            after,
            c,
            Word::of(before.context.address@),
        ),
        ExternalOpcode::Caller => system::tells(before, after, c, Word::of(before.context.caller@)),
        ExternalOpcode::CallValue => system::tells(before, after, c, before.context.apparent_value),
        ExternalOpcode::ReturnDataSize => system::tells(
            before,
            after,
            c,
            Word::of(before.return_data_buffer@.len()),
        ),
        ExternalOpcode::ReturnDataCopy => system::returndatacopy_spec(before, after, c),
        ExternalOpcode::Balance
        | ExternalOpcode::ExtCodeSize
        | ExternalOpcode::ExtCodeHash
        | ExternalOpcode::BlockHash
        | ExternalOpcode::SLoad => system::answers(before, after, c, 1),
        ExternalOpcode::SelfBalance
        | ExternalOpcode::Origin
        | ExternalOpcode::GasPrice
        | ExternalOpcode::Coinbase
        | ExternalOpcode::Timestamp
        | ExternalOpcode::Number
        | ExternalOpcode::Difficulty
        | ExternalOpcode::GasLimit
        | ExternalOpcode::ChainId
        | ExternalOpcode::Gas => system::answers(before, after, c, 0),
        ExternalOpcode::ExtCodeCopy => system::extcodecopy_spec(before, after, c),
        ExternalOpcode::SStore => system::sstore_spec(before, after, c),
        ExternalOpcode::Log(n) => system::log_spec(before, after, c, n),
        ExternalOpcode::Suicide => system::suicide_spec(before, after, c),
        ExternalOpcode::Other(_) => {
            &&& after.frame_kept(before)
            &&& exists|result: Result<(), ExitError>| c == #[trigger] system::settled(result)
        },
        _ => false,
    }
}

/// What the opcode `opcode` makes of the runtime, and how the runtime is to go on.
pub open spec fn external_spec<H: Handler>(
    before: Runtime,
    after: Runtime,
    opcode: ExternalOpcode,
    r: Control<H>,
) -> bool {
    match opcode {
        ExternalOpcode::Create => system::create_spec(before, after, false, r),
        ExternalOpcode::Create2 => system::create_spec(before, after, true, r),
        ExternalOpcode::Call => system::call_spec(before, after, CallScheme::Call, r),
        ExternalOpcode::CallCode => system::call_spec(before, after, CallScheme::CallCode, r),
        ExternalOpcode::DelegateCall => system::call_spec(
            before,
            after,
            CallScheme::DelegateCall,
            r,
        ),
        ExternalOpcode::StaticCall => system::call_spec(before, after, CallScheme::StaticCall, r),
        _ => exists|c: crate::eval::Control|
            {
                &&& #[trigger] system_spec(before, after, opcode, c)
                &&& r == lifted::<H>(c)
            },
    }
}

/// Makes the runtime's way to go on of what an opcode decided.
fn lift<H: Handler>(c: crate::eval::Control) -> (r: Control<H>)
    ensures
        r == lifted::<H>(c),
{
    match c {
        crate::eval::Control::Exit(e) => Control::Exit(e),
        _ => Control::Continue,
    }
}

/// Executes an opcode that the machine has handed to the runtime.
pub fn eval<H: Handler>(state: &mut Runtime, opcode: ExternalOpcode, handler: &mut H) -> (r:
    Control<H>)
    requires
        old(state).wf(),
    ensures
        final(state).wf(),
        final(state).follows(*old(state)),
        final(state).machine.position == old(state).machine.position,
        external_spec(*old(state), *final(state), opcode, r),
{
    let c = match opcode {
        ExternalOpcode::Sha3 => system::sha3(state),
        ExternalOpcode::Address => system::address(state),
        ExternalOpcode::Balance => system::balance(state, handler),
        ExternalOpcode::SelfBalance => system::selfbalance(state, handler),
        ExternalOpcode::Origin => system::origin(state, handler),
        ExternalOpcode::Caller => system::caller(state),
        ExternalOpcode::CallValue => system::callvalue(state),
        ExternalOpcode::GasPrice => system::gasprice(state, handler),
        ExternalOpcode::ExtCodeSize => system::extcodesize(state, handler),
        ExternalOpcode::ExtCodeHash => system::extcodehash(state, handler),
        ExternalOpcode::ExtCodeCopy => system::extcodecopy(state, handler),
        ExternalOpcode::ReturnDataSize => system::returndatasize(state),
        ExternalOpcode::ReturnDataCopy => system::returndatacopy(state),
        ExternalOpcode::BlockHash => system::blockhash(state, handler),
        ExternalOpcode::Coinbase => system::coinbase(state, handler),
        ExternalOpcode::Timestamp => system::timestamp(state, handler),
        ExternalOpcode::Number => system::number(state, handler),
        ExternalOpcode::Difficulty => system::difficulty(state, handler),
        ExternalOpcode::GasLimit => system::gaslimit(state, handler),
        ExternalOpcode::SLoad => system::sload(state, handler),
        ExternalOpcode::SStore => system::sstore(state, handler),
        ExternalOpcode::Gas => system::gas(state, handler),
        ExternalOpcode::Log(n) => system::log(state, n, handler),
        ExternalOpcode::Suicide => system::suicide(state, handler),
        ExternalOpcode::ChainId => system::chainid(state, handler),
        ExternalOpcode::Create => {
            return system::create(state, false, handler);
        },
        ExternalOpcode::Create2 => {
            return system::create(state, true, handler);
        },
        ExternalOpcode::Call => {
            return system::call(state, CallScheme::Call, handler);
        },
        ExternalOpcode::CallCode => {
            return system::call(state, CallScheme::CallCode, handler);
        },
        ExternalOpcode::DelegateCall => {
            return system::call(state, CallScheme::DelegateCall, handler);
        },
        ExternalOpcode::StaticCall => {
            return system::call(state, CallScheme::StaticCall, handler);
        },
        ExternalOpcode::Other(opcode) => {
            let result = handler.other(opcode, &mut state.machine);
            let c = system::settle(result);
            assert(c == system::settled(result));
            c
        },
    };
    assert(system_spec(*old(state), *state, opcode, c));
    lift(c)
}

} // verus!
