//! The interpreter's side of a call: ask whether the target is reserved,
//! dispatch if it is, and settle the frame's gas.

use vstd::prelude::*;
use crate::address::Address;
use crate::context::{CallContext, ContextView};
use crate::outcome::{FatalReason, PrecompileResult, ResultView};
use crate::precompile::Precompile;
use crate::registry::{
    dispatch, law_dispatch_gas_within_limit, law_dispatch_static_reverts, Registry,
};

verus! {

/// What the interpreter does with a call once the registry was asked.
#[derive(Clone, Debug, PartialEq, Eq)]
pub enum CallEffect {
    /// The target is no native contract: load its bytecode and interpret it.
    Interpret,
    /// The call succeeded: hand `output` to the caller and go on with
    /// `gas_left` in the frame.
    Return { output: Vec<u8>, gas_left: u64 },
    /// The call reverted: unwind the current frame, with `output` as the
    /// revert data and `gas_left` in the caller's frame.
    Unwind { output: Vec<u8>, gas_left: u64 },
    /// Abort the whole transaction.
    Abort { reason: FatalReason },
}

/// A call's effect as plain values.
pub enum EffectView {
    Interpret,
    Return { output: Seq<u8>, gas_left: u64 },
    Unwind { output: Seq<u8>, gas_left: u64 },
    Abort { reason: FatalReason },
}

impl View for CallEffect {
    type V = EffectView;

    open spec fn view(&self) -> EffectView {
        match self {
            CallEffect::Interpret => EffectView::Interpret,
            CallEffect::Return { output, gas_left } => EffectView::Return {
                output: output@,
                gas_left: *gas_left,
            },
            CallEffect::Unwind { output, gas_left } => EffectView::Unwind {
                output: output@,
                gas_left: *gas_left,
            },
            CallEffect::Abort { reason } => EffectView::Abort { reason: *reason },
        }
    }
}

/// The effect of an outcome on a frame that held `gas` when it made the
/// call: the gas the outcome reports is taken off. An outcome that reports
/// more than the frame held breaks the rules of the runtime, and aborts.
pub open spec fn settled(gas: u64, outcome: ResultView) -> EffectView {
    match outcome {
        ResultView::Success { output, gas_used } => if gas_used <= gas {
            EffectView::Return { output, gas_left: (gas - gas_used) as u64 }
        } else {
            EffectView::Abort { reason: FatalReason::Other }
        },
        ResultView::Revert { output, gas_used } => if gas_used <= gas {
            EffectView::Unwind { output, gas_left: (gas - gas_used) as u64 }
        } else {
            EffectView::Abort { reason: FatalReason::Other }
        },
        ResultView::Fatal { reason } => EffectView::Abort { reason },
    }
}

/// The calling frame, as far as a call depends on it.
#[derive(Clone, Copy, Debug, PartialEq, Eq, Structural)]
pub struct Frame {
    /// Gas left in the frame.
    pub gas: u64,
    /// Whether the frame may not write durable state.
    pub is_static: bool,
}

/// Whether a call made from `frame` runs static: when the call itself is a
/// static call, or when the frame already is static. A static frame makes
/// no call that is not.
pub open spec fn runs_static(frame: Frame, static_call: bool) -> bool {
    frame.is_static || static_call
}

/// The effect of a call to `address` made from `frame`: interpretation
/// where the address is not reserved, else the settled outcome of the
/// dispatch with all of the frame's gas as the limit.
pub open spec fn routed<P: Precompile>(
    table: Map<Seq<u8>, P>,
    frame: Frame,
    address: Seq<u8>,
    input: Seq<u8>,
    context: ContextView,
    static_call: bool,
) -> EffectView {
    match dispatch(table, address, input, Some(frame.gas), context, runs_static(frame, static_call)) {
        Some(outcome) => settled(frame.gas, outcome),
        None => EffectView::Interpret,
    }
}

/// Takes the gas an outcome reports off a frame that held `gas`.
pub fn settle(gas: u64, outcome: PrecompileResult) -> (effect: CallEffect)
    ensures
        effect@ == settled(gas, outcome@),
{
    match outcome {
        PrecompileResult::Success { output, gas_used } => {
            if gas_used <= gas {
                CallEffect::Return { output, gas_left: gas - gas_used }
            } else {
                CallEffect::Abort { reason: FatalReason::Other }
            }
        },
        PrecompileResult::Revert { output, gas_used } => {
            if gas_used <= gas {
                CallEffect::Unwind { output, gas_left: gas - gas_used }
            } else {
                CallEffect::Abort { reason: FatalReason::Other }
            }
        },
        PrecompileResult::Fatal { reason } => CallEffect::Abort { reason },
    }
}

/// Routes one external call made from `frame`; `static_call` says whether
/// the call itself asks to run static.
///
/// The registry is asked first whether `address` is reserved. If it is
/// not, the call goes to the interpreter. If it is, the contract there
/// runs with the frame's gas as its limit and with the call's context,
/// static if the call or the frame is, and its outcome is settled.
pub fn route_call<P: Precompile>(
    registry: &Registry<P>,
    frame: Frame,
    address: Address,
    input: &[u8],
    context: &CallContext,
    static_call: bool,
) -> (effect: CallEffect)
    ensures
        effect@ == routed(registry@, frame, address@, input@, context@, static_call),
        effect is Interpret <==> !registry@.dom().contains(address@),
{
    if !registry.is_precompile(address) {
        return CallEffect::Interpret;
    }
    let is_static = frame.is_static || static_call;
    match registry.execute(address, input, Some(frame.gas), context, is_static) {
        Some(outcome) => settle(frame.gas, outcome),
        // Not reached: a reserved address always answers.
        None => CallEffect::Abort { reason: FatalReason::NotRegistered },
    }
}

/// A call goes to the interpreter exactly when its address is not reserved.
pub proof fn law_unreserved_falls_through<P: Precompile>(
    table: Map<Seq<u8>, P>,
    frame: Frame,
    address: Seq<u8>,
    input: Seq<u8>,
    context: ContextView,
    static_call: bool,
)
    ensures
        routed(table, frame, address, input, context, static_call) is Interpret
            <==> !table.dom().contains(address),
{
}

/// Routing loses no gas and invents none: after a call that succeeded or
/// reverted, what is left in the frame and what the outcome reported add
/// up to what the frame held. No routed call aborts for spending more
/// than that, and none for want of a contract at a reserved address.
pub proof fn law_routing_conserves_gas<P: Precompile>(
    table: Map<Seq<u8>, P>,
    frame: Frame,
    address: Seq<u8>,
    input: Seq<u8>,
    context: ContextView,
    static_call: bool,
)
    requires
        table.dom().contains(address),
    ensures
        ({
            let outcome = dispatch(
                table,
                address,
                input,
                Some(frame.gas),
                context,
                runs_static(frame, static_call),
            )->0;
            let effect = routed(table, frame, address, input, context, static_call);
            &&& outcome matches ResultView::Success { output, gas_used } ==> gas_used <= frame.gas
                && effect == (EffectView::Return { output, gas_left: (frame.gas - gas_used) as u64 })
            &&& outcome matches ResultView::Revert { output, gas_used } ==> gas_used <= frame.gas
                && effect == (EffectView::Unwind { output, gas_left: (frame.gas - gas_used) as u64 })
            &&& outcome matches ResultView::Fatal { reason } ==> effect == (EffectView::Abort {
                reason,
            })
        }),
{
    law_dispatch_gas_within_limit(
        table,
        address,
        input,
        frame.gas,
        context,
        runs_static(frame, static_call),
    );
}

/// Being static is inherited: a call routed from a static frame to a
/// contract that would write durable state unwinds, whether or not the
/// call itself asked to run static.
pub proof fn law_static_frame_forbids_writes<P: Precompile>(
    table: Map<Seq<u8>, P>,
    frame: Frame,
    address: Seq<u8>,
    input: Seq<u8>,
    context: ContextView,
    static_call: bool,
)
    requires
        frame.is_static || static_call,
        table.dom().contains(address),
        table[address].mutates(input, context),
    ensures
        routed(table, frame, address, input, context, static_call) is Unwind,
{
    law_dispatch_static_reverts(table, address, input, Some(frame.gas), context);
    law_dispatch_gas_within_limit(table, address, input, frame.gas, context, true);
}

} // verus!
