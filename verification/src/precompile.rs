//! The contract between the runtime and each native contract.

use vstd::prelude::*;
use crate::context::{CallContext, ContextView};
use crate::outcome::{
    budget, run_view, wrap, FailureView, OutcomeView, PrecompileFailure, PrecompileOutcome,
    ResultView,
};

verus! {

/// What every run of a native contract must satisfy, given the gas the call
/// costs under the contract's cost model and whether it would write durable
/// state.
///
/// - The run ends out of gas exactly when the cost exceeds the budget.
/// - A successful run reports the cost as the gas it used.
/// - A revert reports no more gas than the budget.
/// - A call that would write state while writing is forbidden fails, and
///   not fatally.
pub open spec fn lawful(
    cost: nat,
    mutates: bool,
    gas_limit: Option<u64>,
    is_static: bool,
    run: Result<OutcomeView, FailureView>,
) -> bool {
    &&& cost > budget(gas_limit) <==> run == Err::<OutcomeView, FailureView>(FailureView::OutOfGas)
    &&& run matches Ok(outcome) ==> outcome.gas_used == cost
    &&& run matches Err(FailureView::Revert { gas_used, .. }) ==> gas_used <= budget(gas_limit)
    &&& is_static && mutates ==> run is Err && !(run matches Err(FailureView::Fatal { .. }))
}

/// A natively implemented contract bound to a reserved address.
///
/// A contract is a function of its arguments and of what it holds itself:
/// `outcome` is that function, and `run` computes it. It parses and checks
/// the input on its own, and answers every input.
pub trait Precompile {
    /// Gas a call with this input costs.
    spec fn cost(&self, input: Seq<u8>, context: ContextView) -> nat;

    /// Whether a call with this input would write durable state.
    spec fn mutates(&self, input: Seq<u8>, context: ContextView) -> bool;

    /// What a call returns.
    spec fn outcome(
        &self,
        input: Seq<u8>,
        gas_limit: Option<u64>,
        context: ContextView,
        is_static: bool,
    ) -> Result<OutcomeView, FailureView>;

    /// What a call returns obeys the rules for every call.
    proof fn outcome_is_lawful(
        &self,
        input: Seq<u8>,
        gas_limit: Option<u64>,
        context: ContextView,
        is_static: bool,
    )
        ensures
            lawful(
                self.cost(input, context),
                self.mutates(input, context),
                gas_limit,
                is_static,
                self.outcome(input, gas_limit, context, is_static),
            ),
    ;

    /// Serves one call: `input` is the call data, `gas_limit` the gas left
    /// in the calling frame if the call site meters it, and `is_static`
    /// forbids writes to durable state.
    fn run(
        &self,
        input: &[u8],
        gas_limit: Option<u64>,
        context: &CallContext,
        is_static: bool,
    ) -> (r: Result<PrecompileOutcome, PrecompileFailure>)
        ensures
            run_view(r) == self.outcome(input@, gas_limit, context@, is_static),
    ;
}

/// A lawful run that ends in success or in a revert uses no more gas than
/// the call's limit, where it has one.
pub proof fn law_gas_within_limit(
    cost: nat,
    mutates: bool,
    limit: u64,
    is_static: bool,
    run: Result<OutcomeView, FailureView>,
)
    requires
        lawful(cost, mutates, Some(limit), is_static, run),
    ensures
        wrap(Some(limit), run) matches ResultView::Success { gas_used, .. } ==> gas_used <= limit,
        wrap(Some(limit), run) matches ResultView::Revert { gas_used, .. } ==> gas_used <= limit,
{
}

/// A lawful run of a call that would write state, made while writing is
/// forbidden, ends in a revert.
pub proof fn law_static_call_reverts(
    cost: nat,
    gas_limit: Option<u64>,
    run: Result<OutcomeView, FailureView>,
)
    requires
        lawful(cost, true, gas_limit, true, run),
    ensures
        wrap(gas_limit, run) is Revert,
{
}

} // verus!
