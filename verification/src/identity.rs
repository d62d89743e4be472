//! The identity contract: returns its input.

use vstd::prelude::*;
use crate::context::{CallContext, ContextView};
use crate::outcome::{budget, FailureView, OutcomeView, PrecompileFailure, PrecompileOutcome};
use crate::precompile::Precompile;

verus! {

/// Gas every call to the identity contract costs.
pub const IDENTITY_COST: u64 = 15;

/// A native contract that echoes its call data at a flat price and writes
/// no state.
#[derive(Clone, Copy, Debug)]
pub struct Identity;

impl Precompile for Identity {
    open spec fn cost(&self, input: Seq<u8>, context: ContextView) -> nat {
        IDENTITY_COST as nat
    }

    open spec fn mutates(&self, input: Seq<u8>, context: ContextView) -> bool {
        false
    }

    open spec fn outcome(
        &self,
        input: Seq<u8>,
        gas_limit: Option<u64>,
        context: ContextView,
        is_static: bool,
    ) -> Result<OutcomeView, FailureView> {
        if IDENTITY_COST > budget(gas_limit) {
            Err(FailureView::OutOfGas)
        } else {
            Ok(OutcomeView { output: input, gas_used: IDENTITY_COST })
        }
    }

    proof fn outcome_is_lawful(
        &self,
        input: Seq<u8>,
        gas_limit: Option<u64>,
        context: ContextView,
        is_static: bool,
    ) {
    }

    fn run(
        &self,
        input: &[u8],
        gas_limit: Option<u64>,
        context: &CallContext,
        is_static: bool,
    ) -> (r: Result<PrecompileOutcome, PrecompileFailure>) {
        if let Some(limit) = gas_limit {
            if IDENTITY_COST > limit {
                return Err(PrecompileFailure::OutOfGas);
            }
        }
        Ok(PrecompileOutcome { output: copy_of(input), gas_used: IDENTITY_COST })
    }
}

/// A fresh vector with the bytes of `input`.
fn copy_of(input: &[u8]) -> (output: Vec<u8>)
    ensures
        output@ == input@,
{
    let mut output: Vec<u8> = Vec::new();
    let mut i: usize = 0;
    while i < input.len()
        invariant
            i <= input@.len(),
            output@ == input@.subrange(0, i as int),
        decreases input@.len() - i,
    {
        output.push(input[i]);
        assert(output@ =~= input@.subrange(0, i + 1));
        i += 1;
    }
    assert(input@.subrange(0, i as int) =~= input@);
    output
}

} // verus!
