//! How a call to a native contract can end, as the contract reports it and
//! as the interpreter sees it.

use vstd::prelude::*;

verus! {

/// Why a call aborted its whole transaction.
#[derive(Clone, Copy, Debug, PartialEq, Eq, Structural)]
pub enum FatalReason {
    /// A call was dispatched to an address that holds no native contract.
    NotRegistered,
    /// The contract was asked for something it cannot do at all.
    NotSupported,
    /// Any other state that should have been impossible.
    Other,
}

/// A call that ran to completion: what a native contract returns on success.
#[derive(Clone, Debug, PartialEq, Eq)]
pub struct PrecompileOutcome {
    pub output: Vec<u8>,
    pub gas_used: u64,
}

/// A call that did not run to completion: what a native contract returns
/// on failure.
#[derive(Clone, Debug, PartialEq, Eq)]
pub enum PrecompileFailure {
    /// The input was not acceptable, or a condition the caller can see failed.
    Revert { output: Vec<u8>, gas_used: u64 },
    /// The call would have cost more than its budget; nothing was done.
    OutOfGas,
    /// The call would have changed durable state while that was forbidden.
    StaticViolation,
    /// An invariant of the runtime is broken.
    Fatal { reason: FatalReason },
}

/// The outcome of one dispatched call, as handed back to the interpreter.
#[derive(Clone, Debug, PartialEq, Eq)]
pub enum PrecompileResult {
    /// The call succeeded and produced `output`.
    Success { output: Vec<u8>, gas_used: u64 },
    /// The current call frame unwinds; `output` is the revert data.
    Revert { output: Vec<u8>, gas_used: u64 },
    /// The enclosing transaction aborts.
    Fatal { reason: FatalReason },
}

/// A successful run as plain values.
pub struct OutcomeView {
    pub output: Seq<u8>,
    pub gas_used: u64,
}

/// A failed run as plain values.
pub enum FailureView {
    Revert { output: Seq<u8>, gas_used: u64 },
    OutOfGas,
    StaticViolation,
    Fatal { reason: FatalReason },
}

/// A dispatched call's outcome as plain values.
pub enum ResultView {
    Success { output: Seq<u8>, gas_used: u64 },
    Revert { output: Seq<u8>, gas_used: u64 },
    Fatal { reason: FatalReason },
}

impl View for PrecompileOutcome {
    type V = OutcomeView;

    open spec fn view(&self) -> OutcomeView {
        OutcomeView { output: self.output@, gas_used: self.gas_used }
    }
}

impl View for PrecompileFailure {
    type V = FailureView;

    open spec fn view(&self) -> FailureView {
        match self {
            PrecompileFailure::Revert { output, gas_used } => FailureView::Revert {
                output: output@,
                gas_used: *gas_used,
            },
            PrecompileFailure::OutOfGas => FailureView::OutOfGas,
            PrecompileFailure::StaticViolation => FailureView::StaticViolation,
            PrecompileFailure::Fatal { reason } => FailureView::Fatal { reason: *reason },
        }
    }
}

impl View for PrecompileResult {
    type V = ResultView;

    open spec fn view(&self) -> ResultView {
        match self {
            PrecompileResult::Success { output, gas_used } => ResultView::Success {
                output: output@,
                gas_used: *gas_used,
            },
            PrecompileResult::Revert { output, gas_used } => ResultView::Revert {
                output: output@,
                gas_used: *gas_used,
            },
            PrecompileResult::Fatal { reason } => ResultView::Fatal { reason: *reason },
        }
    }
}

/// What a native contract's run returned, as plain values.
pub open spec fn run_view(r: Result<PrecompileOutcome, PrecompileFailure>) -> Result<
    OutcomeView,
    FailureView,
> {
    match r {
        Ok(outcome) => Ok(outcome@),
        Err(failure) => Err(failure@),
    }
}

/// The most gas a call may use: its limit, or all a counter can hold where
/// the call site set none.
pub open spec fn budget(gas_limit: Option<u64>) -> u64 {
    match gas_limit {
        Some(limit) => limit,
        None => u64::MAX,
    }
}

/// The interpreter's view of a run.
///
/// Success stays success and a revert stays a revert, each with the gas the
/// contract reported. Running out of gas is a revert without data that uses
/// up the whole budget; a refused write is a revert without data that uses
/// no gas. A fatal failure stays fatal.
pub open spec fn wrap(gas_limit: Option<u64>, run: Result<OutcomeView, FailureView>) -> ResultView {
    match run {
        Ok(outcome) => ResultView::Success { output: outcome.output, gas_used: outcome.gas_used },
        Err(FailureView::Revert { output, gas_used }) => ResultView::Revert { output, gas_used },
        Err(FailureView::OutOfGas) => ResultView::Revert {
            output: Seq::empty(),
            gas_used: budget(gas_limit),
        },
        Err(FailureView::StaticViolation) => ResultView::Revert {
            output: Seq::empty(),
            gas_used: 0,
        },
        Err(FailureView::Fatal { reason }) => ResultView::Fatal { reason },
    }
}

impl PrecompileResult {
    /// Turns what a native contract returned from a call made under
    /// `gas_limit` into the outcome the interpreter acts on.
    pub fn from_run(gas_limit: Option<u64>, run: Result<PrecompileOutcome, PrecompileFailure>) -> (r:
        PrecompileResult)
        ensures
            r@ == wrap(gas_limit, run_view(run)),
    {
        match run {
            Ok(outcome) => PrecompileResult::Success {
                output: outcome.output,
                gas_used: outcome.gas_used,
            },
            Err(PrecompileFailure::Revert { output, gas_used }) => PrecompileResult::Revert {
                output,
                gas_used,
            },
            Err(PrecompileFailure::OutOfGas) => PrecompileResult::Revert {
                output: Vec::new(),
                gas_used: match gas_limit {
                    Some(limit) => limit,
                    None => u64::MAX,
                },
            },
            Err(PrecompileFailure::StaticViolation) => PrecompileResult::Revert {
                output: Vec::new(),
                gas_used: 0,
            },
            Err(PrecompileFailure::Fatal { reason }) => PrecompileResult::Fatal { reason },
        }
    }

    /// Gas the call used, where the interpreter is told: after success or a revert.
    pub fn gas_used(&self) -> (g: Option<u64>)
        ensures
            g == gas_of(self@),
    {
        match self {
            PrecompileResult::Success { gas_used, .. } => Some(*gas_used),
            PrecompileResult::Revert { gas_used, .. } => Some(*gas_used),
            PrecompileResult::Fatal { .. } => None,
        }
    }
}

/// Gas reported by an outcome; a fatal outcome reports none.
pub open spec fn gas_of(r: ResultView) -> Option<u64> {
    match r {
        ResultView::Success { gas_used, .. } => Some(gas_used),
        ResultView::Revert { gas_used, .. } => Some(gas_used),
        ResultView::Fatal { .. } => None,
    }
}

} // verus!
