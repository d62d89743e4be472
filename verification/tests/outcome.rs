use loserchain::outcome::{FatalReason, PrecompileFailure, PrecompileOutcome, PrecompileResult};

#[test]
fn success_keeps_output_and_gas() {
    let run = Ok(PrecompileOutcome { output: vec![1, 2], gas_used: 21 });
    assert_eq!(
        PrecompileResult::from_run(Some(30), run),
        PrecompileResult::Success { output: vec![1, 2], gas_used: 21 }
    );
}

#[test]
fn revert_keeps_output_and_gas() {
    let run = Err(PrecompileFailure::Revert { output: vec![0xde, 0xad], gas_used: 5 });
    assert_eq!(
        PrecompileResult::from_run(None, run),
        PrecompileResult::Revert { output: vec![0xde, 0xad], gas_used: 5 }
    );
}

#[test]
fn out_of_gas_is_a_revert_that_uses_the_whole_budget() {
    assert_eq!(
        PrecompileResult::from_run(Some(10), Err(PrecompileFailure::OutOfGas)),
        PrecompileResult::Revert { output: vec![], gas_used: 10 }
    );
    assert_eq!(
        PrecompileResult::from_run(None, Err(PrecompileFailure::OutOfGas)),
        PrecompileResult::Revert { output: vec![], gas_used: u64::MAX }
    );
}

#[test]
fn a_refused_write_is_a_revert_not_a_fatal_failure() {
    assert_eq!(
        PrecompileResult::from_run(Some(50), Err(PrecompileFailure::StaticViolation)),
        PrecompileResult::Revert { output: vec![], gas_used: 0 }
    );
}

#[test]
fn fatal_stays_fatal() {
    for reason in [FatalReason::NotRegistered, FatalReason::NotSupported, FatalReason::Other] {
        assert_eq!(
            PrecompileResult::from_run(Some(50), Err(PrecompileFailure::Fatal { reason })),
            PrecompileResult::Fatal { reason }
        );
    }
}

#[test]
fn gas_used_is_reported_unless_fatal() {
    assert_eq!(PrecompileResult::Success { output: vec![], gas_used: 3 }.gas_used(), Some(3));
    assert_eq!(PrecompileResult::Revert { output: vec![1], gas_used: 4 }.gas_used(), Some(4));
    assert_eq!(PrecompileResult::Fatal { reason: FatalReason::Other }.gas_used(), None);
}
