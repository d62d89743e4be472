use loserchain::address::Address;
use loserchain::context::CallContext;
use loserchain::identity::Identity;
use loserchain::outcome::{FatalReason, PrecompileResult};
use loserchain::precompiles::LoserPrecompiles;
use loserchain::registry::Registry;
use loserchain::router::{route_call, settle, CallEffect, Frame};

fn reserved(last: u8) -> Address {
    let mut bytes = [0u8; 20];
    bytes[19] = last;
    Address::new(bytes)
}

fn frame(gas: u64) -> Frame {
    Frame { gas, is_static: false }
}

fn frame_context() -> CallContext {
    CallContext {
        address: reserved(1),
        caller: reserved(0x10),
        apparent_value: [0u8; 32],
        block_number: 1,
        timestamp: 2,
    }
}

#[test]
fn unreserved_address_goes_to_the_interpreter() {
    let registry = Registry::build(vec![(reserved(1), Identity)]).unwrap();
    assert_eq!(
        route_call(&registry, frame(100), reserved(2), &[1], &frame_context(), false),
        CallEffect::Interpret
    );
}

#[test]
fn reserved_address_returns_and_pays() {
    let registry = Registry::build(vec![(reserved(1), Identity)]).unwrap();
    assert_eq!(
        route_call(&registry, frame(100), reserved(1), &[1, 2, 3], &frame_context(), false),
        CallEffect::Return { output: vec![1, 2, 3], gas_left: 85 }
    );
    assert_eq!(
        route_call(&registry, frame(15), reserved(1), &[1, 2, 3], &frame_context(), true),
        CallEffect::Return { output: vec![1, 2, 3], gas_left: 0 }
    );
}

#[test]
fn out_of_gas_unwinds_with_nothing_left() {
    let registry = Registry::build(vec![(reserved(1), Identity)]).unwrap();
    assert_eq!(
        route_call(&registry, frame(10), reserved(1), &[1, 2, 3], &frame_context(), false),
        CallEffect::Unwind { output: vec![], gas_left: 0 }
    );
}

#[test]
fn the_chain_set_always_falls_through() {
    let set: LoserPrecompiles<()> = LoserPrecompiles::new();
    for last in [0u8, 1, 2, 9, 255] {
        assert_eq!(
            route_call(set.registry(), frame(1000), reserved(last), &[last], &frame_context(), false),
            CallEffect::Interpret
        );
    }
}

#[test]
fn settle_takes_reported_gas_off_the_frame() {
    assert_eq!(
        settle(50, PrecompileResult::Success { output: vec![1], gas_used: 20 }),
        CallEffect::Return { output: vec![1], gas_left: 30 }
    );
    assert_eq!(
        settle(50, PrecompileResult::Revert { output: vec![2], gas_used: 50 }),
        CallEffect::Unwind { output: vec![2], gas_left: 0 }
    );
    assert_eq!(
        settle(50, PrecompileResult::Fatal { reason: FatalReason::NotSupported }),
        CallEffect::Abort { reason: FatalReason::NotSupported }
    );
}

#[test]
fn settle_aborts_on_overspending() {
    assert_eq!(
        settle(50, PrecompileResult::Success { output: vec![1], gas_used: 51 }),
        CallEffect::Abort { reason: FatalReason::Other }
    );
    assert_eq!(
        settle(0, PrecompileResult::Revert { output: vec![], gas_used: 1 }),
        CallEffect::Abort { reason: FatalReason::Other }
    );
}

#[test]
fn a_static_frame_still_reaches_a_contract_that_writes_nothing() {
    let registry = Registry::build(vec![(reserved(1), Identity)]).unwrap();
    let from_static = Frame { gas: 40, is_static: true };
    assert_eq!(
        route_call(&registry, from_static, reserved(1), &[6], &frame_context(), false),
        CallEffect::Return { output: vec![6], gas_left: 25 }
    );
    assert_eq!(
        route_call(&registry, from_static, reserved(3), &[6], &frame_context(), false),
        CallEffect::Interpret
    );
}
