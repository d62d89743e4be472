use loserchain::address::Address;
use loserchain::context::CallContext;
use loserchain::identity::{Identity, IDENTITY_COST};
use loserchain::outcome::{PrecompileFailure, PrecompileOutcome, PrecompileResult};
use loserchain::precompile::Precompile;
use loserchain::precompiles::Native;
use loserchain::registry::{Registry, RegistryError};

fn low(last: u8) -> Address {
    let mut bytes = [0u8; 20];
    bytes[19] = last;
    Address::new(bytes)
}

fn context() -> CallContext {
    CallContext {
        address: low(1),
        caller: low(0xaa),
        apparent_value: [0u8; 32],
        block_number: 7,
        timestamp: 1_700_000_000,
    }
}

fn identity_at(addresses: &[Address]) -> Registry<Identity> {
    let config: Vec<(Address, Identity)> = addresses.iter().map(|a| (*a, Identity)).collect();
    Registry::build(config).unwrap()
}

fn identity_at_one() -> Registry<Identity> {
    identity_at(&[low(1)])
}

#[test]
fn new_registry_reserves_nothing() {
    let registry: Registry<Identity> = Registry::new();
    assert_eq!(registry.len(), 0);
    assert!(registry.used_address().is_empty());
    assert!(!registry.is_precompile(low(1)));
    assert_eq!(registry.execute(low(1), &[1], Some(20), &context(), false), None);
}

#[test]
fn identity_echoes_for_fifteen_gas() {
    let registry = identity_at_one();
    let input = [0xde, 0xad, 0xbe, 0xef];
    assert_eq!(
        registry.execute(low(1), &input, Some(20), &context(), false),
        Some(PrecompileResult::Success { output: input.to_vec(), gas_used: 15 })
    );
    assert_eq!(IDENTITY_COST, 15);
}

#[test]
fn identity_runs_out_of_gas_below_fifteen() {
    let registry = identity_at_one();
    assert_eq!(
        Identity.run(&[1, 2, 3], Some(10), &context(), false),
        Err(PrecompileFailure::OutOfGas)
    );
    assert_eq!(
        registry.execute(low(1), &[1, 2, 3], Some(10), &context(), false),
        Some(PrecompileResult::Revert { output: vec![], gas_used: 10 })
    );
}

#[test]
fn identity_at_the_exact_price() {
    let registry = identity_at_one();
    assert_eq!(
        registry.execute(low(1), &[7], Some(15), &context(), false),
        Some(PrecompileResult::Success { output: vec![7], gas_used: 15 })
    );
    assert_eq!(
        registry.execute(low(1), &[7], Some(14), &context(), false),
        Some(PrecompileResult::Revert { output: vec![], gas_used: 14 })
    );
    assert_eq!(
        registry.execute(low(1), &[7], Some(0), &context(), false),
        Some(PrecompileResult::Revert { output: vec![], gas_used: 0 })
    );
}

#[test]
fn identity_without_a_limit_still_reports_its_cost() {
    let registry = identity_at_one();
    assert_eq!(
        registry.execute(low(1), &[], None, &context(), false),
        Some(PrecompileResult::Success { output: vec![], gas_used: 15 })
    );
    assert_eq!(
        Identity.run(&[4, 5], None, &context(), false),
        Ok(PrecompileOutcome { output: vec![4, 5], gas_used: 15 })
    );
}

#[test]
fn identity_succeeds_in_a_static_call() {
    let registry = identity_at_one();
    assert_eq!(
        registry.execute(low(1), &[9, 8], Some(20), &context(), true),
        Some(PrecompileResult::Success { output: vec![9, 8], gas_used: 15 })
    );
}

#[test]
fn identity_ignores_the_context() {
    let registry = identity_at_one();
    let mut other = context();
    other.caller = low(0xbb);
    other.apparent_value = [0x11; 32];
    other.block_number = 99;
    other.timestamp = 1;
    assert_eq!(
        registry.execute(low(1), &[5], Some(20), &context(), false),
        registry.execute(low(1), &[5], Some(20), &other, false)
    );
}

#[test]
fn reserved_addresses_answer_and_others_do_not() {
    let registry = identity_at(&[low(9), low(3), low(200), low(1), low(77)]);
    for last in [9u8, 3, 200, 1, 77] {
        assert!(registry.is_precompile(low(last)));
        assert!(registry.execute(low(last), &[1], Some(20), &context(), false).is_some());
    }
    for last in [0u8, 2, 4, 8, 10, 76, 78, 199, 201, 255] {
        assert!(!registry.is_precompile(low(last)));
        assert_eq!(registry.execute(low(last), &[1], Some(20), &context(), false), None);
    }
    let mut high = [0u8; 20];
    high[0] = 1;
    high[19] = 9;
    assert!(!registry.is_precompile(Address::new(high)));
}

#[test]
fn execute_is_repeatable() {
    let registry = identity_at_one();
    let input = [1u8, 2, 3, 4, 5, 6, 7, 8];
    let first = registry.execute(low(1), &input, Some(20), &context(), false);
    let second = registry.execute(low(1), &input, Some(20), &context(), false);
    assert_eq!(first, second);
    let third = registry.execute(low(1), &input, Some(3), &context(), true);
    let fourth = registry.execute(low(1), &input, Some(3), &context(), true);
    assert_eq!(third, fourth);
}

#[test]
fn gas_used_stays_within_the_limit() {
    let registry = identity_at_one();
    for limit in [0u64, 1, 14, 15, 16, 1000, u64::MAX] {
        let used = registry
            .execute(low(1), &[1, 2], Some(limit), &context(), false)
            .unwrap()
            .gas_used()
            .unwrap();
        assert!(used <= limit);
    }
}

#[test]
fn used_address_lists_in_ascending_order() {
    let mut big = [0u8; 20];
    big[0] = 0x80;
    let registry = identity_at(&[low(5), Address::new(big), low(1), low(255), low(4)]);
    assert_eq!(
        registry.used_address(),
        vec![low(1), low(4), low(5), low(255), Address::new(big)]
    );
    assert_eq!(registry.len(), 5);
}

#[test]
fn build_twice_gives_the_same_registry() {
    let config = || vec![(low(3), Identity), (low(1), Identity), (low(2), Identity)];
    let first = Registry::build(config()).unwrap();
    let second = Registry::build(config()).unwrap();
    assert_eq!(first.used_address(), second.used_address());
    assert_eq!(first.used_address(), vec![low(1), low(2), low(3)]);
    for last in 0u8..6 {
        assert_eq!(first.is_precompile(low(last)), second.is_precompile(low(last)));
        assert_eq!(
            first.execute(low(last), &[last], Some(40), &context(), false),
            second.execute(low(last), &[last], Some(40), &context(), false)
        );
    }
}

#[test]
fn build_does_not_depend_on_the_order_listed() {
    let one_way = Registry::build(vec![(low(8), Identity), (low(6), Identity)]).unwrap();
    let other_way = Registry::build(vec![(low(6), Identity), (low(8), Identity)]).unwrap();
    assert_eq!(one_way.used_address(), other_way.used_address());
    assert_eq!(one_way.used_address(), vec![low(6), low(8)]);
}

#[test]
fn build_refuses_a_repeated_address() {
    let config = vec![(low(1), Identity), (low(2), Identity), (low(1), Identity)];
    assert_eq!(Registry::build(config).err(), Some(RegistryError::AddressTaken));
    let adjacent = vec![(low(4), Identity), (low(4), Identity)];
    assert_eq!(Registry::build(adjacent).err(), Some(RegistryError::AddressTaken));
    let empty: Vec<(Address, Identity)> = Vec::new();
    assert_eq!(Registry::build(empty).unwrap().len(), 0);
}

#[test]
fn native_identity_behaves_as_identity() {
    let registry = Registry::build(vec![(low(1), Native::Identity(Identity))]).unwrap();
    assert_eq!(
        registry.execute(low(1), &[1, 2, 3], Some(20), &context(), false),
        Some(PrecompileResult::Success { output: vec![1, 2, 3], gas_used: 15 })
    );
    assert_eq!(
        registry.execute(low(1), &[1, 2, 3], Some(10), &context(), false),
        Some(PrecompileResult::Revert { output: vec![], gas_used: 10 })
    );
}

#[test]
fn many_addresses_are_all_found() {
    let mut config: Vec<(Address, Identity)> = Vec::new();
    for i in 0u32..300 {
        let mut bytes = [0u8; 20];
        bytes[18] = ((i * 7) % 256) as u8;
        bytes[17] = ((i * 7) / 256) as u8;
        bytes[3] = (i % 5) as u8;
        config.push((Address::new(bytes), Identity));
    }
    let registry = Registry::build(config).unwrap();
    assert_eq!(registry.len(), 300);
    let table = registry.used_address();
    assert_eq!(table.len(), 300);
    for pair in table.windows(2) {
        assert!(pair[0].precedes(&pair[1]));
    }
    for address in table {
        assert!(registry.is_precompile(address));
    }
}

#[test]
fn with_adds_one_address_at_a_time() {
    let registry: Registry<Identity> = Registry::new();
    let registry = registry.with(low(7), Identity).unwrap();
    let registry = registry.with(low(2), Identity).unwrap();
    assert_eq!(registry.used_address(), vec![low(2), low(7)]);
    assert!(registry.is_precompile(low(7)));
    assert!(!registry.is_precompile(low(3)));
    assert_eq!(
        registry.execute(low(2), &[4], Some(15), &context(), false),
        Some(PrecompileResult::Success { output: vec![4], gas_used: 15 })
    );
}

#[test]
fn with_refuses_a_taken_address() {
    let registry = identity_at(&[low(1), low(2)]);
    assert_eq!(registry.with(low(2), Identity).err(), Some(RegistryError::AddressTaken));
    let registry = identity_at(&[low(1), low(2)]);
    let grown = registry.with(low(3), Identity).unwrap();
    assert_eq!(grown.len(), 3);
}
