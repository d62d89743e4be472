use loserchain::address::Address;
use loserchain::context::CallContext;
use loserchain::precompiles::LoserPrecompiles;

struct Runtime;

fn address_one() -> Address {
    let mut bytes = [0u8; 20];
    bytes[19] = 1;
    Address::new(bytes)
}

fn some_context() -> CallContext {
    CallContext {
        address: address_one(),
        caller: Address::new([0x22; 20]),
        apparent_value: [0u8; 32],
        block_number: 12,
        timestamp: 34,
    }
}

#[test]
fn the_table_is_empty() {
    assert!(LoserPrecompiles::<Runtime>::used_address().is_empty());
}

#[test]
fn no_address_is_a_precompile() {
    let set: LoserPrecompiles<Runtime> = LoserPrecompiles::new();
    assert!(!set.is_precompile(address_one()));
    assert!(!set.is_precompile(Address::new([0u8; 20])));
    assert!(!set.is_precompile(Address::new([0xff; 20])));
    for last in 0u8..=255 {
        let mut bytes = [0u8; 20];
        bytes[19] = last;
        assert!(!set.is_precompile(Address::new(bytes)));
    }
}

#[test]
fn execute_answers_nothing() {
    let set: LoserPrecompiles<Runtime> = LoserPrecompiles::new();
    assert_eq!(set.execute(address_one(), &[1, 2, 3], Some(20), &some_context(), false), None);
    assert_eq!(set.execute(address_one(), &[], None, &some_context(), true), None);
    assert_eq!(set.registry().len(), 0);
}

#[test]
fn is_precompile_agrees_with_the_table() {
    let set: LoserPrecompiles<Runtime> = LoserPrecompiles::new();
    let table = LoserPrecompiles::<Runtime>::used_address();
    for last in [0u8, 1, 5, 9] {
        let mut bytes = [0u8; 20];
        bytes[19] = last;
        let address = Address::new(bytes);
        assert_eq!(set.is_precompile(address), table.contains(&address));
    }
}
