//! The set of native contracts this chain ships.

use core::marker::PhantomData;
use vstd::prelude::*;
use crate::address::Address;
use crate::context::{CallContext, ContextView};
use crate::identity::Identity;
use crate::outcome::{
    FailureView, OutcomeView, PrecompileFailure, PrecompileOutcome, PrecompileResult,
};
use crate::precompile::Precompile;
use crate::registry::{address_set, answer_view, dispatch, Registry};

verus! {

/// The addresses this chain reserves for native contracts: none so far.
pub open spec fn address_table() -> Seq<Address> {
    Seq::empty()
}

/// The chain reserves nothing: whatever the address, it is not in the
/// table, so every call goes to the interpreter.
pub proof fn law_table_reserves_nothing(address: Seq<u8>)
    ensures
        !address_set(address_table()).contains(address),
{
}

/// The native contracts this chain knows, one variant for each.
///
/// A new contract takes a variant here, an address in the table, and a
/// line where the set is built.
#[derive(Clone, Copy, Debug)]
pub enum Native {
    /// Echoes its input.
    Identity(Identity),
}

impl Precompile for Native {
    open spec fn cost(&self, input: Seq<u8>, context: ContextView) -> nat {
        match self {
            Native::Identity(contract) => contract.cost(input, context),
        }
    }

    open spec fn mutates(&self, input: Seq<u8>, context: ContextView) -> bool {
        match self {
            Native::Identity(contract) => contract.mutates(input, context),
        }
    }

    open spec fn outcome(
        &self,
        input: Seq<u8>,
        gas_limit: Option<u64>,
        context: ContextView,
        is_static: bool,
    ) -> Result<OutcomeView, FailureView> {
        match self {
            Native::Identity(contract) => contract.outcome(input, gas_limit, context, is_static),
        }
    }

    proof fn outcome_is_lawful(
        &self,
        input: Seq<u8>,
        gas_limit: Option<u64>,
        context: ContextView,
        is_static: bool,
    ) {
        match self {
            Native::Identity(contract) => contract.outcome_is_lawful(
                input,
                gas_limit,
                context,
                is_static,
            ),
        }
    }

    fn run(
        &self,
        input: &[u8],
        gas_limit: Option<u64>,
        context: &CallContext,
        is_static: bool,
    ) -> (r: Result<PrecompileOutcome, PrecompileFailure>) {
        match self {
            Native::Identity(contract) => contract.run(input, gas_limit, context, is_static),
        }
    }
}

/// The chain's native contracts, for the runtime `R` they are built into.
///
/// Which addresses are reserved is fixed with the chain, whatever the
/// runtime holds: the table is `used_address`. The view is the mapping from
/// the reserved addresses to the contracts behind them.
pub struct LoserPrecompiles<R> {
    registry: Registry<Native>,
    runtime: PhantomData<R>,
}

impl<R> View for LoserPrecompiles<R> {
    type V = Map<Seq<u8>, Native>;

    closed spec fn view(&self) -> Map<Seq<u8>, Native> {
        self.registry@
    }
}

impl<R> LoserPrecompiles<R> {
    #[verifier::type_invariant]
    spec fn reserves_the_table(self) -> bool {
        self.registry@.dom() == address_set(address_table())
    }

    /// The set as the chain ships it: a contract behind each address of
    /// the table.
    pub fn new() -> (set: Self)
        ensures
            set@.dom() == address_set(address_table()),
    {
        let registry: Registry<Native> = Registry::new();
        assert(registry@.dom() =~= address_set(address_table()));
        LoserPrecompiles { registry, runtime: PhantomData }
    }

    /// The reserved addresses.
    pub fn used_address() -> (table: Vec<Address>)
        ensures
            table@ == address_table(),
    {
        let table: Vec<Address> = Vec::new();
        assert(table@ =~= address_table());
        table
    }

    /// True exactly when `address` is in the table. Changes nothing.
    pub fn is_precompile(&self, address: Address) -> (r: bool)
        ensures
            r == address_set(address_table()).contains(address@),
            r == self@.dom().contains(address@),
    {
        proof {
            use_type_invariant(self);
        }
        self.registry.is_precompile(address)
    }

    /// Runs the call that landed on `address`: nothing where the address
    /// is not in the table, else the outcome of the contract there.
    pub fn execute(
        &self,
        address: Address,
        input: &[u8],
        gas_limit: Option<u64>,
        context: &CallContext,
        is_static: bool,
    ) -> (r: Option<PrecompileResult>)
        ensures
            answer_view(r) == dispatch(self@, address@, input@, gas_limit, context@, is_static),
            r is Some <==> address_set(address_table()).contains(address@),
    {
        proof {
            use_type_invariant(self);
        }
        self.registry.execute(address, input, gas_limit, context, is_static)
    }

    /// The registry behind the set, for the router.
    pub fn registry(&self) -> (registry: &Registry<Native>)
        ensures
            registry@ == self@,
    {
        &self.registry
    }
}

} // verus!
