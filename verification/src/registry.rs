//! The registry: which addresses are reserved, and which native contract
//! answers at each.

use vstd::prelude::*;
use crate::address::{
    lemma_precedes_irreflexive, lemma_precedes_total, lemma_precedes_transitive, precedes, Address,
};
use crate::context::{CallContext, ContextView};
use crate::outcome::{wrap, PrecompileResult, ResultView};
use crate::precompile::Precompile;

verus! {

/// Why a registration was refused.
#[derive(Clone, Copy, Debug, PartialEq, Eq, Structural)]
pub enum RegistryError {
    /// The address already answers with a native contract.
    AddressTaken,
}

/// One reserved address and the contract behind it.
struct Entry<P> {
    address: Address,
    precompile: P,
}

/// A mapping from reserved addresses to native contracts.
///
/// It is built once, while the runtime is configured, and only read
/// afterwards: nothing that is public changes a registry. Its view is the
/// mapping, keyed by the bytes of the address. Inside, the entries are kept
/// in ascending order of address, so that a lookup halves the candidates at
/// each step.
pub struct Registry<P> {
    entries: Vec<Entry<P>>,
}

/// The addresses of `entries`, in order.
spec fn keys<P>(entries: Seq<Entry<P>>) -> Seq<Seq<u8>> {
    Seq::new(entries.len(), |i: int| entries[i].address@)
}

/// Each key comes before every later one.
spec fn ascending(keys: Seq<Seq<u8>>) -> bool {
    forall|i: int, j: int| 0 <= i < j < keys.len() ==> precedes(#[trigger] keys[i], #[trigger] keys[j])
}

/// Position of `address` among `keys`, if it is there.
spec fn position(keys: Seq<Seq<u8>>, address: Seq<u8>) -> int {
    choose|i: int| 0 <= i < keys.len() && keys[i] == address
}

/// The addresses in `table`, each as its bytes.
pub open spec fn address_set(table: Seq<Address>) -> Set<Seq<u8>> {
    Set::new(|a: Seq<u8>| exists|i: int| 0 <= i < table.len() && #[trigger] table[i]@ == a)
}

/// What a call to `address` returns under the mapping `table`: nothing where
/// the address is not reserved, else what the contract there returns, as
/// the interpreter sees it.
pub open spec fn dispatch<P: Precompile>(
    table: Map<Seq<u8>, P>,
    address: Seq<u8>,
    input: Seq<u8>,
    gas_limit: Option<u64>,
    context: ContextView,
    is_static: bool,
) -> Option<ResultView> {
    if table.dom().contains(address) {
        Some(wrap(gas_limit, table[address].outcome(input, gas_limit, context, is_static)))
    } else {
        None
    }
}

/// An outcome, if there is one, as plain values.
pub open spec fn answer_view(r: Option<PrecompileResult>) -> Option<ResultView> {
    match r {
        Some(result) => Some(result@),
        None => None,
    }
}

/// No address occurs twice in `config`.
pub open spec fn distinct<P>(config: Seq<(Address, P)>) -> bool {
    forall|i: int, j: int|
        0 <= i < j < config.len() ==> (#[trigger] config[i]).0@ != (#[trigger] config[j]).0@
}

/// The mapping that `config` lists: each address with the contract beside it.
pub open spec fn mapping<P>(config: Seq<(Address, P)>) -> Map<Seq<u8>, P> {
    Map::new(
        |a: Seq<u8>| exists|i: int| 0 <= i < config.len() && config[i].0@ == a,
        |a: Seq<u8>| config[choose|i: int| 0 <= i < config.len() && config[i].0@ == a].1,
    )
}

/// Every listed pair is in the mapping of a list without repeated addresses.
pub proof fn lemma_mapping_holds_each<P>(config: Seq<(Address, P)>, i: int)
    requires
        distinct(config),
        0 <= i < config.len(),
    ensures
        mapping(config).dom().contains(config[i].0@),
        mapping(config)[config[i].0@] == config[i].1,
{
    let a = config[i].0@;
    let c = choose|c: int| 0 <= c < config.len() && config[c].0@ == a;
    assert(0 <= c < config.len() && config[c].0@ == a);
    if c < i {
        assert(config[c].0@ != config[i].0@);
    } else if i < c {
        assert(config[i].0@ != config[c].0@);
    }
}

/// Two configurations that list the same addresses with the same contracts,
/// in the same order, describe one mapping: building from either gives the
/// same registry.
pub proof fn law_same_configuration_same_mapping<P>(first: Seq<(Address, P)>, second: Seq<(Address, P)>)
    requires
        first.len() == second.len(),
        forall|i: int| 0 <= i < first.len() ==> first[i].0@ == second[i].0@ && first[i].1 == second[i].1,
    ensures
        distinct(first) == distinct(second),
        distinct(first) ==> mapping(first) == mapping(second),
{
    if distinct(first) {
        assert forall|i: int, j: int| 0 <= i < j < second.len() implies second[i].0@ != second[j].0@ by {
            assert(first[i].0@ != first[j].0@);
        }
    }
    if distinct(second) {
        assert forall|i: int, j: int| 0 <= i < j < first.len() implies first[i].0@ != first[j].0@ by {
            assert(second[i].0@ != second[j].0@);
        }
    }
    if distinct(first) {
        assert forall|a: Seq<u8>| mapping(first).dom().contains(a) <==> mapping(second).dom().contains(
            a,
        ) by {
            if mapping(first).dom().contains(a) {
                let i = choose|i: int| 0 <= i < first.len() && first[i].0@ == a;
                assert(second[i].0@ == a);
            }
            if mapping(second).dom().contains(a) {
                let i = choose|i: int| 0 <= i < second.len() && second[i].0@ == a;
                assert(first[i].0@ == a);
            }
        }
        assert forall|a: Seq<u8>| #[trigger] mapping(first).dom().contains(a) implies mapping(first)[a]
            == mapping(second)[a] by {
            let i = choose|i: int| 0 <= i < first.len() && first[i].0@ == a;
            lemma_mapping_holds_each(first, i);
            lemma_mapping_holds_each(second, i);
        }
        assert(mapping(first) =~= mapping(second));
    }
}

/// `config` lists `contract` at `address`.
pub open spec fn lists<P>(config: Seq<(Address, P)>, address: Seq<u8>, contract: P) -> bool {
    exists|i: int| 0 <= i < config.len() && #[trigger] config[i].0@ == address && config[i].1 == contract
}

/// The order in which a configuration lists its pairs does not matter: two
/// configurations without repeated addresses that list the same pairs
/// describe one mapping.
pub proof fn law_mapping_ignores_order<P>(first: Seq<(Address, P)>, second: Seq<(Address, P)>)
    requires
        distinct(first),
        distinct(second),
        forall|i: int| 0 <= i < first.len() ==> lists(second, (#[trigger] first[i]).0@, first[i].1),
        forall|j: int| 0 <= j < second.len() ==> lists(first, (#[trigger] second[j]).0@, second[j].1),
    ensures
        mapping(first) == mapping(second),
{
    assert forall|a: Seq<u8>| mapping(first).dom().contains(a) <==> mapping(second).dom().contains(
        a,
    ) by {
        if mapping(first).dom().contains(a) {
            let i = choose|i: int| 0 <= i < first.len() && first[i].0@ == a;
            assert(lists(second, first[i].0@, first[i].1));
        }
        if mapping(second).dom().contains(a) {
            let j = choose|j: int| 0 <= j < second.len() && second[j].0@ == a;
            assert(lists(first, second[j].0@, second[j].1));
        }
    }
    assert forall|a: Seq<u8>| #[trigger] mapping(first).dom().contains(a) implies mapping(first)[a]
        == mapping(second)[a] by {
        let i = choose|i: int| 0 <= i < first.len() && first[i].0@ == a;
        assert(lists(second, first[i].0@, first[i].1));
        let j = choose|j: int|
            0 <= j < second.len() && #[trigger] second[j].0@ == first[i].0@ && second[j].1
                == first[i].1;
        lemma_mapping_holds_each(first, i);
        lemma_mapping_holds_each(second, j);
    }
    assert(mapping(first) =~= mapping(second));
}

/// Putting one more pair in front of a list without repeats, at an address
/// the list does not hold, adds that pair to the mapping.
proof fn lemma_mapping_grows<P>(longer: Seq<(Address, P)>, shorter: Seq<(Address, P)>)
    requires
        longer.len() == shorter.len() + 1,
        forall|i: int| 0 <= i < shorter.len() ==> shorter[i] == longer[i + 1],
        distinct(shorter),
        !mapping(shorter).dom().contains(longer[0].0@),
    ensures
        distinct(longer),
        mapping(longer) == mapping(shorter).insert(longer[0].0@, longer[0].1),
{
    assert forall|i: int, j: int| 0 <= i < j < longer.len() implies longer[i].0@ != longer[j].0@ by {
        if i == 0 {
            assert(shorter[j - 1].0@ == longer[j].0@);
        } else {
            assert(shorter[i - 1].0@ != shorter[j - 1].0@);
        }
    }
    let target = mapping(shorter).insert(longer[0].0@, longer[0].1);
    assert forall|a: Seq<u8>| mapping(longer).dom().contains(a) <==> target.dom().contains(a) by {
        if mapping(longer).dom().contains(a) {
            let i = choose|i: int| 0 <= i < longer.len() && longer[i].0@ == a;
            if i > 0 {
                assert(shorter[i - 1].0@ == a);
            }
        }
        if mapping(shorter).dom().contains(a) {
            let i = choose|i: int| 0 <= i < shorter.len() && shorter[i].0@ == a;
            assert(longer[i + 1].0@ == a);
        }
        if a == longer[0].0@ {
            assert(longer[0].0@ == a);
        }
    }
    assert forall|a: Seq<u8>| #[trigger] mapping(longer).dom().contains(a) implies mapping(longer)[a]
        == target[a] by {
        let i = choose|i: int| 0 <= i < longer.len() && longer[i].0@ == a;
        lemma_mapping_holds_each(longer, i);
        if i > 0 {
            assert(shorter[i - 1].0@ == a);
            lemma_mapping_holds_each(shorter, i - 1);
        }
    }
    assert(mapping(longer) =~= target);
}

impl<P> View for Registry<P> {
    type V = Map<Seq<u8>, P>;

    closed spec fn view(&self) -> Map<Seq<u8>, P> {
        let k = keys(self.entries@);
        Map::new(
            |a: Seq<u8>| exists|i: int| 0 <= i < k.len() && k[i] == a,
            |a: Seq<u8>| self.entries@[position(k, a)].precompile,
        )
    }
}

impl<P> Registry<P> {
    #[verifier::type_invariant]
    spec fn well_formed(self) -> bool {
        ascending(keys(self.entries@))
    }

    /// In a well-formed registry the entry at position `i` is what the view
    /// holds at that entry's address.
    proof fn lemma_entry_in_view(self, i: int)
        requires
            self.well_formed(),
            0 <= i < self.entries@.len(),
        ensures
            self@.dom().contains(self.entries@[i].address@),
            self@[self.entries@[i].address@] == self.entries@[i].precompile,
    {
        let k = keys(self.entries@);
        let a = k[i];
        let p = position(k, a);
        assert(0 <= p < k.len() && k[p] == a);
        if p < i {
            assert(precedes(k[p], k[i]));
            lemma_precedes_irreflexive(a);
        } else if i < p {
            assert(precedes(k[i], k[p]));
            lemma_precedes_irreflexive(a);
        }
    }

    /// A registry that reserves no address.
    pub fn new() -> (r: Registry<P>)
        ensures
            r@ == Map::<Seq<u8>, P>::empty(),
    {
        let r = Registry { entries: Vec::new() };
        assert(r@ =~= Map::<Seq<u8>, P>::empty());
        r
    }

    /// Number of reserved addresses.
    pub fn len(&self) -> (n: usize)
        ensures
            n == self@.dom().len(),
            self@.dom().finite(),
    {
        proof {
            use_type_invariant(self);
            self.lemma_dom_is_key_set();
        }
        self.entries.len()
    }

    /// The reserved addresses are exactly the keys, each once.
    proof fn lemma_dom_is_key_set(self)
        requires
            self.well_formed(),
        ensures
            self@.dom() == keys(self.entries@).to_set(),
            self@.dom().finite(),
            self@.dom().len() == self.entries@.len(),
    {
        let k = keys(self.entries@);
        assert(self@.dom() =~= k.to_set());
        assert(k.no_duplicates()) by {
            assert forall|i: int, j: int| 0 <= i < k.len() && 0 <= j < k.len() && i != j implies k[i]
                != k[j] by {
                if i < j {
                    assert(precedes(k[i], k[j]));
                } else {
                    assert(precedes(k[j], k[i]));
                }
                lemma_precedes_irreflexive(k[i]);
            }
        }
        k.unique_seq_to_set();
    }

    /// First position whose address does not come before `address`.
    fn lower_bound(&self, address: &Address) -> (k: usize)
        ensures
            k <= self.entries@.len(),
            forall|i: int| 0 <= i < k ==> precedes(#[trigger] self.entries@[i].address@, address@),
            forall|i: int|
                k <= i < self.entries@.len() ==> !precedes(
                    #[trigger] self.entries@[i].address@,
                    address@,
                ),
    {
        proof {
            use_type_invariant(self);
        }
        let ghost k = keys(self.entries@);
        let mut lo: usize = 0;
        let mut hi: usize = self.entries.len();
        while lo < hi
            invariant
                lo <= hi <= self.entries@.len(),
                k == keys(self.entries@),
                ascending(k),
                forall|i: int| 0 <= i < lo ==> precedes(#[trigger] self.entries@[i].address@, address@),
                forall|i: int|
                    hi <= i < self.entries@.len() ==> !precedes(
                        #[trigger] self.entries@[i].address@,
                        address@,
                    ),
            decreases hi - lo,
        {
            let mid: usize = lo + (hi - lo) / 2;
            if self.entries[mid].address.precedes(address) {
                proof {
                    assert forall|i: int| 0 <= i < mid + 1 implies precedes(
                        #[trigger] self.entries@[i].address@,
                        address@,
                    ) by {
                        if i < mid {
                            assert(precedes(k[i], k[mid as int]));
                            lemma_precedes_transitive(k[i], k[mid as int], address@);
                        }
                    }
                }
                lo = mid + 1;
            } else {
                proof {
                    assert forall|i: int| mid <= i < self.entries@.len() implies !precedes(
                        #[trigger] self.entries@[i].address@,
                        address@,
                    ) by {
                        if mid < i && precedes(k[i], address@) {
                            assert(precedes(k[mid as int], k[i]));
                            lemma_precedes_transitive(k[mid as int], k[i], address@);
                        }
                    }
                }
                hi = mid;
            }
        }
        lo
    }

    /// Position of the entry for `address`, if it is reserved.
    fn find(&self, address: &Address) -> (found: Option<usize>)
        ensures
            match found {
                Some(i) => i < self.entries@.len() && self.entries@[i as int].address@ == address@
                    && self@.dom().contains(address@) && self@[address@]
                    == self.entries@[i as int].precompile,
                None => !self@.dom().contains(address@),
            },
    {
        proof {
            use_type_invariant(self);
        }
        let k: usize = self.lower_bound(address);
        if k < self.entries.len() && self.entries[k].address == *address {
            proof {
                self.lemma_entry_in_view(k as int);
            }
            Some(k)
        } else {
            proof {
                let ks = keys(self.entries@);
                assert forall|i: int| 0 <= i < ks.len() implies ks[i] != address@ by {
                    if ks[i] == address@ {
                        if i < k {
                            assert(precedes(self.entries@[i].address@, address@));
                            lemma_precedes_irreflexive(address@);
                        } else {
                            assert(k < i);
                            assert(precedes(ks[k as int], ks[i]));
                            assert(!precedes(self.entries@[k as int].address@, address@));
                        }
                    }
                }
            }
            None
        }
    }

    /// Reserves `address` for `precompile`.
    ///
    /// An address that is already reserved keeps its contract: the
    /// registration is refused and the registry stays as it was.
    fn register(&mut self, address: Address, precompile: P) -> (r: Result<(), RegistryError>)
        ensures
            r is Ok <==> !old(self)@.dom().contains(address@),
            r is Ok ==> final(self)@ == old(self)@.insert(address@, precompile),
            r is Err ==> final(self)@ == old(self)@,
    {
        proof {
            use_type_invariant(&*self);
        }
        let k: usize = self.lower_bound(&address);
        if k < self.entries.len() && self.entries[k].address == address {
            proof {
                self.lemma_entry_in_view(k as int);
            }
            return Err(RegistryError::AddressTaken);
        }
        let ghost before = *self;
        let mut taken = Registry { entries: Vec::new() };
        core::mem::swap(self, &mut taken);
        let mut entries = taken.entries;
        entries.insert(k, Entry { address, precompile });
        proof {
            lemma_inserted(before, Registry { entries }, k as int, address@, precompile);
        }
        *self = Registry { entries };
        Ok(())
    }

    /// The registry with one more address reserved, for `precompile`.
    ///
    /// This is for use while a registry is put together. An address that
    /// is already reserved keeps its meaning: the addition is refused.
    pub fn with(self, address: Address, precompile: P) -> (r: Result<Registry<P>, RegistryError>)
        ensures
            r is Ok <==> !self@.dom().contains(address@),
            r matches Ok(registry) ==> registry@ == self@.insert(address@, precompile),
    {
        let mut registry = self;
        match registry.register(address, precompile) {
            Ok(()) => Ok(registry),
            Err(e) => Err(e),
        }
    }

    /// Builds the registry that `config` lists.
    ///
    /// A configuration that names an address twice is refused: an address
    /// has one meaning.
    pub fn build(config: Vec<(Address, P)>) -> (r: Result<Registry<P>, RegistryError>)
        ensures
            r is Ok <==> distinct(config@),
            r matches Ok(registry) ==> registry@ == mapping(config@),
    {
        let ghost all = config@;
        let mut rest = config;
        let mut registry: Registry<P> = Registry::new();
        assert(mapping(all.subrange(all.len() as int, all.len() as int)) =~= Map::<Seq<u8>, P>::empty());
        while rest.len() > 0
            invariant
                all == config@,
                rest@.len() <= all.len(),
                rest@ == all.subrange(0, rest@.len() as int),
                distinct(all.subrange(rest@.len() as int, all.len() as int)),
                registry@ == mapping(all.subrange(rest@.len() as int, all.len() as int)),
            decreases rest@.len(),
        {
            let ghost n = rest@.len() as int;
            let ghost done = all.subrange(n, all.len() as int);
            let ghost next = all.subrange(n - 1, all.len() as int);
            let (address, precompile) = rest.pop().unwrap();
            assert(address == all[n - 1].0 && precompile == all[n - 1].1) by {
                assert(all.subrange(0, n)[n - 1] == all[n - 1]);
            }
            match registry.register(address, precompile) {
                Ok(()) => {
                    proof {
                        assert(next[0] == all[n - 1]);
                        lemma_mapping_grows(next, done);
                        assert(rest@ =~= all.subrange(0, n - 1));
                    }
                },
                Err(e) => {
                    proof {
                        assert(mapping(done).dom().contains(address@));
                        let j = choose|j: int| 0 <= j < done.len() && done[j].0@ == address@;
                        assert(done[j] == all[n + j]);
                        assert(all[n - 1].0@ == all[n + j].0@);
                        assert(!distinct(all));
                    }
                    return Err(e);
                },
            }
        }
        assert(all.subrange(0, all.len() as int) =~= all);
        Ok(registry)
    }

    /// The reserved addresses, each once, in ascending order.
    pub fn used_address(&self) -> (table: Vec<Address>)
        ensures
            address_set(table@) == self@.dom(),
            table@.len() == self@.dom().len(),
            forall|i: int, j: int| 0 <= i < j < table@.len() ==> precedes(table@[i]@, table@[j]@),
    {
        proof {
            use_type_invariant(self);
            self.lemma_dom_is_key_set();
        }
        let ghost k = keys(self.entries@);
        let mut table: Vec<Address> = Vec::new();
        let mut i: usize = 0;
        while i < self.entries.len()
            invariant
                i <= self.entries@.len(),
                table@.len() == i,
                forall|j: int| 0 <= j < i ==> (#[trigger] table@[j])@ == self.entries@[j].address@,
            decreases self.entries@.len() - i,
        {
            table.push(self.entries[i].address);
            i += 1;
        }
        proof {
            assert forall|a: Seq<u8>| address_set(table@).contains(a) <==> self@.dom().contains(a) by {
                if address_set(table@).contains(a) {
                    let j = choose|j: int| 0 <= j < table@.len() && #[trigger] table@[j]@ == a;
                    assert(k[j] == a);
                }
                if self@.dom().contains(a) {
                    let j = choose|j: int| 0 <= j < k.len() && k[j] == a;
                    assert(table@[j]@ == a);
                }
            }
            assert(address_set(table@) =~= self@.dom());
            assert forall|i: int, j: int| 0 <= i < j < table@.len() implies precedes(
                table@[i]@,
                table@[j]@,
            ) by {
                assert(precedes(k[i], k[j]));
            }
        }
        table
    }

    /// True exactly when `address` is reserved. Changes nothing.
    pub fn is_precompile(&self, address: Address) -> (r: bool)
        ensures
            r == self@.dom().contains(address@),
    {
        self.find(&address).is_some()
    }
}

impl<P: Precompile> Registry<P> {
    /// Runs the call that landed on `address`.
    ///
    /// Returns nothing where the address is not reserved. Otherwise the
    /// contract there serves the call, and what it returned comes back as
    /// the interpreter sees it.
    pub fn execute(
        &self,
        address: Address,
        input: &[u8],
        gas_limit: Option<u64>,
        context: &CallContext,
        is_static: bool,
    ) -> (r: Option<PrecompileResult>)
        ensures
            answer_view(r) == dispatch(self@, address@, input@, gas_limit, context@, is_static),
            r is Some <==> self@.dom().contains(address@),
            gas_limit matches Some(limit) ==> within_limit(answer_view(r), limit),
            is_static && self@.dom().contains(address@) && self@[address@].mutates(input@, context@)
                ==> r matches Some(PrecompileResult::Revert { .. }),
    {
        match self.find(&address) {
            Some(i) => {
                proof {
                    self@[address@].outcome_is_lawful(input@, gas_limit, context@, is_static);
                }
                let run = self.entries[i].precompile.run(input, gas_limit, context, is_static);
                Some(PrecompileResult::from_run(gas_limit, run))
            },
            None => None,
        }
    }
}

/// An outcome that reports gas reports no more than `limit`.
pub open spec fn within_limit(r: Option<ResultView>, limit: u64) -> bool {
    match r {
        Some(ResultView::Success { gas_used, .. }) => gas_used <= limit,
        Some(ResultView::Revert { gas_used, .. }) => gas_used <= limit,
        _ => true,
    }
}

/// A call is answered exactly when its address is reserved.
pub proof fn law_answered_iff_reserved<P: Precompile>(
    table: Map<Seq<u8>, P>,
    address: Seq<u8>,
    input: Seq<u8>,
    gas_limit: Option<u64>,
    context: ContextView,
    is_static: bool,
)
    ensures
        dispatch(table, address, input, gas_limit, context, is_static) is Some <==> table.dom().contains(
            address,
        ),
{
}

/// Dispatch has one outcome: two answers to the same call under the
/// same mapping are equal, byte for byte.
pub proof fn law_dispatch_deterministic<P: Precompile>(
    table: Map<Seq<u8>, P>,
    address: Seq<u8>,
    input: Seq<u8>,
    gas_limit: Option<u64>,
    context: ContextView,
    is_static: bool,
    first: Option<PrecompileResult>,
    second: Option<PrecompileResult>,
)
    requires
        answer_view(first) == dispatch(table, address, input, gas_limit, context, is_static),
        answer_view(second) == dispatch(table, address, input, gas_limit, context, is_static),
    ensures
        answer_view(first) == answer_view(second),
        first is Some <==> second is Some,
{
}

/// A call made under a gas limit that ends in success or in a revert
/// reports no more gas than the limit.
pub proof fn law_dispatch_gas_within_limit<P: Precompile>(
    table: Map<Seq<u8>, P>,
    address: Seq<u8>,
    input: Seq<u8>,
    limit: u64,
    context: ContextView,
    is_static: bool,
)
    ensures
        within_limit(dispatch(table, address, input, Some(limit), context, is_static), limit),
{
    if table.dom().contains(address) {
        table[address].outcome_is_lawful(input, Some(limit), context, is_static);
    }
}

/// A call that would write durable state, dispatched while writing is
/// forbidden, ends in a revert: never in success, never fatally.
pub proof fn law_dispatch_static_reverts<P: Precompile>(
    table: Map<Seq<u8>, P>,
    address: Seq<u8>,
    input: Seq<u8>,
    gas_limit: Option<u64>,
    context: ContextView,
)
    requires
        table.dom().contains(address),
        table[address].mutates(input, context),
    ensures
        dispatch(table, address, input, gas_limit, context, true) matches Some(
            ResultView::Revert { .. },
        ),
{
    table[address].outcome_is_lawful(input, gas_limit, context, true);
}

/// Putting a new entry at its place in the order adds it to the mapping
/// and keeps the order.
proof fn lemma_inserted<P>(before: Registry<P>, after: Registry<P>, k: int, address: Seq<u8>, precompile: P)
    requires
        before.well_formed(),
        0 <= k <= before.entries@.len(),
        address.len() == 20,
        forall|i: int| 0 <= i < before.entries@.len() ==> (#[trigger] before.entries@[i]).address@.len() == 20,
        forall|i: int| 0 <= i < k ==> precedes(#[trigger] before.entries@[i].address@, address),
        forall|i: int|
            k <= i < before.entries@.len() ==> !precedes(#[trigger] before.entries@[i].address@, address),
        k < before.entries@.len() ==> before.entries@[k].address@ != address,
        after.entries@.len() == before.entries@.len() + 1,
        after.entries@[k].address@ == address,
        after.entries@[k].precompile == precompile,
        forall|i: int| 0 <= i < k ==> after.entries@[i] == before.entries@[i],
        forall|i: int| k < i < after.entries@.len() ==> after.entries@[i] == before.entries@[i - 1],
    ensures
        after.well_formed(),
        !before@.dom().contains(address),
        after@ == before@.insert(address, precompile),
{
    let old_keys = keys(before.entries@);
    let new_keys = keys(after.entries@);
    assert forall|i: int| k <= i < old_keys.len() implies precedes(address, #[trigger] old_keys[i]) by {
        if old_keys[i] == address {
            assert(k < i);
            assert(precedes(old_keys[k], old_keys[i]));
            assert(!precedes(before.entries@[k].address@, address));
        }
        assert(!precedes(before.entries@[i].address@, address));
        assert(before.entries@[i].address@.len() == 20);
        lemma_precedes_total(address, old_keys[i]);
    }
    assert forall|i: int| 0 <= i < old_keys.len() implies old_keys[i] != address by {
        if i < k {
            assert(precedes(before.entries@[i].address@, address));
        } else {
            assert(precedes(address, old_keys[i]));
        }
        lemma_precedes_irreflexive(address);
    }
    assert forall|i: int, j: int| 0 <= i < j < new_keys.len() implies precedes(
        #[trigger] new_keys[i],
        #[trigger] new_keys[j],
    ) by {
        if j < k {
            assert(precedes(old_keys[i], old_keys[j]));
        } else if j == k {
            assert(precedes(before.entries@[i].address@, address));
        } else if i < k {
            assert(precedes(old_keys[i], old_keys[j - 1]));
        } else if i == k {
            assert(precedes(address, old_keys[j - 1]));
        } else {
            assert(precedes(old_keys[i - 1], old_keys[j - 1]));
        }
    }
    assert(after.well_formed());
    let target = before@.insert(address, precompile);
    assert forall|a: Seq<u8>| after@.dom().contains(a) <==> target.dom().contains(a) by {
        if after@.dom().contains(a) {
            let i = choose|i: int| 0 <= i < new_keys.len() && new_keys[i] == a;
            if i < k {
                assert(old_keys[i] == a);
            } else if i > k {
                assert(old_keys[i - 1] == a);
            }
        }
        if target.dom().contains(a) && a != address {
            let i = choose|i: int| 0 <= i < old_keys.len() && old_keys[i] == a;
            if i < k {
                assert(new_keys[i] == a);
            } else {
                assert(new_keys[i + 1] == a);
            }
        }
        if a == address {
            assert(new_keys[k] == a);
        }
    }
    assert forall|a: Seq<u8>| #[trigger] after@.dom().contains(a) implies after@[a] == target[a] by {
        let i = choose|i: int| 0 <= i < new_keys.len() && new_keys[i] == a;
        after.lemma_entry_in_view(i);
        if i < k {
            before.lemma_entry_in_view(i);
        } else if i > k {
            before.lemma_entry_in_view(i - 1);
        }
    }
    assert(after@ =~= target);
}

} // verus!
