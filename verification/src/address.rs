//! Twenty-byte account addresses and the order the registry keeps them in.

use vstd::prelude::*;

verus! {

/// A fixed-width account identifier, compared by value.
///
/// Its view is the sequence of its twenty bytes, most significant first.
#[derive(Clone, Copy, Debug)]
pub struct Address {
    pub bytes: [u8; 20],
}

impl View for Address {
    type V = Seq<u8>;

    open spec fn view(&self) -> Seq<u8> {
        self.bytes@
    }
}

/// `k` is the first position at which `a` and `b` hold different bytes.
pub open spec fn first_difference(a: Seq<u8>, b: Seq<u8>, k: int) -> bool {
    &&& 0 <= k < a.len()
    &&& k < b.len()
    &&& a[k] != b[k]
    &&& forall|j: int| 0 <= j < k ==> a[j] == b[j]
}

/// Lexicographic order on byte sequences of one length: `a` comes before `b`
/// when, at the first position where they differ, `a` holds the smaller byte.
/// On addresses this is the order of the numbers they spell out.
pub open spec fn precedes(a: Seq<u8>, b: Seq<u8>) -> bool {
    exists|k: int| first_difference(a, b, k) && a[k] < b[k]
}

/// No sequence comes before itself.
pub proof fn lemma_precedes_irreflexive(a: Seq<u8>)
    ensures
        !precedes(a, a),
{
}

/// Two sequences are never each before the other.
pub proof fn lemma_precedes_asymmetric(a: Seq<u8>, b: Seq<u8>)
    requires
        precedes(a, b),
    ensures
        !precedes(b, a),
{
    let k = choose|k: int| first_difference(a, b, k) && a[k] < b[k];
    assert forall|m: int| first_difference(b, a, m) implies !(b[m] < a[m]) by {
        if m < k {
            assert(a[m] == b[m]);
        } else if k < m {
            assert(b[k] == a[k]);
        }
    }
}

/// The order is transitive.
pub proof fn lemma_precedes_transitive(a: Seq<u8>, b: Seq<u8>, c: Seq<u8>)
    requires
        precedes(a, b),
        precedes(b, c),
    ensures
        precedes(a, c),
{
    let k1 = choose|k: int| first_difference(a, b, k) && a[k] < b[k];
    let k2 = choose|k: int| first_difference(b, c, k) && b[k] < c[k];
    let k = if k1 <= k2 { k1 } else { k2 };
    assert forall|j: int| 0 <= j < k implies a[j] == c[j] by {
        assert(a[j] == b[j]);
        assert(b[j] == c[j]);
    }
    if k1 < k2 {
        assert(b[k1] == c[k1]);
    } else if k2 < k1 {
        assert(a[k2] == b[k2]);
    }
    assert(first_difference(a, c, k) && a[k] < c[k]);
}

/// Of two sequences of one length, either one comes first or they are equal.
pub proof fn lemma_precedes_total(a: Seq<u8>, b: Seq<u8>)
    requires
        a.len() == b.len(),
    ensures
        precedes(a, b) || precedes(b, a) || a == b,
{
    if a != b {
        assert(!(a =~= b));
        let d = choose|d: int| 0 <= d < a.len() && a[d] != b[d];
        lemma_least_difference(a, b, d);
        let k = choose|k: int| first_difference(a, b, k);
        if a[k] < b[k] {
            assert(first_difference(a, b, k) && a[k] < b[k]);
        } else {
            assert(first_difference(b, a, k) && b[k] < a[k]);
        }
    }
}

/// Where two sequences differ somewhere up to `d`, there is a first such place.
proof fn lemma_least_difference(a: Seq<u8>, b: Seq<u8>, d: int)
    requires
        0 <= d < a.len(),
        d < b.len(),
        a[d] != b[d],
    ensures
        exists|k: int| first_difference(a, b, k),
    decreases d,
{
    if exists|j: int| 0 <= j < d && a[j] != b[j] {
        let j = choose|j: int| 0 <= j < d && a[j] != b[j];
        lemma_least_difference(a, b, j);
    } else {
        assert(first_difference(a, b, d));
    }
}

impl Address {
    /// Wraps twenty raw bytes.
    pub fn new(bytes: [u8; 20]) -> (a: Address)
        ensures
            a.bytes == bytes,
            a@ == bytes@,
    {
        Address { bytes }
    }

    /// Position of the first byte that differs from `other`, or 20 if none does.
    fn first_mismatch(&self, other: &Address) -> (k: usize)
        ensures
            k <= 20,
            k < 20 ==> first_difference(self@, other@, k as int),
            k == 20 ==> self@ == other@,
    {
        let mut i: usize = 0;
        while i < 20
            invariant
                i <= 20,
                forall|j: int| 0 <= j < i ==> self@[j] == other@[j],
            decreases 20 - i,
        {
            if self.bytes[i] != other.bytes[i] {
                return i;
            }
            i += 1;
        }
        assert(self@ =~= other@);
        i
    }

    /// True exactly when `self` comes before `other` in the registry's order.
    pub fn precedes(&self, other: &Address) -> (r: bool)
        ensures
            r == precedes(self@, other@),
    {
        let k = self.first_mismatch(other);
        if k < 20 {
            let r = self.bytes[k] < other.bytes[k];
            proof {
                if !r {
                    assert(first_difference(other@, self@, k as int) && other@[k as int] < self@[k as int]);
                    lemma_precedes_asymmetric(other@, self@);
                }
            }
            r
        } else {
            proof {
                lemma_precedes_irreflexive(self@);
            }
            false
        }
    }
}

impl PartialEq for Address {
    /// True exactly when both addresses hold the same twenty bytes.
    fn eq(&self, other: &Address) -> (r: bool) {
        self.first_mismatch(other) == 20
    }
}

impl Eq for Address {

}

impl vstd::std_specs::cmp::PartialEqSpecImpl for Address {
    open spec fn obeys_eq_spec() -> bool {
        true
    }

    open spec fn eq_spec(&self, other: &Address) -> bool {
        self@ == other@
    }
}

} // verus!
