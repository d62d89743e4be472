//! Which chain specification a node starts from.

use vstd::prelude::*;

verus! {

/// Where a chain specification comes from.
#[derive(Clone, Copy, Debug, PartialEq, Eq, Structural)]
pub enum SpecSource {
    /// The built-in development chain.
    Development,
    /// The built-in local test network.
    LocalTestnet,
    /// A specification file; the identifier is its path.
    File,
}

/// `id` is the word `word`: as long, and the same character by character.
pub open spec fn spells(id: Seq<char>, word: Seq<char>) -> bool {
    id.len() == word.len() && id == word
}

/// The source an identifier names: `dev` is the development chain, the
/// empty identifier and `local` are the local test network, and anything
/// else is the path of a file.
pub open spec fn source_of(id: Seq<char>) -> SpecSource {
    if spells(id, "dev"@) {
        SpecSource::Development
    } else if spells(id, ""@) || spells(id, "local"@) {
        SpecSource::LocalTestnet
    } else {
        SpecSource::File
    }
}

/// True exactly when `a` and `b` hold the same characters.
fn same_text(a: &str, b: &str) -> (r: bool)
    ensures
        r == (a@ == b@),
{
    let n: usize = a.unicode_len();
    if n != b.unicode_len() {
        return false;
    }
    let mut i: usize = 0;
    while i < n
        invariant
            i <= n,
            n == a@.len(),
            n == b@.len(),
            forall|j: int| 0 <= j < i ==> a@[j] == b@[j],
        decreases n - i,
    {
        if a.get_char(i) != b.get_char(i) {
            return false;
        }
        i += 1;
    }
    assert(a@ =~= b@);
    true
}

/// Reads a chain identifier as given on the command line.
pub fn spec_source(id: &str) -> (source: SpecSource)
    ensures
        source == source_of(id@),
{
    if same_text(id, "dev") {
        SpecSource::Development
    } else if same_text(id, "") || same_text(id, "local") {
        SpecSource::LocalTestnet
    } else {
        SpecSource::File
    }
}

} // verus!
