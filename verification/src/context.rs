//! What a native contract is told about the call it serves.

use vstd::prelude::*;
use crate::address::Address;

verus! {

/// The caller, the value and the environment of one call.
///
/// The interpreter builds one per call and lends it to the contract, which
/// can read it and nothing else.
#[derive(Clone, Copy, Debug)]
pub struct CallContext {
    /// Account the call executes as.
    pub address: Address,
    /// Account that made the call.
    pub caller: Address,
    /// Value the call appears to transfer: 256 bits, most significant byte first.
    pub apparent_value: [u8; 32],
    /// Height of the block the call runs in.
    pub block_number: u64,
    /// Time of that block.
    pub timestamp: u64,
}

/// A call context as plain values.
pub struct ContextView {
    pub address: Seq<u8>,
    pub caller: Seq<u8>,
    pub apparent_value: Seq<u8>,
    pub block_number: u64,
    pub timestamp: u64,
}

impl View for CallContext {
    type V = ContextView;

    open spec fn view(&self) -> ContextView {
        ContextView {
            address: self.address@,
            caller: self.caller@,
            apparent_value: self.apparent_value@,
            block_number: self.block_number,
            timestamp: self.timestamp,
        }
    }
}

} // verus!
