//! Precompile dispatch for an EVM-compatible runtime.
//!
//! A precompile is a contract implemented natively and bound to a reserved
//! address: a call to that address runs host logic in place of bytecode,
//! under the gas and static-call rules of any other call.
//!
//! - [`address`]: twenty-byte addresses and their order.
//! - [`context`]: what a contract is told about the call it serves.
//! - [`outcome`]: how a call can end.
//! - [`precompile`]: the rules every native contract obeys.
//! - [`identity`]: a contract that returns its input.
//! - [`registry`]: the mapping from reserved addresses to contracts.
//! - [`precompiles`]: the set of contracts this chain ships.
//! - [`router`]: the interpreter's side of a call.
//! - [`spec_source`]: which chain specification a node starts from.

pub mod address;
pub mod context;
pub mod identity;
pub mod outcome;
pub mod precompile;
pub mod precompiles;
pub mod registry;
pub mod router;
pub mod spec_source;
