//! Client-side transaction assembly for a UTXO-style ledger node.
//!
//! The node is reached over a remote transport that lives outside this
//! crate; what stands here is everything the client computes on its own:
//! the data model of cells and transactions, decimal capacity parsing,
//! overflow-checked capacity summation, default height resolution, and
//! the two assembly operations that gather a set of cells into one output
//! or disperse their value across minimally sized outputs.

pub mod assemble;
pub mod errors;
pub mod heights;
pub mod model;
pub mod parse;
