//! The error taxonomy of the client.

use vstd::prelude::*;
use crate::model::Digest;

verus! {

/// The key a query asked the node for, kept inside `NotFound` so a caller
/// sees what was missing.
#[derive(Clone, Copy, Debug, PartialEq, Eq)]
pub enum QueryKey {
    /// A block height.
    Height(u64),
    /// A block or transaction digest.
    Hash(Digest),
}

/// Everything a client operation can fail with.  Nothing is retried and
/// nothing is swallowed: the first failure aborts the whole operation.
#[derive(Clone, Debug, PartialEq, Eq)]
pub enum ClientError {
    /// The remote call itself failed; carries the transport's own message.
    Transport(String),
    /// The remote call completed but reported no such object for the key.
    NotFound(QueryKey),
    /// A returned value could not be decoded as the expected type.
    Parse,
    /// A capacity sum or addition would exceed the 64-bit range.
    Overflow,
    /// A dispersal was asked of an empty cell set.
    EmptyInput,
    /// A dispersal produced no output, so leftover capacity had nowhere
    /// to go: the output budget was zero or the first minimum exceeded
    /// the total.
    NoOutputProduced,
}

/// Turns a remote answer that may report absence into a result: a present
/// value passes through, an absent one becomes `NotFound` carrying the key
/// that was asked for.
pub fn require_found<T>(answer: Option<T>, key: QueryKey) -> (r: Result<T, ClientError>)
    ensures
        match answer {
            Some(v) => r == Ok::<T, ClientError>(v),
            None => r == Err::<T, ClientError>(ClientError::NotFound(key)),
        },
{
    match answer {
        Some(v) => Ok(v),
        None => Err(ClientError::NotFound(key)),
    }
}

} // verus!
