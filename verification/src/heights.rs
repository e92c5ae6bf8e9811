//! Resolution of optional height bounds to concrete ones.

use vstd::prelude::*;

verus! {

/// A block height on the chain.
pub type BlockNumber = u64;

/// What an optional lower bound means: absent is the start of the chain.
pub open spec fn spec_resolve_from(from: Option<BlockNumber>) -> BlockNumber {
    match from {
        Some(h) => h,
        None => 0,
    }
}

/// What an optional upper bound (or an optional single height) means:
/// absent is the tip of the chain at call time.
pub open spec fn spec_resolve_to(to: Option<BlockNumber>, tip: BlockNumber) -> BlockNumber {
    match to {
        Some(h) => h,
        None => tip,
    }
}

/// Resolves an optional lower height bound: an absent bound means height
/// zero, the start of the chain.
pub fn resolve_from(from: Option<BlockNumber>) -> (r: BlockNumber)
    ensures
        r == spec_resolve_from(from),
{
    match from {
        Some(h) => h,
        None => 0,
    }
}

/// Resolves an optional upper height bound, or an optional single height:
/// an absent bound means `tip`, the tip height at call time.
pub fn resolve_to(to: Option<BlockNumber>, tip: BlockNumber) -> (r: BlockNumber)
    ensures
        r == spec_resolve_to(to, tip),
{
    match to {
        Some(h) => h,
        None => tip,
    }
}

/// Leaving both bounds absent asks for the same closed range as passing
/// the start of the chain and the tip height at call time explicitly.
pub proof fn lemma_default_range_is_full_range(tip: BlockNumber)
    ensures
        spec_resolve_from(None) == spec_resolve_from(Some(0)),
        spec_resolve_to(None, tip) == spec_resolve_to(Some(tip), tip),
{
}

} // verus!
