//! Parameters of the social currency.
use crate::perbill::Perbill;
use vstd::prelude::*;

verus! {


/// Shares are divided among at least this many trusted users.
pub const MIN_TRUST_COUNT: u32 = 150;

/// The part of the social balance kept by its owner: ten percent.
pub fn pre_reserved() -> (r: Perbill)
    ensures
        r.parts == 100_000_000,
{
    Perbill::from_percent(10)
}

/// The part shared among the users trusted by the owner: ten percent.
pub fn pre_share() -> (r: Perbill)
    ensures
        r.parts == 100_000_000,
{
    Perbill::from_percent(10)
}

/// The part burnt: ten percent.
pub fn pre_burn() -> (r: Perbill)
    ensures
        r.parts == 100_000_000,
{
    Perbill::from_percent(10)
}

/// The pathfinder's fee: ten percent.
pub fn pre_fee() -> (r: Perbill)
    ensures
        r.parts == 100_000_000,
{
    Perbill::from_percent(10)
}


} // verus!
