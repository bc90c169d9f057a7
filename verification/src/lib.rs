//! Verified logic of the Ourspace reputation system: social currency, trust,
//! seeds, reputation and the challenge games that keep them honest.
use vstd::prelude::*;

pub mod challenges;
pub mod currency;
pub mod per_social_currency;
pub mod ordered_set;
pub mod perbill;
pub mod primitives;
pub mod refresh_reputation;
pub mod refresh_seeds;
pub mod reputation;
pub mod runtime;
pub mod seeds;
pub mod storage;
pub mod system;
pub mod tokens;
pub mod trust;
pub mod user_set;
pub mod weights;

verus! {
}
