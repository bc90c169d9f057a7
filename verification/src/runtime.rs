//! The runtime: the storage of all pallets, the ledger and the system.
use crate::currency::Currency;
use crate::system::System;
use vstd::prelude::*;

verus! {

/// The state of the chain that the pallets read and write.
pub struct Runtime {
    pub system: System,
    pub currency: Currency,
    pub tokens: crate::tokens::Pallet,
    pub reputation: crate::reputation::Pallet,
    pub seeds: crate::seeds::Pallet,
    pub trust: crate::trust::Pallet,
    pub challenges: crate::challenges::Pallet,
    pub refresh_reputation: crate::refresh_reputation::Pallet,
    pub refresh_seeds: crate::refresh_seeds::Pallet,
}

/// What contracts see of the runtime.
#[verifier::ext_equal]
pub struct RuntimeModel {
    pub block_number: crate::primitives::BlockNumber,
    pub events: Seq<crate::system::RuntimeEvent>,
    pub currency: crate::currency::CurrencyModel,
    pub tokens: crate::tokens::TokensModel,
    pub reputation: crate::reputation::ReputationModel,
    pub seeds: Seq<crate::primitives::AccountId>,
    pub trust: crate::trust::TrustModel,
    pub challenges: crate::challenges::ChallengesModel,
    pub refresh_reputation: crate::refresh_reputation::RefreshModel,
    pub refresh_seeds: crate::refresh_seeds::SeedsRefreshModel,
}

/// The constants of the pallets.
pub struct RuntimeConfig {
    pub tokens: crate::tokens::Config,
    pub trust: crate::trust::Config,
    pub challenges: crate::challenges::Config,
    pub refresh_reputation: crate::refresh_reputation::Config,
    pub refresh_seeds: crate::refresh_seeds::Config,
}

impl Runtime {
    /// What contracts see of the runtime.
    pub open spec fn view(&self) -> RuntimeModel {
        RuntimeModel {
            block_number: self.system.block_number,
            events: self.system.events@,
            currency: self.currency@,
            tokens: self.tokens@,
            reputation: self.reputation@,
            seeds: self.seeds@,
            trust: self.trust@,
            challenges: self.challenges@,
            refresh_reputation: self.refresh_reputation@,
            refresh_seeds: self.refresh_seeds@,
        }
    }

    /// The constants of the pallets.
    pub open spec fn config(&self) -> RuntimeConfig {
        RuntimeConfig {
            tokens: self.tokens.config,
            trust: self.trust.config,
            challenges: self.challenges.config,
            refresh_reputation: self.refresh_reputation.config,
            refresh_seeds: self.refresh_seeds.config,
        }
    }

    /// The block number and the pallets other than the token pallet and the ledger are those of `old`.
    pub open spec fn same_except_tokens_currency(&self, old: Runtime) -> bool {
        &&& self.system.block_number == old.system.block_number
        &&& self.tokens.config == old.tokens.config
        &&& self.reputation == old.reputation
        &&& self.seeds == old.seeds
        &&& self.trust == old.trust
        &&& self.challenges@ == old.challenges@
        &&& self.challenges.config == old.challenges.config
        &&& self.refresh_reputation@ == old.refresh_reputation@
        &&& self.refresh_reputation.config == old.refresh_reputation.config
        &&& self.refresh_seeds == old.refresh_seeds
    }

    /// Only the reputation pallet and the events may differ from `old`.
    pub open spec fn same_except_reputation(&self, old: Runtime) -> bool {
        &&& self.system.block_number == old.system.block_number
        &&& self.currency@ == old.currency@
        &&& self.tokens@ == old.tokens@
        &&& self.tokens.config == old.tokens.config
        &&& self.seeds == old.seeds
        &&& self.trust == old.trust
        &&& self.challenges@ == old.challenges@
        &&& self.challenges.config == old.challenges.config
        &&& self.refresh_reputation@ == old.refresh_reputation@
        &&& self.refresh_reputation.config == old.refresh_reputation.config
        &&& self.refresh_seeds == old.refresh_seeds
    }

    /// Only the seeds pallet and the events may differ from `old`.
    pub open spec fn same_except_seeds(&self, old: Runtime) -> bool {
        &&& self.system.block_number == old.system.block_number
        &&& self.currency@ == old.currency@
        &&& self.tokens@ == old.tokens@
        &&& self.tokens.config == old.tokens.config
        &&& self.reputation@ == old.reputation@
        &&& self.trust == old.trust
        &&& self.challenges@ == old.challenges@
        &&& self.challenges.config == old.challenges.config
        &&& self.refresh_reputation@ == old.refresh_reputation@
        &&& self.refresh_reputation.config == old.refresh_reputation.config
        &&& self.refresh_seeds == old.refresh_seeds
    }

    /// Only the trust pallet and the events may differ from `old`.
    pub open spec fn same_except_trust(&self, old: Runtime) -> bool {
        &&& self.system.block_number == old.system.block_number
        &&& self.currency@ == old.currency@
        &&& self.tokens@ == old.tokens@
        &&& self.tokens.config == old.tokens.config
        &&& self.reputation@ == old.reputation@
        &&& self.seeds@ == old.seeds@
        &&& self.challenges@ == old.challenges@
        &&& self.challenges.config == old.challenges.config
        &&& self.refresh_reputation@ == old.refresh_reputation@
        &&& self.refresh_reputation.config == old.refresh_reputation.config
        &&& self.refresh_seeds == old.refresh_seeds
    }

    /// Nothing that contracts see has changed since `old`.
    pub open spec fn unchanged(&self, old: Runtime) -> bool {
        &&& self.system.block_number == old.system.block_number
        &&& self.system.events@ == old.system.events@
        &&& self.currency@ == old.currency@
        &&& self.tokens@ == old.tokens@
        &&& self.tokens.config == old.tokens.config
        &&& self.reputation@ == old.reputation@
        &&& self.seeds@ == old.seeds@
        &&& self.trust@ == old.trust@
        &&& self.trust.config == old.trust.config
        &&& self.challenges@ == old.challenges@
        &&& self.challenges.config == old.challenges.config
        &&& self.refresh_reputation@ == old.refresh_reputation@
        &&& self.refresh_reputation.config == old.refresh_reputation.config
        &&& self.refresh_seeds == old.refresh_seeds
    }
}

} // verus!
