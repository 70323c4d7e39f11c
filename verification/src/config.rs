use vstd::prelude::*;

use crate::errors::DaoError;

verus! {

/// The configuration registry: global DAO parameters and the monotonic
/// proposal-id counter.  Created once at genesis; only the counter is ever
/// mutated afterwards, by proposal creation.
#[derive(Clone, Copy, Debug)]
pub struct DaoConfig {
    /// The genesis seed the registry's own address is derived from.
    pub seed: u64,
    /// Price of one issuance, split across the treasuries.
    pub issue_price: u64,
    /// Fee escrowed on proposal creation.
    pub proposal_fee: u64,
    /// Maximum token supply.
    pub max_supply: u64,
    /// Lower bound on a proposal's quorum percentage.
    pub min_quorum: u64,
    /// Lower bound on a proposal's threshold.
    pub min_threshold: u64,
    /// Upper bound on a proposal's expiry duration.
    pub max_expiry: u64,
    /// Stake a participant must hold to create a proposal.
    pub min_stake: u64,
    /// Lower bound on a proposal's choice count.
    pub min_choices: u8,
    /// Slots a proposal stays in pre-voting after creation.
    pub prevoting_period: u64,
    /// Number of proposals created so far; the next proposal's id is
    /// `proposal_count + 1`.
    pub proposal_count: u64,
    /// Discriminator of the registry's master signing capability.
    pub auth_bump: u8,
    /// Discriminator of the registry record's own address.
    pub config_bump: u8,
    /// Discriminator of the collection mint address.
    pub mint_bump: u8,
    /// Discriminator of the main treasury pool address.
    pub main_treasury_bump: u8,
    /// Percentage of an issuance kept by the multisig treasury.
    pub multisig_share: u8,
    /// Percentage of an issuance kept by the main treasury.
    pub main_treasury_share: u8,
    /// Percentage of an issuance kept by the development treasury.
    pub dev_treasury_share: u8,
    /// Percentage of an issuance kept by the operations treasury.
    pub ops_treasury_share: u8,
}

impl DaoConfig {
    /// The registry's invariant: the four treasury shares always sum to
    /// exactly one hundred.
    pub open spec fn wf(&self) -> bool {
        self.main_treasury_share + self.dev_treasury_share + self.ops_treasury_share
            + self.multisig_share == 100
    }

    /// Builds the registry record with a zeroed proposal counter.
    pub fn init(
        seed: u64,
        issue_price: u64,
        proposal_fee: u64,
        max_supply: u64,
        min_quorum: u64,
        min_threshold: u64,
        max_expiry: u64,
        min_stake: u64,
        min_choices: u8,
        prevoting_period: u64,
        auth_bump: u8,
        config_bump: u8,
        mint_bump: u8,
        main_treasury_bump: u8,
        multisig_share: u8,
        main_treasury_share: u8,
        dev_treasury_share: u8,
        ops_treasury_share: u8,
    ) -> (r: DaoConfig)
        requires
            main_treasury_share + dev_treasury_share + ops_treasury_share + multisig_share == 100,
        ensures
            r.wf(),
            r == (DaoConfig {
                seed,
                issue_price,
                proposal_fee,
                max_supply,
                min_quorum,
                min_threshold,
                max_expiry,
                min_stake,
                min_choices,
                prevoting_period,
                proposal_count: 0,
                auth_bump,
                config_bump,
                mint_bump,
                main_treasury_bump,
                multisig_share,
                main_treasury_share,
                dev_treasury_share,
                ops_treasury_share,
            }),
    {
        DaoConfig {
            seed,
            issue_price,
            proposal_fee,
            max_supply,
            min_quorum,
            min_threshold,
            max_expiry,
            min_stake,
            min_choices,
            prevoting_period,
            proposal_count: 0,
            auth_bump,
            config_bump,
            mint_bump,
            main_treasury_bump,
            multisig_share,
            main_treasury_share,
            dev_treasury_share,
            ops_treasury_share,
        }
    }

    /// The main treasury's share is whatever the three named shares leave of
    /// one hundred percent; fails if and only if they already exceed it.
    pub fn derive_main_share(multisig_share: u8, dev_treasury_share: u8, ops_treasury_share: u8) -> (r:
        Result<u8, DaoError>)
        ensures
            r is Ok <==> multisig_share + dev_treasury_share + ops_treasury_share <= 100,
            r is Err ==> r == Err::<u8, DaoError>(DaoError::Overflow),
            r matches Ok(main) ==> main + multisig_share + dev_treasury_share + ops_treasury_share
                == 100,
    {
        let total: u64 = 100;
        let named: u64 = multisig_share as u64 + dev_treasury_share as u64
            + ops_treasury_share as u64;
        if named > total {
            return Err(DaoError::Overflow);
        }
        Ok((total - named) as u8)
    }

    /// A proposal may not offer fewer choices than the registry minimum.
    pub fn check_min_choices(&self, choices: u8) -> (r: Result<(), DaoError>)
        ensures
            r is Ok <==> self.min_choices <= choices,
            r is Err ==> r == Err::<(), DaoError>(DaoError::InvalidChoicesAmount),
    {
        if self.min_choices <= choices {
            Ok(())
        } else {
            Err(DaoError::InvalidChoicesAmount)
        }
    }

    /// A proposer must hold at least the registry's minimum stake.
    pub fn check_min_stake(&self, stake: u64) -> (r: Result<(), DaoError>)
        ensures
            r is Ok <==> self.min_stake <= stake,
            r is Err ==> r == Err::<(), DaoError>(DaoError::InvalidStakeAmount),
    {
        if self.min_stake <= stake {
            Ok(())
        } else {
            Err(DaoError::InvalidStakeAmount)
        }
    }

    /// A proposal's threshold may not undercut the registry minimum.
    pub fn check_min_threshold(&self, threshold: u64) -> (r: Result<(), DaoError>)
        ensures
            r is Ok <==> self.min_threshold <= threshold,
            r is Err ==> r == Err::<(), DaoError>(DaoError::InvalidThreshold),
    {
        if self.min_threshold <= threshold {
            Ok(())
        } else {
            Err(DaoError::InvalidThreshold)
        }
    }

    /// A proposal's quorum may not undercut the registry minimum.
    pub fn check_min_quorum(&self, quorum: u64) -> (r: Result<(), DaoError>)
        ensures
            r is Ok <==> self.min_quorum <= quorum,
            r is Err ==> r == Err::<(), DaoError>(DaoError::InvalidQuorum),
    {
        if self.min_quorum <= quorum {
            Ok(())
        } else {
            Err(DaoError::InvalidQuorum)
        }
    }

    /// A proposal's expiry duration may not exceed the registry maximum.
    pub fn check_max_expiry(&self, expiry: u64) -> (r: Result<(), DaoError>)
        ensures
            r is Ok <==> self.max_expiry >= expiry,
            r is Err ==> r == Err::<(), DaoError>(DaoError::InvalidExpiry),
    {
        if self.max_expiry >= expiry {
            Ok(())
        } else {
            Err(DaoError::InvalidExpiry)
        }
    }

    /// Advances the proposal counter and checks that the caller-supplied id
    /// equals the new counter value, so ids are sequential with no gaps and
    /// no reuse.  A stale id leaves the counter untouched.
    pub fn add_proposal(&mut self, id: u64) -> (r: Result<(), DaoError>)
        ensures
            r is Ok <==> old(self).proposal_count < u64::MAX && old(self).proposal_count + 1 == id,
            r matches Err(e) ==> {
                &&& *final(self) == *old(self)
                &&& (e == DaoError::Overflow || e == DaoError::InvalidProposalSeed)
                &&& (e == DaoError::Overflow <==> old(self).proposal_count == u64::MAX)
            },
            r is Ok ==> *final(self) == (DaoConfig { proposal_count: id, ..*old(self) }),
    {
        if self.proposal_count == u64::MAX {
            return Err(DaoError::Overflow);
        }
        let next = self.proposal_count + 1;
        if next != id {
            return Err(DaoError::InvalidProposalSeed);
        }
        self.proposal_count = next;
        Ok(())
    }
}

} // verus!
