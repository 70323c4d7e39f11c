use vstd::prelude::*;

use crate::addr::{Addr, addr_eq, addr_to_vec, bytes_to_vec, u64_le_bytes, u64_le_bytes_spec};
use crate::authority::{
    capability_seeds, check_instruction_refs, derive_address, derive_capability, pda_of,
    refs_match, InstructionData,
};
use crate::config::DaoConfig;
use crate::domains::{Domain, domain_bytes, domain_bytes_spec};
use crate::errors::DaoError;
use crate::multisig::{contains_addr, distinct_count, MultiSig};
use crate::proposal::{
    finalized_status, status_reachable, treasury_type_of, validate_treasury, Proposal,
    ProposalStatus, ProposalType, TreasuryType,
};
use crate::stake::StakeState;
use crate::treasury::TreasurySplit;
use crate::vote_state::VoteState;

verus! {

/// A participant's slot in the stake ledger.
#[derive(Clone, Copy, Debug)]
pub struct StakeEntry {
    /// The participant the entry belongs to.
    pub owner: Addr,
    /// The participant's balances and open-vote bookkeeping.
    pub state: StakeState,
}

/// A vote record bound to the proposal it was cast on.
#[derive(Clone, Copy, Debug)]
pub struct VoteEntry {
    /// The proposal the record belongs to.
    pub proposal_id: u64,
    /// The receipt itself; its owner is the voting participant.
    pub state: VoteState,
}

/// A value transfer the surrounding runtime is asked to perform.
#[derive(Clone, Copy, Debug)]
pub struct Payment {
    /// The destination slot.
    pub to: Addr,
    /// The amount to move.
    pub amount: u64,
}

/// What a resolved proposal asks the surrounding runtime to do.
#[derive(Clone, Copy, Debug, PartialEq, Eq)]
pub enum ExecutionAction {
    /// Transfer the declared bounty from the proposal's treasury pool to
    /// the verified payee, signed by the registry's master capability.
    PayBounty {
        /// The pool the payout is drawn from.
        treasury: TreasuryType,
        /// The verified destination.
        payee: Addr,
        /// The declared payout.
        amount: u64,
        /// Discriminator of the registry's master capability.
        auth_bump: u8,
    },
    /// Invoke the validated sub-actions, signed by the capability derived
    /// from the treasury name and the registry identity.
    Invoke {
        /// The derived signing capability.
        authority: Addr,
        /// Its discriminator.
        bump: u8,
    },
    /// Advisory outcome only: report the final tally; no funds move and no
    /// sub-action runs.
    Report {
        /// Total votes cast.
        votes: u64,
        /// The proposal's quorum percentage.
        quorum: u64,
        /// The proposal's threshold.
        threshold: u64,
        /// The terminal lifecycle state.
        result: ProposalStatus,
    },
}

/// The lifecycle state a proposal shows after being touched at time `now`:
/// first the `PreVoting` to `Open` transition is attempted, then the
/// terminal conditions are evaluated on the unchanged tallies.  Every
/// mutating operation applies this before and after its own effect.
pub open spec fn touched_status(p: Proposal, cfg: DaoConfig, now: u64) -> ProposalStatus {
    let s = if p.result == ProposalStatus::PreVoting && p.created_time + cfg.prevoting_period
        <= u64::MAX && now >= p.created_time + cfg.prevoting_period {
        ProposalStatus::Open
    } else {
        p.result
    };
    if s == ProposalStatus::Open {
        p.settled_status(now)
    } else {
        s
    }
}

/// A lazy touch only moves a proposal forward: from `PreVoting` to `Open`
/// once the pre-voting period has elapsed, and from `Open` to a terminal
/// state once the tallies and the clock decide it; a terminal state is
/// never left.
pub proof fn lemma_touch_is_forward(p: Proposal, cfg: DaoConfig, now: u64)
    ensures
        status_reachable(p.result, touched_status(p, cfg, now)),
{
}

/// The total amount a participant's open vote records hold, across all
/// live proposals.
pub open spec fn committed_of(votes: Seq<VoteEntry>, owner: Seq<u8>) -> int
    decreases votes.len(),
{
    if votes.len() == 0 {
        0
    } else {
        (if votes[0].state.owner@ == owner {
            votes[0].state.amount as int
        } else {
            0
        }) + committed_of(votes.drop_first(), owner)
    }
}

/// The number of open vote records a participant holds.
pub open spec fn records_of(votes: Seq<VoteEntry>, owner: Seq<u8>) -> int
    decreases votes.len(),
{
    if votes.len() == 0 {
        0
    } else {
        (if votes[0].state.owner@ == owner {
            1int
        } else {
            0int
        }) + records_of(votes.drop_first(), owner)
    }
}

/// A participant's hold and record count are never negative.
proof fn lemma_hold_nonneg(votes: Seq<VoteEntry>, owner: Seq<u8>)
    ensures
        committed_of(votes, owner) >= 0,
        records_of(votes, owner) >= 0,
    decreases votes.len(),
{
    if votes.len() > 0 {
        lemma_hold_nonneg(votes.drop_first(), owner);
    }
}

/// Appending a record adds its amount to its owner's hold and nothing to
/// anyone else's.
proof fn lemma_hold_push(votes: Seq<VoteEntry>, owner: Seq<u8>, e: VoteEntry)
    ensures
        committed_of(votes.push(e), owner) == committed_of(votes, owner) + (
        if e.state.owner@ == owner {
            e.state.amount as int
        } else {
            0
        }),
        records_of(votes.push(e), owner) == records_of(votes, owner) + (
        if e.state.owner@ == owner {
            1int
        } else {
            0int
        }),
    decreases votes.len(),
{
    if votes.len() == 0 {
        assert(votes.push(e).drop_first() =~= votes);
    } else {
        assert(votes.push(e).drop_first() =~= votes.drop_first().push(e));
        lemma_hold_push(votes.drop_first(), owner, e);
    }
}

/// Removing a record subtracts its amount from its owner's hold and
/// nothing from anyone else's.
proof fn lemma_hold_remove(votes: Seq<VoteEntry>, owner: Seq<u8>, i: int)
    requires
        0 <= i < votes.len(),
    ensures
        committed_of(votes.remove(i), owner) == committed_of(votes, owner) - (
        if votes[i].state.owner@ == owner {
            votes[i].state.amount as int
        } else {
            0
        }),
        records_of(votes.remove(i), owner) == records_of(votes, owner) - (
        if votes[i].state.owner@ == owner {
            1int
        } else {
            0int
        }),
    decreases votes.len(),
{
    if i == 0 {
        assert(votes.remove(0) =~= votes.drop_first());
    } else {
        assert(votes.remove(i).drop_first() =~= votes.drop_first().remove(i - 1));
        lemma_hold_remove(votes.drop_first(), owner, i - 1);
    }
}

/// A participant with no record holds nothing.
proof fn lemma_hold_absent(votes: Seq<VoteEntry>, owner: Seq<u8>)
    requires
        forall|i: int| 0 <= i < votes.len() ==> (#[trigger] votes[i]).state.owner@ != owner,
    ensures
        committed_of(votes, owner) == 0,
        records_of(votes, owner) == 0,
    decreases votes.len(),
{
    if votes.len() > 0 {
        assert(votes[0].state.owner@ != owner);
        assert(forall|i: int|
            0 <= i < votes.drop_first().len() ==> (#[trigger] votes.drop_first()[i]).state.owner@
                != owner);
        lemma_hold_absent(votes.drop_first(), owner);
    }
}

/// A participant with a zero record count has no record at all.
proof fn lemma_no_records(votes: Seq<VoteEntry>, owner: Seq<u8>)
    requires
        records_of(votes, owner) == 0,
    ensures
        forall|i: int| 0 <= i < votes.len() ==> (#[trigger] votes[i]).state.owner@ != owner,
    decreases votes.len(),
{
    if votes.len() > 0 {
        lemma_hold_nonneg(votes.drop_first(), owner);
        assert(votes[0].state.owner@ != owner);
        lemma_no_records(votes.drop_first(), owner);
        assert forall|i: int| 0 <= i < votes.len() implies (#[trigger] votes[i]).state.owner@
            != owner by {
            if i > 0 {
                assert(votes.drop_first()[i - 1] == votes[i]);
            }
        }
    }
}

/// No two live proposals share an id.
pub open spec fn proposals_distinct(s: Seq<Proposal>) -> bool {
    forall|i: int, j: int| 0 <= i < j < s.len() ==> (#[trigger] s[i]).id != (#[trigger] s[j]).id
}

/// No two stake ledger entries share an owner.
pub open spec fn stakes_distinct(s: Seq<StakeEntry>) -> bool {
    forall|i: int, j: int|
        0 <= i < j < s.len() ==> (#[trigger] s[i]).owner@ != (#[trigger] s[j]).owner@
}

/// No (participant, proposal) pair holds two vote records.
pub open spec fn votes_distinct(s: Seq<VoteEntry>) -> bool {
    forall|i: int, j: int|
        0 <= i < j < s.len() ==> !((#[trigger] s[i]).state.owner@ == (#[trigger] s[j]).state.owner@
            && s[i].proposal_id == s[j].proposal_id)
}

/// The whole governance ledger: the registry, the multisig roster, and the
/// live proposal, stake and vote slots.
#[derive(Debug)]
pub struct Dao {
    /// The program identity all capabilities are derived under.
    pub program_id: Addr,
    /// The registry record's derived address.
    pub config_addr: Addr,
    /// The multisig record's derived address.
    pub multisig_addr: Addr,
    /// Global parameters and the proposal counter.
    pub config: DaoConfig,
    /// The administrative n-of-m roster.
    pub multisig: MultiSig,
    /// All live proposals.
    pub proposals: Vec<Proposal>,
    /// All live stake ledger entries, one per participant.
    pub stakes: Vec<StakeEntry>,
    /// All live vote records, at most one per (participant, proposal).
    pub votes: Vec<VoteEntry>,
}

impl Dao {
    /// The ledger invariant: the registry and roster invariants hold, every
    /// proposal is well formed with a unique id the counter has covered,
    /// every stake entry is well formed and belongs to a distinct
    /// participant, no (participant, proposal) pair holds two vote
    /// records, and every stake entry's hold equals the sum of that
    /// participant's open vote records.
    pub open spec fn wf(&self) -> bool {
        &&& self.config.wf()
        &&& self.multisig.wf()
        &&& (forall|i: int|
            0 <= i < self.proposals@.len() ==> (#[trigger] self.proposals@[i]).wf())
        &&& (forall|i: int|
            0 <= i < self.proposals@.len() ==> 1 <= (#[trigger] self.proposals@[i]).id
                && self.proposals@[i].id <= self.config.proposal_count)
        &&& proposals_distinct(self.proposals@)
        &&& (forall|i: int| 0 <= i < self.stakes@.len() ==> (#[trigger] self.stakes@[i]).state.wf())
        &&& stakes_distinct(self.stakes@)
        &&& votes_distinct(self.votes@)
        &&& self.holds_consistent()
    }

    /// Open vote commitments are a hold, not merely advisory: every stake
    /// entry's committed amount and open-vote count equal the sum and the
    /// number of that participant's live vote records, and every record
    /// belongs to a participant with a stake entry.
    pub open spec fn holds_consistent(&self) -> bool {
        &&& (forall|i: int|
            0 <= i < self.stakes@.len() ==> (#[trigger] self.stakes@[i]).state.committed as int
                == committed_of(self.votes@, self.stakes@[i].owner@)
                && (#[trigger] self.stakes@[i]).state.accounts as int == records_of(
                self.votes@,
                self.stakes@[i].owner@,
            ))
        &&& (forall|i: int|
            0 <= i < self.votes@.len() ==> self.has_stake(
                (#[trigger] self.votes@[i]).state.owner@,
            ))
    }

    /// Whether a proposal with this id is live.
    pub open spec fn has_proposal(&self, id: u64) -> bool {
        exists|i: int| 0 <= i < self.proposals@.len() && (#[trigger] self.proposals@[i]).id == id
    }

    /// Whether this participant has a stake ledger entry.
    pub open spec fn has_stake(&self, owner: Seq<u8>) -> bool {
        exists|i: int| 0 <= i < self.stakes@.len() && (#[trigger] self.stakes@[i]).owner@ == owner
    }

    /// Whether this participant holds a vote record on this proposal.
    pub open spec fn has_vote(&self, owner: Seq<u8>, proposal_id: u64) -> bool {
        exists|i: int|
            0 <= i < self.votes@.len() && (#[trigger] self.votes@[i]).state.owner@ == owner
                && self.votes@[i].proposal_id == proposal_id
    }

    /// The live proposal with this id; meaningful when `has_proposal(id)`
    /// holds, and then unique because ids never repeat.
    pub open spec fn spec_proposal(&self, id: u64) -> Proposal {
        self.proposals@[choose|i: int|
            0 <= i < self.proposals@.len() && (#[trigger] self.proposals@[i]).id == id]
    }

    /// This participant's stake ledger state; meaningful when
    /// `has_stake(owner)` holds, and then unique because owners never
    /// repeat.
    pub open spec fn spec_stake(&self, owner: Seq<u8>) -> StakeState {
        self.stakes@[choose|i: int|
            0 <= i < self.stakes@.len() && (#[trigger] self.stakes@[i]).owner@ == owner].state
    }

    /// This participant's vote record on this proposal; meaningful when
    /// `has_vote(owner, proposal_id)` holds, and then unique because at
    /// most one record exists per pair.
    pub open spec fn spec_vote(&self, owner: Seq<u8>, proposal_id: u64) -> VoteState {
        self.votes@[choose|i: int|
            0 <= i < self.votes@.len() && (#[trigger] self.votes@[i]).state.owner@ == owner
                && self.votes@[i].proposal_id == proposal_id].state
    }

    fn find_proposal(&self, id: u64) -> (r: Option<usize>)
        ensures
            match r {
                Some(i) => i < self.proposals@.len() && self.proposals@[i as int].id == id,
                None => !self.has_proposal(id),
            },
    {
        let n = self.proposals.len();
        let mut i: usize = 0;
        while i < n
            invariant
                i <= n,
                n == self.proposals@.len(),
                forall|j: int| 0 <= j < i ==> (#[trigger] self.proposals@[j]).id != id,
            decreases n - i,
        {
            if self.proposals[i].id == id {
                return Some(i);
            }
            i += 1;
        }
        None
    }

    fn find_stake(&self, owner: &Addr) -> (r: Option<usize>)
        ensures
            match r {
                Some(i) => i < self.stakes@.len() && self.stakes@[i as int].owner@ == owner@,
                None => !self.has_stake(owner@),
            },
    {
        let n = self.stakes.len();
        let mut i: usize = 0;
        while i < n
            invariant
                i <= n,
                n == self.stakes@.len(),
                forall|j: int| 0 <= j < i ==> (#[trigger] self.stakes@[j]).owner@ != owner@,
            decreases n - i,
        {
            if addr_eq(&self.stakes[i].owner, owner) {
                return Some(i);
            }
            i += 1;
        }
        None
    }

    fn find_vote(&self, owner: &Addr, proposal_id: u64) -> (r: Option<usize>)
        ensures
            match r {
                Some(i) => i < self.votes@.len() && self.votes@[i as int].state.owner@ == owner@
                    && self.votes@[i as int].proposal_id == proposal_id,
                None => !self.has_vote(owner@, proposal_id),
            },
    {
        let n = self.votes.len();
        let mut i: usize = 0;
        while i < n
            invariant
                i <= n,
                n == self.votes@.len(),
                forall|j: int|
                    0 <= j < i ==> !((#[trigger] self.votes@[j]).state.owner@ == owner@
                        && self.votes@[j].proposal_id == proposal_id),
            decreases n - i,
        {
            if addr_eq(&self.votes[i].state.owner, owner) && self.votes[i].proposal_id
                == proposal_id {
                return Some(i);
            }
            i += 1;
        }
        None
    }

    /// Instantiates the DAO: validates and canonicalizes the multisig
    /// roster, derives the main treasury's share as the remainder of one
    /// hundred percent, derives the registry, capability and treasury
    /// addresses from the genesis seed, and builds the registry with a
    /// zeroed proposal counter.  After the roster and share validations
    /// pass, the operation fails only if one of the derivations has no
    /// viable discriminator.
    pub fn initialize(
        program_id: Addr,
        seed: u64,
        multisig_keys: Vec<Addr>,
        min_signers: u8,
        issue_price: u64,
        proposal_fee: u64,
        max_supply: u64,
        min_quorum: u64,
        min_threshold: u64,
        max_expiry: u64,
        min_stake: u64,
        min_choices: u8,
        prevoting_period: u64,
        multisig_share: u8,
        dev_treasury_share: u8,
        ops_treasury_share: u8,
    ) -> (r: Result<Dao, DaoError>)
        ensures
            r matches Err(e) ==> (e == DaoError::InvalidKeysLen || e == DaoError::InvalidSigners
                || e == DaoError::Overflow || e == DaoError::InvalidSignerOrSeed),
            (multisig_keys@.len() == 0 || distinct_count(multisig_keys@) > 255) ==> r == Err::<
                Dao,
                DaoError,
            >(DaoError::InvalidKeysLen),
            r matches Err(e) && e == DaoError::InvalidSigners ==> (min_signers == 0 || min_signers
                as nat > distinct_count(multisig_keys@)),
            r matches Err(e) && e == DaoError::Overflow ==> multisig_share + dev_treasury_share
                + ops_treasury_share > 100,
            (r is Ok <==> {
                &&& multisig_keys@.len() > 0
                &&& distinct_count(multisig_keys@) <= 255
                &&& min_signers > 0
                &&& min_signers as nat <= distinct_count(multisig_keys@)
                &&& multisig_share + dev_treasury_share + ops_treasury_share <= 100
                &&& ({
                    let c = pda_of(
                        seq![domain_bytes_spec(Domain::Config), u64_le_bytes_spec(seed)],
                        program_id@,
                    );
                    &&& c is Some
                    &&& (c matches Some(cp) && {
                        &&& pda_of(capability_seeds(Domain::Auth, cp.0, None), program_id@)
                            is Some
                        &&& pda_of(capability_seeds(Domain::Mint, cp.0, None), program_id@)
                            is Some
                        &&& pda_of(
                            capability_seeds(Domain::MainTreasury, cp.0, None),
                            program_id@,
                        ) is Some
                        &&& (pda_of(
                            capability_seeds(Domain::Multisig, cp.0, None),
                            program_id@,
                        ) matches Some(mp) && pda_of(
                            capability_seeds(Domain::MultisigTreasury, mp.0, None),
                            program_id@,
                        ) is Some)
                    })
                })
            }),
            r matches Ok(d) ==> {
                &&& d.wf()
                &&& d.program_id == program_id
                &&& d.config.seed == seed
                &&& d.config.issue_price == issue_price
                &&& d.config.proposal_fee == proposal_fee
                &&& d.config.max_supply == max_supply
                &&& d.config.min_quorum == min_quorum
                &&& d.config.min_threshold == min_threshold
                &&& d.config.max_expiry == max_expiry
                &&& d.config.min_stake == min_stake
                &&& d.config.min_choices == min_choices
                &&& d.config.prevoting_period == prevoting_period
                &&& d.config.proposal_count == 0
                &&& d.config.multisig_share == multisig_share
                &&& d.config.dev_treasury_share == dev_treasury_share
                &&& d.config.ops_treasury_share == ops_treasury_share
                &&& d.config.main_treasury_share + multisig_share + dev_treasury_share
                    + ops_treasury_share == 100
                &&& d.multisig.min_signers == min_signers
                &&& (forall|k: Seq<u8>|
                    #[trigger] contains_addr(d.multisig.keys@, k) <==> contains_addr(
                        multisig_keys@,
                        k,
                    ))
                &&& d.proposals@.len() == 0
                &&& d.stakes@.len() == 0
                &&& d.votes@.len() == 0
                &&& pda_of(
                    seq![domain_bytes_spec(Domain::Config), u64_le_bytes_spec(seed)],
                    program_id@,
                ) == Some((d.config_addr@, d.config.config_bump))
                &&& (pda_of(
                    capability_seeds(Domain::Auth, d.config_addr@, None),
                    program_id@,
                ) matches Some(p) && p.1 == d.config.auth_bump)
                &&& (pda_of(
                    capability_seeds(Domain::Mint, d.config_addr@, None),
                    program_id@,
                ) matches Some(p) && p.1 == d.config.mint_bump)
                &&& (pda_of(
                    capability_seeds(Domain::MainTreasury, d.config_addr@, None),
                    program_id@,
                ) matches Some(p) && p.1 == d.config.main_treasury_bump)
                &&& pda_of(
                    capability_seeds(Domain::Multisig, d.config_addr@, None),
                    program_id@,
                ) == Some((d.multisig_addr@, d.multisig.multisig_bump))
                &&& (pda_of(
                    capability_seeds(Domain::MultisigTreasury, d.multisig_addr@, None),
                    program_id@,
                ) matches Some(p) && p.1 == d.multisig.multisig_treasury_bump)
            },
    {
        let multisig_partial = match MultiSig::init(min_signers, multisig_keys, 0, 0) {
            Ok(m) => m,
            Err(e) => { return Err(e) },
        };
        let main_treasury_share = match DaoConfig::derive_main_share(
            multisig_share,
            dev_treasury_share,
            ops_treasury_share,
        ) {
            Ok(s) => s,
            Err(e) => { return Err(e) },
        };
        let mut config_seeds: Vec<Vec<u8>> = Vec::new();
        config_seeds.push(domain_bytes(Domain::Config));
        config_seeds.push(u64_le_bytes(seed));
        proof {
            assert(config_seeds@.map_values(|s: Vec<u8>| s@) =~= seq![
                domain_bytes_spec(Domain::Config),
                u64_le_bytes_spec(seed),
            ]);
        }
        let (config_addr, config_bump) = match derive_address(&program_id, &config_seeds) {
            Ok(p) => p,
            Err(e) => { return Err(e) },
        };
        let (_auth_addr, auth_bump) = match derive_capability(
            &program_id,
            Domain::Auth,
            &config_addr,
            None,
        ) {
            Ok(p) => p,
            Err(e) => { return Err(e) },
        };
        let (_mint_addr, mint_bump) = match derive_capability(
            &program_id,
            Domain::Mint,
            &config_addr,
            None,
        ) {
            Ok(p) => p,
            Err(e) => { return Err(e) },
        };
        let (_main_treasury_addr, main_treasury_bump) = match derive_capability(
            &program_id,
            Domain::MainTreasury,
            &config_addr,
            None,
        ) {
            Ok(p) => p,
            Err(e) => { return Err(e) },
        };
        let (multisig_addr, multisig_bump) = match derive_capability(
            &program_id,
            Domain::Multisig,
            &config_addr,
            None,
        ) {
            Ok(p) => p,
            Err(e) => { return Err(e) },
        };
        let (_multisig_treasury_addr, multisig_treasury_bump) = match derive_capability(
            &program_id,
            Domain::MultisigTreasury,
            &multisig_addr,
            None,
        ) {
            Ok(p) => p,
            Err(e) => { return Err(e) },
        };
        let multisig = MultiSig {
            multisig_bump,
            multisig_treasury_bump,
            ..multisig_partial
        };
        let config = DaoConfig::init(
            seed,
            issue_price,
            proposal_fee,
            max_supply,
            min_quorum,
            min_threshold,
            max_expiry,
            min_stake,
            min_choices,
            prevoting_period,
            auth_bump,
            config_bump,
            mint_bump,
            main_treasury_bump,
            multisig_share,
            main_treasury_share,
            dev_treasury_share,
            ops_treasury_share,
        );
        Ok(
            Dao {
                program_id,
                config_addr,
                multisig_addr,
                config,
                multisig,
                proposals: Vec::new(),
                stakes: Vec::new(),
                votes: Vec::new(),
            },
        )
    }

    /// The four transfers an issuance deposit splits into, per the
    /// registry's shares: the development, operations and multisig pools
    /// receive their floor percentage of the issue price and the main
    /// treasury absorbs the remainder, so the amounts sum exactly to the
    /// issue price.  Never fails on a well-formed registry.
    pub fn deposit_sol(&self) -> (r: Result<TreasurySplit, DaoError>)
        ensures
            r is Ok <==> self.config.wf(),
            r matches Ok(s) ==> {
                &&& s.dev == (self.config.issue_price * self.config.dev_treasury_share) / 100
                &&& s.ops == (self.config.issue_price * self.config.ops_treasury_share) / 100
                &&& s.multisig == (self.config.issue_price * self.config.multisig_share) / 100
                &&& s.main + s.dev + s.ops + s.multisig == self.config.issue_price
            },
            r is Err ==> r == Err::<TreasurySplit, DaoError>(DaoError::InvalidShares),
    {
        TreasurySplit::split_amount(
            self.config.issue_price,
            self.config.main_treasury_share,
            self.config.dev_treasury_share,
            self.config.ops_treasury_share,
            self.config.multisig_share,
        )
    }

    /// Opens a stake ledger entry for a participant, deriving the entry's
    /// own address and the participant's signing capability.  Fails when
    /// the participant already has an entry, or a derivation has no viable
    /// discriminator.
    pub fn init_stake(&mut self, owner: &Addr) -> (r: Result<(), DaoError>)
        requires
            old(self).wf(),
        ensures
            final(self).wf(),
            r == Err::<(), DaoError>(DaoError::AlreadyStaked) <==> old(self).has_stake(owner@),
            r matches Err(e) ==> *final(self) == *old(self) && (e == DaoError::AlreadyStaked || e
                == DaoError::InvalidSignerOrSeed),
            r is Ok ==> {
                &&& final(self).has_stake(owner@)
                &&& final(self).votes == old(self).votes
                &&& final(self).proposals == old(self).proposals
                &&& final(self).config == old(self).config
                &&& final(self).stakes@.len() == old(self).stakes@.len() + 1
                &&& final(self).stakes@.last().owner@ == owner@
                &&& final(self).stakes@.last().state.amount == 0
                &&& final(self).stakes@.last().state.committed == 0
                &&& final(self).stakes@.last().state.accounts == 0
                &&& final(self).stakes@.drop_last() == old(self).stakes@
            },
    {
        match self.find_stake(owner) {
            Some(_) => { return Err(DaoError::AlreadyStaked) },
            None => {},
        }
        let (_state_addr, state_bump) = match derive_capability(
            &self.program_id,
            Domain::Stake,
            &self.config_addr,
            Some(owner),
        ) {
            Ok(p) => p,
            Err(e) => { return Err(e) },
        };
        let (_auth_addr, auth_bump) = match derive_capability(
            &self.program_id,
            Domain::Auth,
            &self.config_addr,
            Some(owner),
        ) {
            Ok(p) => p,
            Err(e) => { return Err(e) },
        };
        let state = StakeState::init(auth_bump, state_bump);
        self.stakes.push(StakeEntry { owner: *owner, state });
        proof {
            assert(self.stakes@.drop_last() =~= old(self).stakes@);
            assert(self.stakes@[self.stakes@.len() - 1].owner@ == owner@);
            assert forall|k: int|
                0 <= k < self.votes@.len() implies (#[trigger] self.votes@[k]).state.owner@
                != owner@ by {
                if self.votes@[k].state.owner@ == owner@ {
                    assert(old(self).has_stake(owner@));
                }
            }
            lemma_hold_absent(self.votes@, owner@);
            assert forall|k: int| 0 <= k < self.votes@.len() implies self.has_stake(
                (#[trigger] self.votes@[k]).state.owner@,
            ) by {
                let o = self.votes@[k].state.owner@;
                assert(old(self).has_stake(o));
                let w = choose|w: int|
                    0 <= w < old(self).stakes@.len() && (#[trigger] old(self).stakes@[w]).owner@
                        == o;
                assert(self.stakes@[w].owner@ == o);
            }
        }
        Ok(())
    }

    /// Closes a participant's stake ledger entry.  Legal only once both the
    /// staked balance and the open-vote count are zero; fails when the
    /// entry is missing or still in use.
    pub fn close_stake(&mut self, owner: &Addr) -> (r: Result<(), DaoError>)
        requires
            old(self).wf(),
        ensures
            final(self).wf(),
            r is Ok <==> (exists|i: int|
                0 <= i < old(self).stakes@.len() && (#[trigger] old(self).stakes@[i]).owner@
                    == owner@ && old(self).stakes@[i].state.amount == 0
                    && old(self).stakes@[i].state.accounts == 0),
            !old(self).has_stake(owner@) ==> r == Err::<(), DaoError>(DaoError::StakeNotFound),
            r matches Err(e) ==> *final(self) == *old(self) && (e == DaoError::StakeNotFound || e
                == DaoError::StakeInUse),
            r is Ok ==> {
                &&& !final(self).has_stake(owner@)
                &&& final(self).votes == old(self).votes
                &&& final(self).proposals == old(self).proposals
                &&& final(self).config == old(self).config
                &&& final(self).stakes@.len() == old(self).stakes@.len() - 1
                &&& (exists|i: int|
                    0 <= i < old(self).stakes@.len() && (#[trigger] old(self).stakes@[i]).owner@
                        == owner@ && final(self).stakes@ == old(self).stakes@.remove(i))
            },
    {
        let i = match self.find_stake(owner) {
            Some(i) => i,
            None => { return Err(DaoError::StakeNotFound) },
        };
        let entry = self.stakes[i];
        if entry.state.amount != 0 || entry.state.accounts != 0 {
            assert(forall|j: int|
                0 <= j < self.stakes@.len() && (#[trigger] self.stakes@[j]).owner@ == owner@ ==> j
                    == i as int);
            return Err(DaoError::StakeInUse);
        }
        self.stakes.remove(i);
        proof {
            assert forall|k: int|
                0 <= k < self.stakes@.len() implies (#[trigger] self.stakes@[k]).owner@
                != owner@ by {
                if k < i as int {
                    assert(self.stakes@[k] == old(self).stakes@[k]);
                } else {
                    assert(self.stakes@[k] == old(self).stakes@[k + 1]);
                }
            }
            assert forall|k: int|
                0 <= k < self.stakes@.len() implies (#[trigger] self.stakes@[k]).state.committed
                    as int == committed_of(self.votes@, self.stakes@[k].owner@)
                && (#[trigger] self.stakes@[k]).state.accounts as int == records_of(
                self.votes@,
                self.stakes@[k].owner@,
            ) by {
                let k0 = if k < i as int {
                    k
                } else {
                    k + 1
                };
                assert(self.stakes@[k] == old(self).stakes@[k0]);
            }
            lemma_no_records(self.votes@, owner@);
            assert forall|k: int| 0 <= k < self.votes@.len() implies self.has_stake(
                (#[trigger] self.votes@[k]).state.owner@,
            ) by {
                let o = self.votes@[k].state.owner@;
                assert(o != owner@);
                assert(old(self).has_stake(o));
                let w = choose|w: int|
                    0 <= w < old(self).stakes@.len() && (#[trigger] old(self).stakes@[w]).owner@
                        == o;
                if w < i as int {
                    assert(self.stakes@[w].owner@ == o);
                } else {
                    assert(old(self).stakes@[i as int].owner@ == owner@);
                    assert(w != i as int);
                    assert(self.stakes@[w - 1].owner@ == o);
                }
            }
        }
        Ok(())
    }

    /// Credits freshly staked value to a participant's entry.
    pub fn stake_tokens(&mut self, owner: &Addr, amount: u64) -> (r: Result<(), DaoError>)
        requires
            old(self).wf(),
        ensures
            final(self).wf(),
            r is Ok <==> old(self).has_stake(owner@) && old(self).spec_stake(owner@).amount
                + amount <= u64::MAX,
            r matches Err(e) ==> *final(self) == *old(self) && e == (if !old(self).has_stake(
                owner@,
            ) {
                DaoError::StakeNotFound
            } else {
                DaoError::Overflow
            }),
            r is Ok ==> {
                &&& final(self).votes == old(self).votes
                &&& final(self).proposals == old(self).proposals
                &&& final(self).config == old(self).config
                &&& final(self).stakes@.len() == old(self).stakes@.len()
                &&& (exists|i: int|
                    0 <= i < old(self).stakes@.len() && (#[trigger] old(self).stakes@[i]).owner@
                        == owner@ && final(self).stakes@ == old(self).stakes@.update(
                        i,
                        StakeEntry {
                            owner: old(self).stakes@[i].owner,
                            state: StakeState {
                                amount: (old(self).stakes@[i].state.amount + amount) as u64,
                                ..old(self).stakes@[i].state
                            },
                        },
                    ))
            },
    {
        let i = match self.find_stake(owner) {
            Some(i) => i,
            None => { return Err(DaoError::StakeNotFound) },
        };
        proof {
            self.lemma_stake_at(owner@, i as int);
        }
        let mut entry = self.stakes[i];
        match entry.state.stake(amount) {
            Ok(()) => {},
            Err(e) => { return Err(e) },
        }
        self.stakes[i] = entry;
        proof {
            assert forall|k: int| 0 <= k < self.votes@.len() implies self.has_stake(
                (#[trigger] self.votes@[k]).state.owner@,
            ) by {
                let o = self.votes@[k].state.owner@;
                assert(old(self).has_stake(o));
                let w = choose|w: int|
                    0 <= w < old(self).stakes@.len() && (#[trigger] old(self).stakes@[w]).owner@
                        == o;
                assert(self.stakes@[w].owner@ == o);
            }
        }
        Ok(())
    }

    /// Debits staked value from a participant's entry; the hold of open
    /// vote commitments is enforced, so the free balance never goes
    /// negative.
    pub fn unstake_tokens(&mut self, owner: &Addr, amount: u64) -> (r: Result<(), DaoError>)
        requires
            old(self).wf(),
        ensures
            final(self).wf(),
            r is Ok <==> old(self).has_stake(owner@) && amount <= old(self).spec_stake(
                owner@,
            ).amount && old(self).spec_stake(owner@).amount - amount >= old(self).spec_stake(
                owner@,
            ).committed,
            r matches Err(e) ==> *final(self) == *old(self) && e == (if !old(self).has_stake(
                owner@,
            ) {
                DaoError::StakeNotFound
            } else if amount > old(self).spec_stake(owner@).amount {
                DaoError::Underflow
            } else {
                DaoError::InsufficientStake
            }),
            r is Ok ==> {
                &&& final(self).votes == old(self).votes
                &&& final(self).proposals == old(self).proposals
                &&& final(self).config == old(self).config
                &&& (exists|i: int|
                    0 <= i < old(self).stakes@.len() && (#[trigger] old(self).stakes@[i]).owner@
                        == owner@ && amount <= old(self).stakes@[i].state.amount && old(
                        self,
                    ).stakes@[i].state.amount - amount >= old(self).stakes@[i].state.committed
                        && final(self).stakes@ == old(self).stakes@.update(
                        i,
                        StakeEntry {
                            owner: old(self).stakes@[i].owner,
                            state: StakeState {
                                amount: (old(self).stakes@[i].state.amount - amount) as u64,
                                ..old(self).stakes@[i].state
                            },
                        },
                    ))
            },
    {
        let i = match self.find_stake(owner) {
            Some(i) => i,
            None => { return Err(DaoError::StakeNotFound) },
        };
        proof {
            self.lemma_stake_at(owner@, i as int);
        }
        let mut entry = self.stakes[i];
        match entry.state.unstake(amount) {
            Ok(()) => {},
            Err(e) => { return Err(e) },
        }
        self.stakes[i] = entry;
        proof {
            assert forall|k: int| 0 <= k < self.votes@.len() implies self.has_stake(
                (#[trigger] self.votes@[k]).state.owner@,
            ) by {
                let o = self.votes@[k].state.owner@;
                assert(old(self).has_stake(o));
                let w = choose|w: int|
                    0 <= w < old(self).stakes@.len() && (#[trigger] old(self).stakes@[w]).owner@
                        == o;
                assert(self.stakes@[w].owner@ == o);
            }
        }
        Ok(())
    }

    /// When ids never repeat, the proposal at a found index is the one
    /// `spec_proposal` denotes.
    proof fn lemma_proposal_at(&self, id: u64, i: int)
        requires
            proposals_distinct(self.proposals@),
            0 <= i < self.proposals@.len(),
            self.proposals@[i].id == id,
        ensures
            self.has_proposal(id),
            self.spec_proposal(id) == self.proposals@[i],
    {
        assert(self.has_proposal(id));
        let w = choose|w: int|
            0 <= w < self.proposals@.len() && (#[trigger] self.proposals@[w]).id == id;
        if w < i {
            assert((#[trigger] self.proposals@[w]).id != (#[trigger] self.proposals@[i]).id);
        } else if i < w {
            assert((#[trigger] self.proposals@[i]).id != (#[trigger] self.proposals@[w]).id);
        }
    }

    /// When owners never repeat, the stake entry at a found index is the
    /// one `spec_stake` denotes.
    proof fn lemma_stake_at(&self, owner: Seq<u8>, i: int)
        requires
            stakes_distinct(self.stakes@),
            0 <= i < self.stakes@.len(),
            self.stakes@[i].owner@ == owner,
        ensures
            self.has_stake(owner),
            self.spec_stake(owner) == self.stakes@[i].state,
    {
        assert(self.has_stake(owner));
        let w = choose|w: int|
            0 <= w < self.stakes@.len() && (#[trigger] self.stakes@[w]).owner@ == owner;
        if w < i {
            assert((#[trigger] self.stakes@[w]).owner@ != (#[trigger] self.stakes@[i]).owner@);
        } else if i < w {
            assert((#[trigger] self.stakes@[i]).owner@ != (#[trigger] self.stakes@[w]).owner@);
        }
    }

    /// When pairs never repeat, the vote record at a found index is the
    /// one `spec_vote` denotes.
    proof fn lemma_vote_at(&self, owner: Seq<u8>, proposal_id: u64, i: int)
        requires
            votes_distinct(self.votes@),
            0 <= i < self.votes@.len(),
            self.votes@[i].state.owner@ == owner,
            self.votes@[i].proposal_id == proposal_id,
        ensures
            self.has_vote(owner, proposal_id),
            self.spec_vote(owner, proposal_id) == self.votes@[i].state,
    {
        assert(self.has_vote(owner, proposal_id));
        let w = choose|w: int|
            0 <= w < self.votes@.len() && (#[trigger] self.votes@[w]).state.owner@ == owner
                && self.votes@[w].proposal_id == proposal_id;
        if w < i {
            assert(!((#[trigger] self.votes@[w]).state.owner@ == (
            #[trigger] self.votes@[i]).state.owner@ && self.votes@[w].proposal_id
                == self.votes@[i].proposal_id));
        } else if i < w {
            assert(!((#[trigger] self.votes@[i]).state.owner@ == (
            #[trigger] self.votes@[w]).state.owner@ && self.votes@[i].proposal_id
                == self.votes@[w].proposal_id));
        }
    }

    /// The hold bookkeeping survives opening a vote: one record was
    /// appended and its amount and count were added to its owner's stake
    /// entry.
    proof fn lemma_holds_after_record_added(&self, pre: &Dao, si: int)
        requires
            pre.wf(),
            0 <= si < pre.stakes@.len(),
            self.votes@.len() == pre.votes@.len() + 1,
            self.votes@.drop_last() == pre.votes@,
            self.votes@.last().state.owner@ == pre.stakes@[si].owner@,
            pre.stakes@[si].state.committed + self.votes@.last().state.amount <= u64::MAX,
            pre.stakes@[si].state.accounts < u64::MAX,
            self.stakes@ == pre.stakes@.update(
                si,
                StakeEntry {
                    owner: pre.stakes@[si].owner,
                    state: StakeState {
                        committed: (pre.stakes@[si].state.committed
                            + self.votes@.last().state.amount) as u64,
                        accounts: (pre.stakes@[si].state.accounts + 1) as u64,
                        ..pre.stakes@[si].state
                    },
                },
            ),
        ensures
            self.holds_consistent(),
    {
        let e = self.votes@.last();
        assert(self.votes@ =~= pre.votes@.push(e));
        assert forall|k: int|
            0 <= k < self.stakes@.len() implies (#[trigger] self.stakes@[k]).state.committed
                as int == committed_of(self.votes@, self.stakes@[k].owner@) && (
        #[trigger] self.stakes@[k]).state.accounts as int == records_of(
            self.votes@,
            self.stakes@[k].owner@,
        ) by {
            lemma_hold_push(pre.votes@, self.stakes@[k].owner@, e);
            if k != si {
                assert(self.stakes@[k] == pre.stakes@[k]);
                if k < si {
                    assert((#[trigger] pre.stakes@[k]).owner@ != (#[trigger] pre.stakes@[si]).owner@);
                } else {
                    assert((#[trigger] pre.stakes@[si]).owner@ != (#[trigger] pre.stakes@[k]).owner@);
                }
            }
        }
        assert forall|k: int| 0 <= k < self.votes@.len() implies self.has_stake(
            (#[trigger] self.votes@[k]).state.owner@,
        ) by {
            let o = self.votes@[k].state.owner@;
            if k == self.votes@.len() - 1 {
                assert(self.stakes@[si].owner@ == o);
            } else {
                assert(pre.votes@[k] == self.votes@[k]);
                assert(pre.has_stake(o));
                let w = choose|w: int|
                    0 <= w < pre.stakes@.len() && (#[trigger] pre.stakes@[w]).owner@ == o;
                assert(self.stakes@[w].owner@ == o);
            }
        }
    }

    /// The hold bookkeeping survives closing a vote: one record was removed
    /// and its amount and count were released from its owner's stake entry.
    proof fn lemma_holds_after_record_removed(&self, pre: &Dao, si: int, vi: int)
        requires
            pre.wf(),
            0 <= vi < pre.votes@.len(),
            0 <= si < pre.stakes@.len(),
            pre.stakes@[si].owner@ == pre.votes@[vi].state.owner@,
            pre.votes@[vi].state.amount <= pre.stakes@[si].state.committed,
            pre.stakes@[si].state.accounts >= 1,
            self.votes@ == pre.votes@.remove(vi),
            self.stakes@ == pre.stakes@.update(
                si,
                StakeEntry {
                    owner: pre.stakes@[si].owner,
                    state: StakeState {
                        committed: (pre.stakes@[si].state.committed
                            - pre.votes@[vi].state.amount) as u64,
                        accounts: (pre.stakes@[si].state.accounts - 1) as u64,
                        ..pre.stakes@[si].state
                    },
                },
            ),
        ensures
            self.holds_consistent(),
    {
        assert forall|k: int|
            0 <= k < self.stakes@.len() implies (#[trigger] self.stakes@[k]).state.committed
                as int == committed_of(self.votes@, self.stakes@[k].owner@) && (
        #[trigger] self.stakes@[k]).state.accounts as int == records_of(
            self.votes@,
            self.stakes@[k].owner@,
        ) by {
            lemma_hold_remove(pre.votes@, self.stakes@[k].owner@, vi);
            if k != si {
                assert(self.stakes@[k] == pre.stakes@[k]);
                if k < si {
                    assert((#[trigger] pre.stakes@[k]).owner@ != (#[trigger] pre.stakes@[si]).owner@);
                } else {
                    assert((#[trigger] pre.stakes@[si]).owner@ != (#[trigger] pre.stakes@[k]).owner@);
                }
            }
        }
        assert forall|k: int| 0 <= k < self.votes@.len() implies self.has_stake(
            (#[trigger] self.votes@[k]).state.owner@,
        ) by {
            let k0 = if k < vi {
                k
            } else {
                k + 1
            };
            assert(self.votes@[k] == pre.votes@[k0]);
            let o = self.votes@[k].state.owner@;
            assert(pre.has_stake(o));
            let w = choose|w: int|
                0 <= w < pre.stakes@.len() && (#[trigger] pre.stakes@[w]).owner@ == o;
            assert(self.stakes@[w].owner@ == o);
        }
    }

    /// Creates a proposal: the proposer must hold the registry's minimum
    /// stake, the id must equal the registry's next counter value, the
    /// parameters must pass the registry's bounds, and the proposal record
    /// itself must validate.  On success the registry counter advances to
    /// the new id, the proposal starts in `PreVoting`, and the returned
    /// payment is the proposal fee the runtime must escrow from the
    /// proposer to the selected treasury pool.  On any error the ledger is
    /// unchanged.
    pub fn create_proposal(
        &mut self,
        owner: &Addr,
        id: u64,
        name: Vec<u8>,
        gist: Vec<u8>,
        proposal: ProposalType,
        quorum: u64,
        threshold: u64,
        expiry: u64,
        choices: u8,
        treasury: &Vec<u8>,
        now: u64,
    ) -> (r: Result<Payment, DaoError>)
        requires
            old(self).wf(),
        ensures
            final(self).wf(),
            r is Err ==> *final(self) == *old(self),
            ({
                let st = old(self).spec_stake(owner@);
                let cfg = old(self).config;
                let pseeds = seq![
                    domain_bytes_spec(Domain::Proposal),
                    old(self).config_addr@,
                    u64_le_bytes_spec(id),
                ];
                let tseeds = seq![treasury@, old(self).config_addr@];
                &&& (r is Ok <==> {
                    &&& old(self).has_stake(owner@)
                    &&& cfg.min_stake <= st.amount
                    &&& cfg.proposal_count < u64::MAX
                    &&& cfg.proposal_count + 1 == id
                    &&& cfg.min_choices <= choices
                    &&& cfg.min_quorum <= quorum
                    &&& cfg.min_threshold <= threshold
                    &&& expiry <= cfg.max_expiry
                    &&& name@.len() < 33
                    &&& gist@.len() < 73
                    &&& treasury_type_of(treasury@) is Some
                    &&& choices >= 3
                    &&& now + expiry <= u64::MAX
                    &&& pda_of(pseeds, old(self).program_id@) is Some
                    &&& pda_of(tseeds, old(self).program_id@) is Some
                })
                &&& (r matches Err(e) ==> e == (if !old(self).has_stake(owner@) {
                    DaoError::StakeNotFound
                } else if st.amount < cfg.min_stake {
                    DaoError::InvalidStakeAmount
                } else if cfg.proposal_count == u64::MAX {
                    DaoError::Overflow
                } else if cfg.proposal_count + 1 != id {
                    DaoError::InvalidProposalSeed
                } else if choices < cfg.min_choices {
                    DaoError::InvalidChoicesAmount
                } else if quorum < cfg.min_quorum {
                    DaoError::InvalidQuorum
                } else if threshold < cfg.min_threshold {
                    DaoError::InvalidThreshold
                } else if expiry > cfg.max_expiry {
                    DaoError::InvalidExpiry
                } else if name@.len() >= 33 {
                    DaoError::InvalidName
                } else if gist@.len() >= 73 {
                    DaoError::InvalidGist
                } else if treasury_type_of(treasury@) is None {
                    DaoError::InvalidTreasury
                } else if choices < 3 {
                    DaoError::InvalidChoicesAmount
                } else if now + expiry > u64::MAX {
                    DaoError::Overflow
                } else {
                    DaoError::InvalidSignerOrSeed
                }))
                &&& (r matches Ok(pay) ==> {
                    let p = final(self).proposals@.last();
                    &&& final(self).config == (DaoConfig { proposal_count: id, ..cfg })
                    &&& final(self).stakes == old(self).stakes
                    &&& final(self).votes == old(self).votes
                    &&& final(self).program_id == old(self).program_id
                    &&& final(self).config_addr == old(self).config_addr
                    &&& final(self).multisig_addr == old(self).multisig_addr
                    &&& final(self).multisig == old(self).multisig
                    &&& final(self).proposals@.len() == old(self).proposals@.len() + 1
                    &&& final(self).proposals@.drop_last() == old(self).proposals@
                    &&& p.id == id
                    &&& p.name@ == name@
                    &&& p.gist@ == gist@
                    &&& p.proposal == proposal
                    &&& p.result == ProposalStatus::PreVoting
                    &&& p.quorum == quorum
                    &&& p.threshold == threshold
                    &&& p.votes == 0
                    &&& p.expiry == now + expiry
                    &&& p.choices == choices
                    &&& p.created_time == now
                    &&& treasury_type_of(treasury@) == Some(p.treasury)
                    &&& (pda_of(pseeds, old(self).program_id@) matches Some(q) && q.1 == p.bump)
                    &&& pay.amount == cfg.proposal_fee
                    &&& (pda_of(tseeds, old(self).program_id@) matches Some(q) && q.0 == pay.to@)
                })
            }),
    {
        let si = match self.find_stake(owner) {
            Some(i) => i,
            None => { return Err(DaoError::StakeNotFound) },
        };
        proof {
            self.lemma_stake_at(owner@, si as int);
        }
        let st = self.stakes[si].state;
        match self.config.check_min_stake(st.amount) {
            Ok(()) => {},
            Err(e) => { return Err(e) },
        }
        if self.config.proposal_count == u64::MAX {
            return Err(DaoError::Overflow);
        }
        if self.config.proposal_count + 1 != id {
            return Err(DaoError::InvalidProposalSeed);
        }
        match self.config.check_min_choices(choices) {
            Ok(()) => {},
            Err(e) => { return Err(e) },
        }
        match self.config.check_min_quorum(quorum) {
            Ok(()) => {},
            Err(e) => { return Err(e) },
        }
        match self.config.check_min_threshold(threshold) {
            Ok(()) => {},
            Err(e) => { return Err(e) },
        }
        match self.config.check_max_expiry(expiry) {
            Ok(()) => {},
            Err(e) => { return Err(e) },
        }
        let p = match Proposal::init(
            id,
            name,
            gist,
            proposal,
            quorum,
            threshold,
            expiry,
            choices,
            0,
            treasury,
            now,
        ) {
            Ok(p) => p,
            Err(e) => { return Err(e) },
        };
        let mut pseeds: Vec<Vec<u8>> = Vec::new();
        pseeds.push(domain_bytes(Domain::Proposal));
        pseeds.push(addr_to_vec(&self.config_addr));
        pseeds.push(u64_le_bytes(id));
        proof {
            assert(pseeds@.map_values(|s: Vec<u8>| s@) =~= seq![
                domain_bytes_spec(Domain::Proposal),
                self.config_addr@,
                u64_le_bytes_spec(id),
            ]);
        }
        let (_proposal_addr, proposal_bump) = match derive_address(&self.program_id, &pseeds) {
            Ok(q) => q,
            Err(e) => { return Err(e) },
        };
        let mut tseeds: Vec<Vec<u8>> = Vec::new();
        tseeds.push(bytes_to_vec(treasury));
        tseeds.push(addr_to_vec(&self.config_addr));
        proof {
            assert(tseeds@.map_values(|s: Vec<u8>| s@) =~= seq![treasury@, self.config_addr@]);
        }
        let (fee_treasury, _tbump) = match derive_address(&self.program_id, &tseeds) {
            Ok(q) => q,
            Err(e) => { return Err(e) },
        };
        let p = Proposal { bump: proposal_bump, ..p };
        let radd = self.config.add_proposal(id);
        assert(radd is Ok);
        self.proposals.push(p);
        proof {
            assert(self.proposals@.drop_last() =~= old(self).proposals@);
            assert forall|a: int, b: int|
                0 <= a < b < self.proposals@.len() implies (#[trigger] self.proposals@[a]).id != (
            #[trigger] self.proposals@[b]).id by {
                if b == self.proposals@.len() - 1 {
                    assert(self.proposals@[a] == old(self).proposals@[a]);
                    assert(old(self).proposals@[a].id <= old(self).config.proposal_count);
                }
            }
        }
        Ok(Payment { to: fee_treasury, amount: self.config.proposal_fee })
    }

    /// Casts a vote: first the `PreVoting` to `Open` transition is
    /// attempted lazily, then the vote amount is bound to the chosen
    /// tally and to the participant's stake as an open commitment, one
    /// vote record is created for the (participant, proposal) pair, and
    /// finally the proposal settles if the new tallies already decide it.
    /// A second vote on the same pair fails with a double-vote error; a
    /// zero amount fails with an invalid-amount error; on any error the
    /// ledger is unchanged.
    pub fn vote(&mut self, owner: &Addr, proposal_id: u64, amount: u64, choice: u8, now: u64) -> (r:
        Result<(), DaoError>)
        requires
            old(self).wf(),
        ensures
            final(self).wf(),
            r is Err ==> *final(self) == *old(self),
            ({
                let p = old(self).spec_proposal(proposal_id);
                let st = old(self).spec_stake(owner@);
                let cfg = old(self).config;
                let pseeds = seq![
                    domain_bytes_spec(Domain::Proposal),
                    old(self).config_addr@,
                    u64_le_bytes_spec(proposal_id),
                ];
                &&& (r is Ok <==> {
                    &&& old(self).has_proposal(proposal_id)
                    &&& old(self).has_stake(owner@)
                    &&& !old(self).has_vote(owner@, proposal_id)
                    &&& pda_of(pseeds, old(self).program_id@) is Some
                    &&& (pda_of(pseeds, old(self).program_id@) matches Some(q) && pda_of(
                        capability_seeds(Domain::Vote, q.0, Some(owner@)),
                        old(self).program_id@,
                    ) is Some)
                    &&& (p.result == ProposalStatus::Open || (p.result == ProposalStatus::PreVoting
                        && p.created_time + cfg.prevoting_period <= u64::MAX && now
                        >= p.created_time + cfg.prevoting_period))
                    &&& now < p.expiry
                    &&& amount > 0
                    &&& choice < p.choices
                    &&& p.votes + amount <= u64::MAX
                    &&& amount <= st.free()
                    &&& st.accounts < u64::MAX
                })
                &&& (r matches Err(e) ==> e == (if !old(self).has_proposal(proposal_id) {
                    DaoError::ProposalNotFound
                } else if !old(self).has_stake(owner@) {
                    DaoError::StakeNotFound
                } else if old(self).has_vote(owner@, proposal_id) {
                    DaoError::DoubleVote
                } else if pda_of(pseeds, old(self).program_id@) is None {
                    DaoError::InvalidSignerOrSeed
                } else if (pda_of(pseeds, old(self).program_id@) matches Some(q) && pda_of(
                    capability_seeds(Domain::Vote, q.0, Some(owner@)),
                    old(self).program_id@,
                ) is None) {
                    DaoError::InvalidSignerOrSeed
                } else if p.result != ProposalStatus::Open && p.result
                    != ProposalStatus::PreVoting {
                    DaoError::InvalidProposalStatus
                } else if p.result == ProposalStatus::PreVoting && p.created_time
                    + cfg.prevoting_period > u64::MAX {
                    DaoError::Overflow
                } else if p.result == ProposalStatus::PreVoting && now < p.created_time
                    + cfg.prevoting_period {
                    DaoError::InvalidRequiredTime
                } else if now >= p.expiry {
                    DaoError::Expired
                } else if amount == 0 {
                    DaoError::InvalidVoteAmount
                } else if choice >= p.choices {
                    DaoError::InvalidChoice
                } else if p.votes + amount > u64::MAX {
                    DaoError::Overflow
                } else if amount > st.free() {
                    DaoError::InsufficientStake
                } else {
                    DaoError::Overflow
                }))
                &&& (r is Ok ==> {
                    let counts = p.vote_counts@.update(
                        choice as int,
                        (p.vote_counts@[choice as int] + amount) as u64,
                    );
                    let votes = (p.votes + amount) as u64;
                    let q = final(self).spec_proposal(proposal_id);
                    &&& final(self).config == cfg
                    &&& final(self).program_id == old(self).program_id
                    &&& final(self).config_addr == old(self).config_addr
                    &&& final(self).multisig_addr == old(self).multisig_addr
                    &&& final(self).multisig == old(self).multisig
                    &&& final(self).has_proposal(proposal_id)
                    &&& final(self).proposals@.len() == old(self).proposals@.len()
                    &&& (forall|j: int|
                        0 <= j < old(self).proposals@.len() && (#[trigger] old(
                            self,
                        ).proposals@[j]).id != proposal_id ==> final(self).proposals@[j] == old(
                            self,
                        ).proposals@[j])
                    &&& q.votes == votes
                    &&& q.vote_counts@ == counts
                    &&& q.result == finalized_status(
                        votes,
                        counts,
                        p.quorum,
                        p.threshold,
                        p.expiry,
                        now,
                    )
                    &&& q.id == p.id && q.quorum == p.quorum && q.threshold == p.threshold
                        && q.expiry == p.expiry && q.choices == p.choices && q.created_time
                        == p.created_time && q.treasury == p.treasury && q.proposal == p.proposal
                    &&& status_reachable(p.result, q.result)
                    &&& final(self).has_stake(owner@)
                    &&& final(self).spec_stake(owner@) == (StakeState {
                        committed: (st.committed + amount) as u64,
                        accounts: (st.accounts + 1) as u64,
                        ..st
                    })
                    &&& final(self).stakes@.len() == old(self).stakes@.len()
                    &&& (forall|j: int|
                        0 <= j < old(self).stakes@.len() && (#[trigger] old(
                            self,
                        ).stakes@[j]).owner@ != owner@ ==> final(self).stakes@[j] == old(
                            self,
                        ).stakes@[j])
                    &&& final(self).votes@.len() == old(self).votes@.len() + 1
                    &&& final(self).votes@.drop_last() == old(self).votes@
                    &&& final(self).votes@.last().proposal_id == proposal_id
                    &&& final(self).votes@.last().state.owner@ == owner@
                    &&& final(self).votes@.last().state.amount == amount
                    &&& final(self).votes@.last().state.choice == choice
                    &&& final(self).has_vote(owner@, proposal_id)
                })
            }),
    {
        let pi = match self.find_proposal(proposal_id) {
            Some(i) => i,
            None => { return Err(DaoError::ProposalNotFound) },
        };
        let si = match self.find_stake(owner) {
            Some(i) => i,
            None => { return Err(DaoError::StakeNotFound) },
        };
        match self.find_vote(owner, proposal_id) {
            Some(_) => { return Err(DaoError::DoubleVote) },
            None => {},
        }
        proof {
            self.lemma_proposal_at(proposal_id, pi as int);
            self.lemma_stake_at(owner@, si as int);
        }
        let mut pseeds: Vec<Vec<u8>> = Vec::new();
        pseeds.push(domain_bytes(Domain::Proposal));
        pseeds.push(addr_to_vec(&self.config_addr));
        pseeds.push(u64_le_bytes(proposal_id));
        proof {
            assert(pseeds@.map_values(|s: Vec<u8>| s@) =~= seq![
                domain_bytes_spec(Domain::Proposal),
                self.config_addr@,
                u64_le_bytes_spec(proposal_id),
            ]);
        }
        let (proposal_addr, _pbump) = match derive_address(&self.program_id, &pseeds) {
            Ok(q) => q,
            Err(e) => { return Err(e) },
        };
        let (_vote_addr, vote_bump) = match derive_capability(
            &self.program_id,
            Domain::Vote,
            &proposal_addr,
            Some(owner),
        ) {
            Ok(q) => q,
            Err(e) => { return Err(e) },
        };
        let cfg = self.config;
        let p = &self.proposals[pi];
        if !(p.result == ProposalStatus::Open || p.result == ProposalStatus::PreVoting) {
            return Err(DaoError::InvalidProposalStatus);
        }
        if p.result == ProposalStatus::PreVoting {
            if cfg.prevoting_period > u64::MAX - p.created_time {
                return Err(DaoError::Overflow);
            }
            if now < p.created_time + cfg.prevoting_period {
                return Err(DaoError::InvalidRequiredTime);
            }
        }
        if now >= p.expiry {
            return Err(DaoError::Expired);
        }
        if amount == 0 {
            return Err(DaoError::InvalidVoteAmount);
        }
        if choice >= p.choices {
            return Err(DaoError::InvalidChoice);
        }
        if amount > u64::MAX - p.votes {
            return Err(DaoError::Overflow);
        }
        let st = self.stakes[si].state;
        if amount > st.amount - st.committed {
            return Err(DaoError::InsufficientStake);
        }
        if st.accounts == u64::MAX {
            return Err(DaoError::Overflow);
        }
        let mut p = self.proposals.remove(pi);
        if !(p.result == ProposalStatus::Open) {
            let r1 = p.try_initialize(&cfg, now);
            assert(r1 is Ok);
        }
        let r2 = p.add_vote(amount, choice, now);
        assert(r2 is Ok);
        self.proposals.insert(pi, p);
        proof {
            assert(self.proposals@ =~= old(self).proposals@.update(
                pi as int,
                self.proposals@[pi as int],
            ));
        }
        let mut entry = self.stakes[si];
        let r3 = entry.state.add_account(amount);
        assert(r3 is Ok);
        self.stakes[si] = entry;
        self.votes.push(
            VoteEntry {
                proposal_id,
                state: VoteState::init(*owner, amount, choice, vote_bump),
            },
        );
        proof {
            assert(self.votes@.drop_last() =~= old(self).votes@);
            let n = self.votes@.len() - 1;
            assert(self.votes@[n].state.owner@ == owner@ && self.votes@[n].proposal_id
                == proposal_id);
            assert forall|a: int, b: int|
                0 <= a < b < self.votes@.len() implies !((#[trigger] self.votes@[a]).state.owner@
                == (#[trigger] self.votes@[b]).state.owner@ && self.votes@[a].proposal_id
                == self.votes@[b].proposal_id) by {
                if b == n {
                    assert(self.votes@[a] == old(self).votes@[a]);
                    if self.votes@[a].state.owner@ == owner@ && self.votes@[a].proposal_id
                        == proposal_id {
                        assert(old(self).has_vote(owner@, proposal_id));
                    }
                }
            }
            self.lemma_proposal_at(proposal_id, pi as int);
            self.lemma_stake_at(owner@, si as int);
            self.lemma_holds_after_record_added(old(self), si as int);
        }
        Ok(())
    }

    /// Withdraws a vote from a proposal that is still open: the proposal's
    /// total and the chosen tally shrink by the committed amount, the
    /// participant's hold is released and the open-vote counter
    /// decremented, and the vote record is destroyed.  Rejected once the
    /// proposal is no longer open; on any error the ledger is unchanged.
    pub fn remove_vote(&mut self, owner: &Addr, proposal_id: u64, now: u64) -> (r: Result<
        (),
        DaoError,
    >)
        requires
            old(self).wf(),
        ensures
            final(self).wf(),
            r is Err ==> *final(self) == *old(self),
            ({
                let p = old(self).spec_proposal(proposal_id);
                let st = old(self).spec_stake(owner@);
                let v = old(self).spec_vote(owner@, proposal_id);
                let cfg = old(self).config;
                let opened = p.result == ProposalStatus::Open || (p.result
                    == ProposalStatus::PreVoting && p.created_time + cfg.prevoting_period
                    <= u64::MAX && now >= p.created_time + cfg.prevoting_period);
                &&& (r is Ok <==> {
                    &&& old(self).has_vote(owner@, proposal_id)
                    &&& old(self).has_proposal(proposal_id)
                    &&& old(self).has_stake(owner@)
                    &&& opened
                    &&& v.choice < p.choices
                    &&& v.amount <= p.vote_counts@[v.choice as int]
                    &&& v.amount <= st.committed
                    &&& st.accounts >= 1
                })
                &&& (r matches Err(e) ==> e == (if !old(self).has_vote(owner@, proposal_id) {
                    DaoError::VoteNotFound
                } else if !old(self).has_proposal(proposal_id) {
                    DaoError::ProposalNotFound
                } else if !old(self).has_stake(owner@) {
                    DaoError::StakeNotFound
                } else if !opened {
                    DaoError::InvalidProposalStatus
                } else if v.choice >= p.choices {
                    DaoError::InvalidChoice
                } else {
                    DaoError::Underflow
                }))
                &&& (r is Ok ==> {
                    let counts = p.vote_counts@.update(
                        v.choice as int,
                        (p.vote_counts@[v.choice as int] - v.amount) as u64,
                    );
                    let votes = (p.votes - v.amount) as u64;
                    let q = final(self).spec_proposal(proposal_id);
                    &&& final(self).config == cfg
                    &&& final(self).program_id == old(self).program_id
                    &&& final(self).config_addr == old(self).config_addr
                    &&& final(self).multisig_addr == old(self).multisig_addr
                    &&& final(self).multisig == old(self).multisig
                    &&& final(self).has_proposal(proposal_id)
                    &&& final(self).proposals@.len() == old(self).proposals@.len()
                    &&& (forall|j: int|
                        0 <= j < old(self).proposals@.len() && (#[trigger] old(
                            self,
                        ).proposals@[j]).id != proposal_id ==> final(self).proposals@[j] == old(
                            self,
                        ).proposals@[j])
                    &&& q.votes == votes
                    &&& q.vote_counts@ == counts
                    &&& q.result == finalized_status(
                        votes,
                        counts,
                        p.quorum,
                        p.threshold,
                        p.expiry,
                        now,
                    )
                    &&& q.id == p.id && q.quorum == p.quorum && q.threshold == p.threshold
                        && q.expiry == p.expiry && q.choices == p.choices && q.created_time
                        == p.created_time && q.treasury == p.treasury && q.proposal == p.proposal
                    &&& status_reachable(p.result, q.result)
                    &&& final(self).has_stake(owner@)
                    &&& final(self).spec_stake(owner@) == (StakeState {
                        committed: (st.committed - v.amount) as u64,
                        accounts: (st.accounts - 1) as u64,
                        ..st
                    })
                    &&& final(self).stakes@.len() == old(self).stakes@.len()
                    &&& (forall|j: int|
                        0 <= j < old(self).stakes@.len() && (#[trigger] old(
                            self,
                        ).stakes@[j]).owner@ != owner@ ==> final(self).stakes@[j] == old(
                            self,
                        ).stakes@[j])
                    &&& final(self).votes@.len() == old(self).votes@.len() - 1
                    &&& !final(self).has_vote(owner@, proposal_id)
                    &&& (exists|i: int|
                        0 <= i < old(self).votes@.len() && (#[trigger] old(self).votes@[i]).state.owner@
                            == owner@ && old(self).votes@[i].proposal_id == proposal_id && final(self).votes@ == old(
                            self,
                        ).votes@.remove(i))
                })
            }),
    {
        let vi = match self.find_vote(owner, proposal_id) {
            Some(i) => i,
            None => { return Err(DaoError::VoteNotFound) },
        };
        let pi = match self.find_proposal(proposal_id) {
            Some(i) => i,
            None => { return Err(DaoError::ProposalNotFound) },
        };
        let si = match self.find_stake(owner) {
            Some(i) => i,
            None => { return Err(DaoError::StakeNotFound) },
        };
        proof {
            self.lemma_vote_at(owner@, proposal_id, vi as int);
            self.lemma_proposal_at(proposal_id, pi as int);
            self.lemma_stake_at(owner@, si as int);
        }
        let v = self.votes[vi].state;
        let cfg = self.config;
        let p = &self.proposals[pi];
        let opened = if p.result == ProposalStatus::Open {
            true
        } else if p.result == ProposalStatus::PreVoting {
            if cfg.prevoting_period <= u64::MAX - p.created_time {
                now >= p.created_time + cfg.prevoting_period
            } else {
                false
            }
        } else {
            false
        };
        if !opened {
            return Err(DaoError::InvalidProposalStatus);
        }
        if v.choice >= p.choices {
            return Err(DaoError::InvalidChoice);
        }
        if v.amount > p.vote_counts[v.choice as usize] {
            return Err(DaoError::Underflow);
        }
        let st = self.stakes[si].state;
        if v.amount > st.committed || st.accounts == 0 {
            return Err(DaoError::Underflow);
        }
        let mut p = self.proposals.remove(pi);
        if !(p.result == ProposalStatus::Open) {
            let r1 = p.try_initialize(&cfg, now);
            assert(r1 is Ok);
        }
        let r2 = p.remove_vote(v.amount, v.choice);
        assert(r2 is Ok);
        p.try_finalize(now);
        self.proposals.insert(pi, p);
        proof {
            assert(self.proposals@ =~= old(self).proposals@.update(
                pi as int,
                self.proposals@[pi as int],
            ));
        }
        let mut entry = self.stakes[si];
        let r3 = entry.state.remove_account(v.amount);
        assert(r3 is Ok);
        self.stakes[si] = entry;
        self.votes.remove(vi);
        proof {
            self.lemma_vote_removed(owner@, proposal_id, old(self).votes@, vi as int);
            self.lemma_proposal_at(proposal_id, pi as int);
            self.lemma_stake_at(owner@, si as int);
            self.lemma_holds_after_record_removed(old(self), si as int, vi as int);
        }
        Ok(())
    }

    /// After removing the unique record of a pair, the remaining records
    /// are still pairwise distinct and the pair holds no record.
    proof fn lemma_vote_removed(&self, owner: Seq<u8>, proposal_id: u64, pre: Seq<VoteEntry>, i: int)
        requires
            votes_distinct(pre),
            0 <= i < pre.len(),
            pre[i].state.owner@ == owner,
            pre[i].proposal_id == proposal_id,
            self.votes@ == pre.remove(i),
        ensures
            votes_distinct(self.votes@),
            !self.has_vote(owner, proposal_id),
    {
        let s = self.votes@;
        assert forall|a: int, b: int|
            0 <= a < b < s.len() implies !((#[trigger] s[a]).state.owner@ == (
        #[trigger] s[b]).state.owner@ && s[a].proposal_id == s[b].proposal_id) by {
            let a0 = if a < i {
                a
            } else {
                a + 1
            };
            let b0 = if b < i {
                b
            } else {
                b + 1
            };
            assert(s[a] == pre[a0] && s[b] == pre[b0]);
        }
        assert forall|w: int| 0 <= w < s.len() implies !((#[trigger] s[w]).state.owner@ == owner
            && s[w].proposal_id == proposal_id) by {
            let w0 = if w < i {
                w
            } else {
                w + 1
            };
            assert(s[w] == pre[w0]);
            if w0 != i && pre[w0].state.owner@ == owner && pre[w0].proposal_id == proposal_id {
                if w0 < i {
                    assert(!((#[trigger] pre[w0]).state.owner@ == (#[trigger] pre[i]).state.owner@
                        && pre[w0].proposal_id == pre[i].proposal_id));
                } else {
                    assert(!((#[trigger] pre[i]).state.owner@ == (#[trigger] pre[w0]).state.owner@
                        && pre[i].proposal_id == pre[w0].proposal_id));
                }
            }
        }
    }

    /// Closes a vote record once its proposal has settled (or was already
    /// cleaned up): the participant's hold is released and the open-vote
    /// counter decremented; the proposal's tallies are untouched.  While
    /// the proposal is still pending or open the record must stay; on any
    /// error the ledger is unchanged.
    pub fn cleanup_vote(&mut self, owner: &Addr, proposal_id: u64, now: u64) -> (r: Result<
        (),
        DaoError,
    >)
        requires
            old(self).wf(),
        ensures
            final(self).wf(),
            r is Err ==> *final(self) == *old(self),
            ({
                let p = old(self).spec_proposal(proposal_id);
                let st = old(self).spec_stake(owner@);
                let v = old(self).spec_vote(owner@, proposal_id);
                let cfg = old(self).config;
                let terminal = !old(self).has_proposal(proposal_id) || touched_status(p, cfg, now)
                    == ProposalStatus::Succeeded || touched_status(p, cfg, now)
                    == ProposalStatus::Failed;
                &&& (r is Ok <==> {
                    &&& old(self).has_vote(owner@, proposal_id)
                    &&& old(self).has_stake(owner@)
                    &&& terminal
                    &&& v.amount <= st.committed
                    &&& st.accounts >= 1
                })
                &&& (r matches Err(e) ==> e == (if !old(self).has_vote(owner@, proposal_id) {
                    DaoError::VoteNotFound
                } else if !old(self).has_stake(owner@) {
                    DaoError::StakeNotFound
                } else if !terminal {
                    DaoError::InvalidProposalStatus
                } else {
                    DaoError::Underflow
                }))
                &&& (r is Ok ==> {
                    &&& final(self).config == cfg
                    &&& final(self).program_id == old(self).program_id
                    &&& final(self).config_addr == old(self).config_addr
                    &&& final(self).multisig_addr == old(self).multisig_addr
                    &&& final(self).multisig == old(self).multisig
                    &&& final(self).proposals@.len() == old(self).proposals@.len()
                    &&& (forall|j: int|
                        0 <= j < old(self).proposals@.len() && (#[trigger] old(
                            self,
                        ).proposals@[j]).id != proposal_id ==> final(self).proposals@[j] == old(
                            self,
                        ).proposals@[j])
                    &&& (old(self).has_proposal(proposal_id) ==> final(self).spec_proposal(
                        proposal_id,
                    ) == (Proposal { result: touched_status(p, cfg, now), ..p }))
                    &&& status_reachable(p.result, touched_status(p, cfg, now))
                    &&& final(self).has_stake(owner@)
                    &&& final(self).spec_stake(owner@) == (StakeState {
                        committed: (st.committed - v.amount) as u64,
                        accounts: (st.accounts - 1) as u64,
                        ..st
                    })
                    &&& final(self).stakes@.len() == old(self).stakes@.len()
                    &&& (forall|j: int|
                        0 <= j < old(self).stakes@.len() && (#[trigger] old(
                            self,
                        ).stakes@[j]).owner@ != owner@ ==> final(self).stakes@[j] == old(
                            self,
                        ).stakes@[j])
                    &&& final(self).votes@.len() == old(self).votes@.len() - 1
                    &&& !final(self).has_vote(owner@, proposal_id)
                    &&& (exists|i: int|
                        0 <= i < old(self).votes@.len() && (#[trigger] old(self).votes@[i]).state.owner@
                            == owner@ && old(self).votes@[i].proposal_id == proposal_id && final(self).votes@ == old(
                            self,
                        ).votes@.remove(i))
                })
            }),
    {
        let vi = match self.find_vote(owner, proposal_id) {
            Some(i) => i,
            None => { return Err(DaoError::VoteNotFound) },
        };
        let si = match self.find_stake(owner) {
            Some(i) => i,
            None => { return Err(DaoError::StakeNotFound) },
        };
        proof {
            self.lemma_vote_at(owner@, proposal_id, vi as int);
            self.lemma_stake_at(owner@, si as int);
        }
        let v = self.votes[vi].state;
        let cfg = self.config;
        let pio = self.find_proposal(proposal_id);
        match pio {
            Some(pi) => {
                proof {
                    self.lemma_proposal_at(proposal_id, pi as int);
                }
                let p = &self.proposals[pi];
                let opened = if p.result == ProposalStatus::Open {
                    true
                } else if p.result == ProposalStatus::PreVoting {
                    if cfg.prevoting_period <= u64::MAX - p.created_time {
                        now >= p.created_time + cfg.prevoting_period
                    } else {
                        false
                    }
                } else {
                    false
                };
                let settled: ProposalStatus = if p.result == ProposalStatus::Succeeded || p.result
                    == ProposalStatus::Failed {
                    p.result
                } else if opened {
                    p.settled(now)
                } else {
                    ProposalStatus::PreVoting
                };
                if !(settled == ProposalStatus::Succeeded || settled == ProposalStatus::Failed) {
                    return Err(DaoError::InvalidProposalStatus);
                }
                let st = self.stakes[si].state;
                if v.amount > st.committed || st.accounts == 0 {
                    return Err(DaoError::Underflow);
                }
                let mut q = self.proposals.remove(pi);
                if !(q.result == ProposalStatus::Open) && !(q.result == ProposalStatus::Succeeded)
                    && !(q.result == ProposalStatus::Failed) {
                    let r1 = q.try_initialize(&cfg, now);
                    assert(r1 is Ok);
                }
                q.try_finalize(now);
                self.proposals.insert(pi, q);
                proof {
                    assert(self.proposals@ =~= old(self).proposals@.update(
                        pi as int,
                        self.proposals@[pi as int],
                    ));
                }
                let mut entry = self.stakes[si];
                let r3 = entry.state.remove_account(v.amount);
                assert(r3 is Ok);
                self.stakes[si] = entry;
                self.votes.remove(vi);
                proof {
                    self.lemma_vote_removed(owner@, proposal_id, old(self).votes@, vi as int);
                    self.lemma_proposal_at(proposal_id, pi as int);
                    self.lemma_stake_at(owner@, si as int);
                    self.lemma_holds_after_record_removed(old(self), si as int, vi as int);
                }
                Ok(())
            },
            None => {
                let st = self.stakes[si].state;
                if v.amount > st.committed || st.accounts == 0 {
                    return Err(DaoError::Underflow);
                }
                let mut entry = self.stakes[si];
                let r3 = entry.state.remove_account(v.amount);
                assert(r3 is Ok);
                self.stakes[si] = entry;
                self.votes.remove(vi);
                proof {
                    self.lemma_vote_removed(owner@, proposal_id, old(self).votes@, vi as int);
                    self.lemma_stake_at(owner@, si as int);
                    self.lemma_holds_after_record_removed(old(self), si as int, vi as int);
                }
                Ok(())
            },
        }
    }

    /// After removing the unique proposal of an id, the remaining
    /// proposals keep the invariant and the id is gone.
    proof fn lemma_proposal_removed(&self, id: u64, pre: Seq<Proposal>, i: int)
        requires
            proposals_distinct(pre),
            0 <= i < pre.len(),
            pre[i].id == id,
            self.proposals@ == pre.remove(i),
        ensures
            proposals_distinct(self.proposals@),
            !self.has_proposal(id),
            forall|k: int|
                0 <= k < self.proposals@.len() ==> exists|k0: int|
                    0 <= k0 < pre.len() && #[trigger] self.proposals@[k] == pre[k0],
    {
        let s = self.proposals@;
        assert forall|a: int, b: int| 0 <= a < b < s.len() implies (#[trigger] s[a]).id != (
        #[trigger] s[b]).id by {
            let a0 = if a < i {
                a
            } else {
                a + 1
            };
            let b0 = if b < i {
                b
            } else {
                b + 1
            };
            assert(s[a] == pre[a0] && s[b] == pre[b0]);
        }
        assert forall|w: int| 0 <= w < s.len() implies (#[trigger] s[w]).id != id by {
            let w0 = if w < i {
                w
            } else {
                w + 1
            };
            assert(s[w] == pre[w0]);
            if w0 != i && pre[w0].id == id {
                if w0 < i {
                    assert((#[trigger] pre[w0]).id != (#[trigger] pre[i]).id);
                } else {
                    assert((#[trigger] pre[i]).id != (#[trigger] pre[w0]).id);
                }
            }
        }
        assert forall|k: int| 0 <= k < s.len() implies exists|k0: int|
            0 <= k0 < pre.len() && #[trigger] s[k] == pre[k0] by {
            let k0 = if k < i {
                k
            } else {
                k + 1
            };
            assert(s[k] == pre[k0]);
        }
    }

    /// Reclaims a failed proposal's storage: legal only once the proposal
    /// has settled to `Failed` (evaluated lazily on this touch), so a
    /// pending or open proposal cannot be cleaned up to recover its
    /// escrowed fee early.  The selector must name the proposal's own
    /// treasury pool, which receives the reclaimed storage.  On any error
    /// the ledger is unchanged.
    pub fn cleanup_proposal(&mut self, proposal_id: u64, treasury: &Vec<u8>, now: u64) -> (r:
        Result<(), DaoError>)
        requires
            old(self).wf(),
        ensures
            final(self).wf(),
            r is Err ==> *final(self) == *old(self),
            ({
                let p = old(self).spec_proposal(proposal_id);
                let cfg = old(self).config;
                &&& (r is Ok <==> {
                    &&& old(self).has_proposal(proposal_id)
                    &&& treasury_type_of(treasury@) == Some(p.treasury)
                    &&& touched_status(p, cfg, now) == ProposalStatus::Failed
                })
                &&& (r matches Err(e) ==> e == (if !old(self).has_proposal(proposal_id) {
                    DaoError::ProposalNotFound
                } else if treasury_type_of(treasury@) != Some(p.treasury) {
                    DaoError::InvalidTreasury
                } else {
                    DaoError::InvalidProposalStatus
                }))
                &&& (r is Ok ==> {
                    &&& final(self).config == cfg
                    &&& final(self).program_id == old(self).program_id
                    &&& final(self).config_addr == old(self).config_addr
                    &&& final(self).multisig_addr == old(self).multisig_addr
                    &&& final(self).multisig == old(self).multisig
                    &&& final(self).stakes == old(self).stakes
                    &&& final(self).votes == old(self).votes
                    &&& final(self).proposals@.len() == old(self).proposals@.len() - 1
                    &&& !final(self).has_proposal(proposal_id)
                    &&& (exists|i: int|
                        0 <= i < old(self).proposals@.len() && (#[trigger] old(
                            self,
                        ).proposals@[i]).id == proposal_id && final(self).proposals@ == old(
                            self,
                        ).proposals@.remove(i))
                })
            }),
    {
        let pi = match self.find_proposal(proposal_id) {
            Some(i) => i,
            None => { return Err(DaoError::ProposalNotFound) },
        };
        proof {
            self.lemma_proposal_at(proposal_id, pi as int);
        }
        let cfg = self.config;
        let p = &self.proposals[pi];
        let selected = match validate_treasury(treasury) {
            Ok(t) => t,
            Err(e) => { return Err(e) },
        };
        if !(selected == p.treasury) {
            return Err(DaoError::InvalidTreasury);
        }
        let settled = self.touched_of(pi, now);
        if !(settled == ProposalStatus::Failed) {
            return Err(DaoError::InvalidProposalStatus);
        }
        self.proposals.remove(pi);
        proof {
            self.lemma_proposal_removed(proposal_id, old(self).proposals@, pi as int);
        }
        Ok(())
    }

    /// The status the proposal at a live index shows when touched now.
    fn touched_of(&self, pi: usize, now: u64) -> (s: ProposalStatus)
        requires
            pi < self.proposals@.len(),
            self.proposals@[pi as int].wf(),
        ensures
            s == touched_status(self.proposals@[pi as int], self.config, now),
    {
        let cfg = self.config;
        let p = &self.proposals[pi];
        let opened = if p.result == ProposalStatus::Open {
            true
        } else if p.result == ProposalStatus::PreVoting {
            if cfg.prevoting_period <= u64::MAX - p.created_time {
                now >= p.created_time + cfg.prevoting_period
            } else {
                false
            }
        } else {
            false
        };
        if p.result == ProposalStatus::Succeeded || p.result == ProposalStatus::Failed {
            p.result
        } else if opened {
            p.settled(now)
        } else {
            ProposalStatus::PreVoting
        }
    }

    /// Dispatches a succeeded proposal and reclaims its storage: a bounty
    /// payload authorizes a payout to the verified payee from the
    /// proposal's treasury; an executable payload validates every supplied
    /// reference against the declared sub-actions and hands back the
    /// capability derived from the treasury name and the registry
    /// identity; an advisory payload only reports the tally.  Legal only
    /// once the proposal has settled to `Succeeded` (evaluated lazily on
    /// this touch); on any error the ledger is unchanged.
    pub fn execute_proposal(
        &mut self,
        proposal_id: u64,
        treasury: &Vec<u8>,
        payee: &Addr,
        ixs: &Vec<InstructionData>,
        accounts: &Vec<Addr>,
        now: u64,
    ) -> (r: Result<ExecutionAction, DaoError>)
        requires
            old(self).wf(),
        ensures
            final(self).wf(),
            r is Err ==> *final(self) == *old(self),
            ({
                let p = old(self).spec_proposal(proposal_id);
                let cfg = old(self).config;
                let aseeds = seq![treasury@, old(self).config_addr@];
                &&& (r is Ok <==> {
                    &&& old(self).has_proposal(proposal_id)
                    &&& treasury_type_of(treasury@) == Some(p.treasury)
                    &&& touched_status(p, cfg, now) == ProposalStatus::Succeeded
                    &&& match p.proposal {
                        ProposalType::Bounty(decl, _) => payee@ == decl@,
                        ProposalType::Executable => refs_match(ixs@, accounts@) && pda_of(
                            aseeds,
                            old(self).program_id@,
                        ) is Some,
                        ProposalType::Vote => true,
                    }
                })
                &&& (r matches Err(e) ==> e == (if !old(self).has_proposal(proposal_id) {
                    DaoError::ProposalNotFound
                } else if treasury_type_of(treasury@) != Some(p.treasury) {
                    DaoError::InvalidTreasury
                } else if touched_status(p, cfg, now) != ProposalStatus::Succeeded {
                    DaoError::InvalidProposalStatus
                } else {
                    match p.proposal {
                        ProposalType::Bounty(_, _) => DaoError::InvalidInstructionData,
                        ProposalType::Executable => if !refs_match(ixs@, accounts@) {
                            DaoError::InvalidInstructionData
                        } else {
                            DaoError::InvalidSignerOrSeed
                        },
                        ProposalType::Vote => DaoError::InvalidSignerOrSeed,
                    }
                }))
                &&& (r matches Ok(a) ==> {
                    &&& final(self).config == cfg
                    &&& final(self).program_id == old(self).program_id
                    &&& final(self).config_addr == old(self).config_addr
                    &&& final(self).multisig_addr == old(self).multisig_addr
                    &&& final(self).multisig == old(self).multisig
                    &&& final(self).stakes == old(self).stakes
                    &&& final(self).votes == old(self).votes
                    &&& final(self).proposals@.len() == old(self).proposals@.len() - 1
                    &&& !final(self).has_proposal(proposal_id)
                    &&& (exists|i: int|
                        0 <= i < old(self).proposals@.len() && (#[trigger] old(
                            self,
                        ).proposals@[i]).id == proposal_id && final(self).proposals@ == old(
                            self,
                        ).proposals@.remove(i))
                    &&& match p.proposal {
                        ProposalType::Bounty(decl, payout) => a == (ExecutionAction::PayBounty {
                            treasury: p.treasury,
                            payee: *payee,
                            amount: payout,
                            auth_bump: cfg.auth_bump,
                        }),
                        ProposalType::Executable => (a matches ExecutionAction::Invoke {
                            authority,
                            bump,
                        } && pda_of(aseeds, old(self).program_id@) == Some((authority@, bump))),
                        ProposalType::Vote => a == (ExecutionAction::Report {
                            votes: p.votes,
                            quorum: p.quorum,
                            threshold: p.threshold,
                            result: ProposalStatus::Succeeded,
                        }),
                    }
                })
            }),
    {
        let pi = match self.find_proposal(proposal_id) {
            Some(i) => i,
            None => { return Err(DaoError::ProposalNotFound) },
        };
        proof {
            self.lemma_proposal_at(proposal_id, pi as int);
        }
        let cfg = self.config;
        let selected = match validate_treasury(treasury) {
            Ok(t) => t,
            Err(e) => { return Err(e) },
        };
        if !(selected == self.proposals[pi].treasury) {
            return Err(DaoError::InvalidTreasury);
        }
        let settled = self.touched_of(pi, now);
        if !(settled == ProposalStatus::Succeeded) {
            return Err(DaoError::InvalidProposalStatus);
        }
        let action: ExecutionAction = match self.proposals[pi].proposal {
            ProposalType::Bounty(decl, payout) => {
                if !addr_eq(payee, &decl) {
                    return Err(DaoError::InvalidInstructionData);
                }
                ExecutionAction::PayBounty {
                    treasury: self.proposals[pi].treasury,
                    payee: *payee,
                    amount: payout,
                    auth_bump: cfg.auth_bump,
                }
            },
            ProposalType::Executable => {
                match check_instruction_refs(ixs, accounts) {
                    Ok(()) => {},
                    Err(e) => { return Err(e) },
                }
                let mut aseeds: Vec<Vec<u8>> = Vec::new();
                aseeds.push(bytes_to_vec(treasury));
                aseeds.push(addr_to_vec(&self.config_addr));
                proof {
                    assert(aseeds@.map_values(|s: Vec<u8>| s@) =~= seq![
                        treasury@,
                        self.config_addr@,
                    ]);
                }
                let (authority, bump) = match derive_address(&self.program_id, &aseeds) {
                    Ok(q) => q,
                    Err(e) => { return Err(e) },
                };
                ExecutionAction::Invoke { authority, bump }
            },
            ProposalType::Vote => {
                ExecutionAction::Report {
                    votes: self.proposals[pi].votes,
                    quorum: self.proposals[pi].quorum,
                    threshold: self.proposals[pi].threshold,
                    result: ProposalStatus::Succeeded,
                }
            },
        };
        self.proposals.remove(pi);
        proof {
            self.lemma_proposal_removed(proposal_id, old(self).proposals@, pi as int);
        }
        Ok(action)
    }
}

/// The hold on staked value is real: in a well-formed ledger every
/// participant's committed amount equals the exact sum of the amounts
/// bound to their open vote records, and the staked balance covers it — so
/// no operation ever leaves a free balance that is negative relative to
/// the open vote commitments.
pub proof fn lemma_stake_covers_open_votes(d: &Dao, i: int)
    requires
        d.wf(),
        0 <= i < d.stakes@.len(),
    ensures
        d.stakes@[i].state.committed as int == committed_of(d.votes@, d.stakes@[i].owner@),
        committed_of(d.votes@, d.stakes@[i].owner@) <= d.stakes@[i].state.amount,
{
}

/// In a well-formed ledger, at most one vote record exists per
/// (participant, proposal) pair: two records of the same pair are the same
/// record.  Together with `vote`'s contract — a second cast on the same
/// pair fails with a double-vote error and changes nothing — this is what
/// makes vote counting exactly-once.
pub proof fn lemma_vote_record_unique(d: &Dao, i: int, j: int)
    requires
        d.wf(),
        0 <= i < d.votes@.len(),
        0 <= j < d.votes@.len(),
        d.votes@[i].state.owner@ == d.votes@[j].state.owner@,
        d.votes@[i].proposal_id == d.votes@[j].proposal_id,
    ensures
        i == j,
{
    if i < j {
        assert(!((#[trigger] d.votes@[i]).state.owner@ == (#[trigger] d.votes@[j]).state.owner@
            && d.votes@[i].proposal_id == d.votes@[j].proposal_id));
    } else if j < i {
        assert(!((#[trigger] d.votes@[j]).state.owner@ == (#[trigger] d.votes@[i]).state.owner@
            && d.votes@[j].proposal_id == d.votes@[i].proposal_id));
    }
}

} // verus!
