use vstd::prelude::*;

use crate::addr::{Addr, bytes_eq};
use crate::config::DaoConfig;
use crate::domains::{Domain, domain_bytes, domain_bytes_spec};
use crate::errors::DaoError;
use crate::sums::{sum_seq, lemma_sum_elem, lemma_sum_push, lemma_sum_update};

verus! {

use vstd::arithmetic::mul::lemma_mul_upper_bound;

/// What a successful proposal authorizes.
#[derive(Clone, Copy, Debug)]
pub enum ProposalType {
    /// Pay the declared payee the declared amount from a treasury pool.
    Bounty(Addr, u64),
    /// Run a caller-supplied list of sub-actions under a derived capability.
    Executable,
    /// Advisory only: report the final tally, with no side effects.
    Vote,
}

/// The lifecycle of a proposal.  Transitions are strictly forward:
/// `PreVoting` to `Open` once the pre-voting period elapses, and `Open` to
/// exactly one of the terminal states.
#[derive(Clone, Copy, Debug, PartialEq, Eq, Structural)]
pub enum ProposalStatus {
    /// Created, not yet accepting votes.
    PreVoting,
    /// Accepting votes.
    Open,
    /// Terminal: the success condition was met.
    Succeeded,
    /// Terminal: expired without success, or the against-choice met quorum.
    Failed,
}

/// The treasury pool a proposal draws on.
#[derive(Clone, Copy, Debug, PartialEq, Eq, Structural)]
pub enum TreasuryType {
    /// The main treasury.
    Main,
    /// The operations treasury.
    Ops,
    /// The development treasury.
    Dev,
}

/// The treasury pool a selector byte string names, if any.
pub open spec fn treasury_type_of(name: Seq<u8>) -> Option<TreasuryType> {
    if name == domain_bytes_spec(Domain::MainTreasury) {
        Some(TreasuryType::Main)
    } else if name == domain_bytes_spec(Domain::DevTreasury) {
        Some(TreasuryType::Dev)
    } else if name == domain_bytes_spec(Domain::OpsTreasury) {
        Some(TreasuryType::Ops)
    } else {
        None
    }
}

/// Resolves a treasury selector; fails if and only if the selector names no
/// treasury pool.
pub fn validate_treasury(treasury: &Vec<u8>) -> (r: Result<TreasuryType, DaoError>)
    ensures
        r matches Ok(t) ==> treasury_type_of(treasury@) == Some(t),
        r is Err <==> treasury_type_of(treasury@) is None,
        r is Err ==> r == Err::<TreasuryType, DaoError>(DaoError::InvalidTreasury),
{
    let main = domain_bytes(Domain::MainTreasury);
    let dev = domain_bytes(Domain::DevTreasury);
    let ops = domain_bytes(Domain::OpsTreasury);
    if bytes_eq(treasury, &main) {
        Ok(TreasuryType::Main)
    } else if bytes_eq(treasury, &dev) {
        Ok(TreasuryType::Dev)
    } else if bytes_eq(treasury, &ops) {
        Ok(TreasuryType::Ops)
    } else {
        Err(DaoError::InvalidTreasury)
    }
}

/// One transition step of the lifecycle: stay put, open after pre-voting,
/// or settle an open proposal.  No step leaves a terminal state or returns
/// to an earlier one.
pub open spec fn status_progresses(a: ProposalStatus, b: ProposalStatus) -> bool {
    ||| b == a
    ||| (a == ProposalStatus::PreVoting && b == ProposalStatus::Open)
    ||| (a == ProposalStatus::Open && (b == ProposalStatus::Succeeded || b
        == ProposalStatus::Failed))
}

/// The states a proposal can ever reach from a given one by forward steps:
/// the reflexive-transitive closure of `status_progresses`.
pub open spec fn status_reachable(a: ProposalStatus, b: ProposalStatus) -> bool {
    ||| b == a
    ||| (a == ProposalStatus::PreVoting && (b == ProposalStatus::Open || b
        == ProposalStatus::Succeeded || b == ProposalStatus::Failed))
    ||| (a == ProposalStatus::Open && (b == ProposalStatus::Succeeded || b
        == ProposalStatus::Failed))
}

/// A single forward step stays within reachability.
pub proof fn lemma_progress_implies_reachable(a: ProposalStatus, b: ProposalStatus)
    requires
        status_progresses(a, b),
    ensures
        status_reachable(a, b),
{
}

/// Reachability is transitive: chaining forward steps never produces a
/// backward one, so no lifecycle state is ever revisited.
pub proof fn lemma_status_reachable_trans(a: ProposalStatus, b: ProposalStatus, c: ProposalStatus)
    requires
        status_reachable(a, b),
        status_reachable(b, c),
    ensures
        status_reachable(a, c),
{
}

/// Terminal states are absorbing: once a proposal has succeeded or failed,
/// no sequence of forward steps changes its state, so the two terminal
/// states can never be flipped between and `PreVoting` is never returned
/// to.
pub proof fn lemma_terminal_absorbing(a: ProposalStatus, b: ProposalStatus)
    requires
        a == ProposalStatus::Succeeded || a == ProposalStatus::Failed,
        status_reachable(a, b),
    ensures
        b == a,
{
}

/// The index of the "for" choice in every tally list.
pub open spec fn for_index() -> int {
    0
}

/// The index of the "against" choice in every tally list.
pub open spec fn against_index() -> int {
    1
}

/// The index of the "abstain" choice in every tally list.
pub open spec fn abstain_index() -> int {
    2
}

/// The amount of votes a choice must gather to meet quorum: the quorum
/// percentage of the quorum basis (total votes minus abstain votes),
/// truncated.  The remainder is not credited to any side.
pub open spec fn quorum_requirement(votes: u64, counts: Seq<u64>, quorum: u64) -> int {
    ((votes - counts[abstain_index()]) * quorum) / 100
}

/// The state an open proposal settles to when touched at time `now`:
/// `Succeeded` when the threshold, the for-quorum and the clock all agree;
/// otherwise `Failed` when the proposal has expired or the against choice
/// alone meets a positive quorum requirement; otherwise it stays `Open`.
///
/// Two decisions are fixed here.  The failure disjunction is evaluated only
/// when the success condition does not hold: failure is (not success) and
/// (expired or against-quorum), with the disjunction binding inside the
/// conjunction.  And the against-quorum arm demands a positive requirement:
/// a requirement that truncates to zero would otherwise be met by an empty
/// tally, failing every freshly opened proposal on first touch.
pub open spec fn finalized_status(
    votes: u64,
    counts: Seq<u64>,
    quorum: u64,
    threshold: u64,
    expiry: u64,
    now: u64,
) -> ProposalStatus {
    let required = quorum_requirement(votes, counts, quorum);
    if votes >= threshold && counts[for_index()] >= required && now < expiry {
        ProposalStatus::Succeeded
    } else if now >= expiry || (required > 0 && counts[against_index()] >= required) {
        ProposalStatus::Failed
    } else {
        ProposalStatus::Open
    }
}

/// A proposal: tally state, quorum and threshold parameters, expiry, and
/// the current lifecycle state.
#[derive(Debug)]
pub struct Proposal {
    /// Unique sequential id, assigned by the registry counter.
    pub id: u64,
    /// Proposal name; at most 32 bytes, fixed by the record layout.
    pub name: Vec<u8>,
    /// Description reference; at most 72 bytes, fixed by the record layout.
    pub gist: Vec<u8>,
    /// What a success authorizes.
    pub proposal: ProposalType,
    /// Current lifecycle state.
    pub result: ProposalStatus,
    /// Quorum percentage of the quorum basis.
    pub quorum: u64,
    /// Total votes needed for success.
    pub threshold: u64,
    /// Total votes cast.
    pub votes: u64,
    /// The slot after which the proposal no longer accepts votes.
    pub expiry: u64,
    /// Number of choices; the first three are for, against and abstain.
    pub choices: u8,
    /// Discriminator of this record's own address.
    pub bump: u8,
    /// The slot the proposal was created at.
    pub created_time: u64,
    /// Per-choice vote tallies; the length equals the choice count.
    pub vote_counts: Vec<u64>,
    /// The treasury pool the proposal draws on.
    pub treasury: TreasuryType,
}

impl Proposal {
    /// The proposal invariant: the tally list matches the choice count, the
    /// three fixed choices exist, the total always equals the sum of the
    /// per-choice tallies, and the name bounds of the record layout hold.
    pub open spec fn wf(&self) -> bool {
        &&& self.vote_counts@.len() == self.choices as int
        &&& self.choices >= 3
        &&& self.votes as int == sum_seq(self.vote_counts@)
        &&& self.name@.len() <= 32
        &&& self.gist@.len() <= 72
    }

    /// The status an open proposal settles to at time `now` under its
    /// current tallies.
    pub open spec fn settled_status(&self, now: u64) -> ProposalStatus {
        finalized_status(
            self.votes,
            self.vote_counts@,
            self.quorum,
            self.threshold,
            self.expiry,
            now,
        )
    }

    /// Builds a proposal in `PreVoting` with zeroed tallies.  Fails on a
    /// name or description over the record layout bound, an unknown
    /// treasury selector, fewer choices than the fixed for/against/abstain
    /// layout, or an expiry past the end of the clock's range.
    pub fn init(
        id: u64,
        name: Vec<u8>,
        gist: Vec<u8>,
        proposal: ProposalType,
        quorum: u64,
        threshold: u64,
        expiry: u64,
        choices: u8,
        bump: u8,
        treasury: &Vec<u8>,
        now: u64,
    ) -> (r: Result<Proposal, DaoError>)
        ensures
            r is Ok <==> name@.len() < 33 && gist@.len() < 73 && treasury_type_of(treasury@) is Some
                && choices >= 3 && now + expiry <= u64::MAX,
            r matches Err(e) ==> {
                &&& e == (if name@.len() >= 33 {
                    DaoError::InvalidName
                } else if gist@.len() >= 73 {
                    DaoError::InvalidGist
                } else if treasury_type_of(treasury@) is None {
                    DaoError::InvalidTreasury
                } else if choices < 3 {
                    DaoError::InvalidChoicesAmount
                } else {
                    DaoError::Overflow
                })
            },
            r matches Ok(p) ==> {
                &&& p.wf()
                &&& p.id == id
                &&& p.name@ == name@
                &&& p.gist@ == gist@
                &&& p.proposal == proposal
                &&& p.result == ProposalStatus::PreVoting
                &&& p.quorum == quorum
                &&& p.threshold == threshold
                &&& p.votes == 0
                &&& p.expiry == now + expiry
                &&& p.choices == choices
                &&& p.bump == bump
                &&& p.created_time == now
                &&& p.vote_counts@.len() == choices as int
                &&& (forall|i: int| 0 <= i < choices as int ==> p.vote_counts@[i] == 0)
                &&& treasury_type_of(treasury@) == Some(p.treasury)
            },
    {
        if name.len() >= 33 {
            return Err(DaoError::InvalidName);
        }
        if gist.len() >= 73 {
            return Err(DaoError::InvalidGist);
        }
        let treasury_type = match validate_treasury(treasury) {
            Ok(t) => t,
            Err(e) => { return Err(e) },
        };
        if choices < 3 {
            return Err(DaoError::InvalidChoicesAmount);
        }
        if expiry > u64::MAX - now {
            return Err(DaoError::Overflow);
        }
        let mut vote_counts: Vec<u64> = Vec::new();
        let mut i: u8 = 0;
        while i < choices
            invariant
                i <= choices,
                vote_counts@.len() == i as int,
                forall|j: int| 0 <= j < i as int ==> vote_counts@[j] == 0,
                sum_seq(vote_counts@) == 0,
            decreases choices - i,
        {
            proof {
                lemma_sum_push(vote_counts@, 0);
            }
            vote_counts.push(0);
            i += 1;
        }
        Ok(
            Proposal {
                id,
                name,
                gist,
                proposal,
                result: ProposalStatus::PreVoting,
                quorum,
                threshold,
                votes: 0,
                expiry: now + expiry,
                choices,
                bump,
                created_time: now,
                vote_counts,
                treasury: treasury_type,
            },
        )
    }

    /// Transition from `PreVoting` to `Open` once the pre-voting period has
    /// elapsed.  Fails when the proposal is not in `PreVoting`, when the
    /// period's end overflows the clock, or when the period has not elapsed
    /// yet.
    pub fn try_initialize(&mut self, config: &DaoConfig, now: u64) -> (r: Result<(), DaoError>)
        ensures
            r is Ok <==> old(self).created_time + config.prevoting_period <= u64::MAX && old(
                self,
            ).result == ProposalStatus::PreVoting && now >= old(self).created_time
                + config.prevoting_period,
            r matches Err(e) ==> {
                &&& *final(self) == *old(self)
                &&& e == (if old(self).created_time + config.prevoting_period > u64::MAX {
                    DaoError::Overflow
                } else if old(self).result != ProposalStatus::PreVoting {
                    DaoError::InvalidProposalStatus
                } else {
                    DaoError::InvalidRequiredTime
                })
            },
            r is Ok ==> *final(self) == (Proposal { result: ProposalStatus::Open, ..*old(self) }),
            status_progresses(old(self).result, final(self).result),
            old(self).wf() ==> final(self).wf(),
    {
        if config.prevoting_period > u64::MAX - self.created_time {
            return Err(DaoError::Overflow);
        }
        let required_time = self.created_time + config.prevoting_period;
        self.is_votable(required_time, now)
    }

    /// Opens a pre-voting proposal whose required time has been reached.
    pub fn is_votable(&mut self, required_time: u64, now: u64) -> (r: Result<(), DaoError>)
        ensures
            r is Ok <==> old(self).result == ProposalStatus::PreVoting && now >= required_time,
            r matches Err(e) ==> {
                &&& *final(self) == *old(self)
                &&& e == (if old(self).result != ProposalStatus::PreVoting {
                    DaoError::InvalidProposalStatus
                } else {
                    DaoError::InvalidRequiredTime
                })
            },
            r is Ok ==> *final(self) == (Proposal { result: ProposalStatus::Open, ..*old(self) }),
            status_progresses(old(self).result, final(self).result),
            old(self).wf() ==> final(self).wf(),
    {
        if !(self.result == ProposalStatus::PreVoting) {
            return Err(DaoError::InvalidProposalStatus);
        }
        if now < required_time {
            return Err(DaoError::InvalidRequiredTime);
        }
        self.result = ProposalStatus::Open;
        Ok(())
    }

    /// Fails once the clock has reached the proposal's expiry.
    pub fn check_expiry(&self, now: u64) -> (r: Result<(), DaoError>)
        ensures
            r is Ok <==> now < self.expiry,
            r is Err ==> r == Err::<(), DaoError>(DaoError::Expired),
    {
        if now < self.expiry {
            Ok(())
        } else {
            Err(DaoError::Expired)
        }
    }

    /// Fails unless the proposal is accepting votes.
    pub fn is_open(&self) -> (r: Result<(), DaoError>)
        ensures
            r is Ok <==> self.result == ProposalStatus::Open,
            r is Err ==> r == Err::<(), DaoError>(DaoError::InvalidProposalStatus),
    {
        if self.result == ProposalStatus::Open {
            Ok(())
        } else {
            Err(DaoError::InvalidProposalStatus)
        }
    }

    /// Fails unless the proposal ended in success.
    pub fn is_succeeded(&self) -> (r: Result<(), DaoError>)
        ensures
            r is Ok <==> self.result == ProposalStatus::Succeeded,
            r is Err ==> r == Err::<(), DaoError>(DaoError::InvalidProposalStatus),
    {
        if self.result == ProposalStatus::Succeeded {
            Ok(())
        } else {
            Err(DaoError::InvalidProposalStatus)
        }
    }

    /// Fails unless the proposal ended in failure.
    pub fn is_failed(&self) -> (r: Result<(), DaoError>)
        ensures
            r is Ok <==> self.result == ProposalStatus::Failed,
            r is Err ==> r == Err::<(), DaoError>(DaoError::InvalidProposalStatus),
    {
        if self.result == ProposalStatus::Failed {
            Ok(())
        } else {
            Err(DaoError::InvalidProposalStatus)
        }
    }

    /// Evaluates, without mutating anything, the state an open proposal
    /// would settle to at time `now`.  The quorum product is computed in a
    /// widened integer, and the quorum-basis subtraction cannot underflow
    /// because the abstain tally never exceeds the total.
    pub fn settled(&self, now: u64) -> (s: ProposalStatus)
        requires
            self.wf(),
        ensures
            s == self.settled_status(now),
    {
        proof {
            lemma_sum_elem(self.vote_counts@, 2);
            lemma_mul_upper_bound(
                (self.votes - self.vote_counts@[2]) as int,
                u64::MAX as int,
                self.quorum as int,
                u64::MAX as int,
            );
        }
        let basis = self.votes - self.vote_counts[2];
        let required = (basis as u128) * (self.quorum as u128) / 100;
        let for_votes = self.vote_counts[0] as u128;
        let against_votes = self.vote_counts[1] as u128;
        if self.votes >= self.threshold && for_votes >= required && now < self.expiry {
            ProposalStatus::Succeeded
        } else if now >= self.expiry || (required > 0 && against_votes >= required) {
            ProposalStatus::Failed
        } else {
            ProposalStatus::Open
        }
    }

    /// Settles an open proposal if its tallies and the clock already decide
    /// it; anything not open is left untouched, so terminal states are
    /// never revisited.
    pub fn try_finalize(&mut self, now: u64)
        requires
            old(self).wf(),
        ensures
            final(self).wf(),
            old(self).result != ProposalStatus::Open ==> *final(self) == *old(self),
            old(self).result == ProposalStatus::Open ==> *final(self) == (Proposal {
                result: old(self).settled_status(now),
                ..*old(self)
            }),
            status_progresses(old(self).result, final(self).result),
    {
        if !(self.result == ProposalStatus::Open) {
            return ;
        }
        self.result = self.settled(now);
    }

    /// Adds a vote to an open proposal: the total and the chosen tally grow
    /// by the amount, then the proposal settles if the new tallies decide
    /// it.  A single submission can therefore cross the threshold and end
    /// the proposal in one step.
    pub fn add_vote(&mut self, amount: u64, choice: u8, now: u64) -> (r: Result<(), DaoError>)
        requires
            old(self).wf(),
        ensures
            final(self).wf(),
            r is Ok <==> old(self).result == ProposalStatus::Open && choice < old(self).choices
                && old(self).votes + amount <= u64::MAX,
            r matches Err(e) ==> {
                &&& *final(self) == *old(self)
                &&& e == (if old(self).result != ProposalStatus::Open {
                    DaoError::InvalidProposalStatus
                } else if choice >= old(self).choices {
                    DaoError::InvalidChoice
                } else {
                    DaoError::Overflow
                })
            },
            r is Ok ==> {
                let counts = old(self).vote_counts@.update(
                    choice as int,
                    (old(self).vote_counts@[choice as int] + amount) as u64,
                );
                let votes = (old(self).votes + amount) as u64;
                &&& final(self).vote_counts@ == counts
                &&& final(self).votes == votes
                &&& final(self).result == finalized_status(
                    votes,
                    counts,
                    old(self).quorum,
                    old(self).threshold,
                    old(self).expiry,
                    now,
                )
                &&& final(self).id == old(self).id
                &&& final(self).name == old(self).name
                &&& final(self).gist == old(self).gist
                &&& final(self).proposal == old(self).proposal
                &&& final(self).quorum == old(self).quorum
                &&& final(self).threshold == old(self).threshold
                &&& final(self).expiry == old(self).expiry
                &&& final(self).choices == old(self).choices
                &&& final(self).bump == old(self).bump
                &&& final(self).created_time == old(self).created_time
                &&& final(self).treasury == old(self).treasury
            },
            status_progresses(old(self).result, final(self).result),
    {
        if !(self.result == ProposalStatus::Open) {
            return Err(DaoError::InvalidProposalStatus);
        }
        if choice >= self.choices {
            return Err(DaoError::InvalidChoice);
        }
        if amount > u64::MAX - self.votes {
            return Err(DaoError::Overflow);
        }
        proof {
            lemma_sum_elem(self.vote_counts@, choice as int);
        }
        let new_count = self.vote_counts[choice as usize] + amount;
        self.votes = self.votes + amount;
        self.vote_counts[choice as usize] = new_count;
        proof {
            lemma_sum_update(
                old(self).vote_counts@,
                choice as int,
                (old(self).vote_counts@[choice as int] + amount) as u64,
            );
        }
        self.try_finalize(now);
        Ok(())
    }

    /// Removes a vote from a proposal that is still open: the total and the
    /// chosen tally shrink by the amount, symmetrically to adding it.  Both
    /// tallies are checked before either is touched, so an error never
    /// leaves a partial update.
    pub fn remove_vote(&mut self, amount: u64, choice: u8) -> (r: Result<(), DaoError>)
        requires
            old(self).wf(),
        ensures
            final(self).wf(),
            r is Ok <==> old(self).result == ProposalStatus::Open && choice < old(self).choices
                && amount <= old(self).vote_counts@[choice as int],
            r matches Err(e) ==> {
                &&& *final(self) == *old(self)
                &&& e == (if old(self).result != ProposalStatus::Open {
                    DaoError::InvalidProposalStatus
                } else if choice >= old(self).choices {
                    DaoError::InvalidChoice
                } else {
                    DaoError::Underflow
                })
            },
            r is Ok ==> {
                let counts = old(self).vote_counts@.update(
                    choice as int,
                    (old(self).vote_counts@[choice as int] - amount) as u64,
                );
                &&& *final(self) == (Proposal {
                    votes: (old(self).votes - amount) as u64,
                    vote_counts: final(self).vote_counts,
                    ..*old(self)
                })
                &&& final(self).vote_counts@ == counts
            },
            status_progresses(old(self).result, final(self).result),
    {
        if !(self.result == ProposalStatus::Open) {
            return Err(DaoError::InvalidProposalStatus);
        }
        if choice >= self.choices {
            return Err(DaoError::InvalidChoice);
        }
        let count = self.vote_counts[choice as usize];
        if amount > count {
            return Err(DaoError::Underflow);
        }
        proof {
            lemma_sum_elem(self.vote_counts@, choice as int);
        }
        self.votes = self.votes - amount;
        self.vote_counts[choice as usize] = count - amount;
        proof {
            lemma_sum_update(
                old(self).vote_counts@,
                choice as int,
                (old(self).vote_counts@[choice as int] - amount) as u64,
            );
        }
        Ok(())
    }
}

/// In a well-formed proposal the total vote count always equals the sum of
/// the per-choice tallies.
pub proof fn lemma_total_is_tally_sum(p: Proposal)
    requires
        p.wf(),
    ensures
        p.votes as int == sum_seq(p.vote_counts@),
{
}

} // verus!
