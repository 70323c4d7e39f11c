use vstd::prelude::*;

use crate::errors::DaoError;

verus! {

/// A participant's stake ledger entry: the staked balance, the amount held
/// by still-open vote commitments, and the number of those commitments.
///
/// Open commitments are a hold, not merely advisory: the free balance
/// (`amount - committed`) is what voting and unstaking may draw on.
#[derive(Clone, Copy, Debug)]
pub struct StakeState {
    /// Total staked balance.
    pub amount: u64,
    /// Sum of the amounts bound to still-open vote commitments.
    pub committed: u64,
    /// Number of still-open vote commitments.
    pub accounts: u64,
    /// Discriminator of the participant's derived signing capability.
    pub auth_bump: u8,
    /// Discriminator of this ledger entry's own address.
    pub state_bump: u8,
}

impl StakeState {
    /// The ledger invariant: the staked balance always covers the sum of
    /// open vote commitments, so the free balance is never negative.
    pub open spec fn wf(&self) -> bool {
        self.committed <= self.amount
    }

    /// The free balance: staked amount not bound to any open vote.
    pub open spec fn free(&self) -> int {
        self.amount - self.committed
    }

    /// A fresh, empty ledger entry.
    pub fn init(auth_bump: u8, state_bump: u8) -> (r: StakeState)
        ensures
            r == (StakeState { amount: 0, committed: 0, accounts: 0, auth_bump, state_bump }),
            r.wf(),
    {
        StakeState { amount: 0, committed: 0, accounts: 0, auth_bump, state_bump }
    }

    /// Credits newly staked value; fails only on overflow.
    pub fn stake(&mut self, amount: u64) -> (r: Result<(), DaoError>)
        requires
            old(self).wf(),
        ensures
            final(self).wf(),
            r is Ok <==> old(self).amount + amount <= u64::MAX,
            r is Err ==> r == Err::<(), DaoError>(DaoError::Overflow) && *final(self) == *old(
                self,
            ),
            r is Ok ==> *final(self) == (StakeState {
                amount: (old(self).amount + amount) as u64,
                ..*old(self)
            }),
    {
        if amount > u64::MAX - self.amount {
            return Err(DaoError::Overflow);
        }
        self.amount = self.amount + amount;
        Ok(())
    }

    /// Debits staked value.  Fails with `Underflow` when the balance is too
    /// small, and with `InsufficientStake` when the remainder would no
    /// longer cover the open vote commitments: the hold is enforced, so the
    /// free balance never goes negative.
    pub fn unstake(&mut self, amount: u64) -> (r: Result<(), DaoError>)
        requires
            old(self).wf(),
        ensures
            final(self).wf(),
            r is Ok <==> amount <= old(self).amount && old(self).amount - amount >= old(
                self,
            ).committed,
            r matches Err(e) ==> {
                &&& *final(self) == *old(self)
                &&& (e == DaoError::Underflow || e == DaoError::InsufficientStake)
                &&& (e == DaoError::Underflow <==> amount > old(self).amount)
            },
            r is Ok ==> *final(self) == (StakeState {
                amount: (old(self).amount - amount) as u64,
                ..*old(self)
            }),
    {
        if amount > self.amount {
            return Err(DaoError::Underflow);
        }
        let remaining = self.amount - amount;
        if remaining < self.committed {
            return Err(DaoError::InsufficientStake);
        }
        self.amount = remaining;
        Ok(())
    }

    /// Checks that the free balance covers a requested vote amount.
    pub fn check_stake_amount(&self, amount: u64) -> (r: Result<(), DaoError>)
        requires
            self.wf(),
        ensures
            r is Ok <==> amount <= self.free(),
            r is Err ==> r == Err::<(), DaoError>(DaoError::InsufficientStake),
    {
        if amount <= self.amount - self.committed {
            Ok(())
        } else {
            Err(DaoError::InsufficientStake)
        }
    }

    /// Opens a vote commitment: binds `amount` of the balance and counts one
    /// more open vote.  Fails when the free balance does not cover the
    /// amount or the vote counter would overflow.
    pub fn add_account(&mut self, amount: u64) -> (r: Result<(), DaoError>)
        requires
            old(self).wf(),
        ensures
            final(self).wf(),
            r is Ok <==> amount <= old(self).free() && old(self).accounts < u64::MAX,
            r matches Err(e) ==> {
                &&& *final(self) == *old(self)
                &&& (e == DaoError::InsufficientStake || e == DaoError::Overflow)
                &&& (e == DaoError::InsufficientStake <==> amount > old(self).free())
            },
            r is Ok ==> *final(self) == (StakeState {
                committed: (old(self).committed + amount) as u64,
                accounts: (old(self).accounts + 1) as u64,
                ..*old(self)
            }),
    {
        if amount > self.amount - self.committed {
            return Err(DaoError::InsufficientStake);
        }
        if self.accounts == u64::MAX {
            return Err(DaoError::Overflow);
        }
        self.committed = self.committed + amount;
        self.accounts = self.accounts + 1;
        Ok(())
    }

    /// Closes a vote commitment: releases its hold and counts one open vote
    /// fewer.
    pub fn remove_account(&mut self, amount: u64) -> (r: Result<(), DaoError>)
        requires
            old(self).wf(),
        ensures
            final(self).wf(),
            r is Ok <==> amount <= old(self).committed && old(self).accounts >= 1,
            r is Err ==> r == Err::<(), DaoError>(DaoError::Underflow) && *final(self) == *old(
                self,
            ),
            r is Ok ==> *final(self) == (StakeState {
                committed: (old(self).committed - amount) as u64,
                accounts: (old(self).accounts - 1) as u64,
                ..*old(self)
            }),
    {
        if amount > self.committed || self.accounts == 0 {
            return Err(DaoError::Underflow);
        }
        self.committed = self.committed - amount;
        self.accounts = self.accounts - 1;
        Ok(())
    }
}

/// A well-formed stake ledger entry never exposes a negative free balance:
/// the hold of open vote commitments is always covered by the staked amount.
pub proof fn lemma_free_balance_nonneg(s: StakeState)
    requires
        s.wf(),
    ensures
        s.free() >= 0,
{
}

} // verus!
