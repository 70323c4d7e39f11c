use vstd::prelude::*;

use crate::addr::Addr;

verus! {

/// A vote record: the receipt binding a participant's committed amount to a
/// chosen index of one proposal.  At most one record ever exists per
/// (participant, proposal) pair, which is what prevents double counting.
#[derive(Clone, Copy, Debug)]
pub struct VoteState {
    /// The participant the record belongs to.
    pub owner: Addr,
    /// The staked amount committed to this vote.
    pub amount: u64,
    /// The chosen index in the proposal's tally list.
    pub choice: u8,
    /// Discriminator of this record's own address.
    pub bump: u8,
}

impl VoteState {
    /// Builds a vote record.
    pub fn init(owner: Addr, amount: u64, choice: u8, bump: u8) -> (r: VoteState)
        ensures
            r == (VoteState { owner, amount, choice, bump }),
    {
        VoteState { owner, amount, choice, bump }
    }
}

} // verus!
