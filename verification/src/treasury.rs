use vstd::prelude::*;

use crate::errors::DaoError;

verus! {

use vstd::arithmetic::div_mod::{
    lemma_fundamental_div_mod, lemma_mod_adds, lemma_div_pos_is_pos, lemma_div_is_ordered,
    lemma_div_by_multiple,
};
use vstd::arithmetic::mul::lemma_mul_inequality;

/// The four amounts an inbound payment splits into, one per destination
/// treasury pool.
#[derive(Clone, Copy, Debug, PartialEq, Eq, Structural)]
pub struct TreasurySplit {
    /// Amount for the main treasury; absorbs the rounding remainder.
    pub main: u64,
    /// Amount for the development treasury.
    pub dev: u64,
    /// Amount for the operations treasury.
    pub ops: u64,
    /// Amount for the multisig-controlled treasury.
    pub multisig: u64,
}

/// The floor share of an amount at a given percentage.
pub open spec fn share_amount(amount: u64, share: u8) -> int {
    (amount * share) / 100
}

/// Floor division by one hundred is superadditive: splitting a sum loses at
/// most as much to rounding as splitting its parts.
proof fn lemma_div_sum_le(x: int, y: int)
    requires
        0 <= x,
        0 <= y,
    ensures
        x / 100 + y / 100 <= (x + y) / 100,
{
    lemma_mod_adds(x, y, 100);
    lemma_fundamental_div_mod(x, 100);
    lemma_fundamental_div_mod(y, 100);
    lemma_fundamental_div_mod(x + y, 100);
    lemma_div_pos_is_pos(x % 100 + y % 100, 100);
}

/// Three floor shares whose percentages total at most one hundred never
/// exceed the amount being split.
proof fn lemma_three_shares_bound(a: int, d: int, o: int, m: int)
    requires
        0 <= a,
        0 <= d,
        0 <= o,
        0 <= m,
        d + o + m <= 100,
    ensures
        0 <= (a * d) / 100,
        0 <= (a * o) / 100,
        0 <= (a * m) / 100,
        (a * d) / 100 + (a * o) / 100 + (a * m) / 100 <= a,
{
    assert(0 <= a * d && 0 <= a * o && 0 <= a * m) by (nonlinear_arith)
        requires
            0 <= a,
            0 <= d,
            0 <= o,
            0 <= m,
    ;
    lemma_div_pos_is_pos(a * d, 100);
    lemma_div_pos_is_pos(a * o, 100);
    lemma_div_pos_is_pos(a * m, 100);
    lemma_div_sum_le(a * d, a * o);
    lemma_div_sum_le(a * d + a * o, a * m);
    assert(a * d + a * o + a * m == a * (d + o + m)) by (nonlinear_arith);
    lemma_mul_inequality(d + o + m, 100, a);
    assert((d + o + m) * a == a * (d + o + m) && 100 * a == a * 100) by (nonlinear_arith);
    lemma_div_is_ordered(a * (d + o + m), a * 100, 100);
    lemma_div_by_multiple(a, 100);
}

impl TreasurySplit {
    /// Splits an inbound amount across the four treasury pools.
    ///
    /// The development, operations and multisig pools each receive the floor
    /// of their percentage share; the main treasury receives everything that
    /// is left, so it absorbs the cumulative rounding loss and the four
    /// amounts always sum exactly to the inbound amount.  Fails if and only
    /// if the shares do not total exactly one hundred.
    pub fn split_amount(
        amount: u64,
        main_share: u8,
        dev_share: u8,
        ops_share: u8,
        multisig_share: u8,
    ) -> (r: Result<TreasurySplit, DaoError>)
        ensures
            r is Ok <==> main_share + dev_share + ops_share + multisig_share == 100,
            r is Err ==> r == Err::<TreasurySplit, DaoError>(DaoError::InvalidShares),
            r matches Ok(s) ==> {
                &&& s.dev == share_amount(amount, dev_share)
                &&& s.ops == share_amount(amount, ops_share)
                &&& s.multisig == share_amount(amount, multisig_share)
                &&& s.main == amount - s.dev - s.ops - s.multisig
                &&& s.main + s.dev + s.ops + s.multisig == amount
            },
    {
        let total: u64 = main_share as u64 + dev_share as u64 + ops_share as u64
            + multisig_share as u64;
        if total != 100 {
            return Err(DaoError::InvalidShares);
        }
        proof {
            lemma_three_shares_bound(
                amount as int,
                dev_share as int,
                ops_share as int,
                multisig_share as int,
            );
        }
        let a = amount as u128;
        let dev = (a * (dev_share as u128) / 100) as u64;
        let ops = (a * (ops_share as u128) / 100) as u64;
        let multisig = (a * (multisig_share as u128) / 100) as u64;
        let main = amount - dev - ops - multisig;
        Ok(TreasurySplit { main, dev, ops, multisig })
    }
}

} // verus!
