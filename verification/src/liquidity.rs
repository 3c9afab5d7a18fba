//! Liquidity accountant: derives the liquidity actually distributable to
//! suppliers from the two balances the ledger reports, and the two decisions
//! of the value-ordered policy's one-time bootstrap phase.

use vstd::prelude::*;

use crate::model::amount_wf;

verus! {

/// XRD the bootstrap phase always leaves behind in the owner's account when
/// it re-stakes the recovered balance.
pub const BOOTSTRAP_RESERVE: i128 = 100;

/// Pool liquidity is whatever the pool holds beyond the owner's reserved
/// share. It may legitimately be zero or negative right after a large owner
/// withdrawal; callers must then skip selection rather than fail.
pub fn pool_liquidity(total_balance: i128, owner_liquidity: i128) -> (r: i128)
    requires
        amount_wf(total_balance),
        amount_wf(owner_liquidity),
    ensures
        r == total_balance - owner_liquidity,
{
    total_balance - owner_liquidity
}

/// The bootstrap phase recovers the owner's liquidity as soon as the balance
/// available to the pool exceeds it; until then it keeps waiting.
pub fn bootstrap_can_recover(available_balance: i128, owner_liquidity: i128) -> (r: bool)
    ensures
        r == (available_balance > owner_liquidity),
{
    available_balance > owner_liquidity
}

/// How much of the owner's recovered XRD balance the bootstrap phase stakes
/// back into the validator: everything but a small reserve.
pub fn bootstrap_restake_amount(owner_xrd_balance: i128) -> (r: i128)
    requires
        amount_wf(owner_xrd_balance),
        owner_xrd_balance >= BOOTSTRAP_RESERVE,
    ensures
        r == owner_xrd_balance - BOOTSTRAP_RESERVE,
{
    owner_xrd_balance - BOOTSTRAP_RESERVE
}

} // verus!
