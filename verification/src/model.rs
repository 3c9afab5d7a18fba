//! Core data model: fixed-point amounts, supplier claims, claim groups and
//! epoch-keyed pending entries.
//!
//! Amounts (balances, liquidity figures, LSU and XRD quantities) are held as
//! signed 128-bit integers, understood as a fixed-point quantity in the
//! smallest unit the ledger tracks. Well-formed amounts read from the ledger
//! are bounded by [`MAX_AMOUNT`], which keeps every sum and difference the
//! engine forms far from overflow.

use vstd::prelude::*;

verus! {

/// Upper bound on any single well-formed amount read from the ledger.
pub const MAX_AMOUNT: i128 = 1_000_000_000_000_000_000_000_000_000_000;

/// Upper bound on a claim's combined redemption value: the ledger stores the
/// cost in two components, each a well-formed amount.
pub const MAX_CLAIM_VALUE: i128 = 2 * MAX_AMOUNT;

/// Upper bound on the number of claims or pending entries in one snapshot.
pub const MAX_ENTRIES: usize = 1_000_000;

/// An amount within the range a well-formed ledger reading can take.
pub open spec fn amount_wf(a: i128) -> bool {
    0 <= a <= MAX_AMOUNT
}

/// One supplier's redeemable position: the claim token's identifier, the LSU
/// principal still locked for that supplier, and the XRD cost of paying the
/// claim out.
#[derive(Clone, Copy, PartialEq, Eq, Structural, Debug)]
pub struct Claim {
    pub id: u64,
    pub lsu_amount: i128,
    pub xrd_value: i128,
}

impl Claim {
    /// A claim is well formed when its principal is a valid ledger reading
    /// and its redemption value is the sum of two valid readings.
    pub open spec fn wf(self) -> bool {
        amount_wf(self.lsu_amount) && 0 <= self.xrd_value <= MAX_CLAIM_VALUE
    }
}

/// All claims in a sequence are well formed.
pub open spec fn claims_wf(s: Seq<Claim>) -> bool {
    forall|i: int| 0 <= i < s.len() ==> (#[trigger] s[i]).wf()
}

/// A claim record as the ledger's per-supplier store holds it: the redemption
/// cost comes in two components that the engine always reads summed.
#[derive(Clone, Copy, PartialEq, Eq, Structural, Debug)]
pub struct RawClaim {
    pub id: u64,
    pub lsu_amount: i128,
    pub xrd_value: i128,
    pub xrd_value_secondary: i128,
}

impl RawClaim {
    pub open spec fn wf(self) -> bool {
        amount_wf(self.lsu_amount) && amount_wf(self.xrd_value) && amount_wf(
            self.xrd_value_secondary,
        )
    }

    /// The claim this record denotes, with the two cost components combined.
    pub open spec fn spec_to_claim(self) -> Claim {
        Claim {
            id: self.id,
            lsu_amount: self.lsu_amount,
            xrd_value: (self.xrd_value + self.xrd_value_secondary) as i128,
        }
    }
}

/// One bounded bucket ("box") of claims, as the ledger partitions them.
#[derive(Clone, PartialEq, Eq, Debug)]
pub struct Group {
    pub group_id: u64,
    pub claims: Vec<RawClaim>,
}

impl Group {
    pub open spec fn wf(self) -> bool {
        &&& self.claims@.len() <= MAX_ENTRIES
        &&& forall|i: int| 0 <= i < self.claims@.len() ==> (#[trigger] self.claims@[i]).wf()
    }
}

/// All groups in a snapshot are well formed.
pub open spec fn groups_wf(gs: Seq<Group>) -> bool {
    forall|i: int| 0 <= i < gs.len() ==> (#[trigger] gs[i]).wf()
}

/// One entry of an epoch-keyed pending queue: an amount that becomes
/// processable once the current epoch reaches `due_epoch`.
#[derive(Clone, Copy, PartialEq, Eq, Structural, Debug)]
pub struct PendingEntry {
    pub due_epoch: u64,
    pub amount: i128,
}

/// A pending queue as read from the ledger: epoch-ordered (strictly, the
/// ledger keys entries by epoch), amounts well formed, size bounded.
pub open spec fn queue_wf(q: Seq<PendingEntry>) -> bool {
    &&& q.len() <= MAX_ENTRIES
    &&& forall|i: int| 0 <= i < q.len() ==> amount_wf((#[trigger] q[i]).amount)
    &&& forall|i: int, j: int| 0 <= i < j < q.len() ==> q[i].due_epoch < q[j].due_epoch
}

/// One line of the simulation's output time series: the day number (1-based)
/// and the LSU still locked in the pool at the end of that day.
#[derive(Clone, Copy, PartialEq, Eq, Structural, Debug)]
pub struct DayRecord {
    pub day: u64,
    pub lsu_locked: i128,
}

/// Sum of the XRD values of a sequence of claims.
pub open spec fn sum_xrd(s: Seq<Claim>) -> int
    decreases s.len(),
{
    if s.len() == 0 {
        0
    } else {
        s[0].xrd_value + sum_xrd(s.drop_first())
    }
}

/// Sum of the LSU amounts of a sequence of claims.
pub open spec fn sum_lsu(s: Seq<Claim>) -> int
    decreases s.len(),
{
    if s.len() == 0 {
        0
    } else {
        s[0].lsu_amount + sum_lsu(s.drop_first())
    }
}

/// Sum of the amounts of a sequence of pending entries.
pub open spec fn sum_pending(s: Seq<PendingEntry>) -> int
    decreases s.len(),
{
    if s.len() == 0 {
        0
    } else {
        s[0].amount + sum_pending(s.drop_first())
    }
}

/// Appending one claim adds its LSU amount to the sum.
pub proof fn lemma_sum_lsu_push(s: Seq<Claim>, c: Claim)
    ensures
        sum_lsu(s.push(c)) == sum_lsu(s) + c.lsu_amount,
    decreases s.len(),
{
    if s.len() == 0 {
        assert(s.push(c).drop_first() =~= Seq::<Claim>::empty());
        assert(s.push(c)[0] == c);
        assert(sum_lsu(s.push(c)) == c.lsu_amount + sum_lsu(s.push(c).drop_first()));
    } else {
        assert(s.push(c).drop_first() =~= s.drop_first().push(c));
        assert(s.push(c)[0] == s[0]);
        lemma_sum_lsu_push(s.drop_first(), c);
        assert(sum_lsu(s.push(c)) == s[0].lsu_amount + sum_lsu(s.drop_first().push(c)));
    }
}

/// Appending one pending entry adds its amount to the sum.
pub proof fn lemma_sum_pending_push(s: Seq<PendingEntry>, e: PendingEntry)
    ensures
        sum_pending(s.push(e)) == sum_pending(s) + e.amount,
    decreases s.len(),
{
    if s.len() == 0 {
        assert(s.push(e).drop_first() =~= Seq::<PendingEntry>::empty());
        assert(s.push(e)[0] == e);
        assert(sum_pending(s.push(e)) == e.amount + sum_pending(s.push(e).drop_first()));
    } else {
        assert(s.push(e).drop_first() =~= s.drop_first().push(e));
        assert(s.push(e)[0] == s[0]);
        lemma_sum_pending_push(s.drop_first(), e);
        assert(sum_pending(s.push(e)) == s[0].amount + sum_pending(s.drop_first().push(e)));
    }
}

} // verus!
