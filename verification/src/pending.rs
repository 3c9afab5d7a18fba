//! Pending-queue processor: decides, from the current epoch and the two
//! epoch-ordered queues the ledger reports (owner unlocks and supplier
//! unstakes), which entries are due and what the step owes the ledger for
//! them — one unlock-and-unstake action per due unlock entry, one claim
//! action per due unstake entry, and the realized rewards total.
//!
//! The queues themselves live on the ledger; consuming a due entry is the
//! ledger action's effect. This module only decides, so running it on a day
//! where nothing is due demands no action and changes nothing.

use vstd::prelude::*;

use crate::model::MAX_AMOUNT;
use crate::model::PendingEntry;
use crate::model::amount_wf;
use crate::model::queue_wf;
use crate::model::sum_pending;

verus! {

/// The entries of `q` whose due epoch has arrived, in queue order.
pub open spec fn spec_due(q: Seq<PendingEntry>, epoch: u64) -> Seq<PendingEntry> {
    q.filter(|e: PendingEntry| e.due_epoch <= epoch)
}

/// The entries of `q` still pending after `epoch`, in queue order.
pub open spec fn spec_not_due(q: Seq<PendingEntry>, epoch: u64) -> Seq<PendingEntry> {
    q.filter(|e: PendingEntry| e.due_epoch > epoch)
}

/// Splits a queue into its due and still-pending entries, keeping the epoch
/// order of each side.
pub fn due_split(q: &Vec<PendingEntry>, current_epoch: u64) -> (r: (
    Vec<PendingEntry>,
    Vec<PendingEntry>,
))
    ensures
        r.0@ == spec_due(q@, current_epoch),
        r.1@ == spec_not_due(q@, current_epoch),
{
    let mut due: Vec<PendingEntry> = Vec::new();
    let mut rest: Vec<PendingEntry> = Vec::new();
    let mut i: usize = 0;
    proof {
        assert(q@.take(0int) =~= Seq::<PendingEntry>::empty());
        assert(Seq::<PendingEntry>::empty().filter(|e: PendingEntry| e.due_epoch <= current_epoch)
            =~= Seq::<PendingEntry>::empty());
        assert(Seq::<PendingEntry>::empty().filter(|e: PendingEntry| e.due_epoch > current_epoch)
            =~= Seq::<PendingEntry>::empty());
    }
    while i < q.len()
        invariant
            0 <= i <= q@.len(),
            due@ == spec_due(q@.take(i as int), current_epoch),
            rest@ == spec_not_due(q@.take(i as int), current_epoch),
        decreases q@.len() - i,
    {
        let e = q[i];
        if e.due_epoch <= current_epoch {
            due.push(e);
        } else {
            rest.push(e);
        }
        proof {
            let t1 = q@.take(i as int + 1);
            assert(t1.drop_last() =~= q@.take(i as int));
            assert(t1.last() == q@[i as int]);
            reveal(Seq::filter);
        }
        i = i + 1;
    }
    proof {
        assert(q@.take(q@.len() as int) =~= q@);
    }
    (due, rest)
}

/// What one step owes the ledger for its pending queues: how many owner
/// unlock entries to finish, how many unstake entries to claim, and the XRD
/// those claims realize (reported as the step's rewards).
#[derive(Clone, Copy, PartialEq, Eq, Structural, Debug)]
pub struct PendingPlan {
    pub unlock_actions: usize,
    pub claim_actions: usize,
    pub rewards_realized: i128,
}

/// Decides the step's pending-queue work. Each due entry demands exactly one
/// ledger action; no entry that is not yet due is touched, so a step with
/// nothing due demands nothing.
pub fn pending_plan(
    unlocks: &Vec<PendingEntry>,
    unstakes: &Vec<PendingEntry>,
    current_epoch: u64,
) -> (r: PendingPlan)
    requires
        queue_wf(unlocks@),
        queue_wf(unstakes@),
    ensures
        r.unlock_actions == spec_due(unlocks@, current_epoch).len(),
        r.claim_actions == spec_due(unstakes@, current_epoch).len(),
        r.rewards_realized == sum_pending(spec_due(unstakes@, current_epoch)),
{
    let (due_unlocks, _) = due_split(unlocks, current_epoch);
    let (due_unstakes, _) = due_split(unstakes, current_epoch);
    proof {
        unlocks@.lemma_filter_len(|e: PendingEntry| e.due_epoch <= current_epoch);
        unstakes@.lemma_filter_len(|e: PendingEntry| e.due_epoch <= current_epoch);
    }
    let mut rewards: i128 = 0;
    let mut i: usize = 0;
    proof {
        assert(unstakes@.take(0int) =~= Seq::<PendingEntry>::empty());
        assert(Seq::<PendingEntry>::empty().filter(|e: PendingEntry| e.due_epoch <= current_epoch)
            =~= Seq::<PendingEntry>::empty());
    }
    while i < unstakes.len()
        invariant
            queue_wf(unstakes@),
            0 <= i <= unstakes@.len(),
            rewards == sum_pending(spec_due(unstakes@.take(i as int), current_epoch)),
            0 <= rewards <= i * MAX_AMOUNT,
        decreases unstakes@.len() - i,
    {
        let e = unstakes[i];
        proof {
            let t1 = unstakes@.take(i as int + 1);
            assert(t1.drop_last() =~= unstakes@.take(i as int));
            assert(t1.last() == unstakes@[i as int]);
            reveal(Seq::filter);
            assert(amount_wf(unstakes@[i as int].amount));
            crate::model::lemma_sum_pending_push(
                spec_due(unstakes@.take(i as int), current_epoch),
                unstakes@[i as int],
            );
            assert((i + 1) * MAX_AMOUNT == i * MAX_AMOUNT + MAX_AMOUNT) by (nonlinear_arith);
            assert(i * MAX_AMOUNT <= crate::model::MAX_ENTRIES * MAX_AMOUNT) by (nonlinear_arith)
                requires
                    0 <= i <= crate::model::MAX_ENTRIES,
            ;
        }
        if e.due_epoch <= current_epoch {
            rewards = rewards + e.amount;
        }
        i = i + 1;
    }
    proof {
        assert(unstakes@.take(unstakes@.len() as int) =~= unstakes@);
    }
    PendingPlan {
        unlock_actions: due_unlocks.len(),
        claim_actions: due_unstakes.len(),
        rewards_realized: rewards,
    }
}

/// Law: re-running the processor on a day where no entry is due is a no-op.
/// With every entry's due epoch still ahead, nothing is due (so the plan
/// demands zero ledger actions and zero rewards) and both queues keep exactly
/// their entries.
pub proof fn lemma_pending_noop(q: Seq<PendingEntry>, epoch: u64)
    requires
        forall|i: int| 0 <= i < q.len() ==> (#[trigger] q[i]).due_epoch > epoch,
    ensures
        spec_due(q, epoch) == Seq::<PendingEntry>::empty(),
        spec_not_due(q, epoch) == q,
        sum_pending(spec_due(q, epoch)) == 0,
    decreases q.len(),
{
    reveal(Seq::filter);
    if q.len() == 0 {
        assert(spec_due(q, epoch) =~= Seq::<PendingEntry>::empty());
        assert(spec_not_due(q, epoch) =~= q);
    } else {
        assert(forall|i: int| 0 <= i < q.drop_last().len() ==> (#[trigger] q.drop_last()[i])
            == q[i]);
        lemma_pending_noop(q.drop_last(), epoch);
        assert(q.last().due_epoch > epoch);
        assert(spec_due(q, epoch) =~= Seq::<PendingEntry>::empty());
        assert(spec_not_due(q, epoch) =~= q.drop_last().push(q.last()));
        assert(q.drop_last().push(q.last()) =~= q);
    }
}

} // verus!
