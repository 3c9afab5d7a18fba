//! Selection policy core: the single-pass budget scan shared by both policy
//! variants, and the random ordering the randomized-greedy variant feeds it.
//!
//! The scan walks the claims once, in the order given. A claim is accepted
//! when its XRD value fits the running budget, which then shrinks by that
//! value; a claim that does not fit is skipped for good this step (the
//! registry is rebuilt from scratch next step, so nothing is carried over).

use vstd::prelude::*;

use rand::seq::SliceRandom;

use crate::model::Claim;
use crate::model::claims_wf;
use crate::model::sum_xrd;

verus! {

/// The budget scan, as a function: which claims of `claims` (in order) are
/// accepted against a running budget that starts at `budget`, and what is
/// left of the budget afterwards.
pub open spec fn spec_select(claims: Seq<Claim>, budget: int) -> (Seq<Claim>, int)
    decreases claims.len(),
{
    if claims.len() == 0 {
        (Seq::<Claim>::empty(), budget)
    } else {
        let c = claims[0];
        if c.xrd_value <= budget {
            let rest = spec_select(claims.drop_first(), budget - c.xrd_value);
            (seq![c] + rest.0, rest.1)
        } else {
            spec_select(claims.drop_first(), budget)
        }
    }
}

/// Law: the scan never overspends. The accepted claims' XRD values sum to
/// exactly what the budget lost, and a budget that starts non-negative stays
/// non-negative, so the cumulative payout of one step never exceeds the
/// budget observed when the step's selection began.
pub proof fn lemma_select_budget(claims: Seq<Claim>, budget: int)
    requires
        claims_wf(claims),
    ensures
        sum_xrd(spec_select(claims, budget).0) == budget - spec_select(claims, budget).1,
        spec_select(claims, budget).1 >= if budget >= 0 {
            0
        } else {
            budget
        },
        budget >= 0 ==> sum_xrd(spec_select(claims, budget).0) <= budget,
        budget >= 0 ==> forall|i: int|
            0 <= i <= spec_select(claims, budget).0.len() ==> sum_xrd(
                #[trigger] spec_select(claims, budget).0.take(i),
            ) <= budget,
    decreases claims.len(),
{
    if claims.len() > 0 {
        let c = claims[0];
        assert(claims_wf(claims.drop_first()));
        assert(c.wf());
        if c.xrd_value <= budget {
            let rest = spec_select(claims.drop_first(), budget - c.xrd_value);
            lemma_select_budget(claims.drop_first(), budget - c.xrd_value);
            let sel = seq![c] + rest.0;
            assert(sel.drop_first() =~= rest.0);
            assert(sel[0] == c);
            if budget >= 0 {
                assert forall|i: int| 0 <= i <= sel.len() implies sum_xrd(
                    #[trigger] sel.take(i),
                ) <= budget by {
                    if i == 0 {
                        assert(sel.take(0) =~= Seq::<Claim>::empty());
                    } else {
                        assert(sel.take(i) =~= seq![c] + rest.0.take(i - 1));
                        assert((seq![c] + rest.0.take(i - 1)).drop_first() =~= rest.0.take(i - 1));
                        assert((seq![c] + rest.0.take(i - 1))[0] == c);
                        assert(sum_xrd(rest.0.take(i - 1)) <= budget - c.xrd_value);
                    }
                }
            }
        } else {
            lemma_select_budget(claims.drop_first(), budget);
        }
    }
}

/// Every accepted claim was one of the scanned claims, and accepted claims
/// inherit their well-formedness from the input.
pub proof fn lemma_select_elements(claims: Seq<Claim>, budget: int)
    ensures
        spec_select(claims, budget).0.len() <= claims.len(),
        forall|i: int|
            0 <= i < spec_select(claims, budget).0.len() ==> claims.contains(
                #[trigger] spec_select(claims, budget).0[i],
            ),
        claims_wf(claims) ==> claims_wf(spec_select(claims, budget).0),
    decreases claims.len(),
{
    if claims.len() > 0 {
        let c = claims[0];
        if c.xrd_value <= budget {
            let rest = spec_select(claims.drop_first(), budget - c.xrd_value);
            lemma_select_elements(claims.drop_first(), budget - c.xrd_value);
            let sel = seq![c] + rest.0;
            assert forall|i: int| 0 <= i < sel.len() implies claims.contains(#[trigger] sel[i]) by {
                if i == 0 {
                    assert(sel[0] == c);
                    assert(claims[0] == c);
                } else {
                    assert(sel[i] == rest.0[i - 1]);
                    let j = choose|j: int|
                        0 <= j < claims.drop_first().len() && claims.drop_first()[j] == rest.0[i
                            - 1];
                    assert(claims[j + 1] == rest.0[i - 1]);
                }
            }
            if claims_wf(claims) {
                assert(claims_wf(claims.drop_first()));
                assert forall|i: int| 0 <= i < sel.len() implies (#[trigger] sel[i]).wf() by {
                    if i == 0 {
                        assert(claims[0].wf());
                    } else {
                        assert(sel[i] == rest.0[i - 1]);
                    }
                }
            }
        } else {
            lemma_select_elements(claims.drop_first(), budget);
            assert forall|i: int|
                0 <= i < spec_select(claims, budget).0.len() implies claims.contains(
                #[trigger] spec_select(claims, budget).0[i],
            ) by {
                let sel = spec_select(claims.drop_first(), budget).0;
                let j = choose|j: int|
                    0 <= j < claims.drop_first().len() && claims.drop_first()[j] == sel[i];
                assert(claims[j + 1] == sel[i]);
            }
            if claims_wf(claims) {
                assert(claims_wf(claims.drop_first()));
            }
        }
    }
}

/// The budget scan, executable. Walks the claims once in the order given and
/// returns the accepted claims (in scan order) together with the remaining
/// budget.
pub fn select_claims(claims: &Vec<Claim>, budget: i128) -> (r: (Vec<Claim>, i128))
    requires
        claims_wf(claims@),
    ensures
        r.0@ == spec_select(claims@, budget as int).0,
        r.1 == spec_select(claims@, budget as int).1,
{
    let mut selected: Vec<Claim> = Vec::new();
    let mut remaining: i128 = budget;
    let mut i: usize = 0;
    proof {
        assert(claims@.skip(0) =~= claims@);
        assert(Seq::<Claim>::empty() + spec_select(claims@, budget as int).0 =~= spec_select(
            claims@,
            budget as int,
        ).0);
    }
    while i < claims.len()
        invariant
            claims_wf(claims@),
            0 <= i <= claims@.len(),
            spec_select(claims@, budget as int) == (
                selected@ + spec_select(claims@.skip(i as int), remaining as int).0,
                spec_select(claims@.skip(i as int), remaining as int).1,
            ),
            remaining >= if budget >= 0 {
                0
            } else {
                budget as int
            },
            remaining <= budget,
        decreases claims@.len() - i,
    {
        let c = claims[i];
        proof {
            assert(claims@.skip(i as int)[0] == claims@[i as int]);
            assert(claims@.skip(i as int).drop_first() =~= claims@.skip(i as int + 1));
            assert(claims@[i as int].wf());
        }
        if c.xrd_value <= remaining {
            selected.push(c);
            remaining = remaining - c.xrd_value;
            proof {
                let tail = spec_select(claims@.skip(i as int + 1), remaining as int);
                assert(spec_select(claims@.skip(i as int), (remaining + c.xrd_value) as int).0
                    =~= seq![c] + tail.0);
                assert(selected@ =~= selected@.drop_last() + seq![c]);
                assert(selected@.drop_last() + (seq![c] + tail.0) =~= selected@ + tail.0);
            }
        }
        i = i + 1;
    }
    proof {
        assert(claims@.skip(claims@.len() as int) =~= Seq::<Claim>::empty());
    }
    (selected, remaining)
}

/// Relies on rand's `SliceRandom::shuffle` with `thread_rng`: it reorders the
/// vector in place into a fresh random permutation. Which permutation comes
/// back depends on the thread-local generator, so only what holds of every
/// permutation is stated: the claims themselves are unchanged.
#[verifier::external_body]
pub(crate) fn shuffle_claims(claims: &mut Vec<Claim>)
    ensures
        final(claims)@.to_multiset() == old(claims)@.to_multiset(),
        final(claims)@.len() == old(claims)@.len(),
{
    claims.shuffle(&mut rand::thread_rng());
}

/// A sequence whose multiset of claims equals that of a well-formed sequence
/// is well formed too: reordering loses no claim and invents none.
pub proof fn lemma_wf_of_multiset_equal(a: Seq<Claim>, b: Seq<Claim>)
    requires
        claims_wf(a),
        a.to_multiset() == b.to_multiset(),
    ensures
        claims_wf(b),
{
    broadcast use vstd::seq_lib::group_to_multiset_ensures;

    assert forall|i: int| 0 <= i < b.len() implies (#[trigger] b[i]).wf() by {
        assert(b.contains(b[i]));
        assert(b.to_multiset().count(b[i]) > 0);
        assert(a.contains(b[i]));
    }
}

} // verus!
