//! Ranking claims by LSU principal: the stable top-k extraction that fixes
//! each policy's exclusion set at simulation start, and the stable descending
//! sort the value-ordered policy applies to each step's snapshot.
//!
//! Ties on `lsu_amount` always go to the claim encountered first.

use vstd::prelude::*;

use crate::model::Claim;
use crate::model::claims_wf;

verus! {

/// Index of the first claim with the largest LSU amount.
pub open spec fn first_max_idx(s: Seq<Claim>) -> int
    decreases s.len(),
{
    if s.len() <= 1 {
        0
    } else {
        let r = 1 + first_max_idx(s.drop_first());
        if s[0].lsu_amount >= s[r].lsu_amount {
            0
        } else {
            r
        }
    }
}

/// Law: `first_max_idx` picks a claim no other claim beats, and on a tie the
/// first one encountered wins (everything before it is strictly smaller).
pub proof fn lemma_first_max_idx(s: Seq<Claim>)
    requires
        s.len() > 0,
    ensures
        0 <= first_max_idx(s) < s.len(),
        forall|j: int|
            0 <= j < s.len() ==> (#[trigger] s[j]).lsu_amount <= s[first_max_idx(s)].lsu_amount,
        forall|j: int|
            0 <= j < first_max_idx(s) ==> (#[trigger] s[j]).lsu_amount < s[first_max_idx(
                s,
            )].lsu_amount,
    decreases s.len(),
{
    if s.len() > 1 {
        lemma_first_max_idx(s.drop_first());
        let rt = first_max_idx(s.drop_first());
        assert(forall|j: int| 0 <= j < s.drop_first().len() ==> s.drop_first()[j] == s[j + 1]);
        let r = first_max_idx(s);
        if s[0].lsu_amount >= s[1 + rt].lsu_amount {
            assert(r == 0);
            assert forall|j: int| 0 <= j < s.len() implies (#[trigger] s[j]).lsu_amount
                <= s[0].lsu_amount by {
                if j > 0 {
                    assert(s.drop_first()[j - 1] == s[j]);
                    assert(s[j].lsu_amount <= s[1 + rt].lsu_amount);
                }
            }
        } else {
            assert(r == 1 + rt);
            assert forall|j: int| 0 <= j < s.len() implies (#[trigger] s[j]).lsu_amount
                <= s[r].lsu_amount by {
                if j > 0 {
                    assert(s.drop_first()[j - 1] == s[j]);
                }
            }
            assert forall|j: int| 0 <= j < r implies (#[trigger] s[j]).lsu_amount
                < s[r].lsu_amount by {
                if j > 0 {
                    assert(s.drop_first()[j - 1] == s[j]);
                }
            }
        }
    }
}

/// Any index that is maximal and strictly beats everything before it is the
/// first-max index: the properties of `lemma_first_max_idx` pin it down.
pub proof fn lemma_first_max_idx_unique(s: Seq<Claim>, i: int)
    requires
        0 <= i < s.len(),
        forall|j: int| 0 <= j < s.len() ==> (#[trigger] s[j]).lsu_amount <= s[i].lsu_amount,
        forall|j: int| 0 <= j < i ==> (#[trigger] s[j]).lsu_amount < s[i].lsu_amount,
    ensures
        i == first_max_idx(s),
{
    lemma_first_max_idx(s);
}

/// The `k` claims with the largest LSU amounts, in descending order, taken
/// stably: each round removes the first claim holding the current maximum.
pub open spec fn spec_top_k(s: Seq<Claim>, k: int) -> Seq<Claim>
    decreases k,
{
    if k <= 0 || s.len() == 0 {
        Seq::<Claim>::empty()
    } else {
        let i = first_max_idx(s);
        seq![s[i]] + spec_top_k(s.remove(i), k - 1)
    }
}

/// The whole sequence, stably sorted by LSU amount descending.
pub open spec fn spec_sorted_desc(s: Seq<Claim>) -> Seq<Claim> {
    spec_top_k(s, s.len() as int)
}

/// Law: the top-k extraction returns exactly `k` claims, or all of them when
/// fewer than `k` exist.
pub proof fn lemma_top_k_len(s: Seq<Claim>, k: int)
    requires
        k >= 0,
    ensures
        spec_top_k(s, k).len() == if k <= s.len() {
            k
        } else {
            s.len() as int
        },
    decreases k,
{
    if k > 0 && s.len() > 0 {
        lemma_first_max_idx(s);
        lemma_top_k_len(s.remove(first_max_idx(s)), k - 1);
    }
}

/// Extracting all claims by rank loses none and invents none: the stable
/// descending sort is a permutation of its input.
pub proof fn lemma_top_k_multiset(s: Seq<Claim>, k: int)
    requires
        k >= s.len(),
    ensures
        spec_top_k(s, k).to_multiset() == s.to_multiset(),
    decreases k,
{
    broadcast use vstd::seq_lib::group_to_multiset_ensures;

    if k > 0 && s.len() > 0 {
        let i = first_max_idx(s);
        lemma_first_max_idx(s);
        lemma_top_k_multiset(s.remove(i), k - 1);
        let rest = spec_top_k(s.remove(i), k - 1);
        assert((seq![s[i]] + rest).drop_first() =~= rest);
        assert((seq![s[i]] + rest) =~= rest.insert(0, s[i]));
        vstd::seq_lib::to_multiset_insert(rest, 0, s[i]);
        assert(s.remove(i).to_multiset() =~= s.to_multiset().remove(s[i]));
        assert(spec_top_k(s, k).to_multiset() =~= s.to_multiset());
    }
}

/// Every ranked claim is one of the input claims, so well-formedness carries
/// over.
pub proof fn lemma_top_k_elements(s: Seq<Claim>, k: int)
    ensures
        forall|i: int|
            0 <= i < spec_top_k(s, k).len() ==> s.contains(#[trigger] spec_top_k(s, k)[i]),
        claims_wf(s) ==> claims_wf(spec_top_k(s, k)),
    decreases k,
{
    if k > 0 && s.len() > 0 {
        let m = first_max_idx(s);
        lemma_first_max_idx(s);
        lemma_top_k_elements(s.remove(m), k - 1);
        let rest = spec_top_k(s.remove(m), k - 1);
        let out = seq![s[m]] + rest;
        assert forall|i: int| 0 <= i < out.len() implies s.contains(#[trigger] out[i]) by {
            if i == 0 {
                assert(out[0] == s[m]);
            } else {
                assert(out[i] == rest[i - 1]);
                let j = choose|j: int| 0 <= j < s.remove(m).len() && s.remove(m)[j] == rest[i - 1];
                if j < m {
                    assert(s[j] == s.remove(m)[j]);
                } else {
                    assert(s[j + 1] == s.remove(m)[j]);
                }
            }
        }
        if claims_wf(s) {
            assert forall|i: int| 0 <= i < out.len() implies (#[trigger] out[i]).wf() by {
                assert(s.contains(out[i]));
                let j = choose|j: int| 0 <= j < s.len() && s[j] == out[i];
                assert(s[j].wf());
            }
        }
    }
}

/// Law: the ranked claims come out in descending LSU order.
pub proof fn lemma_top_k_sorted(s: Seq<Claim>, k: int)
    ensures
        forall|i: int, j: int|
            0 <= i < j < spec_top_k(s, k).len() ==> (#[trigger] spec_top_k(s, k)[i]).lsu_amount
                >= (#[trigger] spec_top_k(s, k)[j]).lsu_amount,
    decreases k,
{
    if k > 0 && s.len() > 0 {
        let m = first_max_idx(s);
        lemma_first_max_idx(s);
        lemma_top_k_sorted(s.remove(m), k - 1);
        lemma_top_k_elements(s.remove(m), k - 1);
        let rest = spec_top_k(s.remove(m), k - 1);
        let out = seq![s[m]] + rest;
        assert forall|i: int, j: int|
            0 <= i < j < out.len() implies (#[trigger] out[i]).lsu_amount
            >= (#[trigger] out[j]).lsu_amount by {
            assert(out[j] == rest[j - 1]);
            if i == 0 {
                assert(s.remove(m).contains(rest[j - 1]));
                let t = choose|t: int|
                    0 <= t < s.remove(m).len() && s.remove(m)[t] == rest[j - 1];
                if t < m {
                    assert(s[t] == s.remove(m)[t]);
                } else {
                    assert(s[t + 1] == s.remove(m)[t]);
                }
            } else {
                assert(out[i] == rest[i - 1]);
            }
        }
    }
}

/// Index of the first claim with the largest LSU amount, executable.
pub(crate) fn first_max_index(claims: &Vec<Claim>) -> (r: usize)
    requires
        claims@.len() > 0,
    ensures
        r as int == first_max_idx(claims@),
        0 <= r < claims@.len(),
{
    let mut best: usize = 0;
    let mut i: usize = 1;
    while i < claims.len()
        invariant
            0 <= best < i <= claims@.len(),
            forall|j: int|
                0 <= j < i ==> (#[trigger] claims@[j]).lsu_amount <= claims@[best as int].lsu_amount,
            forall|j: int|
                0 <= j < best ==> (#[trigger] claims@[j]).lsu_amount < claims@[best as int].lsu_amount,
        decreases claims@.len() - i,
    {
        if claims[i].lsu_amount > claims[best].lsu_amount {
            best = i;
        }
        i = i + 1;
    }
    proof {
        lemma_first_max_idx_unique(claims@, best as int);
    }
    best
}

/// The `k` claims with the largest LSU amounts, stably, in descending order:
/// the exclusion set of a policy run (`k = 1` for the value-ordered policy,
/// the configured reserve size for the randomized-greedy one).
pub fn top_k_by_lsu(claims: &Vec<Claim>, k: usize) -> (r: Vec<Claim>)
    ensures
        r@ == spec_top_k(claims@, k as int),
        r@.len() == if k as int <= claims@.len() {
            k as int
        } else {
            claims@.len() as int
        },
{
    let mut work: Vec<Claim> = Vec::new();
    let mut i: usize = 0;
    while i < claims.len()
        invariant
            0 <= i <= claims@.len(),
            work@ == claims@.take(i as int),
        decreases claims@.len() - i,
    {
        work.push(claims[i]);
        proof {
            assert(claims@.take(i as int).push(claims@[i as int]) =~= claims@.take(i as int + 1));
        }
        i = i + 1;
    }
    proof {
        assert(claims@.take(claims@.len() as int) =~= claims@);
    }
    let mut out: Vec<Claim> = Vec::new();
    proof {
        assert(Seq::<Claim>::empty() + spec_top_k(claims@, k as int) =~= spec_top_k(
            claims@,
            k as int,
        ));
    }
    while out.len() < k && work.len() > 0
        invariant
            out@.len() <= k,
            spec_top_k(claims@, k as int) == out@ + spec_top_k(work@, k - out@.len()),
        decreases work@.len(),
    {
        let m = first_max_index(&work);
        proof {
            lemma_first_max_idx(work@);
        }
        let c = work[m];
        out.push(c);
        work.remove(m);
        proof {
            let kk = k - out@.len() + 1;
            let rest = spec_top_k(work@, kk - 1);
            assert(out@.drop_last() + (seq![c] + rest) =~= out@ + rest);
        }
    }
    proof {
        if out@.len() == k {
            assert(spec_top_k(work@, 0) =~= Seq::<Claim>::empty());
        }
        assert(out@ + Seq::<Claim>::empty() =~= out@);
        lemma_top_k_len(claims@, k as int);
    }
    out
}

/// A step snapshot stably sorted by LSU amount descending, as the
/// value-ordered policy attempts claims: largest principal first.
pub fn sort_desc_by_lsu(claims: &Vec<Claim>) -> (r: Vec<Claim>)
    ensures
        r@ == spec_sorted_desc(claims@),
        r@.len() == claims@.len(),
{
    top_k_by_lsu(claims, claims.len())
}

} // verus!
