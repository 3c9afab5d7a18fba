//! Claim registry: flattens the ledger's per-group claim records into one
//! snapshot per step, optionally withholding one claim per group, and strips
//! a run's fixed exclusion set from a snapshot.
//!
//! Withholding the group's largest claim is a structural rule: paying a group
//! out completely would empty it and trigger deletion semantics on the ledger
//! side, so each group keeps its largest-principal claim whenever the
//! snapshot is built for an ongoing step.

use vstd::prelude::*;

use crate::model::Claim;
use crate::model::Group;
use crate::model::RawClaim;
use crate::model::claims_wf;
use crate::model::groups_wf;
use crate::ranking::first_max_idx;
use crate::ranking::lemma_first_max_idx;

verus! {

/// The claims one group contributes before any withholding, with each
/// record's two cost components combined.
pub open spec fn spec_group_claims(g: Group) -> Seq<Claim> {
    g.claims@.map_values(|rc: RawClaim| rc.spec_to_claim())
}

/// A claim sequence with its first-encountered largest-LSU claim withheld.
pub open spec fn spec_drop_first_max(s: Seq<Claim>) -> Seq<Claim> {
    if s.len() == 0 {
        s
    } else {
        s.remove(first_max_idx(s))
    }
}

/// The registry snapshot: all groups flattened in order; when
/// `skip_one_per_group` is set, each group withholds its largest claim.
pub open spec fn spec_snapshot(gs: Seq<Group>, skip_one_per_group: bool) -> Seq<Claim>
    decreases gs.len(),
{
    if gs.len() == 0 {
        Seq::<Claim>::empty()
    } else {
        let head = if skip_one_per_group {
            spec_drop_first_max(spec_group_claims(gs[0]))
        } else {
            spec_group_claims(gs[0])
        };
        head + spec_snapshot(gs.drop_first(), skip_one_per_group)
    }
}

/// Appending one group extends the snapshot by that group's contribution.
pub proof fn lemma_snapshot_push(gs: Seq<Group>, g: Group, skip_one_per_group: bool)
    ensures
        spec_snapshot(gs.push(g), skip_one_per_group) == spec_snapshot(gs, skip_one_per_group) + (
        if skip_one_per_group {
            spec_drop_first_max(spec_group_claims(g))
        } else {
            spec_group_claims(g)
        }),
    decreases gs.len(),
{
    if gs.len() == 0 {
        let part = if skip_one_per_group {
            spec_drop_first_max(spec_group_claims(g))
        } else {
            spec_group_claims(g)
        };
        assert(gs.push(g)[0] == g);
        assert(gs.push(g).drop_first() =~= Seq::<Group>::empty());
        assert(spec_snapshot(gs.push(g).drop_first(), skip_one_per_group) =~= Seq::<Claim>::empty());
        assert(spec_snapshot(gs.push(g), skip_one_per_group) =~= part + Seq::<Claim>::empty());
        assert(part + Seq::<Claim>::empty() =~= part);
        assert(Seq::<Claim>::empty() + part =~= part);
    } else {
        assert(gs.push(g)[0] == gs[0]);
        assert(gs.push(g).drop_first() =~= gs.drop_first().push(g));
        lemma_snapshot_push(gs.drop_first(), g, skip_one_per_group);
        let h = if skip_one_per_group {
            spec_drop_first_max(spec_group_claims(gs[0]))
        } else {
            spec_group_claims(gs[0])
        };
        let part = if skip_one_per_group {
            spec_drop_first_max(spec_group_claims(g))
        } else {
            spec_group_claims(g)
        };
        assert(spec_snapshot(gs.push(g), skip_one_per_group) == h + spec_snapshot(
            gs.drop_first().push(g),
            skip_one_per_group,
        ));
        assert(spec_snapshot(gs, skip_one_per_group) == h + spec_snapshot(
            gs.drop_first(),
            skip_one_per_group,
        ));
        assert(h + (spec_snapshot(gs.drop_first(), skip_one_per_group) + part) =~= (h
            + spec_snapshot(gs.drop_first(), skip_one_per_group)) + part);
    }
}

/// Every claim of a snapshot built from well-formed groups is well formed.
pub proof fn lemma_snapshot_wf(gs: Seq<Group>, skip_one_per_group: bool)
    requires
        groups_wf(gs),
    ensures
        claims_wf(spec_snapshot(gs, skip_one_per_group)),
    decreases gs.len(),
{
    if gs.len() > 0 {
        assert(gs[0].wf());
        let all = spec_group_claims(gs[0]);
        assert forall|i: int| 0 <= i < all.len() implies (#[trigger] all[i]).wf() by {
            assert(gs[0].claims@[i].wf());
        }
        let head = if skip_one_per_group {
            spec_drop_first_max(all)
        } else {
            all
        };
        assert forall|i: int| 0 <= i < head.len() implies (#[trigger] head[i]).wf() by {
            if skip_one_per_group && all.len() > 0 {
                let m = first_max_idx(all);
                lemma_first_max_idx(all);
                if i < m {
                    assert(head[i] == all[i]);
                } else {
                    assert(head[i] == all[i + 1]);
                }
            }
        }
        assert(groups_wf(gs.drop_first()));
        lemma_snapshot_wf(gs.drop_first(), skip_one_per_group);
        let tail = spec_snapshot(gs.drop_first(), skip_one_per_group);
        let whole = head + tail;
        assert forall|i: int| 0 <= i < whole.len() implies (#[trigger] whole[i]).wf() by {
            if i < head.len() {
                assert(whole[i] == head[i]);
            } else {
                assert(whole[i] == tail[i - head.len()]);
            }
        }
    }
}

/// One group's claims, combined and (when requested) with the group's
/// largest claim withheld.
fn group_claims(g: &Group, skip_one: bool) -> (r: Vec<Claim>)
    requires
        g.wf(),
    ensures
        r@ == if skip_one {
            spec_drop_first_max(spec_group_claims(*g))
        } else {
            spec_group_claims(*g)
        },
{
    let mut combined: Vec<Claim> = Vec::new();
    let mut i: usize = 0;
    while i < g.claims.len()
        invariant
            g.wf(),
            0 <= i <= g.claims@.len(),
            combined@ == g.claims@.take(i as int).map_values(
                |rc: RawClaim| rc.spec_to_claim(),
            ),
        decreases g.claims@.len() - i,
    {
        let rc = g.claims[i];
        proof {
            assert(g.claims@[i as int].wf());
        }
        let c = Claim {
            id: rc.id,
            lsu_amount: rc.lsu_amount,
            xrd_value: rc.xrd_value + rc.xrd_value_secondary,
        };
        combined.push(c);
        proof {
            assert(g.claims@.take(i as int + 1).map_values(|rc: RawClaim| rc.spec_to_claim())
                =~= g.claims@.take(i as int).map_values(|rc: RawClaim| rc.spec_to_claim()).push(
                g.claims@[i as int].spec_to_claim(),
            ));
        }
        i = i + 1;
    }
    proof {
        assert(g.claims@.take(g.claims@.len() as int) =~= g.claims@);
    }
    if skip_one && combined.len() > 0 {
        proof {
            lemma_first_max_idx(combined@);
        }
        let mut out: Vec<Claim> = Vec::new();
        let mut j: usize = 0;
        let skip_at = crate::ranking::first_max_index(&combined);
        while j < combined.len()
            invariant
                0 <= j <= combined@.len(),
                combined@.len() > 0,
                skip_at as int == first_max_idx(combined@),
                0 <= skip_at < combined@.len(),
                out@ == if j <= skip_at {
                    combined@.take(j as int)
                } else {
                    combined@.remove(skip_at as int).take(j as int - 1)
                },
            decreases combined@.len() - j,
        {
            if j != skip_at {
                out.push(combined[j]);
            }
            proof {
                let m = skip_at as int;
                let jj = j as int;
                if jj < m {
                    assert(combined@.take(jj + 1) =~= combined@.take(jj).push(combined@[jj]));
                } else if jj == m {
                    assert(combined@.remove(m).take(jj) =~= combined@.take(jj));
                } else {
                    assert(combined@.remove(m).take(jj) =~= combined@.remove(m).take(jj - 1).push(
                        combined@[jj],
                    ));
                }
            }
            j = j + 1;
        }
        proof {
            assert(combined@.remove(skip_at as int).take(combined@.len() - 1) =~= combined@.remove(
                skip_at as int,
            ));
        }
        out
    } else {
        combined
    }
}

/// Builds the registry snapshot for one step: every group's claims flattened
/// in group order, each record's two cost components summed, and — for an
/// ongoing step (`skip_one_claim_in_each_group`) — the largest claim of each
/// group withheld.
pub fn get_lsu_claims(groups: &Vec<Group>, skip_one_claim_in_each_group: bool) -> (r: Vec<Claim>)
    requires
        groups_wf(groups@),
    ensures
        r@ == spec_snapshot(groups@, skip_one_claim_in_each_group),
        claims_wf(r@),
{
    let mut out: Vec<Claim> = Vec::new();
    let mut i: usize = 0;
    while i < groups.len()
        invariant
            groups_wf(groups@),
            0 <= i <= groups@.len(),
            out@ == spec_snapshot(groups@.take(i as int), skip_one_claim_in_each_group),
        decreases groups@.len() - i,
    {
        proof {
            assert(groups@[i as int].wf());
        }
        let mut part = group_claims(&groups[i], skip_one_claim_in_each_group);
        let ghost old_out = out@;
        let mut j: usize = 0;
        while j < part.len()
            invariant
                0 <= j <= part@.len(),
                out@ == old_out + part@.take(j as int),
            decreases part@.len() - j,
        {
            out.push(part[j]);
            proof {
                assert(old_out + part@.take(j as int + 1) =~= (old_out + part@.take(
                    j as int,
                )).push(part@[j as int]));
            }
            j = j + 1;
        }
        proof {
            assert(part@.take(part@.len() as int) =~= part@);
            lemma_snapshot_push(
                groups@.take(i as int),
                groups@[i as int],
                skip_one_claim_in_each_group,
            );
            assert(groups@.take(i as int).push(groups@[i as int]) =~= groups@.take(i as int + 1));
        }
        i = i + 1;
    }
    proof {
        assert(groups@.take(groups@.len() as int) =~= groups@);
        lemma_snapshot_wf(groups@, skip_one_claim_in_each_group);
    }
    out
}

/// The identifiers of a sequence of claims.
pub open spec fn spec_ids(s: Seq<Claim>) -> Seq<u64> {
    s.map_values(|c: Claim| c.id)
}

/// A snapshot with a run's exclusion set stripped: every claim whose
/// identifier matches an excluded claim's identifier is dropped; order is
/// otherwise kept.
pub open spec fn spec_remove_excluded(s: Seq<Claim>, excluded: Seq<Claim>) -> Seq<Claim> {
    s.filter(|c: Claim| !spec_ids(excluded).contains(c.id))
}

/// Whether any of `excluded` carries the identifier `id`.
fn contains_id(excluded: &Vec<Claim>, id: u64) -> (r: bool)
    ensures
        r == spec_ids(excluded@).contains(id),
{
    let mut i: usize = 0;
    while i < excluded.len()
        invariant
            0 <= i <= excluded@.len(),
            forall|j: int| 0 <= j < i ==> (#[trigger] excluded@[j]).id != id,
        decreases excluded@.len() - i,
    {
        if excluded[i].id == id {
            proof {
                assert(spec_ids(excluded@)[i as int] == id);
            }
            return true;
        }
        i = i + 1;
    }
    proof {
        assert forall|j: int| 0 <= j < spec_ids(excluded@).len() implies spec_ids(excluded@)[j]
            != id by {
            assert(excluded@[j].id != id);
        }
    }
    false
}

/// Strips the run's fixed exclusion set from a step snapshot.
pub fn remove_excluded(claims: &Vec<Claim>, excluded: &Vec<Claim>) -> (r: Vec<Claim>)
    ensures
        r@ == spec_remove_excluded(claims@, excluded@),
        claims_wf(claims@) ==> claims_wf(r@),
{
    let ghost pred = |c: Claim| !spec_ids(excluded@).contains(c.id);
    let mut out: Vec<Claim> = Vec::new();
    let mut i: usize = 0;
    proof {
        assert(claims@.take(0int) =~= Seq::<Claim>::empty());
        assert(Seq::<Claim>::empty().filter(pred) =~= Seq::<Claim>::empty());
    }
    while i < claims.len()
        invariant
            0 <= i <= claims@.len(),
            out@ == claims@.take(i as int).filter(
                |c: Claim| !spec_ids(excluded@).contains(c.id),
            ),
            claims_wf(claims@) ==> claims_wf(out@),
        decreases claims@.len() - i,
    {
        let c = claims[i];
        let hit = contains_id(excluded, c.id);
        let ghost pre = out@;
        if !hit {
            out.push(c);
        }
        proof {
            if claims_wf(claims@) {
                assert(claims@[i as int].wf());
                assert forall|j: int| 0 <= j < out@.len() implies (#[trigger] out@[j]).wf() by {
                    if j < pre.len() {
                        assert(out@[j] == pre[j]);
                    }
                }
            }
            let p = |c: Claim| !spec_ids(excluded@).contains(c.id);
            let t1 = claims@.take(i as int + 1);
            assert(t1.drop_last() =~= claims@.take(i as int));
            assert(t1.last() == claims@[i as int]);
            reveal(Seq::filter);
        }
        i = i + 1;
    }
    proof {
        assert(claims@.take(claims@.len() as int) =~= claims@);
    }
    out
}

} // verus!
