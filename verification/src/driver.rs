//! Simulation driver: the day-stepped state machine that orchestrates reward
//! injection, pending-queue processing, liquidity accounting and claim
//! selection over a fixed horizon.
//!
//! The ledger itself is an external collaborator. The driver holds the run's
//! own state — the policy configuration, the day counter, the exclusion set
//! fixed at start, and the output time series — and decides each phase from
//! the readings the caller hands in; the caller performs the ledger actions
//! each decision demands and hands back what the ledger then reports.

use vstd::prelude::*;

use crate::model::Claim;
use crate::model::DayRecord;
use crate::model::Group;
use crate::model::MAX_AMOUNT;
use crate::model::MAX_ENTRIES;
use crate::model::amount_wf;
use crate::model::claims_wf;
use crate::model::groups_wf;
use crate::model::sum_lsu;
use crate::model::sum_xrd;
use crate::ranking::lemma_top_k_elements;
use crate::ranking::lemma_top_k_len;
use crate::ranking::lemma_top_k_multiset;
use crate::ranking::sort_desc_by_lsu;
use crate::ranking::spec_sorted_desc;
use crate::ranking::spec_top_k;
use crate::ranking::top_k_by_lsu;
use crate::registry::get_lsu_claims;
use crate::registry::remove_excluded;
use crate::registry::spec_remove_excluded;
use crate::registry::spec_snapshot;
use crate::selection::lemma_select_budget;
use crate::selection::lemma_select_elements;
use crate::selection::lemma_wf_of_multiset_equal;
use crate::selection::select_claims;
use crate::selection::shuffle_claims;
use crate::selection::spec_select;

verus! {

/// Days in the reference horizon.
pub const HORIZON_DAYS: u64 = 360;

/// XRD injected as validator reward at the start of every simulated day.
pub const DAILY_REWARD: i128 = 8000;

/// Validator epochs per simulated day.
pub const EPOCHS_PER_DAY: u64 = 288;

/// How many days the value-ordered policy's bootstrap phase may wait for pool
/// liquidity to exceed owner liquidity before giving up.
pub const BOOTSTRAP_LIMIT_DAYS: u64 = 100;

/// Size of the randomized-greedy policy's exclusion set in the reference
/// scenario.
pub const RANDOMIZED_EXCLUSION_COUNT: usize = 3;

/// The two selection strategies.
#[derive(Clone, Copy, PartialEq, Eq, Structural, Debug)]
pub enum Policy {
    /// Scan the claims in a fresh random order each step; exclusion set of
    /// configurable size.
    RandomizedGreedy,
    /// Scan the claims sorted by LSU principal descending each step;
    /// exclusion set of exactly one claim; recovered LSU is re-staked.
    ValueOrdered,
}

/// A run's fixed parameters.
#[derive(Clone, Copy, PartialEq, Eq, Structural, Debug)]
pub struct Config {
    pub policy: Policy,
    pub exclusion_count: usize,
    pub horizon_days: u64,
    pub daily_reward: i128,
    pub epochs_per_day: u64,
    pub bootstrap_limit_days: u64,
}

impl Config {
    /// The value-ordered policy always reserves exactly one claim; the daily
    /// reward must be a valid amount.
    pub open spec fn wf(self) -> bool {
        &&& amount_wf(self.daily_reward)
        &&& self.policy == Policy::ValueOrdered ==> self.exclusion_count == 1
    }

    /// The reference randomized-greedy run: `exclusion_count` largest claims
    /// reserved, no bootstrap phase.
    pub fn randomized_greedy(exclusion_count: usize) -> (r: Config)
        ensures
            r == (Config {
                policy: Policy::RandomizedGreedy,
                exclusion_count: exclusion_count,
                horizon_days: HORIZON_DAYS,
                daily_reward: DAILY_REWARD,
                epochs_per_day: EPOCHS_PER_DAY,
                bootstrap_limit_days: 0u64,
            }),
            r.wf(),
    {
        Config {
            policy: Policy::RandomizedGreedy,
            exclusion_count,
            horizon_days: HORIZON_DAYS,
            daily_reward: DAILY_REWARD,
            epochs_per_day: EPOCHS_PER_DAY,
            bootstrap_limit_days: 0,
        }
    }

    /// The reference value-ordered run: one reserved claim, bootstrap phase
    /// bounded to [`BOOTSTRAP_LIMIT_DAYS`].
    pub fn value_ordered() -> (r: Config)
        ensures
            r == (Config {
                policy: Policy::ValueOrdered,
                exclusion_count: 1usize,
                horizon_days: HORIZON_DAYS,
                daily_reward: DAILY_REWARD,
                epochs_per_day: EPOCHS_PER_DAY,
                bootstrap_limit_days: BOOTSTRAP_LIMIT_DAYS,
            }),
            r.exclusion_count == 1,
            r.wf(),
    {
        Config {
            policy: Policy::ValueOrdered,
            exclusion_count: 1,
            horizon_days: HORIZON_DAYS,
            daily_reward: DAILY_REWARD,
            epochs_per_day: EPOCHS_PER_DAY,
            bootstrap_limit_days: BOOTSTRAP_LIMIT_DAYS,
        }
    }
}

/// The claims a step may actually pay: the ongoing-step snapshot (one claim
/// withheld per group) minus the run's fixed exclusion set.
pub open spec fn spec_remaining(gs: Seq<Group>, exclusions: Seq<Claim>) -> Seq<Claim> {
    spec_remove_excluded(spec_snapshot(gs, true), exclusions)
}

/// What one day's selection phase decided.
pub struct StepOutcome {
    /// Whether selection ran at all: it is skipped entirely when pool
    /// liquidity is not positive.
    pub selection_ran: bool,
    /// Whether, after the fixed exclusions, no claim remained anywhere in the
    /// registry — the early-termination condition.
    pub no_claims_left: bool,
    /// The claims to pay out this step, in acceptance order.
    pub selected: Vec<Claim>,
    /// What is left of the step's budget after the accepted claims.
    pub remaining_budget: i128,
    /// Total LSU principal the accepted claims release.
    pub recovered_lsu: i128,
    /// Whether the recovered LSU is to be re-staked as a fresh owner stake
    /// (the value-ordered policy does this whenever it recovered anything).
    pub restake: bool,
}

/// The run's own state, threaded through the day loop.
pub struct Driver {
    pub config: Config,
    /// Completed day count; the day being processed after `start_day` is
    /// `day` itself (1-based).
    pub day: u64,
    /// The exclusion set, fixed once at construction and never recomputed:
    /// the `exclusion_count` claims with the largest LSU principal.
    pub exclusions: Vec<Claim>,
    /// One record per simulated day: the output artifact.
    pub series: Vec<DayRecord>,
    /// Whether the run has reached a terminal state.
    pub finished: bool,
}

impl Driver {
    pub open spec fn wf(self) -> bool {
        &&& self.config.wf()
        &&& claims_wf(self.exclusions@)
    }

    /// Starts a run: fixes the exclusion set, once, as the configured number
    /// of largest-LSU claims of the starting registry (built without the
    /// per-group withholding), ties broken toward the claim encountered
    /// first. The set is never recomputed afterwards: no method of `Driver`
    /// changes it.
    pub fn new(config: Config, initial_claims: &Vec<Claim>) -> (r: Driver)
        requires
            config.wf(),
            claims_wf(initial_claims@),
        ensures
            r.config == config,
            r.day == 0,
            r.series@ == Seq::<DayRecord>::empty(),
            !r.finished,
            r.exclusions@ == spec_top_k(initial_claims@, config.exclusion_count as int),
            r.exclusions@.len() == if config.exclusion_count as int <= initial_claims@.len() {
                config.exclusion_count as int
            } else {
                initial_claims@.len() as int
            },
            r.wf(),
    {
        let exclusions = top_k_by_lsu(initial_claims, config.exclusion_count);
        proof {
            lemma_top_k_elements(initial_claims@, config.exclusion_count as int);
        }
        Driver { config, day: 0, exclusions, series: Vec::new(), finished: false }
    }

    /// Opens the next simulated day. The caller then injects the daily reward
    /// and advances the ledger epoch by the configured increment. The
    /// exclusion set, the series and the configuration are untouched.
    pub fn start_day(&mut self)
        requires
            old(self).day < u64::MAX,
        ensures
            final(self).day == old(self).day + 1,
            final(self).config == old(self).config,
            final(self).exclusions == old(self).exclusions,
            final(self).series == old(self).series,
            final(self).finished == old(self).finished,
    {
        self.day = self.day + 1;
    }

    /// Appends the day's observation to the output series. Nothing else —
    /// in particular not the exclusion set — changes.
    pub fn record_day(&mut self, lsu_locked: i128)
        ensures
            final(self).series@ == old(self).series@.push(
                DayRecord { day: old(self).day, lsu_locked },
            ),
            final(self).config == old(self).config,
            final(self).exclusions == old(self).exclusions,
            final(self).day == old(self).day,
            final(self).finished == old(self).finished,
    {
        let record = DayRecord { day: self.day, lsu_locked };
        self.series.push(record);
    }

    /// Whether the configured horizon is exhausted.
    pub fn horizon_reached(&self) -> (r: bool)
        ensures
            r == (self.day >= self.config.horizon_days),
    {
        self.day >= self.config.horizon_days
    }

    /// Whether the value-ordered bootstrap phase may still wait for pool
    /// liquidity to recover.
    pub fn bootstrap_window_open(&self) -> (r: bool)
        ensures
            r == (self.day < self.config.bootstrap_limit_days),
    {
        self.day < self.config.bootstrap_limit_days
    }

    /// Marks the run terminated (horizon exhausted or no claims left).
    pub fn finish(&mut self)
        ensures
            final(self).finished,
            final(self).config == old(self).config,
            final(self).exclusions == old(self).exclusions,
            final(self).series == old(self).series,
            final(self).day == old(self).day,
    {
        self.finished = true;
    }

    /// The day's selection phase. Given the fresh claim groups (read after
    /// the ledger recomputed supplier records), the step's pool liquidity and
    /// owner liquidity, decides which claims to pay out:
    ///
    /// - with pool liquidity not positive, selection is skipped entirely —
    ///   nothing is selected, so the caller mutates nothing;
    /// - otherwise the snapshot (one claim withheld per group) minus the
    ///   fixed exclusion set is scanned once — in a fresh random order under
    ///   the randomized-greedy policy, largest LSU first under the
    ///   value-ordered one — against a budget that starts at pool plus owner
    ///   liquidity;
    /// - an empty remainder means every distributable claim has been paid:
    ///   the run should terminate early.
    ///
    /// The readings must be well-formed ledger values, and the snapshot
    /// bounded by [`MAX_ENTRIES`], so that every sum the phase forms fits the
    /// amount type.
    pub fn select_for_day(
        &self,
        groups: &Vec<Group>,
        pool_liquidity: i128,
        owner_liquidity: i128,
    ) -> (r: StepOutcome)
        requires
            self.wf(),
            groups_wf(groups@),
            -MAX_AMOUNT <= pool_liquidity <= MAX_AMOUNT,
            amount_wf(owner_liquidity),
            spec_snapshot(groups@, true).len() <= MAX_ENTRIES as int,
        ensures
            r.selection_ran == (pool_liquidity > 0),
            !r.selection_ran ==> r.selected@ == Seq::<Claim>::empty() && !r.no_claims_left
                && r.recovered_lsu == 0 && !r.restake,
            r.selection_ran ==> r.no_claims_left == (spec_remaining(
                groups@,
                self.exclusions@,
            ).len() == 0),
            r.selection_ran && r.no_claims_left ==> r.selected@ == Seq::<Claim>::empty()
                && r.recovered_lsu == 0 && !r.restake,
            r.selection_ran && !r.no_claims_left ==> (exists|ord: Seq<Claim>|
                {
                    &&& #[trigger] ord.to_multiset() == spec_remaining(
                        groups@,
                        self.exclusions@,
                    ).to_multiset()
                    &&& r.selected@ == spec_select(
                        ord,
                        pool_liquidity + owner_liquidity,
                    ).0
                    &&& r.remaining_budget == spec_select(
                        ord,
                        pool_liquidity + owner_liquidity,
                    ).1
                }),
            r.selection_ran && !r.no_claims_left && self.config.policy == Policy::ValueOrdered
                ==> r.selected@ == spec_select(
                spec_sorted_desc(spec_remaining(groups@, self.exclusions@)),
                pool_liquidity + owner_liquidity,
            ).0 && r.remaining_budget == spec_select(
                spec_sorted_desc(spec_remaining(groups@, self.exclusions@)),
                pool_liquidity + owner_liquidity,
            ).1,
            sum_xrd(r.selected@) <= if pool_liquidity > 0 {
                pool_liquidity + owner_liquidity
            } else {
                0
            },
            r.recovered_lsu == sum_lsu(r.selected@),
            r.restake == (self.config.policy == Policy::ValueOrdered && r.recovered_lsu > 0),
            claims_wf(r.selected@),
            forall|i: int|
                0 <= i < r.selected@.len() ==> spec_remaining(
                    groups@,
                    self.exclusions@,
                ).to_multiset().count(#[trigger] r.selected@[i]) > 0,
    {
        if pool_liquidity <= 0 {
            return StepOutcome {
                selection_ran: false,
                no_claims_left: false,
                selected: Vec::new(),
                remaining_budget: 0,
                recovered_lsu: 0,
                restake: false,
            };
        }
        let snapshot = get_lsu_claims(groups, true);
        let remaining = remove_excluded(&snapshot, &self.exclusions);
        let ghost rem = spec_remaining(groups@, self.exclusions@);
        proof {
            snapshot@.lemma_filter_len(
                |c: Claim| !crate::registry::spec_ids(self.exclusions@).contains(c.id),
            );
        }
        if remaining.len() == 0 {
            return StepOutcome {
                selection_ran: true,
                no_claims_left: true,
                selected: Vec::new(),
                remaining_budget: 0,
                recovered_lsu: 0,
                restake: false,
            };
        }
        let budget = pool_liquidity + owner_liquidity;
        let ordered = if self.config.policy == Policy::ValueOrdered {
            let s = sort_desc_by_lsu(&remaining);
            proof {
                lemma_top_k_multiset(remaining@, remaining@.len() as int);
                lemma_top_k_elements(remaining@, remaining@.len() as int);
            }
            s
        } else {
            let mut s = remaining;
            shuffle_claims(&mut s);
            proof {
                lemma_wf_of_multiset_equal(rem, s@);
            }
            s
        };
        proof {
            assert(ordered@.to_multiset() == rem.to_multiset());
            assert(claims_wf(ordered@));
        }
        let (selected, remaining_budget) = select_claims(&ordered, budget);
        proof {
            lemma_select_budget(ordered@, budget as int);
            lemma_select_elements(ordered@, budget as int);
            broadcast use vstd::seq_lib::group_to_multiset_ensures;

            assert forall|i: int| 0 <= i < selected@.len() implies rem.to_multiset().count(
                #[trigger] selected@[i],
            ) > 0 by {
                assert(ordered@.contains(selected@[i]));
            }
        }
        let restake_policy = self.config.policy == Policy::ValueOrdered;
        let mut recovered: i128 = 0;
        let mut i: usize = 0;
        proof {
            assert(selected@.take(0int) =~= Seq::<Claim>::empty());
        }
        while i < selected.len()
            invariant
                claims_wf(selected@),
                selected@.len() <= MAX_ENTRIES,
                0 <= i <= selected@.len(),
                recovered == sum_lsu(selected@.take(i as int)),
                0 <= recovered <= i * MAX_AMOUNT,
            decreases selected@.len() - i,
        {
            let c = selected[i];
            proof {
                assert(selected@[i as int].wf());
                crate::model::lemma_sum_lsu_push(selected@.take(i as int), selected@[i as int]);
                assert(selected@.take(i as int).push(selected@[i as int]) =~= selected@.take(
                    i as int + 1,
                ));
                assert((i + 1) * MAX_AMOUNT == i * MAX_AMOUNT + MAX_AMOUNT) by (nonlinear_arith);
                assert(i * MAX_AMOUNT <= MAX_ENTRIES * MAX_AMOUNT) by (nonlinear_arith)
                    requires
                        0 <= i <= MAX_ENTRIES,
                ;
            }
            recovered = recovered + c.lsu_amount;
            i = i + 1;
        }
        proof {
            assert(selected@.take(selected@.len() as int) =~= selected@);
        }
        let restake = restake_policy && recovered > 0;
        StepOutcome {
            selection_ran: true,
            no_claims_left: false,
            selected,
            remaining_budget,
            recovered_lsu: recovered,
            restake,
        }
    }
}

/// Law: a run's exclusion set, once fixed by [`Driver::new`], has exactly the
/// configured size whenever at least that many claims exist — one claim for
/// the value-ordered policy, the configured reserve for the randomized one.
pub proof fn lemma_exclusion_set_size(config: Config, initial: Seq<Claim>)
    requires
        config.wf(),
        config.exclusion_count <= initial.len(),
    ensures
        spec_top_k(initial, config.exclusion_count as int).len() == config.exclusion_count,
        config.policy == Policy::ValueOrdered ==> spec_top_k(
            initial,
            config.exclusion_count as int,
        ).len() == 1,
{
    lemma_top_k_len(initial, config.exclusion_count as int);
}

} // verus!
