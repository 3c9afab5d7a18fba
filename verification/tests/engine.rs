//! Scenario and unit tests for the simulation engine, run against the real
//! outside crates.

use gable_simulation::driver::Config;
use gable_simulation::driver::Driver;
use gable_simulation::driver::Policy;
use gable_simulation::driver::RANDOMIZED_EXCLUSION_COUNT;
use gable_simulation::liquidity::bootstrap_can_recover;
use gable_simulation::liquidity::bootstrap_restake_amount;
use gable_simulation::liquidity::pool_liquidity;
use gable_simulation::model::Claim;
use gable_simulation::model::Group;
use gable_simulation::model::PendingEntry;
use gable_simulation::model::RawClaim;
use gable_simulation::pending::due_split;
use gable_simulation::pending::pending_plan;
use gable_simulation::ranking::sort_desc_by_lsu;
use gable_simulation::ranking::top_k_by_lsu;
use gable_simulation::registry::get_lsu_claims;
use gable_simulation::registry::remove_excluded;
use gable_simulation::selection::select_claims;

fn claim(id: u64, lsu: i128, xrd: i128) -> Claim {
    Claim { id, lsu_amount: lsu, xrd_value: xrd }
}

fn raw(id: u64, lsu: i128, xrd: i128, xrd2: i128) -> RawClaim {
    RawClaim { id, lsu_amount: lsu, xrd_value: xrd, xrd_value_secondary: xrd2 }
}

fn entry(due_epoch: u64, amount: i128) -> PendingEntry {
    PendingEntry { due_epoch, amount }
}

fn ids(claims: &[Claim]) -> Vec<u64> {
    claims.iter().map(|c| c.id).collect()
}

#[test]
fn pool_liquidity_is_total_minus_owner() {
    assert_eq!(pool_liquidity(1500, 400), 1100);
    assert_eq!(pool_liquidity(400, 1500), -1100);
}

#[test]
fn pool_liquidity_zero_when_owner_holds_everything() {
    assert_eq!(pool_liquidity(1000, 1000), 0);
}

#[test]
fn bootstrap_decisions() {
    assert!(!bootstrap_can_recover(1000, 1000));
    assert!(bootstrap_can_recover(1001, 1000));
    assert_eq!(bootstrap_restake_amount(5000), 4900);
}

#[test]
fn due_split_takes_exactly_the_arrived_entries() {
    let q = vec![entry(10, 5), entry(20, 7), entry(30, 9)];
    let (due, rest) = due_split(&q, 20);
    assert_eq!(due, vec![entry(10, 5), entry(20, 7)]);
    assert_eq!(rest, vec![entry(30, 9)]);
}

#[test]
fn due_split_with_nothing_due_keeps_the_queue() {
    let q = vec![entry(100, 5), entry(200, 7)];
    let (due, rest) = due_split(&q, 99);
    assert!(due.is_empty());
    assert_eq!(rest, q);
}

#[test]
fn pending_plan_counts_actions_and_sums_rewards() {
    let unlocks = vec![entry(5, 40), entry(12, 60)];
    let unstakes = vec![entry(6, 11), entry(9, 22), entry(50, 33)];
    let plan = pending_plan(&unlocks, &unstakes, 12);
    assert_eq!(plan.unlock_actions, 2);
    assert_eq!(plan.claim_actions, 2);
    assert_eq!(plan.rewards_realized, 33);
}

#[test]
fn pending_plan_is_a_noop_when_nothing_is_due() {
    let unlocks = vec![entry(300, 40)];
    let unstakes = vec![entry(301, 11), entry(400, 22)];
    let plan = pending_plan(&unlocks, &unstakes, 288);
    assert_eq!(plan.unlock_actions, 0);
    assert_eq!(plan.claim_actions, 0);
    assert_eq!(plan.rewards_realized, 0);
}

#[test]
fn snapshot_flattens_groups_and_combines_the_two_cost_components() {
    let groups = vec![
        Group { group_id: 1, claims: vec![raw(1, 100, 30, 5), raw(2, 90, 20, 0)] },
        Group { group_id: 2, claims: vec![raw(3, 80, 10, 10)] },
    ];
    let snapshot = get_lsu_claims(&groups, false);
    assert_eq!(snapshot, vec![claim(1, 100, 35), claim(2, 90, 20), claim(3, 80, 20)]);
}

#[test]
fn snapshot_withholds_the_largest_claim_of_each_group() {
    let groups = vec![
        Group { group_id: 1, claims: vec![raw(1, 90, 1, 0), raw(2, 100, 2, 0), raw(3, 95, 3, 0)] },
        Group { group_id: 2, claims: vec![raw(4, 50, 4, 0)] },
    ];
    let snapshot = get_lsu_claims(&groups, true);
    // group 1 keeps back claim 2 (largest LSU); group 2's only claim is its
    // largest, so the group contributes nothing.
    assert_eq!(ids(&snapshot), vec![1, 3]);
}

#[test]
fn snapshot_withholding_breaks_ties_toward_the_first_claim() {
    let groups = vec![Group {
        group_id: 7,
        claims: vec![raw(1, 100, 1, 0), raw(2, 100, 2, 0), raw(3, 40, 3, 0)],
    }];
    let snapshot = get_lsu_claims(&groups, true);
    assert_eq!(ids(&snapshot), vec![2, 3]);
}

#[test]
fn top_k_takes_the_largest_descending() {
    let claims = vec![claim(1, 70, 0), claim(2, 100, 0), claim(3, 90, 0), claim(4, 80, 0)];
    let top = top_k_by_lsu(&claims, 3);
    assert_eq!(ids(&top), vec![2, 3, 4]);
}

#[test]
fn top_k_breaks_ties_toward_the_first_claim() {
    let claims = vec![claim(1, 90, 0), claim(2, 100, 0), claim(3, 100, 0)];
    let top = top_k_by_lsu(&claims, 1);
    assert_eq!(ids(&top), vec![2]);
    let top2 = top_k_by_lsu(&claims, 2);
    assert_eq!(ids(&top2), vec![2, 3]);
}

#[test]
fn top_k_with_few_claims_returns_them_all() {
    let claims = vec![claim(1, 10, 0), claim(2, 20, 0)];
    let top = top_k_by_lsu(&claims, 5);
    assert_eq!(ids(&top), vec![2, 1]);
}

#[test]
fn sort_desc_is_stable() {
    let claims = vec![claim(1, 50, 0), claim(2, 70, 0), claim(3, 50, 0), claim(4, 90, 0)];
    let sorted = sort_desc_by_lsu(&claims);
    assert_eq!(ids(&sorted), vec![4, 2, 1, 3]);
}

#[test]
fn remove_excluded_strips_by_identifier() {
    let claims = vec![claim(1, 10, 1), claim(2, 20, 2), claim(3, 30, 3)];
    let excluded = vec![claim(2, 999, 999)];
    let rest = remove_excluded(&claims, &excluded);
    assert_eq!(ids(&rest), vec![1, 3]);
}

#[test]
fn budget_scan_accepts_what_fits_and_decrements() {
    let claims = vec![claim(1, 70, 50), claim(2, 60, 50)];
    let (selected, rest) = select_claims(&claims, 150);
    assert_eq!(ids(&selected), vec![1, 2]);
    assert_eq!(rest, 50);
}

#[test]
fn budget_scan_skips_what_does_not_fit_without_carrying_state() {
    let claims = vec![claim(1, 10, 200)];
    let (selected, rest) = select_claims(&claims, 150);
    assert!(selected.is_empty());
    assert_eq!(rest, 150);
    // the same claim, freshly re-evaluated against a larger budget, fits
    let (selected, rest) = select_claims(&claims, 250);
    assert_eq!(ids(&selected), vec![1]);
    assert_eq!(rest, 50);
}

#[test]
fn budget_scan_never_overspends_on_a_mixed_order() {
    let claims = vec![claim(1, 0, 120), claim(2, 0, 100), claim(3, 0, 30)];
    let (selected, rest) = select_claims(&claims, 150);
    // 120 fits (budget 30 left), 100 does not, 30 fits exactly
    assert_eq!(ids(&selected), vec![1, 3]);
    assert_eq!(rest, 0);
    let total: i128 = selected.iter().map(|c| c.xrd_value).sum();
    assert!(total <= 150);
}

#[test]
fn random_order_selection_still_pays_exactly_the_fitting_claims() {
    // 100 cheap claims, no exclusions, a budget that fits them all: whatever
    // random order the step scans them in, every claim is paid exactly once.
    let groups = vec![Group {
        group_id: 1,
        claims: (0..=100).map(|i| raw(i, 1000 - i as i128, 1, 0)).collect(),
    }];
    let unfiltered = get_lsu_claims(&groups, false);
    let driver = Driver::new(Config::randomized_greedy(0), &unfiltered);
    let outcome = driver.select_for_day(&groups, 1_000_000, 0);
    assert!(outcome.selection_ran);
    // the group withholds claim 0, its largest; the rest are all selected
    let mut paid = ids(&outcome.selected);
    paid.sort();
    let expected: Vec<u64> = (1..=100).collect();
    assert_eq!(paid, expected);
    assert_eq!(outcome.remaining_budget, 1_000_000 - 100);
}

fn scenario_a_groups() -> Vec<Group> {
    vec![Group {
        group_id: 1,
        claims: vec![
            raw(1, 100, 50, 0),
            raw(2, 90, 50, 0),
            raw(3, 80, 50, 0),
            raw(4, 70, 50, 0),
            raw(5, 60, 50, 0),
        ],
    }]
}

#[test]
fn exclusion_set_is_the_top_three_by_lsu() {
    let groups = scenario_a_groups();
    let unfiltered = get_lsu_claims(&groups, false);
    let driver = Driver::new(Config::randomized_greedy(RANDOMIZED_EXCLUSION_COUNT), &unfiltered);
    assert_eq!(ids(&driver.exclusions), vec![1, 2, 3]);
}

#[test]
fn value_ordered_excludes_exactly_one_claim() {
    let groups = scenario_a_groups();
    let unfiltered = get_lsu_claims(&groups, false);
    let config = Config::value_ordered();
    assert_eq!(config.exclusion_count, 1);
    let driver = Driver::new(config, &unfiltered);
    assert_eq!(ids(&driver.exclusions), vec![1]);
}

#[test]
fn scenario_a_pays_both_remaining_claims_then_terminates() {
    let groups = scenario_a_groups();
    let unfiltered = get_lsu_claims(&groups, false);
    let driver = Driver::new(Config::randomized_greedy(RANDOMIZED_EXCLUSION_COUNT), &unfiltered);

    // day 1: pool liquidity 150, all claim values 50; after withholding the
    // group's largest (id 1) and stripping the exclusions {1,2,3}, claims 4
    // and 5 remain and both fit the budget.
    let outcome = driver.select_for_day(&groups, 150, 0);
    assert!(outcome.selection_ran);
    assert!(!outcome.no_claims_left);
    let mut paid = ids(&outcome.selected);
    paid.sort();
    assert_eq!(paid, vec![4, 5]);
    assert_eq!(outcome.recovered_lsu, 70 + 60);
    assert!(!outcome.restake);

    // the ledger pays those claims out, leaving claims 1..3 in the group
    let groups_next = vec![Group {
        group_id: 1,
        claims: vec![raw(1, 100, 50, 0), raw(2, 90, 50, 0), raw(3, 80, 50, 0)],
    }];
    let outcome = driver.select_for_day(&groups_next, 150, 0);
    assert!(outcome.selection_ran);
    assert!(outcome.no_claims_left);
    assert!(outcome.selected.is_empty());
}

#[test]
fn scenario_b_skips_selection_when_pool_liquidity_is_zero() {
    let groups = scenario_a_groups();
    let unfiltered = get_lsu_claims(&groups, false);
    let driver = Driver::new(Config::randomized_greedy(RANDOMIZED_EXCLUSION_COUNT), &unfiltered);
    let pool = pool_liquidity(1000, 1000);
    assert_eq!(pool, 0);
    let outcome = driver.select_for_day(&groups, pool, 1000);
    assert!(!outcome.selection_ran);
    assert!(outcome.selected.is_empty());
    assert!(!outcome.no_claims_left);
    assert_eq!(outcome.recovered_lsu, 0);
}

#[test]
fn scenario_c_rejected_claim_is_reconsidered_fresh_next_step() {
    // two claims in the group so the withholding rule leaves the cheap one;
    // no exclusions.
    let groups = vec![Group {
        group_id: 1,
        claims: vec![raw(1, 500, 999, 0), raw(2, 10, 200, 0)],
    }];
    let unfiltered = get_lsu_claims(&groups, false);
    let driver = Driver::new(Config::randomized_greedy(0), &unfiltered);
    assert!(driver.exclusions.is_empty());

    let outcome = driver.select_for_day(&groups, 150, 0);
    assert!(outcome.selection_ran);
    assert!(!outcome.no_claims_left);
    assert!(outcome.selected.is_empty());

    // a later step with a larger budget accepts the very same claim
    let outcome = driver.select_for_day(&groups, 250, 0);
    assert_eq!(ids(&outcome.selected), vec![2]);
    assert_eq!(outcome.remaining_budget, 50);
}

#[test]
fn value_ordered_policy_scans_largest_first_and_restakes() {
    let groups = vec![Group {
        group_id: 1,
        claims: vec![
            raw(1, 500, 10, 0),
            raw(2, 90, 100, 0),
            raw(3, 70, 100, 0),
            raw(4, 80, 100, 0),
        ],
    }];
    let unfiltered = get_lsu_claims(&groups, false);
    let driver = Driver::new(Config::value_ordered(), &unfiltered);
    assert_eq!(ids(&driver.exclusions), vec![1]);

    // the snapshot withholds claim 1 (largest), exclusions also name it; the
    // rest are scanned 2, 4, 3 (LSU descending) against budget 200: claims 2
    // and 4 fit, claim 3 does not.
    let outcome = driver.select_for_day(&groups, 200, 0);
    assert!(outcome.selection_ran);
    assert_eq!(ids(&outcome.selected), vec![2, 4]);
    assert_eq!(outcome.remaining_budget, 0);
    assert_eq!(outcome.recovered_lsu, 90 + 80);
    assert!(outcome.restake);
}

#[test]
fn driver_day_loop_state_machine() {
    let claims = vec![claim(1, 100, 10), claim(2, 90, 10)];
    let mut driver = Driver::new(Config::randomized_greedy(RANDOMIZED_EXCLUSION_COUNT), &claims);
    let exclusions_at_start = ids(&driver.exclusions);
    assert_eq!(driver.day, 0);
    assert!(!driver.finished);
    assert!(!driver.horizon_reached());

    for day in 1..=360u64 {
        driver.start_day();
        assert_eq!(driver.day, day);
        driver.record_day(1000 - day as i128);
        // the exclusion set fixed at day 0 is never recomputed
        assert_eq!(ids(&driver.exclusions), exclusions_at_start);
    }
    assert!(driver.horizon_reached());
    driver.finish();
    assert!(driver.finished);
    assert_eq!(driver.series.len(), 360);
    assert_eq!(driver.series[0].day, 1);
    assert_eq!(driver.series[0].lsu_locked, 999);
    assert_eq!(driver.series[359].day, 360);
    assert_eq!(driver.series[359].lsu_locked, 640);
}

#[test]
fn bootstrap_window_follows_the_configured_limit() {
    let claims = vec![claim(1, 100, 10)];
    let mut driver = Driver::new(Config::value_ordered(), &claims);
    assert!(driver.bootstrap_window_open());
    for _ in 0..100 {
        driver.start_day();
    }
    assert!(!driver.bootstrap_window_open());
}

#[test]
fn reference_configs_match_the_scenario() {
    let current = Config::randomized_greedy(RANDOMIZED_EXCLUSION_COUNT);
    assert_eq!(current.policy, Policy::RandomizedGreedy);
    assert_eq!(current.exclusion_count, 3);
    assert_eq!(current.horizon_days, 360);
    assert_eq!(current.daily_reward, 8000);
    assert_eq!(current.epochs_per_day, 288);

    let perfect = Config::value_ordered();
    assert_eq!(perfect.policy, Policy::ValueOrdered);
    assert_eq!(perfect.exclusion_count, 1);
    assert_eq!(perfect.bootstrap_limit_days, 100);
}
