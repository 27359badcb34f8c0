use defa_protocol::yield_distributor::{
    calculate_cycle_amount, check_cycle_ready, check_reserve_balance, compute_next_cycle_time, cycle_status,
    disburse_yield, holders_page_request, instantiate, normalize_limit, open_cycle, open_cycle_amount, settle_batch, split_batch, update_wiring, Config,
    CycleState, DisburseStep, HolderInfo, VaultInfo, YieldDistributorError,
};
use defa_protocol::types::Fund;
use std::collections::BTreeMap;

const DAY: u64 = 86_400;
const START: u64 = 1_571_797_419;

fn s(x: &str) -> String {
    x.to_string()
}

fn setup() -> (Config, CycleState) {
    instantiate(Ok(s("admin")), Ok(s("psp_pool")), Ok(s("yield_reserve")), 36_000, 7, Some(START), START).unwrap()
}

/// The pool as the distributor sees it through its queries.
struct MockPool {
    vault: VaultInfo,
    holders: Vec<String>,
    balances: BTreeMap<String, u128>,
}

impl MockPool {
    fn lp_holders(&self, start_after: Option<String>, limit: u32) -> Vec<String> {
        let mut filtered = self.holders.clone();
        if let Some(start_after) = start_after {
            if let Some(idx) = filtered.iter().position(|h| *h == start_after) {
                filtered = filtered.into_iter().skip(idx + 1).collect();
            }
        }
        filtered.truncate(limit as usize);
        filtered
    }

    fn holder(&self, address: &String) -> HolderInfo {
        HolderInfo {
            address: address.clone(),
            lp_balance: self.balances.get(address).copied().unwrap_or(0),
            deposit_timestamp: 0,
        }
    }
}

/// One disbursement call: returns the payout messages and stores the new cycle
/// state.
fn disburse(
    config: &Config,
    state: &mut CycleState,
    pool: &MockPool,
    reserve_balance: u128,
    now: u64,
    limit: Option<u32>,
) -> Result<Vec<(String, u128)>, YieldDistributorError> {
    let mut page = Vec::new();
    if let Some((start_after, fetch_limit)) = holders_page_request(state, limit) {
        page = pool.lp_holders(start_after, fetch_limit).iter().map(|h| pool.holder(h)).collect();
    }
    let outcome = match disburse_yield(&vec![], config, state, now, &pool.vault, reserve_balance, limit, page)? {
        DisburseStep::Completed { state: completed, .. } => {
            *state = completed;
            return Ok(vec![]);
        }
        DisburseStep::Batch { outcome, .. } => outcome,
    };
    *state = outcome.state;
    let paid: Vec<(String, u128)> = outcome.payouts.into_iter().map(|p| (p.recipient, p.amount)).collect();
    // the library hands the payouts out in recipient order, each positive
    assert!(paid.windows(2).all(|w| w[0].0 < w[1].0));
    assert!(paid.iter().all(|(_, a)| *a > 0));
    Ok(paid)
}

#[test]
fn only_admin_can_update_wiring() {
    let (config, _) = setup();
    let err = update_wiring(&s("not_admin"), &config, &vec![], Some(Ok(s("new_pool"))), None).unwrap_err();
    assert!(matches!(err, YieldDistributorError::Unauthorized { .. }));
    if let YieldDistributorError::Unauthorized { .. } = err {
    } else {
        panic!("Expected Unauthorized error");
    }
    let updated = update_wiring(&s("admin"), &config, &vec![], Some(Ok(s("new_pool"))), None).unwrap();
    assert_eq!(updated.psp_pool, "new_pool");
    assert_eq!(updated.yield_reserve, "yield_reserve");
}

#[test]
fn disburse_computes_payouts_on_chain() {
    let (config, mut state) = setup();
    let pool = MockPool {
        vault: VaultInfo { total_deposited: 1_000, total_lp_supply: 1_000 },
        holders: vec![s("lp1"), s("lp2")],
        balances: BTreeMap::from([(s("lp1"), 400), (s("lp2"), 600)]),
    };
    let now = START + 7 * DAY;
    let msgs = disburse(&config, &mut state, &pool, 1_000_000, now, Some(20)).unwrap();
    assert_eq!(msgs.len(), 2);
    assert_eq!(msgs, vec![(s("lp1"), 28), (s("lp2"), 42)]);

    let status = cycle_status(&config, &state, Some(pool.vault)).unwrap();
    assert_eq!(status.completed_cycles, 1);
    assert!(!status.disbursement_in_progress);
    assert_eq!(status.next_cycle_amount, 70);
}

#[test]
fn disburse_supports_batches_and_remainder() {
    let (config, mut state) = setup();
    let pool = MockPool {
        vault: VaultInfo { total_deposited: 1_429, total_lp_supply: 3 },
        holders: vec![s("lp_a"), s("lp_b"), s("lp_c")],
        balances: BTreeMap::from([(s("lp_a"), 1), (s("lp_b"), 1), (s("lp_c"), 1)]),
    };
    let now = START + 7 * DAY;
    let first = disburse(&config, &mut state, &pool, 1_000_000, now, Some(2)).unwrap();
    assert_eq!(first.len(), 2);

    let mid = cycle_status(&config, &state, Some(pool.vault)).unwrap();
    assert!(mid.disbursement_in_progress);
    assert_eq!(mid.distributed_amount, 66);

    let second = disburse(&config, &mut state, &pool, 1_000_000, now, Some(2)).unwrap();
    assert_eq!(second.len(), 1);
    assert_eq!(second, vec![(s("lp_c"), 34)]);

    let status = cycle_status(&config, &state, Some(pool.vault)).unwrap();
    assert_eq!(status.completed_cycles, 1);
    assert!(!status.disbursement_in_progress);
    assert_eq!(status.next_cycle_amount, 100);
}

#[test]
fn disburse_fails_without_indexed_holders() {
    let (config, mut state) = setup();
    let pool = MockPool {
        vault: VaultInfo { total_deposited: 1_000, total_lp_supply: 10 },
        holders: vec![],
        balances: BTreeMap::new(),
    };
    let err = disburse(&config, &mut state, &pool, 1_000_000, START + 7 * DAY, Some(10)).unwrap_err();
    assert!(matches!(err, YieldDistributorError::NoIndexedLpHolders {}));
}

#[test]
fn cycle_not_ready_before_the_boundary() {
    let (config, state) = setup();
    let err = check_cycle_ready(&config, &state, START + 7 * DAY - 1).unwrap_err();
    match err {
        YieldDistributorError::CycleNotReady { next_cycle_time, now } => {
            assert_eq!(next_cycle_time, START + 7 * DAY);
            assert_eq!(now, START + 7 * DAY - 1);
        },
        other => panic!("unexpected {:?}", other),
    }
    assert!(check_cycle_ready(&config, &state, START + 7 * DAY).unwrap());
}

#[test]
fn cycles_fall_due_one_period_apart() {
    let (config, _) = setup();
    assert_eq!(compute_next_cycle_time(&config, 0).unwrap(), START + 7 * DAY);
    assert_eq!(compute_next_cycle_time(&config, 1).unwrap(), START + 14 * DAY);
    assert_eq!(compute_next_cycle_time(&config, 5).unwrap(), START + 42 * DAY);
}

#[test]
fn cycle_amount_formula() {
    // 1_000 * 36_000 bps * 7 days / (10_000 * 360)
    assert_eq!(calculate_cycle_amount(1_000, 36_000, 7).unwrap(), 70);
    assert_eq!(calculate_cycle_amount(1_429, 36_000, 7).unwrap(), 100);
    assert_eq!(calculate_cycle_amount(3_000_000, 3_600, 7).unwrap(), 21_000);
    assert!(matches!(calculate_cycle_amount(u128::MAX, 2, 1).unwrap_err(), YieldDistributorError::ArithmeticOverflow { .. }));
}

#[test]
fn zero_yield_cycle_completes_at_once() {
    let (config, mut state) = setup();
    let pool = MockPool {
        vault: VaultInfo { total_deposited: 1, total_lp_supply: 1 },
        holders: vec![s("lp")],
        balances: BTreeMap::from([(s("lp"), 1)]),
    };
    let msgs = disburse(&config, &mut state, &pool, 0, START + 7 * DAY, None).unwrap();
    assert!(msgs.is_empty());
    assert_eq!(state.completed_cycles, 1);
    assert_eq!(state.last_disbursed_at, Some(START + 7 * DAY));
}

#[test]
fn reserve_must_cover_the_cycle() {
    let (config, mut state) = setup();
    let pool = MockPool {
        vault: VaultInfo { total_deposited: 1_000, total_lp_supply: 1_000 },
        holders: vec![s("lp")],
        balances: BTreeMap::from([(s("lp"), 1_000)]),
    };
    let err = disburse(&config, &mut state, &pool, 69, START + 7 * DAY, None).unwrap_err();
    assert!(matches!(err, YieldDistributorError::InsufficientYieldReserve { required: 70, available: 69 }));
}

#[test]
fn no_lp_supply_is_refused() {
    let (config, _) = setup();
    let err = open_cycle_amount(&config, &VaultInfo { total_deposited: 5, total_lp_supply: 0 }).unwrap_err();
    assert!(matches!(err, YieldDistributorError::NoLpSupply));
}

#[test]
fn batch_limits() {
    assert_eq!(normalize_limit(None).unwrap(), 50);
    assert_eq!(normalize_limit(Some(500)).unwrap(), 150);
    assert_eq!(normalize_limit(Some(7)).unwrap(), 7);
    assert!(matches!(normalize_limit(Some(0)).unwrap_err(), YieldDistributorError::InvalidPaginationLimit));
}

#[test]
fn split_keeps_the_batch_and_flags_more() {
    let (batch, more) = split_batch(vec![s("a"), s("b"), s("c")], 2).unwrap();
    assert_eq!(batch, vec![s("a"), s("b")]);
    assert!(more);
    let (batch, more) = split_batch(vec![s("a")], 2).unwrap();
    assert_eq!(batch, vec![s("a")]);
    assert!(!more);
}

#[test]
fn holders_shorter_than_a_cycle_earn_pro_rata() {
    let (config, mut state) = setup();
    let pool = MockPool {
        vault: VaultInfo { total_deposited: 1_000, total_lp_supply: 1_000 },
        holders: vec![s("old"), s("new")],
        balances: BTreeMap::from([(s("old"), 500), (s("new"), 500)]),
    };
    let now = START + 7 * DAY;
    let mut current = state.clone();
    assert!(check_cycle_ready(&config, &current, now).unwrap());
    let amount = open_cycle_amount(&config, &pool.vault).unwrap();
    let (opened, _) = open_cycle(&current, &pool.vault, amount, now).unwrap();
    current = opened;
    let infos = vec![
        HolderInfo { address: s("old"), lp_balance: 500, deposit_timestamp: 0 },
        HolderInfo { address: s("new"), lp_balance: 500, deposit_timestamp: now - 2 * DAY },
    ];
    let outcome = settle_batch(&current, &infos, false, &pool.vault, &config, now).unwrap();
    // old: 500 * 36_000 * 7 / 3_600_000 = 35; new: 500 * 36_000 * 2 / 3_600_000 = 10; remainder 25 to the last holder
    let paid: BTreeMap<String, u128> = outcome.payouts.into_iter().map(|p| (p.recipient, p.amount)).collect();
    assert_eq!(paid.get("old"), Some(&35));
    assert_eq!(paid.get("new"), Some(&35));
    assert_eq!(outcome.batch_total, 70);
    assert!(outcome.finalized);
    state = outcome.state;
    assert_eq!(state.completed_cycles, 1);
}

#[test]
fn funds_are_refused_on_wiring() {
    let (config, _) = setup();
    let funds = vec![Fund { denom: s("uzig"), amount: 1 }];
    let err = update_wiring(&s("admin"), &config, &funds, None, None).unwrap_err();
    assert!(matches!(err, YieldDistributorError::UnexpectedFunds));
}

#[test]
fn instantiate_checks_parameters() {
    assert!(matches!(
        instantiate(Ok(s("a")), Ok(s("p")), Ok(s("r")), 100, 0, None, 5).unwrap_err(),
        YieldDistributorError::InvalidCycleDays
    ));
    assert!(matches!(
        instantiate(Ok(s("a")), Ok(s("p")), Ok(s("r")), 0, 7, None, 5).unwrap_err(),
        YieldDistributorError::InvalidInvestorApy
    ));
    let (c, st) = instantiate(Ok(s("a")), Ok(s("p")), Ok(s("r")), 100, 7, None, 5).unwrap();
    assert_eq!(c.cycle_anchor_time, 5);
    assert_eq!(st.completed_cycles, 0);
}

#[test]
fn settling_without_an_open_cycle_is_refused() {
    let (config, state) = setup();
    let vault = VaultInfo { total_deposited: 1_000, total_lp_supply: 1_000 };
    let e = settle_batch(&state, &vec![], false, &vault, &config, START).unwrap_err();
    assert!(matches!(
        e,
        YieldDistributorError::ArithmeticOverflow { operation: defa_protocol::yield_distributor::DistributorOp::MissingActiveDisbursement }
    ));
}

#[test]
fn cycle_time_overflow_names_the_step() {
    let (mut config, state) = setup();
    config.cycle_days = u64::MAX / 1000;
    let e = check_cycle_ready(&config, &state, START).unwrap_err();
    assert!(matches!(
        e,
        YieldDistributorError::ArithmeticOverflow { operation: defa_protocol::yield_distributor::DistributorOp::CycleDaysTimesSecondsPerDay }
    ));
    config.cycle_days = 7;
    config.cycle_anchor_time = u64::MAX - DAY;
    let e = compute_next_cycle_time(&config, 0).unwrap_err();
    assert!(matches!(
        e,
        YieldDistributorError::ArithmeticOverflow { operation: defa_protocol::yield_distributor::DistributorOp::AnchorPlusOffset }
    ));
}

#[test]
fn last_batch_without_holders_cannot_take_the_remainder() {
    let (config, state) = setup();
    let vault = VaultInfo { total_deposited: 1_000_000, total_lp_supply: 1_000_000 };
    let (opened, done) = open_cycle(&state, &vault, 500, START + 7 * DAY).unwrap();
    assert!(!done);
    let e = settle_batch(&opened, &vec![], false, &vault, &config, START + 7 * DAY).unwrap_err();
    assert!(matches!(e, YieldDistributorError::RemainderAllocationFailed));
    let e = settle_batch(&opened, &vec![], true, &vault, &config, START + 7 * DAY).unwrap_err();
    assert!(matches!(e, YieldDistributorError::NoIndexedLpHolders));
}

#[test]
fn payouts_come_in_recipient_order_and_add_up() {
    let (config, state) = setup();
    let vault = VaultInfo { total_deposited: 3_000_000, total_lp_supply: 3_000_000 };
    let now = START + 7 * DAY;
    let (opened, _) = open_cycle(&state, &vault, 250_000, now).unwrap();
    let batch = vec![
        HolderInfo { address: s("zed"), lp_balance: 1_000_000, deposit_timestamp: 0 },
        HolderInfo { address: s("amy"), lp_balance: 1_000_000, deposit_timestamp: 0 },
        HolderInfo { address: s("max"), lp_balance: 1_000_000, deposit_timestamp: 0 },
    ];
    let o = settle_batch(&opened, &batch, false, &vault, &config, now).unwrap();
    let names: Vec<&str> = o.payouts.iter().map(|p| p.recipient.as_str()).collect();
    assert_eq!(names, vec!["amy", "max", "zed"]);
    assert_eq!(o.payouts.iter().map(|p| p.amount).sum::<u128>(), o.batch_total);
    assert_eq!(o.batch_total, 250_000);
    assert!(o.finalized);
    // each earns 70_000; the remainder goes to the batch's last holder, "max"
    let amounts: Vec<u128> = o.payouts.iter().map(|p| p.amount).collect();
    assert_eq!(amounts, vec![70_000, 110_000, 70_000]);
}

#[test]
fn disbursement_refuses_attached_funds_first() {
    let (config, state) = setup();
    let vault = VaultInfo { total_deposited: 1_000, total_lp_supply: 1_000 };
    let funds = vec![Fund { denom: s("uusdc"), amount: 1 }];
    // refused even before the cycle boundary is looked at
    let e = disburse_yield(&funds, &config, &state, START, &vault, 0, None, vec![]).unwrap_err();
    assert!(matches!(e, YieldDistributorError::UnexpectedFunds));
}

#[test]
fn disbursement_checks_in_order() {
    let (config, state) = setup();
    let vault = VaultInfo { total_deposited: 1_000, total_lp_supply: 1_000 };
    let holder = HolderInfo { address: s("lp"), lp_balance: 1_000, deposit_timestamp: 0 };
    // before the boundary: not ready, whatever else is wrong
    let e = disburse_yield(&vec![], &config, &state, START + 7 * DAY - 1, &vault, 0, Some(0), vec![]).unwrap_err();
    assert!(matches!(e, YieldDistributorError::CycleNotReady { next_cycle_time, now }
        if next_cycle_time == START + 7 * DAY && now == START + 7 * DAY - 1));
    // at the boundary the reserve is checked before the batch size and the page
    let e = disburse_yield(&vec![], &config, &state, START + 7 * DAY, &vault, 69, Some(0), vec![]).unwrap_err();
    assert!(matches!(e, YieldDistributorError::InsufficientYieldReserve { required: 70, available: 69 }));
    // then the batch size, then the page
    let e = disburse_yield(&vec![], &config, &state, START + 7 * DAY, &vault, 70, Some(0), vec![holder.clone()]).unwrap_err();
    assert!(matches!(e, YieldDistributorError::InvalidPaginationLimit));
    let e = disburse_yield(&vec![], &config, &state, START + 7 * DAY, &vault, 70, None, vec![]).unwrap_err();
    assert!(matches!(e, YieldDistributorError::NoIndexedLpHolders));
    // the stored state is untouched by a refusal: the same call succeeds with a page
    match disburse_yield(&vec![], &config, &state, START + 7 * DAY, &vault, 70, None, vec![holder]).unwrap() {
        DisburseStep::Batch { outcome, cycle_amount, batch_len, has_more } => {
            assert_eq!(cycle_amount, 70);
            assert_eq!(batch_len, 1);
            assert!(!has_more);
            assert!(outcome.finalized);
            assert_eq!(outcome.batch_total, 70);
            assert_eq!(outcome.state.completed_cycles, 1);
        }
        DisburseStep::Completed { .. } => panic!("expected a batch"),
    }
}

#[test]
fn disbursement_pays_a_batch_and_keeps_the_rest_for_later() {
    let (config, state) = setup();
    let vault = VaultInfo { total_deposited: 3_000, total_lp_supply: 3_000 };
    let now = START + 7 * DAY;
    assert_eq!(holders_page_request(&state, Some(2)), Some((None, 3)));
    assert_eq!(holders_page_request(&state, Some(0)), None);
    assert_eq!(holders_page_request(&state, Some(1_000)), Some((None, 151)));
    let page: Vec<HolderInfo> = ["a", "b", "c"]
        .iter()
        .map(|n| HolderInfo { address: s(n), lp_balance: 1_000, deposit_timestamp: 0 })
        .collect();
    let first = match disburse_yield(&vec![], &config, &state, now, &vault, 1_000, Some(2), page).unwrap() {
        DisburseStep::Batch { outcome, cycle_amount, batch_len, has_more } => {
            assert_eq!((cycle_amount, batch_len, has_more), (210, 2, true));
            assert!(!outcome.finalized);
            assert_eq!(outcome.batch_total, 140);
            outcome.state
        }
        DisburseStep::Completed { .. } => panic!("expected a batch"),
    };
    // the next page starts after the last holder paid
    assert_eq!(holders_page_request(&first, Some(2)), Some((Some(s("b")), 3)));
    let rest = vec![HolderInfo { address: s("c"), lp_balance: 1_000, deposit_timestamp: 0 }];
    // a cycle in progress needs no reserve balance
    match disburse_yield(&vec![], &config, &first, now, &vault, 0, Some(2), rest).unwrap() {
        DisburseStep::Batch { outcome, cycle_amount, has_more, .. } => {
            assert_eq!(cycle_amount, 210);
            assert!(!has_more);
            assert!(outcome.finalized);
            assert_eq!(outcome.batch_total, 70);
            assert_eq!(outcome.state.completed_cycles, 1);
            assert!(outcome.state.active_disbursement.is_none());
        }
        DisburseStep::Completed { .. } => panic!("expected a batch"),
    }
}

#[test]
fn zero_yield_disbursement_reports_completion() {
    let (config, state) = setup();
    let vault = VaultInfo { total_deposited: 1, total_lp_supply: 1 };
    match disburse_yield(&vec![], &config, &state, START + 7 * DAY, &vault, 0, Some(0), vec![]).unwrap() {
        DisburseStep::Completed { state: done, cycle_amount } => {
            assert_eq!(cycle_amount, 0);
            assert_eq!(done.completed_cycles, 1);
            assert_eq!(done.last_disbursed_at, Some(START + 7 * DAY));
        }
        DisburseStep::Batch { .. } => panic!("expected completion"),
    }
}
