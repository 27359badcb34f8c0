use defa_protocol::credit_manager::{
    calculate_fee, drawdowns_page, extract_single_exact_fund, fee_preview, instantiate, override_block,
    recompute_overdue_and_block, repay, request_drawdown, set_discretionary_window, settle_unutilized_fee,
    system_status, update_psp_address, update_wiring, Config, CreditManagerError, CreditOp, DiscretionaryWindow,
    PoolStatus,
};
use defa_protocol::types::{Drawdown, DrawdownStatus, Fund};

const DAY: u64 = 86_400;

fn s(x: &str) -> String {
    x.to_string()
}

fn config() -> Config {
    Config {
        admin: s("admin"),
        psp_address: s("psp"),
        psp_pool: s("pool"),
        yield_reserve: s("reserve"),
        stablecoin_denom: s("uzig"),
        drawdown_limit: 1_000_000,
        drawdown_tenor_days: 2,
        psp_rate_bps_per_day: 10,
        penalty_rate_bps_per_day: 25,
        max_queue_wait_days: Some(5),
    }
}

fn active_pool() -> PoolStatus {
    PoolStatus { state: s("Active"), paused: false }
}

fn drawdown(id: u64, principal: u128, timestamp: u64, status: DrawdownStatus) -> Drawdown {
    Drawdown {
        id,
        principal,
        timestamp,
        due_date: timestamp + 2 * DAY,
        status,
        settled_at: None,
        fee_paid: None,
    }
}

#[test]
fn fee_uses_psp_rate_until_tenor() {
    let principal = 1_000_000u128;
    let tenor_secs = 2 * DAY;
    let elapsed = tenor_secs;
    let fee = calculate_fee(principal, 0, elapsed, tenor_secs, 10, 25).unwrap();
    assert_eq!(fee, 2_000);
}

#[test]
fn fee_replaces_with_penalty_after_tenor() {
    let principal = 1_000_000u128;
    let tenor_secs = 2 * DAY;
    let elapsed = tenor_secs + DAY;
    let fee = calculate_fee(principal, 0, elapsed, tenor_secs, 10, 25).unwrap();
    assert_eq!(fee, 3_000);
}

#[test]
fn fee_calculation_all_boundaries() {
    let principal = 1_000_000u128;
    let tenor_secs = 2 * DAY;
    let psp_rate = 10u64;
    let penalty_rate = 25u64;

    let fee = calculate_fee(principal, 0, 2 * DAY, tenor_secs, psp_rate, penalty_rate).unwrap();
    assert_eq!(fee, 2_000);
    let fee2 = calculate_fee(principal, 0, 3 * DAY, tenor_secs, psp_rate, penalty_rate).unwrap();
    assert_eq!(fee2, 3_000);
    let fee3 = calculate_fee(principal, 0, 4 * DAY, tenor_secs, psp_rate, penalty_rate).unwrap();
    assert_eq!(fee3, 5_500);
    let fee4 = calculate_fee(principal, 0, 5 * DAY, tenor_secs, psp_rate, penalty_rate).unwrap();
    assert_eq!(fee4, 8_000);
}

#[test]
fn test_fee_calculation_boundaries() {
    let principal = 1_000_000u128;
    let tenor_secs = 2 * DAY;
    let psp_rate = 10u64;
    let penalty_rate = 25u64;

    let fee = calculate_fee(principal, 0, tenor_secs, tenor_secs, psp_rate, penalty_rate).unwrap();
    assert_eq!(fee, 2_000);
    let fee = calculate_fee(principal, 0, tenor_secs + 1, tenor_secs, psp_rate, penalty_rate).unwrap();
    assert_eq!(fee, 2_000);
    let fee = calculate_fee(principal, 0, tenor_secs + DAY, tenor_secs, psp_rate, penalty_rate).unwrap();
    assert_eq!(fee, 3_000);
    let fee = calculate_fee(principal, 0, tenor_secs + DAY + 1, tenor_secs, psp_rate, penalty_rate).unwrap();
    assert_eq!(fee, 3_000);
    let fee = calculate_fee(principal, 0, tenor_secs + 2 * DAY, tenor_secs, psp_rate, penalty_rate).unwrap();
    assert!(fee > 3_000);
    let fee = calculate_fee(principal, 0, tenor_secs + 2 * DAY + 1, tenor_secs, psp_rate, penalty_rate).unwrap();
    assert!(fee > 3_000);
}

#[test]
fn fee_charges_whole_penalty_days() {
    let fee = calculate_fee(1_000_000, 0, 3 * DAY + 1, 2 * DAY, 10, 25).unwrap();
    assert_eq!(fee, 3_000);
    let fee = calculate_fee(1_000_000, 0, 4 * DAY - 1, 2 * DAY, 10, 25).unwrap();
    assert_eq!(fee, 3_000);
    let fee = calculate_fee(1_000_000, 0, 4 * DAY, 2 * DAY, 10, 25).unwrap();
    assert_eq!(fee, 3_000 + 2_500);
}

#[test]
fn fee_rejects_a_time_before_the_drawdown() {
    let err = calculate_fee(1_000, 100, 99, DAY, 10, 25).unwrap_err();
    assert!(matches!(
        err,
        CreditManagerError::InvalidTimestamp { current_timestamp: 99, drawdown_timestamp: 100 }
    ));
}

#[test]
fn fee_reports_overflow() {
    let err = calculate_fee(u128::MAX, 0, DAY, DAY, 10, 25).unwrap_err();
    assert!(matches!(err, CreditManagerError::ArithmeticOverflow { operation: CreditOp::PrincipalTimesPspRate }));
}

#[test]
fn fee_never_shrinks_over_time() {
    let mut last = 0u128;
    for k in 0..20u64 {
        let fee = calculate_fee(1_000_000, 0, k * 43_200, 2 * DAY, 10, 25).unwrap();
        assert!(fee >= last);
        last = fee;
    }
}

#[test]
fn fee_preview_uses_configured_tenor() {
    let fee = fee_preview(&config(), 1_000_000, 0, 4 * DAY).unwrap();
    assert_eq!(fee, 5_500);
}

#[test]
fn exact_fund_checks() {
    let denom = s("uzig");
    let ok = vec![Fund { denom: s("uzig"), amount: 10 }];
    assert_eq!(extract_single_exact_fund(&ok, &denom, 10).unwrap(), 10);
    let err = extract_single_exact_fund(&ok, &denom, 11).unwrap_err();
    assert!(matches!(err, CreditManagerError::RepayFundsMismatch { expected: 11, received: 10, .. }));
    let wrong = vec![Fund { denom: s("uusd"), amount: 10 }];
    assert!(matches!(extract_single_exact_fund(&wrong, &denom, 10).unwrap_err(), CreditManagerError::InvalidFunds { .. }));
    let none: Vec<Fund> = vec![];
    assert!(matches!(extract_single_exact_fund(&none, &denom, 10).unwrap_err(), CreditManagerError::InvalidFunds { .. }));
}

#[test]
fn overdue_after_due_date_plus_two_days() {
    let ds = vec![
        drawdown(0, 100, 0, DrawdownStatus::Active),
        drawdown(1, 100, 10 * DAY, DrawdownStatus::Active),
        drawdown(2, 100, 0, DrawdownStatus::Settled),
        drawdown(3, 100, 0, DrawdownStatus::Overdue),
    ];
    // drawdown 0 is due at 2 days and overdue after 4 days
    let at_boundary = recompute_overdue_and_block(&ds, 4 * DAY, None, None).unwrap();
    assert_eq!(at_boundary.overdue_count, 1);
    assert!(at_boundary.newly_overdue.is_empty());
    let scan = recompute_overdue_and_block(&ds, 4 * DAY + 1, None, None).unwrap();
    assert_eq!(scan.overdue_count, 2);
    assert_eq!(scan.newly_overdue, vec![0]);
    assert!(scan.blocked);
    assert_eq!(scan.store_blocked, Some(true));
}

#[test]
fn no_overdue_lifts_the_block() {
    let ds = vec![drawdown(0, 100, 0, DrawdownStatus::Settled)];
    let scan = recompute_overdue_and_block(&ds, 100 * DAY, None, Some(true)).unwrap();
    assert_eq!(scan.overdue_count, 0);
    assert!(!scan.blocked);
    assert_eq!(scan.store_blocked, Some(false));
}

#[test]
fn active_window_keeps_the_stored_flag() {
    let ds = vec![drawdown(0, 100, 0, DrawdownStatus::Overdue)];
    let window = Some(DiscretionaryWindow { start_time: 0, end_time: 10 * DAY });
    let lifted = recompute_overdue_and_block(&ds, DAY, window, Some(false)).unwrap();
    assert!(!lifted.blocked);
    assert_eq!(lifted.store_blocked, None);
    let unset = recompute_overdue_and_block(&ds, DAY, window, None).unwrap();
    assert!(unset.blocked);
}

#[test]
fn overdue_scan_reports_grace_overflow() {
    let mut d = drawdown(0, 100, 0, DrawdownStatus::Active);
    d.due_date = u64::MAX - 10;
    let err = recompute_overdue_and_block(&vec![d], 0, None, None).unwrap_err();
    assert!(matches!(err, CreditManagerError::ArithmeticOverflow { operation: CreditOp::DueDatePlusOverdueThreshold }));
}

#[test]
fn drawdown_happy_path() {
    let cfg = config();
    let o = request_drawdown(&s("psp"), &cfg, 300_000, &active_pool(), Ok(Some(1)), &vec![], None, None, 100_000, 1_000_000, 7, 1_000)
        .unwrap();
    assert_eq!(o.drawdown.id, 7);
    assert_eq!(o.drawdown.principal, 300_000);
    assert_eq!(o.drawdown.timestamp, 1_000);
    assert_eq!(o.drawdown.due_date, 1_000 + 2 * DAY);
    assert_eq!(o.drawdown.status, DrawdownStatus::Active);
    assert_eq!(o.next_drawdown_id, 8);
    assert_eq!(o.outstanding, 400_000);
    assert_eq!(o.disbursement.to_address, "psp");
    assert_eq!(o.disbursement.amount, 300_000);
}

#[test]
fn drawdown_errors() {
    let cfg = config();
    let pool = active_pool();
    let none: Vec<Drawdown> = vec![];
    let e = request_drawdown(&s("x"), &cfg, 1, &pool, Ok(None), &none, None, None, 0, 10, 0, 0).unwrap_err();
    assert!(matches!(e, CreditManagerError::PspOnly));
    let e = request_drawdown(&s("psp"), &cfg, 0, &pool, Ok(None), &none, None, None, 0, 10, 0, 0).unwrap_err();
    assert!(matches!(e, CreditManagerError::InvalidZeroAmount));
    let paused = PoolStatus { state: s("Active"), paused: true };
    let e = request_drawdown(&s("psp"), &cfg, 1, &paused, Ok(None), &none, None, None, 0, 10, 0, 0).unwrap_err();
    assert!(matches!(e, CreditManagerError::PoolNotActive { .. }));
    let fundraising = PoolStatus { state: s("Fundraising"), paused: false };
    let e = request_drawdown(&s("psp"), &cfg, 1, &fundraising, Ok(None), &none, None, None, 0, 10, 0, 0).unwrap_err();
    match e {
        CreditManagerError::PoolNotActive { current_state } => assert_eq!(current_state, "Fundraising"),
        other => panic!("unexpected {:?}", other),
    }
    let mut unset = config();
    unset.max_queue_wait_days = None;
    let e = request_drawdown(&s("psp"), &unset, 1, &pool, Ok(None), &none, None, None, 0, 10, 0, 0).unwrap_err();
    assert!(matches!(e, CreditManagerError::MaxQueueWaitUnset));
    let e = request_drawdown(&s("psp"), &cfg, 1, &pool, Err(()), &none, None, None, 0, 10, 0, 0).unwrap_err();
    assert!(matches!(e, CreditManagerError::QueueWaitQueryFailed));
    let e = request_drawdown(&s("psp"), &cfg, 1, &pool, Ok(Some(6)), &none, None, None, 0, 10, 0, 0).unwrap_err();
    assert!(matches!(e, CreditManagerError::QueueWaitBreach { wait_days: 6, max_queue_wait_days: 5 }));
    let overdue = vec![drawdown(0, 10, 0, DrawdownStatus::Overdue)];
    let e = request_drawdown(&s("psp"), &cfg, 1, &pool, Ok(None), &overdue, None, None, 0, 10, 1, 0).unwrap_err();
    assert!(matches!(e, CreditManagerError::OverdueDrawdownBlocks));
    let e = request_drawdown(&s("psp"), &cfg, 600_000, &pool, Ok(None), &none, None, None, 500_000, 10_000_000, 0, 0)
        .unwrap_err();
    assert!(matches!(e, CreditManagerError::DrawdownLimitExceeded { requested: 600_000, outstanding: 500_000, limit: 1_000_000 }));
    // a pool holding less than the amount cannot fund the drawdown
    let e = request_drawdown(&s("psp"), &cfg, 900_000, &pool, Ok(None), &none, None, None, 0, 800_000, 0, 0).unwrap_err();
    assert!(matches!(e, CreditManagerError::ArithmeticOverflow { operation: CreditOp::PoolBalanceMinusDrawdown }));
    // a pool holding 1_300_000 keeps at least 300_000 after any drawdown within the limit
    let o = request_drawdown(&s("psp"), &cfg, 1_000_000, &pool, Ok(None), &none, None, None, 0, 1_300_000, 0, 0).unwrap();
    assert_eq!(o.outstanding, 1_000_000);
}

#[test]
fn repay_returns_principal_and_forwards_fee() {
    let cfg = config();
    let d = drawdown(3, 1_000_000, 0, DrawdownStatus::Active);
    let funds = vec![Fund { denom: s("uzig"), amount: 1_005_500 }];
    let o = repay(&s("psp"), &cfg, 3, Some(d), 4 * DAY, &funds, 1_000_000).unwrap();
    assert_eq!(o.fee, 5_500);
    assert_eq!(o.outstanding, 0);
    assert_eq!(o.drawdown.status, DrawdownStatus::Settled);
    assert_eq!(o.drawdown.settled_at, Some(4 * DAY));
    assert_eq!(o.drawdown.fee_paid, Some(5_500));
    assert_eq!(o.principal_transfer.to_address, "pool");
    assert_eq!(o.principal_transfer.amount, 1_000_000);
    let fee = o.fee_transfer.unwrap();
    assert_eq!(fee.to_address, "reserve");
    assert_eq!(fee.amount, 5_500);
}

#[test]
fn repay_without_fee_sends_nothing_to_reserve() {
    let cfg = config();
    let d = drawdown(0, 1_000, 0, DrawdownStatus::Active);
    let funds = vec![Fund { denom: s("uzig"), amount: 1_000 }];
    let o = repay(&s("psp"), &cfg, 0, Some(d), 10, &funds, 1_000).unwrap();
    assert_eq!(o.fee, 0);
    assert!(o.fee_transfer.is_none());
}

#[test]
fn repay_errors() {
    let cfg = config();
    let funds = vec![Fund { denom: s("uzig"), amount: 1 }];
    let e = repay(&s("x"), &cfg, 0, None, 0, &funds, 0).unwrap_err();
    assert!(matches!(e, CreditManagerError::PspOnly));
    let e = repay(&s("psp"), &cfg, 9, None, 0, &funds, 0).unwrap_err();
    assert!(matches!(e, CreditManagerError::DrawdownNotFound { drawdown_id: 9 }));
    let settled = drawdown(1, 10, 0, DrawdownStatus::Settled);
    let e = repay(&s("psp"), &cfg, 1, Some(settled), 0, &funds, 0).unwrap_err();
    assert!(matches!(e, CreditManagerError::DrawdownNotRepayable { drawdown_id: 1, status: DrawdownStatus::Settled }));
    let d = drawdown(2, 1_000_000, 0, DrawdownStatus::Overdue);
    let e = repay(&s("psp"), &cfg, 2, Some(d), 4 * DAY, &funds, 1_000_000).unwrap_err();
    assert!(matches!(e, CreditManagerError::RepayFundsMismatch { expected: 1_005_500, received: 1, .. }));
}

#[test]
fn override_needs_an_active_window() {
    let cfg = config();
    let window = Some(DiscretionaryWindow { start_time: 100, end_time: 200 });
    assert_eq!(override_block(&s("admin"), &cfg, 0, true, window, 150).unwrap(), false);
    assert!(matches!(override_block(&s("admin"), &cfg, 0, true, window, 201).unwrap_err(), CreditManagerError::InvalidDiscretionaryWindow));
    assert!(matches!(override_block(&s("admin"), &cfg, 5, false, window, 150).unwrap_err(), CreditManagerError::DrawdownNotFound { drawdown_id: 5 }));
    assert!(matches!(override_block(&s("psp"), &cfg, 0, true, window, 150).unwrap_err(), CreditManagerError::Unauthorized { .. }));
}

#[test]
fn discretionary_window_must_end_in_the_future() {
    let cfg = config();
    let w = set_discretionary_window(&s("admin"), &cfg, 10, 20, 15).unwrap();
    assert_eq!(w, DiscretionaryWindow { start_time: 10, end_time: 20 });
    assert!(matches!(set_discretionary_window(&s("admin"), &cfg, 10, 10, 0).unwrap_err(), CreditManagerError::InvalidDiscretionaryWindow));
    assert!(matches!(set_discretionary_window(&s("admin"), &cfg, 10, 20, 20).unwrap_err(), CreditManagerError::InvalidDiscretionaryWindow));
}

#[test]
fn psp_address_is_frozen_while_drawdowns_are_active() {
    let cfg = config();
    let ds = vec![drawdown(0, 1, 0, DrawdownStatus::Settled), drawdown(1, 1, 0, DrawdownStatus::Active)];
    let e = update_psp_address(&s("admin"), &cfg, &ds, Ok(s("psp2"))).unwrap_err();
    assert!(matches!(e, CreditManagerError::ActiveDrawdownsExist));
    let ds = vec![drawdown(0, 1, 0, DrawdownStatus::Settled), drawdown(1, 1, 0, DrawdownStatus::Overdue)];
    let c = update_psp_address(&s("admin"), &cfg, &ds, Ok(s("psp2"))).unwrap();
    assert_eq!(c.psp_address, "psp2");
    assert_eq!(c.psp_pool, "pool");
}

#[test]
fn wiring_updates_only_what_is_given() {
    let cfg = config();
    let c = update_wiring(&s("admin"), &cfg, Some(Ok(s("pool2"))), None, Some(9)).unwrap();
    assert_eq!(c.psp_pool, "pool2");
    assert_eq!(c.yield_reserve, "reserve");
    assert_eq!(c.max_queue_wait_days, Some(9));
    let e = update_wiring(&s("admin"), &cfg, None, Some(Err(s("bad address"))), None).unwrap_err();
    assert!(matches!(e, CreditManagerError::InvalidAddress { .. }));
}

#[test]
fn unutilized_fee_is_not_yet_settled() {
    assert!(matches!(settle_unutilized_fee().unwrap_err(), CreditManagerError::UnutilizedFeeFormulaUnset));
}

#[test]
fn instantiate_requires_a_drawdown_limit() {
    let e = instantiate(Ok(s("a")), Ok(s("p")), Ok(s("pool")), Ok(s("r")), s("uzig"), 0, 2, 10, 25, None).unwrap_err();
    assert!(matches!(e, CreditManagerError::InvalidZeroAmount));
    let c = instantiate(Ok(s("a")), Ok(s("p")), Ok(s("pool")), Ok(s("r")), s("uzig"), 5, 2, 10, 25, Some(3)).unwrap();
    assert_eq!(c.admin, "a");
    assert_eq!(c.drawdown_limit, 5);
    assert_eq!(c.max_queue_wait_days, Some(3));
}

#[test]
fn drawdowns_are_paged_after_the_start() {
    let ds: Vec<Drawdown> = (0..60u64).map(|i| drawdown(i, 1, 0, DrawdownStatus::Active)).collect();
    let page = drawdowns_page(&ds, None, None);
    assert_eq!(page.len(), 20);
    assert_eq!(page[0].id, 0);
    let page = drawdowns_page(&ds, Some(10), Some(5));
    assert_eq!(page.iter().map(|d| d.id).collect::<Vec<_>>(), vec![11, 12, 13, 14, 15]);
    let page = drawdowns_page(&ds, Some(0), Some(500));
    assert_eq!(page.len(), 50);
    assert_eq!(drawdowns_page(&ds, None, Some(0)).len(), 0);
}

#[test]
fn system_status_defaults() {
    let st = system_status(None, None, None, None, None);
    assert!(!st.blocked);
    assert_eq!(st.outstanding_principal, 0);
    assert_eq!(st.overdue_count, 0);
    assert_eq!(st.next_drawdown_id, 0);
    assert_eq!(st.discretionary_window_end, None);
    let st = system_status(Some(true), Some(5), Some(1), Some(2), Some(DiscretionaryWindow { start_time: 1, end_time: 9 }));
    assert!(st.blocked);
    assert_eq!(st.discretionary_window_end, Some(9));
}

#[test]
fn tenor_overflow_is_refused() {
    let mut cfg = config();
    cfg.drawdown_tenor_days = u64::MAX / 1000;
    let funds = vec![Fund { denom: s("uzig"), amount: 1 }];
    let d = drawdown(2, 1_000, 0, DrawdownStatus::Active);
    let e = repay(&s("psp"), &cfg, 2, Some(d), DAY, &funds, 1_000).unwrap_err();
    assert!(matches!(e, CreditManagerError::ArithmeticOverflow { operation: CreditOp::TenorDaysTimesSecondsPerDay }));
    let e = fee_preview(&cfg, 1_000, 0, DAY).unwrap_err();
    assert!(matches!(e, CreditManagerError::ArithmeticOverflow { operation: CreditOp::TenorDaysTimesSecondsPerDay }));
    // a timestamp before the drawdown is refused before the grace period is computed
    cfg.drawdown_tenor_days = (u64::MAX - 100) / DAY;
    let e = fee_preview(&cfg, 1_000, 10, 5).unwrap_err();
    assert!(matches!(e, CreditManagerError::InvalidTimestamp { current_timestamp: 5, drawdown_timestamp: 10 }));
}

#[test]
fn drawdown_overflow_refusals() {
    let cfg = config();
    let pool = active_pool();
    let none: Vec<Drawdown> = vec![];
    let e = request_drawdown(&s("psp"), &cfg, 10, &pool, Ok(None), &none, None, None, u128::MAX - 5, 100, 0, 0).unwrap_err();
    assert!(matches!(e, CreditManagerError::ArithmeticOverflow { operation: CreditOp::OutstandingPlusRequest }));
    let e = request_drawdown(&s("psp"), &cfg, 10, &pool, Ok(None), &none, None, None, 0, 100, u64::MAX, 0).unwrap_err();
    assert!(matches!(e, CreditManagerError::ArithmeticOverflow { operation: CreditOp::DrawdownIdPlusOne }));
    let e = request_drawdown(&s("psp"), &cfg, 10, &pool, Ok(None), &none, None, None, 0, 100, 0, u64::MAX - DAY).unwrap_err();
    assert!(matches!(e, CreditManagerError::ArithmeticOverflow { operation: CreditOp::DrawdownTimestampPlusTenor }));
    let mut long = config();
    long.drawdown_tenor_days = u64::MAX / 1000;
    let e = request_drawdown(&s("psp"), &long, 10, &pool, Ok(None), &none, None, None, 0, 100, 0, 0).unwrap_err();
    assert!(matches!(e, CreditManagerError::ArithmeticOverflow { operation: CreditOp::TenorDaysTimesSecondsPerDay }));
}

#[test]
fn repay_overflow_refusals() {
    let cfg = config();
    let funds = vec![Fund { denom: s("uzig"), amount: u128::MAX }];
    let d = drawdown(4, u128::MAX, 0, DrawdownStatus::Active);
    // the fee on this principal overflows before the principal and fee are added
    let e = repay(&s("psp"), &cfg, 4, Some(d), 4 * DAY, &funds, u128::MAX).unwrap_err();
    assert!(matches!(e, CreditManagerError::ArithmeticOverflow { operation: CreditOp::PrincipalTimesPspRate }));
    let d = drawdown(5, 1_000, 0, DrawdownStatus::Active);
    let funds = vec![Fund { denom: s("uzig"), amount: 1_000 }];
    let e = repay(&s("psp"), &cfg, 5, Some(d), 10, &funds, 999).unwrap_err();
    assert!(matches!(e, CreditManagerError::ArithmeticOverflow { operation: CreditOp::OutstandingMinusPrincipal }));
}

#[test]
fn outstanding_tracks_unsettled_principal() {
    let cfg = config();
    let pool = active_pool();
    let mut stored: Vec<Drawdown> = vec![];
    let o1 = request_drawdown(&s("psp"), &cfg, 300_000, &pool, Ok(None), &stored, None, None, 0, 2_000_000, 0, 0).unwrap();
    assert_eq!(o1.scan.store_blocked, Some(false));
    stored.push(o1.drawdown.clone());
    let o2 = request_drawdown(&s("psp"), &cfg, 200_000, &pool, Ok(None), &stored, None, None, o1.outstanding, 2_000_000, 1, 10)
        .unwrap();
    stored.push(o2.drawdown.clone());
    let unsettled = |ds: &Vec<Drawdown>| -> u128 {
        ds.iter().filter(|d| d.status != DrawdownStatus::Settled).map(|d| d.principal).sum()
    };
    assert_eq!(o2.outstanding, unsettled(&stored));
    let funds = vec![Fund { denom: s("uzig"), amount: 300_000 }];
    let r = repay(&s("psp"), &cfg, 0, Some(stored[0].clone()), 10, &funds, o2.outstanding).unwrap();
    stored[0] = r.drawdown.clone();
    assert_eq!(r.outstanding, unsettled(&stored));
    assert_eq!(r.outstanding, 200_000);
}

#[test]
fn history_keeps_outstanding_within_the_limit() {
    let cfg = config();
    let pool = active_pool();
    let unsettled = |ds: &Vec<Drawdown>| -> u128 {
        ds.iter().filter(|d| d.status != DrawdownStatus::Settled).map(|d| d.principal).sum()
    };
    // from instantiation: nothing stored, nothing outstanding
    let mut stored: Vec<Drawdown> = vec![];
    let mut outstanding: u128 = 0;
    let mut next_id: u64 = 0;
    let o = request_drawdown(&s("psp"), &cfg, 600_000, &pool, Ok(None), &stored, None, None, outstanding, 2_000_000, next_id, 0)
        .unwrap();
    stored.push(o.drawdown.clone());
    outstanding = o.outstanding;
    next_id = o.next_drawdown_id;
    assert_eq!(outstanding, unsettled(&stored));
    // a drawdown past the limit is refused and changes nothing
    let e = request_drawdown(&s("psp"), &cfg, 500_000, &pool, Ok(None), &stored, None, None, outstanding, 2_000_000, next_id, 5)
        .unwrap_err();
    assert!(matches!(e, CreditManagerError::DrawdownLimitExceeded { requested: 500_000, outstanding: 600_000, limit: 1_000_000 }));
    assert_eq!(outstanding, unsettled(&stored));
    // repaying frees the whole limit again
    let funds = vec![Fund { denom: s("uzig"), amount: 600_000 }];
    let r = repay(&s("psp"), &cfg, 0, Some(stored[0].clone()), 0, &funds, outstanding).unwrap();
    stored[0] = r.drawdown.clone();
    outstanding = r.outstanding;
    assert_eq!((outstanding, unsettled(&stored)), (0, 0));
    let o = request_drawdown(&s("psp"), &cfg, 1_000_000, &pool, Ok(None), &stored, None, None, outstanding, 2_000_000, next_id, 10)
        .unwrap();
    stored.push(o.drawdown.clone());
    outstanding = o.outstanding;
    assert_eq!(outstanding, unsettled(&stored));
    assert_eq!(outstanding, cfg.drawdown_limit);
}
