use defa_protocol::psp_pool::{
    admin_deposit_yield, claim_withdraw, close_facility, deposit, disburse_to_psp, emergency_pause, emergency_unpause,
    execute_facility, expire_facility, forfeited_yield, instantiate, lp_holders, mark_settled,
    oldest_queue_wait_days, pause_guard, pending_withdrawals, pool_state_response, request_withdraw,
    set_credit_manager, sync_lp_holder, update_config, user_info_response, Config, ExpectedState, PendingWithdrawal,
    PoolCommand, PoolOp, PspPoolError, QueueEntry, UserInfo, WithdrawalCounter,
};
use defa_protocol::shares::VaultState;
use defa_protocol::types::{Fund, PoolState};
use defa_protocol::vault::VaultError;

const NANOS: u64 = 1_000_000_000;
/// Monday 2024-01-01 00:00:00 UTC, in nanoseconds.
const MONDAY: u64 = 1_704_067_200 * NANOS;

fn s(x: &str) -> String {
    x.to_string()
}

fn coins(amount: u128, denom: &str) -> Vec<Fund> {
    vec![Fund { denom: s(denom), amount }]
}

fn setup() -> (Config, VaultState) {
    let init = instantiate("lplp", 1_000_000, 7_200, s("uzig"), 3_600, None, s("admin"), "pool", Ok(s("reserve"))).unwrap();
    assert_eq!(init.state, PoolState::Fundraising);
    assert!(!init.paused);
    (init.config, init.vault)
}

#[test]
fn lifecycle_moves_forward_only() {
    let (config, _) = setup();
    let admin = s("admin");
    let empty = VaultState { total_deposited: 0, total_lp_minted: 0, total_pending_withdrawals: 0 };
    let active = execute_facility(&admin, &config, PoolState::Fundraising).unwrap();
    assert_eq!(active, PoolState::Active);
    let winding = expire_facility(active).unwrap();
    assert_eq!(winding, PoolState::WindingDown);
    let settled = mark_settled(&admin, &config, winding, &empty).unwrap();
    assert_eq!(settled, PoolState::Settled);
    let closed = close_facility(&admin, &config, settled).unwrap();
    assert_eq!(closed, PoolState::Closed);

    assert!(matches!(
        execute_facility(&admin, &config, PoolState::Active).unwrap_err(),
        PspPoolError::InvalidState { expected: ExpectedState::Fundraising, got: PoolState::Active }
    ));
    assert!(matches!(expire_facility(PoolState::Closed).unwrap_err(), PspPoolError::InvalidState { .. }));
    assert!(matches!(close_facility(&admin, &config, PoolState::Closed).unwrap_err(), PspPoolError::InvalidState { .. }));
    assert!(matches!(execute_facility(&s("eve"), &config, PoolState::Fundraising).unwrap_err(), PspPoolError::Unauthorized { .. }));
}

#[test]
fn settlement_waits_for_pending_withdrawals() {
    let (config, _) = setup();
    let pending = VaultState { total_deposited: 10, total_lp_minted: 0, total_pending_withdrawals: 10 };
    assert!(matches!(
        mark_settled(&s("admin"), &config, PoolState::WindingDown, &pending).unwrap_err(),
        PspPoolError::PendingWithdrawalsRemain
    ));
}

#[test]
fn pause_blocks_everything_but_unpause() {
    assert!(pause_guard(false, PoolCommand::Deposit).is_ok());
    assert!(matches!(pause_guard(true, PoolCommand::Deposit).unwrap_err(), PspPoolError::ContractPaused));
    assert!(matches!(pause_guard(true, PoolCommand::EmergencyPause).unwrap_err(), PspPoolError::ContractPaused));
    assert!(pause_guard(true, PoolCommand::EmergencyUnpause).is_ok());
    let (config, _) = setup();
    assert_eq!(emergency_pause(&s("admin"), &config).unwrap(), true);
    assert_eq!(emergency_unpause(&s("admin"), &config).unwrap(), false);
    assert!(emergency_pause(&s("eve"), &config).is_err());
}

#[test]
fn deposits_are_capped_while_active() {
    let (config, vault) = setup();
    let o = deposit(PoolState::Fundraising, &config, &vault, &coins(900_000, "uzig"), None, 77).unwrap();
    assert_eq!(o.lp_minted, 900_000);
    assert_eq!(o.user_info, UserInfo { deposit_timestamp: 77, lp_balance: 900_000 });
    let e = deposit(PoolState::Active, &config, &o.vault, &coins(100_001, "uzig"), Some(o.user_info), 88).unwrap_err();
    assert!(matches!(e, PspPoolError::BackfillCapExceeded { cap: 100_000, requested: 100_001 }));
    let o2 = deposit(PoolState::Active, &config, &o.vault, &coins(100_000, "uzig"), Some(o.user_info), 88).unwrap();
    assert_eq!(o2.vault.total_deposited, 1_000_000);
    // the first deposit time is kept
    assert_eq!(o2.user_info.deposit_timestamp, 77);
    assert_eq!(o2.user_info.lp_balance, 1_000_000);
    let e = deposit(PoolState::WindingDown, &config, &o.vault, &coins(1, "uzig"), None, 0).unwrap_err();
    assert!(matches!(e, PspPoolError::InvalidState { expected: ExpectedState::FundraisingOrActive, .. }));
    let over = VaultState { total_deposited: 2_000_000, total_lp_minted: 1, total_pending_withdrawals: 0 };
    let e = deposit(PoolState::Active, &config, &over, &coins(1, "uzig"), None, 0).unwrap_err();
    assert!(matches!(e, PspPoolError::Overflow { operation: PoolOp::BackfillRemainingCapacity }));
    let e = deposit(PoolState::Fundraising, &config, &vault, &coins(1, "uusd"), None, 0).unwrap_err();
    assert!(matches!(e, PspPoolError::Vault(VaultError::NoStablecoinSent)));
}

#[test]
fn withdrawals_are_requested_on_mondays_and_queued() {
    let (config, vault) = setup();
    let o = deposit(PoolState::Fundraising, &config, &vault, &coins(1_000, "uzig"), None, 0).unwrap();
    let lp = config.lp_full_denom.clone();
    let tuesday = MONDAY + 86_400 * NANOS;
    let e = request_withdraw(PoolState::Active, tuesday, &config, &coins(100, &lp), &o.vault, None, 0).unwrap_err();
    assert!(matches!(e, PspPoolError::WithdrawalWindowClosed { current_day: 2 }));
    let e = request_withdraw(PoolState::Fundraising, MONDAY, &config, &coins(100, &lp), &o.vault, None, 0).unwrap_err();
    assert!(matches!(e, PspPoolError::InvalidState { expected: ExpectedState::ActiveOrWindingDown, .. }));

    let r1 = request_withdraw(PoolState::Active, MONDAY, &config, &coins(100, &lp), &o.vault, None, 5).unwrap();
    assert_eq!(r1.withdrawal.queue_id, 5);
    assert_eq!(r1.queue_next, 6);
    assert_eq!(r1.withdrawal.amount, 100);
    assert_eq!(r1.withdrawal.requested_at, MONDAY);
    assert_eq!(r1.withdrawal.release_time, MONDAY + 7_200 * NANOS);
    assert_eq!(r1.withdrawal_id, 0);
    assert_eq!(r1.counter, WithdrawalCounter { next_id: 1 });
    assert_eq!(r1.vault.total_lp_minted, 900);
    assert_eq!(r1.vault.total_pending_withdrawals, 100);
    // seven days of 36% APY on 100 LP: 100 * 3_600 * 7 / 3_600_000 = 0
    assert_eq!(r1.forfeited_yield, 0);

    let r2 = request_withdraw(PoolState::WindingDown, MONDAY + 3_600 * NANOS, &config, &coins(200, &lp), &r1.vault, Some(r1.counter), r1.queue_next)
        .unwrap();
    assert_eq!(r2.withdrawal.queue_id, 6);
    assert_eq!(r2.withdrawal_id, 1);
}

#[test]
fn claims_follow_the_queue() {
    let (config, vault) = setup();
    let o = deposit(PoolState::Fundraising, &config, &vault, &coins(1_000, "uzig"), None, 0).unwrap();
    let lp = config.lp_full_denom.clone();
    let r1 = request_withdraw(PoolState::Active, MONDAY, &config, &coins(100, &lp), &o.vault, None, 0).unwrap();
    let r2 = request_withdraw(PoolState::Active, MONDAY, &config, &coins(100, &lp), &r1.vault, None, r1.queue_next).unwrap();
    let later = MONDAY + 7_200 * NANOS;
    let user = s("user");

    // the second request cannot be paid before the first
    let e = claim_withdraw(&user, PoolState::Active, &config, &vec![], Some(1), 0, true, Some(r2.withdrawal), later, &r2.vault, 1_000)
        .unwrap_err();
    assert!(matches!(e, PspPoolError::QueueOrderViolation { head_queue_id: 0, requested_queue_id: 1 }));

    let c1 = claim_withdraw(&user, PoolState::Active, &config, &vec![], Some(0), 0, true, Some(r1.withdrawal), later, &r2.vault, 1_000)
        .unwrap();
    assert_eq!(c1.queue_head, 1);
    assert_eq!(c1.transfer.amount, 100);
    assert_eq!(c1.vault.total_deposited, 900);

    let c2 = claim_withdraw(&user, PoolState::Settled, &config, &vec![], Some(1), c1.queue_head, true, Some(r2.withdrawal), later, &c1.vault, 900)
        .unwrap();
    assert_eq!(c2.queue_head, 2);

    let e = claim_withdraw(&user, PoolState::Active, &config, &vec![], Some(0), 0, true, Some(r1.withdrawal), later - 1, &r2.vault, 1_000)
        .unwrap_err();
    assert!(matches!(e, PspPoolError::Vault(VaultError::WithdrawalLocked { release_time_secs: 1_704_074_400 })));
    let e = claim_withdraw(&user, PoolState::Active, &config, &vec![], Some(0), 0, false, Some(r1.withdrawal), later, &r2.vault, 1_000)
        .unwrap_err();
    assert!(matches!(e, PspPoolError::QueueEntryNotFound { queue_id: 0 }));
    let e = claim_withdraw(&user, PoolState::Active, &config, &vec![], None, 0, true, None, later, &r2.vault, 1_000).unwrap_err();
    assert!(matches!(e, PspPoolError::Vault(VaultError::WithdrawalNotFound)));
    let e = claim_withdraw(&user, PoolState::Closed, &config, &vec![], Some(0), 0, true, Some(r1.withdrawal), later, &r2.vault, 1_000)
        .unwrap_err();
    assert!(matches!(e, PspPoolError::InvalidState { .. }));
}

#[test]
fn forfeited_yield_is_seven_days_of_apy() {
    // 1_000_000 LP at 3_600 bps: 1_000_000 * 3_600 * 7 / 3_600_000 = 7_000
    assert_eq!(forfeited_yield(1_000_000, 3_600), 7_000);
    assert_eq!(forfeited_yield(0, 3_600), 0);
    // saturating products
    assert_eq!(forfeited_yield(u128::MAX, u64::MAX), u128::MAX / 3_600_000);
}

#[test]
fn disbursement_to_psp() {
    let (config, _) = setup();
    let e = disburse_to_psp(&s("cm"), &config, &vec![], 10, PoolState::Active, Ok(s("psp")), 100).unwrap_err();
    assert!(matches!(e, PspPoolError::CreditManagerNotConfigured));
    let config = set_credit_manager(&s("admin"), &config, Ok(s("cm"))).unwrap();
    assert_eq!(config.credit_manager, Some(s("cm")));
    let t = disburse_to_psp(&s("cm"), &config, &vec![], 10, PoolState::Active, Ok(s("psp")), 100).unwrap();
    assert_eq!(t.to_address, "psp");
    assert_eq!(t.amount, 10);
    assert_eq!(t.denom, "uzig");
    assert!(matches!(disburse_to_psp(&s("x"), &config, &vec![], 10, PoolState::Active, Ok(s("psp")), 100).unwrap_err(), PspPoolError::CreditManagerOnly));
    assert!(matches!(disburse_to_psp(&s("cm"), &config, &coins(1, "uzig"), 10, PoolState::Active, Ok(s("psp")), 100).unwrap_err(), PspPoolError::UnexpectedFunds));
    assert!(matches!(disburse_to_psp(&s("cm"), &config, &vec![], 0, PoolState::Active, Ok(s("psp")), 100).unwrap_err(), PspPoolError::InvalidZeroAmount));
    assert!(matches!(disburse_to_psp(&s("cm"), &config, &vec![], 10, PoolState::Fundraising, Ok(s("psp")), 100).unwrap_err(), PspPoolError::InvalidState { .. }));
    assert!(matches!(disburse_to_psp(&s("cm"), &config, &vec![], 101, PoolState::Active, Ok(s("psp")), 100).unwrap_err(), PspPoolError::InsufficientContractBalance { available: 100, required: 101 }));
}

#[test]
fn holder_index_follows_the_balance() {
    assert_eq!(sync_lp_holder(&vec![], Ok(s("h")), 5).unwrap(), (s("h"), true));
    assert_eq!(sync_lp_holder(&vec![], Ok(s("h")), 0).unwrap(), (s("h"), false));
    assert!(matches!(sync_lp_holder(&coins(1, "x"), Ok(s("h")), 0).unwrap_err(), PspPoolError::UnexpectedFunds));
}

#[test]
fn holders_are_paged_in_address_order() {
    let entries: Vec<(String, bool)> = vec![(s("a"), true), (s("b"), false), (s("c"), true), (s("d"), true), (s("e"), true)];
    assert_eq!(lp_holders(&entries, None, None).unwrap().holders, vec![s("a"), s("c"), s("d"), s("e")]);
    assert_eq!(lp_holders(&entries, Some(Ok(s("b"))), Some(2)).unwrap().holders, vec![s("c"), s("d")]);
    assert_eq!(lp_holders(&entries, Some(Ok(s("c"))), None).unwrap().holders, vec![s("d"), s("e")]);
    assert!(matches!(lp_holders(&entries, None, Some(0)).unwrap_err(), PspPoolError::InvalidPaginationLimit));
    let many: Vec<(String, bool)> = (0..300).map(|i| (format!("h{:03}", i), true)).collect();
    assert_eq!(lp_holders(&many, None, Some(1_000)).unwrap().holders.len(), 200);
}

#[test]
fn oldest_wait_in_days() {
    let entry = QueueEntry { user: s("u"), withdrawal_id: 0, requested_at: MONDAY };
    let r = oldest_queue_wait_days(0, 1, &Some(entry.clone()), MONDAY + 3 * 86_400 * NANOS + 5).unwrap();
    assert_eq!(r.days, Some(3));
    assert_eq!(oldest_queue_wait_days(1, 1, &Some(entry.clone()), MONDAY).unwrap().days, None);
    assert_eq!(oldest_queue_wait_days(0, 1, &None, MONDAY).unwrap().days, None);
    let e = oldest_queue_wait_days(0, 1, &Some(entry), MONDAY - NANOS).unwrap_err();
    assert!(matches!(e, PspPoolError::BlockTimeBeforeRequest { .. }));
}

#[test]
fn state_and_user_reports() {
    let r = pool_state_response(PoolState::WindingDown, None);
    assert_eq!(r.state, "WindingDown");
    assert!(!r.paused);
    assert_eq!(pool_state_response(PoolState::Active, Some(true)).state, "Active");
    let vault = VaultState { total_deposited: 1_100, total_lp_minted: 1_000, total_pending_withdrawals: 0 };
    let u = user_info_response(s("u"), 500, &vault, Some(UserInfo { deposit_timestamp: 9, lp_balance: 500 })).unwrap();
    assert_eq!(u.stablecoin_value, 550);
    assert_eq!(u.deposit_timestamp, 9);
    let list = pending_withdrawals(&vec![(3, PendingWithdrawal { queue_id: 1, amount: 5, requested_at: 0, release_time: 10 })], 10);
    assert_eq!(list.len(), 1);
    assert!(list[0].claimable);
    assert_eq!(list[0].id, 3);
}

#[test]
fn config_updates_keep_the_delay() {
    let (config, vault) = setup();
    let c = update_config(&s("admin"), &config, None, Some(Ok(s("admin2")))).unwrap();
    assert_eq!(c.admin, "admin2");
    assert_eq!(c.withdrawal_delay, 7_200);
    assert!(matches!(update_config(&s("admin"), &config, None, Some(Err(s("bad")))).unwrap_err(), PspPoolError::InvalidAddress { .. }));
    let (v, price) = admin_deposit_yield(&s("admin"), &config, &vault, &coins(10, "uzig"), 10, 0).unwrap();
    assert_eq!(v.total_deposited, 0);
    assert_eq!(price, "1.0");
}

#[test]
fn pool_instantiation_checks() {
    let e = instantiate("ab", 1, 7_200, s("uzig"), 1, None, s("a"), "p", Ok(s("r"))).unwrap_err();
    assert!(matches!(e, PspPoolError::InvalidSubdenom { .. }));
    let e = instantiate("lplp", 1, 7_200, s("uzig"), 1, None, s("a"), "p", Err(s("bad"))).unwrap_err();
    assert!(matches!(e, PspPoolError::InvalidAddress { .. }));
    let init = instantiate("lplp", 5, 7_200, s("uzig"), 1, Some(Ok(s("boss"))), s("a"), "p", Ok(s("r"))).unwrap();
    assert_eq!(init.config.admin, "boss");
    assert_eq!(init.config.lp_full_denom, "coin.p.lplp");
    assert_eq!(init.config.execution_amount, 5);
    assert_eq!(init.queue_head, 0);
    assert_eq!(init.queue_next, 0);
}

#[test]
fn a_requesters_ids_count_up_across_requests() {
    let (config, vault) = setup();
    let o = deposit(PoolState::Fundraising, &config, &vault, &coins(1_000, "uzig"), None, 0).unwrap();
    let lp = config.lp_full_denom.clone();
    let mut v = o.vault;
    let mut counter = None;
    let mut queue = 40;
    for k in 0..4u64 {
        let r = request_withdraw(PoolState::Active, MONDAY, &config, &coins(50, &lp), &v, counter, queue).unwrap();
        assert_eq!(r.withdrawal_id, k);
        assert_eq!(r.withdrawal.queue_id, 40 + k);
        v = r.vault;
        counter = Some(r.counter);
        queue = r.queue_next;
    }
    assert_eq!(counter, Some(WithdrawalCounter { next_id: 4 }));
    assert_eq!(queue, 44);
}
