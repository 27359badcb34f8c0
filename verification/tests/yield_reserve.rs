use defa_protocol::types::Fund;
use defa_protocol::yield_reserve::{
    accounted_available, accounting, admin_top_up, claim_protocol_revenue, disburse, instantiate,
    protocol_revenue_claimable, receive_from, update_wiring, Config, ReserveLedger, ReserveShortfall,
    YieldReserveError,
};

fn s(x: &str) -> String {
    x.to_string()
}

fn coins(amount: u128, denom: &str) -> Vec<Fund> {
    vec![Fund { denom: s(denom), amount }]
}

fn setup() -> (Config, ReserveLedger) {
    instantiate(Ok(s("admin")), Ok(s("credit_manager")), Ok(s("yield_distributor")), s("uzig"), Ok(s("psp_pool"))).unwrap()
}

#[test]
fn only_credit_manager_can_receive_from() {
    let (config, ledger) = setup();
    let err = receive_from(&s("not_credit_manager"), &config, &coins(100, "uzig"), 100, &ledger).unwrap_err();
    assert!(matches!(err, YieldReserveError::CreditManagerOnly {}));
}

#[test]
fn receive_disburse_and_claim_update_accounting() {
    let (config, ledger) = setup();
    let balance = 10_000u128;
    let ledger = receive_from(&s("credit_manager"), &config, &coins(500, "uzig"), 500, &ledger).unwrap();
    let ledger = admin_top_up(&s("admin"), &config, &coins(300, "uzig"), 300, &ledger).unwrap();
    let (ledger, transfer) = disburse(&s("yield_distributor"), &config, &vec![], Ok(s("lp1")), 400, &ledger, balance).unwrap();
    assert_eq!(transfer.to_address, "lp1");
    assert_eq!(transfer.amount, 400);

    let claimable = protocol_revenue_claimable(&ledger).unwrap();
    assert_eq!(claimable, 100);

    let (ledger, claim) = claim_protocol_revenue(&s("admin"), &config, &vec![], &s("Settled"), &ledger, None, balance - 400).unwrap();
    assert_eq!(claim.to_address, "admin");
    assert_eq!(claim.amount, 100);

    let acc = accounting(&ledger).unwrap();
    assert_eq!(acc.fees_collected, 500);
    assert_eq!(acc.admin_topups, 300);
    assert_eq!(acc.lp_yield_disbursed, 400);
    assert_eq!(acc.protocol_revenue_claimed, 100);
    assert_eq!(acc.protocol_revenue_claimable, 0);
    assert_eq!(acc.accounted_available_balance, 300);
}

#[test]
fn cannot_claim_more_than_protocol_revenue() {
    let (config, ledger) = setup();
    let ledger = receive_from(&s("credit_manager"), &config, &coins(200, "uzig"), 200, &ledger).unwrap();
    let (ledger, _) = disburse(&s("yield_distributor"), &config, &vec![], Ok(s("lp1")), 150, &ledger, 1_000).unwrap();
    let err = claim_protocol_revenue(&s("admin"), &config, &vec![], &s("Settled"), &ledger, Some(100), 850).unwrap_err();
    assert!(matches!(err, YieldReserveError::ClaimAmountExceedsClaimable { .. }));
}

#[test]
fn claim_waits_for_settlement() {
    let (config, ledger) = setup();
    let ledger = receive_from(&s("credit_manager"), &config, &coins(200, "uzig"), 200, &ledger).unwrap();
    let err = claim_protocol_revenue(&s("admin"), &config, &vec![], &s("Active"), &ledger, None, 1_000).unwrap_err();
    assert!(matches!(err, YieldReserveError::LpObligationsNotSettled));
    let (_, t) = claim_protocol_revenue(&s("admin"), &config, &vec![], &s("Closed"), &ledger, None, 1_000).unwrap();
    assert_eq!(t.amount, 200);
}

#[test]
fn claim_refusals() {
    let (config, ledger) = setup();
    let err = claim_protocol_revenue(&s("x"), &config, &vec![], &s("Settled"), &ledger, None, 0).unwrap_err();
    assert!(matches!(err, YieldReserveError::Unauthorized { .. }));
    let err = claim_protocol_revenue(&s("admin"), &config, &coins(1, "uzig"), &s("Settled"), &ledger, None, 0).unwrap_err();
    assert!(matches!(err, YieldReserveError::UnexpectedFunds));
    let err = claim_protocol_revenue(&s("admin"), &config, &vec![], &s("Settled"), &ledger, None, 0).unwrap_err();
    assert!(matches!(err, YieldReserveError::NoProtocolRevenue));
    let ledger = receive_from(&s("credit_manager"), &config, &coins(50, "uzig"), 50, &ledger).unwrap();
    let err = claim_protocol_revenue(&s("admin"), &config, &vec![], &s("Settled"), &ledger, Some(0), 100).unwrap_err();
    assert!(matches!(err, YieldReserveError::InvalidZeroAmount));
    let err = claim_protocol_revenue(&s("admin"), &config, &vec![], &s("Settled"), &ledger, None, 10).unwrap_err();
    assert!(matches!(err, YieldReserveError::InsufficientContractBalance { available: 10, required: 50 }));
}

#[test]
fn disburse_refusals() {
    let (config, ledger) = setup();
    let err = disburse(&s("admin"), &config, &vec![], Ok(s("lp")), 1, &ledger, 10).unwrap_err();
    assert!(matches!(err, YieldReserveError::YieldDistributorOnly));
    let err = disburse(&s("yield_distributor"), &config, &vec![], Ok(s("lp")), 0, &ledger, 10).unwrap_err();
    assert!(matches!(err, YieldReserveError::InvalidZeroAmount));
    let err = disburse(&s("yield_distributor"), &config, &coins(1, "uzig"), Ok(s("lp")), 1, &ledger, 10).unwrap_err();
    assert!(matches!(err, YieldReserveError::UnexpectedFunds));
    let err = disburse(&s("yield_distributor"), &config, &vec![], Err(s("bad")), 1, &ledger, 10).unwrap_err();
    assert!(matches!(err, YieldReserveError::InvalidAddress { .. }));
    let err = disburse(&s("yield_distributor"), &config, &vec![], Ok(s("lp")), 1, &ledger, 10).unwrap_err();
    assert!(matches!(err, YieldReserveError::InsufficientAccountedBalance { available: 0, required: 1 }));
    let ledger = admin_top_up(&s("admin"), &config, &coins(5, "uzig"), 5, &ledger).unwrap();
    let err = disburse(&s("yield_distributor"), &config, &vec![], Ok(s("lp")), 5, &ledger, 4).unwrap_err();
    assert!(matches!(err, YieldReserveError::InsufficientContractBalance { available: 4, required: 5 }));
}

#[test]
fn inflows_need_the_exact_coin() {
    let (config, ledger) = setup();
    let err = receive_from(&s("credit_manager"), &config, &coins(99, "uzig"), 100, &ledger).unwrap_err();
    assert!(matches!(err, YieldReserveError::InvalidFunds { .. }));
    let err = receive_from(&s("credit_manager"), &config, &coins(100, "uusd"), 100, &ledger).unwrap_err();
    assert!(matches!(err, YieldReserveError::InvalidFunds { .. }));
    let err = receive_from(&s("credit_manager"), &config, &coins(0, "uzig"), 0, &ledger).unwrap_err();
    assert!(matches!(err, YieldReserveError::InvalidZeroAmount));
    let err = admin_top_up(&s("x"), &config, &coins(1, "uzig"), 1, &ledger).unwrap_err();
    assert!(matches!(err, YieldReserveError::Unauthorized { .. }));
}

#[test]
fn accounting_reports_underflow() {
    let ledger = ReserveLedger { fees_collected: 10, admin_topups: 0, lp_yield_disbursed: 20, protocol_revenue_claimed: 0 };
    assert!(matches!(
        protocol_revenue_claimable(&ledger).unwrap_err(),
        YieldReserveError::AccountingUnderflow { context: ReserveShortfall::FeesMinusDisbursed }
    ));
    assert!(matches!(
        accounted_available(&ledger).unwrap_err(),
        YieldReserveError::AccountingUnderflow { context: ReserveShortfall::InflowsMinusOutflows }
    ));
    let topped = ReserveLedger { admin_topups: 15, ..ledger };
    assert_eq!(accounted_available(&topped).unwrap(), 5);
}

#[test]
fn wiring_needs_admin_and_no_funds() {
    let (config, _) = setup();
    let c = update_wiring(&s("admin"), &config, &vec![], Some(Ok(s("cm2"))), None).unwrap();
    assert_eq!(c.credit_manager, "cm2");
    assert_eq!(c.yield_distributor, "yield_distributor");
    let err = update_wiring(&s("admin"), &config, &coins(1, "uzig"), None, None).unwrap_err();
    assert!(matches!(err, YieldReserveError::UnexpectedFunds));
}
