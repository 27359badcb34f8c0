use defa_protocol::pool_factory::{wiring_calls, WiringCall};
use defa_protocol::pool_factory::{
    config_response, create_pool, instantiate, parse_reply_address, pool_response, pools_page, reply, set_code_ids,
    CodeIds, PendingPoolCreation, PoolFactoryError, PoolRecord, ReplyEvent, ReplyResult, ReplyStep,
    REPLY_ID_CREDIT_MANAGER, REPLY_ID_PSP_POOL, REPLY_ID_YIELD_DISTRIBUTOR, REPLY_ID_YIELD_RESERVE,
};

fn s(x: &str) -> String {
    x.to_string()
}

fn code_ids(a: u64, b: u64, c: u64, d: u64) -> CodeIds {
    CodeIds { psp_pool: a, credit_manager: b, yield_distributor: c, yield_reserve: d }
}

fn ok_reply(contract_address: &str) -> ReplyResult {
    ReplyResult::Succeeded {
        events: vec![ReplyEvent { attributes: vec![(s("_contract_address"), s(contract_address))] }],
    }
}

fn address_of(result: &ReplyResult) -> Result<String, PoolFactoryError> {
    parse_reply_address(result)
}

#[test]
fn only_admin_can_set_code_ids() {
    let config = instantiate(Ok(s("admin")), code_ids(11, 12, 13, 14)).unwrap();
    let err = set_code_ids(&s("not_admin"), &config, code_ids(101, 102, 103, 104)).unwrap_err();
    assert!(matches!(err, PoolFactoryError::Unauthorized { .. }));
    if let PoolFactoryError::Unauthorized { .. } = err {
    } else {
        panic!("Expected Unauthorized error");
    }
    let config = set_code_ids(&s("admin"), &config, code_ids(201, 202, 203, 204)).unwrap();
    let cfg = config_response(&config);
    assert_eq!(cfg.admin, "admin");
    assert_eq!(cfg.psp_pool_code_id, 201);
    assert_eq!(cfg.credit_manager_code_id, 202);
    assert_eq!(cfg.yield_distributor_code_id, 203);
    assert_eq!(cfg.yield_reserve_code_id, 204);
}

#[test]
fn create_pool_reply_chain_registers_pool() {
    let config = instantiate(Ok(s("admin")), code_ids(11, 12, 13, 14)).unwrap();
    let msg = br#"{}"#.to_vec();
    let created = create_pool(&s("admin"), &config, s("facility-a"), false, 0, 1_000, msg.clone(), msg.clone(), msg.clone(), msg.clone())
        .unwrap();
    assert_eq!(created.instantiate.code_id, 11);
    assert_eq!(created.instantiate.label, "facility-a-psp-pool-0");
    assert_eq!(created.next_pool_id, 1);

    let psp_pool = "psp_pool_0";
    let credit_manager = "credit_manager_0";
    let yield_distributor = "yield_distributor_0";
    let yield_reserve = "yield_reserve_0";

    let r1 = reply(Some(created.pending), &config, REPLY_ID_PSP_POOL, address_of(&ok_reply(psp_pool))).unwrap();
    let pending = match r1 {
        ReplyStep::InstantiateNext { pending, instantiate, inject_psp_pool } => {
            assert_eq!(instantiate.code_id, 12);
            assert_eq!(instantiate.label, "facility-a-credit-manager-0");
            assert_eq!(inject_psp_pool, Some(s(psp_pool)));
            pending
        },
        _ => panic!("expected the next instantiation"),
    };
    let r2 = reply(Some(pending), &config, REPLY_ID_CREDIT_MANAGER, address_of(&ok_reply(credit_manager))).unwrap();
    let pending = match r2 {
        ReplyStep::InstantiateNext { pending, instantiate, .. } => {
            assert_eq!(instantiate.code_id, 13);
            assert_eq!(instantiate.label, "facility-a-yield-distributor-0");
            pending
        },
        _ => panic!("expected the next instantiation"),
    };
    let r3 = reply(Some(pending), &config, REPLY_ID_YIELD_DISTRIBUTOR, address_of(&ok_reply(yield_distributor))).unwrap();
    let pending = match r3 {
        ReplyStep::InstantiateNext { pending, instantiate, .. } => {
            assert_eq!(instantiate.code_id, 14);
            assert_eq!(instantiate.label, "facility-a-yield-reserve-0");
            pending
        },
        _ => panic!("expected the next instantiation"),
    };
    let r4 = reply(Some(pending), &config, REPLY_ID_YIELD_RESERVE, address_of(&ok_reply(yield_reserve))).unwrap();
    let record = match r4 {
        ReplyStep::Completed { record } => record,
        _ => panic!("expected the pool to be registered"),
    };
    let pool = pool_response(&Some(record.clone())).pool.expect("pool should exist");
    assert_eq!(pool.pool_id, 0);
    assert_eq!(pool.psp_pool, psp_pool);
    assert_eq!(pool.credit_manager, credit_manager);
    assert_eq!(pool.yield_distributor, yield_distributor);
    assert_eq!(pool.yield_reserve, yield_reserve);
    assert_eq!(pool.created_at, 1_000);

    let pools = pools_page(&vec![record], None, Some(10)).unwrap();
    assert_eq!(pools.pools.len(), 1);
    assert_eq!(config_response(&config).admin, "admin");
}

#[test]
fn create_pool_rejects_empty_label_prefix() {
    let config = instantiate(Ok(s("admin")), code_ids(11, 12, 13, 14)).unwrap();
    let msg = br#"{}"#.to_vec();
    let err = create_pool(&s("admin"), &config, s("   "), false, 0, 0, msg.clone(), msg.clone(), msg.clone(), msg).unwrap_err();
    assert!(matches!(err, PoolFactoryError::InvalidLabelPrefix {}));
}

#[test]
fn create_pool_refusals() {
    let config = instantiate(Ok(s("admin")), code_ids(1, 2, 3, 4)).unwrap();
    let m: Vec<u8> = vec![];
    let e = create_pool(&s("x"), &config, s("p"), false, 0, 0, m.clone(), m.clone(), m.clone(), m.clone()).unwrap_err();
    assert!(matches!(e, PoolFactoryError::Unauthorized { .. }));
    let e = create_pool(&s("admin"), &config, s("\t\n\u{3000}"), false, 0, 0, m.clone(), m.clone(), m.clone(), m.clone()).unwrap_err();
    assert!(matches!(e, PoolFactoryError::InvalidLabelPrefix));
    let e = create_pool(&s("admin"), &config, s("p"), true, 0, 0, m.clone(), m.clone(), m.clone(), m.clone()).unwrap_err();
    assert!(matches!(e, PoolFactoryError::PendingCreationInProgress));
    let e = create_pool(&s("admin"), &config, s("p"), false, u64::MAX, 0, m.clone(), m.clone(), m.clone(), m.clone()).unwrap_err();
    assert!(matches!(e, PoolFactoryError::NextPoolIdOverflow));
    let ok = create_pool(&s("admin"), &config, s(" p "), false, 41, 0, m.clone(), m.clone(), m.clone(), m).unwrap();
    assert_eq!(ok.instantiate.label, " p -psp-pool-41");
    assert_eq!(ok.pending.pool_id, 41);
}

#[test]
fn reply_refusals() {
    let config = instantiate(Ok(s("admin")), code_ids(1, 2, 3, 4)).unwrap();
    let e = reply(None, &config, 1, Ok(s("a"))).unwrap_err();
    assert!(matches!(e, PoolFactoryError::PendingCreationNotFound));
    let pending = PendingPoolCreation {
        pool_id: 0,
        label_prefix: s("p"),
        created_at: 0,
        psp_pool_init_msg: vec![],
        credit_manager_init_msg: vec![],
        yield_distributor_init_msg: vec![],
        yield_reserve_init_msg: vec![],
        psp_pool: None,
        credit_manager: None,
        yield_distributor: None,
    };
    let e = reply(Some(pending.clone()), &config, 9, Ok(s("a"))).unwrap_err();
    assert!(matches!(e, PoolFactoryError::InvalidReplyId { reply_id: 9 }));
    let e = reply(Some(pending.clone()), &config, 4, Ok(s("a"))).unwrap_err();
    assert!(matches!(e, PoolFactoryError::IncompletePendingCreation));
    let e = reply(Some(pending), &config, 2, Err(PoolFactoryError::MissingReplyAddress)).unwrap_err();
    assert!(matches!(e, PoolFactoryError::MissingReplyAddress));
}

#[test]
fn reply_address_is_the_first_contract_address_attribute() {
    let result = ReplyResult::Succeeded {
        events: vec![
            ReplyEvent { attributes: vec![(s("code_id"), s("3"))] },
            ReplyEvent { attributes: vec![(s("other"), s("x")), (s("_contract_address"), s("first")), (s("_contract_address"), s("second"))] },
            ReplyEvent { attributes: vec![(s("_contract_address"), s("third"))] },
        ],
    };
    assert_eq!(parse_reply_address(&result).unwrap(), "first");
    let none = ReplyResult::Succeeded { events: vec![ReplyEvent { attributes: vec![(s("k"), s("v"))] }] };
    assert!(matches!(parse_reply_address(&none).unwrap_err(), PoolFactoryError::MissingReplyAddress));
    let failed = ReplyResult::Failed { reason: s("out of gas") };
    match parse_reply_address(&failed).unwrap_err() {
        PoolFactoryError::SubMsgFailed { reason } => assert_eq!(reason, "out of gas"),
        other => panic!("unexpected {:?}", other),
    }
}

#[test]
fn pools_are_paged() {
    let records: Vec<PoolRecord> = (0..60u64)
        .map(|i| PoolRecord {
            pool_id: i,
            psp_pool: s("a"),
            credit_manager: s("b"),
            yield_distributor: s("c"),
            yield_reserve: s("d"),
            created_at: i,
        })
        .collect();
    assert_eq!(pools_page(&records, None, None).unwrap().pools.len(), 20);
    assert_eq!(pools_page(&records, None, Some(80)).unwrap().pools.len(), 50);
    let page = pools_page(&records, Some(57), Some(10)).unwrap();
    assert_eq!(page.pools.iter().map(|p| p.pool_id).collect::<Vec<_>>(), vec![58, 59]);
    assert!(matches!(pools_page(&records, None, Some(0)).unwrap_err(), PoolFactoryError::InvalidPaginationLimit));
    assert!(pool_response(&None).pool.is_none());
}

#[test]
fn a_completed_pool_is_wired_together() {
    let record = PoolRecord {
        pool_id: 3,
        psp_pool: s("pool"),
        credit_manager: s("cm"),
        yield_distributor: s("yd"),
        yield_reserve: s("yr"),
        created_at: 9,
    };
    let calls = wiring_calls(&record);
    assert_eq!(calls.len(), 4);
    assert!(matches!(&calls[0], WiringCall::PspPoolSetCreditManager { contract, credit_manager }
        if contract == "pool" && credit_manager == "cm"));
    assert!(matches!(&calls[1], WiringCall::CreditManagerUpdateWiring { contract, psp_pool, yield_reserve }
        if contract == "cm" && psp_pool == "pool" && yield_reserve == "yr"));
    assert!(matches!(&calls[2], WiringCall::YieldDistributorUpdateWiring { contract, psp_pool, yield_reserve }
        if contract == "yd" && psp_pool == "pool" && yield_reserve == "yr"));
    assert!(matches!(&calls[3], WiringCall::YieldReserveUpdateWiring { contract, credit_manager, yield_distributor }
        if contract == "yr" && credit_manager == "cm" && yield_distributor == "yd"));
}
