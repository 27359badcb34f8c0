use defa_protocol::psp_pool::{vault_info, SubdenomProblem};
use defa_protocol::shares::VaultState;
use defa_protocol::token_vault::{
    admin_deposit_yield, admin_withdraw, claim_withdraw, deposit, instantiate, request_withdraw, update_config,
    withdrawal_info, Config, TokenVaultError,
};
use defa_protocol::types::Fund;
use defa_protocol::vault::VaultError;

const NOW: u64 = 1_571_797_419_879_305_533;

fn s(x: &str) -> String {
    x.to_string()
}

fn coins(amount: u128, denom: &str) -> Vec<Fund> {
    vec![Fund { denom: s(denom), amount }]
}

fn setup(delay: u64) -> (Config, VaultState) {
    instantiate("lplp", 1_000_000_000, delay, s("uzig"), None, s("creator"), "cosmos2contract").unwrap()
}

#[test]
fn proper_initialization() {
    let (config, vault) = instantiate("lplp", 1_000_000_000, 172_800, s("uzig"), None, s("creator"), "cosmos2contract").unwrap();
    assert_eq!("uzig", config.stablecoin_denom);
    assert!(config.lp_full_denom.contains("lplp"));
    assert_eq!(config.lp_full_denom, "coin.cosmos2contract.lplp");
    assert_eq!(config.admin, "creator");
    assert_eq!(172_800, config.withdrawal_delay);
    assert_eq!(vault.total_deposited, 0);
}

#[test]
fn test_invalid_subdenom() {
    let err = instantiate("ab", 1_000_000, 120, s("uzig"), None, s("creator"), "c").unwrap_err();
    assert!(matches!(err, TokenVaultError::InvalidSubdenom { .. }));
    let err = instantiate("ABC", 1_000_000, 120, s("uzig"), None, s("creator"), "c").unwrap_err();
    assert!(matches!(err, TokenVaultError::InvalidSubdenom { .. }));
}

#[test]
fn test_zero_minting_cap() {
    let err = instantiate("lplp", 0, 120, s("uzig"), None, s("creator"), "c").unwrap_err();
    assert!(matches!(err, TokenVaultError::InvalidMintingCap {}));
}

#[test]
fn test_withdrawal_delay_validation() {
    let err = instantiate("lplp", 1_000_000, 100, s("uzig"), None, s("creator"), "c").unwrap_err();
    assert!(matches!(err, TokenVaultError::InvalidWithdrawalDelay { .. }));
    let err = instantiate("lplp", 1_000_000, 10_000_000, s("uzig"), None, s("creator"), "c").unwrap_err();
    assert!(matches!(err, TokenVaultError::InvalidWithdrawalDelay { .. }));
    let (config, _) = instantiate("lplp", 1_000_000, 120, s("uzig"), None, s("creator"), "c").unwrap();
    assert_eq!(120, config.withdrawal_delay);
    let (config, _) = instantiate("lplp", 1_000_000, 86400, s("uzig"), None, s("creator"), "c").unwrap();
    assert_eq!(86400, config.withdrawal_delay);
}

#[test]
fn test_time_locked_withdrawal_flow() {
    let custom_delay = 7200;
    let (config, vault) = setup(custom_delay);
    let lp_denom = config.lp_full_denom.clone();
    assert_eq!(custom_delay, config.withdrawal_delay);

    let (vault, amount, lp) = deposit(&config, &vault, &coins(1000, "uzig")).unwrap();
    assert_eq!(amount, 1000);
    assert_eq!(lp, 1000);

    let req = request_withdraw(&config, &vault, &coins(500, &lp_denom), None, NOW).unwrap();
    let vault = req.vault;
    let info = vault_info(&vault).unwrap();
    assert_eq!(500, info.total_pending_withdrawals);

    assert_eq!(req.withdrawal_id, 0);
    let pending = req.withdrawal;
    assert_eq!(500, pending.amount);
    assert!(NOW < pending.release_time);

    let err = claim_withdraw(&s("user"), &config, &vault, &vec![], Some(pending), NOW, 0).unwrap_err();
    assert!(matches!(err, TokenVaultError::Vault(VaultError::WithdrawalLocked { .. })));

    let later = NOW + custom_delay * 1_000_000_000;
    let err = claim_withdraw(&s("user"), &config, &vault, &vec![], Some(pending), later, 0).unwrap_err();
    assert!(matches!(err, TokenVaultError::Vault(VaultError::InsufficientContractBalance { .. })));

    let info = vault_info(&vault).unwrap();
    assert_eq!(500, info.total_pending_withdrawals);
    assert_eq!(1000, info.total_deposited);
}

#[test]
fn test_adversarial_rounding_deposit() {
    let (config, vault) = setup(120);
    let (vault, _, _) = deposit(&config, &vault, &coins(1, "uzig")).unwrap();
    let (vault, _) = admin_deposit_yield(&s("creator"), &config, &vault, &coins(999, "uzig"), 0, 999).unwrap();
    let err = deposit(&config, &vault, &coins(999, "uzig")).unwrap_err();
    match err {
        TokenVaultError::Vault(VaultError::DepositTooSmall) => {},
        _ => panic!("Expected 'Deposit too small', got {:?}", err),
    }
}

#[test]
fn test_admin_yield_negative_scenario() {
    let (config, vault) = setup(120);
    let (vault, _, _) = deposit(&config, &vault, &coins(1000, "uzig")).unwrap();
    let (vault, _) = admin_deposit_yield(&s("creator"), &config, &vault, &coins(1500, "uzig"), 1000, 500).unwrap();
    let info = vault_info(&vault).unwrap();
    assert_eq!(1500, info.total_deposited);
    assert_eq!("1.500000", info.price_per_share);
}

#[test]
fn test_admin_deposit_yield_success() {
    let (config, vault) = setup(120);
    let (vault, _, _) = deposit(&config, &vault, &coins(1000, "uzig")).unwrap();
    let info = vault_info(&vault).unwrap();
    assert_eq!(1000, info.total_deposited);
    assert_eq!(1000, info.total_lp_supply);
    assert_eq!("1.000000", info.price_per_share);

    let old_total = vault.total_deposited;
    let (vault, price) = admin_deposit_yield(&s("creator"), &config, &vault, &coins(100, "uzig"), 0, 100).unwrap();
    assert_eq!(1000, old_total);
    assert_eq!(1100, vault.total_deposited);
    assert_eq!("1.100000", price);

    let info = vault_info(&vault).unwrap();
    assert_eq!(1100, info.total_deposited);
    assert_eq!(1000, info.total_lp_supply);
    assert_eq!("1.100000", info.price_per_share);
}

#[test]
fn test_admin_deposit_yield_unauthorized() {
    let (config, vault) = setup(120);
    let err = admin_deposit_yield(&s("attacker"), &config, &vault, &coins(100, "uzig"), 0, 100).unwrap_err();
    assert!(matches!(err, TokenVaultError::Unauthorized {}));
}

#[test]
fn test_admin_deposit_yield_wrong_denom() {
    let (config, vault) = setup(120);
    let err = admin_deposit_yield(&s("creator"), &config, &vault, &coins(100, "wrongtoken"), 0, 100).unwrap_err();
    assert!(matches!(err, TokenVaultError::Vault(VaultError::NoStablecoinSent {})));
}

#[test]
fn test_admin_deposit_yield_zero_amount() {
    let (config, vault) = setup(120);
    let err = admin_deposit_yield(&s("creator"), &config, &vault, &coins(0, "uzig"), 0, 0).unwrap_err();
    assert!(matches!(err, TokenVaultError::Vault(VaultError::InvalidZeroAmount {})));
}

#[test]
fn test_admin_deposit_yield_multiple_deposits() {
    let (config, vault) = setup(120);
    let (vault, _, _) = deposit(&config, &vault, &coins(1000, "uzig")).unwrap();
    let (vault, _) = admin_deposit_yield(&s("creator"), &config, &vault, &coins(50, "uzig"), 0, 50).unwrap();
    let info = vault_info(&vault).unwrap();
    assert_eq!(1050, info.total_deposited);
    assert_eq!("1.050000", info.price_per_share);
    let (vault, _) = admin_deposit_yield(&s("creator"), &config, &vault, &coins(100, "uzig"), 0, 100).unwrap();
    let info = vault_info(&vault).unwrap();
    assert_eq!(1150, info.total_deposited);
    assert_eq!("1.150000", info.price_per_share);
    assert_eq!(1000, info.total_lp_supply);
}

#[test]
fn test_admin_deposit_yield_no_lp_holders() {
    let (config, vault) = setup(120);
    let (vault, price) = admin_deposit_yield(&s("creator"), &config, &vault, &coins(100, "uzig"), 0, 100).unwrap();
    assert_eq!("1.0", price);
    let info = vault_info(&vault).unwrap();
    assert_eq!(100, info.total_deposited);
    assert_eq!(0, info.total_lp_supply);
    assert_eq!("1.0", info.price_per_share);
}

#[test]
fn claim_after_the_delay_pays_the_locked_amount() {
    let (config, vault) = setup(120);
    let (vault, _, _) = deposit(&config, &vault, &coins(1000, "uzig")).unwrap();
    let req = request_withdraw(&config, &vault, &coins(400, &config.lp_full_denom), None, NOW).unwrap();
    let later = NOW + 120 * 1_000_000_000;
    let (vault, transfer) = claim_withdraw(&s("user"), &config, &req.vault, &vec![], Some(req.withdrawal), later, 1000).unwrap();
    assert_eq!(transfer.to_address, "user");
    assert_eq!(transfer.amount, 400);
    assert_eq!(vault.total_deposited, 600);
    assert_eq!(vault.total_pending_withdrawals, 0);
    assert_eq!(vault.total_lp_minted, 600);
    let info = withdrawal_info(0, &req.withdrawal, later);
    assert!(info.claimable);
    assert!(!withdrawal_info(0, &req.withdrawal, later - 1).claimable);
}

#[test]
fn withdrawal_ids_count_per_user() {
    let (config, vault) = setup(120);
    let (vault, _, _) = deposit(&config, &vault, &coins(1000, "uzig")).unwrap();
    let first = request_withdraw(&config, &vault, &coins(100, &config.lp_full_denom), None, NOW).unwrap();
    let second = request_withdraw(&config, &first.vault, &coins(100, &config.lp_full_denom), Some(first.counter), NOW).unwrap();
    assert_eq!(first.withdrawal_id, 0);
    assert_eq!(second.withdrawal_id, 1);
    assert_eq!(second.counter.next_id, 2);
}

#[test]
fn deposit_and_request_refusals() {
    let (config, vault) = setup(120);
    let two = vec![Fund { denom: s("uzig"), amount: 1 }, Fund { denom: s("uzig"), amount: 1 }];
    assert!(matches!(deposit(&config, &vault, &two).unwrap_err(), TokenVaultError::Vault(VaultError::MustSendExactlyOneToken)));
    assert!(matches!(deposit(&config, &vault, &coins(0, "uzig")).unwrap_err(), TokenVaultError::Vault(VaultError::InvalidZeroAmount)));
    assert!(matches!(
        request_withdraw(&config, &vault, &coins(5, "uzig"), None, NOW).unwrap_err(),
        TokenVaultError::Vault(VaultError::NoLpTokensSent)
    ));
    assert!(matches!(
        request_withdraw(&config, &vault, &coins(5, &config.lp_full_denom), None, NOW).unwrap_err(),
        TokenVaultError::Vault(VaultError::LpExceedsSupply)
    ));
    assert!(matches!(
        claim_withdraw(&s("u"), &config, &vault, &coins(1, "uzig"), None, NOW, 0).unwrap_err(),
        TokenVaultError::Vault(VaultError::DoNotSendFundsWhenClaiming)
    ));
    assert!(matches!(
        claim_withdraw(&s("u"), &config, &vault, &vec![], None, NOW, 0).unwrap_err(),
        TokenVaultError::Vault(VaultError::WithdrawalNotFound)
    ));
}

#[test]
fn admin_operations() {
    let (config, _) = setup(120);
    let t = admin_withdraw(&s("creator"), &config, &vec![], 10, 100).unwrap();
    assert_eq!(t.to_address, "creator");
    assert_eq!(t.amount, 10);
    assert!(matches!(admin_withdraw(&s("creator"), &config, &vec![], 101, 100).unwrap_err(),
        TokenVaultError::Vault(VaultError::InsufficientContractBalance { available: 100, required: 101 })));
    assert!(matches!(admin_withdraw(&s("x"), &config, &vec![], 1, 100).unwrap_err(), TokenVaultError::Unauthorized));
    let c = update_config(&s("creator"), &config, Some(s("uusd")), Some(Ok(s("new_admin")))).unwrap();
    assert_eq!(c.stablecoin_denom, "uusd");
    assert_eq!(c.admin, "new_admin");
    assert_eq!(c.withdrawal_delay, 120);
    let err = admin_deposit_yield(&s("creator"), &config, &VaultState { total_deposited: 0, total_lp_minted: 0, total_pending_withdrawals: 0 },
        &coins(10, "uzig"), 5, 6).unwrap_err();
    assert!(matches!(err, TokenVaultError::Vault(VaultError::AmountMismatch { sent: 10, principal: 5, yield_amount: 6, expected: 11 })));
}

#[test]
fn subdenom_problems_are_named() {
    assert!(matches!(
        instantiate("abcdefghijklmnopqrstuvwxyzabcdefghijklmnopqrs", 1, 120, s("u"), None, s("c"), "c").unwrap_err(),
        TokenVaultError::InvalidSubdenom { reason: SubdenomProblem::Length }
    ));
    assert!(matches!(
        instantiate("9ab", 1, 120, s("u"), None, s("c"), "c").unwrap_err(),
        TokenVaultError::InvalidSubdenom { reason: SubdenomProblem::NotLowercaseStart }
    ));
}
