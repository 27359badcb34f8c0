//! Action sequences run on the vault model and on an independent reference model
//! of share accounting, which must agree.

use std::collections::HashMap;

use defa_protocol::mock_vault::{
    execute_admin_deposit_yield, execute_admin_withdraw, execute_deposit, execute_withdraw, query_lp_balance,
    setup_vault,
};

#[derive(Debug, Clone)]
struct ReferenceVault {
    total_assets: u128,
    total_shares: u128,
    user_shares: HashMap<String, u128>,
    admin_withdrawn: u128,
    contract_balance: u128,
}

impl ReferenceVault {
    fn new() -> Self {
        ReferenceVault {
            total_assets: 0,
            total_shares: 0,
            user_shares: HashMap::new(),
            admin_withdrawn: 0,
            contract_balance: 0,
        }
    }

    fn checked_mul_div(a: u128, b: u128, c: u128) -> Option<u128> {
        if c == 0 {
            return None;
        }
        a.checked_mul(b)?.checked_div(c)
    }

    fn preview_deposit(&self, assets: u128) -> u128 {
        if self.total_shares == 0 || self.total_assets == 0 {
            assets
        } else {
            Self::checked_mul_div(assets, self.total_shares, self.total_assets).unwrap_or_default()
        }
    }

    fn preview_redeem(&self, shares: u128) -> u128 {
        if self.total_shares == 0 {
            return 0;
        }
        Self::checked_mul_div(shares, self.total_assets, self.total_shares).unwrap_or_default()
    }

    fn deposit(&mut self, user: &str, assets: u128) -> Result<u128, String> {
        if assets == 0 {
            return Err("Zero deposit".to_string());
        }
        let shares = self.preview_deposit(assets);
        if shares == 0 {
            return Err("Deposit too small - would mint zero shares".to_string());
        }
        self.total_assets = self.total_assets.checked_add(assets).ok_or("Overflow on total_assets")?;
        self.contract_balance = self.contract_balance.checked_add(assets).ok_or("Overflow on contract_balance")?;
        self.total_shares = self.total_shares.checked_add(shares).ok_or("Overflow on total_shares")?;
        *self.user_shares.entry(user.to_string()).or_insert(0) += shares;
        Ok(shares)
    }

    fn withdraw(&mut self, user: &str, shares: u128) -> Result<u128, String> {
        if shares == 0 {
            return Err("Zero withdrawal".to_string());
        }
        let user_balance = self.user_shares.get(user).copied().unwrap_or(0);
        if shares > user_balance {
            return Err(format!("Insufficient shares: has {}, tried {}", user_balance, shares));
        }
        let assets = self.preview_redeem(shares);
        let available_balance = self.contract_balance;
        if assets > available_balance.saturating_add(10) {
            return Err(format!("Insufficient contract balance: need {}, available {}", assets, available_balance));
        }
        self.total_assets = self.total_assets.checked_sub(assets).ok_or("Underflow on total_assets")?;
        self.contract_balance = self.contract_balance.checked_sub(assets).ok_or("Underflow on contract_balance")?;
        self.total_shares = self.total_shares.checked_sub(shares).ok_or("Underflow on total_shares")?;
        *self.user_shares.get_mut(user).unwrap() -= shares;
        Ok(assets)
    }

    fn admin_withdraw(&mut self, amount: u128) -> Result<(), String> {
        if amount == 0 {
            return Err("Zero withdrawal".to_string());
        }
        if amount > self.contract_balance {
            return Err(format!("Insufficient vault balance: need {}, available {}", amount, self.contract_balance));
        }
        if amount > self.total_assets {
            return Err(format!("Insufficient accounted assets: need {}, total_assets {}", amount, self.total_assets));
        }
        self.admin_withdrawn = self.admin_withdrawn.checked_add(amount).ok_or("Overflow on admin_withdrawn")?;
        self.contract_balance = self.contract_balance.checked_sub(amount).ok_or("Underflow on contract_balance")?;
        Ok(())
    }

    fn admin_deposit_yield(&mut self, principal: u128, yield_amount: u128) -> Result<(), String> {
        if principal == 0 && yield_amount == 0 {
            return Err("Both amounts zero".to_string());
        }
        if self.total_shares == 0 {
            return Err("Cannot add yield to empty vault".to_string());
        }
        self.total_assets = self.total_assets.checked_add(yield_amount).ok_or("Overflow on total_assets")?;
        self.admin_withdrawn = self.admin_withdrawn.saturating_sub(principal.min(self.admin_withdrawn));
        let total_inflow = principal.checked_add(yield_amount).ok_or("Overflow on principal+yield")?;
        self.contract_balance = self.contract_balance.checked_add(total_inflow).ok_or("Overflow on contract_balance")?;
        Ok(())
    }
}

#[test]
fn debug_latest_fail() {
    let mut vault = setup_vault(120);
    let mut reference = ReferenceVault::new();

    execute_deposit(&mut vault, "user_b", 2337169).unwrap();
    reference.deposit("user_b", 2337169).unwrap();

    execute_deposit(&mut vault, "user_a", 1000000).unwrap();
    reference.deposit("user_a", 1000000).unwrap();

    let v3 = execute_admin_deposit_yield(&mut vault, 817438, 1523898);
    let r3 = reference.admin_deposit_yield(817438, 1523898);
    println!("Vault result: {:?}", v3);
    println!("Ref result: {:?}", r3);

    let v4 = execute_admin_withdraw(&mut vault, 4861068);
    let r4 = reference.admin_withdraw(4861068);
    println!("Vault result: {:?}", v4);
    println!("Ref result: {:?}", r4);

    let shares = query_lp_balance(&vault, "user_a");
    println!("User A shares: {}", shares);

    let v5 = execute_withdraw(&mut vault, "user_a", shares);
    let r5 = reference.withdraw("user_a", shares);
    println!("Vault result: {:?}", v5);
    println!("Ref result: {:?}", r5);
    println!(
        "Vault: dep={}, shares={}, balance={}, pending={}",
        vault.total_deposited, vault.total_lp_supply, vault.stablecoin_balance, vault.total_pending_withdrawals
    );
    println!("Ref: assets={}, shares={}, withdrawn={}", reference.total_assets, reference.total_shares, reference.admin_withdrawn);

    match (v5, r5) {
        (Ok(_), Ok(_)) => println!("Both succeeded"),
        (Err(_), Err(_)) => println!("Both failed"),
        (Ok(_), Err(_)) => panic!("Vault succeeded but Reference failed!"),
        (Err(_), Ok(_)) => panic!("Vault failed but Reference succeeded!"),
    }
}

#[test]
fn debug_new_failing_sequence() {
    let mut vault = setup_vault(120);
    let mut reference = ReferenceVault::new();

    let v_shares = execute_deposit(&mut vault, "attacker", 7767033).unwrap();
    let r_shares = reference.deposit("attacker", 7767033).unwrap();
    println!("Vault shares: {}, Reference shares: {}", v_shares, r_shares);

    execute_admin_withdraw(&mut vault, 1000000).unwrap();
    reference.admin_withdraw(1000000).unwrap();

    let shares = query_lp_balance(&vault, "attacker");
    println!("Attacker shares: {}", shares);

    let v_result = execute_withdraw(&mut vault, "attacker", shares);
    let r_result = reference.withdraw("attacker", shares);
    println!("Vault result: {:?}", v_result);
    println!("Reference result: {:?}", r_result);

    let v_shares = execute_deposit(&mut vault, "user_b", 1000000).unwrap();
    let r_shares = reference.deposit("user_b", 1000000).unwrap();
    println!("Vault shares: {}, Reference shares: {}", v_shares, r_shares);

    let v_shares = execute_deposit(&mut vault, "user_a", 1000000).unwrap();
    let r_shares = reference.deposit("user_a", 1000000).unwrap();
    println!("Vault shares: {}, Reference shares: {}", v_shares, r_shares);
    assert_eq!(v_shares, r_shares, "Action 5 shares diverged!");
}

#[test]
fn debug_failing_sequence() {
    let mut vault = setup_vault(120);
    let mut reference = ReferenceVault::new();

    for _ in 0..2 {
        let vault_result = execute_admin_deposit_yield(&mut vault, 0, 0);
        let ref_result = reference.admin_deposit_yield(0, 0);
        println!("Vault result: {:?}", vault_result);
        println!("Reference result: {:?}", ref_result);
    }

    let vault_result = execute_deposit(&mut vault, "user_c", 7058723);
    let ref_result = reference.deposit("user_c", 7058723);
    println!("Vault result: {:?}", vault_result);
    println!("Reference result: {:?}", ref_result);

    let vault_result = execute_admin_deposit_yield(&mut vault, 0, 0);
    let ref_result = reference.admin_deposit_yield(0, 0);
    println!("Vault result: {:?}", vault_result);
    println!("Reference result: {:?}", ref_result);

    let vault_result = execute_admin_withdraw(&mut vault, 1000000);
    let ref_result = reference.admin_withdraw(1000000);
    println!("Vault result: {:?}", vault_result);
    println!("Reference result: {:?}", ref_result);

    let shares = query_lp_balance(&vault, "user_c");
    println!("User shares: {}", shares);
    if shares > 0 {
        let vault_result = execute_withdraw(&mut vault, "user_c", shares);
        let ref_result = reference.withdraw("user_c", shares);
        println!("Vault result: {:?}", vault_result);
        println!("Reference result: {:?}", ref_result);
    }

    println!("Vault total_deposited: {}", vault.total_deposited);
    println!("Reference total_assets: {}", reference.total_assets);
    assert_eq!(vault.total_deposited, reference.total_assets, "State diverged!");
}
