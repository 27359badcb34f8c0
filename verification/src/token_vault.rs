use vstd::prelude::*;
use crate::math::MulRatioError;
use crate::psp_pool::{instantiate_check, lp_full_denom, lp_full_denom_spec, validate_instantiate, PspPoolError, SubdenomProblem};
use crate::shares::{price_string, VaultState};
use crate::types::{Fund, Transfer, NANOS_PER_SECOND};
use crate::vault::{
    admin_withdraw_spec, admin_withdraw_transfer, deposit_accounting, deposit_spec, payout_accounting, payout_spec,
    request_accounting, request_spec, single_coin_amount, single_coin_spec, yield_deposit_accounting, yield_deposit_spec,
    VaultError,
};

verus! {

/// Errors of the token vault.
#[derive(Clone, Debug)]
pub enum TokenVaultError {
    Unauthorized,
    InvalidSubdenom { reason: SubdenomProblem },
    InvalidMintingCap,
    InvalidWithdrawalDelay { min: u64, max: u64 },
    WithdrawalIdOverflow,
    InvalidAddress { message: String },
    Vault(VaultError),
}

#[derive(Clone, Debug)]
pub struct Config {
    pub stablecoin_denom: String,
    /// `coin.{contract}.{subdenom}`.
    pub lp_full_denom: String,
    pub admin: String,
    /// Seconds between a withdrawal request and its release; fixed at instantiation.
    pub withdrawal_delay: u64,
}

/// A withdrawal request; the release time is a block time in nanoseconds.
#[derive(Clone, Copy, Debug, PartialEq, Eq, Structural)]
pub struct PendingWithdrawal {
    pub amount: u128,
    pub release_time: u64,
}

#[derive(Clone, Copy, Debug, PartialEq, Eq, Structural)]
pub struct WithdrawalCounter {
    pub next_id: u64,
}

#[derive(Clone, Copy, Debug)]
pub struct WithdrawalInfo {
    pub id: u64,
    pub amount: u128,
    pub release_time: u64,
    pub claimable: bool,
}

#[derive(Clone, Debug)]
pub struct UserInfoResponse {
    pub address: String,
    pub lp_balance: u128,
    pub stablecoin_value: u128,
}

#[derive(Clone, Debug)]
pub struct MigrateMsg {}

/// Requests to the external yield contract.
#[derive(Clone, Copy, Debug, PartialEq, Eq, Structural)]
pub enum YieldContractExecuteMsg {
    /// Deposit the attached funds.
    Deposit,
    /// Withdraw `amount`.
    Withdraw { amount: u128 },
}

/// Queries of the external yield contract.
#[derive(Clone, Debug)]
pub enum YieldContractQueryMsg {
    GetPool,
    GetUser { address: String },
}

/// The yield contract's pool totals.
#[derive(Clone, Copy, Debug, PartialEq, Eq, Structural)]
pub struct YieldPoolResponse {
    /// Lent to the pool, accrued interest included.
    pub total_lent: u128,
    pub total_borrowed: u128,
}

/// One account's position in the yield contract.
#[derive(Clone, Copy, Debug, PartialEq, Eq, Structural)]
pub struct YieldUserResponse {
    /// Lent, in shares.
    pub lent: u128,
    pub borrowed: u128,
}

/// The same report for the vault's instantiation as for a pool's.
pub open spec fn same_check(e: PspPoolError, t: TokenVaultError) -> bool {
    match (e, t) {
        (PspPoolError::InvalidSubdenom { reason: r1 }, TokenVaultError::InvalidSubdenom { reason: r2 }) => r1 == r2,
        (PspPoolError::InvalidMintingCap, TokenVaultError::InvalidMintingCap) => true,
        (PspPoolError::InvalidWithdrawalDelay { min: a1, max: b1 }, TokenVaultError::InvalidWithdrawalDelay { min: a2, max: b2 }) =>
            a1 == a2 && b1 == b2,
        _ => false,
    }
}

/// Instantiates the vault: the same parameter checks as a pool's; the admin is
/// the sender unless one is given (with the chain's verdict on it).
pub fn instantiate(
    lp_subdenom: &str,
    lp_minting_cap: u128,
    withdrawal_delay: u64,
    stablecoin_denom: String,
    admin: Option<Result<String, String>>,
    sender: String,
    contract_address: &str,
) -> (res: Result<(Config, VaultState), TokenVaultError>)
    ensures
        match instantiate_check(lp_subdenom.len() as int, lp_subdenom@, lp_minting_cap, withdrawal_delay) {
            Some(e) => res is Err && same_check(e, res->Err_0),
            None => match admin {
                Some(Err(m)) => res == Err::<(Config, VaultState), TokenVaultError>(TokenVaultError::InvalidAddress { message: m }),
                _ => res matches Ok((c, v)) && {
                    &&& c.stablecoin_denom == stablecoin_denom
                    &&& c.lp_full_denom@ == lp_full_denom_spec(contract_address@, lp_subdenom@)
                    &&& c.admin == (match admin { Some(Ok(a)) => a, _ => sender })
                    &&& c.withdrawal_delay == withdrawal_delay
                    &&& v == VaultState { total_deposited: 0, total_lp_minted: 0, total_pending_withdrawals: 0 }
                },
            },
        },
{
    match validate_instantiate(lp_subdenom, lp_minting_cap, withdrawal_delay) {
        Ok(()) => {},
        Err(PspPoolError::InvalidSubdenom { reason }) => {
            return Err(TokenVaultError::InvalidSubdenom { reason });
        },
        Err(PspPoolError::InvalidWithdrawalDelay { min, max }) => {
            return Err(TokenVaultError::InvalidWithdrawalDelay { min, max });
        },
        Err(_) => {
            return Err(TokenVaultError::InvalidMintingCap);
        },
    }
    let admin_addr = match admin {
        Some(Err(m)) => {
            return Err(TokenVaultError::InvalidAddress { message: m });
        },
        Some(Ok(a)) => a,
        None => sender,
    };
    let denom = lp_full_denom(contract_address, lp_subdenom);
    Ok((
        Config { stablecoin_denom, lp_full_denom: denom, admin: admin_addr, withdrawal_delay },
        VaultState::empty(),
    ))
}

pub fn require_admin(sender: &String, config: &Config) -> (res: Result<(), TokenVaultError>)
    ensures
        sender@ == config.admin@ ==> res is Ok,
        sender@ != config.admin@ ==> res == Err::<(), TokenVaultError>(TokenVaultError::Unauthorized),
{
    if *sender != config.admin {
        return Err(TokenVaultError::Unauthorized);
    }
    Ok(())
}

/// What a deposit does: exactly one coin, of the stablecoin, nonzero, minted at
/// the vault's price.
pub open spec fn vault_deposit_spec(config: Config, vault: VaultState, funds: Seq<Fund>) -> Result<(VaultState, u128, u128), TokenVaultError> {
    if funds.len() != 1 {
        Err(TokenVaultError::Vault(VaultError::MustSendExactlyOneToken))
    } else if single_coin_spec(funds, config.stablecoin_denom@) is None {
        Err(TokenVaultError::Vault(VaultError::NoStablecoinSent))
    } else if single_coin_spec(funds, config.stablecoin_denom@)->0 == 0 {
        Err(TokenVaultError::Vault(VaultError::InvalidZeroAmount))
    } else {
        let amount = single_coin_spec(funds, config.stablecoin_denom@)->0;
        match deposit_spec(vault, amount) {
            Err(e) => Err(TokenVaultError::Vault(e)),
            Ok((v1, lp)) => Ok((v1, amount, lp)),
        }
    }
}

/// Deposits stablecoin; returns the new vault, the amount deposited and the LP
/// tokens to mint to the depositor.
pub fn deposit(config: &Config, vault: &VaultState, funds: &Vec<Fund>) -> (res: Result<(VaultState, u128, u128), TokenVaultError>)
    ensures
        res == vault_deposit_spec(*config, *vault, funds@),
{
    if funds.len() != 1 {
        return Err(TokenVaultError::Vault(VaultError::MustSendExactlyOneToken));
    }
    let amount = match single_coin_amount(funds, &config.stablecoin_denom) {
        Some(a) => a,
        None => {
            return Err(TokenVaultError::Vault(VaultError::NoStablecoinSent));
        },
    };
    if amount == 0 {
        return Err(TokenVaultError::Vault(VaultError::InvalidZeroAmount));
    }
    match deposit_accounting(vault, amount) {
        Ok((v1, lp)) => Ok((v1, amount, lp)),
        Err(e) => Err(TokenVaultError::Vault(e)),
    }
}

/// What a withdrawal request records.
#[derive(Clone, Copy, Debug)]
pub struct RequestOutcome {
    pub vault: VaultState,
    pub lp_burned: u128,
    pub withdrawal_id: u64,
    pub counter: WithdrawalCounter,
    pub withdrawal: PendingWithdrawal,
}

/// What a withdrawal request at block time `now` (nanoseconds) does: the LP
/// tokens sent are burned and their value locked until the delay has passed.
pub open spec fn vault_request_spec(
    config: Config,
    vault: VaultState,
    funds: Seq<Fund>,
    counter: Option<WithdrawalCounter>,
    now: u64,
) -> Result<RequestOutcome, TokenVaultError> {
    if funds.len() != 1 {
        Err(TokenVaultError::Vault(VaultError::MustSendExactlyOneToken))
    } else if single_coin_spec(funds, config.lp_full_denom@) is None {
        Err(TokenVaultError::Vault(VaultError::NoLpTokensSent))
    } else if single_coin_spec(funds, config.lp_full_denom@)->0 == 0 {
        Err(TokenVaultError::Vault(VaultError::InvalidZeroAmount))
    } else {
        let lp = single_coin_spec(funds, config.lp_full_denom@)->0;
        match request_spec(vault, lp) {
            Err(e) => Err(TokenVaultError::Vault(e)),
            Ok((v1, value)) => {
                let id = match counter { Some(c) => c.next_id, None => 0 };
                if id + 1 > u64::MAX {
                    Err(TokenVaultError::WithdrawalIdOverflow)
                } else {
                    Ok(RequestOutcome {
                        vault: v1,
                        lp_burned: lp,
                        withdrawal_id: id,
                        counter: WithdrawalCounter { next_id: (id + 1) as u64 },
                        withdrawal: PendingWithdrawal {
                            amount: value,
                            release_time: (now + config.withdrawal_delay * NANOS_PER_SECOND) as u64,
                        },
                    })
                }
            },
        }
    }
}

/// Requests a withdrawal; `counter` is the requester's stored counter, if any.
/// The release time of a request that is granted must fit in a timestamp, as
/// adding to one panics otherwise.
pub fn request_withdraw(
    config: &Config,
    vault: &VaultState,
    funds: &Vec<Fund>,
    counter: Option<WithdrawalCounter>,
    now: u64,
) -> (res: Result<RequestOutcome, TokenVaultError>)
    requires
        vault_request_spec(*config, *vault, funds@, counter, now) is Ok
            ==> now + config.withdrawal_delay * NANOS_PER_SECOND <= u64::MAX,
    ensures
        res == vault_request_spec(*config, *vault, funds@, counter, now),
{
    if funds.len() != 1 {
        return Err(TokenVaultError::Vault(VaultError::MustSendExactlyOneToken));
    }
    let lp = match single_coin_amount(funds, &config.lp_full_denom) {
        Some(a) => a,
        None => {
            return Err(TokenVaultError::Vault(VaultError::NoLpTokensSent));
        },
    };
    if lp == 0 {
        return Err(TokenVaultError::Vault(VaultError::InvalidZeroAmount));
    }
    let (v1, value) = match request_accounting(vault, lp) {
        Ok(r) => r,
        Err(e) => {
            return Err(TokenVaultError::Vault(e));
        },
    };
    let id = match counter {
        Some(c) => c.next_id,
        None => 0,
    };
    let next_id = match id.checked_add(1) {
        Some(n) => n,
        None => {
            return Err(TokenVaultError::WithdrawalIdOverflow);
        },
    };
    assert(config.withdrawal_delay * NANOS_PER_SECOND <= u64::MAX);
    let release_time = now + config.withdrawal_delay * NANOS_PER_SECOND;
    Ok(RequestOutcome {
        vault: v1,
        lp_burned: lp,
        withdrawal_id: id,
        counter: WithdrawalCounter { next_id },
        withdrawal: PendingWithdrawal { amount: value, release_time },
    })
}

/// What a claim at block time `now` (nanoseconds) does: a matured withdrawal is
/// paid to the claimant and leaves the accounting.
pub open spec fn vault_claim_spec(
    sender: String,
    config: Config,
    vault: VaultState,
    funds: Seq<Fund>,
    withdrawal: Option<PendingWithdrawal>,
    now: u64,
    balance: u128,
) -> Result<(VaultState, Transfer), TokenVaultError> {
    if funds.len() != 0 {
        Err(TokenVaultError::Vault(VaultError::DoNotSendFundsWhenClaiming))
    } else if withdrawal is None {
        Err(TokenVaultError::Vault(VaultError::WithdrawalNotFound))
    } else if now < withdrawal->0.release_time {
        Err(TokenVaultError::Vault(VaultError::WithdrawalLocked {
            release_time_secs: (withdrawal->0.release_time / NANOS_PER_SECOND) as u64,
        }))
    } else {
        match payout_spec(vault, withdrawal->0.amount, balance) {
            Err(e) => Err(TokenVaultError::Vault(e)),
            Ok(v1) => Ok((v1, Transfer { to_address: sender, denom: config.stablecoin_denom, amount: withdrawal->0.amount })),
        }
    }
}

/// Claims a matured withdrawal; `withdrawal` is the stored request, if any.
pub fn claim_withdraw(
    sender: &String,
    config: &Config,
    vault: &VaultState,
    funds: &Vec<Fund>,
    withdrawal: Option<PendingWithdrawal>,
    now: u64,
    balance: u128,
) -> (res: Result<(VaultState, Transfer), TokenVaultError>)
    ensures
        res == vault_claim_spec(*sender, *config, *vault, funds@, withdrawal, now, balance),
{
    if funds.len() != 0 {
        return Err(TokenVaultError::Vault(VaultError::DoNotSendFundsWhenClaiming));
    }
    let w = match withdrawal {
        Some(w) => w,
        None => {
            return Err(TokenVaultError::Vault(VaultError::WithdrawalNotFound));
        },
    };
    if now < w.release_time {
        return Err(TokenVaultError::Vault(VaultError::WithdrawalLocked { release_time_secs: w.release_time / NANOS_PER_SECOND }));
    }
    match payout_accounting(vault, w.amount, balance) {
        Ok(v1) => Ok((v1, Transfer { to_address: sender.clone(), denom: config.stablecoin_denom.clone(), amount: w.amount })),
        Err(e) => Err(TokenVaultError::Vault(e)),
    }
}

/// A claim pays exactly the amount locked at request time, and never before the
/// release time.
pub proof fn law_claim_pays_locked_amount(
    sender: String,
    config: Config,
    vault: VaultState,
    funds: Seq<Fund>,
    withdrawal: Option<PendingWithdrawal>,
    now: u64,
    balance: u128,
)
    requires
        vault_claim_spec(sender, config, vault, funds, withdrawal, now, balance) is Ok,
    ensures
        ({
            let (v1, t) = vault_claim_spec(sender, config, vault, funds, withdrawal, now, balance)->Ok_0;
            &&& withdrawal is Some && now >= withdrawal->0.release_time
            &&& t.amount == withdrawal->0.amount && t.to_address == sender
            &&& v1.total_deposited + t.amount == vault.total_deposited
            &&& v1.total_pending_withdrawals + t.amount == vault.total_pending_withdrawals
        }),
{
}

/// Updates the stablecoin denom and the admin; the withdrawal delay can never be
/// changed. `admin` carries the chain's verdict on a new admin address.
pub fn update_config(
    sender: &String,
    config: &Config,
    stablecoin_denom: Option<String>,
    admin: Option<Result<String, String>>,
) -> (res: Result<Config, TokenVaultError>)
    ensures
        sender@ != config.admin@ ==> res == Err::<Config, TokenVaultError>(TokenVaultError::Unauthorized),
        sender@ == config.admin@ ==> match admin {
            Some(Err(m)) => res == Err::<Config, TokenVaultError>(TokenVaultError::InvalidAddress { message: m }),
            _ => res == Ok::<Config, TokenVaultError>(Config {
                stablecoin_denom: match stablecoin_denom { Some(d) => d, None => config.stablecoin_denom },
                admin: match admin { Some(Ok(a)) => a, _ => config.admin },
                ..*config
            }),
        },
        res matches Ok(c) ==> c.withdrawal_delay == config.withdrawal_delay,
{
    require_admin(sender, config)?;
    let denom = match stablecoin_denom {
        Some(d) => d,
        None => config.stablecoin_denom.clone(),
    };
    let new_admin = match admin {
        Some(Err(m)) => {
            return Err(TokenVaultError::InvalidAddress { message: m });
        },
        Some(Ok(a)) => a,
        None => config.admin.clone(),
    };
    Ok(Config {
        stablecoin_denom: denom,
        lp_full_denom: config.lp_full_denom.clone(),
        admin: new_admin,
        withdrawal_delay: config.withdrawal_delay,
    })
}

/// Moves stablecoin from the vault to the admin's wallet; the accounting keeps it.
pub fn admin_withdraw(
    sender: &String,
    config: &Config,
    funds: &Vec<Fund>,
    amount: u128,
    balance: u128,
) -> (res: Result<Transfer, TokenVaultError>)
    ensures
        sender@ != config.admin@ ==> res == Err::<Transfer, TokenVaultError>(TokenVaultError::Unauthorized),
        sender@ == config.admin@ ==> match admin_withdraw_spec(funds@.len(), amount, balance) {
            Err(e) => res == Err::<Transfer, TokenVaultError>(TokenVaultError::Vault(e)),
            Ok(_) => res matches Ok(t) && t.to_address@ == sender@ && t.denom@ == config.stablecoin_denom@
                && t.amount == amount,
        },
{
    require_admin(sender, config)?;
    match admin_withdraw_transfer(funds, amount, balance, sender, &config.stablecoin_denom) {
        Ok(t) => Ok(t),
        Err(e) => Err(TokenVaultError::Vault(e)),
    }
}

/// The admin returns principal and reports yield; only the yield raises the
/// vault's value. Returns the new vault and its rendered price per share.
pub fn admin_deposit_yield(
    sender: &String,
    config: &Config,
    vault: &VaultState,
    funds: &Vec<Fund>,
    principal: u128,
    yield_amount: u128,
) -> (res: Result<(VaultState, String), TokenVaultError>)
    ensures
        sender@ != config.admin@ ==> res == Err::<(VaultState, String), TokenVaultError>(TokenVaultError::Unauthorized),
        sender@ == config.admin@ ==> match yield_deposit_spec(*vault, funds@, config.stablecoin_denom@, principal, yield_amount) {
            Err(e) => res == Err::<(VaultState, String), TokenVaultError>(TokenVaultError::Vault(e)),
            Ok(nv) => match price_string(nv.total_deposited, nv.total_lp_minted) {
                None => res == Err::<(VaultState, String), TokenVaultError>(
                    TokenVaultError::Vault(VaultError::MulRatio { error: MulRatioError::Overflow })),
                Some(text) => res matches Ok((s, p)) && s == nv && p@ == text,
            },
        },
{
    require_admin(sender, config)?;
    match yield_deposit_accounting(vault, funds, &config.stablecoin_denom, principal, yield_amount) {
        Ok(r) => Ok(r),
        Err(e) => Err(TokenVaultError::Vault(e)),
    }
}

/// A holder's LP balance and its stablecoin value.
pub fn user_info_response(address: String, lp_balance: u128, vault: &VaultState) -> (res: Result<UserInfoResponse, MulRatioError>)
    ensures
        match crate::vault::holder_value_spec(lp_balance, *vault) {
            Err(e) => res == Err::<UserInfoResponse, MulRatioError>(e),
            Ok(value) => res matches Ok(r) && r.address == address && r.lp_balance == lp_balance
                && r.stablecoin_value == value,
        },
{
    let value = crate::vault::holder_value(lp_balance, vault)?;
    Ok(UserInfoResponse { address, lp_balance, stablecoin_value: value })
}

/// A stored withdrawal as reported; it is claimable once its release time has come.
pub fn withdrawal_info(id: u64, w: &PendingWithdrawal, now: u64) -> (r: WithdrawalInfo)
    ensures
        r.id == id && r.amount == w.amount && r.release_time == w.release_time
            && r.claimable == (now >= w.release_time),
{
    WithdrawalInfo { id, amount: w.amount, release_time: w.release_time, claimable: now >= w.release_time }
}

/// A user's stored withdrawals, in id order, as reported.
pub fn pending_withdrawals(list: &Vec<(u64, PendingWithdrawal)>, now: u64) -> (r: Vec<WithdrawalInfo>)
    ensures
        r@.len() == list@.len(),
        forall|i: int| 0 <= i < list@.len() ==> ({
            let (id, w) = #[trigger] list@[i];
            let x = r@[i];
            x.id == id && x.amount == w.amount && x.release_time == w.release_time
                && x.claimable == (now >= w.release_time)
        }),
{
    let mut out: Vec<WithdrawalInfo> = Vec::new();
    let mut i: usize = 0;
    while i < list.len()
        invariant
            i <= list@.len(),
            out@.len() == i,
            forall|k: int| 0 <= k < i ==> ({
                let (id, w) = #[trigger] list@[k];
                let x = out@[k];
                x.id == id && x.amount == w.amount && x.release_time == w.release_time
                    && x.claimable == (now >= w.release_time)
            }),
        decreases list@.len() - i,
    {
        let (id, w) = &list[i];
        out.push(withdrawal_info(*id, w, now));
        i = i + 1;
    }
    out
}

} // verus!
