use vstd::prelude::*;
use crate::types::{text_equals, Fund, Transfer};

verus! {

/// Which reserve computation overflowed.
#[derive(Clone, Copy, Debug, PartialEq, Eq, Structural)]
pub enum ReserveOp {
    FeesCollectedPlusAmount,
    DisbursedPlusAmount,
    TopupsPlusAmount,
    ClaimedPlusAmount,
    FeesPlusTopups,
    DisbursedPlusClaimed,
}

/// Which reserve difference went below zero.
#[derive(Clone, Copy, Debug, PartialEq, Eq, Structural)]
pub enum ReserveShortfall {
    FeesMinusDisbursed,
    SpreadMinusClaimed,
    InflowsMinusOutflows,
}

/// Errors of the yield reserve.
#[derive(Clone, Debug)]
pub enum YieldReserveError {
    LpObligationsNotSettled,
    Unauthorized { caller: String, expected: String },
    CreditManagerOnly,
    YieldDistributorOnly,
    InvalidZeroAmount,
    InvalidFunds { denom: String },
    UnexpectedFunds,
    ArithmeticOverflow { operation: ReserveOp },
    InsufficientAccountedBalance { available: u128, required: u128 },
    InsufficientContractBalance { available: u128, required: u128 },
    NoProtocolRevenue,
    ClaimAmountExceedsClaimable { claimable: u128, requested: u128 },
    AccountingUnderflow { context: ReserveShortfall },
    InvalidAddress { message: String },
}

#[derive(Clone, Debug)]
pub struct Config {
    pub admin: String,
    pub credit_manager: String,
    pub yield_distributor: String,
    pub stablecoin_denom: String,
    pub psp_pool: String,
}

/// The reserve's running totals.
#[derive(Clone, Copy, Debug, PartialEq, Eq, Structural)]
pub struct ReserveLedger {
    /// Drawdown fees received from the credit manager.
    pub fees_collected: u128,
    /// Stablecoin the admin added to cover yield.
    pub admin_topups: u128,
    /// Yield paid out to LPs.
    pub lp_yield_disbursed: u128,
    /// Protocol revenue the admin has taken.
    pub protocol_revenue_claimed: u128,
}

#[derive(Clone, Copy, Debug)]
pub struct AccountingResponse {
    pub fees_collected: u128,
    pub admin_topups: u128,
    pub lp_yield_disbursed: u128,
    pub protocol_revenue_claimed: u128,
    pub protocol_revenue_claimable: u128,
    pub accounted_available_balance: u128,
}

#[derive(Clone, Debug)]
pub struct ConfigResponse {
    pub admin: String,
    pub credit_manager: String,
    pub yield_distributor: String,
    pub stablecoin_denom: String,
}

#[derive(Clone, Debug)]
pub struct BalanceResponse {
    pub amount: u128,
    pub denom: String,
}

#[derive(Clone, Debug)]
pub struct MigrateMsg {}

// ---------------------------------------------------------------------------
// Accounting
// ---------------------------------------------------------------------------

/// Protocol revenue not yet claimed: the fees collected beyond the yield paid to
/// LPs, less what was already claimed.
pub open spec fn claimable_spec(l: ReserveLedger) -> Result<u128, YieldReserveError> {
    if l.fees_collected < l.lp_yield_disbursed {
        Err(YieldReserveError::AccountingUnderflow { context: ReserveShortfall::FeesMinusDisbursed })
    } else if l.fees_collected - l.lp_yield_disbursed < l.protocol_revenue_claimed {
        Err(YieldReserveError::AccountingUnderflow { context: ReserveShortfall::SpreadMinusClaimed })
    } else {
        Ok((l.fees_collected - l.lp_yield_disbursed - l.protocol_revenue_claimed) as u128)
    }
}

/// What the reserve accounts as available: everything received less everything
/// paid out.
pub open spec fn available_spec(l: ReserveLedger) -> Result<u128, YieldReserveError> {
    if l.fees_collected + l.admin_topups > u128::MAX {
        Err(YieldReserveError::ArithmeticOverflow { operation: ReserveOp::FeesPlusTopups })
    } else if l.lp_yield_disbursed + l.protocol_revenue_claimed > u128::MAX {
        Err(YieldReserveError::ArithmeticOverflow { operation: ReserveOp::DisbursedPlusClaimed })
    } else if l.fees_collected + l.admin_topups < l.lp_yield_disbursed + l.protocol_revenue_claimed {
        Err(YieldReserveError::AccountingUnderflow { context: ReserveShortfall::InflowsMinusOutflows })
    } else {
        Ok((l.fees_collected + l.admin_topups - l.lp_yield_disbursed - l.protocol_revenue_claimed) as u128)
    }
}

pub fn protocol_revenue_claimable(l: &ReserveLedger) -> (res: Result<u128, YieldReserveError>)
    ensures
        res == claimable_spec(*l),
{
    let spread = match l.fees_collected.checked_sub(l.lp_yield_disbursed) {
        Some(s) => s,
        None => {
            return Err(YieldReserveError::AccountingUnderflow { context: ReserveShortfall::FeesMinusDisbursed });
        },
    };
    match spread.checked_sub(l.protocol_revenue_claimed) {
        Some(c) => Ok(c),
        None => Err(YieldReserveError::AccountingUnderflow { context: ReserveShortfall::SpreadMinusClaimed }),
    }
}

pub fn accounted_available(l: &ReserveLedger) -> (res: Result<u128, YieldReserveError>)
    ensures
        res == available_spec(*l),
{
    let inflows = match l.fees_collected.checked_add(l.admin_topups) {
        Some(x) => x,
        None => {
            return Err(YieldReserveError::ArithmeticOverflow { operation: ReserveOp::FeesPlusTopups });
        },
    };
    let outflows = match l.lp_yield_disbursed.checked_add(l.protocol_revenue_claimed) {
        Some(x) => x,
        None => {
            return Err(YieldReserveError::ArithmeticOverflow { operation: ReserveOp::DisbursedPlusClaimed });
        },
    };
    match inflows.checked_sub(outflows) {
        Some(a) => Ok(a),
        None => Err(YieldReserveError::AccountingUnderflow { context: ReserveShortfall::InflowsMinusOutflows }),
    }
}

/// The reserve's totals with what is claimable and available.
pub fn accounting(l: &ReserveLedger) -> (res: Result<AccountingResponse, YieldReserveError>)
    ensures
        claimable_spec(*l) is Err ==> res == Err::<AccountingResponse, YieldReserveError>(claimable_spec(*l)->Err_0),
        claimable_spec(*l) is Ok && available_spec(*l) is Err ==> res == Err::<AccountingResponse, YieldReserveError>(
            available_spec(*l)->Err_0),
        res matches Ok(r) ==> r.fees_collected == l.fees_collected && r.admin_topups == l.admin_topups
            && r.lp_yield_disbursed == l.lp_yield_disbursed && r.protocol_revenue_claimed == l.protocol_revenue_claimed
            && claimable_spec(*l) == Ok::<u128, YieldReserveError>(r.protocol_revenue_claimable)
            && available_spec(*l) == Ok::<u128, YieldReserveError>(r.accounted_available_balance),
        claimable_spec(*l) is Ok && available_spec(*l) is Ok ==> res is Ok,
{
    let claimable = protocol_revenue_claimable(l)?;
    let available = accounted_available(l)?;
    Ok(AccountingResponse {
        fees_collected: l.fees_collected,
        admin_topups: l.admin_topups,
        lp_yield_disbursed: l.lp_yield_disbursed,
        protocol_revenue_claimed: l.protocol_revenue_claimed,
        protocol_revenue_claimable: claimable,
        accounted_available_balance: available,
    })
}

// ---------------------------------------------------------------------------
// Checks
// ---------------------------------------------------------------------------

pub fn require_admin(sender: &String, config: &Config) -> (res: Result<(), YieldReserveError>)
    ensures
        sender@ == config.admin@ ==> res is Ok,
        sender@ != config.admin@ ==> res == Err::<(), YieldReserveError>(
            YieldReserveError::Unauthorized { caller: *sender, expected: config.admin }),
{
    if *sender != config.admin {
        return Err(YieldReserveError::Unauthorized { caller: sender.clone(), expected: config.admin.clone() });
    }
    Ok(())
}

pub fn require_no_funds(funds: &Vec<Fund>) -> (res: Result<(), YieldReserveError>)
    ensures
        funds@.len() == 0 ==> res is Ok,
        funds@.len() != 0 ==> res == Err::<(), YieldReserveError>(YieldReserveError::UnexpectedFunds),
{
    if funds.len() != 0 {
        return Err(YieldReserveError::UnexpectedFunds);
    }
    Ok(())
}

/// Exactly one coin of `denom`, of exactly `amount`.
pub open spec fn exact_single_fund(funds: Seq<Fund>, denom: Seq<char>, amount: u128) -> bool {
    funds.len() == 1 && funds[0].denom@ == denom && funds[0].amount == amount
}

pub fn require_exact_single_fund(funds: &Vec<Fund>, denom: &String, amount: u128) -> (res: Result<(), YieldReserveError>)
    ensures
        exact_single_fund(funds@, denom@, amount) ==> res is Ok,
        !exact_single_fund(funds@, denom@, amount) ==> res == Err::<(), YieldReserveError>(
            YieldReserveError::InvalidFunds { denom: *denom }),
{
    if funds.len() != 1 || funds[0].denom != *denom || funds[0].amount != amount {
        return Err(YieldReserveError::InvalidFunds { denom: denom.clone() });
    }
    Ok(())
}

// ---------------------------------------------------------------------------
// Operations
// ---------------------------------------------------------------------------

/// The credit manager hands over a drawdown fee, attached as one exact coin.
pub fn receive_from(
    sender: &String,
    config: &Config,
    funds: &Vec<Fund>,
    amount: u128,
    ledger: &ReserveLedger,
) -> (res: Result<ReserveLedger, YieldReserveError>)
    ensures
        sender@ != config.credit_manager@ ==> res == Err::<ReserveLedger, YieldReserveError>(YieldReserveError::CreditManagerOnly),
        sender@ == config.credit_manager@ && amount == 0 ==> res == Err::<ReserveLedger, YieldReserveError>(
            YieldReserveError::InvalidZeroAmount),
        sender@ == config.credit_manager@ && amount != 0 && !exact_single_fund(funds@, config.stablecoin_denom@, amount)
            ==> res == Err::<ReserveLedger, YieldReserveError>(YieldReserveError::InvalidFunds { denom: config.stablecoin_denom }),
        sender@ == config.credit_manager@ && amount != 0 && exact_single_fund(funds@, config.stablecoin_denom@, amount) ==> ({
            &&& ledger.fees_collected + amount > u128::MAX ==> res == Err::<ReserveLedger, YieldReserveError>(
                YieldReserveError::ArithmeticOverflow { operation: ReserveOp::FeesCollectedPlusAmount })
            &&& ledger.fees_collected + amount <= u128::MAX ==> res == Ok::<ReserveLedger, YieldReserveError>(
                ReserveLedger { fees_collected: (ledger.fees_collected + amount) as u128, ..*ledger })
        }),
{
    if *sender != config.credit_manager {
        return Err(YieldReserveError::CreditManagerOnly);
    }
    if amount == 0 {
        return Err(YieldReserveError::InvalidZeroAmount);
    }
    require_exact_single_fund(funds, &config.stablecoin_denom, amount)?;
    let fees = match ledger.fees_collected.checked_add(amount) {
        Some(f) => f,
        None => {
            return Err(YieldReserveError::ArithmeticOverflow { operation: ReserveOp::FeesCollectedPlusAmount });
        },
    };
    Ok(ReserveLedger {
        fees_collected: fees,
        admin_topups: ledger.admin_topups,
        lp_yield_disbursed: ledger.lp_yield_disbursed,
        protocol_revenue_claimed: ledger.protocol_revenue_claimed,
    })
}

/// The admin tops the reserve up, attaching exactly the amount.
pub fn admin_top_up(
    sender: &String,
    config: &Config,
    funds: &Vec<Fund>,
    amount: u128,
    ledger: &ReserveLedger,
) -> (res: Result<ReserveLedger, YieldReserveError>)
    ensures
        sender@ != config.admin@ ==> res == Err::<ReserveLedger, YieldReserveError>(
            YieldReserveError::Unauthorized { caller: *sender, expected: config.admin }),
        sender@ == config.admin@ && amount == 0 ==> res == Err::<ReserveLedger, YieldReserveError>(
            YieldReserveError::InvalidZeroAmount),
        sender@ == config.admin@ && amount != 0 && !exact_single_fund(funds@, config.stablecoin_denom@, amount)
            ==> res == Err::<ReserveLedger, YieldReserveError>(YieldReserveError::InvalidFunds { denom: config.stablecoin_denom }),
        sender@ == config.admin@ && amount != 0 && exact_single_fund(funds@, config.stablecoin_denom@, amount) ==> ({
            &&& ledger.admin_topups + amount > u128::MAX ==> res == Err::<ReserveLedger, YieldReserveError>(
                YieldReserveError::ArithmeticOverflow { operation: ReserveOp::TopupsPlusAmount })
            &&& ledger.admin_topups + amount <= u128::MAX ==> res == Ok::<ReserveLedger, YieldReserveError>(
                ReserveLedger { admin_topups: (ledger.admin_topups + amount) as u128, ..*ledger })
        }),
{
    require_admin(sender, config)?;
    if amount == 0 {
        return Err(YieldReserveError::InvalidZeroAmount);
    }
    require_exact_single_fund(funds, &config.stablecoin_denom, amount)?;
    let topups = match ledger.admin_topups.checked_add(amount) {
        Some(t) => t,
        None => {
            return Err(YieldReserveError::ArithmeticOverflow { operation: ReserveOp::TopupsPlusAmount });
        },
    };
    Ok(ReserveLedger {
        fees_collected: ledger.fees_collected,
        admin_topups: topups,
        lp_yield_disbursed: ledger.lp_yield_disbursed,
        protocol_revenue_claimed: ledger.protocol_revenue_claimed,
    })
}

/// What a yield payment to an LP does, given the chain's verdict on the
/// recipient and the reserve's stablecoin balance.
pub open spec fn disburse_spec(
    sender: String,
    config: Config,
    funds: Seq<Fund>,
    recipient: Result<String, String>,
    amount: u128,
    ledger: ReserveLedger,
    balance: u128,
) -> Result<(ReserveLedger, Transfer), YieldReserveError> {
    if sender@ != config.yield_distributor@ {
        Err(YieldReserveError::YieldDistributorOnly)
    } else if amount == 0 {
        Err(YieldReserveError::InvalidZeroAmount)
    } else if funds.len() != 0 {
        Err(YieldReserveError::UnexpectedFunds)
    } else {
        match recipient {
            Err(m) => Err(YieldReserveError::InvalidAddress { message: m }),
            Ok(r) => match available_spec(ledger) {
                Err(e) => Err(e),
                Ok(available) => {
                    if available < amount {
                        Err(YieldReserveError::InsufficientAccountedBalance { available, required: amount })
                    } else if balance < amount {
                        Err(YieldReserveError::InsufficientContractBalance { available: balance, required: amount })
                    } else if ledger.lp_yield_disbursed + amount > u128::MAX {
                        Err(YieldReserveError::ArithmeticOverflow { operation: ReserveOp::DisbursedPlusAmount })
                    } else {
                        Ok((
                            ReserveLedger { lp_yield_disbursed: (ledger.lp_yield_disbursed + amount) as u128, ..ledger },
                            Transfer { to_address: r, denom: config.stablecoin_denom, amount },
                        ))
                    }
                },
            },
        }
    }
}

/// The yield distributor has the reserve pay `amount` of yield to an LP.
pub fn disburse(
    sender: &String,
    config: &Config,
    funds: &Vec<Fund>,
    recipient: Result<String, String>,
    amount: u128,
    ledger: &ReserveLedger,
    balance: u128,
) -> (res: Result<(ReserveLedger, Transfer), YieldReserveError>)
    ensures
        res == disburse_spec(*sender, *config, funds@, recipient, amount, *ledger, balance),
{
    if *sender != config.yield_distributor {
        return Err(YieldReserveError::YieldDistributorOnly);
    }
    if amount == 0 {
        return Err(YieldReserveError::InvalidZeroAmount);
    }
    require_no_funds(funds)?;
    let to = match recipient {
        Err(m) => {
            return Err(YieldReserveError::InvalidAddress { message: m });
        },
        Ok(r) => r,
    };
    let available = accounted_available(ledger)?;
    if available < amount {
        return Err(YieldReserveError::InsufficientAccountedBalance { available, required: amount });
    }
    if balance < amount {
        return Err(YieldReserveError::InsufficientContractBalance { available: balance, required: amount });
    }
    let disbursed = match ledger.lp_yield_disbursed.checked_add(amount) {
        Some(d) => d,
        None => {
            return Err(YieldReserveError::ArithmeticOverflow { operation: ReserveOp::DisbursedPlusAmount });
        },
    };
    Ok((
        ReserveLedger {
            fees_collected: ledger.fees_collected,
            admin_topups: ledger.admin_topups,
            lp_yield_disbursed: disbursed,
            protocol_revenue_claimed: ledger.protocol_revenue_claimed,
        },
        Transfer { to_address: to, denom: config.stablecoin_denom.clone(), amount },
    ))
}

/// Whether the pool's reported state lets the protocol take its revenue: its LP
/// obligations are settled once it is Settled or Closed.
pub open spec fn pool_settled(state: Seq<char>) -> bool {
    state == "Settled"@ || state == "Closed"@
}

/// What a protocol-revenue claim does: once the pool is settled, the admin takes
/// `amount` (all that is claimable when none is given) to its own wallet.
pub open spec fn claim_spec(
    sender: String,
    config: Config,
    funds: Seq<Fund>,
    pool_state: Seq<char>,
    ledger: ReserveLedger,
    amount: Option<u128>,
    balance: u128,
) -> Result<(ReserveLedger, Transfer), YieldReserveError> {
    if sender@ != config.admin@ {
        Err(YieldReserveError::Unauthorized { caller: sender, expected: config.admin })
    } else if funds.len() != 0 {
        Err(YieldReserveError::UnexpectedFunds)
    } else if !pool_settled(pool_state) {
        Err(YieldReserveError::LpObligationsNotSettled)
    } else {
        match claimable_spec(ledger) {
            Err(e) => Err(e),
            Ok(claimable) => {
                let requested = match amount { Some(a) => a, None => claimable };
                if claimable == 0 {
                    Err(YieldReserveError::NoProtocolRevenue)
                } else if requested == 0 {
                    Err(YieldReserveError::InvalidZeroAmount)
                } else if requested > claimable {
                    Err(YieldReserveError::ClaimAmountExceedsClaimable { claimable, requested })
                } else {
                    match available_spec(ledger) {
                        Err(e) => Err(e),
                        Ok(available) => {
                            if requested > available {
                                Err(YieldReserveError::InsufficientAccountedBalance { available, required: requested })
                            } else if requested > balance {
                                Err(YieldReserveError::InsufficientContractBalance { available: balance, required: requested })
                            } else if ledger.protocol_revenue_claimed + requested > u128::MAX {
                                Err(YieldReserveError::ArithmeticOverflow { operation: ReserveOp::ClaimedPlusAmount })
                            } else {
                                Ok((
                                    ReserveLedger {
                                        protocol_revenue_claimed: (ledger.protocol_revenue_claimed + requested) as u128,
                                        ..ledger
                                    },
                                    Transfer { to_address: config.admin, denom: config.stablecoin_denom, amount: requested },
                                ))
                            }
                        },
                    }
                }
            },
        }
    }
}

/// The admin claims protocol revenue; `pool_state` is the pool's reported
/// lifecycle state.
pub fn claim_protocol_revenue(
    sender: &String,
    config: &Config,
    funds: &Vec<Fund>,
    pool_state: &String,
    ledger: &ReserveLedger,
    amount: Option<u128>,
    balance: u128,
) -> (res: Result<(ReserveLedger, Transfer), YieldReserveError>)
    ensures
        res == claim_spec(*sender, *config, funds@, pool_state@, *ledger, amount, balance),
{
    require_admin(sender, config)?;
    require_no_funds(funds)?;
    let settled = text_equals(pool_state, "Settled");
    let closed = text_equals(pool_state, "Closed");
    if !settled && !closed {
        return Err(YieldReserveError::LpObligationsNotSettled);
    }
    let claimable = protocol_revenue_claimable(ledger)?;
    if claimable == 0 {
        return Err(YieldReserveError::NoProtocolRevenue);
    }
    let requested = match amount {
        Some(a) => a,
        None => claimable,
    };
    if requested == 0 {
        return Err(YieldReserveError::InvalidZeroAmount);
    }
    if requested > claimable {
        return Err(YieldReserveError::ClaimAmountExceedsClaimable { claimable, requested });
    }
    let available = accounted_available(ledger)?;
    if requested > available {
        return Err(YieldReserveError::InsufficientAccountedBalance { available, required: requested });
    }
    if requested > balance {
        return Err(YieldReserveError::InsufficientContractBalance { available: balance, required: requested });
    }
    let claimed = match ledger.protocol_revenue_claimed.checked_add(requested) {
        Some(c) => c,
        None => {
            return Err(YieldReserveError::ArithmeticOverflow { operation: ReserveOp::ClaimedPlusAmount });
        },
    };
    Ok((
        ReserveLedger {
            fees_collected: ledger.fees_collected,
            admin_topups: ledger.admin_topups,
            lp_yield_disbursed: ledger.lp_yield_disbursed,
            protocol_revenue_claimed: claimed,
        },
        Transfer { to_address: config.admin.clone(), denom: config.stablecoin_denom.clone(), amount: requested },
    ))
}

/// The admin rewires the credit manager and the yield distributor; no funds may
/// be attached, and addresses come with the chain's verdict on them.
pub fn update_wiring(
    sender: &String,
    config: &Config,
    funds: &Vec<Fund>,
    credit_manager: Option<Result<String, String>>,
    yield_distributor: Option<Result<String, String>>,
) -> (res: Result<Config, YieldReserveError>)
    ensures
        sender@ != config.admin@ ==> res == Err::<Config, YieldReserveError>(
            YieldReserveError::Unauthorized { caller: *sender, expected: config.admin }),
        sender@ == config.admin@ && funds@.len() != 0 ==> res == Err::<Config, YieldReserveError>(
            YieldReserveError::UnexpectedFunds),
        sender@ == config.admin@ && funds@.len() == 0 ==> match (credit_manager, yield_distributor) {
            (Some(Err(m)), _) => res == Err::<Config, YieldReserveError>(YieldReserveError::InvalidAddress { message: m }),
            (_, Some(Err(m))) => res == Err::<Config, YieldReserveError>(YieldReserveError::InvalidAddress { message: m }),
            _ => res == Ok::<Config, YieldReserveError>(Config {
                credit_manager: match credit_manager { Some(Ok(a)) => a, _ => config.credit_manager },
                yield_distributor: match yield_distributor { Some(Ok(a)) => a, _ => config.yield_distributor },
                ..*config
            }),
        },
{
    require_admin(sender, config)?;
    require_no_funds(funds)?;
    let cm = match credit_manager {
        Some(Err(m)) => {
            return Err(YieldReserveError::InvalidAddress { message: m });
        },
        Some(Ok(a)) => a,
        None => config.credit_manager.clone(),
    };
    let yd = match yield_distributor {
        Some(Err(m)) => {
            return Err(YieldReserveError::InvalidAddress { message: m });
        },
        Some(Ok(a)) => a,
        None => config.yield_distributor.clone(),
    };
    Ok(Config {
        admin: config.admin.clone(),
        credit_manager: cm,
        yield_distributor: yd,
        stablecoin_denom: config.stablecoin_denom.clone(),
        psp_pool: config.psp_pool.clone(),
    })
}

/// The configuration, with addresses as the chain validated them, and an empty
/// ledger.
pub fn instantiate(
    admin: Result<String, String>,
    credit_manager: Result<String, String>,
    yield_distributor: Result<String, String>,
    stablecoin_denom: String,
    psp_pool: Result<String, String>,
) -> (res: Result<(Config, ReserveLedger), YieldReserveError>)
    ensures
        match (admin, credit_manager, yield_distributor, psp_pool) {
            (Err(m), _, _, _) => res == Err::<(Config, ReserveLedger), YieldReserveError>(YieldReserveError::InvalidAddress { message: m }),
            (_, Err(m), _, _) => res == Err::<(Config, ReserveLedger), YieldReserveError>(YieldReserveError::InvalidAddress { message: m }),
            (_, _, Err(m), _) => res == Err::<(Config, ReserveLedger), YieldReserveError>(YieldReserveError::InvalidAddress { message: m }),
            (_, _, _, Err(m)) => res == Err::<(Config, ReserveLedger), YieldReserveError>(YieldReserveError::InvalidAddress { message: m }),
            (Ok(a), Ok(c), Ok(y), Ok(p)) => res == Ok::<(Config, ReserveLedger), YieldReserveError>((
                Config { admin: a, credit_manager: c, yield_distributor: y, stablecoin_denom, psp_pool: p },
                ReserveLedger { fees_collected: 0, admin_topups: 0, lp_yield_disbursed: 0, protocol_revenue_claimed: 0 },
            )),
        },
{
    let a = match admin {
        Err(m) => { return Err(YieldReserveError::InvalidAddress { message: m }); },
        Ok(a) => a,
    };
    let c = match credit_manager {
        Err(m) => { return Err(YieldReserveError::InvalidAddress { message: m }); },
        Ok(a) => a,
    };
    let y = match yield_distributor {
        Err(m) => { return Err(YieldReserveError::InvalidAddress { message: m }); },
        Ok(a) => a,
    };
    let p = match psp_pool {
        Err(m) => { return Err(YieldReserveError::InvalidAddress { message: m }); },
        Ok(a) => a,
    };
    Ok((
        Config { admin: a, credit_manager: c, yield_distributor: y, stablecoin_denom, psp_pool: p },
        ReserveLedger { fees_collected: 0, admin_topups: 0, lp_yield_disbursed: 0, protocol_revenue_claimed: 0 },
    ))
}

pub fn config_response(config: &Config) -> (r: ConfigResponse)
    ensures
        r.admin == config.admin && r.credit_manager == config.credit_manager
            && r.yield_distributor == config.yield_distributor && r.stablecoin_denom == config.stablecoin_denom,
{
    ConfigResponse {
        admin: config.admin.clone(),
        credit_manager: config.credit_manager.clone(),
        yield_distributor: config.yield_distributor.clone(),
        stablecoin_denom: config.stablecoin_denom.clone(),
    }
}

// ---------------------------------------------------------------------------
// Laws
// ---------------------------------------------------------------------------

/// The ledger is consistent: yield paid never exceeds the fees collected, and
/// the revenue claimed never exceeds the spread between them.
pub open spec fn ledger_consistent(l: ReserveLedger) -> bool {
    &&& l.lp_yield_disbursed <= l.fees_collected
    &&& l.protocol_revenue_claimed <= l.fees_collected - l.lp_yield_disbursed
}

/// A revenue claim never takes more than is claimable, so it keeps the revenue
/// claimed within the spread, and lowers both what is claimable and what is
/// available by exactly the amount paid.
pub proof fn law_claim_within_claimable(
    sender: String,
    config: Config,
    funds: Seq<Fund>,
    pool_state: Seq<char>,
    ledger: ReserveLedger,
    amount: Option<u128>,
    balance: u128,
)
    requires
        claim_spec(sender, config, funds, pool_state, ledger, amount, balance) is Ok,
    ensures
        ({
            let (l1, t) = claim_spec(sender, config, funds, pool_state, ledger, amount, balance)->Ok_0;
            &&& ledger_consistent(l1)
            &&& pool_settled(pool_state)
            &&& claimable_spec(l1) matches Ok(c1) && c1 + t.amount == claimable_spec(ledger)->Ok_0
            &&& available_spec(l1) matches Ok(a1) && a1 + t.amount == available_spec(ledger)->Ok_0
        }),
{
}

/// Every inflow raises, and every payment lowers, the accounted available
/// balance by exactly its amount.
pub proof fn law_available_tracks_flows(
    sender: String,
    config: Config,
    funds: Seq<Fund>,
    recipient: Result<String, String>,
    amount: u128,
    ledger: ReserveLedger,
    balance: u128,
)
    requires
        disburse_spec(sender, config, funds, recipient, amount, ledger, balance) is Ok,
    ensures
        ({
            let (l1, t) = disburse_spec(sender, config, funds, recipient, amount, ledger, balance)->Ok_0;
            &&& t.amount == amount
            &&& available_spec(l1) matches Ok(a1) && a1 + amount == available_spec(ledger)->Ok_0
            &&& l1.fees_collected == ledger.fees_collected && l1.admin_topups == ledger.admin_topups
            &&& l1.protocol_revenue_claimed == ledger.protocol_revenue_claimed
        }),
{
}

/// Fees received raise both the claimable revenue and the available balance by
/// the fee; a top-up raises only the available balance.
pub proof fn law_inflows_raise_available(l: ReserveLedger, amount: u128)
    requires
        available_spec(l) is Ok,
        claimable_spec(l) is Ok,
        l.fees_collected + amount <= u128::MAX,
        l.admin_topups + amount <= u128::MAX,
        l.fees_collected + l.admin_topups + amount <= u128::MAX,
    ensures
        ({
            let with_fee = ReserveLedger { fees_collected: (l.fees_collected + amount) as u128, ..l };
            let with_topup = ReserveLedger { admin_topups: (l.admin_topups + amount) as u128, ..l };
            &&& available_spec(with_fee) == Ok::<u128, YieldReserveError>((available_spec(l)->Ok_0 + amount) as u128)
            &&& claimable_spec(with_fee) == Ok::<u128, YieldReserveError>((claimable_spec(l)->Ok_0 + amount) as u128)
            &&& available_spec(with_topup) == Ok::<u128, YieldReserveError>((available_spec(l)->Ok_0 + amount) as u128)
            &&& claimable_spec(with_topup) == claimable_spec(l)
        }),
{
}

} // verus!
