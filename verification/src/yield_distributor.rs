use vstd::prelude::*;
use crate::math::{checked_multiply_ratio, mul_ratio_result, ratio, MulRatioError};
use crate::types::{lemma_string_lt_order, string_less, string_lt, Fund, APY_DAYS_BASIS, BPS_DENOMINATOR, SECONDS_PER_DAY};

verus! {

pub const DEFAULT_BATCH_LIMIT: u32 = 50;
pub const MAX_BATCH_LIMIT: u32 = 150;

/// Which computation overflowed.
#[derive(Clone, Copy, Debug, PartialEq, Eq, Structural)]
pub enum DistributorOp {
    CompletedCyclesPlusOne,
    MissingActiveDisbursement,
    BatchLimitPlusOne,
    UserPrincipal,
    PrincipalTimesApy,
    TimesEligibleDays,
    YieldDivision,
    CurrentPayoutPlusHolderPayout,
    BatchTotalPlusHolderPayout,
    DistributedPlusBatchTotal,
    HolderPayoutPlusRemainder,
    BatchTotalPlusRemainder,
    TotalDepositedTimesApy,
    TimesCycleDays,
    CycleAmountDivision,
    CycleDaysTimesSecondsPerDay,
    NextIndexTimesCycleSecs,
    AnchorPlusOffset,
}

/// Errors of the yield distributor.
#[derive(Clone, Debug)]
pub enum YieldDistributorError {
    Unauthorized { caller: String, expected: String },
    InvalidZeroAmount,
    InvalidInvestorApy,
    InvalidCycleDays,
    PayoutSumMismatch { expected: u128, actual: u128 },
    NoLpSupply,
    NoIndexedLpHolders,
    InvalidPaginationLimit,
    RemainderAllocationFailed,
    CycleNotReady { next_cycle_time: u64, now: u64 },
    UnexpectedFunds,
    ArithmeticOverflow { operation: DistributorOp },
    InsufficientYieldReserve { required: u128, available: u128 },
    InvalidAddress { message: String },
}

#[derive(Clone, Debug)]
pub struct Config {
    pub admin: String,
    pub psp_pool: String,
    pub yield_reserve: String,
    pub investor_apy_bps: u64,
    pub cycle_days: u64,
    pub cycle_anchor_time: u64,
}

/// A disbursement cycle that has paid some batches and not yet all.
#[derive(Clone, Debug)]
pub struct ActiveDisbursement {
    pub total_lp_supply: u128,
    pub cycle_amount: u128,
    pub distributed_amount: u128,
    pub next_start_after: Option<String>,
}

#[derive(Clone, Debug)]
pub struct CycleState {
    pub completed_cycles: u64,
    pub last_disbursed_at: Option<u64>,
    pub active_disbursement: Option<ActiveDisbursement>,
}

/// The pool's totals as its vault-info query reports them.
#[derive(Clone, Copy, Debug)]
pub struct VaultInfo {
    pub total_deposited: u128,
    pub total_lp_supply: u128,
}

/// An LP holder as the pool's user-info query reports it.
#[derive(Clone, Debug)]
pub struct HolderInfo {
    pub address: String,
    pub lp_balance: u128,
    pub deposit_timestamp: u64,
}

/// One yield transfer the reserve is to make.
#[derive(Clone, Debug)]
pub struct Payout {
    pub recipient: String,
    pub amount: u128,
}

#[derive(Clone, Debug)]
pub struct MigrateMsg {}

// ---------------------------------------------------------------------------
// Validation and small helpers
// ---------------------------------------------------------------------------

/// Checks the instantiation parameters.
pub fn validate_instantiate(cycle_days: u64, investor_apy_bps: u64) -> (res: Result<(), YieldDistributorError>)
    ensures
        cycle_days == 0 ==> res is Err && res->Err_0 == YieldDistributorError::InvalidCycleDays,
        cycle_days != 0 && investor_apy_bps == 0 ==> res is Err && res->Err_0 == YieldDistributorError::InvalidInvestorApy,
        cycle_days != 0 && investor_apy_bps != 0 ==> res is Ok,
{
    if cycle_days == 0 {
        return Err(YieldDistributorError::InvalidCycleDays);
    }
    if investor_apy_bps == 0 {
        return Err(YieldDistributorError::InvalidInvestorApy);
    }
    Ok(())
}

/// The initial state: configuration with the anchor defaulting to the current
/// time, and no cycle completed. Addresses come with the chain's verdict on them.
pub fn instantiate(
    admin: Result<String, String>,
    psp_pool: Result<String, String>,
    yield_reserve: Result<String, String>,
    investor_apy_bps: u64,
    cycle_days: u64,
    cycle_anchor_time: Option<u64>,
    now: u64,
) -> (res: Result<(Config, CycleState), YieldDistributorError>)
    ensures
        cycle_days == 0 ==> res is Err && res->Err_0 == YieldDistributorError::InvalidCycleDays,
        cycle_days != 0 && investor_apy_bps == 0 ==> res is Err && res->Err_0 == YieldDistributorError::InvalidInvestorApy,
        cycle_days != 0 && investor_apy_bps != 0 ==> match (admin, psp_pool, yield_reserve) {
            (Err(m), _, _) => res is Err && res->Err_0 == (YieldDistributorError::InvalidAddress { message: m }),
            (_, Err(m), _) => res is Err && res->Err_0 == (YieldDistributorError::InvalidAddress { message: m }),
            (_, _, Err(m)) => res is Err && res->Err_0 == (YieldDistributorError::InvalidAddress { message: m }),
            (Ok(a), Ok(p), Ok(r)) => res matches Ok((c, s)) && {
                &&& c.admin == a && c.psp_pool == p && c.yield_reserve == r
                &&& c.investor_apy_bps == investor_apy_bps && c.cycle_days == cycle_days
                &&& c.cycle_anchor_time == (match cycle_anchor_time { Some(t) => t, None => now })
                &&& s.completed_cycles == 0 && s.last_disbursed_at is None && s.active_disbursement is None
            },
        },
{
    validate_instantiate(cycle_days, investor_apy_bps)?;
    let a = match admin {
        Err(m) => { return Err(YieldDistributorError::InvalidAddress { message: m }); },
        Ok(a) => a,
    };
    let p = match psp_pool {
        Err(m) => { return Err(YieldDistributorError::InvalidAddress { message: m }); },
        Ok(a) => a,
    };
    let r = match yield_reserve {
        Err(m) => { return Err(YieldDistributorError::InvalidAddress { message: m }); },
        Ok(a) => a,
    };
    let anchor = match cycle_anchor_time {
        Some(t) => t,
        None => now,
    };
    Ok((
        Config { admin: a, psp_pool: p, yield_reserve: r, investor_apy_bps, cycle_days, cycle_anchor_time: anchor },
        CycleState { completed_cycles: 0, last_disbursed_at: None, active_disbursement: None },
    ))
}

/// The admin rewires the pool and the reserve; no funds may be attached, and
/// addresses come with the chain's verdict on them.
pub fn update_wiring(
    sender: &String,
    config: &Config,
    funds: &Vec<Fund>,
    psp_pool: Option<Result<String, String>>,
    yield_reserve: Option<Result<String, String>>,
) -> (res: Result<Config, YieldDistributorError>)
    ensures
        sender@ != config.admin@ ==> res is Err && res->Err_0 == (YieldDistributorError::Unauthorized {
            caller: *sender, expected: config.admin }),
        sender@ == config.admin@ && funds@.len() != 0 ==> res is Err && res->Err_0 == YieldDistributorError::UnexpectedFunds,
        sender@ == config.admin@ && funds@.len() == 0 ==> match (psp_pool, yield_reserve) {
            (Some(Err(m)), _) => res is Err && res->Err_0 == (YieldDistributorError::InvalidAddress { message: m }),
            (_, Some(Err(m))) => res is Err && res->Err_0 == (YieldDistributorError::InvalidAddress { message: m }),
            _ => res matches Ok(c) && c == (Config {
                psp_pool: match psp_pool { Some(Ok(a)) => a, _ => config.psp_pool },
                yield_reserve: match yield_reserve { Some(Ok(a)) => a, _ => config.yield_reserve },
                ..*config
            }),
        },
{
    require_admin(sender, config)?;
    require_no_funds(funds)?;
    let p = match psp_pool {
        Some(Err(m)) => { return Err(YieldDistributorError::InvalidAddress { message: m }); },
        Some(Ok(a)) => a,
        None => config.psp_pool.clone(),
    };
    let r = match yield_reserve {
        Some(Err(m)) => { return Err(YieldDistributorError::InvalidAddress { message: m }); },
        Some(Ok(a)) => a,
        None => config.yield_reserve.clone(),
    };
    Ok(Config {
        admin: config.admin.clone(),
        psp_pool: p,
        yield_reserve: r,
        investor_apy_bps: config.investor_apy_bps,
        cycle_days: config.cycle_days,
        cycle_anchor_time: config.cycle_anchor_time,
    })
}

pub fn require_admin(sender: &String, config: &Config) -> (res: Result<(), YieldDistributorError>)
    ensures
        res is Ok <==> sender@ == config.admin@,
        res matches Err(e) ==> e == (YieldDistributorError::Unauthorized { caller: *sender, expected: config.admin }),
{
    if *sender != config.admin {
        return Err(YieldDistributorError::Unauthorized { caller: sender.clone(), expected: config.admin.clone() });
    }
    Ok(())
}

pub fn require_no_funds(funds: &Vec<Fund>) -> (res: Result<(), YieldDistributorError>)
    ensures
        res is Ok <==> funds@.len() == 0,
        res matches Err(e) ==> e == YieldDistributorError::UnexpectedFunds,
{
    if funds.len() != 0 {
        return Err(YieldDistributorError::UnexpectedFunds);
    }
    Ok(())
}

/// Batch size for one disbursement call: 50 when none is given, at most 150, and
/// zero is refused.
pub fn normalize_limit(limit: Option<u32>) -> (res: Result<u32, YieldDistributorError>)
    ensures
        ({
            let value = match limit { Some(v) => v, None => DEFAULT_BATCH_LIMIT };
            &&& value == 0 ==> res is Err && res->Err_0 == YieldDistributorError::InvalidPaginationLimit
            &&& value != 0 ==> res == Ok::<u32, YieldDistributorError>(if value < MAX_BATCH_LIMIT { value } else { MAX_BATCH_LIMIT })
        }),
{
    let value = match limit {
        Some(v) => v,
        None => DEFAULT_BATCH_LIMIT,
    };
    if value == 0 {
        return Err(YieldDistributorError::InvalidPaginationLimit);
    }
    Ok(if value < MAX_BATCH_LIMIT { value } else { MAX_BATCH_LIMIT })
}

pub fn checked_add(a: u128, b: u128, operation: DistributorOp) -> (res: Result<u128, YieldDistributorError>)
    ensures
        a + b <= u128::MAX ==> res == Ok::<u128, YieldDistributorError>((a + b) as u128),
        a + b > u128::MAX ==> res == Err::<u128, YieldDistributorError>(YieldDistributorError::ArithmeticOverflow { operation }),
{
    match a.checked_add(b) {
        Some(v) => Ok(v),
        None => Err(YieldDistributorError::ArithmeticOverflow { operation }),
    }
}

pub fn checked_mul(a: u128, b: u128, operation: DistributorOp) -> (res: Result<u128, YieldDistributorError>)
    ensures
        a * b <= u128::MAX ==> res == Ok::<u128, YieldDistributorError>((a * b) as u128),
        a * b > u128::MAX ==> res == Err::<u128, YieldDistributorError>(YieldDistributorError::ArithmeticOverflow { operation }),
{
    match a.checked_mul(b) {
        Some(v) => Ok(v),
        None => Err(YieldDistributorError::ArithmeticOverflow { operation }),
    }
}

pub fn checked_div(a: u128, b: u128, operation: DistributorOp) -> (res: Result<u128, YieldDistributorError>)
    ensures
        b != 0 ==> res == Ok::<u128, YieldDistributorError>((a / b) as u128),
        b == 0 ==> res == Err::<u128, YieldDistributorError>(YieldDistributorError::ArithmeticOverflow { operation }),
{
    match a.checked_div(b) {
        Some(v) => Ok(v),
        None => Err(YieldDistributorError::ArithmeticOverflow { operation }),
    }
}

pub fn checked_add_u32(a: u32, b: u32, operation: DistributorOp) -> (res: Result<u32, YieldDistributorError>)
    ensures
        a + b <= u32::MAX ==> res == Ok::<u32, YieldDistributorError>((a + b) as u32),
        a + b > u32::MAX ==> res == Err::<u32, YieldDistributorError>(YieldDistributorError::ArithmeticOverflow { operation }),
{
    match a.checked_add(b) {
        Some(v) => Ok(v),
        None => Err(YieldDistributorError::ArithmeticOverflow { operation }),
    }
}

pub fn checked_add_u64(a: u64, b: u64, operation: DistributorOp) -> (res: Result<u64, YieldDistributorError>)
    ensures
        a + b <= u64::MAX ==> res == Ok::<u64, YieldDistributorError>((a + b) as u64),
        a + b > u64::MAX ==> res == Err::<u64, YieldDistributorError>(YieldDistributorError::ArithmeticOverflow { operation }),
{
    match a.checked_add(b) {
        Some(v) => Ok(v),
        None => Err(YieldDistributorError::ArithmeticOverflow { operation }),
    }
}

pub fn checked_mul_u64(a: u64, b: u64, operation: DistributorOp) -> (res: Result<u64, YieldDistributorError>)
    ensures
        a * b <= u64::MAX ==> res == Ok::<u64, YieldDistributorError>((a * b) as u64),
        a * b > u64::MAX ==> res == Err::<u64, YieldDistributorError>(YieldDistributorError::ArithmeticOverflow { operation }),
{
    match a.checked_mul(b) {
        Some(v) => Ok(v),
        None => Err(YieldDistributorError::ArithmeticOverflow { operation }),
    }
}

/// `BPS_DENOMINATOR * APY_DAYS_BASIS`: yield is quoted in basis points per
/// 360-day year.
pub open spec fn yield_denominator() -> int {
    (BPS_DENOMINATOR * APY_DAYS_BASIS) as int
}

/// The yield a cycle pays on the pool's total value:
/// `total_deposited * apy_bps * cycle_days / (10_000 * 360)`, rounded down.
pub open spec fn cycle_amount_result(total_deposited: u128, investor_apy_bps: u64, cycle_days: u64) -> Result<u128, YieldDistributorError> {
    if total_deposited * investor_apy_bps > u128::MAX {
        Err(YieldDistributorError::ArithmeticOverflow { operation: DistributorOp::TotalDepositedTimesApy })
    } else if total_deposited * investor_apy_bps * cycle_days > u128::MAX {
        Err(YieldDistributorError::ArithmeticOverflow { operation: DistributorOp::TimesCycleDays })
    } else {
        Ok(((total_deposited * investor_apy_bps * cycle_days) / yield_denominator()) as u128)
    }
}

pub open spec fn same_u128_result(a: Result<u128, YieldDistributorError>, b: Result<u128, YieldDistributorError>) -> bool {
    match (a, b) {
        (Ok(x), Ok(y)) => x == y,
        (Err(YieldDistributorError::ArithmeticOverflow { operation: o1 }),
         Err(YieldDistributorError::ArithmeticOverflow { operation: o2 })) => o1 == o2,
        _ => false,
    }
}

pub fn calculate_cycle_amount(total_deposited: u128, investor_apy_bps: u64, cycle_days: u64) -> (res: Result<u128, YieldDistributorError>)
    ensures
        same_u128_result(res, cycle_amount_result(total_deposited, investor_apy_bps, cycle_days)),
{
    let a = checked_mul(total_deposited, investor_apy_bps as u128, DistributorOp::TotalDepositedTimesApy)?;
    let numerator = checked_mul(a, cycle_days as u128, DistributorOp::TimesCycleDays)?;
    let denominator = BPS_DENOMINATOR * APY_DAYS_BASIS;
    checked_div(numerator, denominator as u128, DistributorOp::CycleAmountDivision)
}

/// When the next cycle may be disbursed:
/// `anchor + (completed_cycles + 1) * cycle_days * 86_400`.
pub open spec fn next_cycle_time(config: Config, completed_cycles: u64) -> int {
    config.cycle_anchor_time + (completed_cycles + 1) * (config.cycle_days * SECONDS_PER_DAY)
}

/// The next cycle time, or the step of its computation whose result does not fit
/// in 64 bits.
pub open spec fn next_cycle_result(config: Config, completed_cycles: u64) -> Result<u64, DistributorOp> {
    let secs = config.cycle_days * SECONDS_PER_DAY;
    if secs > u64::MAX {
        Err(DistributorOp::CycleDaysTimesSecondsPerDay)
    } else if completed_cycles + 1 > u64::MAX {
        Err(DistributorOp::CompletedCyclesPlusOne)
    } else if (completed_cycles + 1) * secs > u64::MAX {
        Err(DistributorOp::NextIndexTimesCycleSecs)
    } else if next_cycle_time(config, completed_cycles) > u64::MAX {
        Err(DistributorOp::AnchorPlusOffset)
    } else {
        Ok(next_cycle_time(config, completed_cycles) as u64)
    }
}

/// A computation's result with its overflow reported as the distributor's error.
pub open spec fn overflow_as_error<T>(r: Result<T, DistributorOp>) -> Result<T, YieldDistributorError> {
    match r {
        Ok(x) => Ok(x),
        Err(op) => Err(YieldDistributorError::ArithmeticOverflow { operation: op }),
    }
}

pub fn compute_next_cycle_time(config: &Config, completed_cycles: u64) -> (res: Result<u64, YieldDistributorError>)
    ensures
        res == overflow_as_error(next_cycle_result(*config, completed_cycles)),
{
    let cycle_secs = checked_mul_u64(config.cycle_days, SECONDS_PER_DAY, DistributorOp::CycleDaysTimesSecondsPerDay)?;
    let next_index = checked_add_u64(completed_cycles, 1, DistributorOp::CompletedCyclesPlusOne)?;
    let offset = checked_mul_u64(next_index, cycle_secs, DistributorOp::NextIndexTimesCycleSecs)?;
    match config.cycle_anchor_time.checked_add(offset) {
        Some(t) => Ok(t),
        None => Err(YieldDistributorError::ArithmeticOverflow { operation: DistributorOp::AnchorPlusOffset }),
    }
}

// ---------------------------------------------------------------------------
// Opening a cycle
// ---------------------------------------------------------------------------

/// Whether a disbursement call must open a new cycle: it must when none is in
/// progress, and then only once the cycle boundary has been reached.
pub fn check_cycle_ready(config: &Config, state: &CycleState, now: u64) -> (res: Result<bool, YieldDistributorError>)
    ensures
        state.active_disbursement is Some ==> res == Ok::<bool, YieldDistributorError>(false),
        state.active_disbursement is None ==> res == match next_cycle_result(*config, state.completed_cycles) {
            Err(op) => Err(YieldDistributorError::ArithmeticOverflow { operation: op }),
            Ok(t) => if now < t {
                Err(YieldDistributorError::CycleNotReady { next_cycle_time: t, now })
            } else {
                Ok(true)
            },
        },
{
    if state.active_disbursement.is_some() {
        return Ok(false);
    }
    let next = compute_next_cycle_time(config, state.completed_cycles)?;
    if now < next {
        return Err(YieldDistributorError::CycleNotReady { next_cycle_time: next, now });
    }
    Ok(true)
}

/// The yield due for the cycle being opened, refusing a pool without LP supply.
pub fn open_cycle_amount(config: &Config, vault: &VaultInfo) -> (res: Result<u128, YieldDistributorError>)
    ensures
        vault.total_lp_supply == 0 ==> res is Err && res->Err_0 == YieldDistributorError::NoLpSupply,
        vault.total_lp_supply != 0 ==> same_u128_result(
            res,
            cycle_amount_result(vault.total_deposited, config.investor_apy_bps, config.cycle_days),
        ),
{
    if vault.total_lp_supply == 0 {
        return Err(YieldDistributorError::NoLpSupply);
    }
    calculate_cycle_amount(vault.total_deposited, config.investor_apy_bps, config.cycle_days)
}

/// Refuses a cycle whose yield the reserve cannot cover.
pub fn check_reserve_balance(cycle_amount: u128, reserve_balance: u128) -> (res: Result<(), YieldDistributorError>)
    ensures
        res is Ok <==> reserve_balance >= cycle_amount,
        res matches Err(e) ==> e matches YieldDistributorError::InsufficientYieldReserve { required, available }
            && required == cycle_amount && available == reserve_balance,
{
    if reserve_balance < cycle_amount {
        return Err(YieldDistributorError::InsufficientYieldReserve { required: cycle_amount, available: reserve_balance });
    }
    Ok(())
}

/// Opens a cycle: a zero-yield cycle completes at once, any other starts a
/// disbursement with nothing paid yet.
pub fn open_cycle(state: &CycleState, vault: &VaultInfo, cycle_amount: u128, now: u64) -> (res: Result<(CycleState, bool), YieldDistributorError>)
    ensures
        cycle_amount == 0 ==> {
            &&& state.completed_cycles + 1 <= u64::MAX ==> res is Ok
            &&& state.completed_cycles + 1 > u64::MAX ==> res == Err::<(CycleState, bool), YieldDistributorError>(
                YieldDistributorError::ArithmeticOverflow { operation: DistributorOp::CompletedCyclesPlusOne })
            &&& res matches Ok((s, done)) ==> done && s.completed_cycles == state.completed_cycles + 1
                && s.last_disbursed_at == Some(now) && s.active_disbursement is None
        },
        cycle_amount != 0 ==> (res matches Ok((s, done)) && (!done && s.completed_cycles == state.completed_cycles
            && s.last_disbursed_at == state.last_disbursed_at
            && (s.active_disbursement matches Some(a) && a.total_lp_supply == vault.total_lp_supply
            && a.cycle_amount == cycle_amount && a.distributed_amount == 0 && a.next_start_after is None))),
{
    if cycle_amount == 0 {
        let completed = checked_add_u64(state.completed_cycles, 1, DistributorOp::CompletedCyclesPlusOne)?;
        return Ok((CycleState { completed_cycles: completed, last_disbursed_at: Some(now), active_disbursement: None }, true));
    }
    Ok((
        CycleState {
            completed_cycles: state.completed_cycles,
            last_disbursed_at: state.last_disbursed_at,
            active_disbursement: Some(ActiveDisbursement {
                total_lp_supply: vault.total_lp_supply,
                cycle_amount,
                distributed_amount: 0,
                next_start_after: None,
            }),
        },
        false,
    ))
}

/// Cuts the fetched holder page (asked for one more than the batch) down to the
/// batch; the extra holder only signals that more remain.
pub fn split_batch<T>(holders: Vec<T>, batch_limit: u32) -> (res: Result<(Vec<T>, bool), YieldDistributorError>)
    ensures
        holders@.len() == 0 ==> res is Err && res->Err_0 == YieldDistributorError::NoIndexedLpHolders,
        holders@.len() != 0 ==> (res matches Ok((batch, has_more)) && has_more == (holders@.len() > batch_limit)
            && batch@ == (if has_more { holders@.subrange(0, batch_limit as int) } else { holders@ })),
{
    if holders.len() == 0 {
        return Err(YieldDistributorError::NoIndexedLpHolders);
    }
    let mut holders = holders;
    let mut has_more = false;
    if holders.len() > batch_limit as usize {
        holders.truncate(batch_limit as usize);
        has_more = true;
    }
    Ok((holders, has_more))
}

// ---------------------------------------------------------------------------
// Paying a batch
// ---------------------------------------------------------------------------

/// Whole days a holder has held LP, capped at the cycle length.
pub open spec fn eligible_days(h: HolderInfo, cycle_days: u64, now: u64) -> int {
    let held = if now > h.deposit_timestamp { now - h.deposit_timestamp } else { 0 };
    let days = held / (SECONDS_PER_DAY as int);
    if days < cycle_days { days } else { cycle_days as int }
}

/// What one holder is paid: the holder's principal
/// `lp_balance * total_deposited / total_lp_supply` times
/// `apy_bps * eligible_days / (10_000 * 360)`, both rounded down; zero for a holder
/// skipped, or the step that overflowed.
pub open spec fn holder_payout(h: HolderInfo, vault: VaultInfo, config: Config, now: u64) -> Result<int, DistributorOp> {
    let days = eligible_days(h, config.cycle_days, now);
    let principal = if vault.total_lp_supply == 0 { 0 } else { ratio(h.lp_balance, vault.total_deposited, vault.total_lp_supply) };
    if h.lp_balance == 0 || days == 0 {
        Ok(0)
    } else if principal > u128::MAX {
        Err(DistributorOp::UserPrincipal)
    } else if principal == 0 {
        Ok(0)
    } else if principal * config.investor_apy_bps > u128::MAX {
        Err(DistributorOp::PrincipalTimesApy)
    } else if principal * config.investor_apy_bps * days > u128::MAX {
        Err(DistributorOp::TimesEligibleDays)
    } else {
        Ok((principal * config.investor_apy_bps * days) / yield_denominator())
    }
}

/// The payouts and their total after the holders `hs`, in order; a holder listed
/// twice is paid the sum.
pub open spec fn batch_fold(hs: Seq<HolderInfo>, vault: VaultInfo, config: Config, now: u64) -> Result<(Map<Seq<char>, int>, int), DistributorOp>
    decreases hs.len(),
{
    if hs.len() == 0 {
        Ok((Map::empty(), 0))
    } else {
        match batch_fold(hs.drop_last(), vault, config, now) {
            Err(e) => Err(e),
            Ok((m, t)) => {
                let h = hs.last();
                match holder_payout(h, vault, config, now) {
                    Err(e) => Err(e),
                    Ok(p) => {
                        if p == 0 {
                            Ok((m, t))
                        } else {
                            let cur = if m.contains_key(h.address@) { m[h.address@] } else { 0 };
                            if cur + p > u128::MAX {
                                Err(DistributorOp::CurrentPayoutPlusHolderPayout)
                            } else if t + p > u128::MAX {
                                Err(DistributorOp::BatchTotalPlusHolderPayout)
                            } else {
                                Ok((m.insert(h.address@, cur + p), t + p))
                            }
                        }
                    },
                }
            },
        }
    }
}

/// The payouts a list holds, keyed by recipient.
pub open spec fn payouts_map(s: Seq<Payout>) -> Map<Seq<char>, int> {
    Map::new(
        |k: Seq<char>| exists|i: int| 0 <= i < s.len() && s[i].recipient@ == k,
        |k: Seq<char>| s[choose|i: int| 0 <= i < s.len() && s[i].recipient@ == k].amount as int,
    )
}

/// No recipient appears twice.
pub open spec fn distinct_recipients(s: Seq<Payout>) -> bool {
    forall|i: int, j: int| 0 <= i < s.len() && 0 <= j < s.len() && i != j ==> s[i].recipient@ != s[j].recipient@
}

proof fn lemma_payouts_map_at(s: Seq<Payout>, j: int)
    requires
        distinct_recipients(s),
        0 <= j < s.len(),
    ensures
        payouts_map(s).contains_key(s[j].recipient@),
        payouts_map(s)[s[j].recipient@] == s[j].amount,
{
    let k = s[j].recipient@;
    assert(exists|i: int| 0 <= i < s.len() && s[i].recipient@ == k);
    let c = choose|i: int| 0 <= i < s.len() && s[i].recipient@ == k;
    assert(c == j);
}

/// Recipients in strictly ascending order, as a sorted map keeps its keys.
pub open spec fn sorted_recipients(s: Seq<Payout>) -> bool {
    forall|i: int, j: int| 0 <= i < j < s.len() ==> string_lt(#[trigger] s[i].recipient@, #[trigger] s[j].recipient@)
}

/// What a payout list pays in total.
pub open spec fn payout_sum(s: Seq<Payout>) -> int
    decreases s.len(),
{
    if s.len() == 0 { 0 } else { payout_sum(s.drop_last()) + s.last().amount }
}

/// Every payout pays something.
pub open spec fn all_positive(s: Seq<Payout>) -> bool {
    forall|i: int| 0 <= i < s.len() ==> #[trigger] s[i].amount > 0
}

proof fn lemma_sorted_distinct(s: Seq<Payout>)
    requires
        sorted_recipients(s),
    ensures
        distinct_recipients(s),
{
    assert forall|a: int, b: int| 0 <= a < s.len() && 0 <= b < s.len() && a != b
        implies s[a].recipient@ != s[b].recipient@ by {
        lemma_string_lt_order(s[a].recipient@, s[b].recipient@, s[a].recipient@);
        lemma_string_lt_order(s[b].recipient@, s[a].recipient@, s[b].recipient@);
    }
}

proof fn lemma_sum_update(s: Seq<Payout>, j: int, e: Payout)
    requires
        0 <= j < s.len(),
    ensures
        payout_sum(s.update(j, e)) == payout_sum(s) - s[j].amount + e.amount,
    decreases s.len(),
{
    if j == s.len() - 1 {
        assert(s.update(j, e).drop_last() =~= s.drop_last());
    } else {
        assert(s.update(j, e).drop_last() =~= s.drop_last().update(j, e));
        lemma_sum_update(s.drop_last(), j, e);
    }
}

proof fn lemma_sum_insert(s: Seq<Payout>, i: int, e: Payout)
    requires
        0 <= i <= s.len(),
    ensures
        payout_sum(s.insert(i, e)) == payout_sum(s) + e.amount,
    decreases s.len(),
{
    if i == s.len() {
        assert(s.insert(i, e).drop_last() =~= s);
    } else {
        assert(s.insert(i, e).drop_last() =~= s.drop_last().insert(i, e));
        lemma_sum_insert(s.drop_last(), i, e);
    }
}

/// Where `addr` stands or would stand among the sorted recipients: every
/// recipient before the position sorts before it, and the flag says whether the
/// one at the position is `addr`.
fn locate_payout(payouts: &Vec<Payout>, addr: &String) -> (res: (usize, bool))
    requires
        sorted_recipients(payouts@),
    ensures
        res.0 <= payouts@.len(),
        forall|m: int| 0 <= m < res.0 ==> string_lt(#[trigger] payouts@[m].recipient@, addr@),
        res.1 ==> res.0 < payouts@.len() && payouts@[res.0 as int].recipient@ == addr@,
        !res.1 ==> forall|m: int| 0 <= m < payouts@.len() ==> #[trigger] payouts@[m].recipient@ != addr@,
        !res.1 && res.0 < payouts@.len() ==> string_lt(addr@, payouts@[res.0 as int].recipient@),
{
    let mut i: usize = 0;
    while i < payouts.len()
        invariant
            i <= payouts@.len(),
            sorted_recipients(payouts@),
            forall|m: int| 0 <= m < i ==> string_lt(#[trigger] payouts@[m].recipient@, addr@),
        decreases payouts.len() - i,
    {
        if !string_less(&payouts[i].recipient, addr) {
            let found = payouts[i].recipient == *addr;
            proof {
                let p = payouts@;
                let a = addr@;
                lemma_string_lt_order(p[i as int].recipient@, a, a);
                lemma_string_lt_order(a, a, a);
                if !found {
                    assert(string_lt(a, p[i as int].recipient@));
                    assert forall|m: int| 0 <= m < p.len() implies #[trigger] p[m].recipient@ != a by {
                        if m < i {
                            assert(string_lt(p[m].recipient@, a));
                        } else if m > i {
                            assert(string_lt(p[i as int].recipient@, p[m].recipient@));
                            lemma_string_lt_order(a, p[i as int].recipient@, p[m].recipient@);
                        }
                    }
                }
            }
            return (i, found);
        }
        i = i + 1;
    }
    proof {
        assert forall|m: int| 0 <= m < payouts@.len() implies #[trigger] payouts@[m].recipient@ != addr@ by {
            assert(string_lt(payouts@[m].recipient@, addr@));
            lemma_string_lt_order(addr@, addr@, addr@);
        }
    }
    (i, false)
}

/// Adds `amount` to what `addr` is paid, as an insert into a sorted payout map
/// does: the entry for `addr` grows, or a new one takes its place in order.
fn add_payout(payouts: &mut Vec<Payout>, addr: &String, amount: u128, op: DistributorOp) -> (res: Result<(), YieldDistributorError>)
    requires
        sorted_recipients(old(payouts)@),
        all_positive(old(payouts)@),
        amount > 0,
    ensures
        ({
            let m = payouts_map(old(payouts)@);
            let cur = if m.contains_key(addr@) { m[addr@] } else { 0 };
            &&& cur + amount <= u128::MAX ==> res is Ok
                && payouts_map(final(payouts)@) =~= m.insert(addr@, cur + amount)
                && sorted_recipients(final(payouts)@)
                && all_positive(final(payouts)@)
                && payout_sum(final(payouts)@) == payout_sum(old(payouts)@) + amount
            &&& cur + amount > u128::MAX ==> res == Err::<(), YieldDistributorError>(
                YieldDistributorError::ArithmeticOverflow { operation: op })
        }),
{
    let ghost m = payouts_map(payouts@);
    let ghost before = payouts@;
    proof { lemma_sorted_distinct(before); }
    let (i, found) = locate_payout(payouts, addr);
    if found {
        proof { lemma_payouts_map_at(before, i as int); }
        let cur = payouts[i].amount;
        let updated = checked_add(cur, amount, op)?;
        let entry = Payout { recipient: payouts[i].recipient.clone(), amount: updated };
        payouts.set(i, entry);
        proof {
            let n = payouts@;
            assert forall|a: int, b: int| 0 <= a < b < n.len()
                implies string_lt(#[trigger] n[a].recipient@, #[trigger] n[b].recipient@) by {
                assert(n[a].recipient@ == before[a].recipient@);
                assert(n[b].recipient@ == before[b].recipient@);
                assert(string_lt(before[a].recipient@, before[b].recipient@));
            }
            assert forall|a: int| 0 <= a < n.len() implies #[trigger] n[a].amount > 0 by {
                if a != i { assert(n[a] == before[a]); }
            }
            lemma_sum_update(before, i as int, entry);
            lemma_sorted_distinct(n);
            let nm = payouts_map(n);
            let target = m.insert(addr@, cur + amount);
            assert forall|q: Seq<char>| #[trigger] nm.contains_key(q) <==> target.contains_key(q) by {
                if nm.contains_key(q) {
                    let k = choose|k: int| 0 <= k < n.len() && n[k].recipient@ == q;
                    assert(before[k].recipient@ == q);
                }
                if target.contains_key(q) && q != addr@ {
                    let k = choose|k: int| 0 <= k < before.len() && before[k].recipient@ == q;
                    assert(n[k].recipient@ == q);
                }
                if q == addr@ {
                    assert(n[i as int].recipient@ == q);
                }
            }
            assert forall|q: Seq<char>| #[trigger] nm.contains_key(q) implies nm[q] == target[q] by {
                let k = choose|k: int| 0 <= k < n.len() && n[k].recipient@ == q;
                lemma_payouts_map_at(n, k);
                if k != i {
                    assert(n[k] == before[k]);
                    lemma_payouts_map_at(before, k);
                }
            }
        }
        Ok(())
    } else {
        proof {
            assert(!m.contains_key(addr@)) by {
                if m.contains_key(addr@) {
                    let k = choose|k: int| 0 <= k < before.len() && before[k].recipient@ == addr@;
                    assert(before[k].recipient@ != addr@);
                }
            }
        }
        let e = Payout { recipient: addr.clone(), amount };
        payouts.insert(i, e);
        proof {
            let n = payouts@;
            assert(n == before.insert(i as int, e));
            assert(n.len() == before.len() + 1);
            assert forall|k: int| 0 <= k < n.len() implies #[trigger] n[k] == (if k < i { before[k] } else if k == i {
                e } else { before[k - 1] }) by {
            }
            assert forall|a: int, b: int| 0 <= a < b < n.len()
                implies string_lt(#[trigger] n[a].recipient@, #[trigger] n[b].recipient@) by {
                if b < i {
                    assert(string_lt(before[a].recipient@, before[b].recipient@));
                } else if b == i {
                    assert(string_lt(before[a].recipient@, addr@));
                } else if a < i {
                    assert(string_lt(before[a].recipient@, before[b - 1].recipient@));
                } else if a == i {
                    assert(string_lt(addr@, before[i as int].recipient@));
                    if b - 1 > i {
                        assert(string_lt(before[i as int].recipient@, before[b - 1].recipient@));
                        lemma_string_lt_order(addr@, before[i as int].recipient@, before[b - 1].recipient@);
                    }
                } else {
                    assert(string_lt(before[a - 1].recipient@, before[b - 1].recipient@));
                }
            }
            assert forall|a: int| 0 <= a < n.len() implies #[trigger] n[a].amount > 0 by {
                if a < i { assert(n[a] == before[a]); } else if a > i { assert(n[a] == before[a - 1]); }
            }
            lemma_sum_insert(before, i as int, e);
            lemma_sorted_distinct(n);
            let nm = payouts_map(n);
            let target = m.insert(addr@, amount as int);
            assert forall|q: Seq<char>| #[trigger] nm.contains_key(q) <==> target.contains_key(q) by {
                if nm.contains_key(q) && q != addr@ {
                    let k = choose|k: int| 0 <= k < n.len() && n[k].recipient@ == q;
                    if k < i {
                        assert(before[k].recipient@ == q);
                    } else {
                        assert(k != i);
                        assert(before[k - 1].recipient@ == q);
                    }
                }
                if target.contains_key(q) && q != addr@ {
                    let k = choose|k: int| 0 <= k < before.len() && before[k].recipient@ == q;
                    if k < i {
                        assert(n[k].recipient@ == q);
                    } else {
                        assert(n[k + 1].recipient@ == q);
                    }
                }
                if q == addr@ {
                    assert(n[i as int].recipient@ == q);
                }
            }
            assert forall|q: Seq<char>| #[trigger] nm.contains_key(q) implies nm[q] == target[q] by {
                let k = choose|k: int| 0 <= k < n.len() && n[k].recipient@ == q;
                lemma_payouts_map_at(n, k);
                if k < i {
                    lemma_payouts_map_at(before, k);
                } else if k > i {
                    lemma_payouts_map_at(before, k - 1);
                }
            }
        }
        Ok(())
    }
}

/// One holder's payout, computed as the batch loop does.
fn compute_holder_payout(h: &HolderInfo, vault: &VaultInfo, config: &Config, now: u64) -> (res: Result<u128, YieldDistributorError>)
    ensures
        match holder_payout(*h, *vault, *config, now) {
            Ok(p) => res == Ok::<u128, YieldDistributorError>(p as u128),
            Err(op) => res == Err::<u128, YieldDistributorError>(YieldDistributorError::ArithmeticOverflow { operation: op }),
        },
{
    if h.lp_balance == 0 {
        return Ok(0);
    }
    let deposit_secs = h.deposit_timestamp;
    let held_secs = if now > deposit_secs { now - deposit_secs } else { 0 };
    let days0 = held_secs / SECONDS_PER_DAY;
    let days = if days0 < config.cycle_days { days0 } else { config.cycle_days };
    if days == 0 {
        return Ok(0);
    }
    let principal: u128 = if vault.total_lp_supply == 0 {
        0
    } else {
        match checked_multiply_ratio(h.lp_balance, vault.total_deposited, vault.total_lp_supply) {
            Ok(p) => p,
            Err(_) => {
                return Err(YieldDistributorError::ArithmeticOverflow { operation: DistributorOp::UserPrincipal });
            },
        }
    };
    if principal == 0 {
        return Ok(0);
    }
    let a = checked_mul(principal, config.investor_apy_bps as u128, DistributorOp::PrincipalTimesApy)?;
    let numerator = checked_mul(a, days as u128, DistributorOp::TimesEligibleDays)?;
    let denominator = BPS_DENOMINATOR * APY_DAYS_BASIS;
    checked_div(numerator, denominator as u128, DistributorOp::YieldDivision)
}

/// A holder is paid for the whole days it has held LP, up to the cycle length:
/// with `d = min(floor((now - deposit) / 86_400), cycle_days)` (no days before the
/// deposit) and the principal `floor(lp * total_deposited / total_lp_supply)`
/// (none without LP supply), the payout is
/// `floor(principal * apy_bps * d / 3_600_000)`. So a holder of two whole days in
/// a seven-day cycle earns two sevenths of what a holder of the whole cycle earns,
/// up to rounding.
pub proof fn law_holder_paid_for_days_held(h: HolderInfo, vault: VaultInfo, config: Config, now: u64)
    requires
        holder_payout(h, vault, config, now) is Ok,
    ensures
        ({
            let held: int = if now > h.deposit_timestamp { now - h.deposit_timestamp } else { 0 };
            let d: int = if held / 86_400 < config.cycle_days { held / 86_400 } else { config.cycle_days as int };
            let principal: int = if vault.total_lp_supply == 0 {
                0
            } else {
                (h.lp_balance as int * vault.total_deposited as int) / (vault.total_lp_supply as int)
            };
            holder_payout(h, vault, config, now)->Ok_0 == (principal * config.investor_apy_bps * d) / 3_600_000
        }),
{
    let held: int = if now > h.deposit_timestamp { now - h.deposit_timestamp } else { 0 };
    let d: int = if held / 86_400 < config.cycle_days { held / 86_400 } else { config.cycle_days as int };
    let principal: int = if vault.total_lp_supply == 0 {
        0
    } else {
        (h.lp_balance as int * vault.total_deposited as int) / (vault.total_lp_supply as int)
    };
    let apy = config.investor_apy_bps as int;
    assert(d == eligible_days(h, config.cycle_days, now));
    if vault.total_lp_supply != 0 {
        assert(principal == ratio(h.lp_balance, vault.total_deposited, vault.total_lp_supply));
    }
    if h.lp_balance == 0 && vault.total_lp_supply != 0 {
        assert(h.lp_balance as int * vault.total_deposited as int == 0) by (nonlinear_arith)
            requires h.lp_balance == 0;
    }
    assert(0 * apy * d == 0) by (nonlinear_arith);
    assert(principal * apy * 0 == 0) by (nonlinear_arith);
}

/// In a batch of distinct holders, the payouts accumulated are each holder's own
/// payout, absent when it is zero, and nobody else's.
proof fn lemma_fold_distinct(hs: Seq<HolderInfo>, vault: VaultInfo, config: Config, now: u64)
    requires
        batch_fold(hs, vault, config, now) is Ok,
        forall|i: int, j: int| 0 <= i < j < hs.len() ==> hs[i].address@ != hs[j].address@,
    ensures
        ({
            let m = batch_fold(hs, vault, config, now)->Ok_0.0;
            &&& forall|k: Seq<char>| #[trigger] m.contains_key(k) ==> exists|i: int| 0 <= i < hs.len() && hs[i].address@ == k
            &&& forall|i: int| 0 <= i < hs.len() ==> (#[trigger] holder_payout(hs[i], vault, config, now)) is Ok && ({
                let p = holder_payout(hs[i], vault, config, now)->Ok_0;
                &&& p == 0 ==> !m.contains_key(hs[i].address@)
                &&& p != 0 ==> m.contains_key(hs[i].address@) && m[hs[i].address@] == p
            })
        }),
    decreases hs.len(),
{
    if hs.len() > 0 {
        let prev = hs.drop_last();
        lemma_fold_distinct(prev, vault, config, now);
        let m0 = batch_fold(prev, vault, config, now)->Ok_0.0;
        let h = hs.last();
        let n = hs.len() - 1;
        assert(!m0.contains_key(h.address@)) by {
            if m0.contains_key(h.address@) {
                let i = choose|i: int| 0 <= i < prev.len() && prev[i].address@ == h.address@;
                assert(hs[i].address@ == hs[n].address@);
            }
        }
        let m = batch_fold(hs, vault, config, now)->Ok_0.0;
        assert forall|k: Seq<char>| #[trigger] m.contains_key(k) implies exists|i: int| 0 <= i < hs.len() && hs[i].address@ == k by {
            if m0.contains_key(k) {
                let i = choose|i: int| 0 <= i < prev.len() && prev[i].address@ == k;
                assert(hs[i].address@ == k);
            } else {
                assert(hs[n].address@ == k);
            }
        }
        assert forall|i: int| 0 <= i < hs.len() implies (#[trigger] holder_payout(hs[i], vault, config, now)) is Ok && ({
            let p = holder_payout(hs[i], vault, config, now)->Ok_0;
            &&& p == 0 ==> !m.contains_key(hs[i].address@)
            &&& p != 0 ==> m.contains_key(hs[i].address@) && m[hs[i].address@] == p
        }) by {
            if i < n {
                assert(prev[i] == hs[i]);
                assert(holder_payout(prev[i], vault, config, now) is Ok);
                assert(hs[i].address@ != hs[n].address@);
            }
        }
    }
}

/// In a batch of distinct holders, every holder is paid exactly its own yield for
/// the whole days it held LP, up to the cycle length, with
/// `d = min(floor((now - deposit) / 86_400), cycle_days)`:
/// `floor(floor(lp * total_deposited / total_lp_supply) * apy_bps * d / 3_600_000)`,
/// and no payout when that is zero; only the last holder of the cycle's last batch
/// may receive more, the remainder of the cycle amount. Nobody outside the batch is
/// paid.
pub proof fn law_batch_pays_days_held(
    state: CycleState,
    batch: Seq<HolderInfo>,
    has_more: bool,
    vault: VaultInfo,
    config: Config,
    now: u64,
    o: BatchOutcome,
)
    requires
        batch_result(state, batch, has_more, vault, config, now, Ok(o)),
        vault.total_lp_supply > 0,
        forall|i: int, j: int| 0 <= i < j < batch.len() ==> batch[i].address@ != batch[j].address@,
    ensures
        forall|k: Seq<char>| #[trigger] payouts_map(o.payouts@).contains_key(k)
            ==> exists|i: int| 0 <= i < batch.len() && batch[i].address@ == k,
        forall|i: int| 0 <= i < batch.len() ==> ({
            let h = #[trigger] batch[i];
            let held: int = if now > h.deposit_timestamp { now - h.deposit_timestamp } else { 0 };
            let d: int = if held / 86_400 < config.cycle_days { held / 86_400 } else { config.cycle_days as int };
            let principal: int = (h.lp_balance as int * vault.total_deposited as int) / (vault.total_lp_supply as int);
            let pay: int = (principal * config.investor_apy_bps * d) / 3_600_000;
            let m = payouts_map(o.payouts@);
            let paid: int = if m.contains_key(h.address@) { m[h.address@] } else { 0 };
            &&& (has_more || i < batch.len() - 1) ==> paid == pay
            &&& paid >= pay
        }),
{
    let active = state.active_disbursement->0;
    let (m, t) = batch_fold(batch, vault, config, now)->Ok_0;
    lemma_fold_distinct(batch, vault, config, now);
    let pm = payouts_map(o.payouts@);
    assert forall|i: int| 0 <= i < batch.len() implies ({
        let h = #[trigger] batch[i];
        let held: int = if now > h.deposit_timestamp { now - h.deposit_timestamp } else { 0 };
        let d: int = if held / 86_400 < config.cycle_days { held / 86_400 } else { config.cycle_days as int };
        let principal: int = (h.lp_balance as int * vault.total_deposited as int) / (vault.total_lp_supply as int);
        let pay: int = (principal * config.investor_apy_bps * d) / 3_600_000;
        let paid: int = if pm.contains_key(h.address@) { pm[h.address@] } else { 0 };
        &&& (has_more || i < batch.len() - 1) ==> paid == pay
        &&& paid >= pay
    }) by {
        assert(holder_payout(batch[i], vault, config, now) is Ok);
        law_holder_paid_for_days_held(batch[i], vault, config, now);
        let p = holder_payout(batch[i], vault, config, now)->Ok_0;
        assert(p >= 0);
        if !has_more && i == batch.len() - 1 {
        } else if !has_more {
            assert(batch[i].address@ != batch[batch.len() - 1].address@);
        }
    }
    assert forall|k: Seq<char>| #[trigger] pm.contains_key(k) implies exists|i: int| 0 <= i < batch.len() && batch[i].address@ == k by {
        if m.contains_key(k) {
        } else {
            assert(batch[batch.len() - 1].address@ == k);
        }
    }
}

/// Once a prefix of the holders overflows, so does the whole batch, at the same step.
proof fn lemma_fold_err_extends(hs: Seq<HolderInfo>, k: int, vault: VaultInfo, config: Config, now: u64)
    requires
        0 <= k <= hs.len(),
        batch_fold(hs.subrange(0, k), vault, config, now) is Err,
    ensures
        batch_fold(hs, vault, config, now) == batch_fold(hs.subrange(0, k), vault, config, now),
    decreases hs.len() - k,
{
    if k == hs.len() {
        assert(hs.subrange(0, k) =~= hs);
    } else {
        let next = hs.subrange(0, k + 1);
        assert(next.drop_last() =~= hs.subrange(0, k));
        lemma_fold_err_extends(hs, k + 1, vault, config, now);
    }
}

/// The outcome of one disbursement batch.
#[derive(Clone, Debug)]
pub struct BatchOutcome {
    /// The cycle state to store.
    pub state: CycleState,
    /// Transfers to request from the reserve, one per recipient.
    pub payouts: Vec<Payout>,
    /// What this batch pays in total.
    pub batch_total: u128,
    /// Whether this batch completed the cycle.
    pub finalized: bool,
}

/// What a batch pays: the batch's holder payouts, plus, on the cycle's last
/// batch, whatever of the cycle amount remains, to the batch's last holder.
pub open spec fn batch_payouts_spec(
    fold_map: Map<Seq<char>, int>,
    fold_total: int,
    active: ActiveDisbursement,
    batch: Seq<HolderInfo>,
    has_more: bool,
) -> (Map<Seq<char>, int>, int) {
    let remainder = active.cycle_amount - (active.distributed_amount + fold_total);
    if has_more || remainder == 0 {
        (fold_map, fold_total)
    } else {
        let last = batch.last().address@;
        let cur = if fold_map.contains_key(last) { fold_map[last] } else { 0 };
        (fold_map.insert(last, cur + remainder), fold_total + remainder)
    }
}

/// Why a batch is refused, given what its holders earn (`m`, `t`): the cycle's
/// running total overflowing, a middle batch without holders, a last batch paying
/// more than the cycle amount, a remainder with no holder to receive it or
/// overflowing that holder's payout, or the cycle count at its maximum.
pub open spec fn batch_refusal(
    active: ActiveDisbursement,
    m: Map<Seq<char>, int>,
    t: int,
    batch: Seq<HolderInfo>,
    has_more: bool,
    completed_cycles: u64,
) -> Option<YieldDistributorError> {
    let pre_total = active.distributed_amount + t;
    if pre_total > u128::MAX {
        Some(YieldDistributorError::ArithmeticOverflow { operation: DistributorOp::DistributedPlusBatchTotal })
    } else if has_more {
        if batch.len() == 0 { Some(YieldDistributorError::NoIndexedLpHolders) } else { None }
    } else if pre_total > active.cycle_amount {
        Some(YieldDistributorError::PayoutSumMismatch { expected: active.cycle_amount, actual: pre_total as u128 })
    } else {
        let remainder = active.cycle_amount - pre_total;
        let last = batch.last().address@;
        let cur = if m.contains_key(last) { m[last] } else { 0 };
        if remainder != 0 && batch.len() == 0 {
            Some(YieldDistributorError::RemainderAllocationFailed)
        } else if remainder != 0 && cur + remainder > u128::MAX {
            Some(YieldDistributorError::ArithmeticOverflow { operation: DistributorOp::HolderPayoutPlusRemainder })
        } else if completed_cycles + 1 > u64::MAX {
            Some(YieldDistributorError::ArithmeticOverflow { operation: DistributorOp::CompletedCyclesPlusOne })
        } else {
            None
        }
    }
}

/// What one paid batch does to the cycle: its payouts are in recipient order, each
/// positive, and add up to the batch total; a middle batch adds that total to what
/// the cycle has distributed, and the last batch brings it to exactly the cycle
/// amount and completes the cycle.
pub open spec fn batch_settles(state: CycleState, o: BatchOutcome) -> bool {
    &&& state.active_disbursement is Some
    &&& sorted_recipients(o.payouts@)
    &&& all_positive(o.payouts@)
    &&& payout_sum(o.payouts@) == o.batch_total
    &&& ({
        let a = state.active_disbursement->0;
        &&& o.finalized ==> a.distributed_amount + o.batch_total == a.cycle_amount
            && o.state.active_disbursement is None
            && o.state.completed_cycles == state.completed_cycles + 1
        &&& !o.finalized ==> (o.state.active_disbursement matches Some(a2)
            && a2.cycle_amount == a.cycle_amount
            && a2.total_lp_supply == a.total_lp_supply
            && a2.distributed_amount == a.distributed_amount + o.batch_total)
            && o.state.completed_cycles == state.completed_cycles
    })
}

/// The state a call of a cycle's sequence starts from: the opened cycle, then
/// what the previous call left.
pub open spec fn chain_state(start: CycleState, outs: Seq<BatchOutcome>, i: int) -> CycleState {
    if i == 0 { start } else { outs[i - 1].state }
}

/// What a sequence of batches pays in total.
pub open spec fn total_paid(outs: Seq<BatchOutcome>) -> int
    decreases outs.len(),
{
    if outs.len() == 0 { 0 } else { total_paid(outs.drop_last()) + outs.last().batch_total }
}

proof fn lemma_cycle_prefix(start: CycleState, outs: Seq<BatchOutcome>, j: int)
    requires
        start.active_disbursement matches Some(a) && a.distributed_amount == 0,
        0 <= j < outs.len(),
        forall|i: int| 0 <= i < outs.len() ==> batch_settles(#[trigger] chain_state(start, outs, i), outs[i]),
        forall|i: int| 0 <= i < outs.len() - 1 ==> !(#[trigger] outs[i]).finalized,
    ensures
        chain_state(start, outs, j).active_disbursement matches Some(a)
            && a.cycle_amount == start.active_disbursement->0.cycle_amount
            && a.distributed_amount == total_paid(outs.take(j)),
        chain_state(start, outs, j).completed_cycles == start.completed_cycles,
    decreases j,
{
    if j == 0 {
        assert(outs.take(0) =~= Seq::<BatchOutcome>::empty());
    } else {
        lemma_cycle_prefix(start, outs, j - 1);
        assert(batch_settles(chain_state(start, outs, j - 1), outs[j - 1]));
        assert(outs.take(j).drop_last() =~= outs.take(j - 1));
    }
}

/// A cycle paid batch by batch, from its opening (nothing distributed yet) to the
/// batch that completes it, pays out exactly its cycle amount in positive payouts,
/// ends with no cycle in progress, and counts exactly one more completed cycle.
pub proof fn law_cycle_pays_its_amount(start: CycleState, outs: Seq<BatchOutcome>)
    requires
        start.active_disbursement matches Some(a) && a.distributed_amount == 0,
        outs.len() > 0,
        forall|i: int| 0 <= i < outs.len() ==> batch_settles(#[trigger] chain_state(start, outs, i), outs[i]),
        forall|i: int| 0 <= i < outs.len() - 1 ==> !(#[trigger] outs[i]).finalized,
        outs.last().finalized,
    ensures
        total_paid(outs) == start.active_disbursement->0.cycle_amount,
        forall|i: int, k: int| 0 <= i < outs.len() && 0 <= k < outs[i].payouts@.len()
            ==> (#[trigger] outs[i].payouts@[k]).amount > 0,
        forall|i: int| 0 <= i < outs.len() ==> payout_sum((#[trigger] outs[i]).payouts@) == outs[i].batch_total,
        outs.last().state.completed_cycles == start.completed_cycles + 1,
        outs.last().state.active_disbursement is None,
{
    let n = outs.len() - 1;
    lemma_cycle_prefix(start, outs, n);
    assert(batch_settles(chain_state(start, outs, n), outs[n]));
    assert(outs.take(n) =~= outs.drop_last());
    assert forall|i: int, k: int| 0 <= i < outs.len() && 0 <= k < outs[i].payouts@.len()
        implies (#[trigger] outs[i].payouts@[k]).amount > 0 by {
        assert(batch_settles(chain_state(start, outs, i), outs[i]));
    }
    assert forall|i: int| 0 <= i < outs.len() implies payout_sum((#[trigger] outs[i]).payouts@) == outs[i].batch_total by {
        assert(batch_settles(chain_state(start, outs, i), outs[i]));
    }
}

/// What `settle_batch` returns for `batch`: a refusal with its error, or the
/// outcome of paying the batch.
pub open spec fn batch_result(
    state: CycleState,
    batch: Seq<HolderInfo>,
    has_more: bool,
    vault: VaultInfo,
    config: Config,
    now: u64,
    res: Result<BatchOutcome, YieldDistributorError>,
) -> bool {
    &&& state.active_disbursement is None ==> res == Err::<BatchOutcome, YieldDistributorError>(
        YieldDistributorError::ArithmeticOverflow { operation: DistributorOp::MissingActiveDisbursement })
    &&& state.active_disbursement is Some ==> ({
        let active = state.active_disbursement.unwrap();
        match batch_fold(batch, vault, config, now) {
            Err(op) => res == Err::<BatchOutcome, YieldDistributorError>(YieldDistributorError::ArithmeticOverflow { operation: op }),
            Ok((m, t)) => {
                let (pm, pt) = batch_payouts_spec(m, t, active, batch, has_more);
                let refusal = batch_refusal(active, m, t, batch, has_more, state.completed_cycles);
                &&& res is Err <==> refusal is Some
                &&& refusal matches Some(e) ==> res == Err::<BatchOutcome, YieldDistributorError>(e)
                &&& res matches Ok(o) ==> {
                    &&& batch_settles(state, o)
                    &&& payouts_map(o.payouts@) == pm
                    &&& o.batch_total == pt
                    &&& o.finalized == !has_more
                    &&& has_more ==> (o.state.active_disbursement matches Some(a)
                        && a.cycle_amount == active.cycle_amount
                        && a.total_lp_supply == active.total_lp_supply
                        && a.distributed_amount == active.distributed_amount + t
                        && (a.next_start_after matches Some(n) && n@ == batch.last().address@))
                    &&& has_more ==> o.state.completed_cycles == state.completed_cycles
                        && o.state.last_disbursed_at == state.last_disbursed_at
                    &&& !has_more ==> active.distributed_amount + pt == active.cycle_amount
                        && o.state.completed_cycles == state.completed_cycles + 1
                        && o.state.last_disbursed_at == Some(now)
                        && o.state.active_disbursement is None
                }
            },
        }
    })
}

/// Pays one batch of holders of the cycle in progress. Each holder earns yield on
/// its principal for the whole days held, up to the cycle length; the last batch
/// tops the cycle up to exactly its amount, paying the remainder to its last
/// holder, and completes the cycle.
pub fn settle_batch(
    state: &CycleState,
    batch: &Vec<HolderInfo>,
    has_more: bool,
    vault: &VaultInfo,
    config: &Config,
    now: u64,
) -> (res: Result<BatchOutcome, YieldDistributorError>)
    ensures
        batch_result(*state, batch@, has_more, *vault, *config, now, res),
{
    let active = match &state.active_disbursement {
        Some(a) => a,
        None => {
            return Err(YieldDistributorError::ArithmeticOverflow { operation: DistributorOp::MissingActiveDisbursement });
        },
    };
    let mut payouts: Vec<Payout> = Vec::new();
    let mut batch_total: u128 = 0;
    let mut i: usize = 0;
    proof {
        assert(batch@.subrange(0, 0) =~= Seq::<HolderInfo>::empty());
    }
    while i < batch.len()
        invariant
            i <= batch@.len(),
            state.active_disbursement is Some,
            sorted_recipients(payouts@),
            all_positive(payouts@),
            payout_sum(payouts@) == batch_total,
            batch_fold(batch@.subrange(0, i as int), *vault, *config, now) matches Ok((m, t))
                && payouts_map(payouts@) == m && batch_total == t,
        decreases batch.len() - i,
    {
        let ghost prefix = batch@.subrange(0, i as int + 1);
        proof {
            assert(prefix.drop_last() =~= batch@.subrange(0, i as int));
            assert(prefix.last() == batch@[i as int]);
        }
        let h = &batch[i];
        let payout = match compute_holder_payout(h, vault, config, now) {
            Ok(p) => p,
            Err(e) => {
                proof { lemma_fold_err_extends(batch@, i as int + 1, *vault, *config, now); }
                return Err(e);
            },
        };
        if payout != 0 {
            match add_payout(&mut payouts, &h.address, payout, DistributorOp::CurrentPayoutPlusHolderPayout) {
                Ok(()) => {},
                Err(e) => {
                    proof { lemma_fold_err_extends(batch@, i as int + 1, *vault, *config, now); }
                    return Err(e);
                },
            }
            batch_total = match checked_add(batch_total, payout, DistributorOp::BatchTotalPlusHolderPayout) {
                Ok(t) => t,
                Err(e) => {
                    proof { lemma_fold_err_extends(batch@, i as int + 1, *vault, *config, now); }
                    return Err(e);
                },
            };
        }
        i = i + 1;
    }
    proof {
        assert(batch@.subrange(0, batch@.len() as int) =~= batch@);
    }

    if !has_more {
        let pre_total = checked_add(active.distributed_amount, batch_total, DistributorOp::DistributedPlusBatchTotal)?;
        if pre_total > active.cycle_amount {
            return Err(YieldDistributorError::PayoutSumMismatch { expected: active.cycle_amount, actual: pre_total });
        }
        let remainder = active.cycle_amount - pre_total;
        if remainder != 0 {
            if batch.len() > 0 {
                let last = &batch[batch.len() - 1].address;
                add_payout(&mut payouts, last, remainder, DistributorOp::HolderPayoutPlusRemainder)?;
                batch_total = checked_add(batch_total, remainder, DistributorOp::BatchTotalPlusRemainder)?;
            } else {
                return Err(YieldDistributorError::RemainderAllocationFailed);
            }
        }
    }

    let distributed = checked_add(active.distributed_amount, batch_total, DistributorOp::DistributedPlusBatchTotal)?;

    if has_more {
        if batch.len() == 0 {
            return Err(YieldDistributorError::NoIndexedLpHolders);
        }
        let last = batch[batch.len() - 1].address.clone();
        let new_active = ActiveDisbursement {
            total_lp_supply: active.total_lp_supply,
            cycle_amount: active.cycle_amount,
            distributed_amount: distributed,
            next_start_after: Some(last),
        };
        return Ok(BatchOutcome {
            state: CycleState {
                completed_cycles: state.completed_cycles,
                last_disbursed_at: state.last_disbursed_at,
                active_disbursement: Some(new_active),
            },
            payouts,
            batch_total,
            finalized: false,
        });
    }

    if distributed != active.cycle_amount {
        return Err(YieldDistributorError::PayoutSumMismatch { expected: active.cycle_amount, actual: distributed });
    }
    let completed = checked_add_u64(state.completed_cycles, 1, DistributorOp::CompletedCyclesPlusOne)?;
    Ok(BatchOutcome {
        state: CycleState { completed_cycles: completed, last_disbursed_at: Some(now), active_disbursement: None },
        payouts,
        batch_total,
        finalized: true,
    })
}


// ---------------------------------------------------------------------------
// One disbursement call
// ---------------------------------------------------------------------------

/// The cycle a disbursement call pays from, its amount, and whether the call
/// completed it at once. A cycle in progress is taken as it is. Otherwise one is
/// opened, with the checks in this order: the cycle boundary must be computable
/// and reached, the pool must have LP supply, the cycle amount must be computable,
/// the reserve must cover a nonzero amount; a zero amount completes the cycle at
/// once, before any state is stored.
pub open spec fn opened_cycle(config: Config, state: CycleState, now: u64, vault: VaultInfo, reserve_balance: u128)
    -> Result<(CycleState, u128, bool), YieldDistributorError> {
    if state.active_disbursement is Some {
        Ok((state, state.active_disbursement->0.cycle_amount, false))
    } else {
        match next_cycle_result(config, state.completed_cycles) {
            Err(op) => Err(YieldDistributorError::ArithmeticOverflow { operation: op }),
            Ok(t) => if now < t {
                Err(YieldDistributorError::CycleNotReady { next_cycle_time: t, now })
            } else if vault.total_lp_supply == 0 {
                Err(YieldDistributorError::NoLpSupply)
            } else {
                match cycle_amount_result(vault.total_deposited, config.investor_apy_bps, config.cycle_days) {
                    Err(e) => Err(e),
                    Ok(amount) => if amount != 0 && reserve_balance < amount {
                        Err(YieldDistributorError::InsufficientYieldReserve { required: amount, available: reserve_balance })
                    } else if amount == 0 {
                        if state.completed_cycles + 1 > u64::MAX {
                            Err(YieldDistributorError::ArithmeticOverflow { operation: DistributorOp::CompletedCyclesPlusOne })
                        } else {
                            Ok((
                                CycleState {
                                    completed_cycles: (state.completed_cycles + 1) as u64,
                                    last_disbursed_at: Some(now),
                                    active_disbursement: None,
                                },
                                0,
                                true,
                            ))
                        }
                    } else {
                        Ok((
                            CycleState {
                                completed_cycles: state.completed_cycles,
                                last_disbursed_at: state.last_disbursed_at,
                                active_disbursement: Some(ActiveDisbursement {
                                    total_lp_supply: vault.total_lp_supply,
                                    cycle_amount: amount,
                                    distributed_amount: 0,
                                    next_start_after: None,
                                }),
                            },
                            amount,
                            false,
                        ))
                    },
                }
            },
        }
    }
}

/// The batch size a call asks for: 50 when none is given, at most 150; `None`
/// when it is zero.
pub open spec fn batch_limit_of(limit: Option<u32>) -> Option<u32> {
    let value = match limit { Some(v) => v, None => DEFAULT_BATCH_LIMIT };
    if value == 0 {
        None
    } else {
        Some(if value < MAX_BATCH_LIMIT { value } else { MAX_BATCH_LIMIT })
    }
}

/// What one disbursement call does.
#[derive(Clone, Debug)]
pub enum DisburseStep {
    /// A zero-yield cycle was completed at once; `state` is to be stored.
    Completed { state: CycleState, cycle_amount: u128 },
    /// One batch of holders was paid; `outcome.state` is to be stored.
    Batch { outcome: BatchOutcome, cycle_amount: u128, batch_len: usize, has_more: bool },
}

/// Where the page of LP holders a call pays starts, and how many holders to ask
/// for: after the last holder paid in the cycle in progress (from the first for a
/// new cycle), one more than the batch, so that the extra one shows whether more
/// remain. `None` when the batch size is refused.
pub fn holders_page_request(state: &CycleState, limit: Option<u32>) -> (r: Option<(Option<String>, u32)>)
    ensures
        batch_limit_of(limit) is None ==> r is None,
        batch_limit_of(limit) matches Some(b) ==> r == Some((
            match state.active_disbursement { Some(a) => a.next_start_after, None => None::<String> },
            (b + 1) as u32,
        )),
{
    let b = match normalize_limit(limit) {
        Ok(b) => b,
        Err(_) => {
            return None;
        },
    };
    let start_after = match &state.active_disbursement {
        Some(a) => a.next_start_after.clone(),
        None => None,
    };
    Some((start_after, b + 1))
}

/// One call of the disbursement: refuse attached funds; open a cycle when none is
/// in progress (`vault` is the pool's totals, `reserve_balance` what the yield
/// reserve holds); then pay the next batch of the cycle's holders. `page` is the
/// page of holders `holders_page_request` asks for, each with its LP balance and
/// deposit time: the first holders up to the batch size are paid, and a holder
/// beyond them shows that more remain.
pub fn disburse_yield(
    funds: &Vec<Fund>,
    config: &Config,
    state: &CycleState,
    now: u64,
    vault: &VaultInfo,
    reserve_balance: u128,
    limit: Option<u32>,
    page: Vec<HolderInfo>,
) -> (res: Result<DisburseStep, YieldDistributorError>)
    ensures
        funds@.len() != 0 ==> res == Err::<DisburseStep, YieldDistributorError>(YieldDistributorError::UnexpectedFunds),
        funds@.len() == 0 ==> match opened_cycle(*config, *state, now, *vault, reserve_balance) {
            Err(e) => res == Err::<DisburseStep, YieldDistributorError>(e),
            Ok((s, amount, true)) => res == Ok::<DisburseStep, YieldDistributorError>(
                DisburseStep::Completed { state: s, cycle_amount: amount }),
            Ok((s, amount, false)) => match batch_limit_of(limit) {
                None => res == Err::<DisburseStep, YieldDistributorError>(YieldDistributorError::InvalidPaginationLimit),
                Some(b) => if page@.len() == 0 {
                    res == Err::<DisburseStep, YieldDistributorError>(YieldDistributorError::NoIndexedLpHolders)
                } else {
                    let has_more = page@.len() > b;
                    let batch = if has_more { page@.take(b as int) } else { page@ };
                    match res {
                        Ok(DisburseStep::Batch { outcome, cycle_amount, batch_len, has_more: more }) =>
                            cycle_amount == amount && batch_len == batch.len() && more == has_more
                            && batch_result(s, batch, has_more, *vault, *config, now, Ok(outcome)),
                        Ok(DisburseStep::Completed { .. }) => false,
                        Err(e) => batch_result(s, batch, has_more, *vault, *config, now, Err(e)),
                    }
                },
            },
        },
{
    require_no_funds(funds)?;
    let mut opened_state: Option<CycleState> = None;
    let mut cycle_amount: u128 = match &state.active_disbursement {
        Some(a) => a.cycle_amount,
        None => 0,
    };
    if check_cycle_ready(config, state, now)? {
        let amount = open_cycle_amount(config, vault)?;
        if amount != 0 {
            check_reserve_balance(amount, reserve_balance)?;
        }
        let (opened, completed) = open_cycle(state, vault, amount, now)?;
        if completed {
            return Ok(DisburseStep::Completed { state: opened, cycle_amount: amount });
        }
        opened_state = Some(opened);
        cycle_amount = amount;
    }
    let batch_limit = normalize_limit(limit)?;
    let ghost fetched = page@;
    let (batch, has_more) = split_batch(page, batch_limit)?;
    proof {
        if has_more {
            assert(fetched.subrange(0, batch_limit as int) =~= fetched.take(batch_limit as int));
        }
    }
    let current: &CycleState = match &opened_state {
        Some(o) => o,
        None => state,
    };
    let outcome = settle_batch(current, &batch, has_more, vault, config, now)?;
    Ok(DisburseStep::Batch { outcome, cycle_amount, batch_len: batch.len(), has_more })
}

// ---------------------------------------------------------------------------
// Status
// ---------------------------------------------------------------------------

#[derive(Clone, Debug)]
pub struct CycleStatusResponse {
    pub completed_cycles: u64,
    pub last_disbursed_at: Option<u64>,
    pub next_cycle_time: u64,
    pub next_cycle_amount: u128,
    pub disbursement_in_progress: bool,
    pub next_start_after: Option<String>,
    pub distributed_amount: u128,
}

/// The cycle's status: with a disbursement in progress, its progress; otherwise
/// the yield the next cycle would pay on the pool's current value (`vault`, the
/// pool's reported totals, needed only then).
pub fn cycle_status(config: &Config, state: &CycleState, vault: Option<VaultInfo>) -> (res: Result<CycleStatusResponse, YieldDistributorError>)
    requires
        state.active_disbursement is None ==> vault is Some,
    ensures
        res matches Ok(r) ==> {
            &&& r.completed_cycles == state.completed_cycles
            &&& r.last_disbursed_at == state.last_disbursed_at
            &&& r.next_cycle_time == next_cycle_time(*config, state.completed_cycles)
            &&& r.disbursement_in_progress == state.active_disbursement is Some
            &&& state.active_disbursement matches Some(a) ==> r.next_start_after == a.next_start_after
                && r.distributed_amount == a.distributed_amount && r.next_cycle_amount == a.cycle_amount
            &&& state.active_disbursement is None ==> r.next_start_after is None && r.distributed_amount == 0
                && (vault->0.total_lp_supply == 0 ==> r.next_cycle_amount == 0)
                && (vault->0.total_lp_supply != 0 ==> cycle_amount_result(vault->0.total_deposited,
                    config.investor_apy_bps, config.cycle_days) == Ok::<u128, YieldDistributorError>(r.next_cycle_amount))
        },
        next_cycle_result(*config, state.completed_cycles) matches Err(op) ==> res == Err::<CycleStatusResponse, YieldDistributorError>(
            YieldDistributorError::ArithmeticOverflow { operation: op }),
        next_cycle_result(*config, state.completed_cycles) is Ok ==> {
            let estimate = cycle_amount_result(vault->0.total_deposited, config.investor_apy_bps, config.cycle_days);
            &&& (state.active_disbursement is None && vault->0.total_lp_supply != 0 && estimate is Err) ==> res is Err
                && same_u128_result(Err(res->Err_0), estimate)
            &&& (state.active_disbursement is Some || vault->0.total_lp_supply == 0 || estimate is Ok) ==> res is Ok
        },
{
    let next = compute_next_cycle_time(config, state.completed_cycles)?;
    match &state.active_disbursement {
        Some(a) => Ok(CycleStatusResponse {
            completed_cycles: state.completed_cycles,
            last_disbursed_at: state.last_disbursed_at,
            next_cycle_time: next,
            next_cycle_amount: a.cycle_amount,
            disbursement_in_progress: true,
            next_start_after: a.next_start_after.clone(),
            distributed_amount: a.distributed_amount,
        }),
        None => {
            let v = match vault {
                Some(v) => v,
                None => {
                    return Err(YieldDistributorError::ArithmeticOverflow { operation: DistributorOp::MissingActiveDisbursement });
                },
            };
            let estimated = if v.total_lp_supply == 0 {
                0
            } else {
                calculate_cycle_amount(v.total_deposited, config.investor_apy_bps, config.cycle_days)?
            };
            Ok(CycleStatusResponse {
                completed_cycles: state.completed_cycles,
                last_disbursed_at: state.last_disbursed_at,
                next_cycle_time: next,
                next_cycle_amount: estimated,
                disbursement_in_progress: false,
                next_start_after: None,
                distributed_amount: 0,
            })
        },
    }
}

/// Cycles fall due one cycle length apart, counted from the anchor.
pub proof fn law_cycles_one_period_apart(config: Config, completed: u64)
    requires
        completed + 1 <= u64::MAX,
    ensures
        next_cycle_time(config, (completed + 1) as u64) == next_cycle_time(config, completed)
            + config.cycle_days * SECONDS_PER_DAY,
{
    let c = completed as int;
    let p = (config.cycle_days * SECONDS_PER_DAY) as int;
    assert((c + 2) * p == (c + 1) * p + p) by (nonlinear_arith);
}

} // verus!
