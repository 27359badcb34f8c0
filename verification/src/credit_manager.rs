use vstd::prelude::*;
use crate::types::{Drawdown, DrawdownStatus, Fund, Transfer, BPS_DENOMINATOR, SECONDS_PER_DAY};
use crate::psp_pool::views;

verus! {

pub const MAX_PAGE_LIMIT: u32 = 50;
pub const DEFAULT_PAGE_LIMIT: u32 = 20;

/// Which computation overflowed.
#[derive(Clone, Copy, Debug, PartialEq, Eq, Structural)]
pub enum CreditOp {
    OutstandingPlusRequest,
    PoolBalanceMinusDrawdownLimit,
    PoolBalanceMinusDrawdown,
    TenorDaysTimesSecondsPerDay,
    DrawdownTimestampPlusTenor,
    DrawdownIdPlusOne,
    PrincipalPlusFee,
    OutstandingMinusPrincipal,
    SecondsPerDayTimesTwo,
    OverdueCountPlusOne,
    DueDatePlusOverdueThreshold,
    PrincipalTimesPspRate,
    NormalFeeTimesDays,
    NormalFeeDivision,
    PrincipalTimesPenaltyRate,
    PenaltyFeeTimesDays,
    PenaltyFeeDivision,
    NormalFeePlusPenaltyFee,
}

/// Errors of the credit manager.
#[derive(Clone, Debug)]
pub enum CreditManagerError {
    Unauthorized { caller: String, expected: String },
    PspOnly,
    InvalidZeroAmount,
    ArithmeticOverflow { operation: CreditOp },
    ContractBlocked,
    DrawdownNotFound { drawdown_id: u64 },
    DrawdownNotRepayable { drawdown_id: u64, status: DrawdownStatus },
    DrawdownLimitExceeded { requested: u128, outstanding: u128, limit: u128 },
    PoolNotActive { current_state: String },
    OverdueDrawdownBlocks,
    MaxQueueWaitUnset,
    QueueWaitQueryFailed,
    QueueWaitBreach { wait_days: u64, max_queue_wait_days: u64 },
    InsufficientPoolReserve { post_drawdown_balance: u128, minimum_reserve: u128 },
    RepayFundsMismatch { expected: u128, received: u128, denom: String },
    InvalidFunds { denom: String },
    InvalidDiscretionaryWindow,
    ActiveDrawdownsExist,
    UnutilizedFeeFormulaUnset,
    InvalidTimestamp { current_timestamp: u64, drawdown_timestamp: u64 },
    InvalidAddress { message: String },
}

#[derive(Clone, Debug)]
pub struct Config {
    pub admin: String,
    pub psp_address: String,
    pub psp_pool: String,
    pub yield_reserve: String,
    pub stablecoin_denom: String,
    pub drawdown_limit: u128,
    pub drawdown_tenor_days: u64,
    pub psp_rate_bps_per_day: u64,
    pub penalty_rate_bps_per_day: u64,
    pub max_queue_wait_days: Option<u64>,
}

/// A window of time, in seconds, during which the admin may lift a block.
#[derive(Clone, Copy, Debug, PartialEq, Eq, Structural)]
pub struct DiscretionaryWindow {
    pub start_time: u64,
    pub end_time: u64,
}

/// The pool's lifecycle state as its state query reports it.
#[derive(Clone, Debug)]
pub struct PoolStatus {
    pub state: String,
    pub paused: bool,
}

#[derive(Clone, Debug)]
pub struct SystemStatusResponse {
    pub blocked: bool,
    pub outstanding_principal: u128,
    pub overdue_count: u64,
    pub next_drawdown_id: u64,
    pub discretionary_window_end: Option<u64>,
}

#[derive(Clone, Debug)]
pub struct MigrateMsg {}

// ---------------------------------------------------------------------------
// Fees
// ---------------------------------------------------------------------------

/// End of the normal-rate period, in seconds after the drawdown: the tenor plus a
/// 24h grace.
pub open spec fn normal_period_end(tenor_secs: u64) -> int {
    tenor_secs + SECONDS_PER_DAY
}

/// Whole days charged at the PSP rate.
pub open spec fn normal_days(elapsed: int, tenor_secs: u64) -> int {
    if elapsed <= normal_period_end(tenor_secs) {
        elapsed / (SECONDS_PER_DAY as int)
    } else {
        normal_period_end(tenor_secs) / (SECONDS_PER_DAY as int)
    }
}

/// Days charged at the penalty rate: the whole days past the normal period.
pub open spec fn penalty_days(elapsed: int, tenor_secs: u64) -> int {
    if elapsed <= normal_period_end(tenor_secs) {
        0
    } else {
        (elapsed - normal_period_end(tenor_secs)) / (SECONDS_PER_DAY as int)
    }
}

/// `principal * rate_bps * days / 10_000`, rounded down.
pub open spec fn fee_part(principal: u128, rate_bps: u64, days: int) -> int {
    (principal * rate_bps * days) / (BPS_DENOMINATOR as int)
}

/// The fee owed after `elapsed` seconds, in exact arithmetic.
pub open spec fn fee_value(principal: u128, elapsed: int, tenor_secs: u64, psp_rate: u64, penalty_rate: u64) -> int {
    fee_part(principal, psp_rate, normal_days(elapsed, tenor_secs)) + fee_part(
        principal,
        penalty_rate,
        penalty_days(elapsed, tenor_secs),
    )
}

/// What `calculate_fee` returns: the fee, or the first step that leaves 128 bits.
pub open spec fn fee_result(
    principal: u128,
    drawdown_timestamp: u64,
    current_timestamp: u64,
    tenor_secs: u64,
    psp_rate: u64,
    penalty_rate: u64,
) -> Result<u128, CreditManagerError> {
    let elapsed = current_timestamp - drawdown_timestamp;
    let nd = normal_days(elapsed, tenor_secs);
    let pd = penalty_days(elapsed, tenor_secs);
    if current_timestamp < drawdown_timestamp {
        Err(CreditManagerError::InvalidTimestamp { current_timestamp, drawdown_timestamp })
    } else if principal * psp_rate > u128::MAX {
        Err(CreditManagerError::ArithmeticOverflow { operation: CreditOp::PrincipalTimesPspRate })
    } else if principal * psp_rate * nd > u128::MAX {
        Err(CreditManagerError::ArithmeticOverflow { operation: CreditOp::NormalFeeTimesDays })
    } else if principal * penalty_rate > u128::MAX {
        Err(CreditManagerError::ArithmeticOverflow { operation: CreditOp::PrincipalTimesPenaltyRate })
    } else if principal * penalty_rate * pd > u128::MAX {
        Err(CreditManagerError::ArithmeticOverflow { operation: CreditOp::PenaltyFeeTimesDays })
    } else if fee_value(principal, elapsed, tenor_secs, psp_rate, penalty_rate) > u128::MAX {
        Err(CreditManagerError::ArithmeticOverflow { operation: CreditOp::NormalFeePlusPenaltyFee })
    } else {
        Ok(fee_value(principal, elapsed, tenor_secs, psp_rate, penalty_rate) as u128)
    }
}

pub open spec fn same_result(a: Result<u128, CreditManagerError>, b: Result<u128, CreditManagerError>) -> bool {
    match (a, b) {
        (Ok(x), Ok(y)) => x == y,
        (Err(CreditManagerError::InvalidTimestamp { current_timestamp: c1, drawdown_timestamp: d1 }),
         Err(CreditManagerError::InvalidTimestamp { current_timestamp: c2, drawdown_timestamp: d2 })) =>
            c1 == c2 && d1 == d2,
        (Err(CreditManagerError::ArithmeticOverflow { operation: o1 }),
         Err(CreditManagerError::ArithmeticOverflow { operation: o2 })) => o1 == o2,
        _ => false,
    }
}

proof fn lemma_days_nonneg(elapsed: int, tenor_secs: u64)
    requires
        elapsed >= 0,
    ensures
        normal_days(elapsed, tenor_secs) >= 0,
        penalty_days(elapsed, tenor_secs) >= 0,
{
}

/// Calculates the repayment fee at repayment time. The PSP rate applies for each
/// whole day up to tenor plus 24h; each whole day beyond that is charged at the
/// penalty rate instead.
pub fn calculate_fee(
    principal: u128,
    drawdown_timestamp: u64,
    current_timestamp: u64,
    drawdown_tenor_secs: u64,
    psp_rate_bps_per_day: u64,
    penalty_rate_bps_per_day: u64,
) -> (res: Result<u128, CreditManagerError>)
    requires
        current_timestamp >= drawdown_timestamp ==> drawdown_tenor_secs + SECONDS_PER_DAY <= u64::MAX,
    ensures
        same_result(
            res,
            fee_result(
                principal,
                drawdown_timestamp,
                current_timestamp,
                drawdown_tenor_secs,
                psp_rate_bps_per_day,
                penalty_rate_bps_per_day,
            ),
        ),
        res matches Ok(fee) ==> ({
            let e = current_timestamp - drawdown_timestamp;
            let g = drawdown_tenor_secs + 86_400;
            &&& e <= g ==> fee == (principal * psp_rate_bps_per_day * (e / 86_400)) / 10_000
            &&& e > g ==> fee == (principal * psp_rate_bps_per_day * (g / 86_400)) / 10_000
                + (principal * penalty_rate_bps_per_day * ((e - g) / 86_400)) / 10_000
        }),
{
    if current_timestamp < drawdown_timestamp {
        return Err(CreditManagerError::InvalidTimestamp { current_timestamp, drawdown_timestamp });
    }
    let elapsed_secs = current_timestamp - drawdown_timestamp;
    let normal_period_end_secs = drawdown_tenor_secs + SECONDS_PER_DAY;
    let (normal_days_v, penalty_days_v): (u64, u64) = if elapsed_secs <= normal_period_end_secs {
        (elapsed_secs / SECONDS_PER_DAY, 0u64)
    } else {
        (
            normal_period_end_secs / SECONDS_PER_DAY,
            (elapsed_secs - normal_period_end_secs) / SECONDS_PER_DAY,
        )
    };
    proof {
        lemma_days_nonneg(elapsed_secs as int, drawdown_tenor_secs);
    }
    assert(normal_days_v == normal_days(elapsed_secs as int, drawdown_tenor_secs));
    assert(penalty_days_v == penalty_days(elapsed_secs as int, drawdown_tenor_secs));

    let a = checked_mul(principal, psp_rate_bps_per_day as u128, CreditOp::PrincipalTimesPspRate)?;
    let b = checked_mul(a, normal_days_v as u128, CreditOp::NormalFeeTimesDays)?;
    let normal_fee = checked_div(b, BPS_DENOMINATOR as u128, CreditOp::NormalFeeDivision)?;

    let c = checked_mul(principal, penalty_rate_bps_per_day as u128, CreditOp::PrincipalTimesPenaltyRate)?;
    let d = checked_mul(c, penalty_days_v as u128, CreditOp::PenaltyFeeTimesDays)?;
    let penalty_fee = checked_div(d, BPS_DENOMINATOR as u128, CreditOp::PenaltyFeeDivision)?;

    let total = checked_add(normal_fee, penalty_fee, CreditOp::NormalFeePlusPenaltyFee);
    proof {
        if total is Ok {
            law_fee_rates_by_period(principal, drawdown_timestamp, current_timestamp, drawdown_tenor_secs,
                psp_rate_bps_per_day, penalty_rate_bps_per_day);
        }
    }
    total
}

/// Fees never shrink as time passes: repaying later never costs less.
pub proof fn law_fee_monotone_in_time(
    principal: u128,
    elapsed1: int,
    elapsed2: int,
    tenor_secs: u64,
    psp_rate: u64,
    penalty_rate: u64,
)
    requires
        0 <= elapsed1 <= elapsed2,
    ensures
        fee_value(principal, elapsed1, tenor_secs, psp_rate, penalty_rate) <= fee_value(
            principal,
            elapsed2,
            tenor_secs,
            psp_rate,
            penalty_rate,
        ),
{
    let day = SECONDS_PER_DAY as int;
    let end = normal_period_end(tenor_secs);
    let n1 = normal_days(elapsed1, tenor_secs);
    let n2 = normal_days(elapsed2, tenor_secs);
    let p1 = penalty_days(elapsed1, tenor_secs);
    let p2 = penalty_days(elapsed2, tenor_secs);
    assert(n1 <= n2) by {
        if elapsed2 <= end {
            assert(elapsed1 / day <= elapsed2 / day) by (nonlinear_arith)
                requires
                    0 <= elapsed1 <= elapsed2,
                    day > 0,
            ;
        } else if elapsed1 <= end {
            assert(elapsed1 / day <= end / day) by (nonlinear_arith)
                requires
                    0 <= elapsed1 <= end,
                    day > 0,
            ;
        }
    }
    assert(0 <= p1 <= p2) by {
        if elapsed1 > end {
            let x1 = elapsed1 - end;
            let x2 = elapsed2 - end;
            assert(0 <= x1 / day <= x2 / day) by (nonlinear_arith)
                requires
                    0 <= x1 <= x2,
                    day > 0,
            ;
        } else if elapsed2 > end {
            let x2 = elapsed2 - end;
            assert(0 <= x2 / day) by (nonlinear_arith)
                requires
                    0 <= x2,
                    day > 0,
            ;
        }
    }
    lemma_days_nonneg(elapsed1, tenor_secs);
    lemma_fee_part_monotone(principal, psp_rate, n1, n2);
    lemma_fee_part_monotone(principal, penalty_rate, p1, p2);
}

/// The fee charges the PSP rate for each whole day elapsed up to 24 hours past the
/// tenor, and the penalty rate, instead, for each whole day after that:
/// with `e` the seconds elapsed and `g = tenor + 86_400`, the fee is
/// `floor(principal * psp * floor(e / 86_400) / 10_000)` when `e <= g`, and
/// `floor(principal * psp * floor(g / 86_400) / 10_000)
///  + floor(principal * penalty * floor((e - g) / 86_400) / 10_000)` beyond it.
pub proof fn law_fee_rates_by_period(
    principal: u128,
    drawdown_timestamp: u64,
    current_timestamp: u64,
    tenor_secs: u64,
    psp_rate: u64,
    penalty_rate: u64,
)
    requires
        fee_result(principal, drawdown_timestamp, current_timestamp, tenor_secs, psp_rate, penalty_rate) is Ok,
    ensures
        current_timestamp >= drawdown_timestamp,
        ({
            let fee = fee_result(principal, drawdown_timestamp, current_timestamp, tenor_secs, psp_rate, penalty_rate)->Ok_0;
            let e = current_timestamp - drawdown_timestamp;
            let g = tenor_secs + 86_400;
            &&& e <= g ==> fee == (principal * psp_rate * (e / 86_400)) / 10_000
            &&& e > g ==> fee == (principal * psp_rate * (g / 86_400)) / 10_000
                + (principal * penalty_rate * ((e - g) / 86_400)) / 10_000
        }),
{
    let e = current_timestamp - drawdown_timestamp;
    let g = tenor_secs + 86_400;
    if e <= g {
        let x = principal * penalty_rate;
        assert(x * 0 == 0) by (nonlinear_arith);
        assert(penalty_days(e, tenor_secs) == 0);
        assert(fee_part(principal, penalty_rate, 0) == 0);
    }
}

proof fn lemma_fee_part_monotone(principal: u128, rate: u64, d1: int, d2: int)
    requires
        0 <= d1 <= d2,
    ensures
        fee_part(principal, rate, d1) <= fee_part(principal, rate, d2),
{
    let pr = principal * rate;
    assert(pr * d1 <= pr * d2) by (nonlinear_arith)
        requires
            pr >= 0,
            0 <= d1 <= d2,
    ;
    assert((pr * d1) / 10_000 <= (pr * d2) / 10_000) by (nonlinear_arith)
        requires
            pr * d1 <= pr * d2,
    ;
}

// ---------------------------------------------------------------------------
// Checked helpers
// ---------------------------------------------------------------------------

pub fn checked_add(a: u128, b: u128, operation: CreditOp) -> (res: Result<u128, CreditManagerError>)
    ensures
        a + b <= u128::MAX ==> res == Ok::<u128, CreditManagerError>((a + b) as u128),
        a + b > u128::MAX ==> res == Err::<u128, CreditManagerError>(CreditManagerError::ArithmeticOverflow { operation }),
{
    match a.checked_add(b) {
        Some(v) => Ok(v),
        None => Err(CreditManagerError::ArithmeticOverflow { operation }),
    }
}

pub fn checked_sub(a: u128, b: u128, operation: CreditOp) -> (res: Result<u128, CreditManagerError>)
    ensures
        b <= a ==> res == Ok::<u128, CreditManagerError>((a - b) as u128),
        b > a ==> res == Err::<u128, CreditManagerError>(CreditManagerError::ArithmeticOverflow { operation }),
{
    match a.checked_sub(b) {
        Some(v) => Ok(v),
        None => Err(CreditManagerError::ArithmeticOverflow { operation }),
    }
}

pub fn checked_mul(a: u128, b: u128, operation: CreditOp) -> (res: Result<u128, CreditManagerError>)
    ensures
        a * b <= u128::MAX ==> res == Ok::<u128, CreditManagerError>((a * b) as u128),
        a * b > u128::MAX ==> res == Err::<u128, CreditManagerError>(CreditManagerError::ArithmeticOverflow { operation }),
{
    match a.checked_mul(b) {
        Some(v) => Ok(v),
        None => Err(CreditManagerError::ArithmeticOverflow { operation }),
    }
}

pub fn checked_div(a: u128, b: u128, operation: CreditOp) -> (res: Result<u128, CreditManagerError>)
    ensures
        b != 0 ==> res == Ok::<u128, CreditManagerError>((a / b) as u128),
        b == 0 ==> res == Err::<u128, CreditManagerError>(CreditManagerError::ArithmeticOverflow { operation }),
{
    match a.checked_div(b) {
        Some(v) => Ok(v),
        None => Err(CreditManagerError::ArithmeticOverflow { operation }),
    }
}

pub fn checked_add_u64(a: u64, b: u64, operation: CreditOp) -> (res: Result<u64, CreditManagerError>)
    ensures
        a + b <= u64::MAX ==> res == Ok::<u64, CreditManagerError>((a + b) as u64),
        a + b > u64::MAX ==> res == Err::<u64, CreditManagerError>(CreditManagerError::ArithmeticOverflow { operation }),
{
    match a.checked_add(b) {
        Some(v) => Ok(v),
        None => Err(CreditManagerError::ArithmeticOverflow { operation }),
    }
}


// ---------------------------------------------------------------------------
// Authorization and funds
// ---------------------------------------------------------------------------

pub fn require_admin(sender: &String, config: &Config) -> (res: Result<(), CreditManagerError>)
    ensures
        sender@ == config.admin@ ==> res is Ok,
        sender@ != config.admin@ ==> res == Err::<(), CreditManagerError>(
            CreditManagerError::Unauthorized { caller: *sender, expected: config.admin }),
{
    if *sender != config.admin {
        return Err(CreditManagerError::Unauthorized { caller: sender.clone(), expected: config.admin.clone() });
    }
    Ok(())
}

pub fn require_psp(sender: &String, config: &Config) -> (res: Result<(), CreditManagerError>)
    ensures
        sender@ == config.psp_address@ ==> res is Ok,
        sender@ != config.psp_address@ ==> res == Err::<(), CreditManagerError>(CreditManagerError::PspOnly),
{
    if *sender != config.psp_address {
        return Err(CreditManagerError::PspOnly);
    }
    Ok(())
}

/// The attached funds must be exactly one coin of `denom` of exactly `expected`.
pub fn extract_single_exact_fund(funds: &Vec<Fund>, denom: &String, expected: u128) -> (res: Result<u128, CreditManagerError>)
    ensures
        funds@.len() != 1 || funds@[0].denom@ != denom@ ==> res == Err::<u128, CreditManagerError>(
            CreditManagerError::InvalidFunds { denom: *denom }),
        funds@.len() == 1 && funds@[0].denom@ == denom@ && funds@[0].amount != expected ==> res == Err::<u128, CreditManagerError>(
            CreditManagerError::RepayFundsMismatch { expected, received: funds@[0].amount, denom: *denom }),
        funds@.len() == 1 && funds@[0].denom@ == denom@ && funds@[0].amount == expected ==> res == Ok::<u128, CreditManagerError>(
            expected),
{
    if funds.len() != 1 || funds[0].denom != *denom {
        return Err(CreditManagerError::InvalidFunds { denom: denom.clone() });
    }
    let received = funds[0].amount;
    if received != expected {
        return Err(CreditManagerError::RepayFundsMismatch { expected, received, denom: denom.clone() });
    }
    Ok(received)
}

// ---------------------------------------------------------------------------
// Overdue drawdowns and the block
// ---------------------------------------------------------------------------

/// Seconds past the due date after which an active drawdown is overdue.
pub const OVERDUE_GRACE_SECS: u64 = 172_800;

/// An active drawdown falls overdue once the time is past its due date plus two
/// days.
pub open spec fn falls_overdue(d: Drawdown, now: u64) -> bool {
    d.status == DrawdownStatus::Active && now > d.due_date + OVERDUE_GRACE_SECS
}

/// Whether a drawdown counts as overdue after a recomputation at `now`.
pub open spec fn counts_overdue(d: Drawdown, now: u64) -> bool {
    d.status == DrawdownStatus::Overdue || falls_overdue(d, now)
}

pub open spec fn overdue_count_spec(ds: Seq<Drawdown>, now: u64) -> nat
    decreases ds.len(),
{
    if ds.len() == 0 {
        0
    } else {
        overdue_count_spec(ds.drop_last(), now) + if counts_overdue(ds.last(), now) { 1nat } else { 0nat }
    }
}

/// The ids of the drawdowns that fall overdue now, in order.
pub open spec fn newly_overdue_ids(ds: Seq<Drawdown>, now: u64) -> Seq<u64>
    decreases ds.len(),
{
    if ds.len() == 0 {
        Seq::empty()
    } else {
        let p = newly_overdue_ids(ds.drop_last(), now);
        if falls_overdue(ds.last(), now) { p.push(ds.last().id) } else { p }
    }
}

/// Some active drawdown's due date is too late for the grace to be added.
pub open spec fn grace_overflows(ds: Seq<Drawdown>) -> bool {
    exists|i: int| 0 <= i < ds.len() && ds[i].status == DrawdownStatus::Active
        && ds[i].due_date + OVERDUE_GRACE_SECS > u64::MAX
}

/// Whether a discretionary window covers `now`, bounds included.
pub open spec fn window_active(window: Option<DiscretionaryWindow>, now: u64) -> bool {
    match window {
        Some(w) => now >= w.start_time && now <= w.end_time,
        None => false,
    }
}

pub fn discretionary_window_is_active(window: Option<DiscretionaryWindow>, now: u64) -> (r: bool)
    ensures
        r == window_active(window, now),
{
    match window {
        Some(w) => now >= w.start_time && now <= w.end_time,
        None => false,
    }
}

/// The result of recomputing overdue drawdowns.
#[derive(Clone, Debug)]
pub struct OverdueScan {
    /// Drawdowns overdue after the scan.
    pub overdue_count: u64,
    /// Active drawdowns to mark overdue, in id order.
    pub newly_overdue: Vec<u64>,
    /// The block flag to store, where it changes.
    pub store_blocked: Option<bool>,
    /// Whether new drawdowns are blocked.
    pub blocked: bool,
}

/// The block after a scan finding `count` overdue drawdowns: lifted when there is
/// none, set when there is one and no discretionary window is active, and
/// otherwise left as stored (blocked when never stored).
pub open spec fn blocked_after(count: nat, window: Option<DiscretionaryWindow>, now: u64, stored: Option<bool>) -> bool {
    if count == 0 {
        false
    } else if !window_active(window, now) {
        true
    } else {
        match stored { Some(b) => b, None => true }
    }
}

proof fn lemma_overdue_count_le_len(ds: Seq<Drawdown>, now: u64)
    ensures
        overdue_count_spec(ds, now) <= ds.len(),
    decreases ds.len(),
{
    if ds.len() > 0 {
        lemma_overdue_count_le_len(ds.drop_last(), now);
    }
}

/// Recomputes which drawdowns are overdue, over all stored drawdowns in id order,
/// and whether new drawdowns are blocked. `stored_blocked` is the stored flag.
pub fn recompute_overdue_and_block(
    drawdowns: &Vec<Drawdown>,
    now: u64,
    window: Option<DiscretionaryWindow>,
    stored_blocked: Option<bool>,
) -> (res: Result<OverdueScan, CreditManagerError>)
    ensures
        grace_overflows(drawdowns@) ==> res == Err::<OverdueScan, CreditManagerError>(
            CreditManagerError::ArithmeticOverflow { operation: CreditOp::DueDatePlusOverdueThreshold }),
        !grace_overflows(drawdowns@) ==> (res matches Ok(scan) && {
            let count = overdue_count_spec(drawdowns@, now);
            &&& scan.overdue_count == count
            &&& scan.newly_overdue@ == newly_overdue_ids(drawdowns@, now)
            &&& scan.blocked == blocked_after(count, window, now, stored_blocked)
            &&& scan.store_blocked == (if count == 0 { Some(false) } else if !window_active(window, now) {
                Some(true) } else { None::<bool> })
        }),
{
    let extra = SECONDS_PER_DAY * 2;
    let mut marks: Vec<u64> = Vec::new();
    let mut count: u64 = 0;
    let mut i: usize = 0;
    while i < drawdowns.len()
        invariant
            extra == OVERDUE_GRACE_SECS,
            i <= drawdowns@.len(),
            count == overdue_count_spec(drawdowns@.subrange(0, i as int), now),
            marks@ == newly_overdue_ids(drawdowns@.subrange(0, i as int), now),
            !grace_overflows(drawdowns@.subrange(0, i as int)),
        decreases drawdowns@.len() - i,
    {
        let ghost prefix = drawdowns@.subrange(0, i as int + 1);
        proof {
            assert(prefix.drop_last() =~= drawdowns@.subrange(0, i as int));
            assert(prefix.last() == drawdowns@[i as int]);
            lemma_overdue_count_le_len(drawdowns@.subrange(0, i as int), now);
        }
        let d = &drawdowns[i];
        match d.status {
            DrawdownStatus::Overdue => {
                count = count + 1;
            },
            DrawdownStatus::Active => {
                let overdue_time = match d.due_date.checked_add(extra) {
                    Some(t) => t,
                    None => {
                        proof {
                            assert(drawdowns@[i as int].status == DrawdownStatus::Active);
                        }
                        return Err(CreditManagerError::ArithmeticOverflow { operation: CreditOp::DueDatePlusOverdueThreshold });
                    },
                };
                if now > overdue_time {
                    marks.push(d.id);
                    count = count + 1;
                }
            },
            DrawdownStatus::Settled => {},
        }
        proof {
            assert(drawdowns@[i as int].status != DrawdownStatus::Active
                || drawdowns@[i as int].due_date + OVERDUE_GRACE_SECS <= u64::MAX);
            assert forall|k: int| 0 <= k < prefix.len() implies !(prefix[k].status == DrawdownStatus::Active
                && prefix[k].due_date + OVERDUE_GRACE_SECS > u64::MAX) by {
                if k < i {
                    assert(prefix[k] == drawdowns@.subrange(0, i as int)[k]);
                }
            }
        }
        i = i + 1;
    }
    proof {
        assert(drawdowns@.subrange(0, drawdowns@.len() as int) =~= drawdowns@);
    }
    if count == 0 {
        return Ok(OverdueScan { overdue_count: 0, newly_overdue: marks, store_blocked: Some(false), blocked: false });
    }
    let active = discretionary_window_is_active(window, now);
    if !active {
        return Ok(OverdueScan { overdue_count: count, newly_overdue: marks, store_blocked: Some(true), blocked: true });
    }
    let blocked = match stored_blocked {
        Some(b) => b,
        None => true,
    };
    Ok(OverdueScan { overdue_count: count, newly_overdue: marks, store_blocked: None, blocked })
}

/// With no discretionary window in force, any overdue drawdown blocks new
/// drawdowns, and with none overdue nothing is blocked.
pub proof fn law_overdue_blocks_outside_window(count: nat, window: Option<DiscretionaryWindow>, now: u64, stored: Option<bool>)
    ensures
        count > 0 && !window_active(window, now) ==> blocked_after(count, window, now, stored),
        count == 0 ==> !blocked_after(count, window, now, stored),
{
}

// ---------------------------------------------------------------------------
// Drawdowns
// ---------------------------------------------------------------------------

/// What a drawdown records.
#[derive(Clone, Debug)]
pub struct DrawdownOutcome {
    /// The recomputation made before the drawdown.
    pub scan: OverdueScan,
    pub drawdown: Drawdown,
    pub next_drawdown_id: u64,
    pub outstanding: u128,
    /// The principal the pool is to disburse, and to whom.
    pub disbursement: Transfer,
}

/// Tenor in seconds.
pub open spec fn tenor_secs(config: Config) -> int {
    config.drawdown_tenor_days * SECONDS_PER_DAY
}

/// The pool balance the pool must keep after a drawdown: whatever exceeds the
/// drawdown limit.
pub open spec fn minimum_reserve(pool_balance: u128, limit: u128) -> int {
    if pool_balance > limit { pool_balance - limit } else { 0 }
}

/// Why a drawdown that passed the pool and queue checks is refused, in the order
/// the checks run: the overdue scan overflowing or blocking, the outstanding
/// principal overflowing or exceeding the limit, the pool balance not covering the
/// drawdown or falling below the minimum reserve, and the due date or next id not
/// fitting in 64 bits. `None` when the drawdown is granted.
pub open spec fn drawdown_refusal(
    ds: Seq<Drawdown>,
    now: u64,
    window: Option<DiscretionaryWindow>,
    stored_blocked: Option<bool>,
    config: Config,
    amount: u128,
    outstanding: u128,
    pool_balance: u128,
    next_id: u64,
) -> Option<CreditManagerError> {
    let reserve = minimum_reserve(pool_balance, config.drawdown_limit);
    if grace_overflows(ds) {
        Some(CreditManagerError::ArithmeticOverflow { operation: CreditOp::DueDatePlusOverdueThreshold })
    } else if blocked_after(overdue_count_spec(ds, now), window, now, stored_blocked) {
        Some(CreditManagerError::OverdueDrawdownBlocks)
    } else if outstanding + amount > u128::MAX {
        Some(CreditManagerError::ArithmeticOverflow { operation: CreditOp::OutstandingPlusRequest })
    } else if outstanding + amount > config.drawdown_limit {
        Some(CreditManagerError::DrawdownLimitExceeded { requested: amount, outstanding, limit: config.drawdown_limit })
    } else if pool_balance < amount {
        Some(CreditManagerError::ArithmeticOverflow { operation: CreditOp::PoolBalanceMinusDrawdown })
    } else if pool_balance - amount < reserve {
        Some(CreditManagerError::InsufficientPoolReserve {
            post_drawdown_balance: (pool_balance - amount) as u128,
            minimum_reserve: reserve as u128,
        })
    } else if tenor_secs(config) > u64::MAX {
        Some(CreditManagerError::ArithmeticOverflow { operation: CreditOp::TenorDaysTimesSecondsPerDay })
    } else if now + tenor_secs(config) > u64::MAX {
        Some(CreditManagerError::ArithmeticOverflow { operation: CreditOp::DrawdownTimestampPlusTenor })
    } else if next_id + 1 > u64::MAX {
        Some(CreditManagerError::ArithmeticOverflow { operation: CreditOp::DrawdownIdPlusOne })
    } else {
        None
    }
}

/// The PSP draws `amount` from the pool. `pool` is the pool's reported state,
/// `queue_wait` the age in days of the pool's oldest queued withdrawal (`Err`
/// when that query failed), `drawdowns` all stored drawdowns in id order,
/// `outstanding` the outstanding principal and `next_id` the next drawdown id.
pub fn request_drawdown(
    sender: &String,
    config: &Config,
    amount: u128,
    pool: &PoolStatus,
    queue_wait: Result<Option<u64>, ()>,
    drawdowns: &Vec<Drawdown>,
    window: Option<DiscretionaryWindow>,
    stored_blocked: Option<bool>,
    outstanding: u128,
    pool_balance: u128,
    next_id: u64,
    now: u64,
) -> (res: Result<DrawdownOutcome, CreditManagerError>)
    ensures
        sender@ != config.psp_address@ ==> res == Err::<DrawdownOutcome, CreditManagerError>(CreditManagerError::PspOnly),
        sender@ == config.psp_address@ && amount == 0 ==> res == Err::<DrawdownOutcome, CreditManagerError>(
            CreditManagerError::InvalidZeroAmount),
        sender@ == config.psp_address@ && amount != 0 && (pool.paused || pool.state@ != "Active"@) ==> res
            == Err::<DrawdownOutcome, CreditManagerError>(CreditManagerError::PoolNotActive { current_state: pool.state }),
        sender@ == config.psp_address@ && amount != 0 && !pool.paused && pool.state@ == "Active"@ ==> ({
            let max_wait = config.max_queue_wait_days;
            &&& max_wait is None ==> res == Err::<DrawdownOutcome, CreditManagerError>(CreditManagerError::MaxQueueWaitUnset)
            &&& max_wait is Some && queue_wait is Err ==> res == Err::<DrawdownOutcome, CreditManagerError>(
                CreditManagerError::QueueWaitQueryFailed)
            &&& max_wait is Some && (queue_wait matches Ok(Some(w)) && w > max_wait->0) ==> res == Err::<DrawdownOutcome, CreditManagerError>(
                CreditManagerError::QueueWaitBreach { wait_days: queue_wait->Ok_0->0, max_queue_wait_days: max_wait->0 })
            &&& max_wait is Some && (queue_wait matches Ok(w) && (w is None || w->0 <= max_wait->0)) ==> {
                let refusal = drawdown_refusal(drawdowns@, now, window, stored_blocked, *config, amount, outstanding,
                    pool_balance, next_id);
                &&& refusal matches Some(e) ==> res == Err::<DrawdownOutcome, CreditManagerError>(e)
                &&& refusal is None ==> res is Ok
            }
        }),
        res matches Ok(o) ==> {
            &&& o.scan.overdue_count == overdue_count_spec(drawdowns@, now)
            &&& o.scan.newly_overdue@ == newly_overdue_ids(drawdowns@, now)
            &&& !o.scan.blocked
            &&& o.scan.store_blocked == (if overdue_count_spec(drawdowns@, now) == 0 { Some(false) } else { None::<bool> })
            &&& o.drawdown == Drawdown {
                id: next_id,
                principal: amount,
                timestamp: now,
                due_date: (now + tenor_secs(*config)) as u64,
                status: DrawdownStatus::Active,
                settled_at: None,
                fee_paid: None,
            }
            &&& o.next_drawdown_id == next_id + 1
            &&& o.outstanding == outstanding + amount
            &&& o.outstanding <= config.drawdown_limit
            &&& o.disbursement.to_address == config.psp_address && o.disbursement.amount == amount
            &&& o.disbursement.denom == config.stablecoin_denom
            &&& pool_balance - amount >= minimum_reserve(pool_balance, config.drawdown_limit)
        },
{
    require_psp(sender, config)?;
    if amount == 0 {
        return Err(CreditManagerError::InvalidZeroAmount);
    }
    let state_is_active = crate::types::text_equals(&pool.state, "Active");
    if pool.paused || !state_is_active {
        return Err(CreditManagerError::PoolNotActive { current_state: pool.state.clone() });
    }
    let max_wait = match config.max_queue_wait_days {
        Some(m) => m,
        None => {
            return Err(CreditManagerError::MaxQueueWaitUnset);
        },
    };
    match queue_wait {
        Err(()) => {
            return Err(CreditManagerError::QueueWaitQueryFailed);
        },
        Ok(Some(w)) => {
            if w > max_wait {
                return Err(CreditManagerError::QueueWaitBreach { wait_days: w, max_queue_wait_days: max_wait });
            }
        },
        Ok(None) => {},
    }
    let scan = recompute_overdue_and_block(drawdowns, now, window, stored_blocked)?;
    if scan.blocked {
        return Err(CreditManagerError::OverdueDrawdownBlocks);
    }
    let new_outstanding = checked_add(outstanding, amount, CreditOp::OutstandingPlusRequest)?;
    if new_outstanding > config.drawdown_limit {
        return Err(CreditManagerError::DrawdownLimitExceeded { requested: amount, outstanding, limit: config.drawdown_limit });
    }
    let reserve = if pool_balance > config.drawdown_limit {
        checked_sub(pool_balance, config.drawdown_limit, CreditOp::PoolBalanceMinusDrawdownLimit)?
    } else {
        0
    };
    let post = checked_sub(pool_balance, amount, CreditOp::PoolBalanceMinusDrawdown)?;
    if post < reserve {
        return Err(CreditManagerError::InsufficientPoolReserve { post_drawdown_balance: post, minimum_reserve: reserve });
    }
    let tenor = match config.drawdown_tenor_days.checked_mul(SECONDS_PER_DAY) {
        Some(t) => t,
        None => {
            return Err(CreditManagerError::ArithmeticOverflow { operation: CreditOp::TenorDaysTimesSecondsPerDay });
        },
    };
    let due_date = checked_add_u64(now, tenor, CreditOp::DrawdownTimestampPlusTenor)?;
    let drawdown = Drawdown {
        id: next_id,
        principal: amount,
        timestamp: now,
        due_date,
        status: DrawdownStatus::Active,
        settled_at: None,
        fee_paid: None,
    };
    let next = checked_add_u64(next_id, 1, CreditOp::DrawdownIdPlusOne)?;
    Ok(DrawdownOutcome {
        scan,
        drawdown,
        next_drawdown_id: next,
        outstanding: new_outstanding,
        disbursement: Transfer {
            to_address: config.psp_address.clone(),
            denom: config.stablecoin_denom.clone(),
            amount,
        },
    })
}

/// What a repayment records.
#[derive(Clone, Debug)]
pub struct RepayOutcome {
    /// The drawdown, now settled.
    pub drawdown: Drawdown,
    pub fee: u128,
    pub outstanding: u128,
    /// The principal returned to the pool.
    pub principal_transfer: Transfer,
    /// The fee sent on to the yield reserve; none when the fee is zero.
    pub fee_transfer: Option<Transfer>,
}

/// The PSP repays a drawdown with principal plus fee, attached as one exact coin.
/// The principal returns to the pool and the fee goes to the yield reserve.
/// Overdue drawdowns are recomputed afterwards, over the stored drawdowns.
pub fn repay(
    sender: &String,
    config: &Config,
    drawdown_id: u64,
    drawdown: Option<Drawdown>,
    now: u64,
    funds: &Vec<Fund>,
    outstanding: u128,
) -> (res: Result<RepayOutcome, CreditManagerError>)
    requires
        sender@ == config.psp_address@ && (drawdown matches Some(d) && d.status != DrawdownStatus::Settled
            && now >= d.timestamp) && tenor_secs(*config) <= u64::MAX ==> tenor_secs(*config) + SECONDS_PER_DAY <= u64::MAX,
    ensures
        sender@ != config.psp_address@ ==> res == Err::<RepayOutcome, CreditManagerError>(CreditManagerError::PspOnly),
        sender@ == config.psp_address@ && drawdown is None ==> res == Err::<RepayOutcome, CreditManagerError>(
            CreditManagerError::DrawdownNotFound { drawdown_id }),
        sender@ == config.psp_address@ && (drawdown matches Some(d) && d.status == DrawdownStatus::Settled) ==> res
            == Err::<RepayOutcome, CreditManagerError>(
            CreditManagerError::DrawdownNotRepayable { drawdown_id, status: DrawdownStatus::Settled }),
        sender@ == config.psp_address@ && (drawdown matches Some(d) && d.status != DrawdownStatus::Settled)
            && tenor_secs(*config) > u64::MAX ==> res == Err::<RepayOutcome, CreditManagerError>(
            CreditManagerError::ArithmeticOverflow { operation: CreditOp::TenorDaysTimesSecondsPerDay }),
        sender@ == config.psp_address@ && (drawdown matches Some(d) && d.status != DrawdownStatus::Settled)
            && tenor_secs(*config) <= u64::MAX ==> ({
            let d = drawdown->0;
            let f = fee_result(d.principal, d.timestamp, now, tenor_secs(*config) as u64, config.psp_rate_bps_per_day,
                config.penalty_rate_bps_per_day);
            &&& f is Err ==> res is Err && same_result(Err(res->Err_0), f)
            &&& (f is Ok && d.principal + f->Ok_0 > u128::MAX) ==> res == Err::<RepayOutcome, CreditManagerError>(
                CreditManagerError::ArithmeticOverflow { operation: CreditOp::PrincipalPlusFee })
            &&& (f is Ok && d.principal + f->Ok_0 <= u128::MAX) ==> ({
                let total = (d.principal + f->Ok_0) as u128;
                &&& (funds@.len() != 1 || funds@[0].denom@ != config.stablecoin_denom@) ==> res
                    == Err::<RepayOutcome, CreditManagerError>(CreditManagerError::InvalidFunds { denom: config.stablecoin_denom })
                &&& (funds@.len() == 1 && funds@[0].denom@ == config.stablecoin_denom@ && funds@[0].amount != total) ==> res
                    == Err::<RepayOutcome, CreditManagerError>(CreditManagerError::RepayFundsMismatch {
                        expected: total, received: funds@[0].amount, denom: config.stablecoin_denom })
                &&& (funds@.len() == 1 && funds@[0].denom@ == config.stablecoin_denom@ && funds@[0].amount == total
                    && d.principal <= outstanding) ==> res is Ok
                &&& (funds@.len() == 1 && funds@[0].denom@ == config.stablecoin_denom@ && funds@[0].amount == total
                    && d.principal > outstanding) ==> res == Err::<RepayOutcome, CreditManagerError>(
                    CreditManagerError::ArithmeticOverflow { operation: CreditOp::OutstandingMinusPrincipal })
            })
        }),
        res matches Ok(o) ==> {
            let d = drawdown->0;
            &&& d.status != DrawdownStatus::Settled
            &&& fee_result(d.principal, d.timestamp, now, tenor_secs(*config) as u64, config.psp_rate_bps_per_day,
                config.penalty_rate_bps_per_day) == Ok::<u128, CreditManagerError>(o.fee)
            &&& o.drawdown == Drawdown { status: DrawdownStatus::Settled, settled_at: Some(now), fee_paid: Some(o.fee), ..d }
            &&& o.outstanding == outstanding - d.principal
            &&& o.principal_transfer.to_address == config.psp_pool && o.principal_transfer.amount == d.principal
            &&& o.principal_transfer.denom == config.stablecoin_denom
            &&& (o.fee == 0 <==> o.fee_transfer is None)
            &&& (o.fee_transfer matches Some(t) ==> t.to_address == config.yield_reserve && t.amount == o.fee
                && t.denom == config.stablecoin_denom)
            &&& funds@.len() == 1 && funds@[0].denom@ == config.stablecoin_denom@
                && funds@[0].amount == o.principal_transfer.amount + o.fee
        },
{
    require_psp(sender, config)?;
    let d = match drawdown {
        Some(d) => d,
        None => {
            return Err(CreditManagerError::DrawdownNotFound { drawdown_id });
        },
    };
    if d.status == DrawdownStatus::Settled {
        return Err(CreditManagerError::DrawdownNotRepayable { drawdown_id, status: d.status });
    }
    let tenor = match config.drawdown_tenor_days.checked_mul(SECONDS_PER_DAY) {
        Some(t) => t,
        None => {
            return Err(CreditManagerError::ArithmeticOverflow { operation: CreditOp::TenorDaysTimesSecondsPerDay });
        },
    };
    let fee = calculate_fee(d.principal, d.timestamp, now, tenor, config.psp_rate_bps_per_day, config.penalty_rate_bps_per_day)?;
    let total = checked_add(d.principal, fee, CreditOp::PrincipalPlusFee)?;
    extract_single_exact_fund(funds, &config.stablecoin_denom, total)?;
    let new_outstanding = checked_sub(outstanding, d.principal, CreditOp::OutstandingMinusPrincipal)?;
    let settled = Drawdown {
        id: d.id,
        principal: d.principal,
        timestamp: d.timestamp,
        due_date: d.due_date,
        status: DrawdownStatus::Settled,
        settled_at: Some(now),
        fee_paid: Some(fee),
    };
    let fee_transfer = if fee != 0 {
        Some(Transfer { to_address: config.yield_reserve.clone(), denom: config.stablecoin_denom.clone(), amount: fee })
    } else {
        None
    };
    Ok(RepayOutcome {
        drawdown: settled,
        fee,
        outstanding: new_outstanding,
        principal_transfer: Transfer {
            to_address: config.psp_pool.clone(),
            denom: config.stablecoin_denom.clone(),
            amount: d.principal,
        },
        fee_transfer,
    })
}

// ---------------------------------------------------------------------------
// The outstanding principal
// ---------------------------------------------------------------------------

/// What the drawdowns not yet settled owe: the sum of their principals.
pub open spec fn unsettled_principal(ds: Seq<Drawdown>) -> int
    decreases ds.len(),
{
    if ds.len() == 0 {
        0
    } else {
        unsettled_principal(ds.drop_last())
            + if ds.last().status != DrawdownStatus::Settled { ds.last().principal as int } else { 0 }
    }
}

/// The drawdowns after an overdue scan at `now`: each one falling overdue is marked
/// overdue, as the ids the scan reports are.
pub open spec fn after_scan(ds: Seq<Drawdown>, now: u64) -> Seq<Drawdown> {
    ds.map_values(|d: Drawdown| if falls_overdue(d, now) { Drawdown { status: DrawdownStatus::Overdue, ..d } } else { d })
}

proof fn lemma_scan_keeps_unsettled(ds: Seq<Drawdown>, now: u64)
    ensures
        unsettled_principal(after_scan(ds, now)) == unsettled_principal(ds),
    decreases ds.len(),
{
    if ds.len() > 0 {
        assert(after_scan(ds, now).drop_last() =~= after_scan(ds.drop_last(), now));
        lemma_scan_keeps_unsettled(ds.drop_last(), now);
    }
}

proof fn lemma_unsettled_update(ds: Seq<Drawdown>, k: int, d: Drawdown)
    requires
        0 <= k < ds.len(),
    ensures
        unsettled_principal(ds.update(k, d)) == unsettled_principal(ds)
            - (if ds[k].status != DrawdownStatus::Settled { ds[k].principal as int } else { 0 })
            + (if d.status != DrawdownStatus::Settled { d.principal as int } else { 0 }),
    decreases ds.len(),
{
    if k == ds.len() - 1 {
        assert(ds.update(k, d).drop_last() =~= ds.drop_last());
    } else {
        assert(ds.update(k, d).drop_last() =~= ds.drop_last().update(k, d));
        lemma_unsettled_update(ds.drop_last(), k, d);
    }
}

/// A granted drawdown, as `request_drawdown` returns it, adds its principal both to
/// the outstanding principal and to what the unsettled drawdowns owe; the scan
/// before it only moves drawdowns from active to overdue. So the outstanding
/// principal stays equal to the principal of the drawdowns not yet settled.
pub proof fn law_drawdown_keeps_outstanding(
    ds: Seq<Drawdown>,
    now: u64,
    outstanding: u128,
    amount: u128,
    o: DrawdownOutcome,
)
    requires
        outstanding == unsettled_principal(ds),
        o.outstanding == outstanding + amount,
        o.drawdown.principal == amount,
        o.drawdown.status == DrawdownStatus::Active,
    ensures
        o.outstanding == unsettled_principal(after_scan(ds, now).push(o.drawdown)),
{
    lemma_scan_keeps_unsettled(ds, now);
    assert(after_scan(ds, now).push(o.drawdown).drop_last() =~= after_scan(ds, now));
}

/// A repayment, as `repay` returns it, settles the drawdown and takes its
/// principal off the outstanding principal; the scan after it only moves
/// drawdowns from active to overdue. So the outstanding principal stays equal to
/// the principal of the drawdowns not yet settled.
pub proof fn law_repay_keeps_outstanding(
    ds: Seq<Drawdown>,
    k: int,
    now: u64,
    outstanding: u128,
    o: RepayOutcome,
)
    requires
        outstanding == unsettled_principal(ds),
        0 <= k < ds.len(),
        ds[k].status != DrawdownStatus::Settled,
        o.drawdown == (Drawdown { status: DrawdownStatus::Settled, settled_at: Some(now), fee_paid: Some(o.fee), ..ds[k] }),
        o.outstanding == outstanding - ds[k].principal,
    ensures
        o.outstanding == unsettled_principal(after_scan(ds.update(k, o.drawdown), now)),
{
    lemma_unsettled_update(ds, k, o.drawdown);
    lemma_scan_keeps_unsettled(ds.update(k, o.drawdown), now);
}

/// A drawdown as `request_drawdown` grants it: a new active drawdown whose
/// principal is added to the outstanding principal, within the drawdown limit.
pub open spec fn drawdown_granted(outstanding: u128, o: DrawdownOutcome, limit: u128) -> bool {
    &&& o.drawdown.status == DrawdownStatus::Active
    &&& o.outstanding == outstanding + o.drawdown.principal
    &&& o.outstanding <= limit
}

/// A repayment as `repay` accepts it for the stored drawdown at `k`: the drawdown,
/// not yet settled, is settled and its principal leaves the outstanding principal.
pub open spec fn repayment_accepted(ds: Seq<Drawdown>, k: int, now: u64, outstanding: u128, o: RepayOutcome) -> bool {
    &&& 0 <= k < ds.len()
    &&& ds[k].status != DrawdownStatus::Settled
    &&& o.drawdown == (Drawdown { status: DrawdownStatus::Settled, settled_at: Some(now), fee_paid: Some(o.fee), ..ds[k] })
    &&& o.outstanding == outstanding - ds[k].principal
}

/// One executed message, as it leaves the stored drawdowns and the outstanding
/// principal: a refused message, and every message but a drawdown or a repayment,
/// leaves both as they were; a granted drawdown is stored after the overdue scan;
/// an accepted repayment settles its drawdown and is followed by the scan.
pub open spec fn ledger_step(ds: Seq<Drawdown>, outstanding: u128, next_ds: Seq<Drawdown>, next_outstanding: u128, limit: u128) -> bool {
    ||| next_ds == ds && next_outstanding == outstanding
    ||| exists|now: u64, o: DrawdownOutcome|
        #![trigger drawdown_granted(outstanding, o, limit), after_scan(ds, now)]
        drawdown_granted(outstanding, o, limit) && next_ds == after_scan(ds, now).push(o.drawdown) && next_outstanding == o.outstanding
    ||| exists|k: int, now: u64, o: RepayOutcome| #[trigger] repayment_accepted(ds, k, now, outstanding, o)
        && next_ds == after_scan(ds.update(k, o.drawdown), now) && next_outstanding == o.outstanding
}

/// The step from the `i`-th state of a history to the next one.
pub open spec fn history_step(ledger: Seq<Seq<Drawdown>>, outstanding: Seq<u128>, limit: u128, i: int) -> bool {
    ledger_step(ledger[i], outstanding[i], ledger[i + 1], outstanding[i + 1], limit)
}

/// From instantiation, with no drawdown and nothing outstanding, through any
/// sequence of executed messages, the outstanding principal is the sum of the
/// principals of the drawdowns that are active or overdue, and never exceeds the
/// drawdown limit.
pub proof fn law_outstanding_is_unsettled_principal(ledger: Seq<Seq<Drawdown>>, outstanding: Seq<u128>, limit: u128)
    requires
        ledger.len() == outstanding.len(),
        ledger.len() > 0,
        ledger[0] == Seq::<Drawdown>::empty(),
        outstanding[0] == 0,
        forall|i: int| 0 <= i < ledger.len() - 1 ==> #[trigger] history_step(ledger, outstanding, limit, i),
    ensures
        forall|i: int| 0 <= i < ledger.len() ==> #[trigger] outstanding[i] == unsettled_principal(ledger[i])
            && outstanding[i] <= limit,
{
    assert forall|i: int| 0 <= i < ledger.len() implies #[trigger] outstanding[i] == unsettled_principal(ledger[i])
        && outstanding[i] <= limit by {
        lemma_history_at(ledger, outstanding, limit, i);
    }
}

proof fn lemma_history_at(ledger: Seq<Seq<Drawdown>>, outstanding: Seq<u128>, limit: u128, n: int)
    requires
        ledger.len() == outstanding.len(),
        0 <= n < ledger.len(),
        ledger[0] == Seq::<Drawdown>::empty(),
        outstanding[0] == 0,
        forall|i: int| 0 <= i < ledger.len() - 1 ==> #[trigger] history_step(ledger, outstanding, limit, i),
    ensures
        outstanding[n] == unsettled_principal(ledger[n]),
        outstanding[n] <= limit,
    decreases n,
{
    if n == 0 {
        assert(unsettled_principal(Seq::<Drawdown>::empty()) == 0);
    } else {
        lemma_history_at(ledger, outstanding, limit, n - 1);
        assert(history_step(ledger, outstanding, limit, n - 1));
        let ds = ledger[n - 1];
        let out = outstanding[n - 1];
        if ledger[n] == ds && outstanding[n] == out {
        } else if exists|now: u64, o: DrawdownOutcome|
            #![trigger drawdown_granted(out, o, limit), after_scan(ds, now)]
            drawdown_granted(out, o, limit) && ledger[n] == after_scan(ds, now).push(o.drawdown) && outstanding[n] == o.outstanding {
            let (now, o) = choose|now: u64, o: DrawdownOutcome|
                #![trigger drawdown_granted(out, o, limit), after_scan(ds, now)]
                drawdown_granted(out, o, limit) && ledger[n] == after_scan(ds, now).push(o.drawdown) && outstanding[n] == o.outstanding;
            law_drawdown_keeps_outstanding(ds, now, out, o.drawdown.principal, o);
        } else {
            let (k, now, o) = choose|k: int, now: u64, o: RepayOutcome| #[trigger] repayment_accepted(ds, k, now, out, o)
                && ledger[n] == after_scan(ds.update(k, o.drawdown), now) && outstanding[n] == o.outstanding;
            law_repay_keeps_outstanding(ds, k, now, out, o);
        }
    }
}

// ---------------------------------------------------------------------------
// Admin operations
// ---------------------------------------------------------------------------

/// The admin lifts the block, inside an active discretionary window, naming an
/// existing drawdown. Returns the new block flag.
pub fn override_block(
    sender: &String,
    config: &Config,
    drawdown_id: u64,
    drawdown_exists: bool,
    window: Option<DiscretionaryWindow>,
    now: u64,
) -> (res: Result<bool, CreditManagerError>)
    ensures
        sender@ != config.admin@ ==> res == Err::<bool, CreditManagerError>(
            CreditManagerError::Unauthorized { caller: *sender, expected: config.admin }),
        sender@ == config.admin@ && !drawdown_exists ==> res == Err::<bool, CreditManagerError>(
            CreditManagerError::DrawdownNotFound { drawdown_id }),
        sender@ == config.admin@ && drawdown_exists && !window_active(window, now) ==> res == Err::<bool, CreditManagerError>(
            CreditManagerError::InvalidDiscretionaryWindow),
        sender@ == config.admin@ && drawdown_exists && window_active(window, now) ==> res == Ok::<bool, CreditManagerError>(false),
{
    require_admin(sender, config)?;
    if !drawdown_exists {
        return Err(CreditManagerError::DrawdownNotFound { drawdown_id });
    }
    if !discretionary_window_is_active(window, now) {
        return Err(CreditManagerError::InvalidDiscretionaryWindow);
    }
    Ok(false)
}

/// The admin sets a discretionary window that ends after it starts and after now.
pub fn set_discretionary_window(
    sender: &String,
    config: &Config,
    start_time: u64,
    end_time: u64,
    now: u64,
) -> (res: Result<DiscretionaryWindow, CreditManagerError>)
    ensures
        sender@ != config.admin@ ==> res == Err::<DiscretionaryWindow, CreditManagerError>(
            CreditManagerError::Unauthorized { caller: *sender, expected: config.admin }),
        sender@ == config.admin@ && (end_time <= start_time || end_time <= now) ==> res
            == Err::<DiscretionaryWindow, CreditManagerError>(CreditManagerError::InvalidDiscretionaryWindow),
        sender@ == config.admin@ && end_time > start_time && end_time > now ==> res
            == Ok::<DiscretionaryWindow, CreditManagerError>(DiscretionaryWindow { start_time, end_time }),
{
    require_admin(sender, config)?;
    if end_time <= start_time || end_time <= now {
        return Err(CreditManagerError::InvalidDiscretionaryWindow);
    }
    Ok(DiscretionaryWindow { start_time, end_time })
}

/// Some stored drawdown is still active.
pub open spec fn any_active(ds: Seq<Drawdown>) -> bool {
    exists|i: int| 0 <= i < ds.len() && ds[i].status == DrawdownStatus::Active
}

/// The admin replaces the PSP address, which is refused while any drawdown is
/// active. `validated` is the chain's verdict on the new address.
pub fn update_psp_address(
    sender: &String,
    config: &Config,
    drawdowns: &Vec<Drawdown>,
    validated: Result<String, String>,
) -> (res: Result<Config, CreditManagerError>)
    ensures
        sender@ != config.admin@ ==> res == Err::<Config, CreditManagerError>(
            CreditManagerError::Unauthorized { caller: *sender, expected: config.admin }),
        sender@ == config.admin@ && any_active(drawdowns@) ==> res == Err::<Config, CreditManagerError>(
            CreditManagerError::ActiveDrawdownsExist),
        sender@ == config.admin@ && !any_active(drawdowns@) ==> match validated {
            Err(m) => res == Err::<Config, CreditManagerError>(CreditManagerError::InvalidAddress { message: m }),
            Ok(a) => res == Ok::<Config, CreditManagerError>(Config { psp_address: a, ..*config }),
        },
{
    require_admin(sender, config)?;
    let mut i: usize = 0;
    while i < drawdowns.len()
        invariant
            i <= drawdowns@.len(),
            sender@ == config.admin@,
            forall|k: int| 0 <= k < i ==> drawdowns@[k].status != DrawdownStatus::Active,
        decreases drawdowns@.len() - i,
    {
        if drawdowns[i].status == DrawdownStatus::Active {
            return Err(CreditManagerError::ActiveDrawdownsExist);
        }
        i = i + 1;
    }
    match validated {
        Err(m) => Err(CreditManagerError::InvalidAddress { message: m }),
        Ok(a) => Ok(Config {
            admin: config.admin.clone(),
            psp_address: a,
            psp_pool: config.psp_pool.clone(),
            yield_reserve: config.yield_reserve.clone(),
            stablecoin_denom: config.stablecoin_denom.clone(),
            drawdown_limit: config.drawdown_limit,
            drawdown_tenor_days: config.drawdown_tenor_days,
            psp_rate_bps_per_day: config.psp_rate_bps_per_day,
            penalty_rate_bps_per_day: config.penalty_rate_bps_per_day,
            max_queue_wait_days: config.max_queue_wait_days,
        }),
    }
}

/// The admin rewires the pool and the reserve and sets the queue-wait limit;
/// addresses come with the chain's verdict on them.
pub fn update_wiring(
    sender: &String,
    config: &Config,
    psp_pool: Option<Result<String, String>>,
    yield_reserve: Option<Result<String, String>>,
    max_queue_wait_days: Option<u64>,
) -> (res: Result<Config, CreditManagerError>)
    ensures
        sender@ != config.admin@ ==> res == Err::<Config, CreditManagerError>(
            CreditManagerError::Unauthorized { caller: *sender, expected: config.admin }),
        sender@ == config.admin@ ==> match (psp_pool, yield_reserve) {
            (Some(Err(m)), _) => res == Err::<Config, CreditManagerError>(CreditManagerError::InvalidAddress { message: m }),
            (_, Some(Err(m))) => res == Err::<Config, CreditManagerError>(CreditManagerError::InvalidAddress { message: m }),
            _ => res == Ok::<Config, CreditManagerError>(Config {
                psp_pool: match psp_pool { Some(Ok(a)) => a, _ => config.psp_pool },
                yield_reserve: match yield_reserve { Some(Ok(a)) => a, _ => config.yield_reserve },
                max_queue_wait_days: match max_queue_wait_days { Some(d) => Some(d), None => config.max_queue_wait_days },
                ..*config
            }),
        },
{
    require_admin(sender, config)?;
    let pool = match psp_pool {
        Some(Err(m)) => {
            return Err(CreditManagerError::InvalidAddress { message: m });
        },
        Some(Ok(a)) => a,
        None => config.psp_pool.clone(),
    };
    let reserve = match yield_reserve {
        Some(Err(m)) => {
            return Err(CreditManagerError::InvalidAddress { message: m });
        },
        Some(Ok(a)) => a,
        None => config.yield_reserve.clone(),
    };
    let wait = match max_queue_wait_days {
        Some(d) => Some(d),
        None => config.max_queue_wait_days,
    };
    Ok(Config {
        admin: config.admin.clone(),
        psp_address: config.psp_address.clone(),
        psp_pool: pool,
        yield_reserve: reserve,
        stablecoin_denom: config.stablecoin_denom.clone(),
        drawdown_limit: config.drawdown_limit,
        drawdown_tenor_days: config.drawdown_tenor_days,
        psp_rate_bps_per_day: config.psp_rate_bps_per_day,
        penalty_rate_bps_per_day: config.penalty_rate_bps_per_day,
        max_queue_wait_days: wait,
    })
}

/// Settling the unutilized-facility fee is refused until its formula is fixed.
pub fn settle_unutilized_fee() -> (res: Result<(), CreditManagerError>)
    ensures
        res == Err::<(), CreditManagerError>(CreditManagerError::UnutilizedFeeFormulaUnset),
{
    Err(CreditManagerError::UnutilizedFeeFormulaUnset)
}

// ---------------------------------------------------------------------------
// Instantiation and queries
// ---------------------------------------------------------------------------

/// The initial state: the configuration, no drawdown, nothing outstanding,
/// nothing overdue and no block. Addresses come with the chain's verdict on them.
pub fn instantiate(
    admin: Result<String, String>,
    psp_address: Result<String, String>,
    psp_pool: Result<String, String>,
    yield_reserve: Result<String, String>,
    stablecoin_denom: String,
    drawdown_limit: u128,
    drawdown_tenor_days: u64,
    psp_rate_bps_per_day: u64,
    penalty_rate_bps_per_day: u64,
    max_queue_wait_days: Option<u64>,
) -> (res: Result<Config, CreditManagerError>)
    ensures
        drawdown_limit == 0 ==> res == Err::<Config, CreditManagerError>(CreditManagerError::InvalidZeroAmount),
        drawdown_limit != 0 ==> match (admin, psp_address, psp_pool, yield_reserve) {
            (Err(m), _, _, _) => res == Err::<Config, CreditManagerError>(CreditManagerError::InvalidAddress { message: m }),
            (_, Err(m), _, _) => res == Err::<Config, CreditManagerError>(CreditManagerError::InvalidAddress { message: m }),
            (_, _, Err(m), _) => res == Err::<Config, CreditManagerError>(CreditManagerError::InvalidAddress { message: m }),
            (_, _, _, Err(m)) => res == Err::<Config, CreditManagerError>(CreditManagerError::InvalidAddress { message: m }),
            (Ok(a), Ok(p), Ok(pool), Ok(r)) => res == Ok::<Config, CreditManagerError>(Config {
                admin: a,
                psp_address: p,
                psp_pool: pool,
                yield_reserve: r,
                stablecoin_denom,
                drawdown_limit,
                drawdown_tenor_days,
                psp_rate_bps_per_day,
                penalty_rate_bps_per_day,
                max_queue_wait_days,
            }),
        },
{
    if drawdown_limit == 0 {
        return Err(CreditManagerError::InvalidZeroAmount);
    }
    let a = match admin {
        Err(m) => { return Err(CreditManagerError::InvalidAddress { message: m }); },
        Ok(a) => a,
    };
    let p = match psp_address {
        Err(m) => { return Err(CreditManagerError::InvalidAddress { message: m }); },
        Ok(a) => a,
    };
    let pool = match psp_pool {
        Err(m) => { return Err(CreditManagerError::InvalidAddress { message: m }); },
        Ok(a) => a,
    };
    let r = match yield_reserve {
        Err(m) => { return Err(CreditManagerError::InvalidAddress { message: m }); },
        Ok(a) => a,
    };
    Ok(Config {
        admin: a,
        psp_address: p,
        psp_pool: pool,
        yield_reserve: r,
        stablecoin_denom,
        drawdown_limit,
        drawdown_tenor_days,
        psp_rate_bps_per_day,
        penalty_rate_bps_per_day,
        max_queue_wait_days,
    })
}

/// The fee a drawdown would owe, under the configured tenor and rates.
pub fn fee_preview(config: &Config, principal: u128, drawdown_timestamp: u64, current_timestamp: u64) -> (res: Result<u128, CreditManagerError>)
    requires
        tenor_secs(*config) <= u64::MAX && current_timestamp >= drawdown_timestamp
            ==> tenor_secs(*config) + SECONDS_PER_DAY <= u64::MAX,
    ensures
        tenor_secs(*config) > u64::MAX ==> res == Err::<u128, CreditManagerError>(
            CreditManagerError::ArithmeticOverflow { operation: CreditOp::TenorDaysTimesSecondsPerDay }),
        tenor_secs(*config) <= u64::MAX ==> same_result(
            res,
            fee_result(principal, drawdown_timestamp, current_timestamp, tenor_secs(*config) as u64,
                config.psp_rate_bps_per_day, config.penalty_rate_bps_per_day),
        ),
{
    let tenor = match config.drawdown_tenor_days.checked_mul(SECONDS_PER_DAY) {
        Some(t) => t,
        None => {
            return Err(CreditManagerError::ArithmeticOverflow { operation: CreditOp::TenorDaysTimesSecondsPerDay });
        },
    };
    calculate_fee(principal, drawdown_timestamp, current_timestamp, tenor, config.psp_rate_bps_per_day, config.penalty_rate_bps_per_day)
}

/// Page size of a drawdown listing: 20 by default, at most 50.
pub open spec fn drawdowns_page_size(limit: Option<u32>) -> int {
    let l = match limit { Some(l) => l, None => DEFAULT_PAGE_LIMIT };
    if l < MAX_PAGE_LIMIT { l as int } else { MAX_PAGE_LIMIT as int }
}

/// The drawdowns with an id above `start_after` (all when none), in order.
pub open spec fn drawdowns_after(ds: Seq<Drawdown>, start_after: Option<u64>) -> Seq<Drawdown>
    decreases ds.len(),
{
    if ds.len() == 0 {
        Seq::empty()
    } else {
        let p = drawdowns_after(ds.drop_last(), start_after);
        if start_after is None || ds.last().id > start_after->0 { p.push(ds.last()) } else { p }
    }
}

/// A page of drawdowns after `start_after`; `drawdowns` are all stored ones in id
/// order.
pub fn drawdowns_page(drawdowns: &Vec<Drawdown>, start_after: Option<u64>, limit: Option<u32>) -> (r: Vec<Drawdown>)
    ensures
        ({
            let all = drawdowns_after(drawdowns@, start_after);
            let n = drawdowns_page_size(limit);
            r@ == all.take(if all.len() < n { all.len() as int } else { n })
        }),
{
    let l = match limit {
        Some(l) => l,
        None => DEFAULT_PAGE_LIMIT,
    };
    let n: usize = if l < MAX_PAGE_LIMIT { l as usize } else { MAX_PAGE_LIMIT as usize };
    let mut out: Vec<Drawdown> = Vec::new();
    let mut i: usize = 0;
    while i < drawdowns.len()
        invariant
            i <= drawdowns@.len(),
            n == drawdowns_page_size(limit),
            ({
                let all = drawdowns_after(drawdowns@.subrange(0, i as int), start_after);
                out@ == all.take(if all.len() < n { all.len() as int } else { n as int })
            }),
            out@.len() <= n,
        decreases drawdowns@.len() - i,
    {
        let ghost prefix = drawdowns@.subrange(0, i as int + 1);
        let ghost before = drawdowns_after(drawdowns@.subrange(0, i as int), start_after);
        proof {
            assert(prefix.drop_last() =~= drawdowns@.subrange(0, i as int));
            if before.len() < n {
                assert(out@.len() == before.len());
            } else {
                assert(out@.len() == n);
            }
        }
        let d = &drawdowns[i];
        let after = match start_after {
            Some(s) => d.id > s,
            None => true,
        };
        let ghost now_all = drawdowns_after(prefix, start_after);
        if after {
            assert(now_all == before.push(drawdowns@[i as int]));
            if out.len() < n {
                let copy = Drawdown {
                    id: d.id,
                    principal: d.principal,
                    timestamp: d.timestamp,
                    due_date: d.due_date,
                    status: d.status,
                    settled_at: d.settled_at,
                    fee_paid: d.fee_paid,
                };
                out.push(copy);
                proof {
                    assert(before.take(before.len() as int) =~= before);
                    assert(now_all.take(now_all.len() as int) =~= now_all);
                }
            } else {
                proof {
                    assert(now_all.take(n as int) =~= before.take(n as int));
                }
            }
        } else {
            assert(now_all == before);
        }
        i = i + 1;
    }
    proof {
        assert(drawdowns@.subrange(0, drawdowns@.len() as int) =~= drawdowns@);
    }
    out
}

/// The credit manager's counters as reported, each defaulting when never stored.
pub fn system_status(
    blocked: Option<bool>,
    outstanding: Option<u128>,
    overdue_count: Option<u64>,
    next_drawdown_id: Option<u64>,
    window: Option<DiscretionaryWindow>,
) -> (r: SystemStatusResponse)
    ensures
        r.blocked == (match blocked { Some(b) => b, None => false }),
        r.outstanding_principal == (match outstanding { Some(o) => o, None => 0 }),
        r.overdue_count == (match overdue_count { Some(c) => c, None => 0 }),
        r.next_drawdown_id == (match next_drawdown_id { Some(n) => n, None => 0 }),
        r.discretionary_window_end == (match window { Some(w) => Some(w.end_time), None => None::<u64> }),
{
    SystemStatusResponse {
        blocked: match blocked { Some(b) => b, None => false },
        outstanding_principal: match outstanding { Some(o) => o, None => 0 },
        overdue_count: match overdue_count { Some(c) => c, None => 0 },
        next_drawdown_id: match next_drawdown_id { Some(n) => n, None => 0 },
        discretionary_window_end: match window { Some(w) => Some(w.end_time), None => None },
    }
}

} // verus!
