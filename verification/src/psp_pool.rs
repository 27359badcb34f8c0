use vstd::prelude::*;
use vstd::string::StringExecFns;
use vstd::std_specs::iter::IteratorSpec;
use crate::math::{checked_multiply_ratio, mul_ratio_result, MulRatioError};
use crate::shares::{price_per_share, price_string, VaultState};
use crate::vault::{
    deposit_accounting, deposit_spec, payout_accounting, payout_spec, request_accounting, request_spec,
    single_coin_amount, single_coin_spec, VaultError,
};
use crate::types::{
    string_less, string_lt, pool_state_name, pool_state_rank, Fund, PoolState, Transfer, APY_DAYS_BASIS, BPS_DENOMINATOR,
    NANOS_PER_SECOND, SECONDS_PER_DAY,
};

verus! {

broadcast use {vstd::string::axiom_spec_iter, vstd::string::next_postcondition};

/// Shortest withdrawal delay a pool accepts: 2 minutes.
pub const MIN_WITHDRAWAL_DELAY: u64 = 120;
/// Longest withdrawal delay a pool accepts: 30 days.
pub const MAX_WITHDRAWAL_DELAY: u64 = 2_592_000;
/// The requester's counter before the `i`-th of its requests: none before the
/// first, then what the previous request left.
pub open spec fn counter_before(outs: Seq<RequestOutcome>, i: int) -> Option<WithdrawalCounter> {
    if i == 0 { None } else { Some(outs[i - 1].counter) }
}

proof fn lemma_request_ids(
    config: Config,
    states: Seq<PoolState>,
    nows: Seq<u64>,
    funds: Seq<Seq<Fund>>,
    vaults: Seq<VaultState>,
    queues: Seq<u64>,
    outs: Seq<RequestOutcome>,
    j: int,
)
    requires
        0 <= j < outs.len(),
        forall|i: int| 0 <= i < outs.len() ==> request_withdraw_spec(states[i], nows[i], config, funds[i], vaults[i],
            counter_before(outs, i), queues[i]) == Ok::<RequestOutcome, PspPoolError>(#[trigger] outs[i]),
    ensures
        outs[j].withdrawal_id == j,
        outs[j].counter.next_id == j + 1,
    decreases j,
{
    assert(request_withdraw_spec(states[j], nows[j], config, funds[j], vaults[j], counter_before(outs, j), queues[j])
        == Ok::<RequestOutcome, PspPoolError>(outs[j]));
    if j > 0 {
        lemma_request_ids(config, states, nows, funds, vaults, queues, outs, j - 1);
    }
}

/// A requester's granted withdrawal requests, each made with the counter the
/// previous one left (claims and other users' requests in between leave it as it
/// is), are numbered 0, 1, 2, ... in the order they are made, and the counter ends
/// at their number: no id is ever given twice.
pub proof fn law_withdrawal_ids_count_up(
    config: Config,
    states: Seq<PoolState>,
    nows: Seq<u64>,
    funds: Seq<Seq<Fund>>,
    vaults: Seq<VaultState>,
    queues: Seq<u64>,
    outs: Seq<RequestOutcome>,
)
    requires
        forall|i: int| 0 <= i < outs.len() ==> request_withdraw_spec(states[i], nows[i], config, funds[i], vaults[i],
            counter_before(outs, i), queues[i]) == Ok::<RequestOutcome, PspPoolError>(#[trigger] outs[i]),
    ensures
        forall|i: int| 0 <= i < outs.len() ==> (#[trigger] outs[i]).withdrawal_id == i,
        outs.len() > 0 ==> outs.last().counter.next_id == outs.len(),
{
    assert forall|i: int| 0 <= i < outs.len() implies (#[trigger] outs[i]).withdrawal_id == i by {
        lemma_request_ids(config, states, nows, funds, vaults, queues, outs, i);
    }
    if outs.len() > 0 {
        lemma_request_ids(config, states, nows, funds, vaults, queues, outs, outs.len() - 1);
    }
}

/// The queue pointer before the `i`-th request: `first`, then what the previous
/// request left.
pub open spec fn queue_before(first: u64, outs: Seq<RequestOutcome>, i: int) -> u64 {
    if i == 0 { first } else { outs[i - 1].queue_next }
}

proof fn lemma_queue_places(
    config: Config,
    states: Seq<PoolState>,
    nows: Seq<u64>,
    funds: Seq<Seq<Fund>>,
    vaults: Seq<VaultState>,
    counters: Seq<Option<WithdrawalCounter>>,
    first: u64,
    outs: Seq<RequestOutcome>,
    j: int,
)
    requires
        0 <= j < outs.len(),
        forall|i: int| 0 <= i < outs.len() ==> request_withdraw_spec(states[i], nows[i], config, funds[i], vaults[i],
            counters[i], queue_before(first, outs, i)) == Ok::<RequestOutcome, PspPoolError>(#[trigger] outs[i]),
    ensures
        outs[j].withdrawal.queue_id == first + j,
        outs[j].queue_next == first + j + 1,
    decreases j,
{
    assert(request_withdraw_spec(states[j], nows[j], config, funds[j], vaults[j], counters[j], queue_before(first, outs, j))
        == Ok::<RequestOutcome, PspPoolError>(outs[j]));
    if j > 0 {
        lemma_queue_places(config, states, nows, funds, vaults, counters, first, outs, j - 1);
    }
}

/// Granted withdrawal requests, from any users, each made with the queue pointer
/// the previous one left, take consecutive places in line from the first free one.
pub proof fn law_requests_take_consecutive_places(
    config: Config,
    states: Seq<PoolState>,
    nows: Seq<u64>,
    funds: Seq<Seq<Fund>>,
    vaults: Seq<VaultState>,
    counters: Seq<Option<WithdrawalCounter>>,
    first: u64,
    outs: Seq<RequestOutcome>,
)
    requires
        forall|i: int| 0 <= i < outs.len() ==> request_withdraw_spec(states[i], nows[i], config, funds[i], vaults[i],
            counters[i], queue_before(first, outs, i)) == Ok::<RequestOutcome, PspPoolError>(#[trigger] outs[i]),
    ensures
        forall|i: int| 0 <= i < outs.len() ==> (#[trigger] outs[i]).withdrawal.queue_id == first + i,
        outs.len() > 0 ==> outs.last().queue_next == first + outs.len(),
{
    assert forall|i: int| 0 <= i < outs.len() implies (#[trigger] outs[i]).withdrawal.queue_id == first + i by {
        lemma_queue_places(config, states, nows, funds, vaults, counters, first, outs, i);
    }
    if outs.len() > 0 {
        lemma_queue_places(config, states, nows, funds, vaults, counters, first, outs, outs.len() - 1);
    }
}

/// Withdrawal requests are accepted on Mondays only.
pub const MONDAY_WITHDRAWAL_WINDOW_DAY: u64 = 1;
pub const DEFAULT_HOLDERS_LIMIT: u32 = 50;
pub const MAX_HOLDERS_LIMIT: u32 = 200;
/// Days of yield a withdrawing LP forfeits to the reserve.
pub const FORFEIT_DAYS: u128 = 7;

/// Which pool computation overflowed.
#[derive(Clone, Copy, Debug, PartialEq, Eq, Structural)]
pub enum PoolOp {
    BackfillRemainingCapacity,
    UserLpBalanceAdd,
    WithdrawalId,
    WithdrawalQueueId,
    QueueHeadAdvance,
}

/// The lifecycle states an operation accepts.
#[derive(Clone, Copy, Debug, PartialEq, Eq, Structural)]
pub enum ExpectedState {
    Fundraising,
    Active,
    WindingDown,
    Settled,
    FundraisingOrActive,
    ActiveOrWindingDown,
    ActiveWindingDownOrSettled,
}

/// What is wrong with an LP subdenom.
#[derive(Clone, Copy, Debug, PartialEq, Eq, Structural)]
pub enum SubdenomProblem {
    Length,
    Empty,
    NotLowercaseStart,
}

/// Errors of the PSP pool.
#[derive(Clone, Debug)]
pub enum PspPoolError {
    Unauthorized { caller: String, expected: String },
    CreditManagerOnly,
    CreditManagerNotConfigured,
    InvalidState { expected: ExpectedState, got: PoolState },
    PendingWithdrawalsRemain,
    ContractPaused,
    InvalidZeroAmount,
    InvalidSubdenom { reason: SubdenomProblem },
    InvalidMintingCap,
    Overflow { operation: PoolOp },
    WithdrawalWindowClosed { current_day: u64 },
    QueueOrderViolation { head_queue_id: u64, requested_queue_id: u64 },
    QueueEntryNotFound { queue_id: u64 },
    UnexpectedFunds,
    InvalidWithdrawalDelay { min: u64, max: u64 },
    InsufficientContractBalance { available: u128, required: u128 },
    InvalidPaginationLimit,
    BackfillCapExceeded { cap: u128, requested: u128 },
    BlockTimeBeforeRequest { now: u64, requested: u64 },
    InvalidAddress { message: String },
    Vault(VaultError),
}

#[derive(Clone, Debug)]
pub struct Config {
    pub stablecoin_denom: String,
    /// `coin.{contract}.{subdenom}`.
    pub lp_full_denom: String,
    pub admin: String,
    /// Seconds between a withdrawal request and its release; fixed at instantiation.
    pub withdrawal_delay: u64,
    pub credit_manager: Option<String>,
    pub investor_apy_bps: u64,
    pub yield_reserve: String,
    /// Ceiling on total deposits once the facility is active.
    pub execution_amount: u128,
}

/// Per-user info for LP holders.
#[derive(Clone, Copy, Debug, PartialEq, Eq, Structural)]
pub struct UserInfo {
    pub deposit_timestamp: u64,
    pub lp_balance: u128,
}

/// A withdrawal request; times are block times in nanoseconds.
#[derive(Clone, Copy, Debug, PartialEq, Eq, Structural)]
pub struct PendingWithdrawal {
    pub queue_id: u64,
    pub amount: u128,
    pub requested_at: u64,
    pub release_time: u64,
}

#[derive(Clone, Debug)]
pub struct QueueEntry {
    pub user: String,
    pub withdrawal_id: u64,
    pub requested_at: u64,
}

#[derive(Clone, Copy, Debug, PartialEq, Eq, Structural)]
pub struct WithdrawalCounter {
    pub next_id: u64,
}

#[derive(Clone, Debug)]
pub struct PoolStateResponse {
    pub state: String,
    pub paused: bool,
}

#[derive(Clone, Debug)]
pub struct OldestQueueWaitDaysResponse {
    pub days: Option<u64>,
}

#[derive(Clone, Debug)]
pub struct LpHoldersResponse {
    pub holders: Vec<String>,
}

#[derive(Clone, Debug)]
pub struct VaultInfoResponse {
    pub total_deposited: u128,
    pub total_lp_supply: u128,
    pub total_pending_withdrawals: u128,
    pub price_per_share: String,
}

#[derive(Clone, Copy, Debug)]
pub struct WithdrawalInfo {
    pub id: u64,
    pub queue_id: u64,
    pub amount: u128,
    pub requested_at: u64,
    pub release_time: u64,
    pub claimable: bool,
}

#[derive(Clone, Debug)]
pub struct UserInfoResponse {
    pub address: String,
    pub lp_balance: u128,
    pub stablecoin_value: u128,
    pub deposit_timestamp: u64,
}

#[derive(Clone, Debug)]
pub struct ConfigResponse {
    pub stablecoin_denom: String,
    pub lp_full_denom: String,
    pub admin: String,
    pub withdrawal_delay: u64,
    pub credit_manager: Option<String>,
}

#[derive(Clone, Debug)]
pub struct MigrateMsg {}

// ---------------------------------------------------------------------------
// Calendar
// ---------------------------------------------------------------------------

/// Day of the week of a Unix time, Sunday = 0; the epoch fell on a Thursday.
pub open spec fn spec_day_of_week(timestamp_secs: u64) -> int {
    ((timestamp_secs / SECONDS_PER_DAY) as int + 4) % 7
}

pub fn day_of_week(timestamp_secs: u64) -> (d: u64)
    ensures
        d == spec_day_of_week(timestamp_secs),
        d < 7,
{
    let unix_epoch_day_of_week_offset = 4u64;
    let days_since_epoch = timestamp_secs / SECONDS_PER_DAY;
    (days_since_epoch + unix_epoch_day_of_week_offset) % 7
}

/// A week later it is the same day of the week.
pub proof fn law_day_of_week_weekly(t: u64)
    requires
        t + 604_800 <= u64::MAX,
    ensures
        spec_day_of_week((t + 604_800) as u64) == spec_day_of_week(t),
{
    let x = t as int;
    let q = x / 86_400;
    assert(x == 86_400 * q + x % 86_400 && 0 <= x % 86_400 < 86_400) by (nonlinear_arith)
        requires x >= 0, q == x / 86_400;
    assert((x + 604_800) / 86_400 == q + 7) by (nonlinear_arith)
        requires
            x == 86_400 * q + x % 86_400,
            0 <= x % 86_400 < 86_400,
    ;
    assert((q + 7 + 4) % 7 == (q + 4) % 7) by (nonlinear_arith)
        requires q >= 0;
}

/// The next day follows in the week: Sunday after Saturday.
pub proof fn law_day_of_week_next_day(t: u64)
    requires
        t + 86_400 <= u64::MAX,
    ensures
        spec_day_of_week((t + 86_400) as u64) == (spec_day_of_week(t) + 1) % 7,
{
    let x = t as int;
    let q = x / 86_400;
    assert(x == 86_400 * q + x % 86_400 && 0 <= x % 86_400 < 86_400) by (nonlinear_arith)
        requires x >= 0, q == x / 86_400;
    assert((x + 86_400) / 86_400 == q + 1) by (nonlinear_arith)
        requires
            x == 86_400 * q + x % 86_400,
            0 <= x % 86_400 < 86_400,
    ;
    assert((q + 1 + 4) % 7 == ((q + 4) % 7 + 1) % 7) by (nonlinear_arith)
        requires q >= 0;
}

// ---------------------------------------------------------------------------
// Instantiation
// ---------------------------------------------------------------------------

/// The checks on an LP subdenom and the pool's parameters, in the order they run.
/// `byte_len` is the subdenom's length in UTF-8 bytes.
pub open spec fn instantiate_check(byte_len: int, lp_subdenom: Seq<char>, lp_minting_cap: u128, withdrawal_delay: u64) -> Option<PspPoolError> {
    let n = byte_len;
    if n < 3 || n > 44 {
        Some(PspPoolError::InvalidSubdenom { reason: SubdenomProblem::Length })
    } else if lp_subdenom.len() == 0 {
        Some(PspPoolError::InvalidSubdenom { reason: SubdenomProblem::Empty })
    } else if !(97 <= lp_subdenom[0] as u32 && lp_subdenom[0] as u32 <= 122) {
        Some(PspPoolError::InvalidSubdenom { reason: SubdenomProblem::NotLowercaseStart })
    } else if lp_minting_cap == 0 {
        Some(PspPoolError::InvalidMintingCap)
    } else if withdrawal_delay < MIN_WITHDRAWAL_DELAY || withdrawal_delay > MAX_WITHDRAWAL_DELAY {
        Some(PspPoolError::InvalidWithdrawalDelay { min: MIN_WITHDRAWAL_DELAY, max: MAX_WITHDRAWAL_DELAY })
    } else {
        None
    }
}

/// Checks instantiation parameters: the subdenom is 3 to 44 bytes and starts with
/// a lowercase ASCII letter, the minting cap is nonzero, and the delay lies in
/// 120..=2_592_000 seconds.
pub fn validate_instantiate(lp_subdenom: &str, lp_minting_cap: u128, withdrawal_delay: u64) -> (res: Result<(), PspPoolError>)
    ensures
        match instantiate_check(lp_subdenom.len() as int, lp_subdenom@, lp_minting_cap, withdrawal_delay) {
            None => res is Ok,
            Some(e) => res is Err && same_error(res->Err_0, e),
        },
{
    let n = lp_subdenom.len();
    if n < 3 || n > 44 {
        return Err(PspPoolError::InvalidSubdenom { reason: SubdenomProblem::Length });
    }
    let mut chars = lp_subdenom.chars();
    assert(chars.remaining() == lp_subdenom@);
    let first = chars.next();
    match first {
        None => {
            return Err(PspPoolError::InvalidSubdenom { reason: SubdenomProblem::Empty });
        },
        Some(c) => {
            let code = c as u32;
            if !(97 <= code && code <= 122) {
                return Err(PspPoolError::InvalidSubdenom { reason: SubdenomProblem::NotLowercaseStart });
            }
        },
    }
    if lp_minting_cap == 0 {
        return Err(PspPoolError::InvalidMintingCap);
    }
    if withdrawal_delay < MIN_WITHDRAWAL_DELAY || withdrawal_delay > MAX_WITHDRAWAL_DELAY {
        return Err(PspPoolError::InvalidWithdrawalDelay { min: MIN_WITHDRAWAL_DELAY, max: MAX_WITHDRAWAL_DELAY });
    }
    Ok(())
}

/// Two errors are the same report (addresses compared by their text).
pub open spec fn same_error(a: PspPoolError, b: PspPoolError) -> bool {
    match (a, b) {
        (PspPoolError::InvalidSubdenom { reason: r1 }, PspPoolError::InvalidSubdenom { reason: r2 }) => r1 == r2,
        (PspPoolError::InvalidMintingCap, PspPoolError::InvalidMintingCap) => true,
        (PspPoolError::InvalidWithdrawalDelay { min: a1, max: b1 }, PspPoolError::InvalidWithdrawalDelay { min: a2, max: b2 }) =>
            a1 == a2 && b1 == b2,
        _ => false,
    }
}

/// `coin.{contract}.{subdenom}`, the full denom of the pool's LP token.
pub open spec fn lp_full_denom_spec(contract: Seq<char>, subdenom: Seq<char>) -> Seq<char> {
    seq!['c', 'o', 'i', 'n', '.'] + contract + seq!['.'] + subdenom
}

pub fn lp_full_denom(contract: &str, subdenom: &str) -> (s: String)
    ensures
        s@ == lp_full_denom_spec(contract@, subdenom@),
{
    let mut s = String::new();
    crate::types::string_push(&mut s, 'c');
    crate::types::string_push(&mut s, 'o');
    crate::types::string_push(&mut s, 'i');
    crate::types::string_push(&mut s, 'n');
    crate::types::string_push(&mut s, '.');
    s.append(contract);
    crate::types::string_push(&mut s, '.');
    s.append(subdenom);
    assert(s@ =~= lp_full_denom_spec(contract@, subdenom@));
    s
}


// ---------------------------------------------------------------------------
// Pause guard, authorization and lifecycle
// ---------------------------------------------------------------------------

/// The operations a pool executes.
#[derive(Clone, Copy, Debug, PartialEq, Eq, Structural)]
pub enum PoolCommand {
    EmergencyUnpause,
    EmergencyPause,
    ExecuteFacility,
    ExpireFacility,
    MarkSettled,
    CloseFacility,
    SetCreditManager,
    DisburseToPsp,
    SyncLpHolder,
    Deposit,
    RequestWithdraw,
    ClaimWithdraw,
    UpdateConfig,
    AdminWithdraw,
    AdminDepositYield,
}

/// While the pool is paused every operation but unpausing is refused.
pub fn pause_guard(paused: bool, command: PoolCommand) -> (res: Result<(), PspPoolError>)
    ensures
        res is Ok <==> !paused || command == PoolCommand::EmergencyUnpause,
        res matches Err(e) ==> e matches PspPoolError::ContractPaused,
{
    if paused {
        if command != PoolCommand::EmergencyUnpause {
            return Err(PspPoolError::ContractPaused);
        }
    }
    Ok(())
}

/// The error an operation reserved to the admin reports to anyone else.
pub open spec fn not_admin(sender: String, config: Config) -> PspPoolError {
    PspPoolError::Unauthorized { caller: sender, expected: config.admin }
}

pub fn require_admin(sender: &String, config: &Config) -> (res: Result<(), PspPoolError>)
    ensures
        sender@ == config.admin@ ==> res is Ok,
        sender@ != config.admin@ ==> res == Err::<(), PspPoolError>(not_admin(*sender, *config)),
{
    if *sender != config.admin {
        return Err(PspPoolError::Unauthorized { caller: sender.clone(), expected: config.admin.clone() });
    }
    Ok(())
}

/// The lifecycle transition an operation performs from a state, if it is allowed
/// there: Fundraising, Active, WindingDown, Settled, Closed, one step at a time.
pub open spec fn lifecycle_step(command: PoolCommand, s: PoolState) -> Option<PoolState> {
    match (command, s) {
        (PoolCommand::ExecuteFacility, PoolState::Fundraising) => Some(PoolState::Active),
        (PoolCommand::ExpireFacility, PoolState::Active) => Some(PoolState::WindingDown),
        (PoolCommand::MarkSettled, PoolState::WindingDown) => Some(PoolState::Settled),
        (PoolCommand::CloseFacility, PoolState::Settled) => Some(PoolState::Closed),
        _ => None,
    }
}

/// Starts the facility: the admin moves a fundraising pool to Active.
pub fn execute_facility(sender: &String, config: &Config, state: PoolState) -> (res: Result<PoolState, PspPoolError>)
    ensures
        sender@ != config.admin@ ==> res == Err::<PoolState, PspPoolError>(not_admin(*sender, *config)),
        sender@ == config.admin@ && state != PoolState::Fundraising ==> res == Err::<PoolState, PspPoolError>(
            PspPoolError::InvalidState { expected: ExpectedState::Fundraising, got: state }),
        sender@ == config.admin@ && state == PoolState::Fundraising ==> res == Ok::<PoolState, PspPoolError>(
            PoolState::Active),
        res matches Ok(t) ==> lifecycle_step(PoolCommand::ExecuteFacility, state) == Some(t),
{
    require_admin(sender, config)?;
    if state != PoolState::Fundraising {
        return Err(PspPoolError::InvalidState { expected: ExpectedState::Fundraising, got: state });
    }
    Ok(PoolState::Active)
}

/// Ends the active period; anyone may call it once the pool is Active.
pub fn expire_facility(state: PoolState) -> (res: Result<PoolState, PspPoolError>)
    ensures
        state != PoolState::Active ==> res == Err::<PoolState, PspPoolError>(
            PspPoolError::InvalidState { expected: ExpectedState::Active, got: state }),
        state == PoolState::Active ==> res == Ok::<PoolState, PspPoolError>(PoolState::WindingDown),
        res matches Ok(t) ==> lifecycle_step(PoolCommand::ExpireFacility, state) == Some(t),
{
    if state != PoolState::Active {
        return Err(PspPoolError::InvalidState { expected: ExpectedState::Active, got: state });
    }
    Ok(PoolState::WindingDown)
}

/// Settles a winding-down pool once no withdrawal is pending.
pub fn mark_settled(sender: &String, config: &Config, state: PoolState, vault: &VaultState) -> (res: Result<PoolState, PspPoolError>)
    ensures
        sender@ != config.admin@ ==> res == Err::<PoolState, PspPoolError>(not_admin(*sender, *config)),
        sender@ == config.admin@ && state != PoolState::WindingDown ==> res == Err::<PoolState, PspPoolError>(
            PspPoolError::InvalidState { expected: ExpectedState::WindingDown, got: state }),
        sender@ == config.admin@ && state == PoolState::WindingDown && vault.total_pending_withdrawals != 0
            ==> res == Err::<PoolState, PspPoolError>(PspPoolError::PendingWithdrawalsRemain),
        sender@ == config.admin@ && state == PoolState::WindingDown && vault.total_pending_withdrawals == 0
            ==> res == Ok::<PoolState, PspPoolError>(PoolState::Settled),
        res matches Ok(t) ==> lifecycle_step(PoolCommand::MarkSettled, state) == Some(t),
{
    require_admin(sender, config)?;
    if state != PoolState::WindingDown {
        return Err(PspPoolError::InvalidState { expected: ExpectedState::WindingDown, got: state });
    }
    if vault.total_pending_withdrawals != 0 {
        return Err(PspPoolError::PendingWithdrawalsRemain);
    }
    Ok(PoolState::Settled)
}

/// Closes a settled pool.
pub fn close_facility(sender: &String, config: &Config, state: PoolState) -> (res: Result<PoolState, PspPoolError>)
    ensures
        sender@ != config.admin@ ==> res == Err::<PoolState, PspPoolError>(not_admin(*sender, *config)),
        sender@ == config.admin@ && state != PoolState::Settled ==> res == Err::<PoolState, PspPoolError>(
            PspPoolError::InvalidState { expected: ExpectedState::Settled, got: state }),
        sender@ == config.admin@ && state == PoolState::Settled ==> res == Ok::<PoolState, PspPoolError>(
            PoolState::Closed),
        res matches Ok(t) ==> lifecycle_step(PoolCommand::CloseFacility, state) == Some(t),
{
    require_admin(sender, config)?;
    if state != PoolState::Settled {
        return Err(PspPoolError::InvalidState { expected: ExpectedState::Settled, got: state });
    }
    Ok(PoolState::Closed)
}

/// The lifecycle only moves forward, one state at a time.
pub proof fn law_lifecycle_moves_one_step_forward(command: PoolCommand, s: PoolState)
    requires
        lifecycle_step(command, s) is Some,
    ensures
        pool_state_rank(lifecycle_step(command, s)->0) == pool_state_rank(s) + 1,
{
}

/// A closed pool has no further lifecycle transition.
pub proof fn law_closed_is_final(command: PoolCommand)
    ensures
        lifecycle_step(command, PoolState::Closed) is None,
{
}

/// The pool state after a command that succeeded from `s`: a lifecycle command
/// moves it one step, every other command leaves it.
pub open spec fn state_after(command: PoolCommand, s: PoolState) -> PoolState {
    match lifecycle_step(command, s) {
        Some(t) => t,
        None => s,
    }
}

/// Only the four lifecycle commands move the pool, each from one state to the
/// next: starting the facility (Fundraising to Active), expiring it (Active to
/// WindingDown), marking it settled (WindingDown to Settled) and closing it
/// (Settled to Closed). Every other command, and these from any other state,
/// leave the state as it is, so the pool never moves backwards.
pub proof fn law_only_lifecycle_commands_move_the_pool(command: PoolCommand, s: PoolState)
    ensures
        state_after(command, s) == s || (command == PoolCommand::ExecuteFacility && s == PoolState::Fundraising
            && state_after(command, s) == PoolState::Active) || (command == PoolCommand::ExpireFacility && s
            == PoolState::Active && state_after(command, s) == PoolState::WindingDown) || (command
            == PoolCommand::MarkSettled && s == PoolState::WindingDown && state_after(command, s) == PoolState::Settled)
            || (command == PoolCommand::CloseFacility && s == PoolState::Settled && state_after(command, s)
            == PoolState::Closed),
        pool_state_rank(state_after(command, s)) >= pool_state_rank(s),
        command != PoolCommand::ExecuteFacility && command != PoolCommand::ExpireFacility && command
            != PoolCommand::MarkSettled && command != PoolCommand::CloseFacility ==> state_after(command, s) == s,
{
}

/// Pauses the pool (admin only); the new flag is returned.
pub fn emergency_pause(sender: &String, config: &Config) -> (res: Result<bool, PspPoolError>)
    ensures
        sender@ != config.admin@ ==> res == Err::<bool, PspPoolError>(not_admin(*sender, *config)),
        sender@ == config.admin@ ==> res == Ok::<bool, PspPoolError>(true),
{
    require_admin(sender, config)?;
    Ok(true)
}

/// Lifts a pause (admin only); the new flag is returned.
pub fn emergency_unpause(sender: &String, config: &Config) -> (res: Result<bool, PspPoolError>)
    ensures
        sender@ != config.admin@ ==> res == Err::<bool, PspPoolError>(not_admin(*sender, *config)),
        sender@ == config.admin@ ==> res == Ok::<bool, PspPoolError>(false),
{
    require_admin(sender, config)?;
    Ok(false)
}

/// The admin wires the credit manager allowed to disburse principal; `validated`
/// is the chain's verdict on the given address.
pub fn set_credit_manager(sender: &String, config: &Config, validated: Result<String, String>) -> (res: Result<Config, PspPoolError>)
    ensures
        sender@ != config.admin@ ==> res == Err::<Config, PspPoolError>(not_admin(*sender, *config)),
        sender@ == config.admin@ ==> match validated {
            Err(m) => res == Err::<Config, PspPoolError>(PspPoolError::InvalidAddress { message: m }),
            Ok(a) => res == Ok::<Config, PspPoolError>(Config { credit_manager: Some(a), ..*config }),
        },
        res matches Ok(c) ==> c.withdrawal_delay == config.withdrawal_delay,
{
    require_admin(sender, config)?;
    match validated {
        Err(m) => Err(PspPoolError::InvalidAddress { message: m }),
        Ok(a) => Ok(Config {
            stablecoin_denom: config.stablecoin_denom.clone(),
            lp_full_denom: config.lp_full_denom.clone(),
            admin: config.admin.clone(),
            withdrawal_delay: config.withdrawal_delay,
            credit_manager: Some(a),
            investor_apy_bps: config.investor_apy_bps,
            yield_reserve: config.yield_reserve.clone(),
            execution_amount: config.execution_amount,
        }),
    }
}

/// Updates the stablecoin denom and the admin; the withdrawal delay can never be
/// changed. `admin` carries the chain's verdict on a new admin address.
pub fn update_config(
    sender: &String,
    config: &Config,
    stablecoin_denom: Option<String>,
    admin: Option<Result<String, String>>,
) -> (res: Result<Config, PspPoolError>)
    ensures
        sender@ != config.admin@ ==> res == Err::<Config, PspPoolError>(not_admin(*sender, *config)),
        sender@ == config.admin@ ==> match admin {
            Some(Err(m)) => res == Err::<Config, PspPoolError>(PspPoolError::InvalidAddress { message: m }),
            _ => res == Ok::<Config, PspPoolError>(Config {
                stablecoin_denom: match stablecoin_denom { Some(d) => d, None => config.stablecoin_denom },
                admin: match admin { Some(Ok(a)) => a, _ => config.admin },
                ..*config
            }),
        },
        res matches Ok(c) ==> c.withdrawal_delay == config.withdrawal_delay,
{
    require_admin(sender, config)?;
    let denom = match stablecoin_denom {
        Some(d) => d,
        None => config.stablecoin_denom.clone(),
    };
    let new_admin = match admin {
        Some(Err(m)) => {
            return Err(PspPoolError::InvalidAddress { message: m });
        },
        Some(Ok(a)) => a,
        None => config.admin.clone(),
    };
    Ok(Config {
        stablecoin_denom: denom,
        lp_full_denom: config.lp_full_denom.clone(),
        admin: new_admin,
        withdrawal_delay: config.withdrawal_delay,
        credit_manager: config.credit_manager.clone(),
        investor_apy_bps: config.investor_apy_bps,
        yield_reserve: config.yield_reserve.clone(),
        execution_amount: config.execution_amount,
    })
}

// ---------------------------------------------------------------------------
// Principal disbursement and the LP holder index
// ---------------------------------------------------------------------------

/// What a disbursement of pool principal to the PSP does, given the chain's
/// verdict on the recipient and the pool's stablecoin balance.
pub open spec fn disburse_spec(
    sender: String,
    config: Config,
    funds: Seq<Fund>,
    amount: u128,
    state: PoolState,
    recipient: Result<String, String>,
    balance: u128,
) -> Result<Transfer, PspPoolError> {
    if config.credit_manager is None {
        Err(PspPoolError::CreditManagerNotConfigured)
    } else if sender@ != config.credit_manager->0@ {
        Err(PspPoolError::CreditManagerOnly)
    } else if funds.len() != 0 {
        Err(PspPoolError::UnexpectedFunds)
    } else if amount == 0 {
        Err(PspPoolError::InvalidZeroAmount)
    } else if state != PoolState::Active {
        Err(PspPoolError::InvalidState { expected: ExpectedState::Active, got: state })
    } else {
        match recipient {
            Err(m) => Err(PspPoolError::InvalidAddress { message: m }),
            Ok(r) => {
                if balance < amount {
                    Err(PspPoolError::InsufficientContractBalance { available: balance, required: amount })
                } else {
                    Ok(Transfer { to_address: r, denom: config.stablecoin_denom, amount })
                }
            },
        }
    }
}

/// The credit manager draws `amount` of principal from an active pool to the PSP.
pub fn disburse_to_psp(
    sender: &String,
    config: &Config,
    funds: &Vec<Fund>,
    amount: u128,
    state: PoolState,
    recipient: Result<String, String>,
    balance: u128,
) -> (res: Result<Transfer, PspPoolError>)
    ensures
        res == disburse_spec(*sender, *config, funds@, amount, state, recipient, balance),
{
    let credit_manager = match &config.credit_manager {
        Some(c) => c,
        None => {
            return Err(PspPoolError::CreditManagerNotConfigured);
        },
    };
    if *sender != *credit_manager {
        return Err(PspPoolError::CreditManagerOnly);
    }
    if funds.len() != 0 {
        return Err(PspPoolError::UnexpectedFunds);
    }
    if amount == 0 {
        return Err(PspPoolError::InvalidZeroAmount);
    }
    if state != PoolState::Active {
        return Err(PspPoolError::InvalidState { expected: ExpectedState::Active, got: state });
    }
    let to = match recipient {
        Err(m) => {
            return Err(PspPoolError::InvalidAddress { message: m });
        },
        Ok(r) => r,
    };
    if balance < amount {
        return Err(PspPoolError::InsufficientContractBalance { available: balance, required: amount });
    }
    Ok(Transfer { to_address: to, denom: config.stablecoin_denom.clone(), amount })
}

/// Whether a holder stays in the LP holder index: the index follows the LP
/// balance looked up for it, kept when nonzero and dropped at zero.
pub fn holder_stays_indexed(lp_balance: u128) -> (keep: bool)
    ensures
        keep == (lp_balance != 0),
{
    lp_balance != 0
}

/// Re-syncs one holder's index entry: no funds may be attached, and the address
/// must be valid. Returns the holder and whether it stays indexed.
pub fn sync_lp_holder(funds: &Vec<Fund>, holder: Result<String, String>, lp_balance: u128) -> (res: Result<(String, bool), PspPoolError>)
    ensures
        funds@.len() != 0 ==> res == Err::<(String, bool), PspPoolError>(PspPoolError::UnexpectedFunds),
        funds@.len() == 0 ==> match holder {
            Err(m) => res == Err::<(String, bool), PspPoolError>(PspPoolError::InvalidAddress { message: m }),
            Ok(h) => res == Ok::<(String, bool), PspPoolError>((h, lp_balance != 0)),
        },
{
    if funds.len() != 0 {
        return Err(PspPoolError::UnexpectedFunds);
    }
    match holder {
        Err(m) => Err(PspPoolError::InvalidAddress { message: m }),
        Ok(h) => Ok((h, holder_stays_indexed(lp_balance))),
    }
}


// ---------------------------------------------------------------------------
// Deposits
// ---------------------------------------------------------------------------

/// What a deposit changes.
#[derive(Clone, Copy, Debug)]
pub struct DepositOutcome {
    pub vault: VaultState,
    /// The stablecoin deposited.
    pub amount: u128,
    /// LP tokens to mint to the depositor.
    pub lp_minted: u128,
    /// The depositor's record: first-deposit time and LP tokens minted to it.
    pub user_info: UserInfo,
}

/// The deposit ceiling while the facility is active: what remains of the
/// execution amount.
pub open spec fn backfill_check(state: PoolState, config: Config, vault: VaultState, amount: u128) -> Option<PspPoolError> {
    match state {
        PoolState::Fundraising => None,
        PoolState::Active => {
            if config.execution_amount < vault.total_deposited {
                Some(PspPoolError::Overflow { operation: PoolOp::BackfillRemainingCapacity })
            } else if amount > config.execution_amount - vault.total_deposited {
                Some(PspPoolError::BackfillCapExceeded {
                    cap: (config.execution_amount - vault.total_deposited) as u128,
                    requested: amount,
                })
            } else {
                None
            }
        },
        _ => Some(PspPoolError::InvalidState { expected: ExpectedState::FundraisingOrActive, got: state }),
    }
}

/// What a deposit does: exactly one coin, of the stablecoin, nonzero; accepted
/// while fundraising, or while active up to the execution amount.
pub open spec fn pool_deposit_spec(
    state: PoolState,
    config: Config,
    vault: VaultState,
    funds: Seq<Fund>,
    user_info: Option<UserInfo>,
    now_secs: u64,
) -> Result<DepositOutcome, PspPoolError> {
    if funds.len() != 1 {
        Err(PspPoolError::Vault(VaultError::MustSendExactlyOneToken))
    } else if single_coin_spec(funds, config.stablecoin_denom@) is None {
        Err(PspPoolError::Vault(VaultError::NoStablecoinSent))
    } else if single_coin_spec(funds, config.stablecoin_denom@)->0 == 0 {
        Err(PspPoolError::Vault(VaultError::InvalidZeroAmount))
    } else {
        let amount = single_coin_spec(funds, config.stablecoin_denom@)->0;
        match backfill_check(state, config, vault, amount) {
            Some(e) => Err(e),
            None => match deposit_spec(vault, amount) {
                Err(e) => Err(PspPoolError::Vault(e)),
                Ok((v1, lp)) => {
                    let u = match user_info {
                        Some(u) => u,
                        None => UserInfo { deposit_timestamp: now_secs, lp_balance: 0 },
                    };
                    if u.lp_balance + lp > u128::MAX {
                        Err(PspPoolError::Overflow { operation: PoolOp::UserLpBalanceAdd })
                    } else {
                        Ok(DepositOutcome {
                            vault: v1,
                            amount,
                            lp_minted: lp,
                            user_info: UserInfo {
                                deposit_timestamp: u.deposit_timestamp,
                                lp_balance: (u.lp_balance + lp) as u128,
                            },
                        })
                    }
                },
            },
        }
    }
}

/// Deposits stablecoin for LP tokens. `user_info` is the depositor's stored
/// record, if any; a first deposit records `now_secs` as its time.
pub fn deposit(
    state: PoolState,
    config: &Config,
    vault: &VaultState,
    funds: &Vec<Fund>,
    user_info: Option<UserInfo>,
    now_secs: u64,
) -> (res: Result<DepositOutcome, PspPoolError>)
    ensures
        res == pool_deposit_spec(state, *config, *vault, funds@, user_info, now_secs),
{
    if funds.len() != 1 {
        return Err(PspPoolError::Vault(VaultError::MustSendExactlyOneToken));
    }
    let amount = match single_coin_amount(funds, &config.stablecoin_denom) {
        Some(a) => a,
        None => {
            return Err(PspPoolError::Vault(VaultError::NoStablecoinSent));
        },
    };
    if amount == 0 {
        return Err(PspPoolError::Vault(VaultError::InvalidZeroAmount));
    }
    match state {
        PoolState::Fundraising => {},
        PoolState::Active => {
            let remaining = match config.execution_amount.checked_sub(vault.total_deposited) {
                Some(r) => r,
                None => {
                    return Err(PspPoolError::Overflow { operation: PoolOp::BackfillRemainingCapacity });
                },
            };
            if amount > remaining {
                return Err(PspPoolError::BackfillCapExceeded { cap: remaining, requested: amount });
            }
        },
        _ => {
            return Err(PspPoolError::InvalidState { expected: ExpectedState::FundraisingOrActive, got: state });
        },
    }
    let (v1, lp) = match deposit_accounting(vault, amount) {
        Ok(r) => r,
        Err(e) => {
            return Err(PspPoolError::Vault(e));
        },
    };
    let u = match user_info {
        Some(u) => u,
        None => UserInfo { deposit_timestamp: now_secs, lp_balance: 0 },
    };
    let balance = match u.lp_balance.checked_add(lp) {
        Some(b) => b,
        None => {
            return Err(PspPoolError::Overflow { operation: PoolOp::UserLpBalanceAdd });
        },
    };
    Ok(DepositOutcome {
        vault: v1,
        amount,
        lp_minted: lp,
        user_info: UserInfo { deposit_timestamp: u.deposit_timestamp, lp_balance: balance },
    })
}

/// While active, deposits never take the vault past the execution amount.
pub proof fn law_backfill_respects_execution_amount(
    config: Config,
    vault: VaultState,
    funds: Seq<Fund>,
    user_info: Option<UserInfo>,
    now_secs: u64,
)
    requires
        pool_deposit_spec(PoolState::Active, config, vault, funds, user_info, now_secs) is Ok,
    ensures
        pool_deposit_spec(PoolState::Active, config, vault, funds, user_info, now_secs)->Ok_0.vault.total_deposited
            <= config.execution_amount,
{
}

// ---------------------------------------------------------------------------
// Withdrawal requests
// ---------------------------------------------------------------------------

/// `x` capped at the largest `u128`.
pub open spec fn saturate(x: int) -> int {
    if x > u128::MAX { u128::MAX as int } else { x }
}

/// Yield a withdrawing LP forfeits to the reserve: seven days of the investor APY
/// on the LP tokens burned, `lp * apy_bps * 7 / (360 * 10_000)` with saturating
/// products.
pub open spec fn forfeited_yield_spec(lp_amount: u128, investor_apy_bps: u64) -> int {
    saturate(saturate(lp_amount * investor_apy_bps) * FORFEIT_DAYS) / ((APY_DAYS_BASIS * BPS_DENOMINATOR) as int)
}

fn saturating_mul(a: u128, b: u128) -> (r: u128)
    ensures
        r == saturate(a * b),
{
    match a.checked_mul(b) {
        Some(v) => v,
        None => u128::MAX,
    }
}

pub fn forfeited_yield(lp_amount: u128, investor_apy_bps: u64) -> (r: u128)
    ensures
        r == forfeited_yield_spec(lp_amount, investor_apy_bps),
{
    let a = saturating_mul(lp_amount, investor_apy_bps as u128);
    let b = saturating_mul(a, FORFEIT_DAYS);
    b / ((APY_DAYS_BASIS * BPS_DENOMINATOR) as u128)
}

/// What a withdrawal request records.
#[derive(Clone, Copy, Debug)]
pub struct RequestOutcome {
    pub vault: VaultState,
    pub lp_burned: u128,
    /// The requester's id for this withdrawal.
    pub withdrawal_id: u64,
    /// The requester's counter after this request.
    pub counter: WithdrawalCounter,
    /// The withdrawal as stored; its queue id is this request's place in line.
    pub withdrawal: PendingWithdrawal,
    /// The queue's allocation pointer after this request.
    pub queue_next: u64,
    /// Yield forfeited to the reserve; nothing is sent when it is zero.
    pub forfeited_yield: u128,
}

/// What a withdrawal request does at block time `now` (nanoseconds): on a Monday,
/// while active or winding down, the LP tokens sent are burned, their value is
/// locked, and the request takes the next place in the withdrawal queue,
/// maturing after the configured delay.
pub open spec fn request_withdraw_spec(
    state: PoolState,
    now: u64,
    config: Config,
    funds: Seq<Fund>,
    vault: VaultState,
    counter: Option<WithdrawalCounter>,
    queue_next: u64,
) -> Result<RequestOutcome, PspPoolError> {
    let day = spec_day_of_week((now / NANOS_PER_SECOND) as u64);
    if state != PoolState::Active && state != PoolState::WindingDown {
        Err(PspPoolError::InvalidState { expected: ExpectedState::ActiveOrWindingDown, got: state })
    } else if day != MONDAY_WITHDRAWAL_WINDOW_DAY {
        Err(PspPoolError::WithdrawalWindowClosed { current_day: day as u64 })
    } else if funds.len() != 1 {
        Err(PspPoolError::Vault(VaultError::MustSendExactlyOneToken))
    } else if single_coin_spec(funds, config.lp_full_denom@) is None {
        Err(PspPoolError::Vault(VaultError::NoLpTokensSent))
    } else if single_coin_spec(funds, config.lp_full_denom@)->0 == 0 {
        Err(PspPoolError::Vault(VaultError::InvalidZeroAmount))
    } else {
        let lp = single_coin_spec(funds, config.lp_full_denom@)->0;
        match request_spec(vault, lp) {
            Err(e) => Err(PspPoolError::Vault(e)),
            Ok((v1, value)) => {
                let id = match counter { Some(c) => c.next_id, None => 0 };
                if id + 1 > u64::MAX {
                    Err(PspPoolError::Overflow { operation: PoolOp::WithdrawalId })
                } else if queue_next + 1 > u64::MAX {
                    Err(PspPoolError::Overflow { operation: PoolOp::WithdrawalQueueId })
                } else {
                    Ok(RequestOutcome {
                        vault: v1,
                        lp_burned: lp,
                        withdrawal_id: id,
                        counter: WithdrawalCounter { next_id: (id + 1) as u64 },
                        withdrawal: PendingWithdrawal {
                            queue_id: queue_next,
                            amount: value,
                            requested_at: now,
                            release_time: (now + config.withdrawal_delay * NANOS_PER_SECOND) as u64,
                        },
                        queue_next: (queue_next + 1) as u64,
                        forfeited_yield: forfeited_yield_spec(lp, config.investor_apy_bps) as u128,
                    })
                }
            },
        }
    }
}

/// Requests a withdrawal. `counter` is the requester's stored counter, if any,
/// and `queue_next` the queue's allocation pointer. The release time of a request
/// that is granted must fit in a timestamp, as adding to one panics otherwise.
pub fn request_withdraw(
    state: PoolState,
    now: u64,
    config: &Config,
    funds: &Vec<Fund>,
    vault: &VaultState,
    counter: Option<WithdrawalCounter>,
    queue_next: u64,
) -> (res: Result<RequestOutcome, PspPoolError>)
    requires
        request_withdraw_spec(state, now, *config, funds@, *vault, counter, queue_next) is Ok
            ==> now + config.withdrawal_delay * NANOS_PER_SECOND <= u64::MAX,
    ensures
        res == request_withdraw_spec(state, now, *config, funds@, *vault, counter, queue_next),
{
    if state != PoolState::Active && state != PoolState::WindingDown {
        return Err(PspPoolError::InvalidState { expected: ExpectedState::ActiveOrWindingDown, got: state });
    }
    let current_day = day_of_week(now / NANOS_PER_SECOND);
    if current_day != MONDAY_WITHDRAWAL_WINDOW_DAY {
        return Err(PspPoolError::WithdrawalWindowClosed { current_day });
    }
    if funds.len() != 1 {
        return Err(PspPoolError::Vault(VaultError::MustSendExactlyOneToken));
    }
    let lp = match single_coin_amount(funds, &config.lp_full_denom) {
        Some(a) => a,
        None => {
            return Err(PspPoolError::Vault(VaultError::NoLpTokensSent));
        },
    };
    if lp == 0 {
        return Err(PspPoolError::Vault(VaultError::InvalidZeroAmount));
    }
    let (v1, value) = match request_accounting(vault, lp) {
        Ok(r) => r,
        Err(e) => {
            return Err(PspPoolError::Vault(e));
        },
    };
    let id = match counter {
        Some(c) => c.next_id,
        None => 0,
    };
    let next_id = match id.checked_add(1) {
        Some(n) => n,
        None => {
            return Err(PspPoolError::Overflow { operation: PoolOp::WithdrawalId });
        },
    };
    let next_queue_id = match queue_next.checked_add(1) {
        Some(n) => n,
        None => {
            return Err(PspPoolError::Overflow { operation: PoolOp::WithdrawalQueueId });
        },
    };
    assert(config.withdrawal_delay * NANOS_PER_SECOND <= u64::MAX);
    let release_time = now + config.withdrawal_delay * NANOS_PER_SECOND;
    Ok(RequestOutcome {
        vault: v1,
        lp_burned: lp,
        withdrawal_id: id,
        counter: WithdrawalCounter { next_id },
        withdrawal: PendingWithdrawal { queue_id: queue_next, amount: value, requested_at: now, release_time },
        queue_next: next_queue_id,
        forfeited_yield: forfeited_yield(lp, config.investor_apy_bps),
    })
}

// ---------------------------------------------------------------------------
// Claims
// ---------------------------------------------------------------------------

/// What a claim changes.
#[derive(Clone, Debug)]
pub struct ClaimOutcome {
    pub vault: VaultState,
    /// The claimed withdrawal's place in line.
    pub queue_id: u64,
    /// The queue head after the claim.
    pub queue_head: u64,
    /// The payment to the claimant.
    pub transfer: Transfer,
}

/// What a claim does at block time `now` (nanoseconds): only the withdrawal at
/// the head of the queue may be paid, once matured, and the head then moves on.
/// `queue_id` is the claimant's queue id for the withdrawal, `entry_exists`
/// whether the queue still holds that id, and `withdrawal` the stored request.
pub open spec fn claim_withdraw_spec(
    sender: String,
    state: PoolState,
    config: Config,
    funds: Seq<Fund>,
    queue_id: Option<u64>,
    queue_head: u64,
    entry_exists: bool,
    withdrawal: Option<PendingWithdrawal>,
    now: u64,
    vault: VaultState,
    balance: u128,
) -> Result<ClaimOutcome, PspPoolError> {
    if state != PoolState::Active && state != PoolState::WindingDown && state != PoolState::Settled {
        Err(PspPoolError::InvalidState { expected: ExpectedState::ActiveWindingDownOrSettled, got: state })
    } else if funds.len() != 0 {
        Err(PspPoolError::Vault(VaultError::DoNotSendFundsWhenClaiming))
    } else if queue_id is None {
        Err(PspPoolError::Vault(VaultError::WithdrawalNotFound))
    } else if queue_id->0 != queue_head {
        Err(PspPoolError::QueueOrderViolation { head_queue_id: queue_head, requested_queue_id: queue_id->0 })
    } else if !entry_exists {
        Err(PspPoolError::QueueEntryNotFound { queue_id: queue_id->0 })
    } else if withdrawal is None {
        Err(PspPoolError::Vault(VaultError::WithdrawalNotFound))
    } else if now < withdrawal->0.release_time {
        Err(PspPoolError::Vault(VaultError::WithdrawalLocked {
            release_time_secs: (withdrawal->0.release_time / NANOS_PER_SECOND) as u64,
        }))
    } else {
        match payout_spec(vault, withdrawal->0.amount, balance) {
            Err(e) => Err(PspPoolError::Vault(e)),
            Ok(v1) => {
                if queue_head + 1 > u64::MAX {
                    Err(PspPoolError::Overflow { operation: PoolOp::QueueHeadAdvance })
                } else {
                    Ok(ClaimOutcome {
                        vault: v1,
                        queue_id: queue_head,
                        queue_head: (queue_head + 1) as u64,
                        transfer: Transfer {
                            to_address: sender,
                            denom: config.stablecoin_denom,
                            amount: withdrawal->0.amount,
                        },
                    })
                }
            },
        }
    }
}

/// Claims a matured withdrawal, strictly in queue order.
pub fn claim_withdraw(
    sender: &String,
    state: PoolState,
    config: &Config,
    funds: &Vec<Fund>,
    queue_id: Option<u64>,
    queue_head: u64,
    entry_exists: bool,
    withdrawal: Option<PendingWithdrawal>,
    now: u64,
    vault: &VaultState,
    balance: u128,
) -> (res: Result<ClaimOutcome, PspPoolError>)
    ensures
        res == claim_withdraw_spec(
            *sender,
            state,
            *config,
            funds@,
            queue_id,
            queue_head,
            entry_exists,
            withdrawal,
            now,
            *vault,
            balance,
        ),
{
    if state != PoolState::Active && state != PoolState::WindingDown && state != PoolState::Settled {
        return Err(PspPoolError::InvalidState { expected: ExpectedState::ActiveWindingDownOrSettled, got: state });
    }
    if funds.len() != 0 {
        return Err(PspPoolError::Vault(VaultError::DoNotSendFundsWhenClaiming));
    }
    let qid = match queue_id {
        Some(q) => q,
        None => {
            return Err(PspPoolError::Vault(VaultError::WithdrawalNotFound));
        },
    };
    if qid != queue_head {
        return Err(PspPoolError::QueueOrderViolation { head_queue_id: queue_head, requested_queue_id: qid });
    }
    if !entry_exists {
        return Err(PspPoolError::QueueEntryNotFound { queue_id: qid });
    }
    let w = match withdrawal {
        Some(w) => w,
        None => {
            return Err(PspPoolError::Vault(VaultError::WithdrawalNotFound));
        },
    };
    if now < w.release_time {
        return Err(PspPoolError::Vault(VaultError::WithdrawalLocked { release_time_secs: w.release_time / NANOS_PER_SECOND }));
    }
    let v1 = match payout_accounting(vault, w.amount, balance) {
        Ok(v) => v,
        Err(e) => {
            return Err(PspPoolError::Vault(e));
        },
    };
    let new_head = match queue_head.checked_add(1) {
        Some(h) => h,
        None => {
            return Err(PspPoolError::Overflow { operation: PoolOp::QueueHeadAdvance });
        },
    };
    Ok(ClaimOutcome {
        vault: v1,
        queue_id: queue_head,
        queue_head: new_head,
        transfer: Transfer { to_address: sender.clone(), denom: config.stablecoin_denom.clone(), amount: w.amount },
    })
}

/// Withdrawals are paid strictly in the order they were requested: a claim is
/// paid only for the withdrawal at the head of the queue, and each paid claim
/// moves the head on by exactly one place.
pub proof fn law_claims_are_first_in_first_out(
    sender: String,
    state: PoolState,
    config: Config,
    funds: Seq<Fund>,
    queue_id: Option<u64>,
    queue_head: u64,
    entry_exists: bool,
    withdrawal: Option<PendingWithdrawal>,
    now: u64,
    vault: VaultState,
    balance: u128,
)
    ensures
        ({
            let r = claim_withdraw_spec(sender, state, config, funds, queue_id, queue_head, entry_exists, withdrawal, now, vault, balance);
            &&& r is Ok ==> queue_id == Some(queue_head) && r->Ok_0.queue_head == queue_head + 1
            &&& (queue_id is Some && queue_id->0 != queue_head && funds.len() == 0
                && (state == PoolState::Active || state == PoolState::WindingDown || state == PoolState::Settled))
                ==> r == Err::<ClaimOutcome, PspPoolError>(
                    PspPoolError::QueueOrderViolation { head_queue_id: queue_head, requested_queue_id: queue_id->0 })
        }),
{
}

/// A request takes the next free place in line, and the next request the one
/// after it, so a later request can never be paid before an earlier one.
pub proof fn law_requests_queue_in_order(
    state: PoolState,
    now: u64,
    config: Config,
    funds: Seq<Fund>,
    vault: VaultState,
    counter: Option<WithdrawalCounter>,
    queue_next: u64,
)
    requires
        request_withdraw_spec(state, now, config, funds, vault, counter, queue_next) is Ok,
    ensures
        ({
            let o = request_withdraw_spec(state, now, config, funds, vault, counter, queue_next)->Ok_0;
            &&& o.withdrawal.queue_id == queue_next
            &&& o.queue_next == queue_next + 1
            &&& o.counter.next_id == o.withdrawal_id + 1
        }),
{
}

/// A withdrawal matures exactly the configured delay after it was requested.
pub proof fn law_withdrawal_matures_after_delay(
    state: PoolState,
    now: u64,
    config: Config,
    funds: Seq<Fund>,
    vault: VaultState,
    counter: Option<WithdrawalCounter>,
    queue_next: u64,
)
    requires
        request_withdraw_spec(state, now, config, funds, vault, counter, queue_next) is Ok,
        now + config.withdrawal_delay * NANOS_PER_SECOND <= u64::MAX,
    ensures
        ({
            let w = request_withdraw_spec(state, now, config, funds, vault, counter, queue_next)->Ok_0.withdrawal;
            &&& w.requested_at == now
            &&& w.release_time == now + config.withdrawal_delay * NANOS_PER_SECOND
        }),
{
}

/// Withdrawal requests are accepted on Mondays only.
pub proof fn law_requests_only_on_monday(
    state: PoolState,
    now: u64,
    config: Config,
    funds: Seq<Fund>,
    vault: VaultState,
    counter: Option<WithdrawalCounter>,
    queue_next: u64,
)
    requires
        request_withdraw_spec(state, now, config, funds, vault, counter, queue_next) is Ok,
    ensures
        spec_day_of_week((now / NANOS_PER_SECOND) as u64) == 1,
{
}

// ---------------------------------------------------------------------------
// Admin fund management
// ---------------------------------------------------------------------------

/// Moves stablecoin from the vault to the admin's wallet; the accounting keeps
/// it, as it still belongs to the vault.
pub fn admin_withdraw(
    sender: &String,
    config: &Config,
    funds: &Vec<Fund>,
    amount: u128,
    balance: u128,
) -> (res: Result<Transfer, PspPoolError>)
    ensures
        sender@ != config.admin@ ==> res == Err::<Transfer, PspPoolError>(not_admin(*sender, *config)),
        sender@ == config.admin@ ==> match crate::vault::admin_withdraw_spec(funds@.len(), amount, balance) {
            Err(e) => res == Err::<Transfer, PspPoolError>(PspPoolError::Vault(e)),
            Ok(_) => res matches Ok(t) && t.to_address@ == sender@ && t.denom@ == config.stablecoin_denom@
                && t.amount == amount,
        },
{
    require_admin(sender, config)?;
    match crate::vault::admin_withdraw_transfer(funds, amount, balance, sender, &config.stablecoin_denom) {
        Ok(t) => Ok(t),
        Err(e) => Err(PspPoolError::Vault(e)),
    }
}

/// The admin returns principal and reports yield; only the yield raises the
/// vault's value. Returns the new vault and its rendered price per share.
pub fn admin_deposit_yield(
    sender: &String,
    config: &Config,
    vault: &VaultState,
    funds: &Vec<Fund>,
    principal: u128,
    yield_amount: u128,
) -> (res: Result<(VaultState, String), PspPoolError>)
    ensures
        sender@ != config.admin@ ==> res == Err::<(VaultState, String), PspPoolError>(not_admin(*sender, *config)),
        sender@ == config.admin@ ==> match crate::vault::yield_deposit_spec(*vault, funds@, config.stablecoin_denom@, principal, yield_amount) {
            Err(e) => res == Err::<(VaultState, String), PspPoolError>(PspPoolError::Vault(e)),
            Ok(nv) => match price_string(nv.total_deposited, nv.total_lp_minted) {
                None => res == Err::<(VaultState, String), PspPoolError>(
                    PspPoolError::Vault(VaultError::MulRatio { error: MulRatioError::Overflow })),
                Some(text) => res matches Ok((s, p)) && s == nv && p@ == text,
            },
        },
{
    require_admin(sender, config)?;
    match crate::vault::yield_deposit_accounting(vault, funds, &config.stablecoin_denom, principal, yield_amount) {
        Ok(r) => Ok(r),
        Err(e) => Err(PspPoolError::Vault(e)),
    }
}


// ---------------------------------------------------------------------------
// Instantiation
// ---------------------------------------------------------------------------

/// The state a new pool starts from.
#[derive(Clone, Debug)]
pub struct PoolInit {
    pub config: Config,
    pub vault: VaultState,
    pub state: PoolState,
    pub paused: bool,
    pub queue_head: u64,
    pub queue_next: u64,
}

/// Instantiates a pool: checks the parameters, takes the admin (the sender when
/// none is given) and the yield reserve as the chain validated them, and starts
/// an empty, unpaused, fundraising vault with an empty queue. The execution
/// amount is the LP minting cap.
pub fn instantiate(
    lp_subdenom: &str,
    lp_minting_cap: u128,
    withdrawal_delay: u64,
    stablecoin_denom: String,
    investor_apy_bps: u64,
    admin: Option<Result<String, String>>,
    sender: String,
    contract_address: &str,
    yield_reserve: Result<String, String>,
) -> (res: Result<PoolInit, PspPoolError>)
    ensures
        match instantiate_check(lp_subdenom.len() as int, lp_subdenom@, lp_minting_cap, withdrawal_delay) {
            Some(e) => res is Err && same_error(res->Err_0, e),
            None => match (admin, yield_reserve) {
                (Some(Err(m)), _) => res == Err::<PoolInit, PspPoolError>(PspPoolError::InvalidAddress { message: m }),
                (_, Err(m)) => res == Err::<PoolInit, PspPoolError>(PspPoolError::InvalidAddress { message: m }),
                (_, Ok(reserve)) => res matches Ok(init) && {
                    let c = init.config;
                    &&& c.stablecoin_denom == stablecoin_denom
                    &&& c.lp_full_denom@ == lp_full_denom_spec(contract_address@, lp_subdenom@)
                    &&& c.admin == (match admin { Some(Ok(a)) => a, _ => sender })
                    &&& c.withdrawal_delay == withdrawal_delay
                    &&& c.credit_manager is None
                    &&& c.investor_apy_bps == investor_apy_bps
                    &&& c.yield_reserve == reserve
                    &&& c.execution_amount == lp_minting_cap
                    &&& init.vault == VaultState { total_deposited: 0, total_lp_minted: 0, total_pending_withdrawals: 0 }
                    &&& init.state == PoolState::Fundraising
                    &&& !init.paused && init.queue_head == 0 && init.queue_next == 0
                },
            },
        },
{
    validate_instantiate(lp_subdenom, lp_minting_cap, withdrawal_delay)?;
    let admin_addr = match admin {
        Some(Err(m)) => {
            return Err(PspPoolError::InvalidAddress { message: m });
        },
        Some(Ok(a)) => a,
        None => sender,
    };
    let denom = lp_full_denom(contract_address, lp_subdenom);
    let reserve = match yield_reserve {
        Err(m) => {
            return Err(PspPoolError::InvalidAddress { message: m });
        },
        Ok(r) => r,
    };
    Ok(PoolInit {
        config: Config {
            stablecoin_denom,
            lp_full_denom: denom,
            admin: admin_addr,
            withdrawal_delay,
            credit_manager: None,
            investor_apy_bps,
            yield_reserve: reserve,
            execution_amount: lp_minting_cap,
        },
        vault: VaultState::empty(),
        state: PoolState::Fundraising,
        paused: false,
        queue_head: 0,
        queue_next: 0,
    })
}

// ---------------------------------------------------------------------------
// Queries
// ---------------------------------------------------------------------------

/// The lifecycle state by name, and the pause flag (unpaused when never set).
pub fn pool_state_response(state: PoolState, paused: Option<bool>) -> (r: PoolStateResponse)
    ensures
        r.state@ == pool_state_name(state),
        r.paused == (match paused { Some(p) => p, None => false }),
{
    let p = match paused {
        Some(p) => p,
        None => false,
    };
    PoolStateResponse { state: state.name(), paused: p }
}

pub open spec fn views(v: Seq<String>) -> Seq<Seq<char>> {
    v.map_values(|s: String| s@)
}

/// The indexed holders, in index order, that come after `start` (all of them
/// when there is none).
pub open spec fn listed_holders(entries: Seq<(String, bool)>, start: Option<Seq<char>>) -> Seq<Seq<char>>
    decreases entries.len(),
{
    if entries.len() == 0 {
        Seq::empty()
    } else {
        let prev = listed_holders(entries.drop_last(), start);
        let (a, indexed) = entries.last();
        if indexed && (start is None || string_lt(start->0, a@)) {
            prev.push(a@)
        } else {
            prev
        }
    }
}

/// The page size asked for: 50 by default, at most 200, never zero.
pub open spec fn holders_page_size(limit: Option<u32>) -> Option<int> {
    let l = match limit { Some(l) => l, None => DEFAULT_HOLDERS_LIMIT };
    if l == 0 { None } else if l < MAX_HOLDERS_LIMIT { Some(l as int) } else { Some(MAX_HOLDERS_LIMIT as int) }
}

/// Lists indexed LP holders after `start_after`. `entries` is the holder index in
/// ascending address order, each with its flag; `start_after` carries the chain's
/// verdict on the given address.
pub fn lp_holders(
    entries: &Vec<(String, bool)>,
    start_after: Option<Result<String, String>>,
    limit: Option<u32>,
) -> (res: Result<LpHoldersResponse, PspPoolError>)
    ensures
        holders_page_size(limit) is None ==> res == Err::<LpHoldersResponse, PspPoolError>(
            PspPoolError::InvalidPaginationLimit),
        holders_page_size(limit) is Some ==> match start_after {
            Some(Err(m)) => res == Err::<LpHoldersResponse, PspPoolError>(PspPoolError::InvalidAddress { message: m }),
            _ => res matches Ok(r) && {
                let all = listed_holders(entries@, match start_after { Some(Ok(a)) => Some(a@), _ => None });
                let n = holders_page_size(limit)->0;
                views(r.holders@) == all.take(if all.len() < n { all.len() as int } else { n })
            },
        },
{
    let l = match limit {
        Some(l) => l,
        None => DEFAULT_HOLDERS_LIMIT,
    };
    if l == 0 {
        return Err(PspPoolError::InvalidPaginationLimit);
    }
    let n: usize = if l < MAX_HOLDERS_LIMIT { l as usize } else { MAX_HOLDERS_LIMIT as usize };
    let start: Option<String> = match start_after {
        Some(Err(m)) => {
            return Err(PspPoolError::InvalidAddress { message: m });
        },
        Some(Ok(a)) => Some(a),
        None => None,
    };
    let ghost gstart: Option<Seq<char>> = match &start { Some(a) => Some(a@), None => None };
    let mut out: Vec<String> = Vec::new();
    let mut i: usize = 0;
    while i < entries.len()
        invariant
            i <= entries@.len(),
            gstart == (match start { Some(a) => Some(a@), None => None::<Seq<char>> }),
            ({
                let all = listed_holders(entries@.subrange(0, i as int), gstart);
                views(out@) == all.take(if all.len() < n { all.len() as int } else { n as int })
            }),
            out@.len() <= n,
        decreases entries@.len() - i,
    {
        let ghost prefix = entries@.subrange(0, i as int + 1);
        let ghost before = listed_holders(entries@.subrange(0, i as int), gstart);
        proof {
            assert(prefix.drop_last() =~= entries@.subrange(0, i as int));
        }
        let (a, indexed) = &entries[i];
        let after_start = match &start {
            Some(s) => string_less(s, a),
            None => true,
        };
        let ghost now = listed_holders(prefix, gstart);
        proof {
            assert(views(out@).len() == out@.len());
            if before.len() < n {
                assert(out@.len() == before.len());
            } else {
                assert(out@.len() == n);
            }
        }
        if *indexed && after_start {
            assert(now == before.push(a@));
            if out.len() < n {
                let ghost old_out = out@;
                out.push(a.clone());
                proof {
                    assert(before.len() == old_out.len());
                    assert(views(out@) =~= views(old_out).push(a@));
                    assert(before.take(before.len() as int) =~= before);
                    assert(now.take(now.len() as int) =~= now);
                }
            } else {
                proof {
                    assert(now.take(n as int) =~= before.take(n as int));
                }
            }
        } else {
            assert(now == before);
        }
        i = i + 1;
    }
    proof {
        assert(entries@.subrange(0, entries@.len() as int) =~= entries@);
    }
    Ok(LpHoldersResponse { holders: out })
}

/// Whole days the oldest queued withdrawal has waited; none when the queue is
/// empty or its head is missing.
pub open spec fn oldest_wait_spec(queue_head: u64, queue_next: u64, head_entry: Option<QueueEntry>, now: u64) -> Result<Option<u64>, PspPoolError> {
    if queue_head >= queue_next {
        Ok(None)
    } else {
        match head_entry {
            None => Ok(None),
            Some(e) => {
                let now_secs = now / NANOS_PER_SECOND;
                let requested_secs = e.requested_at / NANOS_PER_SECOND;
                if now_secs < requested_secs {
                    Err(PspPoolError::BlockTimeBeforeRequest { now: now_secs as u64, requested: requested_secs as u64 })
                } else {
                    Ok(Some(((now_secs - requested_secs) / (SECONDS_PER_DAY as int)) as u64))
                }
            },
        }
    }
}

pub fn oldest_queue_wait_days(queue_head: u64, queue_next: u64, head_entry: &Option<QueueEntry>, now: u64) -> (res: Result<OldestQueueWaitDaysResponse, PspPoolError>)
    ensures
        match oldest_wait_spec(queue_head, queue_next, *head_entry, now) {
            Ok(d) => res matches Ok(r) && r.days == d,
            Err(e) => res == Err::<OldestQueueWaitDaysResponse, PspPoolError>(e),
        },
{
    if queue_head >= queue_next {
        return Ok(OldestQueueWaitDaysResponse { days: None });
    }
    match head_entry {
        None => Ok(OldestQueueWaitDaysResponse { days: None }),
        Some(e) => {
            let now_secs = now / NANOS_PER_SECOND;
            let requested_secs = e.requested_at / NANOS_PER_SECOND;
            if now_secs < requested_secs {
                return Err(PspPoolError::BlockTimeBeforeRequest { now: now_secs, requested: requested_secs });
            }
            Ok(OldestQueueWaitDaysResponse { days: Some((now_secs - requested_secs) / SECONDS_PER_DAY) })
        },
    }
}

/// The vault totals and the rendered price per share.
pub fn vault_info(vault: &VaultState) -> (res: Result<VaultInfoResponse, MulRatioError>)
    ensures
        match price_string(vault.total_deposited, vault.total_lp_minted) {
            None => res == Err::<VaultInfoResponse, MulRatioError>(MulRatioError::Overflow),
            Some(p) => res matches Ok(r) && r.total_deposited == vault.total_deposited
                && r.total_lp_supply == vault.total_lp_minted
                && r.total_pending_withdrawals == vault.total_pending_withdrawals && r.price_per_share@ == p,
        },
{
    let price = price_per_share(vault.total_deposited, vault.total_lp_minted)?;
    Ok(VaultInfoResponse {
        total_deposited: vault.total_deposited,
        total_lp_supply: vault.total_lp_minted,
        total_pending_withdrawals: vault.total_pending_withdrawals,
        price_per_share: price,
    })
}

/// A holder's LP balance, its stablecoin value and its first-deposit time (zero
/// when it never deposited).
pub fn user_info_response(address: String, lp_balance: u128, vault: &VaultState, user_info: Option<UserInfo>) -> (res: Result<UserInfoResponse, MulRatioError>)
    ensures
        match crate::vault::holder_value_spec(lp_balance, *vault) {
            Err(e) => res == Err::<UserInfoResponse, MulRatioError>(e),
            Ok(value) => res matches Ok(r) && r.address == address && r.lp_balance == lp_balance
                && r.stablecoin_value == value
                && r.deposit_timestamp == (match user_info { Some(u) => u.deposit_timestamp, None => 0 }),
        },
{
    let value = crate::vault::holder_value(lp_balance, vault)?;
    let ts = match user_info {
        Some(u) => u.deposit_timestamp,
        None => 0,
    };
    Ok(UserInfoResponse { address, lp_balance, stablecoin_value: value, deposit_timestamp: ts })
}

/// A stored withdrawal as reported; it is claimable once its release time has come.
pub fn withdrawal_info(id: u64, w: &PendingWithdrawal, now: u64) -> (r: WithdrawalInfo)
    ensures
        r.id == id && r.queue_id == w.queue_id && r.amount == w.amount && r.requested_at == w.requested_at
            && r.release_time == w.release_time && r.claimable == (now >= w.release_time),
{
    WithdrawalInfo {
        id,
        queue_id: w.queue_id,
        amount: w.amount,
        requested_at: w.requested_at,
        release_time: w.release_time,
        claimable: now >= w.release_time,
    }
}

/// A user's stored withdrawals, in id order, as reported.
pub fn pending_withdrawals(list: &Vec<(u64, PendingWithdrawal)>, now: u64) -> (r: Vec<WithdrawalInfo>)
    ensures
        r@.len() == list@.len(),
        forall|i: int| 0 <= i < list@.len() ==> ({
            let (id, w) = #[trigger] list@[i];
            let x = r@[i];
            x.id == id && x.queue_id == w.queue_id && x.amount == w.amount && x.requested_at == w.requested_at
                && x.release_time == w.release_time && x.claimable == (now >= w.release_time)
        }),
{
    let mut out: Vec<WithdrawalInfo> = Vec::new();
    let mut i: usize = 0;
    while i < list.len()
        invariant
            i <= list@.len(),
            out@.len() == i,
            forall|k: int| 0 <= k < i ==> ({
                let (id, w) = #[trigger] list@[k];
                let x = out@[k];
                x.id == id && x.queue_id == w.queue_id && x.amount == w.amount && x.requested_at == w.requested_at
                    && x.release_time == w.release_time && x.claimable == (now >= w.release_time)
            }),
        decreases list@.len() - i,
    {
        let (id, w) = &list[i];
        out.push(withdrawal_info(*id, w, now));
        i = i + 1;
    }
    out
}

pub fn config_response(config: &Config) -> (r: ConfigResponse)
    ensures
        r.stablecoin_denom == config.stablecoin_denom && r.lp_full_denom == config.lp_full_denom
            && r.admin == config.admin && r.withdrawal_delay == config.withdrawal_delay
            && r.credit_manager == config.credit_manager,
{
    ConfigResponse {
        stablecoin_denom: config.stablecoin_denom.clone(),
        lp_full_denom: config.lp_full_denom.clone(),
        admin: config.admin.clone(),
        withdrawal_delay: config.withdrawal_delay,
        credit_manager: config.credit_manager.clone(),
    }
}

} // verus!
