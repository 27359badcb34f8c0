use vstd::prelude::*;
use crate::math::{checked_multiply_ratio, mul_ratio_result, ratio, MulRatioError};
use crate::shares::{
    law_redeem_after_deposit_never_gains, lp_to_mint, price_per_share, price_string,
    shares_for_deposit, value_of_shares, VaultState,
};
use crate::types::{Fund, Transfer};

verus! {

/// Which vault computation overflowed.
#[derive(Clone, Copy, Debug, PartialEq, Eq, Structural)]
pub enum VaultOp {
    TotalDeposited,
    LpMint,
    LpBurn,
    PendingWithdrawal,
    TotalDepositedDecrease,
    PendingWithdrawalDecrease,
    PrincipalPlusYield,
    AddingYield,
}

/// Failures of the LP-vault accounting shared by the vault contracts.
#[derive(Clone, Copy, Debug, PartialEq, Eq)]
pub enum VaultError {
    MustSendExactlyOneToken,
    MustSendExactlyOneStablecoin,
    NoStablecoinSent,
    NoLpTokensSent,
    InvalidZeroAmount,
    MulRatio { error: MulRatioError },
    DepositTooSmall,
    Overflow { operation: VaultOp },
    LpExceedsSupply,
    NoLpInCirculation,
    WithdrawalTooSmall,
    DoNotSendFundsWhenClaiming,
    DoNotSendFunds,
    WithdrawalNotFound,
    WithdrawalLocked { release_time_secs: u64 },
    InvalidWithdrawalAmount,
    PendingAccountingMismatch,
    InsufficientContractBalance { available: u128, required: u128 },
    AmountMismatch { sent: u128, principal: u128, yield_amount: u128, expected: u128 },
}

/// The amount of the only coin attached, if it has the given denom.
pub open spec fn single_coin_spec(funds: Seq<Fund>, denom: Seq<char>) -> Option<u128> {
    if funds[0].denom@ == denom { Some(funds[0].amount) } else { None }
}

/// The amount of the only coin attached when its denom is `denom`.
pub fn single_coin_amount(funds: &Vec<Fund>, denom: &String) -> (res: Option<u128>)
    requires
        funds@.len() == 1,
    ensures
        res == single_coin_spec(funds@, denom@),
{
    if funds[0].denom == *denom { Some(funds[0].amount) } else { None }
}

/// What a deposit of `amount` stablecoin receives, as the vault prices it.
pub open spec fn mint_amount(amount: u128, v: VaultState) -> Result<u128, MulRatioError> {
    if v.total_lp_minted == 0 || v.total_deposited == 0 {
        Ok(amount)
    } else {
        mul_ratio_result(amount, v.total_lp_minted, v.total_deposited)
    }
}

/// The vault after a deposit of `amount`, and the LP tokens minted for it.
pub open spec fn deposit_spec(v: VaultState, amount: u128) -> Result<(VaultState, u128), VaultError> {
    match mint_amount(amount, v) {
        Err(e) => Err(VaultError::MulRatio { error: e }),
        Ok(lp) => {
            if lp == 0 {
                Err(VaultError::DepositTooSmall)
            } else if v.total_deposited + amount > u128::MAX {
                Err(VaultError::Overflow { operation: VaultOp::TotalDeposited })
            } else if v.total_lp_minted + lp > u128::MAX {
                Err(VaultError::Overflow { operation: VaultOp::LpMint })
            } else {
                Ok((
                    VaultState {
                        total_deposited: (v.total_deposited + amount) as u128,
                        total_lp_minted: (v.total_lp_minted + lp) as u128,
                        total_pending_withdrawals: v.total_pending_withdrawals,
                    },
                    lp,
                ))
            }
        },
    }
}

/// Mints LP tokens for a stablecoin deposit: one per unit into an empty or
/// worthless vault, otherwise at the current price, rounded down.
pub fn deposit_accounting(v: &VaultState, amount: u128) -> (res: Result<(VaultState, u128), VaultError>)
    ensures
        res == deposit_spec(*v, amount),
{
    let lp = match lp_to_mint(amount, v) {
        Ok(m) => m,
        Err(e) => {
            return Err(VaultError::MulRatio { error: e });
        },
    };
    if lp == 0 {
        return Err(VaultError::DepositTooSmall);
    }
    let total_deposited = match v.total_deposited.checked_add(amount) {
        Some(t) => t,
        None => {
            return Err(VaultError::Overflow { operation: VaultOp::TotalDeposited });
        },
    };
    let total_lp_minted = match v.total_lp_minted.checked_add(lp) {
        Some(t) => t,
        None => {
            return Err(VaultError::Overflow { operation: VaultOp::LpMint });
        },
    };
    Ok((VaultState { total_deposited, total_lp_minted, total_pending_withdrawals: v.total_pending_withdrawals }, lp))
}

/// The vault after `lp_amount` LP tokens are burned for a withdrawal request, and
/// the stablecoin value locked for the requester.
pub open spec fn request_spec(v: VaultState, lp_amount: u128) -> Result<(VaultState, u128), VaultError> {
    if v.total_lp_minted < lp_amount {
        Err(VaultError::LpExceedsSupply)
    } else if v.total_lp_minted == 0 {
        Err(VaultError::NoLpInCirculation)
    } else {
        match mul_ratio_result(lp_amount, v.total_deposited, v.total_lp_minted) {
            Err(e) => Err(VaultError::MulRatio { error: e }),
            Ok(value) => {
                if value == 0 {
                    Err(VaultError::WithdrawalTooSmall)
                } else if v.total_pending_withdrawals + value > u128::MAX {
                    Err(VaultError::Overflow { operation: VaultOp::PendingWithdrawal })
                } else {
                    Ok((
                        VaultState {
                            total_deposited: v.total_deposited,
                            total_lp_minted: (v.total_lp_minted - lp_amount) as u128,
                            total_pending_withdrawals: (v.total_pending_withdrawals + value) as u128,
                        },
                        value,
                    ))
                }
            },
        }
    }
}

/// Burns LP tokens against a withdrawal request: the requester's share
/// `lp_amount * total_deposited / total_lp_minted`, rounded down, is locked as
/// pending.
pub fn request_accounting(v: &VaultState, lp_amount: u128) -> (res: Result<(VaultState, u128), VaultError>)
    ensures
        res == request_spec(*v, lp_amount),
{
    if v.total_lp_minted < lp_amount {
        return Err(VaultError::LpExceedsSupply);
    }
    if v.total_lp_minted == 0 {
        return Err(VaultError::NoLpInCirculation);
    }
    let value = match checked_multiply_ratio(lp_amount, v.total_deposited, v.total_lp_minted) {
        Ok(x) => x,
        Err(e) => {
            return Err(VaultError::MulRatio { error: e });
        },
    };
    if value == 0 {
        return Err(VaultError::WithdrawalTooSmall);
    }
    let total_lp_minted = match v.total_lp_minted.checked_sub(lp_amount) {
        Some(t) => t,
        None => {
            return Err(VaultError::Overflow { operation: VaultOp::LpBurn });
        },
    };
    let pending = match v.total_pending_withdrawals.checked_add(value) {
        Some(t) => t,
        None => {
            return Err(VaultError::Overflow { operation: VaultOp::PendingWithdrawal });
        },
    };
    Ok((VaultState { total_deposited: v.total_deposited, total_lp_minted, total_pending_withdrawals: pending }, value))
}

/// The vault after paying out a matured withdrawal of `amount`, given the
/// vault's stablecoin balance.
pub open spec fn payout_spec(v: VaultState, amount: u128, balance: u128) -> Result<VaultState, VaultError> {
    if amount == 0 {
        Err(VaultError::InvalidWithdrawalAmount)
    } else if v.total_pending_withdrawals < amount {
        Err(VaultError::PendingAccountingMismatch)
    } else if balance < amount {
        Err(VaultError::InsufficientContractBalance { available: balance, required: amount })
    } else if v.total_deposited < amount {
        Err(VaultError::Overflow { operation: VaultOp::TotalDepositedDecrease })
    } else {
        Ok(VaultState {
            total_deposited: (v.total_deposited - amount) as u128,
            total_lp_minted: v.total_lp_minted,
            total_pending_withdrawals: (v.total_pending_withdrawals - amount) as u128,
        })
    }
}

/// Releases a matured withdrawal from the accounting: both the vault's value and
/// its pending total drop by the amount paid.
pub fn payout_accounting(v: &VaultState, amount: u128, balance: u128) -> (res: Result<VaultState, VaultError>)
    ensures
        res == payout_spec(*v, amount, balance),
{
    if amount == 0 {
        return Err(VaultError::InvalidWithdrawalAmount);
    }
    if v.total_pending_withdrawals < amount {
        return Err(VaultError::PendingAccountingMismatch);
    }
    if balance < amount {
        return Err(VaultError::InsufficientContractBalance { available: balance, required: amount });
    }
    let total_deposited = match v.total_deposited.checked_sub(amount) {
        Some(t) => t,
        None => {
            return Err(VaultError::Overflow { operation: VaultOp::TotalDepositedDecrease });
        },
    };
    let pending = match v.total_pending_withdrawals.checked_sub(amount) {
        Some(t) => t,
        None => {
            return Err(VaultError::Overflow { operation: VaultOp::PendingWithdrawalDecrease });
        },
    };
    Ok(VaultState { total_deposited, total_lp_minted: v.total_lp_minted, total_pending_withdrawals: pending })
}

/// Checks an admin withdrawal to the admin's wallet; the accounting is left as
/// it is, since the funds still belong to the vault.
pub open spec fn admin_withdraw_spec(funds_attached: nat, amount: u128, balance: u128) -> Result<(), VaultError> {
    if funds_attached != 0 {
        Err(VaultError::DoNotSendFunds)
    } else if amount == 0 {
        Err(VaultError::InvalidZeroAmount)
    } else if balance < amount {
        Err(VaultError::InsufficientContractBalance { available: balance, required: amount })
    } else {
        Ok(())
    }
}

/// The transfer of an admin withdrawal: `amount` of the stablecoin to the admin.
pub fn admin_withdraw_transfer(
    funds: &Vec<Fund>,
    amount: u128,
    balance: u128,
    admin: &String,
    stablecoin_denom: &String,
) -> (res: Result<Transfer, VaultError>)
    ensures
        admin_withdraw_spec(funds@.len(), amount, balance) matches Err(e) ==> res == Err::<Transfer, VaultError>(e),
        admin_withdraw_spec(funds@.len(), amount, balance) is Ok ==> (res matches Ok(t)
            && t.to_address@ == admin@ && t.denom@ == stablecoin_denom@ && t.amount == amount),
{
    if funds.len() != 0 {
        return Err(VaultError::DoNotSendFunds);
    }
    if amount == 0 {
        return Err(VaultError::InvalidZeroAmount);
    }
    if balance < amount {
        return Err(VaultError::InsufficientContractBalance { available: balance, required: amount });
    }
    Ok(Transfer { to_address: admin.clone(), denom: stablecoin_denom.clone(), amount })
}

/// The vault after the admin returns `principal` and reports `yield_amount` of
/// yield with exactly that much stablecoin attached: only the yield is new value.
pub open spec fn yield_deposit_spec(v: VaultState, funds: Seq<Fund>, denom: Seq<char>, principal: u128, yield_amount: u128) -> Result<VaultState, VaultError> {
    if funds.len() != 1 {
        Err(VaultError::MustSendExactlyOneStablecoin)
    } else if single_coin_spec(funds, denom) is None {
        Err(VaultError::NoStablecoinSent)
    } else if principal + yield_amount > u128::MAX {
        Err(VaultError::Overflow { operation: VaultOp::PrincipalPlusYield })
    } else if single_coin_spec(funds, denom)->0 != principal + yield_amount {
        Err(VaultError::AmountMismatch {
            sent: single_coin_spec(funds, denom)->0,
            principal,
            yield_amount,
            expected: (principal + yield_amount) as u128,
        })
    } else if principal == 0 && yield_amount == 0 {
        Err(VaultError::InvalidZeroAmount)
    } else if v.total_deposited + yield_amount > u128::MAX {
        Err(VaultError::Overflow { operation: VaultOp::AddingYield })
    } else {
        Ok(VaultState {
            total_deposited: (v.total_deposited + yield_amount) as u128,
            total_lp_minted: v.total_lp_minted,
            total_pending_withdrawals: v.total_pending_withdrawals,
        })
    }
}

/// Books returned principal and new yield; the yield raises the value of every LP
/// token, since no tokens are minted for it. Also renders the new price per share,
/// which fails only where the micro-unit price leaves 128 bits.
pub fn yield_deposit_accounting(
    v: &VaultState,
    funds: &Vec<Fund>,
    stablecoin_denom: &String,
    principal: u128,
    yield_amount: u128,
) -> (res: Result<(VaultState, String), VaultError>)
    ensures
        yield_deposit_spec(*v, funds@, stablecoin_denom@, principal, yield_amount) matches Err(e)
            ==> res == Err::<(VaultState, String), VaultError>(e),
        yield_deposit_spec(*v, funds@, stablecoin_denom@, principal, yield_amount) matches Ok(nv) ==> ({
            let p = price_string(nv.total_deposited, nv.total_lp_minted);
            &&& p is None ==> res == Err::<(VaultState, String), VaultError>(
                VaultError::MulRatio { error: MulRatioError::Overflow })
            &&& p matches Some(text) ==> (res matches Ok((s, price)) && s == nv && price@ == text)
        }),
{
    if funds.len() != 1 {
        return Err(VaultError::MustSendExactlyOneStablecoin);
    }
    let received = match single_coin_amount(funds, stablecoin_denom) {
        Some(a) => a,
        None => {
            return Err(VaultError::NoStablecoinSent);
        },
    };
    let expected = match principal.checked_add(yield_amount) {
        Some(t) => t,
        None => {
            return Err(VaultError::Overflow { operation: VaultOp::PrincipalPlusYield });
        },
    };
    if received != expected {
        return Err(VaultError::AmountMismatch { sent: received, principal, yield_amount, expected });
    }
    if principal == 0 && yield_amount == 0 {
        return Err(VaultError::InvalidZeroAmount);
    }
    let total_deposited = match v.total_deposited.checked_add(yield_amount) {
        Some(t) => t,
        None => {
            return Err(VaultError::Overflow { operation: VaultOp::AddingYield });
        },
    };
    let nv = VaultState {
        total_deposited,
        total_lp_minted: v.total_lp_minted,
        total_pending_withdrawals: v.total_pending_withdrawals,
    };
    match price_per_share(nv.total_deposited, nv.total_lp_minted) {
        Ok(price) => Ok((nv, price)),
        Err(e) => Err(VaultError::MulRatio { error: e }),
    }
}

/// Stablecoin value of a holder's LP balance; zero while no LP tokens exist.
pub open spec fn holder_value_spec(lp_balance: u128, v: VaultState) -> Result<u128, MulRatioError> {
    if v.total_lp_minted == 0 {
        Ok(0)
    } else {
        mul_ratio_result(lp_balance, v.total_deposited, v.total_lp_minted)
    }
}

pub fn holder_value(lp_balance: u128, v: &VaultState) -> (res: Result<u128, MulRatioError>)
    ensures
        res == holder_value_spec(lp_balance, *v),
{
    if v.total_lp_minted == 0 {
        Ok(0)
    } else {
        checked_multiply_ratio(lp_balance, v.total_deposited, v.total_lp_minted)
    }
}

// ---------------------------------------------------------------------------
// Laws of the vault accounting
// ---------------------------------------------------------------------------

/// Depositing, then at once requesting the withdrawal of all LP tokens minted,
/// never locks more than was deposited, unless the vault holds value with no LP
/// tokens in circulation.
pub proof fn law_deposit_then_request_never_gains(v: VaultState, amount: u128)
    requires
        !(v.total_lp_minted == 0 && v.total_deposited > 0),
        deposit_spec(v, amount) is Ok,
    ensures
        ({
            let (v1, lp) = deposit_spec(v, amount)->Ok_0;
            request_spec(v1, lp) matches Ok((_, value)) ==> value <= amount
        }),
{
    let (v1, lp) = deposit_spec(v, amount)->Ok_0;
    assert(lp == shares_for_deposit(amount, v));
    law_redeem_after_deposit_never_gains(amount, v);
    assert(value_of_shares(lp, v1) == ratio(lp, v1.total_deposited, v1.total_lp_minted));
}

/// A withdrawal request burns exactly the LP tokens sent and locks exactly their
/// value; the vault's value is untouched until the claim.
pub proof fn law_request_locks_share_value(v: VaultState, lp_amount: u128)
    requires
        request_spec(v, lp_amount) is Ok,
    ensures
        ({
            let (v1, value) = request_spec(v, lp_amount)->Ok_0;
            &&& v1.total_lp_minted + lp_amount == v.total_lp_minted
            &&& v1.total_pending_withdrawals == v.total_pending_withdrawals + value
            &&& v1.total_deposited == v.total_deposited
            &&& value == ratio(lp_amount, v.total_deposited, v.total_lp_minted)
            &&& 0 < value <= v.total_deposited
        }),
{
    crate::math::lemma_ratio_le_value(v.total_deposited, lp_amount, v.total_lp_minted);
    let x = lp_amount as int;
    let dd = v.total_deposited as int;
    let l = v.total_lp_minted as int;
    assert(x * dd <= l * dd) by (nonlinear_arith)
        requires
            0 <= x <= l,
            dd >= 0,
    ;
    assert((l * dd) / l == dd) by (nonlinear_arith)
        requires
            l > 0,
    ;
    assert((x * dd) / l <= (l * dd) / l) by (nonlinear_arith)
        requires
            x * dd <= l * dd,
            l > 0,
    ;
}

/// Paying out a withdrawal lowers the vault's value and its pending total by the
/// same amount, so the value that still belongs to LP holders is unchanged.
pub proof fn law_payout_keeps_holder_value(v: VaultState, amount: u128, balance: u128)
    requires
        payout_spec(v, amount, balance) is Ok,
    ensures
        ({
            let v1 = payout_spec(v, amount, balance)->Ok_0;
            &&& v1.total_deposited - v1.total_pending_withdrawals == v.total_deposited - v.total_pending_withdrawals
            &&& v1.total_lp_minted == v.total_lp_minted
            &&& v1.total_deposited + amount == v.total_deposited
        }),
{
}

/// Reporting yield never lowers the value of an LP token.
pub proof fn law_yield_never_lowers_price(
    v: VaultState,
    funds: Seq<Fund>,
    denom: Seq<char>,
    principal: u128,
    yield_amount: u128,
    lp: u128,
)
    requires
        yield_deposit_spec(v, funds, denom, principal, yield_amount) is Ok,
        v.total_lp_minted > 0,
    ensures
        ({
            let v1 = yield_deposit_spec(v, funds, denom, principal, yield_amount)->Ok_0;
            ratio(lp, v.total_deposited, v.total_lp_minted) <= ratio(lp, v1.total_deposited, v1.total_lp_minted)
        }),
{
    let v1 = yield_deposit_spec(v, funds, denom, principal, yield_amount)->Ok_0;
    let x = lp as int;
    let d0 = v.total_deposited as int;
    let d1 = v1.total_deposited as int;
    let l = v.total_lp_minted as int;
    assert(x * d0 <= x * d1) by (nonlinear_arith)
        requires
            x >= 0,
            d0 <= d1,
    ;
    assert((x * d0) / l <= (x * d1) / l) by (nonlinear_arith)
        requires
            x * d0 <= x * d1,
            l > 0,
    ;
}

/// While no yield has been reported and nothing is pending, LP tokens are worth
/// one unit each: a deposit mints exactly its amount, and a withdrawal request
/// locks exactly the LP tokens it burns, so the deposits stay equal to the LP
/// supply plus the pending withdrawals.
pub proof fn law_par_accounting(v: VaultState, amount: u128, lp_amount: u128)
    requires
        v.total_deposited == v.total_lp_minted,
        v.total_pending_withdrawals == 0,
    ensures
        deposit_spec(v, amount) matches Ok((v1, minted)) ==> minted == amount
            && v1.total_deposited == v1.total_lp_minted && v1.total_pending_withdrawals == 0,
        request_spec(v, lp_amount) matches Ok((v1, value)) ==> value == lp_amount
            && v1.total_deposited == v1.total_lp_minted + v1.total_pending_withdrawals,
{
    let d = v.total_deposited as int;
    if d > 0 {
        assert((amount as int * d) / d == amount as int) by (nonlinear_arith)
            requires
                d > 0,
        ;
        assert((lp_amount as int * d) / d == lp_amount as int) by (nonlinear_arith)
            requires
                d > 0,
        ;
    }
}

} // verus!
