use vstd::prelude::*;
use crate::math::{checked_multiply_ratio, decimal, mul_ratio_result, padded_decimal, ratio, to_decimal, to_padded_decimal, MulRatioError};
use crate::types::string_from_chars;

verus! {

/// Accounting totals of an LP vault.
#[derive(Clone, Copy, Debug, PartialEq, Eq, Structural)]
pub struct VaultState {
    /// Stablecoin value owned by the vault, accrued yield included.
    pub total_deposited: u128,
    /// LP tokens in circulation.
    pub total_lp_minted: u128,
    /// Stablecoin locked in withdrawal requests not yet claimed.
    pub total_pending_withdrawals: u128,
}

impl VaultState {
    pub fn empty() -> (s: VaultState)
        ensures
            s.total_deposited == 0,
            s.total_lp_minted == 0,
            s.total_pending_withdrawals == 0,
    {
        VaultState { total_deposited: 0, total_lp_minted: 0, total_pending_withdrawals: 0 }
    }
}

/// LP tokens minted for a deposit: one per unit while the vault is empty or
/// worthless, otherwise `amount * total_lp_minted / total_deposited` rounded down.
pub open spec fn shares_for_deposit(amount: u128, v: VaultState) -> int {
    if v.total_lp_minted == 0 || v.total_deposited == 0 {
        amount as int
    } else {
        ratio(amount, v.total_lp_minted, v.total_deposited)
    }
}

/// Stablecoin value of `lp` LP tokens: `lp * total_deposited / total_lp_minted`
/// rounded down.
pub open spec fn value_of_shares(lp: u128, v: VaultState) -> int {
    ratio(lp, v.total_deposited, v.total_lp_minted)
}

/// LP tokens to mint for `amount`, as the deposit handlers compute them.
pub fn lp_to_mint(amount: u128, v: &VaultState) -> (res: Result<u128, MulRatioError>)
    ensures
        v.total_lp_minted == 0 || v.total_deposited == 0 ==> res == Ok::<u128, MulRatioError>(amount),
        v.total_lp_minted != 0 && v.total_deposited != 0 ==> res == mul_ratio_result(
            amount,
            v.total_lp_minted,
            v.total_deposited,
        ),
        res matches Ok(m) ==> m == shares_for_deposit(amount, *v),
{
    if v.total_lp_minted == 0 || v.total_deposited == 0 {
        Ok(amount)
    } else {
        checked_multiply_ratio(amount, v.total_lp_minted, v.total_deposited)
    }
}

/// Price of one LP token with six decimals: `"{q}.{r:06}"` where
/// `q.r = total_deposited / total_lp_minted` truncated to micro-units, or `"1.0"`
/// when no LP tokens exist.
pub open spec fn price_string(total_deposited: u128, total_lp_minted: u128) -> Option<Seq<char>> {
    if total_lp_minted == 0 {
        Some(seq!['1', '.', '0'])
    } else {
        let p = ratio(total_deposited, 1_000_000, total_lp_minted);
        if p > u128::MAX {
            None
        } else {
            Some(decimal((p / 1_000_000) as nat) + seq!['.'] + padded_decimal((p % 1_000_000) as nat, 6))
        }
    }
}

/// Renders the price per share; fails only where the micro-unit price does not fit
/// in 128 bits.
pub fn price_per_share(total_deposited: u128, total_lp_minted: u128) -> (res: Result<String, MulRatioError>)
    ensures
        total_lp_minted == 0 ==> res is Ok,
        res matches Ok(s) ==> price_string(total_deposited, total_lp_minted) == Some(s@),
        res is Err <==> price_string(total_deposited, total_lp_minted) is None,
        res matches Err(e) ==> e == MulRatioError::Overflow,
{
    if total_lp_minted == 0 {
        let mut v: Vec<char> = Vec::new();
        v.push('1');
        v.push('.');
        v.push('0');
        assert(v@ =~= seq!['1', '.', '0']);
        Ok(string_from_chars(&v))
    } else {
        let p = checked_multiply_ratio(total_deposited, 1_000_000, total_lp_minted)?;
        let mut whole = to_decimal(p / 1_000_000);
        whole.push('.');
        let frac = to_padded_decimal(p % 1_000_000, 6);
        let mut i: usize = 0;
        let ghost head = whole@;
        while i < frac.len()
            invariant
                i <= frac.len(),
                whole@ =~= head + frac@.subrange(0, i as int),
            decreases frac.len() - i,
        {
            whole.push(frac[i]);
            assert(frac@.subrange(0, i as int + 1) =~= frac@.subrange(0, i as int).push(frac@[i as int]));
            i = i + 1;
        }
        assert(frac@.subrange(0, frac.len() as int) =~= frac@);
        assert(whole@ =~= decimal((p / 1_000_000) as nat) + seq!['.'] + padded_decimal((p % 1_000_000) as nat, 6));
        Ok(string_from_chars(&whole))
    }
}

/// Depositing and at once redeeming the LP tokens minted never returns more than
/// was deposited: rounding always favours the vault. (A vault holding value with
/// no LP tokens in circulation is the exception: its value goes to the next
/// depositor.)
pub proof fn law_redeem_after_deposit_never_gains(amount: u128, v: VaultState)
    requires
        !(v.total_lp_minted == 0 && v.total_deposited > 0),
        shares_for_deposit(amount, v) > 0,
        v.total_deposited + amount <= u128::MAX,
        v.total_lp_minted + shares_for_deposit(amount, v) <= u128::MAX,
    ensures
        ({
            let m = shares_for_deposit(amount, v) as u128;
            let after = VaultState {
                total_deposited: (v.total_deposited + amount) as u128,
                total_lp_minted: (v.total_lp_minted + m) as u128,
                total_pending_withdrawals: v.total_pending_withdrawals,
            };
            value_of_shares(m, after) <= amount
        }),
{
    let a = amount as int;
    let d = v.total_deposited as int;
    let l = v.total_lp_minted as int;
    if d == 0 {
        assert((a * a) / (l + a) <= a) by (nonlinear_arith)
            requires
                a > 0,
                l >= 0,
        ;
        return;
    }
    let m = (a * l) / d;
    assert(m * d <= a * l) by (nonlinear_arith)
        requires
            d > 0,
            m == (a * l) / d,
            a >= 0,
            l >= 0,
    ;
    assert(m * (d + a) <= a * (l + m)) by (nonlinear_arith)
        requires
            m * d <= a * l,
    ;
    assert((m * (d + a)) / (l + m) <= a) by (nonlinear_arith)
        requires
            m * (d + a) <= a * (l + m),
            l + m > 0,
            a >= 0,
    ;
}

/// A deposit never lowers the price per share, `total_deposited /
/// total_lp_minted`, of a vault with LP tokens in circulation.
pub proof fn law_deposit_keeps_price(amount: u128, v: VaultState)
    requires
        v.total_lp_minted > 0,
    ensures
        ({
            let m = shares_for_deposit(amount, v);
            (v.total_deposited as int) * (v.total_lp_minted + m) <= (v.total_deposited + amount) * (
            v.total_lp_minted as int)
        }),
{
    let a = amount as int;
    let d = v.total_deposited as int;
    let l = v.total_lp_minted as int;
    if d == 0 {
        assert(0 <= a * l) by (nonlinear_arith)
            requires
                a >= 0,
                l >= 0,
        ;
        return;
    }
    let m = (a * l) / d;
    assert(m * d <= a * l) by (nonlinear_arith)
        requires
            d > 0,
            m == (a * l) / d,
            a >= 0,
            l >= 0,
    ;
    assert(d * (l + m) <= (d + a) * l) by (nonlinear_arith)
        requires
            m * d <= a * l,
    ;
}

/// A redemption of `lp` tokens, at most the supply, is worth at most the vault's
/// total value.
pub proof fn law_redeem_value_bounded(lp: u128, v: VaultState)
    requires
        0 < v.total_lp_minted,
        lp <= v.total_lp_minted,
    ensures
        0 <= value_of_shares(lp, v) <= v.total_deposited,
{
    let x = lp as int;
    let dd = v.total_deposited as int;
    let l = v.total_lp_minted as int;
    assert(x * dd <= l * dd) by (nonlinear_arith)
        requires
            0 <= x <= l,
            dd >= 0,
    ;
    assert((l * dd) / l == dd) by (nonlinear_arith)
        requires
            l > 0,
    ;
    assert(0 <= (x * dd) / l <= (l * dd) / l) by (nonlinear_arith)
        requires
            0 <= x * dd <= l * dd,
            l > 0,
    ;
}

} // verus!
