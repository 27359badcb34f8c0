use vstd::prelude::*;

verus! {

/// Why a multiply-ratio computation has no `u128` result.
#[derive(Clone, Copy, Debug, PartialEq, Eq)]
pub enum MulRatioError {
    DivideByZero,
    Overflow,
}

/// `floor(value * numerator / denominator)` over the mathematical integers,
/// the way a 256-bit intermediate product computes it.
pub open spec fn ratio(value: u128, numerator: u128, denominator: u128) -> int {
    (value as int * numerator as int) / (denominator as int)
}

/// What a checked multiply-ratio returns on the given operands.
pub open spec fn mul_ratio_result(value: u128, numerator: u128, denominator: u128) -> Result<u128, MulRatioError> {
    if denominator == 0 {
        Err(MulRatioError::DivideByZero)
    } else if ratio(value, numerator, denominator) > u128::MAX {
        Err(MulRatioError::Overflow)
    } else {
        Ok(ratio(value, numerator, denominator) as u128)
    }
}

/// Calls `cosmwasm_std::Uint128::checked_multiply_ratio`, which multiplies into a
/// 256-bit product and divides it by the denominator, rounding down. Its contract
/// claims the documented behaviour: an error when the denominator is zero, an error
/// when the quotient does not fit in 128 bits, and the floored quotient otherwise.
#[verifier::external_body]
pub fn checked_multiply_ratio(value: u128, numerator: u128, denominator: u128) -> (res: Result<u128, MulRatioError>)
    ensures
        res == mul_ratio_result(value, numerator, denominator),
{
    match cosmwasm_std::Uint128::new(value).checked_multiply_ratio(numerator, denominator) {
        Ok(v) => Ok(v.u128()),
        Err(cosmwasm_std::CheckedMultiplyRatioError::DivideByZero) => Err(MulRatioError::DivideByZero),
        Err(cosmwasm_std::CheckedMultiplyRatioError::Overflow) => Err(MulRatioError::Overflow),
    }
}

/// A ratio with a nonzero denominator and a numerator no larger than it never
/// exceeds the value it scales.
pub proof fn lemma_ratio_le_value(value: u128, numerator: u128, denominator: u128)
    requires
        denominator > 0,
        numerator <= denominator,
    ensures
        0 <= ratio(value, numerator, denominator) <= value,
{
    let v = value as int;
    let n = numerator as int;
    let d = denominator as int;
    assert(0 <= v * n <= v * d) by (nonlinear_arith)
        requires
            0 <= v,
            0 <= n <= d,
    ;
    assert((v * d) / d == v) by (nonlinear_arith)
        requires
            d > 0,
    ;
    assert(0 <= (v * n) / d <= (v * d) / d) by (nonlinear_arith)
        requires
            0 <= v * n <= v * d,
            d > 0,
    ;
}

/// The decimal digits of `n`, most significant first, with no leading zeros
/// (a single `'0'` for zero).
pub open spec fn decimal(n: nat) -> Seq<char>
    decreases n,
{
    if n < 10 {
        seq![digit_char(n)]
    } else {
        decimal(n / 10).push(digit_char(n % 10))
    }
}

pub open spec fn digit_char(d: nat) -> char {
    if d == 0 { '0' }
    else if d == 1 { '1' }
    else if d == 2 { '2' }
    else if d == 3 { '3' }
    else if d == 4 { '4' }
    else if d == 5 { '5' }
    else if d == 6 { '6' }
    else if d == 7 { '7' }
    else if d == 8 { '8' }
    else { '9' }
}

/// `decimal(n)` left-padded with `'0'` to at least `width` characters.
pub open spec fn padded_decimal(n: nat, width: nat) -> Seq<char> {
    let d = decimal(n);
    if d.len() >= width {
        d
    } else {
        Seq::new((width - d.len()) as nat, |i: int| '0') + d
    }
}

fn digit_to_char(d: u128) -> (c: char)
    requires
        d < 10,
    ensures
        c == digit_char(d as nat),
{
    if d == 0 { '0' }
    else if d == 1 { '1' }
    else if d == 2 { '2' }
    else if d == 3 { '3' }
    else if d == 4 { '4' }
    else if d == 5 { '5' }
    else if d == 6 { '6' }
    else if d == 7 { '7' }
    else if d == 8 { '8' }
    else { '9' }
}

pub proof fn lemma_decimal_len_pos(n: nat)
    ensures
        decimal(n).len() >= 1,
    decreases n,
{
    if n >= 10 {
        lemma_decimal_len_pos(n / 10);
    }
}

/// Renders `n` in base ten, as `Display` does for integers.
pub fn to_decimal(n: u128) -> (s: Vec<char>)
    ensures
        s@ == decimal(n as nat),
    decreases n,
{
    if n < 10 {
        let mut v: Vec<char> = Vec::new();
        v.push(digit_to_char(n));
        assert(v@ =~= seq![digit_char(n as nat)]);
        v
    } else {
        let mut v = to_decimal(n / 10);
        v.push(digit_to_char(n % 10));
        v
    }
}

/// Renders `n` in base ten left-padded with zeros to `width` characters, as the
/// format `{:0width$}` does.
pub fn to_padded_decimal(n: u128, width: usize) -> (s: Vec<char>)
    ensures
        s@ == padded_decimal(n as nat, width as nat),
{
    let d = to_decimal(n);
    if d.len() >= width {
        d
    } else {
        let pad = width - d.len();
        let mut out: Vec<char> = Vec::new();
        let mut i: usize = 0;
        while i < pad
            invariant
                i <= pad,
                out@ =~= Seq::new(i as nat, |k: int| '0'),
            decreases pad - i,
        {
            out.push('0');
            i = i + 1;
        }
        let mut j: usize = 0;
        let ghost zeros = out@;
        while j < d.len()
            invariant
                j <= d.len(),
                zeros =~= Seq::new(pad as nat, |k: int| '0'),
                out@ =~= zeros + d@.subrange(0, j as int),
            decreases d.len() - j,
        {
            out.push(d[j]);
            assert(d@.subrange(0, j as int + 1) =~= d@.subrange(0, j as int).push(d@[j as int]));
            j = j + 1;
        }
        assert(d@.subrange(0, d.len() as int) =~= d@);
        out
    }
}

} // verus!
