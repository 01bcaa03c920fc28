//! Fixed-point arithmetic for amounts and interest rates.
//!
//! Amounts are integers counting micro-units of currency ([`SCALE`] per
//! unit); rates are integers counting micro-percent. Rate fractions used in
//! the compounding formulas are carried at [`FRAC`] parts per one. All
//! executable divisions truncate toward zero, mirrored in specifications by
//! [`tdiv`].

use vstd::prelude::*;

verus! {

/// Micro-units per currency unit, and micro-percent per percent.
pub const SCALE: i64 = 1_000_000;

/// Fixed-point scale of rate fractions: parts per one.
pub const FRAC: i128 = 1_000_000_000_000;

/// Divisor turning `outstanding * nominal_rate_in_micro_percent` into one
/// day's interest in micro-units: one hundred (percent) times [`SCALE`]
/// (micro-percent) times 365 (days of the interest year).
pub const DAILY_INTEREST_DIV: i128 = 36_500_000_000;

/// Ceiling on the running amounts of the simulation state. A computation
/// whose state leaves this range stops with a capacity error.
pub const AMOUNT_LIMIT: i128 = 1_152_921_504_606_846_976;

/// Ceiling on the accumulator and base of the fixed-point power loop.
pub const POW_GUARD: i128 = 1_000_000_000_000_000_000;

/// Ceiling on a per-term rate fraction fed into the annuity formula.
pub const TERM_RATE_GUARD: i128 = 1_000_000_000_000_000;

/// Ceiling on the annuity numerator `principal * rate_per_term`.
pub const TOP_GUARD: i128 = 1_000_000_000_000_000_000;

/// Largest effective rate the fixed-point computation can produce.
pub const EFF_BOUND: i128 = 100_000_000_000_000_000_000_000_000_000_000;

/// Largest principal magnitude the annuity formula accepts.
pub const PRINCIPAL_LIMIT: i128 = 36_893_488_147_419_103_232;

/// Coarse bound on any annuity payment the formula can produce.
pub const PAYMENT_BOUND: i128 = 1_000_000_000_000_000_000_000_000_000_000;

/// Truncating division (rounding toward zero), the semantics of the
/// executable `/` on signed integers; meaningful for `b > 0`.
pub open spec fn tdiv(a: int, b: int) -> int
    recommends
        b > 0,
{
    if a >= 0 {
        a / b
    } else {
        -((-a) / b)
    }
}

/// Truncating division stays within the magnitude of its dividend.
pub proof fn lemma_tdiv_bound(a: int, b: int)
    requires
        b >= 1,
    ensures
        a >= 0 ==> 0 <= tdiv(a, b) <= a,
        a < 0 ==> a <= tdiv(a, b) <= 0,
{
    if a >= 0 {
        vstd::arithmetic::div_mod::lemma_div_nonincreasing(a, b);
        vstd::arithmetic::div_mod::lemma_div_pos_is_pos(a, b);
    } else {
        vstd::arithmetic::div_mod::lemma_div_nonincreasing(-a, b);
        vstd::arithmetic::div_mod::lemma_div_pos_is_pos(-a, b);
    }
}

/// Truncating division is monotone in its dividend, for a positive divisor.
pub proof fn lemma_tdiv_monotone(a1: int, a2: int, b: int)
    requires
        b >= 1,
        a1 <= a2,
    ensures
        tdiv(a1, b) <= tdiv(a2, b),
{
    vstd::arithmetic::div_mod::lemma_div_is_ordered(a1, a2, b);
    if a1 < 0 && a2 >= 0 {
        lemma_tdiv_bound(a1, b);
        lemma_tdiv_bound(a2, b);
    } else if a1 < 0 && a2 < 0 {
        vstd::arithmetic::div_mod::lemma_div_is_ordered(-a2, -a1, b);
    }
}

/// Truncating division of a bounded dividend is bounded by the truncated
/// quotient of the bound.
pub proof fn lemma_tdiv_magnitude(a: int, b: int, m: int)
    requires
        b >= 1,
        -m <= a <= m,
        0 <= m,
    ensures
        -tdiv(m, b) <= tdiv(a, b) <= tdiv(m, b),
{
    lemma_tdiv_monotone(a, m, b);
    lemma_tdiv_monotone(-m, a, b);
    lemma_tdiv_bound(m, b);
}

/// Magnitudes multiply: `|a| <= ab && |b| <= bb` bounds `|a * b|`.
pub proof fn lemma_mul_magnitude(a: int, b: int, ab: int, bb: int)
    requires
        -ab <= a <= ab,
        -bb <= b <= bb,
        0 <= ab,
        0 <= bb,
    ensures
        -(ab * bb) <= a * b <= ab * bb,
{
    assert(-(ab * bb) <= a * b <= ab * bb) by (nonlinear_arith)
        requires
            -ab <= a <= ab,
            -bb <= b <= bb,
            0 <= ab,
            0 <= bb,
    ;
}

/// Truncating division of `a` by `b`.
pub fn tdiv_i128(a: i128, b: i128) -> (r: i128)
    requires
        b >= 1,
    ensures
        r == tdiv(a as int, b as int),
{
    proof {
        lemma_tdiv_bound(a as int, b as int);
    }
    a / b
}

/// `(a * b) / d` with truncating division, for operands whose product fits.
pub fn mul_div(a: i128, b: i128, d: i128) -> (r: i128)
    requires
        d >= 1,
        -0x7fff_ffff_ffff_ffff_ffff_ffff_ffff_ffff <= a * b
            <= 0x7fff_ffff_ffff_ffff_ffff_ffff_ffff_ffff,
    ensures
        r == tdiv(a * b, d as int),
{
    let p: i128 = a * b;
    tdiv_i128(p, d)
}

/// `(base / FRAC) ^ n`, carried at [`FRAC`] parts per one: `n` truncating
/// multiplications starting from one. `None` when an accumulator or the base
/// leaves [`POW_GUARD`].
pub open spec fn spec_pow_frac(base: int, n: nat) -> Option<int>
    decreases n,
{
    if n == 0 {
        Some(FRAC as int)
    } else {
        match spec_pow_frac(base, (n - 1) as nat) {
            Option::None => Option::None,
            Option::Some(acc) => {
                if acc > POW_GUARD || base > POW_GUARD {
                    Option::None
                } else {
                    Option::Some(tdiv(acc * base, FRAC as int))
                }
            },
        }
    }
}

/// A power chain that has failed its guard stays failed.
proof fn lemma_pow_frac_none(base: int, n1: nat, n2: nat)
    requires
        n1 <= n2,
        spec_pow_frac(base, n1) is None,
    ensures
        spec_pow_frac(base, n2) is None,
    decreases n2,
{
    if n2 > n1 {
        lemma_pow_frac_none(base, n1, (n2 - 1) as nat);
    }
}

/// A nonnegative base keeps every defined accumulator nonnegative.
proof fn lemma_pow_frac_nonneg(base: int, n: nat)
    requires
        base >= 0,
    ensures
        match spec_pow_frac(base, n) {
            Option::None => true,
            Option::Some(acc) => 0 <= acc <= POW_GUARD * POW_GUARD,
        },
    decreases n,
{
    if n > 0 {
        lemma_pow_frac_nonneg(base, (n - 1) as nat);
        match spec_pow_frac(base, (n - 1) as nat) {
            Option::None => {},
            Option::Some(acc) => {
                if !(acc > POW_GUARD || base > POW_GUARD) {
                    lemma_mul_magnitude(acc, base, POW_GUARD as int, POW_GUARD as int);
                    lemma_tdiv_bound(acc * base, FRAC as int);
                }
            },
        }
    }
}

/// A base of at least one keeps every defined accumulator at least one.
proof fn lemma_pow_frac_lower(base: int, n: nat)
    requires
        base >= FRAC,
    ensures
        match spec_pow_frac(base, n) {
            Option::None => true,
            Option::Some(acc) => acc >= FRAC,
        },
    decreases n,
{
    if n > 0 {
        lemma_pow_frac_lower(base, (n - 1) as nat);
        match spec_pow_frac(base, (n - 1) as nat) {
            Option::None => {},
            Option::Some(acc) => {
                if !(acc > POW_GUARD || base > POW_GUARD) {
                    assert(acc * FRAC <= acc * base) by (nonlinear_arith)
                        requires
                            acc >= 0,
                            FRAC <= base,
                    ;
                    lemma_tdiv_monotone(acc * FRAC, acc * base, FRAC as int);
                    vstd::arithmetic::div_mod::lemma_div_by_multiple(acc, FRAC as int);
                }
            },
        }
    }
}

/// Executable fixed-point power: `(base / FRAC) ^ n` at [`FRAC`] scale.
pub fn pow_frac(base: i128, n: u32) -> (r: Option<i128>)
    requires
        base >= 0,
    ensures
        match r {
            Option::Some(p) => spec_pow_frac(base as int, n as nat) == Some(p as int) && 0 <= p,
            Option::None => spec_pow_frac(base as int, n as nat) is None,
        },
{
    let mut acc: i128 = FRAC;
    let mut i: u32 = 0;
    while i < n
        invariant
            0 <= i <= n,
            spec_pow_frac(base as int, i as nat) == Some(acc as int),
            0 <= acc,
        decreases n - i,
    {
        proof {
            lemma_pow_frac_nonneg(base as int, (i + 1) as nat);
        }
        if acc > POW_GUARD || base > POW_GUARD {
            proof {
                lemma_pow_frac_none(base as int, (i + 1) as nat, n as nat);
            }
            return None;
        }
        proof {
            lemma_mul_magnitude(acc as int, base as int, POW_GUARD as int, POW_GUARD as int);
        }
        acc = mul_div(acc, base, FRAC);
        i = i + 1;
    }
    Some(acc)
}

/// The yearly effective interest rate, in micro-percent, of a yearly nominal
/// rate `nominal` (micro-percent) compounded `k` times a year:
/// `((1 + nominal/100/k)^k - 1) * 100`, carried in fixed point.
pub open spec fn spec_effective_interest(nominal: int, k: int) -> Option<int> {
    let x = tdiv(nominal * 10_000, k);
    match spec_pow_frac(FRAC + x, k as nat) {
        Option::None => Option::None,
        Option::Some(p) => Option::Some(tdiv(p - FRAC, 10_000)),
    }
}

/// Executable effective interest; `None` when the power chain leaves its
/// guard (an over-sized rate).
pub fn effective_interest(nominal: i128, k: u32) -> (r: Option<i128>)
    requires
        0 <= nominal <= AMOUNT_LIMIT,
        1 <= k <= 12,
    ensures
        match r {
            Option::Some(e) => spec_effective_interest(nominal as int, k as int) == Some(
                e as int,
            ) && 0 <= e <= EFF_BOUND,
            Option::None => spec_effective_interest(nominal as int, k as int) is None,
        },
{
    proof {
        lemma_mul_magnitude(nominal as int, 10_000, AMOUNT_LIMIT as int, 10_000);
        lemma_tdiv_bound(nominal * 10_000, k as int);
    }
    let x: i128 = mul_div(nominal, 10_000, k as i128);
    let base: i128 = FRAC + x;
    proof {
        lemma_pow_frac_nonneg(base as int, k as nat);
        lemma_pow_frac_lower(base as int, k as nat);
    }
    match pow_frac(base, k) {
        Option::None => None,
        Option::Some(p) => {
            proof {
                lemma_tdiv_bound(p - FRAC, 10_000);
                lemma_tdiv_monotone(p - FRAC, POW_GUARD * POW_GUARD, 10_000);
                assert(EFF_BOUND * 10_000 == POW_GUARD * POW_GUARD);
                vstd::arithmetic::div_mod::lemma_div_by_multiple(EFF_BOUND as int, 10_000);
            }
            Some(tdiv_i128(p - FRAC, 10_000))
        },
    }
}

/// The annuity term payment, in micro-units, that amortizes `principal` over
/// `n` terms at yearly effective rate `eff` (micro-percent) with `k` terms
/// per year:
/// `payment = principal * (eff/100/k) / (1 - (1 + eff/100/k)^(-n))`,
/// carried in fixed point. `None` when a guard trips: an over-sized rate or
/// numerator, a zero-rate or zero-term denominator.
pub open spec fn spec_annuity_payment(principal: int, eff: int, k: int, n: int) -> Option<int> {
    let x = tdiv(eff * 10_000, k);
    if x > TERM_RATE_GUARD || x < 0 {
        Option::None
    } else {
        let top = tdiv(principal * x, FRAC as int);
        if top > TOP_GUARD || top < -TOP_GUARD {
            Option::None
        } else {
            match spec_pow_frac(FRAC + x, n as nat) {
                Option::None => Option::None,
                Option::Some(p) => {
                    if p <= 0 {
                        Option::None
                    } else {
                        let inv = tdiv(FRAC * FRAC, p);
                        let bottom = FRAC - inv;
                        if bottom <= 0 {
                            Option::None
                        } else {
                            Option::Some(tdiv(top * FRAC, bottom))
                        }
                    }
                },
            }
        }
    }
}

/// Executable annuity term payment.
pub fn annuity_term_payment(principal: i128, eff: i128, k: u32, n: u32) -> (r: Option<i128>)
    requires
        -PRINCIPAL_LIMIT <= principal <= PRINCIPAL_LIMIT,
        0 <= eff <= EFF_BOUND,
        1 <= k <= 12,
    ensures
        match r {
            Option::Some(p) => spec_annuity_payment(principal as int, eff as int, k as int, n as int)
                == Some(p as int) && -PAYMENT_BOUND <= p <= PAYMENT_BOUND,
            Option::None => spec_annuity_payment(principal as int, eff as int, k as int, n as int)
                is None,
        },
{
    proof {
        lemma_mul_magnitude(eff as int, 10_000, EFF_BOUND as int, 10_000);
        lemma_tdiv_bound(eff * 10_000, k as int);
    }
    let x: i128 = mul_div(eff, 10_000, k as i128);
    if x > TERM_RATE_GUARD || x < 0 {
        return None;
    }
    proof {
        lemma_mul_magnitude(principal as int, x as int, PRINCIPAL_LIMIT as int, TERM_RATE_GUARD as int);
        lemma_tdiv_bound(principal * x, FRAC as int);
    }
    let top: i128 = mul_div(principal, x, FRAC);
    if top > TOP_GUARD || top < -TOP_GUARD {
        return None;
    }
    proof {
        lemma_pow_frac_nonneg(FRAC + x, n as nat);
    }
    match pow_frac(FRAC + x, n) {
        Option::None => None,
        Option::Some(p) => {
            if p <= 0 {
                None
            } else {
                proof {
                    lemma_tdiv_bound(FRAC * FRAC, p as int);
                }
                let inv: i128 = tdiv_i128(FRAC * FRAC, p);
                let bottom: i128 = FRAC - inv;
                if bottom <= 0 {
                    None
                } else {
                    proof {
                        lemma_mul_magnitude(top as int, FRAC as int, TOP_GUARD as int, FRAC as int);
                        lemma_tdiv_bound(top * FRAC, bottom as int);
                    }
                    Some(mul_div(top, FRAC, bottom))
                }
            }
        },
    }
}

/// Calculate the annuity term payment of a loan from its effective yearly
/// rate (micro-percent), terms per year and total number of terms:
/// `loan * (rate/100/k) / (1 - (1 + rate/100/k)^(-terms))` in fixed point.
pub fn calculate_annulity_term_payment(
    loan: i64,
    effective_interest: i128,
    terms_per_year: u32,
    terms: u32,
) -> (r: Option<i128>)
    requires
        0 <= effective_interest <= EFF_BOUND,
        1 <= terms_per_year <= 12,
    ensures
        match r {
            Option::Some(p) => spec_annuity_payment(
                loan as int,
                effective_interest as int,
                terms_per_year as int,
                terms as int,
            ) == Some(p as int) && -PAYMENT_BOUND <= p <= PAYMENT_BOUND,
            Option::None => spec_annuity_payment(
                loan as int,
                effective_interest as int,
                terms_per_year as int,
                terms as int,
            ) is None,
        },
{
    annuity_term_payment(loan as i128, effective_interest, terms_per_year, terms)
}

} // verus!
