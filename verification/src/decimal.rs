//! Normalization of a decimal price into a validated price mantissa and a power of ten.
//!
//! A decimal is held as its integer mantissa and its scale, the way `rust_decimal` stores it:
//! `value = mantissa * 10^(-scale)`.

use rust_decimal::Decimal;
use vstd::prelude::*;

use crate::price::{
    is_valid_mantissa,
    pow10,
    lemma_pow10_add,
    lemma_pow10_monotonic,
    OrderInfoError,
    ValidatedPriceMantissa,
};

verus! {

/// `2^96`, one above the largest mantissa magnitude of a `rust_decimal::Decimal`.
pub const DECIMAL_MANTISSA_LIMIT: u128 = 0x1_0000_0000_0000_0000_0000_0000;

/// The largest scale of a `rust_decimal::Decimal`.
pub const DECIMAL_MAX_SCALE: u32 = 28;

/// The limit on how far a price may be shifted by powers of ten while normalizing it.
pub const MAX_NORMALIZE_ITERATIONS: i16 = 100;

/// The `rust_decimal` decimal type, carried through opaquely.
#[verifier::external_type_specification]
#[verifier::external_body]
pub struct ExDecimal(Decimal);

/// A decimal number `mantissa * 10^(-scale)`.
#[derive(Clone, Copy, Debug, PartialEq, Eq, Structural)]
pub struct DecimalParts {
    pub mantissa: i128,
    pub scale: u32,
}

impl DecimalParts {
    /// The ranges that a `rust_decimal::Decimal` can hold.
    pub open spec fn wf(self) -> bool {
        &&& -(DECIMAL_MANTISSA_LIMIT as int) < self.mantissa < DECIMAL_MANTISSA_LIMIT
        &&& self.scale <= DECIMAL_MAX_SCALE
    }

    /// Reads the mantissa and scale of a `rust_decimal::Decimal`.
    pub fn from_decimal(value: &Decimal) -> (r: DecimalParts)
        ensures
            r.mantissa == decimal_mantissa_of(*value),
            r.scale == decimal_scale_of(*value),
            r.wf(),
    {
        DecimalParts { mantissa: decimal_mantissa(value), scale: decimal_scale(value) }
    }
}

/// What `rust_decimal::Decimal::mantissa` returns for `d`.
pub uninterp spec fn decimal_mantissa_of(d: Decimal) -> i128;

/// What `rust_decimal::Decimal::scale` returns for `d`.
pub uninterp spec fn decimal_scale_of(d: Decimal) -> u32;

/// Calls `rust_decimal::Decimal::mantissa`, which returns the signed 96-bit integer mantissa.
#[verifier::external_body]
fn decimal_mantissa(value: &Decimal) -> (r: i128)
    ensures
        r == decimal_mantissa_of(*value),
        -(DECIMAL_MANTISSA_LIMIT as int) < r < DECIMAL_MANTISSA_LIMIT,
{
    value.mantissa()
}

/// Calls `rust_decimal::Decimal::scale`, which returns the power of ten that divides the
/// mantissa, never above 28.
#[verifier::external_body]
fn decimal_scale(value: &Decimal) -> (r: u32)
    ensures
        r == decimal_scale_of(*value),
        r <= DECIMAL_MAX_SCALE,
{
    value.scale()
}

/// What `rust_decimal::Decimal::checked_mul` returns for the decimal `d` times ten.
pub uninterp spec fn decimal_times_ten(d: DecimalParts) -> Option<DecimalParts>;

/// What `rust_decimal::Decimal::checked_div` returns for the decimal `d` divided by ten.
pub uninterp spec fn decimal_div_ten(d: DecimalParts) -> Option<DecimalParts>;

/// A decimal with its trailing zeros stripped and zero written as `0` with scale 0.
pub open spec fn normalize_spec(d: DecimalParts) -> DecimalParts
    decreases d.scale,
{
    if d.mantissa == 0 {
        DecimalParts { mantissa: 0, scale: 0 }
    } else if d.scale == 0 || d.mantissa % 10 != 0 {
        d
    } else {
        normalize_spec(DecimalParts { mantissa: (d.mantissa / 10) as i128, scale: (d.scale - 1) as u32 })
    }
}

/// Calls `rust_decimal::Decimal::checked_mul` with ten on the decimal `d`: the product, or `None`
/// when it overflows. A result is a valid decimal.
#[verifier::external_body]
pub(crate) fn decimal_checked_times_ten(d: DecimalParts) -> (r: Option<DecimalParts>)
    requires
        d.wf(),
    ensures
        r == decimal_times_ten(d),
        r matches Some(x) ==> x.wf(),
{
    match Decimal::from_i128_with_scale(d.mantissa, d.scale).checked_mul(Decimal::TEN) {
        Some(x) => Some(DecimalParts { mantissa: x.mantissa(), scale: x.scale() }),
        None => None,
    }
}

/// Calls `rust_decimal::Decimal::checked_div` with ten on the decimal `d`: the quotient, or
/// `None` when the division fails. A result is a valid decimal.
#[verifier::external_body]
pub(crate) fn decimal_checked_div_ten(d: DecimalParts) -> (r: Option<DecimalParts>)
    requires
        d.wf(),
    ensures
        r == decimal_div_ten(d),
        r matches Some(x) ==> x.wf(),
{
    match Decimal::from_i128_with_scale(d.mantissa, d.scale).checked_div(Decimal::TEN) {
        Some(x) => Some(DecimalParts { mantissa: x.mantissa(), scale: x.scale() }),
        None => None,
    }
}

/// Calls `rust_decimal::Decimal::normalize` on the decimal `d`, which strips the trailing zeros
/// of the mantissa (lowering the scale) and writes zero as `0` with scale 0.
#[verifier::external_body]
pub(crate) fn decimal_normalize(d: DecimalParts) -> (r: DecimalParts)
    requires
        d.wf(),
    ensures
        r == normalize_spec(d),
{
    let x = Decimal::from_i128_with_scale(d.mantissa, d.scale).normalize();
    DecimalParts { mantissa: x.mantissa(), scale: x.scale() }
}

/// The number of decimal digits of `m` (at least one).
pub open spec fn num_digits(m: nat) -> nat
    decreases m,
{
    if m < 10 {
        1
    } else {
        1 + num_digits(m / 10)
    }
}

/// The first eight significant digits of `m`, padded with zeros when `m` has fewer.
pub open spec fn leading_digits(m: nat) -> nat {
    let d = num_digits(m);
    if d <= 8 {
        m * pow10((8 - d) as nat)
    } else {
        m / pow10((d - 8) as nat)
    }
}

/// The power of ten `p` such that `mantissa * 10^(-scale) == leading_digits(mantissa) * 10^p`
/// up to the truncated digits.
pub open spec fn normalized_power(m: nat, scale: nat) -> int {
    num_digits(m) - 8 - scale
}

/// What [`ValidatedPriceMantissa::try_into_with_scale`] computes: the eight leading digits of a
/// positive price and the power of ten to scale them back, or `InvalidPriceMantissa`.
pub open spec fn try_into_with_scale_spec(price: DecimalParts) -> Result<(u32, i16), OrderInfoError> {
    if price.mantissa <= 0 {
        Err(OrderInfoError::InvalidPriceMantissa)
    } else {
        let p = normalized_power(price.mantissa as nat, price.scale as nat);
        if p < -MAX_NORMALIZE_ITERATIONS || p > MAX_NORMALIZE_ITERATIONS {
            Err(OrderInfoError::InvalidPriceMantissa)
        } else {
            Ok((leading_digits(price.mantissa as nat) as u32, p as i16))
        }
    }
}

/// Whether `m * 10^e >= bound`, for an integer exponent `e`.
pub open spec fn scaled_ge(m: nat, e: int, bound: nat) -> bool {
    if e >= 0 {
        m * pow10(e as nat) >= bound
    } else {
        m >= bound * pow10((-e) as nat)
    }
}

proof fn lemma_pow10_values()
    ensures
        pow10(7) == 10_000_000,
        pow10(8) == 100_000_000,
        pow10(9) == 1_000_000_000,
        pow10(29) == 100_000_000_000_000_000_000_000_000_000nat,
        pow10(38) == 100_000_000_000_000_000_000_000_000_000_000_000_000nat,
{
    reveal_with_fuel(pow10, 40);
}

/// Multiplying by ten raises the bound tenfold.
proof fn lemma_scaled_ge_shift(m: nat, e: int, bound: nat)
    ensures
        scaled_ge(m, e + 1, 10 * bound) == scaled_ge(m, e, bound),
{
    if e >= 0 {
        let p = pow10(e as nat);
        assert(pow10((e + 1) as nat) == 10 * p);
        assert(m * (10 * p) == 10 * (m * p)) by (nonlinear_arith);
        assert(scaled_ge(m, e + 1, 10 * bound) == (10 * (m * p) >= 10 * bound));
        assert(scaled_ge(m, e, bound) == (m * p >= bound));
    } else if e == -1 {
        assert(pow10(0) == 1);
        assert(pow10(1) == 10) by {
            reveal_with_fuel(pow10, 2);
        }
        assert(scaled_ge(m, e + 1, 10 * bound) == (m * 1 >= 10 * bound));
        assert(scaled_ge(m, e, bound) == (m >= bound * 10));
    } else {
        let k = (-e - 1) as nat;
        assert(pow10((-e) as nat) == 10 * pow10(k));
        let p = pow10(k);
        assert(bound * (10 * p) == (10 * bound) * p) by (nonlinear_arith);
        assert(scaled_ge(m, e + 1, 10 * bound) == (m >= (10 * bound) * p));
        assert(scaled_ge(m, e, bound) == (m >= bound * (10 * p)));
    }
}

/// A positive mantissa scaled by at least `10^9` exceeds any bound up to `10^8`.
proof fn lemma_scaled_ge_large(m: nat, e: int, bound: nat)
    requires
        m >= 1,
        e >= 9,
        bound <= 100_000_000,
    ensures
        scaled_ge(m, e, bound),
{
    lemma_pow10_values();
    lemma_pow10_monotonic(9, e as nat);
    let p = pow10(e as nat);
    assert(m * p >= p) by (nonlinear_arith)
        requires
            m >= 1,
            p >= 0,
    ;
}

/// A 96-bit mantissa scaled by at most `10^-30` is below any positive bound.
proof fn lemma_scaled_ge_small(m: nat, e: int, bound: nat)
    requires
        m < DECIMAL_MANTISSA_LIMIT,
        e <= -29,
        bound >= 1,
    ensures
        !scaled_ge(m, e, bound),
{
    lemma_pow10_values();
    lemma_pow10_monotonic(29, (-e) as nat);
    let p = pow10((-e) as nat);
    assert(bound * p >= p) by (nonlinear_arith)
        requires
            bound >= 1,
            p >= 0,
    ;
}

/// Every positive integer lies between two consecutive powers of ten given by its digits.
proof fn lemma_num_digits_bounds(m: nat)
    requires
        m >= 1,
    ensures
        num_digits(m) >= 1,
        pow10((num_digits(m) - 1) as nat) <= m < pow10(num_digits(m)),
    decreases m,
{
    if m < 10 {
        assert(pow10(1) == 10) by {
            reveal_with_fuel(pow10, 2);
        }
    } else {
        let q = m / 10;
        lemma_num_digits_bounds(q);
        let d = num_digits(q);
        assert(num_digits(m) == d + 1);
        assert(pow10(d) == 10 * pow10((d - 1) as nat));
        assert(pow10(d + 1) == 10 * pow10(d));
    }
}

/// If `10^7 <= m * 10^e < 10^8` then `m` has `8 - e` digits.
proof fn lemma_bracket_digits(m: nat, e: int)
    requires
        m >= 1,
        scaled_ge(m, e, 10_000_000),
        !scaled_ge(m, e, 100_000_000),
    ensures
        num_digits(m) + e == 8,
{
    lemma_num_digits_bounds(m);
    lemma_pow10_values();
    let d = num_digits(m);
    if e >= 0 {
        let pe = pow10(e as nat);
        lemma_pow10_monotonic(0, e as nat);
        lemma_pow10_add((d - 1) as nat, e as nat);
        lemma_pow10_add(d, e as nat);
        let lo = pow10((d - 1) as nat);
        let hi = pow10(d);
        assert(lo * pe <= m * pe) by (nonlinear_arith)
            requires
                lo <= m,
                pe >= 0,
        ;
        assert(m * pe < hi * pe) by (nonlinear_arith)
            requires
                m < hi,
                pe >= 1,
        ;
        lemma_pow10_monotonic(0, e as nat);
        if d + e > 8 {
            lemma_pow10_monotonic(8, (d - 1 + e) as nat);
        }
        if d + e < 8 {
            lemma_pow10_monotonic((d + e) as nat, 7);
        }
    } else {
        let k = (-e) as nat;
        let pk = pow10(k);
        lemma_pow10_add(7, k);
        lemma_pow10_add(8, k);
        lemma_pow10_monotonic(0, k);
        if d > 8 + k {
            lemma_pow10_monotonic(8 + k, (d - 1) as nat);
        }
        if d < 8 + k {
            lemma_pow10_monotonic(d, 7 + k);
        }
    }
}

/// Returns `10^n` as a `u128`.
fn pow10_wide(n: u32) -> (r: u128)
    requires
        n <= 38,
    ensures
        r == pow10(n as nat),
{
    let mut p: u128 = 1;
    let mut i: u32 = 0;
    while i < n
        invariant
            i <= n <= 38,
            p == pow10(i as nat),
        decreases n - i,
    {
        proof {
            lemma_pow10_monotonic((i + 1) as nat, 38);
            lemma_pow10_values();
        }
        p = p * 10;
        i = i + 1;
    }
    p
}

/// Whether `m * 10^e >= bound`.
fn scaled_ge_exec(m: u128, e: i32, bound: u128) -> (r: bool)
    requires
        1 <= m < DECIMAL_MANTISSA_LIMIT,
        1 <= bound <= 100_000_000,
    ensures
        r == scaled_ge(m as nat, e as int, bound as nat),
{
    proof {
        lemma_pow10_values();
    }
    if e >= 9 {
        proof {
            lemma_scaled_ge_large(m as nat, e as int, bound as nat);
        }
        true
    } else if e >= 0 {
        let p = pow10_wide(e as u32);
        proof {
            lemma_pow10_monotonic(e as nat, 8);
            assert(m * p <= DECIMAL_MANTISSA_LIMIT * 100_000_000) by (nonlinear_arith)
                requires
                    m < DECIMAL_MANTISSA_LIMIT,
                    p <= 100_000_000,
            ;
        }
        m * p >= bound
    } else if e <= -29 {
        proof {
            lemma_scaled_ge_small(m as nat, e as int, bound as nat);
        }
        false
    } else {
        let p = pow10_wide((-e) as u32);
        proof {
            lemma_pow10_monotonic((-e) as nat, 28);
            lemma_pow10_monotonic(28, 29);
            assert(bound * p <= 100_000_000 * pow10(29)) by (nonlinear_arith)
                requires
                    bound <= 100_000_000,
                    p <= pow10(29),
            ;
        }
        m >= bound * p
    }
}

/// Law: converting a decimal price `x * 10^(-scale)` into a price mantissa and a power of ten.
/// A price that is not positive is refused with `InvalidPriceMantissa`, the only error. A
/// converted price has an eight-digit mantissa `v` and a power `p` such that `v * 10^p` is the
/// price with every digit past the eighth significant one dropped: with `k = p + scale`,
/// `v * 10^k <= x < (v + 1) * 10^k` when `k >= 0`, and `v == x * 10^(-k)` when `k < 0`.
pub proof fn lemma_try_into_with_scale_value(price: DecimalParts)
    ensures
        price.mantissa <= 0 ==> try_into_with_scale_spec(price) == Err::<(u32, i16), OrderInfoError>(
            OrderInfoError::InvalidPriceMantissa,
        ),
        try_into_with_scale_spec(price) matches Err(e) ==> e == OrderInfoError::InvalidPriceMantissa,
        try_into_with_scale_spec(price) matches Ok((v, p)) ==> {
            let x = price.mantissa as nat;
            let k = p + price.scale;
            &&& 10_000_000 <= v <= 99_999_999
            &&& k >= 0 ==> v * pow10(k as nat) <= x < (v + 1) * pow10(k as nat)
            &&& k < 0 ==> v == x * pow10((-k) as nat)
        },
{
    if price.mantissa > 0 {
        let x = price.mantissa as nat;
        let d = num_digits(x);
        lemma_num_digits_bounds(x);
        lemma_pow10_values();
        let np = normalized_power(x, price.scale as nat);
        assert(np + price.scale == d - 8);
        if -MAX_NORMALIZE_ITERATIONS <= np <= MAX_NORMALIZE_ITERATIONS {
            assert((np as i16) as int == np);
            assert(try_into_with_scale_spec(price) == Ok::<(u32, i16), OrderInfoError>(
                (leading_digits(x) as u32, np as i16),
            ));
        }
        if d <= 8 {
            let e = (8 - d) as nat;
            lemma_pow10_add((d - 1) as nat, e);
            lemma_pow10_add(d, e);
            assert(((d - 1) as nat + e) == 7);
            assert(d + e == 8);
            let lo = pow10((d - 1) as nat);
            let hi = pow10(d);
            let f = pow10(e);
            lemma_pow10_monotonic(0, e);
            assert(lo * f <= x * f < hi * f) by (nonlinear_arith)
                requires
                    lo <= x < hi,
                    f >= 1,
            ;
            assert(leading_digits(x) == x * f);
            assert((leading_digits(x) as u32) as nat == leading_digits(x));
            if d == 8 {
                assert(f == 1);
                assert(x * f == x) by (nonlinear_arith)
                    requires
                        f == 1,
                ;
                assert(pow10(0) == 1);
                assert(x * pow10(0) <= x < (x + 1) * pow10(0)) by (nonlinear_arith)
                    requires
                        pow10(0) == 1,
                ;
            }
        } else {
            let e = (d - 8) as nat;
            let f = pow10(e);
            lemma_pow10_monotonic(0, e);
            lemma_pow10_add(7, e);
            lemma_pow10_add(8, e);
            assert(7 + e == d - 1);
            assert(8 + e == d);
            let v = x / f;
            vstd::arithmetic::div_mod::lemma_fundamental_div_mod(x as int, f as int);
            vstd::arithmetic::div_mod::lemma_mod_bound(x as int, f as int);
            assert(v * f <= x < (v + 1) * f) by (nonlinear_arith)
                requires
                    x == f * v + x % f,
                    0 <= x % f < f,
            ;
            assert(10_000_000 <= v) by (nonlinear_arith)
                requires
                    10_000_000 * f <= x,
                    x < (v + 1) * f,
                    f >= 1,
            ;
            assert(v < 100_000_000) by (nonlinear_arith)
                requires
                    x < 100_000_000 * f,
                    v * f <= x,
                    f >= 1,
            ;
            assert(leading_digits(x) == v);
            assert((leading_digits(x) as u32) as nat == leading_digits(x));
            assert((np + price.scale) as nat == e);
        }
    }
}

impl ValidatedPriceMantissa {
    /// Converts a decimal price into a validated price mantissa and the power of ten `pow` such
    /// that `price` is the mantissa times `10^pow`, up to the digits past the eighth, which are
    /// truncated.
    ///
    /// Zero and negative prices fail with `InvalidPriceMantissa`.
    pub fn try_into_with_scale(price: DecimalParts) -> (r: Result<(ValidatedPriceMantissa, i16), OrderInfoError>)
        requires
            price.wf(),
        ensures
            r is Ok <==> try_into_with_scale_spec(price) is Ok,
            r matches Err(e) ==> try_into_with_scale_spec(price) == Err::<(u32, i16), OrderInfoError>(e),
            r matches Ok((v, p)) ==> try_into_with_scale_spec(price) == Ok::<(u32, i16), OrderInfoError>(
                (v.value(), p),
            ),
            price.mantissa <= 0 ==> r == Err::<(ValidatedPriceMantissa, i16), OrderInfoError>(
                OrderInfoError::InvalidPriceMantissa,
            ),
            r matches Err(e) ==> e == OrderInfoError::InvalidPriceMantissa,
            r matches Ok((v, p)) ==> {
                let x = price.mantissa as nat;
                let k = p + price.scale;
                &&& k >= 0 ==> v.value() * pow10(k as nat) <= x < (v.value() + 1) * pow10(k as nat)
                &&& k < 0 ==> v.value() == x * pow10((-k) as nat)
            },
    {
        proof {
            lemma_try_into_with_scale_value(price);
        }
        if price.mantissa <= 0 {
            return Err(OrderInfoError::InvalidPriceMantissa);
        }
        let m = price.mantissa as u128;
        let ghost mn = m as nat;
        let mut e: i32 = -(price.scale as i32);
        let mut pow: i16 = 0;
        proof {
            lemma_pow10_values();
        }

        // Multiply by ten while the value is below the lower bound.
        while !scaled_ge_exec(m, e, 10_000_000)
            invariant
                1 <= m < DECIMAL_MANTISSA_LIMIT,
                mn == m,
                price.scale <= 28,
                -MAX_NORMALIZE_ITERATIONS <= pow <= 0,
                e + pow == -(price.scale as int),
                pow < 0 ==> !scaled_ge(mn, e as int, 100_000_000),
            decreases pow + 101,
        {
            proof {
                lemma_scaled_ge_shift(mn, e as int, 10_000_000);
                if e >= 9 {
                    lemma_scaled_ge_large(mn, e as int, 10_000_000);
                }
            }
            e = e + 1;
            pow = pow - 1;
            if pow < -MAX_NORMALIZE_ITERATIONS {
                return Err(OrderInfoError::InvalidPriceMantissa);
            }
        }

        // Divide by ten while the value is at or above the upper bound.
        while scaled_ge_exec(m, e, 100_000_000)
            invariant
                1 <= m < DECIMAL_MANTISSA_LIMIT,
                mn == m,
                price.scale <= 28,
                -MAX_NORMALIZE_ITERATIONS <= pow <= MAX_NORMALIZE_ITERATIONS,
                e + pow == -(price.scale as int),
                pow < 0 ==> !scaled_ge(mn, e as int, 100_000_000),
                scaled_ge(mn, e as int, 10_000_000),
            decreases 101 - pow,
        {
            proof {
                lemma_scaled_ge_shift(mn, e - 1, 10_000_000);
                if e <= -29 {
                    lemma_scaled_ge_small(mn, e as int, 100_000_000);
                }
            }
            e = e - 1;
            pow = pow + 1;
            if pow > MAX_NORMALIZE_ITERATIONS {
                return Err(OrderInfoError::InvalidPriceMantissa);
            }
        }

        proof {
            lemma_bracket_digits(mn, e as int);
            if e >= 9 {
                lemma_scaled_ge_large(mn, e as int, 100_000_000);
            }
            if e <= -29 {
                lemma_scaled_ge_small(mn, e as int, 10_000_000);
            }
        }
        let truncated: u128 = if e >= 0 {
            let p = pow10_wide(e as u32);
            proof {
                lemma_pow10_monotonic(e as nat, 8);
                assert(m * p <= DECIMAL_MANTISSA_LIMIT * 100_000_000) by (nonlinear_arith)
                    requires
                        m < DECIMAL_MANTISSA_LIMIT,
                        p <= 100_000_000,
                ;
            }
            m * p
        } else {
            let p = pow10_wide((-e) as u32);
            proof {
                lemma_pow10_monotonic(0, (-e) as nat);
                let b7 = 10_000_000nat;
                let b8 = 100_000_000nat;
                assert(m / p >= b7 && m / p < b8) by (nonlinear_arith)
                    requires
                        m >= b7 * p,
                        m < b8 * p,
                        p >= 1,
                ;
            }
            m / p
        };
        let mantissa = ValidatedPriceMantissa::new(truncated as u32);
        match mantissa {
            Ok(v) => Ok((v, pow)),
            Err(err) => Err(err),
        }
    }
}

} // verus!
