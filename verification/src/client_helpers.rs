//! Helpers that turn a decimal price and an order size into [`OrderInfoArgs`].

use vstd::prelude::*;

use crate::decimal::{
    decimal_checked_div_ten,
    decimal_checked_times_ten,
    decimal_div_ten,
    decimal_normalize,
    decimal_times_ten,
    normalize_spec,
    try_into_with_scale_spec,
    DecimalParts,
};
use crate::price::{
    order_info_spec,
    pow10,
    pow10_u64_spec,
    lemma_pow10_monotonic,
    OrderInfoArgs,
    OrderInfoError,
    ValidatedPriceMantissa,
    BIAS,
    UNBIASED_MAX,
    UNBIASED_MIN,
};

verus! {

/// Whether an unbiased exponent can be biased into `0..=MAX_BIASED_EXPONENT`.
pub open spec fn is_valid_unbiased_exponent(unbiased_exponent: int) -> bool {
    UNBIASED_MIN <= unbiased_exponent <= UNBIASED_MAX
}

/// Tries to convert an unbiased exponent to a biased one.
pub fn try_to_biased_exponent(unbiased_exponent: i16) -> (r: Result<u8, OrderInfoError>)
    ensures
        is_valid_unbiased_exponent(unbiased_exponent as int) ==> r == Ok::<u8, OrderInfoError>(
            (unbiased_exponent + BIAS) as u8,
        ),
        !is_valid_unbiased_exponent(unbiased_exponent as int) ==> r == Err::<u8, OrderInfoError>(
            OrderInfoError::InvalidBiasedExponent,
        ),
{
    if unbiased_exponent < UNBIASED_MIN || unbiased_exponent > UNBIASED_MAX {
        return Err(OrderInfoError::InvalidBiasedExponent);
    }
    Ok((unbiased_exponent + BIAS as i16) as u8)
}

/// Biases an exponent that is known to be in range.
pub fn to_biased_exponent(unbiased_exponent: i16) -> (r: u8)
    requires
        is_valid_unbiased_exponent(unbiased_exponent as int),
    ensures
        r == unbiased_exponent + BIAS,
{
    (unbiased_exponent + BIAS as i16) as u8
}

/// The significant digits of `value` with the trailing zeros removed, and the number of
/// trailing zeros removed.
pub open spec fn sig_figs_spec(value: nat) -> (nat, nat)
    decreases value,
{
    if value == 0 || value % 10 != 0 {
        (value, 0)
    } else {
        let r = sig_figs_spec(value / 10);
        (r.0, r.1 + 1)
    }
}

/// The significant figures times ten to the number of trailing zeros is the value itself, and
/// no trailing zero is left.
pub proof fn lemma_sig_figs(value: nat)
    requires
        value != 0,
    ensures
        sig_figs_spec(value).0 * pow10(sig_figs_spec(value).1) == value,
        sig_figs_spec(value).0 % 10 != 0,
        1 <= sig_figs_spec(value).0 <= value,
    decreases value,
{
    if value % 10 == 0 {
        let q = value / 10;
        assert(value == 10 * q);
        lemma_sig_figs(q);
        let r = sig_figs_spec(q);
        assert(sig_figs_spec(value) == (r.0, r.1 + 1));
        assert(pow10(r.1 + 1) == 10 * pow10(r.1));
        let p = pow10(r.1);
        assert(r.0 * (10 * p) == 10 * (r.0 * p)) by (nonlinear_arith);
        assert(r.0 * pow10(r.1 + 1) == value);
    } else {
        assert(sig_figs_spec(value) == (value, 0nat));
        assert(pow10(0) == 1);
        assert(value * pow10(0) == value) by (nonlinear_arith)
            requires
                pow10(0) == 1,
        ;
    }
}

/// Returns the significant figures of a non-zero `value` and the power of ten by which they
/// must be multiplied to get `value` back.
pub fn get_sig_figs(value: u64) -> (r: (u64, i16))
    requires
        value != 0,
    ensures
        r.1 >= 0,
        (r.0 as nat, r.1 as nat) == sig_figs_spec(value as nat),
        r.0 * pow10(r.1 as nat) == value,
        r.0 % 10 != 0,
{
    let mut x = value;
    let mut pow: i16 = 0;
    proof {
        lemma_sig_figs(value as nat);
        assert(pow10(0) == 1);
        assert(x * pow10(0) == x) by (nonlinear_arith)
            requires
                pow10(0) == 1,
        ;
    }
    while x % 10 == 0
        invariant
            x != 0,
            0 <= pow,
            x * pow10(pow as nat) == value,
            sig_figs_spec(value as nat).0 == sig_figs_spec(x as nat).0,
            sig_figs_spec(value as nat).1 == sig_figs_spec(x as nat).1 + pow,
        decreases x,
    {
        proof {
            lemma_pow10_monotonic(0, pow as nat);
            let p = pow10(pow as nat);
            assert(x >= 10);
            assert(x * p >= 10 * p) by (nonlinear_arith)
                requires
                    x >= 10,
                    p >= 0,
            ;
            if pow >= 19 {
                lemma_pow10_monotonic(19, pow as nat);
                assert(pow10(19) == 10_000_000_000_000_000_000nat) by {
                    reveal_with_fuel(pow10, 20);
                }
            }
            assert(pow10((pow + 1) as nat) == 10 * p);
            let xq = (x / 10) as nat;
            assert(xq * (10 * p) == x * p) by (nonlinear_arith)
                requires
                    x == 10 * xq,
            ;
        }
        x = x / 10;
        pow = pow + 1;
    }
    (x, pow)
}

/// What [`to_order_info_args`] computes.
pub open spec fn to_order_info_args_spec(price: DecimalParts, order_size_base_atoms: u64) -> Result<
    OrderInfoArgs,
    OrderInfoError,
> {
    match try_into_with_scale_spec(price) {
        Err(e) => Err(e),
        Ok((mantissa, price_exponent)) => if order_size_base_atoms == 0 {
            Err(OrderInfoError::AmountCannotBeZero)
        } else {
            let (base_scalar, base_exponent) = sig_figs_spec(order_size_base_atoms as nat);
            let quote_exponent = price_exponent + base_exponent;
            if !is_valid_unbiased_exponent(quote_exponent) || !is_valid_unbiased_exponent(
                base_exponent as int,
            ) {
                Err(OrderInfoError::InvalidBiasedExponent)
            } else {
                Ok(
                    OrderInfoArgs {
                        price_mantissa: mantissa,
                        base_scalar: base_scalar as u64,
                        base_exponent_biased: (base_exponent + BIAS) as u8,
                        quote_exponent_biased: (quote_exponent + BIAS) as u8,
                    },
                )
            }
        },
    }
}

/// Converts a price ratio (`quote_atoms / base_atoms`) and an order size in base atoms into
/// order info args.
pub fn to_order_info_args(price: DecimalParts, order_size_base_atoms: u64) -> (r: Result<
    OrderInfoArgs,
    OrderInfoError,
>)
    requires
        price.wf(),
    ensures
        r == to_order_info_args_spec(price, order_size_base_atoms),
        r matches Ok(args) ==> {
            &&& try_into_with_scale_spec(price) matches Ok((mantissa, p)) && {
                &&& args.price_mantissa == mantissa
                &&& args.quote_exponent_biased - args.base_exponent_biased == p
            }
            &&& args.base_exponent_biased >= BIAS
            &&& args.base_scalar * pow10((args.base_exponent_biased - BIAS) as nat)
                == order_size_base_atoms
        },
{
    proof {
        lemma_order_info_args_price_times_size(price, order_size_base_atoms);
    }
    let (validated_mantissa, price_exponent) = match ValidatedPriceMantissa::try_into_with_scale(
        price,
    ) {
        Ok(v) => v,
        Err(e) => return Err(e),
    };
    if order_size_base_atoms == 0 {
        return Err(OrderInfoError::AmountCannotBeZero);
    }
    let (base_scalar, base_exponent_unbiased) = get_sig_figs(order_size_base_atoms);
    let quote_exponent_unbiased = match price_exponent.checked_add(base_exponent_unbiased) {
        Some(v) => v,
        None => return Err(OrderInfoError::InvalidBiasedExponent),
    };
    let quote_exponent_biased = match try_to_biased_exponent(quote_exponent_unbiased) {
        Ok(v) => v,
        Err(e) => return Err(e),
    };
    let base_exponent_biased = match try_to_biased_exponent(base_exponent_unbiased) {
        Ok(v) => v,
        Err(e) => return Err(e),
    };
    Ok(
        OrderInfoArgs::new(
            validated_mantissa.as_u32(),
            base_scalar,
            base_exponent_biased,
            quote_exponent_biased,
        ),
    )
}

/// Args built from an order size give back exactly that many base atoms.
pub proof fn lemma_order_info_args_round_trip(price: DecimalParts, order_size_base_atoms: u64)
    requires
        to_order_info_args_spec(price, order_size_base_atoms) is Ok,
    ensures
        ({
            let args = to_order_info_args_spec(price, order_size_base_atoms)->Ok_0;
            &&& pow10_u64_spec(args.base_scalar, args.base_exponent_biased) == Ok::<
                u64,
                OrderInfoError,
            >(order_size_base_atoms)
            &&& order_info_spec(args) matches Ok((_, base_atoms, _)) ==> base_atoms
                == order_size_base_atoms
        }),
{
    lemma_sig_figs(order_size_base_atoms as nat);
    let args = to_order_info_args_spec(price, order_size_base_atoms)->Ok_0;
    let (base_scalar, base_exponent) = sig_figs_spec(order_size_base_atoms as nat);
    assert(args.base_scalar == base_scalar);
    assert(args.base_exponent_biased - BIAS == base_exponent);
    assert(base_scalar * pow10(base_exponent) == order_size_base_atoms);
}

/// Law: order arguments from a price and an order size. They exist exactly when the price can be
/// converted (to a mantissa and a power of ten `p` by
/// [`ValidatedPriceMantissa::try_into_with_scale`]) and the size is not zero, up to the exponent
/// ranges. Their price mantissa is the converted one, the base scalar times ten to the base
/// exponent is the order size, and the quote exponent exceeds the base exponent by exactly `p`,
/// so the quote amount they stand for is the converted price times the order size:
/// `price_mantissa * base_scalar * 10^(base exponent) == mantissa * size`.
pub proof fn lemma_order_info_args_price_times_size(price: DecimalParts, order_size_base_atoms: u64)
    ensures
        try_into_with_scale_spec(price) matches Err(e) ==> to_order_info_args_spec(
            price,
            order_size_base_atoms,
        ) == Err::<OrderInfoArgs, OrderInfoError>(e),
        try_into_with_scale_spec(price) is Ok && order_size_base_atoms == 0
            ==> to_order_info_args_spec(price, order_size_base_atoms) == Err::<
            OrderInfoArgs,
            OrderInfoError,
        >(OrderInfoError::AmountCannotBeZero),
        to_order_info_args_spec(price, order_size_base_atoms) matches Ok(args) ==> {
            &&& try_into_with_scale_spec(price) matches Ok((mantissa, p)) && {
                &&& args.price_mantissa == mantissa
                &&& args.quote_exponent_biased - args.base_exponent_biased == p
                &&& args.base_exponent_biased >= BIAS
                &&& args.base_scalar * pow10((args.base_exponent_biased - BIAS) as nat)
                    == order_size_base_atoms
                &&& args.price_mantissa * args.base_scalar * pow10(
                    (args.base_exponent_biased - BIAS) as nat,
                ) == mantissa * order_size_base_atoms
            }
        },
{
    if to_order_info_args_spec(price, order_size_base_atoms) is Ok {
        lemma_sig_figs(order_size_base_atoms as nat);
        let args = to_order_info_args_spec(price, order_size_base_atoms)->Ok_0;
        let (base_scalar, base_exponent) = sig_figs_spec(order_size_base_atoms as nat);
        assert(args.base_scalar == base_scalar);
        assert(args.base_exponent_biased - BIAS == base_exponent);
        let mn = args.price_mantissa as nat;
        let bp = pow10(base_exponent);
        assert(mn * base_scalar * bp == mn * (base_scalar * bp)) by (nonlinear_arith);
    }
}

/// `value` multiplied by ten `n` times, or `None` once a product overflows.
pub open spec fn times_ten_n(value: DecimalParts, n: nat) -> Option<DecimalParts>
    decreases n,
{
    if n == 0 {
        Some(value)
    } else {
        match decimal_times_ten(value) {
            None => None,
            Some(v) => times_ten_n(v, (n - 1) as nat),
        }
    }
}

/// `value` divided by ten `n` times, or `None` once a division fails.
pub open spec fn div_ten_n(value: DecimalParts, n: nat) -> Option<DecimalParts>
    decreases n,
{
    if n == 0 {
        Some(value)
    } else {
        match decimal_div_ten(value) {
            None => None,
            Some(v) => div_ten_n(v, (n - 1) as nat),
        }
    }
}

/// `value * 10^pow`, computed by multiplying or dividing by ten `|pow|` times and then
/// normalizing; `None` when a step fails.
pub open spec fn pow10_i16_spec(value: DecimalParts, pow: i16) -> Option<DecimalParts> {
    let stepped = if pow < 0 {
        div_ten_n(value, (-pow) as nat)
    } else {
        times_ten_n(value, pow as nat)
    };
    match stepped {
        None => None,
        Some(v) => Some(normalize_spec(v)),
    }
}

/// Whether every step of [`pow10_i16_spec`] succeeds, found by taking the steps.
fn pow10_steps_succeed(value: DecimalParts, pow: i16) -> (r: bool)
    requires
        value.wf(),
        pow > i16::MIN,
    ensures
        r == pow10_i16_spec(value, pow) is Some,
{
    let is_negative = pow < 0;
    let n: i16 = if is_negative {
        -pow
    } else {
        pow
    };
    let mut acc = value;
    let mut i: i16 = 0;
    while i < n
        invariant
            0 <= i <= n,
            n == if is_negative { -pow } else { pow as int },
            is_negative == (pow < 0),
            acc.wf(),
            is_negative ==> div_ten_n(value, (-pow) as nat) == div_ten_n(acc, (n - i) as nat),
            !is_negative ==> times_ten_n(value, pow as nat) == times_ten_n(acc, (n - i) as nat),
        decreases n - i,
    {
        let next = if is_negative {
            decimal_checked_div_ten(acc)
        } else {
            decimal_checked_times_ten(acc)
        };
        match next {
            None => {
                return false;
            },
            Some(v) => {
                acc = v;
            },
        }
        i = i + 1;
    }
    true
}

/// `value * 10^pow`: `value` multiplied (or, for a negative `pow`, divided) by ten `|pow|` times,
/// then normalized. Each step must succeed.
pub fn decimal_pow10_i16(value: DecimalParts, pow: i16) -> (r: DecimalParts)
    requires
        value.wf(),
        pow > i16::MIN,
        pow10_i16_spec(value, pow) is Some,
    ensures
        Some(r) == pow10_i16_spec(value, pow),
{
    let is_negative = pow < 0;
    let n: i16 = if is_negative {
        -pow
    } else {
        pow
    };
    let mut acc = value;
    let mut i: i16 = 0;
    while i < n
        invariant
            0 <= i <= n,
            n == if is_negative { -pow } else { pow as int },
            is_negative == (pow < 0),
            acc.wf(),
            is_negative ==> div_ten_n(value, (-pow) as nat) == div_ten_n(acc, (n - i) as nat),
            !is_negative ==> times_ten_n(value, pow as nat) == times_ten_n(acc, (n - i) as nat),
            pow10_i16_spec(value, pow) is Some,
        decreases n - i,
    {
        let next = if is_negative {
            decimal_checked_div_ten(acc)
        } else {
            decimal_checked_times_ten(acc)
        };
        match next {
            None => {
                proof {
                    assert(false);
                }
                return acc;
            },
            Some(v) => {
                acc = v;
            },
        }
        i = i + 1;
    }
    decimal_normalize(acc)
}

/// `value * 10^pow` as [`decimal_pow10_i16`] computes it, or `None` when a step overflows.
pub fn try_decimal_pow10_i16(value: DecimalParts, pow: i16) -> (r: Option<DecimalParts>)
    requires
        value.wf(),
        pow > i16::MIN,
    ensures
        r == pow10_i16_spec(value, pow),
{
    if pow10_steps_succeed(value, pow) {
        Some(decimal_pow10_i16(value, pow))
    } else {
        None
    }
}

} // verus!
