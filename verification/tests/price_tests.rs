use std::num::NonZeroU64;
use std::str::FromStr;

use dropset::client_helpers::{
    decimal_pow10_i16,
    get_sig_figs,
    try_decimal_pow10_i16,
    to_biased_exponent,
    to_order_info_args,
    try_to_biased_exponent,
};
use dropset::decimal::DecimalParts;
use dropset::price::{
    pow10_u64,
    to_order_info,
    EncodedPrice,
    OrderInfoArgs,
    OrderInfoError,
    ValidatedPriceMantissa,
    BIAS,
    MANTISSA_DIGITS_LOWER_BOUND,
    MANTISSA_DIGITS_UPPER_BOUND,
    MAX_BIASED_EXPONENT,
    UNBIASED_MAX,
    UNBIASED_MIN,
};
use rust_decimal::Decimal;

fn sig(n: u64) -> (u64, i16) {
    get_sig_figs(NonZeroU64::new(n).unwrap().get())
}

fn dec(s: &str) -> DecimalParts {
    DecimalParts::from_decimal(&Decimal::from_str(s).unwrap())
}

fn with_scale(s: &str) -> Result<(u32, i16), OrderInfoError> {
    ValidatedPriceMantissa::try_into_with_scale(dec(s)).map(|(m, p)| (m.as_u32(), p))
}

#[test]
fn test_sig_figs() {
    assert_eq!(sig(16801), (16801, 0));
    assert_eq!(sig(168010), (16801, 1));
    assert_eq!(sig(100_000_000_000), (1, 11));
    assert_eq!(sig(909_512_730_220), (90_951_273_022, 1));
    assert_eq!(sig(99), (99, 0));
    assert_eq!(sig(909), (909, 0));
    assert_eq!(sig(9090), (909, 1));
    assert_eq!(sig(404_000), (404, 3));

    let n = NonZeroU64::new(4_125_900).unwrap();
    let expected_num: u64 = 41_259;
    let expected_pow_10: i16 = 2;
    assert_eq!(get_sig_figs(n.get()), (expected_num, expected_pow_10));
    assert_eq!(n.get(), expected_num * 10u64.pow(expected_pow_10 as u32));
}

#[test]
fn test_try_biased_exponents() {
    let expected_min = (UNBIASED_MIN + BIAS as i16) as u8;
    let expected_mid = BIAS;
    let expected_max = (UNBIASED_MAX + BIAS as i16) as u8;

    assert_eq!(try_to_biased_exponent(UNBIASED_MIN).unwrap(), expected_min);
    assert_eq!(try_to_biased_exponent(0).unwrap(), expected_mid);
    assert_eq!(try_to_biased_exponent(UNBIASED_MAX).unwrap(), expected_max);

    assert!(try_to_biased_exponent(UNBIASED_MIN - 1).is_err());
    assert!(try_to_biased_exponent(UNBIASED_MAX + 1).is_err());
}

#[test]
fn test_to_order_info_args() {
    assert!(to_order_info_args(dec("1.5123"), 500_000).is_ok());

    let base_atoms = 500 * 10u64.pow(6);
    let res = to_order_info_args(dec("1.25"), base_atoms);
    let expected =
        OrderInfoArgs::new(12_500_000, 5, to_biased_exponent(8), to_biased_exponent(1));
    assert!(res.is_ok());
    assert_eq!(res.unwrap(), expected);
}

#[test]
fn happy_path_simple_price() {
    let base_biased_exponent = to_biased_exponent(0);
    let quote_biased_exponent = to_biased_exponent(-4);
    let order = to_order_info((12_340_000, 1, base_biased_exponent, quote_biased_exponent).into())
        .expect("Should calculate price");
    assert_eq!(order.base_atoms, 1);
    assert_eq!(order.quote_atoms, 1234);
    // The price 1234 is the mantissa 12_340_000 times 10^-4: the exponent is biased by 16.
    assert_eq!(order.encoded_price.as_u32(), (12 << 27) | 12_340_000);
}

#[test]
fn price_with_max_sig_digits() {
    let order = to_order_info((12345678, 1, to_biased_exponent(0), to_biased_exponent(0)).into())
        .expect("Should calculate price");
    assert_eq!(order.base_atoms, 1);
    assert_eq!(order.quote_atoms, 12345678);
    assert_eq!(order.encoded_price.as_u32(), (16 << 27) | 12_345_678);
}

#[test]
fn decimal_price() {
    let mantissa = 12345678;
    let order = to_order_info((mantissa, 1, to_biased_exponent(8), to_biased_exponent(0)).into())
        .expect("Should calculate price");
    assert_eq!(order.quote_atoms, 12345678);
    assert_eq!(order.base_atoms, 100000000);
    // 0.12345678 is the mantissa times 10^-8.
    assert_eq!(order.encoded_price.as_u32(), (8 << 27) | mantissa);
    let unbiased_exponent = 8i16 - BIAS as i16;
    let decoded = decimal_pow10_i16(dec(&mantissa.to_string()), unbiased_exponent);
    let expected = dec("0.12345678");
    assert_eq!((decoded.mantissa, decoded.scale), (expected.mantissa, expected.scale));
}

#[test]
fn bias_ranges() {
    assert_eq!(16, BIAS);

    let val_156_e_neg_16: u64 = 1_560_000_000_000_000_000;
    let calculated = val_156_e_neg_16 / 10u64.pow(BIAS as u32);
    let expected = 156;
    assert_eq!(
        pow10_u64(val_156_e_neg_16, 0).expect("0 is a valid biased exponent"),
        calculated,
    );
    assert_eq!(calculated, expected);

    let val: u64 = 156;
    let max_exponent = MAX_BIASED_EXPONENT as u32;
    let calculated = val
        * 10u64
            .checked_pow(max_exponent - BIAS as u32)
            .expect("Shouldn't overflow");
    let expected: u64 = 156_000_000_000_000_000;
    assert_eq!(
        pow10_u64(val, max_exponent as u8).expect("Exponent should be valid"),
        calculated
    );
    assert_eq!(calculated, expected);
}

#[test]
fn ensure_price_mantissa_times_base_scalar_arithmetic_overflow() {
    const PRICE_MANTISSA: u32 = 10_000_000;

    assert!(to_order_info(OrderInfoArgs::new(
        PRICE_MANTISSA,
        u64::MAX / PRICE_MANTISSA as u64,
        to_biased_exponent(0),
        to_biased_exponent(0),
    ))
    .is_ok());

    assert!(matches!(
        to_order_info(OrderInfoArgs::new(
            PRICE_MANTISSA + 1,
            u64::MAX / PRICE_MANTISSA as u64,
            to_biased_exponent(0),
            to_biased_exponent(0)
        )),
        Err(OrderInfoError::ArithmeticOverflow)
    ));
}

#[test]
fn ensure_exponent_underflow() {
    let price_mantissa = 10_000_000;
    let base_scalar = 1;

    assert!(to_order_info(OrderInfoArgs::new(price_mantissa, base_scalar, BIAS, 0)).is_ok());

    assert!(matches!(
        to_order_info(OrderInfoArgs::new(price_mantissa, base_scalar, BIAS + 1, 0)),
        Err(OrderInfoError::ExponentUnderflow)
    ));
}

#[test]
fn ensure_invalid_quote_exponent_fails_early() {
    let e_base = to_biased_exponent(0);
    let e_quote = MAX_BIASED_EXPONENT + 1;

    let _one_to_the_base_exponent = pow10_u64(1u64, e_base).unwrap();

    let all_good = to_order_info((10_000_000, 1, e_base, e_base).into());
    let arithmetic_overflow = to_order_info((10_000_000, 1, e_base, e_quote - 1).into());
    let invalid_biased_exponent = to_order_info((10_000_000, 1, e_base, e_quote).into());

    assert!(all_good.is_ok());
    assert!(matches!(arithmetic_overflow, Err(OrderInfoError::ArithmeticOverflow)));
    assert!(matches!(invalid_biased_exponent, Err(OrderInfoError::InvalidBiasedExponent)));
}

#[test]
fn max_and_max_plus_one_base() {
    let e_base = MAX_BIASED_EXPONENT;
    let e_quote = to_biased_exponent(0);

    let _one_to_the_quote_exponent = pow10_u64(1u64, e_quote).unwrap();

    let all_good = to_order_info((10_000_000, 1, e_base, e_quote).into());
    let invalid_quote_exponent = to_order_info((10_000_000, 1, e_base + 1, e_quote).into());

    assert!(all_good.is_ok());
    assert!(matches!(invalid_quote_exponent, Err(OrderInfoError::InvalidBiasedExponent)));
}

#[test]
fn quote_atoms_overflow() {
    let mantissa: u32 = 10_000_000;
    let base_scalar: u64 = 1;

    const QUOTE_EXPONENT_UNBIASED: i32 = 12;
    assert!((mantissa as u64).checked_mul(base_scalar).is_some());

    assert!((mantissa as u64)
        .checked_mul(base_scalar)
        .unwrap()
        .checked_mul(10u64.checked_pow(QUOTE_EXPONENT_UNBIASED as u32).unwrap())
        .is_some());

    assert!((mantissa as u64)
        .checked_mul(base_scalar)
        .unwrap()
        .checked_mul(10u64.checked_pow((QUOTE_EXPONENT_UNBIASED + 1) as u32).unwrap())
        .is_none());

    assert!(to_order_info(OrderInfoArgs::new(
        mantissa,
        base_scalar,
        to_biased_exponent(0),
        to_biased_exponent(QUOTE_EXPONENT_UNBIASED as i16)
    ))
    .is_ok());

    assert!(matches!(
        to_order_info(OrderInfoArgs::new(
            mantissa,
            base_scalar,
            to_biased_exponent(0),
            to_biased_exponent((QUOTE_EXPONENT_UNBIASED + 1) as i16)
        )),
        Err(OrderInfoError::ArithmeticOverflow)
    ));
}

#[test]
fn valid_mantissas() {
    for mantissa in [
        MANTISSA_DIGITS_LOWER_BOUND,
        MANTISSA_DIGITS_LOWER_BOUND + 1,
        MANTISSA_DIGITS_UPPER_BOUND,
        MANTISSA_DIGITS_UPPER_BOUND - 1,
    ] {
        let validated_mantissa = ValidatedPriceMantissa::try_from(mantissa);
        assert!(validated_mantissa.is_ok());
        assert_eq!(validated_mantissa.unwrap().as_u32(), mantissa);
    }
}

#[test]
fn invalid_mantissas() {
    assert!(matches!(
        ValidatedPriceMantissa::try_from(MANTISSA_DIGITS_LOWER_BOUND - 1),
        Err(OrderInfoError::InvalidPriceMantissa)
    ));
    assert!(matches!(
        ValidatedPriceMantissa::try_from(MANTISSA_DIGITS_UPPER_BOUND + 1),
        Err(OrderInfoError::InvalidPriceMantissa)
    ));
}

#[test]
fn test_normalize_values() {
    let check = |value: &str, expected: (u32, i16)| {
        let res = with_scale(value);
        assert!(res.is_ok());
        assert_eq!(res.unwrap(), expected);
    };

    check("1.32", (13_200_000, -7));
    check("0.95123", (95_123_000, -8));
    check("123456789.0", (12_345_678, 1));
    check("78.12300001", (78_123_000, -6));
    check("0.000000000000012345678", (12_345_678, -21));
    check("0.000000000001", (10_000_000, -19));

    assert!(with_scale("0.000000").is_err());
    assert!(with_scale("0.0").is_err());
    assert!(ValidatedPriceMantissa::try_into_with_scale(DecimalParts::from_decimal(&Decimal::ZERO))
        .is_err());
    assert!(with_scale("-1.0").is_err());
    assert!(with_scale("-0.0000000000001").is_err());
}

#[test]
fn normalize_example_from_docs() {
    assert_eq!(with_scale("1.0").unwrap(), (10_000_000, -7));
}

#[test]
fn order_info_args_round_trip_gives_the_order_size() {
    // The base atoms of the args built for an order size are that order size.
    for (price, size) in [("1.25", 500_000_000u64), ("0.0031", 7_000), ("42", 1)] {
        let args = to_order_info_args(dec(price), size).unwrap();
        let info = to_order_info(args).unwrap();
        assert_eq!(info.base_atoms, size);
    }
}

#[test]
fn order_info_args_errors() {
    assert_eq!(to_order_info_args(dec("1.25"), 0), Err(OrderInfoError::AmountCannotBeZero));
    assert_eq!(to_order_info_args(dec("-1.25"), 10), Err(OrderInfoError::InvalidPriceMantissa));
    assert_eq!(
        to_order_info_args(dec("1.25"), 10_000_000_000_000_000_000),
        Err(OrderInfoError::InvalidBiasedExponent)
    );
}

#[test]
fn encoded_prices_compare_as_prices() {
    // 9.9999999 < 10.000000 although the first mantissa is larger.
    let low = EncodedPrice::new(to_biased_exponent(-7), ValidatedPriceMantissa::try_from(99_999_999).unwrap());
    let high = EncodedPrice::new(to_biased_exponent(-6), ValidatedPriceMantissa::try_from(10_000_000).unwrap());
    assert!(low.as_u32() < high.as_u32());
    let same = EncodedPrice::new(to_biased_exponent(-6), ValidatedPriceMantissa::try_from(10_000_000).unwrap());
    assert_eq!(high.as_u32(), same.as_u32());
}

#[test]
fn pow10_u64_exact_values_and_errors() {
    assert_eq!(pow10_u64(5, BIAS), Ok(5));
    assert_eq!(pow10_u64(5, BIAS + 2), Ok(500));
    assert_eq!(pow10_u64(512, BIAS - 2), Ok(5));
    assert_eq!(pow10_u64(1, MAX_BIASED_EXPONENT + 1), Err(OrderInfoError::InvalidBiasedExponent));
    assert_eq!(pow10_u64(u64::MAX, BIAS + 1), Err(OrderInfoError::ArithmeticOverflow));
}

fn p10(value: &str, pow: i16) -> Decimal {
    let r = decimal_pow10_i16(dec(value), pow);
    Decimal::from_i128_with_scale(r.mantissa, r.scale)
}

fn d(s: &str) -> Decimal {
    Decimal::from_str(s).unwrap()
}

#[test]
fn test_pow10_i16() {
    assert_eq!(p10("1.23", 2), d("123"));
    assert_eq!(p10("1.6923", 3), d("1692.3"));
    assert_eq!(p10("1.000333", 4), d("10003.33"));
    assert_eq!(p10("1.23", -1), d("0.123"));
    assert_eq!(p10("1.23", -2), d("0.0123"));
    assert_eq!(p10("0.05123", -9), d("0.00000000005123"));
}

#[test]
fn pow10_i16_normalizes_and_reports_overflow() {
    let r = decimal_pow10_i16(dec("1.2300"), 0);
    assert_eq!((r.mantissa, r.scale), (123, 2));
    let zero = decimal_pow10_i16(dec("0.000"), 3);
    assert_eq!((zero.mantissa, zero.scale), (0, 0));
    assert!(try_decimal_pow10_i16(dec("79228162514264337593543950335"), 1).is_none());
    assert_eq!(try_decimal_pow10_i16(dec("5"), 2).map(|r| (r.mantissa, r.scale)), Some((500, 0)));
}
