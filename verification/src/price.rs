//! Order price encoding: validated price mantissas, biased exponents, powers of ten and the
//! conversion of order arguments into an [`OrderInfo`] expressed in token atoms.

use vstd::prelude::*;

verus! {

/// The smallest valid price mantissa (eight significant digits).
pub const MANTISSA_DIGITS_LOWER_BOUND: u32 = 10_000_000;

/// The largest valid price mantissa (eight significant digits).
pub const MANTISSA_DIGITS_UPPER_BOUND: u32 = 99_999_999;

/// The number of low bits of an encoded price that hold the price mantissa.
pub const PRICE_MANTISSA_BITS: u32 = 27;

/// The largest valid biased exponent; `0 <= biased_exponent <= MAX_BIASED_EXPONENT`.
pub const MAX_BIASED_EXPONENT: u8 = 31;

/// The bias added to an exponent so that negative exponents fit in an unsigned integer.
pub const BIAS: u8 = 16;

/// The smallest unbiased exponent.
pub const UNBIASED_MIN: i16 = -16;

/// The largest unbiased exponent.
pub const UNBIASED_MAX: i16 = 15;

/// The bit mask of the price mantissa inside an encoded price.
pub const PRICE_MANTISSA_MASK: u32 = 0x07ff_ffff;

/// Errors raised while building order information from order arguments.
#[derive(Debug, Clone, Copy, PartialEq, Eq, Structural)]
pub enum OrderInfoError {
    ExponentUnderflow,
    ArithmeticOverflow,
    InvalidPriceMantissa,
    InvalidBiasedExponent,
    InfinityIsNotAFloat,
    AmountCannotBeZero,
}

/// `10^n`.
pub open spec fn pow10(n: nat) -> nat
    decreases n,
{
    if n == 0 {
        1
    } else {
        10 * pow10((n - 1) as nat)
    }
}

/// Powers of ten are positive and grow with the exponent.
pub proof fn lemma_pow10_monotonic(a: nat, b: nat)
    requires
        a <= b,
    ensures
        1 <= pow10(a) <= pow10(b),
    decreases b,
{
    if b > 0 {
        if a < b {
            lemma_pow10_monotonic(a, (b - 1) as nat);
        } else {
            lemma_pow10_monotonic(0, (b - 1) as nat);
        }
    }
}

/// `10^(a + b) == 10^a * 10^b`.
pub proof fn lemma_pow10_add(a: nat, b: nat)
    ensures
        pow10(a + b) == pow10(a) * pow10(b),
    decreases a,
{
    if a > 0 {
        let a1 = (a - 1) as nat;
        lemma_pow10_add(a1, b);
        assert(pow10(a + b) == 10 * pow10(a1 + b));
        assert(pow10(a) == 10 * pow10(a1));
        let x = pow10(a1);
        let y = pow10(b);
        assert(10 * (x * y) == (10 * x) * y) by (nonlinear_arith);
        assert(pow10(a + b) == pow10(a) * pow10(b));
    } else {
        assert(pow10(a) == 1);
        assert(a + b == b);
    }
}

proof fn lemma_pow10_19()
    ensures
        pow10(19) == 10_000_000_000_000_000_000nat,
{
    reveal_with_fuel(pow10, 20);
}

/// Returns `10^n` for exponents whose power fits in a `u64`.
pub fn pow10_exact(n: u32) -> (r: u64)
    requires
        n <= 19,
    ensures
        r == pow10(n as nat),
{
    let mut p: u64 = 1;
    let mut i: u32 = 0;
    while i < n
        invariant
            i <= n <= 19,
            p == pow10(i as nat),
        decreases n - i,
    {
        proof {
            lemma_pow10_monotonic((i + 1) as nat, 19);
            lemma_pow10_19();
        }
        p = p * 10;
        i = i + 1;
    }
    p
}

/// The value of `value * 10^(biased_exponent - BIAS)` in atoms, truncated towards zero when the
/// unbiased exponent is negative.
pub open spec fn pow10_u64_spec(value: u64, biased_exponent: u8) -> Result<u64, OrderInfoError> {
    if biased_exponent > MAX_BIASED_EXPONENT {
        Err(OrderInfoError::InvalidBiasedExponent)
    } else if biased_exponent < BIAS {
        Ok((value as nat / pow10((BIAS - biased_exponent) as nat)) as u64)
    } else if value * pow10((biased_exponent - BIAS) as nat) <= u64::MAX {
        Ok((value * pow10((biased_exponent - BIAS) as nat)) as u64)
    } else {
        Err(OrderInfoError::ArithmeticOverflow)
    }
}

/// Multiplies `value` by ten raised to the unbiased form of `biased_exponent`.
///
/// Fails with `InvalidBiasedExponent` when the exponent is above [`MAX_BIASED_EXPONENT`] and
/// with `ArithmeticOverflow` when the product does not fit in a `u64`. Negative unbiased
/// exponents divide, truncating towards zero.
pub fn pow10_u64(value: u64, biased_exponent: u8) -> (r: Result<u64, OrderInfoError>)
    ensures
        r == pow10_u64_spec(value, biased_exponent),
        biased_exponent > MAX_BIASED_EXPONENT ==> r == Err::<u64, OrderInfoError>(
            OrderInfoError::InvalidBiasedExponent,
        ),
        biased_exponent < BIAS ==> (r matches Ok(v) && v * pow10((BIAS - biased_exponent) as nat)
            <= value < (v + 1) * pow10((BIAS - biased_exponent) as nat)),
        BIAS <= biased_exponent <= MAX_BIASED_EXPONENT ==> r == if value * pow10(
            (biased_exponent - BIAS) as nat,
        ) <= u64::MAX {
            Ok::<u64, OrderInfoError>((value * pow10((biased_exponent - BIAS) as nat)) as u64)
        } else {
            Err(OrderInfoError::ArithmeticOverflow)
        },
{
    proof {
        if biased_exponent < BIAS {
            lemma_pow10_monotonic(0, (BIAS - biased_exponent) as nat);
            lemma_div_bounds(value as nat, pow10((BIAS - biased_exponent) as nat));
        }
    }
    if biased_exponent > MAX_BIASED_EXPONENT {
        return Err(OrderInfoError::InvalidBiasedExponent);
    }
    if biased_exponent < BIAS {
        let divisor = pow10_exact((BIAS - biased_exponent) as u32);
        proof {
            lemma_pow10_monotonic(0, (BIAS - biased_exponent) as nat);
        }
        Ok(value / divisor)
    } else {
        let factor = pow10_exact((biased_exponent - BIAS) as u32);
        match value.checked_mul(factor) {
            Some(product) => Ok(product),
            None => Err(OrderInfoError::ArithmeticOverflow),
        }
    }
}

/// Subtraction that reports underflow with the given error.
pub fn checked_sub_or(a: u64, b: u64, err: OrderInfoError) -> (r: Result<u64, OrderInfoError>)
    ensures
        r == (if a >= b {
            Ok::<u64, OrderInfoError>((a - b) as u64)
        } else {
            Err(err)
        }),
{
    if a >= b {
        Ok(a - b)
    } else {
        Err(err)
    }
}

/// Multiplication that reports overflow with the given error.
pub fn checked_mul_or(a: u64, b: u64, err: OrderInfoError) -> (r: Result<u64, OrderInfoError>)
    ensures
        r == (if a * b <= u64::MAX {
            Ok::<u64, OrderInfoError>((a * b) as u64)
        } else {
            Err(err)
        }),
{
    match a.checked_mul(b) {
        Some(product) => Ok(product),
        None => Err(err),
    }
}

/// Whether `price_mantissa` has exactly eight significant digits.
pub open spec fn is_valid_mantissa(price_mantissa: u32) -> bool {
    MANTISSA_DIGITS_LOWER_BOUND <= price_mantissa <= MANTISSA_DIGITS_UPPER_BOUND
}

/// A price mantissa that is known to lie in
/// `MANTISSA_DIGITS_LOWER_BOUND..=MANTISSA_DIGITS_UPPER_BOUND`.
#[derive(Clone, Copy, Debug)]
pub struct ValidatedPriceMantissa(u32);

impl ValidatedPriceMantissa {
    #[verifier::type_invariant]
    spec fn in_range(self) -> bool {
        is_valid_mantissa(self.0)
    }

    /// The mantissa held.
    pub closed spec fn value(self) -> u32 {
        self.0
    }

    /// Validates a raw price mantissa.
    pub fn new(price_mantissa: u32) -> (r: Result<ValidatedPriceMantissa, OrderInfoError>)
        ensures
            is_valid_mantissa(price_mantissa) <==> r is Ok,
            r matches Ok(v) ==> v.value() == price_mantissa,
            !is_valid_mantissa(price_mantissa) ==> r == Err::<ValidatedPriceMantissa, OrderInfoError>(
                OrderInfoError::InvalidPriceMantissa,
            ),
    {
        if MANTISSA_DIGITS_LOWER_BOUND <= price_mantissa && price_mantissa
            <= MANTISSA_DIGITS_UPPER_BOUND {
            Ok(ValidatedPriceMantissa(price_mantissa))
        } else {
            Err(OrderInfoError::InvalidPriceMantissa)
        }
    }

    /// Returns the validated price mantissa as a `u32`.
    pub fn as_u32(&self) -> (r: u32)
        ensures
            r == self.value(),
            is_valid_mantissa(r),
    {
        proof {
            use_type_invariant(self);
        }
        self.0
    }
}


impl TryFrom<u32> for ValidatedPriceMantissa {
    type Error = OrderInfoError;

    /// Validates a raw price mantissa; see [`ValidatedPriceMantissa::new`].
    fn try_from(price_mantissa: u32) -> (r: Result<ValidatedPriceMantissa, OrderInfoError>)
        ensures
            is_valid_mantissa(price_mantissa) <==> r is Ok,
            r matches Ok(v) ==> v.value() == price_mantissa,
            !is_valid_mantissa(price_mantissa) ==> r == Err::<ValidatedPriceMantissa, OrderInfoError>(
                OrderInfoError::InvalidPriceMantissa,
            ),
    {
        ValidatedPriceMantissa::new(price_mantissa)
    }
}

impl vstd::std_specs::convert::TryFromSpecImpl<u32> for ValidatedPriceMantissa {
    open spec fn obeys_try_from_spec() -> bool {
        true
    }

    closed spec fn try_from_spec(v: u32) -> Result<ValidatedPriceMantissa, OrderInfoError> {
        if is_valid_mantissa(v) {
            Ok(ValidatedPriceMantissa(v))
        } else {
            Err(OrderInfoError::InvalidPriceMantissa)
        }
    }
}

/// The `u32` encoding of a price: the biased price exponent in the high bits above
/// [`PRICE_MANTISSA_BITS`] and the price mantissa in the low bits. Exponent bits above the five
/// that fit are shifted out.
pub open spec fn encode_price_spec(price_exponent_biased: u8, price_mantissa: u32) -> u32 {
    ((price_exponent_biased as nat % 32) * 0x800_0000 + price_mantissa) as u32
}

/// Law: for valid mantissas, encoded prices compare as the prices they stand for,
/// `mantissa * 10^exponent` (both exponents carry the same bias), so the book can be ordered by the
/// encoded integers.
pub proof fn lemma_encoded_price_order(e1: u8, m1: u32, e2: u8, m2: u32)
    requires
        is_valid_mantissa(m1),
        is_valid_mantissa(m2),
        e1 <= MAX_BIASED_EXPONENT,
        e2 <= MAX_BIASED_EXPONENT,
    ensures
        (encode_price_spec(e1, m1) < encode_price_spec(e2, m2)) <==> (m1 * pow10(e1 as nat) < m2
            * pow10(e2 as nat)),
        (encode_price_spec(e1, m1) == encode_price_spec(e2, m2)) <==> (m1 * pow10(e1 as nat) == m2
            * pow10(e2 as nat)),
{
    let p1 = pow10(e1 as nat);
    let p2 = pow10(e2 as nat);
    lemma_pow10_monotonic(0, e1 as nat);
    lemma_pow10_monotonic(0, e2 as nat);
    assert(encode_price_spec(e1, m1) == e1 * 0x800_0000 + m1);
    assert(encode_price_spec(e2, m2) == e2 * 0x800_0000 + m2);
    if e1 < e2 {
        lemma_pow10_monotonic((e1 + 1) as nat, e2 as nat);
        assert(pow10((e1 + 1) as nat) == 10 * p1);
        assert(m1 * p1 < 100_000_000 * p1) by (nonlinear_arith)
            requires
                m1 < 100_000_000,
                p1 >= 1,
        ;
        assert(m2 * p2 >= 10_000_000 * p2) by (nonlinear_arith)
            requires
                m2 >= 10_000_000,
                p2 >= 1,
        ;
        assert(10_000_000 * p2 >= 10_000_000 * (10 * p1)) by (nonlinear_arith)
            requires
                p2 >= 10 * p1,
        ;
    } else if e2 < e1 {
        lemma_pow10_monotonic((e2 + 1) as nat, e1 as nat);
        assert(pow10((e2 + 1) as nat) == 10 * p2);
        assert(m2 * p2 < 100_000_000 * p2) by (nonlinear_arith)
            requires
                m2 < 100_000_000,
                p2 >= 1,
        ;
        assert(m1 * p1 >= 10_000_000 * p1) by (nonlinear_arith)
            requires
                m1 >= 10_000_000,
                p1 >= 1,
        ;
        assert(10_000_000 * p1 >= 10_000_000 * (10 * p2)) by (nonlinear_arith)
            requires
                p1 >= 10 * p2,
        ;
    } else {
        assert(m1 < m2 <==> m1 * p1 < m2 * p1) by (nonlinear_arith)
            requires
                p1 >= 1,
        ;
        assert(m1 == m2 <==> m1 * p1 == m2 * p1) by (nonlinear_arith)
            requires
                p1 >= 1,
        ;
    }
}

/// A price encoded as `exponent << PRICE_MANTISSA_BITS | mantissa`.
#[derive(Clone, Copy, Debug, PartialEq, Eq, Structural)]
pub struct EncodedPrice(u32);

impl EncodedPrice {
    /// The encoded `u32`.
    pub closed spec fn value(self) -> u32 {
        self.0
    }

    /// Encodes a biased price exponent and a validated mantissa.
    pub fn new(price_exponent_biased: u8, price_mantissa: ValidatedPriceMantissa) -> (r:
        EncodedPrice)
        ensures
            r.value() == encode_price_spec(price_exponent_biased, price_mantissa.value()),
    {
        let m = price_mantissa.as_u32();
        let e = price_exponent_biased as u32;
        let encoded = (e << PRICE_MANTISSA_BITS) | m;
        assert(((e << 27u32) | m) == ((e % 32) * 0x800_0000 + m) as u32) by (bit_vector)
            requires
                e < 256,
                m < 0x800_0000,
        ;
        EncodedPrice(encoded)
    }

    /// Returns the encoded price as a `u32`.
    pub fn as_u32(&self) -> (r: u32)
        ensures
            r == self.value(),
    {
        self.0
    }
}

/// The fixed layout of an order's price and size in token atoms.
#[derive(Clone, Copy, Debug)]
pub struct OrderInfo {
    /// The encoded price, containing an exponent and price mantissa.
    pub encoded_price: EncodedPrice,
    /// The indivisible units (atoms) of base token.
    pub base_atoms: u64,
    /// The indivisible units (atoms) of quote token.
    pub quote_atoms: u64,
}

/// The inputs of [`to_order_info`].
#[derive(Clone, Copy, Debug, PartialEq, Eq, Structural)]
pub struct OrderInfoArgs {
    pub price_mantissa: u32,
    pub base_scalar: u64,
    pub base_exponent_biased: u8,
    pub quote_exponent_biased: u8,
}

impl OrderInfoArgs {
    pub fn new(
        price_mantissa: u32,
        base_scalar: u64,
        base_exponent_biased: u8,
        quote_exponent_biased: u8,
    ) -> (r: Self)
        ensures
            r == (OrderInfoArgs {
                price_mantissa,
                base_scalar,
                base_exponent_biased,
                quote_exponent_biased,
            }),
    {
        OrderInfoArgs { price_mantissa, base_scalar, base_exponent_biased, quote_exponent_biased }
    }
}

impl From<(u32, u64, u8, u8)> for OrderInfoArgs {
    fn from(value: (u32, u64, u8, u8)) -> (r: Self) {
        OrderInfoArgs::new(value.0, value.1, value.2, value.3)
    }
}

impl vstd::std_specs::convert::FromSpecImpl<(u32, u64, u8, u8)> for OrderInfoArgs {
    open spec fn obeys_from_spec() -> bool {
        true
    }

    open spec fn from_spec(v: (u32, u64, u8, u8)) -> Self {
        OrderInfoArgs {
            price_mantissa: v.0,
            base_scalar: v.1,
            base_exponent_biased: v.2,
            quote_exponent_biased: v.3,
        }
    }
}

/// What [`to_order_info`] computes: the encoded price, the base atoms and the quote atoms.
///
/// - `base_atoms = base_scalar * 10^(base_exponent_biased - BIAS)`
/// - `quote_atoms = price_mantissa * base_scalar * 10^(quote_exponent_biased - BIAS)`
/// - the encoded price exponent is `quote_exponent_biased + BIAS - base_exponent_biased`
///
/// Checks happen in this order: the mantissa, the base atoms, the mantissa times base scalar
/// product, the quote atoms and finally the price exponent.
pub open spec fn order_info_spec(args: OrderInfoArgs) -> Result<(u32, u64, u64), OrderInfoError> {
    let m = args.price_mantissa;
    let s = args.base_scalar;
    let b = args.base_exponent_biased;
    let q = args.quote_exponent_biased;
    if !is_valid_mantissa(m) {
        Err(OrderInfoError::InvalidPriceMantissa)
    } else {
        match pow10_u64_spec(s, b) {
            Err(e) => Err(e),
            Ok(base_atoms) => if m * s > u64::MAX {
                Err(OrderInfoError::ArithmeticOverflow)
            } else {
                match pow10_u64_spec((m * s) as u64, q) {
                    Err(e) => Err(e),
                    Ok(quote_atoms) => if q + BIAS < b {
                        Err(OrderInfoError::ExponentUnderflow)
                    } else {
                        Ok((encode_price_spec((q + BIAS - b) as u8, m), base_atoms, quote_atoms))
                    },
                }
            },
        }
    }
}

/// `x / d` is the whole number of times `d` fits in `x`.
proof fn lemma_div_bounds(x: nat, d: nat)
    requires
        d > 0,
    ensures
        (x / d) * d <= x < (x / d + 1) * d,
        x / d <= x,
{
    vstd::arithmetic::div_mod::lemma_fundamental_div_mod(x as int, d as int);
    vstd::arithmetic::div_mod::lemma_mod_bound(x as int, d as int);
    assert((x / d) * d == d * (x / d)) by (nonlinear_arith);
    assert((x / d + 1) * d == d * (x / d) + d) by (nonlinear_arith);
    assert(x / d <= x) by (nonlinear_arith)
        requires
            (x / d) * d <= x,
            d >= 1,
    ;
}

/// Law: pricing an order. With `m` the price mantissa, `s` the base scalar, and `b`, `q` the
/// unbiased base and quote exponents, the order is priced exactly when `m` is a valid mantissa,
/// both biased exponents are at most [`MAX_BIASED_EXPONENT`], `q - b` is at least the smallest
/// unbiased exponent and no amount overflows a `u64`; then the base atoms are `s * 10^b` and the
/// quote atoms are `m * s * 10^q` (rounded down when an exponent is negative), and the encoded
/// price holds `m` under the re-biased exponent `q - b + BIAS`.
pub proof fn lemma_order_info_amounts(args: OrderInfoArgs)
    ensures
        ({
            let m = args.price_mantissa as nat;
            let s = args.base_scalar as nat;
            let b = args.base_exponent_biased;
            let q = args.quote_exponent_biased;
            &&& order_info_spec(args) is Ok <==> {
                &&& MANTISSA_DIGITS_LOWER_BOUND <= m <= MANTISSA_DIGITS_UPPER_BOUND
                &&& b <= MAX_BIASED_EXPONENT
                &&& q <= MAX_BIASED_EXPONENT
                &&& b >= BIAS ==> s * pow10((b - BIAS) as nat) <= u64::MAX
                &&& m * s <= u64::MAX
                &&& q >= BIAS ==> m * s * pow10((q - BIAS) as nat) <= u64::MAX
                &&& q + BIAS >= b
            }
            &&& order_info_spec(args) matches Ok((price, base_atoms, quote_atoms)) ==> {
                &&& b >= BIAS ==> base_atoms == s * pow10((b - BIAS) as nat)
                &&& b < BIAS ==> base_atoms * pow10((BIAS - b) as nat) <= s < (base_atoms + 1)
                    * pow10((BIAS - b) as nat)
                &&& q >= BIAS ==> quote_atoms == m * s * pow10((q - BIAS) as nat)
                &&& q < BIAS ==> quote_atoms * pow10((BIAS - q) as nat) <= m * s < (quote_atoms
                    + 1) * pow10((BIAS - q) as nat)
                &&& price % 0x800_0000 == m
                &&& price / 0x800_0000 == (q + BIAS - b) % 32
            }
        }),
{
    let m = args.price_mantissa as nat;
    let s = args.base_scalar as nat;
    let b = args.base_exponent_biased;
    let q = args.quote_exponent_biased;
    if b < BIAS {
        lemma_pow10_monotonic(0, (BIAS - b) as nat);
        lemma_div_bounds(s, pow10((BIAS - b) as nat));
    }
    if q < BIAS && m * s <= u64::MAX {
        lemma_pow10_monotonic(0, (BIAS - q) as nat);
        lemma_div_bounds(m * s, pow10((BIAS - q) as nat));
    }
    if q >= BIAS {
        assert(m * s * pow10((q - BIAS) as nat) == (m * s) * pow10((q - BIAS) as nat));
    }
    if order_info_spec(args) is Ok {
        let e = (q + BIAS - b) as u8;
        assert(m < 0x800_0000);
        assert(((e as nat % 32) * 0x800_0000 + m) % 0x800_0000 == m) by (nonlinear_arith)
            requires
                m < 0x800_0000,
        ;
        assert(((e as nat % 32) * 0x800_0000 + m) / 0x800_0000 == e as nat % 32) by (nonlinear_arith)
            requires
                m < 0x800_0000,
        ;
        assert((e as nat % 32) * 0x800_0000 + m <= u32::MAX) by (nonlinear_arith)
            requires
                m < 0x800_0000,
                e as nat % 32 < 32,
        ;
    }
}

/// Converts order inputs into an [`OrderInfo`] whose amounts are expressed in atoms.
pub fn to_order_info(args: OrderInfoArgs) -> (r: Result<OrderInfo, OrderInfoError>)
    ensures
        r is Ok <==> order_info_spec(args) is Ok,
        r matches Err(e) ==> order_info_spec(args) == Err::<(u32, u64, u64), OrderInfoError>(e),
        r matches Ok(info) ==> order_info_spec(args) == Ok::<(u32, u64, u64), OrderInfoError>(
            (info.encoded_price.value(), info.base_atoms, info.quote_atoms),
        ),
        r matches Ok(info) ==> {
            let m = args.price_mantissa as nat;
            let s = args.base_scalar as nat;
            let b = args.base_exponent_biased;
            let q = args.quote_exponent_biased;
            &&& b >= BIAS ==> info.base_atoms == s * pow10((b - BIAS) as nat)
            &&& b < BIAS ==> info.base_atoms * pow10((BIAS - b) as nat) <= s < (info.base_atoms
                + 1) * pow10((BIAS - b) as nat)
            &&& q >= BIAS ==> info.quote_atoms == m * s * pow10((q - BIAS) as nat)
            &&& q < BIAS ==> info.quote_atoms * pow10((BIAS - q) as nat) <= m * s < (
            info.quote_atoms + 1) * pow10((BIAS - q) as nat)
            &&& info.encoded_price.value() % 0x800_0000 == m
            &&& info.encoded_price.value() / 0x800_0000 == (q + BIAS - b) % 32
        },
{
    proof {
        lemma_order_info_amounts(args);
    }
    let validated_mantissa = match ValidatedPriceMantissa::new(args.price_mantissa) {
        Ok(v) => v,
        Err(e) => return Err(e),
    };
    let base_atoms = match pow10_u64(args.base_scalar, args.base_exponent_biased) {
        Ok(v) => v,
        Err(e) => return Err(e),
    };
    let price_mantissa_times_base_scalar = match checked_mul_or(
        validated_mantissa.as_u32() as u64,
        args.base_scalar,
        OrderInfoError::ArithmeticOverflow,
    ) {
        Ok(v) => v,
        Err(e) => return Err(e),
    };
    let quote_atoms = match pow10_u64(price_mantissa_times_base_scalar, args.quote_exponent_biased) {
        Ok(v) => v,
        Err(e) => return Err(e),
    };
    // The quote exponent is at most MAX_BIASED_EXPONENT here, so adding the bias fits in a u8.
    let price_exponent_rebiased = match checked_sub_or(
        (args.quote_exponent_biased + BIAS) as u64,
        args.base_exponent_biased as u64,
        OrderInfoError::ExponentUnderflow,
    ) {
        Ok(v) => v as u8,
        Err(e) => return Err(e),
    };
    Ok(
        OrderInfo {
            encoded_price: EncodedPrice::new(price_exponent_rebiased, validated_mantissa),
            base_atoms,
            quote_atoms,
        },
    )
}

} // verus!
