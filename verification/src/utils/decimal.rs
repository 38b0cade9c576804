//! Exact decimal numbers for prices, sizes and balances.
//!
//! A `Dec` holds the two plain values that make up a `rust_decimal::Decimal`:
//! a signed 96-bit mantissa and a decimal scale between 0 and 28.  Its value
//! is `mantissa / 10^scale`.  All arithmetic is done by `rust_decimal`; the
//! functions below convert to and from it.
//!
//! In specifications a `Dec` is viewed as an integer counted in units of
//! `10^-28`, so that comparisons of decimals become comparisons of integers.
use rust_decimal::Decimal;
use std::str::FromStr;
use vstd::prelude::*;

verus! {

/// The largest scale (number of fractional digits) that a decimal can carry.
pub const MAX_SCALE: u32 = 28;

/// The largest magnitude of a mantissa: `2^96 - 1`.
pub const MAX_MANTISSA: i128 = 79228162514264337593543950335;

/// `10^n`.
pub open spec fn pow10(n: nat) -> nat
    decreases n,
{
    if n == 0 {
        1
    } else {
        10 * pow10((n - 1) as nat)
    }
}

/// The largest value of a decimal, in units of `10^-28`.
pub open spec fn max_value() -> int {
    MAX_MANTISSA * pow10(28)
}

/// Whether a value (in units of `10^-28`) lies within the range of a decimal.
pub open spec fn in_range(v: int) -> bool {
    -max_value() <= v <= max_value()
}

/// Whether a value (in units of `10^-28`) can be written exactly with `scale`
/// fractional digits and a mantissa of at most 96 bits.
pub open spec fn fits_at(v: int, scale: nat) -> bool {
    &&& scale <= 28
    &&& v % (pow10((28 - scale) as nat) as int) == 0
    &&& -MAX_MANTISSA <= v / (pow10((28 - scale) as nat) as int) <= MAX_MANTISSA
}

/// A power of ten is positive.
pub proof fn lemma_pow10_positive(n: nat)
    ensures
        pow10(n) > 0,
    decreases n,
{
    if n > 0 {
        lemma_pow10_positive((n - 1) as nat);
    }
}

/// Whether `a - b` is exact in `Decimal`: the difference can be written at
/// the larger of the two scales.
pub open spec fn sub_exact(a: Dec, b: Dec) -> bool {
    fits_at(a@ - b@, max_nat(a.scale_spec(), b.scale_spec()))
}

/// `a` with its sign turned, at its scale.
pub open spec fn spec_neg(a: Dec) -> Dec {
    Dec::spec_new(-a.mantissa_spec(), a.scale_spec())
}

/// Whether `a * b` is exact in `Decimal`: the product of the mantissas has
/// at most 96 bits and the sum of the scales is at most 28.
pub open spec fn mul_exact(a: Dec, b: Dec) -> bool {
    a.scale_spec() + b.scale_spec() <= 28 && -MAX_MANTISSA <= a.mantissa_spec() * b.mantissa_spec() <= MAX_MANTISSA
}

/// The exact product of two decimals as `Decimal` writes it: the product of
/// the mantissas at the sum of the scales, and zero at scale zero.
pub open spec fn product_dec(a: Dec, b: Dec) -> Dec {
    if a.mantissa_spec() * b.mantissa_spec() == 0 {
        Dec::spec_new(0, 0)
    } else {
        Dec::spec_new(a.mantissa_spec() * b.mantissa_spec(), a.scale_spec() + b.scale_spec())
    }
}

/// Whether `a + b` is exact in `Decimal`: the sum can be written at the
/// larger of the two scales.
pub open spec fn add_exact(a: Dec, b: Dec) -> bool {
    fits_at(a@ + b@, max_nat(a.scale_spec(), b.scale_spec()))
}

pub open spec fn max_nat(a: nat, b: nat) -> nat {
    if a >= b {
        a
    } else {
        b
    }
}

/// A decimal number `mantissa / 10^scale`.
#[derive(Clone, Copy, Debug)]
pub struct Dec {
    mantissa: i128,
    scale: u32,
}

impl Dec {
    /// What every decimal satisfies: a 96-bit mantissa and a scale of at most 28.
    #[verifier::type_invariant]
    pub open spec fn wf(self) -> bool {
        &&& self.scale_spec() <= 28
        &&& -MAX_MANTISSA <= self.mantissa_spec() <= MAX_MANTISSA
    }

    pub closed spec fn mantissa_spec(self) -> int {
        self.mantissa as int
    }

    pub closed spec fn scale_spec(self) -> nat {
        self.scale as nat
    }

    /// The mantissa of the decimal.
    pub fn mantissa(&self) -> (r: i128)
        ensures
            r == self.mantissa_spec(),
            -MAX_MANTISSA <= r <= MAX_MANTISSA,
    {
        proof {
            use_type_invariant(self);
        }
        self.mantissa
    }

    /// The scale (number of fractional digits) of the decimal.
    pub fn scale(&self) -> (r: u32)
        ensures
            r == self.scale_spec(),
            r <= 28,
    {
        proof {
            use_type_invariant(self);
        }
        self.scale
    }

    /// The decimal `m / 10^s`.
    pub closed spec fn spec_new(m: int, s: nat) -> Dec {
        Dec { mantissa: m as i128, scale: s as u32 }
    }

    /// Zero is worth zero.
    pub proof fn lemma_zero_value()
        ensures
            Dec::spec_zero()@ == 0,
    {
    }

    /// A decimal with its sign turned has the opposite value at the same scale.
    pub proof fn lemma_neg_parts(a: Dec)
        requires
            a.scale_spec() <= 28,
            -MAX_MANTISSA <= a.mantissa_spec() <= MAX_MANTISSA,
        ensures
            spec_neg(a).mantissa_spec() == -a.mantissa_spec(),
            spec_neg(a).scale_spec() == a.scale_spec(),
            spec_neg(a)@ == -a@,
    {
        assert(spec_neg(a)@ == -a@) by (nonlinear_arith)
            requires
                spec_neg(a)@ == (-a.mantissa_spec()) * pow10((28 - a.scale_spec()) as nat),
                a@ == a.mantissa_spec() * pow10((28 - a.scale_spec()) as nat),
        ;
    }

    /// The exact product of a decimal with its sign turned and another is the
    /// exact product of the two with its sign turned, at the same scale.
    pub proof fn lemma_product_neg(a: Dec, b: Dec)
        requires
            mul_exact(a, b),
            -MAX_MANTISSA <= a.mantissa_spec() <= MAX_MANTISSA,
        ensures
            mul_exact(spec_neg(a), b),
            product_dec(spec_neg(a), b)@ == -product_dec(a, b)@,
            product_dec(spec_neg(a), b).scale_spec() == product_dec(a, b).scale_spec(),
    {
        let m = a.mantissa_spec() * b.mantissa_spec();
        let am = a.mantissa_spec();
        let bm = b.mantissa_spec();
        assert((-am) * bm == -m) by (nonlinear_arith)
            requires
                m == am * bm,
        ;
        assert(spec_neg(a).mantissa_spec() == -am);
        assert(spec_neg(a).mantissa_spec() * b.mantissa_spec() == -m);
        assert(Dec::spec_new(0, 0).mantissa_spec() == 0);
        assert(Dec::spec_new(0, 0)@ == 0);
        if m != 0 {
            let pw = pow10((28 - (a.scale_spec() + b.scale_spec())) as nat);
            assert(product_dec(a, b) == Dec::spec_new(m, a.scale_spec() + b.scale_spec()));
            assert(product_dec(spec_neg(a), b) == Dec::spec_new(-m, a.scale_spec() + b.scale_spec()));
            assert(Dec::spec_new(m, a.scale_spec() + b.scale_spec()).mantissa_spec() == m);
            assert(Dec::spec_new(-m, a.scale_spec() + b.scale_spec()).mantissa_spec() == -m);
            assert(product_dec(spec_neg(a), b)@ == -product_dec(a, b)@) by (nonlinear_arith)
                requires
                    product_dec(spec_neg(a), b)@ == (-m) * pw,
                    product_dec(a, b)@ == m * pw,
            ;
        }
    }

    /// The difference of two decimals of the same value is exact (zero).
    pub proof fn lemma_sub_equal_exact(a: Dec, b: Dec)
        requires
            a@ == b@,
            a.scale_spec() <= 28,
            b.scale_spec() <= 28,
        ensures
            sub_exact(a, b),
    {
        let sc = max_nat(a.scale_spec(), b.scale_spec());
        lemma_pow10_positive((28 - sc) as nat);
    }

    /// The decimal `m / 10^s` has the mantissa `m` and the scale `s`.
    pub proof fn lemma_spec_new_parts(m: int, s: nat)
        requires
            i64::MIN <= m <= i64::MAX,
            s <= 28,
        ensures
            Dec::spec_new(m, s).mantissa_spec() == m,
            Dec::spec_new(m, s).scale_spec() == s,
    {
    }

    /// `num / 10^scale`, as `Decimal::new` builds it.
    pub fn new(num: i64, scale: u32) -> (r: Dec)
        requires
            scale <= 28,
        ensures
            r == Dec::spec_new(num as int, scale as nat),
            r.mantissa_spec() == num,
            r.scale_spec() == scale,
    {
        assert(-MAX_MANTISSA <= num <= MAX_MANTISSA);
        Dec { mantissa: num as i128, scale }
    }

    /// `num / 10^scale` for a mantissa of at most 96 bits.
    pub fn from_i128_with_scale(num: i128, scale: u32) -> (r: Dec)
        requires
            scale <= 28,
            -MAX_MANTISSA <= num <= MAX_MANTISSA,
        ensures
            r.mantissa_spec() == num,
            r.scale_spec() == scale,
    {
        Dec { mantissa: num, scale }
    }

    /// The integer `n` as a decimal of scale 0.
    pub fn from_int(n: i64) -> (r: Dec)
        ensures
            r == Dec::spec_new(n as int, 0),
            r.mantissa_spec() == n,
            r.scale_spec() == 0,
            r@ == n * pow10(28),
    {
        Dec::new(n, 0)
    }

    /// Zero, with scale 0.
    pub closed spec fn spec_zero() -> Dec {
        Dec { mantissa: 0, scale: 0 }
    }

    /// Zero, with scale 0.
    pub fn zero() -> (r: Dec)
        ensures
            r == Dec::spec_zero(),
            r@ == 0,
            r.mantissa_spec() == 0,
            r.scale_spec() == 0,
    {
        Dec::new(0, 0)
    }
}

impl View for Dec {
    type V = int;

    /// The value in units of `10^-28`.
    open spec fn view(&self) -> int {
        self.mantissa_spec() * pow10((28 - self.scale_spec()) as nat)
    }
}

/// What `Decimal::checked_add` returns for two decimals.
pub uninterp spec fn decimal_checked_add(a: Dec, b: Dec) -> Option<Dec>;

/// What `Decimal::checked_sub` returns for two decimals.
pub uninterp spec fn decimal_checked_sub(a: Dec, b: Dec) -> Option<Dec>;

/// What `Decimal::checked_mul` returns for two decimals.
pub uninterp spec fn decimal_checked_mul(a: Dec, b: Dec) -> Option<Dec>;

/// What `Decimal::checked_div` returns for two decimals.
pub uninterp spec fn decimal_checked_div(a: Dec, b: Dec) -> Option<Dec>;

/// What `Decimal::from_str` returns for a text (`None` for an error).
pub uninterp spec fn decimal_parse(text: Seq<char>) -> Option<Dec>;

/// Banker's rounding of `m / d` for `m >= 0`, `d > 0`: to the nearest
/// integer, and to the even one of two that are equally near.
pub open spec fn div_round_half_even(m: int, d: int) -> int {
    let q = m / d;
    let r = m % d;
    if 2 * r > d || (2 * r == d && q % 2 == 1) {
        q + 1
    } else {
        q
    }
}

/// The mantissa of `round_dp(dp)` for a decimal whose scale exceeds `dp`.
pub open spec fn rounded_mantissa(m: int, scale: nat, dp: nat) -> int {
    let d = pow10((scale - dp) as nat) as int;
    if m >= 0 {
        div_round_half_even(m, d)
    } else {
        -div_round_half_even(-m, d)
    }
}

/// `a < b` on the values of two decimals (`PartialOrd::lt` of `Decimal`).
#[verifier::external_body]
pub(crate) fn dec_lt(a: &Dec, b: &Dec) -> (r: bool)
    ensures
        r == (a@ < b@),
{
    Decimal::from_i128_with_scale(a.mantissa, a.scale) < Decimal::from_i128_with_scale(b.mantissa, b.scale)
}

/// `a == b` on the values of two decimals (`PartialEq::eq` of `Decimal`).
#[verifier::external_body]
pub(crate) fn dec_eq(a: &Dec, b: &Dec) -> (r: bool)
    ensures
        r == (a@ == b@),
{
    Decimal::from_i128_with_scale(a.mantissa, a.scale) == Decimal::from_i128_with_scale(b.mantissa, b.scale)
}

/// `Decimal::checked_add`: the sum, `None` on overflow.  The sum is exact
/// when it can be written at the larger of the two scales.
#[verifier::external_body]
pub(crate) fn dec_checked_add(a: Dec, b: Dec) -> (r: Option<Dec>)
    ensures
        r == decimal_checked_add(a, b),
        in_range(a@ + b@) ==> r.is_some(),
        add_exact(a, b) ==> (r.is_some() && r.unwrap()@ == a@ + b@),
{
    let x = Decimal::from_i128_with_scale(a.mantissa, a.scale);
    let y = Decimal::from_i128_with_scale(b.mantissa, b.scale);
    match x.checked_add(y) {
        Some(d) => Some(Dec { mantissa: d.mantissa(), scale: d.scale() }),
        None => None,
    }
}

/// `Decimal::checked_sub`: the difference, `None` on overflow.  The
/// difference is exact when it can be written at the larger of the two scales.
#[verifier::external_body]
pub(crate) fn dec_checked_sub(a: Dec, b: Dec) -> (r: Option<Dec>)
    ensures
        r == decimal_checked_sub(a, b),
        in_range(a@ - b@) ==> r.is_some(),
        sub_exact(a, b) ==> (r.is_some() && r.unwrap()@ == a@ - b@),
        // zero minus a decimal is that decimal with the sign turned, at its scale
        a@ == 0 ==> r == Some(spec_neg(b)),
{
    let x = Decimal::from_i128_with_scale(a.mantissa, a.scale);
    let y = Decimal::from_i128_with_scale(b.mantissa, b.scale);
    match x.checked_sub(y) {
        Some(d) => Some(Dec { mantissa: d.mantissa(), scale: d.scale() }),
        None => None,
    }
}

/// `Decimal::checked_mul`: the product, `None` on overflow.  The product is
/// exact when the product of the mantissas has at most 96 bits and the sum
/// of the scales is at most 28.
#[verifier::external_body]
pub(crate) fn dec_checked_mul(a: Dec, b: Dec) -> (r: Option<Dec>)
    ensures
        r == decimal_checked_mul(a, b),
        in_range((a@ * b@) / (pow10(28) as int)) && (a@ * b@) % (pow10(28) as int) == 0 ==> r.is_some(),
        (a.scale_spec() + b.scale_spec() <= 28 && -MAX_MANTISSA <= a.mantissa_spec() * b.mantissa_spec() <= MAX_MANTISSA)
            ==> (r.is_some() && r.unwrap()@ * pow10(28) == a@ * b@),
        // an exact product is the product of the mantissas at the sum of the
        // scales (zero at scale zero)
        mul_exact(a, b) ==> r == Some(product_dec(a, b)),
{
    let x = Decimal::from_i128_with_scale(a.mantissa, a.scale);
    let y = Decimal::from_i128_with_scale(b.mantissa, b.scale);
    match x.checked_mul(y) {
        Some(d) => Some(Dec { mantissa: d.mantissa(), scale: d.scale() }),
        None => None,
    }
}

/// `Decimal::checked_div`: the quotient, `None` on a zero divisor or overflow.
/// Where the divisor's mantissa has at most 32 bits, the dividend has at
/// least the divisor's scale and its mantissa is a multiple of the divisor's,
/// the quotient of the mantissas is returned at the difference of the scales,
/// which is the exact quotient.
#[verifier::external_body]
pub(crate) fn dec_checked_div(a: Dec, b: Dec) -> (r: Option<Dec>)
    ensures
        r == decimal_checked_div(a, b),
        b@ == 0 ==> r.is_none(),
        (b.mantissa_spec() != 0 && -0x1_0000_0000 < b.mantissa_spec() < 0x1_0000_0000
            && a.scale_spec() >= b.scale_spec() && a.mantissa_spec() % b.mantissa_spec() == 0)
            ==> (r.is_some() && r.unwrap()@ * b@ == a@ * pow10(28)),
{
    let x = Decimal::from_i128_with_scale(a.mantissa, a.scale);
    let y = Decimal::from_i128_with_scale(b.mantissa, b.scale);
    match x.checked_div(y) {
        Some(d) => Some(Dec { mantissa: d.mantissa(), scale: d.scale() }),
        None => None,
    }
}

/// `a` rounded to `dp` fractional digits by banker's rounding (see `dec_round_dp`).
pub closed spec fn spec_round_dp(a: Dec, dp: nat) -> Dec {
    if a.scale_spec() <= dp {
        a
    } else {
        Dec { mantissa: rounded_mantissa(a.mantissa_spec(), a.scale_spec(), dp) as i128, scale: dp as u32 }
    }
}

/// `Decimal::round_dp`: rounds to `dp` fractional digits by banker's
/// rounding; a decimal with at most `dp` fractional digits is kept as it is.
#[verifier::external_body]
pub(crate) fn dec_round_dp(a: Dec, dp: u32) -> (r: Dec)
    ensures
        r == spec_round_dp(a, dp as nat),
        a.scale_spec() <= dp ==> r == a,
        a.scale_spec() > dp ==> r.scale_spec() == dp && r.mantissa_spec() == rounded_mantissa(
            a.mantissa_spec(),
            a.scale_spec(),
            dp as nat,
        ),
{
    let d = Decimal::from_i128_with_scale(a.mantissa, a.scale).round_dp(dp);
    Dec { mantissa: d.mantissa(), scale: d.scale() }
}

/// `Decimal::from_str`: the decimal written in `text`, `None` where the text
/// is no decimal.
#[verifier::external_body]
pub(crate) fn parse_decimal(text: &str) -> (r: Option<Dec>)
    ensures
        r == decimal_parse(text@),
{
    match Decimal::from_str(text) {
        Ok(d) => Some(Dec { mantissa: d.mantissa(), scale: d.scale() }),
        Err(_) => None,
    }
}

impl PartialEq for Dec {
    fn eq(&self, other: &Dec) -> (r: bool) {
        dec_eq(self, other)
    }
}

impl vstd::std_specs::cmp::PartialEqSpecImpl for Dec {
    open spec fn obeys_eq_spec() -> bool {
        true
    }

    open spec fn eq_spec(&self, other: &Dec) -> bool {
        self@ == other@
    }
}

} // verus!
