//! Exact decimal prices and amounts.
//!
//! A `Dec` holds the two plain parts of a `rust_decimal::Decimal`: a signed
//! mantissa of at most 96 bits and a scale between 0 and 28, so that its value
//! is `mantissa / 10^scale`.  Comparisons, abs, floor, min and max are stated
//! exactly; addition, subtraction, multiplication and division are carried out
//! by `rust_decimal` and their results are named.
use vstd::prelude::*;
use vstd::arithmetic::div_mod::*;

verus! {

/// Largest mantissa magnitude a decimal can hold: 2^96 - 1.
pub const MAX_MANTISSA: i128 = 79228162514264337593543950335i128;

/// Largest number of digits after the decimal point.
pub const MAX_SCALE: u32 = 28u32;

/// 10 raised to `n`.
pub open spec fn pow10(n: nat) -> int
    decreases n,
{
    if n == 0 {
        1
    } else {
        10 * pow10((n - 1) as nat)
    }
}

/// Whether a (mantissa, scale) pair is a representable decimal.
pub open spec fn valid_repr(v: (int, int)) -> bool {
    &&& 0 <= v.1 <= 28
    &&& -(MAX_MANTISSA as int) <= v.0 <= MAX_MANTISSA as int
}

/// The value of a (mantissa, scale) pair counted in units of 10^-28.
/// For valid pairs this is an integer, so decimal values compare as integers.
pub open spec fn units(v: (int, int)) -> int {
    v.0 * pow10((28 - v.1) as nat)
}

/// The decimal whose (mantissa, scale) pair is `v`.
pub closed spec fn dec_of(v: (int, int)) -> Dec {
    Dec { mantissa: v.0 as i128, scale: v.1 as u32 }
}

/// An optional pair read as an optional decimal.
pub open spec fn lift(o: Option<(int, int)>) -> Option<Dec> {
    match o {
        Some(v) => Some(dec_of(v)),
        None => None,
    }
}

/// `a + b` as `rust_decimal` computes it; `None` where it overflows.
pub open spec fn spec_add(a: Dec, b: Dec) -> Option<Dec> {
    lift(decimal_checked_add(a@, b@))
}

/// `a - b` as `rust_decimal` computes it; `None` where it overflows.
pub open spec fn spec_sub(a: Dec, b: Dec) -> Option<Dec> {
    lift(decimal_checked_sub(a@, b@))
}

/// `a * b` as `rust_decimal` computes it; `None` where it overflows.
pub open spec fn spec_mul(a: Dec, b: Dec) -> Option<Dec> {
    lift(decimal_checked_mul(a@, b@))
}

/// `a / b` as `rust_decimal` computes it; `None` where it overflows or `b` is zero.
pub open spec fn spec_div(a: Dec, b: Dec) -> Option<Dec> {
    lift(decimal_checked_div(a@, b@))
}

/// The spec value of `Decimal::abs`.
pub open spec fn spec_abs(a: Dec) -> Dec {
    dec_of((if a@.0 < 0 { -a@.0 } else { a@.0 }, a@.1))
}

/// The spec value of `Decimal::floor`.
pub open spec fn spec_floor(a: Dec) -> Dec {
    dec_of((a@.0 / pow10(a@.1 as nat), 0int))
}

/// The decimal zero.
pub open spec fn spec_zero() -> Dec {
    dec_of((0int, 0int))
}

/// The whole number `n`.
pub open spec fn spec_whole(n: int) -> Dec {
    dec_of((n, 0int))
}

/// A decimal is determined by its pair view.
pub proof fn lemma_dec_of_view(d: Dec)
    ensures
        dec_of(d@) == d,
{
}

/// Reading a representable pair as a decimal keeps the pair.
pub proof fn lemma_dec_of_valid(v: (int, int))
    requires
        valid_repr(v),
    ensures
        dec_of(v)@ == v,
{
}

/// What `rust_decimal::Decimal::checked_add` returns for the two decimals,
/// each given as (mantissa, scale); `None` where `+` would panic.
pub uninterp spec fn decimal_checked_add(a: (int, int), b: (int, int)) -> Option<(int, int)>;

/// What `rust_decimal::Decimal::checked_sub` returns for the two decimals,
/// each given as (mantissa, scale); `None` where `-` would panic.
pub uninterp spec fn decimal_checked_sub(a: (int, int), b: (int, int)) -> Option<(int, int)>;

/// What `rust_decimal::Decimal::checked_mul` returns for the two decimals,
/// each given as (mantissa, scale); `None` where `*` would panic.
pub uninterp spec fn decimal_checked_mul(a: (int, int), b: (int, int)) -> Option<(int, int)>;

/// What `rust_decimal::Decimal::checked_div` returns for the two decimals,
/// each given as (mantissa, scale); `None` where `/` would panic.
pub uninterp spec fn decimal_checked_div(a: (int, int), b: (int, int)) -> Option<(int, int)>;

/// A decimal number `mantissa / 10^scale`, with the range of `rust_decimal::Decimal`.
#[derive(Clone, Copy, Debug)]
pub struct Dec {
    mantissa: i128,
    scale: u32,
}

impl View for Dec {
    type V = (int, int);

    closed spec fn view(&self) -> (int, int) {
        (self.mantissa as int, self.scale as int)
    }
}

/// Value order on decimals: `a < b`.
pub open spec fn dec_lt(a: Dec, b: Dec) -> bool {
    units(a@) < units(b@)
}

/// Value order on decimals: `a <= b`.
pub open spec fn dec_le(a: Dec, b: Dec) -> bool {
    units(a@) <= units(b@)
}

/// Value equality of decimals (`1.0 == 1.00`).
pub open spec fn dec_eq(a: Dec, b: Dec) -> bool {
    units(a@) == units(b@)
}

/// Spec of `Decimal::min`: the first argument unless the second is smaller.
pub open spec fn dec_min(a: Dec, b: Dec) -> Dec {
    if dec_lt(b, a) { b } else { a }
}

/// Spec of `Decimal::max`: the second argument unless the first is larger.
pub open spec fn dec_max(a: Dec, b: Dec) -> Dec {
    if dec_lt(b, a) { a } else { b }
}

impl Dec {
    /// Every decimal has a mantissa within 96 bits and a scale of at most 28.
    #[verifier::type_invariant]
    pub closed spec fn valid(self) -> bool {
        valid_repr(self@)
    }

    /// A decimal `mantissa / 10^scale`, or `None` where `rust_decimal` has no such value.
    pub fn new(mantissa: i128, scale: u32) -> (r: Option<Dec>)
        ensures
            r is Some <==> valid_repr((mantissa as int, scale as int)),
            r matches Some(d) ==> d@ == (mantissa as int, scale as int),
    {
        if scale <= MAX_SCALE && -MAX_MANTISSA <= mantissa && mantissa <= MAX_MANTISSA {
            Some(Dec { mantissa, scale })
        } else {
            None
        }
    }

    /// The decimal zero.
    pub fn zero() -> (r: Dec)
        ensures
            r == spec_zero(),
            r@ == (0int, 0int),
            units(r@) == 0,
    {
        Dec { mantissa: 0, scale: 0 }
    }

    /// The whole number `n` (`Decimal::from(n)`).
    pub fn from_u32(n: u32) -> (r: Dec)
        ensures
            r == spec_whole(n as int),
            r@ == (n as int, 0int),
    {
        Dec { mantissa: n as i128, scale: 0 }
    }

    /// The mantissa.
    pub fn mantissa(&self) -> (r: i128)
        ensures
            r as int == self@.0,
    {
        self.mantissa
    }

    /// The scale.
    pub fn scale(&self) -> (r: u32)
        ensures
            r as int == self@.1,
    {
        self.scale
    }

    /// Every decimal's pair view is representable.
    pub fn lemma_valid(&self)
        ensures
            valid_repr(self@),
    {
        proof {
            use_type_invariant(self);
        }
    }

    /// `self < other` by value.
    pub fn lt(&self, other: &Dec) -> (r: bool)
        ensures
            r == dec_lt(*self, *other),
    {
        decimal_lt(*self, *other)
    }

    /// `self <= other` by value.
    pub fn le(&self, other: &Dec) -> (r: bool)
        ensures
            r == dec_le(*self, *other),
    {
        !decimal_lt(*other, *self)
    }

    /// `self == other` by value.
    pub fn num_eq(&self, other: &Dec) -> (r: bool)
        ensures
            r == dec_eq(*self, *other),
    {
        decimal_eq(*self, *other)
    }

    /// The smaller of the two, `self` when they are equal (`Decimal::min`).
    pub fn min(self, other: Dec) -> (r: Dec)
        ensures
            r == dec_min(self, other),
    {
        if decimal_lt(other, self) {
            other
        } else {
            self
        }
    }

    /// The larger of the two, `other` when they are equal (`Decimal::max`).
    pub fn max(self, other: Dec) -> (r: Dec)
        ensures
            r == dec_max(self, other),
    {
        if decimal_lt(other, self) {
            self
        } else {
            other
        }
    }

    /// Absolute value (`Decimal::abs`): the scale is kept, the sign dropped.
    pub fn abs(&self) -> (r: Dec)
        ensures
            r == spec_abs(*self),
            r@ == (if self@.0 < 0 { -self@.0 } else { self@.0 }, self@.1),
    {
        proof {
            use_type_invariant(self);
        }
        let m = if self.mantissa < 0 {
            -self.mantissa
        } else {
            self.mantissa
        };
        Dec { mantissa: m, scale: self.scale }
    }

    /// The largest whole number not above the value (`Decimal::floor`), at scale 0.
    pub fn floor(&self) -> (r: Dec)
        ensures
            r == spec_floor(*self),
            r@ == (self@.0 / pow10(self@.1 as nat), 0int),
    {
        proof {
            use_type_invariant(self);
        }
        let p = pow10_exec(self.scale);
        proof {
            lemma_pow10_pos(self.scale as nat);
        }
        if self.mantissa >= 0 {
            let q = self.mantissa / p;
            proof {
                lemma_div_pos_is_pos(self.mantissa as int, p as int);
                lemma_div_is_ordered(self.mantissa as int, MAX_MANTISSA as int, p as int);
                lemma_div_basics(MAX_MANTISSA as int);
                lemma_div_is_ordered_by_denominator(MAX_MANTISSA as int, 1, p as int);
            }
            Dec { mantissa: q, scale: 0 }
        } else {
            let a = -self.mantissa;
            let q = a / p;
            let rem = a % p;
            proof {
                lemma_div_pos_is_pos(a as int, p as int);
                lemma_div_is_ordered(a as int, MAX_MANTISSA as int, p as int);
                lemma_div_basics(MAX_MANTISSA as int);
                lemma_div_is_ordered_by_denominator(MAX_MANTISSA as int, 1, p as int);
                lemma_fundamental_div_mod(a as int, p as int);
                lemma_mod_pos_bound(a as int, p as int);
                let m = self.mantissa as int;
                if rem == 0 {
                    assert(m == -(q as int) * (p as int) + 0) by (nonlinear_arith)
                        requires
                            a as int == (p as int) * (q as int) + (rem as int),
                            rem == 0,
                            m == -(a as int),
                    ;
                    lemma_fundamental_div_mod_converse_div(m, p as int, -(q as int), 0);
                } else {
                    assert(m == (-(q as int) - 1) * (p as int) + ((p as int) - (rem as int)))
                        by (nonlinear_arith)
                        requires
                            a as int == (p as int) * (q as int) + (rem as int),
                            m == -(a as int),
                    ;
                    assert((q as int) < (a as int)) by (nonlinear_arith)
                        requires
                            a as int == (p as int) * (q as int) + (rem as int),
                            rem > 0,
                            p >= 1,
                            q >= 0,
                    ;
                    lemma_fundamental_div_mod_converse_div(
                        m,
                        p as int,
                        -(q as int) - 1,
                        (p as int) - (rem as int),
                    );
                }
            }
            if rem == 0 {
                Dec { mantissa: -q, scale: 0 }
            } else {
                Dec { mantissa: -q - 1, scale: 0 }
            }
        }
    }
}

/// Powers of ten are positive.
pub proof fn lemma_pow10_pos(n: nat)
    ensures
        pow10(n) > 0,
    decreases n,
{
    if n > 0 {
        lemma_pow10_pos((n - 1) as nat);
    }
}

/// Powers of ten grow with the exponent.
pub proof fn lemma_pow10_mono(a: nat, b: nat)
    requires
        a <= b,
    ensures
        pow10(a) <= pow10(b),
    decreases b,
{
    if a < b {
        lemma_pow10_mono(a, (b - 1) as nat);
        lemma_pow10_pos((b - 1) as nat);
    }
}

/// 10^28, the largest power a scale can ask for.
pub proof fn lemma_pow10_28()
    ensures
        pow10(28) == 10000000000000000000000000000int,
{
    reveal_with_fuel(pow10, 29);
}

/// `10^scale` for a scale of at most 28.
fn pow10_exec(scale: u32) -> (r: i128)
    requires
        scale <= 28,
    ensures
        r as int == pow10(scale as nat),
        r > 0,
{
    let mut p: i128 = 1;
    let mut i: u32 = 0;
    while i < scale
        invariant
            i <= scale <= 28,
            p as int == pow10(i as nat),
        decreases scale - i,
    {
        proof {
            lemma_pow10_mono((i + 1) as nat, 28);
            lemma_pow10_28();
            assert(pow10((i + 1) as nat) == 10 * pow10(i as nat));
            assert(p * 10 <= 10000000000000000000000000000int);
            lemma_pow10_pos(i as nat);
        }
        p = p * 10;
        i = i + 1;
    }
    proof {
        lemma_pow10_pos(scale as nat);
    }
    p
}

/// `<` of `rust_decimal::Decimal` (its `PartialOrd::lt`), which compares values:
/// the claim is that it answers whether the first value is below the second.
#[verifier::external_body]
fn decimal_lt(a: Dec, b: Dec) -> (r: bool)
    ensures
        r == (units(a@) < units(b@)),
{
    let x = rust_decimal::Decimal::from_i128_with_scale(a.mantissa, a.scale);
    let y = rust_decimal::Decimal::from_i128_with_scale(b.mantissa, b.scale);
    x < y
}

/// `==` of `rust_decimal::Decimal` (its `PartialEq::eq`), which compares values:
/// the claim is that it answers whether the two values are equal.
#[verifier::external_body]
fn decimal_eq(a: Dec, b: Dec) -> (r: bool)
    ensures
        r == (units(a@) == units(b@)),
{
    let x = rust_decimal::Decimal::from_i128_with_scale(a.mantissa, a.scale);
    let y = rust_decimal::Decimal::from_i128_with_scale(b.mantissa, b.scale);
    x == y
}

/// `rust_decimal::Decimal::checked_add`: its result, as (mantissa, scale), is
/// `decimal_checked_add` of the operands; and when the two have the same scale and the
/// sum of the mantissas fits in 96 bits, the result is that sum at that scale (no
/// rescaling or rounding happens then).  Nothing is claimed of other operands.
#[verifier::external_body]
pub(crate) fn checked_add(a: Dec, b: Dec) -> (r: Option<Dec>)
    ensures
        r == lift(decimal_checked_add(a@, b@)),
        a@.1 == b@.1 && valid_repr((a@.0 + b@.0, a@.1)) ==> r == Some(dec_of((a@.0 + b@.0, a@.1))),
{
    let x = rust_decimal::Decimal::from_i128_with_scale(a.mantissa, a.scale);
    let y = rust_decimal::Decimal::from_i128_with_scale(b.mantissa, b.scale);
    match x.checked_add(y) {
        Some(z) => Some(Dec { mantissa: z.mantissa(), scale: z.scale() }),
        None => None,
    }
}

/// `rust_decimal::Decimal::checked_sub`: its result, as (mantissa, scale), is
/// `decimal_checked_sub` of the operands; and when the two have the same scale and the
/// difference of the mantissas fits in 96 bits, the result is that difference at that
/// scale.  Nothing is claimed of other operands.
#[verifier::external_body]
pub(crate) fn checked_sub(a: Dec, b: Dec) -> (r: Option<Dec>)
    ensures
        r == lift(decimal_checked_sub(a@, b@)),
        a@.1 == b@.1 && valid_repr((a@.0 - b@.0, a@.1)) ==> r == Some(dec_of((a@.0 - b@.0, a@.1))),
{
    let x = rust_decimal::Decimal::from_i128_with_scale(a.mantissa, a.scale);
    let y = rust_decimal::Decimal::from_i128_with_scale(b.mantissa, b.scale);
    match x.checked_sub(y) {
        Some(z) => Some(Dec { mantissa: z.mantissa(), scale: z.scale() }),
        None => None,
    }
}

/// `rust_decimal::Decimal::checked_mul`: the claim is only that its result,
/// as (mantissa, scale), is `decimal_checked_mul` of the operands.
#[verifier::external_body]
pub(crate) fn checked_mul(a: Dec, b: Dec) -> (r: Option<Dec>)
    ensures
        r == lift(decimal_checked_mul(a@, b@)),
{
    let x = rust_decimal::Decimal::from_i128_with_scale(a.mantissa, a.scale);
    let y = rust_decimal::Decimal::from_i128_with_scale(b.mantissa, b.scale);
    match x.checked_mul(y) {
        Some(z) => Some(Dec { mantissa: z.mantissa(), scale: z.scale() }),
        None => None,
    }
}

/// `rust_decimal::Decimal::checked_div`: the claim is only that its result,
/// as (mantissa, scale), is `decimal_checked_div` of the operands.
#[verifier::external_body]
pub(crate) fn checked_div(a: Dec, b: Dec) -> (r: Option<Dec>)
    ensures
        r == lift(decimal_checked_div(a@, b@)),
{
    let x = rust_decimal::Decimal::from_i128_with_scale(a.mantissa, a.scale);
    let y = rust_decimal::Decimal::from_i128_with_scale(b.mantissa, b.scale);
    match x.checked_div(y) {
        Some(z) => Some(Dec { mantissa: z.mantissa(), scale: z.scale() }),
        None => None,
    }
}

} // verus!
