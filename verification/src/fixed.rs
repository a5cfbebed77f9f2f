//! Fixed-point numbers with 18 decimals over 256-bit unsigned integers, with
//! checked arithmetic and explicit rounding.
use vstd::prelude::*;
use vstd::arithmetic::div_mod::lemma_fundamental_div_mod;
use crate::wide::{
    dec_value, fixed_pow, lemma_wide_view_injective, pow_outcome, readable, u256_checked_add,
    u256_checked_sub, u256_from_dec_str, u256_full_mul, u512_checked_div, u512_checked_rem,
    wide_limit, Wide,
};

verus! {

/// Why a computation gave no result.
#[derive(Clone, Copy, Debug, PartialEq, Eq, Structural)]
pub enum ShortError {
    /// A text is not a decimal number that fits in 256 bits.
    InputParse,
    /// The true result of an operation is too large to represent.
    ArithmeticOverflow,
    /// The true result of a subtraction is negative.
    ArithmeticUnderflow,
    /// The trade asks the curve for more than the reserves hold.
    CurveInfeasibleTrade,
    /// The maturity lies further ahead than one position duration.
    InvalidTimeRange,
}

/// The scaled integer that stands for the number one.
pub open spec fn one() -> nat {
    1_000_000_000_000_000_000
}

/// `a * b / d`, rounded down.
pub open spec fn mul_div_down(a: nat, b: nat, d: nat) -> nat {
    a * b / d
}

/// `a * b / d`, rounded up.
pub open spec fn mul_div_up(a: nat, b: nat, d: nat) -> nat {
    if (a * b) % d == 0 {
        a * b / d
    } else {
        a * b / d + 1
    }
}

/// The fixed-point product of `a` and `b`, rounded down.
pub open spec fn mul_down(a: nat, b: nat) -> nat {
    mul_div_down(a, b, one())
}

/// The fixed-point product of `a` and `b`, rounded up.
pub open spec fn mul_up(a: nat, b: nat) -> nat {
    mul_div_up(a, b, one())
}

/// The fixed-point quotient of `a` by `b`, rounded down.
pub open spec fn div_down(a: nat, b: nat) -> nat {
    mul_div_down(a, one(), b)
}

/// The fixed-point quotient of `a` by `b`, rounded up.
pub open spec fn div_up(a: nat, b: nat) -> nat {
    mul_div_up(a, one(), b)
}

/// A number with 18 decimals. Its view is the scaled integer: the number
/// times ten to the power 18.
#[derive(Clone, Copy, Debug, PartialEq, Eq, Structural)]
pub struct FixedPoint {
    pub raw: Wide,
}

impl View for FixedPoint {
    type V = nat;

    open spec fn view(&self) -> nat {
        self.raw@
    }
}

impl FixedPoint {
    /// The number whose scaled integer is `raw`.
    pub fn from_raw(raw: Wide) -> (r: FixedPoint)
        ensures
            r@ == raw@,
    {
        FixedPoint { raw }
    }

    /// The number zero.
    pub fn zero() -> (r: FixedPoint)
        ensures
            r@ == 0,
    {
        FixedPoint { raw: Wide::from_u64(0) }
    }

    /// The number one.
    pub fn one() -> (r: FixedPoint)
        ensures
            r@ == one(),
    {
        FixedPoint { raw: Wide::from_u64(1_000_000_000_000_000_000) }
    }

    /// Reads a scaled integer written in decimal digits. A text without a
    /// digit is no number.
    pub fn parse(s: &str) -> (r: Result<FixedPoint, ShortError>)
        ensures
            match r {
                Ok(v) => readable(s@) && v@ == dec_value(s@),
                Err(e) => e == ShortError::InputParse && !readable(s@),
            },
    {
        if s.unicode_len() == 0 {
            return Err(ShortError::InputParse);
        }
        match u256_from_dec_str(s) {
            Ok(raw) => Ok(FixedPoint { raw }),
            Err(_) => Err(ShortError::InputParse),
        }
    }

    /// Whether this number is at most `other`.
    pub fn le(self, other: FixedPoint) -> (r: bool)
        ensures
            r == (self@ <= other@),
    {
        u256_checked_sub(other.raw, self.raw).is_some()
    }

    /// Whether this number is zero.
    pub fn is_zero(self) -> (r: bool)
        ensures
            r == (self@ == 0),
    {
        self.raw.is_zero()
    }

    /// The sum, or `ArithmeticOverflow` where it does not fit.
    pub fn checked_add(self, other: FixedPoint) -> (r: Result<FixedPoint, ShortError>)
        ensures
            match r {
                Ok(v) => v@ == self@ + other@,
                Err(e) => e == ShortError::ArithmeticOverflow && self@ + other@ >= wide_limit(),
            },
    {
        match u256_checked_add(self.raw, other.raw) {
            Some(raw) => Ok(FixedPoint { raw }),
            None => Err(ShortError::ArithmeticOverflow),
        }
    }

    /// The difference, or `ArithmeticUnderflow` where `other` is the larger.
    pub fn checked_sub(self, other: FixedPoint) -> (r: Result<FixedPoint, ShortError>)
        ensures
            match r {
                Ok(v) => other@ <= self@ && v@ == self@ - other@,
                Err(e) => e == ShortError::ArithmeticUnderflow && self@ < other@,
            },
    {
        match u256_checked_sub(self.raw, other.raw) {
            Some(raw) => Ok(FixedPoint { raw }),
            None => Err(ShortError::ArithmeticUnderflow),
        }
    }

    /// `self * other / divisor` rounded down, or `ArithmeticOverflow` where
    /// the quotient does not fit in 256 bits. The product is taken in full.
    pub fn mul_div_down(self, other: FixedPoint, divisor: FixedPoint) -> (r: Result<
        FixedPoint,
        ShortError,
    >)
        requires
            divisor@ > 0,
        ensures
            outcome(r) == represented(mul_div_down(self@, other@, divisor@)),
    {
        let product = u256_full_mul(self.raw, other.raw);
        let quotient = match u512_checked_div(product, divisor.raw.widen()) {
            Some(q) => q,
            None => { return Err(ShortError::ArithmeticOverflow); },
        };
        match quotient.narrow() {
            Some(raw) => Ok(FixedPoint { raw }),
            None => Err(ShortError::ArithmeticOverflow),
        }
    }

    /// `self * other / divisor` rounded up, or `ArithmeticOverflow` where
    /// the rounded quotient does not fit in 256 bits. The product is taken
    /// in full.
    pub fn mul_div_up(self, other: FixedPoint, divisor: FixedPoint) -> (r: Result<
        FixedPoint,
        ShortError,
    >)
        requires
            divisor@ > 0,
        ensures
            outcome(r) == represented(mul_div_up(self@, other@, divisor@)),
    {
        let product = u256_full_mul(self.raw, other.raw);
        let wide_divisor = divisor.raw.widen();
        let quotient = match u512_checked_div(product, wide_divisor) {
            Some(q) => q,
            None => { return Err(ShortError::ArithmeticOverflow); },
        };
        let remainder = match u512_checked_rem(product, wide_divisor) {
            Some(m) => m,
            None => { return Err(ShortError::ArithmeticOverflow); },
        };
        let floor = match quotient.narrow() {
            Some(q) => q,
            None => { return Err(ShortError::ArithmeticOverflow); },
        };
        if remainder.is_zero() {
            return Ok(FixedPoint { raw: floor });
        }
        match u256_checked_add(floor, Wide::from_u64(1)) {
            Some(raw) => Ok(FixedPoint { raw }),
            None => Err(ShortError::ArithmeticOverflow),
        }
    }

    /// `self` raised to the power `exponent`, or `ArithmeticOverflow` where
    /// the power cannot be computed or represented. The power of zero is
    /// one for every base, and every other power of zero is zero.
    pub fn pow(self, exponent: FixedPoint) -> (r: Result<FixedPoint, ShortError>)
        ensures
            outcome(r) == pow_result(pow_outcome(self@, exponent@)),
            exponent@ == 0 ==> outcome(r) == Ok::<nat, ShortError>(one()),
            exponent@ != 0 && self@ == 0 ==> outcome(r) == Ok::<nat, ShortError>(0nat),
    {
        match fixed_pow(self.raw, exponent.raw) {
            Some(raw) => Ok(FixedPoint { raw }),
            None => Err(ShortError::ArithmeticOverflow),
        }
    }

    /// The fixed-point product rounded down.
    pub fn mul_down(self, other: FixedPoint) -> (r: Result<FixedPoint, ShortError>)
        ensures
            outcome(r) == represented(mul_down(self@, other@)),
    {
        self.mul_div_down(other, FixedPoint::one())
    }

    /// The fixed-point product rounded up.
    pub fn mul_up(self, other: FixedPoint) -> (r: Result<FixedPoint, ShortError>)
        ensures
            outcome(r) == represented(mul_up(self@, other@)),
    {
        self.mul_div_up(other, FixedPoint::one())
    }

    /// The fixed-point quotient rounded down.
    pub fn div_down(self, other: FixedPoint) -> (r: Result<FixedPoint, ShortError>)
        requires
            other@ > 0,
        ensures
            outcome(r) == represented(div_down(self@, other@)),
    {
        self.mul_div_down(FixedPoint::one(), other)
    }

    /// The fixed-point quotient rounded up.
    pub fn div_up(self, other: FixedPoint) -> (r: Result<FixedPoint, ShortError>)
        requires
            other@ > 0,
        ensures
            outcome(r) == represented(div_up(self@, other@)),
    {
        self.mul_div_up(FixedPoint::one(), other)
    }
}

/// A power as the result of a computation: `ArithmeticOverflow` where there
/// is none.
pub open spec fn pow_result(power: Option<nat>) -> Result<nat, ShortError> {
    match power {
        Some(p) => Ok(p),
        None => Err(ShortError::ArithmeticOverflow),
    }
}

/// A number as the result of a computation: `ArithmeticOverflow` where it
/// does not fit in 256 bits.
pub open spec fn represented(x: nat) -> Result<nat, ShortError> {
    if x < wide_limit() {
        Ok(x)
    } else {
        Err(ShortError::ArithmeticOverflow)
    }
}

/// What a computation gave, with the number taken by its view.
pub open spec fn outcome(r: Result<FixedPoint, ShortError>) -> Result<nat, ShortError> {
    match r {
        Ok(v) => Ok(v@),
        Err(e) => Err(e),
    }
}

/// Two results with the same outcome are the same value, limb for limb: what
/// a function whose contract fixes the outcome returns depends on its
/// arguments alone.
pub proof fn lemma_outcome_determines_result(
    first: Result<FixedPoint, ShortError>,
    second: Result<FixedPoint, ShortError>,
)
    requires
        outcome(first) == outcome(second),
    ensures
        first == second,
{
    match (first, second) {
        (Ok(a), Ok(b)) => {
            lemma_wide_view_injective(a.raw, b.raw);
        },
        _ => {},
    }
}

/// One, and the square of one, fit in 256 bits.
pub proof fn lemma_one_fits()
    ensures
        one() < wide_limit(),
        one() * one() < wide_limit(),
{
    assert(one() * one() < wide_limit() && one() < wide_limit()) by (nonlinear_arith);
}

/// A quotient by a positive divisor is at most the dividend, also when it
/// is rounded up.
pub proof fn lemma_quotient_at_most_product(p: nat, d: nat)
    requires
        d > 0,
    ensures
        p / d <= p,
        p % d != 0 ==> p / d + 1 <= p,
{
    lemma_fundamental_div_mod(p as int, d as int);
    let q = p as int / d as int;
    assert(q <= d * q) by (nonlinear_arith)
        requires
            d >= 1,
            q >= 0,
    ;
}

/// Multiplying by one changes nothing, whichever way the product is rounded.
pub proof fn lemma_mul_by_one(a: nat)
    ensures
        mul_up(a, one()) == a,
        mul_down(a, one()) == a,
        mul_up(one(), a) == a,
        mul_down(one(), a) == a,
{
    vstd::arithmetic::div_mod::lemma_div_multiples_vanish(a as int, one() as int);
    vstd::arithmetic::div_mod::lemma_mod_multiples_basic(a as int, one() as int);
    assert(a * one() == one() * a) by (nonlinear_arith);
}

/// A product with zero is zero, whichever way it is rounded.
pub proof fn lemma_mul_by_zero(a: nat)
    ensures
        mul_up(a, 0) == 0,
        mul_down(a, 0) == 0,
        mul_up(0, a) == 0,
        mul_down(0, a) == 0,
{
    assert(a * 0 == 0 && 0 * a == 0) by (nonlinear_arith);
}

} // verus!
