//! Unsigned 256-bit integers held as four 64-bit limbs.
use vstd::prelude::*;

verus! {

/// An unsigned 256-bit integer, least significant limb first.
#[derive(Clone, Copy, Debug, PartialEq, Eq, Structural)]
pub struct Wide {
    pub l0: u64,
    pub l1: u64,
    pub l2: u64,
    pub l3: u64,
}

/// The first natural number that no `Wide` can hold: two to the power 256.
pub open spec fn wide_limit() -> nat {
    0x1_0000_0000_0000_0000nat * 0x1_0000_0000_0000_0000nat * 0x1_0000_0000_0000_0000nat
        * 0x1_0000_0000_0000_0000nat
}

impl View for Wide {
    type V = nat;

    open spec fn view(&self) -> nat {
        (self.l0 + 0x1_0000_0000_0000_0000 * (self.l1 + 0x1_0000_0000_0000_0000 * (self.l2
            + 0x1_0000_0000_0000_0000 * self.l3))) as nat
    }
}

/// An unsigned 512-bit integer, least significant limb first: what the
/// product of two `Wide` values needs.
#[derive(Clone, Copy, Debug)]
pub struct Wide512 {
    pub limbs: [u64; 8],
}

impl View for Wide512 {
    type V = nat;

    open spec fn view(&self) -> nat {
        (self.limbs[0] + 0x1_0000_0000_0000_0000 * (self.limbs[1] + 0x1_0000_0000_0000_0000 * (
        self.limbs[2] + 0x1_0000_0000_0000_0000 * (self.limbs[3] + 0x1_0000_0000_0000_0000 * (
        self.limbs[4] + 0x1_0000_0000_0000_0000 * (self.limbs[5] + 0x1_0000_0000_0000_0000 * (
        self.limbs[6] + 0x1_0000_0000_0000_0000 * self.limbs[7]))))))) as nat
    }
}

impl Wide512 {
    /// The same number in 256 bits, and `None` where it does not fit.
    pub fn narrow(&self) -> (r: Option<Wide>)
        ensures
            r.is_some() <==> self@ < wide_limit(),
            r.is_some() ==> r.unwrap()@ == self@,
    {
        let low = Wide { l0: self.limbs[0], l1: self.limbs[1], l2: self.limbs[2], l3: self.limbs[3] };
        let ghost high = self.limbs[4] + 0x1_0000_0000_0000_0000 * (self.limbs[5]
            + 0x1_0000_0000_0000_0000 * (self.limbs[6] + 0x1_0000_0000_0000_0000 * self.limbs[7]));
        assert(wide_limit() * high == 0x1_0000_0000_0000_0000 * (0x1_0000_0000_0000_0000 * (
        0x1_0000_0000_0000_0000 * (0x1_0000_0000_0000_0000 * high)))) by (nonlinear_arith)
            requires
                wide_limit() == 0x1_0000_0000_0000_0000nat * 0x1_0000_0000_0000_0000nat
                    * 0x1_0000_0000_0000_0000nat * 0x1_0000_0000_0000_0000nat,
        ;
        assert(self@ == low@ + wide_limit() * high);
        if self.limbs[4] == 0 && self.limbs[5] == 0 && self.limbs[6] == 0 && self.limbs[7] == 0 {
            Some(low)
        } else {
            assert(high >= 1);
            assert(wide_limit() * high >= wide_limit()) by (nonlinear_arith)
                requires
                    high >= 1,
            ;
            None
        }
    }

    /// Whether this integer is zero.
    pub fn is_zero(&self) -> (r: bool)
        ensures
            r == (self@ == 0),
    {
        self.limbs[0] == 0 && self.limbs[1] == 0 && self.limbs[2] == 0 && self.limbs[3] == 0
            && self.limbs[4] == 0 && self.limbs[5] == 0 && self.limbs[6] == 0 && self.limbs[7]
            == 0
    }
}

impl Wide {
    /// The same number in 512 bits.
    pub fn widen(&self) -> (r: Wide512)
        ensures
            r@ == self@,
    {
        Wide512 { limbs: [self.l0, self.l1, self.l2, self.l3, 0, 0, 0, 0] }
    }

    /// The integer `v`.
    pub fn from_u64(v: u64) -> (r: Wide)
        ensures
            r@ == v,
    {
        Wide { l0: v, l1: 0, l2: 0, l3: 0 }
    }

    /// Whether this integer is zero.
    pub fn is_zero(&self) -> (r: bool)
        ensures
            r == (self@ == 0),
    {
        self.l0 == 0 && self.l1 == 0 && self.l2 == 0 && self.l3 == 0
    }
}

/// Whether `c` is one of the ten decimal digits.
pub open spec fn is_digit(c: char) -> bool {
    0x30 <= c as int <= 0x39
}

/// Whether every character of `s` is a decimal digit.
pub open spec fn is_decimal(s: Seq<char>) -> bool {
    forall|i: int| 0 <= i < s.len() ==> is_digit(#[trigger] s[i])
}

/// The number that the decimal digits `s` write, most significant digit
/// first.
pub open spec fn dec_value(s: Seq<char>) -> nat
    decreases s.len(),
{
    if s.len() == 0 {
        0
    } else {
        (dec_value(s.drop_last()) * 10 + (s.last() as int - 0x30)) as nat
    }
}

/// Whether `s` is the decimal text of a number that fits in 256 bits: at
/// least one digit, nothing but digits.
pub open spec fn readable(s: Seq<char>) -> bool {
    s.len() >= 1 && is_decimal(s) && dec_value(s) < wide_limit()
}

/// Whether `s` is the shortest decimal text of its number: at least one
/// digit, and no leading zero before another digit.
pub open spec fn is_canonical_decimal(s: Seq<char>) -> bool {
    &&& is_decimal(s)
    &&& s.len() >= 1
    &&& (s.len() > 1 ==> s[0] != '0')
}

/// `U256::checked_add` of the `uint` crate, as `ethers` hands it on: the sum,
/// or `None` where the sum does not fit in 256 bits.
#[verifier::external_body]
pub(crate) fn u256_checked_add(a: Wide, b: Wide) -> (r: Option<Wide>)
    ensures
        r.is_some() <==> a@ + b@ < wide_limit(),
        r.is_some() ==> r.unwrap()@ == a@ + b@,
{
    let x = ethers::types::U256([a.l0, a.l1, a.l2, a.l3]);
    let y = ethers::types::U256([b.l0, b.l1, b.l2, b.l3]);
    match x.checked_add(y) {
        Some(v) => Some(Wide { l0: v.0[0], l1: v.0[1], l2: v.0[2], l3: v.0[3] }),
        None => None,
    }
}

/// `U256::checked_sub`: the difference, or `None` where `b` exceeds `a`.
#[verifier::external_body]
pub(crate) fn u256_checked_sub(a: Wide, b: Wide) -> (r: Option<Wide>)
    ensures
        r.is_some() <==> b@ <= a@,
        r.is_some() ==> r.unwrap()@ == a@ - b@,
{
    let x = ethers::types::U256([a.l0, a.l1, a.l2, a.l3]);
    let y = ethers::types::U256([b.l0, b.l1, b.l2, b.l3]);
    match x.checked_sub(y) {
        Some(v) => Some(Wide { l0: v.0[0], l1: v.0[1], l2: v.0[2], l3: v.0[3] }),
        None => None,
    }
}

/// `U256::full_mul` of the `primitive-types` crate, as `ethers` hands it on:
/// the whole product of two 256-bit integers, in 512 bits.
#[verifier::external_body]
pub(crate) fn u256_full_mul(a: Wide, b: Wide) -> (r: Wide512)
    ensures
        r@ == a@ * b@,
{
    let x = ethers::types::U256([a.l0, a.l1, a.l2, a.l3]);
    let y = ethers::types::U256([b.l0, b.l1, b.l2, b.l3]);
    Wide512 { limbs: x.full_mul(y).0 }
}

/// `U512::checked_div`: the quotient rounded down, or `None` where the
/// divisor is zero.
#[verifier::external_body]
pub(crate) fn u512_checked_div(a: Wide512, b: Wide512) -> (r: Option<Wide512>)
    ensures
        r.is_some() <==> b@ != 0,
        r.is_some() ==> r.unwrap()@ == a@ / b@,
{
    match ethers::types::U512(a.limbs).checked_div(ethers::types::U512(b.limbs)) {
        Some(v) => Some(Wide512 { limbs: v.0 }),
        None => None,
    }
}

/// `U512::checked_rem`: the remainder of the division, or `None` where the
/// divisor is zero.
#[verifier::external_body]
pub(crate) fn u512_checked_rem(a: Wide512, b: Wide512) -> (r: Option<Wide512>)
    ensures
        r.is_some() <==> b@ != 0,
        r.is_some() ==> r.unwrap()@ == a@ % b@,
{
    match ethers::types::U512(a.limbs).checked_rem(ethers::types::U512(b.limbs)) {
        Some(v) => Some(Wide512 { limbs: v.0 }),
        None => None,
    }
}

/// What `FixedPoint::<U256>::pow` of the `fixedpointmath` crate gives for a
/// base and an exponent, both scaled integers with 18 decimals: the scaled
/// power, or `None` where it reports a failure.
pub uninterp spec fn pow_outcome(base: nat, exponent: nat) -> Option<nat>;

/// `FixedPoint::<U256>::pow`: the base raised to the exponent, computed as
/// the exponential of the exponent times the logarithm of the base. The
/// result is a function of the two arguments alone, and `None` stands for
/// each failure that it reports (an argument above the signed range, an
/// exponential too large to represent). Two cases are decided before any
/// logarithm is taken: an exponent of zero gives one, and otherwise a base
/// of zero gives zero.
#[verifier::external_body]
pub(crate) fn fixed_pow(base: Wide, exponent: Wide) -> (r: Option<Wide>)
    ensures
        match r {
            Some(v) => pow_outcome(base@, exponent@) == Some(v@),
            None => pow_outcome(base@, exponent@).is_none(),
        },
        exponent@ == 0 ==> r.is_some() && r.unwrap()@ == 1_000_000_000_000_000_000,
        exponent@ != 0 && base@ == 0 ==> r.is_some() && r.unwrap()@ == 0,
{
    let x = fixedpointmath::FixedPoint::from(ethers::types::U256([base.l0, base.l1, base.l2, base.l3]));
    let y = fixedpointmath::FixedPoint::from(ethers::types::U256([exponent.l0, exponent.l1, exponent.l2, exponent.l3]));
    match x.pow(y) {
        Ok(p) => {
            let v = p.raw();
            Some(Wide { l0: v.0[0], l1: v.0[1], l2: v.0[2], l3: v.0[3] })
        },
        Err(_) => None,
    }
}

/// The error of `U256::from_dec_str`, carried through unread.
#[verifier::external_type_specification]
#[verifier::external_body]
pub struct ExFromDecStrErr(ethers::abi::ethereum_types::FromDecStrErr);

/// `U256::from_dec_str`: reads the text digit by digit. It succeeds exactly
/// where every character is a decimal digit and the number fits in 256 bits,
/// and then returns that number; the empty text reads as zero.
#[verifier::external_body]
pub(crate) fn u256_from_dec_str(s: &str) -> (r: Result<Wide, ethers::abi::ethereum_types::FromDecStrErr>)
    ensures
        r.is_ok() <==> (is_decimal(s@) && dec_value(s@) < wide_limit()),
        r.is_ok() ==> r.unwrap()@ == dec_value(s@),
{
    match ethers::types::U256::from_dec_str(s) {
        Ok(v) => Ok(Wide { l0: v.0[0], l1: v.0[1], l2: v.0[2], l3: v.0[3] }),
        Err(e) => Err(e),
    }
}

/// `Display` of `U256`, through `to_string`: the decimal digits of the
/// number without leading zeros, and the single digit `0` for zero.
#[verifier::external_body]
pub(crate) fn u256_to_string(a: Wide) -> (r: String)
    ensures
        is_canonical_decimal(r@),
        dec_value(r@) == a@,
{
    ethers::types::U256([a.l0, a.l1, a.l2, a.l3]).to_string()
}

/// Ten to the power `n`.
pub open spec fn pow10(n: nat) -> nat
    decreases n,
{
    if n == 0 {
        1
    } else {
        10 * pow10((n - 1) as nat)
    }
}

/// A larger exponent gives no smaller power of ten.
pub proof fn lemma_pow10_monotonic(a: nat, b: nat)
    requires
        a <= b,
    ensures
        pow10(a) <= pow10(b),
        pow10(a) >= 1,
    decreases b,
{
    if b > 0 {
        if a < b {
            lemma_pow10_monotonic(a, (b - 1) as nat);
        } else {
            lemma_pow10_monotonic((a - 1) as nat, (b - 1) as nat);
        }
    }
}

/// All but the last character of a decimal text are a decimal text.
proof fn lemma_decimal_without_last(s: Seq<char>)
    requires
        is_decimal(s),
        s.len() >= 1,
    ensures
        is_decimal(s.drop_last()),
        is_digit(s.last()),
{
    let rest = s.drop_last();
    assert forall|i: int| 0 <= i < rest.len() implies is_digit(#[trigger] rest[i]) by {
        assert(rest[i] == s[i]);
    }
}

/// The number of a decimal text lies below ten to the power of its length,
/// and not below the power before that where its first digit is not zero.
pub proof fn lemma_dec_value_bounds(s: Seq<char>)
    requires
        is_decimal(s),
    ensures
        dec_value(s) < pow10(s.len()),
        s.len() >= 1 && s[0] != '0' ==> dec_value(s) >= pow10((s.len() - 1) as nat),
    decreases s.len(),
{
    if s.len() >= 1 {
        let rest = s.drop_last();
        lemma_decimal_without_last(s);
        lemma_dec_value_bounds(rest);
        if s.len() >= 2 {
            assert(rest[0] == s[0]);
        } else {
            assert(s.last() == s[0]);
        }
    }
}

/// Two decimal texts of one length that write one number are the same text.
proof fn lemma_same_length_decimal_unique(s: Seq<char>, t: Seq<char>)
    requires
        is_decimal(s),
        is_decimal(t),
        s.len() == t.len(),
        dec_value(s) == dec_value(t),
    ensures
        s == t,
    decreases s.len(),
{
    if s.len() >= 1 {
        lemma_decimal_without_last(s);
        lemma_decimal_without_last(t);
        lemma_same_length_decimal_unique(s.drop_last(), t.drop_last());
        assert(s.last() == t.last());
        assert(s =~= s.drop_last().push(s.last()));
        assert(t =~= t.drop_last().push(t.last()));
    } else {
        assert(s =~= t);
    }
}

/// Two shortest decimal texts of one number are the same text, character
/// for character; the shortest text of zero is the single digit `0`.
pub proof fn lemma_canonical_decimal_unique(s: Seq<char>, t: Seq<char>)
    requires
        is_canonical_decimal(s),
        is_canonical_decimal(t),
        dec_value(s) == dec_value(t),
    ensures
        s == t,
        dec_value(s) == 0 ==> s == seq!['0'],
{
    lemma_dec_value_bounds(s);
    lemma_dec_value_bounds(t);
    if s.len() < t.len() {
        lemma_pow10_monotonic(s.len(), (t.len() - 1) as nat);
    } else if t.len() < s.len() {
        lemma_pow10_monotonic(t.len(), (s.len() - 1) as nat);
    } else {
        lemma_same_length_decimal_unique(s, t);
    }
    if dec_value(s) == 0 {
        if s.len() >= 2 {
            lemma_pow10_monotonic(0, (s.len() - 1) as nat);
        }
        assert(s.len() == 1);
        assert(s.drop_last().len() == 0);
        assert(s =~= seq!['0']);
    }
}

/// Two `Wide` values that stand for the same number have the same limbs.
pub proof fn lemma_wide_view_injective(a: Wide, b: Wide)
    requires
        a@ == b@,
    ensures
        a == b,
{
    let ha = a.l1 + 0x1_0000_0000_0000_0000 * (a.l2 + 0x1_0000_0000_0000_0000 * a.l3);
    let hb = b.l1 + 0x1_0000_0000_0000_0000 * (b.l2 + 0x1_0000_0000_0000_0000 * b.l3);
    assert(a.l0 == b.l0 && ha == hb);
    let ga = a.l2 + 0x1_0000_0000_0000_0000 * a.l3;
    let gb = b.l2 + 0x1_0000_0000_0000_0000 * b.l3;
    assert(a.l1 == b.l1 && ga == gb);
    assert(a.l2 == b.l2 && a.l3 == b.l3);
}

} // verus!
