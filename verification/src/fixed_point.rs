//! Signed fixed-point numbers with 80 integer bits and 48 fractional bits.
//!
//! A [`Fixed`] holds the raw two's complement bits of the number: the value
//! it stands for is `bits / 2^48`. Arithmetic is carried out by the `fixed`
//! crate's `I80F48`; the contracts below say exactly what each operation
//! returns in terms of the bits.
use vstd::prelude::*;
use fixed::types::I80F48;

verus! {

/// The number of raw units in one whole unit (`2^48`).
pub const FRAC_SCALE: i128 = 0x1_0000_0000_0000i128;

/// `2^48` as a mathematical integer.
pub open spec fn scale() -> int {
    0x1_0000_0000_0000int
}

/// Whether a mathematical integer can be held in the raw bits.
pub open spec fn fits(x: int) -> bool {
    i128::MIN <= x <= i128::MAX
}

/// Division rounding towards zero.
pub open spec fn trunc_div(n: int, d: int) -> int {
    if n >= 0 {
        if d > 0 { n / d } else { -(n / (-d)) }
    } else {
        if d > 0 { -((-n) / d) } else { (-n) / (-d) }
    }
}

/// Raw bits of a product: the exact product of the two numbers, rounded
/// towards negative infinity.
pub open spec fn mul_bits(a: int, b: int) -> int {
    (a * b) / scale()
}

/// Raw bits of a quotient: the exact quotient of the two numbers, rounded
/// towards zero.
pub open spec fn div_bits(a: int, b: int) -> int {
    trunc_div(a * scale(), b)
}

/// Raw bits of the integer `n`.
pub open spec fn int_bits(n: int) -> int {
    n * scale()
}

/// The integer part of a number, rounded towards negative infinity.
pub open spec fn floor_int(bits: int) -> int {
    bits / scale()
}

/// Raw bits of a checked sum: `None` when it does not fit.
pub open spec fn add_opt(a: Option<int>, b: Option<int>) -> Option<int> {
    match (a, b) {
        (Some(x), Some(y)) => if fits(x + y) { Some(x + y) } else { None },
        _ => None,
    }
}

/// Raw bits of a checked difference: `None` when it does not fit.
pub open spec fn sub_opt(a: Option<int>, b: Option<int>) -> Option<int> {
    match (a, b) {
        (Some(x), Some(y)) => if fits(x - y) { Some(x - y) } else { None },
        _ => None,
    }
}

/// Raw bits of a checked product: `None` when it does not fit.
pub open spec fn mul_opt(a: Option<int>, b: Option<int>) -> Option<int> {
    match (a, b) {
        (Some(x), Some(y)) => if fits(mul_bits(x, y)) { Some(mul_bits(x, y)) } else { None },
        _ => None,
    }
}

/// Raw bits of a checked quotient: `None` when the divisor is zero or the
/// quotient does not fit.
pub open spec fn div_opt(a: Option<int>, b: Option<int>) -> Option<int> {
    match (a, b) {
        (Some(x), Some(y)) => if y != 0 && fits(div_bits(x, y)) {
            Some(div_bits(x, y))
        } else {
            None
        },
        _ => None,
    }
}

/// The smaller of two raw values (the first when they are equal).
pub open spec fn min_bits(a: int, b: int) -> int {
    if b < a { b } else { a }
}

/// A product's raw bits grow with the first factor when the second is not
/// negative.
pub proof fn lemma_mul_bits_monotone(a1: int, a2: int, b: int)
    requires
        a1 <= a2,
        0 <= b,
    ensures
        mul_bits(a1, b) <= mul_bits(a2, b),
{
    assert(a1 * b <= a2 * b) by (nonlinear_arith)
        requires
            a1 <= a2,
            0 <= b,
    ;
    vstd::arithmetic::div_mod::lemma_div_is_ordered(a1 * b, a2 * b, scale());
}

/// A quotient's raw bits grow with the dividend when the divisor is
/// positive.
pub proof fn lemma_div_bits_monotone(a1: int, a2: int, b: int)
    requires
        a1 <= a2,
        0 < b,
    ensures
        div_bits(a1, b) <= div_bits(a2, b),
{
    let n1 = a1 * scale();
    let n2 = a2 * scale();
    assert(n1 <= n2) by (nonlinear_arith)
        requires
            a1 <= a2,
            n1 == a1 * scale(),
            n2 == a2 * scale(),
    ;
    if n1 >= 0 {
        vstd::arithmetic::div_mod::lemma_div_is_ordered(n1, n2, b);
    } else if n2 >= 0 {
        vstd::arithmetic::div_mod::lemma_div_is_ordered(0, -n1, b);
        vstd::arithmetic::div_mod::lemma_div_is_ordered(0, n2, b);
        assert(0int / b == 0) by (nonlinear_arith)
            requires
                0 < b,
        ;
    } else {
        vstd::arithmetic::div_mod::lemma_div_is_ordered(-n2, -n1, b);
    }
}

/// Name for the result of `I80F48::from_str` on a decimal string: the raw
/// bits of the number, or the text of the parse error.
pub uninterp spec fn parsed_fixed(s: Seq<char>) -> Result<i128, Seq<char>>;

/// A signed fixed-point number with 48 fractional bits, held as its raw bits.
#[derive(Clone, Copy, Debug, PartialEq, Eq, Structural)]
pub struct Fixed {
    pub bits: i128,
}

/// Calls `I80F48::checked_add`, which returns the sum of the raw bits, or
/// `None` when it does not fit.
#[verifier::external_body]
fn fixed_checked_add(a: i128, b: i128) -> (r: Option<i128>)
    ensures
        r == (if fits(a + b) { Some((a + b) as i128) } else { None::<i128> }),
{
    match I80F48::from_bits(a).checked_add(I80F48::from_bits(b)) {
        Some(x) => Some(x.to_bits()),
        None => None,
    }
}

/// Calls `I80F48::checked_sub`, which returns the difference of the raw
/// bits, or `None` when it does not fit.
#[verifier::external_body]
fn fixed_checked_sub(a: i128, b: i128) -> (r: Option<i128>)
    ensures
        r == (if fits(a - b) { Some((a - b) as i128) } else { None::<i128> }),
{
    match I80F48::from_bits(a).checked_sub(I80F48::from_bits(b)) {
        Some(x) => Some(x.to_bits()),
        None => None,
    }
}

/// Calls `I80F48::checked_mul`: the 256-bit product of the raw bits is
/// shifted right by 48 bits (rounding towards negative infinity); `None`
/// when the result does not fit.
#[verifier::external_body]
fn fixed_checked_mul(a: i128, b: i128) -> (r: Option<i128>)
    ensures
        r == (if fits(mul_bits(a as int, b as int)) {
            Some(mul_bits(a as int, b as int) as i128)
        } else {
            None::<i128>
        }),
{
    match I80F48::from_bits(a).checked_mul(I80F48::from_bits(b)) {
        Some(x) => Some(x.to_bits()),
        None => None,
    }
}

/// Calls `I80F48::checked_div`: the dividend's raw bits are widened and
/// shifted left by 48 bits, then divided by the divisor's raw bits with
/// rounding towards zero; `None` when the divisor is zero or the result
/// does not fit.
#[verifier::external_body]
fn fixed_checked_div(a: i128, b: i128) -> (r: Option<i128>)
    ensures
        r == (if b != 0 && fits(div_bits(a as int, b as int)) {
            Some(div_bits(a as int, b as int) as i128)
        } else {
            None::<i128>
        }),
{
    match I80F48::from_bits(a).checked_div(I80F48::from_bits(b)) {
        Some(x) => Some(x.to_bits()),
        None => None,
    }
}

/// Calls `I80F48::from_num` on a `usize`, which shifts the integer left by
/// 48 bits; every `usize` fits.
#[verifier::external_body]
fn fixed_from_usize(n: usize) -> (r: i128)
    ensures
        r == int_bits(n as int),
{
    I80F48::from_num(n).to_bits()
}

/// Calls `I80F48::from` on a `u64`, a lossless conversion that shifts the
/// integer left by 48 bits.
#[verifier::external_body]
fn fixed_from_u64(n: u64) -> (r: i128)
    ensures
        r == int_bits(n as int),
{
    I80F48::from(n).to_bits()
}

/// Calls `I80F48::checked_to_num::<u64>`, which discards the fractional
/// bits (rounding towards negative infinity) and returns `None` when the
/// integer does not fit in a `u64`.
#[verifier::external_body]
fn fixed_checked_to_u64(a: i128) -> (r: Option<u64>)
    ensures
        r == (if 0 <= floor_int(a as int) <= u64::MAX {
            Some(floor_int(a as int) as u64)
        } else {
            None::<u64>
        }),
{
    I80F48::from_bits(a).checked_to_num::<u64>()
}

/// Calls `I80F48::from_str`; its result (the raw bits, or the text of the
/// parse error) is named, not described.
#[verifier::external_body]
fn fixed_from_str(s: &str) -> (r: Result<i128, String>)
    ensures
        parsed_fixed(s@) == (match r {
            Ok(v) => Ok::<i128, Seq<char>>(v),
            Err(e) => Err::<i128, Seq<char>>(e@),
        }),
{
    match <I80F48 as core::str::FromStr>::from_str(s) {
        Ok(x) => Ok(x.to_bits()),
        Err(e) => Err(e.to_string()),
    }
}

impl Fixed {
    /// The number's raw bits as a mathematical integer.
    pub open spec fn val(self) -> int {
        self.bits as int
    }

    /// Wraps raw bits.
    pub fn from_bits(bits: i128) -> (r: Fixed)
        ensures
            r.bits == bits,
    {
        Fixed { bits }
    }

    /// Zero.
    pub fn zero() -> (r: Fixed)
        ensures
            r.val() == 0,
    {
        Fixed { bits: 0 }
    }

    /// One.
    pub fn one() -> (r: Fixed)
        ensures
            r.val() == scale(),
    {
        Fixed { bits: FRAC_SCALE }
    }

    /// The number that stands for the integer `n`.
    pub fn from_usize(n: usize) -> (r: Fixed)
        ensures
            r.val() == int_bits(n as int),
    {
        Fixed { bits: fixed_from_usize(n) }
    }

    /// The number that stands for the integer `n`.
    pub fn from_u64(n: u64) -> (r: Fixed)
        ensures
            r.val() == int_bits(n as int),
    {
        Fixed { bits: fixed_from_u64(n) }
    }

    /// Parses a decimal number, or gives the text of the parse error.
    pub fn parse(s: &str) -> (r: Result<Fixed, String>)
        ensures
            r matches Ok(x) ==> parsed_fixed(s@) == Ok::<i128, Seq<char>>(x.bits),
            r matches Err(e) ==> parsed_fixed(s@) == Err::<i128, Seq<char>>(e@),
    {
        match fixed_from_str(s) {
            Ok(b) => Ok(Fixed { bits: b }),
            Err(e) => Err(e),
        }
    }

    /// The integer part (rounded towards negative infinity) as a `u64`, or
    /// `None` when it does not fit.
    pub fn checked_to_u64(self) -> (r: Option<u64>)
        ensures
            r == (if 0 <= floor_int(self.val()) <= u64::MAX {
                Some(floor_int(self.val()) as u64)
            } else {
                None::<u64>
            }),
    {
        fixed_checked_to_u64(self.bits)
    }

    /// Sum, or `None` on overflow.
    pub fn checked_add(self, rhs: Fixed) -> (r: Option<Fixed>)
        ensures
            r == (if fits(self.val() + rhs.val()) {
                Some(Fixed { bits: (self.val() + rhs.val()) as i128 })
            } else {
                None::<Fixed>
            }),
    {
        match fixed_checked_add(self.bits, rhs.bits) {
            Some(b) => Some(Fixed { bits: b }),
            None => None,
        }
    }

    /// Difference, or `None` on overflow.
    pub fn checked_sub(self, rhs: Fixed) -> (r: Option<Fixed>)
        ensures
            r == (if fits(self.val() - rhs.val()) {
                Some(Fixed { bits: (self.val() - rhs.val()) as i128 })
            } else {
                None::<Fixed>
            }),
    {
        match fixed_checked_sub(self.bits, rhs.bits) {
            Some(b) => Some(Fixed { bits: b }),
            None => None,
        }
    }

    /// Product rounded towards negative infinity, or `None` on overflow.
    pub fn checked_mul(self, rhs: Fixed) -> (r: Option<Fixed>)
        ensures
            r == (if fits(mul_bits(self.val(), rhs.val())) {
                Some(Fixed { bits: mul_bits(self.val(), rhs.val()) as i128 })
            } else {
                None::<Fixed>
            }),
    {
        match fixed_checked_mul(self.bits, rhs.bits) {
            Some(b) => Some(Fixed { bits: b }),
            None => None,
        }
    }

    /// Quotient rounded towards zero, or `None` when the divisor is zero or
    /// on overflow.
    pub fn checked_div(self, rhs: Fixed) -> (r: Option<Fixed>)
        ensures
            r == (if rhs.val() != 0 && fits(div_bits(self.val(), rhs.val())) {
                Some(Fixed { bits: div_bits(self.val(), rhs.val()) as i128 })
            } else {
                None::<Fixed>
            }),
    {
        match fixed_checked_div(self.bits, rhs.bits) {
            Some(b) => Some(Fixed { bits: b }),
            None => None,
        }
    }

    /// Sum of two numbers whose sum fits.
    pub fn add(self, rhs: Fixed) -> (r: Fixed)
        requires
            fits(self.val() + rhs.val()),
        ensures
            r.val() == self.val() + rhs.val(),
    {
        self.checked_add(rhs).unwrap()
    }

    /// Difference of two numbers whose difference fits.
    pub fn sub(self, rhs: Fixed) -> (r: Fixed)
        requires
            fits(self.val() - rhs.val()),
        ensures
            r.val() == self.val() - rhs.val(),
    {
        self.checked_sub(rhs).unwrap()
    }

    /// Product of two numbers whose product fits.
    pub fn mul(self, rhs: Fixed) -> (r: Fixed)
        requires
            fits(mul_bits(self.val(), rhs.val())),
        ensures
            r.val() == mul_bits(self.val(), rhs.val()),
    {
        self.checked_mul(rhs).unwrap()
    }

    /// Quotient by a nonzero number, where the quotient fits.
    pub fn div(self, rhs: Fixed) -> (r: Fixed)
        requires
            rhs.val() != 0,
            fits(div_bits(self.val(), rhs.val())),
        ensures
            r.val() == div_bits(self.val(), rhs.val()),
    {
        self.checked_div(rhs).unwrap()
    }

    /// Absolute value of a number other than the most negative one.
    pub fn abs(self) -> (r: Fixed)
        requires
            self.bits != i128::MIN,
        ensures
            r.val() == (if self.val() < 0 { -self.val() } else { self.val() }),
    {
        if self.bits < 0 {
            Fixed { bits: -self.bits }
        } else {
            self
        }
    }

    /// The smaller of two numbers.
    pub fn min(self, other: Fixed) -> (r: Fixed)
        ensures
            r.val() == (if other.val() < self.val() { other.val() } else { self.val() }),
    {
        if other.bits < self.bits {
            other
        } else {
            self
        }
    }

    /// Whether the number is below zero.
    pub fn is_negative(self) -> (r: bool)
        ensures
            r == (self.val() < 0),
    {
        self.bits < 0
    }

    /// Whether the number is above zero.
    pub fn is_positive(self) -> (r: bool)
        ensures
            r == (self.val() > 0),
    {
        self.bits > 0
    }

    /// Whether the number is zero.
    pub fn is_zero(self) -> (r: bool)
        ensures
            r == (self.val() == 0),
    {
        self.bits == 0
    }

    /// `self < other`.
    pub fn lt(self, other: Fixed) -> (r: bool)
        ensures
            r == (self.val() < other.val()),
    {
        self.bits < other.bits
    }

    /// `self <= other`.
    pub fn le(self, other: Fixed) -> (r: bool)
        ensures
            r == (self.val() <= other.val()),
    {
        self.bits <= other.bits
    }

    /// `self == other`.
    pub fn eq(self, other: Fixed) -> (r: bool)
        ensures
            r == (self.val() == other.val()),
    {
        self.bits == other.bits
    }
}

} // verus!
