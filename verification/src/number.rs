use vstd::prelude::*;
use vstd::arithmetic::power::pow;
use vstd::std_specs::cmp::PartialEqSpecImpl;
use rust_decimal::Decimal;
use std::str::FromStr;

verus! {

/// A decimal number as mathematics sees it: `mantissa / 10^scale`.
pub struct Dec {
    pub mantissa: int,
    pub scale: nat,
}

/// One more than the largest magnitude a mantissa can have: 2^96.
pub open spec fn mantissa_bound() -> int {
    0x1_0000_0000_0000_0000_0000_0000
}

/// The largest scale a number can have.
pub open spec fn max_scale() -> nat {
    28
}

/// The decimals that a [`Number`] can hold.
pub open spec fn dec_wf(d: Dec) -> bool {
    &&& -mantissa_bound() < d.mantissa < mantissa_bound()
    &&& d.scale <= max_scale()
}

/// `a` and `b` brought to a common scale, as a pair of integers whose order
/// and equality are those of the two numbers.
pub open spec fn dec_aligned(a: Dec, b: Dec) -> (int, int) {
    (a.mantissa * pow(10, b.scale), b.mantissa * pow(10, a.scale))
}

/// Numeric equality: `1.0` equals `1.00`.
pub open spec fn dec_eq(a: Dec, b: Dec) -> bool {
    dec_aligned(a, b).0 == dec_aligned(a, b).1
}

/// Numeric strict order.
pub open spec fn dec_lt(a: Dec, b: Dec) -> bool {
    dec_aligned(a, b).0 < dec_aligned(a, b).1
}

/// What `Decimal::from_str` makes of a text, or `None` where it rejects it.
pub uninterp spec fn decimal_parse(text: Seq<char>) -> Option<Dec>;

/// The text that `Decimal`'s `to_string` gives for a number.
pub uninterp spec fn decimal_text(d: Dec) -> Seq<char>;

/// What `Decimal::checked_add` returns.
pub uninterp spec fn decimal_sum(a: Dec, b: Dec) -> Option<Dec>;

/// What `Decimal::checked_sub` returns.
pub uninterp spec fn decimal_difference(a: Dec, b: Dec) -> Option<Dec>;

/// What `Decimal::checked_mul` returns.
pub uninterp spec fn decimal_product(a: Dec, b: Dec) -> Option<Dec>;

/// What `Decimal::checked_div` returns.
pub uninterp spec fn decimal_quotient(a: Dec, b: Dec) -> Option<Dec>;

/// What `Decimal::checked_rem` returns.
pub uninterp spec fn decimal_remainder(a: Dec, b: Dec) -> Option<Dec>;

/// An exact decimal number: a signed 96-bit mantissa and a scale of at most 28.
#[derive(Debug, Clone, Copy)]
pub struct Number {
    mantissa: i128,
    scale: u32,
}

impl View for Number {
    type V = Dec;

    closed spec fn view(&self) -> Dec {
        Dec { mantissa: self.mantissa as int, scale: self.scale as nat }
    }
}

/// The view of an optional number.
pub open spec fn option_dec(n: Option<Number>) -> Option<Dec> {
    match n {
        Some(n) => Some(n@),
        None => None,
    }
}

/// The number that stands for an integer.
pub open spec fn dec_of_int(n: int) -> Dec {
    Dec { mantissa: n, scale: 0 }
}

/// The integer that a number stands for where it is written without a
/// fraction and fits in 64 bits.
pub open spec fn dec_to_i64(d: Dec) -> Option<i64> {
    if d.scale == 0 && i64::MIN <= d.mantissa <= i64::MAX {
        Some(d.mantissa as i64)
    } else {
        None
    }
}

/// The number with the opposite sign.
pub open spec fn dec_neg(d: Dec) -> Dec {
    Dec { mantissa: -d.mantissa, scale: d.scale }
}

impl Number {
    #[verifier::type_invariant]
    spec fn inv(self) -> bool {
        dec_wf(self@)
    }

    /// The number `mantissa / 10^scale`, or `None` where the mantissa needs
    /// more than 96 bits or the scale is over 28.
    pub fn new(mantissa: i128, scale: u32) -> (r: Option<Number>)
        ensures
            r is Some <==> dec_wf(Dec { mantissa: mantissa as int, scale: scale as nat }),
            r matches Some(n) ==> n@ == (Dec { mantissa: mantissa as int, scale: scale as nat }),
    {
        if scale <= 28 && -0x1_0000_0000_0000_0000_0000_0000 < mantissa && mantissa
            < 0x1_0000_0000_0000_0000_0000_0000 {
            Some(Number { mantissa, scale })
        } else {
            None
        }
    }

    /// The number that stands for a 64-bit integer.
    pub fn from_i64(n: i64) -> (r: Number)
        ensures
            r@ == dec_of_int(n as int),
    {
        Number { mantissa: n as i128, scale: 0 }
    }

    pub fn zero() -> (r: Number)
        ensures
            r@ == dec_of_int(0),
    {
        Number { mantissa: 0, scale: 0 }
    }

    pub fn one() -> (r: Number)
        ensures
            r@ == dec_of_int(1),
    {
        Number { mantissa: 1, scale: 0 }
    }

    pub fn mantissa(&self) -> (m: i128)
        ensures
            m == self@.mantissa,
    {
        self.mantissa
    }

    pub fn scale(&self) -> (s: u32)
        ensures
            s == self@.scale,
    {
        self.scale
    }

    pub fn is_zero(&self) -> (z: bool)
        ensures
            z == (self@.mantissa == 0),
    {
        self.mantissa == 0
    }

    /// The number with the opposite sign.
    pub fn neg(&self) -> (r: Number)
        ensures
            r@ == dec_neg(self@),
    {
        proof {
            use_type_invariant(self);
        }
        Number { mantissa: -self.mantissa, scale: self.scale }
    }

    /// The integer this number stands for, where it is written without a
    /// fraction and fits in 64 bits.
    pub fn to_i64(&self) -> (r: Option<i64>)
        ensures
            r == dec_to_i64(self@),
    {
        if self.scale == 0 && -0x8000_0000_0000_0000 <= self.mantissa && self.mantissa
            <= 0x7fff_ffff_ffff_ffff {
            Some(self.mantissa as i64)
        } else {
            None
        }
    }

    /// Reads a number from its text.
    pub fn parse(text: &str) -> (r: Option<Number>)
        ensures
            option_dec(r) == decimal_parse(text@),
    {
        decimal_from_str(text)
    }

    /// The text of this number.
    pub fn to_text(&self) -> (s: String)
        ensures
            s@ == decimal_text(self@),
    {
        proof {
            use_type_invariant(self);
        }
        decimal_to_string(self)
    }

    /// The sum, or `None` where it cannot be represented.
    pub fn checked_add(&self, other: &Number) -> (r: Option<Number>)
        ensures
            option_dec(r) == decimal_sum(self@, other@),
    {
        proof {
            use_type_invariant(self);
            use_type_invariant(other);
        }
        decimal_checked_add(self, other)
    }

    /// The difference, or `None` where it cannot be represented.
    pub fn checked_sub(&self, other: &Number) -> (r: Option<Number>)
        ensures
            option_dec(r) == decimal_difference(self@, other@),
    {
        proof {
            use_type_invariant(self);
            use_type_invariant(other);
        }
        decimal_checked_sub(self, other)
    }

    /// The product, or `None` where it cannot be represented.
    pub fn checked_mul(&self, other: &Number) -> (r: Option<Number>)
        ensures
            option_dec(r) == decimal_product(self@, other@),
    {
        proof {
            use_type_invariant(self);
            use_type_invariant(other);
        }
        decimal_checked_mul(self, other)
    }

    /// The quotient, or `None` where the divisor is zero or the quotient
    /// cannot be represented.
    pub fn checked_div(&self, other: &Number) -> (r: Option<Number>)
        ensures
            option_dec(r) == decimal_quotient(self@, other@),
            other@.mantissa == 0 ==> r is None,
    {
        proof {
            use_type_invariant(self);
            use_type_invariant(other);
        }
        decimal_checked_div(self, other)
    }

    /// The remainder, or `None` where the divisor is zero or the remainder
    /// cannot be represented.
    pub fn checked_rem(&self, other: &Number) -> (r: Option<Number>)
        ensures
            option_dec(r) == decimal_remainder(self@, other@),
            other@.mantissa == 0 ==> r is None,
    {
        proof {
            use_type_invariant(self);
            use_type_invariant(other);
        }
        decimal_checked_rem(self, other)
    }

    /// Numeric equality.
    pub fn equals(&self, other: &Number) -> (r: bool)
        ensures
            r == dec_eq(self@, other@),
    {
        proof {
            use_type_invariant(self);
            use_type_invariant(other);
        }
        decimal_equal(self, other)
    }

    /// Numeric strict order.
    pub fn less_than(&self, other: &Number) -> (r: bool)
        ensures
            r == dec_lt(self@, other@),
    {
        proof {
            use_type_invariant(self);
            use_type_invariant(other);
        }
        decimal_less(self, other)
    }
}

impl PartialEq for Number {
    fn eq(&self, other: &Number) -> (r: bool) {
        self.equals(other)
    }
}

impl PartialEqSpecImpl for Number {
    open spec fn obeys_eq_spec() -> bool {
        true
    }

    open spec fn eq_spec(&self, other: &Number) -> bool {
        dec_eq(self@, other@)
    }
}

/// `Decimal::from_str` on `text`. The result is the decimal that the outside
/// parser reads, handed back as mantissa and scale; nothing is claimed of
/// which texts it accepts.
#[verifier::external_body]
fn decimal_from_str(text: &str) -> (r: Option<Number>)
    ensures
        option_dec(r) == decimal_parse(text@),
{
    match Decimal::from_str(text) {
        Ok(d) => Some(Number { mantissa: d.mantissa(), scale: d.scale() }),
        Err(_) => None,
    }
}

/// `to_string` of the `Decimal` with this mantissa and scale.
#[verifier::external_body]
fn decimal_to_string(n: &Number) -> (s: String)
    requires
        dec_wf(n@),
    ensures
        s@ == decimal_text(n@),
{
    Decimal::from_i128_with_scale(n.mantissa, n.scale).to_string()
}

/// `Decimal::checked_add` on the two decimals with these mantissas and
/// scales: `None` where the outside crate reports an overflow.
#[verifier::external_body]
fn decimal_checked_add(a: &Number, b: &Number) -> (r: Option<Number>)
    requires
        dec_wf(a@),
        dec_wf(b@),
    ensures
        option_dec(r) == decimal_sum(a@, b@),
{
    let x = Decimal::from_i128_with_scale(a.mantissa, a.scale);
    let y = Decimal::from_i128_with_scale(b.mantissa, b.scale);
    match x.checked_add(y) {
        Some(d) => Some(Number { mantissa: d.mantissa(), scale: d.scale() }),
        None => None,
    }
}

/// `Decimal::checked_sub`, in the same way.
#[verifier::external_body]
fn decimal_checked_sub(a: &Number, b: &Number) -> (r: Option<Number>)
    requires
        dec_wf(a@),
        dec_wf(b@),
    ensures
        option_dec(r) == decimal_difference(a@, b@),
{
    let x = Decimal::from_i128_with_scale(a.mantissa, a.scale);
    let y = Decimal::from_i128_with_scale(b.mantissa, b.scale);
    match x.checked_sub(y) {
        Some(d) => Some(Number { mantissa: d.mantissa(), scale: d.scale() }),
        None => None,
    }
}

/// `Decimal::checked_mul`, in the same way.
#[verifier::external_body]
fn decimal_checked_mul(a: &Number, b: &Number) -> (r: Option<Number>)
    requires
        dec_wf(a@),
        dec_wf(b@),
    ensures
        option_dec(r) == decimal_product(a@, b@),
{
    let x = Decimal::from_i128_with_scale(a.mantissa, a.scale);
    let y = Decimal::from_i128_with_scale(b.mantissa, b.scale);
    match x.checked_mul(y) {
        Some(d) => Some(Number { mantissa: d.mantissa(), scale: d.scale() }),
        None => None,
    }
}

/// `Decimal::checked_div`, in the same way. The outside crate returns `None`
/// for a zero divisor, which the second clause states.
#[verifier::external_body]
fn decimal_checked_div(a: &Number, b: &Number) -> (r: Option<Number>)
    requires
        dec_wf(a@),
        dec_wf(b@),
    ensures
        option_dec(r) == decimal_quotient(a@, b@),
        b@.mantissa == 0 ==> r is None,
{
    let x = Decimal::from_i128_with_scale(a.mantissa, a.scale);
    let y = Decimal::from_i128_with_scale(b.mantissa, b.scale);
    match x.checked_div(y) {
        Some(d) => Some(Number { mantissa: d.mantissa(), scale: d.scale() }),
        None => None,
    }
}

/// `Decimal::checked_rem`, in the same way. The outside crate returns `None`
/// for a zero divisor, which the second clause states.
#[verifier::external_body]
fn decimal_checked_rem(a: &Number, b: &Number) -> (r: Option<Number>)
    requires
        dec_wf(a@),
        dec_wf(b@),
    ensures
        option_dec(r) == decimal_remainder(a@, b@),
        b@.mantissa == 0 ==> r is None,
{
    let x = Decimal::from_i128_with_scale(a.mantissa, a.scale);
    let y = Decimal::from_i128_with_scale(b.mantissa, b.scale);
    match x.checked_rem(y) {
        Some(d) => Some(Number { mantissa: d.mantissa(), scale: d.scale() }),
        None => None,
    }
}

/// `==` on two `Decimal`s, which the outside crate decides by value: the two
/// are equal where their mantissas agree once brought to a common scale.
#[verifier::external_body]
fn decimal_equal(a: &Number, b: &Number) -> (r: bool)
    requires
        dec_wf(a@),
        dec_wf(b@),
    ensures
        r == dec_eq(a@, b@),
{
    let x = Decimal::from_i128_with_scale(a.mantissa, a.scale);
    let y = Decimal::from_i128_with_scale(b.mantissa, b.scale);
    x == y
}

/// `<` on two `Decimal`s, which the outside crate decides by value.
#[verifier::external_body]
fn decimal_less(a: &Number, b: &Number) -> (r: bool)
    requires
        dec_wf(a@),
        dec_wf(b@),
    ensures
        r == dec_lt(a@, b@),
{
    let x = Decimal::from_i128_with_scale(a.mantissa, a.scale);
    let y = Decimal::from_i128_with_scale(b.mantissa, b.scale);
    x < y
}

} // verus!
