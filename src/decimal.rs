use vstd::arithmetic::power::pow;
use rust_decimal::MathematicalOps;
use vstd::prelude::*;

verus! {

/// The largest mantissa magnitude that a decimal can hold: 96 bits.
pub const MAX_MANTISSA: i128 = 0xFFFF_FFFF_FFFF_FFFF_FFFF_FFFF;

/// The largest number of digits after the decimal point.
pub const MAX_SCALE: u32 = 28;

#[verifier::external_type_specification]
#[verifier::external_body]
pub struct ExDecimal(rust_decimal::Decimal);

/// An exact base-10 number: `mantissa / 10^scale`.
///
/// The mantissa has at most 96 bits of magnitude and the scale is at most
/// 28, which is the range of `rust_decimal::Decimal`. Arithmetic on these
/// values is carried out by that crate.
#[derive(Clone, Copy, Debug)]
pub struct Dec {
    mantissa: i128,
    scale: u32,
}

impl View for Dec {
    type V = (int, nat);

    closed spec fn view(&self) -> (int, nat) {
        (self.mantissa as int, self.scale as nat)
    }
}

/// Whether a (mantissa, scale) pair lies in the representable range.
pub open spec fn in_range(v: (int, nat)) -> bool {
    -(MAX_MANTISSA as int) <= v.0 <= MAX_MANTISSA as int && v.1 <= MAX_SCALE as nat
}

/// Whether two (mantissa, scale) pairs denote the same number.
pub open spec fn same_value(a: (int, nat), b: (int, nat)) -> bool {
    a.0 * pow(10, b.1) == b.0 * pow(10, a.1)
}

/// Whether the number denoted by `a` is below the one denoted by `b`.
pub open spec fn less_value(a: (int, nat), b: (int, nat)) -> bool {
    a.0 * pow(10, b.1) < b.0 * pow(10, a.1)
}

impl Dec {
    #[verifier::type_invariant]
    spec fn wf(self) -> bool {
        in_range(self@)
    }

    /// Builds `mantissa / 10^scale`, or `None` where it is out of range.
    pub fn new(mantissa: i128, scale: u32) -> (r: Option<Dec>)
        ensures
            r is Some <==> in_range((mantissa as int, scale as nat)),
            r matches Some(d) ==> d@ == (mantissa as int, scale as nat),
    {
        if -MAX_MANTISSA <= mantissa && mantissa <= MAX_MANTISSA && scale <= MAX_SCALE {
            Some(Dec { mantissa, scale })
        } else {
            None
        }
    }

    /// Builds a whole number.
    pub fn from_int(n: i64) -> (r: Dec)
        ensures
            r@ == (n as int, 0nat),
    {
        Dec { mantissa: n as i128, scale: 0 }
    }

    pub fn mantissa(&self) -> (r: i128)
        ensures
            r as int == self@.0,
    {
        self.mantissa
    }

    pub fn scale(&self) -> (r: u32)
        ensures
            r as nat == self@.1,
    {
        self.scale
    }

    pub fn is_zero(&self) -> (r: bool)
        ensures
            r == (self@.0 == 0),
    {
        self.mantissa == 0
    }

    /// `self + other`, or `None` where the sum does not fit.
    pub fn checked_add(&self, other: &Dec) -> (r: Option<Dec>)
        ensures
            yields(r, decimal_sum(self@, other@)),
    {
        proof {
            use_type_invariant(self);
            use_type_invariant(other);
        }
        add_decimals(*self, *other)
    }

    /// `self - other`, or `None` where the difference does not fit.
    pub fn checked_sub(&self, other: &Dec) -> (r: Option<Dec>)
        ensures
            yields(r, decimal_difference(self@, other@)),
    {
        proof {
            use_type_invariant(self);
            use_type_invariant(other);
        }
        sub_decimals(*self, *other)
    }

    /// `self * other`, or `None` where the product does not fit.
    pub fn checked_mul(&self, other: &Dec) -> (r: Option<Dec>)
        ensures
            yields(r, decimal_product(self@, other@)),
    {
        proof {
            use_type_invariant(self);
            use_type_invariant(other);
        }
        mul_decimals(*self, *other)
    }

    /// `self / other`, or `None` where `other` is zero or the quotient does not fit.
    pub fn checked_div(&self, other: &Dec) -> (r: Option<Dec>)
        ensures
            yields(r, decimal_quotient(self@, other@)),
    {
        proof {
            use_type_invariant(self);
            use_type_invariant(other);
        }
        div_decimals(*self, *other)
    }

    /// `self` raised to the power `exp`, or `None` where that fails.
    pub fn checked_powd(&self, exp: &Dec) -> (r: Option<Dec>)
        ensures
            yields(r, decimal_power(self@, exp@)),
    {
        proof {
            use_type_invariant(self);
            use_type_invariant(exp);
        }
        pow_decimals(*self, *exp)
    }

    /// The sine of `self` (in radians), or `None` where that fails.
    pub fn checked_sin(&self) -> (r: Option<Dec>)
        ensures
            yields(r, decimal_sine(self@)),
    {
        proof {
            use_type_invariant(self);
        }
        sine(*self)
    }

    /// The cosine of `self` (in radians), or `None` where that fails.
    pub fn checked_cos(&self) -> (r: Option<Dec>)
        ensures
            yields(r, decimal_cosine(self@)),
    {
        proof {
            use_type_invariant(self);
        }
        cosine(*self)
    }

    /// The tangent of `self` (in radians), or `None` where that fails.
    pub fn checked_tan(&self) -> (r: Option<Dec>)
        ensures
            yields(r, decimal_tangent(self@)),
    {
        proof {
            use_type_invariant(self);
        }
        tangent(*self)
    }

    /// The larger of the two numbers; `self` where they are equal.
    pub fn max(&self, other: &Dec) -> (r: Dec)
        ensures
            r@ == (if less_value(self@, other@) { other@ } else { self@ }),
    {
        proof {
            use_type_invariant(self);
            use_type_invariant(other);
        }
        larger(*self, *other)
    }

    /// The smaller of the two numbers; `self` where they are equal.
    pub fn min(&self, other: &Dec) -> (r: Dec)
        ensures
            r@ == (if less_value(other@, self@) { other@ } else { self@ }),
    {
        proof {
            use_type_invariant(self);
            use_type_invariant(other);
        }
        smaller(*self, *other)
    }

    /// Reads a numeral such as `12`, `-1.5` or `1.2e5`; `None` where it is not one.
    pub fn parse(text: &Vec<char>) -> (r: Option<Dec>)
        ensures
            yields(r, decimal_from_text(text@)),
    {
        parse_decimal(text)
    }
}

impl PartialEq for Dec {
    /// Numeric equality: `1.0 == 1`.
    fn eq(&self, other: &Dec) -> (r: bool) {
        proof {
            use_type_invariant(self);
            use_type_invariant(other);
        }
        equal_decimals(*self, *other)
    }
}

impl vstd::std_specs::cmp::PartialEqSpecImpl for Dec {
    open spec fn obeys_eq_spec() -> bool {
        true
    }

    open spec fn eq_spec(&self, other: &Dec) -> bool {
        same_value(self@, other@)
    }
}

impl Dec {
    /// Euler's number to 28 places, as `rust_decimal::Decimal::E` holds it.
    pub fn e() -> (r: Dec)
        ensures
            r@ == (27182818284590452353602874714int, 28nat),
    {
        Dec { mantissa: 27182818284590452353602874714, scale: 28 }
    }

    /// Pi to 28 places, as `rust_decimal::Decimal::PI` holds it.
    pub fn pi() -> (r: Dec)
        ensures
            r@ == (31415926535897932384626433833int, 28nat),
    {
        Dec { mantissa: 31415926535897932384626433833, scale: 28 }
    }
}

/// The decimal of a (mantissa, scale) pair.
pub closed spec fn dec_of(v: (int, nat)) -> Dec {
    Dec { mantissa: v.0 as i128, scale: v.1 as u32 }
}

/// A decimal is determined by its (mantissa, scale) pair.
pub proof fn lemma_dec_of_view(d: Dec)
    ensures
        dec_of(d@) == d,
{
}

/// Whether `r` is the result that an operation named by `named` hands back.
pub open spec fn yields(r: Option<Dec>, named: Option<(int, nat)>) -> bool {
    match r {
        Some(d) => named == Some(d@),
        None => named is None,
    }
}

pub uninterp spec fn decimal_sum(a: (int, nat), b: (int, nat)) -> Option<(int, nat)>;

/// Relies on `rust_decimal::Decimal::checked_add`: `a + b`, or `None` on overflow.
#[verifier::external_body]
fn add_decimals(a: Dec, b: Dec) -> (r: Option<Dec>)
    requires
        in_range(a@),
        in_range(b@),
    ensures
        yields(r, decimal_sum(a@, b@)),
{
    let x = rust_decimal::Decimal::from_i128_with_scale(a.mantissa, a.scale);
    let y = rust_decimal::Decimal::from_i128_with_scale(b.mantissa, b.scale);
    match x.checked_add(y) {
        Some(d) => Some(Dec { mantissa: d.mantissa(), scale: d.scale() }),
        None => None,
    }
}

pub uninterp spec fn decimal_difference(a: (int, nat), b: (int, nat)) -> Option<(int, nat)>;

/// Relies on `rust_decimal::Decimal::checked_sub`: `a - b`, or `None` on overflow.
#[verifier::external_body]
fn sub_decimals(a: Dec, b: Dec) -> (r: Option<Dec>)
    requires
        in_range(a@),
        in_range(b@),
    ensures
        yields(r, decimal_difference(a@, b@)),
{
    let x = rust_decimal::Decimal::from_i128_with_scale(a.mantissa, a.scale);
    let y = rust_decimal::Decimal::from_i128_with_scale(b.mantissa, b.scale);
    match x.checked_sub(y) {
        Some(d) => Some(Dec { mantissa: d.mantissa(), scale: d.scale() }),
        None => None,
    }
}

pub uninterp spec fn decimal_product(a: (int, nat), b: (int, nat)) -> Option<(int, nat)>;

/// Relies on `rust_decimal::Decimal::checked_mul`: `a * b`, or `None` on overflow.
#[verifier::external_body]
fn mul_decimals(a: Dec, b: Dec) -> (r: Option<Dec>)
    requires
        in_range(a@),
        in_range(b@),
    ensures
        yields(r, decimal_product(a@, b@)),
{
    let x = rust_decimal::Decimal::from_i128_with_scale(a.mantissa, a.scale);
    let y = rust_decimal::Decimal::from_i128_with_scale(b.mantissa, b.scale);
    match x.checked_mul(y) {
        Some(d) => Some(Dec { mantissa: d.mantissa(), scale: d.scale() }),
        None => None,
    }
}

pub uninterp spec fn decimal_quotient(a: (int, nat), b: (int, nat)) -> Option<(int, nat)>;

/// Relies on `rust_decimal::Decimal::checked_div`: `a / b`, or `None` on a zero divisor or on overflow.
#[verifier::external_body]
fn div_decimals(a: Dec, b: Dec) -> (r: Option<Dec>)
    requires
        in_range(a@),
        in_range(b@),
    ensures
        yields(r, decimal_quotient(a@, b@)),
{
    let x = rust_decimal::Decimal::from_i128_with_scale(a.mantissa, a.scale);
    let y = rust_decimal::Decimal::from_i128_with_scale(b.mantissa, b.scale);
    match x.checked_div(y) {
        Some(d) => Some(Dec { mantissa: d.mantissa(), scale: d.scale() }),
        None => None,
    }
}

pub uninterp spec fn decimal_power(a: (int, nat), b: (int, nat)) -> Option<(int, nat)>;

/// Relies on `rust_decimal::MathematicalOps::checked_powd`: `a` to the power `b`,
/// or `None` where it cannot be computed.
#[verifier::external_body]
fn pow_decimals(a: Dec, b: Dec) -> (r: Option<Dec>)
    requires
        in_range(a@),
        in_range(b@),
    ensures
        yields(r, decimal_power(a@, b@)),
{
    let x = rust_decimal::Decimal::from_i128_with_scale(a.mantissa, a.scale);
    let y = rust_decimal::Decimal::from_i128_with_scale(b.mantissa, b.scale);
    match x.checked_powd(y) {
        Some(d) => Some(Dec { mantissa: d.mantissa(), scale: d.scale() }),
        None => None,
    }
}

pub uninterp spec fn decimal_sine(a: (int, nat)) -> Option<(int, nat)>;

/// Relies on `rust_decimal::MathematicalOps::checked_sin`: the sine of `a`,
/// or `None` where it cannot be computed.
#[verifier::external_body]
fn sine(a: Dec) -> (r: Option<Dec>)
    requires
        in_range(a@),
    ensures
        yields(r, decimal_sine(a@)),
{
    let x = rust_decimal::Decimal::from_i128_with_scale(a.mantissa, a.scale);
    match x.checked_sin() {
        Some(d) => Some(Dec { mantissa: d.mantissa(), scale: d.scale() }),
        None => None,
    }
}

pub uninterp spec fn decimal_cosine(a: (int, nat)) -> Option<(int, nat)>;

/// Relies on `rust_decimal::MathematicalOps::checked_cos`: the cosine of `a`,
/// or `None` where it cannot be computed.
#[verifier::external_body]
fn cosine(a: Dec) -> (r: Option<Dec>)
    requires
        in_range(a@),
    ensures
        yields(r, decimal_cosine(a@)),
{
    let x = rust_decimal::Decimal::from_i128_with_scale(a.mantissa, a.scale);
    match x.checked_cos() {
        Some(d) => Some(Dec { mantissa: d.mantissa(), scale: d.scale() }),
        None => None,
    }
}

pub uninterp spec fn decimal_tangent(a: (int, nat)) -> Option<(int, nat)>;

/// Relies on `rust_decimal::MathematicalOps::checked_tan`: the tangent of `a`,
/// or `None` where it cannot be computed.
#[verifier::external_body]
fn tangent(a: Dec) -> (r: Option<Dec>)
    requires
        in_range(a@),
    ensures
        yields(r, decimal_tangent(a@)),
{
    let x = rust_decimal::Decimal::from_i128_with_scale(a.mantissa, a.scale);
    match x.checked_tan() {
        Some(d) => Some(Dec { mantissa: d.mantissa(), scale: d.scale() }),
        None => None,
    }
}

/// Relies on `rust_decimal::Decimal::max`: `b` where `a < b` by value, else `a`.
#[verifier::external_body]
fn larger(a: Dec, b: Dec) -> (r: Dec)
    requires
        in_range(a@),
        in_range(b@),
    ensures
        r@ == (if less_value(a@, b@) { b@ } else { a@ }),
{
    let x = rust_decimal::Decimal::from_i128_with_scale(a.mantissa, a.scale);
    let y = rust_decimal::Decimal::from_i128_with_scale(b.mantissa, b.scale);
    let d = x.max(y);
    Dec { mantissa: d.mantissa(), scale: d.scale() }
}

/// Relies on `rust_decimal::Decimal::min`: `b` where `b < a` by value, else `a`.
#[verifier::external_body]
fn smaller(a: Dec, b: Dec) -> (r: Dec)
    requires
        in_range(a@),
        in_range(b@),
    ensures
        r@ == (if less_value(b@, a@) { b@ } else { a@ }),
{
    let x = rust_decimal::Decimal::from_i128_with_scale(a.mantissa, a.scale);
    let y = rust_decimal::Decimal::from_i128_with_scale(b.mantissa, b.scale);
    let d = x.min(y);
    Dec { mantissa: d.mantissa(), scale: d.scale() }
}

/// Relies on `PartialEq for rust_decimal::Decimal`, which compares by value.
#[verifier::external_body]
fn equal_decimals(a: Dec, b: Dec) -> (r: bool)
    requires
        in_range(a@),
        in_range(b@),
    ensures
        r == same_value(a@, b@),
{
    let x = rust_decimal::Decimal::from_i128_with_scale(a.mantissa, a.scale);
    let y = rust_decimal::Decimal::from_i128_with_scale(b.mantissa, b.scale);
    x == y
}

pub uninterp spec fn decimal_from_text(s: Seq<char>) -> Option<(int, nat)>;

/// Relies on `FromStr for rust_decimal::Decimal`: the numeral's value, plain or
/// in scientific notation, or `None` where the text is not a numeral.
#[verifier::external_body]
fn parse_decimal(text: &Vec<char>) -> (r: Option<Dec>)
    ensures
        yields(r, decimal_from_text(text@)),
{
    let s: String = text.iter().collect();
    match <rust_decimal::Decimal as std::str::FromStr>::from_str(&s) {
        Ok(d) => Some(Dec { mantissa: d.mantissa(), scale: d.scale() }),
        Err(_) => None,
    }
}

} // verus!
