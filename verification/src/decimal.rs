//! Decimal prices, held as plain integers and computed with by `rust_decimal`.

use vstd::prelude::*;

verus! {

/// The largest power of ten that may divide a price's magnitude.
pub const MAX_SCALE: u32 = 28;

/// What a [`Price`] stands for: `magnitude / 10^scale`, negated where `negative` is set.
pub struct PriceView {
    pub negative: bool,
    pub magnitude: nat,
    pub scale: nat,
}

/// A decimal number of up to 96 bits of magnitude and up to 28 fractional digits.
///
/// Two prices are `==` when they are written alike: `1.0` and `1.00` are different prices
/// of the same value. [`Price::at_most`] and [`Price::same_value`] compare values.
#[derive(Clone, Copy, Debug, PartialEq, Eq)]
pub struct Price {
    negative: bool,
    hi: u32,
    mid: u32,
    lo: u32,
    scale: u32,
}

/// Ten to the power `n`.
pub open spec fn pow10(n: nat) -> nat
    decreases n,
{
    if n == 0 {
        1
    } else {
        10 * pow10((n - 1) as nat)
    }
}

/// The magnitude of `v` with its sign.
pub open spec fn signed_magnitude(v: PriceView) -> int {
    if v.negative {
        -(v.magnitude as int)
    } else {
        v.magnitude as int
    }
}

/// Whether the value of `a` is at most the value of `b`.
pub open spec fn value_le(a: PriceView, b: PriceView) -> bool {
    signed_magnitude(a) * pow10(b.scale) <= signed_magnitude(b) * pow10(a.scale)
}

/// Whether `a` and `b` have the same value, however each is written.
pub open spec fn value_eq(a: PriceView, b: PriceView) -> bool {
    value_le(a, b) && value_le(b, a)
}

/// The price that `rust_decimal` reads from a text, or the message of its refusal.
pub uninterp spec fn decimal_from_str(text: Seq<char>) -> Result<PriceView, Seq<char>>;

/// The sum that `rust_decimal` gives for two prices, where it can represent one.
pub uninterp spec fn decimal_sum(a: PriceView, b: PriceView) -> Option<PriceView>;

/// The quotient that `rust_decimal` gives for two prices, where it can represent one.
pub uninterp spec fn decimal_quotient(a: PriceView, b: PriceView) -> Option<PriceView>;

/// The view of the price two.
pub open spec fn two() -> PriceView {
    PriceView { negative: false, magnitude: 2, scale: 0 }
}

/// Half the sum of two prices, as `rust_decimal` computes it: the sum first, then its
/// quotient by two. `None` where either step has no result.
pub open spec fn mean_spec(a: PriceView, b: PriceView) -> Option<PriceView> {
    match decimal_sum(a, b) {
        Some(sum) => decimal_quotient(sum, two()),
        None => None,
    }
}

impl View for Price {
    type V = PriceView;

    closed spec fn view(&self) -> PriceView {
        PriceView {
            negative: self.negative,
            magnitude: (self.lo as nat) + (self.mid as nat) * 0x1_0000_0000 + (self.hi as nat)
                * 0x1_0000_0000_0000_0000,
            scale: self.scale as nat,
        }
    }
}

impl Price {
    #[verifier::type_invariant]
    spec fn scale_in_range(self) -> bool {
        self.scale <= MAX_SCALE
    }

    /// A price from its sign, the three 32-bit limbs of its magnitude and its scale.
    /// `None` exactly when the scale is above [`MAX_SCALE`].
    pub fn new(negative: bool, hi: u32, mid: u32, lo: u32, scale: u32) -> (r: Option<Price>)
        ensures
            r is Some <==> scale <= MAX_SCALE,
            r is Some ==> r->0@ == (PriceView {
                negative,
                magnitude: (lo as nat) + (mid as nat) * 0x1_0000_0000 + (hi as nat)
                    * 0x1_0000_0000_0000_0000,
                scale: scale as nat,
            }),
    {
        if scale <= MAX_SCALE {
            Some(Price { negative, hi, mid, lo, scale })
        } else {
            None
        }
    }

    /// The whole number `n`.
    pub fn from_u32(n: u32) -> (r: Price)
        ensures
            r@ == (PriceView { negative: false, magnitude: n as nat, scale: 0 }),
    {
        Price { negative: false, hi: 0, mid: 0, lo: n, scale: 0 }
    }

    /// Whether the sign is set. Zero may carry a sign.
    pub fn is_negative(&self) -> (r: bool)
        ensures
            r == self@.negative,
    {
        self.negative
    }

    /// The number of fractional digits.
    pub fn scale(&self) -> (r: u32)
        ensures
            r == self@.scale,
            r <= MAX_SCALE,
    {
        proof {
            use_type_invariant(self);
        }
        self.scale
    }

    /// The limbs of the magnitude, the most significant first.
    pub fn limbs(&self) -> (r: (u32, u32, u32))
        ensures
            self@.magnitude == (r.2 as nat) + (r.1 as nat) * 0x1_0000_0000 + (r.0 as nat)
                * 0x1_0000_0000_0000_0000,
    {
        (self.hi, self.mid, self.lo)
    }

    /// Reads a price from its decimal text.
    pub fn parse(text: &str) -> (r: Result<Price, String>)
        ensures
            price_result_view(r) == decimal_from_str(text@),
    {
        parse_decimal(text)
    }

    /// Whether this price's value is at most that of `other`.
    pub fn at_most(&self, other: &Price) -> (r: bool)
        ensures
            r == value_le(self@, other@),
    {
        proof {
            use_type_invariant(self);
            use_type_invariant(other);
        }
        decimal_le(self, other)
    }

    /// Whether the two prices have the same value.
    pub fn same_value(&self, other: &Price) -> (r: bool)
        ensures
            r == value_eq(self@, other@),
    {
        proof {
            use_type_invariant(self);
            use_type_invariant(other);
        }
        decimal_le(self, other) && decimal_le(other, self)
    }
}

/// The values that a sequence of prices stands for, in the same order.
pub open spec fn price_views(s: Seq<Price>) -> Seq<PriceView> {
    s.map_values(|p: Price| p@)
}

/// The view of a parse result.
pub open spec fn price_result_view(r: Result<Price, String>) -> Result<PriceView, Seq<char>> {
    match r {
        Ok(p) => Ok(p@),
        Err(e) => Err(e@),
    }
}

/// The view of an optional price.
pub open spec fn price_option_view(p: Option<Price>) -> Option<PriceView> {
    match p {
        Some(p) => Some(p@),
        None => None,
    }
}

/// Half the sum of two prices. `None` where `rust_decimal` cannot represent the sum or
/// its half.
pub fn mean_of_two(a: &Price, b: &Price) -> (r: Option<Price>)
    ensures
        price_option_view(r) == mean_spec(a@, b@),
{
    proof {
        use_type_invariant(a);
        use_type_invariant(b);
    }
    match decimal_checked_add(a, b) {
        Some(sum) => {
            let two = Price::from_u32(2);
            proof {
                use_type_invariant(&sum);
            }
            decimal_checked_div(&sum, &two)
        },
        None => None,
    }
}

/// `Decimal`'s `<=` on the decimals of these parts: the comparison of the two values
/// as numbers, whatever their scales and the sign of a zero. `Decimal::from_parts`
/// refuses a scale above [`MAX_SCALE`].
#[verifier::external_body]
fn decimal_le(a: &Price, b: &Price) -> (r: bool)
    requires
        a@.scale <= MAX_SCALE,
        b@.scale <= MAX_SCALE,
    ensures
        r == value_le(a@, b@),
{
    let mut x = rust_decimal::Decimal::from_parts(a.lo, a.mid, a.hi, a.negative, a.scale);
    x.set_sign_negative(a.negative);
    let mut y = rust_decimal::Decimal::from_parts(b.lo, b.mid, b.hi, b.negative, b.scale);
    y.set_sign_negative(b.negative);
    x <= y
}

/// `Decimal::checked_add` on the decimals of these parts: the sum is a function of the
/// two operands, and `None` where the addition overflows. The scale of a sum, as of
/// every decimal, is at most [`MAX_SCALE`].
#[verifier::external_body]
fn decimal_checked_add(a: &Price, b: &Price) -> (r: Option<Price>)
    requires
        a@.scale <= MAX_SCALE,
        b@.scale <= MAX_SCALE,
    ensures
        price_option_view(r) == decimal_sum(a@, b@),
{
    let mut x = rust_decimal::Decimal::from_parts(a.lo, a.mid, a.hi, a.negative, a.scale);
    x.set_sign_negative(a.negative);
    let mut y = rust_decimal::Decimal::from_parts(b.lo, b.mid, b.hi, b.negative, b.scale);
    y.set_sign_negative(b.negative);
    x.checked_add(y).map(|d| d.unpack()).map(
        |u| Price { negative: u.negative, hi: u.hi, mid: u.mid, lo: u.lo, scale: u.scale },
    )
}

/// `Decimal::checked_div` on the decimals of these parts: the quotient is a function of
/// the two operands, and `None` where the divisor is zero or the division overflows.
/// The scale of a quotient, as of every decimal, is at most [`MAX_SCALE`].
#[verifier::external_body]
fn decimal_checked_div(a: &Price, b: &Price) -> (r: Option<Price>)
    requires
        a@.scale <= MAX_SCALE,
        b@.scale <= MAX_SCALE,
    ensures
        price_option_view(r) == decimal_quotient(a@, b@),
{
    let mut x = rust_decimal::Decimal::from_parts(a.lo, a.mid, a.hi, a.negative, a.scale);
    x.set_sign_negative(a.negative);
    let mut y = rust_decimal::Decimal::from_parts(b.lo, b.mid, b.hi, b.negative, b.scale);
    y.set_sign_negative(b.negative);
    x.checked_div(y).map(|d| d.unpack()).map(
        |u| Price { negative: u.negative, hi: u.hi, mid: u.mid, lo: u.lo, scale: u.scale },
    )
}

/// `Decimal::from_str`: the price read is a function of the text; a refusal is handed on
/// as the message that `rust_decimal`'s error displays. What is read is a decimal, with
/// a scale of at most [`MAX_SCALE`].
#[verifier::external_body]
fn parse_decimal(text: &str) -> (r: Result<Price, String>)
    ensures
        price_result_view(r) == decimal_from_str(text@),
{
    match <rust_decimal::Decimal as std::str::FromStr>::from_str(text) {
        Ok(d) => {
            let u = d.unpack();
            Ok(Price { negative: u.negative, hi: u.hi, mid: u.mid, lo: u.lo, scale: u.scale })
        },
        Err(e) => Err(e.to_string()),
    }
}

} // verus!
