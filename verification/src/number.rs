//! Exact decimal numbers, read from scalar tokens without rounding, and the
//! per-field scale conventions that reinterpret them.

use vstd::prelude::*;
use crate::digits::{accumulate, lemma_accumulate_grows, run_end, scan_digits};

verus! {

/// The largest number of fraction digits that a [`Decimal`] holds.
pub const MAX_SCALE: u8 = 18;

/// The largest magnitude of a [`Decimal`]'s mantissa.
pub const MAX_MANTISSA: i64 = 9_223_372_036_854_775_807;

/// The decimal number `mantissa / 10^scale`.
#[derive(Clone, Copy, Debug, PartialEq, Eq, Hash, Structural)]
pub struct Decimal {
    pub mantissa: i64,
    pub scale: u8,
}

/// A scale convention for one field: the number read is multiplied by
/// `factor`, which moves its decimal point or rescales it exactly.
#[derive(Clone, Copy, Debug, PartialEq, Eq, Hash, Structural)]
pub struct Transform {
    pub factor: Decimal,
}

/// How many leading bytes of a number are its sign: one for `-` or `+`.
pub open spec fn sign_len(s: Seq<u8>) -> int {
    if s.len() > 0 && (s[0] == 45 || s[0] == 43) {
        1
    } else {
        0
    }
}

/// Whether the token starts with a minus sign.
pub open spec fn has_minus(s: Seq<u8>) -> bool {
    s.len() > 0 && s[0] == 45
}

/// `magnitude` with the sign that the token carries.
pub open spec fn signed(negative: bool, magnitude: int) -> int {
    if negative {
        -magnitude
    } else {
        magnitude
    }
}

/// The decimal that a token spells, if it is shaped like a number: an
/// optional sign, one or more digits, and optionally a point followed by one
/// to eighteen digits, the digits taken together spelling no more than
/// [`MAX_MANTISSA`]. The mantissa is the digits read as one integer and the
/// scale is the count of digits behind the point.
pub open spec fn decimal_of(s: Seq<u8>) -> Option<Decimal> {
    let start = sign_len(s);
    let point = run_end(s, start);
    let whole = accumulate(0, s.subrange(start, point));
    if point == start {
        None
    } else if point == s.len() {
        if whole <= MAX_MANTISSA {
            Some(Decimal { mantissa: signed(has_minus(s), whole as int) as i64, scale: 0 })
        } else {
            None
        }
    } else if s[point] != 46 {
        None
    } else {
        let end = run_end(s, point + 1);
        let places = end - (point + 1);
        let all = accumulate(whole, s.subrange(point + 1, end));
        if end == s.len() && 1 <= places <= MAX_SCALE && all <= MAX_MANTISSA {
            Some(Decimal { mantissa: signed(has_minus(s), all as int) as i64, scale: places as u8 })
        } else {
            None
        }
    }
}

/// The product of a decimal and a transform's factor, if it can be held: the
/// mantissas multiplied and the scales added.
pub open spec fn rescaled(d: Decimal, t: Transform) -> Option<Decimal> {
    let mantissa = d.mantissa * t.factor.mantissa;
    let scale = d.scale + t.factor.scale;
    if -MAX_MANTISSA <= mantissa <= MAX_MANTISSA && scale <= MAX_SCALE {
        Some(Decimal { mantissa: mantissa as i64, scale: scale as u8 })
    } else {
        None
    }
}

/// The product of two 64-bit integers stays well inside 128 bits.
proof fn lemma_product_fits(a: int, b: int)
    requires
        -0x8000_0000_0000_0000 <= a <= 0x7fff_ffff_ffff_ffff,
        -0x8000_0000_0000_0000 <= b <= 0x7fff_ffff_ffff_ffff,
    ensures
        -0x4000_0000_0000_0000_0000_0000_0000_0000 <= a * b,
        a * b <= 0x4000_0000_0000_0000_0000_0000_0000_0000,
{
    assert(-0x4000_0000_0000_0000_0000_0000_0000_0000 <= a * b) by (nonlinear_arith)
        requires
            -0x8000_0000_0000_0000 <= a <= 0x7fff_ffff_ffff_ffff,
            -0x8000_0000_0000_0000 <= b <= 0x7fff_ffff_ffff_ffff,
    ;
    assert(a * b <= 0x4000_0000_0000_0000_0000_0000_0000_0000) by (nonlinear_arith)
        requires
            -0x8000_0000_0000_0000 <= a <= 0x7fff_ffff_ffff_ffff,
            -0x8000_0000_0000_0000 <= b <= 0x7fff_ffff_ffff_ffff,
    ;
}

/// The decimal that a transform turns into `number`, where the transform's
/// factor is positive and divides the number exactly: the mantissa divided
/// by the factor's and the scale less the factor's.
pub open spec fn unscaled(number: Decimal, transform: Transform) -> Option<Decimal> {
    let factor = transform.factor;
    let dividend = number.mantissa as int;
    let divisor = factor.mantissa as int;
    if divisor > 0 && number.scale >= factor.scale && dividend % divisor == 0 {
        Some(
            Decimal {
                mantissa: (dividend / divisor) as i64,
                scale: (number.scale - factor.scale) as u8,
            },
        )
    } else {
        None
    }
}

/// A multiple of a positive number divides by it without remainder, and
/// only a multiple does.
proof fn lemma_exact_division(x: int, d: int, q: int)
    requires
        d > 0,
        x == q * d,
    ensures
        x % d == 0,
        x / d == q,
{
    vstd::arithmetic::div_mod::lemma_fundamental_div_mod_converse(x, d, q, 0);
}

/// The quotient of an exact division by a positive number is no larger in
/// magnitude than the dividend.
proof fn lemma_quotient_is_no_larger(x: int, d: int, q: int)
    requires
        d > 0,
        x == q * d,
    ensures
        x >= 0 ==> 0 <= q <= x,
        x <= 0 ==> x <= q <= 0,
{
    assert(x >= 0 ==> 0 <= q <= x) by (nonlinear_arith)
        requires
            d > 0,
            x == q * d,
    ;
    assert(x <= 0 ==> x <= q <= 0) by (nonlinear_arith)
        requires
            d > 0,
            x == q * d,
    ;
}

/// A transform turns the decimal that [`unscaled`] gives back into the
/// number it was taken from.
pub proof fn lemma_unscaled_rescales(number: Decimal, transform: Transform)
    requires
        number.wf(),
        unscaled(number, transform) is Some,
    ensures
        unscaled(number, transform)->0.wf(),
        rescaled(unscaled(number, transform)->0, transform) == Some(number),
{
    let d = transform.factor.mantissa as int;
    let x = number.mantissa as int;
    let q = x / d;
    vstd::arithmetic::div_mod::lemma_fundamental_div_mod(x, d);
    assert(x == q * d) by (nonlinear_arith)
        requires
            x == d * q + 0,
    ;
    lemma_quotient_is_no_larger(x, d, q);
}

impl Decimal {
    /// Whether the decimal is one that reading a token can give.
    pub open spec fn wf(self) -> bool {
        -MAX_MANTISSA <= self.mantissa <= MAX_MANTISSA && self.scale <= MAX_SCALE
    }

    /// The whole number `n`.
    pub fn whole(n: i64) -> (d: Decimal)
        ensures
            d == (Decimal { mantissa: n, scale: 0 }),
    {
        Decimal { mantissa: n, scale: 0 }
    }
}

impl Transform {
    /// The convention that multiplies by `mantissa / 10^scale`.
    pub fn times(mantissa: i64, scale: u8) -> (t: Transform)
        ensures
            t == (Transform { factor: Decimal { mantissa, scale } }),
    {
        Transform { factor: Decimal { mantissa, scale } }
    }

    /// Applies the convention to a decimal; `None` when the product's
    /// mantissa or scale is out of range.
    pub fn apply(&self, d: Decimal) -> (r: Option<Decimal>)
        ensures
            r == rescaled(d, *self),
            r is Some ==> r->0.wf(),
    {
        let a: i128 = d.mantissa as i128;
        let b: i128 = self.factor.mantissa as i128;
        proof {
            lemma_product_fits(a as int, b as int);
        }
        let product: i128 = a * b;
        let scale: u16 = d.scale as u16 + self.factor.scale as u16;
        if product >= -(MAX_MANTISSA as i128) && product <= MAX_MANTISSA as i128 && scale
            <= MAX_SCALE as u16 {
            Some(Decimal { mantissa: product as i64, scale: scale as u8 })
        } else {
            None
        }
    }
}

impl Transform {
    /// The decimal that the convention turns into `number`; `None` where
    /// the factor is not positive or does not divide the number exactly.
    pub fn undo(&self, number: Decimal) -> (r: Option<Decimal>)
        ensures
            r == unscaled(number, *self),
    {
        let factor = self.factor;
        if factor.mantissa <= 0 || number.scale < factor.scale {
            return None;
        }
        let minus: bool = number.mantissa < 0;
        let magnitude: u64 = if minus {
            (-(number.mantissa as i128)) as u64
        } else {
            number.mantissa as u64
        };
        let divisor: u64 = factor.mantissa as u64;
        let remainder: u64 = magnitude % divisor;
        let quotient: u64 = magnitude / divisor;
        proof {
            let x = number.mantissa as int;
            let d = divisor as int;
            vstd::arithmetic::div_mod::lemma_fundamental_div_mod(magnitude as int, d);
            if remainder == 0 {
                let q: int = if minus {
                    -(quotient as int)
                } else {
                    quotient as int
                };
                assert(x == q * d) by (nonlinear_arith)
                    requires
                        magnitude == d * quotient + 0,
                        minus ==> x == -magnitude && q == -quotient,
                        !minus ==> x == magnitude && q == quotient,
                ;
                lemma_exact_division(x, d, q);
                lemma_quotient_is_no_larger(x, d, q);
            } else if x % d == 0 {
                vstd::arithmetic::div_mod::lemma_fundamental_div_mod(x, d);
                let q: int = if minus {
                    -(x / d)
                } else {
                    x / d
                };
                assert(magnitude as int == q * d) by (nonlinear_arith)
                    requires
                        x == d * (x / d) + 0,
                        minus ==> x == -magnitude && q == -(x / d),
                        !minus ==> x == magnitude && q == x / d,
                ;
                lemma_exact_division(magnitude as int, d, q);
            }
        }
        if remainder != 0 {
            return None;
        }
        let mantissa: i64 = if minus {
            (-(quotient as i128)) as i64
        } else {
            quotient as i64
        };
        Some(Decimal { mantissa, scale: number.scale - factor.scale })
    }
}

/// Reads a scalar token as a decimal number; `None` when the token is not
/// shaped like a number or does not fit.
pub fn parse_decimal(raw: &[u8]) -> (r: Option<Decimal>)
    ensures
        r == decimal_of(raw@),
        r is Some ==> r->0.wf(),
{
    let negative: bool = raw.len() > 0 && raw[0] == 45;
    let start: usize = if raw.len() > 0 && (raw[0] == 45 || raw[0] == 43) { 1 } else { 0 };
    let cap: u128 = MAX_MANTISSA as u128 + 1;
    let (point, whole) = scan_digits(raw, start, 0, cap);
    if point == start {
        return None;
    }
    if point == raw.len() {
        if whole >= cap {
            return None;
        }
        let magnitude: i64 = whole as i64;
        return Some(Decimal { mantissa: if negative { -magnitude } else { magnitude }, scale: 0 });
    }
    if raw[point] != 46 {
        return None;
    }
    let (end, all) = scan_digits(raw, point + 1, whole, cap);
    let places: usize = end - (point + 1);
    proof {
        let digits = raw@.subrange(point as int + 1, end as int);
        lemma_accumulate_grows(whole as nat, digits);
        lemma_accumulate_grows(accumulate(0, raw@.subrange(start as int, point as int)), digits);
    }
    if end != raw.len() || places < 1 || places > MAX_SCALE as usize || all >= cap {
        return None;
    }
    let magnitude: i64 = all as i64;
    Some(Decimal { mantissa: if negative { -magnitude } else { magnitude }, scale: places as u8 })
}

} // verus!
