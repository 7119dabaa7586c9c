//! Decimal fixed-point parameters and rounding.

use vstd::prelude::*;
use crate::text::{decimal, digit_char, push_decimal};

verus! {

/// A decimal number with three fractional digits, held as its count of thousandths:
/// `Milli(1500)` is 1.5 and `Milli(-250)` is -0.25.
#[derive(Clone, Copy, Debug, PartialEq, Eq, Structural)]
pub struct Milli(pub i64);

/// The integer nearest to `n / d` for a positive `d`; of two equally near, the greater.
pub open spec fn round_div(n: int, d: int) -> int {
    (2 * n + d) / (2 * d)
}

/// `round_div(n, d)` is no further than one half from `n / d`.
pub proof fn lemma_round_div_nearest(n: int, d: int)
    requires
        d > 0,
    ensures
        2 * d * round_div(n, d) - d <= 2 * n < 2 * d * round_div(n, d) + d,
{
    let r = round_div(n, d);
    vstd::arithmetic::div_mod::lemma_fundamental_div_mod(2 * n + d, 2 * d);
    vstd::arithmetic::div_mod::lemma_mod_bound(2 * n + d, 2 * d);
    assert(2 * d * r == (2 * d) * r) by (nonlinear_arith);
}

/// Rounding to the nearest integer is rounding down after adding one half.
pub proof fn lemma_round_div_floor(n: int, d: int)
    requires
        d > 0,
        d % 2 == 0,
    ensures
        round_div(n, d) == (n + d / 2) / d,
{
    let q = (n + d / 2) / d;
    let r = (n + d / 2) % d;
    vstd::arithmetic::div_mod::lemma_fundamental_div_mod(n + d / 2, d);
    vstd::arithmetic::div_mod::lemma_mod_bound(n + d / 2, d);
    assert(2 * n + d == q * (2 * d) + 2 * r) by (nonlinear_arith)
        requires
            n + d / 2 == d * q + r,
            d % 2 == 0,
    ;
    vstd::arithmetic::div_mod::lemma_fundamental_div_mod_converse(2 * n + d, 2 * d, q, 2 * r);
}

/// The quotient of `a` by a positive `d`, rounded toward zero.
pub open spec fn trunc_div(a: int, d: int) -> int {
    if a >= 0 {
        a / d
    } else {
        -((-a) / d)
    }
}

/// `v` held to the range of an 8-bit sample, 0 to 255.
pub open spec fn clamp_sample(v: int) -> int {
    if v < 0 {
        0
    } else if v > 255 {
        255
    } else {
        v
    }
}

/// The digits after the decimal point for `f` thousandths, without trailing zeros.
pub open spec fn fraction_digits(f: int) -> Seq<char> {
    if f % 100 == 0 {
        seq![digit_char(f / 100)]
    } else if f % 10 == 0 {
        seq![digit_char(f / 100), digit_char((f / 10) % 10)]
    } else {
        seq![digit_char(f / 100), digit_char((f / 10) % 10), digit_char(f % 10)]
    }
}

/// The shortest decimal numeral of a non-negative count of thousandths.
pub open spec fn unsigned_milli_text(n: nat) -> Seq<char> {
    if n % 1000 == 0 {
        decimal(n / 1000)
    } else {
        decimal(n / 1000) + seq!['.'] + fraction_digits((n % 1000) as int)
    }
}

impl Milli {
    /// The count of thousandths.
    pub open spec fn thousandths(self) -> int {
        self.0 as int
    }

    /// The shortest decimal numeral of the number, such as `15`, `0.5` or `-1.25`.
    pub open spec fn text(self) -> Seq<char> {
        if self.0 < 0 {
            seq!['-'] + unsigned_milli_text((-self.0) as nat)
        } else {
            unsigned_milli_text(self.0 as nat)
        }
    }

    /// Whether the number lies between `low` and `high` thousandths, both included.
    pub fn within(self, low: i64, high: i64) -> (r: bool)
        ensures
            r == (low <= self.thousandths() <= high),
    {
        low <= self.0 && self.0 <= high
    }

    /// Appends the numeral of the number to `s`.
    pub fn push_text(self, s: &mut String)
        ensures
            final(s)@ == old(s)@ + self.text(),
    {
        let magnitude: u64 = if self.0 < 0 {
            s.push('-');
            if self.0 == i64::MIN {
                9223372036854775808u64
            } else {
                (-self.0) as u64
            }
        } else {
            self.0 as u64
        };
        let ghost before = s@;
        push_decimal(s, magnitude / 1000);
        let f: u64 = magnitude % 1000;
        if f != 0 {
            s.push('.');
            s.push((48u8 + (f / 100) as u8) as char);
            if f % 100 != 0 {
                s.push((48u8 + ((f / 10) % 10) as u8) as char);
                if f % 10 != 0 {
                    s.push((48u8 + (f % 10) as u8) as char);
                }
            }
        }
        assert(s@ =~= before + unsigned_milli_text(magnitude as nat));
        assert(s@ =~= old(s)@ + self.text());
    }
}

} // verus!
