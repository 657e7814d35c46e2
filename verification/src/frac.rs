//! Exact rational numbers used for derived pixel positions.
//!
//! Coordinates and data values in this crate are integers; positions that
//! arise from projecting a domain onto a pixel range are exact fractions.
//! A `Frac` carries a numerator and a positive denominator; equality and
//! order are those of the rational values, not of the representations.

use vstd::prelude::*;

verus! {

/// An exact rational number `num / den` with `den >= 1`.
#[derive(Clone, Copy, Debug)]
pub struct Frac {
    pub num: i64,
    pub den: i64,
}

impl Frac {
    /// Validity: the denominator is positive.
    pub open spec fn wf(self) -> bool {
        self.den >= 1
    }

    /// The value of `self` equals the rational `n / d` (for `d > 0`).
    pub open spec fn is_rat(self, n: int, d: int) -> bool {
        self.num * d == n * self.den
    }

    /// The value of `self` equals the integer `n`.
    pub open spec fn is_int(self, n: int) -> bool {
        self.num == n * self.den
    }

    /// Value equality: `self` and `o` denote the same rational.
    pub open spec fn veq(self, o: Frac) -> bool {
        self.num * o.den == o.num * self.den
    }

    /// Strict value order (meaningful when both sides are well formed).
    pub open spec fn vlt(self, o: Frac) -> bool {
        self.num * o.den < o.num * self.den
    }

    /// Non-strict value order.
    pub open spec fn vle(self, o: Frac) -> bool {
        self.num * o.den <= o.num * self.den
    }

    /// The fraction with value `n`.
    pub fn from_int(n: i64) -> (r: Frac)
        ensures
            r.wf(),
            r.num == n,
            r.den == 1,
    {
        Frac { num: n, den: 1 }
    }

    /// Builds `n / d`, normalising the sign so that the denominator is positive.
    pub fn new(n: i64, d: i64) -> (r: Frac)
        requires
            d != 0,
            n > i64::MIN,
            d > i64::MIN,
        ensures
            r.wf(),
            d > 0 ==> r.num == n && r.den == d,
            d < 0 ==> r.num == -n && r.den == -d,
            r.is_rat(n as int, d as int),
    {
        let r = if d > 0 {
            Frac { num: n, den: d }
        } else {
            Frac { num: -n, den: -d }
        };
        proof {
            assert(r.num * d == n * r.den) by (nonlinear_arith)
                requires
                    (d > 0 && r.num == n && r.den == d) || (d < 0 && r.num == -n && r.den == -d),
            ;
        }
        r
    }

    /// True iff the value of `self` is strictly below the value of `o`.
    pub fn lt(&self, o: &Frac) -> (r: bool)
        requires
            self.wf(),
            o.wf(),
        ensures
            r == self.vlt(*o),
    {
        mul_wide(self.num, o.den) < mul_wide(o.num, self.den)
    }

    /// True iff the value of `self` is at most the value of `o`.
    pub fn le(&self, o: &Frac) -> (r: bool)
        requires
            self.wf(),
            o.wf(),
        ensures
            r == self.vle(*o),
    {
        mul_wide(self.num, o.den) <= mul_wide(o.num, self.den)
    }

    /// True iff the value of `self` is strictly negative.
    pub fn is_neg(&self) -> (r: bool)
        requires
            self.wf(),
        ensures
            r == (self.num < 0),
    {
        self.num < 0
    }

    /// True iff the value of `self` is strictly positive.
    pub fn is_pos(&self) -> (r: bool)
        requires
            self.wf(),
        ensures
            r == (self.num > 0),
    {
        self.num > 0
    }

    /// Half of the value: the same numerator over twice the denominator.
    pub fn half(&self) -> (r: Frac)
        requires
            self.wf(),
            self.den <= 2_000_000_000,
        ensures
            r.wf(),
            r.num == self.num,
            r.den == 2 * self.den,
    {
        Frac { num: self.num, den: 2 * self.den }
    }

    /// The value `n - self`, kept over this fraction's denominator.
    pub fn sub_from_int(&self, n: i64) -> (r: Frac)
        requires
            self.wf(),
            -1_000_000_000_000_000 <= n * self.den <= 1_000_000_000_000_000,
            -1_000_000_000_000_000 <= self.num <= 1_000_000_000_000_000,
        ensures
            r.wf(),
            r.num == n * self.den - self.num,
            r.den == self.den,
    {
        Frac { num: n * self.den - self.num, den: self.den }
    }

    /// The difference `self - o` of two fractions over one denominator.
    pub fn sub_same_den(&self, o: &Frac) -> (r: Frac)
        requires
            self.wf(),
            o.wf(),
            self.den == o.den,
            -1_000_000_000_000_000_000 <= self.num <= 1_000_000_000_000_000_000,
            -1_000_000_000_000_000_000 <= o.num <= 1_000_000_000_000_000_000,
        ensures
            r.wf(),
            r.num == self.num - o.num,
            r.den == self.den,
    {
        Frac { num: self.num - o.num, den: self.den }
    }

    /// The magnitude of the value.
    pub fn abs(&self) -> (r: Frac)
        requires
            self.wf(),
            self.num > i64::MIN,
        ensures
            r.wf(),
            r.den == self.den,
            r.num == if self.num >= 0 {
                self.num as int
            } else {
                -self.num as int
            },
    {
        if self.num >= 0 {
            Frac { num: self.num, den: self.den }
        } else {
            Frac { num: -self.num, den: self.den }
        }
    }
}

impl PartialEq for Frac {
    /// Equality of values: `4/2 == 2/1`.
    fn eq(&self, o: &Frac) -> (r: bool) {
        mul_wide(self.num, o.den) == mul_wide(o.num, self.den)
    }
}

impl vstd::std_specs::cmp::PartialEqSpecImpl for Frac {
    open spec fn obeys_eq_spec() -> bool {
        true
    }

    open spec fn eq_spec(&self, o: &Frac) -> bool {
        self.veq(*o)
    }
}

/// Floor division of `a` by a positive `b`; agrees with the mathematical
/// quotient `a / b` rounded towards minus infinity.
pub fn div_floor(a: i64, b: i64) -> (q: i64)
    requires
        b >= 1,
        a > i64::MIN,
    ensures
        q == a as int / b as int,
{
    if a >= 0 {
        let q0: u64 = (a as u64) / (b as u64);
        q0 as i64
    } else {
        let m: u64 = (-a) as u64;
        let q0: u64 = m / (b as u64);
        let r0: u64 = m % (b as u64);
        proof {
            vstd::arithmetic::div_mod::lemma_fundamental_div_mod(m as int, b as int);
            vstd::arithmetic::div_mod::lemma_mod_bound(m as int, b as int);
            if r0 == 0 {
                assert(a as int == (-(q0 as int)) * b + 0) by (nonlinear_arith)
                    requires
                        m == q0 * b + r0,
                        r0 == 0,
                        a == -(m as int),
                ;
                vstd::arithmetic::div_mod::lemma_fundamental_div_mod_converse(
                    a as int,
                    b as int,
                    -(q0 as int),
                    0,
                );
            } else {
                assert(a as int == (-(q0 as int) - 1) * b + (b - r0)) by (nonlinear_arith)
                    requires
                        m == q0 * b + r0,
                        a == -(m as int),
                ;
                vstd::arithmetic::div_mod::lemma_fundamental_div_mod_converse(
                    a as int,
                    b as int,
                    -(q0 as int) - 1,
                    b - r0,
                );
            }
        }
        if r0 == 0 {
            -(q0 as i64)
        } else {
            -(q0 as i64) - 1
        }
    }
}

/// Euclidean remainder of `a` modulo a positive `b`: the result lies in `[0, b)`.
pub fn mod_floor(a: i64, b: i64) -> (r: i64)
    requires
        b >= 1,
        a > i64::MIN,
    ensures
        r == a as int % b as int,
        0 <= r < b,
{
    if a >= 0 {
        let r0: u64 = (a as u64) % (b as u64);
        r0 as i64
    } else {
        let m: u64 = (-a) as u64;
        let r0: u64 = m % (b as u64);
        proof {
            vstd::arithmetic::div_mod::lemma_fundamental_div_mod(m as int, b as int);
            vstd::arithmetic::div_mod::lemma_mod_bound(m as int, b as int);
            let q0 = m as int / b as int;
            if r0 == 0 {
                assert(a as int == (-q0) * b + 0) by (nonlinear_arith)
                    requires
                        m == q0 * b + r0,
                        r0 == 0,
                        a == -(m as int),
                ;
                vstd::arithmetic::div_mod::lemma_fundamental_div_mod_converse(
                    a as int,
                    b as int,
                    -q0,
                    0,
                );
            } else {
                assert(a as int == (-q0 - 1) * b + (b - r0)) by (nonlinear_arith)
                    requires
                        m == q0 * b + r0,
                        a == -(m as int),
                ;
                vstd::arithmetic::div_mod::lemma_fundamental_div_mod_converse(
                    a as int,
                    b as int,
                    -q0 - 1,
                    b - r0,
                );
            }
        }
        if r0 == 0 {
            0
        } else {
            b - (r0 as i64)
        }
    }
}

/// The ceiling of `a / b` for positive `b`, written through floor division.
pub open spec fn ceil_div(a: int, b: int) -> int {
    -((-a) / b)
}

/// Relates the ceiling to the floor: they agree on exact multiples and
/// differ by one everywhere else.
pub proof fn lemma_ceil_div(a: int, b: int)
    requires
        b >= 1,
    ensures
        ceil_div(a, b) == if a % b == 0 {
            a / b
        } else {
            a / b + 1
        },
{
    let q = a / b;
    let r = a % b;
    vstd::arithmetic::div_mod::lemma_fundamental_div_mod(a, b);
    vstd::arithmetic::div_mod::lemma_mod_bound(a, b);
    if r == 0 {
        assert(-a == (-q) * b + 0) by (nonlinear_arith)
            requires
                a == q * b + r,
                r == 0,
        ;
        vstd::arithmetic::div_mod::lemma_fundamental_div_mod_converse(-a, b, -q, 0);
    } else {
        assert(-a == (-q - 1) * b + (b - r)) by (nonlinear_arith)
            requires
                a == q * b + r,
        ;
        vstd::arithmetic::div_mod::lemma_fundamental_div_mod_converse(-a, b, -q - 1, b - r);
    }
}

/// Multiplies two 64-bit integers without overflow, widening to 128 bits.
pub fn mul_wide(a: i64, b: i64) -> (r: i128)
    ensures
        r == a * b,
{
    proof {
        assert(i128::MIN <= a * b <= i128::MAX) by (nonlinear_arith)
            requires
                i64::MIN <= a <= i64::MAX,
                i64::MIN <= b <= i64::MAX,
        ;
    }
    (a as i128) * (b as i128)
}

} // verus!
