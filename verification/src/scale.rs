//! Scales: mappings from a data domain onto a pixel range.
//!
//! A scale projects a numeric or categorical domain interval onto a pixel
//! range, reports the pixel width of one discrete unit (its segment), and
//! derives the list of tick values to label.  Two variants exist: a plain
//! linear scale, and a rounded one whose effective bounds are snapped
//! outward to multiples of a computed "nice" tick step.

use vstd::prelude::*;

use crate::error::ChartError;
use crate::frac::{ceil_div, div_floor, lemma_ceil_div, mod_floor, Frac};

verus! {

/// Largest magnitude accepted for domain bounds, range bounds and data
/// values.  Keeps every derived product inside 64 bits.
pub const COORD_LIMIT: i64 = 1_000_000;

/// Largest magnitude accepted for a value handed to `offset`; wide enough
/// for every tick of a rounded scale, whose snapped bounds can lie far
/// outside the raw domain.
pub const OFFSET_LIMIT: i64 = 60_000_000;

/// The numerator of the affine projection of `x` from domain `(lo, hi)`
/// onto range `(r0, r1)`; the corresponding denominator is `hi - lo`.
pub open spec fn affine_num(lo: int, hi: int, r0: int, r1: int, x: int) -> int {
    r0 * (hi - lo) + (x - lo) * (r1 - r0)
}

/// Snaps the rational `n / d` down to a multiple of `s` (for `d, s >= 1`):
/// an exact multiple moves one full step further down, zero stays put.
pub open spec fn round_down(n: int, d: int, s: int) -> int {
    let m = d * s;
    if n == 0 {
        0
    } else if n % m == 0 {
        (n / m - 1) * s
    } else {
        (n / m) * s
    }
}

/// Snaps the rational `n / d` up to a multiple of `s` (for `d, s >= 1`):
/// an exact multiple moves one full step further up, zero stays put.
pub open spec fn round_up(n: int, d: int, s: int) -> int {
    let m = d * s;
    if n == 0 {
        0
    } else if n % m == 0 {
        (n / m + 1) * s
    } else {
        ceil_div(n, m) * s
    }
}

/// Which side of the domain a bound is snapped for.
#[derive(Clone, Copy, Debug, PartialEq, Eq, Structural)]
pub enum Bound {
    Begin,
    End,
}

impl Bound {
    /// The direction in which this bound moves an exact multiple.
    pub open spec fn sign_spec(self) -> int {
        match self {
            Bound::Begin => -1,
            Bound::End => 1,
        }
    }

    /// Returns `-1` for `Begin` and `1` for `End`.
    pub fn sign(self) -> (r: i64)
        ensures
            r == self.sign_spec(),
    {
        match self {
            Bound::Begin => -1,
            Bound::End => 1,
        }
    }

    /// The snapped bound for the rational `n / d` and step `s`.
    pub open spec fn bound_spec(self, n: int, d: int, s: int) -> int {
        match self {
            Bound::Begin => round_down(n, d, s),
            Bound::End => round_up(n, d, s),
        }
    }

    /// Snaps the value `v` outward to a multiple of `segment`: `Begin`
    /// rounds down, `End` rounds up, an exact multiple moves one full step
    /// further out, and zero is a fixed point.
    pub fn bound(self, v: Frac, segment: i64) -> (r: i64)
        requires
            v.wf(),
            1 <= segment,
            v.den * segment <= i64::MAX,
            -i64::MAX + 2 * segment <= v.num <= i64::MAX - 2 * segment,
        ensures
            r == self.bound_spec(v.num as int, v.den as int, segment as int),
            r % segment == 0,
            self == Bound::Begin ==> v.num - segment * v.den <= r * v.den <= v.num,
            self == Bound::End ==> v.num <= r * v.den <= v.num + segment * v.den,
    {
        proof {
            assert(1 <= v.den * segment) by (nonlinear_arith)
                requires
                    1 <= v.den,
                    1 <= segment,
            ;
        }
        let m: i64 = v.den * segment;
        if v.num == 0 {
            proof {
                vstd::arithmetic::div_mod::lemma_small_mod(0nat, segment as nat);
                assert(0 * v.den == 0) by (nonlinear_arith);
            }
            0
        } else {
            let q: i64 = div_floor(v.num, m);
            let rem: i64 = mod_floor(v.num, m);
            proof {
                vstd::arithmetic::div_mod::lemma_fundamental_div_mod(v.num as int, m as int);
                lemma_ceil_div(v.num as int, m as int);
                assert((v.num >= 0 ==> 0 <= q <= v.num) && (v.num < 0 ==> v.num <= q <= 0))
                    by (nonlinear_arith)
                    requires
                        v.num == q * m + rem,
                        0 <= rem < m,
                        1 <= m,
                ;
            }
            let k: i64 = if rem == 0 {
                match self {
                    Bound::Begin => q - 1,
                    Bound::End => q + 1,
                }
            } else {
                match self {
                    Bound::Begin => q,
                    Bound::End => q + 1,
                }
            };
            proof {
                let n = v.num as int;
                let d = v.den as int;
                let s = segment as int;
                assert(n - m <= k * m <= n + m && (self == Bound::Begin ==> k * m <= n) && (self
                    == Bound::End ==> n <= k * m)) by (nonlinear_arith)
                    requires
                        n == q * m + rem,
                        0 <= rem < m,
                        1 <= m,
                        self == Bound::Begin ==> ((k == q - 1 && rem == 0) || (k == q && rem != 0)),
                        self == Bound::End ==> k == q + 1,
                ;
                assert(k * m == (k * s) * d && m == s * d) by (nonlinear_arith)
                    requires
                        m == d * s,
                ;
                assert(-i64::MAX <= k * s <= i64::MAX) by (nonlinear_arith)
                    requires
                        n - m <= (k * s) * d <= n + m,
                        m == d * s,
                        1 <= d,
                        1 <= s,
                        m <= i64::MAX,
                        -i64::MAX + 2 * s <= n <= i64::MAX - 2 * s,
                ;
                vstd::arithmetic::div_mod::lemma_mod_multiples_basic(k as int, s);
            }
            k * segment
        }
    }
}

/// The "nice" tick step for a domain of width `n` shown on a range of
/// width `h` (one tick per 25 pixels): a raw ratio of at most one unit per
/// tick gives step 1, at most two gives step 2, anything larger is rounded
/// up to the next multiple of 5.
pub open spec fn nice_step(n: int, h: int) -> int {
    let nn = if h > 0 {
        n
    } else {
        -n
    };
    let hh = if h > 0 {
        h
    } else {
        -h
    };
    if 25 * nn <= hh {
        1
    } else if 25 * nn <= 2 * hh {
        2
    } else {
        5 * ceil_div(5 * nn, hh)
    }
}

/// The snapped bounds stay within one step of the value they round:
/// `round_down` lands in `[v - s, v]` and `round_up` in `[v, v + s]`,
/// where `v` is the rational `n / d` (stated multiplied out by `d`).
pub proof fn lemma_round_bounds(n: int, d: int, s: int)
    requires
        1 <= d,
        1 <= s,
    ensures
        n - s * d <= round_down(n, d, s) * d <= n,
        n <= round_up(n, d, s) * d <= n + s * d,
{
    let m = d * s;
    assert(1 <= m && m == s * d) by (nonlinear_arith)
        requires
            1 <= d,
            1 <= s,
            m == d * s,
    ;
    if n == 0 {
        assert(round_down(n, d, s) * d == 0) by (nonlinear_arith)
            requires
                round_down(n, d, s) == 0,
        ;
        assert(round_up(n, d, s) * d == 0) by (nonlinear_arith)
            requires
                round_up(n, d, s) == 0,
        ;
    } else {
        let q = n / m;
        let rem = n % m;
        vstd::arithmetic::div_mod::lemma_fundamental_div_mod(n, m);
        vstd::arithmetic::div_mod::lemma_mod_bound(n, m);
        lemma_ceil_div(n, m);
        let kd = if rem == 0 {
            q - 1
        } else {
            q
        };
        let ku = q + 1;
        assert(round_down(n, d, s) == kd * s && round_up(n, d, s) == ku * s);
        assert((kd * s) * d == kd * m && (ku * s) * d == ku * m) by (nonlinear_arith)
            requires
                m == d * s,
        ;
        assert(n - m <= kd * m <= n && n <= ku * m <= n + m) by (nonlinear_arith)
            requires
                n == q * m + rem,
                0 <= rem < m,
                1 <= m,
                (kd == q - 1 && rem == 0) || (kd == q && rem != 0),
                ku == q + 1,
        ;
    }
}

/// A plain linear scale: an affine projection of domain `(lo, hi)` onto
/// pixel range `(start, stop)`.  The domain is fixed at construction; the
/// range is attached later through `with_range`.
#[derive(Clone, Copy, Debug)]
pub struct LinearScale {
    pub domain: (i64, i64),
    pub range: (i64, i64),
}

impl LinearScale {
    /// Validity: bounds within `COORD_LIMIT` and a non-degenerate domain.
    pub open spec fn wf(self) -> bool {
        &&& -COORD_LIMIT <= self.domain.0 <= COORD_LIMIT
        &&& -COORD_LIMIT <= self.domain.1 <= COORD_LIMIT
        &&& -COORD_LIMIT <= self.range.0 <= COORD_LIMIT
        &&& -COORD_LIMIT <= self.range.1 <= COORD_LIMIT
        &&& self.domain.0 != self.domain.1
    }

    /// The width of the domain, always positive for a well-formed scale.
    pub open spec fn dwidth(self) -> int {
        if self.domain.1 > self.domain.0 {
            self.domain.1 - self.domain.0
        } else {
            self.domain.0 - self.domain.1
        }
    }

    /// Builds a scale over domain `(start, stop)` with an empty range;
    /// rejects a zero-width domain.
    pub fn new(start: i64, stop: i64) -> (r: Result<LinearScale, ChartError>)
        requires
            -COORD_LIMIT <= start <= COORD_LIMIT,
            -COORD_LIMIT <= stop <= COORD_LIMIT,
        ensures
            match r {
                Ok(s) => start != stop && s.wf() && s.domain == (start, stop) && s.range == (
                0i64,
                0i64,
                ),
                Err(e) => start == stop && e == ChartError::DegenerateDomain,
            },
    {
        if start == stop {
            Err(ChartError::DegenerateDomain)
        } else {
            Ok(LinearScale { domain: (start, stop), range: (0, 0) })
        }
    }

    /// A copy of this scale with the same domain and the given range.
    pub fn with_range(&self, start: i64, stop: i64) -> (r: LinearScale)
        requires
            self.wf(),
            -COORD_LIMIT <= start <= COORD_LIMIT,
            -COORD_LIMIT <= stop <= COORD_LIMIT,
        ensures
            r.wf(),
            r.domain == self.domain,
            r.range == (start, stop),
    {
        LinearScale { domain: self.domain, range: (start, stop) }
    }

    /// The affine projection of `x` into the pixel range: the exact
    /// rational `affine_num(..) / (hi - lo)`.
    pub fn offset(&self, x: i64) -> (r: Frac)
        requires
            self.wf(),
            -OFFSET_LIMIT <= x <= OFFSET_LIMIT,
        ensures
            r.wf(),
            r.is_rat(
                affine_num(
                    self.domain.0 as int,
                    self.domain.1 as int,
                    self.range.0 as int,
                    self.range.1 as int,
                    x as int,
                ),
                self.domain.1 - self.domain.0,
            ),
            r.den == self.dwidth(),
            r.num == if self.domain.1 > self.domain.0 {
                affine_num(
                    self.domain.0 as int,
                    self.domain.1 as int,
                    self.range.0 as int,
                    self.range.1 as int,
                    x as int,
                )
            } else {
                -affine_num(
                    self.domain.0 as int,
                    self.domain.1 as int,
                    self.range.0 as int,
                    self.range.1 as int,
                    x as int,
                )
            },
            -500_000_000_000_000 <= r.num <= 500_000_000_000_000,
            r.den <= 2_000_000,
    {
        let lo: i64 = self.domain.0;
        let hi: i64 = self.domain.1;
        let r0: i64 = self.range.0;
        let r1: i64 = self.range.1;
        proof {
            assert(-4_000_000_000_000 <= r0 * (hi - lo) <= 4_000_000_000_000
                && -250_000_000_000_000 <= (x - lo) * (r1 - r0) <= 250_000_000_000_000)
                by (nonlinear_arith)
                requires
                    -COORD_LIMIT <= r0 <= COORD_LIMIT,
                    -COORD_LIMIT <= r1 <= COORD_LIMIT,
                    -COORD_LIMIT <= lo <= COORD_LIMIT,
                    -COORD_LIMIT <= hi <= COORD_LIMIT,
                    -OFFSET_LIMIT <= x <= OFFSET_LIMIT,
                    COORD_LIMIT == 1_000_000,
                    OFFSET_LIMIT == 60_000_000,
            ;
        }
        let n: i64 = r0 * (hi - lo) + (x - lo) * (r1 - r0);
        Frac::new(n, hi - lo)
    }

    /// The pixel width of one unit of domain: `(r1 - r0) / (hi - lo)`.
    pub fn segment(&self) -> (r: Frac)
        requires
            self.wf(),
        ensures
            r.wf(),
            r.is_rat(self.range.1 - self.range.0, self.domain.1 - self.domain.0),
            r.den == self.dwidth(),
            r.num == if self.domain.1 > self.domain.0 {
                self.range.1 - self.range.0
            } else {
                -(self.range.1 - self.range.0)
            },
    {
        Frac::new(self.range.1 - self.range.0, self.domain.1 - self.domain.0)
    }

    /// The tick values of a plain linear scale: one per whole unit of
    /// domain width, counted from zero.
    pub fn ticks(&self) -> (r: Vec<i64>)
        requires
            self.wf(),
        ensures
            self.domain.1 > self.domain.0 ==> r@.len() == self.domain.1 - self.domain.0 + 1,
            self.domain.1 < self.domain.0 ==> r@.len() == 0,
            forall|i: int| 0 <= i < r@.len() ==> r@[i] == i,
    {
        let lo: i64 = self.domain.0;
        let hi: i64 = self.domain.1;
        let mut v: Vec<i64> = Vec::new();
        if hi > lo {
            let count: i64 = hi - lo + 1;
            let mut i: i64 = 0;
            while i < count
                invariant
                    0 <= i <= count,
                    count == hi - lo + 1,
                    v@.len() == i,
                    forall|j: int| 0 <= j < i ==> v@[j] == j,
                decreases count - i,
            {
                v.push(i);
                i = i + 1;
            }
        }
        v
    }
}

/// A linear scale whose effective domain bounds are snapped outward to
/// multiples of the computed nice tick step, so that printed tick labels
/// fall on human-friendly values.
#[derive(Clone, Copy, Debug)]
pub struct LinearRoundedScale {
    pub domain: (i64, i64),
    pub range: (i64, i64),
}

impl LinearRoundedScale {
    /// Validity: bounds within `COORD_LIMIT` and a non-degenerate domain.
    pub open spec fn wf(self) -> bool {
        &&& -COORD_LIMIT <= self.domain.0 <= COORD_LIMIT
        &&& -COORD_LIMIT <= self.domain.1 <= COORD_LIMIT
        &&& -COORD_LIMIT <= self.range.0 <= COORD_LIMIT
        &&& -COORD_LIMIT <= self.range.1 <= COORD_LIMIT
        &&& self.domain.0 != self.domain.1
    }

    /// A scale that can answer projection queries: the tick step divides
    /// the range width, so the range must not be empty.
    pub open spec fn ranged(self) -> bool {
        &&& self.wf()
        &&& self.range.0 != self.range.1
    }

    /// The nice tick step of this scale.
    pub open spec fn step_spec(self) -> int {
        nice_step(self.domain.1 - self.domain.0, self.range.1 - self.range.0)
    }

    /// The lower effective domain bound: the lower domain bound snapped
    /// down to a multiple of the step.
    pub open spec fn eff_begin(self) -> int {
        round_down(self.domain.0 as int, 1, self.step_spec())
    }

    /// The upper effective domain bound: the upper domain bound snapped
    /// up to a multiple of the step.
    pub open spec fn eff_end(self) -> int {
        round_up(self.domain.1 as int, 1, self.step_spec())
    }

    /// Builds a scale over domain `(start, stop)` with an empty range;
    /// rejects a zero-width domain.
    pub fn new(start: i64, stop: i64) -> (r: Result<LinearRoundedScale, ChartError>)
        requires
            -COORD_LIMIT <= start <= COORD_LIMIT,
            -COORD_LIMIT <= stop <= COORD_LIMIT,
        ensures
            match r {
                Ok(s) => start != stop && s.wf() && s.domain == (start, stop) && s.range == (
                0i64,
                0i64,
                ),
                Err(e) => start == stop && e == ChartError::DegenerateDomain,
            },
    {
        if start == stop {
            Err(ChartError::DegenerateDomain)
        } else {
            Ok(LinearRoundedScale { domain: (start, stop), range: (0, 0) })
        }
    }

    /// A copy of this scale with the same domain and the given range.
    pub fn with_range(&self, start: i64, stop: i64) -> (r: LinearRoundedScale)
        requires
            self.wf(),
            -COORD_LIMIT <= start <= COORD_LIMIT,
            -COORD_LIMIT <= stop <= COORD_LIMIT,
        ensures
            r.wf(),
            r.domain == self.domain,
            r.range == (start, stop),
    {
        LinearRoundedScale { domain: self.domain, range: (start, stop) }
    }

    /// The nice tick step, as an integer.
    fn step(&self) -> (r: i64)
        requires
            self.ranged(),
        ensures
            r == self.step_spec(),
            1 <= r <= 25 * 2 * COORD_LIMIT + 5,
    {
        let n: i64 = self.domain.1 - self.domain.0;
        let h: i64 = self.range.1 - self.range.0;
        let nn: i64 = if h > 0 {
            n
        } else {
            -n
        };
        let hh: i64 = if h > 0 {
            h
        } else {
            -h
        };
        if 25 * nn <= hh {
            1
        } else if 25 * nn <= 2 * hh {
            2
        } else {
            let q: i64 = div_floor(5 * nn, hh);
            let rem: i64 = mod_floor(5 * nn, hh);
            proof {
                vstd::arithmetic::div_mod::lemma_fundamental_div_mod(5 * nn as int, hh as int);
                lemma_ceil_div(5 * nn as int, hh as int);
                assert(0 <= q <= 5 * nn && (rem == 0 ==> q >= 1)) by (nonlinear_arith)
                    requires
                        5 * nn == q * hh + rem,
                        0 <= rem < hh,
                        1 <= hh,
                        0 < 5 * nn,
                ;
            }
            let c: i64 = if rem == 0 {
                q
            } else {
                q + 1
            };
            5 * c
        }
    }

    /// The effective domain bounds `(begin, end)`: the domain bounds
    /// snapped outward to multiples of the step.
    fn begin_end(&self) -> (r: (i64, i64))
        requires
            self.ranged(),
        ensures
            r.0 == self.eff_begin(),
            r.1 == self.eff_end(),
            (r.0 as int) % self.step_spec() == 0,
            (r.1 as int) % self.step_spec() == 0,
            self.domain.0 - self.step_spec() <= r.0 <= self.domain.0,
            self.domain.1 <= r.1 <= self.domain.1 + self.step_spec(),
            -(26 * COORD_LIMIT + 5) * 2 <= r.0 <= (26 * COORD_LIMIT + 5) * 2,
            -(26 * COORD_LIMIT + 5) * 2 <= r.1 <= (26 * COORD_LIMIT + 5) * 2,
    {
        let s: i64 = self.step();
        let b: i64 = Bound::Begin.bound(Frac::from_int(self.domain.0), s);
        let e: i64 = Bound::End.bound(Frac::from_int(self.domain.1), s);
        (b, e)
    }

    /// For an ascending domain the effective bounds bracket it strictly.
    pub proof fn lemma_eff_ordered(self)
        requires
            self.ranged(),
            self.domain.0 < self.domain.1,
        ensures
            self.eff_begin() <= self.domain.0,
            self.domain.1 <= self.eff_end(),
            self.eff_begin() < self.eff_end(),
    {
        let s = self.step_spec();
        lemma_nice_step_pos(
            self.domain.1 - self.domain.0,
            self.range.1 - self.range.0,
        );
        lemma_round_bounds(self.domain.0 as int, 1, s);
        lemma_round_bounds(self.domain.1 as int, 1, s);
    }

    /// The affine projection of `x` onto the pixel range, measured over
    /// the effective (snapped) domain bounds.
    pub fn offset(&self, x: i64) -> (r: Frac)
        requires
            self.ranged(),
            self.eff_begin() != self.eff_end(),
            -OFFSET_LIMIT <= x <= OFFSET_LIMIT,
        ensures
            r.wf(),
            r.is_rat(
                affine_num(
                    self.eff_begin(),
                    self.eff_end(),
                    self.range.0 as int,
                    self.range.1 as int,
                    x as int,
                ),
                self.eff_end() - self.eff_begin(),
            ),
            r.den == if self.eff_end() > self.eff_begin() {
                self.eff_end() - self.eff_begin()
            } else {
                self.eff_begin() - self.eff_end()
            },
            r.num == if self.eff_end() > self.eff_begin() {
                affine_num(
                    self.eff_begin(),
                    self.eff_end(),
                    self.range.0 as int,
                    self.range.1 as int,
                    x as int,
                )
            } else {
                -affine_num(
                    self.eff_begin(),
                    self.eff_end(),
                    self.range.0 as int,
                    self.range.1 as int,
                    x as int,
                )
            },
            -500_000_000_000_000 <= r.num <= 500_000_000_000_000,
            r.den <= 110_000_000,
    {
        let (b, e) = self.begin_end();
        let r0: i64 = self.range.0;
        let r1: i64 = self.range.1;
        proof {
            assert(-250_000_000_000_000 <= r0 * (e - b) <= 250_000_000_000_000
                && -250_000_000_000_000 <= (x - b) * (r1 - r0) <= 250_000_000_000_000)
                by (nonlinear_arith)
                requires
                    -COORD_LIMIT <= r0 <= COORD_LIMIT,
                    -COORD_LIMIT <= r1 <= COORD_LIMIT,
                    -OFFSET_LIMIT <= x <= OFFSET_LIMIT,
                    -(26 * COORD_LIMIT + 5) * 2 <= b <= (26 * COORD_LIMIT + 5) * 2,
                    -(26 * COORD_LIMIT + 5) * 2 <= e <= (26 * COORD_LIMIT + 5) * 2,
                    COORD_LIMIT == 1_000_000,
                    OFFSET_LIMIT == 60_000_000,
            ;
        }
        let n: i64 = r0 * (e - b) + (x - b) * (r1 - r0);
        Frac::new(n, e - b)
    }

    /// The pixel width of one tick's worth of value: the nice step, as an
    /// exact fraction with denominator one.
    pub fn segment(&self) -> (r: Frac)
        requires
            self.ranged(),
        ensures
            r.wf(),
            r.num == self.step_spec(),
            r.den == 1,
    {
        Frac::from_int(self.step())
    }

    /// The number of ticks: one per step from the effective begin to the
    /// effective end, both included.
    pub open spec fn tick_count(self) -> int {
        if self.eff_end() >= self.eff_begin() {
            (self.eff_end() - self.eff_begin()) / self.step_spec() + 1
        } else {
            0
        }
    }

    /// The tick values: `begin, begin + step, ...` up to and including the
    /// effective end.
    pub fn ticks(&self) -> (r: Vec<i64>)
        requires
            self.ranged(),
        ensures
            r@.len() == self.tick_count(),
            forall|i: int|
                0 <= i < r@.len() ==> r@[i] == self.eff_begin() + i * self.step_spec(),
            self.tick_count() >= 1 ==> r@[r@.len() - 1] == self.eff_end(),
    {
        let s: i64 = self.step();
        let (b, e) = self.begin_end();
        proof {
            lemma_round_bounds(self.domain.0 as int, 1, s as int);
            lemma_round_bounds(self.domain.1 as int, 1, s as int);
            vstd::arithmetic::div_mod::lemma_fundamental_div_mod(b as int, s as int);
            vstd::arithmetic::div_mod::lemma_fundamental_div_mod(e as int, s as int);
        }
        let kb: i64 = div_floor(b, s);
        let ke: i64 = div_floor(e, s);
        proof {
            let s_: int = s as int;
            assert(b == kb * s_ && e == ke * s_) by (nonlinear_arith)
                requires
                    (b as int) == s_ * ((b as int) / s_) + (b as int) % s_,
                    (e as int) == s_ * ((e as int) / s_) + (e as int) % s_,
                    kb == (b as int) / s_,
                    ke == (e as int) / s_,
                    (b as int) % s_ == 0,
                    (e as int) % s_ == 0,
            ;
            assert(e - b == (ke - kb) * s_) by (nonlinear_arith)
                requires
                    b == kb * s_,
                    e == ke * s_,
            ;
            vstd::arithmetic::div_mod::lemma_fundamental_div_mod_converse(
                e - b,
                s_,
                ke - kb,
                0,
            );
        }
        let mut v: Vec<i64> = Vec::new();
        if e >= b {
            let count: i64 = (ke - kb) + 1;
            let mut i: i64 = 0;
            while i < count
                invariant
                    0 <= i <= count,
                    count == ke - kb + 1,
                    b == kb * s,
                    e == ke * s,
                    kb <= ke,
                    1 <= s,
                    -(26 * COORD_LIMIT + 5) * 2 <= b <= (26 * COORD_LIMIT + 5) * 2,
                    -(26 * COORD_LIMIT + 5) * 2 <= e <= (26 * COORD_LIMIT + 5) * 2,
                    v@.len() == i,
                    forall|j: int| 0 <= j < i ==> v@[j] == b + j * s,
                decreases count - i,
            {
                proof {
                    assert(0 <= i * (s as int) && b + i * (s as int) <= e) by (nonlinear_arith)
                        requires
                            0 <= i <= ke - kb,
                            1 <= s,
                            b == kb * (s as int),
                            e == ke * (s as int),
                    ;
                }
                v.push(b + i * s);
                i = i + 1;
            }
            proof {
                assert(self.tick_count() == count);
            }
        } else {
            proof {
                assert(self.tick_count() == 0);
            }
        }
        v
    }
}

/// For bounded domain widths the nice step is also bounded: at most one
/// rounding step above 25 domain units per range pixel.
pub proof fn lemma_nice_step_bound(n: int, h: int)
    requires
        h != 0,
        -2_000_000 <= n <= 2_000_000,
    ensures
        1 <= nice_step(n, h) <= 50_000_005,
{
    lemma_nice_step_pos(n, h);
    let nn = if h > 0 {
        n
    } else {
        -n
    };
    let hh = if h > 0 {
        h
    } else {
        -h
    };
    if 25 * nn <= hh {
    } else if 25 * nn <= 2 * hh {
    } else {
        lemma_ceil_div(5 * nn, hh);
        vstd::arithmetic::div_mod::lemma_fundamental_div_mod(5 * nn, hh);
        vstd::arithmetic::div_mod::lemma_mod_bound(5 * nn, hh);
        let q = (5 * nn) / hh;
        let rem = (5 * nn) % hh;
        assert(q <= 5 * nn) by (nonlinear_arith)
            requires
                5 * nn == q * hh + rem,
                0 <= rem < hh,
                1 <= hh,
                0 < 5 * nn,
        ;
    }
}

/// Law: the step is "nice": one, two, or a positive multiple of five, so
/// printed tick labels fall on human-friendly values.
pub proof fn lemma_nice_step_shape(n: int, h: int)
    requires
        h != 0,
    ensures
        nice_step(n, h) == 1 || nice_step(n, h) == 2 || (nice_step(n, h) >= 5 && nice_step(n, h)
            % 5 == 0),
{
    lemma_nice_step_pos(n, h);
    let nn = if h > 0 {
        n
    } else {
        -n
    };
    let hh = if h > 0 {
        h
    } else {
        -h
    };
    if 25 * nn <= hh {
    } else if 25 * nn <= 2 * hh {
    } else {
        let c = ceil_div(5 * nn, hh);
        vstd::arithmetic::div_mod::lemma_mod_multiples_basic(c, 5);
    }
}

/// A positive range width and an ascending domain give a positive step;
/// in fact the step is positive for every non-empty range.
pub proof fn lemma_nice_step_pos(n: int, h: int)
    requires
        h != 0,
    ensures
        nice_step(n, h) >= 1,
{
    let nn = if h > 0 {
        n
    } else {
        -n
    };
    let hh = if h > 0 {
        h
    } else {
        -h
    };
    if 25 * nn <= hh {
    } else if 25 * nn <= 2 * hh {
    } else {
        lemma_ceil_div(5 * nn, hh);
        vstd::arithmetic::div_mod::lemma_fundamental_div_mod(5 * nn, hh);
        vstd::arithmetic::div_mod::lemma_mod_bound(5 * nn, hh);
        let q = (5 * nn) / hh;
        let rem = (5 * nn) % hh;
        assert(q >= 0 && (rem == 0 ==> q >= 1)) by (nonlinear_arith)
            requires
                5 * nn == q * hh + rem,
                0 <= rem < hh,
                1 <= hh,
                0 < 5 * nn,
        ;
    }
}

/// Law: a plain linear scale maps its domain ends exactly onto its range
/// ends.  For fractions shaped as `offset` returns them at `domain.0`
/// and `domain.1`, the values are exactly `range.0` and `range.1`.
pub proof fn lemma_linear_offset_endpoints(s: LinearScale, f_lo: Frac, f_hi: Frac)
    requires
        s.wf(),
        f_lo.den == s.dwidth(),
        f_lo.num == if s.domain.1 > s.domain.0 {
            affine_num(
                s.domain.0 as int,
                s.domain.1 as int,
                s.range.0 as int,
                s.range.1 as int,
                s.domain.0 as int,
            )
        } else {
            -affine_num(
                s.domain.0 as int,
                s.domain.1 as int,
                s.range.0 as int,
                s.range.1 as int,
                s.domain.0 as int,
            )
        },
        f_hi.den == s.dwidth(),
        f_hi.num == if s.domain.1 > s.domain.0 {
            affine_num(
                s.domain.0 as int,
                s.domain.1 as int,
                s.range.0 as int,
                s.range.1 as int,
                s.domain.1 as int,
            )
        } else {
            -affine_num(
                s.domain.0 as int,
                s.domain.1 as int,
                s.range.0 as int,
                s.range.1 as int,
                s.domain.1 as int,
            )
        },
    ensures
        f_lo.is_int(s.range.0 as int),
        f_hi.is_int(s.range.1 as int),
{
    lemma_affine_endpoints(
        s.domain.0 as int,
        s.domain.1 as int,
        s.range.0 as int,
        s.range.1 as int,
    );
    let d = s.domain.1 - s.domain.0;
    assert(f_lo.num == s.range.0 * f_lo.den && f_hi.num == s.range.1 * f_hi.den)
        by (nonlinear_arith)
        requires
            affine_num(
                s.domain.0 as int,
                s.domain.1 as int,
                s.range.0 as int,
                s.range.1 as int,
                s.domain.0 as int,
            ) == s.range.0 * d,
            affine_num(
                s.domain.0 as int,
                s.domain.1 as int,
                s.range.0 as int,
                s.range.1 as int,
                s.domain.1 as int,
            ) == s.range.1 * d,
            d != 0,
            f_lo.den == if d > 0 {
                d
            } else {
                -d
            },
            f_hi.den == f_lo.den,
            f_lo.num == if d > 0 {
                s.range.0 * d
            } else {
                -(s.range.0 * d)
            },
            f_hi.num == if d > 0 {
                s.range.1 * d
            } else {
                -(s.range.1 * d)
            },
    ;
}

/// The affine projection numerator at the domain ends: exactly the range
/// ends times the domain width.
pub proof fn lemma_affine_endpoints(lo: int, hi: int, r0: int, r1: int)
    ensures
        affine_num(lo, hi, r0, r1, lo) == r0 * (hi - lo),
        affine_num(lo, hi, r0, r1, hi) == r1 * (hi - lo),
{
    assert(r0 * (hi - lo) + (lo - lo) * (r1 - r0) == r0 * (hi - lo) && r0 * (hi - lo) + (hi - lo)
        * (r1 - r0) == r1 * (hi - lo)) by (nonlinear_arith);
}

/// Law: with an ascending domain and an ascending range, a plain linear
/// scale's projection is strictly monotone: `x1 < x2` gives
/// `offset(x1) < offset(x2)`.
pub proof fn lemma_linear_offset_monotone(s: LinearScale, x1: int, x2: int, f1: Frac, f2: Frac)
    requires
        s.wf(),
        s.domain.0 < s.domain.1,
        s.range.0 < s.range.1,
        x1 < x2,
        f1.den == s.dwidth(),
        f1.num == affine_num(
            s.domain.0 as int,
            s.domain.1 as int,
            s.range.0 as int,
            s.range.1 as int,
            x1,
        ),
        f2.den == s.dwidth(),
        f2.num == affine_num(
            s.domain.0 as int,
            s.domain.1 as int,
            s.range.0 as int,
            s.range.1 as int,
            x2,
        ),
    ensures
        f1.vlt(f2),
{
    assert(f1.num * f2.den < f2.num * f1.den) by (nonlinear_arith)
        requires
            f1.num == s.range.0 * (s.domain.1 - s.domain.0) + (x1 - s.domain.0) * (s.range.1
                - s.range.0),
            f2.num == s.range.0 * (s.domain.1 - s.domain.0) + (x2 - s.domain.0) * (s.range.1
                - s.range.0),
            f1.den == s.domain.1 - s.domain.0,
            f2.den == f1.den,
            s.domain.0 < s.domain.1,
            s.range.0 < s.range.1,
            x1 < x2,
    ;
}

/// Law: with an ascending domain and an ascending range, a rounded
/// scale's projection is strictly monotone: `x1 < x2` gives
/// `offset(x1) < offset(x2)`.
pub proof fn lemma_rounded_offset_monotone(
    s: LinearRoundedScale,
    x1: int,
    x2: int,
    f1: Frac,
    f2: Frac,
)
    requires
        s.ranged(),
        s.domain.0 < s.domain.1,
        s.range.0 < s.range.1,
        x1 < x2,
        f1.den == s.eff_end() - s.eff_begin(),
        f1.num == affine_num(s.eff_begin(), s.eff_end(), s.range.0 as int, s.range.1 as int, x1),
        f2.den == f1.den,
        f2.num == affine_num(s.eff_begin(), s.eff_end(), s.range.0 as int, s.range.1 as int, x2),
    ensures
        f1.vlt(f2),
{
    s.lemma_eff_ordered();
    let b = s.eff_begin();
    let e = s.eff_end();
    assert(f1.num * f2.den < f2.num * f1.den) by (nonlinear_arith)
        requires
            f1.num == s.range.0 * (e - b) + (x1 - b) * (s.range.1 - s.range.0),
            f2.num == s.range.0 * (e - b) + (x2 - b) * (s.range.1 - s.range.0),
            f1.den == e - b,
            f2.den == f1.den,
            b < e,
            s.range.0 < s.range.1,
            x1 < x2,
    ;
}

/// Law: a rounded scale maps its effective (snapped) domain bounds
/// exactly onto its range ends.
pub proof fn lemma_rounded_offset_endpoints(s: LinearRoundedScale, f_b: Frac, f_e: Frac)
    requires
        s.ranged(),
        s.eff_begin() != s.eff_end(),
        f_b.den == if s.eff_end() > s.eff_begin() {
            s.eff_end() - s.eff_begin()
        } else {
            s.eff_begin() - s.eff_end()
        },
        f_b.num == if s.eff_end() > s.eff_begin() {
            affine_num(
                s.eff_begin(),
                s.eff_end(),
                s.range.0 as int,
                s.range.1 as int,
                s.eff_begin(),
            )
        } else {
            -affine_num(
                s.eff_begin(),
                s.eff_end(),
                s.range.0 as int,
                s.range.1 as int,
                s.eff_begin(),
            )
        },
        f_e.den == f_b.den,
        f_e.num == if s.eff_end() > s.eff_begin() {
            affine_num(s.eff_begin(), s.eff_end(), s.range.0 as int, s.range.1 as int, s.eff_end())
        } else {
            -affine_num(
                s.eff_begin(),
                s.eff_end(),
                s.range.0 as int,
                s.range.1 as int,
                s.eff_end(),
            )
        },
    ensures
        f_b.is_int(s.range.0 as int),
        f_e.is_int(s.range.1 as int),
{
    let b = s.eff_begin();
    let e = s.eff_end();
    lemma_affine_endpoints(b, e, s.range.0 as int, s.range.1 as int);
    assert(f_b.num == s.range.0 * f_b.den && f_e.num == s.range.1 * f_e.den) by (nonlinear_arith)
        requires
            affine_num(b, e, s.range.0 as int, s.range.1 as int, b) == s.range.0 * (e - b),
            affine_num(b, e, s.range.0 as int, s.range.1 as int, e) == s.range.1 * (e - b),
            e != b,
            f_b.den == if e > b {
                e - b
            } else {
                b - e
            },
            f_e.den == f_b.den,
            f_b.num == if e > b {
                s.range.0 * (e - b)
            } else {
                -(s.range.0 * (e - b))
            },
            f_e.num == if e > b {
                s.range.1 * (e - b)
            } else {
                -(s.range.1 * (e - b))
            },
    ;
}

/// The scale capability: a tagged union over the two variants, each
/// implementing `offset`, `segment`, `ticks` and `with_range`.
#[derive(Clone, Copy, Debug)]
pub enum Scale {
    Linear(LinearScale),
    LinearRounded(LinearRoundedScale),
}

impl Scale {
    /// Validity of the underlying variant.
    pub open spec fn wf(self) -> bool {
        match self {
            Scale::Linear(s) => s.wf(),
            Scale::LinearRounded(s) => s.wf(),
        }
    }

    /// Validity including an attached, non-empty range.
    pub open spec fn ranged(self) -> bool {
        match self {
            Scale::Linear(s) => s.wf(),
            Scale::LinearRounded(s) => s.ranged(),
        }
    }

    /// Whether projection queries may be asked: the effective domain must
    /// not collapse.
    pub open spec fn query_ok(self) -> bool {
        match self {
            Scale::Linear(s) => s.wf(),
            Scale::LinearRounded(s) => s.ranged() && s.eff_begin() != s.eff_end(),
        }
    }

    /// The lower domain bound as constructed.
    pub open spec fn domain0(self) -> int {
        match self {
            Scale::Linear(s) => s.domain.0 as int,
            Scale::LinearRounded(s) => s.domain.0 as int,
        }
    }

    /// The upper domain bound as constructed.
    pub open spec fn domain1(self) -> int {
        match self {
            Scale::Linear(s) => s.domain.1 as int,
            Scale::LinearRounded(s) => s.domain.1 as int,
        }
    }

    /// The lower bound of the effective projection domain: the raw bound
    /// for a linear scale, the snapped one for a rounded scale.
    pub open spec fn eff_lo(self) -> int {
        match self {
            Scale::Linear(s) => s.domain.0 as int,
            Scale::LinearRounded(s) => s.eff_begin(),
        }
    }

    /// The upper bound of the effective projection domain.
    pub open spec fn eff_hi(self) -> int {
        match self {
            Scale::Linear(s) => s.domain.1 as int,
            Scale::LinearRounded(s) => s.eff_end(),
        }
    }

    /// The pixel value the effective lower bound projects to.
    pub open spec fn range_start(self) -> int {
        match self {
            Scale::Linear(s) => s.range.0 as int,
            Scale::LinearRounded(s) => s.range.0 as int,
        }
    }

    /// The pixel value the effective upper bound projects to.
    pub open spec fn range_stop(self) -> int {
        match self {
            Scale::Linear(s) => s.range.1 as int,
            Scale::LinearRounded(s) => s.range.1 as int,
        }
    }

    /// The numerator of the exact offset of `x`; the denominator is
    /// `offset_den`.
    pub open spec fn offset_num(self, x: int) -> int {
        affine_num(self.eff_lo(), self.eff_hi(), self.range_start(), self.range_stop(), x)
    }

    /// The (signed) denominator of the exact offset: the effective domain
    /// width.
    pub open spec fn offset_den(self) -> int {
        self.eff_hi() - self.eff_lo()
    }

    /// The magnitude of the effective domain width.
    pub open spec fn abs_den(self) -> int {
        if self.offset_den() > 0 {
            self.offset_den()
        } else {
            -self.offset_den()
        }
    }

    /// The sign-normalised numerator that `offset` returns over `abs_den`.
    pub open spec fn offset_rnum(self, x: int) -> int {
        if self.offset_den() > 0 {
            self.offset_num(x)
        } else {
            -self.offset_num(x)
        }
    }

    /// The numerator of the fraction `segment` returns.
    pub open spec fn segment_num(self) -> int {
        match self {
            Scale::Linear(s) => if s.domain.1 > s.domain.0 {
                s.range.1 - s.range.0
            } else {
                -(s.range.1 - s.range.0)
            },
            Scale::LinearRounded(s) => s.step_spec(),
        }
    }

    /// The denominator of the fraction `segment` returns.
    pub open spec fn segment_den(self) -> int {
        match self {
            Scale::Linear(s) => s.dwidth(),
            Scale::LinearRounded(s) => 1,
        }
    }

    /// An ascending domain with a non-empty range can always be queried,
    /// and its effective domain brackets the raw one.
    pub proof fn lemma_ascending_query_ok(self)
        requires
            self.ranged(),
            self.domain0() < self.domain1(),
        ensures
            self.query_ok(),
            self.eff_lo() <= self.domain0(),
            self.domain1() <= self.eff_hi(),
            self.eff_lo() < self.eff_hi(),
    {
        match self {
            Scale::Linear(s) => {
            },
            Scale::LinearRounded(s) => {
                s.lemma_eff_ordered();
            },
        }
    }

    /// The exact projection of `x` onto the pixel range.
    pub fn offset(&self, x: i64) -> (r: Frac)
        requires
            self.query_ok(),
            -OFFSET_LIMIT <= x <= OFFSET_LIMIT,
        ensures
            r.wf(),
            r.is_rat(self.offset_num(x as int), self.offset_den()),
            r.den == self.abs_den(),
            r.num == self.offset_rnum(x as int),
            -500_000_000_000_000 <= r.num <= 500_000_000_000_000,
            r.den <= 110_000_000,
    {
        match self {
            Scale::Linear(s) => s.offset(x),
            Scale::LinearRounded(s) => s.offset(x),
        }
    }

    /// The pixel width of one unit: one category for a linear scale, one
    /// tick step's worth of value for a rounded one.
    pub fn segment(&self) -> (r: Frac)
        requires
            self.ranged(),
        ensures
            r.wf(),
            r.num == self.segment_num(),
            r.den == self.segment_den(),
            match *self {
                Scale::Linear(s) => r.is_rat(s.range.1 - s.range.0, s.domain.1 - s.domain.0)
                    && -2_000_000 <= r.num <= 2_000_000 && r.den <= 2_000_000,
                Scale::LinearRounded(s) => r.num == s.step_spec() && r.den == 1,
            },
    {
        match self {
            Scale::Linear(s) => s.segment(),
            Scale::LinearRounded(s) => s.segment(),
        }
    }

    /// The tick values as a mathematical sequence.
    pub open spec fn ticks_spec(self) -> Seq<int> {
        match self {
            Scale::Linear(s) => if s.domain.1 > s.domain.0 {
                Seq::new((s.domain.1 - s.domain.0 + 1) as nat, |i: int| i)
            } else {
                Seq::empty()
            },
            Scale::LinearRounded(s) => Seq::new(
                s.tick_count() as nat,
                |i: int| s.eff_begin() + i * s.step_spec(),
            ),
        }
    }

    /// The tick values to label.
    pub fn ticks(&self) -> (r: Vec<i64>)
        requires
            self.ranged(),
        ensures
            r@.map_values(|t: i64| t as int) == self.ticks_spec(),
            match *self {
                Scale::Linear(s) => {
                    &&& s.domain.1 > s.domain.0 ==> r@.len() == s.domain.1 - s.domain.0 + 1
                    &&& s.domain.1 < s.domain.0 ==> r@.len() == 0
                    &&& forall|i: int| 0 <= i < r@.len() ==> r@[i] == i
                },
                Scale::LinearRounded(s) => {
                    &&& r@.len() == s.tick_count()
                    &&& forall|i: int|
                        0 <= i < r@.len() ==> r@[i] == s.eff_begin() + i * s.step_spec()
                },
            },
            forall|i: int| 0 <= i < r@.len() ==> -OFFSET_LIMIT <= #[trigger] r@[i] <= OFFSET_LIMIT,
    {
        match self {
            Scale::Linear(s) => {
                let v = s.ticks();
                proof {
                    assert forall|i: int| 0 <= i < v@.len() implies -OFFSET_LIMIT <= #[trigger] v@[i]
                        <= OFFSET_LIMIT by {
                        assert(v@[i] == i);
                    }
                    assert(v@.map_values(|t: i64| t as int) =~= self.ticks_spec());
                }
                v
            },
            Scale::LinearRounded(s) => {
                let v = s.ticks();
                proof {
                    let b = s.eff_begin();
                    let e = s.eff_end();
                    let st = s.step_spec();
                    lemma_nice_step_bound(s.domain.1 - s.domain.0, s.range.1 - s.range.0);
                    lemma_round_bounds(s.domain.0 as int, 1, st);
                    lemma_round_bounds(s.domain.1 as int, 1, st);
                    assert forall|i: int| 0 <= i < v@.len() implies -OFFSET_LIMIT <= #[trigger] v@[i]
                        <= OFFSET_LIMIT by {
                        assert(v@[i] == b + i * st);
                        vstd::arithmetic::div_mod::lemma_fundamental_div_mod(e - b, st);
                        vstd::arithmetic::div_mod::lemma_mod_bound(e - b, st);
                        assert(0 <= i * st && b + i * st <= e) by (nonlinear_arith)
                            requires
                                0 <= i <= (e - b) / st,
                                1 <= st,
                                e - b == st * ((e - b) / st) + (e - b) % st,
                                0 <= (e - b) % st,
                        ;
                    }
                    assert(v@.map_values(|t: i64| t as int) =~= self.ticks_spec());
                }
                v
            },
        }
    }

    /// A copy of this scale with the same domain and the given range.
    pub fn with_range(&self, start: i64, stop: i64) -> (r: Scale)
        requires
            self.wf(),
            -COORD_LIMIT <= start <= COORD_LIMIT,
            -COORD_LIMIT <= stop <= COORD_LIMIT,
        ensures
            r.wf(),
            r is Linear <==> self is Linear,
            r.domain0() == self.domain0(),
            r.domain1() == self.domain1(),
            r.range_start() == start,
            r.range_stop() == stop,
    {
        match self {
            Scale::Linear(s) => Scale::Linear(s.with_range(start, stop)),
            Scale::LinearRounded(s) => Scale::LinearRounded(s.with_range(start, stop)),
        }
    }
}

} // verus!
