//! Shared chart geometry: rectangles, padding, and entry statistics.

use vstd::prelude::*;

use crate::entry::Entry;
use crate::frac::Frac;
use crate::scale::COORD_LIMIT;

verus! {

/// A rectangle: origin and size, in pixels.
#[derive(Clone, Copy, Debug, PartialEq, Eq, Structural)]
pub struct Coord {
    pub x: i64,
    pub y: i64,
    pub width: i64,
    pub height: i64,
}

impl Coord {
    /// All fields small enough for derived arithmetic.
    pub open spec fn bounded(self) -> bool {
        &&& -1_000_000_000 <= self.x <= 1_000_000_000
        &&& -1_000_000_000 <= self.y <= 1_000_000_000
        &&& -1_000_000_000 <= self.width <= 1_000_000_000
        &&& -1_000_000_000 <= self.height <= 1_000_000_000
    }

    /// Shrinks the rectangle `(x, y, w, h)` by the given padding.
    pub fn from_padding(p: &Padding, rect: (i64, i64, i64, i64)) -> (r: Coord)
        requires
            -1_000_000_000 <= rect.0 <= 1_000_000_000,
            -1_000_000_000 <= rect.1 <= 1_000_000_000,
            -1_000_000_000 <= rect.2 <= 1_000_000_000,
            -1_000_000_000 <= rect.3 <= 1_000_000_000,
            -100_000_000 <= p.top <= 100_000_000,
            -100_000_000 <= p.right <= 100_000_000,
            -100_000_000 <= p.bottom <= 100_000_000,
            -100_000_000 <= p.left <= 100_000_000,
        ensures
            r.x == rect.0 + p.left,
            r.y == rect.1 + p.top,
            r.width == rect.2 - p.left - p.right,
            r.height == rect.3 - p.top - p.bottom,
    {
        let (x, y, w, h) = rect;
        Coord {
            x: x + p.left,
            y: y + p.top,
            width: w - p.left - p.right,
            height: h - p.top - p.bottom,
        }
    }

    /// The centre point of the rectangle, as exact fractions.
    pub fn center(&self) -> (r: (Frac, Frac))
        requires
            self.bounded(),
        ensures
            r.0.wf(),
            r.1.wf(),
            r.0.num == self.width + 2 * self.x && r.0.den == 2,
            r.1.num == self.height + 2 * self.y && r.1.den == 2,
    {
        (
            Frac { num: self.width + 2 * self.x, den: 2 },
            Frac { num: self.height + 2 * self.y, den: 2 },
        )
    }
}

/// Padding on the four sides of a canvas.
#[derive(Clone, Copy, Debug, PartialEq, Eq, Structural)]
pub struct Padding {
    pub top: i64,
    pub right: i64,
    pub bottom: i64,
    pub left: i64,
}

impl Padding {
    fn new(top: i64, right: i64, bottom: i64, left: i64) -> (p: Padding)
        ensures
            p.top == top,
            p.right == right,
            p.bottom == bottom,
            p.left == left,
    {
        Padding { top, right, bottom, left }
    }

    /// The same padding on every side.
    pub fn with_same(v: i64) -> (p: Padding)
        ensures
            p.top == v,
            p.right == v,
            p.bottom == v,
            p.left == v,
    {
        Padding::new(v, v, v, v)
    }
}

/// A canvas size in pixels.
#[derive(Clone, Copy, Debug, PartialEq, Eq, Structural)]
pub struct Size {
    pub width: i64,
    pub height: i64,
}

/// Helpers shared by the chart builders.
pub struct Tools;

/// The running minimum of entry values over the first `n` entries,
/// starting from `i32::MAX`.
pub open spec fn min_value_upto(s: Seq<Entry>, n: int) -> int
    decreases n,
{
    if n <= 0 {
        i32::MAX as int
    } else {
        let p = min_value_upto(s, n - 1);
        if s[n - 1].value < p {
            s[n - 1].value as int
        } else {
            p
        }
    }
}

/// The running maximum of entry values over the first `n` entries,
/// starting from `i32::MIN`.
pub open spec fn max_value_upto(s: Seq<Entry>, n: int) -> int
    decreases n,
{
    if n <= 0 {
        i32::MIN as int
    } else {
        let p = max_value_upto(s, n - 1);
        if s[n - 1].value > p {
            s[n - 1].value as int
        } else {
            p
        }
    }
}

/// Every entry value lies between the running minimum and maximum, and
/// each of the two is either its starting point or one of the values.
pub proof fn lemma_min_max_envelope(s: Seq<Entry>, n: int)
    requires
        0 <= n <= s.len(),
    ensures
        forall|i: int|
            0 <= i < n ==> min_value_upto(s, n) <= #[trigger] s[i].value <= max_value_upto(s, n),
        n > 0 ==> min_value_upto(s, n) <= max_value_upto(s, n),
        min_value_upto(s, n) == i32::MAX as int || exists|i: int|
            0 <= i < n && min_value_upto(s, n) == #[trigger] s[i].value,
        max_value_upto(s, n) == i32::MIN as int || exists|i: int|
            0 <= i < n && max_value_upto(s, n) == #[trigger] s[i].value,
    decreases n,
{
    if n > 0 {
        lemma_min_max_envelope(s, n - 1);
    }
}

/// Entries a chart can be built from: a bounded count of values of
/// bounded magnitude.
pub open spec fn entries_ok(s: Seq<Entry>) -> bool {
    &&& s.len() <= COORD_LIMIT
    &&& forall|i: int|
        0 <= i < s.len() ==> -COORD_LIMIT <= #[trigger] s[i].value <= COORD_LIMIT
}

/// The lower bound of the value-axis domain: the least entry value,
/// forced down to zero when all values are positive.
pub open spec fn bracket_lo(s: Seq<Entry>) -> int {
    let m = min_value_upto(s, s.len() as int);
    if m < 0 {
        m
    } else {
        0
    }
}

/// The upper bound of the value-axis domain: the greatest entry value,
/// forced up to zero when all values are negative.
pub open spec fn bracket_hi(s: Seq<Entry>) -> int {
    let m = max_value_upto(s, s.len() as int);
    if m > 0 {
        m
    } else {
        0
    }
}

/// A non-empty dataset whose values are all equal and non-zero never
/// degenerates the value-axis domain: the brackets stay apart.
pub proof fn lemma_constant_data_brackets(s: Seq<Entry>)
    requires
        1 <= s.len(),
        forall|i: int| 0 <= i < s.len() ==> #[trigger] s[i].value == s[0].value,
        s[0].value != 0,
    ensures
        bracket_lo(s) < bracket_hi(s),
{
    lemma_min_max_envelope(s, s.len() as int);
}

impl Tools {
    /// The least and greatest entry value, folded from `i32::MAX` and
    /// `i32::MIN`; an empty sequence leaves those starting points.
    pub fn min_max_entry_values(entries: &Vec<Entry>) -> (r: (i32, i32))
        ensures
            r.0 == min_value_upto(entries@, entries@.len() as int),
            r.1 == max_value_upto(entries@, entries@.len() as int),
    {
        let mut min: i32 = i32::MAX;
        let mut max: i32 = i32::MIN;
        let mut i: usize = 0;
        while i < entries.len()
            invariant
                0 <= i <= entries@.len(),
                min == min_value_upto(entries@, i as int),
                max == max_value_upto(entries@, i as int),
            decreases entries@.len() - i,
        {
            let v: i32 = entries[i].value;
            if v < min {
                min = v;
            }
            if v > max {
                max = v;
            }
            i = i + 1;
        }
        (min, max)
    }
}

} // verus!
