//! Pie charts: one slice per entry, its share of the full circle given
//! by its value's share of the total.

use vstd::prelude::*;
use vstd::string::StringExecFns;

use crate::entry::Entry;
use crate::frac::Frac;
use crate::graph::{entries_ok, Coord, Padding, Size};
use crate::scale::COORD_LIMIT;
use crate::text::{decimal_str, int_to_decimal};

verus! {

/// The sum of the first `n` entry values.
pub open spec fn sum_upto(s: Seq<Entry>, n: int) -> int
    decreases n,
{
    if n <= 0 {
        0
    } else {
        sum_upto(s, n - 1) + s[n - 1].value
    }
}

/// The running sum of bounded values stays within `n` times the bound.
pub proof fn lemma_sum_upto_bound(s: Seq<Entry>, n: int)
    requires
        entries_ok(s),
        0 <= n <= s.len(),
    ensures
        -n * COORD_LIMIT <= sum_upto(s, n) <= n * COORD_LIMIT,
    decreases n,
{
    if n > 0 {
        lemma_sum_upto_bound(s, n - 1);
        assert((n - 1) * COORD_LIMIT + COORD_LIMIT == n * COORD_LIMIT) by (nonlinear_arith);
        assert(-(n * COORD_LIMIT) == -((n - 1) * COORD_LIMIT) - COORD_LIMIT) by (nonlinear_arith);
    } else {
        assert(n * COORD_LIMIT == 0) by (nonlinear_arith)
            requires
                n == 0,
        ;
    }
}

/// The fill color of slice `j` of ten; charts with more entries cycle
/// through the palette again.
pub open spec fn color_spec(j: int) -> Seq<char> {
    if j == 0 {
        "rgb(237,10,63)"@
    } else if j == 1 {
        "rgb(231,114,0)"@
    } else if j == 2 {
        "rgb(254,216,93)"@
    } else if j == 3 {
        "rgb(1,120,111)"@
    } else if j == 4 {
        "rgb(165,7,44)"@
    } else if j == 5 {
        "rgb(243,184,127)"@
    } else if j == 6 {
        "rgb(66,75,77)"@
    } else if j == 7 {
        "rgb(203,172,74)"@
    } else if j == 8 {
        "rgb(153,201,197)"@
    } else {
        "rgb(129,135,136)"@
    }
}

/// Piecemeal configuration of a pie chart.
pub struct PieBuilder {
    pub width: i64,
    pub height: i64,
    pub entries: Option<Vec<Entry>>,
}

impl PieBuilder {
    /// The entries this builder would chart.
    pub open spec fn entry_seq(self) -> Seq<Entry> {
        match self.entries {
            Some(es) => es@,
            None => Seq::empty(),
        }
    }

    /// A builder for a 500 by 500 canvas with no entries yet.
    pub fn new() -> (b: PieBuilder)
        ensures
            b.width == 500,
            b.height == 500,
            b.entries is None,
    {
        PieBuilder { width: 500, height: 500, entries: None }
    }

    /// Sets the canvas width.
    pub fn width(self, width: i64) -> (b: PieBuilder)
        ensures
            b.width == width,
            b.height == self.height,
            b.entries == self.entries,
    {
        PieBuilder { width, ..self }
    }

    /// Sets the canvas height.
    pub fn height(self, height: i64) -> (b: PieBuilder)
        ensures
            b.height == height,
            b.width == self.width,
            b.entries == self.entries,
    {
        PieBuilder { height, ..self }
    }

    /// Sets the entries.
    pub fn entries(self, entries: Vec<Entry>) -> (b: PieBuilder)
        ensures
            b.entries == Some(entries),
            b.width == self.width,
            b.height == self.height,
    {
        PieBuilder { entries: Some(entries), ..self }
    }

    /// Builds the chart: 15 pixels of padding on each side, a 100-pixel
    /// label column on the right with 20 pixels of separation, and the
    /// value total computed over the entries.
    pub fn build(self) -> (r: Pie)
        requires
            0 <= self.width <= COORD_LIMIT,
            0 <= self.height <= COORD_LIMIT,
            entries_ok(self.entry_seq()),
        ensures
            r.wf(),
            r.entries@ == self.entry_seq(),
            r.size == (Size { width: self.width, height: self.height }),
            r.body == (Coord {
                x: 15i64,
                y: 15i64,
                width: (self.width - 150) as i64,
                height: (self.height - 30) as i64,
            }),
            r.labels_body == (Coord {
                x: (self.width - 115) as i64,
                y: 45i64,
                width: 100i64,
                height: (self.height - 60) as i64,
            }),
            r.sum == sum_upto(self.entry_seq(), self.entry_seq().len() as int),
    {
        let padding = Padding::with_same(15);
        let width: i64 = self.width;
        let height: i64 = self.height;
        let entries: Vec<Entry> = match self.entries {
            Some(e) => e,
            None => Vec::new(),
        };

        let label_width: i64 = 100;
        let label_padding_left: i64 = 20;
        let label_padding_top: i64 = 30;
        let body = Coord {
            x: padding.left,
            y: padding.top,
            width: width - label_width - label_padding_left - padding.left - padding.right,
            height: height - padding.top - padding.bottom,
        };

        let labels_body = Coord {
            x: body.x + body.width + label_padding_left,
            y: padding.top + label_padding_top,
            width: label_width,
            height: body.height - label_padding_top,
        };

        let mut sum: i64 = 0;
        let mut i: usize = 0;
        proof {
            lemma_sum_upto_bound(entries@, entries@.len() as int);
        }
        while i < entries.len()
            invariant
                entries_ok(entries@),
                0 <= i <= entries@.len(),
                sum == sum_upto(entries@, i as int),
                -(i as int) * COORD_LIMIT <= sum <= (i as int) * COORD_LIMIT,
            decreases entries@.len() - i,
        {
            proof {
                lemma_sum_upto_bound(entries@, i as int);
                lemma_sum_upto_bound(entries@, i + 1int);
            }
            sum = sum + entries[i].value as i64;
            i = i + 1;
        }

        Pie { size: Size { width, height }, body, labels_body, sum, entries }
    }
}

/// A built pie chart: entries, layout, and the value total.
pub struct Pie {
    pub size: Size,
    pub entries: Vec<Entry>,
    pub labels_body: Coord,
    pub body: Coord,
    pub sum: i64,
}

/// One slice of the pie: its share of the circle as exact fractions of a
/// full turn, with its color and printed caption.
pub struct Arc {
    pub start: Frac,
    pub end: Frac,
    pub mid: Frac,
    pub fill: String,
    pub text: String,
}

/// A legend entry beside the pie.
pub struct Label {
    pub fill: String,
    pub text: String,
    pub x: Frac,
    pub y: Frac,
}

impl Pie {
    /// Validity: the stored total is the sum over the stored entries.
    pub open spec fn wf(self) -> bool {
        &&& entries_ok(self.entries@)
        &&& self.sum == sum_upto(self.entries@, self.entries@.len() as int)
    }

    /// The share of the full circle a value of `v` takes: `v / sum`.
    pub fn angle(&self, v: i32) -> (r: Frac)
        requires
            self.wf(),
            self.sum != 0,
            -COORD_LIMIT <= v <= COORD_LIMIT,
        ensures
            r.wf(),
            r.is_rat(v as int, self.sum as int),
    {
        proof {
            lemma_sum_upto_bound(self.entries@, self.entries@.len() as int);
            assert((self.entries@.len() as int) * COORD_LIMIT <= 1_000_000_000_000)
                by (nonlinear_arith)
                requires
                    0 <= self.entries@.len() <= COORD_LIMIT,
                    COORD_LIMIT == 1_000_000,
            ;
        }
        Frac::new(v as i64, self.sum)
    }

    /// The fill color for slice `i`: the ten palette entries, cycling.
    pub fn color(i: usize) -> (r: String)
        ensures
            r@ == color_spec((i % 10) as int),
        decreases i,
    {
        if i >= 10 {
            proof {
                vstd::arithmetic::div_mod::lemma_mod_sub_multiples_vanish(i as int, 10);
            }
            Pie::color(i - 10)
        } else {
            match i {
                0 => "rgb(237,10,63)".to_owned(),
                1 => "rgb(231,114,0)".to_owned(),
                2 => "rgb(254,216,93)".to_owned(),
                3 => "rgb(1,120,111)".to_owned(),
                4 => "rgb(165,7,44)".to_owned(),
                5 => "rgb(243,184,127)".to_owned(),
                6 => "rgb(66,75,77)".to_owned(),
                7 => "rgb(203,172,74)".to_owned(),
                8 => "rgb(153,201,197)".to_owned(),
                _ => "rgb(129,135,136)".to_owned(),
            }
        }
    }

    /// The legend: one swatch and label per entry, stacked 20 pixels
    /// apart.
    pub fn labels(&self) -> (r: Vec<Label>)
        requires
            self.wf(),
        ensures
            r@.len() == self.entries@.len(),
            forall|i: int|
                0 <= i < r@.len() ==> {
                    let l = #[trigger] r@[i];
                    &&& l.fill@ == color_spec(i % 10)
                    &&& l.text@ == self.entries@[i].label@
                    &&& l.x.num == 0 && l.x.den == 1
                    &&& l.y.num == 20 * i && l.y.den == 1
                },
    {
        let mut out: Vec<Label> = Vec::new();
        let mut i: usize = 0;
        while i < self.entries.len()
            invariant
                self.wf(),
                0 <= i <= self.entries@.len(),
                out@.len() == i,
                forall|j: int|
                    0 <= j < i ==> {
                        let l = #[trigger] out@[j];
                        &&& l.fill@ == color_spec(j % 10)
                        &&& l.text@ == self.entries@[j].label@
                        &&& l.x.num == 0 && l.x.den == 1
                        &&& l.y.num == 20 * j && l.y.den == 1
                    },
            decreases self.entries@.len() - i,
        {
            let e = &self.entries[i];
            out.push(
                Label {
                    fill: Pie::color(i),
                    text: e.label.clone(),
                    x: Frac::from_int(0),
                    y: Frac::from_int(20 * (i as i64)),
                },
            );
            i = i + 1;
        }
        out
    }

    /// The slices, one per entry in entry order: each starts where the
    /// previous one ended, sweeps its value's share of the circle, and
    /// carries its caption "label (value)" anchored at the mid angle.
    pub fn arcs(&self) -> (r: Vec<Arc>)
        requires
            self.wf(),
            self.sum != 0,
        ensures
            r@.len() == self.entries@.len(),
            forall|i: int|
                0 <= i < r@.len() ==> {
                    let a = #[trigger] r@[i];
                    let s = self.sum as int;
                    &&& a.start.wf() && a.start.is_rat(sum_upto(self.entries@, i), s)
                    &&& a.end.wf() && a.end.is_rat(sum_upto(self.entries@, i + 1), s)
                    &&& a.mid.wf() && a.mid.is_rat(
                        sum_upto(self.entries@, i) + sum_upto(self.entries@, i + 1),
                        2 * s,
                    )
                    &&& a.fill@ == color_spec(i % 10)
                    &&& a.text@ == self.entries@[i].label@ + " ("@ + decimal_str(
                        self.entries@[i].value as int,
                    ) + ")"@
                },
    {
        let mut out: Vec<Arc> = Vec::new();
        let mut prev: i64 = 0;
        let mut i: usize = 0;
        proof {
            lemma_sum_upto_bound(self.entries@, self.entries@.len() as int);
            assert((self.entries@.len() as int) * COORD_LIMIT <= 1_000_000_000_000)
                by (nonlinear_arith)
                requires
                    0 <= self.entries@.len() <= COORD_LIMIT,
                    COORD_LIMIT == 1_000_000,
            ;
        }
        while i < self.entries.len()
            invariant
                self.wf(),
                self.sum != 0,
                -1_000_000_000_000 <= self.sum <= 1_000_000_000_000,
                0 <= i <= self.entries@.len(),
                out@.len() == i,
                prev == sum_upto(self.entries@, i as int),
                -1_000_000_000_000 <= prev <= 1_000_000_000_000,
                forall|j: int|
                    0 <= j < i ==> {
                        let a = #[trigger] out@[j];
                        let s = self.sum as int;
                        &&& a.start.wf() && a.start.is_rat(sum_upto(self.entries@, j), s)
                        &&& a.end.wf() && a.end.is_rat(sum_upto(self.entries@, j + 1), s)
                        &&& a.mid.wf() && a.mid.is_rat(
                            sum_upto(self.entries@, j) + sum_upto(self.entries@, j + 1),
                            2 * s,
                        )
                        &&& a.fill@ == color_spec(j % 10)
                        &&& a.text@ == self.entries@[j].label@ + " ("@ + decimal_str(
                            self.entries@[j].value as int,
                        ) + ")"@
                    },
            decreases self.entries@.len() - i,
        {
            proof {
                lemma_sum_upto_bound(self.entries@, i + 1int);
            }
            let e = &self.entries[i];
            let v: i64 = e.value as i64;
            let next: i64 = prev + v;
            let start = Frac::new(prev, self.sum);
            let end = Frac::new(next, self.sum);
            let mid = Frac::new(prev + next, 2 * self.sum);
            let mut text: String = e.label.clone();
            text.append(" (");
            let digits = int_to_decimal(v);
            text.append(digits.as_str());
            text.append(")");
            proof {
                reveal_strlit(" (");
                reveal_strlit(")");
                assert(text@ =~= self.entries@[i as int].label@ + " ("@ + decimal_str(v as int)
                    + ")"@);
            }
            out.push(Arc { start, end, mid, fill: Pie::color(i), text });
            prev = next;
            i = i + 1;
        }
        out
    }
}

} // verus!
