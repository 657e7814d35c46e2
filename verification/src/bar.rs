//! Bar charts: one vertical column per entry, sized by the axes pair.

use vstd::prelude::*;

use crate::axis::{Axes2d, AxisOption, LabelPosition};
use crate::entry::Entry;
use crate::error::ChartError;
use crate::frac::Frac;
use crate::graph::{
    bracket_hi, bracket_lo, entries_ok, lemma_min_max_envelope, Coord, Padding, Size, Tools,
};
use crate::scale::{LinearRoundedScale, LinearScale, Scale, COORD_LIMIT};

verus! {

/// Piecemeal configuration of a bar chart, validated at `build`.
pub struct BarBuilder {
    pub width: i64,
    pub height: i64,
    pub entries: Option<Vec<Entry>>,
}

impl BarBuilder {
    /// The entries this builder would chart.
    pub open spec fn entry_seq(self) -> Seq<Entry> {
        match self.entries {
            Some(es) => es@,
            None => Seq::empty(),
        }
    }

    /// A builder for a 500 by 500 canvas with no entries yet.
    pub fn new() -> (b: BarBuilder)
        ensures
            b.width == 500,
            b.height == 500,
            b.entries is None,
    {
        BarBuilder { width: 500, height: 500, entries: None }
    }

    /// Sets the canvas width.
    pub fn width(self, width: i64) -> (b: BarBuilder)
        ensures
            b.width == width,
            b.height == self.height,
            b.entries == self.entries,
    {
        BarBuilder { width, ..self }
    }

    /// Sets the canvas height.
    pub fn height(self, height: i64) -> (b: BarBuilder)
        ensures
            b.height == height,
            b.width == self.width,
            b.entries == self.entries,
    {
        BarBuilder { height, ..self }
    }

    /// Sets the entries.
    pub fn entries(self, entries: Vec<Entry>) -> (b: BarBuilder)
        ensures
            b.entries == Some(entries),
            b.width == self.width,
            b.height == self.height,
    {
        BarBuilder { entries: Some(entries), ..self }
    }

    /// Builds the chart: 15 pixels of padding are taken off each side,
    /// the x scale spans one unit per category and the y scale spans the
    /// entry values with zero forced inside its domain.  An empty dataset
    /// and an all-zero dataset are rejected.
    pub fn build(self) -> (r: Result<Bar, ChartError>)
        requires
            61 <= self.width <= COORD_LIMIT,
            61 <= self.height <= COORD_LIMIT,
            entries_ok(self.entry_seq()),
        ensures
            self.entry_seq().len() == 0 ==> r == Result::<Bar, ChartError>::Err(
                ChartError::EmptyDataset,
            ),
            self.entry_seq().len() > 0 && bracket_lo(self.entry_seq()) == bracket_hi(
                self.entry_seq(),
            ) ==> r == Result::<Bar, ChartError>::Err(ChartError::DegenerateDomain),
            self.entry_seq().len() > 0 && bracket_lo(self.entry_seq()) < bracket_hi(
                self.entry_seq(),
            ) ==> r is Ok,
            r is Ok ==> {
                let b = r->Ok_0;
                &&& b.wf()
                &&& b.entries@ == self.entry_seq()
                &&& b.size == (Size { width: self.width, height: self.height })
                &&& b.padding == (Padding { top: 15i64, right: 15i64, bottom: 15i64, left: 15i64 })
                &&& b.body == (Coord {
                    x: 30i64,
                    y: 0i64,
                    width: (self.width - 60) as i64,
                    height: (self.height - 60) as i64,
                })
                &&& b.axes.x.scale is Linear
                &&& b.axes.y.scale is LinearRounded
                &&& b.axes.y.scale.domain0() == bracket_lo(self.entry_seq())
                &&& b.axes.y.scale.domain1() == bracket_hi(self.entry_seq())
                &&& b.axes.y.scale.range_start() == 0
                &&& b.axes.y.scale.range_stop() == self.height - 60
                &&& b.axes.x.scale.range_stop() == self.width - 60
                &&& b.axes.x.label_position == LabelPosition::InBetween
                &&& b.axes.y.label_position == LabelPosition::Normal
            },
    {
        let padding = Padding::with_same(15);
        let width: i64 = self.width;
        let height: i64 = self.height;
        let content = Coord::from_padding(&padding, (0, 0, width, height));
        let entries: Vec<Entry> = match self.entries {
            Some(e) => e,
            None => Vec::new(),
        };
        if entries.len() == 0 {
            return Err(ChartError::EmptyDataset);
        }
        let (min, max) = Tools::min_max_entry_values(&entries);
        proof {
            lemma_min_max_envelope(entries@, entries@.len() as int);
        }
        let lo: i64 = if min < 0 {
            min as i64
        } else {
            0
        };
        let hi: i64 = if max > 0 {
            max as i64
        } else {
            0
        };
        let y_scale = match LinearRoundedScale::new(lo, hi) {
            Ok(s) => s,
            Err(e) => {
                return Err(e);
            },
        };
        let x_scale = match LinearScale::new(0, entries.len() as i64) {
            Ok(s) => s,
            Err(_) => {
                return Err(ChartError::EmptyDataset);
            },
        };
        let x_opt = AxisOption {
            scale: Scale::Linear(x_scale),
            label_position: LabelPosition::InBetween,
        };
        let y_opt = AxisOption {
            scale: Scale::LinearRounded(y_scale),
            label_position: LabelPosition::Normal,
        };
        let axes = Axes2d::new((content.width, content.height), x_opt, y_opt);
        let body = axes.body();
        Ok(Bar { size: Size { width, height }, padding, axes, body, entries })
    }
}

/// A built bar chart: entries, layout, and the axes pair.
pub struct Bar {
    pub size: Size,
    pub entries: Vec<Entry>,
    pub padding: Padding,
    pub body: Coord,
    pub axes: Axes2d,
}

/// One drawable column of a bar chart.
pub struct BarColumn {
    pub x: Frac,
    pub y: Frac,
    pub dx: Frac,
    pub width: Frac,
    pub height: Frac,
    pub fill: String,
}

impl Bar {
    /// Validity: the axes were built for these entries, with a categorical
    /// x scale over one unit per entry.
    pub open spec fn wf(self) -> bool {
        &&& self.axes.wf()
        &&& self.axes.x.scale is Linear
        &&& self.axes.x.scale.domain0() == 0
        &&& self.axes.x.scale.domain1() == self.entries@.len()
        &&& self.axes.x.scale.range_start() == 0
        &&& self.axes.x.scale.range_stop() == self.axes.x.width
        &&& 1 <= self.entries@.len() <= COORD_LIMIT
        &&& 1 <= self.axes.x.width <= COORD_LIMIT
        &&& entries_ok(self.entries@)
    }

    /// The drawable columns: one per entry, in entry order.  Each column
    /// occupies the middle two thirds of its category segment; its height
    /// is the distance from the zero line to the value's offset, and its
    /// top is whichever of the two is higher on the canvas.
    pub fn bars(&self) -> (r: Vec<BarColumn>)
        requires
            self.wf(),
        ensures
            r@.len() == self.entries@.len(),
            forall|i: int|
                0 <= i < r@.len() ==> {
                    let col = #[trigger] r@[i];
                    let xs = self.axes.x.scale;
                    let ys = self.axes.y.scale;
                    let hv = ys.offset_rnum(self.entries@[i].value as int);
                    let h0 = ys.offset_rnum(0);
                    &&& col.x.num == xs.offset_rnum(i) && col.x.den == xs.abs_den()
                    &&& col.dx.num == xs.segment_num() && col.dx.den == 6 * xs.segment_den()
                    &&& col.width.num == 4 * xs.segment_num() && col.width.den == 6
                        * xs.segment_den()
                    &&& col.width.num > 0
                    &&& col.height.num == if hv >= h0 {
                        hv - h0
                    } else {
                        h0 - hv
                    }
                    &&& col.height.num >= 0 && col.height.den == ys.abs_den()
                    &&& col.y.den == ys.abs_den()
                    &&& (hv > h0 ==> col.y.num == self.axes.y.height * ys.abs_den() - hv)
                    &&& (hv <= h0 ==> col.y.num == self.axes.y.height * ys.abs_den() - h0)
                    &&& col.fill@ == "rgba(131,43,189,0.6)"@
                },
            forall|i: int, j: int| 0 <= i < j < r@.len() ==> r@[i].x.vlt(r@[j].x),
    {
        let ghost xs = self.axes.x.scale;
        let box_w: Frac = self.axes.x.scale.segment();
        let dx = Frac { num: box_w.num, den: 6 * box_w.den };
        let w = Frac { num: 4 * box_w.num, den: 6 * box_w.den };
        proof {
            match xs {
                Scale::Linear(s) => {
                    assert(xs.segment_num() == self.axes.x.width);
                },
                Scale::LinearRounded(s) => {
                    assert(false);
                },
            }
        }
        let mut out: Vec<BarColumn> = Vec::new();
        let mut i: usize = 0;
        while i < self.entries.len()
            invariant
                self.wf(),
                0 <= i <= self.entries@.len(),
                out@.len() == i,
                box_w.num == xs.segment_num() && box_w.den == xs.segment_den(),
                1 <= box_w.den <= 2_000_000,
                xs == self.axes.x.scale,
                dx.num == xs.segment_num() && dx.den == 6 * xs.segment_den(),
                w.num == 4 * xs.segment_num() && w.den == 6 * xs.segment_den(),
                xs.segment_num() == self.axes.x.width,
                forall|j: int|
                    0 <= j < i ==> {
                        let col = #[trigger] out@[j];
                        let ys = self.axes.y.scale;
                        let hv = ys.offset_rnum(self.entries@[j].value as int);
                        let h0 = ys.offset_rnum(0);
                        &&& col.x.num == xs.offset_rnum(j) && col.x.den == xs.abs_den()
                        &&& col.dx.num == xs.segment_num() && col.dx.den == 6 * xs.segment_den()
                        &&& col.width.num == 4 * xs.segment_num() && col.width.den == 6
                            * xs.segment_den()
                        &&& col.width.num > 0
                        &&& col.height.num == if hv >= h0 {
                            hv - h0
                        } else {
                            h0 - hv
                        }
                        &&& col.height.num >= 0 && col.height.den == ys.abs_den()
                        &&& col.y.den == ys.abs_den()
                        &&& (hv > h0 ==> col.y.num == self.axes.y.height * ys.abs_den() - hv)
                        &&& (hv <= h0 ==> col.y.num == self.axes.y.height * ys.abs_den() - h0)
                        &&& col.fill@ == "rgba(131,43,189,0.6)"@
                    },
            decreases self.entries@.len() - i,
        {
            let e = &self.entries[i];
            let off_v: Frac = self.axes.y.scale.offset(e.value as i64);
            let off_0: Frac = self.axes.y.scale.offset(0);
            let bar_height: Frac = off_v.sub_same_den(&off_0);
            proof {
                assert(-1_000_000_000_000_000 <= (self.axes.y.height as int) * off_v.den
                    <= 1_000_000_000_000_000) by (nonlinear_arith)
                    requires
                        0 <= self.axes.y.height <= COORD_LIMIT,
                        1 <= off_v.den <= 110_000_000,
                        COORD_LIMIT == 1_000_000,
                ;
            }
            let y: Frac = if bar_height.is_pos() {
                off_v.sub_from_int(self.axes.y.height)
            } else {
                off_0.sub_from_int(self.axes.y.height)
            };
            let x: Frac = self.axes.x.scale.offset(i as i64);
            out.push(
                BarColumn {
                    x,
                    y,
                    dx,
                    width: w,
                    height: bar_height.abs(),
                    fill: "rgba(131,43,189,0.6)".to_owned(),
                },
            );
            i = i + 1;
        }
        proof {
            let n = self.entries@.len() as int;
            let den = xs.abs_den();
            let ww = xs.segment_num();
            assert forall|i: int, j: int| 0 <= i < j < out@.len() implies out@[i].x.vlt(
                out@[j].x,
            ) by {
                assert(xs.offset_rnum(i) == i * ww && xs.offset_rnum(j) == j * ww)
                    by (nonlinear_arith)
                    requires
                        xs.offset_rnum(i) == if xs.offset_den() > 0 {
                            xs.offset_num(i)
                        } else {
                            -xs.offset_num(i)
                        },
                        xs.offset_rnum(j) == if xs.offset_den() > 0 {
                            xs.offset_num(j)
                        } else {
                            -xs.offset_num(j)
                        },
                        xs.offset_num(i) == xs.range_start() * (xs.eff_hi() - xs.eff_lo()) + (i
                            - xs.eff_lo()) * (xs.range_stop() - xs.range_start()),
                        xs.offset_num(j) == xs.range_start() * (xs.eff_hi() - xs.eff_lo()) + (j
                            - xs.eff_lo()) * (xs.range_stop() - xs.range_start()),
                        xs.offset_den() == xs.eff_hi() - xs.eff_lo(),
                        xs.eff_lo() == 0,
                        xs.eff_hi() == n,
                        0 < n,
                        xs.range_start() == 0,
                        xs.range_stop() == ww,
                ;
                assert(i * ww * den < j * ww * den) by (nonlinear_arith)
                    requires
                        0 <= i < j,
                        1 <= ww,
                        1 <= den,
                ;
            }
        }
        out
    }
}

} // verus!
