//! Line charts: one poly-line vertex per entry, in entry order.

use vstd::prelude::*;

use crate::axis::{Axes2d, AxisOption, LabelPosition};
use crate::entry::Entry;
use crate::error::ChartError;
use crate::frac::Frac;
use crate::graph::{
    bracket_hi, bracket_lo, entries_ok, lemma_min_max_envelope, Coord, Padding, Size, Tools,
};
use crate::scale::{LinearRoundedScale, LinearScale, Scale, COORD_LIMIT};

verus! {

/// Piecemeal configuration of a line chart, validated at `build`.
pub struct LineBuilder {
    pub width: i64,
    pub height: i64,
    pub entries: Option<Vec<Entry>>,
}

impl LineBuilder {
    /// The entries this builder would chart.
    pub open spec fn entry_seq(self) -> Seq<Entry> {
        match self.entries {
            Some(es) => es@,
            None => Seq::empty(),
        }
    }

    /// A builder for a 500 by 500 canvas with no entries yet.
    pub fn new() -> (b: LineBuilder)
        ensures
            b.width == 500,
            b.height == 500,
            b.entries is None,
    {
        LineBuilder { width: 500, height: 500, entries: None }
    }

    /// Sets the canvas width.
    pub fn width(self, width: i64) -> (b: LineBuilder)
        ensures
            b.width == width,
            b.height == self.height,
            b.entries == self.entries,
    {
        LineBuilder { width, ..self }
    }

    /// Sets the canvas height.
    pub fn height(self, height: i64) -> (b: LineBuilder)
        ensures
            b.height == height,
            b.width == self.width,
            b.entries == self.entries,
    {
        LineBuilder { height, ..self }
    }

    /// Sets the entries.
    pub fn entries(self, entries: Vec<Entry>) -> (b: LineBuilder)
        ensures
            b.entries == Some(entries),
            b.width == self.width,
            b.height == self.height,
    {
        LineBuilder { entries: Some(entries), ..self }
    }

    /// Builds the chart, with the same layout, scales and failure rules
    /// as a bar chart; only the label alignment differs, sitting flush
    /// with each separator.
    pub fn build(self) -> (r: Result<Line, ChartError>)
        requires
            61 <= self.width <= COORD_LIMIT,
            61 <= self.height <= COORD_LIMIT,
            entries_ok(self.entry_seq()),
        ensures
            self.entry_seq().len() == 0 ==> r == Result::<Line, ChartError>::Err(
                ChartError::EmptyDataset,
            ),
            self.entry_seq().len() > 0 && bracket_lo(self.entry_seq()) == bracket_hi(
                self.entry_seq(),
            ) ==> r == Result::<Line, ChartError>::Err(ChartError::DegenerateDomain),
            self.entry_seq().len() > 0 && bracket_lo(self.entry_seq()) < bracket_hi(
                self.entry_seq(),
            ) ==> r is Ok,
            r is Ok ==> {
                let l = r->Ok_0;
                &&& l.wf()
                &&& l.entries@ == self.entry_seq()
                &&& l.size == (Size { width: self.width, height: self.height })
                &&& l.padding == (Padding { top: 15i64, right: 15i64, bottom: 15i64, left: 15i64 })
                &&& l.body == (Coord {
                    x: 30i64,
                    y: 0i64,
                    width: (self.width - 60) as i64,
                    height: (self.height - 60) as i64,
                })
                &&& l.axes.x.scale is Linear
                &&& l.axes.y.scale is LinearRounded
                &&& l.axes.y.scale.domain0() == bracket_lo(self.entry_seq())
                &&& l.axes.y.scale.domain1() == bracket_hi(self.entry_seq())
                &&& l.axes.y.scale.range_start() == 0
                &&& l.axes.y.scale.range_stop() == self.height - 60
                &&& l.axes.x.scale.range_stop() == self.width - 60
                &&& l.axes.x.label_position == LabelPosition::Normal
                &&& l.axes.y.label_position == LabelPosition::Normal
            },
    {
        let padding = Padding::with_same(15);
        let width: i64 = self.width;
        let height: i64 = self.height;
        let content = Coord::from_padding(&padding, (0, 0, width, height));
        let entries: Vec<Entry> = match self.entries {
            Some(e) => e,
            None => Vec::new(),
        };
        if entries.len() == 0 {
            return Err(ChartError::EmptyDataset);
        }
        let (min, max) = Tools::min_max_entry_values(&entries);
        proof {
            lemma_min_max_envelope(entries@, entries@.len() as int);
        }
        let lo: i64 = if min < 0 {
            min as i64
        } else {
            0
        };
        let hi: i64 = if max > 0 {
            max as i64
        } else {
            0
        };
        let y_scale = match LinearRoundedScale::new(lo, hi) {
            Ok(s) => s,
            Err(e) => {
                return Err(e);
            },
        };
        let x_scale = match LinearScale::new(0, entries.len() as i64) {
            Ok(s) => s,
            Err(_) => {
                return Err(ChartError::EmptyDataset);
            },
        };
        let x_opt = AxisOption {
            scale: Scale::Linear(x_scale),
            label_position: LabelPosition::Normal,
        };
        let y_opt = AxisOption {
            scale: Scale::LinearRounded(y_scale),
            label_position: LabelPosition::Normal,
        };
        let axes = Axes2d::new((content.width, content.height), x_opt, y_opt);
        let body = axes.body();
        Ok(Line { size: Size { width, height }, padding, axes, body, entries })
    }
}

/// A built line chart: entries, layout, and the axes pair.
pub struct Line {
    pub size: Size,
    pub entries: Vec<Entry>,
    pub padding: Padding,
    pub body: Coord,
    pub axes: Axes2d,
}

impl Line {
    /// Validity: the axes were built for these entries, with a categorical
    /// x scale over one unit per entry.
    pub open spec fn wf(self) -> bool {
        &&& self.axes.wf()
        &&& self.axes.x.scale is Linear
        &&& self.axes.x.scale.domain0() == 0
        &&& self.axes.x.scale.domain1() == self.entries@.len()
        &&& self.axes.x.scale.range_start() == 0
        &&& self.axes.x.scale.range_stop() == self.axes.x.width
        &&& 1 <= self.entries@.len() <= COORD_LIMIT
        &&& 1 <= self.axes.x.width <= COORD_LIMIT
        &&& 0 <= self.body.height <= COORD_LIMIT
        &&& entries_ok(self.entries@)
    }

    /// The poly-line vertices, one per entry in entry order: the entry's
    /// category offset paired with its value offset measured down from
    /// the body's top edge.
    pub fn points(&self) -> (r: Vec<(Frac, Frac)>)
        requires
            self.wf(),
        ensures
            r@.len() == self.entries@.len(),
            forall|i: int|
                0 <= i < r@.len() ==> {
                    let p = #[trigger] r@[i];
                    let xs = self.axes.x.scale;
                    let ys = self.axes.y.scale;
                    &&& p.0.num == xs.offset_rnum(i) && p.0.den == xs.abs_den()
                    &&& p.1.num == self.body.height * ys.abs_den() - ys.offset_rnum(
                        self.entries@[i].value as int,
                    )
                    &&& p.1.den == ys.abs_den()
                },
    {
        let mut out: Vec<(Frac, Frac)> = Vec::new();
        let mut i: usize = 0;
        while i < self.entries.len()
            invariant
                self.wf(),
                0 <= i <= self.entries@.len(),
                out@.len() == i,
                forall|j: int|
                    0 <= j < i ==> {
                        let p = #[trigger] out@[j];
                        let xs = self.axes.x.scale;
                        let ys = self.axes.y.scale;
                        &&& p.0.num == xs.offset_rnum(j) && p.0.den == xs.abs_den()
                        &&& p.1.num == self.body.height * ys.abs_den() - ys.offset_rnum(
                            self.entries@[j].value as int,
                        )
                        &&& p.1.den == ys.abs_den()
                    },
            decreases self.entries@.len() - i,
        {
            let e = &self.entries[i];
            let x: Frac = self.axes.x.scale.offset(i as i64);
            let off: Frac = self.axes.y.scale.offset(e.value as i64);
            proof {
                assert(-1_000_000_000_000_000 <= (self.body.height as int) * off.den
                    <= 1_000_000_000_000_000) by (nonlinear_arith)
                    requires
                        0 <= self.body.height <= COORD_LIMIT,
                        1 <= off.den <= 110_000_000,
                        COORD_LIMIT == 1_000_000,
                ;
            }
            let y: Frac = off.sub_from_int(self.body.height);
            out.push((x, y));
            i = i + 1;
        }
        out
    }
}

} // verus!
