//! Axes: a pair of scales composed into a coordinate frame, with the
//! label and gridline geometry charts draw from.

use vstd::prelude::*;

use crate::entry::Entry;
use crate::frac::Frac;
use crate::graph::Coord;
use crate::scale::{Scale, COORD_LIMIT};
use crate::text::{decimal_str, int_to_decimal};

verus! {

/// Where a category label sits relative to its tick separator.
#[derive(Clone, Copy, Debug, PartialEq, Eq, Structural)]
pub enum LabelPosition {
    /// Next to separator
    Normal,
    /// Between separators
    InBetween,
}

/// One axis: a scale, the strip geometry it is drawn in, and its color.
pub struct Axis {
    pub color: String,
    pub x: i64,
    pub y: i64,
    pub width: i64,
    pub height: i64,
    pub label_position: LabelPosition,
    pub scale: Scale,
}

/// A scale with a label policy, handed to `Axes2d::new`.
pub struct AxisOption {
    pub scale: Scale,
    pub label_position: LabelPosition,
}

/// A text anchor within a label group.
pub struct Text {
    pub x: Frac,
    pub y: Frac,
    pub text: String,
    pub color: String,
}

/// A separator line within a label group.
pub struct Line {
    pub x1: Frac,
    pub x2: Frac,
    pub y1: Frac,
    pub y2: Frac,
    pub color: String,
}

/// One label with its separator line, positioned on an axis.
pub struct Label {
    pub x: Frac,
    pub y: Frac,
    pub label: Text,
    pub line: Line,
}

/// The x/y axes pair of a chart.
pub struct Axes2d {
    pub x: Axis,
    pub y: Axis,
}

impl Axes2d {
    /// Validity: both scales can be queried and the strip geometry is
    /// bounded.
    pub open spec fn wf(self) -> bool {
        &&& self.x.scale.ranged()
        &&& self.x.scale.query_ok()
        &&& self.y.scale.ranged()
        &&& self.y.scale.query_ok()
        &&& 0 <= self.x.height <= COORD_LIMIT
        &&& 0 <= self.y.height <= COORD_LIMIT
        &&& 0 <= self.x.width <= COORD_LIMIT
        &&& 0 <= self.y.width <= COORD_LIMIT
        &&& -COORD_LIMIT <= self.x.x <= COORD_LIMIT
        &&& -COORD_LIMIT <= self.x.y <= COORD_LIMIT
        &&& -COORD_LIMIT <= self.y.x <= COORD_LIMIT
        &&& -COORD_LIMIT <= self.y.y <= COORD_LIMIT
    }

    /// Lays the axes out inside a content area of the given size: fixed
    /// gutters of 30 pixels are reserved on the left for value labels and
    /// below for category labels, and the remaining body extents are
    /// attached to the two scales as their pixel ranges.
    pub fn new(size: (i64, i64), x_opt: AxisOption, y_opt: AxisOption) -> (r: Axes2d)
        requires
            x_opt.scale.wf(),
            y_opt.scale.wf(),
            x_opt.scale.domain0() < x_opt.scale.domain1(),
            y_opt.scale.domain0() < y_opt.scale.domain1(),
            31 <= size.0 <= COORD_LIMIT,
            31 <= size.1 <= COORD_LIMIT,
        ensures
            r.wf(),
            r.x.x == 30 && r.x.y == 0 && r.x.width == size.0 - 30 && r.x.height == size.1 - 30,
            r.y.x == 30 && r.y.y == 0 && r.y.width == size.0 - 30 && r.y.height == size.1 - 30,
            r.x.color@ == "rgb(13,16,17)"@ && r.y.color@ == "rgb(13,16,17)"@,
            r.x.label_position == x_opt.label_position,
            r.y.label_position == y_opt.label_position,
            r.x.scale is Linear <==> x_opt.scale is Linear,
            r.y.scale is Linear <==> y_opt.scale is Linear,
            r.x.scale.domain0() == x_opt.scale.domain0(),
            r.x.scale.domain1() == x_opt.scale.domain1(),
            r.y.scale.domain0() == y_opt.scale.domain0(),
            r.y.scale.domain1() == y_opt.scale.domain1(),
            r.x.scale.range_start() == 0 && r.x.scale.range_stop() == size.0 - 30,
            r.y.scale.range_start() == 0 && r.y.scale.range_stop() == size.1 - 30,
    {
        let (width, height) = size;
        let label_height: i64 = 30;
        let value_width: i64 = 30;
        let color = "rgb(13,16,17)".to_owned();
        let x: i64 = value_width;
        let y: i64 = 0;
        let width: i64 = width - x;
        let height: i64 = height - label_height;

        let y_scale = y_opt.scale.with_range(0, height);
        let x_scale = x_opt.scale.with_range(0, width);
        proof {
            y_scale.lemma_ascending_query_ok();
            x_scale.lemma_ascending_query_ok();
        }

        let y_axis = Axis {
            x,
            y,
            width,
            height,
            color: color.clone(),
            label_position: y_opt.label_position,
            scale: y_scale,
        };

        let x_axis = Axis {
            x,
            y,
            width,
            height,
            color,
            label_position: x_opt.label_position,
            scale: x_scale,
        };

        Axes2d { x: x_axis, y: y_axis }
    }

    /// The plotting-body rectangle inside which all data shapes are drawn.
    pub fn body(&self) -> (r: Coord)
        ensures
            r.x == self.x.x,
            r.y == self.y.y,
            r.width == self.x.width,
            r.height == self.y.height,
    {
        Coord { x: self.x.x, y: self.y.y, width: self.x.width, height: self.y.height }
    }

    /// Category labels: one per entry, positioned by the x scale, with a
    /// vertical separator; the first separator is drawn in the axis color,
    /// later ones in neutral gray.
    pub fn labels(&self, entries: &Vec<Entry>) -> (r: Vec<Label>)
        requires
            self.wf(),
            entries@.len() <= COORD_LIMIT,
        ensures
            r@.len() == entries@.len(),
            forall|i: int|
                0 <= i < r@.len() ==> {
                    let l = #[trigger] r@[i];
                    &&& l.x.num == self.x.scale.offset_rnum(i) && l.x.den == self.x.scale.abs_den()
                    &&& l.y.num == self.x.height && l.y.den == 1
                    &&& l.label.text@ == entries@[i].label@
                    &&& l.label.y.num == 17 && l.label.y.den == 1
                    &&& l.label.color@ == "rgb(12,12,12)"@
                    &&& (self.x.label_position == LabelPosition::InBetween ==> l.label.x.num
                        == self.x.scale.segment_num() && l.label.x.den == 2
                        * self.x.scale.segment_den())
                    &&& (self.x.label_position == LabelPosition::Normal ==> l.label.x.num == 0
                        && l.label.x.den == 1)
                    &&& l.line.x1.num == 0 && l.line.x2.num == 0 && l.line.y1.num == 0
                    &&& l.line.y2.num == -self.y.height && l.line.y2.den == 1
                    &&& (i == 0 ==> l.line.color@ == self.y.color@)
                    &&& (i != 0 ==> l.line.color@ == "rgb(203,206,206)"@)
                },
    {
        let mut out: Vec<Label> = Vec::new();
        let mut i: usize = 0;
        while i < entries.len()
            invariant
                self.wf(),
                entries@.len() <= COORD_LIMIT,
                0 <= i <= entries@.len(),
                out@.len() == i,
                forall|j: int|
                    0 <= j < i ==> {
                        let l = #[trigger] out@[j];
                        &&& l.x.num == self.x.scale.offset_rnum(j) && l.x.den
                            == self.x.scale.abs_den()
                        &&& l.y.num == self.x.height && l.y.den == 1
                        &&& l.label.text@ == entries@[j].label@
                        &&& l.label.y.num == 17 && l.label.y.den == 1
                        &&& l.label.color@ == "rgb(12,12,12)"@
                        &&& (self.x.label_position == LabelPosition::InBetween ==> l.label.x.num
                            == self.x.scale.segment_num() && l.label.x.den == 2
                            * self.x.scale.segment_den())
                        &&& (self.x.label_position == LabelPosition::Normal ==> l.label.x.num == 0
                            && l.label.x.den == 1)
                        &&& l.line.x1.num == 0 && l.line.x2.num == 0 && l.line.y1.num == 0
                        &&& l.line.y2.num == -self.y.height && l.line.y2.den == 1
                        &&& (j == 0 ==> l.line.color@ == self.y.color@)
                        &&& (j != 0 ==> l.line.color@ == "rgb(203,206,206)"@)
                    },
            decreases entries@.len() - i,
        {
            let e = &entries[i];
            let w: Frac = self.x.scale.segment();
            let x: Frac = self.x.scale.offset(i as i64);
            let label_x: Frac = match self.x.label_position {
                LabelPosition::InBetween => w.half(),
                LabelPosition::Normal => Frac::from_int(0),
            };
            let line_color: String = if i == 0 {
                self.y.color.clone()
            } else {
                "rgb(203,206,206)".to_owned()
            };
            out.push(
                Label {
                    x,
                    y: Frac::from_int(self.x.height),
                    label: Text {
                        x: label_x,
                        y: Frac::from_int(17),
                        color: "rgb(12,12,12)".to_owned(),
                        text: e.label.clone(),
                    },
                    line: Line {
                        x1: Frac::from_int(0),
                        x2: Frac::from_int(0),
                        y1: Frac::from_int(0),
                        y2: Frac::from_int(-self.y.height),
                        color: line_color,
                    },
                },
            );
            i = i + 1;
        }
        out
    }

    /// Value labels: one per tick of the y scale, with a horizontal
    /// separator across the body; offsets below the plotting area are
    /// clamped to zero, and the zero tick's separator takes the axis
    /// accent color.
    pub fn values(&self) -> (r: Vec<Label>)
        requires
            self.wf(),
        ensures
            r@.len() == self.y.scale.ticks_spec().len(),
            forall|i: int|
                0 <= i < r@.len() ==> {
                    let l = #[trigger] r@[i];
                    let t = self.y.scale.ticks_spec()[i];
                    let den = self.y.scale.abs_den();
                    let unclamped = self.y.height * den - self.y.scale.offset_rnum(t);
                    &&& l.x.num == 0 && l.x.den == 1
                    &&& (unclamped < 0 ==> l.y.num == 0 && l.y.den == 1)
                    &&& (unclamped >= 0 ==> l.y.num == unclamped && l.y.den == den)
                    &&& l.label.x.num == -5 && l.label.x.den == 1
                    &&& l.label.y.num == 4 && l.label.y.den == 1
                    &&& l.label.color@ == "rgb(12,12,12)"@
                    &&& l.label.text@ == decimal_str(t)
                    &&& l.line.x1.num == 0 && l.line.y1.num == 0 && l.line.y2.num == 0
                    &&& l.line.x2.num == self.y.width && l.line.x2.den == 1
                    &&& (t == 0 ==> l.line.color@ == self.x.color@)
                    &&& (t != 0 ==> l.line.color@ == "rgb(203,206,206)"@)
                },
    {
        let ticks: Vec<i64> = self.y.scale.ticks();
        let mut out: Vec<Label> = Vec::new();
        let mut i: usize = 0;
        while i < ticks.len()
            invariant
                self.wf(),
                0 <= i <= ticks@.len(),
                ticks@.map_values(|t: i64| t as int) == self.y.scale.ticks_spec(),
                forall|k: int|
                    0 <= k < ticks@.len() ==> -crate::scale::OFFSET_LIMIT <= #[trigger] ticks@[k]
                        <= crate::scale::OFFSET_LIMIT,
                out@.len() == i,
                forall|j: int|
                    0 <= j < i ==> {
                        let l = #[trigger] out@[j];
                        let t = self.y.scale.ticks_spec()[j];
                        let den = self.y.scale.abs_den();
                        let unclamped = self.y.height * den - self.y.scale.offset_rnum(t);
                        &&& l.x.num == 0 && l.x.den == 1
                        &&& (unclamped < 0 ==> l.y.num == 0 && l.y.den == 1)
                        &&& (unclamped >= 0 ==> l.y.num == unclamped && l.y.den == den)
                        &&& l.label.x.num == -5 && l.label.x.den == 1
                        &&& l.label.y.num == 4 && l.label.y.den == 1
                        &&& l.label.color@ == "rgb(12,12,12)"@
                        &&& l.label.text@ == decimal_str(t)
                        &&& l.line.x1.num == 0 && l.line.y1.num == 0 && l.line.y2.num == 0
                        &&& l.line.x2.num == self.y.width && l.line.x2.den == 1
                        &&& (t == 0 ==> l.line.color@ == self.x.color@)
                        &&& (t != 0 ==> l.line.color@ == "rgb(203,206,206)"@)
                    },
            decreases ticks@.len() - i,
        {
            let v: i64 = ticks[i];
            proof {
                assert(ticks@.map_values(|t: i64| t as int)[i as int] == v as int);
            }
            let off: Frac = self.y.scale.offset(v);
            proof {
                assert(-1_000_000_000_000_000 <= (self.y.height as int) * off.den
                    <= 1_000_000_000_000_000) by (nonlinear_arith)
                    requires
                        0 <= self.y.height <= COORD_LIMIT,
                        1 <= off.den <= 110_000_000,
                        COORD_LIMIT == 1_000_000,
                ;
            }
            let y_raw: Frac = off.sub_from_int(self.y.height);
            let y_pos: Frac = if y_raw.is_neg() {
                Frac::from_int(0)
            } else {
                y_raw
            };
            let line_color: String = if v == 0 {
                self.x.color.clone()
            } else {
                "rgb(203,206,206)".to_owned()
            };
            out.push(
                Label {
                    x: Frac::from_int(0),
                    y: y_pos,
                    label: Text {
                        x: Frac::from_int(-5),
                        y: Frac::from_int(4),
                        color: "rgb(12,12,12)".to_owned(),
                        text: int_to_decimal(v),
                    },
                    line: Line {
                        x1: Frac::from_int(0),
                        x2: Frac::from_int(self.y.width),
                        y1: Frac::from_int(0),
                        y2: Frac::from_int(0),
                        color: line_color,
                    },
                },
            );
            i = i + 1;
        }
        out
    }
}

/// Law: the plotting body of axes laid out in a content area of size
/// `(W, H)` is contained in the rectangle `(0, 0, W, H)` and strictly
/// smaller than it in both dimensions.  (Its top edge coincides with the
/// content's top edge: the value gutter is taken from the left and the
/// label gutter from the bottom.)
pub proof fn lemma_body_within(a: Axes2d, size: (int, int), body: Coord)
    requires
        31 <= size.0,
        31 <= size.1,
        a.x.x == 30 && a.y.y == 0 && a.x.width == size.0 - 30 && a.y.height == size.1 - 30,
        body.x == a.x.x && body.y == a.y.y && body.width == a.x.width && body.height == a.y.height,
    ensures
        0 <= body.x && 0 <= body.y,
        0 < body.width && 0 < body.height,
        body.x + body.width <= size.0,
        body.y + body.height <= size.1,
        body.width < size.0 && body.height < size.1,
{
}

} // verus!
