//! Statistical charts (bar, line, pie) rendered as exact pixel geometry.
//!
//! The core is the axis/scale subsystem: projecting a numeric or categorical
//! domain onto a pixel range and deriving human-readable tick positions.
//! All geometry is computed in exact arithmetic: coordinates are integers,
//! derived positions are rational numbers.

mod example_lib;
pub mod axis;
pub mod bar;
pub mod entry;
pub mod error;
pub mod frac;
pub mod graph;
pub mod line;
pub mod pie;
pub mod scale;
pub mod text;

pub use bar::{Bar, BarBuilder};
pub use entry::Entry;
pub use error::ChartError;
pub use example_lib::add_two;
pub use frac::Frac;
pub use graph::Tools;
pub use line::{Line, LineBuilder};
pub use pie::{Pie, PieBuilder};
