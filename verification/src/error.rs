//! Error taxonomy for scale construction and chart building.

use vstd::prelude::*;

verus! {

/// Failures surfaced while building scales or charts.
#[derive(Clone, Copy, Debug, PartialEq, Eq, Structural)]
pub enum ChartError {
    /// A scale was asked for a zero-width domain.
    DegenerateDomain,
    /// A chart needing at least one category was given no entries.
    EmptyDataset,
}

} // verus!
