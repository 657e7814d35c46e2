//! A labeled numeric entry: the input datum of every chart.

use vstd::prelude::*;

verus! {

/// One labeled value.  Entries are collected into an ordered sequence;
/// the order determines categorical axis position and line-path order.
#[derive(Debug)]
pub struct Entry {
    pub label: String,
    pub value: i32,
}

impl Entry {
    /// Builds an entry from a label and a value.
    pub fn new(label: String, value: i32) -> (e: Entry)
        ensures
            e.label == label,
            e.value == value,
    {
        Entry { label, value }
    }
}

} // verus!
