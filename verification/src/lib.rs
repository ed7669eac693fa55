//! Tabular data with two interchangeable physical layouts.
//!
//! A table is an ordered, fixed-row-count collection of rows sharing one
//! ordered column schema. [`RowMajorTable`] stores the data grouped by row,
//! [`ColMajorTable`] grouped by column; both offer the same logical
//! behaviour: construction from a table-shaped [`nu_protocol::Value`],
//! row access by index or column name, iteration, in-place column
//! insertion, and export back to a structured value.
//!
//! The two layouts expose the same operations as identically named
//! inherent methods rather than through a shared trait, so a caller picks
//! a layout by naming its type; the laws module proves the shared
//! behaviour once over the common table model.

use vstd::prelude::*;

pub mod col_major;
pub mod laws;
pub mod model;
pub mod row_major;
pub mod value_ops;

pub use col_major::{ColMajorIter, ColMajorRow, ColMajorTable};
pub use row_major::{RowMajorIter, RowMajorRow, RowMajorTable};

verus! {

/// A source-location tag: the byte range a value came from.
#[derive(Debug, Clone, Copy, PartialEq, Eq, Structural)]
pub struct Span {
    pub start: usize,
    pub end: usize,
}

impl Span {
    /// A span is ordered: it ends no earlier than it starts.
    pub open spec fn wf(self) -> bool {
        self.start <= self.end
    }

    /// The span covering the byte range `start..end`.
    pub fn new(start: usize, end: usize) -> (r: Span)
        requires
            start <= end,
        ensures
            r == (Span { start, end }),
            r.wf(),
    {
        Span { start, end }
    }
}

/// The one error the tables raise: a value whose declared type is not
/// table-shaped, or a row element that is not a record. It carries a
/// descriptive message and the offending value's source location.
#[derive(Debug, Clone)]
pub struct TypeMismatch {
    pub message: String,
    pub span: Span,
}

} // verus!
