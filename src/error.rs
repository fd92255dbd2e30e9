use vstd::prelude::*;

use crate::cell::CellErrorKind;
use crate::table::ContainerFormat;

verus! {

/// Everything that can go wrong while turning a sheet into a batch.
#[derive(Debug, PartialEq)]
pub enum SheetError {
    /// A coordinate lies outside the grid.
    OutOfBounds { row: usize, col: usize },
    /// The sampled cell of a column holds an error value, so no type can be
    /// inferred for the column.
    ErrorCell { column: String, row: usize, col: usize, error: CellErrorKind },
    /// A batch was given a different number of names and columns.
    ColumnCount { sheet: String, names: usize, columns: usize },
    /// A column's length differs from the batch's row count.
    ColumnLength { sheet: String, column: String, expected: usize, found: usize },
    /// Named tables were asked of a container format that has none.
    TablesUnsupported { format: ContainerFormat },
}

} // verus!
