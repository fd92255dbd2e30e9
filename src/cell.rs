use vstd::prelude::*;

verus! {

/// The error value a spreadsheet cell can hold.
#[derive(Clone, Copy, Debug, PartialEq, Eq, Structural)]
pub enum CellErrorKind {
    Div0,
    NA,
    Name,
    Null,
    Num,
    Ref,
    Value,
    GettingData,
}

/// One spreadsheet cell: a closed set of variants.
#[derive(Clone, Debug, PartialEq)]
pub enum Cell {
    Int(i64),
    /// A floating-point value, held as its IEEE-754 bit pattern.
    Float(u64),
    Text(String),
    Bool(bool),
    /// Milliseconds since the Unix epoch, or `None` where the cell does not
    /// hold a valid date/time.
    DateTime(Option<i64>),
    Error(CellErrorKind),
    Empty,
}

} // verus!
