use vstd::prelude::*;

use crate::cell::Cell;
use crate::grid::{Grid, GridView};
use crate::schema::FieldType;

verus! {

/// A homogeneous, nullable column of one element type.
#[derive(Debug, PartialEq)]
pub enum ColumnArray {
    Boolean(Vec<Option<bool>>),
    Integer(Vec<Option<i64>>),
    /// IEEE-754 bit patterns.
    Float(Vec<Option<u64>>),
    Text(Vec<Option<String>>),
    /// Milliseconds since the Unix epoch.
    Timestamp(Vec<Option<i64>>),
    /// A column of the given number of nulls.
    Null(usize),
}

/// A cell of the given type: the only cells a column of that type keeps.
pub open spec fn accepts(t: FieldType, c: Cell) -> bool {
    match (t, c) {
        (FieldType::Boolean, Cell::Bool(_)) => true,
        (FieldType::Integer, Cell::Int(_)) => true,
        (FieldType::Float, Cell::Float(_)) => true,
        (FieldType::Text, Cell::Text(_)) => true,
        (FieldType::Timestamp, Cell::DateTime(Some(_))) => true,
        _ => false,
    }
}

/// What a column of type `t` holds for a cell that may be absent: the cell
/// itself where it has that type, else null.
pub open spec fn slot(t: FieldType, c: Option<Cell>) -> Option<Cell> {
    match c {
        Some(cell) => if accepts(t, cell) { Some(cell) } else { None },
        None => None,
    }
}

impl ColumnArray {
    pub open spec fn spec_len(&self) -> nat {
        match self {
            ColumnArray::Boolean(v) => v@.len(),
            ColumnArray::Integer(v) => v@.len(),
            ColumnArray::Float(v) => v@.len(),
            ColumnArray::Text(v) => v@.len(),
            ColumnArray::Timestamp(v) => v@.len(),
            ColumnArray::Null(n) => *n as nat,
        }
    }

    pub open spec fn data_type(&self) -> FieldType {
        match self {
            ColumnArray::Boolean(_) => FieldType::Boolean,
            ColumnArray::Integer(_) => FieldType::Integer,
            ColumnArray::Float(_) => FieldType::Float,
            ColumnArray::Text(_) => FieldType::Text,
            ColumnArray::Timestamp(_) => FieldType::Timestamp,
            ColumnArray::Null(_) => FieldType::Null,
        }
    }

    /// Element `i`, written as the cell it came from; `None` for a null.
    pub open spec fn element(&self, i: int) -> Option<Cell> {
        match self {
            ColumnArray::Boolean(v) => match v@[i] {
                Some(b) => Some(Cell::Bool(b)),
                None => None,
            },
            ColumnArray::Integer(v) => match v@[i] {
                Some(x) => Some(Cell::Int(x)),
                None => None,
            },
            ColumnArray::Float(v) => match v@[i] {
                Some(x) => Some(Cell::Float(x)),
                None => None,
            },
            ColumnArray::Text(v) => match v@[i] {
                Some(s) => Some(Cell::Text(s)),
                None => None,
            },
            ColumnArray::Timestamp(v) => match v@[i] {
                Some(ms) => Some(Cell::DateTime(Some(ms))),
                None => None,
            },
            ColumnArray::Null(_) => None,
        }
    }

    pub fn len(&self) -> (r: usize)
        ensures
            r == self.spec_len(),
    {
        match self {
            ColumnArray::Boolean(v) => v.len(),
            ColumnArray::Integer(v) => v.len(),
            ColumnArray::Float(v) => v.len(),
            ColumnArray::Text(v) => v.len(),
            ColumnArray::Timestamp(v) => v.len(),
            ColumnArray::Null(n) => *n,
        }
    }
}

/// Number of data rows in a grid of `height` rows: all but the header row.
pub open spec fn data_row_count(height: nat) -> nat {
    if height > 0 { (height - 1) as nat } else { 0 }
}

/// `arr` is column `col` of `g` materialized as type `t` over data rows
/// `1..height`: element `i` comes from row `i + 1`.
pub open spec fn materialized(arr: ColumnArray, g: GridView, col: int, t: FieldType, height: nat) -> bool {
    &&& arr.data_type() == t
    &&& arr.spec_len() == data_row_count(height)
    &&& forall|i: int| 0 <= i < arr.spec_len() ==> #[trigger] arr.element(i) == slot(t, g.cell(i + 1, col))
}

fn create_boolean_array(data: &Grid, col: usize, height: usize) -> (r: ColumnArray)
    ensures
        materialized(r, data@, col as int, FieldType::Boolean, height as nat),
{
    let mut v: Vec<Option<bool>> = Vec::new();
    let mut row: usize = 1;
    while row < height
        invariant
            1 <= row,
            height == 0 ==> row == 1,
            height > 0 ==> row <= height,
            v@.len() == data_row_count(row as nat),
            forall|i: int| 0 <= i < v@.len() ==> #[trigger] ColumnArray::Boolean(v).element(i)
                == slot(FieldType::Boolean, data@.cell(i + 1, col as int)),
        decreases height - row,
    {
        let x = match data.get(row, col) {
            Some(Cell::Bool(b)) => Some(*b),
            _ => None,
        };
        let ghost before = v;
        v.push(x);
        proof {
            assert forall|i: int| 0 <= i < v@.len() implies #[trigger] ColumnArray::Boolean(v).element(i)
                == slot(FieldType::Boolean, data@.cell(i + 1, col as int)) by {
                if i < before@.len() {
                    assert(ColumnArray::Boolean(before).element(i) == ColumnArray::Boolean(v).element(i));
                }
            }
        }
        row = row + 1;
    }
    ColumnArray::Boolean(v)
}

fn create_int_array(data: &Grid, col: usize, height: usize) -> (r: ColumnArray)
    ensures
        materialized(r, data@, col as int, FieldType::Integer, height as nat),
{
    let mut v: Vec<Option<i64>> = Vec::new();
    let mut row: usize = 1;
    while row < height
        invariant
            1 <= row,
            height == 0 ==> row == 1,
            height > 0 ==> row <= height,
            v@.len() == data_row_count(row as nat),
            forall|i: int| 0 <= i < v@.len() ==> #[trigger] ColumnArray::Integer(v).element(i)
                == slot(FieldType::Integer, data@.cell(i + 1, col as int)),
        decreases height - row,
    {
        let x = match data.get(row, col) {
            Some(Cell::Int(n)) => Some(*n),
            _ => None,
        };
        let ghost before = v;
        v.push(x);
        proof {
            assert forall|i: int| 0 <= i < v@.len() implies #[trigger] ColumnArray::Integer(v).element(i)
                == slot(FieldType::Integer, data@.cell(i + 1, col as int)) by {
                if i < before@.len() {
                    assert(ColumnArray::Integer(before).element(i) == ColumnArray::Integer(v).element(i));
                }
            }
        }
        row = row + 1;
    }
    ColumnArray::Integer(v)
}

fn create_float_array(data: &Grid, col: usize, height: usize) -> (r: ColumnArray)
    ensures
        materialized(r, data@, col as int, FieldType::Float, height as nat),
{
    let mut v: Vec<Option<u64>> = Vec::new();
    let mut row: usize = 1;
    while row < height
        invariant
            1 <= row,
            height == 0 ==> row == 1,
            height > 0 ==> row <= height,
            v@.len() == data_row_count(row as nat),
            forall|i: int| 0 <= i < v@.len() ==> #[trigger] ColumnArray::Float(v).element(i)
                == slot(FieldType::Float, data@.cell(i + 1, col as int)),
        decreases height - row,
    {
        let x = match data.get(row, col) {
            Some(Cell::Float(bits)) => Some(*bits),
            _ => None,
        };
        let ghost before = v;
        v.push(x);
        proof {
            assert forall|i: int| 0 <= i < v@.len() implies #[trigger] ColumnArray::Float(v).element(i)
                == slot(FieldType::Float, data@.cell(i + 1, col as int)) by {
                if i < before@.len() {
                    assert(ColumnArray::Float(before).element(i) == ColumnArray::Float(v).element(i));
                }
            }
        }
        row = row + 1;
    }
    ColumnArray::Float(v)
}

fn create_string_array(data: &Grid, col: usize, height: usize) -> (r: ColumnArray)
    ensures
        materialized(r, data@, col as int, FieldType::Text, height as nat),
{
    let mut v: Vec<Option<String>> = Vec::new();
    let mut row: usize = 1;
    while row < height
        invariant
            1 <= row,
            height == 0 ==> row == 1,
            height > 0 ==> row <= height,
            v@.len() == data_row_count(row as nat),
            forall|i: int| 0 <= i < v@.len() ==> #[trigger] ColumnArray::Text(v).element(i)
                == slot(FieldType::Text, data@.cell(i + 1, col as int)),
        decreases height - row,
    {
        let x = match data.get(row, col) {
            Some(Cell::Text(s)) => Some(s.clone()),
            _ => None,
        };
        let ghost before = v;
        v.push(x);
        proof {
            assert forall|i: int| 0 <= i < v@.len() implies #[trigger] ColumnArray::Text(v).element(i)
                == slot(FieldType::Text, data@.cell(i + 1, col as int)) by {
                if i < before@.len() {
                    assert(ColumnArray::Text(before).element(i) == ColumnArray::Text(v).element(i));
                }
            }
        }
        row = row + 1;
    }
    ColumnArray::Text(v)
}

fn create_date_array(data: &Grid, col: usize, height: usize) -> (r: ColumnArray)
    ensures
        materialized(r, data@, col as int, FieldType::Timestamp, height as nat),
{
    let mut v: Vec<Option<i64>> = Vec::new();
    let mut row: usize = 1;
    while row < height
        invariant
            1 <= row,
            height == 0 ==> row == 1,
            height > 0 ==> row <= height,
            v@.len() == data_row_count(row as nat),
            forall|i: int| 0 <= i < v@.len() ==> #[trigger] ColumnArray::Timestamp(v).element(i)
                == slot(FieldType::Timestamp, data@.cell(i + 1, col as int)),
        decreases height - row,
    {
        let x = match data.get(row, col) {
            Some(Cell::DateTime(Some(ms))) => Some(*ms),
            _ => None,
        };
        let ghost before = v;
        v.push(x);
        proof {
            assert forall|i: int| 0 <= i < v@.len() implies #[trigger] ColumnArray::Timestamp(v).element(i)
                == slot(FieldType::Timestamp, data@.cell(i + 1, col as int)) by {
                if i < before@.len() {
                    assert(ColumnArray::Timestamp(before).element(i) == ColumnArray::Timestamp(v).element(i));
                }
            }
        }
        row = row + 1;
    }
    ColumnArray::Timestamp(v)
}

/// Column `col` of `data` as a column of type `t`, one element per data row
/// (rows `1..height`). A cell of another type, or a missing one, becomes null;
/// a `Null` column is all nulls.
pub fn create_array(data: &Grid, col: usize, t: FieldType, height: usize) -> (r: ColumnArray)
    ensures
        materialized(r, data@, col as int, t, height as nat),
{
    match t {
        FieldType::Boolean => create_boolean_array(data, col, height),
        FieldType::Integer => create_int_array(data, col, height),
        FieldType::Float => create_float_array(data, col, height),
        FieldType::Text => create_string_array(data, col, height),
        FieldType::Timestamp => create_date_array(data, col, height),
        FieldType::Null => {
            let n: usize = if height > 0 { height - 1 } else { 0 };
            ColumnArray::Null(n)
        },
    }
}

/// Every non-null element of a materialized column is a cell of the column's
/// type, taken unchanged from the grid at the element's row.
pub proof fn lemma_type_purity(arr: ColumnArray, g: GridView, col: int, t: FieldType, height: nat, i: int)
    requires
        materialized(arr, g, col, t, height),
        0 <= i < arr.spec_len(),
        arr.element(i) is Some,
    ensures
        accepts(t, arr.element(i).unwrap()),
        g.cell(i + 1, col) == arr.element(i),
{
}

} // verus!
