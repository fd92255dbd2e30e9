use vstd::prelude::*;

use crate::cell::Cell;
use crate::error::SheetError;
use crate::grid::{Grid, GridView};
use crate::naming::{alias_for_name, column_namer, field_names};

verus! {

/// The element type of a column.
#[derive(Clone, Copy, Debug, PartialEq, Eq, Structural)]
pub enum FieldType {
    Boolean,
    Integer,
    Float,
    Text,
    /// Milliseconds since the Unix epoch.
    Timestamp,
    /// Every element is null.
    Null,
}

/// One column of a schema: a name and an element type.
#[derive(Clone, Debug, PartialEq)]
pub struct Field {
    pub name: String,
    pub data_type: FieldType,
    pub nullable: bool,
}

/// An ordered list of fields, one per grid column.
#[derive(Debug, PartialEq)]
pub struct Schema {
    pub fields: Vec<Field>,
}

/// The element type that a sampled cell calls for; `None` for an error cell.
pub open spec fn inferred_type(c: Cell) -> Option<FieldType> {
    match c {
        Cell::Int(_) => Some(FieldType::Integer),
        Cell::Float(_) => Some(FieldType::Float),
        Cell::Text(_) => Some(FieldType::Text),
        Cell::Bool(_) => Some(FieldType::Boolean),
        Cell::DateTime(_) => Some(FieldType::Timestamp),
        Cell::Error(_) => None,
        Cell::Empty => Some(FieldType::Null),
    }
}

/// The cell at `(row, col)` exists and is no error cell.
pub open spec fn sample_usable(g: GridView, row: int, col: int) -> bool {
    &&& g.in_bounds(row, col)
    &&& !(g.rows[row][col] is Error)
}

/// Why no type can be inferred from the cell at `(row, col)`.
pub open spec fn sample_error(g: GridView, row: usize, col: usize, column: String) -> SheetError {
    if !g.in_bounds(row as int, col as int) {
        SheetError::OutOfBounds { row, col }
    } else {
        match g.rows[row as int][col as int] {
            Cell::Error(e) => SheetError::ErrorCell { column, row, col, error: e },
            _ => SheetError::OutOfBounds { row, col },
        }
    }
}

pub open spec fn header_texts(names: Seq<String>) -> Seq<Seq<char>> {
    names.map_values(|s: String| s@)
}

/// `schema` is what inference makes of `grid` sampled at `row`, under the
/// header texts `names`.
pub open spec fn schema_inferred(g: GridView, names: Seq<String>, row: int, schema: Schema) -> bool {
    &&& schema.fields@.len() == names.len()
    &&& field_names(schema.fields@) == column_namer(header_texts(names))
    &&& forall|c: int| 0 <= c < names.len() ==> #[trigger] field_fits(g, row, c, schema.fields@[c])
}

/// Column `c` exists in the sample row and `f` is the nullable field its
/// sample cell calls for.
pub open spec fn field_fits(g: GridView, row: int, c: int, f: Field) -> bool {
    &&& g.in_bounds(row, c)
    &&& inferred_type(g.rows[row][c]) == Some(f.data_type)
    &&& f.nullable
}

/// The element type of column `col`, decided by the single cell at
/// `(row, col)`. `column` names the column in an error.
pub fn get_arrow_column_type(data: &Grid, row: usize, col: usize, column: &String) -> (r: Result<FieldType, SheetError>)
    ensures
        r is Ok <==> sample_usable(data@, row as int, col as int),
        r matches Ok(t) ==> inferred_type(data@.rows[row as int][col as int]) == Some(t),
        r matches Err(e) ==> e == sample_error(data@, row, col, *column),
{
    match data.get(row, col) {
        None => Err(SheetError::OutOfBounds { row, col }),
        Some(cell) => match cell {
            Cell::Int(_) => Ok(FieldType::Integer),
            Cell::Float(_) => Ok(FieldType::Float),
            Cell::Text(_) => Ok(FieldType::Text),
            Cell::Bool(_) => Ok(FieldType::Boolean),
            Cell::DateTime(_) => Ok(FieldType::Timestamp),
            Cell::Error(e) => Err(SheetError::ErrorCell { column: column.clone(), row, col, error: *e }),
            Cell::Empty => Ok(FieldType::Null),
        },
    }
}

/// Infers one nullable field per header text: its type from the cell of row
/// `row_idx` in that column, its name made unique by the Column Namer. Fails
/// at the first column whose sample cell is missing or holds an error.
pub fn arrow_schema_from_column_names_and_range(
    range: &Grid,
    column_names: &[String],
    row_idx: usize,
) -> (r: Result<Schema, SheetError>)
    ensures
        r is Ok <==> forall|c: int|
            0 <= c < column_names@.len() ==> #[trigger] sample_usable(range@, row_idx as int, c),
        r matches Ok(s) ==> schema_inferred(range@, column_names@, row_idx as int, s),
        r matches Err(e) ==> exists|c: int|
            0 <= c < column_names@.len()
            && (forall|k: int| 0 <= k < c ==> #[trigger] sample_usable(range@, row_idx as int, k))
            && !sample_usable(range@, row_idx as int, c)
            && e == sample_error(range@, row_idx, c as usize, column_names@[c]),
{
    let ghost header = header_texts(column_names@);
    let mut fields: Vec<Field> = Vec::new();
    let mut col_idx: usize = 0;
    while col_idx < column_names.len()
        invariant
            col_idx <= column_names@.len(),
            header == header_texts(column_names@),
            fields@.len() == col_idx,
            field_names(fields@) == column_namer(header.take(col_idx as int)),
            forall|c: int| 0 <= c < col_idx ==> #[trigger] sample_usable(range@, row_idx as int, c),
            forall|c: int|
                0 <= c < col_idx ==> #[trigger] field_fits(range@, row_idx as int, c, fields@[c]),
        decreases column_names@.len() - col_idx,
    {
        let name = &column_names[col_idx];
        let col_type = match get_arrow_column_type(range, row_idx, col_idx, name) {
            Ok(t) => t,
            Err(e) => {
                return Err(e);
            },
        };
        let alias = alias_for_name(name.as_str(), fields.as_slice());
        let ghost before = fields@;
        fields.push(Field { name: alias, data_type: col_type, nullable: true });
        proof {
            let t = header.take(col_idx as int + 1);
            assert(t.drop_last() =~= header.take(col_idx as int));
            assert(t.last() == header[col_idx as int]);
            assert(field_names(fields@) =~= field_names(before).push(alias@));
            assert(sample_usable(range@, row_idx as int, col_idx as int));
            assert(fields@[col_idx as int].data_type == col_type);
            assert forall|c: int| 0 <= c < col_idx + 1 implies #[trigger] field_fits(
                range@,
                row_idx as int,
                c,
                fields@[c],
            ) by {
                if c < col_idx {
                    assert(fields@[c] == before[c]);
                }
            }
        }
        col_idx = col_idx + 1;
    }
    assert(header.take(col_idx as int) =~= header);
    let schema = Schema { fields };
    assert(schema_inferred(range@, column_names@, row_idx as int, schema));
    Ok(schema)
}

/// An inferred schema has one field per grid column, wherever the header
/// gives every grid column a text.
pub proof fn lemma_schema_width(g: GridView, names: Seq<String>, row: int, schema: Schema)
    requires
        schema_inferred(g, names, row, schema),
        names.len() >= g.width,
    ensures
        schema.fields@.len() == g.width,
{
    if names.len() > g.width {
        assert(field_fits(g, row, g.width as int, schema.fields@[g.width as int]));
    }
}

} // verus!
