use fastexcel::batch::Batch;
use fastexcel::cell::{Cell, CellErrorKind};
use fastexcel::column::{create_array, ColumnArray};
use fastexcel::error::SheetError;
use fastexcel::grid::Grid;
use fastexcel::naming::alias_for_name;
use fastexcel::schema::{arrow_schema_from_column_names_and_range, get_arrow_column_type, Field, FieldType};
use fastexcel::sheet::ExcelSheet;
use fastexcel::table::{ensure_table_support, ContainerFormat};

fn text(s: &str) -> Cell {
    Cell::Text(s.to_string())
}

fn strings(v: &[&str]) -> Vec<String> {
    v.iter().map(|s| s.to_string()).collect()
}

fn grid(rows: Vec<Vec<Cell>>) -> Grid {
    let width = rows.first().map(|r| r.len()).unwrap_or(0);
    Grid::new(width, rows).unwrap()
}

fn field(name: &str, data_type: FieldType) -> Field {
    Field { name: name.to_string(), data_type, nullable: true }
}

fn field_names(fields: &[Field]) -> Vec<String> {
    fields.iter().map(|f| f.name.clone()).collect()
}

fn namer(header: &[&str]) -> Vec<String> {
    let row: Vec<Cell> = header.iter().map(|_| Cell::Empty).collect();
    let g = grid(vec![row.clone(), row]);
    let schema = arrow_schema_from_column_names_and_range(&g, &strings(header), 1).unwrap();
    field_names(&schema.fields)
}

fn sheet_of(rows: Vec<Vec<Cell>>, header: &[&str]) -> ExcelSheet {
    let g = grid(rows);
    let schema = arrow_schema_from_column_names_and_range(&g, &strings(header), 1).unwrap();
    ExcelSheet::new("Sheet1".to_string(), schema, g)
}

#[test]
fn duplicate_header_is_suffixed_and_types_follow_sample_row() {
    let g = grid(vec![
        vec![text("id"), text("id"), text("value")],
        vec![Cell::Int(1), text("x"), Cell::Float(2.5f64.to_bits())],
    ]);
    let schema = arrow_schema_from_column_names_and_range(&g, &strings(&["id", "id", "value"]), 1).unwrap();
    assert_eq!(field_names(&schema.fields), strings(&["id", "id_1", "value"]));
    let types: Vec<FieldType> = schema.fields.iter().map(|f| f.data_type).collect();
    assert_eq!(types, vec![FieldType::Integer, FieldType::Text, FieldType::Float]);
    assert!(schema.fields.iter().all(|f| f.nullable));
    let sheet = ExcelSheet::new("Sheet1".to_string(), schema, g);
    let batch = sheet.to_arrow().unwrap();
    assert_eq!(batch.num_rows(), 1);
    assert_eq!(batch.names, strings(&["id", "id_1", "value"]));
    assert_eq!(batch.columns[0], ColumnArray::Integer(vec![Some(1)]));
    assert_eq!(batch.columns[1], ColumnArray::Text(vec![Some("x".to_string())]));
    assert_eq!(batch.columns[2], ColumnArray::Float(vec![Some(2.5f64.to_bits())]));
}

#[test]
fn error_sample_cell_fails_inference_naming_column() {
    let g = grid(vec![vec![text("amount")], vec![Cell::Error(CellErrorKind::Div0)]]);
    let r = arrow_schema_from_column_names_and_range(&g, &strings(&["amount"]), 1);
    assert_eq!(
        r,
        Err(SheetError::ErrorCell { column: "amount".to_string(), row: 1, col: 0, error: CellErrorKind::Div0 })
    );
}

#[test]
fn first_failing_column_is_reported() {
    let g = grid(vec![
        vec![text("a"), text("b"), text("c")],
        vec![Cell::Int(1), Cell::Error(CellErrorKind::NA), Cell::Error(CellErrorKind::Ref)],
    ]);
    let r = arrow_schema_from_column_names_and_range(&g, &strings(&["a", "b", "c"]), 1);
    assert_eq!(
        r,
        Err(SheetError::ErrorCell { column: "b".to_string(), row: 1, col: 1, error: CellErrorKind::NA })
    );
}

#[test]
fn text_in_integer_column_becomes_null() {
    let sheet = sheet_of(
        vec![vec![text("n")], vec![Cell::Int(1)], vec![text("x")], vec![Cell::Int(3)]],
        &["n"],
    );
    assert_eq!(sheet.schema().fields[0].data_type, FieldType::Integer);
    let batch = sheet.to_arrow().unwrap();
    assert_eq!(batch.columns[0], ColumnArray::Integer(vec![Some(1), None, Some(3)]));
}

#[test]
fn header_only_sheet_has_no_rows() {
    let g = grid(vec![vec![text("a"), text("b")]]);
    let schema = fastexcel::schema::Schema {
        fields: vec![field("a", FieldType::Integer), field("b", FieldType::Null)],
    };
    let mut sheet = ExcelSheet::new("Empty".to_string(), schema, g);
    assert_eq!(sheet.height(), 0);
    let batch = sheet.to_arrow().unwrap();
    assert_eq!(batch.num_rows(), 0);
    assert_eq!(batch.columns, vec![ColumnArray::Integer(vec![]), ColumnArray::Null(0)]);
}

#[test]
fn grid_without_rows_has_height_zero() {
    let g = Grid::new(0, vec![]).unwrap();
    let schema = fastexcel::schema::Schema { fields: vec![field("a", FieldType::Text)] };
    let mut sheet = ExcelSheet::new("Blank".to_string(), schema, g);
    assert_eq!(sheet.height(), 0);
    let batch = sheet.to_arrow().unwrap();
    assert_eq!(batch.columns, vec![ColumnArray::Text(vec![])]);
}

#[test]
fn tables_only_for_xlsx() {
    assert_eq!(ensure_table_support(ContainerFormat::Xlsx), Ok(()));
    for format in [ContainerFormat::Xls, ContainerFormat::Xlsb, ContainerFormat::Ods] {
        assert_eq!(ensure_table_support(format), Err(SheetError::TablesUnsupported { format }));
    }
}

#[test]
fn repeated_names_get_increasing_suffixes() {
    assert_eq!(namer(&["a", "a", "a", "a_1"]), strings(&["a", "a_1", "a_2", "a_1_1"]));
}

#[test]
fn names_without_duplicates_are_kept() {
    assert_eq!(namer(&["x", "y", "x_1", "z"]), strings(&["x", "y", "x_1", "z"]));
}

#[test]
fn empty_header_names_are_deduplicated() {
    assert_eq!(namer(&["", "", ""]), strings(&["", "_1", "_2"]));
}

#[test]
fn namer_output_has_no_duplicates() {
    let out = namer(&["b", "b_1", "b", "b", "b_2", "b_1"]);
    for i in 0..out.len() {
        for j in 0..i {
            assert_ne!(out[i], out[j]);
        }
    }
    assert_eq!(out, strings(&["b", "b_1", "b_2", "b_3", "b_2_1", "b_1_1"]));
}

#[test]
fn alias_uses_two_digit_suffix() {
    let mut fields = vec![field("a", FieldType::Null)];
    for d in 1..=10 {
        fields.push(field(&format!("a_{d}"), FieldType::Null));
    }
    assert_eq!(alias_for_name("a", &fields), "a_11");
    assert_eq!(alias_for_name("b", &fields), "b");
    assert_eq!(alias_for_name("a_1", &fields), "a_1_1");
}

#[test]
fn schema_has_one_field_per_grid_column() {
    let g = grid(vec![
        vec![text("a"), text("b"), text("c"), text("d")],
        vec![Cell::Bool(true), Cell::DateTime(Some(5)), Cell::Empty, text("t")],
    ]);
    let schema = arrow_schema_from_column_names_and_range(&g, &strings(&["a", "b", "c", "d"]), 1).unwrap();
    assert_eq!(schema.fields.len(), g.width());
    let types: Vec<FieldType> = schema.fields.iter().map(|f| f.data_type).collect();
    assert_eq!(types, vec![FieldType::Boolean, FieldType::Timestamp, FieldType::Null, FieldType::Text]);
}

#[test]
fn more_names_than_columns_is_out_of_bounds() {
    let g = grid(vec![vec![text("a")], vec![Cell::Int(1)]]);
    let r = arrow_schema_from_column_names_and_range(&g, &strings(&["a", "b"]), 1);
    assert_eq!(r, Err(SheetError::OutOfBounds { row: 1, col: 1 }));
}

#[test]
fn sample_row_past_grid_is_out_of_bounds() {
    let g = grid(vec![vec![text("a")]]);
    let r = arrow_schema_from_column_names_and_range(&g, &strings(&["a"]), 1);
    assert_eq!(r, Err(SheetError::OutOfBounds { row: 1, col: 0 }));
}

#[test]
fn column_type_of_each_cell_kind() {
    let g = grid(vec![vec![
        Cell::Int(7),
        Cell::Float(1.5f64.to_bits()),
        text("s"),
        Cell::Bool(false),
        Cell::DateTime(None),
        Cell::Empty,
        Cell::Error(CellErrorKind::Value),
    ]]);
    let name = "c".to_string();
    let expected = [
        FieldType::Integer,
        FieldType::Float,
        FieldType::Text,
        FieldType::Boolean,
        FieldType::Timestamp,
        FieldType::Null,
    ];
    for (col, t) in expected.iter().enumerate() {
        assert_eq!(get_arrow_column_type(&g, 0, col, &name), Ok(*t));
    }
    assert_eq!(
        get_arrow_column_type(&g, 0, 6, &name),
        Err(SheetError::ErrorCell { column: name.clone(), row: 0, col: 6, error: CellErrorKind::Value })
    );
    assert_eq!(get_arrow_column_type(&g, 0, 7, &name), Err(SheetError::OutOfBounds { row: 0, col: 7 }));
}

#[test]
fn every_column_has_data_row_count() {
    let sheet = sheet_of(
        vec![
            vec![text("a"), text("b"), text("c")],
            vec![Cell::Int(1), Cell::Empty, text("x")],
            vec![Cell::Empty, Cell::Int(2), Cell::Empty],
            vec![Cell::Bool(true), text("y"), text("z")],
        ],
        &["a", "b", "c"],
    );
    let batch = sheet.to_arrow().unwrap();
    assert_eq!(batch.num_rows(), 3);
    assert_eq!(batch.num_columns(), 3);
    assert!(batch.columns.iter().all(|c| c.len() == 3));
    assert_eq!(batch.columns[1], ColumnArray::Null(3));
    assert_eq!(
        batch.columns[2],
        ColumnArray::Text(vec![Some("x".to_string()), None, Some("z".to_string())])
    );
}

#[test]
fn columns_keep_only_cells_of_their_type() {
    let mixed = vec![
        vec![text("h")],
        vec![Cell::Bool(true)],
        vec![Cell::Int(4)],
        vec![Cell::Float(3.0f64.to_bits())],
        vec![text("4")],
        vec![Cell::DateTime(Some(86_400_000))],
        vec![Cell::DateTime(None)],
        vec![Cell::Error(CellErrorKind::Num)],
        vec![Cell::Empty],
    ];
    let g = grid(mixed);
    assert_eq!(
        create_array(&g, 0, FieldType::Boolean, g.height()),
        ColumnArray::Boolean(vec![Some(true), None, None, None, None, None, None, None])
    );
    assert_eq!(
        create_array(&g, 0, FieldType::Integer, g.height()),
        ColumnArray::Integer(vec![None, Some(4), None, None, None, None, None, None])
    );
    assert_eq!(
        create_array(&g, 0, FieldType::Float, g.height()),
        ColumnArray::Float(vec![None, None, Some(3.0f64.to_bits()), None, None, None, None, None])
    );
    assert_eq!(
        create_array(&g, 0, FieldType::Text, g.height()),
        ColumnArray::Text(vec![None, None, None, Some("4".to_string()), None, None, None, None])
    );
    assert_eq!(
        create_array(&g, 0, FieldType::Timestamp, g.height()),
        ColumnArray::Timestamp(vec![None, None, None, None, Some(86_400_000), None, None, None])
    );
    assert_eq!(create_array(&g, 0, FieldType::Null, g.height()), ColumnArray::Null(8));
}

#[test]
fn column_outside_grid_is_all_null() {
    let g = grid(vec![vec![text("a")], vec![Cell::Int(1)], vec![Cell::Int(2)]]);
    assert_eq!(create_array(&g, 3, FieldType::Integer, g.height()), ColumnArray::Integer(vec![None, None]));
}

#[test]
fn height_and_width_are_stable_across_reads() {
    let mut sheet = sheet_of(
        vec![vec![text("a"), text("b")], vec![Cell::Int(1), Cell::Int(2)], vec![Cell::Int(3), Cell::Int(4)]],
        &["a", "b"],
    );
    assert_eq!(sheet.height(), 2);
    assert_eq!(sheet.height(), 2);
    assert_eq!(sheet.width(), 2);
    assert_eq!(sheet.width(), 2);
    assert_eq!(sheet.name(), "Sheet1");
    assert_eq!(sheet.data().height(), 3);
}

#[test]
fn width_counts_schema_fields() {
    let g = grid(vec![vec![text("a"), text("b"), text("c")]]);
    let schema = fastexcel::schema::Schema { fields: vec![field("a", FieldType::Null)] };
    let mut sheet = ExcelSheet::new("S".to_string(), schema, g);
    assert_eq!(sheet.width(), 1);
}

#[test]
fn batch_rejects_count_mismatch() {
    let sheet = "S".to_string();
    let r = Batch::try_new(&sheet, strings(&["a", "b"]), vec![ColumnArray::Null(1)], 1);
    assert_eq!(r, Err(SheetError::ColumnCount { sheet: "S".to_string(), names: 2, columns: 1 }));
}

#[test]
fn batch_rejects_length_mismatch() {
    let sheet = "S".to_string();
    let columns = vec![ColumnArray::Null(2), ColumnArray::Integer(vec![Some(1)]), ColumnArray::Null(3)];
    let r = Batch::try_new(&sheet, strings(&["a", "b", "c"]), columns, 2);
    assert_eq!(
        r,
        Err(SheetError::ColumnLength { sheet: "S".to_string(), column: "b".to_string(), expected: 2, found: 1 })
    );
}

#[test]
fn batch_accepts_equal_lengths() {
    let sheet = "S".to_string();
    let columns = vec![ColumnArray::Null(2), ColumnArray::Boolean(vec![Some(true), None])];
    let b = Batch::try_new(&sheet, strings(&["a", "b"]), columns, 2).unwrap();
    assert_eq!(b.num_rows(), 2);
    assert_eq!(b.names, strings(&["a", "b"]));
}

#[test]
fn empty_batch_keeps_row_count() {
    let sheet = "S".to_string();
    let b = Batch::try_new(&sheet, vec![], vec![], 4).unwrap();
    assert_eq!(b.num_rows(), 4);
    assert_eq!(b.num_columns(), 0);
}

#[test]
fn ragged_rows_are_not_a_grid() {
    assert!(Grid::new(2, vec![vec![Cell::Empty, Cell::Empty], vec![Cell::Empty]]).is_none());
    let g = Grid::new(2, vec![vec![Cell::Empty, Cell::Int(9)]]).unwrap();
    assert_eq!(g.get(0, 1), Some(&Cell::Int(9)));
    assert_eq!(g.get(0, 2), None);
    assert_eq!(g.get(1, 0), None);
}
