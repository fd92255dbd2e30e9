use vstd::prelude::*;

use crate::batch::{all_of_length, Batch};
use crate::column::{create_array, materialized, ColumnArray};
use crate::error::SheetError;
use crate::grid::Grid;
use crate::schema::Schema;

verus! {

/// A named sheet: its schema, its grid, and its height and width, each
/// computed on first read and kept.
pub struct ExcelSheet {
    name: String,
    schema: Schema,
    data: Grid,
    height: Option<usize>,
    width: Option<usize>,
}

impl ExcelSheet {
    pub closed spec fn spec_name(&self) -> String {
        self.name
    }

    pub closed spec fn spec_schema(&self) -> Schema {
        self.schema
    }

    pub closed spec fn spec_data(&self) -> Grid {
        self.data
    }

    pub closed spec fn cached_height(&self) -> Option<usize> {
        self.height
    }

    pub closed spec fn cached_width(&self) -> Option<usize> {
        self.width
    }

    /// A kept height or width is the one computed from the grid or schema.
    pub closed spec fn wf(&self) -> bool {
        &&& (self.height matches Some(h) ==> h == self.data@.data_rows())
        &&& (self.width matches Some(w) ==> w == self.schema.fields@.len())
    }

    /// Number of data rows: the header row is not counted.
    pub open spec fn spec_height(&self) -> nat {
        self.spec_data()@.data_rows()
    }

    pub open spec fn spec_width(&self) -> nat {
        self.spec_schema().fields@.len()
    }

    /// `after` is `before` once `height()` has returned `r`.
    pub open spec fn height_read(before: ExcelSheet, after: ExcelSheet, r: usize) -> bool {
        &&& r == before.spec_height()
        &&& after.spec_name() == before.spec_name()
        &&& after.spec_schema() == before.spec_schema()
        &&& after.spec_data() == before.spec_data()
        &&& after.cached_width() == before.cached_width()
        &&& after.cached_height() == Some(r)
        &&& after.wf()
    }

    /// `after` is `before` once `width()` has returned `r`.
    pub open spec fn width_read(before: ExcelSheet, after: ExcelSheet, r: usize) -> bool {
        &&& r == before.spec_width()
        &&& after.spec_name() == before.spec_name()
        &&& after.spec_schema() == before.spec_schema()
        &&& after.spec_data() == before.spec_data()
        &&& after.cached_height() == before.cached_height()
        &&& after.cached_width() == Some(r)
        &&& after.wf()
    }

    pub fn new(name: String, schema: Schema, data: Grid) -> (r: ExcelSheet)
        ensures
            r.spec_name() == name,
            r.spec_schema() == schema,
            r.spec_data() == data,
            r.cached_height() is None,
            r.cached_width() is None,
            r.wf(),
    {
        ExcelSheet { name, schema, data, height: None, width: None }
    }

    pub fn name(&self) -> (r: &String)
        ensures
            *r == self.spec_name(),
    {
        &self.name
    }

    pub fn schema(&self) -> (r: &Schema)
        ensures
            *r == self.spec_schema(),
    {
        &self.schema
    }

    pub fn data(&self) -> (r: &Grid)
        ensures
            *r == self.spec_data(),
    {
        &self.data
    }

    /// Number of fields in the schema, computed once.
    pub fn width(&mut self) -> (r: usize)
        requires
            old(self).wf(),
        ensures
            ExcelSheet::width_read(*old(self), *final(self), r),
    {
        match self.width {
            Some(width) => width,
            None => {
                let width = self.schema.fields.len();
                self.width = Some(width);
                width
            },
        }
    }

    /// Number of data rows (the grid's rows but the header row; 0 for an
    /// empty grid), computed once.
    pub fn height(&mut self) -> (r: usize)
        requires
            old(self).wf(),
        ensures
            ExcelSheet::height_read(*old(self), *final(self), r),
    {
        match self.height {
            Some(height) => height,
            None => {
                let data_height = self.data.height();
                let height: usize = if data_height > 0 { data_height - 1 } else { 0 };
                self.height = Some(height);
                height
            },
        }
    }

    /// `b` is this sheet's batch: one column per schema field, in order, under
    /// the field's name, materialized from the grid.
    pub open spec fn is_batch_of(&self, b: Batch) -> bool {
        let fields = self.spec_schema().fields@;
        &&& b.wf()
        &&& b.num_rows == self.spec_height()
        &&& b.names@.len() == fields.len()
        &&& forall|i: int| 0 <= i < fields.len() ==> (#[trigger] b.names@[i]) == fields[i].name
        &&& forall|i: int|
            0 <= i < fields.len() ==> materialized(
                #[trigger] b.columns@[i],
                self.spec_data()@,
                i,
                fields[i].data_type,
                self.spec_data()@.height(),
            )
    }

    /// The sheet's data as a batch: each schema field materialized from its
    /// grid column over every data row.
    pub fn to_arrow(&self) -> (r: Result<Batch, SheetError>)
        ensures
            r matches Ok(b) && self.is_batch_of(b),
            r matches Ok(b) && all_of_length(b.columns@, self.spec_height()),
    {
        let height = self.data.height();
        let num_rows: usize = if height > 0 { height - 1 } else { 0 };
        let fields = &self.schema.fields;
        let mut names: Vec<String> = Vec::new();
        let mut columns: Vec<ColumnArray> = Vec::new();
        let mut col_idx: usize = 0;
        while col_idx < fields.len()
            invariant
                col_idx <= fields@.len(),
                *fields == self.spec_schema().fields,
                height == self.spec_data()@.height(),
                num_rows == self.spec_height(),
                names@.len() == col_idx,
                columns@.len() == col_idx,
                forall|i: int| 0 <= i < col_idx ==> (#[trigger] names@[i]) == fields@[i].name,
                forall|i: int|
                    0 <= i < col_idx ==> materialized(
                        #[trigger] columns@[i],
                        self.spec_data()@,
                        i,
                        fields@[i].data_type,
                        height as nat,
                    ),
            decreases fields@.len() - col_idx,
        {
            let field = &fields[col_idx];
            names.push(field.name.clone());
            columns.push(create_array(&self.data, col_idx, field.data_type, height));
            col_idx = col_idx + 1;
        }
        assert(all_of_length(columns@, num_rows as nat)) by {
            assert forall|i: int| 0 <= i < columns@.len() implies (#[trigger] columns@[i]).spec_len()
                == num_rows by {
                assert(materialized(columns@[i], self.spec_data()@, i, fields@[i].data_type, height as nat));
            }
        }
        Batch::try_new(&self.name, names, columns, num_rows)
    }
}

/// Reading the height twice gives the same value, and the second read leaves
/// the sheet exactly as the first one left it.
pub proof fn lemma_height_memoized(s0: ExcelSheet, s1: ExcelSheet, s2: ExcelSheet, r1: usize, r2: usize)
    requires
        s0.wf(),
        ExcelSheet::height_read(s0, s1, r1),
        ExcelSheet::height_read(s1, s2, r2),
    ensures
        r1 == r2,
        s2 == s1,
{
}

/// Reading the width twice gives the same value, and the second read leaves
/// the sheet exactly as the first one left it.
pub proof fn lemma_width_memoized(s0: ExcelSheet, s1: ExcelSheet, s2: ExcelSheet, r1: usize, r2: usize)
    requires
        s0.wf(),
        ExcelSheet::width_read(s0, s1, r1),
        ExcelSheet::width_read(s1, s2, r2),
    ensures
        r1 == r2,
        s2 == s1,
{
}

} // verus!
