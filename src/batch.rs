use vstd::prelude::*;

use crate::column::ColumnArray;
use crate::error::SheetError;

verus! {

/// Named columns of equal length, in field order.
#[derive(Debug, PartialEq)]
pub struct Batch {
    pub names: Vec<String>,
    pub columns: Vec<ColumnArray>,
    pub num_rows: usize,
}

/// Every column holds `num_rows` elements.
pub open spec fn all_of_length(columns: Seq<ColumnArray>, num_rows: nat) -> bool {
    forall|i: int| 0 <= i < columns.len() ==> (#[trigger] columns[i]).spec_len() == num_rows
}

impl Batch {
    /// One name per column, and every column `num_rows` long.
    pub open spec fn wf(&self) -> bool {
        &&& self.names@.len() == self.columns@.len()
        &&& all_of_length(self.columns@, self.num_rows as nat)
    }

    /// Zips names with columns into a batch of `num_rows` rows. Fails, naming
    /// `sheet`, where the counts of names and columns differ, or at the first
    /// column whose length is not `num_rows`.
    pub fn try_new(sheet: &String, names: Vec<String>, columns: Vec<ColumnArray>, num_rows: usize) -> (r: Result<
        Batch,
        SheetError,
    >)
        ensures
            r is Ok <==> names@.len() == columns@.len() && all_of_length(columns@, num_rows as nat),
            r matches Ok(b) ==> b.names@ == names@ && b.columns@ == columns@ && b.num_rows == num_rows,
            r matches Ok(b) ==> b.wf(),
            names@.len() != columns@.len() ==> r == Err::<Batch, SheetError>(
                SheetError::ColumnCount { sheet: *sheet, names: names@.len() as usize, columns: columns@.len() as usize },
            ),
            r matches Err(e) ==> names@.len() == columns@.len() ==> exists|i: int|
                0 <= i < columns@.len()
                && all_of_length(columns@.take(i), num_rows as nat)
                && columns@[i].spec_len() != num_rows
                && e == (SheetError::ColumnLength {
                    sheet: *sheet,
                    column: names@[i],
                    expected: num_rows,
                    found: columns@[i].spec_len() as usize,
                }),
    {
        if names.len() != columns.len() {
            return Err(SheetError::ColumnCount { sheet: sheet.clone(), names: names.len(), columns: columns.len() });
        }
        let mut i: usize = 0;
        while i < columns.len()
            invariant
                i <= columns@.len(),
                names@.len() == columns@.len(),
                all_of_length(columns@.take(i as int), num_rows as nat),
            decreases columns@.len() - i,
        {
            let found = columns[i].len();
            if found != num_rows {
                proof {
                    assert(!all_of_length(columns@, num_rows as nat)) by {
                        assert(columns@[i as int].spec_len() != num_rows);
                    }
                }
                return Err(
                    SheetError::ColumnLength { sheet: sheet.clone(), column: names[i].clone(), expected: num_rows, found },
                );
            }
            proof {
                assert forall|k: int| 0 <= k < i + 1 implies (#[trigger] columns@.take(i + 1)[k]).spec_len()
                    == num_rows by {
                    if k < i {
                        assert(columns@.take(i + 1)[k] == columns@.take(i as int)[k]);
                    }
                }
            }
            i = i + 1;
        }
        assert(columns@.take(i as int) =~= columns@);
        Ok(Batch { names, columns, num_rows })
    }

    pub fn num_rows(&self) -> (r: usize)
        ensures
            r == self.num_rows,
    {
        self.num_rows
    }

    pub fn num_columns(&self) -> (r: usize)
        ensures
            r == self.columns@.len(),
    {
        self.columns.len()
    }
}

} // verus!
