use vstd::prelude::*;

use crate::error::SheetError;

verus! {

/// The container format a workbook was read from.
#[derive(Clone, Copy, Debug, PartialEq, Eq, Structural)]
pub enum ContainerFormat {
    Xls,
    Xlsx,
    Xlsb,
    Ods,
}

impl ContainerFormat {
    /// Named tables exist in XLSX workbooks only.
    pub open spec fn spec_has_tables(self) -> bool {
        self == ContainerFormat::Xlsx
    }
}

/// Fails fast, before any table is looked up, where the workbook's format has
/// no named tables.
pub fn ensure_table_support(format: ContainerFormat) -> (r: Result<(), SheetError>)
    ensures
        r is Ok <==> format.spec_has_tables(),
        r is Err ==> r == Err::<(), SheetError>(SheetError::TablesUnsupported { format }),
{
    match format {
        ContainerFormat::Xlsx => Ok(()),
        _ => Err(SheetError::TablesUnsupported { format }),
    }
}

} // verus!
