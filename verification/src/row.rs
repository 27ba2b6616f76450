use mysql_async::Value as MySqlValue;
use mysql_async::{FromRowError, Row};
use vstd::prelude::*;

verus! {

/// A row of a result set, as the SQL driver holds it.
#[verifier::external_type_specification]
#[verifier::external_body]
pub struct ExRow(Row);

/// The SQL driver's error for a row that cannot be converted. It holds the
/// row.
#[verifier::external_type_specification]
#[verifier::external_body]
pub struct ExFromRowError(FromRowError);

/// The names of the columns of a row, in their order; a name that is not
/// UTF-8 with the replacement character in place of what is not.
pub uninterp spec fn row_columns(row: Row) -> Seq<Seq<char>>;

/// The values of a row, in the order of the columns; `None` for a value that
/// was taken out of the row.
pub uninterp spec fn row_cells(row: Row) -> Seq<Option<MySqlValue>>;

/// Calls `Row::columns_ref` and, on each column, `Column::name_str`.
#[verifier::external_body]
pub(crate) fn row_column_names(row: &Row) -> (names: Vec<String>)
    ensures
        names@.len() == row_columns(*row).len(),
        forall|i: int| 0 <= i < names@.len() ==> (#[trigger] names@[i])@ == row_columns(*row)[i],
{
    row.columns_ref().iter().map(|column| column.name_str().into_owned()).collect()
}

/// Calls `Row::unwrap_raw` on a copy of the row.
#[verifier::external_body]
pub(crate) fn row_cell_values(row: &Row) -> (cells: Vec<Option<MySqlValue>>)
    ensures
        cells@ == row_cells(*row),
{
    row.clone().unwrap_raw()
}

/// The row that the error holds.
pub uninterp spec fn row_of(error: FromRowError) -> Row;

/// Makes a `FromRowError`, the SQL driver's error for a row that cannot be
/// converted, of the row.
#[verifier::external_body]
pub(crate) fn from_row_error(row: Row) -> (error: FromRowError)
    ensures
        row_of(error) == row,
{
    FromRowError(row)
}

} // verus!
