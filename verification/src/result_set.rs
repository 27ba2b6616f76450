use vstd::prelude::*;

verus! {

/// Message, warning count, and result values for a single statement.
///
/// # Type Parameters
///
/// * `T`: Type that represents the values from each row.
#[derive(Clone, Debug, PartialEq, Eq)]
pub struct ResultSet<T> {
    /// Number of rows affected by the query.
    pub affected_rows: u64,
    /// Number of warnings.
    pub warning_count: u16,
    /// Message returned by the server.
    pub info: String,
    /// Values returned by the statement.
    pub values: Vec<T>,
}

} // verus!
