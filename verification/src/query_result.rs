use crate::result_set::ResultSet;
use vstd::prelude::*;

verus! {

/// Query target name and result sets.
///
/// # Parameters
///
/// * `T`: Type of the values of each row.
#[derive(Clone, Debug, PartialEq)]
pub struct QueryResult<T> {
    /// Name of the query target.
    pub name: String,
    /// Result sets returned by the query, in the order that the server sent
    /// them.
    pub result_sets: Vec<ResultSet<T>>,
}

} // verus!
