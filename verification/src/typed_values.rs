use crate::batch::turned;
use crate::result_set::ResultSet;
use crate::row::{
    from_row_error, row_cell_values, row_cells, row_column_names, row_columns, row_of,
};
use crate::string_values::{collected, inserted, position_of, shorter};
use crate::value::{raw_of, Value};
use indexmap::IndexMap;
use mysql_async::{FromRowError, Row};
use vstd::prelude::*;

verus! {

/// The entries of a map of typed values, in their order. No key stands
/// twice.
pub uninterp spec fn typed_entries(map: IndexMap<String, Value>) -> Seq<(Seq<char>, Value)>;

/// Calls `IndexMap::new`.
#[verifier::external_body]
fn typed_map_new() -> (map: IndexMap<String, Value>)
    ensures
        typed_entries(map) == Seq::<(Seq<char>, Value)>::empty(),
{
    IndexMap::new()
}

/// Calls `IndexMap::insert`, which puts the value in the place of the one
/// that the key had and returns that one, or puts the pair last and returns
/// `None`.
#[verifier::external_body]
fn typed_map_insert(map: &mut IndexMap<String, Value>, key: String, value: Value) -> (replaced:
    Option<Value>)
    ensures
        typed_entries(*final(map)) == inserted(typed_entries(*old(map)), key@, value),
        replaced == if position_of(typed_entries(*old(map)), key@) < typed_entries(
            *old(map),
        ).len() {
            Some(typed_entries(*old(map))[position_of(typed_entries(*old(map)), key@)].1)
        } else {
            None
        },
{
    map.insert(key, value)
}

/// Whether the two rows hold the same values under the same names, in the
/// same order.
pub open spec fn same_entries(row: Seq<(Seq<char>, Value)>, other: Seq<(Seq<char>, Value)>) -> bool {
    &&& row.len() == other.len()
    &&& forall|i: int|
        0 <= i < row.len() ==> (#[trigger] row[i]).0 == other[i].0 && row[i].1.same(other[i].1)
}

/// Calls `IndexMap::clone`, which copies the entries in their order, each
/// value by its own `clone`.
#[verifier::external_body]
fn typed_map_clone(map: &IndexMap<String, Value>) -> (copy: IndexMap<String, Value>)
    ensures
        same_entries(typed_entries(copy), typed_entries(*map)),
{
    map.clone()
}

/// Whether every value of the row is there and can be typed.
pub open spec fn row_converts(row: Row) -> bool {
    forall|i: int|
        0 <= i < row_cells(row).len() ==> ((#[trigger] row_cells(row)[i]) matches Some(value)
            && raw_of(value).converts())
}

/// Whether `typed` are the values of the row, typed.
pub open spec fn row_types_to(row: Row, typed: Seq<Value>) -> bool {
    &&& typed.len() == row_cells(row).len()
    &&& forall|i: int|
        0 <= i < typed.len() ==> ((#[trigger] row_cells(row)[i]) matches Some(value) && raw_of(
            value,
        ).types_to(typed[i]))
}

/// Represents a query result row, with typed values.
#[derive(Debug, PartialEq)]
pub struct TypedValues(pub IndexMap<String, Value>);

impl TypedValues {
    /// Returns the row of the given column names and values: each column
    /// with its value, in the order of the columns. Of two columns of one
    /// name the first keeps its place and the second gives the value. What
    /// either list has more than the other is left out.
    pub fn from_columns(names: Vec<String>, values: Vec<Value>) -> (row: TypedValues)
        ensures
            typed_entries(row.0) == collected(
                Seq::new(names@.len(), |i: int| names@[i]@),
                values@,
                shorter(names@.len(), values@.len()),
            ),
    {
        let ghost keys = Seq::new(names@.len(), |i: int| names@[i]@);
        let ghost all = values@;
        let mut left = turned(values);
        let mut map = typed_map_new();
        let mut i: usize = 0;
        while i < names.len() && left.len() > 0
            invariant
                i <= names@.len(),
                i + left@.len() == all.len(),
                forall|j: int|
                    0 <= j < left@.len() ==> #[trigger] left@[j] == all[all.len() - 1 - j],
                keys == Seq::new(names@.len(), |i: int| names@[i]@),
                typed_entries(map) == collected(keys, all, i as int),
            decreases names@.len() - i,
        {
            match left.pop() {
                Some(value) => {
                    typed_map_insert(&mut map, names[i].clone(), value);
                },
                None => {},
            }
            i += 1;
        }
        TypedValues(map)
    }

    /// Returns the row with typed values: each column with its value, typed.
    ///
    /// Fails where a value was taken out of the row, or is a date that the
    /// calendar does not have.
    pub fn from_row_opt(row: Row) -> (values: Result<TypedValues, FromRowError>)
        ensures
            values is Ok <==> row_converts(row),
            values matches Err(error) ==> row_of(error) == row,
            values matches Ok(values) ==> exists|typed: Seq<Value>|
                #![trigger row_types_to(row, typed)]
                row_types_to(row, typed) && typed_entries(values.0) == collected(
                    row_columns(row),
                    typed,
                    shorter(row_columns(row).len(), row_cells(row).len()),
                ),
    {
        let names = row_column_names(&row);
        let cells = row_cell_values(&row);
        let mut typed: Vec<Value> = Vec::new();
        let mut i: usize = 0;
        while i < cells.len()
            invariant
                i <= cells@.len(),
                cells@ == row_cells(row),
                typed@.len() == i,
                forall|j: int|
                    0 <= j < i ==> ((#[trigger] cells@[j]) matches Some(value) && raw_of(
                        value,
                    ).converts() && raw_of(value).types_to(typed@[j])),
            decreases cells@.len() - i,
        {
            match &cells[i] {
                Some(value) => match Value::try_from_mysql(value) {
                    Some(value) => typed.push(value),
                    None => {
                        return Err(from_row_error(row));
                    },
                },
                None => {
                    return Err(from_row_error(row));
                },
            }
            i += 1;
        }
        assert(Seq::new(names@.len(), |i: int| names@[i]@) =~= row_columns(row));
        assert(row_types_to(row, typed@));
        Ok(TypedValues::from_columns(names, typed))
    }
}

/// [`ResultSet`] with typed values.
///
/// This is used for arbitrary queries received as input, so the types of the
/// values are under the [`Value`] enum.
pub type ResultSetTyped = ResultSet<TypedValues>;

impl Clone for TypedValues {
    fn clone(&self) -> (copy: Self)
        ensures
            same_entries(typed_entries(copy.0), typed_entries(self.0)),
    {
        TypedValues(typed_map_clone(&self.0))
    }
}

impl Default for TypedValues {
    fn default() -> (values: TypedValues)
        ensures
            typed_entries(values.0) == Seq::<(Seq<char>, Value)>::empty(),
    {
        TypedValues(typed_map_new())
    }
}

} // verus!
