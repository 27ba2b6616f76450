use crate::result_set::ResultSet;
use crate::row::{
    from_row_error, row_cell_values, row_cells, row_column_names, row_columns, row_of,
};
use crate::value::{raw_of, raw_value, RawValue};
use indexmap::IndexMap;
use mysql_async::Value as MySqlValue;
use mysql_async::{FromRowError, Row};
use vstd::prelude::*;
use vstd::string::StrSliceExecFns;

verus! {

/// A map that keeps its entries in the order in which their keys were first
/// inserted, as `indexmap` holds it.
#[verifier::external_type_specification]
#[verifier::external_body]
#[verifier::reject_recursive_types(K)]
#[verifier::reject_recursive_types(V)]
#[verifier::reject_recursive_types(S)]
pub struct ExIndexMap<K, V, S>(IndexMap<K, V, S>);

/// The entries of a map of strings, in their order. No key stands twice.
pub uninterp spec fn string_entries(map: IndexMap<String, String>) -> Seq<(Seq<char>, Seq<char>)>;

/// The SQL text of a value, as `Value::as_sql` writes it.
pub uninterp spec fn sql_text(value: MySqlValue, no_backslash_escape: bool) -> Seq<char>;

/// Where the key stands in the entries: the place of the first entry with
/// that key, or the number of entries where there is none.
pub open spec fn position_of<V>(entries: Seq<(Seq<char>, V)>, key: Seq<char>) -> int
    decreases entries.len(),
{
    if entries.len() == 0 {
        0
    } else if entries[0].0 == key {
        0
    } else {
        1 + position_of(entries.drop_first(), key)
    }
}

/// The entries after a key and a value were inserted: the value takes the
/// place of the one that the key had, or the pair comes last.
pub open spec fn inserted<V>(entries: Seq<(Seq<char>, V)>, key: Seq<char>, value: V) -> Seq<
    (Seq<char>, V),
> {
    let at = position_of(entries, key);
    if at < entries.len() {
        entries.update(at, (key, value))
    } else {
        entries.push((key, value))
    }
}

/// The entries after the first `upto` pairs of a name and a value were
/// inserted, one after the other.
pub open spec fn collected<V>(names: Seq<Seq<char>>, values: Seq<V>, upto: int) -> Seq<
    (Seq<char>, V),
>
    decreases upto,
{
    if upto <= 0 {
        Seq::empty()
    } else {
        inserted(collected(names, values, upto - 1), names[upto - 1], values[upto - 1])
    }
}

/// The lesser of two lengths.
pub open spec fn shorter(a: nat, b: nat) -> int {
    if a <= b {
        a as int
    } else {
        b as int
    }
}

/// A text without the quotes around it, where it stands between two.
pub open spec fn unquoted(text: Seq<char>) -> Seq<char> {
    if text.len() >= 2 && text.first() == '\'' && text.last() == '\'' {
        text.subrange(1, text.len() - 1)
    } else {
        text
    }
}

/// Whether `Value::as_sql` can write the value: the hours of a time, days
/// counted in, must fit 32 bits.
pub open spec fn sql_safe(raw: RawValue) -> bool {
    raw matches RawValue::Time(_, days, hours, _, _, _) ==> days * 24 + hours <= u32::MAX
}

/// Calls `IndexMap::new`.
#[verifier::external_body]
fn string_map_new() -> (map: IndexMap<String, String>)
    ensures
        string_entries(map) == Seq::<(Seq<char>, Seq<char>)>::empty(),
{
    IndexMap::new()
}

/// Calls `IndexMap::insert`, which puts the value in the place of the one
/// that the key had and returns that one, or puts the pair last and returns
/// `None`.
#[verifier::external_body]
fn string_map_insert(map: &mut IndexMap<String, String>, key: String, value: String) -> (replaced:
    Option<String>)
    ensures
        string_entries(*final(map)) == inserted(string_entries(*old(map)), key@, value@),
        match replaced {
            Some(before) => position_of(string_entries(*old(map)), key@) < string_entries(
                *old(map),
            ).len() && before@ == string_entries(*old(map))[position_of(
                string_entries(*old(map)),
                key@,
            )].1,
            None => position_of(string_entries(*old(map)), key@) == string_entries(
                *old(map),
            ).len(),
        },
{
    map.insert(key, value)
}

/// Calls `IndexMap::clone`, which copies the entries in their order.
#[verifier::external_body]
fn string_map_clone(map: &IndexMap<String, String>) -> (copy: IndexMap<String, String>)
    ensures
        string_entries(copy) == string_entries(*map),
{
    map.clone()
}

/// Calls `Value::as_sql`, which writes the value as SQL text. The hours of a
/// time are counted with its days in 32 bits: a value beyond that is left
/// out.
#[verifier::external_body]
fn value_as_sql(value: &MySqlValue, no_backslash_escape: bool) -> (text: String)
    requires
        sql_safe(raw_of(*value)),
    ensures
        text@ == sql_text(*value, no_backslash_escape),
{
    value.as_sql(no_backslash_escape)
}

/// Returns the text without the quotes around it, where it stands between
/// two.
pub fn strip_quotes(text: String) -> (bare: String)
    ensures
        bare@ == unquoted(text@),
{
    let len = text.as_str().unicode_len();
    if len >= 2 && text.as_str().get_char(0) == '\'' && text.as_str().get_char(len - 1) == '\'' {
        text.as_str().substring_char(1, len - 1).to_owned()
    } else {
        text
    }
}

/// The texts without the quotes around them.
pub open spec fn all_unquoted(texts: Seq<Seq<char>>) -> Seq<Seq<char>> {
    Seq::new(texts.len(), |i: int| unquoted(texts[i]))
}

/// The SQL texts of the values of a row.
pub open spec fn sql_texts(cells: Seq<Option<MySqlValue>>) -> Seq<Seq<char>> {
    Seq::new(cells.len(), |i: int| sql_text(cells[i]->0, StringValues::NO_ESCAPE_BACKSLASH))
}

/// Whether every value of the row is there and can be written as SQL text.
pub open spec fn row_is_writable(row: Row) -> bool {
    forall|i: int|
        0 <= i < row_cells(row).len() ==> ((#[trigger] row_cells(row)[i]) matches Some(value)
            && sql_safe(raw_of(value)))
}

/// Represents a query result row, with all values stringified.
#[derive(Debug, PartialEq, Eq)]
pub struct StringValues(pub IndexMap<String, String>);

impl StringValues {
    /// Whether to use backslashes to escape values.
    ///
    /// This is written in the negative form to match the parameter of
    /// `Value::as_sql`.
    pub const NO_ESCAPE_BACKSLASH: bool = true;

    /// Returns the row of the given column names and SQL texts: each column
    /// with its text, without the quotes around it, in the order of the
    /// columns. Of two columns of one name the first keeps its place and the
    /// second gives the value. What either list has more than the other is
    /// left out.
    pub fn from_columns(names: Vec<String>, sql_values: Vec<String>) -> (values: StringValues)
        ensures
            string_entries(values.0) == collected(
                Seq::new(names@.len(), |i: int| names@[i]@),
                all_unquoted(Seq::new(sql_values@.len(), |i: int| sql_values@[i]@)),
                shorter(names@.len(), sql_values@.len()),
            ),
    {
        let ghost keys = Seq::new(names@.len(), |i: int| names@[i]@);
        let ghost texts = all_unquoted(Seq::new(sql_values@.len(), |i: int| sql_values@[i]@));
        let mut map = string_map_new();
        let mut i: usize = 0;
        while i < names.len() && i < sql_values.len()
            invariant
                i <= names@.len(),
                i <= sql_values@.len(),
                keys == Seq::new(names@.len(), |i: int| names@[i]@),
                texts == all_unquoted(Seq::new(sql_values@.len(), |i: int| sql_values@[i]@)),
                string_entries(map) == collected(keys, texts, i as int),
            decreases names@.len() - i,
        {
            let key = names[i].clone();
            let value = strip_quotes(sql_values[i].clone());
            string_map_insert(&mut map, key, value);
            i += 1;
        }
        StringValues(map)
    }

    /// Returns the row with all values stringified: each column with the SQL
    /// text of its value, without the quotes around it.
    ///
    /// Fails where a value was taken out of the row, or cannot be written as
    /// SQL text.
    pub fn from_row_opt(row: Row) -> (values: Result<StringValues, FromRowError>)
        ensures
            values is Ok <==> row_is_writable(row),
            values matches Err(error) ==> row_of(error) == row,
            values matches Ok(values) ==> string_entries(values.0) == collected(
                row_columns(row),
                all_unquoted(sql_texts(row_cells(row))),
                shorter(row_columns(row).len(), row_cells(row).len()),
            ),
    {
        let names = row_column_names(&row);
        let cells = row_cell_values(&row);
        let mut sql_values: Vec<String> = Vec::new();
        let mut i: usize = 0;
        while i < cells.len()
            invariant
                i <= cells@.len(),
                cells@ == row_cells(row),
                sql_values@.len() == i,
                forall|j: int|
                    0 <= j < i ==> ((#[trigger] cells@[j]) matches Some(value) && sql_safe(
                        raw_of(value),
                    ) && sql_values@[j]@ == sql_text(value, StringValues::NO_ESCAPE_BACKSLASH)),
            decreases cells@.len() - i,
        {
            match &cells[i] {
                Some(value) => {
                    if !is_sql_safe(&raw_value(value)) {
                        return Err(from_row_error(row));
                    }
                    sql_values.push(value_as_sql(value, StringValues::NO_ESCAPE_BACKSLASH));
                },
                None => {
                    return Err(from_row_error(row));
                },
            }
            i += 1;
        }
        assert(Seq::new(sql_values@.len(), |i: int| sql_values@[i]@) =~= sql_texts(row_cells(row)));
        assert(Seq::new(names@.len(), |i: int| names@[i]@) =~= row_columns(row));
        Ok(StringValues::from_columns(names, sql_values))
    }
}

/// Returns whether `Value::as_sql` can write the value.
pub fn is_sql_safe(raw: &RawValue) -> (safe: bool)
    ensures
        safe == sql_safe(*raw),
{
    match raw {
        RawValue::Time(_, days, hours, _, _, _) => {
            let hours: u64 = *days as u64 * 24 + *hours as u64;
            hours <= 0xffff_ffff
        },
        _ => true,
    }
}

/// [`ResultSet`] that represents values as [`String`]s.
///
/// This is used for arbitrary queries received as input, so we convert all
/// values to [`String`]s.
pub type ResultSetStrings = ResultSet<StringValues>;

impl Clone for StringValues {
    fn clone(&self) -> (copy: Self)
        ensures
            string_entries(copy.0) == string_entries(self.0),
    {
        StringValues(string_map_clone(&self.0))
    }
}

impl Default for StringValues {
    fn default() -> (values: StringValues)
        ensures
            string_entries(values.0) == Seq::<(Seq<char>, Seq<char>)>::empty(),
    {
        StringValues(string_map_new())
    }
}

} // verus!
