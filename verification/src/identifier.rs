//! Derivation of a variant's name from the values of a row's primary key.

use crate::case::{to_upper_camel_case, upper_camel_case};
use crate::schema::{key_columns, ColumnSpec, Row, RowSpec, Value, ValueSpec};
use crate::search::{first_where, lemma_first_where_absent, lemma_first_where_found};
use crate::text::{join, joined};
use vstd::prelude::*;
use vstd::string::*;

verus! {

/// The identifier that stands for a tuple of key values: the upper camel case
/// forms of the values, joined with an underscore.
pub open spec fn derived(key_values: Seq<Seq<char>>) -> Seq<char> {
    joined(key_values.map_values(|v: Seq<char>| upper_camel_case(v)), "_"@)
}

/// Derives the identifier that stands for a tuple of key values.
///
/// The result depends on the values alone. Whether it is an identifier that
/// the target language accepts, and whether two keys get two identifiers, is
/// up to the values: strings that differ only in case, spacing or punctuation
/// get the same one.
pub fn derive(key_values: &Vec<String>) -> (r: String)
    ensures
        r@ == derived(key_values.deep_view()),
{
    let ghost f = |v: Seq<char>| upper_camel_case(v);
    let mut parts: Vec<String> = Vec::new();
    let mut i: usize = 0;
    while i < key_values.len()
        invariant
            i <= key_values.len(),
            parts.len() == i,
            forall|j: int| 0 <= j < i ==> parts[j]@ == upper_camel_case(key_values[j]@),
        decreases key_values.len() - i,
    {
        parts.push(to_upper_camel_case(key_values[i].as_str()));
        i += 1;
    }
    assert(parts.deep_view() =~= key_values.deep_view().map_values(f));
    join(&parts, "_")
}

/// The string that a cell holds, if it holds one.
pub open spec fn text_of(cell: Option<ValueSpec>) -> Option<Seq<char>> {
    match cell {
        Some(ValueSpec::Text(s)) => Some(s),
        _ => None,
    }
}

/// The string that a cell holds; the empty string where it holds none.
pub open spec fn text_or_empty(cell: Option<ValueSpec>) -> Seq<char> {
    match text_of(cell) {
        Some(s) => s,
        None => Seq::empty(),
    }
}

/// The position, within the primary key, of the first column under which
/// `row` holds no string.
pub open spec fn keyless(columns: Seq<ColumnSpec>, row: RowSpec) -> Option<int> {
    first_where(key_columns(columns), |c: usize| text_of(row[c as int]) is None)
}

/// The strings that `row` holds under the columns of the primary key, in the
/// order of those columns.
pub open spec fn key_of(columns: Seq<ColumnSpec>, row: RowSpec) -> Seq<Seq<char>> {
    key_columns(columns).map_values(|c: usize| text_or_empty(row[c as int]))
}

/// The name of the variant that stands for `row`.
pub open spec fn variant_of(columns: Seq<ColumnSpec>, row: RowSpec) -> Seq<char> {
    derived(key_of(columns, row))
}

/// Reads the primary key of `row`, whose columns are `keys`: its strings, or
/// the position within the key of the first column under which the row holds
/// no string.
pub(crate) fn key_values(
    row: &Row,
    keys: &Vec<usize>,
    Ghost(columns): Ghost<Seq<ColumnSpec>>,
) -> (r: Result<Vec<String>, usize>)
    requires
        keys@ == key_columns(columns),
        forall|j: int| 0 <= j < keys.len() ==> keys[j] < row.len(),
    ensures
        match r {
            Ok(values) => keyless(columns, row.deep_view()) is None && values.deep_view()
                == key_of(columns, row.deep_view()),
            Err(position) => keyless(columns, row.deep_view()) == Some(position as int),
        },
{
    let ghost p = |c: usize| text_of(row.deep_view()[c as int]) is None;
    let ghost f = |c: usize| text_or_empty(row.deep_view()[c as int]);
    let mut values: Vec<String> = Vec::new();
    let mut j: usize = 0;
    while j < keys.len()
        invariant
            j <= keys.len(),
            values.len() == j,
            keys@ == key_columns(columns),
            p == |c: usize| text_of(row.deep_view()[c as int]) is None,
            forall|i: int| 0 <= i < keys.len() ==> keys[i] < row.len(),
            forall|i: int| 0 <= i < j ==> !p(#[trigger] keys[i]),
            forall|i: int|
                0 <= i < j ==> values[i]@ == text_or_empty(row.deep_view()[keys[i] as int]),
        decreases keys.len() - j,
    {
        match &row[keys[j]] {
            Some(Value::Text(s)) => {
                values.push(s.clone());
            },
            _ => {
                proof {
                    lemma_first_where_found(keys@, p, j as int);
                }
                return Err(j);
            },
        }
        j += 1;
    }
    proof {
        lemma_first_where_absent(keys@, p);
        assert(values.deep_view() =~= keys@.map_values(f));
    }
    Ok(values)
}

} // verus!
