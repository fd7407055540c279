//! The generation run: from a table, its rows and the directives to the
//! artifact.

use crate::accessor::{
    accessors, accessors_of, as_str, as_str_of, keys_rows, lacks_type, names_rows, try_from,
    try_from_of,
};
use crate::artifact::{Artifact, ArtifactSpec, EnumItem, EnumItemSpec};
use crate::constructor::{
    constructors, constructors_of, lemma_constructors_cover_selections, subsets_listed,
};
use crate::directive::{get_replacement, Directive, DirectiveSpec, Replacement};
use crate::error::{GenerationError, GenerationErrorSpec};
use crate::identifier::{key_of, key_values, keyless, text_of, variant_of};
use crate::schema::{key_columns, row_fits, ColumnSpec, Kind, RowSpec, Table, TableSpec};
use crate::search::{
    first_where, lemma_first_where, lemma_first_where_absent, lemma_first_where_found,
};
use vstd::arithmetic::power2::pow2;
use vstd::prelude::*;
use vstd::string::*;

verus! {

/// The first row that holds no string under some column of the primary key.
pub open spec fn first_keyless_row(columns: Seq<ColumnSpec>, rows: Seq<RowSpec>) -> Option<int> {
    first_where(rows, |row: RowSpec| keyless(columns, row) is Some)
}

/// The first column whose accessor cannot be typed.
pub open spec fn first_untyped(columns: Seq<ColumnSpec>, directives: Seq<DirectiveSpec>) -> Option<
    int,
> {
    first_where(columns, |column: ColumnSpec| lacks_type(column, directives))
}

/// The failure that the row at `r` causes: it names the first column of the
/// primary key under which the row holds no string.
pub open spec fn unrecognized(columns: Seq<ColumnSpec>, rows: Seq<RowSpec>, r: int)
    -> GenerationErrorSpec {
    let position = keyless(columns, rows[r]).unwrap();
    GenerationErrorSpec::UnrecognizedValue {
        row: r as usize,
        column: columns[key_columns(columns)[position] as int].name,
    }
}

/// The failure of a generation run, if it fails. The rows are read in order,
/// the primary key of each first: a run over no row succeeds; the first row
/// fails the run where it lacks a string of its key; else a column whose
/// accessor cannot be typed fails it; else the first row that lacks a string
/// of its key does.
pub open spec fn failure(
    columns: Seq<ColumnSpec>,
    rows: Seq<RowSpec>,
    directives: Seq<DirectiveSpec>,
) -> Option<GenerationErrorSpec> {
    let keyless_row = first_keyless_row(columns, rows);
    let untyped = first_untyped(columns, directives);
    if rows.len() == 0 {
        None
    } else if keyless_row == Some(0int) {
        Some(unrecognized(columns, rows, 0))
    } else if untyped is Some {
        Some(GenerationErrorSpec::MissingParameterType { column: columns[untyped.unwrap()].name })
    } else if keyless_row is Some {
        Some(unrecognized(columns, rows, keyless_row.unwrap()))
    } else {
        None
    }
}

/// Whether the artifact has the accessor for the string of the key and the
/// conversion from it: the primary key has a single column, and there is a
/// row.
pub open spec fn single_keyed(columns: Seq<ColumnSpec>, rows: Seq<RowSpec>) -> bool {
    key_columns(columns).len() == 1 && rows.len() > 0
}

/// The artifact of a generation run that succeeds: the enumeration with one
/// variant added for each row, in the order of the rows, behind those that it
/// declared; the accessors; the constructors; and, for a single-column key,
/// the accessor for its string and the conversion from it.
pub open spec fn artifact_of(item: EnumItemSpec, table: TableSpec, directives: Seq<DirectiveSpec>)
    -> ArtifactSpec {
    let columns = table.columns;
    let rows = table.rows;
    ArtifactSpec {
        item: EnumItemSpec {
            name: item.name,
            variants: item.variants + rows.map_values(|row: RowSpec| variant_of(columns, row)),
        },
        as_str: if single_keyed(columns, rows) {
            Some(as_str_of(columns, rows))
        } else {
            None
        },
        try_from: if single_keyed(columns, rows) {
            Some(try_from_of(item.name, columns, rows))
        } else {
            None
        },
        accessors: accessors_of(columns, rows, directives),
        constructors: constructors_of(columns, rows, directives),
    }
}

/// What a generation run yields: its failure, or else its artifact.
pub open spec fn generated(item: EnumItemSpec, table: TableSpec, directives: Seq<DirectiveSpec>)
    -> Result<ArtifactSpec, GenerationErrorSpec> {
    match failure(table.columns, table.rows, directives) {
        Some(error) => Err(error),
        None => Ok(artifact_of(item, table, directives)),
    }
}

/// The mathematical model of what a generation run returned.
pub open spec fn outcome(r: Result<Artifact, GenerationError>) -> Result<
    ArtifactSpec,
    GenerationErrorSpec,
> {
    match r {
        Ok(artifact) => Ok(artifact@),
        Err(error) => Err(error@),
    }
}

/// Finds the first column whose accessor cannot be typed.
fn untyped_column(table: &Table, directives: &Vec<Directive>) -> (r: Option<usize>)
    ensures
        match r {
            Some(c) => c < table.columns.len() && first_untyped(
                table@.columns,
                directives.deep_view(),
            ) == Some(c as int),
            None => first_untyped(table@.columns, directives.deep_view()) is None,
        },
{
    let ghost columns = table@.columns;
    let ghost p = |column: ColumnSpec| lacks_type(column, directives.deep_view());
    let mut c: usize = 0;
    while c < table.columns.len()
        invariant
            c <= table.columns.len(),
            columns == table@.columns,
            p == |column: ColumnSpec| lacks_type(column, directives.deep_view()),
            forall|j: int| 0 <= j < c ==> !p(#[trigger] columns[j]),
        decreases table.columns.len() - c,
    {
        let column = &table.columns[c];
        assert(column@ == columns[c as int]);
        let mut untyped = false;
        if !column.primary_key && column.kind == Kind::Text {
            match get_replacement(column, directives) {
                Some(Replacement::Function(_, None)) => {
                    untyped = true;
                },
                _ => {},
            }
        }
        assert(untyped == p(columns[c as int]));
        if untyped {
            proof {
                lemma_first_where_found(columns, p, c as int);
            }
            return Some(c);
        }
        c += 1;
    }
    proof {
        lemma_first_where_absent(columns, p);
    }
    None
}

/// Fills the enumeration `item` from the rows of `table`: adds one variant
/// for each row, named by the row's primary key, and synthesizes the accessors
/// and the lookup constructors that the directives ask for.
///
/// The rows are expected to have pairwise different keys that give pairwise
/// different names; `Artifact::has_distinct_variants` tells whether they did.
pub fn symbols(item: EnumItem, table: &Table, directives: &Vec<Directive>) -> (r: Result<
    Artifact,
    GenerationError,
>)
    requires
        table@.wf(),
    ensures
        outcome(r) == generated(item@, table@, directives.deep_view()),
        r matches Ok(artifact) ==> (key_columns(table@.columns).len() > 1 && table@.rows.len() > 0
            ==> subsets_listed(artifact@.constructors, key_columns(table@.columns).len())
            && artifact@.constructors.len() + 1 == pow2(key_columns(table@.columns).len())),
{
    let ghost columns = table@.columns;
    let ghost rows = table@.rows;
    let ghost ds = directives.deep_view();
    let ghost lacking = |row: RowSpec| keyless(columns, row) is Some;
    let keys = table.key_columns();
    let mut names: Vec<String> = Vec::new();
    let mut keyed: Vec<Vec<String>> = Vec::new();
    let mut r: usize = 0;
    while r < table.rows.len()
        invariant
            r <= table.rows.len(),
            table@.wf(),
            columns == table@.columns,
            rows == table@.rows,
            ds == directives.deep_view(),
            lacking == |row: RowSpec| keyless(columns, row) is Some,
            keys@ == key_columns(columns),
            forall|j: int| 0 <= j < keys.len() ==> keys[j] < table.columns.len(),
            names.len() == r,
            keyed.len() == r,
            r > 0 ==> first_untyped(columns, ds) is None,
            forall|i: int| 0 <= i < r ==> !lacking(#[trigger] rows[i]),
            forall|i: int| 0 <= i < r ==> (#[trigger] names[i])@ == variant_of(columns, rows[i]),
            forall|i: int|
                0 <= i < r ==> (#[trigger] keyed[i]).deep_view() == key_of(columns, rows[i]),
        decreases table.rows.len() - r,
    {
        let row = &table.rows[r];
        assert(row.deep_view() == rows[r as int]);
        assert(row_fits(columns, rows[r as int]));
        match key_values(row, &keys, Ghost(columns)) {
            Err(position) => {
                proof {
                    lemma_first_where(
                        keys@,
                        |c: usize| text_of(rows[r as int][c as int]) is None,
                    );
                    lemma_first_where_found(rows, lacking, r as int);
                }
                let column = &table.columns[keys[position]];
                assert(column@ == columns[keys[position as int] as int]);
                return Err(
                    GenerationError::UnrecognizedValue { row: r, column: column.name.clone() },
                );
            },
            Ok(values) => {
                names.push(crate::identifier::derive(&values));
                keyed.push(values);
            },
        }
        if r == 0 {
            match untyped_column(table, directives) {
                Some(c) => {
                    proof {
                        lemma_first_where(rows, lacking);
                    }
                    let column = &table.columns[c];
                    assert(column@ == columns[c as int]);
                    return Err(
                        GenerationError::MissingParameterType { column: column.name.clone() },
                    );
                },
                None => {},
            }
        }
        r += 1;
    }
    proof {
        lemma_first_where_absent(rows, lacking);
        assert(names_rows(names.deep_view(), columns, rows));
        assert(keys_rows(keyed.deep_view(), columns, rows));
    }
    let EnumItem { name, variants } = item;
    let ghost declared = variants.deep_view();
    let mut variants = variants;
    let mut i: usize = 0;
    while i < names.len()
        invariant
            i <= names.len(),
            names_rows(names.deep_view(), columns, rows),
            variants.len() == declared.len() + i,
            forall|j: int| 0 <= j < declared.len() ==> (#[trigger] variants[j])@ == declared[j],
            forall|j: int| 0 <= j < i ==> (#[trigger] variants[declared.len() + j])@ == names[j]@,
        decreases names.len() - i,
    {
        variants.push(names[i].clone());
        i += 1;
    }
    proof {
        assert(variants.deep_view() =~= declared + rows.map_values(
            |row: RowSpec| variant_of(columns, row),
        )) by {
            assert forall|j: int| 0 <= j < variants.len() implies variants.deep_view()[j] == (
            declared + rows.map_values(|row: RowSpec| variant_of(columns, row)))[j] by {
                if j >= declared.len() {
                    let i = j - declared.len();
                    assert(variants[declared.len() + i]@ == names[i]@);
                }
            }
        }
    }
    let single = keys.len() == 1 && table.rows.len() > 0;
    let literal = if single {
        Some(as_str(&names, &keyed, Ghost(columns), Ghost(rows)))
    } else {
        None
    };
    let conversion = if single {
        Some(try_from(&name, &names, &keyed, Ghost(columns), Ghost(rows)))
    } else {
        None
    };
    let accessors = accessors(table, &names, directives);
    let constructors = constructors(table, &keys, &names, &keyed, directives);
    proof {
        if keys.len() > 1 && rows.len() > 0 {
            lemma_constructors_cover_selections(columns, rows, ds);
        }
    }
    Ok(
        Artifact {
            item: EnumItem { name, variants },
            as_str: literal,
            try_from: conversion,
            accessors,
            constructors,
        },
    )
}

} // verus!
