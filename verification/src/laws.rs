//! What holds of every artifact.

use crate::accessor::{accessor_of, arm_of, as_str_of, rendered, try_from_of};
use crate::artifact::{ArtifactSpec, EnumItemSpec, RenderedSpec};
use crate::constructor::{constructor_of, projection};
use crate::directive::{replacement_of, DirectiveSpec, ReplacementSpec};
use crate::error::GenerationErrorSpec;
use crate::generate::{artifact_of, generated};
use crate::group::{
    grouped, lemma_grouped_lookup, lemma_members_absent, lemma_members_filter, members,
};
use crate::identifier::{key_of, variant_of};
use crate::schema::{key_columns, ColumnSpec, RowSpec, TableSpec, ValueSpec};
use crate::search::{lemma_looked_up_push, lemma_position_of, looked_up, position_of};
use vstd::prelude::*;

verus! {

/// Whether the rows have pairwise different variants.
pub open spec fn distinct_variants(columns: Seq<ColumnSpec>, rows: Seq<RowSpec>) -> bool {
    forall|i: int, j: int|
        0 <= i < j < rows.len() ==> variant_of(columns, #[trigger] rows[i]) != variant_of(
            columns,
            #[trigger] rows[j],
        )
}

/// The rows have pairwise different variants where the enumeration of the
/// artifact has no variant twice.
pub proof fn lemma_distinct_variants(
    item: EnumItemSpec,
    table: TableSpec,
    directives: Seq<DirectiveSpec>,
)
    requires
        artifact_of(item, table, directives).item.variants.no_duplicates(),
    ensures
        distinct_variants(table.columns, table.rows),
{
    let variants = artifact_of(item, table, directives).item.variants;
    let declared = item.variants.len() as int;
    assert forall|i: int, j: int| 0 <= i < j < table.rows.len() implies variant_of(
        table.columns,
        #[trigger] table.rows[i],
    ) != variant_of(table.columns, #[trigger] table.rows[j]) by {
        assert(variants[declared + i] == variant_of(table.columns, table.rows[i]));
        assert(variants[declared + j] == variant_of(table.columns, table.rows[j]));
    }
}

/// Round trip: with a primary key of a single column, the string that the
/// accessor for the key's string yields for the variant of a row is one that
/// the conversion from strings turns back into that variant.
pub proof fn lemma_as_str_round_trip(
    enumeration: Seq<char>,
    columns: Seq<ColumnSpec>,
    rows: Seq<RowSpec>,
    r: int,
)
    requires
        key_columns(columns).len() == 1,
        0 <= r < rows.len(),
    ensures
        as_str_of(columns, rows).value_of(variant_of(columns, rows[r])) matches Some(
            RenderedSpec::Literal(ValueSpec::Text(s)),
        ) && try_from_of(enumeration, columns, rows).converted(s) == Ok::<Seq<char>, Seq<char>>(
            variant_of(columns, rows[r]),
        ),
{
    let variant = variant_of(columns, rows[r]);
    let forward = as_str_of(columns, rows).arms;
    let backward = try_from_of(enumeration, columns, rows).arms;
    lemma_position_of(forward, variant);
    assert(forward[r].0 == variant);
    let i = position_of(forward, variant).unwrap();
    let s = key_of(columns, rows[i])[0];
    assert(forward[i].1 == RenderedSpec::Literal(ValueSpec::Text(s)));
    lemma_position_of(backward, s);
    assert(backward[i].0 == s);
    let j = position_of(backward, s).unwrap();
    assert(key_of(columns, rows[j]) =~= key_of(columns, rows[i]));
}

/// What a row adds to the accessor of column `c` as the value of its variant.
pub open spec fn arm_value(
    columns: Seq<ColumnSpec>,
    row: RowSpec,
    c: int,
    replacement: Option<ReplacementSpec>,
) -> Option<RenderedSpec> {
    match row[c] {
        Some(v) => Some(rendered(v, replacement)),
        None => None,
    }
}

/// What the accessor of column `c` yields, among the first `n` rows, for the
/// name `x`: nothing where no row has that variant, and what the row of that
/// variant holds where the variants differ from each other.
proof fn lemma_accessor_lookup(
    columns: Seq<ColumnSpec>,
    rows: Seq<RowSpec>,
    c: int,
    replacement: Option<ReplacementSpec>,
    n: int,
    x: Seq<char>,
)
    requires
        0 <= n <= rows.len(),
        distinct_variants(columns, rows),
    ensures
        (forall|i: int| 0 <= i < n ==> variant_of(columns, #[trigger] rows[i]) != x) ==> looked_up(
            rows.take(n).filter_map(|row: RowSpec| arm_of(columns, row, c, replacement)),
            x,
        ) is None,
        forall|r: int|
            0 <= r < n && variant_of(columns, #[trigger] rows[r]) == x ==> looked_up(
                rows.take(n).filter_map(|row: RowSpec| arm_of(columns, row, c, replacement)),
                x,
            ) == arm_value(columns, rows[r], c, replacement),
    decreases n,
{
    let g = |row: RowSpec| arm_of(columns, row, c, replacement);
    if n == 0 {
        assert(rows.take(0).filter_map(g) =~= Seq::empty());
        lemma_position_of(Seq::<(Seq<char>, RenderedSpec)>::empty(), x);
    } else {
        lemma_accessor_lookup(columns, rows, c, replacement, n - 1, x);
        rows.lemma_filter_map_take_succ(g, n - 1);
        let before = rows.take(n - 1).filter_map(g);
        match g(rows[n - 1]) {
            Some(arm) => {
                assert(before + seq![arm] =~= before.push(arm));
                lemma_looked_up_push(before, arm, x);
            },
            None => {
                assert(before + Seq::empty() =~= before);
            },
        }
    }
}

/// The accessor of column `c` yields, among the first `n` rows, a value for
/// the variant of each row that holds one.
proof fn lemma_accessor_finds(
    columns: Seq<ColumnSpec>,
    rows: Seq<RowSpec>,
    c: int,
    replacement: Option<ReplacementSpec>,
    n: int,
    r: int,
)
    requires
        0 <= r < n <= rows.len(),
        rows[r][c] is Some,
    ensures
        looked_up(
            rows.take(n).filter_map(|row: RowSpec| arm_of(columns, row, c, replacement)),
            variant_of(columns, rows[r]),
        ) is Some,
    decreases n,
{
    let g = |row: RowSpec| arm_of(columns, row, c, replacement);
    let before = rows.take(n - 1).filter_map(g);
    rows.lemma_filter_map_take_succ(g, n - 1);
    if r < n - 1 {
        lemma_accessor_finds(columns, rows, c, replacement, n - 1, r);
    }
    match g(rows[n - 1]) {
        Some(arm) => {
            assert(before + seq![arm] =~= before.push(arm));
            lemma_looked_up_push(before, arm, variant_of(columns, rows[r]));
        },
        None => {
            assert(before + Seq::empty() =~= before);
        },
    }
}

/// Total accessors: the accessor of a column is partial exactly where some
/// row holds no value under the column; an accessor that is not partial
/// yields a value for the variant of every row.
pub proof fn lemma_accessor_total(
    columns: Seq<ColumnSpec>,
    rows: Seq<RowSpec>,
    directives: Seq<DirectiveSpec>,
    c: int,
)
    ensures
        accessor_of(columns, rows, directives, c).partial <==> exists|i: int|
            0 <= i < rows.len() && (#[trigger] rows[i])[c] is None,
        !accessor_of(columns, rows, directives, c).partial ==> forall|r: int|
            0 <= r < rows.len() ==> accessor_of(columns, rows, directives, c).value_of(
                variant_of(columns, #[trigger] rows[r]),
            ) is Some,
{
    let replacement = replacement_of(directives, columns[c].name);
    assert(rows.take(rows.len() as int) == rows);
    if !accessor_of(columns, rows, directives, c).partial {
        assert forall|r: int| 0 <= r < rows.len() implies accessor_of(
            columns,
            rows,
            directives,
            c,
        ).value_of(variant_of(columns, #[trigger] rows[r])) is Some by {
            lemma_accessor_finds(columns, rows, c, replacement, rows.len() as int, r);
        }
    }
}

/// Partial accessors: where the rows have pairwise different variants, the
/// accessor of a column yields for the variant of each row what the row holds
/// under the column, as stated under the column's replacement, and nothing
/// exactly where the row holds nothing.
pub proof fn lemma_accessor_yields(
    columns: Seq<ColumnSpec>,
    rows: Seq<RowSpec>,
    directives: Seq<DirectiveSpec>,
    c: int,
    r: int,
)
    requires
        0 <= r < rows.len(),
        distinct_variants(columns, rows),
    ensures
        accessor_of(columns, rows, directives, c).value_of(variant_of(columns, rows[r]))
            == arm_value(columns, rows[r], c, replacement_of(directives, columns[c].name)),
        accessor_of(columns, rows, directives, c).value_of(variant_of(columns, rows[r])) is None
            <==> rows[r][c] is None,
{
    let replacement = replacement_of(directives, columns[c].name);
    lemma_accessor_lookup(
        columns,
        rows,
        c,
        replacement,
        rows.len() as int,
        variant_of(columns, rows[r]),
    );
    assert(rows.take(rows.len() as int) == rows);
}

/// Lookup by some columns of the key: the constructor over the positions
/// `positions` yields for a tuple the variants of the rows that hold the
/// tuple at those positions, as many as there are such rows and in the order
/// of the rows.
pub proof fn lemma_lookup_lists_matching_rows(
    columns: Seq<ColumnSpec>,
    rows: Seq<RowSpec>,
    directives: Seq<DirectiveSpec>,
    positions: Seq<usize>,
    key: Seq<RenderedSpec>,
)
    ensures
        constructor_of(columns, rows, directives, positions).lookup(key) == rows.filter(
            |row: RowSpec| projection(columns, directives, row, positions) == key,
        ).map_values(|row: RowSpec| variant_of(columns, row)),
        constructor_of(columns, rows, directives, positions).lookup(key).len() == rows.filter(
            |row: RowSpec| projection(columns, directives, row, positions) == key,
        ).len(),
{
    let key_of_row = |row: RowSpec| projection(columns, directives, row, positions);
    let name_of_row = |row: RowSpec| variant_of(columns, row);
    let keys = rows.map_values(key_of_row);
    let names = rows.map_values(name_of_row);
    let holds = |row: RowSpec| projection(columns, directives, row, positions) == key;
    let found = constructor_of(columns, rows, directives, positions).lookup(key);
    assert(constructor_of(columns, rows, directives, positions).buckets == grouped(keys, names));
    lemma_grouped_lookup(keys, names, key);
    lemma_members_filter(rows, key_of_row, name_of_row, key, holds);
    if !keys.contains(key) {
        lemma_members_absent(keys, names, key);
    }
    assert(found == members(keys, names, key));
    assert(found == rows.filter(holds).map_values(name_of_row));
}

/// Lookup by the whole key: the constructor yields a single variant for a
/// tuple if and only if exactly one row holds the tuple, and then the variant
/// of that row.
pub proof fn lemma_lookup_unique_finds_single_row(
    columns: Seq<ColumnSpec>,
    rows: Seq<RowSpec>,
    directives: Seq<DirectiveSpec>,
    positions: Seq<usize>,
    key: Seq<RenderedSpec>,
)
    ensures
        constructor_of(columns, rows, directives, positions).lookup_unique(key) is Some
            <==> rows.filter(
            |row: RowSpec| projection(columns, directives, row, positions) == key,
        ).len() == 1,
        constructor_of(columns, rows, directives, positions).lookup_unique(key) matches Some(
            variant,
        ) ==> variant == variant_of(
            columns,
            rows.filter(|row: RowSpec| projection(columns, directives, row, positions) == key)[0],
        ),
{
    lemma_lookup_lists_matching_rows(columns, rows, directives, positions, key);
}

/// Idempotence: a run is a function of what it reads, so two runs over the
/// same enumeration, the same table and the same directives yield the same
/// artifact, or the same failure.
pub proof fn lemma_generation_repeats(
    item: EnumItemSpec,
    table: TableSpec,
    directives: Seq<DirectiveSpec>,
    first: Result<ArtifactSpec, GenerationErrorSpec>,
    second: Result<ArtifactSpec, GenerationErrorSpec>,
)
    requires
        first == generated(item, table, directives),
        second == generated(item, table, directives),
    ensures
        first == second,
{
}

} // verus!
