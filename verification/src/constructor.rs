//! Synthesis of the lookup constructors: one for each non-empty selection of
//! columns of the primary key.

use crate::accessor::{keys_rows, names_rows};
use crate::artifact::{
    Constructor, ConstructorSpec, Parameter, ParameterSpec, Rendered, RenderedSpec, TypeName,
    TypeNameSpec,
};
use crate::case::{snake_case, to_snake_case, to_upper_camel_case, upper_camel_case};
use crate::directive::{
    get_replacement, replacement_of, Directive, DirectiveSpec, Replacement, ReplacementSpec,
};
use crate::group::{group, grouped};
use crate::identifier::{key_of, variant_of};
use crate::schema::{
    key_columns, ColumnSpec, Kind, RowSpec, Table, Value, ValueSpec, MAX_KEY_COLUMNS,
};
use crate::selection::{
    combinations, index_combinations, is_selection, lemma_combinations_listed, lemma_selections,
    lists_selections, lists_subsets, selections,
};
use crate::text::{join, joined};
use vstd::arithmetic::power2::pow2;
use vstd::prelude::*;
use vstd::string::*;

verus! {

/// How a string of the primary key is stated in a constructor's tuple: as the
/// constant named by its upper camel case form where the column's replacement
/// is a type, and else as a literal.
pub open spec fn part(s: Seq<char>, replacement: Option<ReplacementSpec>) -> RenderedSpec {
    match replacement {
        Some(ReplacementSpec::Type(t)) => RenderedSpec::Constant {
            ty: t,
            variant: upper_camel_case(s),
        },
        _ => RenderedSpec::Literal(ValueSpec::Text(s)),
    }
}

/// The type of the parameter that takes such a string.
pub open spec fn part_type(replacement: Option<ReplacementSpec>) -> TypeNameSpec {
    match replacement {
        Some(ReplacementSpec::Type(t)) => TypeNameSpec::Named(t),
        _ => TypeNameSpec::Primitive(Kind::Text),
    }
}

/// The replacement of the column at position `p` of the primary key.
pub open spec fn key_replacement(columns: Seq<ColumnSpec>, directives: Seq<DirectiveSpec>, p: int)
    -> Option<ReplacementSpec> {
    replacement_of(directives, columns[key_columns(columns)[p] as int].name)
}

/// The snake case name of the column at position `p` of the primary key.
pub open spec fn key_field(columns: Seq<ColumnSpec>, p: int) -> Seq<char> {
    snake_case(columns[key_columns(columns)[p] as int].name)
}

/// How the string that `row` holds at position `p` of the primary key is
/// stated.
pub open spec fn key_part(
    columns: Seq<ColumnSpec>,
    directives: Seq<DirectiveSpec>,
    row: RowSpec,
    p: int,
) -> RenderedSpec {
    part(key_of(columns, row)[p], key_replacement(columns, directives, p))
}

/// The tuple that `row` holds at the positions `positions` of the primary
/// key, as stated.
pub open spec fn projection(
    columns: Seq<ColumnSpec>,
    directives: Seq<DirectiveSpec>,
    row: RowSpec,
    positions: Seq<usize>,
) -> Seq<RenderedSpec> {
    positions.map_values(|p: usize| key_part(columns, directives, row, p as int))
}

/// The parameter for position `p` of the primary key.
pub open spec fn parameter_of(columns: Seq<ColumnSpec>, directives: Seq<DirectiveSpec>, p: int)
    -> ParameterSpec {
    ParameterSpec {
        name: key_field(columns, p),
        ty: part_type(key_replacement(columns, directives, p)),
    }
}

/// The buckets of the constructor over `positions`: the variants of the rows,
/// grouped by the tuples that the rows hold at those positions.
pub open spec fn buckets_of(
    columns: Seq<ColumnSpec>,
    rows: Seq<RowSpec>,
    directives: Seq<DirectiveSpec>,
    positions: Seq<usize>,
) -> Seq<(Seq<RenderedSpec>, Seq<Seq<char>>)> {
    grouped(
        rows.map_values(|row: RowSpec| projection(columns, directives, row, positions)),
        rows.map_values(|row: RowSpec| variant_of(columns, row)),
    )
}

/// The constructor over the positions `positions` of the primary key: named
/// by the snake case names of its columns joined with `_and_`, with one
/// parameter for each column, and full where it takes the whole key.
pub open spec fn constructor_of(
    columns: Seq<ColumnSpec>,
    rows: Seq<RowSpec>,
    directives: Seq<DirectiveSpec>,
    positions: Seq<usize>,
) -> ConstructorSpec {
    ConstructorSpec {
        name: joined(positions.map_values(|p: usize| key_field(columns, p as int)), "_and_"@),
        columns: positions,
        parameters: positions.map_values(|p: usize| parameter_of(columns, directives, p as int)),
        full: positions.len() == key_columns(columns).len(),
        buckets: buckets_of(columns, rows, directives, positions),
    }
}

/// The constructors: none where the primary key has a single column or there
/// is no row, and else one for each non-empty selection of positions of the
/// primary key.
pub open spec fn constructors_of(
    columns: Seq<ColumnSpec>,
    rows: Seq<RowSpec>,
    directives: Seq<DirectiveSpec>,
) -> Seq<ConstructorSpec> {
    if key_columns(columns).len() > 1 && rows.len() > 0 {
        selections(key_columns(columns).len()).map_values(
            |positions: Seq<usize>| constructor_of(columns, rows, directives, positions),
        )
    } else {
        Seq::empty()
    }
}

/// Whether `fields`, `replacements` and `parts` hold, for each position of
/// the primary key, the snake case name of its column, the column's
/// replacement and, for each row, how the row's string is stated there.
pub open spec fn prepared(
    fields: Seq<Seq<char>>,
    replacements: Seq<Option<ReplacementSpec>>,
    parts: Seq<Seq<RenderedSpec>>,
    columns: Seq<ColumnSpec>,
    rows: Seq<RowSpec>,
    directives: Seq<DirectiveSpec>,
) -> bool {
    let k = key_columns(columns).len();
    &&& fields.len() == k
    &&& replacements.len() == k
    &&& parts.len() == rows.len()
    &&& forall|p: int| 0 <= p < k ==> #[trigger] fields[p] == key_field(columns, p)
    &&& forall|p: int|
        0 <= p < k ==> #[trigger] replacements[p] == key_replacement(columns, directives, p)
    &&& forall|r: int| 0 <= r < rows.len() ==> (#[trigger] parts[r]).len() == k
    &&& forall|r: int, p: int|
        0 <= r < rows.len() && 0 <= p < k ==> #[trigger] parts[r][p] == key_part(
            columns,
            directives,
            rows[r],
            p,
        )
}

/// States each string of a key under the replacement of its column.
fn key_parts(key: &Vec<String>, replacements: &Vec<Option<Replacement>>) -> (r: Vec<Rendered>)
    requires
        key.len() == replacements.len(),
    ensures
        r.len() == key.len(),
        forall|p: int|
            0 <= p < key.len() ==> (#[trigger] r[p])@ == part(
                key[p]@,
                replacements[p].deep_view(),
            ),
{
    let mut out: Vec<Rendered> = Vec::new();
    let mut p: usize = 0;
    while p < key.len()
        invariant
            p <= key.len(),
            key.len() == replacements.len(),
            out.len() == p,
            forall|i: int|
                0 <= i < p ==> (#[trigger] out[i])@ == part(key[i]@, replacements[i].deep_view()),
        decreases key.len() - p,
    {
        let stated = match &replacements[p] {
            Some(Replacement::Type(t)) => Rendered::Constant {
                ty: t.clone(),
                variant: to_upper_camel_case(key[p].as_str()),
            },
            _ => Rendered::Literal(Value::Text(key[p].clone())),
        };
        out.push(stated);
        p += 1;
    }
    out
}

/// The parts at the positions `positions`, in the order of the positions.
fn project(parts: &Vec<Rendered>, positions: &Vec<usize>) -> (r: Vec<Rendered>)
    requires
        forall|i: int| 0 <= i < positions.len() ==> positions[i] < parts.len(),
    ensures
        r.len() == positions.len(),
        forall|i: int|
            0 <= i < positions.len() ==> (#[trigger] r[i])@ == parts[positions[i] as int]@,
{
    let mut out: Vec<Rendered> = Vec::new();
    let mut i: usize = 0;
    while i < positions.len()
        invariant
            i <= positions.len(),
            out.len() == i,
            forall|j: int| 0 <= j < positions.len() ==> positions[j] < parts.len(),
            forall|j: int| 0 <= j < i ==> (#[trigger] out[j])@ == parts[positions[j] as int]@,
        decreases positions.len() - i,
    {
        out.push(parts[positions[i]].clone());
        i += 1;
    }
    out
}

/// Builds the constructor over the positions `positions` of the primary key.
fn constructor(
    positions: Vec<usize>,
    fields: &Vec<String>,
    replacements: &Vec<Option<Replacement>>,
    parts: &Vec<Vec<Rendered>>,
    names: &Vec<String>,
    Ghost(columns): Ghost<Seq<ColumnSpec>>,
    Ghost(rows): Ghost<Seq<RowSpec>>,
    Ghost(directives): Ghost<Seq<DirectiveSpec>>,
) -> (r: Constructor)
    requires
        prepared(
            fields.deep_view(),
            replacements.deep_view(),
            parts.deep_view(),
            columns,
            rows,
            directives,
        ),
        names_rows(names.deep_view(), columns, rows),
        forall|i: int| 0 <= i < positions.len() ==> positions[i] < key_columns(columns).len(),
    ensures
        r@ == constructor_of(columns, rows, directives, positions@),
{
    let ghost k = key_columns(columns).len();
    let mut selected: Vec<String> = Vec::new();
    let mut parameters: Vec<Parameter> = Vec::new();
    let mut i: usize = 0;
    while i < positions.len()
        invariant
            i <= positions.len(),
            k == key_columns(columns).len(),
            fields.len() == k,
            replacements.len() == k,
            selected.len() == i,
            parameters.len() == i,
            forall|j: int| 0 <= j < positions.len() ==> positions[j] < k,
            forall|p: int| 0 <= p < k ==> #[trigger] fields.deep_view()[p] == key_field(columns, p),
            forall|p: int|
                0 <= p < k ==> #[trigger] replacements.deep_view()[p] == key_replacement(
                    columns,
                    directives,
                    p,
                ),
            forall|j: int|
                0 <= j < i ==> (#[trigger] selected[j])@ == key_field(columns, positions[j] as int),
            forall|j: int|
                0 <= j < i ==> (#[trigger] parameters[j])@ == parameter_of(
                    columns,
                    directives,
                    positions[j] as int,
                ),
        decreases positions.len() - i,
    {
        let p = positions[i];
        assert(fields.deep_view()[p as int] == fields[p as int]@);
        assert(replacements.deep_view()[p as int] == replacements[p as int].deep_view());
        let ty = match &replacements[p] {
            Some(Replacement::Type(t)) => TypeName::Named(t.clone()),
            _ => TypeName::Primitive(Kind::Text),
        };
        selected.push(fields[p].clone());
        parameters.push(Parameter { name: fields[p].clone(), ty });
        i += 1;
    }
    let mut projected: Vec<Vec<Rendered>> = Vec::new();
    let mut r: usize = 0;
    while r < parts.len()
        invariant
            r <= parts.len(),
            k == key_columns(columns).len(),
            parts.len() == rows.len(),
            projected.len() == r,
            forall|j: int| 0 <= j < positions.len() ==> positions[j] < k,
            forall|i: int| 0 <= i < rows.len() ==> (#[trigger] parts.deep_view()[i]).len() == k,
            forall|i: int, p: int|
                0 <= i < rows.len() && 0 <= p < k ==> #[trigger] parts.deep_view()[i][p]
                    == key_part(columns, directives, rows[i], p),
            forall|i: int|
                0 <= i < r ==> (#[trigger] projected[i]).deep_view() == projection(
                    columns,
                    directives,
                    rows[i],
                    positions@,
                ),
        decreases parts.len() - r,
    {
        assert(parts.deep_view()[r as int].len() == k);
        let key = project(&parts[r], &positions);
        proof {
            let wanted = projection(columns, directives, rows[r as int], positions@);
            assert(key.deep_view().len() == wanted.len());
            assert forall|j: int| 0 <= j < positions.len() implies key.deep_view()[j]
                == wanted[j] by {
                let p = positions[j] as int;
                assert(parts.deep_view()[r as int][p] == parts[r as int][p]@);
            }
            assert(key.deep_view() =~= wanted);
        }
        projected.push(key);
        r += 1;
    }
    proof {
        assert(projected.deep_view() =~= rows.map_values(
            |row: RowSpec| projection(columns, directives, row, positions@),
        ));
        assert(names.deep_view() =~= rows.map_values(|row: RowSpec| variant_of(columns, row)));
        assert(selected.deep_view() =~= positions@.map_values(
            |p: usize| key_field(columns, p as int),
        ));
        assert(parameters.deep_view() =~= positions@.map_values(
            |p: usize| parameter_of(columns, directives, p as int),
        ));
    }
    let buckets = group(&projected, names);
    let full = positions.len() == fields.len();
    Constructor { name: join(&selected, "_and_"), columns: positions, parameters, full, buckets }
}

/// Whether the constructors stand for every non-empty selection of the
/// positions below `k`, each once, the smaller selections first and those of
/// one size in the lexicographic order.
pub open spec fn subsets_listed(constructors: Seq<ConstructorSpec>, k: nat) -> bool {
    lists_subsets(constructors.map_values(|c: ConstructorSpec| c.columns), k, k)
}

/// There is one constructor for each non-empty selection of columns of a
/// primary key of more than one column, `2^k - 1` for a key of `k` columns:
/// the constructors over fewer columns come first, and those over as many
/// columns stand in the lexicographic order of their columns.
pub proof fn lemma_constructors_cover_selections(
    columns: Seq<ColumnSpec>,
    rows: Seq<RowSpec>,
    directives: Seq<DirectiveSpec>,
)
    requires
        1 < key_columns(columns).len() <= MAX_KEY_COLUMNS,
        rows.len() > 0,
    ensures
        subsets_listed(constructors_of(columns, rows, directives), key_columns(columns).len()),
        constructors_of(columns, rows, directives).len() + 1 == pow2(key_columns(columns).len()),
{
    let k = key_columns(columns).len();
    lemma_selections(k);
    assert(constructors_of(columns, rows, directives).map_values(|c: ConstructorSpec| c.columns)
        =~= selections(k));
}

/// A copy of `positions`.
fn copied_positions(positions: &Vec<usize>) -> (r: Vec<usize>)
    ensures
        r@ == positions@,
{
    let mut out: Vec<usize> = Vec::new();
    let mut i: usize = 0;
    while i < positions.len()
        invariant
            i <= positions.len(),
            out@ == positions@.take(i as int),
        decreases positions.len() - i,
    {
        out.push(positions[i]);
        assert(positions@.take(i + 1) =~= positions@.take(i as int).push(positions[i as int]));
        i += 1;
    }
    assert(positions@.take(positions.len() as int) == positions@);
    out
}

/// Builds the constructors of `table`, whose primary-key columns are `keys`
/// and whose rows have the variants `names` and the keys `key_values`.
pub(crate) fn constructors(
    table: &Table,
    keys: &Vec<usize>,
    names: &Vec<String>,
    key_values: &Vec<Vec<String>>,
    directives: &Vec<Directive>,
) -> (r: Vec<Constructor>)
    requires
        keys@ == key_columns(table@.columns),
        keys.len() <= MAX_KEY_COLUMNS,
        forall|j: int| 0 <= j < keys.len() ==> keys[j] < table.columns.len(),
        names_rows(names.deep_view(), table@.columns, table@.rows),
        keys_rows(key_values.deep_view(), table@.columns, table@.rows),
    ensures
        r.deep_view() == constructors_of(table@.columns, table@.rows, directives.deep_view()),
{
    let mut out: Vec<Constructor> = Vec::new();
    if keys.len() <= 1 || table.rows.len() == 0 {
        assert(out.deep_view() =~= Seq::empty());
        return out;
    }
    let ghost columns = table@.columns;
    let ghost rows = table@.rows;
    let ghost ds = directives.deep_view();
    let k = keys.len();
    let mut fields: Vec<String> = Vec::new();
    let mut replacements: Vec<Option<Replacement>> = Vec::new();
    let mut p: usize = 0;
    while p < k
        invariant
            p <= k,
            k == keys.len(),
            columns == table@.columns,
            ds == directives.deep_view(),
            keys@ == key_columns(columns),
            forall|j: int| 0 <= j < keys.len() ==> keys[j] < table.columns.len(),
            fields.len() == p,
            replacements.len() == p,
            forall|j: int| 0 <= j < p ==> (#[trigger] fields[j])@ == key_field(columns, j),
            forall|j: int|
                0 <= j < p ==> (#[trigger] replacements[j]).deep_view() == key_replacement(
                    columns,
                    ds,
                    j,
                ),
        decreases k - p,
    {
        let column = &table.columns[keys[p]];
        assert(column@ == columns[keys[p as int] as int]);
        fields.push(to_snake_case(column.name.as_str()));
        replacements.push(get_replacement(column, directives));
        p += 1;
    }
    let mut parts: Vec<Vec<Rendered>> = Vec::new();
    let mut r: usize = 0;
    while r < key_values.len()
        invariant
            r <= key_values.len(),
            k == keys.len(),
            keys@ == key_columns(columns),
            replacements.len() == k,
            parts.len() == r,
            keys_rows(key_values.deep_view(), columns, rows),
            forall|j: int|
                0 <= j < k ==> (#[trigger] replacements[j]).deep_view() == key_replacement(
                    columns,
                    ds,
                    j,
                ),
            forall|i: int| 0 <= i < r ==> (#[trigger] parts[i]).len() == k,
            forall|i: int, j: int|
                0 <= i < r && 0 <= j < k ==> (#[trigger] parts[i][j])@ == key_part(
                    columns,
                    ds,
                    rows[i],
                    j,
                ),
        decreases key_values.len() - r,
    {
        let key = &key_values[r];
        assert(key.deep_view() == key_of(columns, rows[r as int]));
        assert(key.len() == k);
        let stated = key_parts(key, &replacements);
        assert forall|j: int| 0 <= j < k implies (#[trigger] stated[j])@ == key_part(
            columns,
            ds,
            rows[r as int],
            j,
        ) by {
            assert(key.deep_view()[j] == key[j]@);
        }
        parts.push(stated);
        r += 1;
    }
    proof {
        assert forall|i: int, j: int| 0 <= i < rows.len() && 0 <= j < k implies
            #[trigger] parts.deep_view()[i][j] == key_part(columns, ds, rows[i], j) by {
            assert(parts.deep_view()[i][j] == parts[i][j]@);
        }
        assert forall|i: int| 0 <= i < rows.len() implies (#[trigger] parts.deep_view()[i]).len()
            == k by {
            assert(parts.deep_view()[i].len() == parts[i].len());
        }
        assert(prepared(
            fields.deep_view(),
            replacements.deep_view(),
            parts.deep_view(),
            columns,
            rows,
            ds,
        ));
    }
    let ghost sized = Seq::new(k as nat, |i: int| combinations(k as nat, (i + 1) as nat));
    let ghost mut done: Seq<Seq<usize>> = Seq::empty();
    let mut size: usize = 0;
    assert(sized.take(0).flatten() =~= Seq::<Seq<usize>>::empty());
    while size < k
        invariant
            size <= k,
            k == keys.len(),
            k <= MAX_KEY_COLUMNS,
            k == key_columns(columns).len(),
            sized == Seq::new(k as nat, |i: int| combinations(k as nat, (i + 1) as nat)),
            prepared(
                fields.deep_view(),
                replacements.deep_view(),
                parts.deep_view(),
                columns,
                rows,
                ds,
            ),
            names_rows(names.deep_view(), columns, rows),
            done == sized.take(size as int).flatten(),
            out.len() == done.len(),
            forall|j: int|
                0 <= j < out.len() ==> (#[trigger] out[j])@ == constructor_of(
                    columns,
                    rows,
                    ds,
                    done[j],
                ),
        decreases k - size,
    {
        let listing = index_combinations(k, size + 1);
        proof {
            lemma_combinations_listed(listing.deep_view(), k as nat, (size + 1) as nat);
        }
        let ghost base = done;
        let mut m: usize = 0;
        assert(base + listing.deep_view().take(0) =~= base);
        while m < listing.len()
            invariant
                m <= listing.len(),
                k == key_columns(columns).len(),
                lists_selections(listing.deep_view(), k as nat, (size + 1) as nat),
                prepared(
                    fields.deep_view(),
                    replacements.deep_view(),
                    parts.deep_view(),
                    columns,
                    rows,
                    ds,
                ),
                names_rows(names.deep_view(), columns, rows),
                done == base + listing.deep_view().take(m as int),
                out.len() == done.len(),
                forall|j: int|
                    0 <= j < out.len() ==> (#[trigger] out[j])@ == constructor_of(
                        columns,
                        rows,
                        ds,
                        done[j],
                    ),
            decreases listing.len() - m,
        {
            let positions = copied_positions(&listing[m]);
            proof {
                assert(listing.deep_view()[m as int] =~= positions@);
                assert(is_selection(listing.deep_view()[m as int], k as nat, (size + 1) as nat));
                assert(listing.deep_view().take(m + 1) =~= listing.deep_view().take(
                    m as int,
                ).push(positions@));
                done = base + listing.deep_view().take(m + 1);
            }
            let built = constructor(
                positions,
                &fields,
                &replacements,
                &parts,
                names,
                Ghost(columns),
                Ghost(rows),
                Ghost(ds),
            );
            out.push(built);
            m += 1;
        }
        proof {
            assert(listing.deep_view().take(listing.len() as int) == listing.deep_view());
            assert(sized.take(size + 1) =~= sized.take(size as int).push(listing.deep_view()));
            sized.take(size as int).lemma_flatten_push(listing.deep_view());
        }
        size += 1;
    }
    proof {
        assert(sized.take(k as int) == sized);
        assert(done == selections(k as nat));
        assert(out.deep_view() =~= constructors_of(columns, rows, ds));
    }
    out
}

} // verus!
