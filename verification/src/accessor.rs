//! Synthesis of the accessors: one for each column outside the primary key
//! whose kind is managed, and one for the string of a single-column key.

use crate::artifact::{
    Accessor, AccessorSpec, Conversion, ConversionSpec, Rendered, RenderedSpec, TypeName,
    TypeNameSpec,
};
use crate::case::{snake_case, to_snake_case, to_upper_camel_case, upper_camel_case};
use crate::directive::{get_replacement, replacement_of, Directive, DirectiveSpec, Replacement,
    ReplacementSpec};
use crate::identifier::{key_of, variant_of};
use crate::schema::{
    indices, key_columns, row_fits, ColumnSpec, Kind, RowSpec, Table, Value, ValueSpec,
};
use vstd::prelude::*;
use vstd::string::*;

verus! {

/// The type of what an accessor yields for a column of kind `kind`: the type
/// that a replacement names for a column of strings, and else the type of the
/// kind.
pub open spec fn returned(kind: Kind, replacement: Option<ReplacementSpec>) -> TypeNameSpec {
    match (kind, replacement) {
        (Kind::Text, Some(ReplacementSpec::Type(t))) => TypeNameSpec::Named(t),
        (Kind::Text, Some(ReplacementSpec::Function(_, Some(t)))) => TypeNameSpec::Named(t),
        _ => TypeNameSpec::Primitive(kind),
    }
}

/// How a value is stated under a replacement: a string becomes the constant
/// named by its upper camel case form under a type, and the argument of a
/// call under a function of a type; anything else is stated as it is.
pub open spec fn rendered(v: ValueSpec, replacement: Option<ReplacementSpec>) -> RenderedSpec {
    match (v, replacement) {
        (ValueSpec::Text(s), Some(ReplacementSpec::Type(t))) => RenderedSpec::Constant {
            ty: t,
            variant: upper_camel_case(s),
        },
        (ValueSpec::Text(s), Some(ReplacementSpec::Function(f, Some(t)))) => RenderedSpec::Call {
            ty: t,
            function: f,
            argument: s,
        },
        _ => RenderedSpec::Literal(v),
    }
}

/// Whether a column gets an accessor of its own: it lies outside the primary
/// key and its kind is managed.
pub open spec fn has_accessor(column: ColumnSpec) -> bool {
    !column.primary_key && column.kind != Kind::Unsupported
}

/// Whether the accessor of a column cannot be typed: the column holds
/// strings, and its replacement is a function without a type.
pub open spec fn lacks_type(column: ColumnSpec, directives: Seq<DirectiveSpec>) -> bool {
    &&& has_accessor(column)
    &&& column.kind == Kind::Text
    &&& replacement_of(directives, column.name) matches Some(ReplacementSpec::Function(_, None))
}

/// The arm that `row` adds to the accessor of column `c`, if it holds a value
/// there.
pub open spec fn arm_of(
    columns: Seq<ColumnSpec>,
    row: RowSpec,
    c: int,
    replacement: Option<ReplacementSpec>,
) -> Option<(Seq<char>, RenderedSpec)> {
    match row[c] {
        Some(v) => Some((variant_of(columns, row), rendered(v, replacement))),
        None => None,
    }
}

/// The accessor of column `c`: named by the snake case form of the column's
/// name, with one arm for each row that holds a value there, in the order of
/// the rows, and partial where some row holds none.
pub open spec fn accessor_of(
    columns: Seq<ColumnSpec>,
    rows: Seq<RowSpec>,
    directives: Seq<DirectiveSpec>,
    c: int,
) -> AccessorSpec {
    let replacement = replacement_of(directives, columns[c].name);
    AccessorSpec {
        name: snake_case(columns[c].name),
        returns: returned(columns[c].kind, replacement),
        partial: exists|r: int| 0 <= r < rows.len() && (#[trigger] rows[r])[c] is None,
        arms: rows.filter_map(|row: RowSpec| arm_of(columns, row, c, replacement)),
    }
}

/// The accessors of the columns: none where there is no row, and else one for
/// each column that gets one, in the schema's order.
pub open spec fn accessors_of(
    columns: Seq<ColumnSpec>,
    rows: Seq<RowSpec>,
    directives: Seq<DirectiveSpec>,
) -> Seq<AccessorSpec> {
    if rows.len() == 0 {
        Seq::empty()
    } else {
        indices(columns.len()).filter_map(
            |c: usize|
                if has_accessor(columns[c as int]) {
                    Some(accessor_of(columns, rows, directives, c as int))
                } else {
                    None
                },
        )
    }
}

/// The accessor for the string of a single-column key: total, with the string
/// of each row as a literal.
pub open spec fn as_str_of(columns: Seq<ColumnSpec>, rows: Seq<RowSpec>) -> AccessorSpec {
    AccessorSpec {
        name: "as_str"@,
        returns: TypeNameSpec::Primitive(Kind::Text),
        partial: false,
        arms: rows.map_values(
            |row: RowSpec|
                (
                    variant_of(columns, row),
                    RenderedSpec::Literal(ValueSpec::Text(key_of(columns, row)[0])),
                ),
        ),
    }
}

/// The conversion from the string of a single-column key: one arm for each
/// row, from its string to its variant.
pub open spec fn try_from_of(enumeration: Seq<char>, columns: Seq<ColumnSpec>, rows: Seq<RowSpec>)
    -> ConversionSpec {
    ConversionSpec {
        enumeration,
        arms: rows.map_values(|row: RowSpec| (key_of(columns, row)[0], variant_of(columns, row))),
    }
}

/// States a value under a replacement.
pub fn render(v: &Value, replacement: &Option<Replacement>) -> (r: Rendered)
    ensures
        r@ == rendered(v@, replacement.deep_view()),
{
    match v {
        Value::Text(s) => match replacement {
            Some(Replacement::Type(t)) => Rendered::Constant {
                ty: t.clone(),
                variant: to_upper_camel_case(s.as_str()),
            },
            Some(Replacement::Function(f, Some(t))) => Rendered::Call {
                ty: t.clone(),
                function: f.clone(),
                argument: s.clone(),
            },
            _ => Rendered::Literal(v.clone()),
        },
        _ => Rendered::Literal(v.clone()),
    }
}

/// The type of what an accessor yields for a column of kind `kind`.
fn return_type(kind: Kind, replacement: &Option<Replacement>) -> (r: TypeName)
    ensures
        r@ == returned(kind, replacement.deep_view()),
{
    match kind {
        Kind::Text => match replacement {
            Some(Replacement::Type(t)) => TypeName::Named(t.clone()),
            Some(Replacement::Function(_, Some(t))) => TypeName::Named(t.clone()),
            _ => TypeName::Primitive(kind),
        },
        _ => TypeName::Primitive(kind),
    }
}

/// Whether `names` holds the name of the variant of each row of `table`.
pub open spec fn names_rows(names: Seq<Seq<char>>, columns: Seq<ColumnSpec>, rows: Seq<RowSpec>)
    -> bool {
    &&& names.len() == rows.len()
    &&& forall|r: int| 0 <= r < rows.len() ==> names[r] == variant_of(columns, #[trigger] rows[r])
}

/// Whether `keys` holds the strings of the primary key of each row.
pub open spec fn keys_rows(keys: Seq<Seq<Seq<char>>>, columns: Seq<ColumnSpec>, rows: Seq<RowSpec>)
    -> bool {
    &&& keys.len() == rows.len()
    &&& forall|r: int| 0 <= r < rows.len() ==> keys[r] == key_of(columns, #[trigger] rows[r])
}

/// Builds the accessor of column `c` of `table`, whose rows' variants are
/// `names`.
pub(crate) fn accessor(table: &Table, names: &Vec<String>, directives: &Vec<Directive>, c: usize)
    -> (r: Accessor)
    requires
        c < table.columns.len(),
        names_rows(names.deep_view(), table@.columns, table@.rows),
        forall|r: int|
            0 <= r < table@.rows.len() ==> row_fits(table@.columns, #[trigger] table@.rows[r]),
    ensures
        r@ == accessor_of(table@.columns, table@.rows, directives.deep_view(), c as int),
{
    let column = &table.columns[c];
    let replacement = get_replacement(column, directives);
    let ghost columns = table@.columns;
    let ghost rows = table@.rows;
    let ghost rep = replacement.deep_view();
    let ghost g = |row: RowSpec| arm_of(columns, row, c as int, rep);
    let mut arms: Vec<(String, Rendered)> = Vec::new();
    let mut partial = false;
    let mut r: usize = 0;
    assert(rows.take(0).filter_map(g) =~= Seq::empty());
    while r < table.rows.len()
        invariant
            r <= table.rows.len(),
            c < table.columns.len(),
            columns == table@.columns,
            rows == table@.rows,
            rep == replacement.deep_view(),
            g == |row: RowSpec| arm_of(columns, row, c as int, rep),
            names_rows(names.deep_view(), columns, rows),
            forall|i: int| 0 <= i < rows.len() ==> row_fits(columns, #[trigger] rows[i]),
            arms.deep_view() == rows.take(r as int).filter_map(g),
            partial == exists|i: int| 0 <= i < r && (#[trigger] rows[i])[c as int] is None,
        decreases table.rows.len() - r,
    {
        proof {
            rows.lemma_filter_map_take_succ(g, r as int);
            assert(row_fits(columns, rows[r as int]));
        }
        let ghost before = arms.deep_view();
        let row = &table.rows[r];
        assert(row.deep_view() == rows[r as int]);
        match &row[c] {
            Some(v) => {
                assert(rows[r as int][c as int] == Some(v@));
                let value = render(v, &replacement);
                arms.push((names[r].clone(), value));
                assert(arms.deep_view() =~= before.push((names[r as int]@, value@)));
            },
            None => {
                assert(rows[r as int][c as int] is None);
                partial = true;
            },
        }
        r += 1;
    }
    assert(rows.take(rows.len() as int) == rows);
    Accessor {
        name: to_snake_case(column.name.as_str()),
        returns: return_type(column.kind, &replacement),
        partial,
        arms,
    }
}

/// Builds the accessors of the columns of `table`, whose rows' variants are
/// `names`.
pub(crate) fn accessors(table: &Table, names: &Vec<String>, directives: &Vec<Directive>) -> (r:
    Vec<Accessor>)
    requires
        names_rows(names.deep_view(), table@.columns, table@.rows),
        forall|r: int|
            0 <= r < table@.rows.len() ==> row_fits(table@.columns, #[trigger] table@.rows[r]),
    ensures
        r.deep_view() == accessors_of(table@.columns, table@.rows, directives.deep_view()),
{
    let mut out: Vec<Accessor> = Vec::new();
    if table.rows.len() == 0 {
        assert(out.deep_view() =~= Seq::empty());
        return out;
    }
    let ghost columns = table@.columns;
    let ghost rows = table@.rows;
    let ghost all = indices(columns.len());
    let ghost g = |c: usize|
        if has_accessor(columns[c as int]) {
            Some(accessor_of(columns, rows, directives.deep_view(), c as int))
        } else {
            None
        };
    let mut c: usize = 0;
    assert(all.take(0).filter_map(g) =~= Seq::empty());
    while c < table.columns.len()
        invariant
            c <= table.columns.len(),
            columns == table@.columns,
            rows == table@.rows,
            all == indices(columns.len()),
            g == |c: usize|
                if has_accessor(columns[c as int]) {
                    Some(accessor_of(columns, rows, directives.deep_view(), c as int))
                } else {
                    None
                },
            names_rows(names.deep_view(), columns, rows),
            forall|i: int| 0 <= i < rows.len() ==> row_fits(columns, #[trigger] rows[i]),
            out.deep_view() == all.take(c as int).filter_map(g),
        decreases table.columns.len() - c,
    {
        proof {
            all.lemma_filter_map_take_succ(g, c as int);
        }
        let ghost before = out.deep_view();
        let column = &table.columns[c];
        assert(column@ == columns[c as int]);
        if !column.primary_key && column.kind != Kind::Unsupported {
            let built = accessor(table, names, directives, c);
            out.push(built);
            assert(out.deep_view() =~= before.push(built@));
        }
        c += 1;
    }
    assert(all.take(columns.len() as int) == all);
    out
}

/// Builds the accessor for the string of a single-column key from the
/// variants and the keys of the rows.
pub(crate) fn as_str(
    names: &Vec<String>,
    keys: &Vec<Vec<String>>,
    Ghost(columns): Ghost<Seq<ColumnSpec>>,
    Ghost(rows): Ghost<Seq<RowSpec>>,
) -> (r: Accessor)
    requires
        key_columns(columns).len() == 1,
        names_rows(names.deep_view(), columns, rows),
        keys_rows(keys.deep_view(), columns, rows),
    ensures
        r@ == as_str_of(columns, rows),
{
    let mut arms: Vec<(String, Rendered)> = Vec::new();
    let mut r: usize = 0;
    while r < names.len()
        invariant
            r <= names.len(),
            arms.len() == r,
            key_columns(columns).len() == 1,
            names_rows(names.deep_view(), columns, rows),
            keys_rows(keys.deep_view(), columns, rows),
            forall|i: int|
                0 <= i < r ==> (#[trigger] arms[i]).deep_view() == (
                    variant_of(columns, rows[i]),
                    RenderedSpec::Literal(ValueSpec::Text(key_of(columns, rows[i])[0])),
                ),
        decreases names.len() - r,
    {
        assert(keys.deep_view()[r as int] == key_of(columns, rows[r as int]));
        assert(keys[r as int].deep_view().len() == 1);
        let value = Rendered::Literal(Value::Text(keys[r][0].clone()));
        assert(value@ == RenderedSpec::Literal(
            ValueSpec::Text(key_of(columns, rows[r as int])[0]),
        ));
        arms.push((names[r].clone(), value));
        r += 1;
    }
    assert(arms.deep_view() =~= as_str_of(columns, rows).arms);
    Accessor {
        name: String::from_str("as_str"),
        returns: TypeName::Primitive(Kind::Text),
        partial: false,
        arms,
    }
}

/// Builds the conversion from the string of a single-column key from the
/// variants and the keys of the rows.
pub(crate) fn try_from(
    enumeration: &String,
    names: &Vec<String>,
    keys: &Vec<Vec<String>>,
    Ghost(columns): Ghost<Seq<ColumnSpec>>,
    Ghost(rows): Ghost<Seq<RowSpec>>,
) -> (r: Conversion)
    requires
        key_columns(columns).len() == 1,
        names_rows(names.deep_view(), columns, rows),
        keys_rows(keys.deep_view(), columns, rows),
    ensures
        r@ == try_from_of(enumeration@, columns, rows),
{
    let mut arms: Vec<(String, String)> = Vec::new();
    let mut r: usize = 0;
    while r < names.len()
        invariant
            r <= names.len(),
            arms.len() == r,
            key_columns(columns).len() == 1,
            names_rows(names.deep_view(), columns, rows),
            keys_rows(keys.deep_view(), columns, rows),
            forall|i: int|
                0 <= i < r ==> (#[trigger] arms[i]).deep_view() == (
                    key_of(columns, rows[i])[0],
                    variant_of(columns, rows[i]),
                ),
        decreases names.len() - r,
    {
        assert(keys.deep_view()[r as int] == key_of(columns, rows[r as int]));
        assert(keys[r as int].deep_view().len() == 1);
        arms.push((keys[r][0].clone(), names[r].clone()));
        r += 1;
    }
    assert(arms.deep_view() =~= try_from_of(enumeration@, columns, rows).arms);
    Conversion { enumeration: enumeration.clone(), arms }
}

} // verus!
