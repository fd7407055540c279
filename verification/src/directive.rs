//! Replacement directives: how the string values of a column are re-typed.

use crate::case::{snake_case, to_snake_case};
use crate::schema::Column;
use vstd::prelude::*;
use vstd::string::*;

verus! {

/// One entry of the configuration: a name with a value, or a name with a list
/// of named values.
#[derive(Debug, PartialEq, Eq)]
pub enum Directive {
    NameValue { name: String, value: String },
    List { name: String, entries: Vec<(String, String)> },
}

/// The mathematical model of a [`Directive`].
pub enum DirectiveSpec {
    NameValue { name: Seq<char>, value: Seq<char> },
    List { name: Seq<char>, entries: Seq<(Seq<char>, Seq<char>)> },
}

impl View for Directive {
    type V = DirectiveSpec;

    open spec fn view(&self) -> DirectiveSpec {
        match self {
            Directive::NameValue { name, value } => DirectiveSpec::NameValue {
                name: name@,
                value: value@,
            },
            Directive::List { name, entries } => DirectiveSpec::List {
                name: name@,
                entries: entries.deep_view(),
            },
        }
    }
}

impl DeepView for Directive {
    type V = DirectiveSpec;

    open spec fn deep_view(&self) -> DirectiveSpec {
        self@
    }
}

/// How the string values of a column are rendered.
#[derive(Debug, PartialEq, Eq)]
pub enum Replacement {
    /// As a constant of the named enumeration.
    Type(String),
    /// As a call of the named function of a type; the type may still be
    /// missing.
    Function(String, Option<String>),
}

/// The mathematical model of a [`Replacement`].
pub enum ReplacementSpec {
    Type(Seq<char>),
    Function(Seq<char>, Option<Seq<char>>),
}

impl View for Replacement {
    type V = ReplacementSpec;

    open spec fn view(&self) -> ReplacementSpec {
        match self {
            Replacement::Type(t) => ReplacementSpec::Type(t@),
            Replacement::Function(f, t) => ReplacementSpec::Function(f@, t.deep_view()),
        }
    }
}

impl DeepView for Replacement {
    type V = ReplacementSpec;

    open spec fn deep_view(&self) -> ReplacementSpec {
        self@
    }
}

impl Clone for Replacement {
    fn clone(&self) -> (r: Replacement)
        ensures
            r@ == self@,
    {
        match self {
            Replacement::Type(t) => Replacement::Type(t.clone()),
            Replacement::Function(f, t) => {
                let ty = match t {
                    Some(t) => Some(t.clone()),
                    None => None,
                };
                Replacement::Function(f.clone(), ty)
            },
        }
    }
}

/// What one named value of a list does to the replacement gathered so far: a
/// `type` completes a function that lacks its type and else names a type; a
/// `fn` turns a type into a function of that type and else names a function
/// that lacks its type; any other name changes nothing.
pub open spec fn refined(acc: Option<ReplacementSpec>, entry: (Seq<char>, Seq<char>)) -> Option<
    ReplacementSpec,
> {
    if entry.0 == "type"@ {
        match acc {
            Some(ReplacementSpec::Function(f, None)) => Some(
                ReplacementSpec::Function(f, Some(entry.1)),
            ),
            _ => Some(ReplacementSpec::Type(entry.1)),
        }
    } else if entry.0 == "fn"@ {
        match acc {
            Some(ReplacementSpec::Type(t)) => Some(ReplacementSpec::Function(entry.1, Some(t))),
            _ => Some(ReplacementSpec::Function(entry.1, None)),
        }
    } else {
        acc
    }
}

/// The replacement that a list of named values describes.
pub open spec fn described(entries: Seq<(Seq<char>, Seq<char>)>) -> Option<ReplacementSpec> {
    entries.fold_left(
        None,
        |acc: Option<ReplacementSpec>, entry: (Seq<char>, Seq<char>)| refined(acc, entry),
    )
}

/// The replacement that one directive gives a column known by the names
/// `column` and `field`, if it speaks of that column at all.
pub open spec fn offered(d: DirectiveSpec, column: Seq<char>, field: Seq<char>) -> Option<
    ReplacementSpec,
> {
    match d {
        DirectiveSpec::NameValue { name, value } => if name == column || name == field {
            Some(ReplacementSpec::Type(value))
        } else {
            None
        },
        DirectiveSpec::List { name, entries } => if name == column || name == field {
            described(entries)
        } else {
            None
        },
    }
}

/// The replacement of a column known by the names `column` and `field`: what
/// the first directive that offers one offers.
pub open spec fn resolved(directives: Seq<DirectiveSpec>, column: Seq<char>, field: Seq<char>)
    -> Option<ReplacementSpec>
    decreases directives.len(),
{
    if directives.len() == 0 {
        None
    } else {
        match offered(directives[0], column, field) {
            Some(r) => Some(r),
            None => resolved(directives.skip(1), column, field),
        }
    }
}

/// The replacement of the column that the schema names `name`: directives may
/// call it by that name or by its snake case form.
pub open spec fn replacement_of(directives: Seq<DirectiveSpec>, name: Seq<char>) -> Option<
    ReplacementSpec,
> {
    resolved(directives, name, snake_case(name))
}

/// Directives that offer nothing can be passed over.
proof fn lemma_resolved_skip(
    directives: Seq<DirectiveSpec>,
    column: Seq<char>,
    field: Seq<char>,
    n: int,
)
    requires
        0 <= n <= directives.len(),
        forall|j: int| 0 <= j < n ==> offered(directives[j], column, field) is None,
    ensures
        resolved(directives, column, field) == resolved(directives.skip(n), column, field),
    decreases n,
{
    if n == 0 {
        assert(directives.skip(0) == directives);
    } else {
        let rest = directives.skip(1);
        assert forall|j: int| 0 <= j < n - 1 implies offered(rest[j], column, field) is None by {
            assert(rest[j] == directives[j + 1]);
        }
        lemma_resolved_skip(rest, column, field, n - 1);
        assert(rest.skip(n - 1) == directives.skip(n));
    }
}

/// Reads the replacement that a list of named values describes.
fn describe(entries: &Vec<(String, String)>) -> (r: Option<Replacement>)
    ensures
        r.deep_view() == described(entries.deep_view()),
{
    let type_key = String::from_str("type");
    let fn_key = String::from_str("fn");
    let mut acc: Option<Replacement> = None;
    let mut i: usize = 0;
    while i < entries.len()
        invariant
            i <= entries.len(),
            type_key@ == "type"@,
            fn_key@ == "fn"@,
            acc.deep_view() == described(entries.deep_view().take(i as int)),
        decreases entries.len() - i,
    {
        let ghost before = entries.deep_view().take(i as int);
        let ghost after = entries.deep_view().take(i + 1);
        assert(after.drop_last() == before);
        assert(after.last() == entries.deep_view()[i as int]);
        let entry = &entries[i];
        if entry.0 == type_key {
            acc = match acc {
                Some(Replacement::Function(f, None)) => Some(
                    Replacement::Function(f, Some(entry.1.clone())),
                ),
                _ => Some(Replacement::Type(entry.1.clone())),
            };
        } else if entry.0 == fn_key {
            acc = match acc {
                Some(Replacement::Type(t)) => Some(Replacement::Function(entry.1.clone(), Some(t))),
                _ => Some(Replacement::Function(entry.1.clone(), None)),
            };
        }
        i += 1;
    }
    assert(entries.deep_view().take(entries.len() as int) == entries.deep_view());
    acc
}

/// Resolves the replacement of a column known by the names `column` and
/// `field`: the first directive that names it and describes a replacement
/// decides.
pub fn resolve(column: &String, field: &String, directives: &Vec<Directive>) -> (r: Option<
    Replacement,
>)
    ensures
        r.deep_view() == resolved(directives.deep_view(), column@, field@),
{
    let mut i: usize = 0;
    while i < directives.len()
        invariant
            i <= directives.len(),
            forall|j: int|
                0 <= j < i ==> offered(#[trigger] directives.deep_view()[j], column@, field@)
                    is None,
        decreases directives.len() - i,
    {
        let found = match &directives[i] {
            Directive::NameValue { name, value } => {
                if *name == *column || *name == *field {
                    Some(Replacement::Type(value.clone()))
                } else {
                    None
                }
            },
            Directive::List { name, entries } => {
                if *name == *column || *name == *field {
                    describe(entries)
                } else {
                    None
                }
            },
        };
        assert(found.deep_view() == offered(directives.deep_view()[i as int], column@, field@));
        if found.is_some() {
            proof {
                lemma_resolved_skip(directives.deep_view(), column@, field@, i as int);
            }
            return found;
        }
        i += 1;
    }
    proof {
        lemma_resolved_skip(
            directives.deep_view(),
            column@,
            field@,
            directives.deep_view().len() as int,
        );
    }
    None
}

/// Resolves the replacement that the directives give `column`.
pub fn get_replacement(column: &Column, directives: &Vec<Directive>) -> (r: Option<Replacement>)
    ensures
        r.deep_view() == replacement_of(directives.deep_view(), column@.name),
{
    let field = to_snake_case(column.name.as_str());
    resolve(&column.name, &field, directives)
}

} // verus!
