//! The table that a configuration asks for.

use crate::directive::{Directive, DirectiveSpec};
use crate::search::{first_where, lemma_first_where_absent, lemma_first_where_found};
use vstd::prelude::*;
use vstd::string::*;

verus! {

/// Why a configuration selects no table.
#[derive(Debug, PartialEq, Eq)]
pub enum ConfigError {
    /// No directive names a table.
    MissingTable,
    /// The table that the directives name is not a known one.
    UnrecognizedTable(String),
}

/// The mathematical model of a [`ConfigError`].
pub enum ConfigErrorSpec {
    MissingTable,
    UnrecognizedTable(Seq<char>),
}

impl View for ConfigError {
    type V = ConfigErrorSpec;

    open spec fn view(&self) -> ConfigErrorSpec {
        match self {
            ConfigError::MissingTable => ConfigErrorSpec::MissingTable,
            ConfigError::UnrecognizedTable(table) => ConfigErrorSpec::UnrecognizedTable(table@),
        }
    }
}

impl ConfigErrorSpec {
    /// The message of the failure; it names the table where there is one.
    pub open spec fn message(self) -> Seq<char> {
        match self {
            ConfigErrorSpec::MissingTable => "Missing table attribute"@,
            ConfigErrorSpec::UnrecognizedTable(table) => "Unrecognized table \""@ + table + "\""@,
        }
    }
}

impl ConfigError {
    /// The message of the failure.
    pub fn message(&self) -> (r: String)
        ensures
            r@ == self@.message(),
    {
        match self {
            ConfigError::MissingTable => String::from_str("Missing table attribute"),
            ConfigError::UnrecognizedTable(table) => {
                String::from_str("Unrecognized table \"").concat(table.as_str()).concat("\"")
            },
        }
    }
}

/// Whether a directive names the table: it gives the name `table` a value.
pub open spec fn names_table(d: DirectiveSpec) -> bool {
    d matches DirectiveSpec::NameValue { name, .. } && name == "table"@
}

/// The table that the directives name: the value of the first directive that
/// gives the name `table` one.
pub open spec fn table_of(directives: Seq<DirectiveSpec>) -> Option<Seq<char>> {
    match first_where(directives, |d: DirectiveSpec| names_table(d)) {
        Some(i) => Some(directives[i]->NameValue_value),
        None => None,
    }
}

/// The index of the first of the names `known` that is `table`.
pub open spec fn known_as(known: Seq<Seq<char>>, table: Seq<char>) -> Option<int> {
    first_where(known, |name: Seq<char>| name == table)
}

/// The index in `known` of the table that the directives name, or why there
/// is none.
pub open spec fn selected(directives: Seq<DirectiveSpec>, known: Seq<Seq<char>>) -> Result<
    int,
    ConfigErrorSpec,
> {
    match table_of(directives) {
        None => Err(ConfigErrorSpec::MissingTable),
        Some(table) => match known_as(known, table) {
            Some(i) => Ok(i),
            None => Err(ConfigErrorSpec::UnrecognizedTable(table)),
        },
    }
}

/// Finds the table that the directives name.
pub fn find_table(directives: &Vec<Directive>) -> (r: Option<String>)
    ensures
        r.deep_view() == table_of(directives.deep_view()),
{
    let key = String::from_str("table");
    let ghost p = |d: DirectiveSpec| names_table(d);
    let mut i: usize = 0;
    while i < directives.len()
        invariant
            i <= directives.len(),
            key@ == "table"@,
            p == |d: DirectiveSpec| names_table(d),
            forall|j: int| 0 <= j < i ==> !p(#[trigger] directives.deep_view()[j]),
        decreases directives.len() - i,
    {
        match &directives[i] {
            Directive::NameValue { name, value } => {
                if *name == key {
                    proof {
                        lemma_first_where_found(directives.deep_view(), p, i as int);
                    }
                    return Some(value.clone());
                }
            },
            _ => {},
        }
        i += 1;
    }
    proof {
        lemma_first_where_absent(directives.deep_view(), p);
    }
    None
}

/// Selects, among the tables `known`, the one that the directives name.
pub fn select_table(directives: &Vec<Directive>, known: &Vec<String>) -> (r: Result<
    usize,
    ConfigError,
>)
    ensures
        match r {
            Ok(i) => i < known.len() && selected(directives.deep_view(), known.deep_view()) == Ok::<
                int,
                ConfigErrorSpec,
            >(i as int),
            Err(error) => selected(directives.deep_view(), known.deep_view()) == Err::<
                int,
                ConfigErrorSpec,
            >(error@),
        },
{
    match find_table(directives) {
        None => Err(ConfigError::MissingTable),
        Some(table) => {
            let ghost p = |name: Seq<char>| name == table@;
            let mut i: usize = 0;
            while i < known.len()
                invariant
                    i <= known.len(),
                    table_of(directives.deep_view()) == Some(table@),
                    p == |name: Seq<char>| name == table@,
                    forall|j: int| 0 <= j < i ==> !p(#[trigger] known.deep_view()[j]),
                decreases known.len() - i,
            {
                if known[i] == table {
                    proof {
                        assert(known.deep_view()[i as int] == known[i as int]@);
                        lemma_first_where_found(known.deep_view(), p, i as int);
                    }
                    return Ok(i);
                }
                i += 1;
            }
            proof {
                lemma_first_where_absent(known.deep_view(), p);
            }
            Err(ConfigError::UnrecognizedTable(table))
        },
    }
}

} // verus!
