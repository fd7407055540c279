use symbols::{get_replacement, resolve, Column, Directive, Kind, Replacement};

fn name_value(name: &str, value: &str) -> Directive {
    Directive::NameValue { name: name.to_string(), value: value.to_string() }
}

fn list(name: &str, entries: &[(&str, &str)]) -> Directive {
    Directive::List {
        name: name.to_string(),
        entries: entries.iter().map(|(k, v)| (k.to_string(), v.to_string())).collect(),
    }
}

fn resolved(column: &str, field: &str, directives: &[Directive]) -> Option<Replacement> {
    let directives: Vec<Directive> = directives.iter().map(copy).collect();
    resolve(&column.to_string(), &field.to_string(), &directives)
}

fn copy(d: &Directive) -> Directive {
    match d {
        Directive::NameValue { name, value } => {
            Directive::NameValue { name: name.clone(), value: value.clone() }
        }
        Directive::List { name, entries } => {
            Directive::List { name: name.clone(), entries: entries.clone() }
        }
    }
}

#[test]
fn no_directive_resolves_to_none() {
    assert_eq!(resolved("Kind", "kind", &[]), None);
    assert_eq!(resolved("Kind", "kind", &[name_value("other", "Other")]), None);
}

#[test]
fn name_value_resolves_to_type() {
    assert_eq!(
        resolved("Developer", "developer", &[name_value("developer", "Developer")]),
        Some(Replacement::Type("Developer".to_string()))
    );
}

#[test]
fn schema_name_is_matched_exactly() {
    assert_eq!(
        resolved("Developer", "developer", &[name_value("Developer", "Studio")]),
        Some(Replacement::Type("Studio".to_string()))
    );
    assert_eq!(resolved("Developer", "developer", &[name_value("DEVELOPER", "Studio")]), None);
}

#[test]
fn type_alone_resolves_to_type() {
    assert_eq!(
        resolved("Kind", "kind", &[list("kind", &[("type", "Kind")])]),
        Some(Replacement::Type("Kind".to_string()))
    );
}

#[test]
fn fn_alone_resolves_to_function_without_type() {
    assert_eq!(
        resolved("Kind", "kind", &[list("kind", &[("fn", "from_str")])]),
        Some(Replacement::Function("from_str".to_string(), None))
    );
}

#[test]
fn fn_and_type_resolve_to_function_in_either_order() {
    let expected = Some(Replacement::Function("from_str".to_string(), Some("Kind".to_string())));
    assert_eq!(
        resolved("Kind", "kind", &[list("kind", &[("type", "Kind"), ("fn", "from_str")])]),
        expected
    );
    assert_eq!(
        resolved("Kind", "kind", &[list("kind", &[("fn", "from_str"), ("type", "Kind")])]),
        expected
    );
}

#[test]
fn other_sub_keys_are_passed_over() {
    assert_eq!(
        resolved(
            "Kind",
            "kind",
            &[list("kind", &[("doc", "x"), ("type", "Kind"), ("since", "1")])]
        ),
        Some(Replacement::Type("Kind".to_string()))
    );
}

#[test]
fn later_sub_keys_refine_earlier_ones() {
    assert_eq!(
        resolved("Kind", "kind", &[list("kind", &[("type", "A"), ("type", "B")])]),
        Some(Replacement::Type("B".to_string()))
    );
    assert_eq!(
        resolved("Kind", "kind", &[list("kind", &[("fn", "f"), ("fn", "g")])]),
        Some(Replacement::Function("g".to_string(), None))
    );
    assert_eq!(
        resolved("Kind", "kind", &[list("kind", &[("fn", "f"), ("type", "A"), ("type", "B")])]),
        Some(Replacement::Type("B".to_string()))
    );
}

#[test]
fn first_directive_that_describes_a_replacement_decides() {
    assert_eq!(
        resolved("Kind", "kind", &[name_value("kind", "First"), name_value("kind", "Second")]),
        Some(Replacement::Type("First".to_string()))
    );
    assert_eq!(
        resolved(
            "Kind",
            "kind",
            &[list("kind", &[("doc", "nothing")]), name_value("kind", "Second")]
        ),
        Some(Replacement::Type("Second".to_string()))
    );
    assert_eq!(
        resolved("Kind", "kind", &[list("kind", &[]), list("kind", &[("fn", "f")])]),
        Some(Replacement::Function("f".to_string(), None))
    );
}

#[test]
fn column_is_known_by_its_snake_case_name() {
    let column = Column {
        name: "InitialReleaseDate".to_string(),
        kind: Kind::Text,
        primary_key: false,
    };
    let directives = vec![name_value("initial_release_date", "Date")];
    assert_eq!(get_replacement(&column, &directives), Some(Replacement::Type("Date".to_string())));
    let directives = vec![name_value("InitialReleaseDate", "Date")];
    assert_eq!(get_replacement(&column, &directives), Some(Replacement::Type("Date".to_string())));
    let directives = vec![name_value("initialreleasedate", "Date")];
    assert_eq!(get_replacement(&column, &directives), None);
}
