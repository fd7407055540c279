use symbols::{symbols, Column, Directive, EnumItem, GenerationError, Kind, Table, Value};

fn text(s: &str) -> Option<Value> {
    Some(Value::Text(s.to_string()))
}

fn column(name: &str, kind: Kind, primary_key: bool) -> Column {
    Column { name: name.to_string(), kind, primary_key }
}

fn item() -> EnumItem {
    EnumItem { name: "Item".to_string(), variants: vec![] }
}

fn function_without_type(name: &str) -> Directive {
    Directive::List {
        name: name.to_string(),
        entries: vec![("fn".to_string(), "from_str".to_string())],
    }
}

#[test]
fn key_of_another_kind_is_not_recognized() {
    let table = Table {
        columns: vec![column("Rank", Kind::Int, true), column("Name", Kind::Text, false)],
        rows: vec![vec![Some(Value::Int(1)), text("a")]],
    };
    assert!(table.is_valid());
    let error = symbols(item(), &table, &vec![]).unwrap_err();
    assert_eq!(error, GenerationError::UnrecognizedValue { row: 0, column: "Rank".to_string() });
    assert_eq!(error.message(), "Unrecognized value type for field Rank");
}

#[test]
fn absent_key_is_not_recognized() {
    let table = Table {
        columns: vec![
            column("Rank", Kind::Text, true),
            column("Other", Kind::Int, false),
            column("Name", Kind::Text, true),
        ],
        rows: vec![
            vec![text("1"), None, text("a")],
            vec![text("2"), None, text("b")],
            vec![text("3"), None, None],
            vec![None, None, None],
        ],
    };
    assert!(table.is_valid());
    assert_eq!(
        symbols(item(), &table, &vec![]),
        Err(GenerationError::UnrecognizedValue { row: 2, column: "Name".to_string() })
    );
}

#[test]
fn first_key_column_without_string_is_named() {
    let table = Table {
        columns: vec![column("Rank", Kind::Text, true), column("Name", Kind::Text, true)],
        rows: vec![vec![None, None]],
    };
    assert_eq!(
        symbols(item(), &table, &vec![]),
        Err(GenerationError::UnrecognizedValue { row: 0, column: "Rank".to_string() })
    );
}

#[test]
fn function_without_type_fails_the_run() {
    let table = Table {
        columns: vec![
            column("Name", Kind::Text, true),
            column("Series", Kind::Text, false),
            column("Platforms", Kind::Text, false),
            column("Publisher", Kind::Text, false),
        ],
        rows: vec![vec![text("a"), text("s"), text("p"), text("q")]],
    };
    let directives = vec![function_without_type("platforms"), function_without_type("publisher")];
    let error = symbols(item(), &table, &directives).unwrap_err();
    assert_eq!(error, GenerationError::MissingParameterType { column: "Platforms".to_string() });
    assert_eq!(error.message(), "Missing parameter type for field Platforms");
}

#[test]
fn function_without_type_is_harmless_without_rows() {
    let table = Table {
        columns: vec![column("Name", Kind::Text, true), column("Platforms", Kind::Text, false)],
        rows: vec![],
    };
    let artifact = symbols(item(), &table, &vec![function_without_type("platforms")]).unwrap();
    assert!(artifact.item.variants.is_empty());
}

#[test]
fn function_without_type_is_harmless_outside_accessors() {
    let table = Table {
        columns: vec![
            column("Name", Kind::Text, true),
            column("Rank", Kind::Int, false),
            column("Blob", Kind::Unsupported, false),
        ],
        rows: vec![vec![text("a"), Some(Value::Int(1)), None]],
    };
    let directives = vec![
        function_without_type("name"),
        function_without_type("rank"),
        function_without_type("blob"),
    ];
    let artifact = symbols(item(), &table, &directives).unwrap();
    assert_eq!(artifact.item.variants, vec!["A".to_string()]);
    assert_eq!(artifact.accessors.len(), 1);
}

#[test]
fn first_row_without_key_comes_before_missing_type() {
    let table = Table {
        columns: vec![column("Name", Kind::Text, true), column("Platforms", Kind::Text, false)],
        rows: vec![vec![None, text("p")], vec![text("b"), text("q")]],
    };
    assert_eq!(
        symbols(item(), &table, &vec![function_without_type("platforms")]),
        Err(GenerationError::UnrecognizedValue { row: 0, column: "Name".to_string() })
    );
}

#[test]
fn missing_type_comes_before_later_row_without_key() {
    let table = Table {
        columns: vec![column("Name", Kind::Text, true), column("Platforms", Kind::Text, false)],
        rows: vec![vec![text("a"), text("p")], vec![None, text("q")]],
    };
    assert_eq!(
        symbols(item(), &table, &vec![function_without_type("platforms")]),
        Err(GenerationError::MissingParameterType { column: "Platforms".to_string() })
    );
}

#[test]
fn tables_are_checked_against_their_schema() {
    let columns = || vec![column("Name", Kind::Text, true), column("Rank", Kind::Int, false)];
    assert!(Table { columns: columns(), rows: vec![] }.is_valid());
    assert!(Table { columns: columns(), rows: vec![vec![text("a"), None]] }.is_valid());
    assert!(Table { columns: columns(), rows: vec![vec![None, Some(Value::Int(2))]] }.is_valid());
    // a row that is too short, and one that is too long
    assert!(!Table { columns: columns(), rows: vec![vec![text("a")]] }.is_valid());
    assert!(!Table { columns: columns(), rows: vec![vec![text("a"), None, None]] }.is_valid());
    // a value of another kind than its column
    assert!(!Table { columns: columns(), rows: vec![vec![text("a"), text("b")]] }.is_valid());
    assert!(!Table {
        columns: columns(),
        rows: vec![vec![text("a"), None], vec![Some(Value::Bool(true)), None]]
    }
    .is_valid());
    // no primary key
    assert!(!Table { columns: vec![column("Rank", Kind::Int, false)], rows: vec![] }.is_valid());
    assert!(!Table { columns: vec![], rows: vec![] }.is_valid());
    // a value under a column of a kind that is not managed
    assert!(!Table {
        columns: vec![column("Name", Kind::Text, true), column("Blob", Kind::Unsupported, false)],
        rows: vec![vec![text("a"), text("b")]]
    }
    .is_valid());
}

#[test]
fn primary_key_is_bounded() {
    let key = |n: usize| -> Vec<Column> {
        (0..n).map(|i| column(&format!("K{}", i), Kind::Text, true)).collect()
    };
    assert_eq!(symbols::MAX_KEY_COLUMNS, 16);
    assert!(Table { columns: key(16), rows: vec![] }.is_valid());
    assert!(!Table { columns: key(17), rows: vec![] }.is_valid());
}

#[test]
fn key_columns_are_listed_in_schema_order() {
    let table = Table {
        columns: vec![
            column("A", Kind::Int, false),
            column("B", Kind::Text, true),
            column("C", Kind::Int, false),
            column("D", Kind::Text, true),
        ],
        rows: vec![],
    };
    assert_eq!(table.key_columns(), vec![1, 3]);
}
