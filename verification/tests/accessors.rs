use symbols::{
    symbols, Artifact, Column, Directive, EnumItem, GenerationError, Kind, Rendered, Table,
    TypeName, Value,
};

fn text(s: &str) -> Option<Value> {
    Some(Value::Text(s.to_string()))
}

fn column(name: &str, kind: Kind, primary_key: bool) -> Column {
    Column { name: name.to_string(), kind, primary_key }
}

fn run(table: &Table, directives: &Vec<Directive>) -> Result<Artifact, GenerationError> {
    assert!(table.is_valid());
    symbols(EnumItem { name: "Item".to_string(), variants: vec![] }, table, directives)
}

fn every_kind() -> Table {
    Table {
        columns: vec![
            column("Id", Kind::Text, true),
            column("Flag", Kind::Bool, false),
            column("Tiny", Kind::TinyInt, false),
            column("Small", Kind::SmallInt, false),
            column("Plain", Kind::Int, false),
            column("Big", Kind::BigInt, false),
            column("TinyU", Kind::TinyUnsigned, false),
            column("SmallU", Kind::SmallUnsigned, false),
            column("PlainU", Kind::Unsigned, false),
            column("BigU", Kind::BigUnsigned, false),
            column("Ratio", Kind::Float, false),
            column("Exact", Kind::Double, false),
            column("Label", Kind::Text, false),
            column("CreatedAt", Kind::Unsupported, false),
        ],
        rows: vec![vec![
            text("first one"),
            Some(Value::Bool(true)),
            Some(Value::TinyInt(-8)),
            Some(Value::SmallInt(-16)),
            Some(Value::Int(-32)),
            Some(Value::BigInt(-64)),
            Some(Value::TinyUnsigned(8)),
            Some(Value::SmallUnsigned(16)),
            Some(Value::Unsigned(32)),
            Some(Value::BigUnsigned(64)),
            Some(Value::Float(1.5f32.to_bits())),
            Some(Value::Double(2.25f64.to_bits())),
            text("a label"),
            None,
        ]],
    }
}

#[test]
fn every_managed_kind_gets_a_typed_accessor() {
    let artifact = run(&every_kind(), &vec![]).unwrap();
    assert_eq!(artifact.item.variants, vec!["FirstOne".to_string()]);
    let expected = vec![
        ("flag", Kind::Bool, Value::Bool(true)),
        ("tiny", Kind::TinyInt, Value::TinyInt(-8)),
        ("small", Kind::SmallInt, Value::SmallInt(-16)),
        ("plain", Kind::Int, Value::Int(-32)),
        ("big", Kind::BigInt, Value::BigInt(-64)),
        ("tiny_u", Kind::TinyUnsigned, Value::TinyUnsigned(8)),
        ("small_u", Kind::SmallUnsigned, Value::SmallUnsigned(16)),
        ("plain_u", Kind::Unsigned, Value::Unsigned(32)),
        ("big_u", Kind::BigUnsigned, Value::BigUnsigned(64)),
        ("ratio", Kind::Float, Value::Float(0x3fc0_0000)),
        ("exact", Kind::Double, Value::Double(0x4002_0000_0000_0000)),
        ("label", Kind::Text, Value::Text("a label".to_string())),
    ];
    assert_eq!(artifact.accessors.len(), expected.len());
    for (accessor, (name, kind, value)) in artifact.accessors.iter().zip(expected) {
        assert_eq!(accessor.name, name);
        assert_eq!(accessor.returns, TypeName::Primitive(kind));
        assert!(!accessor.partial);
        assert_eq!(accessor.arms, vec![("FirstOne".to_string(), Rendered::Literal(value))]);
    }
}

#[test]
fn unsupported_columns_are_passed_over() {
    let artifact = run(&every_kind(), &vec![]).unwrap();
    assert!(artifact.accessors.iter().all(|a| a.name != "created_at"));
}

fn sparse() -> Table {
    Table {
        columns: vec![
            column("Code", Kind::Text, true),
            column("Always", Kind::Int, false),
            column("Sometimes", Kind::Int, false),
            column("Never", Kind::Text, false),
        ],
        rows: vec![
            vec![text("x"), Some(Value::Int(1)), Some(Value::Int(10)), None],
            vec![text("y"), Some(Value::Int(2)), None, None],
            vec![text("z"), Some(Value::Int(3)), Some(Value::Int(30)), None],
        ],
    }
}

#[test]
fn columns_never_absent_get_total_accessors() {
    let artifact = run(&sparse(), &vec![]).unwrap();
    let always = &artifact.accessors[0];
    assert_eq!(always.name, "always");
    assert!(!always.partial);
    assert_eq!(always.value_of("X"), Some(&Rendered::Literal(Value::Int(1))));
    assert_eq!(always.value_of("Y"), Some(&Rendered::Literal(Value::Int(2))));
    assert_eq!(always.value_of("Z"), Some(&Rendered::Literal(Value::Int(3))));
}

#[test]
fn columns_sometimes_absent_get_partial_accessors() {
    let artifact = run(&sparse(), &vec![]).unwrap();
    let sometimes = &artifact.accessors[1];
    assert_eq!(sometimes.name, "sometimes");
    assert!(sometimes.partial);
    assert_eq!(sometimes.arms.len(), 2);
    assert_eq!(sometimes.value_of("X"), Some(&Rendered::Literal(Value::Int(10))));
    assert_eq!(sometimes.value_of("Y"), None);
    assert_eq!(sometimes.value_of("Z"), Some(&Rendered::Literal(Value::Int(30))));
}

#[test]
fn columns_always_absent_yield_nothing() {
    let artifact = run(&sparse(), &vec![]).unwrap();
    let never = &artifact.accessors[2];
    assert_eq!(never.name, "never");
    assert_eq!(never.returns, TypeName::Primitive(Kind::Text));
    assert!(never.partial);
    assert!(never.arms.is_empty());
    assert_eq!(never.value_of("X"), None);
    assert_eq!(never.value_of("Y"), None);
    assert_eq!(never.value_of("Z"), None);
}

#[test]
fn accessor_yields_nothing_for_an_unknown_variant() {
    let artifact = run(&sparse(), &vec![]).unwrap();
    assert_eq!(artifact.accessors[0].value_of("W"), None);
    assert_eq!(artifact.as_str.as_ref().unwrap().value_of("W"), None);
}

#[test]
fn strings_under_a_type_become_constants() {
    let table = Table {
        columns: vec![column("Code", Kind::Text, true), column("Studio", Kind::Text, false)],
        rows: vec![vec![text("x"), text("rockstar north")], vec![text("y"), None]],
    };
    let directives =
        vec![Directive::NameValue { name: "studio".to_string(), value: "Developer".to_string() }];
    let artifact = run(&table, &directives).unwrap();
    let studio = &artifact.accessors[0];
    assert_eq!(studio.returns, TypeName::Named("Developer".to_string()));
    assert!(studio.partial);
    assert_eq!(
        studio.value_of("X"),
        Some(&Rendered::Constant {
            ty: "Developer".to_string(),
            variant: "RockstarNorth".to_string(),
        })
    );
    assert_eq!(studio.value_of("Y"), None);
}

#[test]
fn numbers_ignore_replacements() {
    let table = Table {
        columns: vec![column("Code", Kind::Text, true), column("Rank", Kind::Int, false)],
        rows: vec![vec![text("x"), Some(Value::Int(7))]],
    };
    let directives = vec![
        Directive::NameValue { name: "rank".to_string(), value: "Rank".to_string() },
        Directive::List {
            name: "rank".to_string(),
            entries: vec![("fn".to_string(), "from_str".to_string())],
        },
    ];
    let artifact = run(&table, &directives).unwrap();
    let rank = &artifact.accessors[0];
    assert_eq!(rank.returns, TypeName::Primitive(Kind::Int));
    assert_eq!(rank.value_of("X"), Some(&Rendered::Literal(Value::Int(7))));
}

#[test]
fn single_key_under_a_replacement_keeps_its_literal_accessor() {
    let table = Table {
        columns: vec![column("Code", Kind::Text, true)],
        rows: vec![vec![text("alpha beta")]],
    };
    let directives =
        vec![Directive::NameValue { name: "code".to_string(), value: "Code".to_string() }];
    let artifact = run(&table, &directives).unwrap();
    assert!(artifact.accessors.is_empty());
    let as_str = artifact.as_str.as_ref().unwrap();
    assert_eq!(
        as_str.value_of("AlphaBeta"),
        Some(&Rendered::Literal(Value::Text("alpha beta".to_string())))
    );
    assert_eq!(
        artifact.try_from.as_ref().unwrap().arms,
        vec![("alpha beta".to_string(), "AlphaBeta".to_string())]
    );
}
