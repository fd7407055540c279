use symbols::accessor::render;
use symbols::artifact::same_key;
use symbols::group::group;
use symbols::text::{copied, join};
use symbols::{Kind, Rendered, Replacement, Value};

fn strings(names: &[&str]) -> Vec<String> {
    names.iter().map(|s| s.to_string()).collect()
}

fn literal(s: &str) -> Rendered {
    Rendered::Literal(Value::Text(s.to_string()))
}

#[test]
fn identifiers_are_camel_cased_and_joined() {
    assert_eq!(symbols::identifier::derive(&strings(&["Minecraft"])), "Minecraft");
    assert_eq!(symbols::identifier::derive(&strings(&["Super Mario Bros."])), "SuperMarioBros");
    assert_eq!(symbols::identifier::derive(&strings(&["wii sports", "1"])), "WiiSports_1");
    assert_eq!(
        symbols::identifier::derive(&strings(&["a-b", "c_d", "XMLHttpRequest"])),
        "AB_CD_XmlHttpRequest"
    );
    assert_eq!(symbols::identifier::derive(&strings(&[])), "");
}

#[test]
fn identifiers_depend_on_the_values_alone() {
    let once = symbols::identifier::derive(&strings(&["grand theft auto v", "2013"]));
    let again = symbols::identifier::derive(&strings(&["grand theft auto v", "2013"]));
    assert_eq!(once, "GrandTheftAutoV_2013");
    assert_eq!(once, again);
}

#[test]
fn join_puts_the_separator_between_neighbours() {
    assert_eq!(join(&strings(&[]), "_and_"), "");
    assert_eq!(join(&strings(&["rank"]), "_and_"), "rank");
    assert_eq!(join(&strings(&["rank", "name"]), "_and_"), "rank_and_name");
    assert_eq!(join(&strings(&["a", "", "c"]), "-"), "a--c");
    assert_eq!(copied(&strings(&["a", "b"])), strings(&["a", "b"]));
}

#[test]
fn group_keeps_first_occurrence_and_row_order() {
    let keys = vec![
        vec![literal("x")],
        vec![literal("y")],
        vec![literal("x")],
        vec![literal("z")],
        vec![literal("y")],
        vec![literal("x")],
    ];
    let names = strings(&["r0", "r1", "r2", "r3", "r4", "r5"]);
    assert_eq!(
        group(&keys, &names),
        vec![
            (vec![literal("x")], strings(&["r0", "r2", "r5"])),
            (vec![literal("y")], strings(&["r1", "r4"])),
            (vec![literal("z")], strings(&["r3"])),
        ]
    );
    assert_eq!(group(&vec![], &vec![]), vec![]);
}

#[test]
fn keys_are_compared_part_by_part() {
    let constant = |ty: &str, variant: &str| Rendered::Constant {
        ty: ty.to_string(),
        variant: variant.to_string(),
    };
    assert!(same_key(&vec![], &vec![]));
    assert!(same_key(
        &vec![literal("a"), constant("T", "A")],
        &vec![literal("a"), constant("T", "A")]
    ));
    assert!(!same_key(&vec![literal("a")], &vec![literal("a"), literal("a")]));
    assert!(!same_key(&vec![literal("a")], &vec![literal("b")]));
    assert!(!same_key(&vec![literal("A")], &vec![constant("T", "A")]));
    assert!(!same_key(&vec![constant("T", "A")], &vec![constant("U", "A")]));
    assert!(!same_key(
        &vec![Rendered::Literal(Value::Int(1))],
        &vec![Rendered::Literal(Value::BigInt(1))]
    ));
    assert!(Value::Unsigned(3).same_as(&Value::Unsigned(3)));
    assert!(!Value::Unsigned(3).same_as(&Value::Unsigned(4)));
    assert!(!Value::Bool(true).same_as(&Value::Text("true".to_string())));
    assert_eq!(Value::Double(0).kind(), Kind::Double);
    assert_eq!(Value::Text(String::new()).kind(), Kind::Text);
}

#[test]
fn values_are_stated_under_their_replacement() {
    let value = Value::Text("nintendo switch".to_string());
    assert_eq!(render(&value, &None), Rendered::Literal(value.clone()));
    assert_eq!(
        render(&value, &Some(Replacement::Type("Platform".to_string()))),
        Rendered::Constant { ty: "Platform".to_string(), variant: "NintendoSwitch".to_string() }
    );
    assert_eq!(
        render(
            &value,
            &Some(Replacement::Function("from_str".to_string(), Some("Platform".to_string())))
        ),
        Rendered::Call {
            ty: "Platform".to_string(),
            function: "from_str".to_string(),
            argument: "nintendo switch".to_string(),
        }
    );
    assert_eq!(
        render(&Value::Bool(false), &Some(Replacement::Type("Platform".to_string()))),
        Rendered::Literal(Value::Bool(false))
    );
}
