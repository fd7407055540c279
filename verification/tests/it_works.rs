use symbols::{
    symbols, Accessor, Artifact, Column, Directive, EnumItem, Kind, Rendered, Table, TypeName,
    Value,
};

fn text(s: &str) -> Option<Value> {
    Some(Value::Text(s.to_string()))
}

fn column(name: &str, kind: Kind, primary_key: bool) -> Column {
    Column { name: name.to_string(), kind, primary_key }
}

fn game(
    rank: i8,
    name: &str,
    sales: &str,
    series: &str,
    platforms: &str,
    date: &str,
    developer: &str,
    publisher: &str,
) -> Vec<Option<Value>> {
    vec![
        Some(Value::TinyInt(rank)),
        text(name),
        text(sales),
        text(series),
        text(platforms),
        text(date),
        text(developer),
        text(publisher),
    ]
}

fn best_selling_video_games() -> Table {
    Table {
        columns: vec![
            column("Rank", Kind::TinyInt, false),
            column("Name", Kind::Text, true),
            column("Sales", Kind::Text, false),
            column("Series", Kind::Text, false),
            column("Platforms", Kind::Text, false),
            column("InitialReleaseDate", Kind::Text, false),
            column("Developer", Kind::Text, false),
            column("Publisher", Kind::Text, false),
        ],
        rows: vec![
            game(
                1,
                "Minecraft",
                "238,000,000",
                "Minecraft",
                "Multi-platform",
                "November 18, 2011",
                "Mojang Studios",
                "Xbox Game Studios",
            ),
            game(
                2,
                "Grand Theft Auto V",
                "160,000,000",
                "Grand Theft Auto",
                "Multi-platform",
                "September 17, 2013",
                "Rockstar North",
                "Rockstar Games",
            ),
            game(
                4,
                "Wii Sports",
                "82,900,000",
                "Wii",
                "Wii",
                "November 19, 2006",
                "Nintendo EAD",
                "Nintendo",
            ),
            game(
                7,
                "Super Mario Bros.",
                "58,000,000",
                "Super Mario",
                "NES",
                "September 13, 1985",
                "Nintendo R&D4",
                "Nintendo",
            ),
        ],
    }
}

fn directives() -> Vec<Directive> {
    vec![
        Directive::NameValue {
            name: "table".to_string(),
            value: "best_selling_video_games".to_string(),
        },
        Directive::List {
            name: "platforms".to_string(),
            entries: vec![
                ("type".to_string(), "Platforms".to_string()),
                ("fn".to_string(), "from_str".to_string()),
            ],
        },
        Directive::NameValue { name: "developer".to_string(), value: "Developer".to_string() },
        Directive::List {
            name: "publisher".to_string(),
            entries: vec![
                ("type".to_string(), "Publisher".to_string()),
                ("fn".to_string(), "from_str".to_string()),
            ],
        },
    ]
}

fn generate() -> Artifact {
    let table = best_selling_video_games();
    assert!(table.is_valid());
    let item = EnumItem { name: "BestSellingVideoGame".to_string(), variants: vec![] };
    symbols(item, &table, &directives()).unwrap()
}

fn accessor<'a>(artifact: &'a Artifact, name: &str) -> &'a Accessor {
    artifact.accessors.iter().find(|a| a.name == name).unwrap()
}

#[test]
fn it_works() {
    let artifact = generate();
    let as_str = artifact.as_str.as_ref().unwrap();
    for game in &artifact.item.variants {
        println!(
            "rank: {:?}, name: {:?} sales: {:?} series: {:?} platforms: {:?} initial release date: {:?} developer: {:?} publisher: {:?}",
            accessor(&artifact, "rank").value_of(game).unwrap(),
            as_str.value_of(game).unwrap(),
            accessor(&artifact, "sales").value_of(game).unwrap(),
            accessor(&artifact, "series").value_of(game).unwrap(),
            accessor(&artifact, "platforms").value_of(game).unwrap(),
            accessor(&artifact, "initial_release_date").value_of(game).unwrap(),
            accessor(&artifact, "developer").value_of(game).unwrap(),
            accessor(&artifact, "publisher").value_of(game).unwrap()
        );
    }
}

#[test]
fn games_become_variants_in_row_order() {
    let artifact = generate();
    assert_eq!(artifact.item.name, "BestSellingVideoGame");
    assert_eq!(
        artifact.item.variants,
        vec![
            "Minecraft".to_string(),
            "GrandTheftAutoV".to_string(),
            "WiiSports".to_string(),
            "SuperMarioBros".to_string(),
        ]
    );
}

#[test]
fn games_have_one_accessor_for_each_other_column() {
    let artifact = generate();
    let names: Vec<&str> = artifact.accessors.iter().map(|a| a.name.as_str()).collect();
    assert_eq!(
        names,
        vec![
            "rank",
            "sales",
            "series",
            "platforms",
            "initial_release_date",
            "developer",
            "publisher",
        ]
    );
    assert!(artifact.accessors.iter().all(|a| !a.partial && a.arms.len() == 4));
    assert!(artifact.constructors.is_empty());
}

#[test]
fn games_accessors_state_values_under_their_replacements() {
    let artifact = generate();
    let rank = accessor(&artifact, "rank");
    assert_eq!(rank.returns, TypeName::Primitive(Kind::TinyInt));
    assert_eq!(rank.value_of("WiiSports"), Some(&Rendered::Literal(Value::TinyInt(4))));

    let sales = accessor(&artifact, "sales");
    assert_eq!(sales.returns, TypeName::Primitive(Kind::Text));
    assert_eq!(
        sales.value_of("Minecraft"),
        Some(&Rendered::Literal(Value::Text("238,000,000".to_string())))
    );

    let platforms = accessor(&artifact, "platforms");
    assert_eq!(platforms.returns, TypeName::Named("Platforms".to_string()));
    assert_eq!(
        platforms.value_of("SuperMarioBros"),
        Some(&Rendered::Call {
            ty: "Platforms".to_string(),
            function: "from_str".to_string(),
            argument: "NES".to_string(),
        })
    );

    let developer = accessor(&artifact, "developer");
    assert_eq!(developer.returns, TypeName::Named("Developer".to_string()));
    assert_eq!(
        developer.value_of("GrandTheftAutoV"),
        Some(&Rendered::Constant {
            ty: "Developer".to_string(),
            variant: "RockstarNorth".to_string(),
        })
    );
    assert_eq!(
        developer.value_of("SuperMarioBros"),
        Some(&Rendered::Constant {
            ty: "Developer".to_string(),
            variant: "NintendoRD4".to_string(),
        })
    );

    let publisher = accessor(&artifact, "publisher");
    assert_eq!(
        publisher.value_of("Minecraft"),
        Some(&Rendered::Call {
            ty: "Publisher".to_string(),
            function: "from_str".to_string(),
            argument: "Xbox Game Studios".to_string(),
        })
    );
}

#[test]
fn games_names_convert_back_to_their_variants() {
    let artifact = generate();
    let as_str = artifact.as_str.as_ref().unwrap();
    let try_from = artifact.try_from.as_ref().unwrap();
    assert_eq!(as_str.name, "as_str");
    assert!(!as_str.partial);
    for variant in &artifact.item.variants {
        let literal = match as_str.value_of(variant) {
            Some(Rendered::Literal(Value::Text(s))) => s.clone(),
            other => panic!("no literal for {}: {:?}", variant, other),
        };
        assert_eq!(try_from.convert(&literal), Ok(variant.clone()));
    }
    assert_eq!(try_from.convert("Super Mario Bros."), Ok("SuperMarioBros".to_string()));
    assert_eq!(
        try_from.convert("Pong"),
        Err("Unknown BestSellingVideoGame Pong".to_string())
    );
}

#[test]
fn generation_repeats_itself() {
    assert_eq!(generate(), generate());
}
