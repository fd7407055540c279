use symbols::{find_table, select_table, ConfigError, Directive, Fault, Load, Outcome, Phase};

fn failure(cause: &str) -> Outcome {
    Outcome::Failure(cause.to_string())
}

fn located() -> Load {
    Load::begin("best_selling_video_games")
        .advance(Outcome::WorkingDirectory("/home/user/project".to_string()))
}

#[test]
fn load_begins_by_locating_the_snapshot() {
    let load = Load::begin("games");
    assert_eq!(load.phase, Phase::Locating);
    assert_eq!(load.table, "games");
    assert_eq!(load.path, "");
    assert_eq!(load.failure, None);
    assert_eq!(load.message(), "");
}

#[test]
fn snapshot_lies_in_the_working_directory() {
    let load = located();
    assert_eq!(load.phase, Phase::Probing);
    assert_eq!(load.path, "/home/user/project/best_selling_video_games.cache");
}

#[test]
fn existing_snapshot_is_only_read() {
    let mut load = located().advance(Outcome::Exists(true));
    assert_eq!(load.phase, Phase::Opening);
    load = load.advance(Outcome::Success);
    assert_eq!(load.phase, Phase::Decoding);
    load = load.advance(Outcome::Success);
    assert_eq!(load.phase, Phase::Loaded);
    assert_eq!(load.failure, None);
    load = load.advance(Outcome::Success);
    assert_eq!(load.phase, Phase::Loaded);
}

#[test]
fn missing_snapshot_is_fetched_and_written() {
    let mut load = located().advance(Outcome::Exists(false));
    let mut phases = vec![load.phase];
    while load.phase != Phase::Stored {
        load = load.advance(Outcome::Success);
        phases.push(load.phase);
    }
    assert_eq!(
        phases,
        vec![
            Phase::Connecting,
            Phase::Fetching,
            Phase::Encoding,
            Phase::Writing,
            Phase::Stored
        ]
    );
    assert_eq!(load.path, "/home/user/project/best_selling_video_games.cache");
}

#[test]
fn unknown_working_directory_fails_the_load() {
    let load = Load::begin("games").advance(failure("permission denied"));
    assert_eq!(load.phase, Phase::Failed);
    assert_eq!(load.failure, Some((Fault::WorkingDirectory, "permission denied".to_string())));
    assert_eq!(load.message(), "Error retrieving current directory: permission denied");
}

#[test]
fn snapshot_failures_carry_the_path() {
    let path = "/home/user/project/best_selling_video_games.cache";
    let load = located().advance(Outcome::Exists(true)).advance(failure("denied"));
    assert_eq!(load.failure, Some((Fault::Read, "denied".to_string())));
    assert_eq!(load.message(), format!("Error reading {}: denied", path));

    let load = located()
        .advance(Outcome::Exists(true))
        .advance(Outcome::Success)
        .advance(failure("unexpected end of file"));
    assert_eq!(load.phase, Phase::Failed);
    assert_eq!(load.message(), format!("Error deserializing {}: unexpected end of file", path));

    let fetched = || {
        located()
            .advance(Outcome::Exists(false))
            .advance(Outcome::Success)
            .advance(Outcome::Success)
    };
    let load = fetched().advance(failure("too large"));
    assert_eq!(load.failure, Some((Fault::Serialize, "too large".to_string())));
    assert_eq!(load.message(), format!("Error serializing {}: too large", path));

    let load = fetched().advance(Outcome::Success).advance(failure("disk full"));
    assert_eq!(load.failure, Some((Fault::Write, "disk full".to_string())));
    assert_eq!(load.message(), format!("Error writing {}: disk full", path));
}

#[test]
fn source_failures_carry_their_cause() {
    let load = located().advance(Outcome::Exists(false)).advance(failure("DATABASE_URL not set"));
    assert_eq!(load.failure, Some((Fault::Connect, "DATABASE_URL not set".to_string())));
    assert_eq!(load.message(), "DATABASE_URL not set");

    let load = located()
        .advance(Outcome::Exists(false))
        .advance(Outcome::Success)
        .advance(failure("no such table"));
    assert_eq!(load.failure, Some((Fault::Fetch, "no such table".to_string())));
    assert_eq!(load.message(), "no such table");
}

#[test]
fn outcomes_that_are_not_awaited_change_nothing() {
    let load = Load::begin("games").advance(Outcome::Exists(true));
    assert_eq!(load, Load::begin("games"));
    let load = Load::begin("games").advance(Outcome::Success);
    assert_eq!(load, Load::begin("games"));
    let load = located().advance(Outcome::Success);
    assert_eq!(load, located());
    let load = located().advance(failure("late"));
    assert_eq!(load, located());
    let load = located().advance(Outcome::WorkingDirectory("/elsewhere".to_string()));
    assert_eq!(load, located());
    let failed = || Load::begin("games").advance(failure("first"));
    assert_eq!(failed().advance(failure("second")), failed());
    assert_eq!(failed().advance(Outcome::Success), failed());
}

fn name_value(name: &str, value: &str) -> Directive {
    Directive::NameValue { name: name.to_string(), value: value.to_string() }
}

#[test]
fn table_is_named_by_the_first_table_directive() {
    let directives = vec![
        name_value("developer", "Developer"),
        Directive::List { name: "table".to_string(), entries: vec![] },
        name_value("table", "games"),
        name_value("table", "films"),
    ];
    assert_eq!(find_table(&directives), Some("games".to_string()));
    assert_eq!(find_table(&vec![name_value("Table", "games")]), None);
    assert_eq!(find_table(&vec![]), None);
}

#[test]
fn table_must_be_named() {
    let known = vec!["games".to_string()];
    let error = select_table(&vec![name_value("developer", "Developer")], &known).unwrap_err();
    assert_eq!(error, ConfigError::MissingTable);
    assert_eq!(error.message(), "Missing table attribute");
}

#[test]
fn table_must_be_known() {
    let known = vec!["games".to_string(), "films".to_string()];
    assert_eq!(select_table(&vec![name_value("table", "films")], &known), Ok(1));
    assert_eq!(select_table(&vec![name_value("table", "games")], &known), Ok(0));
    let error = select_table(&vec![name_value("table", "books")], &known).unwrap_err();
    assert_eq!(error, ConfigError::UnrecognizedTable("books".to_string()));
    assert_eq!(error.message(), "Unrecognized table \"books\"");
}
