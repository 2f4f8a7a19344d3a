use zourit::migrations::{
    is_sql_file, precedes, sort_names, split_statements, Action, Event, Ledger, Migrator,
};

fn names(list: &[&str]) -> Vec<String> {
    list.iter().map(|s| s.to_string()).collect()
}

fn apply_name(action: Action) -> String {
    match action {
        Action::Apply(name) => name,
        other => panic!("expected a script, got {:?}", other),
    }
}

/// Runs the engine with every script applied; returns the scripts in the
/// order in which they were handed out, and the ledger at the end.
fn run_all(entries: &[&str], ledger: Ledger) -> (Vec<String>, Vec<String>) {
    let mut engine = Migrator::new(&names(entries), ledger);
    let mut handed = Vec::new();
    let mut action = engine.step(Event::Begin);
    loop {
        match action {
            Action::Apply(name) => {
                handed.push(name);
                action = engine.step(Event::Applied);
            }
            Action::Finished => break,
            Action::Halted => panic!("halted"),
        }
    }
    (handed, engine.ledger().filenames())
}

#[test]
fn split_statements_trims_and_drops_empty_pieces() {
    let got = split_statements(" CREATE TABLE a (id INTEGER);\n\nINSERT INTO a VALUES (1) ;; \n");
    assert_eq!(got, names(&["CREATE TABLE a (id INTEGER)", "INSERT INTO a VALUES (1)"]));
}

#[test]
fn split_statements_of_nothing_is_nothing() {
    assert_eq!(split_statements(""), Vec::<String>::new());
    assert_eq!(split_statements(" ;\n; "), Vec::<String>::new());
    assert_eq!(split_statements("SELECT 1"), names(&["SELECT 1"]));
}

#[test]
fn sql_extension_needs_a_stem() {
    assert!(is_sql_file("001_x.sql"));
    assert!(is_sql_file("a.b.sql"));
    assert!(is_sql_file("..sql"));
    assert!(!is_sql_file(".sql"));
    assert!(!is_sql_file("sql"));
    assert!(!is_sql_file("001_x.SQL"));
    assert!(!is_sql_file("001_x.sql.bak"));
    assert!(!is_sql_file(""));
}

#[test]
fn ledger_records_each_name_once() {
    let mut ledger = Ledger::new();
    assert_eq!(ledger.len(), 0);
    assert!(!ledger.contains("001_x.sql"));
    assert!(ledger.record("001_x.sql"));
    assert!(ledger.contains("001_x.sql"));
    assert!(!ledger.record("001_x.sql"));
    assert!(ledger.record("002_y.sql"));
    assert_eq!(ledger.len(), 2);
    assert_eq!(ledger.filenames(), names(&["001_x.sql", "002_y.sql"]));
}

#[test]
fn ledger_from_rows_drops_repeats() {
    let ledger = Ledger::from_rows(&names(&["b.sql", "a.sql", "b.sql"]));
    assert_eq!(ledger.filenames(), names(&["b.sql", "a.sql"]));
    let same = Ledger::from_rows(&names(&["b.sql", "a.sql"]));
    assert_eq!(same.filenames(), names(&["b.sql", "a.sql"]));
}

#[test]
fn scripts_are_applied_in_filename_order() {
    let (handed, ledger) = run_all(&["002_y.sql", "001_x.sql"], Ledger::new());
    assert_eq!(handed, names(&["001_x.sql", "002_y.sql"]));
    assert_eq!(ledger, names(&["001_x.sql", "002_y.sql"]));
}

#[test]
fn order_is_lexicographic_not_numeric() {
    let (handed, _) = run_all(&["10_b.sql", "9_a.sql", "100_c.sql", "Z.sql", "a.sql"], Ledger::new());
    assert_eq!(handed, names(&["100_c.sql", "10_b.sql", "9_a.sql", "Z.sql", "a.sql"]));
}

#[test]
fn only_sql_files_are_taken_up() {
    let (handed, _) = run_all(&["readme.md", "001_x.sql", ".sql", "002_y.sql.bak", "003.SQL"], Ledger::new());
    assert_eq!(handed, names(&["001_x.sql"]));
}

#[test]
fn second_run_applies_nothing() {
    let entries = ["003_z.sql", "001_x.sql", "002_y.sql"];
    let (first, ledger) = run_all(&entries, Ledger::new());
    assert_eq!(first.len(), 3);
    assert_eq!(ledger.len(), 3);
    let (second, ledger_again) = run_all(&entries, Ledger::from_rows(&ledger));
    assert_eq!(second, Vec::<String>::new());
    assert_eq!(ledger_again, ledger);
    assert_eq!(ledger_again.len(), 3);
}

#[test]
fn recorded_scripts_are_passed_over() {
    let ledger = Ledger::from_rows(&names(&["001_x.sql"]));
    let (handed, rows) = run_all(&["001_x.sql", "002_y.sql"], ledger);
    assert_eq!(handed, names(&["002_y.sql"]));
    assert_eq!(rows, names(&["001_x.sql", "002_y.sql"]));
}

#[test]
fn no_scripts_is_no_error() {
    let mut engine = Migrator::new(&Vec::new(), Ledger::new());
    assert!(matches!(engine.step(Event::Begin), Action::Finished));
    assert!(matches!(engine.step(Event::Applied), Action::Finished));
    assert_eq!(engine.ledger().len(), 0);
    assert!(!engine.is_halted());
}

#[test]
fn unreadable_script_is_skipped_and_not_recorded() {
    let mut engine = Migrator::new(&names(&["001_x.sql", "002_y.sql"]), Ledger::new());
    assert_eq!(apply_name(engine.step(Event::Begin)), "001_x.sql");
    assert_eq!(apply_name(engine.step(Event::Unreadable)), "002_y.sql");
    assert!(matches!(engine.step(Event::Applied), Action::Finished));
    assert_eq!(engine.ledger().filenames(), names(&["002_y.sql"]));
}

#[test]
fn failed_script_halts_the_run() {
    let mut engine = Migrator::new(&names(&["001_x.sql", "002_y.sql"]), Ledger::new());
    assert_eq!(apply_name(engine.step(Event::Begin)), "001_x.sql");
    assert_eq!(apply_name(engine.step(Event::Applied)), "002_y.sql");
    assert!(matches!(engine.step(Event::Failed), Action::Halted));
    assert!(engine.is_halted());
    assert!(matches!(engine.step(Event::Applied), Action::Halted));
    assert!(matches!(engine.step(Event::Begin), Action::Halted));
    assert_eq!(engine.ledger().filenames(), names(&["001_x.sql"]));
}

#[test]
fn begin_repeats_the_script_in_hand() {
    let mut engine = Migrator::new(&names(&["001_x.sql"]), Ledger::new());
    assert_eq!(apply_name(engine.step(Event::Begin)), "001_x.sql");
    assert_eq!(apply_name(engine.step(Event::Begin)), "001_x.sql");
    assert_eq!(engine.ledger().len(), 0);
}

#[test]
fn news_without_a_script_in_hand_changes_nothing() {
    let mut engine = Migrator::new(&names(&["001_x.sql"]), Ledger::new());
    assert_eq!(apply_name(engine.step(Event::Applied)), "001_x.sql");
    assert_eq!(engine.ledger().len(), 0);
}

#[test]
fn a_name_listed_twice_is_applied_once() {
    let (handed, ledger) = run_all(&["001_x.sql", "001_x.sql"], Ledger::new());
    assert_eq!(handed, names(&["001_x.sql"]));
    assert_eq!(ledger, names(&["001_x.sql"]));
}

#[test]
fn precedes_is_the_order_of_strings() {
    let samples = ["", "a", "A", "ab", "b", "a.sql", "é", "z", "001_x.sql", "002_y.sql", "10", "9", "\u{10000}", "\u{ffff}"];
    for a in samples {
        for b in samples {
            assert_eq!(precedes(a, b), a <= b, "{:?} and {:?}", a, b);
        }
    }
}

#[test]
fn sort_names_agrees_with_std() {
    let given = names(&["b.sql", "a.sql", "", "é.sql", "a.sql", "Z.sql", "10.sql", "9.sql"]);
    let mut want = given.clone();
    want.sort();
    assert_eq!(sort_names(&given), want);
    assert_eq!(sort_names(&Vec::new()), Vec::<String>::new());
}
