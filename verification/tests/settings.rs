use option_ledger::error::Error;
use option_ledger::settings::{Setting, Settings};

fn row(name: &str, value: u32) -> Setting {
    Setting { name: name.to_string(), value }
}

#[test]
fn get_falls_back_to_the_default() {
    let settings = Settings::new();
    assert_eq!(settings.get("default_weight", 5), 5);
    assert_eq!(settings.get("default_weight", 9), 9);
    assert!(settings.rows().is_empty());
}

#[test]
fn insert_then_get() {
    let mut settings = Settings::new();
    assert_eq!(settings.insert("default_weight", 5), Ok(()));
    assert_eq!(settings.get("default_weight", 1), 5);
    assert_eq!(settings.get("other", 1), 1);
    assert_eq!(settings.rows(), &vec![row("default_weight", 5)]);
}

#[test]
fn insert_refuses_a_second_row_of_one_name() {
    let mut settings = Settings::new();
    settings.insert("default_weight", 5).unwrap();
    assert_eq!(settings.insert("default_weight", 6), Err(Error::Write));
    assert_eq!(settings.get("default_weight", 1), 5);
    assert_eq!(settings.rows().len(), 1);
}

#[test]
fn set_changes_the_value_in_place() {
    let mut settings = Settings::new();
    settings.insert("a", 1).unwrap();
    settings.insert("default_weight", 5).unwrap();
    settings.insert("z", 26).unwrap();
    assert_eq!(settings.set("default_weight", 10), Ok(()));
    assert_eq!(settings.get("default_weight", 0), 10);
    assert_eq!(settings.get("a", 0), 1);
    assert_eq!(settings.get("z", 0), 26);
    assert_eq!(settings.rows(), &vec![row("a", 1), row("default_weight", 10), row("z", 26)]);
}

#[test]
fn set_fails_where_no_row_is_affected() {
    let mut settings = Settings::new();
    assert_eq!(settings.set("default_weight", 10), Err(Error::Write));
    settings.insert("other", 1).unwrap();
    assert_eq!(settings.set("default_weight", 10), Err(Error::Write));
    assert_eq!(settings.get("default_weight", 5), 5);
    assert_eq!(settings.rows(), &vec![row("other", 1)]);
}

#[test]
fn from_rows_keeps_the_rows() {
    let rows = vec![row("b", 2), row("a", 1)];
    let settings = Settings::from_rows(rows.clone()).unwrap();
    assert_eq!(settings.rows(), &rows);
    assert_eq!(settings.get("a", 0), 1);
    assert_eq!(settings.get("b", 0), 2);
    assert_eq!(settings.get("c", 7), 7);
    assert!(Settings::from_rows(Vec::new()).is_ok());
}

#[test]
fn from_rows_refuses_two_rows_of_one_name() {
    let rows = vec![row("a", 1), row("b", 2), row("a", 1)];
    assert!(matches!(Settings::from_rows(rows), Err(Error::Query)));
    let rows = vec![row("a", 1), row("a", 2)];
    assert!(matches!(Settings::from_rows(rows), Err(Error::Query)));
}
