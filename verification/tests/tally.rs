use option_ledger::events::EventRecord;
use option_ledger::tally::{locate, tally};

fn record(name: &str, delta: i64) -> EventRecord {
    EventRecord { name: name.to_string(), delta, log: None }
}

fn names(list: &[&str]) -> Vec<String> {
    list.iter().map(|name| name.to_string()).collect()
}

#[test]
fn tally_of_nothing() {
    assert_eq!(tally(&Vec::new()), (Vec::new(), Vec::new()));
}

#[test]
fn tally_lists_every_name_once_with_its_sum() {
    let records = vec![
        record("tea", 10),
        record("coffee", 4),
        record("tea", -3),
        record("water", 0),
        record("coffee", -9),
        record("mud", -1),
        record("tea", 1),
    ];
    let (found, sums) = tally(&records);
    assert_eq!(found, names(&["coffee", "mud", "tea", "water"]));
    assert_eq!(sums, vec![-5, -1, 8, 0]);
}

#[test]
fn tally_adds_beyond_sixty_four_bits() {
    let records = vec![record("a", i64::MAX), record("a", i64::MAX), record("b", i64::MIN), record("b", i64::MIN)];
    let (found, sums) = tally(&records);
    assert_eq!(found, names(&["a", "b"]));
    assert_eq!(sums, vec![2 * (i64::MAX as i128), 2 * (i64::MIN as i128)]);
}

#[test]
fn locate_finds_a_name_or_its_place() {
    let list = names(&["b", "d", "f"]);
    assert_eq!(locate(&list, "a"), (0, false));
    assert_eq!(locate(&list, "b"), (0, true));
    assert_eq!(locate(&list, "c"), (1, false));
    assert_eq!(locate(&list, "d"), (1, true));
    assert_eq!(locate(&list, "e"), (2, false));
    assert_eq!(locate(&list, "f"), (2, true));
    assert_eq!(locate(&list, "g"), (3, false));
    assert_eq!(locate(&list, ""), (0, false));
    assert_eq!(locate(&Vec::new(), "a"), (0, false));
}
