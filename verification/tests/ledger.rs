use option_ledger::error::Error;
use option_ledger::events::EventRecord;
use option_ledger::ledger::Ledger;
use option_ledger::weights::OptionWeight;

fn record(name: &str, delta: i64, log: Option<&str>) -> EventRecord {
    EventRecord { name: name.to_string(), delta, log: log.map(|text| text.to_string()) }
}

fn weight(name: &str, weight: u64) -> OptionWeight {
    OptionWeight { name: name.to_string(), weight }
}

#[test]
fn new_ledger_is_empty() {
    let ledger = Ledger::new();
    assert_eq!(ledger.len(), 0);
    assert!(ledger.records().is_empty());
    assert_eq!(ledger.weight_of("anything"), 0);
    assert!(ledger.active_weights().is_empty());
}

#[test]
fn append_adds_exactly_one_record() {
    let mut ledger = Ledger::new();
    assert_eq!(ledger.append("tea", 3, Some("first")), Ok(()));
    assert_eq!(ledger.len(), 1);
    assert_eq!(ledger.records()[0], record("tea", 3, Some("first")));
    assert_eq!(ledger.append("tea", -1, None), Ok(()));
    assert_eq!(ledger.len(), 2);
    assert_eq!(ledger.records()[0], record("tea", 3, Some("first")));
    assert_eq!(ledger.records()[1], record("tea", -1, None));
}

#[test]
fn weight_is_the_sum_of_the_deltas_of_a_name() {
    let mut ledger = Ledger::new();
    ledger.append("tea", 10, None).unwrap();
    ledger.append("coffee", 4, None).unwrap();
    ledger.append("tea", -3, None).unwrap();
    ledger.append("tea", 0, Some("note")).unwrap();
    ledger.append("coffee", -9, None).unwrap();
    assert_eq!(ledger.weight_of("tea"), 7);
    assert_eq!(ledger.weight_of("coffee"), -5);
    assert_eq!(ledger.weight_of("water"), 0);
}

#[test]
fn weight_does_not_depend_on_the_order_of_the_events() {
    let forward = vec![
        record("tea", 10, None),
        record("coffee", 4, None),
        record("tea", -3, None),
        record("coffee", 1, Some("x")),
    ];
    let mut backward = forward.clone();
    backward.reverse();
    let a = Ledger::from_records(forward).unwrap();
    let b = Ledger::from_records(backward).unwrap();
    assert_eq!(a.weight_of("tea"), 7);
    assert_eq!(b.weight_of("tea"), 7);
    assert_eq!(a.weight_of("coffee"), 5);
    assert_eq!(b.weight_of("coffee"), 5);
    assert_eq!(a.active_weights(), b.active_weights());
}

#[test]
fn names_are_compared_exactly() {
    let mut ledger = Ledger::new();
    ledger.append("tea", 2, None).unwrap();
    ledger.append("Tea", 3, None).unwrap();
    ledger.append("tea ", 4, None).unwrap();
    assert_eq!(ledger.weight_of("tea"), 2);
    assert_eq!(ledger.weight_of("Tea"), 3);
    assert_eq!(ledger.weight_of("tea "), 4);
    assert_eq!(ledger.weight_of(""), 0);
}

#[test]
fn add_records_the_given_weight_without_a_log() {
    let mut ledger = Ledger::new();
    assert_eq!(ledger.add("coffee", 5), Ok(()));
    assert_eq!(ledger.records()[0], record("coffee", 5, None));
    assert_eq!(ledger.weight_of("coffee"), 5);
    assert_eq!(ledger.add("coffee", 5), Ok(()));
    assert_eq!(ledger.weight_of("coffee"), 10);
}

#[test]
fn kill_brings_the_weight_to_zero_and_keeps_the_history() {
    let mut ledger = Ledger::new();
    ledger.add("coffee", 5).unwrap();
    ledger.hate("coffee", None).unwrap();
    ledger.kill("coffee");
    assert_eq!(ledger.weight_of("coffee"), 0);
    assert_eq!(ledger.len(), 3);
    assert_eq!(ledger.records()[2], record("coffee", -4, None));
    assert!(ledger.active_weights().is_empty());
}

#[test]
fn kill_of_a_negative_weight_adds_it_back() {
    let mut ledger = Ledger::new();
    ledger.append("tea", -7, None).unwrap();
    ledger.kill("tea");
    assert_eq!(ledger.records()[1], record("tea", 7, None));
    assert_eq!(ledger.weight_of("tea"), 0);
}

#[test]
fn kill_of_an_unknown_name_records_a_zero() {
    let mut ledger = Ledger::new();
    ledger.kill("ghost");
    assert_eq!(ledger.len(), 1);
    assert_eq!(ledger.records()[0], record("ghost", 0, None));
    assert_eq!(ledger.weight_of("ghost"), 0);
}

#[test]
fn kill_at_the_largest_weights() {
    let mut ledger = Ledger::new();
    ledger.append("big", i64::MAX, None).unwrap();
    ledger.append("small", -i64::MAX, None).unwrap();
    ledger.kill("big");
    ledger.kill("small");
    assert_eq!(ledger.weight_of("big"), 0);
    assert_eq!(ledger.weight_of("small"), 0);
    assert_eq!(ledger.records()[2].delta, -i64::MAX);
    assert_eq!(ledger.records()[3].delta, i64::MAX);
}

#[test]
fn log_keeps_the_weight() {
    let mut ledger = Ledger::new();
    ledger.add("tea", 5).unwrap();
    ledger.log("tea", "too hot");
    assert_eq!(ledger.weight_of("tea"), 5);
    assert_eq!(ledger.records()[1], record("tea", 0, Some("too hot")));
}

#[test]
fn like_and_hate_move_the_weight_by_one() {
    let mut ledger = Ledger::new();
    ledger.add("tea", 5).unwrap();
    assert_eq!(ledger.like("tea", Some("nice")), Ok(()));
    assert_eq!(ledger.weight_of("tea"), 6);
    assert_eq!(ledger.hate("tea", None), Ok(()));
    assert_eq!(ledger.hate("tea", Some("cold")), Ok(()));
    assert_eq!(ledger.weight_of("tea"), 4);
    assert_eq!(ledger.records()[1], record("tea", 1, Some("nice")));
    assert_eq!(ledger.records()[2], record("tea", -1, None));
    assert_eq!(ledger.records()[3], record("tea", -1, Some("cold")));
}

#[test]
fn set_brings_an_active_option_to_the_target() {
    let mut ledger = Ledger::new();
    ledger.add("tea", 10).unwrap();
    ledger.set("tea", Some("less"), 2);
    assert_eq!(ledger.weight_of("tea"), 2);
    assert_eq!(ledger.records()[1], record("tea", -8, Some("less")));
    assert_eq!(ledger.active_weights(), vec![weight("tea", 2)]);
}

#[test]
fn set_leaves_an_inactive_option_alone() {
    let mut ledger = Ledger::new();
    ledger.add("tea", 10).unwrap();
    ledger.kill("tea");
    ledger.set("tea", None, 3);
    ledger.set("never seen", None, 3);
    ledger.append("sour", -2, None).unwrap();
    ledger.set("sour", None, 3);
    assert_eq!(ledger.len(), 3);
    assert_eq!(ledger.weight_of("tea"), 0);
    assert_eq!(ledger.weight_of("never seen"), 0);
    assert_eq!(ledger.weight_of("sour"), -2);
}

#[test]
fn set_to_zero_makes_an_option_inactive() {
    let mut ledger = Ledger::new();
    ledger.add("tea", 10).unwrap();
    ledger.set("tea", None, 0);
    assert_eq!(ledger.weight_of("tea"), 0);
    assert!(ledger.active_weights().is_empty());
}

#[test]
fn reset_brings_every_active_option_to_the_target() {
    let mut ledger = Ledger::new();
    ledger.add("tea", 10).unwrap();
    ledger.add("coffee", 5).unwrap();
    ledger.add("water", 1).unwrap();
    ledger.kill("water");
    ledger.append("mud", -3, None).unwrap();
    let before = ledger.len();
    ledger.reset(7);
    assert_eq!(ledger.len(), before + 2);
    assert_eq!(ledger.records()[before], record("coffee", 2, Some("Reset")));
    assert_eq!(ledger.records()[before + 1], record("tea", -3, Some("Reset")));
    assert_eq!(ledger.active_weights(), vec![weight("coffee", 7), weight("tea", 7)]);
    assert_eq!(ledger.weight_of("water"), 0);
    assert_eq!(ledger.weight_of("mud"), -3);
}

#[test]
fn reset_of_a_ledger_without_active_options_adds_nothing() {
    let mut ledger = Ledger::new();
    ledger.reset(4);
    assert_eq!(ledger.len(), 0);
    ledger.append("mud", -3, None).unwrap();
    ledger.reset(4);
    assert_eq!(ledger.len(), 1);
}

#[test]
fn reset_to_zero_leaves_no_option_active() {
    let mut ledger = Ledger::new();
    ledger.add("tea", 10).unwrap();
    ledger.add("coffee", 5).unwrap();
    ledger.reset(0);
    assert!(ledger.active_weights().is_empty());
    assert_eq!(ledger.weight_of("tea"), 0);
    assert_eq!(ledger.weight_of("coffee"), 0);
    assert_eq!(ledger.len(), 4);
}

#[test]
fn reset_to_the_largest_target() {
    let mut ledger = Ledger::new();
    ledger.append("tea", i64::MAX, None).unwrap();
    ledger.reset(u32::MAX);
    assert_eq!(ledger.weight_of("tea"), u32::MAX as i64);
    assert_eq!(ledger.records()[1].delta, u32::MAX as i64 - i64::MAX);
}

#[test]
fn earlier_records_never_change() {
    let mut ledger = Ledger::new();
    ledger.add("tea", 10).unwrap();
    ledger.like("tea", Some("a")).unwrap();
    let snapshot: Vec<EventRecord> = ledger.records().clone();
    ledger.add("coffee", 5).unwrap();
    ledger.hate("tea", None).unwrap();
    ledger.log("tea", "b");
    ledger.set("tea", None, 3);
    ledger.reset(8);
    ledger.kill("tea");
    let _ = ledger.append("tea", i64::MAX, None);
    assert!(ledger.len() >= snapshot.len());
    assert_eq!(&ledger.records()[..snapshot.len()], &snapshot[..]);
}

#[test]
fn active_weights_are_listed_by_ascending_name() {
    let mut ledger = Ledger::new();
    for name in ["pear", "apple", "Zebra", "fig", "apple", "\u{e9}clair", "app", "apples"] {
        ledger.add(name, 2).unwrap();
    }
    let listing = ledger.active_weights();
    let names: Vec<&str> = listing.iter().map(|entry| entry.name.as_str()).collect();
    assert_eq!(names, vec!["Zebra", "app", "apple", "apples", "fig", "pear", "\u{e9}clair"]);
    let mut sorted = names.clone();
    sorted.sort();
    assert_eq!(names, sorted);
    assert_eq!(listing[2], weight("apple", 4));
}

#[test]
fn active_weights_leave_out_what_is_not_positive() {
    let mut ledger = Ledger::new();
    ledger.add("a", 1).unwrap();
    ledger.add("b", 1).unwrap();
    ledger.hate("b", None).unwrap();
    ledger.add("c", 1).unwrap();
    ledger.hate("c", None).unwrap();
    ledger.hate("c", None).unwrap();
    assert_eq!(ledger.active_weights(), vec![weight("a", 1)]);
}

#[test]
fn append_fails_where_the_weight_would_not_be_representable() {
    let mut ledger = Ledger::new();
    assert_eq!(ledger.append("tea", i64::MAX, None), Ok(()));
    assert_eq!(ledger.like("tea", None), Err(Error::Write));
    assert_eq!(ledger.add("tea", 1), Err(Error::Write));
    assert_eq!(ledger.append("tea", 1, Some("x")), Err(Error::Write));
    assert_eq!(ledger.len(), 1);
    assert_eq!(ledger.weight_of("tea"), i64::MAX);
    assert_eq!(ledger.append("other", 1, None), Ok(()));
}

#[test]
fn the_most_negative_integer_is_not_a_weight() {
    let mut ledger = Ledger::new();
    assert_eq!(ledger.append("tea", i64::MIN, None), Err(Error::Write));
    assert_eq!(ledger.len(), 0);
    assert_eq!(ledger.append("tea", -i64::MAX, None), Ok(()));
    assert_eq!(ledger.hate("tea", None), Err(Error::Write));
    assert_eq!(ledger.append("tea", 1, None), Ok(()));
    assert_eq!(ledger.append("tea", i64::MIN, None), Err(Error::Write));
    assert_eq!(ledger.weight_of("tea"), -i64::MAX + 1);
}

#[test]
fn a_delta_may_be_the_most_negative_integer() {
    let mut ledger = Ledger::new();
    ledger.append("tea", 5, None).unwrap();
    assert_eq!(ledger.append("tea", i64::MIN, None), Ok(()));
    assert_eq!(ledger.weight_of("tea"), i64::MIN + 5);
}

#[test]
fn from_records_keeps_the_records_in_order() {
    let records = vec![record("b", 1, None), record("a", 2, Some("x")), record("b", -1, None)];
    let ledger = Ledger::from_records(records.clone()).unwrap();
    assert_eq!(ledger.records(), &records);
    assert_eq!(ledger.len(), 3);
    assert_eq!(ledger.weight_of("a"), 2);
    assert_eq!(ledger.weight_of("b"), 0);
}

#[test]
fn from_records_refuses_a_weight_out_of_range() {
    let too_much = vec![record("a", i64::MAX, None), record("b", 1, None), record("a", 1, None)];
    assert!(matches!(Ledger::from_records(too_much), Err(Error::Query)));
    let too_little = vec![record("a", i64::MIN, None)];
    assert!(matches!(Ledger::from_records(too_little), Err(Error::Query)));
}

#[test]
fn from_records_looks_at_the_sums_not_at_the_way_to_them() {
    let records = vec![
        record("a", i64::MAX, None),
        record("a", i64::MAX, None),
        record("a", i64::MIN, None),
        record("a", i64::MIN, None),
    ];
    let ledger = Ledger::from_records(records).unwrap();
    assert_eq!(ledger.weight_of("a"), -2);
}
