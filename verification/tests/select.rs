use option_ledger::error::Error;
use option_ledger::select::{choose_weighted, select, total};
use option_ledger::weights::OptionWeight;

fn weights(entries: &[(&str, u64)]) -> Vec<OptionWeight> {
    entries.iter().map(|(name, weight)| OptionWeight { name: name.to_string(), weight: *weight }).collect()
}

#[test]
fn select_takes_the_first_entry_whose_cumulative_sum_exceeds_the_draw() {
    let listing = weights(&[("A", 3), ("B", 7)]);
    assert_eq!(select(&listing, 0), Some(0));
    assert_eq!(select(&listing, 1), Some(0));
    assert_eq!(select(&listing, 2), Some(0));
    assert_eq!(select(&listing, 3), Some(1));
    assert_eq!(select(&listing, 9), Some(1));
}

#[test]
fn select_finds_nothing_at_or_above_the_total() {
    let listing = weights(&[("A", 3), ("B", 7)]);
    assert_eq!(select(&listing, 10), None);
    assert_eq!(select(&listing, u64::MAX), None);
    assert_eq!(select(&Vec::new(), 0), None);
}

#[test]
fn select_gives_each_entry_as_many_draws_as_its_weight() {
    let listing = weights(&[("a", 2), ("b", 0), ("c", 5), ("d", 1), ("e", 0)]);
    let mut counts = vec![0u64; listing.len()];
    for draw in 0..8 {
        counts[select(&listing, draw).unwrap()] += 1;
    }
    assert_eq!(counts, vec![2, 0, 5, 1, 0]);
}

#[test]
fn select_never_takes_an_entry_of_weight_zero() {
    let listing = weights(&[("zero", 0), ("one", 1), ("none", 0)]);
    assert_eq!(select(&listing, 0), Some(1));
    assert_eq!(select(&listing, 1), None);
}

#[test]
fn select_works_beyond_sixty_four_bits() {
    let listing = weights(&[("a", u64::MAX), ("b", u64::MAX)]);
    assert_eq!(select(&listing, 0), Some(0));
    assert_eq!(select(&listing, u64::MAX - 1), Some(0));
    assert_eq!(select(&listing, u64::MAX), Some(1));
}

#[test]
fn total_adds_all_the_weights() {
    assert_eq!(total(&Vec::new()), 0);
    assert_eq!(total(&weights(&[("A", 3), ("B", 7)])), 10);
    assert_eq!(total(&weights(&[("a", u64::MAX), ("b", u64::MAX)])), 2 * (u64::MAX as u128));
}

#[test]
fn choosing_among_nothing_is_an_empty_selection() {
    assert_eq!(choose_weighted(&Vec::new()), Err(Error::EmptySelection));
    assert_eq!(choose_weighted(&weights(&[("a", 0), ("b", 0)])), Err(Error::EmptySelection));
}

#[test]
fn choosing_among_more_weight_than_a_draw_covers_fails() {
    assert_eq!(choose_weighted(&weights(&[("a", u64::MAX), ("b", 1)])), Err(Error::Query));
    assert!(choose_weighted(&weights(&[("a", u64::MAX)])).is_ok());
}

#[test]
fn a_single_option_of_weight_one_is_always_chosen() {
    let listing = weights(&[("only", 1)]);
    for _ in 0..200 {
        assert_eq!(choose_weighted(&listing), Ok("only".to_string()));
    }
}

#[test]
fn an_option_of_weight_zero_is_never_chosen() {
    let listing = weights(&[("never", 0), ("always", 4), ("nor this", 0)]);
    for _ in 0..500 {
        assert_eq!(choose_weighted(&listing), Ok("always".to_string()));
    }
}

#[test]
fn choices_follow_the_weights() {
    let listing = weights(&[("A", 3), ("B", 7)]);
    let rounds = 20000;
    let mut a = 0;
    let mut b = 0;
    for _ in 0..rounds {
        match choose_weighted(&listing).unwrap().as_str() {
            "A" => a += 1,
            "B" => b += 1,
            other => panic!("chose {}", other),
        }
    }
    assert_eq!(a + b, rounds);
    assert!(a > rounds * 25 / 100 && a < rounds * 35 / 100, "A was chosen {} times", a);
    assert!(b > rounds * 65 / 100 && b < rounds * 75 / 100, "B was chosen {} times", b);
}

#[test]
fn every_option_of_positive_weight_comes_up() {
    let listing = weights(&[("a", 1), ("b", 1), ("c", 1), ("d", 1)]);
    let mut seen = vec![false; 4];
    for _ in 0..2000 {
        let name = choose_weighted(&listing).unwrap();
        let at = listing.iter().position(|entry| entry.name == name).unwrap();
        seen[at] = true;
    }
    assert_eq!(seen, vec![true, true, true, true]);
}
