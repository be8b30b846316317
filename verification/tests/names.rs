use option_ledger::names::{compare_names, same_text, NameOrder};

#[test]
fn names_are_ordered_byte_by_byte() {
    assert_eq!(compare_names("a", "b"), NameOrder::Less);
    assert_eq!(compare_names("b", "a"), NameOrder::Greater);
    assert_eq!(compare_names("a", "a"), NameOrder::Equal);
    assert_eq!(compare_names("", ""), NameOrder::Equal);
    assert_eq!(compare_names("", "a"), NameOrder::Less);
    assert_eq!(compare_names("a", ""), NameOrder::Greater);
    assert_eq!(compare_names("app", "apple"), NameOrder::Less);
    assert_eq!(compare_names("apple", "app"), NameOrder::Greater);
    assert_eq!(compare_names("Zebra", "apple"), NameOrder::Less);
    assert_eq!(compare_names("z", "\u{e9}"), NameOrder::Less);
    assert_eq!(compare_names("\u{e9}", "\u{ea}"), NameOrder::Less);
    assert_eq!(compare_names("\u{10000}", "\u{ffff}"), NameOrder::Greater);
}

#[test]
fn name_order_agrees_with_the_order_of_str() {
    let samples = [
        "", "a", "A", "ab", "abc", "abd", "b", "0", "10", "2", " ", "a b", "\u{e9}", "e\u{301}",
        "\u{4e2d}\u{6587}", "\u{1f600}", "zz", "z", "~", "tea", "Tea", "coffee",
    ];
    for a in samples {
        for b in samples {
            let expected = match a.cmp(b) {
                std::cmp::Ordering::Less => NameOrder::Less,
                std::cmp::Ordering::Equal => NameOrder::Equal,
                std::cmp::Ordering::Greater => NameOrder::Greater,
            };
            assert_eq!(compare_names(a, b), expected, "for {:?} and {:?}", a, b);
            assert_eq!(same_text(a, b), a == b);
        }
    }
}
