use option_ledger::command::Command;
use option_ledger::error::Error;
use option_ledger::parse::parse_weight;

#[test]
fn parse_weight_reads_decimal_integers() {
    assert_eq!(parse_weight("0"), Ok(0));
    assert_eq!(parse_weight("5"), Ok(5));
    assert_eq!(parse_weight("10"), Ok(10));
    assert_eq!(parse_weight("007"), Ok(7));
    assert_eq!(parse_weight("+12"), Ok(12));
    assert_eq!(parse_weight("4294967295"), Ok(u32::MAX));
    assert_eq!(parse_weight("0000000000004294967295"), Ok(u32::MAX));
}

#[test]
fn parse_weight_refuses_everything_else() {
    for text in [
        "", "+", "-", "-1", "-0", "++1", "+-1", "1+", " 1", "1 ", "1.0", "1e3", "0x10", "1_000",
        "ten", "4294967296", "99999999999999999999999999", "\u{661}\u{662}", "1\u{a0}", "\n",
    ] {
        assert_eq!(parse_weight(text), Err(Error::InvalidArgument), "for {:?}", text);
    }
}

#[test]
fn parse_weight_agrees_with_the_standard_parser() {
    let mut samples: Vec<String> = Vec::new();
    for n in (0u64..5000).chain(4294967290..4294967300) {
        samples.push(format!("{}", n));
        samples.push(format!("+{}", n));
        samples.push(format!("-{}", n));
        samples.push(format!("0{}", n));
        samples.push(format!("{}a", n));
    }
    for text in samples {
        let expected = u32::from_str_radix(&text, 10).map_err(|_| Error::InvalidArgument);
        assert_eq!(parse_weight(&text), expected, "for {:?}", text);
    }
}

#[test]
fn commands_with_a_name() {
    assert_eq!(
        Command::parse("add", Some("tea"), None, None),
        Ok(Command::Add { name: "tea".to_string() })
    );
    assert_eq!(
        Command::parse("kill", Some("tea"), None, None),
        Ok(Command::Kill { name: "tea".to_string() })
    );
    assert_eq!(Command::parse("add", None, None, None), Err(Error::InvalidArgument));
    assert_eq!(Command::parse("kill", None, Some("3"), Some("x")), Err(Error::InvalidArgument));
}

#[test]
fn commands_with_a_weight() {
    assert_eq!(Command::parse("default", None, Some("10"), None), Ok(Command::Default { weight: 10 }));
    assert_eq!(Command::parse("default", None, None, None), Err(Error::InvalidArgument));
    assert_eq!(Command::parse("default", None, Some("-1"), None), Err(Error::InvalidArgument));
    assert_eq!(Command::parse("default", None, Some("many"), None), Err(Error::InvalidArgument));
    assert_eq!(Command::parse("reset", None, None, None), Ok(Command::Reset { target: None }));
    assert_eq!(Command::parse("reset", None, Some("3"), None), Ok(Command::Reset { target: Some(3) }));
    assert_eq!(Command::parse("reset", None, Some("3.5"), None), Err(Error::InvalidArgument));
    assert_eq!(
        Command::parse("set", Some("tea"), Some("2"), None),
        Ok(Command::Assign { name: "tea".to_string(), weight: 2, message: None })
    );
    assert_eq!(
        Command::parse("set", Some("tea"), Some("2"), Some("why")),
        Ok(Command::Assign { name: "tea".to_string(), weight: 2, message: Some("why".to_string()) })
    );
    assert_eq!(Command::parse("set", Some("tea"), None, None), Err(Error::InvalidArgument));
    assert_eq!(Command::parse("set", None, Some("2"), None), Err(Error::InvalidArgument));
    assert_eq!(Command::parse("set", Some("tea"), Some("two"), None), Err(Error::InvalidArgument));
}

#[test]
fn commands_with_a_message() {
    assert_eq!(
        Command::parse("log", Some("tea"), None, Some("too hot")),
        Ok(Command::Log { name: "tea".to_string(), text: "too hot".to_string() })
    );
    assert_eq!(Command::parse("log", Some("tea"), None, None), Err(Error::InvalidArgument));
    assert_eq!(Command::parse("log", None, None, Some("x")), Err(Error::InvalidArgument));
    assert_eq!(
        Command::parse("like", Some("tea"), None, None),
        Ok(Command::Like { name: "tea".to_string(), message: None })
    );
    assert_eq!(
        Command::parse("like", Some("tea"), None, Some("good")),
        Ok(Command::Like { name: "tea".to_string(), message: Some("good".to_string()) })
    );
    assert_eq!(
        Command::parse("hate", Some("tea"), None, Some("bad")),
        Ok(Command::Hate { name: "tea".to_string(), message: Some("bad".to_string()) })
    );
    assert_eq!(Command::parse("hate", None, None, Some("bad")), Err(Error::InvalidArgument));
}

#[test]
fn commands_without_words() {
    assert_eq!(Command::parse("list", None, None, None), Ok(Command::List));
    assert_eq!(Command::parse("choose", None, None, None), Ok(Command::Choose));
    assert_eq!(Command::parse("list", Some("x"), Some("y"), Some("z")), Ok(Command::List));
}

#[test]
fn unknown_subcommands_are_refused() {
    for word in ["", "Add", "ADD", "add ", "remove", "lis", "lists", "choos"] {
        assert_eq!(
            Command::parse(word, Some("tea"), Some("1"), Some("m")),
            Err(Error::InvalidArgument),
            "for {:?}",
            word
        );
    }
}
