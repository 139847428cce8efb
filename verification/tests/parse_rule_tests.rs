use reniced::config::{parse_rule, ParseRuleError};
use reniced::model::{IoClass, Pattern, Rule};
use reniced::number::NumberError;

#[test]
fn documented_example_nice_and_best_effort() {
    let rule = parse_rule("n-10 b4", "^firefox.*").unwrap();
    assert_eq!(rule.nice, Some(-10));
    assert_eq!(rule.io_class, Some(IoClass::BestEffort));
    assert_eq!(rule.io_nice, Some(4));
    assert_eq!(rule.oom_adj, None);
    assert_eq!(rule.regex.as_str(), "^firefox.*");
}

#[test]
fn bare_number_is_a_nice_value() {
    assert_eq!(parse_rule("5", "bash").unwrap().nice, Some(5));
    assert_eq!(parse_rule("-10", "jackd").unwrap().nice, Some(-10));
    assert_eq!(parse_rule("0", "x").unwrap().nice, Some(0));
    let a = parse_rule("5b2", "p").unwrap();
    let b = parse_rule("n5b2", "p").unwrap();
    assert_eq!((a.nice, a.io_class, a.io_nice), (b.nice, b.io_class, b.io_nice));
    assert_eq!(a.io_class, Some(IoClass::BestEffort));
    assert_eq!(a.io_nice, Some(2));
}

#[test]
fn readme_examples_parse() {
    let r = parse_rule("n-10r4o-10", "^pipewire$").unwrap();
    assert_eq!((r.nice, r.oom_adj, r.io_class, r.io_nice), (Some(-10), Some(-10), Some(IoClass::Realtime), Some(4)));
    let r = parse_rule("10i", "rsync").unwrap();
    assert_eq!((r.nice, r.io_class, r.io_nice), (Some(10), Some(IoClass::Idle), None));
    let r = parse_rule("o-17", "important_service").unwrap();
    assert_eq!((r.nice, r.oom_adj, r.io_class), (None, Some(-17), None));
}

#[test]
fn later_tokens_override_earlier_ones() {
    let r = parse_rule("n1 n2 b4 i", "p").unwrap();
    assert_eq!(r.nice, Some(2));
    assert_eq!(r.io_class, Some(IoClass::Idle));
    // The level of an earlier class token stays when the later one has none.
    assert_eq!(r.io_nice, Some(4));
}

#[test]
fn n_or_o_without_a_number_is_an_invalid_number() {
    // The documented examples: `nabc` and `oxyz` are invalid numbers.
    match parse_rule("nabc", "x") {
        Err(ParseRuleError::InvalidNumber(_)) => {}
        other => panic!("unexpected {:?}", other),
    }
    match parse_rule("oxyz", "x") {
        Err(ParseRuleError::InvalidNumber(_)) => {}
        other => panic!("unexpected {:?}", other),
    }
    match parse_rule("n-x o7", "p") {
        Err(ParseRuleError::InvalidNumber(NumberError::InvalidDigit)) => {}
        other => panic!("unexpected {:?}", other),
    }
    match parse_rule("b2 n", "p") {
        Err(ParseRuleError::InvalidNumber(NumberError::Empty)) => {}
        other => panic!("unexpected {:?}", other),
    }
    let e = parse_rule("nabc", "x").unwrap_err();
    assert!(e.message().starts_with("invalid number in command: "));
}

#[test]
fn other_letters_outside_tokens_are_ignored() {
    let r = parse_rule("xb3y", "p").unwrap();
    assert_eq!(r.io_class, Some(IoClass::BestEffort));
    assert_eq!(r.io_nice, Some(3));
    assert_eq!(r.nice, None);
}

#[test]
fn nice_overflow_is_an_invalid_number() {
    match parse_rule("n99999999999", "p") {
        Err(ParseRuleError::InvalidNumber(NumberError::PosOverflow)) => {}
        other => panic!("unexpected {:?}", other),
    }
    match parse_rule("o-99999999999", "p") {
        Err(ParseRuleError::InvalidNumber(NumberError::NegOverflow)) => {}
        other => panic!("unexpected {:?}", other),
    }
    assert_eq!(parse_rule("n-2147483648", "p").unwrap().nice, Some(i32::MIN));
    assert_eq!(parse_rule("n2147483647", "p").unwrap().nice, Some(i32::MAX));
}

#[test]
fn io_level_overflow_is_an_invalid_number() {
    match parse_rule("b256", "p") {
        Err(ParseRuleError::InvalidNumber(NumberError::PosOverflow)) => {}
        other => panic!("unexpected {:?}", other),
    }
    assert_eq!(parse_rule("b255", "p").unwrap().io_nice, Some(255));
    let e = parse_rule("b256", "p").unwrap_err();
    assert_eq!(e.message(), "invalid number in command: number too large to fit in target type");
}

#[test]
fn non_ascii_decimal_digit_is_an_invalid_digit() {
    // U+0663 ARABIC-INDIC DIGIT THREE is a decimal digit of the token grammar
    // but not of the number reader.
    match parse_rule("n5\u{663}", "p") {
        Err(ParseRuleError::InvalidNumber(NumberError::InvalidDigit)) => {}
        other => panic!("unexpected {:?}", other),
    }
}

#[test]
fn number_error_comes_before_missing_actions_and_bad_regex() {
    match parse_rule("b300", "[invalid") {
        Err(ParseRuleError::InvalidNumber(NumberError::PosOverflow)) => {}
        other => panic!("unexpected {:?}", other),
    }
    match parse_rule("xyz", "[invalid") {
        Err(ParseRuleError::NoActions(c)) => assert_eq!(c, "xyz"),
        other => panic!("unexpected {:?}", other),
    }
}

#[test]
fn no_actions_carries_the_normalized_command() {
    // "-x" starts with '-', so it reads as "n-x": an `n` without a number.
    match parse_rule("-x", "p") {
        Err(ParseRuleError::InvalidNumber(NumberError::InvalidDigit)) => {}
        other => panic!("unexpected {:?}", other),
    }
    match parse_rule("xyz", "p") {
        Err(ParseRuleError::NoActions(c)) => assert_eq!(c, "xyz"),
        other => panic!("unexpected {:?}", other),
    }
    let e = parse_rule("xyz", "p").unwrap_err();
    assert_eq!(e.message(), "no recognised actions (nice/oom/ionice) in command 'xyz'");
}

#[test]
fn invalid_regex_is_reported_with_its_pattern() {
    match parse_rule("5", "[invalid") {
        Err(ParseRuleError::InvalidRegex { pattern, .. }) => assert_eq!(pattern, "[invalid"),
        other => panic!("unexpected {:?}", other),
    }
    let msg = parse_rule("5", "[invalid").unwrap_err().message();
    assert!(msg.starts_with("invalid regex '[invalid': "));
    assert!(msg.len() > "invalid regex '[invalid': ".len());
}

#[test]
fn rules_can_be_built_and_cloned() {
    let rule = Rule {
        regex: Pattern::new("firefox").unwrap(),
        nice: Some(-5),
        oom_adj: None,
        io_class: None,
        io_nice: None,
    };
    let copy = rule.clone();
    assert_eq!(copy.regex.as_str(), "firefox");
    assert_eq!(copy.nice, Some(-5));
    assert!(copy.regex.matches("/usr/bin/firefox"));
    assert!(!copy.regex.matches("chrome"));
    assert!(Pattern::new("[invalid").is_err());
}
