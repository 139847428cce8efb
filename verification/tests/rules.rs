use reniced::config::parse_rule;

#[test]
fn parses_combined_rule() {
    let rule = parse_rule("n-10r4o5", "^seti").unwrap();

    assert_eq!(rule.nice, Some(-10));
    assert_eq!(rule.oom_adj, Some(5));
}

#[test]
fn rejects_rule_with_no_actions() {
    let result = parse_rule("xyz", "someprocess");
    assert!(result.is_err());
    let msg = result.unwrap_err().message();
    assert!(msg.contains("no recognised actions"));
}
