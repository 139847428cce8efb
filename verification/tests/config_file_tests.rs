use reniced::config::{find_rulefile_inner, parse_rules, LineProblem, ParseRuleError, RulefileError};

#[test]
fn reads_single_valid_rule() {
    let rules = parse_rules("5 myprocess\n").rules;
    assert_eq!(rules.len(), 1);
    assert_eq!(rules[0].nice, Some(5));
}

#[test]
fn reads_multiple_rules() {
    let rules = parse_rules("5 proc_a\n-10 proc_b\nb2 proc_c\n").rules;
    assert_eq!(rules.len(), 3);
}

#[test]
fn strips_comment_lines() {
    let rules = parse_rules("# this is a comment\n5 myprocess\n").rules;
    assert_eq!(rules.len(), 1);
}

#[test]
fn strips_blank_lines() {
    let rules = parse_rules("\n\n5 myprocess\n\n").rules;
    assert_eq!(rules.len(), 1);
}

#[test]
fn strips_inline_leading_whitespace() {
    // Lines indented with spaces should still parse.
    let rules = parse_rules("   5 myprocess\n").rules;
    assert_eq!(rules.len(), 1);
}

#[test]
fn empty_file_returns_empty_vec() {
    let rules = parse_rules("").rules;
    assert!(rules.is_empty());
}

#[test]
fn comments_only_returns_empty_vec() {
    let rules = parse_rules("# comment one\n# comment two\n").rules;
    assert!(rules.is_empty());
}

#[test]
fn skips_no_action_line_and_continues() {
    // "xyz badline" has no valid action: skipped, not fatal.
    let rules = parse_rules("xyz badline\n5 goodline\n").rules;
    assert_eq!(rules.len(), 1);
    assert_eq!(rules[0].nice, Some(5));
}

#[test]
fn skips_unseparated_line_and_continues() {
    // A line with no whitespace has no regex: skipped, not fatal.
    let rules = parse_rules("noseperator\n5 goodline\n").rules;
    assert_eq!(rules.len(), 1);
}

#[test]
fn skips_invalid_regex_line_and_continues() {
    let rules = parse_rules("5 [invalid\n5 goodline\n").rules;
    assert_eq!(rules.len(), 1);
}

#[test]
fn all_bad_lines_returns_empty_vec() {
    let rules = parse_rules("noseperator\nxyz bad\n").rules;
    assert!(rules.is_empty());
}

#[test]
fn find_rulefile_returns_explicit_path() {
    let result = find_rulefile_inner(Some("/tmp/some/reniced.conf"), false, None).unwrap();
    assert_eq!(result, "/tmp/some/reniced.conf");
    let result = find_rulefile_inner(Some("./custom.conf"), true, Some("/home/u")).unwrap();
    assert_eq!(result, "./custom.conf");
}

#[test]
fn find_rulefile_uses_home_when_not_root() {
    let result = find_rulefile_inner(None, false, Some("/home/user")).unwrap();
    assert!(result.ends_with(".reniced"), "expected path ending with .reniced, got {:?}", result);
    assert_eq!(result, "/home/user/.reniced");
    assert_eq!(find_rulefile_inner(None, false, Some("/home/user/")).unwrap(), "/home/user/.reniced");
    assert_eq!(find_rulefile_inner(None, false, Some("")).unwrap(), ".reniced");
}

#[test]
fn find_rulefile_uses_etc_when_root() {
    assert_eq!(find_rulefile_inner(None, true, None).unwrap(), "/etc/reniced.conf");
}

#[test]
fn find_rulefile_errors_when_home_missing() {
    let result = find_rulefile_inner(None, false, None);
    assert!(result.is_err());
    assert_eq!(result.unwrap_err(), RulefileError::HomeNotSet);
    assert!(RulefileError::HomeNotSet.message().contains("HOME"));
}

#[test]
fn warnings_carry_line_numbers_and_reasons() {
    let file = parse_rules("# header\nnoseperator\n\nxyz bad\n5 [invalid\nb300 p\n5 good\n");
    assert_eq!(file.rules.len(), 1);
    let lines: Vec<usize> = file.warnings.iter().map(|w| w.line).collect();
    assert_eq!(lines, vec![2, 4, 5, 6]);
    assert!(matches!(file.warnings[0].problem, LineProblem::NoSeparator));
    assert_eq!(file.warnings[0].message(), "no command/regex separation found");
    assert!(matches!(file.warnings[1].problem, LineProblem::Rule(ParseRuleError::NoActions(_))));
    match &file.warnings[2].problem {
        LineProblem::Rule(ParseRuleError::InvalidRegex { pattern, .. }) => assert_eq!(pattern, "[invalid"),
        other => panic!("unexpected {:?}", other),
    }
    assert!(matches!(file.warnings[3].problem, LineProblem::Rule(ParseRuleError::InvalidNumber(_))));
}

#[test]
fn regex_is_the_trimmed_rest_of_the_line() {
    let file = parse_rules("  n-5r2 \t ^jackd$ with spaces  \r\n5\u{a0}x\n");
    assert_eq!(file.rules.len(), 2);
    assert_eq!(file.rules[0].regex.as_str(), "^jackd$ with spaces");
    assert_eq!(file.rules[0].nice, Some(-5));
    assert_eq!(file.rules[1].regex.as_str(), "x");
    assert!(file.warnings.is_empty());
}

#[test]
fn concatenated_files_give_concatenated_rules() {
    let a = "5 a\nxyz b\n";
    let b = "o3 c\n# c\ni d";
    let joined = format!("{}\n{}", a, b);
    let ra = parse_rules(a).rules;
    let rb = parse_rules(b).rules;
    let rj = parse_rules(&joined).rules;
    assert_eq!(rj.len(), ra.len() + rb.len());
    let left: Vec<(Option<i32>, Option<i32>, String)> = ra
        .iter()
        .chain(rb.iter())
        .map(|r| (r.nice, r.oom_adj, r.regex.as_str().to_string()))
        .collect();
    let right: Vec<(Option<i32>, Option<i32>, String)> =
        rj.iter().map(|r| (r.nice, r.oom_adj, r.regex.as_str().to_string())).collect();
    assert_eq!(left, right);
}

#[test]
fn concatenated_files_renumber_the_second_files_warnings() {
    let a = "5 a\nbad";
    let b = "xyz q\n5 r";
    let wa: Vec<usize> = parse_rules(a).warnings.iter().map(|w| w.line).collect();
    let wb: Vec<usize> = parse_rules(b).warnings.iter().map(|w| w.line).collect();
    let joined = format!("{}\n{}", a, b);
    let wj: Vec<usize> = parse_rules(&joined).warnings.iter().map(|w| w.line).collect();
    assert_eq!(wa, vec![2]);
    assert_eq!(wb, vec![1]);
    // `a` has two lines, so the warning of `b`'s first line is on line 3.
    assert_eq!(wj, vec![2, 3]);
}

#[test]
fn letter_without_number_line_is_skipped_with_a_warning() {
    let file = parse_rules("nabc proc\n5 good\n");
    assert_eq!(file.rules.len(), 1);
    assert_eq!(file.warnings.len(), 1);
    assert_eq!(file.warnings[0].line, 1);
    assert!(matches!(file.warnings[0].problem, LineProblem::Rule(ParseRuleError::InvalidNumber(_))));
}
