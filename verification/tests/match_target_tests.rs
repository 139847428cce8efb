use reniced::actions::{apply_rules, without_io_priority, Action};
use reniced::cli::{Cli, LogTarget, MatchTarget};
use reniced::config::parse_rule;
use reniced::model::{IoClass, ProcessEntry, ProcessKind};
use reniced::path::PathStyle;

fn noop_cli(target: MatchTarget) -> Cli {
    Cli {
        noop: true,
        verbose: false,
        threads: false,
        match_target: target,
        log: LogTarget::Stderr,
        config: None,
        path_style: PathStyle::Unix,
    }
}

fn verbose_noop_cli(target: MatchTarget) -> Cli {
    Cli {
        noop: true,
        verbose: true,
        threads: false,
        match_target: target,
        log: LogTarget::Stderr,
        config: None,
        path_style: PathStyle::Unix,
    }
}

fn make_process(name: &str, cmd: &str, exe: Option<&str>) -> ProcessEntry {
    ProcessEntry {
        pid: 1234,
        name: name.to_string(),
        cmd: cmd.to_string(),
        exe: exe.map(str::to_string),
        kind: ProcessKind::Process,
    }
}

const NICE5: Action = Action::SetNice { pid: 1234, nice: 5 };

#[test]
fn name_target_matches_on_name() {
    let rules = vec![parse_rule("5", "^python").unwrap()];
    let proc = make_process("python3", "/usr/bin/python3 script.py", Some("/usr/bin/python3"));
    let plan = apply_rules(&proc, &rules, &noop_cli(MatchTarget::Name));
    assert_eq!(plan, vec![NICE5]);
}

#[test]
fn name_target_does_not_match_cmd() {
    // Name is "worker" but cmd contains "python": no match on the name.
    let rules = vec![parse_rule("5", "python").unwrap()];
    let proc = make_process("worker", "/usr/bin/python3 worker.py", Some("/usr/bin/python3"));
    let plan = apply_rules(&proc, &rules, &noop_cli(MatchTarget::Name));
    assert!(plan.is_empty());
}

#[test]
fn cmdline_target_matches_full_argv() {
    let rules = vec![parse_rule("5", "worker\\.py").unwrap()];
    let proc = make_process("python3", "/usr/bin/python3 worker.py", Some("/usr/bin/python3"));
    let plan = apply_rules(&proc, &rules, &noop_cli(MatchTarget::Cmdline));
    assert_eq!(plan, vec![NICE5]);
}

#[test]
fn cmdline_target_does_not_match_name_only() {
    let rules = vec![parse_rule("5", "worker").unwrap()];
    let proc = make_process("python3", "/usr/bin/python3", Some("/usr/bin/python3"));
    let plan = apply_rules(&proc, &rules, &noop_cli(MatchTarget::Cmdline));
    assert!(plan.is_empty());
}

#[test]
fn exe_target_matches_full_path() {
    let rules = vec![parse_rule("5", "/usr/bin/python3").unwrap()];
    let proc = make_process("python3", "python3 script.py", Some("/usr/bin/python3"));
    let plan = apply_rules(&proc, &rules, &noop_cli(MatchTarget::Exe));
    assert_eq!(plan, vec![NICE5]);
}

#[test]
fn exe_target_skips_process_with_no_exe() {
    // Kernel threads have no exe path: the rule is skipped.
    let rules = vec![parse_rule("5", ".*").unwrap()];
    let proc = make_process("kworker", "", None);
    let plan = apply_rules(&proc, &rules, &noop_cli(MatchTarget::Exe));
    assert!(plan.is_empty());
}

#[test]
fn exe_target_does_not_match_basename_only() {
    let rules = vec![parse_rule("5", "^python3$").unwrap()];
    let proc = make_process("python3", "python3", Some("/usr/bin/python3"));
    let plan = apply_rules(&proc, &rules, &noop_cli(MatchTarget::Exe));
    assert!(plan.is_empty());
}

#[test]
fn exe_basename_matches_without_path() {
    let rules = vec![parse_rule("5", "^python3$").unwrap()];
    let proc = make_process("python3", "python3", Some("/usr/bin/python3"));
    let plan = apply_rules(&proc, &rules, &noop_cli(MatchTarget::ExeBasename));
    assert_eq!(plan, vec![NICE5]);
}

#[test]
fn exe_basename_avoids_15_char_truncation() {
    let rules = vec![parse_rule("5", "^prometheus-node-exporter$").unwrap()];
    let proc = make_process(
        "prometheus-node",
        "prometheus-node-exporter --web.listen-address=:9100",
        Some("/usr/bin/prometheus-node-exporter"),
    );
    let plan = apply_rules(&proc, &rules, &noop_cli(MatchTarget::ExeBasename));
    assert_eq!(plan, vec![NICE5]);
    let by_name = apply_rules(&proc, &rules, &noop_cli(MatchTarget::Name));
    assert!(by_name.is_empty());
}

#[test]
fn exe_basename_skips_process_with_no_exe() {
    let rules = vec![parse_rule("5", ".*").unwrap()];
    let proc = make_process("kworker", "", None);
    let plan = apply_rules(&proc, &rules, &noop_cli(MatchTarget::ExeBasename));
    assert!(plan.is_empty());
}

#[test]
fn multiple_matching_rules_all_applied() {
    let rules = vec![parse_rule("5", "myproc").unwrap(), parse_rule("o-5", "myproc").unwrap()];
    let proc = make_process("myproc", "myproc --daemon", Some("/usr/sbin/myproc"));
    let plan = apply_rules(&proc, &rules, &noop_cli(MatchTarget::Name));
    assert_eq!(plan, vec![NICE5, Action::AdjustOom { pid: 1234, score: -294 }]);
}

#[test]
fn non_matching_rule_does_not_error() {
    let rules = vec![parse_rule("5", "^nomatch$").unwrap()];
    let proc = make_process("myproc", "myproc", Some("/usr/sbin/myproc"));
    let plan = apply_rules(&proc, &rules, &noop_cli(MatchTarget::Name));
    assert!(plan.is_empty());
}

#[test]
fn empty_rules_list_is_fine() {
    let proc = make_process("myproc", "myproc", Some("/usr/sbin/myproc"));
    let plan = apply_rules(&proc, &[], &noop_cli(MatchTarget::Name));
    assert!(plan.is_empty());
}

#[test]
fn verbose_noop_logs_nice_adjustment() {
    let rules = vec![parse_rule("5", "myproc").unwrap()];
    let proc = make_process("myproc", "myproc", Some("/usr/sbin/myproc"));
    let plan = apply_rules(&proc, &rules, &verbose_noop_cli(MatchTarget::Name));
    assert_eq!(plan, vec![NICE5]);
}

#[test]
fn verbose_noop_logs_oom_adjustment() {
    let rules = vec![parse_rule("o-5", "myproc").unwrap()];
    let proc = make_process("myproc", "myproc", Some("/usr/sbin/myproc"));
    let plan = apply_rules(&proc, &rules, &verbose_noop_cli(MatchTarget::Name));
    assert_eq!(plan, vec![Action::AdjustOom { pid: 1234, score: -294 }]);
}

#[test]
fn io_priority_noop_realtime_with_level() {
    let rules = vec![parse_rule("r4", "myproc").unwrap()];
    let proc = make_process("myproc", "myproc", Some("/usr/sbin/myproc"));
    let plan = apply_rules(&proc, &rules, &noop_cli(MatchTarget::Name));
    assert_eq!(plan, vec![Action::SetIoPriority { pid: 1234, class: IoClass::Realtime, level: Some(4) }]);
}

#[test]
fn io_priority_noop_best_effort_with_level() {
    let rules = vec![parse_rule("b2", "myproc").unwrap()];
    let proc = make_process("myproc", "myproc", Some("/usr/sbin/myproc"));
    let plan = apply_rules(&proc, &rules, &noop_cli(MatchTarget::Name));
    assert_eq!(plan, vec![Action::SetIoPriority { pid: 1234, class: IoClass::BestEffort, level: Some(2) }]);
}

#[test]
fn io_priority_noop_idle_without_level() {
    let rules = vec![parse_rule("i", "myproc").unwrap()];
    let proc = make_process("myproc", "myproc", Some("/usr/sbin/myproc"));
    let plan = apply_rules(&proc, &rules, &noop_cli(MatchTarget::Name));
    assert_eq!(plan, vec![Action::SetIoPriority { pid: 1234, class: IoClass::Idle, level: None }]);
}

#[test]
fn io_priority_noop_combined_with_nice() {
    let rules = vec![parse_rule("5b2", "myproc").unwrap()];
    let proc = make_process("myproc", "myproc", Some("/usr/sbin/myproc"));
    let plan = apply_rules(&proc, &rules, &noop_cli(MatchTarget::Name));
    assert_eq!(
        plan,
        vec![NICE5, Action::SetIoPriority { pid: 1234, class: IoClass::BestEffort, level: Some(2) }]
    );
}

#[test]
fn verbose_noop_io_priority_realtime() {
    let rules = vec![parse_rule("r4", "myproc").unwrap()];
    let proc = make_process("myproc", "myproc", Some("/usr/sbin/myproc"));
    let plan = apply_rules(&proc, &rules, &verbose_noop_cli(MatchTarget::Name));
    assert_eq!(plan, vec![Action::SetIoPriority { pid: 1234, class: IoClass::Realtime, level: Some(4) }]);
}

#[test]
fn verbose_noop_io_priority_idle_no_level() {
    let rules = vec![parse_rule("i", "myproc").unwrap()];
    let proc = make_process("myproc", "myproc", Some("/usr/sbin/myproc"));
    let plan = apply_rules(&proc, &rules, &verbose_noop_cli(MatchTarget::Name));
    assert_eq!(plan, vec![Action::SetIoPriority { pid: 1234, class: IoClass::Idle, level: None }]);
}

#[test]
fn actions_follow_rule_order_nice_oom_io() {
    let rules = vec![
        parse_rule("i3 o15 n1", "proc").unwrap(),
        parse_rule("2", "nomatch").unwrap(),
        parse_rule("n-4", "^my").unwrap(),
    ];
    let proc = make_process("myproc", "myproc", None);
    let plan = apply_rules(&proc, &rules, &noop_cli(MatchTarget::Name));
    assert_eq!(
        plan,
        vec![
            Action::SetNice { pid: 1234, nice: 1 },
            Action::AdjustOom { pid: 1234, score: 1000 },
            Action::SetIoPriority { pid: 1234, class: IoClass::Idle, level: Some(3) },
            Action::SetNice { pid: 1234, nice: -4 },
        ]
    );
}

#[test]
fn io_priority_actions_can_be_dropped_for_other_platforms() {
    let rules = vec![parse_rule("5b2o3", "myproc").unwrap(), parse_rule("i", "myproc").unwrap()];
    let proc = make_process("myproc", "myproc", None);
    let plan = apply_rules(&proc, &rules, &noop_cli(MatchTarget::Name));
    let (kept, dropped) = without_io_priority(&plan);
    assert!(dropped);
    assert_eq!(kept, vec![NICE5, Action::AdjustOom { pid: 1234, score: 176 }]);
    let (same, none) = without_io_priority(&kept);
    assert!(!none);
    assert_eq!(same, kept);
}
