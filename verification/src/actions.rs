//! Deciding which adjustments the rules ask for.

use vstd::prelude::*;
use crate::cli::{Cli, MatchTarget};
use crate::config::rule_view;
use crate::model::{IoClass, ProcessEntry, Rule, Settings, regex_is_match};
use crate::path::{PathStyle, file_name, path_file_name};

verus! {

/// The legacy `oom_adj` value that maps to the maximum modern score.
pub const OOM_ADJUST_MAX: i32 = 15;

/// The legacy `oom_adj` value that disables the OOM killer for a process.
pub const OOM_DISABLE: i32 = -17;

/// The largest modern `oom_score_adj` value.
pub const OOM_SCORE_ADJ_MAX: i32 = 1000;

/// The modern `oom_score_adj` value for a legacy `oom_adj` value: the legacy
/// range `[-17, 15]` is scaled by `1000 / 17` with truncation toward zero, the
/// legacy maximum `15` maps to exactly `1000`, and values outside the legacy
/// range are capped at the ends of `[-1000, 1000]`.
pub open spec fn oom_score_adj_of(score: int) -> int {
    if score >= 15 {
        1000
    } else if score <= -17 {
        -1000
    } else if score >= 0 {
        score * 1000 / 17
    } else {
        -((-score) * 1000 / 17)
    }
}

/// Converts a legacy Linux `oom_adj` value to the modern `oom_score_adj` scale.
pub fn convert_oom_adj(score: i32) -> (converted: i32)
    ensures
        converted == oom_score_adj_of(score as int),
        -1000 <= converted <= 1000,
{
    if score >= OOM_ADJUST_MAX {
        OOM_SCORE_ADJ_MAX
    } else if score <= OOM_DISABLE {
        -OOM_SCORE_ADJ_MAX
    } else if score >= 0 {
        score * OOM_SCORE_ADJ_MAX / 17
    } else {
        -((-score) * OOM_SCORE_ADJ_MAX / 17)
    }
}


/// The text of `process` that rules are matched against: the name, the
/// command line, the executable path, or the file name of the executable
/// path (in the platform's path syntax); `None` where the process has no
/// such text.
pub open spec fn match_field(process: ProcessEntry, target: MatchTarget, style: PathStyle) -> Option<
    Seq<char>,
> {
    match target {
        MatchTarget::Name => Some(process.name@),
        MatchTarget::Cmdline => Some(process.cmd@),
        MatchTarget::Exe => match process.exe {
            Some(e) => Some(e@),
            None => None,
        },
        MatchTarget::ExeBasename => match process.exe {
            Some(e) => path_file_name(style, e@),
            None => None,
        },
    }
}

/// The text of `process` that rules are matched against, if it has one.
pub fn match_text(process: &ProcessEntry, target: MatchTarget, style: PathStyle) -> (r: Option<&str>)
    ensures
        match match_field(*process, target, style) {
            Some(t) => r is Some && r->0@ == t,
            None => r is None,
        },
{
    match target {
        MatchTarget::Name => Some(process.name.as_str()),
        MatchTarget::Cmdline => Some(process.cmd.as_str()),
        MatchTarget::Exe => match &process.exe {
            Some(e) => Some(e.as_str()),
            None => None,
        },
        MatchTarget::ExeBasename => match &process.exe {
            Some(e) => file_name(e.as_str(), style),
            None => None,
        },
    }
}

/// An adjustment of one process.
#[derive(Debug, Clone, Copy, PartialEq, Eq, Structural)]
pub enum Action {
    /// Set the CPU nice value.
    SetNice { pid: i32, nice: i32 },
    /// Write this `oom_score_adj` value (already converted from the legacy scale).
    AdjustOom { pid: i32, score: i32 },
    /// Set the I/O scheduling class and, if given, the level within it.
    SetIoPriority { pid: i32, class: IoClass, level: Option<u8> },
}

/// The adjustments that settings ask for, in the order nice, OOM, I/O.
pub open spec fn settings_actions(pid: i32, st: Settings) -> Seq<Action> {
    (match st.nice {
        Some(n) => seq![Action::SetNice { pid, nice: n }],
        None => Seq::empty(),
    }) + (match st.oom_adj {
        Some(o) => seq![Action::AdjustOom { pid, score: oom_score_adj_of(o as int) as i32 }],
        None => Seq::empty(),
    }) + (match st.io_class {
        Some(c) => seq![Action::SetIoPriority { pid, class: c, level: st.io_nice }],
        None => Seq::empty(),
    })
}

/// The adjustments that `rules` (as settings and regular expressions) ask for
/// on a process with this pid and match text: the rules are taken in order,
/// and each one whose regular expression matches the text contributes its
/// adjustments; with no text, none matches.
pub open spec fn planned_actions(
    pid: i32,
    text: Option<Seq<char>>,
    rules: Seq<(Settings, Seq<char>)>,
) -> Seq<Action>
    decreases rules.len(),
{
    if rules.len() == 0 {
        Seq::empty()
    } else {
        planned_actions(pid, text, rules.drop_last()) + match text {
            Some(t) => if regex_is_match(rules.last().1, t) {
                settings_actions(pid, rules.last().0)
            } else {
                Seq::empty()
            },
            None => Seq::empty(),
        }
    }
}

/// The adjustments of one rule, in the order nice, OOM, I/O.
fn rule_actions(pid: i32, rule: &Rule, plan: &mut Vec<Action>)
    ensures
        final(plan)@ == old(plan)@ + settings_actions(pid, rule.settings()),
{
    let ghost before = plan@;
    if let Some(nice) = rule.nice {
        plan.push(Action::SetNice { pid, nice });
    }
    let ghost after_nice = plan@;
    if let Some(oom_adj) = rule.oom_adj {
        plan.push(Action::AdjustOom { pid, score: convert_oom_adj(oom_adj) });
    }
    let ghost after_oom = plan@;
    if let Some(class) = rule.io_class {
        plan.push(Action::SetIoPriority { pid, class, level: rule.io_nice });
    }
    let ghost st = rule.settings();
    assert(after_nice =~= before + (match st.nice {
        Some(n) => seq![Action::SetNice { pid, nice: n }],
        None => Seq::empty(),
    }));
    assert(plan@ =~= before + settings_actions(pid, st));
}

/// The adjustments that `rules` ask for on `process`, in order.
///
/// The process text named by `cli.match_target` is matched against each
/// rule's regular expression in turn; a rule whose expression matches adds its
/// nice, OOM and I/O adjustments. Rules whose expression does not match, and
/// all rules when the process has no such text (no executable path), add
/// nothing. When several rules match, their adjustments follow one another in
/// rule order, so the last one wins.
pub fn apply_rules(process: &ProcessEntry, rules: &[Rule], cli: &Cli) -> (plan: Vec<Action>)
    ensures
        plan@ == planned_actions(
            process.pid,
            match_field(*process, cli.match_target, cli.path_style),
            rules@.map_values(|r: Rule| rule_view(r)),
        ),
{
    let text = match_text(process, cli.match_target, cli.path_style);
    let ghost field = match_field(*process, cli.match_target, cli.path_style);
    let ghost views = rules@.map_values(|r: Rule| rule_view(r));
    let mut plan: Vec<Action> = Vec::new();
    let mut i: usize = 0;
    while i < rules.len()
        invariant
            i <= rules.len(),
            views == rules@.map_values(|r: Rule| rule_view(r)),
            match field {
                Some(t) => text is Some && text->0@ == t,
                None => text is None,
            },
            plan@ == planned_actions(process.pid, field, views.take(i as int)),
        decreases rules.len() - i,
    {
        assert(views.take(i + 1).drop_last() =~= views.take(i as int));
        assert(views.take(i + 1).last() == rule_view(rules@[i as int]));
        let rule = &rules[i];
        match text {
            Some(t) => {
                if rule.regex.is_match(t) {
                    rule_actions(process.pid, rule, &mut plan);
                } else {
                    assert(plan@ =~= plan@ + Seq::<Action>::empty());
                }
            },
            None => {
                assert(plan@ =~= plan@ + Seq::<Action>::empty());
            },
        }
        i = i + 1;
    }
    assert(views.take(i as int) =~= views);
    plan
}


/// The conversion keeps every value in `[-1000, 1000]`, maps `-17` to `-1000`,
/// `0` to `0` and `15` to `1000`, never lowers the score for a higher legacy
/// value, and is symmetric around `0` inside the legacy range below the
/// special maximum.
pub proof fn law_oom_conversion(a: int, b: int)
    ensures
        -1000 <= oom_score_adj_of(a) <= 1000,
        oom_score_adj_of(-17) == -1000,
        oom_score_adj_of(0) == 0,
        oom_score_adj_of(15) == 1000,
        a <= b ==> oom_score_adj_of(a) <= oom_score_adj_of(b),
        -15 < a < 15 ==> oom_score_adj_of(-a) == -oom_score_adj_of(a),
{
    if -17 < a < 15 {
        if 0 <= a {
            assert(a * 1000 <= 15000) by (nonlinear_arith)
                requires
                    a < 15,
            ;
            vstd::arithmetic::div_mod::lemma_div_is_ordered(a * 1000, 15000, 17);
            vstd::arithmetic::div_mod::lemma_div_pos_is_pos(a * 1000, 17);
        } else {
            assert((-a) * 1000 <= 17000) by (nonlinear_arith)
                requires
                    -a < 17,
            ;
            vstd::arithmetic::div_mod::lemma_div_is_ordered((-a) * 1000, 17000, 17);
            vstd::arithmetic::div_mod::lemma_div_pos_is_pos((-a) * 1000, 17);
        }
    }
    if -17 < b < 15 {
        if 0 <= b {
            vstd::arithmetic::div_mod::lemma_div_pos_is_pos(b * 1000, 17);
        } else {
            assert((-b) * 1000 <= 17000) by (nonlinear_arith)
                requires
                    -b < 17,
            ;
            vstd::arithmetic::div_mod::lemma_div_is_ordered((-b) * 1000, 17000, 17);
        }
    }
    if a <= b && -17 < a < 15 && -17 < b < 15 {
        if 0 <= a {
            assert(a * 1000 <= b * 1000) by (nonlinear_arith)
                requires
                    a <= b,
            ;
            vstd::arithmetic::div_mod::lemma_div_is_ordered(a * 1000, b * 1000, 17);
        } else if b < 0 {
            assert((-b) * 1000 <= (-a) * 1000) by (nonlinear_arith)
                requires
                    a <= b,
            ;
            vstd::arithmetic::div_mod::lemma_div_is_ordered((-b) * 1000, (-a) * 1000, 17);
        }
    }
}

/// A process without the text that the match target names gets no
/// adjustment, whatever the rules.
pub proof fn law_no_text_no_actions(pid: i32, rules: Seq<(Settings, Seq<char>)>)
    ensures
        planned_actions(pid, None, rules) == Seq::<Action>::empty(),
    decreases rules.len(),
{
    if rules.len() > 0 {
        law_no_text_no_actions(pid, rules.drop_last());
        assert(planned_actions(pid, None, rules.drop_last()) + Seq::<Action>::empty()
            =~= Seq::<Action>::empty());
    }
}

/// Rules are applied in sequence: the plan for two rule lists one after the
/// other is the plan for the first followed by the plan for the second.
pub proof fn law_rules_apply_in_sequence(
    pid: i32,
    text: Option<Seq<char>>,
    first: Seq<(Settings, Seq<char>)>,
    second: Seq<(Settings, Seq<char>)>,
)
    ensures
        planned_actions(pid, text, first + second) == planned_actions(pid, text, first)
            + planned_actions(pid, text, second),
    decreases second.len(),
{
    if second.len() == 0 {
        assert(first + second =~= first);
        assert(planned_actions(pid, text, first) + planned_actions(pid, text, second)
            =~= planned_actions(pid, text, first));
    } else {
        assert((first + second).drop_last() =~= first + second.drop_last());
        assert((first + second).last() == second.last());
        law_rules_apply_in_sequence(pid, text, first, second.drop_last());
        let x = planned_actions(pid, text, first);
        let y = planned_actions(pid, text, second.drop_last());
        let z = match text {
            Some(t) => if regex_is_match(second.last().1, t) {
                settings_actions(pid, second.last().0)
            } else {
                Seq::empty()
            },
            None => Seq::empty(),
        };
        assert(x + y + z =~= x + (y + z));
    }
}


/// The adjustments of `plan` other than I/O priorities, in order.
pub open spec fn drop_io_priority(plan: Seq<Action>) -> Seq<Action>
    decreases plan.len(),
{
    if plan.len() == 0 {
        Seq::empty()
    } else {
        drop_io_priority(plan.drop_last()) + if plan.last() is SetIoPriority {
            Seq::empty()
        } else {
            seq![plan.last()]
        }
    }
}

/// For platforms without I/O priorities (macOS, the BSDs): the plan without
/// its I/O priority adjustments, and whether any was dropped, so that the
/// caller can warn that I/O priority rules are skipped.
pub fn without_io_priority(plan: &Vec<Action>) -> (r: (Vec<Action>, bool))
    ensures
        r.0@ == drop_io_priority(plan@),
        r.1 == exists|i: int| 0 <= i < plan@.len() && plan@[i] is SetIoPriority,
{
    let mut kept: Vec<Action> = Vec::new();
    let mut dropped = false;
    let mut i: usize = 0;
    while i < plan.len()
        invariant
            i <= plan.len(),
            kept@ == drop_io_priority(plan@.take(i as int)),
            dropped == exists|j: int| 0 <= j < i && plan@[j] is SetIoPriority,
        decreases plan.len() - i,
    {
        assert(plan@.take(i + 1).drop_last() =~= plan@.take(i as int));
        assert(plan@.take(i + 1).last() == plan@[i as int]);
        let action = plan[i];
        match action {
            Action::SetIoPriority { .. } => {
                dropped = true;
                assert(kept@ + Seq::<Action>::empty() =~= kept@);
            },
            _ => {
                kept.push(action);
            },
        }
        i = i + 1;
    }
    assert(plan@.take(i as int) =~= plan@);
    (kept, dropped)
}


/// The adjustments of one rule: one per setting that is present, in the
/// order nice, OOM, I/O, each for the given pid. A nice value becomes a
/// `SetNice` whatever it is (0 included), an OOM adjustment is converted to the
/// modern scale, and the I/O class comes with the rule's level.
pub proof fn law_settings_actions(pid: i32, st: Settings)
    ensures
        ({
            let a = settings_actions(pid, st);
            let n: int = if st.nice is Some { 1 } else { 0 };
            let o: int = if st.oom_adj is Some { 1 } else { 0 };
            let c: int = if st.io_class is Some { 1 } else { 0 };
            &&& a.len() == n + o + c
            &&& st.nice matches Some(v) ==> a[0] == Action::SetNice { pid, nice: v }
            &&& st.oom_adj matches Some(v) ==> a[n] == Action::AdjustOom {
                pid,
                score: oom_score_adj_of(v as int) as i32,
            }
            &&& st.io_class matches Some(k) ==> a[n + o] == Action::SetIoPriority {
                pid,
                class: k,
                level: st.io_nice,
            }
        }),
{
}

/// A single rule whose regular expression matches the process text gives
/// exactly its own adjustments; one that does not match gives none.
pub proof fn law_single_rule_plan(pid: i32, t: Seq<char>, rule: (Settings, Seq<char>))
    ensures
        planned_actions(pid, Some(t), seq![rule]) == if regex_is_match(rule.1, t) {
            settings_actions(pid, rule.0)
        } else {
            Seq::<Action>::empty()
        },
{
    assert(seq![rule].drop_last() =~= Seq::<(Settings, Seq<char>)>::empty());
    let rest = planned_actions(pid, Some(t), Seq::<(Settings, Seq<char>)>::empty());
    assert(rest == Seq::<Action>::empty());
    assert(rest + settings_actions(pid, rule.0) =~= settings_actions(pid, rule.0));
    assert(rest + Seq::<Action>::empty() =~= Seq::<Action>::empty());
}

/// Dropping the I/O priority adjustments keeps every other adjustment, in
/// order: the result is the plan filtered to the actions that are not
/// `SetIoPriority`.
pub proof fn law_drop_io_priority_is_filter(plan: Seq<Action>)
    ensures
        drop_io_priority(plan) == plan.filter(|a: Action| !(a is SetIoPriority)),
        forall|i: int|
            0 <= i < plan.len() && !(plan[i] is SetIoPriority) ==> #[trigger] drop_io_priority(
                plan,
            ).contains(plan[i]),
        forall|k: int|
            0 <= k < drop_io_priority(plan).len() ==> !(#[trigger] drop_io_priority(plan)[k] is SetIoPriority)
                && plan.contains(drop_io_priority(plan)[k]),
        drop_io_priority(plan).len() + (plan.filter(|a: Action| a is SetIoPriority)).len()
            == plan.len(),
    decreases plan.len(),
{
    reveal_with_fuel(Seq::filter, 1);
    let keep = |a: Action| !(a is SetIoPriority);
    let io = |a: Action| a is SetIoPriority;
    if plan.len() > 0 {
        let init = plan.drop_last();
        law_drop_io_priority_is_filter(init);
        assert(init.filter(keep) == drop_io_priority(init));
        if plan.last() is SetIoPriority {
            assert(drop_io_priority(plan) =~= drop_io_priority(init));
        } else {
            assert(drop_io_priority(plan) =~= drop_io_priority(init).push(plan.last()));
        }
        assert(drop_io_priority(plan) =~= plan.filter(keep));
        assert forall|i: int|
            0 <= i < plan.len() && !(plan[i] is SetIoPriority) implies #[trigger] drop_io_priority(
                plan,
            ).contains(plan[i]) by {
            if i < plan.len() - 1 {
                assert(init[i] == plan[i]);
                assert(drop_io_priority(init).contains(init[i]));
                let w = choose|w: int| 0 <= w < drop_io_priority(init).len() && drop_io_priority(init)[w] == init[i];
                assert(drop_io_priority(plan)[w] == plan[i]);
            } else {
                assert(drop_io_priority(plan)[drop_io_priority(plan).len() - 1] == plan[i]);
            }
        }
        assert forall|k: int| 0 <= k < drop_io_priority(plan).len() implies !(
        #[trigger] drop_io_priority(plan)[k] is SetIoPriority) && plan.contains(
            drop_io_priority(plan)[k],
        ) by {
            if k < drop_io_priority(init).len() {
                assert(drop_io_priority(plan)[k] == drop_io_priority(init)[k]);
                let w = choose|w: int| 0 <= w < init.len() && init[w] == drop_io_priority(init)[k];
                assert(plan[w] == init[w]);
            } else {
                assert(drop_io_priority(plan)[k] == plan.last());
                assert(plan[plan.len() - 1] == plan.last());
            }
        }
    } else {
        assert(drop_io_priority(plan) =~= plan.filter(keep));
    }
}

} // verus!
