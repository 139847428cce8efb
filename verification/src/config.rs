//! Rule commands and rule files.
//!
//! A rule line is `<command> <regex>`. The command is read as a sequence of
//! tokens found left to right, each the longest match of the grammar
//! `n-?\d* | o-?\d* | [rbi]\d*` (with `\d` the Unicode decimal digits):
//! `n` sets the nice value, `o` the legacy OOM adjustment, `r`/`b`/`i` the
//! I/O class with an optional level. An `n` or `o` must be followed by a
//! (signed) number: where it is not, as in `nabc` or `oxyz`, the number is
//! invalid. Other characters outside tokens are ignored, and a later token
//! overrides an earlier one of the same kind.

use vstd::prelude::*;
use crate::model::{IoClass, Settings, Rule, Pattern, regex_compiles};
use crate::number::{NumberError, read_i32, read_u8, parse_i32, parse_u8};
use crate::text::{
    is_ascii_digit, is_decimal_digit, is_white_space, decimal_digit, chars_of, trim, trim_bounds, first_white_space,
    find_white_space, split_lines, lemma_split_lines_join, law_first_white_space,
};

verus! {

/// The number of decimal digits in `s` starting at index `q`.
pub open spec fn digit_run_len(s: Seq<char>, q: int) -> nat
    decreases s.len() - q,
{
    if 0 <= q < s.len() && is_decimal_digit(s[q]) {
        1 + digit_run_len(s, q + 1)
    } else {
        0
    }
}

/// Where a token starts at index `p` of `s`, the number of characters it has
/// after its first one; `None` where no token starts at `p`. A token of `n`
/// or `o` takes a following `-` and the digits after it, possibly none.
pub open spec fn token_tail_len(s: Seq<char>, p: int) -> Option<nat> {
    if !(0 <= p < s.len()) {
        None
    } else if s[p] == 'n' || s[p] == 'o' {
        if p + 1 < s.len() && s[p + 1] == '-' {
            Some(1 + digit_run_len(s, p + 2))
        } else {
            Some(digit_run_len(s, p + 1))
        }
    } else if s[p] == 'r' || s[p] == 'b' || s[p] == 'i' {
        Some(digit_run_len(s, p + 1))
    } else {
        None
    }
}

/// A run of digits stays inside the text.
pub proof fn lemma_digit_run_bound(s: Seq<char>, q: int)
    requires
        0 <= q <= s.len(),
    ensures
        q + digit_run_len(s, q) <= s.len(),
        forall|j: int| q <= j < q + digit_run_len(s, q) ==> is_decimal_digit(#[trigger] s[j]),
        q + digit_run_len(s, q) < s.len() ==> !is_decimal_digit(s[q + digit_run_len(s, q)]),
    decreases s.len() - q,
{
    if q < s.len() && is_decimal_digit(s[q]) {
        lemma_digit_run_bound(s, q + 1);
    }
}

/// A token stays inside the text.
pub proof fn lemma_token_bound(s: Seq<char>, p: int)
    ensures
        token_tail_len(s, p) matches Some(k) ==> p + 1 + k <= s.len(),
{
    if 0 <= p < s.len() {
        if p + 2 <= s.len() {
            lemma_digit_run_bound(s, p + 2);
        }
        lemma_digit_run_bound(s, p + 1);
    }
}

/// The I/O class that a token letter stands for.
pub open spec fn io_class_of(c: char) -> IoClass {
    if c == 'r' {
        IoClass::Realtime
    } else if c == 'b' {
        IoClass::BestEffort
    } else {
        IoClass::Idle
    }
}

/// The settings after the token `tok`, or the reading error of its number.
pub open spec fn apply_token(st: Settings, tok: Seq<char>) -> Result<Settings, NumberError> {
    if tok[0] == 'n' {
        match read_i32(tok.drop_first()) {
            Ok(v) => Ok(Settings { nice: Some(v), ..st }),
            Err(e) => Err(e),
        }
    } else if tok[0] == 'o' {
        match read_i32(tok.drop_first()) {
            Ok(v) => Ok(Settings { oom_adj: Some(v), ..st }),
            Err(e) => Err(e),
        }
    } else {
        let with_class = Settings { io_class: Some(io_class_of(tok[0])), ..st };
        if tok.len() > 1 {
            match read_u8(tok.drop_first()) {
                Ok(v) => Ok(Settings { io_nice: Some(v), ..with_class }),
                Err(e) => Err(e),
            }
        } else {
            Ok(with_class)
        }
    }
}

/// The settings after reading the tokens of `s` from index `p` on, starting
/// from `st`; the first number that cannot be read stops the reading.
pub open spec fn scan_tokens(s: Seq<char>, p: int, st: Settings) -> Result<Settings, NumberError>
    decreases s.len() - p,
{
    if !(0 <= p < s.len()) {
        Ok(st)
    } else {
        match token_tail_len(s, p) {
            None => scan_tokens(s, p + 1, st),
            Some(k) => {
                proof {
                    lemma_token_bound(s, p);
                }
                match apply_token(st, s.subrange(p, p + 1 + k)) {
                    Ok(next) => scan_tokens(s, p + 1 + k, next),
                    Err(e) => Err(e),
                }
            },
        }
    }
}

/// A command that starts with `-` or an ASCII digit is a nice value: it gets
/// an `n` in front.
pub open spec fn normalize_command(command: Seq<char>) -> Seq<char> {
    if command.len() > 0 && (command[0] == '-' || is_ascii_digit(command[0])) {
        seq!['n'] + command
    } else {
        command
    }
}

/// What parsing a rule comes to.
pub enum RuleOutcome {
    /// A rule with these settings.
    Parsed(Settings),
    /// A token's number cannot be read.
    InvalidNumber(NumberError),
    /// The (normalized) command sets nothing.
    NoActions(Seq<char>),
    /// The regular expression (this pattern text) does not compile.
    InvalidRegex(Seq<char>),
}

/// The outcome of parsing the rule `command` / `regex_str`: the first
/// unreadable number, else a command that sets nothing, else a regular
/// expression that does not compile, else the settings.
pub open spec fn rule_outcome(command: Seq<char>, regex_str: Seq<char>) -> RuleOutcome {
    let cmd = normalize_command(command);
    match scan_tokens(cmd, 0, Settings::spec_none()) {
        Err(e) => RuleOutcome::InvalidNumber(e),
        Ok(st) => if !st.has_action() {
            RuleOutcome::NoActions(cmd)
        } else if !regex_compiles(regex_str) {
            RuleOutcome::InvalidRegex(regex_str)
        } else {
            RuleOutcome::Parsed(st)
        },
    }
}

/// Errors that can occur while parsing a rule.
#[derive(Debug)]
pub enum ParseRuleError {
    /// The command holds no nice, OOM or I/O class action; it carries the
    /// (normalized) command.
    NoActions(String),
    /// The regular expression does not compile.
    InvalidRegex {
        /// The pattern text.
        pattern: String,
        /// The error of the regex compiler.
        source: regex::Error,
    },
    /// A number in the command cannot be read.
    InvalidNumber(NumberError),
}

impl ParseRuleError {
    /// The outcome that this error stands for.
    pub open spec fn outcome(self) -> RuleOutcome {
        match self {
            ParseRuleError::NoActions(c) => RuleOutcome::NoActions(c@),
            ParseRuleError::InvalidRegex { pattern, .. } => RuleOutcome::InvalidRegex(pattern@),
            ParseRuleError::InvalidNumber(e) => RuleOutcome::InvalidNumber(e),
        }
    }
}

/// The outcome that a result of `parse_rule` stands for.
pub open spec fn outcome_of(r: Result<Rule, ParseRuleError>) -> RuleOutcome {
    match r {
        Ok(rule) => RuleOutcome::Parsed(rule.settings()),
        Err(e) => e.outcome(),
    }
}

/// The index just past the run of decimal digits of `v` that starts at `q`.
fn digit_run_end(v: &Vec<char>, q: usize) -> (e: usize)
    requires
        q <= v.len(),
    ensures
        e == q + digit_run_len(v@, q as int),
{
    proof {
        lemma_digit_run_bound(v@, q as int);
    }
    let mut e = q;
    while e < v.len() && decimal_digit(v[e])
        invariant
            q <= e <= v.len(),
            digit_run_len(v@, q as int) == (e - q) + digit_run_len(v@, e as int),
        decreases v.len() - e,
    {
        e = e + 1;
    }
    e
}

/// The index just past the token that starts at `p`, if one does.
fn token_end(v: &Vec<char>, p: usize) -> (r: Option<usize>)
    requires
        p < v.len(),
    ensures
        match token_tail_len(v@, p as int) {
            Some(k) => r is Some && r->0 == p + 1 + k,
            None => r is None,
        },
        r matches Some(e) ==> p < e <= v.len(),
{
    proof {
        lemma_token_bound(v@, p as int);
    }
    let c = v[p];
    if c == 'n' || c == 'o' {
        if v.len() - p > 1 && v[p + 1] == '-' {
            Some(digit_run_end(v, p + 2))
        } else {
            Some(digit_run_end(v, p + 1))
        }
    } else if c == 'r' || c == 'b' || c == 'i' {
        Some(digit_run_end(v, p + 1))
    } else {
        None
    }
}

/// Applies the token `v[p..e]` to `st`.
fn apply_token_at(st: Settings, v: &Vec<char>, p: usize, e: usize) -> (r: Result<Settings, NumberError>)
    requires
        p < e <= v.len(),
    ensures
        r == apply_token(st, v@.subrange(p as int, e as int)),
{
    let ghost tok = v@.subrange(p as int, e as int);
    assert(tok.drop_first() =~= v@.subrange(p + 1, e as int));
    let c = v[p];
    if c == 'n' {
        match parse_i32(v, p + 1, e) {
            Ok(x) => Ok(Settings { nice: Some(x), ..st }),
            Err(err) => Err(err),
        }
    } else if c == 'o' {
        match parse_i32(v, p + 1, e) {
            Ok(x) => Ok(Settings { oom_adj: Some(x), ..st }),
            Err(err) => Err(err),
        }
    } else {
        let class = if c == 'r' {
            IoClass::Realtime
        } else if c == 'b' {
            IoClass::BestEffort
        } else {
            IoClass::Idle
        };
        let with_class = Settings { io_class: Some(class), ..st };
        if e - p > 1 {
            match parse_u8(v, p + 1, e) {
                Ok(x) => Ok(Settings { io_nice: Some(x), ..with_class }),
                Err(err) => Err(err),
            }
        } else {
            Ok(with_class)
        }
    }
}

/// Reads the tokens of the command `v`.
fn scan_command(v: &Vec<char>) -> (r: Result<Settings, NumberError>)
    ensures
        r == scan_tokens(v@, 0, Settings::spec_none()),
{
    let mut st = Settings::none();
    let mut p: usize = 0;
    while p < v.len()
        invariant
            p <= v.len(),
            scan_tokens(v@, 0, Settings::spec_none()) == scan_tokens(v@, p as int, st),
        decreases v.len() - p,
    {
        let ghost before = st;
        match token_end(v, p) {
            None => {
                assert(scan_tokens(v@, p as int, st) == scan_tokens(v@, p + 1, st));
                p = p + 1;
            },
            Some(e) => {
                let ghost k = token_tail_len(v@, p as int)->0;
                assert(e == p + 1 + k);
                assert(scan_tokens(v@, p as int, st) == match apply_token(st, v@.subrange(p as int, e as int)) {
                    Ok(next) => scan_tokens(v@, e as int, next),
                    Err(x) => Err(x),
                });
                match apply_token_at(st, v, p, e) {
                    Ok(next) => {
                        st = next;
                        p = e;
                    },
                    Err(err) => {
                        return Err(err);
                    },
                }
            },
        }
    }
    Ok(st)
}


impl ParseRuleError {
    /// What `message` promises of its text.
    pub open spec fn message_ensures(self, text: Seq<char>) -> bool {
        match self {
            ParseRuleError::NoActions(c) => text == "no recognised actions (nice/oom/ionice) in command '"@
                + c@ + "'"@,
            ParseRuleError::InvalidRegex { pattern, .. } => exists|detail: Seq<char>|
                text == "invalid regex '"@ + pattern@ + "': "@ + detail,
            ParseRuleError::InvalidNumber(e) => text == "invalid number in command: "@
                + e.spec_message(),
        }
    }

    /// A description of the error.
    pub fn message(&self) -> (text: String)
        ensures
            self.message_ensures(text@),
    {
        match self {
            ParseRuleError::NoActions(c) => {
                String::from_str("no recognised actions (nice/oom/ionice) in command '").concat(
                    c.as_str(),
                ).concat("'")
            },
            ParseRuleError::InvalidRegex { pattern, source } => {
                let detail = source.to_string();
                let text = String::from_str("invalid regex '").concat(pattern.as_str()).concat(
                    "': ",
                ).concat(detail.as_str());
                assert(text@ == "invalid regex '"@ + pattern@ + "': "@ + detail@);
                text
            },
            ParseRuleError::InvalidNumber(e) => {
                let detail = e.message();
                String::from_str("invalid number in command: ").concat(detail.as_str())
            },
        }
    }
}

/// Parses a rule from its command (such as `"n-5 b4"`) and its regular
/// expression.
///
/// A command that starts with `-` or an ASCII digit is taken as a nice value
/// (`"5"` reads as `"n5"`). An `n` or `o` without a number after it (`"nabc"`)
/// is an invalid number. The rule needs at least one of a nice value, an
/// OOM adjustment and an I/O class, and a regular expression that compiles.
pub fn parse_rule(command: &str, regex_str: &str) -> (r: Result<Rule, ParseRuleError>)
    ensures
        outcome_of(r) == rule_outcome(command@, regex_str@),
        r matches Ok(rule) ==> rule.regex@ == regex_str@,
        r matches Err(ParseRuleError::InvalidRegex { pattern, .. }) ==> pattern@ == regex_str@,
{
    let raw = chars_of(command);
    let normalized = if raw.len() > 0 && (raw[0] == '-' || ('0' <= raw[0] && raw[0] <= '9')) {
        String::from_str("n").concat(command)
    } else {
        String::from_str(command)
    };
    proof {
        reveal_strlit("n");
    }
    let v = chars_of(normalized.as_str());
    assert(v@ =~= normalize_command(command@));
    let settings = match scan_command(&v) {
        Ok(s) => s,
        Err(e) => {
            return Err(ParseRuleError::InvalidNumber(e));
        },
    };
    if settings.nice.is_none() && settings.oom_adj.is_none() && settings.io_class.is_none() {
        return Err(ParseRuleError::NoActions(normalized));
    }
    match Pattern::compile(regex_str) {
        Ok(pattern) => Ok(
            Rule {
                regex: pattern,
                nice: settings.nice,
                oom_adj: settings.oom_adj,
                io_class: settings.io_class,
                io_nice: settings.io_nice,
            },
        ),
        Err(source) => Err(ParseRuleError::InvalidRegex { pattern: String::from_str(regex_str), source }),
    }
}


/// What a line of a rule file comes to.
pub enum LineOutcome {
    /// A blank line or a comment.
    Skipped,
    /// A line without white space between command and regular expression.
    NoSeparator,
    /// A rule line: the outcome of parsing it, and its regular expression.
    Rule(RuleOutcome, Seq<char>),
}

/// The outcome of the line `line`: it is trimmed; empty lines and lines that
/// start with `#` are skipped; otherwise the command runs up to the first white
/// space and the regular expression is the trimmed rest.
pub open spec fn line_outcome(line: Seq<char>) -> LineOutcome {
    let t = trim(line);
    if t.len() == 0 || t[0] == '#' {
        LineOutcome::Skipped
    } else {
        match first_white_space(t, 0) {
            None => LineOutcome::NoSeparator,
            Some(i) => {
                let re = trim(t.skip(i + 1));
                LineOutcome::Rule(rule_outcome(t.take(i), re), re)
            },
        }
    }
}

/// The rule that a line gives, as its settings and its regular expression.
pub open spec fn line_rules(line: Seq<char>) -> Seq<(Settings, Seq<char>)> {
    match line_outcome(line) {
        LineOutcome::Rule(RuleOutcome::Parsed(st), re) => seq![(st, re)],
        _ => Seq::empty(),
    }
}

/// Why a line of a rule file was skipped.
pub enum LineIssue {
    /// There is no white space between command and regular expression.
    NoSeparator,
    /// The rule was rejected with this outcome.
    Rejected(RuleOutcome),
}

/// The warning that a line gives, with its line number.
pub open spec fn line_warnings(number: int, line: Seq<char>) -> Seq<(int, LineIssue)> {
    match line_outcome(line) {
        LineOutcome::NoSeparator => seq![(number, LineIssue::NoSeparator)],
        LineOutcome::Rule(o, _) => if o is Parsed {
            Seq::empty()
        } else {
            seq![(number, LineIssue::Rejected(o))]
        },
        LineOutcome::Skipped => Seq::empty(),
    }
}

/// The rules of `lines`, in order.
pub open spec fn rules_of_lines(lines: Seq<Seq<char>>) -> Seq<(Settings, Seq<char>)>
    decreases lines.len(),
{
    if lines.len() == 0 {
        Seq::empty()
    } else {
        rules_of_lines(lines.drop_last()) + line_rules(lines.last())
    }
}

/// The warnings of `lines`, in order, with 1-based line numbers.
pub open spec fn warnings_of_lines(lines: Seq<Seq<char>>) -> Seq<(int, LineIssue)>
    decreases lines.len(),
{
    if lines.len() == 0 {
        Seq::empty()
    } else {
        warnings_of_lines(lines.drop_last()) + line_warnings(lines.len() as int, lines.last())
    }
}

/// The rules of a rule file's text.
pub open spec fn rules_of_text(content: Seq<char>) -> Seq<(Settings, Seq<char>)> {
    rules_of_lines(split_lines(content))
}

/// Why a line of a rule file was skipped.
#[derive(Debug)]
pub enum LineProblem {
    /// There is no white space between command and regular expression.
    NoSeparator,
    /// The rule was rejected.
    Rule(ParseRuleError),
}

impl LineProblem {
    /// The issue that this problem stands for.
    pub open spec fn issue(self) -> LineIssue {
        match self {
            LineProblem::NoSeparator => LineIssue::NoSeparator,
            LineProblem::Rule(e) => LineIssue::Rejected(e.outcome()),
        }
    }
}

/// A skipped line of a rule file.
#[derive(Debug)]
pub struct LineWarning {
    /// The 1-based line number.
    pub line: usize,
    /// Why the line was skipped.
    pub problem: LineProblem,
}

impl LineWarning {
    /// The line number and the issue.
    pub open spec fn spec_view(self) -> (int, LineIssue) {
        (self.line as int, self.problem.issue())
    }

    /// A description of the warning.
    pub fn message(&self) -> (text: String)
        ensures
            match self.problem {
                LineProblem::NoSeparator => text@ == "no command/regex separation found"@,
                LineProblem::Rule(e) => e.message_ensures(text@),
            },
    {
        match &self.problem {
            LineProblem::NoSeparator => String::from_str("no command/regex separation found"),
            LineProblem::Rule(e) => e.message(),
        }
    }
}

/// The rules of a rule file and the lines that were skipped with a warning.
#[derive(Debug)]
pub struct RuleFile {
    /// The rules, in the order of their lines.
    pub rules: Vec<Rule>,
    /// The skipped lines, in order.
    pub warnings: Vec<LineWarning>,
}

/// A rule as its settings and its regular expression.
pub open spec fn rule_view(r: Rule) -> (Settings, Seq<char>) {
    (r.settings(), r.regex@)
}

/// What one line gave.
enum LineRead {
    Skipped,
    Parsed(Rule),
    Problem(LineProblem),
}

/// Reads the line `v[start..end]` of `content`.
fn read_line(content: &str, v: &Vec<char>, start: usize, end: usize) -> (r: LineRead)
    requires
        v@ == content@,
        start <= end <= v.len(),
    ensures
        ({
            let line = v@.subrange(start as int, end as int);
            match r {
                LineRead::Skipped => line_outcome(line) is Skipped,
                LineRead::Parsed(rule) => line_outcome(line) == LineOutcome::Rule(
                    RuleOutcome::Parsed(rule.settings()),
                    rule.regex@,
                ),
                LineRead::Problem(p) => start < end && match p {
                    LineProblem::NoSeparator => line_outcome(line) is NoSeparator,
                    LineProblem::Rule(e) => line_outcome(line) matches LineOutcome::Rule(o, _) && o
                        == e.outcome() && !(o is Parsed),
                },
            }
        }),
{
    let ghost line = v@.subrange(start as int, end as int);
    let (a, b) = trim_bounds(v, start, end);
    let ghost t = v@.subrange(a as int, b as int);
    if a == b || v[a] == '#' {
        return LineRead::Skipped;
    }
    match find_white_space(v, a, b) {
        None => LineRead::Problem(LineProblem::NoSeparator),
        Some(i) => {
            let w = a + i;
            let (c, d) = trim_bounds(v, w + 1, b);
            assert(t.take(i as int) =~= v@.subrange(a as int, w as int));
            assert(t.skip(i + 1) =~= v@.subrange(w + 1, b as int));
            let command = content.substring_char(a, w);
            let regex_str = content.substring_char(c, d);
            match parse_rule(command, regex_str) {
                Ok(rule) => LineRead::Parsed(rule),
                Err(e) => LineRead::Problem(LineProblem::Rule(e)),
            }
        },
    }
}

/// Adds what the line `v[start..end]` gives, as line number `index + 1`.
fn take_line(
    content: &str,
    v: &Vec<char>,
    start: usize,
    end: usize,
    index: usize,
    rules: &mut Vec<Rule>,
    warnings: &mut Vec<LineWarning>,
)
    requires
        v@ == content@,
        start <= end <= v.len(),
        index <= start,
    ensures
        final(rules)@.map_values(|r: Rule| rule_view(r)) == old(rules)@.map_values(
            |r: Rule| rule_view(r),
        ) + line_rules(v@.subrange(start as int, end as int)),
        final(warnings)@.map_values(|w: LineWarning| w.spec_view()) == old(warnings)@.map_values(
            |w: LineWarning| w.spec_view(),
        ) + line_warnings(index + 1, v@.subrange(start as int, end as int)),
{
    let ghost line = v@.subrange(start as int, end as int);
    match read_line(content, v, start, end) {
        LineRead::Skipped => {
            assert(old(rules)@.map_values(|r: Rule| rule_view(r)) + line_rules(line)
                =~= old(rules)@.map_values(|r: Rule| rule_view(r)));
            assert(old(warnings)@.map_values(|w: LineWarning| w.spec_view()) + line_warnings(
                index + 1,
                line,
            ) =~= old(warnings)@.map_values(|w: LineWarning| w.spec_view()));
        },
        LineRead::Parsed(rule) => {
            rules.push(rule);
            assert(rules@.map_values(|r: Rule| rule_view(r)) =~= old(rules)@.map_values(
                |r: Rule| rule_view(r),
            ) + line_rules(line));
            assert(old(warnings)@.map_values(|w: LineWarning| w.spec_view()) + line_warnings(
                index + 1,
                line,
            ) =~= old(warnings)@.map_values(|w: LineWarning| w.spec_view()));
        },
        LineRead::Problem(p) => {
            warnings.push(LineWarning { line: index + 1, problem: p });
            assert(old(rules)@.map_values(|r: Rule| rule_view(r)) + line_rules(line)
                =~= old(rules)@.map_values(|r: Rule| rule_view(r)));
            assert(warnings@.map_values(|w: LineWarning| w.spec_view()) =~= old(
                warnings,
            )@.map_values(|w: LineWarning| w.spec_view()) + line_warnings(index + 1, line));
        },
    }
}

/// Reads the rules of a rule file's text, one rule per line.
///
/// Blank lines and lines starting with `#` (after trimming) are skipped; a
/// line that has no white space after its command, or whose rule does not
/// parse, is skipped with a warning that carries its 1-based line number.
/// Individual lines never make the whole file fail.
pub fn parse_rules(content: &str) -> (f: RuleFile)
    ensures
        f.rules@.map_values(|r: Rule| rule_view(r)) == rules_of_text(content@),
        f.warnings@.map_values(|w: LineWarning| w.spec_view()) == warnings_of_lines(
            split_lines(content@),
        ),
{
    let v = chars_of(content);
    let mut rules: Vec<Rule> = Vec::new();
    let mut warnings: Vec<LineWarning> = Vec::new();
    let mut start: usize = 0;
    let mut index: usize = 0;
    let mut i: usize = 0;
    assert(rules@.map_values(|r: Rule| rule_view(r)) =~= Seq::empty());
    assert(warnings@.map_values(|w: LineWarning| w.spec_view()) =~= Seq::empty());
    assert(v@.take(0) =~= Seq::<char>::empty());
    while i < v.len()
        invariant
            v@ == content@,
            index <= start <= i <= v.len(),
            split_lines(v@.take(i as int)).len() == index + 1,
            split_lines(v@.take(i as int)).last() == v@.subrange(start as int, i as int),
            rules@.map_values(|r: Rule| rule_view(r)) == rules_of_lines(
                split_lines(v@.take(i as int)).drop_last(),
            ),
            warnings@.map_values(|w: LineWarning| w.spec_view()) == warnings_of_lines(
                split_lines(v@.take(i as int)).drop_last(),
            ),
        decreases v.len() - i,
    {
        let ghost lines = split_lines(v@.take(i as int));
        assert(v@.take(i + 1).drop_last() =~= v@.take(i as int));
        assert(v@.take(i + 1).last() == v@[i as int]);
        if v[i] == '\n' {
            take_line(content, &v, start, i, index, &mut rules, &mut warnings);
            assert(lines.push(Seq::empty()).drop_last() =~= lines);
            start = i + 1;
            index = index + 1;
        } else {
            let ghost next = lines.update(lines.len() - 1, lines.last().push(v@[i as int]));
            assert(next.drop_last() =~= lines.drop_last());
            assert(v@.subrange(start as int, i + 1) =~= v@.subrange(start as int, i as int).push(
                v@[i as int],
            ));
        }
        i = i + 1;
    }
    take_line(content, &v, start, i, index, &mut rules, &mut warnings);
    assert(v@.take(i as int) =~= content@);
    RuleFile { rules, warnings }
}


/// Why no rule file could be chosen.
#[derive(Debug, Clone, Copy, PartialEq, Eq, Structural)]
pub enum RulefileError {
    /// An unprivileged run without `--config` needs `HOME`, and it is not set.
    HomeNotSet,
}

impl RulefileError {
    /// A description of the error.
    pub fn message(&self) -> (text: String)
        ensures
            text@ == "HOME environment variable not set"@,
    {
        String::from_str("HOME environment variable not set")
    }
}

/// `base` with the relative path `name` appended, as `PathBuf::join` does on
/// Unix: a `/` goes between them unless `base` is empty or already ends in one.
pub open spec fn join_relative(base: Seq<char>, name: Seq<char>) -> Seq<char> {
    if base.len() == 0 || base.last() == '/' {
        base + name
    } else {
        base + seq!['/'] + name
    }
}

/// Chooses the rule file: an explicit `config` path wins; otherwise a
/// privileged run uses `/etc/reniced.conf` and an unprivileged one
/// `$HOME/.reniced`, which needs `home` (the value of `HOME`).
pub fn find_rulefile_inner(config: Option<&str>, privileged: bool, home: Option<&str>) -> (r: Result<
    String,
    RulefileError,
>)
    ensures
        config is Some ==> r is Ok && r->Ok_0@ == config->0@,
        config is None && privileged ==> r is Ok && r->Ok_0@ == "/etc/reniced.conf"@,
        config is None && !privileged && home is Some ==> r is Ok && r->Ok_0@ == join_relative(
            home->0@,
            ".reniced"@,
        ),
        config is None && !privileged && home is None ==> r == Err::<String, RulefileError>(
            RulefileError::HomeNotSet,
        ),
{
    if let Some(path) = config {
        return Ok(String::from_str(path));
    }
    if privileged {
        return Ok(String::from_str("/etc/reniced.conf"));
    }
    match home {
        None => Err(RulefileError::HomeNotSet),
        Some(h) => {
            let v = chars_of(h);
            if v.len() == 0 || v[v.len() - 1] == '/' {
                Ok(String::from_str(h).concat(".reniced"))
            } else {
                proof {
                    reveal_strlit("/");
                }
                Ok(String::from_str(h).concat("/").concat(".reniced"))
            }
        },
    }
}


/// A command that starts with `-` or an ASCII digit means the same as the
/// command with `n` in front: `5` is `n5`, `-10` is `n-10`.
pub proof fn law_bare_number_is_nice(command: Seq<char>, regex_str: Seq<char>)
    requires
        command.len() > 0,
        command[0] == '-' || is_ascii_digit(command[0]),
    ensures
        rule_outcome(command, regex_str) == rule_outcome(seq!['n'] + command, regex_str),
{
    assert((seq!['n'] + command)[0] == 'n');
}

/// The rules of lines that follow one another are the rules of the first lines
/// followed by those of the others.
pub proof fn lemma_rules_of_lines_append(x: Seq<Seq<char>>, y: Seq<Seq<char>>)
    ensures
        rules_of_lines(x + y) == rules_of_lines(x) + rules_of_lines(y),
    decreases y.len(),
{
    if y.len() == 0 {
        assert(x + y =~= x);
        assert(rules_of_lines(x) + rules_of_lines(y) =~= rules_of_lines(x));
    } else {
        assert((x + y).drop_last() =~= x + y.drop_last());
        assert((x + y).last() == y.last());
        lemma_rules_of_lines_append(x, y.drop_last());
        assert(rules_of_lines(x) + rules_of_lines(y.drop_last()) + line_rules(y.last())
            =~= rules_of_lines(x) + (rules_of_lines(y.drop_last()) + line_rules(y.last())));
    }
}

/// Joining two rule files with a newline joins their rules: the rules of
/// `a`, then those of `b`.
pub proof fn law_rule_files_concatenate(a: Seq<char>, b: Seq<char>)
    ensures
        rules_of_text(a + seq!['\n'] + b) == rules_of_text(a) + rules_of_text(b),
{
    lemma_split_lines_join(a, b);
    lemma_rules_of_lines_append(split_lines(a), split_lines(b));
}

/// Every rule read from a rule file sets at least one adjustment and has a
/// regular expression that compiles.
pub proof fn law_read_rules_are_valid(content: Seq<char>)
    ensures
        forall|i: int|
            0 <= i < rules_of_text(content).len() ==> {
                &&& (#[trigger] rules_of_text(content)[i]).0.has_action()
                &&& regex_compiles(rules_of_text(content)[i].1)
            },
{
    lemma_rules_of_lines_valid(split_lines(content));
}

/// Every rule of `lines` sets an adjustment and has a regular expression that
/// compiles.
pub proof fn lemma_rules_of_lines_valid(lines: Seq<Seq<char>>)
    ensures
        forall|i: int|
            0 <= i < rules_of_lines(lines).len() ==> {
                &&& (#[trigger] rules_of_lines(lines)[i]).0.has_action()
                &&& regex_compiles(rules_of_lines(lines)[i].1)
            },
    decreases lines.len(),
{
    if lines.len() > 0 {
        lemma_rules_of_lines_valid(lines.drop_last());
        let prev = rules_of_lines(lines.drop_last());
        let last = line_rules(lines.last());
        assert forall|i: int| 0 <= i < rules_of_lines(lines).len() implies {
            &&& (#[trigger] rules_of_lines(lines)[i]).0.has_action()
            &&& regex_compiles(rules_of_lines(lines)[i].1)
        } by {
            if i >= prev.len() {
                assert(rules_of_lines(lines)[i] == last[i - prev.len()]);
            } else {
                assert(rules_of_lines(lines)[i] == prev[i]);
            }
        }
    }
}


/// Runs of digits in a text that follows `x` are those of the text alone.
pub proof fn lemma_digit_run_shift(x: Seq<char>, y: Seq<char>, q: int)
    requires
        0 <= q <= y.len(),
    ensures
        digit_run_len(x + y, x.len() + q) == digit_run_len(y, q),
    decreases y.len() - q,
{
    if q < y.len() {
        assert((x + y)[x.len() + q] == y[q]);
        lemma_digit_run_shift(x, y, q + 1);
    }
}

/// Tokens in a text that follows `x` are those of the text alone.
pub proof fn lemma_token_shift(x: Seq<char>, y: Seq<char>, q: int)
    requires
        0 <= q < y.len(),
    ensures
        token_tail_len(x + y, x.len() + q) == token_tail_len(y, q),
        token_tail_len(y, q) matches Some(k) ==> (x + y).subrange(
            x.len() + q,
            x.len() + q + 1 + k,
        ) == y.subrange(q, q + 1 + k),
{
    let s = x + y;
    let p = x.len() + q;
    assert(s[p] == y[q]);
    if q + 1 < y.len() {
        assert(s[p + 1] == y[q + 1]);
    }
    if q + 2 < y.len() {
        assert(s[p + 2] == y[q + 2]);
    }
    lemma_digit_run_shift(x, y, q + 1);
    if q + 2 <= y.len() {
        lemma_digit_run_shift(x, y, q + 2);
    }
    lemma_token_bound(y, q);
    if let Some(k) = token_tail_len(y, q) {
        assert(s.subrange(p, p + 1 + k) =~= y.subrange(q, q + 1 + k));
    }
}

/// Reading the tokens of a text that follows `x` is reading the text alone.
pub proof fn lemma_scan_shift(x: Seq<char>, y: Seq<char>, q: int, st: Settings)
    requires
        0 <= q <= y.len(),
    ensures
        scan_tokens(x + y, x.len() + q, st) == scan_tokens(y, q, st),
    decreases y.len() - q,
{
    if q < y.len() {
        lemma_token_shift(x, y, q);
        lemma_token_bound(y, q);
        match token_tail_len(y, q) {
            None => {
                lemma_scan_shift(x, y, q + 1, st);
            },
            Some(k) => {
                match apply_token(st, y.subrange(q, q + 1 + k)) {
                    Ok(next) => {
                        lemma_scan_shift(x, y, q + 1 + k, next);
                    },
                    Err(_) => {},
                }
            },
        }
    }
}

/// Runs of digits that start in `c` end before a separator that is no digit.
pub proof fn lemma_digit_run_prefix(c: Seq<char>, rest: Seq<char>, q: int)
    requires
        0 <= q <= c.len(),
        rest.len() > 0,
        !is_decimal_digit(rest[0]),
    ensures
        digit_run_len(c + rest, q) == digit_run_len(c, q),
    decreases c.len() - q,
{
    let s = c + rest;
    if q < c.len() {
        assert(s[q] == c[q]);
        lemma_digit_run_prefix(c, rest, q + 1);
    } else {
        assert(s[q] == rest[0]);
    }
}

/// Tokens that start in `c` end inside `c` when a white-space character
/// follows it.
pub proof fn lemma_token_prefix(c: Seq<char>, rest: Seq<char>, p: int)
    requires
        0 <= p < c.len(),
        rest.len() > 0,
        is_white_space(rest[0]),
    ensures
        token_tail_len(c + rest, p) == token_tail_len(c, p),
        token_tail_len(c, p) matches Some(k) ==> (c + rest).subrange(p, p + 1 + k) == c.subrange(
            p,
            p + 1 + k,
        ),
{
    let s = c + rest;
    assert(s[p] == c[p]);
    assert(p + 1 < c.len() ==> s[p + 1] == c[p + 1]);
    assert(p + 1 == c.len() ==> s[p + 1] == rest[0]);
    assert(p + 2 < c.len() ==> s[p + 2] == c[p + 2]);
    assert(p + 2 == c.len() ==> s[p + 2] == rest[0]);
    lemma_digit_run_prefix(c, rest, p + 1);
    if p + 2 <= c.len() {
        lemma_digit_run_prefix(c, rest, p + 2);
    }
    lemma_token_bound(c, p);
    if let Some(k) = token_tail_len(c, p) {
        assert(s.subrange(p, p + 1 + k) =~= c.subrange(p, p + 1 + k));
    }
}

/// Reading the tokens of `c` followed by white space and more text reads `c`
/// first, then goes on from where `c` ends.
pub proof fn lemma_scan_prefix(c: Seq<char>, rest: Seq<char>, p: int, st: Settings)
    requires
        0 <= p <= c.len(),
        rest.len() > 0,
        is_white_space(rest[0]),
    ensures
        scan_tokens(c + rest, p, st) == match scan_tokens(c, p, st) {
            Ok(mid) => scan_tokens(c + rest, c.len() as int, mid),
            Err(e) => Err(e),
        },
    decreases c.len() - p,
{
    if p < c.len() {
        lemma_token_prefix(c, rest, p);
        lemma_token_bound(c, p);
        match token_tail_len(c, p) {
            None => {
                lemma_scan_prefix(c, rest, p + 1, st);
            },
            Some(k) => {
                match apply_token(st, c.subrange(p, p + 1 + k)) {
                    Ok(next) => {
                        lemma_scan_prefix(c, rest, p + 1 + k, next);
                    },
                    Err(_) => {},
                }
            },
        }
    }
}

/// Commands compose: the command `first second`, with white space between
/// them, sets what `first` sets and then what `second` sets, a later value
/// overriding an earlier one; a number that cannot be read in `first` stops
/// the reading there.
pub proof fn law_commands_compose(first: Seq<char>, space: char, second: Seq<char>, st: Settings)
    requires
        is_white_space(space),
    ensures
        scan_tokens(first + seq![space] + second, 0, st) == match scan_tokens(first, 0, st) {
            Ok(mid) => scan_tokens(second, 0, mid),
            Err(e) => Err(e),
        },
{
    let rest = seq![space] + second;
    assert(first + seq![space] + second =~= first + rest);
    lemma_scan_prefix(first, rest, 0, st);
    if let Ok(mid) = scan_tokens(first, 0, st) {
        let s = first + rest;
        assert(s[first.len() as int] == space);
        assert(token_tail_len(s, first.len() as int) is None);
        assert(s =~= (first + seq![space]) + second);
        lemma_scan_shift(first + seq![space], second, 0, mid);
    }
}


/// Warnings with their line numbers moved down by `k` lines.
pub open spec fn shift_warnings(ws: Seq<(int, LineIssue)>, k: int) -> Seq<(int, LineIssue)> {
    ws.map_values(|w: (int, LineIssue)| (w.0 + k, w.1))
}

/// The warnings of lines that follow `x` are their own warnings, numbered
/// after the lines of `x`.
pub proof fn lemma_warnings_of_lines_append(x: Seq<Seq<char>>, y: Seq<Seq<char>>)
    ensures
        warnings_of_lines(x + y) == warnings_of_lines(x) + shift_warnings(
            warnings_of_lines(y),
            x.len() as int,
        ),
    decreases y.len(),
{
    if y.len() == 0 {
        assert(x + y =~= x);
        assert(warnings_of_lines(x) + shift_warnings(warnings_of_lines(y), x.len() as int)
            =~= warnings_of_lines(x));
    } else {
        assert((x + y).drop_last() =~= x + y.drop_last());
        assert((x + y).last() == y.last());
        lemma_warnings_of_lines_append(x, y.drop_last());
        let k = x.len() as int;
        let prev = warnings_of_lines(y.drop_last());
        let own = line_warnings(y.len() as int, y.last());
        assert(line_warnings((x + y).len() as int, y.last()) =~= shift_warnings(own, k));
        assert(shift_warnings(prev + own, k) =~= shift_warnings(prev, k) + shift_warnings(own, k));
        assert(warnings_of_lines(x) + shift_warnings(prev, k) + shift_warnings(own, k)
            =~= warnings_of_lines(x) + (shift_warnings(prev, k) + shift_warnings(own, k)));
    }
}

/// Joining two rule files with a newline keeps the warnings of the first and
/// numbers those of the second after the lines of the first.
pub proof fn law_rule_file_warnings_concatenate(a: Seq<char>, b: Seq<char>)
    ensures
        warnings_of_lines(split_lines(a + seq!['\n'] + b)) == warnings_of_lines(split_lines(a))
            + shift_warnings(warnings_of_lines(split_lines(b)), split_lines(a).len() as int),
{
    lemma_split_lines_join(a, b);
    lemma_warnings_of_lines_append(split_lines(a), split_lines(b));
}


/// An `n` or `o` that starts a command without a (signed) number after it is
/// an invalid number, as in `nabc` and `oxyz`.
pub proof fn law_letter_without_number_is_invalid(command: Seq<char>, regex_str: Seq<char>)
    requires
        command.len() > 0,
        command[0] == 'n' || command[0] == 'o',
        !(command.len() > 1 && is_decimal_digit(command[1])),
        !(command.len() > 2 && command[1] == '-' && is_decimal_digit(command[2])),
    ensures
        rule_outcome(command, regex_str) is InvalidNumber,
{
    assert(normalize_command(command) == command);
    if command.len() > 1 && command[1] == '-' {
        assert(digit_run_len(command, 2) == 0);
        assert(command.subrange(0, 2).drop_first() =~= seq!['-']);
    } else {
        assert(digit_run_len(command, 1) == 0);
        assert(command.subrange(0, 1).drop_first() =~= Seq::<char>::empty());
    }
}


/// A line whose trimmed text starts with `#` is a comment: it gives no rule
/// and no warning, whatever follows the `#`.
pub proof fn law_comment_lines_are_skipped(line: Seq<char>, number: int)
    requires
        trim(line).len() > 0,
        trim(line)[0] == '#',
    ensures
        line_outcome(line) is Skipped,
        line_rules(line) == Seq::<(Settings, Seq<char>)>::empty(),
        line_warnings(number, line) == Seq::<(int, LineIssue)>::empty(),
{
}

/// A rule line is split at its first white-space character (any character
/// with `char::is_whitespace`, tab included): the command is the text before
/// it and the regular expression is the trimmed text after it.
pub proof fn law_line_splits_at_first_white_space(line: Seq<char>, i: int)
    requires
        trim(line).len() > 0,
        trim(line)[0] != '#',
        0 <= i < trim(line).len(),
        is_white_space(trim(line)[i]),
        forall|j: int| 0 <= j < i ==> !is_white_space(#[trigger] trim(line)[j]),
    ensures
        line_outcome(line) == LineOutcome::Rule(
            rule_outcome(trim(line).take(i), trim(trim(line).skip(i + 1))),
            trim(trim(line).skip(i + 1)),
        ),
{
    law_first_white_space(trim(line), i);
}

/// A digit run over ASCII digits reaches the end of the text.
proof fn lemma_ascii_digits_run(s: Seq<char>, q: int)
    requires
        0 <= q <= s.len(),
        forall|k: int| q <= k < s.len() ==> is_ascii_digit(#[trigger] s[k]),
    ensures
        digit_run_len(s, q) == s.len() - q,
    decreases s.len() - q,
{
    if q < s.len() {
        assert(is_ascii_digit(s[q]));
        lemma_ascii_digits_run(s, q + 1);
    }
}

/// Reading a single token `letter digits` that spans the whole text.
proof fn lemma_scan_single_token(letter: char, digits: Seq<char>, st: Settings)
    requires
        letter == 'n' || letter == 'o' || letter == 'r' || letter == 'b' || letter == 'i',
        forall|k: int| 0 <= k < digits.len() ==> is_ascii_digit(#[trigger] digits[k]),
        (letter == 'n' || letter == 'o') ==> digits.len() > 0,
    ensures
        scan_tokens(seq![letter] + digits, 0, st) == apply_token(st, seq![letter] + digits),
{
    let tok = seq![letter] + digits;
    assert forall|k: int| 1 <= k < tok.len() implies is_ascii_digit(#[trigger] tok[k]) by {
        assert(tok[k] == digits[k - 1]);
    }
    lemma_ascii_digits_run(tok, 1);
    if letter == 'n' || letter == 'o' {
        assert(tok[1] == digits[0]);
        assert(tok[1] != '-');
    }
    assert(token_tail_len(tok, 0) == Some((tok.len() - 1) as nat));
    assert(tok.subrange(0, tok.len() as int) =~= tok);
    match apply_token(st, tok) {
        Ok(next) => {
            assert(scan_tokens(tok, tok.len() as int, next) == Ok::<Settings, NumberError>(next));
        },
        Err(_) => {},
    }
}

/// A later `n` or `o` token overrides what came before: after any command
/// `first` that reads without error, white space and `n<digits>` (or
/// `o<digits>`) set the nice value (or the OOM adjustment) to the number the
/// digits read as, and leave every other setting as `first` left it.
pub proof fn law_last_number_token_wins(
    first: Seq<char>,
    space: char,
    letter: char,
    digits: Seq<char>,
    st: Settings,
)
    requires
        is_white_space(space),
        letter == 'n' || letter == 'o',
        digits.len() > 0,
        forall|k: int| 0 <= k < digits.len() ==> is_ascii_digit(#[trigger] digits[k]),
        scan_tokens(first, 0, st) is Ok,
        read_i32(digits) is Ok,
    ensures
        ({
            let mid = scan_tokens(first, 0, st)->Ok_0;
            let v = read_i32(digits)->Ok_0;
            scan_tokens(first + seq![space] + (seq![letter] + digits), 0, st) == Ok::<
                Settings,
                NumberError,
            >(
                if letter == 'n' {
                    Settings { nice: Some(v), oom_adj: mid.oom_adj, io_class: mid.io_class, io_nice: mid.io_nice }
                } else {
                    Settings { nice: mid.nice, oom_adj: Some(v), io_class: mid.io_class, io_nice: mid.io_nice }
                },
            )
        }),
{
    let tok = seq![letter] + digits;
    law_commands_compose(first, space, tok, st);
    let mid = scan_tokens(first, 0, st)->Ok_0;
    lemma_scan_single_token(letter, digits, mid);
    assert(tok.drop_first() =~= digits);
}

/// The same for a whole rule: a command that ends in white space and
/// `n<digits>` or `o<digits>` gives a rule with that nice value or OOM
/// adjustment whenever its regular expression compiles.
pub proof fn law_rule_takes_last_number_token(
    first: Seq<char>,
    space: char,
    letter: char,
    digits: Seq<char>,
    regex_str: Seq<char>,
)
    requires
        is_white_space(space),
        letter == 'n' || letter == 'o',
        digits.len() > 0,
        forall|k: int| 0 <= k < digits.len() ==> is_ascii_digit(#[trigger] digits[k]),
        !(first.len() > 0 && (first[0] == '-' || is_ascii_digit(first[0]))),
        scan_tokens(first, 0, Settings::spec_none()) is Ok,
        read_i32(digits) is Ok,
        regex_compiles(regex_str),
    ensures
        ({
            let v = read_i32(digits)->Ok_0;
            rule_outcome(first + seq![space] + (seq![letter] + digits), regex_str) matches RuleOutcome::Parsed(s)
                && (if letter == 'n' { s.nice == Some(v) } else { s.oom_adj == Some(v) })
        }),
{
    let cmd = first + seq![space] + (seq![letter] + digits);
    if first.len() > 0 {
        assert(cmd[0] == first[0]);
    } else {
        assert(cmd[0] == space);
    }
    assert(normalize_command(cmd) == cmd);
    law_last_number_token_wins(first, space, letter, digits, Settings::spec_none());
}

/// A later I/O class token overrides what came before: after any command
/// `first` that reads without error, white space and `r`, `b` or `i` with
/// digits set the class (realtime, best effort, idle) and, when there are
/// digits, the level they read as; without digits the level stays as it was.
pub proof fn law_last_io_token_wins(
    first: Seq<char>,
    space: char,
    letter: char,
    digits: Seq<char>,
    st: Settings,
)
    requires
        is_white_space(space),
        letter == 'r' || letter == 'b' || letter == 'i',
        forall|k: int| 0 <= k < digits.len() ==> is_ascii_digit(#[trigger] digits[k]),
        scan_tokens(first, 0, st) is Ok,
        digits.len() > 0 ==> read_u8(digits) is Ok,
    ensures
        ({
            let mid = scan_tokens(first, 0, st)->Ok_0;
            let class = if letter == 'r' {
                IoClass::Realtime
            } else if letter == 'b' {
                IoClass::BestEffort
            } else {
                IoClass::Idle
            };
            let level = if digits.len() > 0 {
                Some(read_u8(digits)->Ok_0)
            } else {
                mid.io_nice
            };
            scan_tokens(first + seq![space] + (seq![letter] + digits), 0, st) == Ok::<
                Settings,
                NumberError,
            >(Settings { nice: mid.nice, oom_adj: mid.oom_adj, io_class: Some(class), io_nice: level })
        }),
{
    let tok = seq![letter] + digits;
    law_commands_compose(first, space, tok, st);
    let mid = scan_tokens(first, 0, st)->Ok_0;
    lemma_scan_single_token(letter, digits, mid);
    assert(tok.drop_first() =~= digits);
}


/// A blank line (only white space) gives no rule and no warning; a line with
/// text, not a comment, and no white space inside is skipped with the
/// "no separation" warning.
pub proof fn law_blank_and_unseparated_lines(line: Seq<char>, number: int)
    ensures
        trim(line).len() == 0 ==> line_outcome(line) is Skipped && line_warnings(number, line)
            == Seq::<(int, LineIssue)>::empty(),
        (trim(line).len() > 0 && trim(line)[0] != '#' && forall|j: int|
            0 <= j < trim(line).len() ==> !is_white_space(#[trigger] trim(line)[j]))
            ==> line_outcome(line) is NoSeparator && line_warnings(number, line) == seq![
            (number, LineIssue::NoSeparator),
        ] && line_rules(line) == Seq::<(Settings, Seq<char>)>::empty(),
{
    law_first_white_space(trim(line), 0);
}

} // verus!
