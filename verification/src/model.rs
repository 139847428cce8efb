//! The rules and processes that the library reasons about.

use vstd::prelude::*;

verus! {

/// The compiled regular expression of the `regex` crate.
#[verifier::external_type_specification]
#[verifier::external_body]
pub struct ExRegex(regex::Regex);

/// `regex::Regex::clone`: a handle to the same compiled expression.
pub assume_specification[ <regex::Regex as Clone>::clone ](re: &regex::Regex) -> regex::Regex;

/// The error that the `regex` crate reports for a pattern it cannot compile.
#[verifier::external_type_specification]
#[verifier::external_body]
pub struct ExRegexError(regex::Error);

/// Whether `regex::Regex::new` accepts `pattern` (with the crate's default
/// syntax and size limits).
pub uninterp spec fn regex_compiles(pattern: Seq<char>) -> bool;

/// Whether the regular expression compiled from `pattern` matches somewhere in
/// `haystack`, as `regex::Regex::is_match` reports it.
pub uninterp spec fn regex_is_match(pattern: Seq<char>, haystack: Seq<char>) -> bool;

/// A regular expression together with the pattern text it was compiled from.
///
/// The only way to build one is `Pattern::compile`, so the compiled expression
/// always belongs to the text.
#[derive(Debug)]
pub struct Pattern {
    source: String,
    compiled: regex::Regex,
}

impl Clone for Pattern {
    /// The same pattern text with a handle to the same compiled expression.
    fn clone(&self) -> (c: Pattern)
        ensures
            c@ == self@,
    {
        Pattern { source: self.source.clone(), compiled: self.compiled.clone() }
    }
}

impl View for Pattern {
    type V = Seq<char>;

    /// The pattern text.
    closed spec fn view(&self) -> Seq<char> {
        self.source@
    }
}

impl Pattern {
    /// Compiles `source` with `regex::Regex::new`.
    ///
    /// Trusted: the contract claims that `Regex::new` succeeds exactly on the
    /// patterns named by `regex_compiles`, a property of the pattern text alone,
    /// and that the result keeps the text.
    #[verifier::external_body]
    pub(crate) fn compile(source: &str) -> (r: Result<Pattern, regex::Error>)
        ensures
            r is Ok <==> regex_compiles(source@),
            r matches Ok(p) ==> p@ == source@,
    {
        match regex::Regex::new(source) {
            Ok(compiled) => Ok(Pattern { source: source.to_string(), compiled }),
            Err(e) => Err(e),
        }
    }

    /// Compiles `source` into a pattern, or gives the regex compiler's error.
    pub fn new(source: &str) -> (r: Result<Pattern, regex::Error>)
        ensures
            r is Ok <==> regex_compiles(source@),
            r matches Ok(p) ==> p@ == source@,
    {
        Pattern::compile(source)
    }

    /// Whether the pattern matches somewhere in `haystack`.
    pub fn matches(&self, haystack: &str) -> (b: bool)
        ensures
            b == regex_is_match(self@, haystack@),
    {
        self.is_match(haystack)
    }

    /// Tests `haystack` with `regex::Regex::is_match`.
    ///
    /// Trusted: the contract claims that the answer is the one named by
    /// `regex_is_match` for the pattern text and the haystack.
    #[verifier::external_body]
    pub(crate) fn is_match(&self, haystack: &str) -> (b: bool)
        ensures
            b == regex_is_match(self@, haystack@),
    {
        self.compiled.is_match(haystack)
    }

    /// The pattern text.
    pub fn as_str(&self) -> (s: &str)
        ensures
            s@ == self@,
    {
        self.source.as_str()
    }
}

/// The I/O scheduling class for a process.
#[derive(Debug, Clone, Copy, PartialEq, Eq, Structural)]
pub enum IoClass {
    /// Highest I/O priority.
    Realtime,
    /// The default class; its level gives eight priorities.
    BestEffort,
    /// I/O only when no other process has pending disk operations.
    Idle,
}

/// The adjustments that a rule asks for.
#[derive(Debug, Clone, Copy, PartialEq, Eq, Structural)]
pub struct Settings {
    /// The CPU nice value, if set.
    pub nice: Option<i32>,
    /// The legacy OOM adjustment (`oom_adj` scale), if set.
    pub oom_adj: Option<i32>,
    /// The I/O scheduling class, if set.
    pub io_class: Option<IoClass>,
    /// The I/O priority level within the class, if set.
    pub io_nice: Option<u8>,
}

impl Settings {
    /// Nothing set.
    pub open spec fn spec_none() -> Settings {
        Settings { nice: None, oom_adj: None, io_class: None, io_nice: None }
    }

    /// Nothing set.
    pub fn none() -> (s: Settings)
        ensures
            s == Settings::spec_none(),
    {
        Settings { nice: None, oom_adj: None, io_class: None, io_nice: None }
    }

    /// At least one of nice, OOM adjustment and I/O class is set.
    pub open spec fn has_action(self) -> bool {
        self.nice is Some || self.oom_adj is Some || self.io_class is Some
    }
}

/// A rule: a regular expression that selects processes and the adjustments to
/// apply to them.
#[derive(Debug)]
pub struct Rule {
    /// The regular expression matched against the process field that the
    /// match target names.
    pub regex: Pattern,
    /// The CPU nice value to apply, if set.
    pub nice: Option<i32>,
    /// The legacy OOM adjustment to apply, if set.
    pub oom_adj: Option<i32>,
    /// The I/O scheduling class to apply, if set.
    pub io_class: Option<IoClass>,
    /// The I/O priority level within the class, if set.
    pub io_nice: Option<u8>,
}

impl Clone for Rule {
    /// A rule with the same regular expression and adjustments.
    fn clone(&self) -> (c: Rule)
        ensures
            c.regex@ == self.regex@,
            c.settings() == self.settings(),
    {
        Rule {
            regex: self.regex.clone(),
            nice: self.nice,
            oom_adj: self.oom_adj,
            io_class: self.io_class,
            io_nice: self.io_nice,
        }
    }
}

impl Rule {
    /// The adjustments of the rule.
    pub open spec fn settings(self) -> Settings {
        Settings {
            nice: self.nice,
            oom_adj: self.oom_adj,
            io_class: self.io_class,
            io_nice: self.io_nice,
        }
    }
}

/// Whether an entry is a process or one of its threads.
#[derive(Debug, Clone, Copy, PartialEq, Eq, Structural)]
pub enum ProcessKind {
    /// A main process.
    Process,
    /// A thread belonging to a process.
    Thread,
}

/// A running process or thread.
#[derive(Debug, Clone)]
pub struct ProcessEntry {
    /// The process ID or thread ID.
    pub pid: i32,
    /// The full command line.
    pub cmd: String,
    /// The process name (on Linux at most 15 characters).
    pub name: String,
    /// The full path to the executable, if known.
    pub exe: Option<String>,
    /// Whether this is a process or a thread.
    pub kind: ProcessKind,
}

} // verus!
