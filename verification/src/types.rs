//! The shared data model: severities, declared checks and fixes, findings,
//! reports, rule metadata, and per-rule configuration.

use vstd::prelude::*;

use crate::fsmodel::path_view;
use crate::text::str_eq;

verus! {

/// Severity level for lint results.
#[derive(Debug, Clone, Copy, PartialEq, Eq, Structural)]
pub enum Severity {
    Error,
    Warning,
    Info,
}

impl Severity {
    /// The label under which a severity is reported.
    pub open spec fn label(self) -> Seq<char> {
        match self {
            Severity::Error => "error"@,
            Severity::Warning => "warning"@,
            Severity::Info => "info"@,
        }
    }

    /// The label under which a severity is reported.
    pub fn as_str(&self) -> (r: &'static str)
        ensures
            r@ == self.label(),
    {
        match self {
            Severity::Error => "error",
            Severity::Warning => "warning",
            Severity::Info => "info",
        }
    }

    /// The severity carrying a configuration name ("Error", "Warning" or
    /// "Info"), if the text is one.
    pub open spec fn spec_of_name(s: Seq<char>) -> Option<Severity> {
        if s == "Error"@ {
            Some(Severity::Error)
        } else if s == "Warning"@ {
            Some(Severity::Warning)
        } else if s == "Info"@ {
            Some(Severity::Info)
        } else {
            None
        }
    }

    /// Reads a severity from its configuration name.
    pub fn of_name(s: &str) -> (r: Option<Severity>)
        ensures
            r == Severity::spec_of_name(s@),
    {
        if str_eq(s, "Error") {
            Some(Severity::Error)
        } else if str_eq(s, "Warning") {
            Some(Severity::Warning)
        } else if str_eq(s, "Info") {
            Some(Severity::Info)
        } else {
            None
        }
    }
}

/// The mathematical model of a declared check.
#[verifier::ext_equal]
pub struct CheckV {
    pub id: Seq<char>,
    pub description: Seq<char>,
}

/// Describes a single check operation a rule performs.
pub struct CheckEntry {
    /// Unique identifier within the rule.
    pub id: String,
    /// Human-readable description of what this check validates.
    pub description: String,
}

impl View for CheckEntry {
    type V = CheckV;

    open spec fn view(&self) -> CheckV {
        CheckV { id: self.id@, description: self.description@ }
    }
}

impl CheckEntry {
    pub fn new(id: &str, description: &str) -> (r: Self)
        ensures
            r@ == (CheckV { id: id@, description: description@ }),
    {
        Self { id: id.to_owned(), description: description.to_owned() }
    }
}

/// The model of a list of declared checks.
pub open spec fn checks_view(v: Vec<CheckEntry>) -> Seq<CheckV> {
    Seq::new(v@.len(), |i: int| v@[i]@)
}

/// The mathematical model of a declared fix.
#[verifier::ext_equal]
pub struct FixV {
    pub id: Seq<char>,
    pub description: Seq<char>,
    pub addresses: Seq<Seq<char>>,
}

/// Describes a single fix operation a rule can perform.
pub struct FixEntry {
    /// Unique identifier within the rule.
    pub id: String,
    /// Human-readable description of what this fix does.
    pub description: String,
    /// Which check IDs this fix addresses.
    pub addresses: Vec<String>,
}

/// The model of a list of identifiers.
pub open spec fn ids_view(v: Seq<&str>) -> Seq<Seq<char>> {
    Seq::new(v.len(), |i: int| v[i]@)
}

/// Owned copies of a list of identifiers.
#[verifier::loop_isolation(false)]
pub fn own_ids(ids: Vec<&str>) -> (r: Vec<String>)
    ensures
        path_view(r) == ids_view(ids@),
{
    let mut owned: Vec<String> = Vec::new();
    let n = ids.len();
    let mut i: usize = 0;
    while i < n
        invariant
            0 <= i <= n,
            owned@.len() == i,
            forall|k: int| 0 <= k < i ==> owned@[k]@ == ids@[k]@,
        decreases n - i,
    {
        owned.push(ids[i].to_owned());
        i += 1;
    }
    assert(path_view(owned) =~= ids_view(ids@));
    owned
}

impl View for FixEntry {
    type V = FixV;

    open spec fn view(&self) -> FixV {
        FixV { id: self.id@, description: self.description@, addresses: path_view(self.addresses) }
    }
}

impl FixEntry {
    pub fn new(id: &str, description: &str, addresses: Vec<&str>) -> (r: Self)
        ensures
            r@ == (FixV { id: id@, description: description@, addresses: ids_view(addresses@) }),
    {
        Self { id: id.to_owned(), description: description.to_owned(), addresses: own_ids(addresses) }
    }
}

/// The model of a list of declared fixes.
pub open spec fn fixes_view(v: Vec<FixEntry>) -> Seq<FixV> {
    Seq::new(v@.len(), |i: int| v@[i]@)
}

/// The mathematical model of a finding.  The suggestion text stays outside
/// the model; everything else, the message included, is pinned.
#[verifier::ext_equal]
pub struct Finding {
    pub rule_id: Seq<char>,
    pub check_id: Seq<char>,
    pub severity: Seq<char>,
    pub message: Seq<char>,
    pub path: Seq<Seq<char>>,
    pub line: Option<u32>,
    pub fixable_by: Seq<Seq<char>>,
}

/// A single lint result.
#[derive(Debug)]
pub struct LintResult {
    /// The rule that produced this result.
    pub rule_id: String,
    /// The specific check within the rule that produced this result.
    pub check_id: String,
    /// Severity label ("error", "warning" or "info").
    pub severity: String,
    /// Human-readable message describing the issue.
    pub message: String,
    /// Path where the issue was found, as components relative to the root.
    pub path: Vec<String>,
    /// Line number, if applicable.
    pub line: Option<u32>,
    /// Suggestion for how to fix the issue.
    pub suggestion: Option<String>,
    /// Which fix IDs can address this issue.
    pub fixable_by: Vec<String>,
}

impl View for LintResult {
    type V = Finding;

    open spec fn view(&self) -> Finding {
        Finding {
            rule_id: self.rule_id@,
            check_id: self.check_id@,
            severity: self.severity@,
            message: self.message@,
            path: path_view(self.path),
            line: self.line,
            fixable_by: path_view(self.fixable_by),
        }
    }
}

/// The model of a list of results.
pub open spec fn results_view(v: Vec<LintResult>) -> Seq<Finding> {
    Seq::new(v@.len(), |i: int| v@[i]@)
}

impl LintResult {
    /// Creates a new result.
    pub fn new(
        rule_id: &str,
        check_id: &str,
        severity: Severity,
        message: String,
        path: Vec<String>,
        line: Option<u32>,
        suggestion: Option<String>,
        fixable_by: Vec<&str>,
    ) -> (r: Self)
        ensures
            r@ == (Finding {
                rule_id: rule_id@,
                check_id: check_id@,
                severity: severity.label(),
                message: message@,
                path: path_view(path),
                line: line,
                fixable_by: ids_view(fixable_by@),
            }),
            r.suggestion == suggestion,
    {
        Self {
            rule_id: rule_id.to_owned(),
            check_id: check_id.to_owned(),
            severity: severity.as_str().to_owned(),
            message,
            path,
            line,
            suggestion,
            fixable_by: own_ids(fixable_by),
        }
    }
}

/// How many findings carry the severity label `label`.
pub open spec fn count_severity(rs: Seq<Finding>, label: Seq<char>) -> nat
    decreases rs.len(),
{
    if rs.len() == 0 {
        0
    } else {
        count_severity(rs.drop_last(), label) + if rs.last().severity == label {
            1nat
        } else {
            0nat
        }
    }
}

/// A count clamped to what the report's counters can hold.
pub open spec fn sat32(n: nat) -> nat {
    if n > u32::MAX {
        u32::MAX as nat
    } else {
        n
    }
}

/// Adds two counters, clamping at what they can hold.
pub fn sat_add_u32(a: u32, b: u32) -> (r: u32)
    ensures
        r == sat32(a as nat + b as nat),
{
    if a <= u32::MAX - b {
        a + b
    } else {
        u32::MAX
    }
}

/// Complete lint report.
#[derive(Debug)]
pub struct LintReport {
    pub results: Vec<LintResult>,
    pub error_count: u32,
    pub warning_count: u32,
    pub info_count: u32,
    pub fixed_count: u32,
}

impl LintReport {
    /// Aggregates results into a report; the counts are derived entirely
    /// from the results list and the externally supplied fixed counter.
    #[verifier::loop_isolation(false)]
    pub fn new(results: Vec<LintResult>, fixed_count: u32) -> (r: Self)
        ensures
            r.results == results,
            r.error_count == sat32(count_severity(results_view(results), "error"@)),
            r.warning_count == sat32(count_severity(results_view(results), "warning"@)),
            r.info_count == sat32(count_severity(results_view(results), "info"@)),
            r.fixed_count == fixed_count,
    {
        proof {
            reveal_strlit("error");
            reveal_strlit("warning");
            reveal_strlit("info");
            assert("error"@.len() == 5 && "warning"@.len() == 7 && "info"@.len() == 4);
        }
        let ghost rv = results_view(results);
        let mut error_count: u32 = 0;
        let mut warning_count: u32 = 0;
        let mut info_count: u32 = 0;
        let n = results.len();
        let mut i: usize = 0;
        assert(rv.take(0) =~= Seq::<Finding>::empty());
        while i < n
            invariant
                0 <= i <= n,
                error_count == sat32(count_severity(rv.take(i as int), "error"@)),
                warning_count == sat32(count_severity(rv.take(i as int), "warning"@)),
                info_count == sat32(count_severity(rv.take(i as int), "info"@)),
            decreases n - i,
        {
            proof {
                assert(rv.take(i + 1).drop_last() =~= rv.take(i as int));
                assert(rv.take(i + 1).last() == rv[i as int]);
            }
            let sev = &results[i].severity;
            if str_eq(sev.as_str(), "error") {
                if error_count < u32::MAX {
                    error_count += 1;
                }
            } else if str_eq(sev.as_str(), "warning") {
                if warning_count < u32::MAX {
                    warning_count += 1;
                }
            } else if str_eq(sev.as_str(), "info") {
                if info_count < u32::MAX {
                    info_count += 1;
                }
            }
            i += 1;
        }
        assert(rv.take(n as int) =~= rv);
        Self { results, error_count, warning_count, info_count, fixed_count }
    }
}

/// The mathematical model of a rule's descriptive snapshot.
#[verifier::ext_equal]
pub struct RInfo {
    pub id: Seq<char>,
    pub name: Seq<char>,
    pub description: Seq<char>,
    pub default_severity: Seq<char>,
    pub can_fix: bool,
    pub checks: Seq<CheckV>,
    pub fixes: Seq<FixV>,
}

/// Rule information for listing.
pub struct RuleInfo {
    /// Unique identifier for the rule.
    pub id: String,
    /// Human-readable name.
    pub name: String,
    /// Description of what this rule does.
    pub description: String,
    /// Default severity label.
    pub default_severity: String,
    /// Whether any fixes are available.
    pub can_fix: bool,
    /// All checks this rule performs.
    pub checks: Vec<CheckEntry>,
    /// All fixes this rule can apply.
    pub fixes: Vec<FixEntry>,
}

/// The mathematical model of a rule error: which kind of failure occurred.
#[verifier::ext_equal]
pub enum FixErr {
    Unsupported,
    Io,
    Json,
}

impl View for RuleInfo {
    type V = RInfo;

    open spec fn view(&self) -> RInfo {
        RInfo {
            id: self.id@,
            name: self.name@,
            description: self.description@,
            default_severity: self.default_severity@,
            can_fix: self.can_fix,
            checks: checks_view(self.checks),
            fixes: fixes_view(self.fixes),
        }
    }
}

/// Error type for rule operations.
#[derive(Debug)]
pub enum RuleError {
    /// The rule declares no fixes.
    FixNotSupported,
    /// A filesystem-level failure, with its message.
    Io(String),
    /// A document could not be parsed or rebuilt, with the parser's message.
    Json(String),
}

impl View for RuleError {
    type V = FixErr;

    open spec fn view(&self) -> FixErr {
        match self {
            RuleError::FixNotSupported => FixErr::Unsupported,
            RuleError::Io(_) => FixErr::Io,
            RuleError::Json(_) => FixErr::Json,
        }
    }
}

impl RuleError {
    /// The error rendered as a message.
    pub fn message(&self) -> (r: String)
        ensures
            match self {
                RuleError::FixNotSupported => r@ == "Fix not supported for this rule"@,
                RuleError::Io(m) => r@ == "IO error: "@ + m@,
                RuleError::Json(m) => r@ == "JSON error: "@ + m@,
            },
    {
        match self {
            RuleError::FixNotSupported => "Fix not supported for this rule".to_owned(),
            RuleError::Io(m) => crate::text::str_concat("IO error: ", m.as_str()),
            RuleError::Json(m) => crate::text::str_concat("JSON error: ", m.as_str()),
        }
    }
}

/// Configuration for a single rule.  A configuration document may also carry
/// arbitrary per-rule options; no built-in rule reads any, so they are
/// accepted and dropped when the document is read.
pub struct RuleConfig {
    pub enabled: bool,
    pub severity: Option<Severity>,
}

impl Default for RuleConfig {
    /// All rules are enabled with their default severity unless configured
    /// otherwise.
    fn default() -> (r: Self)
        ensures
            r.enabled == true,
            r.severity is None,
    {
        Self { enabled: true, severity: None }
    }
}

/// One configured rule.
pub struct ConfigEntry {
    pub rule_id: String,
    pub config: RuleConfig,
}

/// Main configuration: a mapping from rule id to its configuration.
pub struct Config {
    pub rules: Vec<ConfigEntry>,
}

/// The mathematical model of one configured rule.
#[verifier::ext_equal]
pub struct CEntry {
    pub rule_id: Seq<char>,
    pub enabled: bool,
    pub severity: Option<Severity>,
}

impl View for ConfigEntry {
    type V = CEntry;

    open spec fn view(&self) -> CEntry {
        CEntry {
            rule_id: self.rule_id@,
            enabled: self.config.enabled,
            severity: self.config.severity,
        }
    }
}

impl View for Config {
    type V = Seq<CEntry>;

    open spec fn view(&self) -> Seq<CEntry> {
        Seq::new(self.rules@.len(), |i: int| self.rules@[i]@)
    }
}

/// The configuration of rule `id`: the first configured entry bearing the id.
pub open spec fn spec_config_of(cs: Seq<CEntry>, id: Seq<char>) -> Option<CEntry>
    decreases cs.len(),
{
    if cs.len() == 0 {
        None
    } else if cs[0].rule_id == id {
        Some(cs[0])
    } else {
        spec_config_of(cs.drop_first(), id)
    }
}

impl Default for Config {
    /// The empty configuration: all rules enabled with default severities.
    fn default() -> (r: Self)
        ensures
            r@ == Seq::<CEntry>::empty(),
    {
        let r = Self { rules: Vec::new() };
        assert(r@ =~= Seq::<CEntry>::empty());
        r
    }
}

impl Config {
    /// The configuration of rule `id`, if one was given.
    #[verifier::loop_isolation(false)]
    pub fn rule_config(&self, id: &str) -> (r: Option<&RuleConfig>)
        ensures
            match r {
                Some(c) => spec_config_of(self@, id@) matches Some(e) && e.enabled == c.enabled
                    && e.severity == c.severity,
                None => spec_config_of(self@, id@) is None,
            },
    {
        let n = self.rules.len();
        let mut i: usize = 0;
        assert(self@.skip(0) =~= self@);
        while i < n
            invariant
                0 <= i <= n,
                spec_config_of(self@.skip(i as int), id@) == spec_config_of(self@, id@),
            decreases n - i,
        {
            assert(self@.skip(i as int).drop_first() =~= self@.skip(i + 1));
            assert(self@.skip(i as int)[0] == self@[i as int]);
            if str_eq(self.rules[i].rule_id.as_str(), id) {
                return Some(&self.rules[i].config);
            }
            i += 1;
        }
        assert(self@.skip(n as int) =~= Seq::<CEntry>::empty());
        None
    }
}

} // verus!
