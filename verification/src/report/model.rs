//! The report of one run: the files scanned, the findings, and the notes.

use vstd::prelude::*;
use crate::chars::{copy_string, str_equal};
use crate::config::Severity;
use crate::diagnostics::{Diagnostic, ParseFailure};
use crate::ignore::SuppressionReport;
use crate::rules::Violation;

verus! {

/// The number of findings of `severity` in `vs`.
pub open spec fn count_severity(vs: Seq<Violation>, severity: Severity) -> nat
    decreases vs.len(),
{
    if vs.len() == 0 {
        0
    } else {
        count_severity(vs.drop_last(), severity) + if vs.last().severity == severity { 1nat } else { 0nat }
    }
}

pub proof fn lemma_count_severity_le(vs: Seq<Violation>, severity: Severity)
    ensures
        count_severity(vs, severity) <= vs.len(),
    decreases vs.len(),
{
    if vs.len() > 0 {
        lemma_count_severity_le(vs.drop_last(), severity);
    }
}

pub proof fn lemma_count_two_severities_le(vs: Seq<Violation>)
    ensures
        count_severity(vs, Severity::Error) + count_severity(vs, Severity::Warn) <= vs.len(),
    decreases vs.len(),
{
    if vs.len() > 0 {
        lemma_count_two_severities_le(vs.drop_last());
    }
}

/// The number of findings of `severity`.
pub fn count_by_severity(violations: &[Violation], severity: Severity) -> (r: usize)
    ensures
        r == count_severity(violations@, severity),
{
    let n = violations.len();
    let mut count: usize = 0;
    let mut i: usize = 0;
    while i < n
        invariant
            n == violations@.len(),
            0 <= i <= n,
            count == count_severity(violations@.take(i as int), severity),
        decreases n - i,
    {
        proof {
            assert(violations@.take(i as int + 1).drop_last() =~= violations@.take(i as int));
            lemma_count_severity_le(violations@.take(i as int), severity);
        }
        if violations[i].severity == severity {
            count = count + 1;
        }
        i += 1;
    }
    proof {
        assert(violations@.take(n as int) =~= violations@);
    }
    count
}

/// The word a report uses for a severity.
pub open spec fn severity_word(s: Severity) -> Seq<char> {
    match s {
        Severity::Error => "error"@,
        Severity::Warn => "warning"@,
        Severity::Info => "info"@,
        Severity::Off => "off"@,
    }
}

/// The word a report uses for a severity.
pub fn severity_label(severity: Severity) -> (r: &'static str)
    ensures
        r@ == severity_word(severity),
{
    match severity {
        Severity::Error => "error",
        Severity::Warn => "warning",
        Severity::Info => "info",
        Severity::Off => "off",
    }
}

/// The SARIF level of a severity.
pub open spec fn sarif_word(s: Severity) -> Seq<char> {
    match s {
        Severity::Error => "error"@,
        Severity::Warn => "warning"@,
        Severity::Info => "note"@,
        Severity::Off => "none"@,
    }
}

/// The SARIF level of a severity.
pub fn sarif_level(severity: Severity) -> (r: &'static str)
    ensures
        r@ == sarif_word(severity),
{
    match severity {
        Severity::Error => "error",
        Severity::Warn => "warning",
        Severity::Info => "note",
        Severity::Off => "none",
    }
}

/// A path as the report prints it.
pub fn path_to_string(path: &String) -> (r: String)
    ensures
        r@ == path@,
{
    copy_string(path)
}

/// The lowest severity at which a finding fails the run.
#[derive(Clone, Copy, Debug, PartialEq, Eq, Structural)]
pub enum FailureThreshold {
    Error,
    Warn,
    Any,
}

/// Whether a finding of `s` reaches threshold `t`.
pub open spec fn threshold_includes(t: FailureThreshold, s: Severity) -> bool {
    match t {
        FailureThreshold::Error => s == Severity::Error,
        FailureThreshold::Warn => s == Severity::Error || s == Severity::Warn,
        FailureThreshold::Any => s != Severity::Off,
    }
}

impl FailureThreshold {
    /// Whether a finding of `severity` reaches this threshold.
    pub fn includes(self, severity: Severity) -> (r: bool)
        ensures
            r == threshold_includes(self, severity),
    {
        match self {
            FailureThreshold::Error => severity == Severity::Error,
            FailureThreshold::Warn => severity == Severity::Error || severity == Severity::Warn,
            FailureThreshold::Any => severity != Severity::Off,
        }
    }
}

/// A threshold that applies to one rule.
#[derive(Debug)]
pub struct RuleThreshold {
    pub rule: String,
    pub threshold: FailureThreshold,
}

/// Which findings fail a run: a threshold per rule, and one for every other rule.
#[derive(Debug)]
pub struct FailurePolicy {
    pub default_threshold: FailureThreshold,
    pub rule_thresholds: Vec<RuleThreshold>,
}

/// The threshold of `rule`: that of the first entry naming it, else the default.
pub open spec fn threshold_for_rule(entries: Seq<RuleThreshold>, default: FailureThreshold, rule: Seq<char>) -> FailureThreshold
    decreases entries.len(),
{
    if entries.len() == 0 {
        default
    } else if entries[0].rule@ == rule {
        entries[0].threshold
    } else {
        threshold_for_rule(entries.drop_first(), default, rule)
    }
}

impl FailurePolicy {
    /// The threshold that applies to `rule`.
    pub fn threshold_for(&self, rule: &str) -> (r: FailureThreshold)
        ensures
            r == threshold_for_rule(self.rule_thresholds@, self.default_threshold, rule@),
    {
        let n = self.rule_thresholds.len();
        let mut i: usize = 0;
        proof {
            assert(self.rule_thresholds@.skip(0) =~= self.rule_thresholds@);
        }
        while i < n
            invariant
                n == self.rule_thresholds@.len(),
                0 <= i <= n,
                threshold_for_rule(self.rule_thresholds@, self.default_threshold, rule@)
                    == threshold_for_rule(self.rule_thresholds@.skip(i as int), self.default_threshold, rule@),
            decreases n - i,
        {
            proof {
                assert(self.rule_thresholds@.skip(i as int).drop_first() =~= self.rule_thresholds@.skip(i as int + 1));
            }
            if str_equal(self.rule_thresholds[i].rule.as_str(), rule) {
                return self.rule_thresholds[i].threshold;
            }
            i += 1;
        }
        self.default_threshold
    }
}

/// The report of one run.
#[derive(Debug)]
pub struct Report {
    pub files: Vec<String>,
    pub violations: Vec<Violation>,
    pub suppression_report: Option<SuppressionReport>,
    pub diagnostics: Vec<Diagnostic>,
    pub parse_failures: Vec<ParseFailure>,
}

impl Report {
    /// A report of `files` with `violations`, and no notes.
    pub fn new(files: Vec<String>, violations: Vec<Violation>) -> (r: Report)
        ensures
            r.files == files,
            r.violations == violations,
            r.suppression_report.is_none(),
            r.diagnostics@.len() == 0,
            r.parse_failures@.len() == 0,
    {
        Report {
            files,
            violations,
            suppression_report: None,
            diagnostics: Vec::new(),
            parse_failures: Vec::new(),
        }
    }

    /// This report with its suppression report set.
    pub fn with_suppression_report(self, report: SuppressionReport) -> (r: Report)
        ensures
            r == (Report { suppression_report: Some(report), ..self }),
    {
        let mut out = self;
        out.suppression_report = Some(report);
        out
    }

    /// This report with its diagnostics replaced.
    pub fn with_diagnostics(self, diagnostics: Vec<Diagnostic>) -> (r: Report)
        ensures
            r == (Report { diagnostics, ..self }),
    {
        let mut out = self;
        out.diagnostics = diagnostics;
        out
    }

    /// This report with its parse failures replaced.
    pub fn with_parse_failures(self, parse_failures: Vec<ParseFailure>) -> (r: Report)
        ensures
            r == (Report { parse_failures, ..self }),
    {
        let mut out = self;
        out.parse_failures = parse_failures;
        out
    }

    /// Whether some file failed to parse.
    pub fn has_parse_failures(&self) -> (r: bool)
        ensures
            r == (self.parse_failures@.len() > 0),
    {
        self.parse_failures.len() > 0
    }

    /// Whether some finding reaches the threshold that `policy` sets for its rule.
    pub fn has_findings_matching(&self, policy: &FailurePolicy) -> (r: bool)
        ensures
            r == exists|i: int| 0 <= i < self.violations@.len()
                && threshold_includes(
                    threshold_for_rule(policy.rule_thresholds@, policy.default_threshold, #[trigger] self.violations@[i].rule@),
                    self.violations@[i].severity,
                ),
    {
        let n = self.violations.len();
        let mut i: usize = 0;
        while i < n
            invariant
                n == self.violations@.len(),
                0 <= i <= n,
                forall|k: int| 0 <= k < i ==> !threshold_includes(
                    threshold_for_rule(policy.rule_thresholds@, policy.default_threshold, #[trigger] self.violations@[k].rule@),
                    self.violations@[k].severity,
                ),
            decreases n - i,
        {
            let t = policy.threshold_for(self.violations[i].rule.as_str());
            if t.includes(self.violations[i].severity) {
                return true;
            }
            i += 1;
        }
        false
    }

    /// Whether some finding reaches `threshold`.
    pub fn has_findings_at_or_above(&self, threshold: FailureThreshold) -> (r: bool)
        ensures
            r == exists|i: int| 0 <= i < self.violations@.len()
                && threshold_includes(threshold, #[trigger] self.violations@[i].severity),
    {
        let n = self.violations.len();
        let mut i: usize = 0;
        while i < n
            invariant
                n == self.violations@.len(),
                0 <= i <= n,
                forall|k: int| 0 <= k < i ==> !threshold_includes(threshold, #[trigger] self.violations@[k].severity),
            decreases n - i,
        {
            if threshold.includes(self.violations[i].severity) {
                return true;
            }
            i += 1;
        }
        false
    }

    /// The number of error findings.
    pub fn error_count(&self) -> (r: usize)
        ensures
            r == count_severity(self.violations@, Severity::Error),
    {
        count_by_severity(self.violations.as_slice(), Severity::Error)
    }

    /// The number of warning findings.
    pub fn warning_count(&self) -> (r: usize)
        ensures
            r == count_severity(self.violations@, Severity::Warn),
    {
        count_by_severity(self.violations.as_slice(), Severity::Warn)
    }

    /// The number of info findings.
    pub fn info_count(&self) -> (r: usize)
        ensures
            r == count_severity(self.violations@, Severity::Info),
    {
        count_by_severity(self.violations.as_slice(), Severity::Info)
    }
}

/// The thresholds are nested: what reaches `Error` reaches `Warn`, and what reaches `Warn`
/// reaches `Any`; nothing at severity `Off` reaches any.
pub proof fn lemma_thresholds_nested(s: Severity)
    ensures
        threshold_includes(FailureThreshold::Error, s) ==> threshold_includes(FailureThreshold::Warn, s),
        threshold_includes(FailureThreshold::Warn, s) ==> threshold_includes(FailureThreshold::Any, s),
        !threshold_includes(FailureThreshold::Any, Severity::Off),
{
}

/// A report that has findings at a threshold has findings at every wider threshold.
pub proof fn lemma_findings_at_wider_threshold(violations: Seq<Violation>)
    ensures
        (exists|i: int| 0 <= i < violations.len() && threshold_includes(FailureThreshold::Error, #[trigger] violations[i].severity))
            ==> (exists|i: int| 0 <= i < violations.len() && threshold_includes(FailureThreshold::Warn, #[trigger] violations[i].severity)),
        (exists|i: int| 0 <= i < violations.len() && threshold_includes(FailureThreshold::Warn, #[trigger] violations[i].severity))
            ==> (exists|i: int| 0 <= i < violations.len() && threshold_includes(FailureThreshold::Any, #[trigger] violations[i].severity)),
{
}

} // verus!
