//! The Markdown rendering of a report.

use vstd::prelude::*;
use crate::chars::{concat_map, decimal, lemma_concat_map_step, lemma_take_full, push_decimal, push_str};
use crate::config::Severity;
use crate::diagnostics::{category_name, Diagnostic, ParseFailure};
use crate::report::model::{count_severity, lemma_count_two_severities_le, severity_label, severity_word, Report};
use crate::report::summary::{score, score_value, status_text};
use crate::rules::Violation;

verus! {

/// `- **category**: message`, as a Markdown list line.
pub open spec fn diagnostic_item(d: Diagnostic) -> Seq<char> {
    "- **"@ + category_name(d.category) + "**: "@ + d.message@ + "\n"@
}

/// `- **file**: message`, as a Markdown list line.
pub open spec fn failure_item(f: ParseFailure) -> Seq<char> {
    "- **"@ + f.file@ + "**: "@ + f.message@ + "\n"@
}

/// A number, or `-` where there is none.
pub open spec fn number_or_dash(n: Option<usize>) -> Seq<char> {
    match n {
        Some(x) => decimal(x as nat),
        None => "-"@,
    }
}

/// The detail of a finding, or its message where it has none.
pub open spec fn detail_or_message(v: Violation) -> Seq<char> {
    match v.detail {
        Some(d) => d@,
        None => v.message@,
    }
}

/// One finding as a row of the Markdown table.
pub open spec fn violation_row(v: Violation) -> Seq<char> {
    "| `"@ + v.file@ + "` | "@ + number_or_dash(v.line) + " | "@ + number_or_dash(v.column)
        + " | `"@ + v.rule@ + "` | "@ + severity_word(v.severity) + " | "@ + detail_or_message(v)
        + " |\n"@
}

/// The diagnostics section (empty where there are none).
pub open spec fn diagnostics_section(r: Report) -> Seq<char> {
    if r.diagnostics@.len() > 0 {
        "## Diagnostics\n\n"@ + concat_map(r.diagnostics@, |d: Diagnostic| diagnostic_item(d)) + "\n"@
    } else {
        Seq::empty()
    }
}

/// The parse-error section (empty where there are none).
pub open spec fn failures_section(r: Report) -> Seq<char> {
    if r.parse_failures@.len() > 0 {
        "## Parse Errors\n\n"@ + concat_map(r.parse_failures@, |f: ParseFailure| failure_item(f)) + "\n"@
    } else {
        Seq::empty()
    }
}

/// The table of findings (empty where there are none).
pub open spec fn violations_section(r: Report) -> Seq<char> {
    if r.violations@.len() > 0 {
        "## Violations\n\n"@ + "| File | Line | Col | Rule | Severity | Message |\n"@
            + "|------|------|-----|------|----------|--------|\n"@
            + concat_map(r.violations@, |v: Violation| violation_row(v)) + "\n"@
    } else {
        Seq::empty()
    }
}

/// One row of the summary table.
pub open spec fn metric_row(label: Seq<char>, value: Seq<char>) -> Seq<char> {
    "| "@ + label + " | "@ + value + " |\n"@
}

/// The summary table: counts, score and status.
pub open spec fn summary_section(r: Report) -> Seq<char> {
    let e = count_severity(r.violations@, Severity::Error);
    let w = count_severity(r.violations@, Severity::Warn);
    let i = count_severity(r.violations@, Severity::Info);
    "## Summary\n\n"@ + "| Metric | Value |\n"@ + "|--------|-------|\n"@
        + metric_row("Files scanned"@, decimal(r.files@.len()))
        + metric_row("Violations"@, decimal(r.violations@.len()))
        + metric_row("Errors"@, decimal(e))
        + metric_row("Warnings"@, decimal(w))
        + metric_row("Info"@, decimal(i))
        + metric_row("Score"@, decimal(score_value(e, w, r.files@.len())))
        + metric_row("Status"@, status_text(e, w, i))
}

/// The Markdown rendering of a report.
pub open spec fn markdown_text(r: Report) -> Seq<char> {
    "# Niteo Lint Results\n\n"@ + diagnostics_section(r) + failures_section(r) + violations_section(r)
        + summary_section(r)
}

/// A Markdown report opens with its title and closes with the summary table: the number of
/// files scanned, the findings and the findings of each severity, the score and the status.
pub proof fn lemma_markdown_frame(r: Report)
    ensures
        "# Niteo Lint Results\n\n"@.is_prefix_of(markdown_text(r)),
        summary_section(r).is_suffix_of(markdown_text(r)),
{
    let head = "# Niteo Lint Results\n\n"@;
    let mid = diagnostics_section(r) + failures_section(r) + violations_section(r);
    let t = markdown_text(r);
    assert(t =~= head + mid + summary_section(r));
    assert(t.subrange(0, head.len() as int) =~= head);
    assert(t.subrange((t.len() - summary_section(r).len()) as int, t.len() as int) =~= summary_section(r));
}

fn push_number_or_dash(out: &mut String, n: Option<usize>)
    ensures
        final(out)@ == old(out)@ + number_or_dash(n),
{
    match n {
        Some(x) => push_decimal(out, x),
        None => push_str(out, "-"),
    }
}

fn push_metric(out: &mut String, label: &str, value: usize)
    ensures
        final(out)@ == old(out)@ + metric_row(label@, decimal(value as nat)),
{
    push_str(out, "| ");
    push_str(out, label);
    push_str(out, " | ");
    push_decimal(out, value);
    push_str(out, " |\n");
    proof {
        assert(final(out)@ =~= old(out)@ + metric_row(label@, decimal(value as nat)));
    }
}

fn push_status_row(out: &mut String, status: &str)
    ensures
        final(out)@ == old(out)@ + metric_row("Status"@, status@),
{
    push_str(out, "| ");
    push_str(out, "Status");
    push_str(out, " | ");
    push_str(out, status);
    push_str(out, " |\n");
    proof {
        assert(final(out)@ =~= old(out)@ + metric_row("Status"@, status@));
    }
}

fn push_violation_row(out: &mut String, v: &Violation)
    ensures
        final(out)@ == old(out)@ + violation_row(*v),
{
    let ghost start = out@;
    push_str(out, "| `");
    push_str(out, v.file.as_str());
    push_str(out, "` | ");
    push_number_or_dash(out, v.line);
    push_str(out, " | ");
    push_number_or_dash(out, v.column);
    push_str(out, " | `");
    push_str(out, v.rule.as_str());
    push_str(out, "` | ");
    push_str(out, severity_label(v.severity));
    push_str(out, " | ");
    match &v.detail {
        Some(d) => push_str(out, d.as_str()),
        None => push_str(out, v.message.as_str()),
    }
    push_str(out, " |\n");
    proof {
        assert(out@ =~= start + violation_row(*v));
    }
}

fn push_diagnostics_section(output: &mut String, r: &Report)
    ensures
        final(output)@ == old(output)@ + diagnostics_section(*r),
{
    let ghost start = output@;
    if r.diagnostics.len() > 0 {
        push_str(output, "## Diagnostics\n\n");
        let ghost base = output@;
        let n = r.diagnostics.len();
        let mut i: usize = 0;
        while i < n
            invariant
                n == r.diagnostics@.len(),
                0 <= i <= n,
                output@ == base + concat_map(r.diagnostics@.take(i as int), |d: Diagnostic| diagnostic_item(d)),
            decreases n - i,
        {
            proof {
                lemma_concat_map_step(r.diagnostics@, i as int, |d: Diagnostic| diagnostic_item(d));
            }
            let d = &r.diagnostics[i];
            push_str(output, "- **");
            push_str(output, d.category.as_str());
            push_str(output, "**: ");
            push_str(output, d.message.as_str());
            push_str(output, "\n");
            i += 1;
            proof {
                assert(output@ =~= base + concat_map(r.diagnostics@.take(i as int), |d: Diagnostic| diagnostic_item(d)));
            }
        }
        proof {
            lemma_take_full(r.diagnostics@);
        }
        push_str(output, "\n");
    }
    proof {
        assert(output@ =~= start + diagnostics_section(*r));
    }
}

fn push_failures_section(output: &mut String, r: &Report)
    ensures
        final(output)@ == old(output)@ + failures_section(*r),
{
    let ghost start = output@;
    if r.parse_failures.len() > 0 {
        push_str(output, "## Parse Errors\n\n");
        let ghost base = output@;
        let n = r.parse_failures.len();
        let mut i: usize = 0;
        while i < n
            invariant
                n == r.parse_failures@.len(),
                0 <= i <= n,
                output@ == base + concat_map(r.parse_failures@.take(i as int), |f: ParseFailure| failure_item(f)),
            decreases n - i,
        {
            proof {
                lemma_concat_map_step(r.parse_failures@, i as int, |f: ParseFailure| failure_item(f));
            }
            let f = &r.parse_failures[i];
            push_str(output, "- **");
            push_str(output, f.file.as_str());
            push_str(output, "**: ");
            push_str(output, f.message.as_str());
            push_str(output, "\n");
            i += 1;
            proof {
                assert(output@ =~= base + concat_map(r.parse_failures@.take(i as int), |f: ParseFailure| failure_item(f)));
            }
        }
        proof {
            lemma_take_full(r.parse_failures@);
        }
        push_str(output, "\n");
    }
    proof {
        assert(output@ =~= start + failures_section(*r));
    }
}

fn push_violations_section(output: &mut String, r: &Report)
    ensures
        final(output)@ == old(output)@ + violations_section(*r),
{
    let ghost start = output@;
    if r.violations.len() > 0 {
        push_str(output, "## Violations\n\n");
        push_str(output, "| File | Line | Col | Rule | Severity | Message |\n");
        push_str(output, "|------|------|-----|------|----------|--------|\n");
        let ghost base = output@;
        let n = r.violations.len();
        let mut i: usize = 0;
        while i < n
            invariant
                n == r.violations@.len(),
                0 <= i <= n,
                output@ == base + concat_map(r.violations@.take(i as int), |v: Violation| violation_row(v)),
            decreases n - i,
        {
            proof {
                lemma_concat_map_step(r.violations@, i as int, |v: Violation| violation_row(v));
            }
            push_violation_row(output, &r.violations[i]);
            i += 1;
            proof {
                assert(output@ =~= base + concat_map(r.violations@.take(i as int), |v: Violation| violation_row(v)));
            }
        }
        proof {
            lemma_take_full(r.violations@);
        }
        push_str(output, "\n");
    }
    proof {
        assert(output@ =~= start + violations_section(*r));
    }
}

fn push_summary_section(output: &mut String, r: &Report)
    requires
        r.violations@.len() * 2 <= usize::MAX,
    ensures
        final(output)@ == old(output)@ + summary_section(*r),
{
    let ghost start = output@;
    let error_count = r.error_count();
    let warning_count = r.warning_count();
    let info_count = r.info_count();
    proof {
        lemma_count_two_severities_le(r.violations@);
    }
    let score = score(error_count, warning_count, r.files.len());
    let status = if error_count > 0 {
        "Needs attention"
    } else if warning_count > 0 {
        "Review recommended"
    } else if info_count > 0 {
        "Suggestions available"
    } else {
        "Healthy"
    };
    proof {
        assert(status@ == status_text(error_count as nat, warning_count as nat, info_count as nat));
    }
    push_str(output, "## Summary\n\n");
    push_str(output, "| Metric | Value |\n");
    push_str(output, "|--------|-------|\n");
    push_metric(output, "Files scanned", r.files.len());
    push_metric(output, "Violations", r.violations.len());
    push_metric(output, "Errors", error_count);
    push_metric(output, "Warnings", warning_count);
    push_metric(output, "Info", info_count);
    push_metric(output, "Score", score);
    push_status_row(output, status);
    proof {
        assert(output@ =~= start + summary_section(*r));
    }
}

impl Report {
    /// The report as a Markdown document: diagnostics, parse errors and findings where there
    /// are any, then the summary table.
    pub fn render_markdown(&self) -> (r: String)
        requires
            self.violations@.len() * 2 <= usize::MAX,
        ensures
            r@ == markdown_text(*self),
    {
        let mut output = String::new();
        push_str(&mut output, "# Niteo Lint Results\n\n");
        push_diagnostics_section(&mut output, self);
        push_failures_section(&mut output, self);
        push_violations_section(&mut output, self);
        push_summary_section(&mut output, self);
        proof {
            assert(output@ =~= markdown_text(*self));
        }
        output
    }
}

} // verus!
