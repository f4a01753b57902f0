//! The text rendering of the suppressions of a run.

use vstd::prelude::*;
use crate::chars::{concat_map, decimal, lemma_concat_map_step, lemma_take_full, push_decimal, push_str};
use crate::ignore::{directive_text, stale_total, suppressed_total, FileSuppressions, StaleDirective,
    SuppressionReport};
use crate::report::summary::{BOLD, CYAN, DIM, RESET, YELLOW};

verus! {

/// One stale directive: its line and its text.
pub open spec fn stale_line(d: StaleDirective) -> Seq<char> {
    "    "@ + YELLOW@ + "line "@ + decimal(d.line as nat) + RESET@ + "  "@ + directive_text(d) + "\n"@
}

/// The stale directives of one file, under its name (nothing where it has none).
pub open spec fn stale_file_block(f: FileSuppressions) -> Seq<char> {
    if f.stale_directives@.len() == 0 {
        Seq::empty()
    } else {
        "  "@ + CYAN@ + f.file@ + RESET@ + "\n"@
            + concat_map(f.stale_directives@, |d: StaleDirective| stale_line(d))
    }
}

/// The suppressions section: empty where nothing was suppressed and no directive is stale.
pub open spec fn suppression_text(r: SuppressionReport) -> Seq<char> {
    let suppressed = suppressed_total(r.files@);
    let stale = stale_total(r.files@);
    if suppressed == 0 && stale == 0 {
        Seq::empty()
    } else {
        BOLD@ + "Suppressions"@ + RESET@ + "\n"@
            + (if suppressed > 0 {
                "  "@ + DIM@ + decimal(suppressed) + " violations suppressed by ignore directives"@ + RESET@ + "\n"@
            } else {
                Seq::empty()
            })
            + (if stale > 0 {
                "  "@ + YELLOW@ + BOLD@ + decimal(stale) + " stale directives found"@ + RESET@ + "\n"@
                    + concat_map(r.files@, |f: FileSuppressions| stale_file_block(f))
            } else {
                Seq::empty()
            })
    }
}

fn push_stale_line(out: &mut String, d: &StaleDirective)
    ensures
        final(out)@ == old(out)@ + stale_line(*d),
{
    let ghost start = out@;
    push_str(out, "    ");
    push_str(out, YELLOW);
    push_str(out, "line ");
    push_decimal(out, d.line);
    push_str(out, RESET);
    push_str(out, "  ");
    let text = d.describe();
    push_str(out, text.as_str());
    push_str(out, "\n");
    proof {
        assert(out@ =~= start + stale_line(*d));
    }
}

fn push_stale_file_block(out: &mut String, f: &FileSuppressions)
    ensures
        final(out)@ == old(out)@ + stale_file_block(*f),
{
    let ghost start = out@;
    if f.stale_directives.len() == 0 {
        proof {
            assert(out@ =~= start + stale_file_block(*f));
        }
        return;
    }
    push_str(out, "  ");
    push_str(out, CYAN);
    push_str(out, f.file.as_str());
    push_str(out, RESET);
    push_str(out, "\n");
    let ghost base = out@;
    let n = f.stale_directives.len();
    let mut i: usize = 0;
    while i < n
        invariant
            n == f.stale_directives@.len(),
            0 <= i <= n,
            out@ == base + concat_map(f.stale_directives@.take(i as int), |d: StaleDirective| stale_line(d)),
        decreases n - i,
    {
        proof {
            lemma_concat_map_step(f.stale_directives@, i as int, |d: StaleDirective| stale_line(d));
        }
        push_stale_line(out, &f.stale_directives[i]);
        i += 1;
        proof {
            assert(out@ =~= base + concat_map(f.stale_directives@.take(i as int), |d: StaleDirective| stale_line(d)));
        }
    }
    proof {
        lemma_take_full(f.stale_directives@);
        assert(out@ =~= start + stale_file_block(*f));
    }
}

/// The suppressions section of a text report.
pub fn render_suppression_report_text(report: &SuppressionReport) -> (r: String)
    requires
        suppressed_total(report.files@) <= usize::MAX,
        stale_total(report.files@) <= usize::MAX,
    ensures
        r@ == suppression_text(*report),
{
    let total_suppressed = report.total_suppressed();
    let total_stale = report.total_stale();
    let mut output = String::new();
    if total_suppressed == 0 && total_stale == 0 {
        return output;
    }
    push_str(&mut output, BOLD);
    push_str(&mut output, "Suppressions");
    push_str(&mut output, RESET);
    push_str(&mut output, "\n");
    let ghost after_title = output@;
    if total_suppressed > 0 {
        push_str(&mut output, "  ");
        push_str(&mut output, DIM);
        push_decimal(&mut output, total_suppressed);
        push_str(&mut output, " violations suppressed by ignore directives");
        push_str(&mut output, RESET);
        push_str(&mut output, "\n");
    }
    let ghost after_suppressed = output@;
    if total_stale > 0 {
        push_str(&mut output, "  ");
        push_str(&mut output, YELLOW);
        push_str(&mut output, BOLD);
        push_decimal(&mut output, total_stale);
        push_str(&mut output, " stale directives found");
        push_str(&mut output, RESET);
        push_str(&mut output, "\n");
        let ghost base = output@;
        let n = report.files.len();
        let mut i: usize = 0;
        while i < n
            invariant
                n == report.files@.len(),
                0 <= i <= n,
                output@ == base + concat_map(report.files@.take(i as int), |f: FileSuppressions| stale_file_block(f)),
            decreases n - i,
        {
            proof {
                lemma_concat_map_step(report.files@, i as int, |f: FileSuppressions| stale_file_block(f));
            }
            push_stale_file_block(&mut output, &report.files[i]);
            i += 1;
            proof {
                assert(output@ =~= base + concat_map(report.files@.take(i as int), |f: FileSuppressions| stale_file_block(f)));
            }
        }
        proof {
            lemma_take_full(report.files@);
        }
    }
    proof {
        assert(output@ =~= suppression_text(*report));
    }
    output
}

/// The suppressions section is empty exactly where nothing was suppressed and no directive is
/// stale.
pub proof fn lemma_suppression_text_empty(r: SuppressionReport)
    ensures
        (suppression_text(r).len() == 0) == (suppressed_total(r.files@) == 0 && stale_total(r.files@) == 0),
{
    reveal_strlit("\x1b[1m");
    assert(BOLD@ == "\x1b[1m"@);
    if !(suppressed_total(r.files@) == 0 && stale_total(r.files@) == 0) {
        assert(suppression_text(r).len() >= BOLD@.len());
    }
}

} // verus!
