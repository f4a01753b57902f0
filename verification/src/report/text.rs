//! The terminal rendering of a report.

use vstd::prelude::*;
use crate::chars::{chars_of, concat_map, decimal, lemma_concat_map_step, lemma_take_full, push_decimal, push_repeated, push_str, repeat_char, usize_to_string};
use crate::config::Severity;
use crate::diagnostics::Diagnostic;
use crate::ignore::{join, push_joined, stale_total, strings_view, suppressed_total};
use crate::report::model::{count_severity, lemma_count_two_severities_le, Report};
use crate::report::summary::{refs, rule_group_ok, saturating_product};
use crate::report::summary::{group_by_file, group_by_rule, group_line_ranges, is_file_grouping, is_rule_grouping, line_or_first, line_ranges, lines_of, plural_header, plural_label, pluralized_header, pluralized_label, score, score_color, score_colour, score_value, severity_color, severity_colour, status_color, status_colour, status_label, status_text, visible, visible_file_count, visible_line_count, visible_rule_group_count, FileGroup, RuleGroup, TextSummary, BOLD, CYAN, DIM, GREEN, RESET, YELLOW};
use crate::report::suppressions::{render_suppression_report_text, suppression_text};
use crate::rules::Violation;

verus! {

/// The verbosity level a flag stands for.
pub open spec fn level(verbose: bool) -> u8 {
    if verbose { 1 } else { 0 }
}

fn level_of(verbose: bool) -> (r: u8)
    ensures
        r == level(verbose),
{
    if verbose { 1 } else { 0 }
}

/// A separator line.
pub open spec fn rule_line() -> Seq<char> {
    DIM@ + repeat_char('─', 60) + RESET@ + "\n"@
}

/// The findings of `vs` that have a line.
pub open spec fn positioned(vs: Seq<&Violation>) -> Seq<&Violation>
    decreases vs.len(),
{
    if vs.len() == 0 {
        Seq::empty()
    } else if vs.last().line.is_some() {
        positioned(vs.drop_last()).push(vs.last())
    } else {
        positioned(vs.drop_last())
    }
}

/// The column of a finding (1 where it has none).
pub open spec fn column_or_first(v: Violation) -> nat {
    match v.column {
        Some(c) => c as nat,
        None => 1,
    }
}

/// `line:column` for each finding.
pub open spec fn exact_locations(vs: Seq<&Violation>) -> Seq<Seq<char>> {
    vs.map_values(|v: &Violation| decimal(line_or_first(*v)) + ":"@ + decimal(column_or_first(*v)))
}

/// The locations list of one file: exact locations when verbose, else ranges of lines; when
/// not verbose and more than the shown locations exist, a note of how many more.
pub open spec fn line_numbers_text(shown: Seq<&Violation>, total: nat, verbose: bool) -> Seq<char> {
    let ps = positioned(shown);
    let ranges = if verbose { exact_locations(ps) } else { line_ranges(lines_of(ps)) };
    let lines = join(ranges, ", "@);
    let suffix = if !verbose && total > visible(total, 0, 8) {
        ", "@ + DIM@ + "...and "@ + decimal((total - visible(total, 0, 8)) as nat) + " more"@ + RESET@
    } else {
        Seq::empty()
    };
    if lines.len() == 0 {
        DIM@ + suffix + RESET@
    } else {
        DIM@ + "lines "@ + lines + suffix + RESET@
    }
}

fn is_empty_string(s: &String) -> (r: bool)
    ensures
        r == (s@.len() == 0),
{
    let v = chars_of(s.as_str());
    v.len() == 0
}

fn render_line_numbers(shown: &[&Violation], total_count: usize, verbose: bool) -> (r: String)
    ensures
        r@ == line_numbers_text(shown@, total_count as nat, verbose),
{
    let ghost ps = positioned(shown@);
    let mut positions: Vec<&Violation> = Vec::new();
    let n = shown.len();
    let mut i: usize = 0;
    while i < n
        invariant
            n == shown@.len(),
            0 <= i <= n,
            positions@ == positioned(shown@.take(i as int)),
        decreases n - i,
    {
        proof {
            assert(shown@.take(i as int + 1).drop_last() =~= shown@.take(i as int));
            assert(shown@.take(i as int + 1).last() == shown@[i as int]);
        }
        if shown[i].line.is_some() {
            positions.push(shown[i]);
        }
        i += 1;
    }
    proof {
        lemma_take_full(shown@);
    }
    let ranges: Vec<String> = if verbose {
        let mut out: Vec<String> = Vec::new();
        let m = positions.len();
        let mut k: usize = 0;
        while k < m
            invariant
                m == positions@.len(),
                0 <= k <= m,
                strings_view(out@) == exact_locations(positions@).take(k as int),
            decreases m - k,
        {
            let v = positions[k];
            let mut text = String::new();
            push_decimal(&mut text, match v.line { Some(l) => l, None => 1 });
            push_str(&mut text, ":");
            push_decimal(&mut text, match v.column { Some(c) => c, None => 1 });
            proof {
                assert(text@ =~= decimal(line_or_first(*v)) + ":"@ + decimal(column_or_first(*v)));
                assert(exact_locations(positions@)[k as int] == text@);
            }
            let ghost before = out@;
            let ghost tv = text@;
            out.push(text);
            proof {
                assert(strings_view(out@) =~= strings_view(before).push(tv));
                assert(exact_locations(positions@).take(k as int + 1) =~= exact_locations(positions@).take(k as int).push(tv));
            }
            k += 1;
        }
        proof {
            lemma_take_full(exact_locations(positions@));
        }
        out
    } else {
        let out = group_line_ranges(positions.as_slice());
        proof {
            assert(strings_view(out@) =~= line_ranges(lines_of(positions@)));
        }
        out
    };
    let mut lines = String::new();
    push_joined(&mut lines, &ranges, ", ");
    proof {
        assert(lines@ =~= join(strings_view(ranges@), ", "@));
    }
    let visible_total = visible_line_count(total_count, 0);
    let mut suffix = String::new();
    if !verbose && total_count > visible_total {
        push_str(&mut suffix, ", ");
        push_str(&mut suffix, DIM);
        push_str(&mut suffix, "...and ");
        push_decimal(&mut suffix, total_count - visible_total);
        push_str(&mut suffix, " more");
        push_str(&mut suffix, RESET);
    }
    let mut out = String::new();
    if is_empty_string(&lines) {
        push_str(&mut out, DIM);
        push_str(&mut out, suffix.as_str());
        push_str(&mut out, RESET);
    } else {
        push_str(&mut out, DIM);
        push_str(&mut out, "lines ");
        push_str(&mut out, lines.as_str());
        push_str(&mut out, suffix.as_str());
        push_str(&mut out, RESET);
    }
    proof {
        assert(out@ =~= line_numbers_text(shown@, total_count as nat, verbose));
    }
    out
}

/// `name ` in bold where the finding has a subject.
pub open spec fn subject_part(v: Violation) -> Seq<char> {
    match v.subject {
        Some(t) => BOLD@ + t@ + RESET@ + " "@,
        None => Seq::empty(),
    }
}

/// ` detail` dimmed where the finding has a detail.
pub open spec fn detail_part(v: Violation) -> Seq<char> {
    match v.detail {
        Some(d) => " "@ + DIM@ + d@ + RESET@,
        None => Seq::empty(),
    }
}

/// ` lines L:C` or ` line L`, by what the finding has.
pub open spec fn location_suffix(v: Violation) -> Seq<char> {
    match (v.line, v.column) {
        (Some(l), Some(c)) => " "@ + "lines "@ + decimal(l as nat) + ":"@ + decimal(c as nat),
        (Some(l), None) => " "@ + "line "@ + decimal(l as nat),
        _ => Seq::empty(),
    }
}

/// One finding on a line of its own.
pub open spec fn detail_line(file: Seq<char>, v: Violation) -> Seq<char> {
    "  "@ + CYAN@ + file + RESET@ + "  "@ + subject_part(v) + location_suffix(v) + detail_part(v) + "\n"@
}

/// Some finding of `vs` has a detail or a subject.
pub open spec fn has_details(vs: Seq<&Violation>) -> bool {
    exists|i: int| 0 <= i < vs.len() && (#[trigger] vs[i].detail.is_some() || vs[i].subject.is_some())
}

/// The lines of one file within a rule group.
pub open spec fn file_block(fg: FileGroup, verbose: bool) -> Seq<char> {
    let n = fg.violations@.len();
    let lc = visible(n, level(verbose), 8);
    let shown = fg.violations@.take(lc as int);
    let hd = has_details(fg.violations@);
    let file = fg.file@;
    (if hd {
        concat_map(shown, |v: &Violation| detail_line(file, *v))
    } else {
        "  "@ + CYAN@ + file + RESET@ + " "@ + DIM@ + "("@ + decimal(n) + " findings)"@ + RESET@ + "  "@
            + line_numbers_text(shown, n, verbose) + "\n"@
    }) + (if n > lc && !hd {
        "    "@ + DIM@ + "+ "@ + decimal((n - lc) as nat) + " more locations in this file. Use --verbose to show all."@
            + RESET@ + "\n"@
    } else if n > lc {
        "    "@ + DIM@ + "+ "@ + decimal((n - lc) as nat) + " more findings in this file. Use --verbose to show all."@
            + RESET@ + "\n"@
    } else {
        Seq::empty()
    })
}

fn push_location_suffix(out: &mut String, v: &Violation)
    ensures
        final(out)@ == old(out)@ + location_suffix(*v),
{
    let ghost start = out@;
    match (v.line, v.column) {
        (Some(l), Some(c)) => {
            push_str(out, " ");
            push_str(out, "lines ");
            push_decimal(out, l);
            push_str(out, ":");
            push_decimal(out, c);
        },
        (Some(l), None) => {
            push_str(out, " ");
            push_str(out, "line ");
            push_decimal(out, l);
        },
        _ => {},
    }
    proof {
        assert(out@ =~= start + location_suffix(*v));
    }
}

fn push_subject_part(out: &mut String, v: &Violation)
    ensures
        final(out)@ == old(out)@ + subject_part(*v),
{
    let ghost start = out@;
    match &v.subject {
        Some(t) => {
            push_str(out, BOLD);
            push_str(out, t.as_str());
            push_str(out, RESET);
            push_str(out, " ");
        },
        None => {},
    }
    proof {
        assert(out@ =~= start + subject_part(*v));
    }
}

fn push_detail_part(out: &mut String, v: &Violation)
    ensures
        final(out)@ == old(out)@ + detail_part(*v),
{
    let ghost start = out@;
    match &v.detail {
        Some(d) => {
            push_str(out, " ");
            push_str(out, DIM);
            push_str(out, d.as_str());
            push_str(out, RESET);
        },
        None => {},
    }
    proof {
        assert(out@ =~= start + detail_part(*v));
    }
}

fn push_detail_line(out: &mut String, file: &String, v: &Violation)
    ensures
        final(out)@ == old(out)@ + detail_line(file@, *v),
{
    let ghost start = out@;
    push_str(out, "  ");
    push_str(out, CYAN);
    push_str(out, file.as_str());
    push_str(out, RESET);
    push_str(out, "  ");
    let ghost a = out@;
    push_subject_part(out, v);
    push_location_suffix(out, v);
    push_detail_part(out, v);
    push_str(out, "\n");
    proof {
        assert(a =~= start + "  "@ + CYAN@ + file@ + RESET@ + "  "@);
        assert(out@ =~= start + detail_line(file@, *v));
    }
}

fn any_details(vs: &Vec<&Violation>) -> (r: bool)
    ensures
        r == has_details(vs@),
{
    let n = vs.len();
    let mut i: usize = 0;
    while i < n
        invariant
            n == vs@.len(),
            0 <= i <= n,
            forall|k: int| 0 <= k < i ==> !(#[trigger] vs@[k].detail.is_some() || vs@[k].subject.is_some()),
        decreases n - i,
    {
        if vs[i].detail.is_some() || vs[i].subject.is_some() {
            return true;
        }
        i += 1;
    }
    false
}

/// The note under a file whose findings were cut short.
pub open spec fn hidden_lines_note(n: nat, lc: nat, hd: bool) -> Seq<char> {
    if n > lc && !hd {
        "    "@ + DIM@ + "+ "@ + decimal((n - lc) as nat) + " more locations in this file. Use --verbose to show all."@
            + RESET@ + "\n"@
    } else if n > lc {
        "    "@ + DIM@ + "+ "@ + decimal((n - lc) as nat) + " more findings in this file. Use --verbose to show all."@
            + RESET@ + "\n"@
    } else {
        Seq::empty()
    }
}

/// The one line of a file whose findings carry no detail.
pub open spec fn count_line(file: Seq<char>, shown: Seq<&Violation>, n: nat, verbose: bool) -> Seq<char> {
    "  "@ + CYAN@ + file + RESET@ + " "@ + DIM@ + "("@ + decimal(n) + " findings)"@ + RESET@ + "  "@
        + line_numbers_text(shown, n, verbose) + "\n"@
}

proof fn lemma_file_block_parts(fg: FileGroup, verbose: bool)
    ensures
        ({
            let n = fg.violations@.len();
            let lc = visible(n, level(verbose), 8);
            let shown = fg.violations@.take(lc as int);
            let hd = has_details(fg.violations@);
            file_block(fg, verbose) == (if hd {
                concat_map(shown, |v: &Violation| detail_line(fg.file@, *v))
            } else {
                count_line(fg.file@, shown, n, verbose)
            }) + hidden_lines_note(n, lc, hd)
        }),
{
}

fn push_hidden_lines_note(out: &mut String, n: usize, lc: usize, hd: bool)
    ensures
        final(out)@ == old(out)@ + hidden_lines_note(n as nat, lc as nat, hd),
{
    let ghost start = out@;
    if n > lc && !hd {
        push_str(out, "    ");
        push_str(out, DIM);
        push_str(out, "+ ");
        push_decimal(out, n - lc);
        push_str(out, " more locations in this file. Use --verbose to show all.");
        push_str(out, RESET);
        push_str(out, "\n");
    } else if n > lc {
        push_str(out, "    ");
        push_str(out, DIM);
        push_str(out, "+ ");
        push_decimal(out, n - lc);
        push_str(out, " more findings in this file. Use --verbose to show all.");
        push_str(out, RESET);
        push_str(out, "\n");
    }
    proof {
        assert(out@ =~= start + hidden_lines_note(n as nat, lc as nat, hd));
    }
}

fn push_count_line(out: &mut String, file: &String, shown: &[&Violation], n: usize, verbose: bool)
    ensures
        final(out)@ == old(out)@ + count_line(file@, shown@, n as nat, verbose),
{
    let ghost start = out@;
    push_str(out, "  ");
    push_str(out, CYAN);
    push_str(out, file.as_str());
    push_str(out, RESET);
    push_str(out, " ");
    push_str(out, DIM);
    push_str(out, "(");
    push_decimal(out, n);
    push_str(out, " findings)");
    push_str(out, RESET);
    push_str(out, "  ");
    let numbers = render_line_numbers(shown, n, verbose);
    push_str(out, numbers.as_str());
    push_str(out, "\n");
    proof {
        assert(out@ =~= start + count_line(file@, shown@, n as nat, verbose));
    }
}

fn push_detail_lines(out: &mut String, file: &String, vs: &Vec<&Violation>, lc: usize)
    requires
        lc <= vs@.len(),
    ensures
        final(out)@ == old(out)@ + concat_map(vs@.take(lc as int), |v: &Violation| detail_line(file@, *v)),
{
    let ghost base = out@;
    let ghost shown = vs@.take(lc as int);
    let mut i: usize = 0;
    while i < lc
        invariant
            lc <= vs@.len(),
            0 <= i <= lc,
            shown == vs@.take(lc as int),
            out@ == base + concat_map(shown.take(i as int), |v: &Violation| detail_line(file@, *v)),
        decreases lc - i,
    {
        proof {
            lemma_concat_map_step(shown, i as int, |v: &Violation| detail_line(file@, *v));
        }
        push_detail_line(out, file, vs[i]);
        i += 1;
    }
    proof {
        lemma_take_full(shown);
    }
}

fn push_file_block(out: &mut String, fg: &FileGroup, verbose: bool)
    ensures
        final(out)@ == old(out)@ + file_block(*fg, verbose),
{
    let ghost start = out@;
    let n = fg.violations.len();
    let lc = visible_line_count(n, level_of(verbose));
    let hd = any_details(&fg.violations);
    if hd {
        push_detail_lines(out, &fg.file, &fg.violations, lc);
    } else {
        push_count_line(out, &fg.file, &fg.violations.as_slice()[0..lc], n, verbose);
    }
    push_hidden_lines_note(out, n, lc, hd);
    proof {
        lemma_file_block_parts(*fg, verbose);
        assert(out@ =~= start + file_block(*fg, verbose));
    }
}

/// The number of findings of the groups, adding up to at most `usize::MAX`.
pub open spec fn finding_total(fgs: Seq<FileGroup>) -> nat
    decreases fgs.len(),
{
    if fgs.len() == 0 {
        0
    } else {
        let t = finding_total(fgs.drop_last()) + fgs.last().violations@.len();
        if t > usize::MAX { usize::MAX as nat } else { t }
    }
}

/// The heading of a rule group: rule, count, files, and message.
pub open spec fn rule_group_header(g: RuleGroup, file_count: nat) -> Seq<char> {
    "\n"@ + severity_colour(g.severity) + BOLD@ + g.rule@ + RESET@ + " "@ + DIM@
        + decimal(g.violations@.len()) + " "@ + plural_label(g.severity) + " in "@ + decimal(file_count)
        + " files"@ + RESET@ + "\n"@ + DIM@ + g.message@ + RESET@ + "\n"@
}

/// The note under a rule group whose files were cut short.
pub open spec fn hidden_files_note(fgs: Seq<FileGroup>, shown: nat) -> Seq<char> {
    if fgs.len() > shown {
        "  "@ + DIM@ + "+ "@ + decimal((fgs.len() - shown) as nat) + " more files with "@
            + decimal(finding_total(fgs.skip(shown as int))) + " findings. Use --verbose to show all files."@
            + RESET@ + "\n"@
    } else {
        Seq::empty()
    }
}

/// One rule group, given the grouping of its findings by file.
pub open spec fn rule_group_text(g: RuleGroup, fgs: Seq<FileGroup>, verbose: bool) -> Seq<char> {
    let shown = visible(fgs.len(), level(verbose), 6);
    rule_group_header(g, fgs.len()) + concat_map(fgs.take(shown as int), |fg: FileGroup| file_block(fg, verbose))
        + hidden_files_note(fgs, shown)
}

fn push_rule_group_header(out: &mut String, g: &RuleGroup, file_count: usize)
    ensures
        final(out)@ == old(out)@ + rule_group_header(*g, file_count as nat),
{
    let ghost start = out@;
    push_str(out, "\n");
    push_str(out, severity_color(g.severity));
    push_str(out, BOLD);
    push_str(out, g.rule.as_str());
    push_str(out, RESET);
    push_str(out, " ");
    push_str(out, DIM);
    push_decimal(out, g.violations.len());
    push_str(out, " ");
    push_str(out, pluralized_label(g.severity));
    push_str(out, " in ");
    push_decimal(out, file_count);
    push_str(out, " files");
    push_str(out, RESET);
    push_str(out, "\n");
    push_str(out, DIM);
    push_str(out, g.message.as_str());
    push_str(out, RESET);
    push_str(out, "\n");
    proof {
        assert(out@ =~= start + rule_group_header(*g, file_count as nat));
    }
}

fn total_findings_from(fgs: &Vec<FileGroup>, from: usize) -> (r: usize)
    requires
        from <= fgs@.len(),
    ensures
        r == finding_total(fgs@.skip(from as int)),
{
    let ghost rest = fgs@.skip(from as int);
    let n = fgs.len();
    let mut total: usize = 0;
    let mut i: usize = from;
    while i < n
        invariant
            n == fgs@.len(),
            from <= i <= n,
            rest == fgs@.skip(from as int),
            total == finding_total(rest.take(i - from)),
        decreases n - i,
    {
        proof {
            assert(rest.take(i - from + 1).drop_last() =~= rest.take(i - from));
            assert(rest[i - from] == fgs@[i as int]);
        }
        total = total.saturating_add(fgs[i].violations.len());
        i += 1;
    }
    proof {
        lemma_take_full(rest);
    }
    total
}

fn push_hidden_files_note(out: &mut String, fgs: &Vec<FileGroup>, shown: usize)
    requires
        shown <= fgs@.len(),
    ensures
        final(out)@ == old(out)@ + hidden_files_note(fgs@, shown as nat),
{
    let ghost start = out@;
    if fgs.len() > shown {
        let hidden_findings = total_findings_from(fgs, shown);
        push_str(out, "  ");
        push_str(out, DIM);
        push_str(out, "+ ");
        push_decimal(out, fgs.len() - shown);
        push_str(out, " more files with ");
        push_decimal(out, hidden_findings);
        push_str(out, " findings. Use --verbose to show all files.");
        push_str(out, RESET);
        push_str(out, "\n");
    }
    proof {
        assert(out@ =~= start + hidden_files_note(fgs@, shown as nat));
    }
}

fn render_rule_group(group: &RuleGroup, verbose: bool) -> (r: String)
    ensures
        exists|fgs: Seq<FileGroup>| is_file_grouping(fgs, group.violations@) && r@ == rule_group_text(*group, fgs, verbose),
{
    let file_groups = group_by_file(group.violations.as_slice());
    let shown = visible_file_count(file_groups.len(), level_of(verbose));
    let mut out = String::new();
    push_rule_group_header(&mut out, group, file_groups.len());
    let ghost base = out@;
    let ghost fgs = file_groups@.take(shown as int);
    let mut i: usize = 0;
    while i < shown
        invariant
            shown <= file_groups@.len(),
            0 <= i <= shown,
            fgs == file_groups@.take(shown as int),
            out@ == base + concat_map(fgs.take(i as int), |fg: FileGroup| file_block(fg, verbose)),
        decreases shown - i,
    {
        proof {
            lemma_concat_map_step(fgs, i as int, |fg: FileGroup| file_block(fg, verbose));
        }
        push_file_block(&mut out, &file_groups[i], verbose);
        i += 1;
    }
    proof {
        lemma_take_full(fgs);
    }
    push_hidden_files_note(&mut out, &file_groups, shown);
    proof {
        assert(out@ =~= rule_group_text(*group, file_groups@, verbose));
    }
    out
}

/// `fgss[k]` is the grouping by file of the findings of `groups[k]`, for the first `n` groups.
pub open spec fn groupings_by_file(groups: Seq<RuleGroup>, fgss: Seq<Seq<FileGroup>>, n: nat) -> bool {
    &&& n <= groups.len()
    &&& fgss.len() == n
    &&& forall|k: int| 0 <= k < n ==> is_file_grouping(#[trigger] fgss[k], groups[k].violations@)
}

/// The first `n` rule groups, one after the other.
pub open spec fn rule_groups_text(groups: Seq<RuleGroup>, fgss: Seq<Seq<FileGroup>>, verbose: bool, n: nat) -> Seq<char>
    decreases n,
{
    if n == 0 {
        Seq::empty()
    } else {
        rule_groups_text(groups, fgss, verbose, (n - 1) as nat)
            + rule_group_text(groups[n - 1], fgss[n - 1], verbose)
    }
}

/// The findings section: the shown rule groups, then a note of how many are hidden.
pub open spec fn findings_text(groups: Seq<RuleGroup>, fgss: Seq<Seq<FileGroup>>, verbose: bool) -> Seq<char> {
    let shown = visible(groups.len(), level(verbose), 6);
    BOLD@ + "Findings"@ + RESET@ + "\n"@ + rule_groups_text(groups, fgss, verbose, shown) + hidden_note(groups.len(), shown)
}

fn render_findings(rule_groups: &[RuleGroup], verbose: bool) -> (r: String)
    ensures
        exists|fgss: Seq<Seq<FileGroup>>|
            groupings_by_file(rule_groups@, fgss, visible(rule_groups@.len(), level(verbose), 6))
                && r@ == findings_text(rule_groups@, fgss, verbose),
{
    let n = rule_groups.len();
    let shown = visible_rule_group_count(n, level_of(verbose));
    let mut out = String::new();
    push_str(&mut out, BOLD);
    push_str(&mut out, "Findings");
    push_str(&mut out, RESET);
    push_str(&mut out, "\n");
    let ghost base = out@;
    let ghost mut fgss: Seq<Seq<FileGroup>> = Seq::empty();
    let mut i: usize = 0;
    while i < shown
        invariant
            n == rule_groups@.len(),
            shown <= n,
            0 <= i <= shown,
            groupings_by_file(rule_groups@, fgss, i as nat),
            out@ == base + rule_groups_text(rule_groups@, fgss, verbose, i as nat),
        decreases shown - i,
    {
        let text = render_rule_group(&rule_groups[i], verbose);
        let ghost g = rule_groups@[i as int];
        let ghost w = choose|fgs: Seq<FileGroup>| is_file_grouping(fgs, g.violations@) && text@ == rule_group_text(g, fgs, verbose);
        let ghost old_fgss = fgss;
        proof {
            fgss = fgss.push(w);
            assert(rule_groups_text(rule_groups@, fgss, verbose, i as nat) == rule_groups_text(rule_groups@, old_fgss, verbose, i as nat)) by {
                lemma_rule_groups_text_prefix(rule_groups@, old_fgss, fgss, verbose, i as nat);
            }
        }
        push_str(&mut out, text.as_str());
        i += 1;
        proof {
            assert(out@ =~= base + rule_groups_text(rule_groups@, fgss, verbose, i as nat));
        }
    }
    push_hidden_note(&mut out, n, shown);
    proof {
        assert(out@ =~= findings_text(rule_groups@, fgss, verbose));
    }
    out
}

/// The note of how many of `n` rule groups are hidden when `shown` are shown.
pub open spec fn hidden_note(n: nat, shown: nat) -> Seq<char> {
    if n > shown {
        DIM@ + "Hidden rule groups: "@ + decimal((n - shown) as nat) + ". Run with --verbose for the full report."@ + RESET@ + "\n"@
    } else {
        Seq::empty()
    }
}

fn push_hidden_note(out: &mut String, n: usize, shown: usize)
    requires
        shown <= n,
    ensures
        final(out)@ == old(out)@ + hidden_note(n as nat, shown as nat),
{
    let ghost start = out@;
    if n > shown {
        push_str(out, DIM);
        push_str(out, "Hidden rule groups: ");
        push_decimal(out, n - shown);
        push_str(out, ". Run with --verbose for the full report.");
        push_str(out, RESET);
        push_str(out, "\n");
    }
    proof {
        assert(out@ =~= start + hidden_note(n as nat, shown as nat));
    }
}

proof fn lemma_rule_groups_text_prefix(groups: Seq<RuleGroup>, a: Seq<Seq<FileGroup>>, b: Seq<Seq<FileGroup>>, verbose: bool, n: nat)
    requires
        n <= a.len(),
        n <= b.len(),
        forall|k: int| 0 <= k < n ==> a[k] == b[k],
    ensures
        rule_groups_text(groups, a, verbose, n) == rule_groups_text(groups, b, verbose, n),
    decreases n,
{
    if n > 0 {
        lemma_rule_groups_text_prefix(groups, a, b, verbose, (n - 1) as nat);
    }
}

/// `t` right-aligned in a field of width `w`.
pub open spec fn pad_left(t: Seq<char>, w: nat) -> Seq<char> {
    if t.len() < w { repeat_char(' ', (w - t.len()) as nat) + t } else { t }
}

/// `t` left-aligned in a field of width `w`.
pub open spec fn pad_right(t: Seq<char>, w: nat) -> Seq<char> {
    if t.len() < w { t + repeat_char(' ', (w - t.len()) as nat) } else { t }
}

/// The widest count among the first `n` groups.
pub open spec fn count_width(groups: Seq<RuleGroup>, n: nat) -> nat
    decreases n,
{
    if n == 0 {
        0
    } else {
        let w = decimal(groups[n - 1].violations@.len()).len();
        let prev = count_width(groups, (n - 1) as nat);
        if prev < w { w } else { prev }
    }
}

/// The widest rule among the first `n` groups.
pub open spec fn rule_width(groups: Seq<RuleGroup>, n: nat) -> nat
    decreases n,
{
    if n == 0 {
        0
    } else {
        let w = groups[n - 1].rule@.len();
        let prev = rule_width(groups, (n - 1) as nat);
        if prev < w { w } else { prev }
    }
}

/// The heading of a severity section, before the group at `i` where its severity differs from
/// the one before it.
pub open spec fn section_head(groups: Seq<RuleGroup>, i: int) -> Seq<char> {
    if i == 0 || groups[i - 1].severity != groups[i].severity {
        (if i > 0 { rule_line() } else { Seq::empty() }) + "\n"@ + severity_colour(groups[i].severity) + BOLD@
            + plural_header(groups[i].severity) + RESET@ + "\n"@ + rule_line()
    } else {
        Seq::empty()
    }
}

/// One numbered row of the overview.
pub open spec fn overview_row(g: RuleGroup, position: nat, cw: nat, rw: nat) -> Seq<char> {
    "  "@ + DIM@ + pad_left(decimal(position), 2) + "."@ + RESET@ + " "@ + severity_colour(g.severity)
        + pad_left(decimal(g.violations@.len()), cw) + RESET@ + "  "@ + plural_label(g.severity) + "  "@
        + pad_right(g.rule@, rw) + " "@ + g.message@ + "\n"@
}

/// The first `n` rows of the overview, with their section headings.
pub open spec fn overview_rows(groups: Seq<RuleGroup>, n: nat, cw: nat, rw: nat) -> Seq<char>
    decreases n,
{
    if n == 0 {
        Seq::empty()
    } else {
        overview_rows(groups, (n - 1) as nat, cw, rw) + section_head(groups, n - 1)
            + overview_row(groups[n - 1], n, cw, rw)
    }
}

/// The rule overview: the shown groups numbered and sectioned by severity, counts and rules
/// aligned, then a note of how many are hidden.
pub open spec fn overview_text(groups: Seq<RuleGroup>, verbose: bool) -> Seq<char> {
    let shown = visible(groups.len(), level(verbose), 6);
    let cw = if shown == 0 { 1 } else { count_width(groups, shown) };
    let rw = if shown == 0 { 1 } else { rule_width(groups, shown) };
    BOLD@ + "Rule Overview"@ + RESET@ + "\n"@ + overview_rows(groups, shown, cw, rw)
        + (if shown > 0 { rule_line() } else { Seq::empty() }) + (if groups.len() > shown {
        "\n"@ + DIM@ + "... "@ + decimal((groups.len() - shown) as nat)
            + " more rules hidden. Run with --verbose to show all."@ + RESET@ + "\n"@
    } else {
        Seq::empty()
    })
}

fn push_rule_line(out: &mut String)
    ensures
        final(out)@ == old(out)@ + rule_line(),
{
    let ghost start = out@;
    push_str(out, DIM);
    push_repeated(out, '─', 60);
    push_str(out, RESET);
    push_str(out, "\n");
    proof {
        assert(out@ =~= start + rule_line());
    }
}

fn push_padded_left(out: &mut String, t: &str, w: usize)
    ensures
        final(out)@ == old(out)@ + pad_left(t@, w as nat),
{
    let ghost start = out@;
    let len = chars_of(t).len();
    if len < w {
        push_repeated(out, ' ', w - len);
    }
    push_str(out, t);
    proof {
        assert(out@ =~= start + pad_left(t@, w as nat));
    }
}

fn push_padded_right(out: &mut String, t: &str, w: usize)
    ensures
        final(out)@ == old(out)@ + pad_right(t@, w as nat),
{
    let ghost start = out@;
    let len = chars_of(t).len();
    push_str(out, t);
    if len < w {
        push_repeated(out, ' ', w - len);
    }
    proof {
        assert(out@ =~= start + pad_right(t@, w as nat));
    }
}

fn widths(groups: &[RuleGroup], n: usize) -> (r: (usize, usize))
    requires
        n <= groups@.len(),
    ensures
        r.0 == count_width(groups@, n as nat),
        r.1 == rule_width(groups@, n as nat),
{
    let mut cw: usize = 0;
    let mut rw: usize = 0;
    let mut i: usize = 0;
    while i < n
        invariant
            n <= groups@.len(),
            0 <= i <= n,
            cw == count_width(groups@, i as nat),
            rw == rule_width(groups@, i as nat),
        decreases n - i,
    {
        let c = chars_of(usize_to_string(groups[i].violations.len()).as_str()).len();
        let w = chars_of(groups[i].rule.as_str()).len();
        if cw < c {
            cw = c;
        }
        if rw < w {
            rw = w;
        }
        i += 1;
    }
    (cw, rw)
}

fn push_section_head(out: &mut String, groups: &[RuleGroup], i: usize)
    requires
        i < groups@.len(),
    ensures
        final(out)@ == old(out)@ + section_head(groups@, i as int),
{
    let ghost start = out@;
    if i == 0 || groups[i - 1].severity != groups[i].severity {
        if i > 0 {
            push_rule_line(out);
        }
        let sev = groups[i].severity;
        push_str(out, "\n");
        push_str(out, severity_color(sev));
        push_str(out, BOLD);
        push_str(out, pluralized_header(sev));
        push_str(out, RESET);
        push_str(out, "\n");
        push_rule_line(out);
    }
    proof {
        assert(out@ =~= start + section_head(groups@, i as int));
    }
}

#[verifier::rlimit(60)]
fn push_overview_row(out: &mut String, g: &RuleGroup, position: usize, cw: usize, rw: usize)
    ensures
        final(out)@ == old(out)@ + overview_row(*g, position as nat, cw as nat, rw as nat),
{
    let ghost start = out@;
    push_str(out, "  ");
    push_str(out, DIM);
    push_padded_left(out, usize_to_string(position).as_str(), 2);
    push_str(out, ".");
    push_str(out, RESET);
    push_str(out, " ");
    push_str(out, severity_color(g.severity));
    let ghost a = out@;
    push_padded_left(out, usize_to_string(g.violations.len()).as_str(), cw);
    push_str(out, RESET);
    push_str(out, "  ");
    push_str(out, pluralized_label(g.severity));
    push_str(out, "  ");
    let ghost b = out@;
    push_padded_right(out, g.rule.as_str(), rw);
    push_str(out, " ");
    push_str(out, g.message.as_str());
    push_str(out, "\n");
    proof {
        assert(out@ =~= start + overview_row(*g, position as nat, cw as nat, rw as nat));
    }
}

fn render_rule_overview(rule_groups: &[RuleGroup], verbose: bool) -> (r: String)
    ensures
        r@ == overview_text(rule_groups@, verbose),
{
    let n = rule_groups.len();
    let shown = visible_rule_group_count(n, level_of(verbose));
    let (mut cw, mut rw) = widths(rule_groups, shown);
    if shown == 0 {
        cw = 1;
        rw = 1;
    }
    let mut out = String::new();
    push_str(&mut out, BOLD);
    push_str(&mut out, "Rule Overview");
    push_str(&mut out, RESET);
    push_str(&mut out, "\n");
    let ghost base = out@;
    let mut i: usize = 0;
    while i < shown
        invariant
            n == rule_groups@.len(),
            shown <= n,
            0 <= i <= shown,
            out@ == base + overview_rows(rule_groups@, i as nat, cw as nat, rw as nat),
        decreases shown - i,
    {
        push_section_head(&mut out, rule_groups, i);
        push_overview_row(&mut out, &rule_groups[i], i + 1, cw, rw);
        i += 1;
        proof {
            assert(out@ =~= base + overview_rows(rule_groups@, i as nat, cw as nat, rw as nat));
        }
    }
    let ghost mid = out@;
    if shown > 0 {
        push_rule_line(&mut out);
    }
    if n > shown {
        push_str(&mut out, "\n");
        push_str(&mut out, DIM);
        push_str(&mut out, "... ");
        push_decimal(&mut out, n - shown);
        push_str(&mut out, " more rules hidden. Run with --verbose to show all.");
        push_str(&mut out, RESET);
        push_str(&mut out, "\n");
    }
    proof {
        assert(out@ =~= overview_text(rule_groups@, verbose));
    }
    out
}

/// The score line: score and status.
pub open spec fn score_line(s: TextSummary) -> Seq<char> {
    let e = s.error_count as nat;
    let w = s.warning_count as nat;
    let i = s.info_count as nat;
    score_colour(s.score as nat) + BOLD@ + "Score "@ + decimal(s.score as nat) + "/100"@ + RESET@ + "  "@
        + status_colour(e, w, i) + BOLD@ + status_text(e, w, i) + RESET@ + "\n"@
}

/// The counts line, followed by a blank line.
pub open spec fn counts_line(s: TextSummary) -> Seq<char> {
    DIM@ + decimal(s.file_count as nat) + " files scanned | "@ + decimal(s.violation_count as nat) + " findings | "@
        + decimal(s.error_count as nat) + " errors | "@ + decimal(s.warning_count as nat) + " warnings | "@
        + decimal(s.info_count as nat) + " info"@ + RESET@ + "\n\n"@
}

/// The score line, the counts line, and the rule overview.
pub open spec fn end_summary_text(s: TextSummary, groups: Seq<RuleGroup>, verbose: bool) -> Seq<char> {
    score_line(s) + counts_line(s) + overview_text(groups, verbose)
}

fn push_score_line(out: &mut String, s: &TextSummary)
    ensures
        final(out)@ == old(out)@ + score_line(*s),
{
    let ghost start = out@;
    push_str(out, score_color(s.score));
    push_str(out, BOLD);
    push_str(out, "Score ");
    push_decimal(out, s.score);
    push_str(out, "/100");
    push_str(out, RESET);
    push_str(out, "  ");
    push_str(out, status_color(s.error_count, s.warning_count, s.info_count));
    push_str(out, BOLD);
    push_str(out, status_label(s.error_count, s.warning_count, s.info_count));
    push_str(out, RESET);
    push_str(out, "\n");
    proof {
        assert(out@ =~= start + score_line(*s));
    }
}

fn push_counts_line(out: &mut String, s: &TextSummary)
    ensures
        final(out)@ == old(out)@ + counts_line(*s),
{
    let ghost start = out@;
    push_str(out, DIM);
    push_decimal(out, s.file_count);
    push_str(out, " files scanned | ");
    push_decimal(out, s.violation_count);
    push_str(out, " findings | ");
    push_decimal(out, s.error_count);
    push_str(out, " errors | ");
    push_decimal(out, s.warning_count);
    push_str(out, " warnings | ");
    push_decimal(out, s.info_count);
    push_str(out, " info");
    push_str(out, RESET);
    push_str(out, "\n\n");
    proof {
        assert(out@ =~= start + counts_line(*s));
    }
}

fn render_end_summary(summary: &TextSummary, rule_groups: &[RuleGroup], verbose: bool) -> (r: String)
    ensures
        r@ == end_summary_text(*summary, rule_groups@, verbose),
{
    let mut out = String::new();
    push_score_line(&mut out, summary);
    push_counts_line(&mut out, summary);
    let overview = render_rule_overview(rule_groups, verbose);
    push_str(&mut out, overview.as_str());
    proof {
        assert(out@ =~= end_summary_text(*summary, rule_groups@, verbose));
    }
    out
}

/// The title of a text report.
pub open spec fn header_text() -> Seq<char> {
    BOLD@ + "Niteo Structure Health"@ + RESET@ + "\n\n"@
}

fn render_header() -> (r: String)
    ensures
        r@ == header_text(),
{
    let mut out = String::new();
    push_str(&mut out, BOLD);
    push_str(&mut out, "Niteo Structure Health");
    push_str(&mut out, RESET);
    push_str(&mut out, "\n\n");
    proof {
        assert(out@ =~= header_text());
    }
    out
}

/// One diagnostic as a warning line.
pub open spec fn diagnostic_line(d: Diagnostic) -> Seq<char> {
    "  "@ + YELLOW@ + "warning"@ + RESET@ + ": "@ + d.message@ + "\n"@
}

/// The diagnostics section: nothing where there are none.
pub open spec fn diagnostics_text(ds: Seq<Diagnostic>) -> Seq<char> {
    if ds.len() == 0 {
        Seq::empty()
    } else {
        BOLD@ + "Diagnostics"@ + RESET@ + "\n"@ + concat_map(ds, |d: Diagnostic| diagnostic_line(d)) + "\n"@
    }
}

fn render_diagnostics(diagnostics: &[Diagnostic]) -> (r: String)
    ensures
        r@ == diagnostics_text(diagnostics@),
{
    let mut out = String::new();
    let n = diagnostics.len();
    if n == 0 {
        proof {
            assert(out@ =~= diagnostics_text(diagnostics@));
        }
        return out;
    }
    push_str(&mut out, BOLD);
    push_str(&mut out, "Diagnostics");
    push_str(&mut out, RESET);
    push_str(&mut out, "\n");
    let ghost base = out@;
    let mut i: usize = 0;
    while i < n
        invariant
            n == diagnostics@.len(),
            0 <= i <= n,
            out@ == base + concat_map(diagnostics@.take(i as int), |d: Diagnostic| diagnostic_line(d)),
        decreases n - i,
    {
        proof {
            lemma_concat_map_step(diagnostics@, i as int, |d: Diagnostic| diagnostic_line(d));
        }
        let ghost before = out@;
        push_str(&mut out, "  ");
        push_str(&mut out, YELLOW);
        push_str(&mut out, "warning");
        push_str(&mut out, RESET);
        push_str(&mut out, ": ");
        push_str(&mut out, diagnostics[i].message.as_str());
        push_str(&mut out, "\n");
        proof {
            assert(out@ =~= before + diagnostic_line(diagnostics@[i as int]));
        }
        i += 1;
    }
    proof {
        lemma_take_full(diagnostics@);
    }
    push_str(&mut out, "\n");
    proof {
        assert(out@ =~= diagnostics_text(diagnostics@));
    }
    out
}

/// The closing summary figures of a report.
pub open spec fn summary_of(r: Report) -> TextSummary {
    let e = count_severity(r.violations@, Severity::Error);
    let w = count_severity(r.violations@, Severity::Warn);
    let i = count_severity(r.violations@, Severity::Info);
    TextSummary {
        file_count: r.files@.len() as usize,
        violation_count: r.violations@.len() as usize,
        error_count: e as usize,
        warning_count: w as usize,
        info_count: i as usize,
        score: score_value(e, w, r.files@.len()) as usize,
    }
}

/// The body of a text report: a clean bill where there are no findings, else the findings and
/// the closing summary.
pub open spec fn body_text(r: Report, groups: Seq<RuleGroup>, fgss: Seq<Seq<FileGroup>>, verbose: bool) -> Seq<char> {
    if r.violations@.len() == 0 {
        GREEN@ + BOLD@ + "No structural issues found."@ + RESET@ + "\n"@
    } else {
        findings_text(groups, fgss, verbose) + "\n"@ + end_summary_text(summary_of(r), groups, verbose)
    }
}

/// The suppressions of a report, after a blank line, where there is something to say.
pub open spec fn suppressions_part(r: Report) -> Seq<char> {
    match r.suppression_report {
        Some(sr) => if suppression_text(sr).len() > 0 { "\n"@ + suppression_text(sr) } else { Seq::empty() },
        None => Seq::empty(),
    }
}

/// The text report of `r`, given the grouping of its findings by rule and of the shown groups
/// by file.
pub open spec fn text_report(r: Report, groups: Seq<RuleGroup>, fgss: Seq<Seq<FileGroup>>, verbose: bool) -> Seq<char> {
    header_text() + diagnostics_text(r.diagnostics@) + body_text(r, groups, fgss, verbose) + suppressions_part(r)
}

/// A sequence opens the sequences that it starts.
proof fn lemma_opens(h: Seq<char>, d: Seq<char>, b: Seq<char>, s: Seq<char>)
    ensures
        h.is_prefix_of(((h + d) + b) + s),
{
    assert((((h + d) + b) + s).subrange(0, h.len() as int) =~= h);
}

/// Where the pieces of a sequence lie.
proof fn lemma_window(h: Seq<char>, d: Seq<char>, f: Seq<char>, nl: Seq<char>, sc: Seq<char>, cn: Seq<char>, ov: Seq<char>, s: Seq<char>)
    ensures
        (((h + d) + ((f + nl) + ((sc + cn) + ov))) + s).subrange((h.len() + d.len() + f.len() + nl.len()) as int,
            (h.len() + d.len() + f.len() + nl.len() + sc.len() + cn.len()) as int) == sc + cn,
{
    let t = ((h + d) + ((f + nl) + ((sc + cn) + ov))) + s;
    assert(t =~= (h + d + f + nl) + (sc + cn) + (ov + s));
    assert(t.subrange((h.len() + d.len() + f.len() + nl.len()) as int, (h.len() + d.len() + f.len() + nl.len() + sc.len() + cn.len()) as int) =~= sc + cn);
}

/// A text report opens with its title; where there are findings, the score line (score and
/// status) and the counts line (files scanned, findings, and findings of each severity) come
/// one after the other in it.
pub proof fn lemma_text_frame(r: Report, groups: Seq<RuleGroup>, fgss: Seq<Seq<FileGroup>>, verbose: bool)
    ensures
        header_text().is_prefix_of(text_report(r, groups, fgss, verbose)),
        r.violations@.len() > 0 ==> exists|i: int| 0 <= i && #[trigger] text_report(r, groups, fgss, verbose).subrange(i, i + score_line(summary_of(r)).len() + counts_line(summary_of(r)).len())
            == score_line(summary_of(r)) + counts_line(summary_of(r)),
{
    let h = header_text();
    let d = diagnostics_text(r.diagnostics@);
    let b = body_text(r, groups, fgss, verbose);
    let s = suppressions_part(r);
    lemma_opens(h, d, b, s);
    if r.violations@.len() > 0 {
        let sm = summary_of(r);
        let f = findings_text(groups, fgss, verbose);
        lemma_window(h, d, f, "\n"@, score_line(sm), counts_line(sm), overview_text(groups, verbose), s);
        let i: int = (h.len() + d.len() + f.len() + "\n"@.len()) as int;
        assert(text_report(r, groups, fgss, verbose).subrange(i, i + score_line(sm).len() + counts_line(sm).len()) == score_line(sm) + counts_line(sm));
    }
}

/// The counts of a report fit the arithmetic of its score and suppression totals.
pub open spec fn text_report_fits(r: Report) -> bool {
    &&& saturating_product(count_severity(r.violations@, Severity::Error), 2)
        + count_severity(r.violations@, Severity::Warn) <= usize::MAX
    &&& (r.suppression_report matches Some(sr) ==> suppressed_total(sr.files@) <= usize::MAX
        && stale_total(sr.files@) <= usize::MAX)
}

fn push_suppressions(out: &mut String, report: &Report)
    requires
        text_report_fits(*report),
    ensures
        final(out)@ == old(out)@ + suppressions_part(*report),
{
    let ghost start = out@;
    match &report.suppression_report {
        Some(sr) => {
            if !sr.is_empty() {
                let rendered = render_suppression_report_text(sr);
                if !is_empty_string(&rendered) {
                    push_str(out, "\n");
                    push_str(out, rendered.as_str());
                }
            }
        },
        None => {},
    }
    proof {
        assert(out@ =~= start + suppressions_part(*report));
    }
}

fn push_clean_body(out: &mut String, report: &Report, rule_groups: &Vec<RuleGroup>, verbose: bool)
    requires
        report.violations@.len() == 0,
        is_rule_grouping(rule_groups@, report.violations@),
    ensures
        exists|fgss: Seq<Seq<FileGroup>>|
            groupings_by_file(rule_groups@, fgss, visible(rule_groups@.len(), level(verbose), 6))
                && final(out)@ == old(out)@ + body_text(*report, rule_groups@, fgss, verbose),
{
    let ghost start = out@;
    let ghost groups = rule_groups@;
    push_str(out, GREEN);
    push_str(out, BOLD);
    push_str(out, "No structural issues found.");
    push_str(out, RESET);
    push_str(out, "\n");
    proof {
        if groups.len() > 0 {
            assert(rule_group_ok(groups[0], refs(report.violations@)));
            assert(refs(report.violations@) =~= Seq::empty());
        }
        let fgss: Seq<Seq<FileGroup>> = Seq::empty();
        assert(groupings_by_file(groups, fgss, visible(groups.len(), level(verbose), 6)));
        assert(out@ =~= start + body_text(*report, groups, fgss, verbose));
    }
}

fn summary_for(report: &Report) -> (r: TextSummary)
    requires
        text_report_fits(*report),
    ensures
        r == summary_of(*report),
{
    let error_count = report.error_count();
    let warning_count = report.warning_count();
    let info_count = report.info_count();
    let calc_score = score(error_count, warning_count, report.files.len());
    proof {
        lemma_count_two_severities_le(report.violations@);
    }
    TextSummary {
        file_count: report.files.len(),
        violation_count: report.violations.len(),
        error_count,
        warning_count,
        info_count,
        score: calc_score,
    }
}

#[verifier::spinoff_prover]
#[verifier::rlimit(60)]
fn push_findings_body(out: &mut String, report: &Report, rule_groups: &Vec<RuleGroup>, verbose: bool)
    requires
        report.violations@.len() > 0,
        text_report_fits(*report),
        is_rule_grouping(rule_groups@, report.violations@),
    ensures
        exists|fgss: Seq<Seq<FileGroup>>|
            groupings_by_file(rule_groups@, fgss, visible(rule_groups@.len(), level(verbose), 6))
                && final(out)@ == old(out)@ + body_text(*report, rule_groups@, fgss, verbose),
{
    let ghost start = out@;
    let ghost groups = rule_groups@;
    let findings = render_findings(rule_groups.as_slice(), verbose);
    let ghost fgss = choose|f: Seq<Seq<FileGroup>>|
        groupings_by_file(groups, f, visible(groups.len(), level(verbose), 6))
            && findings@ == findings_text(groups, f, verbose);
    push_str(out, findings.as_str());
    push_str(out, "\n");
    let summary = summary_for(report);
    let end = render_end_summary(&summary, rule_groups.as_slice(), verbose);
    push_str(out, end.as_str());
    proof {
        assert(out@ =~= start + body_text(*report, groups, fgss, verbose));
    }
}

fn push_body(out: &mut String, report: &Report, rule_groups: &Vec<RuleGroup>, verbose: bool)
    requires
        text_report_fits(*report),
        is_rule_grouping(rule_groups@, report.violations@),
    ensures
        exists|fgss: Seq<Seq<FileGroup>>|
            groupings_by_file(rule_groups@, fgss, visible(rule_groups@.len(), level(verbose), 6))
                && final(out)@ == old(out)@ + body_text(*report, rule_groups@, fgss, verbose),
{
    if report.violations.len() == 0 {
        push_clean_body(out, report, rule_groups, verbose);
    } else {
        push_findings_body(out, report, rule_groups, verbose);
    }
}

impl Report {
    /// The report as terminal text: title, diagnostics, the findings grouped by rule and file
    /// with the closing summary (or a clean bill), and the suppressions. Without `verbose`,
    /// at most 6 rule groups, 6 files per group and 8 locations per file are shown.
    pub fn render_text(&self, verbose: bool) -> (r: String)
        requires
            text_report_fits(*self),
        ensures
            exists|groups: Seq<RuleGroup>, fgss: Seq<Seq<FileGroup>>|
                is_rule_grouping(groups, self.violations@)
                    && groupings_by_file(groups, fgss, visible(groups.len(), level(verbose), 6))
                    && r@ == text_report(*self, groups, fgss, verbose),
    {
        let mut output = render_header();
        let diagnostics = render_diagnostics(self.diagnostics.as_slice());
        push_str(&mut output, diagnostics.as_str());
        let rule_groups = group_by_rule(self.violations.as_slice());
        let ghost before_body = output@;
        push_body(&mut output, self, &rule_groups, verbose);
        let ghost groups = rule_groups@;
        let ghost fgss = choose|f: Seq<Seq<FileGroup>>|
            groupings_by_file(groups, f, visible(groups.len(), level(verbose), 6))
                && output@ == before_body + body_text(*self, groups, f, verbose);
        push_suppressions(&mut output, self);
        proof {
            assert(output@ =~= text_report(*self, groups, fgss, verbose));
        }
        output
    }
}

} // verus!
