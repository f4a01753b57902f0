//! Summary figures of a report and the grouping of its findings.

use vstd::prelude::*;
use crate::chars::{copy_string, decimal, push_char, push_decimal, str_equal};
use crate::config::Severity;
use crate::order::{char_seq_order, compare_paths, compare_str, lemma_char_seq_order_props,
    lemma_char_seq_order_trans, lemma_segs_order_props, lemma_segs_order_trans, path_order};
use crate::paths::path_key;
use crate::rules::Violation;
use crate::counting::{keyed, keyed_total, lemma_keyed_partition};
use crate::sorting::{insertion_sort, lemma_permutation_keeps_distinct_keys, lemma_permutation_contains,
    sorted_seq, SortKey};

verus! {

broadcast use vstd::seq_lib::group_to_multiset_ensures;

pub const RED: &'static str = "\x1b[31m";
pub const YELLOW: &'static str = "\x1b[33m";
pub const GREEN: &'static str = "\x1b[32m";
pub const CYAN: &'static str = "\x1b[36m";
pub const BLUE: &'static str = "\x1b[34m";
pub const BOLD: &'static str = "\x1b[1m";
pub const DIM: &'static str = "\x1b[2m";
pub const RESET: &'static str = "\x1b[0m";

/// `a * b`, or `usize::MAX` where that does not fit.
pub open spec fn saturating_product(a: nat, b: nat) -> nat {
    if a * b > usize::MAX { usize::MAX as nat } else { a * b }
}

/// The health score: 100 minus the weighted findings (errors count twice) per file scanned,
/// in percent, never below 0; 100 when no file was scanned.
pub open spec fn score_value(error_count: nat, warning_count: nat, file_count: nat) -> nat {
    if file_count == 0 {
        100
    } else {
        let weighted = saturating_product(error_count, 2) + warning_count;
        let penalty = saturating_product(weighted, 100) / file_count;
        if penalty >= 100 { 0 } else { (100 - penalty) as nat }
    }
}

fn saturating_mul(a: usize, b: usize) -> (r: usize)
    ensures
        r == saturating_product(a as nat, b as nat),
{
    match a.checked_mul(b) {
        Some(v) => v,
        None => usize::MAX,
    }
}

/// The health score of a run.
pub fn score(error_count: usize, warning_count: usize, file_count: usize) -> (r: usize)
    requires
        saturating_product(error_count as nat, 2) + warning_count <= usize::MAX,
    ensures
        r == score_value(error_count as nat, warning_count as nat, file_count as nat),
{
    if file_count == 0 {
        return 100;
    }
    let weighted_findings = saturating_mul(error_count, 2) + warning_count;
    let files_scanned = if file_count > 1 { file_count } else { 1 };
    let penalty = saturating_mul(weighted_findings, 100) / files_scanned;
    100usize.saturating_sub(penalty)
}

/// The status line of a run.
pub open spec fn status_text(error_count: nat, warning_count: nat, info_count: nat) -> Seq<char> {
    if error_count > 0 {
        "Needs attention"@
    } else if warning_count > 0 {
        "Review recommended"@
    } else if info_count > 0 {
        "Suggestions available"@
    } else {
        "Healthy"@
    }
}

/// The status line of a run.
pub fn status_label(error_count: usize, warning_count: usize, info_count: usize) -> (r: &'static str)
    ensures
        r@ == status_text(error_count as nat, warning_count as nat, info_count as nat),
{
    if error_count > 0 {
        return "Needs attention";
    }
    if warning_count > 0 {
        return "Review recommended";
    }
    if info_count > 0 {
        return "Suggestions available";
    }
    "Healthy"
}

/// The color of the status line.
pub open spec fn status_colour(error_count: nat, warning_count: nat, info_count: nat) -> Seq<char> {
    if error_count > 0 {
        RED@
    } else if warning_count > 0 {
        YELLOW@
    } else if info_count > 0 {
        BLUE@
    } else {
        GREEN@
    }
}

/// The color of the status line.
pub fn status_color(error_count: usize, warning_count: usize, info_count: usize) -> (r: &'static str)
    ensures
        r@ == status_colour(error_count as nat, warning_count as nat, info_count as nat),
{
    if error_count > 0 {
        return RED;
    }
    if warning_count > 0 {
        return YELLOW;
    }
    if info_count > 0 {
        return BLUE;
    }
    GREEN
}

/// The color of a severity.
pub open spec fn severity_colour(s: Severity) -> Seq<char> {
    match s {
        Severity::Error => RED@,
        Severity::Warn => YELLOW@,
        Severity::Info => BLUE@,
        Severity::Off => DIM@,
    }
}

/// The color of a severity.
pub fn severity_color(severity: Severity) -> (r: &'static str)
    ensures
        r@ == severity_colour(severity),
{
    match severity {
        Severity::Error => RED,
        Severity::Warn => YELLOW,
        Severity::Info => BLUE,
        Severity::Off => DIM,
    }
}

/// The place of a severity in a report: errors first, then warnings, info, off.
pub open spec fn rank(s: Severity) -> nat {
    match s {
        Severity::Error => 0,
        Severity::Warn => 1,
        Severity::Info => 2,
        Severity::Off => 3,
    }
}

/// The place of a severity in a report: errors first, then warnings, info, off.
pub fn severity_rank(severity: Severity) -> (r: usize)
    ensures
        r == rank(severity),
{
    match severity {
        Severity::Error => 0,
        Severity::Warn => 1,
        Severity::Info => 2,
        Severity::Off => 3,
    }
}

/// The plural noun of a severity.
pub open spec fn plural_label(s: Severity) -> Seq<char> {
    match s {
        Severity::Error => "errors"@,
        Severity::Warn => "warnings"@,
        Severity::Info => "suggestions"@,
        Severity::Off => "off"@,
    }
}

/// The plural noun of a severity.
pub fn pluralized_label(severity: Severity) -> (r: &'static str)
    ensures
        r@ == plural_label(severity),
{
    match severity {
        Severity::Error => "errors",
        Severity::Warn => "warnings",
        Severity::Info => "suggestions",
        Severity::Off => "off",
    }
}

/// The section header of a severity.
pub open spec fn plural_header(s: Severity) -> Seq<char> {
    match s {
        Severity::Error => "Errors"@,
        Severity::Warn => "Warnings"@,
        Severity::Info => "Suggestions"@,
        Severity::Off => "Off"@,
    }
}

/// The section header of a severity.
pub fn pluralized_header(severity: Severity) -> (r: &'static str)
    ensures
        r@ == plural_header(severity),
{
    match severity {
        Severity::Error => "Errors",
        Severity::Warn => "Warnings",
        Severity::Info => "Suggestions",
        Severity::Off => "Off",
    }
}

/// The color of a score: green from 75, yellow from 50, red below.
pub open spec fn score_colour(score: nat) -> Seq<char> {
    if score >= 75 {
        GREEN@
    } else if score >= 50 {
        YELLOW@
    } else {
        RED@
    }
}

/// The color of a score.
pub fn score_color(score: usize) -> (r: &'static str)
    ensures
        r@ == score_colour(score as nat),
{
    if score >= 75 {
        return GREEN;
    }
    if score >= 50 {
        return YELLOW;
    }
    RED
}

/// How many of `count` items are shown: all when verbose, else at most `limit`.
pub open spec fn visible(count: nat, verbose: u8, limit: nat) -> nat {
    if verbose >= 1 { count } else if count < limit { count } else { limit }
}

/// How many rule groups a report shows.
pub fn visible_rule_group_count(group_count: usize, verbose: u8) -> (r: usize)
    ensures
        r == visible(group_count as nat, verbose, 6),
{
    if verbose >= 1 {
        return group_count;
    }
    if group_count < 6 { group_count } else { 6 }
}

/// How many files of one rule group a report shows.
pub fn visible_file_count(file_count: usize, verbose: u8) -> (r: usize)
    ensures
        r == visible(file_count as nat, verbose, 6),
{
    if verbose >= 1 {
        return file_count;
    }
    if file_count < 6 { file_count } else { 6 }
}

/// How many locations of one file a report shows.
pub fn visible_line_count(line_count: usize, verbose: u8) -> (r: usize)
    ensures
        r == visible(line_count as nat, verbose, 8),
{
    if verbose >= 1 {
        return line_count;
    }
    if line_count < 8 { line_count } else { 8 }
}

/// The line a finding is reported at (1 where it has none).
pub open spec fn line_or_first(v: Violation) -> nat {
    match v.line {
        Some(l) => l as nat,
        None => 1,
    }
}

/// `start`, or `start-end` where the range spans several lines.
pub open spec fn range_text(start: nat, end: nat) -> Seq<char> {
    if start == end {
        decimal(start)
    } else {
        decimal(start) + seq!['-'] + decimal(end)
    }
}

/// Reading the lines of a non-empty list in turn: the ranges closed so far, and the start and
/// end of the range being read; a line one past the current end extends the range.
pub open spec fn range_scan(lines: Seq<nat>) -> (Seq<Seq<char>>, nat, nat)
    decreases lines.len(),
{
    if lines.len() <= 1 {
        (Seq::empty(), lines[0], lines[0])
    } else {
        let (done, start, end) = range_scan(lines.drop_last());
        let line = lines.last();
        if line == end + 1 {
            (done, start, line)
        } else {
            (done.push(range_text(start, end)), line, line)
        }
    }
}

/// The runs of consecutive line numbers, in order, as text.
pub open spec fn line_ranges(lines: Seq<nat>) -> Seq<Seq<char>> {
    if lines.len() == 0 {
        Seq::empty()
    } else {
        let (done, start, end) = range_scan(lines);
        done.push(range_text(start, end))
    }
}

/// The reported lines of some findings.
pub open spec fn lines_of(vs: Seq<&Violation>) -> Seq<nat> {
    vs.map_values(|v: &Violation| line_or_first(*v))
}

fn range_string(start: usize, end: usize) -> (r: String)
    ensures
        r@ == range_text(start as nat, end as nat),
{
    let mut out = String::new();
    push_decimal(&mut out, start);
    if start != end {
        push_char(&mut out, '-');
        push_decimal(&mut out, end);
    }
    proof {
        assert(out@ =~= range_text(start as nat, end as nat));
    }
    out
}

fn line_value(v: &Violation) -> (r: usize)
    ensures
        r == line_or_first(*v),
{
    match v.line {
        Some(l) => l,
        None => 1,
    }
}

/// The runs of consecutive line numbers of some findings, in order, as text.
pub fn group_line_ranges(violations: &[&Violation]) -> (r: Vec<String>)
    ensures
        r@.map_values(|s: String| s@) == line_ranges(lines_of(violations@)),
{
    let ghost ls = lines_of(violations@);
    let n = violations.len();
    if n == 0 {
        let r: Vec<String> = Vec::new();
        proof {
            assert(r@.map_values(|s: String| s@) =~= line_ranges(ls));
        }
        return r;
    }
    let mut ranges: Vec<String> = Vec::new();
    let mut start = line_value(violations[0]);
    let mut end = start;
    let mut i: usize = 1;
    proof {
        assert(ls.take(1).len() == 1);
        assert(ranges@.map_values(|s: String| s@) =~= Seq::<Seq<char>>::empty());
    }
    while i < n
        invariant
            n == violations@.len(),
            ls == lines_of(violations@),
            1 <= i <= n,
            (ranges@.map_values(|s: String| s@), start as nat, end as nat) == range_scan(ls.take(i as int)),
        decreases n - i,
    {
        proof {
            assert(ls.take(i as int + 1).drop_last() =~= ls.take(i as int));
            assert(ls.take(i as int + 1).last() == ls[i as int]);
        }
        let line = line_value(violations[i]);
        if end < usize::MAX && line == end + 1 {
            end = line;
        } else {
            let ghost before = ranges@;
            ranges.push(range_string(start, end));
            proof {
                assert(ranges@.map_values(|s: String| s@) =~= before.map_values(|s: String| s@).push(range_text(start as nat, end as nat)));
            }
            start = line;
            end = line;
        }
        i += 1;
    }
    proof {
        assert(ls.take(n as int) =~= ls);
    }
    let ghost before = ranges@;
    ranges.push(range_string(start, end));
    proof {
        assert(ranges@.map_values(|s: String| s@) =~= before.map_values(|s: String| s@).push(range_text(start as nat, end as nat)));
    }
    ranges
}

/// The findings of one file.
#[derive(Debug)]
pub struct FileGroup<'a> {
    pub file: String,
    pub violations: Vec<&'a Violation>,
}

/// The findings of `vs` whose file has the component keys `key` (the same path), in order.
pub open spec fn in_file(vs: Seq<&Violation>, key: Seq<Seq<char>>) -> Seq<&Violation>
    decreases vs.len(),
{
    if vs.len() == 0 {
        Seq::empty()
    } else if path_key(vs.last().file@) == key {
        in_file(vs.drop_last(), key).push(vs.last())
    } else {
        in_file(vs.drop_last(), key)
    }
}

/// Some group of `groups` is for the file `f`.
pub open spec fn has_file_group(groups: Seq<FileGroup>, f: Seq<char>) -> bool {
    exists|k: int| 0 <= k < groups.len() && #[trigger] path_key(groups[k].file@) == path_key(f)
}

/// A file group is well formed over `vs`: it holds exactly the findings of its file, in order,
/// and takes its name from the first of them.
pub open spec fn file_group_ok(g: FileGroup, vs: Seq<&Violation>) -> bool {
    &&& g.violations@ == in_file(vs, path_key(g.file@))
    &&& g.violations@.len() > 0
    &&& g.file@ == g.violations@[0].file@
}

impl<'a> SortKey for FileGroup<'a> {
    open spec fn key_le(&self, other: &Self) -> bool {
        path_order(self.file@, other.file@) <= 0
    }

    proof fn lemma_key_total(a: &Self, b: &Self) {
        lemma_segs_order_props(path_key(a.file@), path_key(b.file@));
    }

    proof fn lemma_key_trans(a: &Self, b: &Self, c: &Self) {
        lemma_segs_order_trans(path_key(a.file@), path_key(b.file@), path_key(c.file@));
    }

    fn le(&self, other: &Self) -> (r: bool) {
        compare_paths(self.file.as_str(), other.file.as_str()) <= 0
    }
}

proof fn lemma_in_file_len(vs: Seq<&Violation>, key: Seq<Seq<char>>)
    ensures
        in_file(vs, key).len() <= vs.len(),
    decreases vs.len(),
{
    if vs.len() > 0 {
        lemma_in_file_len(vs.drop_last(), key);
    }
}

/// `r` is the grouping of `vs` by file: every group well formed, the groups in strictly
/// increasing path order, and every finding's file among them.
pub open spec fn is_file_grouping(r: Seq<FileGroup>, vs: Seq<&Violation>) -> bool {
    &&& forall|k: int| 0 <= k < r.len() ==> file_group_ok(#[trigger] r[k], vs)
    &&& forall|i: int, j: int| 0 <= i < j < r.len() ==> path_order(r[i].file@, r[j].file@) < 0
    &&& forall|i: int| 0 <= i < vs.len() ==> has_file_group(r, #[trigger] vs[i].file@)
}

/// The findings grouped by file: one group per file (paths with the same components, as
/// `std::path::Path` reads them, are the same file), the groups in path order, each holding its file's findings in their given order.
pub fn group_by_file<'a>(violations: &[&'a Violation]) -> (r: Vec<FileGroup<'a>>)
    ensures
        is_file_grouping(r@, violations@),
{
    let ghost vs = violations@;
    let n = violations.len();
    let mut groups: Vec<FileGroup<'a>> = Vec::new();
    let mut i: usize = 0;
    while i < n
        invariant
            n == vs.len(),
            vs == violations@,
            0 <= i <= n,
            forall|k: int| 0 <= k < groups@.len() ==> file_group_ok(#[trigger] groups@[k], vs.take(i as int)),
            forall|a: int, b: int| 0 <= a < groups@.len() && 0 <= b < groups@.len() && a != b
                ==> path_key(groups@[a].file@) != path_key(groups@[b].file@),
            forall|m: int| 0 <= m < i ==> has_file_group(groups@, #[trigger] vs[m].file@),
        decreases n - i,
    {
        let v = violations[i];
        let ghost key = path_key(v.file@);
        let ghost before = groups@;
        proof {
            assert(vs.take(i as int + 1).drop_last() =~= vs.take(i as int));
            assert(vs.take(i as int + 1).last() == v);
        }
        let gn = groups.len();
        let mut k: usize = 0;
        while k < gn && compare_paths(groups[k].file.as_str(), v.file.as_str()) != 0
            invariant
                gn == groups@.len(),
                groups@ == before,
                key == path_key(v.file@),
                0 <= k <= gn,
                forall|q: int| 0 <= q < k ==> path_key(groups@[q].file@) != key,
            decreases gn - k,
        {
            proof {
                lemma_segs_order_props(path_key(groups@[k as int].file@), key);
            }
            k += 1;
        }
        if k < gn {
            proof {
                lemma_segs_order_props(path_key(groups@[k as int].file@), key);
            }
            let mut g = groups.remove(k);
            g.violations.push(v);
            groups.insert(k, g);
            proof {
                assert(groups@ =~= before.update(k as int, groups@[k as int]));
                assert forall|q: int| 0 <= q < groups@.len() implies file_group_ok(#[trigger] groups@[q], vs.take(i as int + 1)) by {
                    if q == k {
                        assert(groups@[q].violations@ =~= before[q].violations@.push(v));
                    } else {
                        assert(groups@[q] == before[q]);
                        assert(path_key(before[q].file@) != key);
                    }
                }
                assert forall|m: int| 0 <= m < i + 1 implies has_file_group(groups@, #[trigger] vs[m].file@) by {
                    if m == i {
                        assert(path_key(groups@[k as int].file@) == path_key(vs[m].file@));
                    } else {
                        let kk = choose|kk: int| 0 <= kk < before.len() && #[trigger] path_key(before[kk].file@) == path_key(vs[m].file@);
                        assert(groups@[kk].file@ == before[kk].file@);
                    }
                }
            }
        } else {
            let mut members: Vec<&'a Violation> = Vec::new();
            members.push(v);
            let g = FileGroup { file: copy_string(&v.file), violations: members };
            groups.push(g);
            proof {
                assert forall|q: int| 0 <= q < groups@.len() implies file_group_ok(#[trigger] groups@[q], vs.take(i as int + 1)) by {
                    if q == before.len() {
                        lemma_in_file_empty(vs.take(i as int), key, before);
                        assert(groups@[q].violations@ =~= in_file(vs.take(i as int), key).push(v));
                    } else {
                        assert(groups@[q] == before[q]);
                        assert(path_key(before[q].file@) != key);
                    }
                }
                assert forall|m: int| 0 <= m < i + 1 implies has_file_group(groups@, #[trigger] vs[m].file@) by {
                    if m == i {
                        assert(path_key(groups@[before.len() as int].file@) == path_key(vs[m].file@));
                    } else {
                        let kk = choose|kk: int| 0 <= kk < before.len() && #[trigger] path_key(before[kk].file@) == path_key(vs[m].file@);
                        assert(groups@[kk] == before[kk]);
                    }
                }
            }
        }
        i += 1;
    }
    proof {
        assert(vs.take(n as int) =~= vs);
    }
    let ghost unsorted = groups@;
    let sorted = insertion_sort(groups);
    proof {
        lemma_permutation_keeps_distinct_keys(sorted@, unsorted, |g: FileGroup<'a>| path_key(g.file@));
        assert forall|k: int| 0 <= k < sorted@.len() implies file_group_ok(#[trigger] sorted@[k], vs) by {
            lemma_permutation_contains(sorted@, unsorted, k);
        }
        assert forall|a: int, b: int| 0 <= a < b < sorted@.len() implies path_order(sorted@[a].file@, sorted@[b].file@) < 0 by {
            assert(sorted@[a].key_le(&sorted@[b]));
            lemma_segs_order_props(path_key(sorted@[a].file@), path_key(sorted@[b].file@));
        }
        assert forall|m: int| 0 <= m < vs.len() implies has_file_group(sorted@, #[trigger] vs[m].file@) by {
            let kk = choose|kk: int| 0 <= kk < unsorted.len() && #[trigger] path_key(unsorted[kk].file@) == path_key(vs[m].file@);
            lemma_permutation_contains(unsorted, sorted@, kk);
        }
    }
    sorted
}

/// Where no group has `key`, no processed finding has it either.
proof fn lemma_in_file_empty(vs: Seq<&Violation>, key: Seq<Seq<char>>, groups: Seq<FileGroup>)
    requires
        forall|q: int| 0 <= q < groups.len() ==> path_key(groups[q].file@) != key,
        forall|m: int| 0 <= m < vs.len() ==> has_file_group(groups, #[trigger] vs[m].file@),
    ensures
        in_file(vs, key) == Seq::<&Violation>::empty(),
    decreases vs.len(),
{
    if vs.len() > 0 {
        let m = vs.len() - 1;
        let k = choose|k: int| 0 <= k < groups.len() && #[trigger] path_key(groups[k].file@) == path_key(vs[m].file@);
        assert forall|mm: int| 0 <= mm < vs.drop_last().len() implies has_file_group(groups, #[trigger] vs.drop_last()[mm].file@) by {
            assert(vs.drop_last()[mm] == vs[mm]);
        }
        lemma_in_file_empty(vs.drop_last(), key, groups);
    }
}

/// -1, 0 or 1 as `a` is absent and `b` present, both equal, or the reverse; two present values
/// compare as numbers.
pub open spec fn opt_order(a: Option<usize>, b: Option<usize>) -> int {
    match (a, b) {
        (None, None) => 0,
        (None, Some(_)) => -1,
        (Some(_), None) => 1,
        (Some(x), Some(y)) => if x < y { -1 } else if x > y { 1 } else { 0 },
    }
}

/// The order of findings within a group: by file path, then line, then column, then rule.
pub open spec fn violation_order(a: Violation, b: Violation) -> int {
    let p = path_order(a.file@, b.file@);
    if p != 0 {
        p
    } else {
        let l = opt_order(a.line, b.line);
        if l != 0 {
            l
        } else {
            let c = opt_order(a.column, b.column);
            if c != 0 {
                c
            } else {
                char_seq_order(a.rule@, b.rule@)
            }
        }
    }
}

proof fn lemma_path_order_facts(a: Seq<char>, b: Seq<char>, c: Seq<char>)
    ensures
        path_order(a, b) == -path_order(b, a),
        -1 <= path_order(a, b) <= 1,
        path_order(a, b) == 0 ==> path_order(a, c) == path_order(b, c),
        path_order(a, b) <= 0 && path_order(b, c) <= 0 ==> path_order(a, c) <= 0,
{
    lemma_segs_order_props(path_key(a), path_key(b));
    if path_order(a, b) <= 0 && path_order(b, c) <= 0 {
        lemma_segs_order_trans(path_key(a), path_key(b), path_key(c));
    }
}

proof fn lemma_char_order_facts(a: Seq<char>, b: Seq<char>, c: Seq<char>)
    ensures
        char_seq_order(a, b) == -char_seq_order(b, a),
        -1 <= char_seq_order(a, b) <= 1,
        char_seq_order(a, b) == 0 ==> a == b,
        char_seq_order(a, b) <= 0 && char_seq_order(b, c) <= 0 ==> char_seq_order(a, c) <= 0,
{
    lemma_char_seq_order_props(a, b);
    if char_seq_order(a, b) <= 0 && char_seq_order(b, c) <= 0 {
        lemma_char_seq_order_trans(a, b, c);
    }
}

proof fn lemma_violation_order_facts(a: Violation, b: Violation, c: Violation)
    ensures
        violation_order(a, b) == -violation_order(b, a),
        violation_order(a, b) <= 0 && violation_order(b, c) <= 0 ==> violation_order(a, c) <= 0,
{
    lemma_path_order_facts(a.file@, b.file@, c.file@);
    lemma_path_order_facts(b.file@, c.file@, a.file@);
    lemma_path_order_facts(a.file@, c.file@, b.file@);
    lemma_path_order_facts(c.file@, a.file@, b.file@);
    lemma_path_order_facts(b.file@, a.file@, c.file@);
    lemma_path_order_facts(c.file@, b.file@, a.file@);
    lemma_char_order_facts(a.rule@, b.rule@, c.rule@);
    lemma_char_order_facts(b.rule@, c.rule@, a.rule@);
    lemma_char_order_facts(a.rule@, c.rule@, b.rule@);
}

fn compare_opt(a: Option<usize>, b: Option<usize>) -> (r: i8)
    ensures
        r as int == opt_order(a, b),
{
    match (a, b) {
        (None, None) => 0,
        (None, Some(_)) => -1,
        (Some(_), None) => 1,
        (Some(x), Some(y)) => if x < y { -1 } else if x > y { 1 } else { 0 },
    }
}

fn compare_violations(a: &Violation, b: &Violation) -> (r: i8)
    ensures
        r as int == violation_order(*a, *b),
{
    let p = compare_paths(a.file.as_str(), b.file.as_str());
    if p != 0 {
        return p;
    }
    let l = compare_opt(a.line, b.line);
    if l != 0 {
        return l;
    }
    let c = compare_opt(a.column, b.column);
    if c != 0 {
        return c;
    }
    compare_str(a.rule.as_str(), b.rule.as_str())
}

impl<'a> SortKey for &'a Violation {
    open spec fn key_le(&self, other: &Self) -> bool {
        violation_order(**self, **other) <= 0
    }

    proof fn lemma_key_total(a: &Self, b: &Self) {
        lemma_violation_order_facts(**a, **b, **b);
    }

    proof fn lemma_key_trans(a: &Self, b: &Self, c: &Self) {
        lemma_violation_order_facts(**a, **b, **c);
    }

    fn le(&self, other: &Self) -> (r: bool) {
        compare_violations(*self, *other) <= 0
    }
}

/// The figures of the closing summary of a text report.
#[derive(Debug)]
pub struct TextSummary {
    pub file_count: usize,
    pub violation_count: usize,
    pub error_count: usize,
    pub warning_count: usize,
    pub info_count: usize,
    pub score: usize,
}

/// The findings of one rule at one severity.
#[derive(Debug)]
pub struct RuleGroup<'a> {
    pub severity: Severity,
    pub rule: String,
    pub message: String,
    pub violations: Vec<&'a Violation>,
}

/// The order of rule groups: by severity rank, then larger groups first, then by rule.
pub open spec fn group_le(a: RuleGroup, b: RuleGroup) -> bool {
    ||| rank(a.severity) < rank(b.severity)
    ||| (rank(a.severity) == rank(b.severity) && a.violations@.len() > b.violations@.len())
    ||| (rank(a.severity) == rank(b.severity) && a.violations@.len() == b.violations@.len()
        && char_seq_order(a.rule@, b.rule@) <= 0)
}

impl<'a> SortKey for RuleGroup<'a> {
    open spec fn key_le(&self, other: &Self) -> bool {
        group_le(*self, *other)
    }

    proof fn lemma_key_total(a: &Self, b: &Self) {
        lemma_char_order_facts(a.rule@, b.rule@, b.rule@);
    }

    proof fn lemma_key_trans(a: &Self, b: &Self, c: &Self) {
        lemma_char_order_facts(a.rule@, b.rule@, c.rule@);
    }

    fn le(&self, other: &Self) -> (r: bool) {
        let ra = severity_rank(self.severity);
        let rb = severity_rank(other.severity);
        if ra != rb {
            return ra < rb;
        }
        let la = self.violations.len();
        let lb = other.violations.len();
        if la != lb {
            return la > lb;
        }
        compare_str(self.rule.as_str(), other.rule.as_str()) <= 0
    }
}

/// References to the findings of a slice, in order.
pub open spec fn refs<'a>(vs: Seq<Violation>) -> Seq<&'a Violation> {
    vs.map_values(|v: Violation| &v)
}

/// The findings of `vs` with severity `sev` and rule `rule`, in order.
pub open spec fn rule_members<'a>(vs: Seq<&'a Violation>, sev: Severity, rule: Seq<char>) -> Seq<&'a Violation>
    decreases vs.len(),
{
    if vs.len() == 0 {
        Seq::empty()
    } else if vs.last().severity == sev && vs.last().rule@ == rule {
        rule_members(vs.drop_last(), sev, rule).push(vs.last())
    } else {
        rule_members(vs.drop_last(), sev, rule)
    }
}

/// A group of `vs` exists for severity `sev` and rule `rule`.
pub open spec fn has_rule_group(groups: Seq<RuleGroup>, sev: Severity, rule: Seq<char>) -> bool {
    exists|k: int| 0 <= k < groups.len() && #[trigger] groups[k].severity == sev && groups[k].rule@ == rule
}

/// Before ordering: a group holds exactly its findings, in order, and the message of the first.
pub open spec fn raw_group_ok(g: RuleGroup, vs: Seq<&Violation>) -> bool {
    &&& g.violations@ == rule_members(vs, g.severity, g.rule@)
    &&& g.violations@.len() > 0
    &&& g.message@ == g.violations@[0].message@
}

/// A group holds its findings, ordered, and the message of the first of them in `vs`.
pub open spec fn rule_group_ok(g: RuleGroup, vs: Seq<&Violation>) -> bool {
    let members = rule_members(vs, g.severity, g.rule@);
    &&& g.violations@.to_multiset() == members.to_multiset()
    &&& sorted_seq(g.violations@)
    &&& members.len() > 0
    &&& g.message@ == members[0].message@
}

/// The keys of distinct groups differ.
pub open spec fn distinct_rule_keys(groups: Seq<RuleGroup>) -> bool {
    forall|a: int, b: int| 0 <= a < groups.len() && 0 <= b < groups.len() && a != b
        ==> (groups[a].severity, groups[a].rule@) != (groups[b].severity, groups[b].rule@)
}

proof fn lemma_rule_members_empty<'a>(vs: Seq<&'a Violation>, sev: Severity, rule: Seq<char>, groups: Seq<RuleGroup>)
    requires
        !has_rule_group(groups, sev, rule),
        forall|m: int| 0 <= m < vs.len() ==> has_rule_group(groups, #[trigger] vs[m].severity, vs[m].rule@),
    ensures
        rule_members(vs, sev, rule) == Seq::<&'a Violation>::empty(),
    decreases vs.len(),
{
    if vs.len() > 0 {
        assert(has_rule_group(groups, vs[vs.len() - 1].severity, vs[vs.len() - 1].rule@));
        assert forall|m: int| 0 <= m < vs.drop_last().len() implies has_rule_group(groups, #[trigger] vs.drop_last()[m].severity, vs.drop_last()[m].rule@) by {
            assert(vs.drop_last()[m] == vs[m]);
        }
        lemma_rule_members_empty(vs.drop_last(), sev, rule, groups);
    }
}

/// `r` is the grouping of `vs` by severity and rule: every group holds its findings, keys are
/// distinct, the groups are ordered, and every finding's key has a group.
pub open spec fn is_rule_grouping(r: Seq<RuleGroup>, vs: Seq<Violation>) -> bool {
    &&& forall|k: int| 0 <= k < r.len() ==> rule_group_ok(#[trigger] r[k], refs(vs))
    &&& distinct_rule_keys(r)
    &&& sorted_seq(r)
    &&& forall|m: int| 0 <= m < vs.len() ==> has_rule_group(r, #[trigger] vs[m].severity, vs[m].rule@)
}

/// The findings grouped by severity and rule: one group per pair that occurs, the groups ordered
/// by severity rank, then size (larger first), then rule; each group holds its findings ordered by
/// file, line, column and rule, and the message of its first finding.
pub fn group_by_rule<'a>(violations: &'a [Violation]) -> (r: Vec<RuleGroup<'a>>)
    ensures
        is_rule_grouping(r@, violations@),
{
    let ghost vs = refs(violations@);
    let n = violations.len();
    let mut groups: Vec<RuleGroup<'a>> = Vec::new();
    let mut i: usize = 0;
    while i < n
        invariant
            n == violations@.len(),
            vs == refs(violations@),
            0 <= i <= n,
            forall|k: int| 0 <= k < groups@.len() ==> raw_group_ok(#[trigger] groups@[k], vs.take(i as int)),
            distinct_rule_keys(groups@),
            forall|m: int| 0 <= m < i ==> has_rule_group(groups@, #[trigger] vs[m].severity, vs[m].rule@),
        decreases n - i,
    {
        let v: &'a Violation = &violations[i];
        let ghost before = groups@;
        proof {
            assert(vs.take(i as int + 1).drop_last() =~= vs.take(i as int));
            assert(vs.take(i as int + 1).last() == v);
            assert(vs[i as int] == v);
        }
        let gn = groups.len();
        let mut k: usize = 0;
        while k < gn && !(groups[k].severity == v.severity && str_equal(groups[k].rule.as_str(), v.rule.as_str()))
            invariant
                gn == groups@.len(),
                groups@ == before,
                0 <= k <= gn,
                forall|q: int| 0 <= q < k ==> !(groups@[q].severity == v.severity && groups@[q].rule@ == v.rule@),
            decreases gn - k,
        {
            k += 1;
        }
        if k < gn {
            let mut g = groups.remove(k);
            g.violations.push(v);
            groups.insert(k, g);
            proof {
                assert(groups@ =~= before.update(k as int, groups@[k as int]));
                assert forall|q: int| 0 <= q < groups@.len() implies raw_group_ok(#[trigger] groups@[q], vs.take(i as int + 1)) by {
                    if q == k {
                        assert(groups@[q].violations@ =~= before[q].violations@.push(v));
                    } else {
                        assert(groups@[q] == before[q]);
                    }
                }
                assert forall|m: int| 0 <= m < i + 1 implies has_rule_group(groups@, #[trigger] vs[m].severity, vs[m].rule@) by {
                    if m == i {
                        assert(groups@[k as int].severity == vs[m].severity && groups@[k as int].rule@ == vs[m].rule@);
                    } else {
                        let kk = choose|kk: int| 0 <= kk < before.len() && #[trigger] before[kk].severity == vs[m].severity && before[kk].rule@ == vs[m].rule@;
                        assert(groups@[kk].severity == before[kk].severity && groups@[kk].rule@ == before[kk].rule@);
                    }
                }
            }
        } else {
            let mut members: Vec<&'a Violation> = Vec::new();
            members.push(v);
            let g = RuleGroup {
                severity: v.severity,
                rule: copy_string(&v.rule),
                message: copy_string(&v.message),
                violations: members,
            };
            groups.push(g);
            proof {
                assert(!has_rule_group(before, v.severity, v.rule@));
                lemma_rule_members_empty(vs.take(i as int), v.severity, v.rule@, before);
                assert forall|q: int| 0 <= q < groups@.len() implies raw_group_ok(#[trigger] groups@[q], vs.take(i as int + 1)) by {
                    if q == before.len() {
                        assert(groups@[q].violations@ =~= rule_members(vs.take(i as int), v.severity, v.rule@).push(v));
                    } else {
                        assert(groups@[q] == before[q]);
                    }
                }
                assert forall|m: int| 0 <= m < i + 1 implies has_rule_group(groups@, #[trigger] vs[m].severity, vs[m].rule@) by {
                    if m == i {
                        assert(groups@[before.len() as int].severity == vs[m].severity && groups@[before.len() as int].rule@ == vs[m].rule@);
                    } else {
                        let kk = choose|kk: int| 0 <= kk < before.len() && #[trigger] before[kk].severity == vs[m].severity && before[kk].rule@ == vs[m].rule@;
                        assert(groups@[kk] == before[kk]);
                    }
                }
            }
        }
        i += 1;
    }
    proof {
        assert(vs.take(n as int) =~= vs);
    }
    let ghost raw = groups@;
    let mut ordered: Vec<RuleGroup<'a>> = Vec::new();
    let gn = groups.len();
    let mut j: usize = 0;
    while j < gn
        invariant
            gn == raw.len(),
            groups@ == raw.skip(j as int),
            0 <= j <= gn,
            ordered@.len() == j,
            forall|k: int| 0 <= k < raw.len() ==> raw_group_ok(#[trigger] raw[k], vs),
            forall|k: int| 0 <= k < j ==> {
                &&& (#[trigger] ordered@[k]).severity == raw[k].severity
                &&& ordered@[k].rule == raw[k].rule
                &&& ordered@[k].message == raw[k].message
                &&& ordered@[k].violations@.to_multiset() == raw[k].violations@.to_multiset()
                &&& ordered@[k].violations@.len() == raw[k].violations@.len()
                &&& sorted_seq(ordered@[k].violations@)
            },
        decreases gn - j,
    {
        let g = groups.remove(0);
        proof {
            assert(g == raw[j as int]);
            assert(groups@ =~= raw.skip(j as int + 1));
        }
        let RuleGroup { severity, rule, message, violations: members } = g;
        let sorted_members = insertion_sort(members);
        ordered.push(RuleGroup { severity, rule, message, violations: sorted_members });
        j += 1;
    }
    proof {
        assert forall|k: int| 0 <= k < ordered@.len() implies rule_group_ok(#[trigger] ordered@[k], vs) by {
            assert(raw_group_ok(raw[k], vs));
        }
        assert(distinct_rule_keys(ordered@)) by {
            assert forall|a: int, b: int| 0 <= a < ordered@.len() && 0 <= b < ordered@.len() && a != b
                implies (ordered@[a].severity, ordered@[a].rule@) != (ordered@[b].severity, ordered@[b].rule@) by {
                assert((raw[a].severity, raw[a].rule@) != (raw[b].severity, raw[b].rule@));
            }
        }
        assert forall|m: int| 0 <= m < n implies has_rule_group(ordered@, #[trigger] vs[m].severity, vs[m].rule@) by {
            let kk = choose|kk: int| 0 <= kk < raw.len() && #[trigger] raw[kk].severity == vs[m].severity && raw[kk].rule@ == vs[m].rule@;
            assert(ordered@[kk].severity == raw[kk].severity && ordered@[kk].rule@ == raw[kk].rule@);
        }
    }
    let ghost unsorted = ordered@;
    let result = insertion_sort(ordered);
    proof {
        lemma_permutation_keeps_distinct_keys(result@, unsorted, |g: RuleGroup<'a>| (g.severity, g.rule@));
        assert forall|k: int| 0 <= k < result@.len() implies rule_group_ok(#[trigger] result@[k], vs) by {
            lemma_permutation_contains(result@, unsorted, k);
        }
        assert forall|m: int| 0 <= m < n implies has_rule_group(result@, #[trigger] violations@[m].severity, violations@[m].rule@) by {
            assert(vs[m] == &violations@[m]);
            let kk = choose|kk: int| 0 <= kk < unsorted.len() && #[trigger] unsorted[kk].severity == vs[m].severity && unsorted[kk].rule@ == vs[m].rule@;
            lemma_permutation_contains(unsorted, result@, kk);
        }
    }
    result
}

/// The number of findings that file groups hold, added up.
pub open spec fn file_group_sizes(r: Seq<FileGroup>) -> nat
    decreases r.len(),
{
    if r.len() == 0 { 0 } else { file_group_sizes(r.drop_last()) + r.last().violations@.len() }
}

/// The number of findings that rule groups hold, added up.
pub open spec fn rule_group_sizes(r: Seq<RuleGroup>) -> nat
    decreases r.len(),
{
    if r.len() == 0 { 0 } else { rule_group_sizes(r.drop_last()) + r.last().violations@.len() }
}

proof fn lemma_in_file_keyed(vs: Seq<&Violation>, key: Seq<Seq<char>>)
    ensures
        in_file(vs, key) == keyed(vs, |v: &Violation| path_key(v.file@), key),
    decreases vs.len(),
{
    if vs.len() > 0 {
        lemma_in_file_keyed(vs.drop_last(), key);
    }
}

proof fn lemma_rule_members_keyed<'a>(vs: Seq<&'a Violation>, sev: Severity, rule: Seq<char>)
    ensures
        rule_members(vs, sev, rule) == keyed(vs, |v: &'a Violation| (v.severity, v.rule@), (sev, rule)),
    decreases vs.len(),
{
    if vs.len() > 0 {
        lemma_rule_members_keyed(vs.drop_last(), sev, rule);
    }
}

proof fn lemma_file_sizes_total(r: Seq<FileGroup>, vs: Seq<&Violation>)
    requires
        forall|k: int| 0 <= k < r.len() ==> file_group_ok(#[trigger] r[k], vs),
    ensures
        file_group_sizes(r) == keyed_total(vs, |v: &Violation| path_key(v.file@), r.map_values(|g: FileGroup| path_key(g.file@))),
    decreases r.len(),
{
    if r.len() > 0 {
        let rest = r.drop_last();
        assert forall|k: int| 0 <= k < rest.len() implies file_group_ok(#[trigger] rest[k], vs) by {
            assert(rest[k] == r[k]);
        }
        lemma_file_sizes_total(rest, vs);
        assert(r.map_values(|g: FileGroup| path_key(g.file@)).drop_last() =~= rest.map_values(|g: FileGroup| path_key(g.file@)));
        assert(file_group_ok(r[r.len() - 1], vs));
        lemma_in_file_keyed(vs, path_key(r.last().file@));
    }
}

proof fn lemma_rule_sizes_total<'a>(r: Seq<RuleGroup<'a>>, vs: Seq<&'a Violation>)
    requires
        forall|k: int| 0 <= k < r.len() ==> rule_group_ok(#[trigger] r[k], vs),
    ensures
        rule_group_sizes(r) == keyed_total(vs, |v: &'a Violation| (v.severity, v.rule@), r.map_values(|g: RuleGroup<'a>| (g.severity, g.rule@))),
    decreases r.len(),
{
    if r.len() > 0 {
        let rest = r.drop_last();
        assert forall|k: int| 0 <= k < rest.len() implies rule_group_ok(#[trigger] rest[k], vs) by {
            assert(rest[k] == r[k]);
        }
        lemma_rule_sizes_total(rest, vs);
        assert(r.map_values(|g: RuleGroup<'a>| (g.severity, g.rule@)).drop_last() =~= rest.map_values(|g: RuleGroup<'a>| (g.severity, g.rule@)));
        let g = r.last();
        assert(rule_group_ok(r[r.len() - 1], vs));
        lemma_rule_members_keyed(vs, g.severity, g.rule@);
        vstd::seq_lib::to_multiset_len(g.violations@);
        vstd::seq_lib::to_multiset_len(rule_members(vs, g.severity, g.rule@));
    }
}

/// Grouping findings by file neither loses nor repeats a finding: the groups hold, all
/// together, as many findings as were grouped.
pub proof fn lemma_file_grouping_partitions(r: Seq<FileGroup>, vs: Seq<&Violation>)
    requires
        is_file_grouping(r, vs),
    ensures
        file_group_sizes(r) == vs.len(),
{
    let ks = r.map_values(|g: FileGroup| path_key(g.file@));
    let key = |v: &Violation| path_key(v.file@);
    assert(ks.no_duplicates()) by {
        assert forall|a: int, b: int| 0 <= a < ks.len() && 0 <= b < ks.len() && a != b implies ks[a] != ks[b] by {
            assert(ks[a] == path_key(r[a].file@));
            assert(ks[b] == path_key(r[b].file@));
            if a < b {
                assert(path_order(r[a].file@, r[b].file@) < 0);
                lemma_segs_order_props(path_key(r[a].file@), path_key(r[b].file@));
            } else {
                assert(path_order(r[b].file@, r[a].file@) < 0);
                lemma_segs_order_props(path_key(r[b].file@), path_key(r[a].file@));
            }
        }
    }
    assert forall|i: int| 0 <= i < vs.len() implies ks.contains(key(#[trigger] vs[i])) by {
        assert(has_file_group(r, vs[i].file@));
        let k = choose|k: int| 0 <= k < r.len() && #[trigger] path_key(r[k].file@) == path_key(vs[i].file@);
        assert(ks[k] == key(vs[i]));
    }
    lemma_keyed_partition(vs, key, ks);
    lemma_file_sizes_total(r, vs);
}

/// Grouping findings by severity and rule neither loses nor repeats a finding: the groups hold,
/// all together, as many findings as were grouped.
pub proof fn lemma_rule_grouping_partitions(r: Seq<RuleGroup>, vs: Seq<Violation>)
    requires
        is_rule_grouping(r, vs),
    ensures
        rule_group_sizes(r) == vs.len(),
{
    let rs = refs(vs);
    let ks = r.map_values(|g: RuleGroup| (g.severity, g.rule@));
    let key = |v: &Violation| (v.severity, v.rule@);
    assert(ks.no_duplicates()) by {
        assert forall|a: int, b: int| 0 <= a < ks.len() && 0 <= b < ks.len() && a != b implies ks[a] != ks[b] by {
            assert((r[a].severity, r[a].rule@) != (r[b].severity, r[b].rule@));
        }
    }
    assert forall|i: int| 0 <= i < rs.len() implies ks.contains(key(#[trigger] rs[i])) by {
        assert(has_rule_group(r, vs[i].severity, vs[i].rule@));
        let k = choose|k: int| 0 <= k < r.len() && #[trigger] r[k].severity == vs[i].severity && r[k].rule@ == vs[i].rule@;
        assert(ks[k] == key(rs[i]));
    }
    lemma_keyed_partition(rs, key, ks);
    lemma_rule_sizes_total(r, rs);
}

/// The score lies between 0 and 100, and is 100 where no file was scanned.
pub proof fn lemma_score_bounded(error_count: nat, warning_count: nat, file_count: nat)
    ensures
        score_value(error_count, warning_count, file_count) <= 100,
        file_count == 0 ==> score_value(error_count, warning_count, file_count) == 100,
{
}

/// More errors or more warnings never raise the score.
pub proof fn lemma_score_monotone(e1: nat, e2: nat, w1: nat, w2: nat, file_count: nat)
    requires
        e1 <= e2,
        w1 <= w2,
    ensures
        score_value(e2, w2, file_count) <= score_value(e1, w1, file_count),
{
    if file_count > 0 {
        let a = saturating_product(e1, 2) + w1;
        let b = saturating_product(e2, 2) + w2;
        assert(saturating_product(e1, 2) <= saturating_product(e2, 2));
        assert(a <= b);
        assert(saturating_product(a, 100) <= saturating_product(b, 100));
        vstd::arithmetic::div_mod::lemma_div_is_ordered(saturating_product(a, 100) as int, saturating_product(b, 100) as int,
            file_count as int);
    }
}

/// Without verbosity at most `limit` items are shown; with it, all are.
pub proof fn lemma_visible_bounds(count: nat, verbose: u8, limit: nat)
    ensures
        visible(count, verbose, limit) <= count,
        verbose >= 1 ==> visible(count, verbose, limit) == count,
        verbose == 0 ==> visible(count, verbose, limit) <= limit,
        verbose == 0 && count <= limit ==> visible(count, verbose, limit) == count,
{
}

/// Where the counts stay within the machine's range, the score is 100 less the findings per
/// file scanned, in percent, an error weighing twice as much as a warning, and never below 0.
pub proof fn lemma_score_formula(error_count: nat, warning_count: nat, file_count: nat)
    requires
        (2 * error_count + warning_count) * 100 <= usize::MAX,
        file_count > 0,
    ensures
        (2 * error_count + warning_count) * 100 / file_count >= 100 ==> score_value(error_count, warning_count, file_count) == 0,
        (2 * error_count + warning_count) * 100 / file_count < 100 ==> score_value(error_count, warning_count, file_count)
            == 100 - (2 * error_count + warning_count) * 100 / file_count,
{
    assert(error_count * 2 == 2 * error_count);
    assert(saturating_product(error_count, 2) == 2 * error_count);
    assert(saturating_product(2 * error_count + warning_count, 100) == (2 * error_count + warning_count) * 100);
}

/// One error costs as much as two warnings.
pub proof fn lemma_error_weighs_two_warnings(error_count: nat, warning_count: nat, file_count: nat)
    requires
        (2 * error_count + warning_count + 2) * 100 <= usize::MAX,
    ensures
        score_value(error_count + 1, warning_count, file_count) == score_value(error_count, warning_count + 2, file_count),
{
    assert(saturating_product(error_count + 1, 2) == 2 * error_count + 2);
    assert(saturating_product(error_count, 2) == 2 * error_count);
}

} // verus!
