//! `sort-exports`: export declarations are sorted by exported name, case-insensitively, within
//! each run of exports that blank lines separate, or by configured groups of export kinds;
//! the configured blank-line policy holds between groups.

use vstd::prelude::*;
use vstd::string::StringSliceAdditionalSpecFns;
use crate::chars::{copy_string, push_str, starts_with, str_equal, str_starts_with, string_of};
use crate::config::{ExportGroup, NewlinesBetween, Severity, SortExportsRuleConfig};
use crate::order::char_seq_order;
use crate::program::{ExportDeclaration, ExportKind, ModuleItem, ModuleSyntax};
use crate::rules::{fix_views, views, Fix, FixView, TextEditView, Violation, ViolationView, SORT_EXPORTS_RULE_ID};
use crate::rules::imports::sort_imports::{
    blank_line_between, bucket_positions, bucket_positions_of, bucket_views, flatten, flatten_buckets,
    has_blank_line_between, index_like, is_index_like, item_start, key_sort, key_views, keys_sorted,
    leading_start, leading_trivia_start, lemma_fix_views_append, lemma_views_append, line_ending, lowercase,
    newline_of, opt_at, opt_fix, piece, point, positions, remove_blank_lines, slice_of, sort_by_keys,
    statement_start, to_lowercase, trailing_end, trailing_trivia_end, without_blank_lines, StatementBlock,
};
use crate::syntax::{span_position, LineIndex, Span};

verus! {

pub const SORT_EXPORTS_MESSAGE: &'static str = "Export declarations should be sorted by exported name.";
pub const NEWLINE_MESSAGE: &'static str = "Export declarations should not be separated by a blank line.";
pub const ALWAYS_NEWLINE_MESSAGE: &'static str = "Export groups should be separated by a blank line.";
pub const MISPLACED_DETAIL_END: &'static str = "\" should appear in a different position";
pub const BEFORE_DETAIL_MIDDLE: &'static str = "\" should appear before \"";
pub const ALWAYS_DETAIL: &'static str = "Expected a blank line between export groups with newlines-between: \"always\"";
pub const NEVER_DETAIL: &'static str = "Expected no blank line between export declarations with newlines-between: \"never\"";


// Blank lines between two offsets

// Comments around statements

// Runs of imports, and the groups that blank lines split them into

/// The import declaration at statement `i`.
pub open spec fn export_at(body: Seq<ModuleItem>, i: int) -> ExportDeclaration {
    body[i]->Export_0
}

/// The maximal runs `[lo, hi)` of consecutive import declarations among the first `n`
/// statements, in order.
pub open spec fn export_runs(body: Seq<ModuleItem>, n: int) -> Seq<(int, int)>
    decreases n,
{
    if n <= 0 {
        Seq::empty()
    } else {
        let prev = export_runs(body, n - 1);
        if body[n - 1] is Export {
            if n >= 2 && body[n - 2] is Export && prev.len() > 0 {
                prev.update(prev.len() - 1, (prev.last().0, n))
            } else {
                prev.push((n - 1, n))
            }
        } else {
            prev
        }
    }
}

/// The block of the run `[lo, hi)`: from the leading comments of its first declaration to the
/// trailing comments of its last one that end before the next statement (or the end of the
/// source).
pub open spec fn block_of(m: ModuleSyntax, src_len: int, run: (int, int)) -> StatementBlock {
    let upper = if run.1 < m.body@.len() { item_start(m.body@[run.1]) as int } else { src_len };
    StatementBlock {
        lo: run.0 as usize,
        hi: run.1 as usize,
        start: leading_start(m.comments@, export_at(m.body@, run.0).span.start) as usize,
        end: trailing_end(m.comments@, export_at(m.body@, run.1 - 1).span.end, upper) as usize,
    }
}

/// The blocks of the maximal runs of imports of a module.
pub open spec fn export_blocks(m: ModuleSyntax, src_len: int) -> Seq<StatementBlock> {
    export_runs(m.body@, m.body@.len() as int).map_values(|r: (int, int)| block_of(m, src_len, r))
}

/// `b` covers a nonempty range of statements that are all import declarations.
pub open spec fn block_ok(body: Seq<ModuleItem>, b: StatementBlock) -> bool {
    &&& b.lo < b.hi <= body.len()
    &&& forall|t: int| b.lo <= t < b.hi ==> (#[trigger] body[t]) is Export
}

/// The import declaration at statement `i`.
fn export_decl(body: &Vec<ModuleItem>, i: usize) -> (d: &ExportDeclaration)
    requires
        i < body@.len(),
        body@[i as int] is Export,
    ensures
        *d == export_at(body@, i as int),
{
    match &body[i] {
        ModuleItem::Export(d) => d,
        _ => vstd::pervasive::unreached(),
    }
}

proof fn lemma_runs_extend(body: Seq<ModuleItem>, n: int)
    requires
        1 <= n,
        body[n - 1] is Export,
        n >= 2 && body[n - 2] is Export,
        export_runs(body, n - 1).len() > 0,
    ensures
        export_runs(body, n) == export_runs(body, n - 1).update(export_runs(body, n - 1).len() - 1, (export_runs(body, n - 1).last().0, n)),
{
}

fn make_block(program: &ModuleSyntax, lo: usize, hi: usize, upper: usize) -> (r: StatementBlock)
    requires
        lo < hi <= program.body@.len(),
        program.body@[lo as int] is Export,
        program.body@[hi - 1] is Export,
    ensures
        r == (StatementBlock {
            lo,
            hi,
            start: leading_start(program.comments@, export_at(program.body@, lo as int).span.start) as usize,
            end: trailing_end(program.comments@, export_at(program.body@, hi - 1).span.end, upper as int) as usize,
        }),
{
    let first = export_decl(&program.body, lo);
    let last = export_decl(&program.body, hi - 1);
    let start = leading_trivia_start(program, first.span.start);
    let end = trailing_trivia_end(program, last.span.end, upper);
    StatementBlock { lo, hi, start: start as usize, end: end as usize }
}

/// The blocks of the maximal runs of import declarations, in order.
fn find_contiguous_export_blocks(program: &ModuleSyntax, source: &str) -> (r: Vec<StatementBlock>)
    ensures
        r@ == export_blocks(*program, source.spec_bytes().len() as int),
        forall|k: int| 0 <= k < r@.len() ==> block_ok(program.body@, #[trigger] r@[k]),
{
    let body = &program.body;
    let n = body.len();
    let ghost src_len = source.spec_bytes().len() as int;
    let ghost m = *program;
    let mut blocks: Vec<StatementBlock> = Vec::new();
    let mut open: Option<usize> = None;
    let mut i: usize = 0;
    while i < n
        invariant
            n == body@.len(),
            body@ == m.body@,
            m == *program,
            src_len == source.spec_bytes().len() as int,
            0 <= i <= n,
            forall|k: int| 0 <= k < blocks@.len() ==> block_ok(body@, #[trigger] blocks@[k]),
            match open {
                Some(lo) => {
                    &&& lo < i
                    &&& export_runs(body@, i as int).len() > 0
                    &&& export_runs(body@, i as int).last() == (lo as int, i as int)
                    &&& forall|t: int| lo <= t < i ==> (#[trigger] body@[t]) is Export
                    &&& blocks@ == export_runs(body@, i as int).drop_last().map_values(|r: (int, int)| block_of(m, src_len, r))
                },
                None => {
                    &&& blocks@ == export_runs(body@, i as int).map_values(|r: (int, int)| block_of(m, src_len, r))
                    &&& (i > 0 ==> !(body@[i - 1] is Export))
                },
            },
        decreases n - i,
    {
        let is_export = match &body[i] {
            ModuleItem::Export(_) => true,
            _ => false,
        };
        let ghost runs = export_runs(body@, i as int);
        if is_export {
            match open {
                Some(lo) => {
                    proof {
                        lemma_runs_extend(body@, i as int + 1);
                        let next = export_runs(body@, i as int + 1);
                        assert(next.drop_last() =~= runs.drop_last());
                    }
                },
                None => {
                    proof {
                        let next = export_runs(body@, i as int + 1);
                        assert(next =~= runs.push((i as int, i as int + 1)));
                        assert(next.drop_last() =~= runs);
                    }
                    open = Some(i);
                },
            }
        } else {
            match open {
                Some(lo) => {
                    let upper = statement_start(body, i) as usize;
                    let block = make_block(program, lo, i, upper);
                    proof {
                        assert(block == block_of(m, src_len, (lo as int, i as int)));
                        assert(export_runs(body@, i as int + 1) == runs);
                        assert(runs =~= runs.drop_last().push(runs.last()));
                    }
                    blocks.push(block);
                    proof {
                        assert(blocks@ =~= runs.map_values(|r: (int, int)| block_of(m, src_len, r)));
                    }
                    open = None;
                },
                None => {
                    proof {
                        assert(export_runs(body@, i as int + 1) == runs);
                    }
                },
            }
        }
        i += 1;
    }
    match open {
        Some(lo) => {
            let upper = source.as_bytes().len();
            let block = make_block(program, lo, n, upper);
            let ghost runs = export_runs(body@, n as int);
            proof {
                assert(block == block_of(m, src_len, (lo as int, n as int)));
                assert(runs =~= runs.drop_last().push(runs.last()));
            }
            blocks.push(block);
            proof {
                assert(blocks@ =~= runs.map_values(|r: (int, int)| block_of(m, src_len, r)));
            }
        },
        None => {},
    }
    blocks
}

/// The groups of block `b` after reading its declarations up to statement `j`: the groups
/// closed so far, and the first statement and start offset of the open one. A blank line
/// between two declarations closes the group before the second.
pub open spec fn group_scan(m: ModuleSyntax, src: Seq<u8>, b: StatementBlock, j: int) -> (Seq<StatementBlock>, int, int)
    decreases j - b.lo,
{
    if j <= b.lo + 1 {
        (Seq::empty(), b.lo as int, b.start as int)
    } else {
        let (done, g_lo, g_start) = group_scan(m, src, b, j - 1);
        let prev = export_at(m.body@, j - 2);
        let decl = export_at(m.body@, j - 1);
        if blank_line_between(src, prev.span.end as int, decl.span.start as int) {
            let decl_start = leading_start(m.comments@, decl.span.start);
            (
                done.push(StatementBlock {
                    lo: g_lo as usize,
                    hi: (j - 1) as usize,
                    start: g_start as usize,
                    end: trailing_end(m.comments@, prev.span.end, decl_start as int) as usize,
                }),
                j - 1,
                decl_start as int,
            )
        } else {
            (done, g_lo, g_start)
        }
    }
}

/// The groups that blank lines split block `b` into, in order.
pub open spec fn block_groups(m: ModuleSyntax, src: Seq<u8>, b: StatementBlock) -> Seq<StatementBlock> {
    let (done, g_lo, g_start) = group_scan(m, src, b, b.hi as int);
    done.push(StatementBlock {
        lo: g_lo as usize,
        hi: b.hi,
        start: g_start as usize,
        end: trailing_end(m.comments@, export_at(m.body@, b.hi - 1).span.end, b.end as int) as usize,
    })
}

/// The groups of each of `blocks`, one after another.
pub open spec fn groups_of_blocks(m: ModuleSyntax, src: Seq<u8>, blocks: Seq<StatementBlock>) -> Seq<StatementBlock>
    decreases blocks.len(),
{
    if blocks.len() == 0 {
        Seq::empty()
    } else {
        groups_of_blocks(m, src, blocks.drop_last()) + block_groups(m, src, blocks.last())
    }
}

/// The blank-line separated groups of import declarations of a module, in order.
pub open spec fn export_groups(m: ModuleSyntax, src: Seq<u8>) -> Seq<StatementBlock> {
    groups_of_blocks(m, src, export_blocks(m, src.len() as int))
}

/// The groups that blank lines split one block into.
fn split_block(program: &ModuleSyntax, source: &str, block: StatementBlock) -> (r: Vec<StatementBlock>)
    requires
        block_ok(program.body@, block),
    ensures
        r@ == block_groups(*program, source.spec_bytes(), block),
        forall|k: int| 0 <= k < r@.len() ==> block_ok(program.body@, #[trigger] r@[k]),
{
    let ghost m = *program;
    let ghost src = source.spec_bytes();
    let body = &program.body;
    let mut groups: Vec<StatementBlock> = Vec::new();
    let mut g_lo = block.lo;
    let mut g_start = block.start;
    let mut j = block.lo + 1;
    while j < block.hi
        invariant
            m == *program,
            src == source.spec_bytes(),
            body@ == program.body@,
            block_ok(body@, block),
            block.lo < j <= block.hi,
            block.lo <= g_lo < j,
            group_scan(m, src, block, j as int) == (groups@, g_lo as int, g_start as int),
            forall|k: int| 0 <= k < groups@.len() ==> block_ok(body@, #[trigger] groups@[k]),
        decreases block.hi - j,
    {
        let prev = export_decl(body, j - 1);
        let decl = export_decl(body, j);
        let decl_start = leading_trivia_start(program, decl.span.start);
        if has_blank_line_between(source, prev.span.end as usize, decl.span.start as usize) {
            let end = trailing_trivia_end(program, prev.span.end, decl_start as usize);
            groups.push(StatementBlock { lo: g_lo, hi: j, start: g_start, end: end as usize });
            g_lo = j;
            g_start = decl_start as usize;
        }
        j += 1;
    }
    let last = export_decl(body, block.hi - 1);
    let end = trailing_trivia_end(program, last.span.end, block.end);
    groups.push(StatementBlock { lo: g_lo, hi: block.hi, start: g_start, end: end as usize });
    groups
}

/// The blank-line separated groups of import declarations, in order.
fn find_export_groups(program: &ModuleSyntax, source: &str) -> (r: Vec<StatementBlock>)
    ensures
        r@ == export_groups(*program, source.spec_bytes()),
        forall|k: int| 0 <= k < r@.len() ==> block_ok(program.body@, #[trigger] r@[k]),
{
    let ghost m = *program;
    let ghost src = source.spec_bytes();
    let blocks = find_contiguous_export_blocks(program, source);
    let n = blocks.len();
    let mut groups: Vec<StatementBlock> = Vec::new();
    let mut i: usize = 0;
    while i < n
        invariant
            m == *program,
            src == source.spec_bytes(),
            n == blocks@.len(),
            0 <= i <= n,
            forall|k: int| 0 <= k < blocks@.len() ==> block_ok(program.body@, #[trigger] blocks@[k]),
            groups@ == groups_of_blocks(m, src, blocks@.take(i as int)),
            forall|k: int| 0 <= k < groups@.len() ==> block_ok(program.body@, #[trigger] groups@[k]),
        decreases n - i,
    {
        proof {
            assert(blocks@.take(i as int + 1).drop_last() =~= blocks@.take(i as int));
        }
        let mut part = split_block(program, source, blocks[i]);
        let ghost old_groups = groups@;
        let ghost part_v = part@;
        groups.append(&mut part);
        proof {
            assert forall|k: int| 0 <= k < groups@.len() implies block_ok(program.body@, #[trigger] groups@[k]) by {
                if k >= old_groups.len() {
                    assert(groups@[k] == part_v[k - old_groups.len()]);
                }
            }
        }
        i += 1;
    }
    proof {
        assert(blocks@.take(n as int) =~= blocks@);
    }
    groups
}

// Kinds of module specifier

// The expected order of a block under configured groups

/// The kind of the module specifier `s` of a re-export.
pub open spec fn specifier_kind(s: Seq<char>) -> ExportGroup {
    if starts_with(s, "../"@) {
        ExportGroup::Parent
    } else if starts_with(s, "./"@) {
        if index_like(s) { ExportGroup::Index } else { ExportGroup::Sibling }
    } else {
        ExportGroup::External
    }
}

/// The kind of an export: the default export, a re-export by the kind of its specifier, or a
/// local export.
pub open spec fn export_group(d: ExportDeclaration) -> ExportGroup {
    match d.kind {
        ExportKind::Default => ExportGroup::Default,
        ExportKind::All { source, .. } => specifier_kind(source@),
        ExportKind::Named { source, .. } => match source {
            Some(s) => specifier_kind(s@),
            None => ExportGroup::Local,
        },
    }
}

/// The sort key of an export: empty for the default export, else its exported name (or the
/// specifier of an unnamed `export *`) in lower case.
pub open spec fn sort_key(d: ExportDeclaration) -> Seq<char> {
    match d.kind {
        ExportKind::Default => Seq::empty(),
        ExportKind::All { source, exported } => match exported {
            Some(e) => lowercase(e@),
            None => lowercase(source@),
        },
        ExportKind::Named { name, .. } => lowercase(name@),
    }
}

/// The name findings give an export: its name, `default`, or `* from "<specifier>"`.
pub open spec fn export_name(d: ExportDeclaration) -> Seq<char> {
    match d.kind {
        ExportKind::Named { name, .. } => name@,
        ExportKind::Default => "default"@,
        ExportKind::All { source, exported } => match exported {
            Some(e) => e@,
            None => "* from \""@ + source@ + "\""@,
        },
    }
}

/// The kind of the module specifier of a re-export (see `specifier_kind`).
pub fn classify_specifier(specifier: &str) -> (r: ExportGroup)
    ensures
        r == specifier_kind(specifier@),
{
    if str_starts_with(specifier, "../") {
        ExportGroup::Parent
    } else if str_starts_with(specifier, "./") {
        if is_index_like(specifier) { ExportGroup::Index } else { ExportGroup::Sibling }
    } else {
        ExportGroup::External
    }
}

/// The kind of an export (see `export_group`).
fn classify_export(d: &ExportDeclaration) -> (r: ExportGroup)
    ensures
        r == export_group(*d),
{
    match &d.kind {
        ExportKind::Default => ExportGroup::Default,
        ExportKind::All { source, .. } => classify_specifier(source.as_str()),
        ExportKind::Named { source, .. } => match source {
            Some(s) => classify_specifier(s.as_str()),
            None => ExportGroup::Local,
        },
    }
}

/// The sort key of an export (see `sort_key`).
fn export_sort_key(d: &ExportDeclaration) -> (r: String)
    ensures
        r@ == sort_key(*d),
{
    match &d.kind {
        ExportKind::Default => {
            let r = String::new();
            proof {
                assert(r@ =~= Seq::<char>::empty());
            }
            r
        },
        ExportKind::All { source, exported } => match exported {
            Some(e) => to_lowercase(e.as_str()),
            None => to_lowercase(source.as_str()),
        },
        ExportKind::Named { name, .. } => to_lowercase(name.as_str()),
    }
}

/// The name findings give an export (see `export_name`).
fn format_export_name(d: &ExportDeclaration) -> (r: String)
    ensures
        r@ == export_name(*d),
{
    match &d.kind {
        ExportKind::Named { name, .. } => copy_string(name),
        ExportKind::Default => string_of("default"),
        ExportKind::All { source, exported } => match exported {
            Some(e) => copy_string(e),
            None => {
                let mut r = string_of("* from \"");
                push_str(&mut r, source.as_str());
                push_str(&mut r, "\"");
                proof {
                    assert(r@ =~= "* from \""@ + source@ + "\""@);
                }
                r
            },
        },
    }
}

/// The configured groups, as sequences of kinds.
pub open spec fn group_lists(config: Seq<Vec<ExportGroup>>) -> Seq<Seq<ExportGroup>> {
    config.map_values(|v: Vec<ExportGroup>| v@)
}

/// The first of the groups `seen`, from index `k` on, that holds kind `g`.
pub open spec fn first_bucket(seen: Seq<Seq<ExportGroup>>, g: ExportGroup, k: int) -> Option<int>
    decreases seen.len() - k,
{
    if k < 0 || k >= seen.len() {
        None
    } else if seen[k].contains(g) {
        Some(k)
    } else {
        first_bucket(seen, g, k + 1)
    }
}

/// The configured groups, followed by a group of its own for each kind among `gs` that no
/// earlier group holds, in the order the kinds first occur.
pub open spec fn seen_groups(config: Seq<Seq<ExportGroup>>, gs: Seq<ExportGroup>) -> Seq<Seq<ExportGroup>>
    decreases gs.len(),
{
    if gs.len() == 0 {
        config
    } else {
        let s = seen_groups(config, gs.drop_last());
        if first_bucket(s, gs.last(), 0) is Some {
            s
        } else {
            s.push(seq![gs.last()])
        }
    }
}

/// The indices `i < n` whose kind `gs[i]` falls in group `b`, in increasing order.
pub open spec fn bucket_members(gs: Seq<ExportGroup>, seen: Seq<Seq<ExportGroup>>, b: int, n: int) -> Seq<usize>
    decreases n,
{
    if n <= 0 {
        Seq::empty()
    } else {
        let prev = bucket_members(gs, seen, b, n - 1);
        if first_bucket(seen, gs[n - 1], 0) == Some(b) {
            prev.push((n - 1) as usize)
        } else {
            prev
        }
    }
}

/// The declarations of a block by group: for each group of `seen_groups`, the indices of the
/// declarations whose kind falls in it, ordered by key.
pub open spec fn ordered_buckets(config: Seq<Seq<ExportGroup>>, gs: Seq<ExportGroup>, keys: Seq<Seq<char>>) -> Seq<Seq<usize>> {
    let seen = seen_groups(config, gs);
    Seq::new(seen.len(), |b: int| key_sort(bucket_members(gs, seen, b, gs.len() as int), keys))
}

/// The groups, as sequences of kinds.
pub open spec fn seen_views(seen: Seq<Vec<ExportGroup>>) -> Seq<Seq<ExportGroup>> {
    seen.map_values(|v: Vec<ExportGroup>| v@)
}

/// Whether `inner` holds kind `g`.
fn holds_group(inner: &Vec<ExportGroup>, g: ExportGroup) -> (r: bool)
    ensures
        r == inner@.contains(g),
{
    let n = inner.len();
    let mut i: usize = 0;
    while i < n
        invariant
            n == inner@.len(),
            0 <= i <= n,
            forall|t: int| 0 <= t < i ==> inner@[t] != g,
        decreases n - i,
    {
        if inner[i] == g {
            return true;
        }
        i += 1;
    }
    false
}

/// The first of the groups `seen` that holds kind `g`.
fn find_bucket(seen: &Vec<Vec<ExportGroup>>, g: ExportGroup) -> (r: Option<usize>)
    ensures
        match r {
            Some(k) => first_bucket(seen_views(seen@), g, 0) == Some(k as int),
            None => first_bucket(seen_views(seen@), g, 0) is None,
        },
{
    let ghost sv = seen_views(seen@);
    let n = seen.len();
    let mut k: usize = 0;
    while k < n
        invariant
            n == seen@.len(),
            sv == seen_views(seen@),
            sv.len() == n,
            0 <= k <= n,
            first_bucket(sv, g, 0) == first_bucket(sv, g, k as int),
        decreases n - k,
    {
        if holds_group(&seen[k], g) {
            return Some(k);
        }
        k += 1;
    }
    None
}

/// A copy of a list of kinds.
fn copy_groups(v: &Vec<ExportGroup>) -> (r: Vec<ExportGroup>)
    ensures
        r@ == v@,
{
    let n = v.len();
    let mut out: Vec<ExportGroup> = Vec::new();
    let mut i: usize = 0;
    while i < n
        invariant
            n == v@.len(),
            0 <= i <= n,
            out@ == v@.take(i as int),
        decreases n - i,
    {
        out.push(v[i]);
        i += 1;
        proof {
            assert(out@ =~= v@.take(i as int));
        }
    }
    proof {
        assert(v@.take(n as int) =~= v@);
    }
    out
}

/// The groups of a block: the configured ones, then one for each kind that none holds.
fn build_seen_groups(config: &Vec<Vec<ExportGroup>>, classes: &Vec<ExportGroup>) -> (r: Vec<Vec<ExportGroup>>)
    ensures
        seen_views(r@) == seen_groups(group_lists(config@), classes@),
{
    let nc = config.len();
    let mut seen: Vec<Vec<ExportGroup>> = Vec::new();
    let mut i: usize = 0;
    while i < nc
        invariant
            nc == config@.len(),
            0 <= i <= nc,
            seen_views(seen@) == group_lists(config@.take(i as int)),
        decreases nc - i,
    {
        let copy = copy_groups(&config[i]);
        let ghost old_seen = seen@;
        proof {
            assert(seen_views(old_seen).len() == i);
        }
        seen.push(copy);
        proof {
            let target = group_lists(config@.take(i as int + 1));
            assert forall|k: int| 0 <= k < seen@.len() implies seen_views(seen@)[k] == target[k] by {
                if k < old_seen.len() {
                    assert(seen@[k] == old_seen[k]);
                    assert(seen_views(old_seen)[k] == group_lists(config@.take(i as int))[k]);
                } else {
                    assert(seen@[k] == copy);
                }
            }
            assert(seen_views(seen@) =~= target);
        }
        i += 1;
    }
    proof {
        assert(config@.take(nc as int) =~= config@);
        assert(classes@.take(0) =~= Seq::<ExportGroup>::empty());
    }
    let n = classes.len();
    let mut j: usize = 0;
    while j < n
        invariant
            n == classes@.len(),
            0 <= j <= n,
            seen_views(seen@) == seen_groups(group_lists(config@), classes@.take(j as int)),
        decreases n - j,
    {
        let g = classes[j];
        proof {
            assert(classes@.take(j as int + 1).drop_last() =~= classes@.take(j as int));
        }
        match find_bucket(&seen, g) {
            Some(_) => {},
            None => {
                let mut single: Vec<ExportGroup> = Vec::new();
                single.push(g);
                seen.push(single);
                proof {
                    assert(seen_views(seen@) =~= seen_groups(group_lists(config@), classes@.take(j as int)).push(seq![g]));
                }
            },
        }
        j += 1;
    }
    proof {
        assert(classes@.take(n as int) =~= classes@);
    }
    seen
}

/// The declarations of a block by group (see `ordered_buckets`); `classes` and `keys` give
/// each declaration's kind and sort key.
fn build_group_order(config: &Vec<Vec<ExportGroup>>, classes: &Vec<ExportGroup>, keys: &Vec<String>) -> (r: Vec<Vec<usize>>)
    requires
        classes@.len() == keys@.len(),
    ensures
        r@.len() == ordered_buckets(group_lists(config@), classes@, key_views(keys@)).len(),
        forall|b: int| 0 <= b < r@.len() ==> (#[trigger] r@[b])@ == ordered_buckets(group_lists(config@), classes@, key_views(keys@))[b],
        forall|b: int, t: int| 0 <= b < r@.len() && 0 <= t < r@[b]@.len() ==> (#[trigger] r@[b]@[t]) < keys@.len(),
{
    let seen = build_seen_groups(config, classes);
    let ghost sv = seen_views(seen@);
    let ghost kv = key_views(keys@);
    let ghost expected = ordered_buckets(group_lists(config@), classes@, kv);
    let nb = seen.len();
    let n = classes.len();
    let mut ordered: Vec<Vec<usize>> = Vec::new();
    let mut b: usize = 0;
    while b < nb
        invariant
            nb == seen@.len(),
            n == classes@.len(),
            n == keys@.len(),
            sv == seen_views(seen@),
            sv == seen_groups(group_lists(config@), classes@),
            kv == key_views(keys@),
            expected == ordered_buckets(group_lists(config@), classes@, kv),
            expected.len() == nb,
            0 <= b <= nb,
            ordered@.len() == b,
            forall|bb: int| 0 <= bb < b ==> (#[trigger] ordered@[bb])@ == expected[bb],
            forall|bb: int, t: int| 0 <= bb < b && 0 <= t < ordered@[bb]@.len() ==> (#[trigger] ordered@[bb]@[t]) < keys@.len(),
        decreases nb - b,
    {
        let mut members: Vec<usize> = Vec::new();
        let mut i: usize = 0;
        while i < n
            invariant
                n == classes@.len(),
                n == keys@.len(),
                sv == seen_views(seen@),
                0 <= i <= n,
                members@ == bucket_members(classes@, sv, b as int, i as int),
                forall|t: int| 0 <= t < members@.len() ==> (#[trigger] members@[t]) < i,
            decreases n - i,
        {
            let fb = find_bucket(&seen, classes[i]);
            if fb == Some(b) {
                members.push(i);
            }
            i += 1;
        }
        let sorted = sort_by_keys(&members, keys);
        ordered.push(sorted);
        b += 1;
    }
    ordered
}

// Findings

/// The declarations of block `b`, in order.
pub open spec fn block_decls(body: Seq<ModuleItem>, b: StatementBlock) -> Seq<ExportDeclaration> {
    Seq::new((b.hi - b.lo) as nat, |t: int| export_at(body, b.lo + t))
}

/// The kinds of the specifiers of `decls`.
pub open spec fn decl_classes(decls: Seq<ExportDeclaration>) -> Seq<ExportGroup> {
    decls.map_values(|d: ExportDeclaration| export_group(d))
}

/// The sort keys of `decls`.
pub open spec fn decl_keys(decls: Seq<ExportDeclaration>) -> Seq<Seq<char>> {
    decls.map_values(|d: ExportDeclaration| sort_key(d))
}

/// The first declaration, from index `k` on, that starts at `start`.
pub open spec fn position_of_span(decls: Seq<ExportDeclaration>, span: Span, k: int) -> Option<int>
    decreases decls.len() - k,
{
    if k < 0 || k >= decls.len() {
        None
    } else if decls[k].span == span {
        Some(k)
    } else {
        position_of_span(decls, span, k + 1)
    }
}

/// The index of the first declaration that starts at `start`, or 0.
pub open spec fn actual_position(decls: Seq<ExportDeclaration>, span: Span) -> int {
    match position_of_span(decls, span, 0) {
        Some(k) => k,
        None => 0,
    }
}

/// A `sort-imports` finding at `span` of `file`.
pub open spec fn finding_at(
    file: Seq<char>,
    index: LineIndex,
    span: Span,
    message: Seq<char>,
    severity: Severity,
    detail: Option<Seq<char>>,
    subject: Option<Seq<char>>,
) -> ViolationView {
    let pos = span_position(index, span);
    ViolationView {
        file,
        span: Some(span),
        line: Some(pos.line),
        column: Some(pos.column),
        rule: SORT_EXPORTS_RULE_ID@,
        message,
        severity,
        detail,
        subject,
    }
}

/// `"<specifier>" should appear in a different position`.
pub open spec fn misplaced_detail(name: Seq<char>) -> Seq<char> {
    "Export \""@ + name + MISPLACED_DETAIL_END@
}

/// `"<current>" should appear before "<previous>"`.
pub open spec fn before_detail(current: Seq<char>, previous: Seq<char>) -> Seq<char> {
    "Export \""@ + current + BEFORE_DETAIL_MIDDLE@ + previous + "\""@
}

/// For the first `e` positions of the expected order `flat`: a finding for each declaration
/// whose position in the block differs from its expected one, at the declaration, naming the
/// specifier that stands where it stands.
pub open spec fn order_findings(
    file: Seq<char>,
    index: LineIndex,
    severity: Severity,
    decls: Seq<ExportDeclaration>,
    flat: Seq<usize>,
    e: int,
) -> Seq<ViolationView>
    decreases e,
{
    if e <= 0 {
        Seq::empty()
    } else {
        let prev = order_findings(file, index, severity, decls, flat, e - 1);
        let d = decls[flat[e - 1] as int];
        let actual = actual_position(decls, d.span);
        if actual != e - 1 {
            let name = export_name(decls[actual]);
            prev.push(finding_at(file, index, d.span, SORT_EXPORTS_MESSAGE@, severity, Some(misplaced_detail(name)), Some(name)))
        } else {
            prev
        }
    }
}

/// Bucket `bucket` holds a declaration that starts at `start`.
pub open spec fn bucket_has_start(decls: Seq<ExportDeclaration>, bucket: Seq<usize>, span: Span) -> bool {
    exists|t: int| 0 <= t < bucket.len() && (#[trigger] decls[bucket[t] as int]).span == span
}

/// The first bucket, from `b` on, that holds a declaration starting at `start`.
pub open spec fn bucket_of_start(decls: Seq<ExportDeclaration>, buckets: Seq<Seq<usize>>, span: Span, b: int) -> Option<int>
    decreases buckets.len() - b,
{
    if b < 0 || b >= buckets.len() {
        None
    } else if bucket_has_start(decls, buckets[b], span) {
        Some(b)
    } else {
        bucket_of_start(decls, buckets, span, b + 1)
    }
}

/// The bucket of the declaration that starts at `start`, or 0.
pub open spec fn bucket_index(decls: Seq<ExportDeclaration>, buckets: Seq<Seq<usize>>, span: Span) -> int {
    match bucket_of_start(decls, buckets, span, 0) {
        Some(b) => b,
        None => 0,
    }
}

/// For the first `k` pairs of neighbouring declarations: a finding where the two fall in
/// different buckets and no blank line separates them, at the end of the first.
pub open spec fn always_findings(
    file: Seq<char>,
    index: LineIndex,
    severity: Severity,
    src: Seq<u8>,
    decls: Seq<ExportDeclaration>,
    buckets: Seq<Seq<usize>>,
    k: int,
) -> Seq<ViolationView>
    decreases k,
{
    if k <= 0 {
        Seq::empty()
    } else {
        let prev = always_findings(file, index, severity, src, decls, buckets, k - 1);
        let i = k - 1;
        if bucket_index(decls, buckets, decls[i].span) != bucket_index(decls, buckets, decls[i + 1].span)
            && !blank_line_between(src, decls[i].span.end as int, decls[i + 1].span.start as int) {
            prev.push(finding_at(file, index, point(decls[i].span.end), ALWAYS_NEWLINE_MESSAGE@, severity, Some(ALWAYS_DETAIL@), None))
        } else {
            prev
        }
    }
}

/// The findings of a block under configured groups: each declaration out of its expected
/// place, then, where blank lines are asked for between groups, each missing one.
pub open spec fn grouped_findings(
    file: Seq<char>,
    index: LineIndex,
    src: Seq<u8>,
    decls: Seq<ExportDeclaration>,
    config: SortExportsRuleConfig,
) -> Seq<ViolationView> {
    let buckets = ordered_buckets(group_lists(config.groups@), decl_classes(decls), decl_keys(decls));
    let flat = flatten(buckets);
    order_findings(file, index, config.severity, decls, flat, flat.len() as int) + if config.newlines_between == NewlinesBetween::Always {
        always_findings(file, index, config.severity, src, decls, buckets, decls.len() - 1)
    } else {
        Seq::empty()
    }
}

/// For the first `k` pairs of neighbouring declarations: a finding where the key of the first
/// sorts after the key of the second, at the second.
pub open spec fn unsorted_findings(
    file: Seq<char>,
    index: LineIndex,
    severity: Severity,
    decls: Seq<ExportDeclaration>,
    k: int,
) -> Seq<ViolationView>
    decreases k,
{
    if k <= 0 {
        Seq::empty()
    } else {
        let prev = unsorted_findings(file, index, severity, decls, k - 1);
        let i = k - 1;
        if char_seq_order(sort_key(decls[i]), sort_key(decls[i + 1])) > 0 {
            let cur = export_name(decls[i + 1]);
            prev.push(finding_at(file, index, decls[i + 1].span, SORT_EXPORTS_MESSAGE@, severity, Some(before_detail(cur, export_name(decls[i]))), Some(cur)))
        } else {
            prev
        }
    }
}

/// For the first `k` pairs of neighbouring declarations: a finding where a blank line
/// separates them, at the end of the first.
pub open spec fn never_findings(
    file: Seq<char>,
    index: LineIndex,
    severity: Severity,
    src: Seq<u8>,
    decls: Seq<ExportDeclaration>,
    k: int,
) -> Seq<ViolationView>
    decreases k,
{
    if k <= 0 {
        Seq::empty()
    } else {
        let prev = never_findings(file, index, severity, src, decls, k - 1);
        let i = k - 1;
        if blank_line_between(src, decls[i].span.end as int, decls[i + 1].span.start as int) {
            prev.push(finding_at(file, index, point(decls[i].span.end), NEWLINE_MESSAGE@, severity, Some(NEVER_DETAIL@), None))
        } else {
            prev
        }
    }
}

/// The findings of each of `blocks` under configured groups, one block after another.
pub open spec fn grouped_blocks_findings(file: Seq<char>, index: LineIndex, src: Seq<u8>, body: Seq<ModuleItem>, config: SortExportsRuleConfig, blocks: Seq<StatementBlock>) -> Seq<ViolationView>
    decreases blocks.len(),
{
    if blocks.len() == 0 {
        Seq::empty()
    } else {
        grouped_blocks_findings(file, index, src, body, config, blocks.drop_last())
            + grouped_findings(file, index, src, block_decls(body, blocks.last()), config)
    }
}

/// The unsorted neighbours of each of `groups`, one group after another.
pub open spec fn unsorted_groups_findings(file: Seq<char>, index: LineIndex, severity: Severity, body: Seq<ModuleItem>, groups: Seq<StatementBlock>) -> Seq<ViolationView>
    decreases groups.len(),
{
    if groups.len() == 0 {
        Seq::empty()
    } else {
        let g = groups.last();
        unsorted_groups_findings(file, index, severity, body, groups.drop_last())
            + unsorted_findings(file, index, severity, block_decls(body, g), g.hi - g.lo - 1)
    }
}

/// The blank lines between the imports of each of `blocks`, one block after another.
pub open spec fn never_blocks_findings(file: Seq<char>, index: LineIndex, severity: Severity, src: Seq<u8>, body: Seq<ModuleItem>, blocks: Seq<StatementBlock>) -> Seq<ViolationView>
    decreases blocks.len(),
{
    if blocks.len() == 0 {
        Seq::empty()
    } else {
        let b = blocks.last();
        never_blocks_findings(file, index, severity, src, body, blocks.drop_last())
            + never_findings(file, index, severity, src, block_decls(body, b), b.hi - b.lo - 1)
    }
}

/// The findings of `sort-imports` on a module: none where the rule is off; with configured
/// groups, those of each block under them, else the unsorted neighbours of each blank-line
/// separated group; then, where blank lines are forbidden, each blank line between two
/// imports of a block.
pub open spec fn sort_exports_findings(
    file: Seq<char>,
    m: ModuleSyntax,
    src: Seq<u8>,
    index: LineIndex,
    config: SortExportsRuleConfig,
) -> Seq<ViolationView> {
    if config.severity == Severity::Off {
        Seq::empty()
    } else {
        let body = m.body@;
        let blocks = export_blocks(m, src.len() as int);
        let main = if config.groups@.len() > 0 {
            grouped_blocks_findings(file, index, src, body, config, blocks)
        } else {
            unsorted_groups_findings(file, index, config.severity, body, export_groups(m, src))
        };
        main + if config.newlines_between == NewlinesBetween::Never {
            never_blocks_findings(file, index, config.severity, src, body, blocks)
        } else {
            Seq::empty()
        }
    }
}

/// The declaration at position `t` of block `b`.
fn block_decl(program: &ModuleSyntax, block: StatementBlock, t: usize) -> (d: &ExportDeclaration)
    requires
        block_ok(program.body@, block),
        t < block.hi - block.lo,
    ensures
        *d == block_decls(program.body@, block)[t as int],
{
    export_decl(&program.body, block.lo + t)
}

/// The kinds and sort keys of the declarations of a block.
fn kinds_and_keys(program: &ModuleSyntax, block: StatementBlock) -> (r: (Vec<ExportGroup>, Vec<String>))
    requires
        block_ok(program.body@, block),
    ensures
        r.0@ == decl_classes(block_decls(program.body@, block)),
        key_views(r.1@) == decl_keys(block_decls(program.body@, block)),
{
    let ghost decls = block_decls(program.body@, block);
    let n = block.hi - block.lo;
    let mut classes: Vec<ExportGroup> = Vec::new();
    let mut keys: Vec<String> = Vec::new();
    let mut t: usize = 0;
    while t < n
        invariant
            block_ok(program.body@, block),
            decls == block_decls(program.body@, block),
            n == block.hi - block.lo,
            decls.len() == n,
            0 <= t <= n,
            classes@ == decl_classes(decls).take(t as int),
            key_views(keys@) == decl_keys(decls).take(t as int),
        decreases n - t,
    {
        let d = block_decl(program, block, t);
        let g = classify_export(d);
        let k = export_sort_key(d);
        let ghost old_keys = keys@;
        classes.push(g);
        keys.push(k);
        t += 1;
        proof {
            assert(classes@ =~= decl_classes(decls).take(t as int));
            assert(key_views(keys@) =~= key_views(old_keys).push(k@));
            assert(decl_keys(decls).take(t as int) =~= decl_keys(decls).take(t - 1).push(decl_keys(decls)[t - 1]));
            assert(decl_keys(decls)[t - 1] == sort_key(decls[t - 1]));
            assert(key_views(keys@) =~= decl_keys(decls).take(t as int));
        }
    }
    proof {
        assert(decl_classes(decls).take(n as int) =~= decl_classes(decls));
        assert(decl_keys(decls).take(n as int) =~= decl_keys(decls));
    }
    (classes, keys)
}

/// The index of the first declaration of the block that starts at `start`, or 0.
fn first_at_span(program: &ModuleSyntax, block: StatementBlock, span: Span) -> (r: usize)
    requires
        block_ok(program.body@, block),
    ensures
        r as int == actual_position(block_decls(program.body@, block), span),
        r < block.hi - block.lo,
{
    let ghost decls = block_decls(program.body@, block);
    let n = block.hi - block.lo;
    let mut k: usize = 0;
    while k < n
        invariant
            block_ok(program.body@, block),
            decls == block_decls(program.body@, block),
            n == block.hi - block.lo,
            decls.len() == n,
            0 <= k <= n,
            position_of_span(decls, span, 0) == position_of_span(decls, span, k as int),
        decreases n - k,
    {
        if block_decl(program, block, k).span == span {
            return k;
        }
        k += 1;
    }
    0
}

/// Whether the bucket holds a declaration of the block that starts at `start`.
fn bucket_holds_span(program: &ModuleSyntax, block: StatementBlock, bucket: &Vec<usize>, span: Span) -> (r: bool)
    requires
        block_ok(program.body@, block),
        forall|t: int| 0 <= t < bucket@.len() ==> (#[trigger] bucket@[t]) < block.hi - block.lo,
    ensures
        r == bucket_has_start(block_decls(program.body@, block), bucket@, span),
{
    let ghost decls = block_decls(program.body@, block);
    let m = bucket.len();
    let mut t: usize = 0;
    while t < m
        invariant
            block_ok(program.body@, block),
            decls == block_decls(program.body@, block),
            m == bucket@.len(),
            forall|u: int| 0 <= u < bucket@.len() ==> (#[trigger] bucket@[u]) < block.hi - block.lo,
            0 <= t <= m,
            forall|u: int| 0 <= u < t ==> (#[trigger] decls[bucket@[u] as int]).span != span,
        decreases m - t,
    {
        let d = block_decl(program, block, bucket[t]);
        if d.span == span {
            proof {
                assert(decls[bucket@[t as int] as int].span == span);
            }
            return true;
        }
        t += 1;
    }
    false
}

/// The first bucket that holds a declaration of the block starting at `start`, or 0.
fn bucket_index_of(program: &ModuleSyntax, block: StatementBlock, buckets: &Vec<Vec<usize>>, span: Span) -> (r: usize)
    requires
        block_ok(program.body@, block),
        forall|b: int, t: int| 0 <= b < buckets@.len() && 0 <= t < buckets@[b]@.len() ==> (#[trigger] buckets@[b]@[t]) < block.hi - block.lo,
    ensures
        r as int == bucket_index(block_decls(program.body@, block), bucket_views(buckets@), span),
{
    let ghost decls = block_decls(program.body@, block);
    let ghost bv = bucket_views(buckets@);
    let nb = buckets.len();
    let mut b: usize = 0;
    while b < nb
        invariant
            block_ok(program.body@, block),
            decls == block_decls(program.body@, block),
            bv == bucket_views(buckets@),
            nb == buckets@.len(),
            forall|bb: int, t: int| 0 <= bb < buckets@.len() && 0 <= t < buckets@[bb]@.len() ==> (#[trigger] buckets@[bb]@[t]) < block.hi - block.lo,
            0 <= b <= nb,
            bucket_of_start(decls, bv, span, 0) == bucket_of_start(decls, bv, span, b as int),
        decreases nb - b,
    {
        let bucket = &buckets[b];
        if bucket_holds_span(program, block, bucket, span) {
            return b;
        }
        b += 1;
    }
    0
}

/// The finding for a declaration out of its expected place; `name` stands where it stands.
fn misplaced_finding(file: &str, line_index: &LineIndex, severity: Severity, span: Span, name: &String) -> (r: Violation)
    ensures
        r@ == finding_at(file@, *line_index, span, SORT_EXPORTS_MESSAGE@, severity, Some(misplaced_detail(name@)), Some(name@)),
{
    let pos = line_index.position_for(span);
    let mut detail = string_of("Export \"");
    push_str(&mut detail, name.as_str());
    push_str(&mut detail, MISPLACED_DETAIL_END);
    proof {
        assert(detail@ =~= misplaced_detail(name@));
    }
    Violation::spanned(file, span, pos.line, pos.column, SORT_EXPORTS_RULE_ID, SORT_EXPORTS_MESSAGE, severity, Some(detail), Some(copy_string(name)))
}

/// A finding at the empty span at `offset`.
fn gap_finding(file: &str, line_index: &LineIndex, severity: Severity, offset: u32, message: &str, detail: &str) -> (r: Violation)
    ensures
        r@ == finding_at(file@, *line_index, point(offset), message@, severity, Some(detail@), None),
{
    let span = Span { start: offset, end: offset };
    let pos = line_index.position_for(span);
    Violation::spanned(file, span, pos.line, pos.column, SORT_EXPORTS_RULE_ID, message, severity, Some(string_of(detail)), None)
}

/// The findings of one block under configured groups (see `grouped_findings`).
fn check_group_grouped(
    file: &str,
    line_index: &LineIndex,
    source: &str,
    program: &ModuleSyntax,
    block: StatementBlock,
    config: &SortExportsRuleConfig,
) -> (r: Vec<Violation>)
    requires
        block_ok(program.body@, block),
    ensures
        views(r@) == grouped_findings(file@, *line_index, source.spec_bytes(), block_decls(program.body@, block), *config),
{
    let ghost decls = block_decls(program.body@, block);
    let ghost src = source.spec_bytes();
    let n = block.hi - block.lo;
    let (classes, keys) = kinds_and_keys(program, block);
    proof {
        assert(key_views(keys@).len() == keys@.len());
        assert(decl_keys(decls).len() == n);
    }
    let ordered = build_group_order(&config.groups, &classes, &keys);
    let ghost buckets = ordered_buckets(group_lists(config.groups@), decl_classes(decls), decl_keys(decls));
    proof {
        assert(bucket_views(ordered@) =~= buckets);
    }
    let flat = flatten_buckets(&ordered, n);
    let mut violations: Vec<Violation> = Vec::new();
    let m = flat.len();
    let mut e: usize = 0;
    while e < m
        invariant
            block_ok(program.body@, block),
            decls == block_decls(program.body@, block),
            n == block.hi - block.lo,
            decls.len() == n,
            m == flat@.len(),
            forall|t: int| 0 <= t < flat@.len() ==> (#[trigger] flat@[t]) < n,
            0 <= e <= m,
            views(violations@) == order_findings(file@, *line_index, config.severity, decls, flat@, e as int),
        decreases m - e,
    {
        let d = block_decl(program, block, flat[e]);
        let actual = first_at_span(program, block, d.span);
        if actual != e {
            let name = format_export_name(block_decl(program, block, actual));
            let v = misplaced_finding(file, line_index, config.severity, d.span, &name);
            violations.push(v);
            proof {
                assert(views(violations@) =~= order_findings(file@, *line_index, config.severity, decls, flat@, e as int + 1));
            }
        }
        e += 1;
    }
    proof {
        assert(flat@ == flatten(buckets));
    }
    if config.newlines_between == NewlinesBetween::Always {
        let ghost head = views(violations@);
        let mut i: usize = 0;
        while i + 1 < n
            invariant
                block_ok(program.body@, block),
                decls == block_decls(program.body@, block),
                src == source.spec_bytes(),
                n == block.hi - block.lo,
                decls.len() == n,
                n >= 1,
                0 <= i < n,
                buckets == bucket_views(ordered@),
                forall|b: int, t: int| 0 <= b < ordered@.len() && 0 <= t < ordered@[b]@.len() ==> (#[trigger] ordered@[b]@[t]) < n,
                views(violations@) == head + always_findings(file@, *line_index, config.severity, src, decls, buckets, i as int),
            decreases n - i,
        {
            let a = block_decl(program, block, i);
            let b = block_decl(program, block, i + 1);
            let ba = bucket_index_of(program, block, &ordered, a.span);
            let bb = bucket_index_of(program, block, &ordered, b.span);
            let ghost before = violations@;
            proof {
                assert(a == decls[i as int]);
                assert(b == decls[i + 1]);
            }
            if ba != bb && !has_blank_line_between(source, a.span.end as usize, b.span.start as usize) {
                let v = gap_finding(file, line_index, config.severity, a.span.end, ALWAYS_NEWLINE_MESSAGE, ALWAYS_DETAIL);
                violations.push(v);
                proof {
                    assert(views(violations@) =~= views(before).push(v@));
                }
            }
            proof {
                assert(views(violations@) =~= head + always_findings(file@, *line_index, config.severity, src, decls, buckets, i as int + 1));
            }
            i += 1;
        }
    } else {
        proof {
            assert(views(violations@) =~= views(violations@) + Seq::<ViolationView>::empty());
        }
    }
    violations
}

/// The unsorted neighbours of one blank-line separated group (see `unsorted_findings`).
fn check_group(file: &str, line_index: &LineIndex, severity: Severity, program: &ModuleSyntax, group: StatementBlock) -> (r: Vec<Violation>)
    requires
        block_ok(program.body@, group),
    ensures
        views(r@) == unsorted_findings(file@, *line_index, severity, block_decls(program.body@, group), group.hi - group.lo - 1),
{
    let ghost decls = block_decls(program.body@, group);
    let n = group.hi - group.lo;
    let mut violations: Vec<Violation> = Vec::new();
    let mut i: usize = 0;
    while i + 1 < n
        invariant
            block_ok(program.body@, group),
            decls == block_decls(program.body@, group),
            n == group.hi - group.lo,
            decls.len() == n,
            n >= 1,
            0 <= i < n,
            views(violations@) == unsorted_findings(file@, *line_index, severity, decls, i as int),
        decreases n - i,
    {
        let prev = block_decl(program, group, i);
        let cur = block_decl(program, group, i + 1);
        let kp = export_sort_key(prev);
        let kc = export_sort_key(cur);
        let ghost before = violations@;
        if crate::order::compare_str(kp.as_str(), kc.as_str()) > 0 {
            let pos = line_index.position_for(cur.span);
            let cur_name = format_export_name(cur);
            let prev_name = format_export_name(prev);
            let mut detail = string_of("Export \"");
            push_str(&mut detail, cur_name.as_str());
            push_str(&mut detail, BEFORE_DETAIL_MIDDLE);
            push_str(&mut detail, prev_name.as_str());
            push_str(&mut detail, "\"");
            proof {
                assert(detail@ =~= before_detail(cur_name@, prev_name@));
            }
            let v = Violation::spanned(file, cur.span, pos.line, pos.column, SORT_EXPORTS_RULE_ID, SORT_EXPORTS_MESSAGE, severity, Some(detail), Some(cur_name));
            violations.push(v);
            proof {
                assert(views(violations@) =~= views(before).push(v@));
            }
        }
        proof {
            assert(views(violations@) =~= unsorted_findings(file@, *line_index, severity, decls, i as int + 1));
        }
        i += 1;
    }
    violations
}

/// The blank lines between the imports of one block (see `never_findings`).
fn check_never_newlines(file: &str, line_index: &LineIndex, severity: Severity, source: &str, program: &ModuleSyntax, block: StatementBlock) -> (r: Vec<Violation>)
    requires
        block_ok(program.body@, block),
    ensures
        views(r@) == never_findings(file@, *line_index, severity, source.spec_bytes(), block_decls(program.body@, block), block.hi - block.lo - 1),
{
    let ghost decls = block_decls(program.body@, block);
    let ghost src = source.spec_bytes();
    let n = block.hi - block.lo;
    let mut violations: Vec<Violation> = Vec::new();
    let mut i: usize = 0;
    while i + 1 < n
        invariant
            block_ok(program.body@, block),
            decls == block_decls(program.body@, block),
            src == source.spec_bytes(),
            n == block.hi - block.lo,
            decls.len() == n,
            n >= 1,
            0 <= i < n,
            views(violations@) == never_findings(file@, *line_index, severity, src, decls, i as int),
        decreases n - i,
    {
        let a = block_decl(program, block, i);
        let b = block_decl(program, block, i + 1);
        let ghost before = violations@;
        if has_blank_line_between(source, a.span.end as usize, b.span.start as usize) {
            let v = gap_finding(file, line_index, severity, a.span.end, NEWLINE_MESSAGE, NEVER_DETAIL);
            violations.push(v);
            proof {
                assert(views(violations@) =~= views(before).push(v@));
            }
        }
        proof {
            assert(views(violations@) =~= never_findings(file@, *line_index, severity, src, decls, i as int + 1));
        }
        i += 1;
    }
    violations
}

/// The findings of `sort-imports` on one module (see `sort_exports_findings`).
pub fn check_file(
    file: &str,
    program: &ModuleSyntax,
    source: &str,
    line_index: &LineIndex,
    config: &SortExportsRuleConfig,
) -> (r: Vec<Violation>)
    ensures
        views(r@) == sort_exports_findings(file@, *program, source.spec_bytes(), *line_index, *config),
{
    if !config.severity.is_enabled() {
        proof {
            assert(views(Seq::<Violation>::empty()) =~= Seq::<ViolationView>::empty());
        }
        return Vec::new();
    }
    let ghost src = source.spec_bytes();
    let ghost body = program.body@;
    let blocks = find_contiguous_export_blocks(program, source);
    let groups = find_export_groups(program, source);
    let mut violations: Vec<Violation> = Vec::new();
    let ghost main: Seq<ViolationView>;
    if config.groups.len() > 0 {
        let nb = blocks.len();
        let mut i: usize = 0;
        while i < nb
            invariant
                nb == blocks@.len(),
                src == source.spec_bytes(),
                body == program.body@,
                forall|k: int| 0 <= k < blocks@.len() ==> block_ok(program.body@, #[trigger] blocks@[k]),
                0 <= i <= nb,
                views(violations@) == grouped_blocks_findings(file@, *line_index, src, body, *config, blocks@.take(i as int)),
            decreases nb - i,
        {
            proof {
                assert(blocks@.take(i as int + 1).drop_last() =~= blocks@.take(i as int));
            }
            let ghost before = violations@;
            let mut part = check_group_grouped(file, line_index, source, program, blocks[i], config);
            let ghost part_v = part@;
            violations.append(&mut part);
            proof {
                lemma_views_append(before, part_v);
            }
            i += 1;
        }
        proof {
            assert(blocks@.take(nb as int) =~= blocks@);
            main = views(violations@);
        }
    } else {
        let ng = groups.len();
        let mut i: usize = 0;
        while i < ng
            invariant
                ng == groups@.len(),
                body == program.body@,
                forall|k: int| 0 <= k < groups@.len() ==> block_ok(program.body@, #[trigger] groups@[k]),
                0 <= i <= ng,
                views(violations@) == unsorted_groups_findings(file@, *line_index, config.severity, body, groups@.take(i as int)),
            decreases ng - i,
        {
            proof {
                assert(groups@.take(i as int + 1).drop_last() =~= groups@.take(i as int));
            }
            let ghost before = violations@;
            let mut part = check_group(file, line_index, config.severity, program, groups[i]);
            let ghost part_v = part@;
            violations.append(&mut part);
            proof {
                lemma_views_append(before, part_v);
            }
            i += 1;
        }
        proof {
            assert(groups@.take(ng as int) =~= groups@);
            main = views(violations@);
        }
    }
    if config.newlines_between == NewlinesBetween::Never {
        let nb = blocks.len();
        let mut i: usize = 0;
        while i < nb
            invariant
                nb == blocks@.len(),
                src == source.spec_bytes(),
                body == program.body@,
                forall|k: int| 0 <= k < blocks@.len() ==> block_ok(program.body@, #[trigger] blocks@[k]),
                0 <= i <= nb,
                views(violations@) == main + never_blocks_findings(file@, *line_index, config.severity, src, body, blocks@.take(i as int)),
            decreases nb - i,
        {
            proof {
                assert(blocks@.take(i as int + 1).drop_last() =~= blocks@.take(i as int));
            }
            let ghost before = violations@;
            let mut part = check_never_newlines(file, line_index, config.severity, source, program, blocks[i]);
            let ghost part_v = part@;
            violations.append(&mut part);
            proof {
                lemma_views_append(before, part_v);
            }
            i += 1;
        }
        proof {
            assert(blocks@.take(nb as int) =~= blocks@);
        }
    } else {
        proof {
            assert(views(violations@) =~= main + Seq::<ViolationView>::empty());
        }
    }
    violations
}

// Slices of the source

// Pieces of a rewritten group

/// The byte range of the declaration at position `t` of group `g` with its comments: from its
/// leading comments to its trailing comments that end by the next declaration's leading
/// comments (or by the end of the group).
pub open spec fn item_range(m: ModuleSyntax, g: StatementBlock, t: int) -> (int, int) {
    let decls = block_decls(m.body@, g);
    let upper = if t + 1 < decls.len() {
        leading_start(m.comments@, decls[t + 1].span.start) as int
    } else {
        g.end as int
    };
    (leading_start(m.comments@, decls[t].span.start) as int, trailing_end(m.comments@, decls[t].span.end, upper) as int)
}

/// The ranges of the declarations of a group with their comments (see `item_range`).
fn export_item_ranges(program: &ModuleSyntax, group: StatementBlock) -> (r: Vec<(usize, usize)>)
    requires
        block_ok(program.body@, group),
    ensures
        r@.len() == group.hi - group.lo,
        forall|t: int| 0 <= t < r@.len() ==> ((#[trigger] r@[t]).0 as int, r@[t].1 as int) == item_range(*program, group, t),
{
    let n = group.hi - group.lo;
    let mut ranges: Vec<(usize, usize)> = Vec::new();
    let mut t: usize = 0;
    while t < n
        invariant
            block_ok(program.body@, group),
            n == group.hi - group.lo,
            0 <= t <= n,
            ranges@.len() == t,
            forall|u: int| 0 <= u < t ==> ((#[trigger] ranges@[u]).0 as int, ranges@[u].1 as int) == item_range(*program, group, u),
        decreases n - t,
    {
        let d = block_decl(program, group, t);
        let start = leading_trivia_start(program, d.span.start);
        let upper: usize = if t + 1 < n {
            leading_trivia_start(program, block_decl(program, group, t + 1).span.start) as usize
        } else {
            group.end
        };
        let end = trailing_trivia_end(program, d.span.end, upper);
        ranges.push((start as usize, end as usize));
        t += 1;
    }
    ranges
}

/// The text of the declaration `d` of group `g` with its comments: the range of the first
/// declaration of the group that starts where `d` starts.
pub open spec fn snippet(m: ModuleSyntax, src: Seq<u8>, g: StatementBlock, d: ExportDeclaration) -> Seq<char> {
    let r = item_range(m, g, actual_position(block_decls(m.body@, g), d.span));
    piece(src, r.0, r.1)
}

/// The text that follows the `k`-th declaration of a rewritten group: the text between the
/// `k`-th and the next declaration of the group as written (the group's line ending where
/// there is no next one); under configured groups, two line endings where the two fall in
/// different buckets, blank lines are asked for and none is written, or the text without its
/// blank lines where they are forbidden.
pub open spec fn separator(m: ModuleSyntax, src: Seq<u8>, g: StatementBlock, k: int, grouped: Option<(Seq<usize>, NewlinesBetween)>) -> Seq<char> {
    let n = g.hi - g.lo;
    let nl = newline_of(src, g.start as int, g.end as int);
    let r0 = item_range(m, g, k);
    let r1 = item_range(m, g, k + 1);
    let original = if 0 <= k && k + 1 < n { piece(src, r0.1, r1.0) } else { nl };
    match grouped {
        Some((bidx, policy)) => {
            let blank = 0 <= k && k + 1 < n && blank_line_between(src, r0.1, r1.0);
            if policy == NewlinesBetween::Always && opt_at(bidx, k) != opt_at(bidx, k + 1) && !blank {
                nl + nl
            } else if policy == NewlinesBetween::Never {
                if 0 <= k && k + 1 < n { without_blank_lines(src, m.comments@, r0.1, r1.0) } else { original }
            } else {
                original
            }
        },
        None => original,
    }
}

/// The first `k` declarations of group `g` in the order `ordered` (positions in the group),
/// each with its comments and followed by its separator, but for the last one.
pub open spec fn rendered(m: ModuleSyntax, src: Seq<u8>, g: StatementBlock, ordered: Seq<usize>, grouped: Option<(Seq<usize>, NewlinesBetween)>, k: int) -> Seq<char>
    decreases k,
{
    if k <= 0 {
        Seq::empty()
    } else {
        let i = k - 1;
        let d = block_decls(m.body@, g)[ordered[i] as int];
        rendered(m, src, g, ordered, grouped, k - 1) + snippet(m, src, g, d) + if i + 1 >= ordered.len() {
            Seq::empty()
        } else {
            separator(m, src, g, i, grouped)
        }
    }
}

/// The group `group` rewritten in the order `ordered` (see `rendered`); `grouped` tells
/// whether `bucket_indices` and `policy` apply.
fn render_exports(
    source: &str,
    program: &ModuleSyntax,
    group: StatementBlock,
    ordered: &Vec<usize>,
    grouped: bool,
    bucket_indices: &Vec<usize>,
    policy: NewlinesBetween,
) -> (r: String)
    requires
        block_ok(program.body@, group),
        forall|t: int| 0 <= t < ordered@.len() ==> (#[trigger] ordered@[t]) < group.hi - group.lo,
    ensures
        r@ == rendered(*program, source.spec_bytes(), group, ordered@, if grouped { Some((bucket_indices@, policy)) } else { None }, ordered@.len() as int),
{
    let ghost src = source.spec_bytes();
    let ghost m = *program;
    let ghost gv: Option<(Seq<usize>, NewlinesBetween)> = if grouped { Some((bucket_indices@, policy)) } else { None };
    let n = group.hi - group.lo;
    let ranges = export_item_ranges(program, group);
    let newline = line_ending(source, group.start, group.end);
    let len = ordered.len();
    let nb = bucket_indices.len();
    let mut out = String::new();
    let mut idx: usize = 0;
    while idx < len
        invariant
            block_ok(program.body@, group),
            m == *program,
            src == source.spec_bytes(),
            gv == (if grouped { Some((bucket_indices@, policy)) } else { None::<(Seq<usize>, NewlinesBetween)> }),
            n == group.hi - group.lo,
            len == ordered@.len(),
            nb == bucket_indices@.len(),
            forall|t: int| 0 <= t < ordered@.len() ==> (#[trigger] ordered@[t]) < n,
            ranges@.len() == n,
            forall|t: int| 0 <= t < ranges@.len() ==> ((#[trigger] ranges@[t]).0 as int, ranges@[t].1 as int) == item_range(m, group, t),
            newline@ == newline_of(src, group.start as int, group.end as int),
            0 <= idx <= len,
            out@ == rendered(m, src, group, ordered@, gv, idx as int),
        decreases len - idx,
    {
        let d = block_decl(program, group, ordered[idx]);
        let actual = first_at_span(program, group, d.span);
        let (a, b) = ranges[actual];
        let text = slice_of(source, a, b);
        let ghost before = out@;
        crate::chars::push_str(&mut out, text);
        if idx + 1 < len {
            let mut sep = String::new();
            let has_next = idx + 1 < n;
            let original: String = if has_next {
                string_of(slice_of(source, ranges[idx].1, ranges[idx + 1].0))
            } else {
                crate::chars::copy_string(&newline)
            };
            if grouped {
                let blank = has_next && has_blank_line_between(source, ranges[idx].1, ranges[idx + 1].0);
                let differ = if idx + 1 < nb {
                    bucket_indices[idx] != bucket_indices[idx + 1]
                } else {
                    idx < nb
                };
                if policy == NewlinesBetween::Always && differ && !blank {
                    crate::chars::push_str(&mut sep, newline.as_str());
                    crate::chars::push_str(&mut sep, newline.as_str());
                } else if policy == NewlinesBetween::Never {
                    if has_next {
                        let cleaned = remove_blank_lines(source, program, ranges[idx].1, ranges[idx + 1].0);
                        crate::chars::push_str(&mut sep, cleaned.as_str());
                    } else {
                        crate::chars::push_str(&mut sep, original.as_str());
                    }
                } else {
                    crate::chars::push_str(&mut sep, original.as_str());
                }
            } else {
                crate::chars::push_str(&mut sep, original.as_str());
            }
            proof {
                assert(sep@ == separator(m, src, group, idx as int, gv));
            }
            crate::chars::push_str(&mut out, sep.as_str());
        }
        proof {
            assert(*d == block_decls(m.body@, group)[ordered@[idx as int] as int]);
            assert(text@ == snippet(m, src, group, *d));
            assert(out@ =~= rendered(m, src, group, ordered@, gv, idx as int + 1));
        }
        idx += 1;
    }
    out
}

// Fixes

/// The fix of `file` that replaces the bytes `[start, end)` with `replacement`, where that
/// changes them.
pub open spec fn fix_if_changed(file: Seq<char>, src: Seq<u8>, start: int, end: int, replacement: Seq<char>) -> Option<FixView> {
    if replacement == piece(src, start, end) {
        None
    } else {
        Some(FixView {
            file,
            rule: SORT_EXPORTS_RULE_ID@,
            edits: seq![TextEditView { start: start as usize, end: end as usize, replacement }],
        })
    }
}

/// The fix of a blank-line separated group whose keys are out of order: the group rewritten
/// with its declarations ordered by key, where that changes it.
pub open spec fn ungrouped_fix(file: Seq<char>, m: ModuleSyntax, src: Seq<u8>, g: StatementBlock) -> Option<FixView> {
    let decls = block_decls(m.body@, g);
    let keys = decl_keys(decls);
    if keys_sorted(keys) {
        None
    } else {
        let ordered = key_sort(positions(decls.len() as int), keys);
        fix_if_changed(file, src, g.start as int, g.end as int, rendered(m, src, g, ordered, None, ordered.len() as int))
    }
}

/// The fix of a block under configured groups: the block rewritten in the expected order, with
/// the blank-line policy between groups, where that changes it.
pub open spec fn grouped_fix(file: Seq<char>, m: ModuleSyntax, src: Seq<u8>, g: StatementBlock, config: SortExportsRuleConfig) -> Option<FixView> {
    let decls = block_decls(m.body@, g);
    let buckets = ordered_buckets(group_lists(config.groups@), decl_classes(decls), decl_keys(decls));
    let ordered = flatten(buckets);
    fix_if_changed(file, src, g.start as int, g.end as int,
        rendered(m, src, g, ordered, Some((bucket_positions(buckets), config.newlines_between)), ordered.len() as int))
}

/// The fix of the gap between the `i`-th declaration and the next where a blank line
/// separates them: the gap, from the trailing comments of the first to the leading comments of
/// the second, without its blank lines, where that changes it.
pub open spec fn never_pair_fix(file: Seq<char>, m: ModuleSyntax, src: Seq<u8>, decls: Seq<ExportDeclaration>, i: int) -> Option<FixView> {
    if !blank_line_between(src, decls[i].span.end as int, decls[i + 1].span.start as int) {
        None
    } else {
        let next_start = leading_start(m.comments@, decls[i + 1].span.start);
        let prev_end = trailing_end(m.comments@, decls[i].span.end, next_start as int);
        fix_if_changed(file, src, prev_end as int, next_start as int, without_blank_lines(src, m.comments@, prev_end as int, next_start as int))
    }
}

/// The fixes of the first `k` gaps of a block where blank lines are forbidden.
pub open spec fn never_fixes(file: Seq<char>, m: ModuleSyntax, src: Seq<u8>, decls: Seq<ExportDeclaration>, k: int) -> Seq<FixView>
    decreases k,
{
    if k <= 0 {
        Seq::empty()
    } else {
        never_fixes(file, m, src, decls, k - 1) + opt_fix(never_pair_fix(file, m, src, decls, k - 1))
    }
}

/// The gap fixes of each of `blocks`, one block after another.
pub open spec fn never_blocks_fixes(file: Seq<char>, m: ModuleSyntax, src: Seq<u8>, blocks: Seq<StatementBlock>) -> Seq<FixView>
    decreases blocks.len(),
{
    if blocks.len() == 0 {
        Seq::empty()
    } else {
        let b = blocks.last();
        never_blocks_fixes(file, m, src, blocks.drop_last()) + never_fixes(file, m, src, block_decls(m.body@, b), b.hi - b.lo - 1)
    }
}

/// The fixes of each of `blocks` under configured groups.
pub open spec fn grouped_blocks_fixes(file: Seq<char>, m: ModuleSyntax, src: Seq<u8>, config: SortExportsRuleConfig, blocks: Seq<StatementBlock>) -> Seq<FixView>
    decreases blocks.len(),
{
    if blocks.len() == 0 {
        Seq::empty()
    } else {
        grouped_blocks_fixes(file, m, src, config, blocks.drop_last()) + opt_fix(grouped_fix(file, m, src, blocks.last(), config))
    }
}

/// The fixes of each of the blank-line separated `groups`.
pub open spec fn ungrouped_groups_fixes(file: Seq<char>, m: ModuleSyntax, src: Seq<u8>, groups: Seq<StatementBlock>) -> Seq<FixView>
    decreases groups.len(),
{
    if groups.len() == 0 {
        Seq::empty()
    } else {
        ungrouped_groups_fixes(file, m, src, groups.drop_last()) + opt_fix(ungrouped_fix(file, m, src, groups.last()))
    }
}

/// The fixes of `sort-imports` on a module: none where the rule is off; with configured
/// groups, the rewrite of each block in the expected order; else the rewrite of each
/// unsorted blank-line separated group, then, where blank lines are forbidden, each gap
/// between two imports of a block without its blank lines.
pub open spec fn sort_exports_fixes(file: Seq<char>, m: ModuleSyntax, src: Seq<u8>, config: SortExportsRuleConfig) -> Seq<FixView> {
    if config.severity == Severity::Off {
        Seq::empty()
    } else {
        let blocks = export_blocks(m, src.len() as int);
        if config.groups@.len() > 0 {
            grouped_blocks_fixes(file, m, src, config, blocks)
        } else {
            ungrouped_groups_fixes(file, m, src, export_groups(m, src)) + if config.newlines_between == NewlinesBetween::Never {
                never_blocks_fixes(file, m, src, blocks)
            } else {
                Seq::empty()
            }
        }
    }
}

/// The fix that replaces the bytes `[start, end)` with `replacement`, where that changes them.
fn changed_fix(file: &str, source: &str, start: usize, end: usize, replacement: String) -> (r: Option<Fix>)
    ensures
        match r {
            Some(f) => fix_if_changed(file@, source.spec_bytes(), start as int, end as int, replacement@) == Some(f@),
            None => fix_if_changed(file@, source.spec_bytes(), start as int, end as int, replacement@) is None,
        },
{
    let original = slice_of(source, start, end);
    if str_equal(replacement.as_str(), original) {
        None
    } else {
        Some(Fix::single(file, SORT_EXPORTS_RULE_ID, start, end, replacement))
    }
}

/// The fix of one blank-line separated group (see `ungrouped_fix`).
fn fix_group_ungrouped(file: &str, program: &ModuleSyntax, source: &str, group: StatementBlock) -> (r: Option<Fix>)
    requires
        block_ok(program.body@, group),
    ensures
        match r {
            Some(f) => ungrouped_fix(file@, *program, source.spec_bytes(), group) == Some(f@),
            None => ungrouped_fix(file@, *program, source.spec_bytes(), group) is None,
        },
{
    let ghost decls = block_decls(program.body@, group);
    let (_, keys) = kinds_and_keys(program, group);
    let n = group.hi - group.lo;
    proof {
        assert(key_views(keys@).len() == keys@.len());
    }
    let mut sorted = true;
    let mut i: usize = 0;
    while i + 1 < n
        invariant
            n == group.hi - group.lo,
            n >= 1,
            key_views(keys@) == decl_keys(decls),
            decls == block_decls(program.body@, group),
            keys@.len() == n,
            0 <= i < n,
            sorted == (forall|j: int| 0 <= j < i ==> char_seq_order(#[trigger] decl_keys(decls)[j], decl_keys(decls)[j + 1]) <= 0),
        decreases n - i,
    {
        let c = crate::order::compare_str(keys[i].as_str(), keys[i + 1].as_str());
        proof {
            assert(key_views(keys@)[i as int] == keys@[i as int]@);
            assert(key_views(keys@)[i + 1] == keys@[i + 1]@);
        }
        if c > 0 {
            sorted = false;
        }
        i += 1;
    }
    proof {
        assert(sorted == keys_sorted(decl_keys(decls)));
    }
    if sorted {
        return None;
    }
    let mut items: Vec<usize> = Vec::new();
    let mut t: usize = 0;
    while t < n
        invariant
            0 <= t <= n,
            keys@.len() == n,
            items@ == positions(t as int),
        decreases n - t,
    {
        items.push(t);
        t += 1;
        proof {
            assert(items@ =~= positions(t as int));
        }
    }
    let ordered = sort_by_keys(&items, &keys);
    let replacement = render_exports(source, program, group, &ordered, false, &Vec::new(), NewlinesBetween::Ignore);
    changed_fix(file, source, group.start, group.end, replacement)
}

/// The fix of one block under configured groups (see `grouped_fix`).
fn fix_block_grouped(file: &str, program: &ModuleSyntax, source: &str, block: StatementBlock, config: &SortExportsRuleConfig) -> (r: Option<Fix>)
    requires
        block_ok(program.body@, block),
    ensures
        match r {
            Some(f) => grouped_fix(file@, *program, source.spec_bytes(), block, *config) == Some(f@),
            None => grouped_fix(file@, *program, source.spec_bytes(), block, *config) is None,
        },
{
    let ghost decls = block_decls(program.body@, block);
    let n = block.hi - block.lo;
    let (classes, keys) = kinds_and_keys(program, block);
    proof {
        assert(key_views(keys@).len() == keys@.len());
        assert(decl_keys(decls).len() == n);
    }
    let ordered_buckets_v = build_group_order(&config.groups, &classes, &keys);
    let ghost buckets = ordered_buckets(group_lists(config.groups@), decl_classes(decls), decl_keys(decls));
    proof {
        assert(bucket_views(ordered_buckets_v@) =~= buckets);
    }
    let ordered = flatten_buckets(&ordered_buckets_v, n);
    let positions_v = bucket_positions_of(&ordered_buckets_v);
    let replacement = render_exports(source, program, block, &ordered, true, &positions_v, config.newlines_between);
    changed_fix(file, source, block.start, block.end, replacement)
}

/// The gap fixes of one block where blank lines are forbidden (see `never_fixes`).
fn fix_never_newlines(file: &str, program: &ModuleSyntax, source: &str, block: StatementBlock) -> (r: Vec<Fix>)
    requires
        block_ok(program.body@, block),
    ensures
        fix_views(r@) == never_fixes(file@, *program, source.spec_bytes(), block_decls(program.body@, block), block.hi - block.lo - 1),
{
    let ghost decls = block_decls(program.body@, block);
    let ghost src = source.spec_bytes();
    let n = block.hi - block.lo;
    let mut fixes: Vec<Fix> = Vec::new();
    let mut i: usize = 0;
    while i + 1 < n
        invariant
            block_ok(program.body@, block),
            decls == block_decls(program.body@, block),
            src == source.spec_bytes(),
            n == block.hi - block.lo,
            n >= 1,
            0 <= i < n,
            fix_views(fixes@) == never_fixes(file@, *program, src, decls, i as int),
        decreases n - i,
    {
        let a = block_decl(program, block, i);
        let b = block_decl(program, block, i + 1);
        let ghost before = fixes@;
        if has_blank_line_between(source, a.span.end as usize, b.span.start as usize) {
            let next_start = leading_trivia_start(program, b.span.start);
            let previous_end = trailing_trivia_end(program, a.span.end, next_start as usize);
            let replacement = remove_blank_lines(source, program, previous_end as usize, next_start as usize);
            match changed_fix(file, source, previous_end as usize, next_start as usize, replacement) {
                Some(f) => {
                    fixes.push(f);
                    proof {
                        assert(fix_views(fixes@) =~= fix_views(before).push(f@));
                    }
                },
                None => {},
            }
        }
        proof {
            assert(fix_views(fixes@) =~= never_fixes(file@, *program, src, decls, i as int + 1));
        }
        i += 1;
    }
    fixes
}

/// The fixes of `sort-imports` on one module (see `sort_exports_fixes`).
pub fn fix_file(file: &str, program: &ModuleSyntax, source: &str, config: &SortExportsRuleConfig) -> (r: Vec<Fix>)
    ensures
        fix_views(r@) == sort_exports_fixes(file@, *program, source.spec_bytes(), *config),
{
    let ghost src = source.spec_bytes();
    let ghost m = *program;
    if !config.severity.is_enabled() {
        proof {
            assert(fix_views(Seq::<Fix>::empty()) =~= Seq::<FixView>::empty());
        }
        return Vec::new();
    }
    let blocks = find_contiguous_export_blocks(program, source);
    let groups = find_export_groups(program, source);
    let mut fixes: Vec<Fix> = Vec::new();
    if config.groups.len() > 0 {
        let nb = blocks.len();
        let mut i: usize = 0;
        while i < nb
            invariant
                nb == blocks@.len(),
                src == source.spec_bytes(),
                m == *program,
                forall|k: int| 0 <= k < blocks@.len() ==> block_ok(program.body@, #[trigger] blocks@[k]),
                0 <= i <= nb,
                fix_views(fixes@) == grouped_blocks_fixes(file@, m, src, *config, blocks@.take(i as int)),
            decreases nb - i,
        {
            proof {
                assert(blocks@.take(i as int + 1).drop_last() =~= blocks@.take(i as int));
            }
            let ghost before = fixes@;
            match fix_block_grouped(file, program, source, blocks[i], config) {
                Some(f) => {
                    fixes.push(f);
                    proof {
                        assert(fix_views(fixes@) =~= fix_views(before).push(f@));
                    }
                },
                None => {},
            }
            proof {
                assert(fix_views(fixes@) =~= grouped_blocks_fixes(file@, m, src, *config, blocks@.take(i as int + 1)));
            }
            i += 1;
        }
        proof {
            assert(blocks@.take(nb as int) =~= blocks@);
        }
        return fixes;
    }
    let ng = groups.len();
    let mut i: usize = 0;
    while i < ng
        invariant
            ng == groups@.len(),
            src == source.spec_bytes(),
            m == *program,
            forall|k: int| 0 <= k < groups@.len() ==> block_ok(program.body@, #[trigger] groups@[k]),
            0 <= i <= ng,
            fix_views(fixes@) == ungrouped_groups_fixes(file@, m, src, groups@.take(i as int)),
        decreases ng - i,
    {
        proof {
            assert(groups@.take(i as int + 1).drop_last() =~= groups@.take(i as int));
        }
        let ghost before = fixes@;
        match fix_group_ungrouped(file, program, source, groups[i]) {
            Some(f) => {
                fixes.push(f);
                proof {
                    assert(fix_views(fixes@) =~= fix_views(before).push(f@));
                }
            },
            None => {},
        }
        proof {
            assert(fix_views(fixes@) =~= ungrouped_groups_fixes(file@, m, src, groups@.take(i as int + 1)));
        }
        i += 1;
    }
    proof {
        assert(groups@.take(ng as int) =~= groups@);
    }
    let ghost head = fix_views(fixes@);
    if config.newlines_between == NewlinesBetween::Never {
        let nb = blocks.len();
        let mut j: usize = 0;
        while j < nb
            invariant
                nb == blocks@.len(),
                src == source.spec_bytes(),
                m == *program,
                forall|k: int| 0 <= k < blocks@.len() ==> block_ok(program.body@, #[trigger] blocks@[k]),
                0 <= j <= nb,
                fix_views(fixes@) == head + never_blocks_fixes(file@, m, src, blocks@.take(j as int)),
            decreases nb - j,
        {
            proof {
                assert(blocks@.take(j as int + 1).drop_last() =~= blocks@.take(j as int));
            }
            let ghost before = fixes@;
            let mut part = fix_never_newlines(file, program, source, blocks[j]);
            let ghost part_v = part@;
            fixes.append(&mut part);
            proof {
                lemma_fix_views_append(before, part_v);
            }
            j += 1;
        }
        proof {
            assert(blocks@.take(nb as int) =~= blocks@);
        }
    } else {
        proof {
            assert(fix_views(fixes@) =~= head + Seq::<FixView>::empty());
        }
    }
    fixes
}

} // verus!
