//! `sort-imports`: import declarations are sorted by module specifier, case-insensitively,
//! within each run of imports that blank lines separate, or by configured groups of specifier
//! kinds; the configured blank-line policy holds between groups.

use vstd::prelude::*;
use vstd::string::StringSliceAdditionalSpecFns;
use vstd::utf8::{decode_utf8, encode_utf8, is_char_boundary, length_of_first_scalar, pop_first_scalar, valid_utf8};
use crate::config::{ImportGroup, NewlinesBetween, Severity, SortImportsRuleConfig};
use crate::chars::{copy_string, push_str, string_of, chars_equal, chars_of, ends_with, starts_with, str_ends_with, str_equal, str_starts_with, string_from_chars};
use crate::rules::imports::no_upward_import::{allow_outcome, patterns_match};
use crate::order::char_seq_order;
use crate::rules::{fix_views, views, Fix, FixView, TextEditView, Violation, ViolationView, SORT_IMPORTS_RULE_ID};
use crate::syntax::{span_position, LineIndex, Span};
use crate::program::{Comment, CommentPosition, ImportDeclaration, ModuleItem, ModuleSyntax};

verus! {

pub const SORT_IMPORTS_MESSAGE: &'static str = "Import declarations should be sorted by module specifier.";
pub const NEWLINE_MESSAGE: &'static str = "Import declarations should not be separated by a blank line.";
pub const ALWAYS_NEWLINE_MESSAGE: &'static str = "Import groups should be separated by a blank line.";

// ----------------------------------------------------------------------------------------------
// Blank lines between two offsets

/// Where the scan of a gap between two statements stands.
#[derive(Clone, Copy, Debug, PartialEq, Eq, Structural)]
pub enum GapMode {
    Code,
    LineComment,
    BlockComment,
}

/// ASCII whitespace: space, tab, line feed, form feed, carriage return.
pub open spec fn is_ascii_space(b: u8) -> bool {
    b == 32u8 || b == 9u8 || b == 10u8 || b == 12u8 || b == 13u8
}

/// Whether, reading `b` from index `i` on, a line break follows an earlier line break with
/// nothing but whitespace between them; comments count as content, and a line comment ends
/// at its line break.
pub open spec fn blank_scan(b: Seq<u8>, i: int, saw_break: bool, has_content: bool, mode: GapMode) -> bool
    decreases b.len() - i,
{
    if i < 0 || i >= b.len() {
        false
    } else {
        let byte = b[i];
        let next_slash = i + 1 < b.len() && b[i + 1] == 47u8;
        let next_star = i + 1 < b.len() && b[i + 1] == 42u8;
        match mode {
            GapMode::LineComment => {
                if byte == 10u8 {
                    if saw_break && !has_content {
                        true
                    } else {
                        blank_scan(b, i + 1, true, false, GapMode::Code)
                    }
                } else {
                    blank_scan(b, i + 1, saw_break, true, GapMode::LineComment)
                }
            },
            GapMode::BlockComment => {
                let saw = saw_break || byte == 10u8;
                let content = byte != 10u8;
                if byte == 42u8 && next_slash {
                    blank_scan(b, i + 2, saw, content, GapMode::Code)
                } else {
                    blank_scan(b, i + 1, saw, content, GapMode::BlockComment)
                }
            },
            GapMode::Code => {
                if byte == 47u8 && next_slash {
                    blank_scan(b, i + 2, saw_break, true, GapMode::LineComment)
                } else if byte == 47u8 && next_star {
                    blank_scan(b, i + 2, saw_break, true, GapMode::BlockComment)
                } else if byte == 10u8 {
                    if saw_break && !has_content {
                        true
                    } else {
                        blank_scan(b, i + 1, true, false, GapMode::Code)
                    }
                } else if !is_ascii_space(byte) {
                    blank_scan(b, i + 1, saw_break, true, GapMode::Code)
                } else {
                    blank_scan(b, i + 1, saw_break, has_content, GapMode::Code)
                }
            },
        }
    }
}

/// The bytes `[start, end)` of `src` hold a blank line: a line between two line breaks with
/// only whitespace on it, outside comments. An empty or out-of-range gap holds none.
pub open spec fn blank_line_between(src: Seq<u8>, start: int, end: int) -> bool {
    &&& start < end
    &&& end <= src.len()
    &&& blank_scan(src.subrange(start, end), 0, false, false, GapMode::Code)
}

/// Whether the source bytes `[start, end)` hold a blank line (see `blank_line_between`).
pub fn has_blank_line_between(source: &str, start: usize, end: usize) -> (r: bool)
    ensures
        r == blank_line_between(source.spec_bytes(), start as int, end as int),
{
    let bytes = source.as_bytes();
    let n = bytes.len();
    if start >= end || end > n {
        return false;
    }
    let ghost sub = bytes@.subrange(start as int, end as int);
    let len = end - start;
    let mut saw_break = false;
    let mut has_content = false;
    let mut mode = GapMode::Code;
    let mut index: usize = 0;
    while index < len
        invariant
            n == bytes@.len(),
            bytes@ == source.spec_bytes(),
            start < end <= n,
            len == end - start,
            sub == bytes@.subrange(start as int, end as int),
            sub.len() == len,
            index <= len,
            blank_scan(sub, 0, false, false, GapMode::Code) == blank_scan(sub, index as int, saw_break, has_content, mode),
        decreases len - index,
    {
        let byte = bytes[start + index];
        let next_slash = index + 1 < len && bytes[start + index + 1] == 47u8;
        let next_star = index + 1 < len && bytes[start + index + 1] == 42u8;
        proof {
            assert(sub[index as int] == byte);
            assert(next_slash == (index + 1 < len && sub[index + 1] == 47u8));
            assert(next_star == (index + 1 < len && sub[index + 1] == 42u8));
        }
        match mode {
            GapMode::LineComment => {
                if byte == 10u8 {
                    if saw_break && !has_content {
                        return true;
                    }
                    saw_break = true;
                    has_content = false;
                    mode = GapMode::Code;
                } else {
                    has_content = true;
                }
                index += 1;
            },
            GapMode::BlockComment => {
                if byte == 10u8 {
                    saw_break = true;
                    has_content = false;
                } else {
                    has_content = true;
                }
                if byte == 42u8 && next_slash {
                    mode = GapMode::Code;
                    index += 2;
                } else {
                    index += 1;
                }
            },
            GapMode::Code => {
                if byte == 47u8 && next_slash {
                    has_content = true;
                    mode = GapMode::LineComment;
                    index += 2;
                } else if byte == 47u8 && next_star {
                    has_content = true;
                    mode = GapMode::BlockComment;
                    index += 2;
                } else if byte == 10u8 {
                    if saw_break && !has_content {
                        return true;
                    }
                    saw_break = true;
                    has_content = false;
                    index += 1;
                } else {
                    if !(byte == 32u8 || byte == 9u8 || byte == 10u8 || byte == 12u8 || byte == 13u8) {
                        has_content = true;
                    }
                    index += 1;
                }
            },
        }
    }
    false
}

// ----------------------------------------------------------------------------------------------
// Comments around statements

/// The least start of the leading comments attached at `at`, if there is one.
pub open spec fn leading_min(comments: Seq<Comment>, at: u32) -> Option<u32>
    decreases comments.len(),
{
    if comments.len() == 0 {
        None
    } else {
        let rest = leading_min(comments.drop_last(), at);
        let c = comments.last();
        if c.position == CommentPosition::Leading && c.attached_to == at {
            match rest {
                Some(m) => Some(if c.span.start < m { c.span.start } else { m }),
                None => Some(c.span.start),
            }
        } else {
            rest
        }
    }
}

/// Where a statement that starts at `at` starts together with its leading comments.
pub open spec fn leading_start(comments: Seq<Comment>, at: u32) -> u32 {
    match leading_min(comments, at) {
        Some(m) => m,
        None => at,
    }
}

/// The greatest end of the trailing comments that start at or after `end` and end by `upper`,
/// if there is one.
pub open spec fn trailing_max(comments: Seq<Comment>, end: u32, upper: int) -> Option<u32>
    decreases comments.len(),
{
    if comments.len() == 0 {
        None
    } else {
        let rest = trailing_max(comments.drop_last(), end, upper);
        let c = comments.last();
        if c.position == CommentPosition::Trailing && c.span.start >= end && c.span.end <= upper {
            match rest {
                Some(m) => Some(if c.span.end > m { c.span.end } else { m }),
                None => Some(c.span.end),
            }
        } else {
            rest
        }
    }
}

/// Where a statement that ends at `end` ends together with its trailing comments that end by
/// `upper`.
pub open spec fn trailing_end(comments: Seq<Comment>, end: u32, upper: int) -> u32 {
    match trailing_max(comments, end, upper) {
        Some(m) => m,
        None => end,
    }
}

/// The start of a statement together with its leading comments.
pub(crate) fn leading_trivia_start(program: &ModuleSyntax, statement_start: u32) -> (r: u32)
    ensures
        r == leading_start(program.comments@, statement_start),
{
    let comments = &program.comments;
    let n = comments.len();
    let mut best: Option<u32> = None;
    let mut i: usize = 0;
    while i < n
        invariant
            n == comments@.len(),
            0 <= i <= n,
            best == leading_min(comments@.take(i as int), statement_start),
        decreases n - i,
    {
        proof {
            assert(comments@.take(i as int + 1).drop_last() =~= comments@.take(i as int));
        }
        let c = comments[i];
        if c.position == CommentPosition::Leading && c.attached_to == statement_start {
            best = match best {
                Some(m) => Some(if c.span.start < m { c.span.start } else { m }),
                None => Some(c.span.start),
            };
        }
        i += 1;
    }
    proof {
        assert(comments@.take(n as int) =~= comments@);
    }
    match best {
        Some(m) => m,
        None => statement_start,
    }
}

/// The end of a statement together with its trailing comments that end by `upper_bound`.
pub(crate) fn trailing_trivia_end(program: &ModuleSyntax, statement_end: u32, upper_bound: usize) -> (r: u32)
    ensures
        r == trailing_end(program.comments@, statement_end, upper_bound as int),
{
    let comments = &program.comments;
    let n = comments.len();
    let mut best: Option<u32> = None;
    let mut i: usize = 0;
    while i < n
        invariant
            n == comments@.len(),
            0 <= i <= n,
            best == trailing_max(comments@.take(i as int), statement_end, upper_bound as int),
        decreases n - i,
    {
        proof {
            assert(comments@.take(i as int + 1).drop_last() =~= comments@.take(i as int));
        }
        let c = comments[i];
        if c.position == CommentPosition::Trailing && c.span.start >= statement_end && (c.span.end as usize) <= upper_bound {
            best = match best {
                Some(m) => Some(if c.span.end > m { c.span.end } else { m }),
                None => Some(c.span.end),
            };
        }
        i += 1;
    }
    proof {
        assert(comments@.take(n as int) =~= comments@);
    }
    match best {
        Some(m) => m,
        None => statement_end,
    }
}

// ----------------------------------------------------------------------------------------------
// Runs of imports, and the groups that blank lines split them into

/// A run of declarations: the statements `[lo, hi)` of the module, and the byte range
/// `[start, end)` that they and their comments cover.
#[derive(Clone, Copy, Debug)]
pub struct StatementBlock {
    pub lo: usize,
    pub hi: usize,
    pub start: usize,
    pub end: usize,
}

/// Where a statement starts.
pub open spec fn item_start(item: ModuleItem) -> u32 {
    match item {
        ModuleItem::Import(d) => d.span.start,
        ModuleItem::Export(d) => d.span.start,
        ModuleItem::Other(s) => s.start,
    }
}

/// The import declaration at statement `i`.
pub open spec fn import_at(body: Seq<ModuleItem>, i: int) -> ImportDeclaration {
    body[i]->Import_0
}

/// The maximal runs `[lo, hi)` of consecutive import declarations among the first `n`
/// statements, in order.
pub open spec fn import_runs(body: Seq<ModuleItem>, n: int) -> Seq<(int, int)>
    decreases n,
{
    if n <= 0 {
        Seq::empty()
    } else {
        let prev = import_runs(body, n - 1);
        if body[n - 1] is Import {
            if n >= 2 && body[n - 2] is Import && prev.len() > 0 {
                prev.update(prev.len() - 1, (prev.last().0, n))
            } else {
                prev.push((n - 1, n))
            }
        } else {
            prev
        }
    }
}

/// The block of the run `[lo, hi)`: from the leading comments of its first declaration to the
/// trailing comments of its last one that end before the next statement (or the end of the
/// source).
pub open spec fn block_of(m: ModuleSyntax, src_len: int, run: (int, int)) -> StatementBlock {
    let upper = if run.1 < m.body@.len() { item_start(m.body@[run.1]) as int } else { src_len };
    StatementBlock {
        lo: run.0 as usize,
        hi: run.1 as usize,
        start: leading_start(m.comments@, import_at(m.body@, run.0).span.start) as usize,
        end: trailing_end(m.comments@, import_at(m.body@, run.1 - 1).span.end, upper) as usize,
    }
}

/// The blocks of the maximal runs of imports of a module.
pub open spec fn import_blocks(m: ModuleSyntax, src_len: int) -> Seq<StatementBlock> {
    import_runs(m.body@, m.body@.len() as int).map_values(|r: (int, int)| block_of(m, src_len, r))
}

/// `b` covers a nonempty range of statements that are all import declarations.
pub open spec fn block_ok(body: Seq<ModuleItem>, b: StatementBlock) -> bool {
    &&& b.lo < b.hi <= body.len()
    &&& forall|t: int| b.lo <= t < b.hi ==> (#[trigger] body[t]) is Import
}

/// The import declaration at statement `i`.
fn import_decl(body: &Vec<ModuleItem>, i: usize) -> (d: &ImportDeclaration)
    requires
        i < body@.len(),
        body@[i as int] is Import,
    ensures
        *d == import_at(body@, i as int),
{
    match &body[i] {
        ModuleItem::Import(d) => d,
        _ => vstd::pervasive::unreached(),
    }
}

/// Where statement `i` starts.
pub(crate) fn statement_start(body: &Vec<ModuleItem>, i: usize) -> (r: u32)
    requires
        i < body@.len(),
    ensures
        r == item_start(body@[i as int]),
{
    match &body[i] {
        ModuleItem::Import(d) => d.span.start,
        ModuleItem::Export(d) => d.span.start,
        ModuleItem::Other(s) => s.start,
    }
}

proof fn lemma_runs_extend(body: Seq<ModuleItem>, n: int)
    requires
        1 <= n,
        body[n - 1] is Import,
        n >= 2 && body[n - 2] is Import,
        import_runs(body, n - 1).len() > 0,
    ensures
        import_runs(body, n) == import_runs(body, n - 1).update(import_runs(body, n - 1).len() - 1, (import_runs(body, n - 1).last().0, n)),
{
}

fn make_block(program: &ModuleSyntax, lo: usize, hi: usize, upper: usize) -> (r: StatementBlock)
    requires
        lo < hi <= program.body@.len(),
        program.body@[lo as int] is Import,
        program.body@[hi - 1] is Import,
    ensures
        r == (StatementBlock {
            lo,
            hi,
            start: leading_start(program.comments@, import_at(program.body@, lo as int).span.start) as usize,
            end: trailing_end(program.comments@, import_at(program.body@, hi - 1).span.end, upper as int) as usize,
        }),
{
    let first = import_decl(&program.body, lo);
    let last = import_decl(&program.body, hi - 1);
    let start = leading_trivia_start(program, first.span.start);
    let end = trailing_trivia_end(program, last.span.end, upper);
    StatementBlock { lo, hi, start: start as usize, end: end as usize }
}

/// The blocks of the maximal runs of import declarations, in order.
fn find_contiguous_import_blocks(program: &ModuleSyntax, source: &str) -> (r: Vec<StatementBlock>)
    ensures
        r@ == import_blocks(*program, source.spec_bytes().len() as int),
        forall|k: int| 0 <= k < r@.len() ==> block_ok(program.body@, #[trigger] r@[k]),
{
    let body = &program.body;
    let n = body.len();
    let ghost src_len = source.spec_bytes().len() as int;
    let ghost m = *program;
    let mut blocks: Vec<StatementBlock> = Vec::new();
    let mut open: Option<usize> = None;
    let mut i: usize = 0;
    while i < n
        invariant
            n == body@.len(),
            body@ == m.body@,
            m == *program,
            src_len == source.spec_bytes().len() as int,
            0 <= i <= n,
            forall|k: int| 0 <= k < blocks@.len() ==> block_ok(body@, #[trigger] blocks@[k]),
            match open {
                Some(lo) => {
                    &&& lo < i
                    &&& import_runs(body@, i as int).len() > 0
                    &&& import_runs(body@, i as int).last() == (lo as int, i as int)
                    &&& forall|t: int| lo <= t < i ==> (#[trigger] body@[t]) is Import
                    &&& blocks@ == import_runs(body@, i as int).drop_last().map_values(|r: (int, int)| block_of(m, src_len, r))
                },
                None => {
                    &&& blocks@ == import_runs(body@, i as int).map_values(|r: (int, int)| block_of(m, src_len, r))
                    &&& (i > 0 ==> !(body@[i - 1] is Import))
                },
            },
        decreases n - i,
    {
        let is_import = match &body[i] {
            ModuleItem::Import(_) => true,
            _ => false,
        };
        let ghost runs = import_runs(body@, i as int);
        if is_import {
            match open {
                Some(lo) => {
                    proof {
                        lemma_runs_extend(body@, i as int + 1);
                        let next = import_runs(body@, i as int + 1);
                        assert(next.drop_last() =~= runs.drop_last());
                    }
                },
                None => {
                    proof {
                        let next = import_runs(body@, i as int + 1);
                        assert(next =~= runs.push((i as int, i as int + 1)));
                        assert(next.drop_last() =~= runs);
                    }
                    open = Some(i);
                },
            }
        } else {
            match open {
                Some(lo) => {
                    let upper = statement_start(body, i) as usize;
                    let block = make_block(program, lo, i, upper);
                    proof {
                        assert(block == block_of(m, src_len, (lo as int, i as int)));
                        assert(import_runs(body@, i as int + 1) == runs);
                        assert(runs =~= runs.drop_last().push(runs.last()));
                    }
                    blocks.push(block);
                    proof {
                        assert(blocks@ =~= runs.map_values(|r: (int, int)| block_of(m, src_len, r)));
                    }
                    open = None;
                },
                None => {
                    proof {
                        assert(import_runs(body@, i as int + 1) == runs);
                    }
                },
            }
        }
        i += 1;
    }
    match open {
        Some(lo) => {
            let upper = source.as_bytes().len();
            let block = make_block(program, lo, n, upper);
            let ghost runs = import_runs(body@, n as int);
            proof {
                assert(block == block_of(m, src_len, (lo as int, n as int)));
                assert(runs =~= runs.drop_last().push(runs.last()));
            }
            blocks.push(block);
            proof {
                assert(blocks@ =~= runs.map_values(|r: (int, int)| block_of(m, src_len, r)));
            }
        },
        None => {},
    }
    blocks
}

/// The groups of block `b` after reading its declarations up to statement `j`: the groups
/// closed so far, and the first statement and start offset of the open one. A blank line
/// between two declarations closes the group before the second.
pub open spec fn group_scan(m: ModuleSyntax, src: Seq<u8>, b: StatementBlock, j: int) -> (Seq<StatementBlock>, int, int)
    decreases j - b.lo,
{
    if j <= b.lo + 1 {
        (Seq::empty(), b.lo as int, b.start as int)
    } else {
        let (done, g_lo, g_start) = group_scan(m, src, b, j - 1);
        let prev = import_at(m.body@, j - 2);
        let decl = import_at(m.body@, j - 1);
        if blank_line_between(src, prev.span.end as int, decl.span.start as int) {
            let decl_start = leading_start(m.comments@, decl.span.start);
            (
                done.push(StatementBlock {
                    lo: g_lo as usize,
                    hi: (j - 1) as usize,
                    start: g_start as usize,
                    end: trailing_end(m.comments@, prev.span.end, decl_start as int) as usize,
                }),
                j - 1,
                decl_start as int,
            )
        } else {
            (done, g_lo, g_start)
        }
    }
}

/// The groups that blank lines split block `b` into, in order.
pub open spec fn block_groups(m: ModuleSyntax, src: Seq<u8>, b: StatementBlock) -> Seq<StatementBlock> {
    let (done, g_lo, g_start) = group_scan(m, src, b, b.hi as int);
    done.push(StatementBlock {
        lo: g_lo as usize,
        hi: b.hi,
        start: g_start as usize,
        end: trailing_end(m.comments@, import_at(m.body@, b.hi - 1).span.end, b.end as int) as usize,
    })
}

/// The groups of each of `blocks`, one after another.
pub open spec fn groups_of_blocks(m: ModuleSyntax, src: Seq<u8>, blocks: Seq<StatementBlock>) -> Seq<StatementBlock>
    decreases blocks.len(),
{
    if blocks.len() == 0 {
        Seq::empty()
    } else {
        groups_of_blocks(m, src, blocks.drop_last()) + block_groups(m, src, blocks.last())
    }
}

/// The blank-line separated groups of import declarations of a module, in order.
pub open spec fn import_groups(m: ModuleSyntax, src: Seq<u8>) -> Seq<StatementBlock> {
    groups_of_blocks(m, src, import_blocks(m, src.len() as int))
}

/// The groups that blank lines split one block into.
fn split_block(program: &ModuleSyntax, source: &str, block: StatementBlock) -> (r: Vec<StatementBlock>)
    requires
        block_ok(program.body@, block),
    ensures
        r@ == block_groups(*program, source.spec_bytes(), block),
        forall|k: int| 0 <= k < r@.len() ==> block_ok(program.body@, #[trigger] r@[k]),
{
    let ghost m = *program;
    let ghost src = source.spec_bytes();
    let body = &program.body;
    let mut groups: Vec<StatementBlock> = Vec::new();
    let mut g_lo = block.lo;
    let mut g_start = block.start;
    let mut j = block.lo + 1;
    while j < block.hi
        invariant
            m == *program,
            src == source.spec_bytes(),
            body@ == program.body@,
            block_ok(body@, block),
            block.lo < j <= block.hi,
            block.lo <= g_lo < j,
            group_scan(m, src, block, j as int) == (groups@, g_lo as int, g_start as int),
            forall|k: int| 0 <= k < groups@.len() ==> block_ok(body@, #[trigger] groups@[k]),
        decreases block.hi - j,
    {
        let prev = import_decl(body, j - 1);
        let decl = import_decl(body, j);
        let decl_start = leading_trivia_start(program, decl.span.start);
        if has_blank_line_between(source, prev.span.end as usize, decl.span.start as usize) {
            let end = trailing_trivia_end(program, prev.span.end, decl_start as usize);
            groups.push(StatementBlock { lo: g_lo, hi: j, start: g_start, end: end as usize });
            g_lo = j;
            g_start = decl_start as usize;
        }
        j += 1;
    }
    let last = import_decl(body, block.hi - 1);
    let end = trailing_trivia_end(program, last.span.end, block.end);
    groups.push(StatementBlock { lo: g_lo, hi: block.hi, start: g_start, end: end as usize });
    groups
}

/// The blank-line separated groups of import declarations, in order.
fn find_import_groups(program: &ModuleSyntax, source: &str) -> (r: Vec<StatementBlock>)
    ensures
        r@ == import_groups(*program, source.spec_bytes()),
        forall|k: int| 0 <= k < r@.len() ==> block_ok(program.body@, #[trigger] r@[k]),
{
    let ghost m = *program;
    let ghost src = source.spec_bytes();
    let blocks = find_contiguous_import_blocks(program, source);
    let n = blocks.len();
    let mut groups: Vec<StatementBlock> = Vec::new();
    let mut i: usize = 0;
    while i < n
        invariant
            m == *program,
            src == source.spec_bytes(),
            n == blocks@.len(),
            0 <= i <= n,
            forall|k: int| 0 <= k < blocks@.len() ==> block_ok(program.body@, #[trigger] blocks@[k]),
            groups@ == groups_of_blocks(m, src, blocks@.take(i as int)),
            forall|k: int| 0 <= k < groups@.len() ==> block_ok(program.body@, #[trigger] groups@[k]),
        decreases n - i,
    {
        proof {
            assert(blocks@.take(i as int + 1).drop_last() =~= blocks@.take(i as int));
        }
        let mut part = split_block(program, source, blocks[i]);
        let ghost old_groups = groups@;
        let ghost part_v = part@;
        groups.append(&mut part);
        proof {
            assert forall|k: int| 0 <= k < groups@.len() implies block_ok(program.body@, #[trigger] groups@[k]) by {
                if k >= old_groups.len() {
                    assert(groups@[k] == part_v[k - old_groups.len()]);
                }
            }
        }
        i += 1;
    }
    proof {
        assert(blocks@.take(n as int) =~= blocks@);
    }
    groups
}

// ----------------------------------------------------------------------------------------------
// Kinds of module specifier

/// `s` names a module that Node.js provides.
pub open spec fn builtin_module(s: Seq<char>) -> bool {
    s == "assert"@
    || s == "buffer"@
    || s == "child_process"@
    || s == "cluster"@
    || s == "console"@
    || s == "constants"@
    || s == "crypto"@
    || s == "dgram"@
    || s == "dns"@
    || s == "domain"@
    || s == "events"@
    || s == "fs"@
    || s == "http"@
    || s == "https"@
    || s == "module"@
    || s == "net"@
    || s == "os"@
    || s == "path"@
    || s == "process"@
    || s == "punycode"@
    || s == "querystring"@
    || s == "readline"@
    || s == "repl"@
    || s == "stream"@
    || s == "string_decoder"@
    || s == "timers"@
    || s == "tls"@
    || s == "tty"@
    || s == "url"@
    || s == "util"@
    || s == "v8"@
    || s == "vm"@
    || s == "zlib"@
}

/// Whether `s` names a module that Node.js provides.
fn is_builtin_module(s: &str) -> (r: bool)
    ensures
        r == builtin_module(s@),
{
    str_equal(s, "assert")
        || str_equal(s, "buffer")
        || str_equal(s, "child_process")
        || str_equal(s, "cluster")
        || str_equal(s, "console")
        || str_equal(s, "constants")
        || str_equal(s, "crypto")
        || str_equal(s, "dgram")
        || str_equal(s, "dns")
        || str_equal(s, "domain")
        || str_equal(s, "events")
        || str_equal(s, "fs")
        || str_equal(s, "http")
        || str_equal(s, "https")
        || str_equal(s, "module")
        || str_equal(s, "net")
        || str_equal(s, "os")
        || str_equal(s, "path")
        || str_equal(s, "process")
        || str_equal(s, "punycode")
        || str_equal(s, "querystring")
        || str_equal(s, "readline")
        || str_equal(s, "repl")
        || str_equal(s, "stream")
        || str_equal(s, "string_decoder")
        || str_equal(s, "timers")
        || str_equal(s, "tls")
        || str_equal(s, "tty")
        || str_equal(s, "url")
        || str_equal(s, "util")
        || str_equal(s, "v8")
        || str_equal(s, "vm")
        || str_equal(s, "zlib")
}

/// `s` starts with `node:`.
pub open spec fn node_prefixed(s: Seq<char>) -> bool {
    s.len() >= 5 && s[0] == 'n' && s[1] == 'o' && s[2] == 'd' && s[3] == 'e' && s[4] == ':'
}

/// The segments of `s` between slashes, the empty ones included, as they are read: the
/// segments closed so far and the one being read.
pub open spec fn slash_scan(s: Seq<char>) -> (Seq<Seq<char>>, Seq<char>)
    decreases s.len(),
{
    if s.len() == 0 {
        (Seq::empty(), Seq::empty())
    } else {
        let (done, cur) = slash_scan(s.drop_last());
        if s.last() == '/' {
            (done.push(cur), Seq::empty())
        } else {
            (done, cur.push(s.last()))
        }
    }
}

/// `s` split at every slash, the empty segments included.
pub open spec fn slash_split(s: Seq<char>) -> Seq<Seq<char>> {
    let (done, cur) = slash_scan(s);
    done.push(cur)
}

/// A relative specifier that names an index module: it ends with `/index`, or (without its
/// leading `./`) its last two slash-separated segments are equal.
pub open spec fn index_like(s: Seq<char>) -> bool {
    let body = if s.len() >= 2 && s[0] == '.' && s[1] == '/' { s.skip(2) } else { s };
    let segs = slash_split(body);
    ends_with(s, "/index"@) || (segs.len() >= 2 && segs[segs.len() - 1] == segs[segs.len() - 2])
}

/// The kind of module specifier `s`, where `internal` tells whether an internal pattern
/// matches it.
pub open spec fn classify(s: Seq<char>, internal: bool) -> ImportGroup {
    if (node_prefixed(s) && builtin_module(s.skip(5))) || builtin_module(s) {
        ImportGroup::Builtin
    } else if internal {
        ImportGroup::Internal
    } else if starts_with(s, "../"@) {
        ImportGroup::Parent
    } else if starts_with(s, "./"@) {
        if index_like(s) { ImportGroup::Index } else { ImportGroup::Sibling }
    } else {
        ImportGroup::External
    }
}

/// Some of the internal globs `patterns` is given, all are valid globs, and one matches `s`.
pub open spec fn internal_match(patterns: Seq<String>, s: Seq<char>) -> bool {
    patterns.len() > 0 && allow_outcome(patterns, s) == Some(true)
}

/// The kind of the specifier `s` under the internal globs `patterns`.
pub open spec fn specifier_group(s: Seq<char>, patterns: Seq<String>) -> ImportGroup {
    classify(s, internal_match(patterns, s))
}

/// Whether the specifier names an index module (see `index_like`).
pub(crate) fn is_index_like(specifier: &str) -> (r: bool)
    ensures
        r == index_like(specifier@),
{
    let ends_index = str_ends_with(specifier, "/index");
    let chars = chars_of(specifier);
    let n = chars.len();
    let from: usize = if n >= 2 && chars[0] == '.' && chars[1] == '/' { 2 } else { 0 };
    let ghost body = chars@.subrange(from as int, n as int);
    proof {
        let s = specifier@;
        let b = if s.len() >= 2 && s[0] == '.' && s[1] == '/' { s.skip(2) } else { s };
        assert(b =~= body);
        assert(chars@.subrange(from as int, from as int) =~= Seq::<char>::empty());
    }
    let mut prev: Option<Vec<char>> = None;
    let mut cur: Vec<char> = Vec::new();
    let mut i = from;
    while i < n
        invariant
            n == chars@.len(),
            from <= i <= n,
            ({
                let (done, c) = slash_scan(chars@.subrange(from as int, i as int));
                &&& c == cur@
                &&& (done.len() > 0) == (prev is Some)
                &&& (prev matches Some(p) ==> p@ == done.last())
            }),
        decreases n - i,
    {
        proof {
            assert(chars@.subrange(from as int, i as int + 1).drop_last() =~= chars@.subrange(from as int, i as int));
        }
        let c = chars[i];
        if c == '/' {
            let closed = cur;
            prev = Some(closed);
            cur = Vec::new();
        } else {
            cur.push(c);
        }
        i += 1;
    }
    if ends_index {
        return true;
    }
    match prev {
        Some(p) => chars_equal(cur.as_slice(), p.as_slice()),
        None => false,
    }
}

/// The kind of module specifier `specifier` under the internal globs `patterns`.
pub fn classify_import(specifier: &str, patterns: &Vec<String>) -> (r: ImportGroup)
    ensures
        r == specifier_group(specifier@, patterns@),
{
    let chars = chars_of(specifier);
    let n = chars.len();
    if n >= 5 && chars[0] == 'n' && chars[1] == 'o' && chars[2] == 'd' && chars[3] == 'e' && chars[4] == ':' {
        let stripped = string_from_chars(chars.as_slice(), 5, n);
        proof {
            assert(stripped@ =~= specifier@.skip(5));
        }
        if is_builtin_module(stripped.as_str()) {
            return ImportGroup::Builtin;
        }
    }
    if is_builtin_module(specifier) {
        return ImportGroup::Builtin;
    }
    if patterns.len() > 0 {
        match patterns_match(patterns, specifier) {
            Some(true) => {
                return ImportGroup::Internal;
            },
            _ => {},
        }
    }
    if str_starts_with(specifier, "../") {
        ImportGroup::Parent
    } else if str_starts_with(specifier, "./") {
        if is_index_like(specifier) { ImportGroup::Index } else { ImportGroup::Sibling }
    } else {
        ImportGroup::External
    }
}

// ----------------------------------------------------------------------------------------------
// The expected order of a block under configured groups

/// The configured groups, as sequences of kinds.
pub open spec fn group_lists(config: Seq<Vec<ImportGroup>>) -> Seq<Seq<ImportGroup>> {
    config.map_values(|v: Vec<ImportGroup>| v@)
}

/// The first of the groups `seen`, from index `k` on, that holds kind `g`.
pub open spec fn first_bucket(seen: Seq<Seq<ImportGroup>>, g: ImportGroup, k: int) -> Option<int>
    decreases seen.len() - k,
{
    if k < 0 || k >= seen.len() {
        None
    } else if seen[k].contains(g) {
        Some(k)
    } else {
        first_bucket(seen, g, k + 1)
    }
}

/// The configured groups, followed by a group of its own for each kind among `gs` that no
/// earlier group holds, in the order the kinds first occur.
pub open spec fn seen_groups(config: Seq<Seq<ImportGroup>>, gs: Seq<ImportGroup>) -> Seq<Seq<ImportGroup>>
    decreases gs.len(),
{
    if gs.len() == 0 {
        config
    } else {
        let s = seen_groups(config, gs.drop_last());
        if first_bucket(s, gs.last(), 0) is Some {
            s
        } else {
            s.push(seq![gs.last()])
        }
    }
}

/// The indices `i < n` whose kind `gs[i]` falls in group `b`, in increasing order.
pub open spec fn bucket_members(gs: Seq<ImportGroup>, seen: Seq<Seq<ImportGroup>>, b: int, n: int) -> Seq<usize>
    decreases n,
{
    if n <= 0 {
        Seq::empty()
    } else {
        let prev = bucket_members(gs, seen, b, n - 1);
        if first_bucket(seen, gs[n - 1], 0) == Some(b) {
            prev.push((n - 1) as usize)
        } else {
            prev
        }
    }
}

/// Where `x`, with key `kx`, goes into `sorted`: after every leading element whose key is at
/// most `kx`.
pub open spec fn insert_pos(sorted: Seq<usize>, kx: Seq<char>, keys: Seq<Seq<char>>) -> int
    decreases sorted.len(),
{
    if sorted.len() == 0 {
        0
    } else if char_seq_order(keys[sorted[0] as int], kx) <= 0 {
        1 + insert_pos(sorted.drop_first(), kx, keys)
    } else {
        0
    }
}

/// `items` ordered by their keys, items with equal keys kept in their order.
pub open spec fn key_sort(items: Seq<usize>, keys: Seq<Seq<char>>) -> Seq<usize>
    decreases items.len(),
{
    if items.len() == 0 {
        Seq::empty()
    } else {
        let sorted = key_sort(items.drop_last(), keys);
        let x = items.last();
        sorted.insert(insert_pos(sorted, keys[x as int], keys), x)
    }
}

/// The declarations of a block by group: for each group of `seen_groups`, the indices of the
/// declarations whose kind falls in it, ordered by key.
pub open spec fn ordered_buckets(config: Seq<Seq<ImportGroup>>, gs: Seq<ImportGroup>, keys: Seq<Seq<char>>) -> Seq<Seq<usize>> {
    let seen = seen_groups(config, gs);
    Seq::new(seen.len(), |b: int| key_sort(bucket_members(gs, seen, b, gs.len() as int), keys))
}

/// The keys of a sequence of strings.
pub open spec fn key_views(keys: Seq<String>) -> Seq<Seq<char>> {
    keys.map_values(|k: String| k@)
}

/// The groups, as sequences of kinds.
pub open spec fn seen_views(seen: Seq<Vec<ImportGroup>>) -> Seq<Seq<ImportGroup>> {
    seen.map_values(|v: Vec<ImportGroup>| v@)
}

/// Whether `inner` holds kind `g`.
fn holds_group(inner: &Vec<ImportGroup>, g: ImportGroup) -> (r: bool)
    ensures
        r == inner@.contains(g),
{
    let n = inner.len();
    let mut i: usize = 0;
    while i < n
        invariant
            n == inner@.len(),
            0 <= i <= n,
            forall|t: int| 0 <= t < i ==> inner@[t] != g,
        decreases n - i,
    {
        if inner[i] == g {
            return true;
        }
        i += 1;
    }
    false
}

/// The first of the groups `seen` that holds kind `g`.
fn find_bucket(seen: &Vec<Vec<ImportGroup>>, g: ImportGroup) -> (r: Option<usize>)
    ensures
        match r {
            Some(k) => first_bucket(seen_views(seen@), g, 0) == Some(k as int),
            None => first_bucket(seen_views(seen@), g, 0) is None,
        },
{
    let ghost sv = seen_views(seen@);
    let n = seen.len();
    let mut k: usize = 0;
    while k < n
        invariant
            n == seen@.len(),
            sv == seen_views(seen@),
            sv.len() == n,
            0 <= k <= n,
            first_bucket(sv, g, 0) == first_bucket(sv, g, k as int),
        decreases n - k,
    {
        if holds_group(&seen[k], g) {
            return Some(k);
        }
        k += 1;
    }
    None
}

/// Sorts `items` by `keys`, keeping items with equal keys in their order.
pub(crate) fn sort_by_keys(items: &Vec<usize>, keys: &Vec<String>) -> (r: Vec<usize>)
    requires
        forall|t: int| 0 <= t < items@.len() ==> (#[trigger] items@[t]) < keys@.len(),
    ensures
        r@ == key_sort(items@, key_views(keys@)),
        forall|t: int| 0 <= t < r@.len() ==> (#[trigger] r@[t]) < keys@.len(),
{
    let ghost kv = key_views(keys@);
    let n = items.len();
    let mut out: Vec<usize> = Vec::new();
    let mut t: usize = 0;
    proof {
        assert(items@.take(0) =~= Seq::<usize>::empty());
    }
    while t < n
        invariant
            n == items@.len(),
            kv == key_views(keys@),
            forall|u: int| 0 <= u < items@.len() ==> (#[trigger] items@[u]) < keys@.len(),
            0 <= t <= n,
            out@ == key_sort(items@.take(t as int), kv),
            forall|u: int| 0 <= u < out@.len() ==> (#[trigger] out@[u]) < keys@.len(),
        decreases n - t,
    {
        let x = items[t];
        let m = out.len();
        let mut q: usize = 0;
        proof {
            assert(out@.skip(0) =~= out@);
        }
        while q < m && crate::order::compare_str(keys[out[q]].as_str(), keys[x].as_str()) <= 0
            invariant
                m == out@.len(),
                kv == key_views(keys@),
                x < keys@.len(),
                forall|u: int| 0 <= u < out@.len() ==> (#[trigger] out@[u]) < keys@.len(),
                0 <= q <= m,
                insert_pos(out@, kv[x as int], kv) == q + insert_pos(out@.skip(q as int), kv[x as int], kv),
            decreases m - q,
        {
            proof {
                assert(out@.skip(q as int).drop_first() =~= out@.skip(q as int + 1));
            }
            q += 1;
        }
        proof {
            if q < m {
                assert(out@.skip(q as int)[0] == out@[q as int]);
            } else {
                assert(out@.skip(q as int) =~= Seq::<usize>::empty());
            }
            assert(items@.take(t as int + 1).drop_last() =~= items@.take(t as int));
        }
        out.insert(q, x);
        t += 1;
    }
    proof {
        assert(items@.take(n as int) =~= items@);
    }
    out
}

/// A copy of a list of kinds.
fn copy_groups(v: &Vec<ImportGroup>) -> (r: Vec<ImportGroup>)
    ensures
        r@ == v@,
{
    let n = v.len();
    let mut out: Vec<ImportGroup> = Vec::new();
    let mut i: usize = 0;
    while i < n
        invariant
            n == v@.len(),
            0 <= i <= n,
            out@ == v@.take(i as int),
        decreases n - i,
    {
        out.push(v[i]);
        i += 1;
        proof {
            assert(out@ =~= v@.take(i as int));
        }
    }
    proof {
        assert(v@.take(n as int) =~= v@);
    }
    out
}

/// The groups of a block: the configured ones, then one for each kind that none holds.
fn build_seen_groups(config: &Vec<Vec<ImportGroup>>, classes: &Vec<ImportGroup>) -> (r: Vec<Vec<ImportGroup>>)
    ensures
        seen_views(r@) == seen_groups(group_lists(config@), classes@),
{
    let nc = config.len();
    let mut seen: Vec<Vec<ImportGroup>> = Vec::new();
    let mut i: usize = 0;
    while i < nc
        invariant
            nc == config@.len(),
            0 <= i <= nc,
            seen_views(seen@) == group_lists(config@.take(i as int)),
        decreases nc - i,
    {
        let copy = copy_groups(&config[i]);
        let ghost old_seen = seen@;
        proof {
            assert(seen_views(old_seen).len() == i);
        }
        seen.push(copy);
        proof {
            let target = group_lists(config@.take(i as int + 1));
            assert forall|k: int| 0 <= k < seen@.len() implies seen_views(seen@)[k] == target[k] by {
                if k < old_seen.len() {
                    assert(seen@[k] == old_seen[k]);
                    assert(seen_views(old_seen)[k] == group_lists(config@.take(i as int))[k]);
                } else {
                    assert(seen@[k] == copy);
                }
            }
            assert(seen_views(seen@) =~= target);
        }
        i += 1;
    }
    proof {
        assert(config@.take(nc as int) =~= config@);
        assert(classes@.take(0) =~= Seq::<ImportGroup>::empty());
    }
    let n = classes.len();
    let mut j: usize = 0;
    while j < n
        invariant
            n == classes@.len(),
            0 <= j <= n,
            seen_views(seen@) == seen_groups(group_lists(config@), classes@.take(j as int)),
        decreases n - j,
    {
        let g = classes[j];
        proof {
            assert(classes@.take(j as int + 1).drop_last() =~= classes@.take(j as int));
        }
        match find_bucket(&seen, g) {
            Some(_) => {},
            None => {
                let mut single: Vec<ImportGroup> = Vec::new();
                single.push(g);
                seen.push(single);
                proof {
                    assert(seen_views(seen@) =~= seen_groups(group_lists(config@), classes@.take(j as int)).push(seq![g]));
                }
            },
        }
        j += 1;
    }
    proof {
        assert(classes@.take(n as int) =~= classes@);
    }
    seen
}

/// The declarations of a block by group (see `ordered_buckets`); `classes` and `keys` give
/// each declaration's kind and sort key.
fn build_group_order(config: &Vec<Vec<ImportGroup>>, classes: &Vec<ImportGroup>, keys: &Vec<String>) -> (r: Vec<Vec<usize>>)
    requires
        classes@.len() == keys@.len(),
    ensures
        r@.len() == ordered_buckets(group_lists(config@), classes@, key_views(keys@)).len(),
        forall|b: int| 0 <= b < r@.len() ==> (#[trigger] r@[b])@ == ordered_buckets(group_lists(config@), classes@, key_views(keys@))[b],
        forall|b: int, t: int| 0 <= b < r@.len() && 0 <= t < r@[b]@.len() ==> (#[trigger] r@[b]@[t]) < keys@.len(),
{
    let seen = build_seen_groups(config, classes);
    let ghost sv = seen_views(seen@);
    let ghost kv = key_views(keys@);
    let ghost expected = ordered_buckets(group_lists(config@), classes@, kv);
    let nb = seen.len();
    let n = classes.len();
    let mut ordered: Vec<Vec<usize>> = Vec::new();
    let mut b: usize = 0;
    while b < nb
        invariant
            nb == seen@.len(),
            n == classes@.len(),
            n == keys@.len(),
            sv == seen_views(seen@),
            sv == seen_groups(group_lists(config@), classes@),
            kv == key_views(keys@),
            expected == ordered_buckets(group_lists(config@), classes@, kv),
            expected.len() == nb,
            0 <= b <= nb,
            ordered@.len() == b,
            forall|bb: int| 0 <= bb < b ==> (#[trigger] ordered@[bb])@ == expected[bb],
            forall|bb: int, t: int| 0 <= bb < b && 0 <= t < ordered@[bb]@.len() ==> (#[trigger] ordered@[bb]@[t]) < keys@.len(),
        decreases nb - b,
    {
        let mut members: Vec<usize> = Vec::new();
        let mut i: usize = 0;
        while i < n
            invariant
                n == classes@.len(),
                n == keys@.len(),
                sv == seen_views(seen@),
                0 <= i <= n,
                members@ == bucket_members(classes@, sv, b as int, i as int),
                forall|t: int| 0 <= t < members@.len() ==> (#[trigger] members@[t]) < i,
            decreases n - i,
        {
            let fb = find_bucket(&seen, classes[i]);
            if fb == Some(b) {
                members.push(i);
            }
            i += 1;
        }
        let sorted = sort_by_keys(&members, keys);
        ordered.push(sorted);
        b += 1;
    }
    ordered
}

// ----------------------------------------------------------------------------------------------
// Findings

pub const MISPLACED_DETAIL_END: &'static str = "\" should appear in a different position";
pub const BEFORE_DETAIL_MIDDLE: &'static str = "\" should appear before \"";
pub const ALWAYS_DETAIL: &'static str = "Expected a blank line between import groups with newlines-between: \"always\"";
pub const NEVER_DETAIL: &'static str = "Expected no blank line between import declarations with newlines-between: \"never\"";

/// The result of `str::to_lowercase` on a string: its characters mapped to lower case by the
/// Unicode tables of the standard library.
pub uninterp spec fn lowercase(s: Seq<char>) -> Seq<char>;

/// Lower-cases a string with `str::to_lowercase`. Claimed: the result is `lowercase` of the
/// string; the Unicode case mapping itself is the standard library's and is not stated.
#[verifier::external_body]
pub(crate) fn to_lowercase(s: &str) -> (r: String)
    ensures
        r@ == lowercase(s@),
{
    s.to_lowercase()
}

/// The sort key of a module specifier: the specifier in lower case.
pub open spec fn sort_key(d: ImportDeclaration) -> Seq<char> {
    lowercase(d.source@)
}

/// The declarations of block `b`, in order.
pub open spec fn block_decls(body: Seq<ModuleItem>, b: StatementBlock) -> Seq<ImportDeclaration> {
    Seq::new((b.hi - b.lo) as nat, |t: int| import_at(body, b.lo + t))
}

/// The kinds of the specifiers of `decls`.
pub open spec fn decl_classes(decls: Seq<ImportDeclaration>, patterns: Seq<String>) -> Seq<ImportGroup> {
    decls.map_values(|d: ImportDeclaration| specifier_group(d.source@, patterns))
}

/// The sort keys of `decls`.
pub open spec fn decl_keys(decls: Seq<ImportDeclaration>) -> Seq<Seq<char>> {
    decls.map_values(|d: ImportDeclaration| sort_key(d))
}

/// The buckets one after another.
pub open spec fn flatten(buckets: Seq<Seq<usize>>) -> Seq<usize>
    decreases buckets.len(),
{
    if buckets.len() == 0 {
        Seq::empty()
    } else {
        flatten(buckets.drop_last()) + buckets.last()
    }
}

/// The first declaration, from index `k` on, that starts at `start`.
pub open spec fn position_of_start(decls: Seq<ImportDeclaration>, start: u32, k: int) -> Option<int>
    decreases decls.len() - k,
{
    if k < 0 || k >= decls.len() {
        None
    } else if decls[k].span.start == start {
        Some(k)
    } else {
        position_of_start(decls, start, k + 1)
    }
}

/// The index of the first declaration that starts at `start`, or 0.
pub open spec fn actual_position(decls: Seq<ImportDeclaration>, start: u32) -> int {
    match position_of_start(decls, start, 0) {
        Some(k) => k,
        None => 0,
    }
}

/// A `sort-imports` finding at `span` of `file`.
pub open spec fn finding_at(
    file: Seq<char>,
    index: LineIndex,
    span: Span,
    message: Seq<char>,
    severity: Severity,
    detail: Option<Seq<char>>,
    subject: Option<Seq<char>>,
) -> ViolationView {
    let pos = span_position(index, span);
    ViolationView {
        file,
        span: Some(span),
        line: Some(pos.line),
        column: Some(pos.column),
        rule: SORT_IMPORTS_RULE_ID@,
        message,
        severity,
        detail,
        subject,
    }
}

/// The empty span at `offset`.
pub open spec fn point(offset: u32) -> Span {
    Span { start: offset, end: offset }
}

/// `"<specifier>" should appear in a different position`.
pub open spec fn misplaced_detail(specifier: Seq<char>) -> Seq<char> {
    "\""@ + specifier + MISPLACED_DETAIL_END@
}

/// `"<current>" should appear before "<previous>"`.
pub open spec fn before_detail(current: Seq<char>, previous: Seq<char>) -> Seq<char> {
    "\""@ + current + BEFORE_DETAIL_MIDDLE@ + previous + "\""@
}

/// For the first `e` positions of the expected order `flat`: a finding for each declaration
/// whose position in the block differs from its expected one, at the declaration, naming the
/// specifier that stands where it stands.
pub open spec fn order_findings(
    file: Seq<char>,
    index: LineIndex,
    severity: Severity,
    decls: Seq<ImportDeclaration>,
    flat: Seq<usize>,
    e: int,
) -> Seq<ViolationView>
    decreases e,
{
    if e <= 0 {
        Seq::empty()
    } else {
        let prev = order_findings(file, index, severity, decls, flat, e - 1);
        let d = decls[flat[e - 1] as int];
        let actual = actual_position(decls, d.span.start);
        if actual != e - 1 {
            let name = decls[actual].source@;
            prev.push(finding_at(file, index, d.span, SORT_IMPORTS_MESSAGE@, severity, Some(misplaced_detail(name)), Some(name)))
        } else {
            prev
        }
    }
}

/// Bucket `bucket` holds a declaration that starts at `start`.
pub open spec fn bucket_has_start(decls: Seq<ImportDeclaration>, bucket: Seq<usize>, start: u32) -> bool {
    exists|t: int| 0 <= t < bucket.len() && (#[trigger] decls[bucket[t] as int]).span.start == start
}

/// The first bucket, from `b` on, that holds a declaration starting at `start`.
pub open spec fn bucket_of_start(decls: Seq<ImportDeclaration>, buckets: Seq<Seq<usize>>, start: u32, b: int) -> Option<int>
    decreases buckets.len() - b,
{
    if b < 0 || b >= buckets.len() {
        None
    } else if bucket_has_start(decls, buckets[b], start) {
        Some(b)
    } else {
        bucket_of_start(decls, buckets, start, b + 1)
    }
}

/// The bucket of the declaration that starts at `start`, or 0.
pub open spec fn bucket_index(decls: Seq<ImportDeclaration>, buckets: Seq<Seq<usize>>, start: u32) -> int {
    match bucket_of_start(decls, buckets, start, 0) {
        Some(b) => b,
        None => 0,
    }
}

/// For the first `k` pairs of neighbouring declarations: a finding where the two fall in
/// different buckets and no blank line separates them, at the end of the first.
pub open spec fn always_findings(
    file: Seq<char>,
    index: LineIndex,
    severity: Severity,
    src: Seq<u8>,
    decls: Seq<ImportDeclaration>,
    buckets: Seq<Seq<usize>>,
    k: int,
) -> Seq<ViolationView>
    decreases k,
{
    if k <= 0 {
        Seq::empty()
    } else {
        let prev = always_findings(file, index, severity, src, decls, buckets, k - 1);
        let i = k - 1;
        if bucket_index(decls, buckets, decls[i].span.start) != bucket_index(decls, buckets, decls[i + 1].span.start)
            && !blank_line_between(src, decls[i].span.end as int, decls[i + 1].span.start as int) {
            prev.push(finding_at(file, index, point(decls[i].span.end), ALWAYS_NEWLINE_MESSAGE@, severity, Some(ALWAYS_DETAIL@), None))
        } else {
            prev
        }
    }
}

/// The findings of a block under configured groups: each declaration out of its expected
/// place, then, where blank lines are asked for between groups, each missing one.
pub open spec fn grouped_findings(
    file: Seq<char>,
    index: LineIndex,
    src: Seq<u8>,
    decls: Seq<ImportDeclaration>,
    config: SortImportsRuleConfig,
) -> Seq<ViolationView> {
    let buckets = ordered_buckets(group_lists(config.groups@), decl_classes(decls, config.internal_patterns@), decl_keys(decls));
    let flat = flatten(buckets);
    order_findings(file, index, config.severity, decls, flat, flat.len() as int) + if config.newlines_between == NewlinesBetween::Always {
        always_findings(file, index, config.severity, src, decls, buckets, decls.len() - 1)
    } else {
        Seq::empty()
    }
}

/// For the first `k` pairs of neighbouring declarations: a finding where the key of the first
/// sorts after the key of the second, at the second.
pub open spec fn unsorted_findings(
    file: Seq<char>,
    index: LineIndex,
    severity: Severity,
    decls: Seq<ImportDeclaration>,
    k: int,
) -> Seq<ViolationView>
    decreases k,
{
    if k <= 0 {
        Seq::empty()
    } else {
        let prev = unsorted_findings(file, index, severity, decls, k - 1);
        let i = k - 1;
        if char_seq_order(sort_key(decls[i]), sort_key(decls[i + 1])) > 0 {
            let cur = decls[i + 1].source@;
            prev.push(finding_at(file, index, decls[i + 1].span, SORT_IMPORTS_MESSAGE@, severity, Some(before_detail(cur, decls[i].source@)), Some(cur)))
        } else {
            prev
        }
    }
}

/// For the first `k` pairs of neighbouring declarations: a finding where a blank line
/// separates them, at the end of the first.
pub open spec fn never_findings(
    file: Seq<char>,
    index: LineIndex,
    severity: Severity,
    src: Seq<u8>,
    decls: Seq<ImportDeclaration>,
    k: int,
) -> Seq<ViolationView>
    decreases k,
{
    if k <= 0 {
        Seq::empty()
    } else {
        let prev = never_findings(file, index, severity, src, decls, k - 1);
        let i = k - 1;
        if blank_line_between(src, decls[i].span.end as int, decls[i + 1].span.start as int) {
            prev.push(finding_at(file, index, point(decls[i].span.end), NEWLINE_MESSAGE@, severity, Some(NEVER_DETAIL@), None))
        } else {
            prev
        }
    }
}

/// The findings of each of `blocks` under configured groups, one block after another.
pub open spec fn grouped_blocks_findings(file: Seq<char>, index: LineIndex, src: Seq<u8>, body: Seq<ModuleItem>, config: SortImportsRuleConfig, blocks: Seq<StatementBlock>) -> Seq<ViolationView>
    decreases blocks.len(),
{
    if blocks.len() == 0 {
        Seq::empty()
    } else {
        grouped_blocks_findings(file, index, src, body, config, blocks.drop_last())
            + grouped_findings(file, index, src, block_decls(body, blocks.last()), config)
    }
}

/// The unsorted neighbours of each of `groups`, one group after another.
pub open spec fn unsorted_groups_findings(file: Seq<char>, index: LineIndex, severity: Severity, body: Seq<ModuleItem>, groups: Seq<StatementBlock>) -> Seq<ViolationView>
    decreases groups.len(),
{
    if groups.len() == 0 {
        Seq::empty()
    } else {
        let g = groups.last();
        unsorted_groups_findings(file, index, severity, body, groups.drop_last())
            + unsorted_findings(file, index, severity, block_decls(body, g), g.hi - g.lo - 1)
    }
}

/// The blank lines between the imports of each of `blocks`, one block after another.
pub open spec fn never_blocks_findings(file: Seq<char>, index: LineIndex, severity: Severity, src: Seq<u8>, body: Seq<ModuleItem>, blocks: Seq<StatementBlock>) -> Seq<ViolationView>
    decreases blocks.len(),
{
    if blocks.len() == 0 {
        Seq::empty()
    } else {
        let b = blocks.last();
        never_blocks_findings(file, index, severity, src, body, blocks.drop_last())
            + never_findings(file, index, severity, src, block_decls(body, b), b.hi - b.lo - 1)
    }
}

/// The findings of `sort-imports` on a module: none where the rule is off; with configured
/// groups, those of each block under them, else the unsorted neighbours of each blank-line
/// separated group; then, where blank lines are forbidden, each blank line between two
/// imports of a block.
pub open spec fn sort_imports_findings(
    file: Seq<char>,
    m: ModuleSyntax,
    src: Seq<u8>,
    index: LineIndex,
    config: SortImportsRuleConfig,
) -> Seq<ViolationView> {
    if config.severity == Severity::Off {
        Seq::empty()
    } else {
        let body = m.body@;
        let blocks = import_blocks(m, src.len() as int);
        let main = if config.groups@.len() > 0 {
            grouped_blocks_findings(file, index, src, body, config, blocks)
        } else {
            unsorted_groups_findings(file, index, config.severity, body, import_groups(m, src))
        };
        main + if config.newlines_between == NewlinesBetween::Never {
            never_blocks_findings(file, index, config.severity, src, body, blocks)
        } else {
            Seq::empty()
        }
    }
}

/// The buckets as sequences of indices.
pub open spec fn bucket_views(v: Seq<Vec<usize>>) -> Seq<Seq<usize>> {
    v.map_values(|b: Vec<usize>| b@)
}

/// The declaration at position `t` of block `b`.
fn block_decl(program: &ModuleSyntax, block: StatementBlock, t: usize) -> (d: &ImportDeclaration)
    requires
        block_ok(program.body@, block),
        t < block.hi - block.lo,
    ensures
        *d == block_decls(program.body@, block)[t as int],
{
    import_decl(&program.body, block.lo + t)
}

/// The kinds and sort keys of the declarations of a block.
fn kinds_and_keys(program: &ModuleSyntax, block: StatementBlock, patterns: &Vec<String>) -> (r: (Vec<ImportGroup>, Vec<String>))
    requires
        block_ok(program.body@, block),
    ensures
        r.0@ == decl_classes(block_decls(program.body@, block), patterns@),
        key_views(r.1@) == decl_keys(block_decls(program.body@, block)),
{
    let ghost decls = block_decls(program.body@, block);
    let n = block.hi - block.lo;
    let mut classes: Vec<ImportGroup> = Vec::new();
    let mut keys: Vec<String> = Vec::new();
    let mut t: usize = 0;
    while t < n
        invariant
            block_ok(program.body@, block),
            decls == block_decls(program.body@, block),
            n == block.hi - block.lo,
            decls.len() == n,
            0 <= t <= n,
            classes@ == decl_classes(decls, patterns@).take(t as int),
            key_views(keys@) == decl_keys(decls).take(t as int),
        decreases n - t,
    {
        let d = block_decl(program, block, t);
        let g = classify_import(d.source.as_str(), patterns);
        let k = to_lowercase(d.source.as_str());
        let ghost old_keys = keys@;
        classes.push(g);
        keys.push(k);
        t += 1;
        proof {
            assert(classes@ =~= decl_classes(decls, patterns@).take(t as int));
            assert(key_views(keys@) =~= key_views(old_keys).push(k@));
            assert(decl_keys(decls).take(t as int) =~= decl_keys(decls).take(t - 1).push(decl_keys(decls)[t - 1]));
            assert(decl_keys(decls)[t - 1] == sort_key(decls[t - 1]));
            assert(key_views(keys@) =~= decl_keys(decls).take(t as int));
        }
    }
    proof {
        assert(decl_classes(decls, patterns@).take(n as int) =~= decl_classes(decls, patterns@));
        assert(decl_keys(decls).take(n as int) =~= decl_keys(decls));
    }
    (classes, keys)
}

/// The buckets one after another.
pub(crate) fn flatten_buckets(buckets: &Vec<Vec<usize>>, bound: usize) -> (r: Vec<usize>)
    requires
        forall|b: int, t: int| 0 <= b < buckets@.len() && 0 <= t < buckets@[b]@.len() ==> (#[trigger] buckets@[b]@[t]) < bound,
    ensures
        r@ == flatten(bucket_views(buckets@)),
        forall|t: int| 0 <= t < r@.len() ==> (#[trigger] r@[t]) < bound,
{
    let nb = buckets.len();
    let mut out: Vec<usize> = Vec::new();
    let mut b: usize = 0;
    while b < nb
        invariant
            nb == buckets@.len(),
            forall|bb: int, t: int| 0 <= bb < buckets@.len() && 0 <= t < buckets@[bb]@.len() ==> (#[trigger] buckets@[bb]@[t]) < bound,
            0 <= b <= nb,
            out@ == flatten(bucket_views(buckets@).take(b as int)),
            forall|t: int| 0 <= t < out@.len() ==> (#[trigger] out@[t]) < bound,
        decreases nb - b,
    {
        let bucket = &buckets[b];
        let m = bucket.len();
        let ghost before = out@;
        let mut t: usize = 0;
        while t < m
            invariant
                m == bucket@.len(),
                bucket@ == buckets@[b as int]@,
                forall|u: int| 0 <= u < bucket@.len() ==> (#[trigger] bucket@[u]) < bound,
                0 <= t <= m,
                out@ == before + bucket@.take(t as int),
                forall|u: int| 0 <= u < out@.len() ==> (#[trigger] out@[u]) < bound,
            decreases m - t,
        {
            out.push(bucket[t]);
            t += 1;
            proof {
                assert(out@ =~= before + bucket@.take(t as int));
            }
        }
        proof {
            assert(bucket@.take(m as int) =~= bucket@);
            assert(bucket_views(buckets@).take(b as int + 1).drop_last() =~= bucket_views(buckets@).take(b as int));
        }
        b += 1;
    }
    proof {
        assert(bucket_views(buckets@).take(nb as int) =~= bucket_views(buckets@));
    }
    out
}

/// The index of the first declaration of the block that starts at `start`, or 0.
fn first_at_start(program: &ModuleSyntax, block: StatementBlock, start: u32) -> (r: usize)
    requires
        block_ok(program.body@, block),
    ensures
        r as int == actual_position(block_decls(program.body@, block), start),
        r < block.hi - block.lo,
{
    let ghost decls = block_decls(program.body@, block);
    let n = block.hi - block.lo;
    let mut k: usize = 0;
    while k < n
        invariant
            block_ok(program.body@, block),
            decls == block_decls(program.body@, block),
            n == block.hi - block.lo,
            decls.len() == n,
            0 <= k <= n,
            position_of_start(decls, start, 0) == position_of_start(decls, start, k as int),
        decreases n - k,
    {
        if block_decl(program, block, k).span.start == start {
            return k;
        }
        k += 1;
    }
    0
}

/// Whether the bucket holds a declaration of the block that starts at `start`.
fn bucket_holds_start(program: &ModuleSyntax, block: StatementBlock, bucket: &Vec<usize>, start: u32) -> (r: bool)
    requires
        block_ok(program.body@, block),
        forall|t: int| 0 <= t < bucket@.len() ==> (#[trigger] bucket@[t]) < block.hi - block.lo,
    ensures
        r == bucket_has_start(block_decls(program.body@, block), bucket@, start),
{
    let ghost decls = block_decls(program.body@, block);
    let m = bucket.len();
    let mut t: usize = 0;
    while t < m
        invariant
            block_ok(program.body@, block),
            decls == block_decls(program.body@, block),
            m == bucket@.len(),
            forall|u: int| 0 <= u < bucket@.len() ==> (#[trigger] bucket@[u]) < block.hi - block.lo,
            0 <= t <= m,
            forall|u: int| 0 <= u < t ==> (#[trigger] decls[bucket@[u] as int]).span.start != start,
        decreases m - t,
    {
        let d = block_decl(program, block, bucket[t]);
        if d.span.start == start {
            proof {
                assert(decls[bucket@[t as int] as int].span.start == start);
            }
            return true;
        }
        t += 1;
    }
    false
}

/// The first bucket that holds a declaration of the block starting at `start`, or 0.
fn bucket_index_of(program: &ModuleSyntax, block: StatementBlock, buckets: &Vec<Vec<usize>>, start: u32) -> (r: usize)
    requires
        block_ok(program.body@, block),
        forall|b: int, t: int| 0 <= b < buckets@.len() && 0 <= t < buckets@[b]@.len() ==> (#[trigger] buckets@[b]@[t]) < block.hi - block.lo,
    ensures
        r as int == bucket_index(block_decls(program.body@, block), bucket_views(buckets@), start),
{
    let ghost decls = block_decls(program.body@, block);
    let ghost bv = bucket_views(buckets@);
    let nb = buckets.len();
    let mut b: usize = 0;
    while b < nb
        invariant
            block_ok(program.body@, block),
            decls == block_decls(program.body@, block),
            bv == bucket_views(buckets@),
            nb == buckets@.len(),
            forall|bb: int, t: int| 0 <= bb < buckets@.len() && 0 <= t < buckets@[bb]@.len() ==> (#[trigger] buckets@[bb]@[t]) < block.hi - block.lo,
            0 <= b <= nb,
            bucket_of_start(decls, bv, start, 0) == bucket_of_start(decls, bv, start, b as int),
        decreases nb - b,
    {
        let bucket = &buckets[b];
        if bucket_holds_start(program, block, bucket, start) {
            return b;
        }
        b += 1;
    }
    0
}

/// The finding for a declaration out of its expected place; `name` stands where it stands.
fn misplaced_finding(file: &str, line_index: &LineIndex, severity: Severity, span: Span, name: &String) -> (r: Violation)
    ensures
        r@ == finding_at(file@, *line_index, span, SORT_IMPORTS_MESSAGE@, severity, Some(misplaced_detail(name@)), Some(name@)),
{
    let pos = line_index.position_for(span);
    let mut detail = string_of("\"");
    push_str(&mut detail, name.as_str());
    push_str(&mut detail, MISPLACED_DETAIL_END);
    proof {
        assert(detail@ =~= misplaced_detail(name@));
    }
    Violation::spanned(file, span, pos.line, pos.column, SORT_IMPORTS_RULE_ID, SORT_IMPORTS_MESSAGE, severity, Some(detail), Some(copy_string(name)))
}

/// A finding at the empty span at `offset`.
fn gap_finding(file: &str, line_index: &LineIndex, severity: Severity, offset: u32, message: &str, detail: &str) -> (r: Violation)
    ensures
        r@ == finding_at(file@, *line_index, point(offset), message@, severity, Some(detail@), None),
{
    let span = Span { start: offset, end: offset };
    let pos = line_index.position_for(span);
    Violation::spanned(file, span, pos.line, pos.column, SORT_IMPORTS_RULE_ID, message, severity, Some(string_of(detail)), None)
}

/// The findings of one block under configured groups (see `grouped_findings`).
fn check_group_grouped(
    file: &str,
    line_index: &LineIndex,
    source: &str,
    program: &ModuleSyntax,
    block: StatementBlock,
    config: &SortImportsRuleConfig,
) -> (r: Vec<Violation>)
    requires
        block_ok(program.body@, block),
    ensures
        views(r@) == grouped_findings(file@, *line_index, source.spec_bytes(), block_decls(program.body@, block), *config),
{
    let ghost decls = block_decls(program.body@, block);
    let ghost src = source.spec_bytes();
    let n = block.hi - block.lo;
    let (classes, keys) = kinds_and_keys(program, block, &config.internal_patterns);
    proof {
        assert(key_views(keys@).len() == keys@.len());
        assert(decl_keys(decls).len() == n);
    }
    let ordered = build_group_order(&config.groups, &classes, &keys);
    let ghost buckets = ordered_buckets(group_lists(config.groups@), decl_classes(decls, config.internal_patterns@), decl_keys(decls));
    proof {
        assert(bucket_views(ordered@) =~= buckets);
    }
    let flat = flatten_buckets(&ordered, n);
    let mut violations: Vec<Violation> = Vec::new();
    let m = flat.len();
    let mut e: usize = 0;
    while e < m
        invariant
            block_ok(program.body@, block),
            decls == block_decls(program.body@, block),
            n == block.hi - block.lo,
            decls.len() == n,
            m == flat@.len(),
            forall|t: int| 0 <= t < flat@.len() ==> (#[trigger] flat@[t]) < n,
            0 <= e <= m,
            views(violations@) == order_findings(file@, *line_index, config.severity, decls, flat@, e as int),
        decreases m - e,
    {
        let d = block_decl(program, block, flat[e]);
        let actual = first_at_start(program, block, d.span.start);
        if actual != e {
            let name = &block_decl(program, block, actual).source;
            let v = misplaced_finding(file, line_index, config.severity, d.span, name);
            violations.push(v);
            proof {
                assert(views(violations@) =~= order_findings(file@, *line_index, config.severity, decls, flat@, e as int + 1));
            }
        }
        e += 1;
    }
    proof {
        assert(flat@ == flatten(buckets));
    }
    if config.newlines_between == NewlinesBetween::Always {
        let ghost head = views(violations@);
        let mut i: usize = 0;
        while i + 1 < n
            invariant
                block_ok(program.body@, block),
                decls == block_decls(program.body@, block),
                src == source.spec_bytes(),
                n == block.hi - block.lo,
                decls.len() == n,
                n >= 1,
                0 <= i < n,
                buckets == bucket_views(ordered@),
                forall|b: int, t: int| 0 <= b < ordered@.len() && 0 <= t < ordered@[b]@.len() ==> (#[trigger] ordered@[b]@[t]) < n,
                views(violations@) == head + always_findings(file@, *line_index, config.severity, src, decls, buckets, i as int),
            decreases n - i,
        {
            let a = block_decl(program, block, i);
            let b = block_decl(program, block, i + 1);
            let ba = bucket_index_of(program, block, &ordered, a.span.start);
            let bb = bucket_index_of(program, block, &ordered, b.span.start);
            let ghost before = violations@;
            proof {
                assert(a == decls[i as int]);
                assert(b == decls[i + 1]);
            }
            if ba != bb && !has_blank_line_between(source, a.span.end as usize, b.span.start as usize) {
                let v = gap_finding(file, line_index, config.severity, a.span.end, ALWAYS_NEWLINE_MESSAGE, ALWAYS_DETAIL);
                violations.push(v);
                proof {
                    assert(views(violations@) =~= views(before).push(v@));
                }
            }
            proof {
                assert(views(violations@) =~= head + always_findings(file@, *line_index, config.severity, src, decls, buckets, i as int + 1));
            }
            i += 1;
        }
    } else {
        proof {
            assert(views(violations@) =~= views(violations@) + Seq::<ViolationView>::empty());
        }
    }
    violations
}

/// The unsorted neighbours of one blank-line separated group (see `unsorted_findings`).
fn check_group(file: &str, line_index: &LineIndex, severity: Severity, program: &ModuleSyntax, group: StatementBlock) -> (r: Vec<Violation>)
    requires
        block_ok(program.body@, group),
    ensures
        views(r@) == unsorted_findings(file@, *line_index, severity, block_decls(program.body@, group), group.hi - group.lo - 1),
{
    let ghost decls = block_decls(program.body@, group);
    let n = group.hi - group.lo;
    let mut violations: Vec<Violation> = Vec::new();
    let mut i: usize = 0;
    while i + 1 < n
        invariant
            block_ok(program.body@, group),
            decls == block_decls(program.body@, group),
            n == group.hi - group.lo,
            decls.len() == n,
            n >= 1,
            0 <= i < n,
            views(violations@) == unsorted_findings(file@, *line_index, severity, decls, i as int),
        decreases n - i,
    {
        let prev = block_decl(program, group, i);
        let cur = block_decl(program, group, i + 1);
        let kp = to_lowercase(prev.source.as_str());
        let kc = to_lowercase(cur.source.as_str());
        let ghost before = violations@;
        if crate::order::compare_str(kp.as_str(), kc.as_str()) > 0 {
            let pos = line_index.position_for(cur.span);
            let mut detail = string_of("\"");
            push_str(&mut detail, cur.source.as_str());
            push_str(&mut detail, BEFORE_DETAIL_MIDDLE);
            push_str(&mut detail, prev.source.as_str());
            push_str(&mut detail, "\"");
            proof {
                assert(detail@ =~= before_detail(cur.source@, prev.source@));
            }
            let v = Violation::spanned(file, cur.span, pos.line, pos.column, SORT_IMPORTS_RULE_ID, SORT_IMPORTS_MESSAGE, severity, Some(detail), Some(copy_string(&cur.source)));
            violations.push(v);
            proof {
                assert(views(violations@) =~= views(before).push(v@));
            }
        }
        proof {
            assert(views(violations@) =~= unsorted_findings(file@, *line_index, severity, decls, i as int + 1));
        }
        i += 1;
    }
    violations
}

/// The blank lines between the imports of one block (see `never_findings`).
fn check_never_newlines(file: &str, line_index: &LineIndex, severity: Severity, source: &str, program: &ModuleSyntax, block: StatementBlock) -> (r: Vec<Violation>)
    requires
        block_ok(program.body@, block),
    ensures
        views(r@) == never_findings(file@, *line_index, severity, source.spec_bytes(), block_decls(program.body@, block), block.hi - block.lo - 1),
{
    let ghost decls = block_decls(program.body@, block);
    let ghost src = source.spec_bytes();
    let n = block.hi - block.lo;
    let mut violations: Vec<Violation> = Vec::new();
    let mut i: usize = 0;
    while i + 1 < n
        invariant
            block_ok(program.body@, block),
            decls == block_decls(program.body@, block),
            src == source.spec_bytes(),
            n == block.hi - block.lo,
            decls.len() == n,
            n >= 1,
            0 <= i < n,
            views(violations@) == never_findings(file@, *line_index, severity, src, decls, i as int),
        decreases n - i,
    {
        let a = block_decl(program, block, i);
        let b = block_decl(program, block, i + 1);
        let ghost before = violations@;
        if has_blank_line_between(source, a.span.end as usize, b.span.start as usize) {
            let v = gap_finding(file, line_index, severity, a.span.end, NEWLINE_MESSAGE, NEVER_DETAIL);
            violations.push(v);
            proof {
                assert(views(violations@) =~= views(before).push(v@));
            }
        }
        proof {
            assert(views(violations@) =~= never_findings(file@, *line_index, severity, src, decls, i as int + 1));
        }
        i += 1;
    }
    violations
}

pub(crate) proof fn lemma_views_append(a: Seq<Violation>, b: Seq<Violation>)
    ensures
        views(a + b) == views(a) + views(b),
{
    assert(views(a + b) =~= views(a) + views(b));
}

/// The findings of `sort-imports` on one module (see `sort_imports_findings`).
pub fn check_file(
    file: &str,
    program: &ModuleSyntax,
    source: &str,
    line_index: &LineIndex,
    config: &SortImportsRuleConfig,
) -> (r: Vec<Violation>)
    ensures
        views(r@) == sort_imports_findings(file@, *program, source.spec_bytes(), *line_index, *config),
{
    if !config.severity.is_enabled() {
        proof {
            assert(views(Seq::<Violation>::empty()) =~= Seq::<ViolationView>::empty());
        }
        return Vec::new();
    }
    let ghost src = source.spec_bytes();
    let ghost body = program.body@;
    let blocks = find_contiguous_import_blocks(program, source);
    let groups = find_import_groups(program, source);
    let mut violations: Vec<Violation> = Vec::new();
    let ghost main: Seq<ViolationView>;
    if config.groups.len() > 0 {
        let nb = blocks.len();
        let mut i: usize = 0;
        while i < nb
            invariant
                nb == blocks@.len(),
                src == source.spec_bytes(),
                body == program.body@,
                forall|k: int| 0 <= k < blocks@.len() ==> block_ok(program.body@, #[trigger] blocks@[k]),
                0 <= i <= nb,
                views(violations@) == grouped_blocks_findings(file@, *line_index, src, body, *config, blocks@.take(i as int)),
            decreases nb - i,
        {
            proof {
                assert(blocks@.take(i as int + 1).drop_last() =~= blocks@.take(i as int));
            }
            let ghost before = violations@;
            let mut part = check_group_grouped(file, line_index, source, program, blocks[i], config);
            let ghost part_v = part@;
            violations.append(&mut part);
            proof {
                lemma_views_append(before, part_v);
            }
            i += 1;
        }
        proof {
            assert(blocks@.take(nb as int) =~= blocks@);
            main = views(violations@);
        }
    } else {
        let ng = groups.len();
        let mut i: usize = 0;
        while i < ng
            invariant
                ng == groups@.len(),
                body == program.body@,
                forall|k: int| 0 <= k < groups@.len() ==> block_ok(program.body@, #[trigger] groups@[k]),
                0 <= i <= ng,
                views(violations@) == unsorted_groups_findings(file@, *line_index, config.severity, body, groups@.take(i as int)),
            decreases ng - i,
        {
            proof {
                assert(groups@.take(i as int + 1).drop_last() =~= groups@.take(i as int));
            }
            let ghost before = violations@;
            let mut part = check_group(file, line_index, config.severity, program, groups[i]);
            let ghost part_v = part@;
            violations.append(&mut part);
            proof {
                lemma_views_append(before, part_v);
            }
            i += 1;
        }
        proof {
            assert(groups@.take(ng as int) =~= groups@);
            main = views(violations@);
        }
    }
    if config.newlines_between == NewlinesBetween::Never {
        let nb = blocks.len();
        let mut i: usize = 0;
        while i < nb
            invariant
                nb == blocks@.len(),
                src == source.spec_bytes(),
                body == program.body@,
                forall|k: int| 0 <= k < blocks@.len() ==> block_ok(program.body@, #[trigger] blocks@[k]),
                0 <= i <= nb,
                views(violations@) == main + never_blocks_findings(file@, *line_index, config.severity, src, body, blocks@.take(i as int)),
            decreases nb - i,
        {
            proof {
                assert(blocks@.take(i as int + 1).drop_last() =~= blocks@.take(i as int));
            }
            let ghost before = violations@;
            let mut part = check_never_newlines(file, line_index, config.severity, source, program, blocks[i]);
            let ghost part_v = part@;
            violations.append(&mut part);
            proof {
                lemma_views_append(before, part_v);
            }
            i += 1;
        }
        proof {
            assert(blocks@.take(nb as int) =~= blocks@);
        }
    } else {
        proof {
            assert(views(violations@) =~= main + Seq::<ViolationView>::empty());
        }
    }
    violations
}

// ----------------------------------------------------------------------------------------------
// Slices of the source

/// The byte range `[a, b)` of `src` is a slice of the text: in range and on character
/// boundaries.
pub open spec fn slice_ok(src: Seq<u8>, a: int, b: int) -> bool {
    &&& 0 <= a <= b <= src.len()
    &&& is_char_boundary(src, a)
    &&& is_char_boundary(src, b)
}

/// The characters of the bytes `[a, b)` of `src`, or nothing where they are no slice of it.
pub open spec fn piece(src: Seq<u8>, a: int, b: int) -> Seq<char> {
    if slice_ok(src, a, b) {
        decode_utf8(src.subrange(a, b))
    } else {
        Seq::empty()
    }
}

/// After a one-byte character that starts at a boundary, the next byte starts one too.
proof fn lemma_boundary_after_ascii(bytes: Seq<u8>, i: int)
    requires
        valid_utf8(bytes),
        0 <= i < bytes.len(),
        is_char_boundary(bytes, i),
        bytes[i] < 0x80,
    ensures
        is_char_boundary(bytes, i + 1),
    decreases bytes.len(),
{
    let pop = pop_first_scalar(bytes);
    let l = length_of_first_scalar(bytes);
    assert(valid_utf8(pop));
    if i == 0 {
        assert(l == 1);
        assert(is_char_boundary(pop, 0));
    } else {
        assert(is_char_boundary(pop, i - l));
        assert(1 <= l <= 4);
        assert(pop.len() == bytes.len() - l);
        if i - l >= 0 && i - l < pop.len() {
            assert(pop[i - l] == bytes[i]);
            lemma_boundary_after_ascii(pop, i - l);
        } else {
            assert(i - l < 0 || i - l >= pop.len());
            reveal_with_fuel(is_char_boundary, 2);
        }
    }
}

/// The bytes `[a, b)` of the text, where they are a slice of it, else the empty text.
pub(crate) fn slice_of(source: &str, a: usize, b: usize) -> (r: &str)
    ensures
        r@ == piece(source.spec_bytes(), a as int, b as int),
        slice_ok(source.spec_bytes(), a as int, b as int) ==> r.spec_bytes() == source.spec_bytes().subrange(a as int, b as int),
{
    broadcast use vstd::utf8::encode_utf8_valid_utf8, vstd::utf8::encode_utf8_decode_utf8;
    let ghost src = source.spec_bytes();
    let n = source.as_bytes().len();
    if a <= b && b <= n && source.is_char_boundary(a) && source.is_char_boundary(b) {
        let (left, _) = source.split_at(b);
        proof {
            vstd::utf8::valid_utf8_split(src, b as int);
            let lb = src.subrange(0, b as int);
            assert(left.spec_bytes() =~= lb);
            if a < b {
                vstd::utf8::is_char_boundary_iff_not_is_continuation_byte(src, a as int);
                vstd::utf8::is_char_boundary_iff_not_is_continuation_byte(lb, a as int);
            } else {
                vstd::utf8::is_char_boundary_start_end_of_seq(lb);
            }
        }
        let (_, mid) = left.split_at(a);
        proof {
            assert(mid.spec_bytes() =~= src.subrange(a as int, b as int));
            assert(mid@ == decode_utf8(encode_utf8(mid@)));
        }
        mid
    } else {
        let e = "";
        proof {
            reveal_strlit("");
        }
        e
    }
}

// ----------------------------------------------------------------------------------------------
// Pieces of a rewritten group

/// The byte range of the declaration at position `t` of group `g` with its comments: from its
/// leading comments to its trailing comments that end by the next declaration's leading
/// comments (or by the end of the group).
pub open spec fn item_range(m: ModuleSyntax, g: StatementBlock, t: int) -> (int, int) {
    let decls = block_decls(m.body@, g);
    let upper = if t + 1 < decls.len() {
        leading_start(m.comments@, decls[t + 1].span.start) as int
    } else {
        g.end as int
    };
    (leading_start(m.comments@, decls[t].span.start) as int, trailing_end(m.comments@, decls[t].span.end, upper) as int)
}

/// The ranges of the declarations of a group with their comments (see `item_range`).
fn import_item_ranges(program: &ModuleSyntax, group: StatementBlock) -> (r: Vec<(usize, usize)>)
    requires
        block_ok(program.body@, group),
    ensures
        r@.len() == group.hi - group.lo,
        forall|t: int| 0 <= t < r@.len() ==> ((#[trigger] r@[t]).0 as int, r@[t].1 as int) == item_range(*program, group, t),
{
    let n = group.hi - group.lo;
    let mut ranges: Vec<(usize, usize)> = Vec::new();
    let mut t: usize = 0;
    while t < n
        invariant
            block_ok(program.body@, group),
            n == group.hi - group.lo,
            0 <= t <= n,
            ranges@.len() == t,
            forall|u: int| 0 <= u < t ==> ((#[trigger] ranges@[u]).0 as int, ranges@[u].1 as int) == item_range(*program, group, u),
        decreases n - t,
    {
        let d = block_decl(program, group, t);
        let start = leading_trivia_start(program, d.span.start);
        let upper: usize = if t + 1 < n {
            leading_trivia_start(program, block_decl(program, group, t + 1).span.start) as usize
        } else {
            group.end
        };
        let end = trailing_trivia_end(program, d.span.end, upper);
        ranges.push((start as usize, end as usize));
        t += 1;
    }
    ranges
}

/// The text of the declaration `d` of group `g` with its comments: the range of the first
/// declaration of the group that starts where `d` starts.
pub open spec fn snippet(m: ModuleSyntax, src: Seq<u8>, g: StatementBlock, d: ImportDeclaration) -> Seq<char> {
    let r = item_range(m, g, actual_position(block_decls(m.body@, g), d.span.start));
    piece(src, r.0, r.1)
}

/// The bytes `[a, b)` are a slice of the text that holds a carriage return and line feed.
pub open spec fn has_crlf(src: Seq<u8>, a: int, b: int) -> bool {
    &&& slice_ok(src, a, b)
    &&& exists|i: int| a <= i && i + 1 < b && src[i] == 13u8 && #[trigger] src[i + 1] == 10u8
}

/// The line ending of the bytes `[a, b)`: CRLF where they hold one, else LF.
pub open spec fn newline_of(src: Seq<u8>, a: int, b: int) -> Seq<char> {
    if has_crlf(src, a, b) { seq!['\r', '\n'] } else { seq!['\n'] }
}

/// Whether the bytes `[start, end)` are a slice of the text that holds a CRLF.
fn crlf_within(source: &str, start: usize, end: usize) -> (r: bool)
    ensures
        r == has_crlf(source.spec_bytes(), start as int, end as int),
{
    let bytes = source.as_bytes();
    let n = bytes.len();
    if !(start <= end && end <= n && source.is_char_boundary(start) && source.is_char_boundary(end)) {
        return false;
    }
    let ghost src = source.spec_bytes();
    let mut i = start;
    while end - i >= 2
        invariant
            n == bytes@.len(),
            bytes@ == src,
            src == source.spec_bytes(),
            slice_ok(src, start as int, end as int),
            start <= i <= end,
            end <= n,
            forall|k: int| start <= k < i && k + 1 < end ==> !(src[k] == 13u8 && #[trigger] src[k + 1] == 10u8),
        decreases end - i,
    {
        if bytes[i] == 13u8 && bytes[i + 1] == 10u8 {
            proof {
                assert(src[i as int] == 13u8 && src[i + 1] == 10u8);
            }
            return true;
        }
        i += 1;
    }
    false
}

/// The line ending of the bytes `[start, end)` (see `newline_of`).
pub(crate) fn line_ending(source: &str, start: usize, end: usize) -> (r: String)
    ensures
        r@ == newline_of(source.spec_bytes(), start as int, end as int),
{
    let found = crlf_within(source, start, end);
    let mut out = String::new();
    if found {
        crate::chars::push_char(&mut out, '\r');
    }
    crate::chars::push_char(&mut out, '\n');
    proof {
        if found {
            assert(out@ =~= seq!['\r', '\n']);
        } else {
            assert(out@ =~= seq!['\n']);
        }
    }
    out
}

/// Where the line that starts at `pos` ends: after its line feed, or at `end`.
pub open spec fn chunk_end(src: Seq<u8>, pos: int, end: int) -> int
    decreases end - pos,
{
    if pos >= end {
        end
    } else if src[pos] == 10u8 {
        pos + 1
    } else {
        chunk_end(src, pos + 1, end)
    }
}

pub proof fn lemma_chunk_end(src: Seq<u8>, pos: int, end: int)
    requires
        pos < end,
    ensures
        pos < chunk_end(src, pos, end) <= end,
    decreases end - pos,
{
    if src[pos] != 10u8 {
        if pos + 1 < end {
            lemma_chunk_end(src, pos + 1, end);
        } else {
            assert(chunk_end(src, pos + 1, end) == end);
        }
    }
}

/// The bytes `[a, b)` are all ASCII whitespace.
pub open spec fn all_space(src: Seq<u8>, a: int, b: int) -> bool {
    forall|i: int| a <= i < b ==> is_ascii_space(#[trigger] src[i])
}

/// Some comment overlaps the bytes `[a, b)`.
pub open spec fn overlaps_comment(comments: Seq<Comment>, a: int, b: int) -> bool {
    exists|k: int| 0 <= k < comments.len() && (#[trigger] comments[k]).span.start < b && comments[k].span.end > a
}

/// The lines of the bytes `[pos, end)`, the `index`-th line first, without those lines after
/// the first that end with a line feed, hold only whitespace and overlap no comment.
pub open spec fn kept_lines(src: Seq<u8>, comments: Seq<Comment>, pos: int, end: int, index: int) -> Seq<char>
    decreases end - pos,
{
    if pos >= end {
        Seq::empty()
    } else {
        let ce = chunk_end(src, pos, end);
        proof {
            lemma_chunk_end(src, pos, end);
        }
        let dropped = index > 0 && src[ce - 1] == 10u8 && all_space(src, pos, ce) && !overlaps_comment(comments, pos, ce);
        (if dropped { Seq::empty() } else { piece(src, pos, ce) }) + kept_lines(src, comments, ce, end, index + 1)
    }
}

/// The bytes `[start, end)` without their blank lines after the first line (see
/// `kept_lines`); nothing where they are no slice of the text.
pub open spec fn without_blank_lines(src: Seq<u8>, comments: Seq<Comment>, start: int, end: int) -> Seq<char> {
    if slice_ok(src, start, end) {
        kept_lines(src, comments, start, end, 0)
    } else {
        Seq::empty()
    }
}

/// Whether a comment overlaps the bytes `[a, b)`.
fn comment_overlaps(program: &ModuleSyntax, a: usize, b: usize) -> (r: bool)
    ensures
        r == overlaps_comment(program.comments@, a as int, b as int),
{
    let comments = &program.comments;
    let n = comments.len();
    let mut k: usize = 0;
    while k < n
        invariant
            n == comments@.len(),
            comments@ == program.comments@,
            0 <= k <= n,
            forall|j: int| 0 <= j < k ==> !((#[trigger] comments@[j]).span.start < b && comments@[j].span.end > a),
        decreases n - k,
    {
        let cs = comments[k].span.start;
        let ce = comments[k].span.end;
        if (cs as usize) < b && (ce as usize) > a {
            proof {
                assert(program.comments@[k as int].span.start < b && program.comments@[k as int].span.end > a);
            }
            return true;
        }
        k += 1;
    }
    false
}

/// The bytes `[start, end)` of the text without their blank lines (see
/// `without_blank_lines`).
pub(crate) fn remove_blank_lines(source: &str, program: &ModuleSyntax, start: usize, end: usize) -> (r: String)
    ensures
        r@ == without_blank_lines(source.spec_bytes(), program.comments@, start as int, end as int),
{
    broadcast use vstd::utf8::encode_utf8_valid_utf8;
    let ghost src = source.spec_bytes();
    let ghost comments = program.comments@;
    let bytes = source.as_bytes();
    let n = bytes.len();
    let mut out = String::new();
    if !(start <= end && end <= n && source.is_char_boundary(start) && source.is_char_boundary(end)) {
        proof {
            assert(out@ =~= Seq::<char>::empty());
        }
        return out;
    }
    let mut pos = start;
    let mut index: usize = 0;
    proof {
        assert(out@ + kept_lines(src, comments, pos as int, end as int, index as int) =~= without_blank_lines(src, comments, start as int, end as int));
    }
    while pos < end
        invariant
            n == bytes@.len(),
            bytes@ == src,
            src == source.spec_bytes(),
            comments == program.comments@,
            valid_utf8(src),
            start <= pos <= end <= n,
            index <= pos,
            is_char_boundary(src, pos as int),
            is_char_boundary(src, end as int),
            out@ + kept_lines(src, comments, pos as int, end as int, index as int) == without_blank_lines(src, comments, start as int, end as int),
        decreases end - pos,
    {
        let mut ce = pos;
        while ce < end && bytes[ce] != 10u8
            invariant
                n == bytes@.len(),
                bytes@ == src,
                pos <= ce <= end <= n,
                chunk_end(src, pos as int, end as int) == chunk_end(src, ce as int, end as int),
                forall|i: int| pos <= i < ce ==> #[trigger] src[i] != 10u8,
            decreases end - ce,
        {
            ce += 1;
        }
        if ce < end {
            proof {
                vstd::utf8::is_char_boundary_iff_not_is_continuation_byte(src, ce as int);
                lemma_boundary_after_ascii(src, ce as int);
            }
            ce += 1;
        }
        proof {
            lemma_chunk_end(src, pos as int, end as int);
            assert(ce as int == chunk_end(src, pos as int, end as int));
        }
        let mut blank = true;
        let mut i = pos;
        while i < ce
            invariant
                n == bytes@.len(),
                bytes@ == src,
                pos <= i <= ce <= end <= n,
                blank == all_space(src, pos as int, i as int),
            decreases ce - i,
        {
            let c = bytes[i];
            if !(c == 32u8 || c == 9u8 || c == 10u8 || c == 12u8 || c == 13u8) {
                blank = false;
            }
            i += 1;
        }
        let has_comment = comment_overlaps(program, pos, ce);
        let ends_with_newline = bytes[ce - 1] == 10u8;
        let ghost before = out@;
        if !(index > 0 && ends_with_newline && blank && !has_comment) {
            let line = slice_of(source, pos, ce);
            crate::chars::push_str(&mut out, line);
        }
        proof {
            assert(out@ + kept_lines(src, comments, ce as int, end as int, index as int + 1) =~= before + kept_lines(src, comments, pos as int, end as int, index as int));
        }
        pos = ce;
        index += 1;
    }
    proof {
        assert(out@ =~= out@ + kept_lines(src, comments, pos as int, end as int, index as int));
    }
    out
}

/// `s[k]`, where `k` is in range.
pub open spec fn opt_at(s: Seq<usize>, k: int) -> Option<usize> {
    if 0 <= k < s.len() { Some(s[k]) } else { None }
}

/// The text that follows the `k`-th declaration of a rewritten group: the text between the
/// `k`-th and the next declaration of the group as written (the group's line ending where
/// there is no next one); under configured groups, two line endings where the two fall in
/// different buckets, blank lines are asked for and none is written, or the text without its
/// blank lines where they are forbidden.
pub open spec fn separator(m: ModuleSyntax, src: Seq<u8>, g: StatementBlock, k: int, grouped: Option<(Seq<usize>, NewlinesBetween)>) -> Seq<char> {
    let n = g.hi - g.lo;
    let nl = newline_of(src, g.start as int, g.end as int);
    let r0 = item_range(m, g, k);
    let r1 = item_range(m, g, k + 1);
    let original = if 0 <= k && k + 1 < n { piece(src, r0.1, r1.0) } else { nl };
    match grouped {
        Some((bidx, policy)) => {
            let blank = 0 <= k && k + 1 < n && blank_line_between(src, r0.1, r1.0);
            if policy == NewlinesBetween::Always && opt_at(bidx, k) != opt_at(bidx, k + 1) && !blank {
                nl + nl
            } else if policy == NewlinesBetween::Never {
                if 0 <= k && k + 1 < n { without_blank_lines(src, m.comments@, r0.1, r1.0) } else { original }
            } else {
                original
            }
        },
        None => original,
    }
}

/// The first `k` declarations of group `g` in the order `ordered` (positions in the group),
/// each with its comments and followed by its separator, but for the last one.
pub open spec fn rendered(m: ModuleSyntax, src: Seq<u8>, g: StatementBlock, ordered: Seq<usize>, grouped: Option<(Seq<usize>, NewlinesBetween)>, k: int) -> Seq<char>
    decreases k,
{
    if k <= 0 {
        Seq::empty()
    } else {
        let i = k - 1;
        let d = block_decls(m.body@, g)[ordered[i] as int];
        rendered(m, src, g, ordered, grouped, k - 1) + snippet(m, src, g, d) + if i + 1 >= ordered.len() {
            Seq::empty()
        } else {
            separator(m, src, g, i, grouped)
        }
    }
}

/// The group `group` rewritten in the order `ordered` (see `rendered`); `grouped` tells
/// whether `bucket_indices` and `policy` apply.
fn render_imports(
    source: &str,
    program: &ModuleSyntax,
    group: StatementBlock,
    ordered: &Vec<usize>,
    grouped: bool,
    bucket_indices: &Vec<usize>,
    policy: NewlinesBetween,
) -> (r: String)
    requires
        block_ok(program.body@, group),
        forall|t: int| 0 <= t < ordered@.len() ==> (#[trigger] ordered@[t]) < group.hi - group.lo,
    ensures
        r@ == rendered(*program, source.spec_bytes(), group, ordered@, if grouped { Some((bucket_indices@, policy)) } else { None }, ordered@.len() as int),
{
    let ghost src = source.spec_bytes();
    let ghost m = *program;
    let ghost gv: Option<(Seq<usize>, NewlinesBetween)> = if grouped { Some((bucket_indices@, policy)) } else { None };
    let n = group.hi - group.lo;
    let ranges = import_item_ranges(program, group);
    let newline = line_ending(source, group.start, group.end);
    let len = ordered.len();
    let nb = bucket_indices.len();
    let mut out = String::new();
    let mut idx: usize = 0;
    while idx < len
        invariant
            block_ok(program.body@, group),
            m == *program,
            src == source.spec_bytes(),
            gv == (if grouped { Some((bucket_indices@, policy)) } else { None::<(Seq<usize>, NewlinesBetween)> }),
            n == group.hi - group.lo,
            len == ordered@.len(),
            nb == bucket_indices@.len(),
            forall|t: int| 0 <= t < ordered@.len() ==> (#[trigger] ordered@[t]) < n,
            ranges@.len() == n,
            forall|t: int| 0 <= t < ranges@.len() ==> ((#[trigger] ranges@[t]).0 as int, ranges@[t].1 as int) == item_range(m, group, t),
            newline@ == newline_of(src, group.start as int, group.end as int),
            0 <= idx <= len,
            out@ == rendered(m, src, group, ordered@, gv, idx as int),
        decreases len - idx,
    {
        let d = block_decl(program, group, ordered[idx]);
        let actual = first_at_start(program, group, d.span.start);
        let (a, b) = ranges[actual];
        let text = slice_of(source, a, b);
        let ghost before = out@;
        crate::chars::push_str(&mut out, text);
        if idx + 1 < len {
            let mut sep = String::new();
            let has_next = idx + 1 < n;
            let original: String = if has_next {
                string_of(slice_of(source, ranges[idx].1, ranges[idx + 1].0))
            } else {
                crate::chars::copy_string(&newline)
            };
            if grouped {
                let blank = has_next && has_blank_line_between(source, ranges[idx].1, ranges[idx + 1].0);
                let differ = if idx + 1 < nb {
                    bucket_indices[idx] != bucket_indices[idx + 1]
                } else {
                    idx < nb
                };
                if policy == NewlinesBetween::Always && differ && !blank {
                    crate::chars::push_str(&mut sep, newline.as_str());
                    crate::chars::push_str(&mut sep, newline.as_str());
                } else if policy == NewlinesBetween::Never {
                    if has_next {
                        let cleaned = remove_blank_lines(source, program, ranges[idx].1, ranges[idx + 1].0);
                        crate::chars::push_str(&mut sep, cleaned.as_str());
                    } else {
                        crate::chars::push_str(&mut sep, original.as_str());
                    }
                } else {
                    crate::chars::push_str(&mut sep, original.as_str());
                }
            } else {
                crate::chars::push_str(&mut sep, original.as_str());
            }
            proof {
                assert(sep@ == separator(m, src, group, idx as int, gv));
            }
            crate::chars::push_str(&mut out, sep.as_str());
        }
        proof {
            assert(*d == block_decls(m.body@, group)[ordered@[idx as int] as int]);
            assert(text@ == snippet(m, src, group, *d));
            assert(out@ =~= rendered(m, src, group, ordered@, gv, idx as int + 1));
        }
        idx += 1;
    }
    out
}

// ----------------------------------------------------------------------------------------------
// Fixes

/// The list of an optional fix.
pub open spec fn opt_fix(f: Option<FixView>) -> Seq<FixView> {
    match f {
        Some(x) => seq![x],
        None => Seq::empty(),
    }
}

/// The fix of `file` that replaces the bytes `[start, end)` with `replacement`, where that
/// changes them.
pub open spec fn fix_if_changed(file: Seq<char>, src: Seq<u8>, start: int, end: int, replacement: Seq<char>) -> Option<FixView> {
    if replacement == piece(src, start, end) {
        None
    } else {
        Some(FixView {
            file,
            rule: SORT_IMPORTS_RULE_ID@,
            edits: seq![TextEditView { start: start as usize, end: end as usize, replacement }],
        })
    }
}

/// No key sorts after the next one.
pub open spec fn keys_sorted(keys: Seq<Seq<char>>) -> bool {
    forall|i: int| 0 <= i && i + 1 < keys.len() ==> char_seq_order(#[trigger] keys[i], keys[i + 1]) <= 0
}

/// The positions `0..n`.
pub open spec fn positions(n: int) -> Seq<usize> {
    Seq::new(n as nat, |i: int| i as usize)
}

/// The fix of a blank-line separated group whose keys are out of order: the group rewritten
/// with its declarations ordered by key, where that changes it.
pub open spec fn ungrouped_fix(file: Seq<char>, m: ModuleSyntax, src: Seq<u8>, g: StatementBlock) -> Option<FixView> {
    let decls = block_decls(m.body@, g);
    let keys = decl_keys(decls);
    if keys_sorted(keys) {
        None
    } else {
        let ordered = key_sort(positions(decls.len() as int), keys);
        fix_if_changed(file, src, g.start as int, g.end as int, rendered(m, src, g, ordered, None, ordered.len() as int))
    }
}

/// For each position of the flattened buckets, the index of its bucket.
pub open spec fn bucket_positions(buckets: Seq<Seq<usize>>) -> Seq<usize>
    decreases buckets.len(),
{
    if buckets.len() == 0 {
        Seq::empty()
    } else {
        bucket_positions(buckets.drop_last()) + Seq::new(buckets.last().len(), |t: int| (buckets.len() - 1) as usize)
    }
}

/// The fix of a block under configured groups: the block rewritten in the expected order, with
/// the blank-line policy between groups, where that changes it.
pub open spec fn grouped_fix(file: Seq<char>, m: ModuleSyntax, src: Seq<u8>, g: StatementBlock, config: SortImportsRuleConfig) -> Option<FixView> {
    let decls = block_decls(m.body@, g);
    let buckets = ordered_buckets(group_lists(config.groups@), decl_classes(decls, config.internal_patterns@), decl_keys(decls));
    let ordered = flatten(buckets);
    fix_if_changed(file, src, g.start as int, g.end as int,
        rendered(m, src, g, ordered, Some((bucket_positions(buckets), config.newlines_between)), ordered.len() as int))
}

/// The fix of the gap between the `i`-th declaration and the next where a blank line
/// separates them: the gap, from the trailing comments of the first to the leading comments of
/// the second, without its blank lines, where that changes it.
pub open spec fn never_pair_fix(file: Seq<char>, m: ModuleSyntax, src: Seq<u8>, decls: Seq<ImportDeclaration>, i: int) -> Option<FixView> {
    if !blank_line_between(src, decls[i].span.end as int, decls[i + 1].span.start as int) {
        None
    } else {
        let next_start = leading_start(m.comments@, decls[i + 1].span.start);
        let prev_end = trailing_end(m.comments@, decls[i].span.end, next_start as int);
        fix_if_changed(file, src, prev_end as int, next_start as int, without_blank_lines(src, m.comments@, prev_end as int, next_start as int))
    }
}

/// The fixes of the first `k` gaps of a block where blank lines are forbidden.
pub open spec fn never_fixes(file: Seq<char>, m: ModuleSyntax, src: Seq<u8>, decls: Seq<ImportDeclaration>, k: int) -> Seq<FixView>
    decreases k,
{
    if k <= 0 {
        Seq::empty()
    } else {
        never_fixes(file, m, src, decls, k - 1) + opt_fix(never_pair_fix(file, m, src, decls, k - 1))
    }
}

/// The gap fixes of each of `blocks`, one block after another.
pub open spec fn never_blocks_fixes(file: Seq<char>, m: ModuleSyntax, src: Seq<u8>, blocks: Seq<StatementBlock>) -> Seq<FixView>
    decreases blocks.len(),
{
    if blocks.len() == 0 {
        Seq::empty()
    } else {
        let b = blocks.last();
        never_blocks_fixes(file, m, src, blocks.drop_last()) + never_fixes(file, m, src, block_decls(m.body@, b), b.hi - b.lo - 1)
    }
}

/// The fixes of each of `blocks` under configured groups.
pub open spec fn grouped_blocks_fixes(file: Seq<char>, m: ModuleSyntax, src: Seq<u8>, config: SortImportsRuleConfig, blocks: Seq<StatementBlock>) -> Seq<FixView>
    decreases blocks.len(),
{
    if blocks.len() == 0 {
        Seq::empty()
    } else {
        grouped_blocks_fixes(file, m, src, config, blocks.drop_last()) + opt_fix(grouped_fix(file, m, src, blocks.last(), config))
    }
}

/// The fixes of each of the blank-line separated `groups`.
pub open spec fn ungrouped_groups_fixes(file: Seq<char>, m: ModuleSyntax, src: Seq<u8>, groups: Seq<StatementBlock>) -> Seq<FixView>
    decreases groups.len(),
{
    if groups.len() == 0 {
        Seq::empty()
    } else {
        ungrouped_groups_fixes(file, m, src, groups.drop_last()) + opt_fix(ungrouped_fix(file, m, src, groups.last()))
    }
}

/// The fixes of `sort-imports` on a module: none where the rule is off; with configured
/// groups, the rewrite of each block in the expected order; else the rewrite of each
/// unsorted blank-line separated group, then, where blank lines are forbidden, each gap
/// between two imports of a block without its blank lines.
pub open spec fn sort_imports_fixes(file: Seq<char>, m: ModuleSyntax, src: Seq<u8>, config: SortImportsRuleConfig) -> Seq<FixView> {
    if config.severity == Severity::Off {
        Seq::empty()
    } else {
        let blocks = import_blocks(m, src.len() as int);
        if config.groups@.len() > 0 {
            grouped_blocks_fixes(file, m, src, config, blocks)
        } else {
            ungrouped_groups_fixes(file, m, src, import_groups(m, src)) + if config.newlines_between == NewlinesBetween::Never {
                never_blocks_fixes(file, m, src, blocks)
            } else {
                Seq::empty()
            }
        }
    }
}

/// The fix that replaces the bytes `[start, end)` with `replacement`, where that changes them.
fn changed_fix(file: &str, source: &str, start: usize, end: usize, replacement: String) -> (r: Option<Fix>)
    ensures
        match r {
            Some(f) => fix_if_changed(file@, source.spec_bytes(), start as int, end as int, replacement@) == Some(f@),
            None => fix_if_changed(file@, source.spec_bytes(), start as int, end as int, replacement@) is None,
        },
{
    let original = slice_of(source, start, end);
    if str_equal(replacement.as_str(), original) {
        None
    } else {
        Some(Fix::single(file, SORT_IMPORTS_RULE_ID, start, end, replacement))
    }
}

/// The fix of one blank-line separated group (see `ungrouped_fix`).
fn fix_group_ungrouped(file: &str, program: &ModuleSyntax, source: &str, group: StatementBlock) -> (r: Option<Fix>)
    requires
        block_ok(program.body@, group),
    ensures
        match r {
            Some(f) => ungrouped_fix(file@, *program, source.spec_bytes(), group) == Some(f@),
            None => ungrouped_fix(file@, *program, source.spec_bytes(), group) is None,
        },
{
    let ghost decls = block_decls(program.body@, group);
    let (_, keys) = kinds_and_keys(program, group, &Vec::new());
    let n = group.hi - group.lo;
    proof {
        assert(key_views(keys@).len() == keys@.len());
    }
    let mut sorted = true;
    let mut i: usize = 0;
    while i + 1 < n
        invariant
            n == group.hi - group.lo,
            n >= 1,
            key_views(keys@) == decl_keys(decls),
            decls == block_decls(program.body@, group),
            keys@.len() == n,
            0 <= i < n,
            sorted == (forall|j: int| 0 <= j < i ==> char_seq_order(#[trigger] decl_keys(decls)[j], decl_keys(decls)[j + 1]) <= 0),
        decreases n - i,
    {
        let c = crate::order::compare_str(keys[i].as_str(), keys[i + 1].as_str());
        proof {
            assert(key_views(keys@)[i as int] == keys@[i as int]@);
            assert(key_views(keys@)[i + 1] == keys@[i + 1]@);
        }
        if c > 0 {
            sorted = false;
        }
        i += 1;
    }
    proof {
        assert(sorted == keys_sorted(decl_keys(decls)));
    }
    if sorted {
        return None;
    }
    let mut items: Vec<usize> = Vec::new();
    let mut t: usize = 0;
    while t < n
        invariant
            0 <= t <= n,
            keys@.len() == n,
            items@ == positions(t as int),
        decreases n - t,
    {
        items.push(t);
        t += 1;
        proof {
            assert(items@ =~= positions(t as int));
        }
    }
    let ordered = sort_by_keys(&items, &keys);
    let replacement = render_imports(source, program, group, &ordered, false, &Vec::new(), NewlinesBetween::Ignore);
    changed_fix(file, source, group.start, group.end, replacement)
}

/// For each position of the flattened buckets, the index of its bucket.
pub(crate) fn bucket_positions_of(buckets: &Vec<Vec<usize>>) -> (r: Vec<usize>)
    ensures
        r@ == bucket_positions(bucket_views(buckets@)),
{
    let nb = buckets.len();
    let mut out: Vec<usize> = Vec::new();
    let mut b: usize = 0;
    while b < nb
        invariant
            nb == buckets@.len(),
            0 <= b <= nb,
            out@ == bucket_positions(bucket_views(buckets@).take(b as int)),
        decreases nb - b,
    {
        let m = buckets[b].len();
        let ghost before = out@;
        let mut t: usize = 0;
        while t < m
            invariant
                m == buckets@[b as int]@.len(),
                0 <= t <= m,
                out@ == before + Seq::new(t as nat, |u: int| b),
            decreases m - t,
        {
            out.push(b);
            t += 1;
            proof {
                assert(out@ =~= before + Seq::new(t as nat, |u: int| b));
            }
        }
        proof {
            let bv = bucket_views(buckets@).take(b as int + 1);
            assert(bv.drop_last() =~= bucket_views(buckets@).take(b as int));
            assert(out@ =~= bucket_positions(bv));
        }
        b += 1;
    }
    proof {
        assert(bucket_views(buckets@).take(nb as int) =~= bucket_views(buckets@));
    }
    out
}

/// The fix of one block under configured groups (see `grouped_fix`).
fn fix_block_grouped(file: &str, program: &ModuleSyntax, source: &str, block: StatementBlock, config: &SortImportsRuleConfig) -> (r: Option<Fix>)
    requires
        block_ok(program.body@, block),
    ensures
        match r {
            Some(f) => grouped_fix(file@, *program, source.spec_bytes(), block, *config) == Some(f@),
            None => grouped_fix(file@, *program, source.spec_bytes(), block, *config) is None,
        },
{
    let ghost decls = block_decls(program.body@, block);
    let n = block.hi - block.lo;
    let (classes, keys) = kinds_and_keys(program, block, &config.internal_patterns);
    proof {
        assert(key_views(keys@).len() == keys@.len());
        assert(decl_keys(decls).len() == n);
    }
    let ordered_buckets_v = build_group_order(&config.groups, &classes, &keys);
    let ghost buckets = ordered_buckets(group_lists(config.groups@), decl_classes(decls, config.internal_patterns@), decl_keys(decls));
    proof {
        assert(bucket_views(ordered_buckets_v@) =~= buckets);
    }
    let ordered = flatten_buckets(&ordered_buckets_v, n);
    let positions_v = bucket_positions_of(&ordered_buckets_v);
    let replacement = render_imports(source, program, block, &ordered, true, &positions_v, config.newlines_between);
    changed_fix(file, source, block.start, block.end, replacement)
}

/// The gap fixes of one block where blank lines are forbidden (see `never_fixes`).
fn fix_never_newlines(file: &str, program: &ModuleSyntax, source: &str, block: StatementBlock) -> (r: Vec<Fix>)
    requires
        block_ok(program.body@, block),
    ensures
        fix_views(r@) == never_fixes(file@, *program, source.spec_bytes(), block_decls(program.body@, block), block.hi - block.lo - 1),
{
    let ghost decls = block_decls(program.body@, block);
    let ghost src = source.spec_bytes();
    let n = block.hi - block.lo;
    let mut fixes: Vec<Fix> = Vec::new();
    let mut i: usize = 0;
    while i + 1 < n
        invariant
            block_ok(program.body@, block),
            decls == block_decls(program.body@, block),
            src == source.spec_bytes(),
            n == block.hi - block.lo,
            n >= 1,
            0 <= i < n,
            fix_views(fixes@) == never_fixes(file@, *program, src, decls, i as int),
        decreases n - i,
    {
        let a = block_decl(program, block, i);
        let b = block_decl(program, block, i + 1);
        let ghost before = fixes@;
        if has_blank_line_between(source, a.span.end as usize, b.span.start as usize) {
            let next_start = leading_trivia_start(program, b.span.start);
            let previous_end = trailing_trivia_end(program, a.span.end, next_start as usize);
            let replacement = remove_blank_lines(source, program, previous_end as usize, next_start as usize);
            match changed_fix(file, source, previous_end as usize, next_start as usize, replacement) {
                Some(f) => {
                    fixes.push(f);
                    proof {
                        assert(fix_views(fixes@) =~= fix_views(before).push(f@));
                    }
                },
                None => {},
            }
        }
        proof {
            assert(fix_views(fixes@) =~= never_fixes(file@, *program, src, decls, i as int + 1));
        }
        i += 1;
    }
    fixes
}

pub(crate) proof fn lemma_fix_views_append(a: Seq<Fix>, b: Seq<Fix>)
    ensures
        fix_views(a + b) == fix_views(a) + fix_views(b),
{
    assert(fix_views(a + b) =~= fix_views(a) + fix_views(b));
}

/// The fixes of `sort-imports` on one module (see `sort_imports_fixes`).
pub fn fix_file(file: &str, program: &ModuleSyntax, source: &str, config: &SortImportsRuleConfig) -> (r: Vec<Fix>)
    ensures
        fix_views(r@) == sort_imports_fixes(file@, *program, source.spec_bytes(), *config),
{
    let ghost src = source.spec_bytes();
    let ghost m = *program;
    if !config.severity.is_enabled() {
        proof {
            assert(fix_views(Seq::<Fix>::empty()) =~= Seq::<FixView>::empty());
        }
        return Vec::new();
    }
    let blocks = find_contiguous_import_blocks(program, source);
    let groups = find_import_groups(program, source);
    let mut fixes: Vec<Fix> = Vec::new();
    if config.groups.len() > 0 {
        let nb = blocks.len();
        let mut i: usize = 0;
        while i < nb
            invariant
                nb == blocks@.len(),
                src == source.spec_bytes(),
                m == *program,
                forall|k: int| 0 <= k < blocks@.len() ==> block_ok(program.body@, #[trigger] blocks@[k]),
                0 <= i <= nb,
                fix_views(fixes@) == grouped_blocks_fixes(file@, m, src, *config, blocks@.take(i as int)),
            decreases nb - i,
        {
            proof {
                assert(blocks@.take(i as int + 1).drop_last() =~= blocks@.take(i as int));
            }
            let ghost before = fixes@;
            match fix_block_grouped(file, program, source, blocks[i], config) {
                Some(f) => {
                    fixes.push(f);
                    proof {
                        assert(fix_views(fixes@) =~= fix_views(before).push(f@));
                    }
                },
                None => {},
            }
            proof {
                assert(fix_views(fixes@) =~= grouped_blocks_fixes(file@, m, src, *config, blocks@.take(i as int + 1)));
            }
            i += 1;
        }
        proof {
            assert(blocks@.take(nb as int) =~= blocks@);
        }
        return fixes;
    }
    let ng = groups.len();
    let mut i: usize = 0;
    while i < ng
        invariant
            ng == groups@.len(),
            src == source.spec_bytes(),
            m == *program,
            forall|k: int| 0 <= k < groups@.len() ==> block_ok(program.body@, #[trigger] groups@[k]),
            0 <= i <= ng,
            fix_views(fixes@) == ungrouped_groups_fixes(file@, m, src, groups@.take(i as int)),
        decreases ng - i,
    {
        proof {
            assert(groups@.take(i as int + 1).drop_last() =~= groups@.take(i as int));
        }
        let ghost before = fixes@;
        match fix_group_ungrouped(file, program, source, groups[i]) {
            Some(f) => {
                fixes.push(f);
                proof {
                    assert(fix_views(fixes@) =~= fix_views(before).push(f@));
                }
            },
            None => {},
        }
        proof {
            assert(fix_views(fixes@) =~= ungrouped_groups_fixes(file@, m, src, groups@.take(i as int + 1)));
        }
        i += 1;
    }
    proof {
        assert(groups@.take(ng as int) =~= groups@);
    }
    let ghost head = fix_views(fixes@);
    if config.newlines_between == NewlinesBetween::Never {
        let nb = blocks.len();
        let mut j: usize = 0;
        while j < nb
            invariant
                nb == blocks@.len(),
                src == source.spec_bytes(),
                m == *program,
                forall|k: int| 0 <= k < blocks@.len() ==> block_ok(program.body@, #[trigger] blocks@[k]),
                0 <= j <= nb,
                fix_views(fixes@) == head + never_blocks_fixes(file@, m, src, blocks@.take(j as int)),
            decreases nb - j,
        {
            proof {
                assert(blocks@.take(j as int + 1).drop_last() =~= blocks@.take(j as int));
            }
            let ghost before = fixes@;
            let mut part = fix_never_newlines(file, program, source, blocks[j]);
            let ghost part_v = part@;
            fixes.append(&mut part);
            proof {
                lemma_fix_views_append(before, part_v);
            }
            j += 1;
        }
        proof {
            assert(blocks@.take(nb as int) =~= blocks@);
        }
    } else {
        proof {
            assert(fix_views(fixes@) =~= head + Seq::<FixView>::empty());
        }
    }
    fixes
}

} // verus!
