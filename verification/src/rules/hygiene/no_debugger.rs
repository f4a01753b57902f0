//! `no-debugger`: no `debugger` statement; the fix removes each one with the `;` that ends it
//! and the white space that follows.

use vstd::prelude::*;
use vstd::string::StringSliceAdditionalSpecFns;
use vstd::utf8::encode_utf8;
use crate::chars::{chars_of, string_from_chars, string_of};
use crate::config::{RuleConfig, Severity};
use crate::rules::imports::sort_imports::{piece, slice_of, slice_ok};
use crate::rules::{fix_views, views, Fix, FixView, TextEdit, TextEditView, Violation, ViolationView, NO_DEBUGGER_RULE_ID};
use crate::syntax::{span_position, LineIndex, Span};

verus! {

pub const NO_DEBUGGER_MESSAGE: &'static str = "Remove debugger statements before committing code.";

/// Whether `char::is_whitespace` holds of `c`: the character has the Unicode White_Space
/// property.
pub uninterp spec fn white_space(c: char) -> bool;

/// Tests a character with `char::is_whitespace`. Claimed: the result is `white_space` of the
/// character; which characters have the property is the standard library's and is not stated.
#[verifier::external_body]
fn is_whitespace(c: char) -> (r: bool)
    ensures
        r == white_space(c),
{
    c.is_whitespace()
}

/// The number of white-space characters in a row from position `i` of `cs`.
pub open spec fn white_run(cs: Seq<char>, i: int) -> nat
    decreases cs.len() - i,
{
    if i < 0 || i >= cs.len() || !white_space(cs[i]) {
        0
    } else {
        1 + white_run(cs, i + 1)
    }
}

/// The characters of the text from byte `e` to its end, or none where `e` is no boundary in
/// it.
pub open spec fn rest_from(src: Seq<u8>, e: int) -> Seq<char> {
    piece(src, e, src.len() as int)
}

/// Where a statement ending at byte `e` ends with its `;`: after the `;` that follows it past
/// white space, if one does, else at `e`.
pub open spec fn semicolon_end(src: Seq<u8>, e: int) -> int {
    let cs = rest_from(src, e);
    let w = white_run(cs, 0);
    if w < cs.len() && cs[w as int] == ';' {
        e + encode_utf8(cs.take(w as int)).len() + 1
    } else {
        e
    }
}

/// Where the removal of a statement ending at byte `e` ends: past its `;`, then past as many
/// bytes as there are white-space characters that follow.
pub open spec fn removal_end(src: Seq<u8>, e: int) -> int {
    let e1 = semicolon_end(src, e);
    e1 + white_run(rest_from(src, e1), 0)
}

/// The finding at a `debugger` statement spanning `span`.
pub open spec fn debugger_finding(file: Seq<char>, index: LineIndex, config: RuleConfig, span: Span) -> ViolationView {
    let pos = span_position(index, span);
    ViolationView {
        file,
        span: None,
        line: Some(pos.line),
        column: Some(pos.column),
        rule: NO_DEBUGGER_RULE_ID@,
        message: NO_DEBUGGER_MESSAGE@,
        severity: config.severity,
        detail: None,
        subject: None,
    }
}

/// The edit that removes the `debugger` statement spanning `span`.
pub open spec fn removal_edit(src: Seq<u8>, span: Span) -> TextEditView {
    TextEditView { start: span.start as usize, end: removal_end(src, span.end as int) as usize, replacement: Seq::empty() }
}

/// The removal edits of the statements, in order.
pub open spec fn removal_edits(src: Seq<u8>, spans: Seq<Span>) -> Seq<TextEditView> {
    spans.map_values(|s: Span| removal_edit(src, s))
}

/// The fixes of a module: none where the rule is off or there is no `debugger` statement; else
/// one fix with a removal per statement.
pub open spec fn debugger_fixes(file: Seq<char>, src: Seq<u8>, config: RuleConfig, spans: Seq<Span>) -> Seq<FixView> {
    if config.severity == Severity::Off || spans.len() == 0 {
        Seq::empty()
    } else {
        seq![FixView { file, rule: NO_DEBUGGER_RULE_ID@, edits: removal_edits(src, spans) }]
    }
}

proof fn lemma_encode_concat(a: Seq<char>, b: Seq<char>)
    ensures
        encode_utf8(a + b) == encode_utf8(a) + encode_utf8(b),
    decreases a.len(),
{
    if a.len() == 0 {
        assert(a + b =~= b);
    } else {
        assert((a + b).drop_first() =~= a.drop_first() + b);
        assert((a + b)[0] == a[0]);
        lemma_encode_concat(a.drop_first(), b);
    }
}

proof fn lemma_encode_len(cs: Seq<char>)
    ensures
        encode_utf8(cs).len() >= cs.len(),
    decreases cs.len(),
{
    if cs.len() > 0 {
        lemma_encode_len(cs.drop_first());
    }
}

fn white_prefix(cs: &Vec<char>) -> (r: usize)
    ensures
        r as nat == white_run(cs@, 0),
        r <= cs@.len(),
{
    let n = cs.len();
    let mut i: usize = 0;
    while i < n && is_whitespace(cs[i])
        invariant
            n == cs@.len(),
            0 <= i <= n,
            white_run(cs@, 0) == i + white_run(cs@, i as int),
        decreases n - i,
    {
        i += 1;
    }
    i
}

/// Where the removal of a statement ending at byte `e` of `source` ends (see `removal_end`).
pub fn removal_end_of(source: &str, e: usize) -> (r: usize)
    ensures
        r as int == removal_end(source.spec_bytes(), e as int),
{
    let ghost src = source.spec_bytes();
    let n = source.as_bytes().len();
    let after = slice_of(source, e, n);
    let cs = chars_of(after);
    let w = white_prefix(&cs);
    let mut e1 = e;
    if w < cs.len() && cs[w] == ';' {
        let pre = string_from_chars(cs.as_slice(), 0, w);
        let plen = pre.as_str().as_bytes().len();
        proof {
            assert(pre@ =~= cs@.take(w as int));
            assert(slice_ok(src, e as int, n as int));
            assert(after.spec_bytes() == encode_utf8(cs@));
            assert(cs@ =~= cs@.take(w as int) + cs@.skip(w as int));
            lemma_encode_concat(cs@.take(w as int), cs@.skip(w as int));
            lemma_encode_len(cs@.skip(w as int));
        }
        e1 = e + plen + 1;
    }
    let remaining = slice_of(source, e1, n);
    let rs = chars_of(remaining);
    let count = white_prefix(&rs);
    proof {
        if slice_ok(src, e1 as int, n as int) {
            assert(remaining.spec_bytes() == encode_utf8(rs@));
            lemma_encode_len(rs@);
        }
    }
    e1 + count
}

/// The findings of `no-debugger` on the `debugger` statements of one module, in walk order: one
/// at each.
pub fn check_file(file: &str, statements: &Vec<Span>, line_index: &LineIndex, config: &RuleConfig) -> (r: Vec<Violation>)
    ensures
        views(r@) == statements@.map_values(|s: Span| debugger_finding(file@, *line_index, *config, s)),
{
    let mut out: Vec<Violation> = Vec::new();
    let n = statements.len();
    let mut k: usize = 0;
    while k < n
        invariant
            n == statements@.len(),
            0 <= k <= n,
            views(out@) == statements@.take(k as int).map_values(|s: Span| debugger_finding(file@, *line_index, *config, s)),
        decreases n - k,
    {
        let ghost before = out@;
        let span = statements[k];
        let pos = line_index.position_for(span);
        let v = Violation::located(file, Some(pos.line), Some(pos.column), NO_DEBUGGER_RULE_ID, NO_DEBUGGER_MESSAGE, config.severity, None, None);
        out.push(v);
        proof {
            assert(statements@.take(k as int + 1) =~= statements@.take(k as int).push(span));
            assert(views(out@) =~= views(before).push(v@));
        }
        k += 1;
    }
    proof {
        assert(statements@.take(n as int) =~= statements@);
    }
    out
}

/// The fix of `no-debugger` for one module (see `debugger_fixes`).
pub fn fix_file(file: &str, statements: &Vec<Span>, source: &str, config: &RuleConfig) -> (r: Vec<Fix>)
    ensures
        fix_views(r@) == debugger_fixes(file@, source.spec_bytes(), *config, statements@),
{
    let mut fixes: Vec<Fix> = Vec::new();
    if !config.severity.is_enabled() || statements.len() == 0 {
        proof {
            assert(fix_views(fixes@) =~= debugger_fixes(file@, source.spec_bytes(), *config, statements@));
        }
        return fixes;
    }
    let mut edits: Vec<TextEdit> = Vec::new();
    let n = statements.len();
    let mut k: usize = 0;
    while k < n
        invariant
            n == statements@.len(),
            0 <= k <= n,
            edits@.map_values(|e: TextEdit| e@) == removal_edits(source.spec_bytes(), statements@.take(k as int)),
        decreases n - k,
    {
        let ghost before = edits@;
        let span = statements[k];
        let end = removal_end_of(source, span.end as usize);
        let e = TextEdit { start: span.start as usize, end, replacement: String::new() };
        edits.push(e);
        proof {
            assert(statements@.take(k as int + 1) =~= statements@.take(k as int).push(span));
            assert(e@ == removal_edit(source.spec_bytes(), span));
            assert(edits@.map_values(|e: TextEdit| e@) =~= before.map_values(|e: TextEdit| e@).push(e@));
            assert(removal_edits(source.spec_bytes(), statements@.take(k as int + 1)) =~= removal_edits(source.spec_bytes(), statements@.take(k as int)).push(removal_edit(source.spec_bytes(), span)));
        }
        k += 1;
    }
    proof {
        assert(statements@.take(n as int) =~= statements@);
    }
    let fix = Fix { file: string_of(file), rule: string_of(NO_DEBUGGER_RULE_ID), edits };
    fixes.push(fix);
    proof {
        assert(fix_views(fixes@) =~= debugger_fixes(file@, source.spec_bytes(), *config, statements@));
    }
    fixes
}

/// The fix answers the findings one for one: where the rule is on and a statement is found,
/// the one fix holds an edit per finding, from the start of its statement to no earlier than
/// its end.
pub proof fn fix_matches_findings(file: Seq<char>, index: LineIndex, config: RuleConfig, src: Seq<u8>, spans: Seq<Span>)
    requires
        config.severity != Severity::Off,
        spans.len() > 0,
    ensures
        ({
            let found = spans.map_values(|s: Span| debugger_finding(file, index, config, s));
            let fixes = debugger_fixes(file, src, config, spans);
            &&& fixes.len() == 1
            &&& fixes[0].edits.len() == found.len()
            &&& forall|i: int| 0 <= i < spans.len() ==> (#[trigger] fixes[0].edits[i]).start == spans[i].start
                && removal_end(src, spans[i].end as int) >= spans[i].end
        }),
{
}

} // verus!
