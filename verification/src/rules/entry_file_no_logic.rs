//! `entry-file-no-logic`: entry files (`main`, `app`, `layout`, `page`, and configured ones)
//! only wire modules together; functions, classes and top-level control flow belong elsewhere.

use vstd::prelude::*;
use crate::chars::{chars_of, ends_with, str_ends_with, str_equal, string_of, copy_opt_string};
use crate::config::{EntryFileNoLogicRuleConfig, Severity};
use crate::paths::{file_name, file_name_of, stem, stem_of};
use crate::program::{ControlFlowKind, Declarator, ExportDefaultKind, Initializer, ProgramModel, TopLevelStatement};
use crate::rules::{opt_chars, views, Violation, ViolationView, ENTRY_FILE_NO_LOGIC_RULE_ID};
use crate::syntax::{span_position, LineIndex, Span};

verus! {

pub const ENTRY_FILE_NO_LOGIC_MESSAGE: &'static str = "Entry files should delegate logic. Move implementation to dedicated modules.";
pub const FUNCTION_DETAIL: &'static str = "Function declarations contain logic that should be moved to a dedicated module.";
pub const CLASS_DETAIL: &'static str = "Class declarations contain logic that should be moved to a dedicated module.";
pub const DEFAULT_CLASS_DETAIL: &'static str = "Default-exported class contains logic that should be delegated.";
pub const ARROW_DETAIL: &'static str = "Arrow function contains logic that should be moved to a dedicated module.";
pub const FUNCTION_EXPRESSION_DETAIL: &'static str = "Function expression contains logic that should be moved to a dedicated module.";

/// The stems that are always entry files.
pub open spec fn is_default_entry(st: Seq<char>) -> bool {
    st == "main"@ || st == "app"@ || st == "layout"@ || st == "page"@
}

/// A configured entry pattern names the stem: equal to it, or (where the pattern starts with
/// `.`) the rest of the pattern ends it.
pub open spec fn stem_matches(st: Seq<char>, pattern: Seq<char>) -> bool {
    st == pattern || (pattern.len() > 0 && pattern[0] == '.' && ends_with(st, pattern.skip(1)))
}

/// `file` is an entry file under `config`.
pub open spec fn is_entry(file: Seq<char>, config: EntryFileNoLogicRuleConfig) -> bool {
    let st = stem(file_name(file));
    &&& file_name(file).len() > 0
    &&& (is_default_entry(st) || exists|k: int| 0 <= k < config.entry_files@.len()
        && stem_matches(st, (#[trigger] config.entry_files@[k])@))
}

/// The name of a kind of control flow.
pub open spec fn control_name(k: ControlFlowKind) -> Seq<char> {
    match k {
        ControlFlowKind::If => "If statement"@,
        ControlFlowKind::For => "For loop"@,
        ControlFlowKind::ForIn => "For-in loop"@,
        ControlFlowKind::ForOf => "For-of loop"@,
        ControlFlowKind::While => "While loop"@,
        ControlFlowKind::DoWhile => "Do-while loop"@,
        ControlFlowKind::Switch => "Switch statement"@,
        ControlFlowKind::Try => "Try-catch block"@,
    }
}

/// `<kind> at top level contains logic that should be delegated.`
pub open spec fn control_detail(k: ControlFlowKind) -> Seq<char> {
    control_name(k) + " at top level contains logic that should be delegated."@
}

/// A finding at `span` of `file`.
pub open spec fn entry_finding(file: Seq<char>, index: LineIndex, span: Span, detail: Seq<char>, subject: Option<Seq<char>>, severity: Severity) -> ViolationView {
    let pos = span_position(index, span);
    ViolationView {
        file,
        span: Some(span),
        line: Some(pos.line),
        column: Some(pos.column),
        rule: ENTRY_FILE_NO_LOGIC_RULE_ID@,
        message: ENTRY_FILE_NO_LOGIC_MESSAGE@,
        severity,
        detail: Some(detail),
        subject,
    }
}

/// The findings of the declarators of a variable declaration: one for each that is
/// initialized with a function.
pub open spec fn declarator_findings(decls: Seq<Declarator>, file: Seq<char>, index: LineIndex, severity: Severity) -> Seq<ViolationView>
    decreases decls.len(),
{
    if decls.len() == 0 {
        Seq::empty()
    } else {
        let d = decls.last();
        let rest = declarator_findings(decls.drop_last(), file, index, severity);
        match d.init {
            Some(Initializer::Arrow(span)) => rest.push(entry_finding(file, index, span, ARROW_DETAIL@, opt_chars(d.name), severity)),
            Some(Initializer::Function(span)) => rest.push(entry_finding(file, index, span, FUNCTION_EXPRESSION_DETAIL@, opt_chars(d.name), severity)),
            _ => rest,
        }
    }
}

/// The findings of one top-level statement.
pub open spec fn statement_findings(st: TopLevelStatement, file: Seq<char>, index: LineIndex, severity: Severity) -> Seq<ViolationView> {
    match st {
        TopLevelStatement::Function { span, name } => seq![entry_finding(file, index, span, FUNCTION_DETAIL@, opt_chars(name), severity)],
        TopLevelStatement::Class { span, name } => seq![entry_finding(file, index, span, CLASS_DETAIL@, opt_chars(name), severity)],
        TopLevelStatement::ExportDefault(ExportDefaultKind::Class { span, name }) =>
            seq![entry_finding(file, index, span, DEFAULT_CLASS_DETAIL@, opt_chars(name), severity)],
        TopLevelStatement::Variable(decls) => declarator_findings(decls@, file, index, severity),
        TopLevelStatement::ControlFlow { kind, span } => seq![entry_finding(file, index, span, control_detail(kind), None, severity)],
        _ => Seq::empty(),
    }
}

/// The findings of the statements, in order.
pub open spec fn program_findings(body: Seq<TopLevelStatement>, file: Seq<char>, index: LineIndex, severity: Severity) -> Seq<ViolationView>
    decreases body.len(),
{
    if body.len() == 0 {
        Seq::empty()
    } else {
        program_findings(body.drop_last(), file, index, severity) + statement_findings(body.last(), file, index, severity)
    }
}

/// Whether `file` is an entry file under `config`.
pub fn is_entry_file(file: &str, config: &EntryFileNoLogicRuleConfig) -> (r: bool)
    ensures
        r == is_entry(file@, *config),
{
    let name = file_name_of(file);
    if chars_of(name.as_str()).len() == 0 {
        return false;
    }
    let st = stem_of(name.as_str());
    if str_equal(st.as_str(), "main") || str_equal(st.as_str(), "app") || str_equal(st.as_str(), "layout")
        || str_equal(st.as_str(), "page") {
        return true;
    }
    let n = config.entry_files.len();
    let mut k: usize = 0;
    while k < n
        invariant
            n == config.entry_files@.len(),
            0 <= k <= n,
            st@ == stem(file_name(file@)),
            file_name(file@).len() > 0,
            forall|t: int| 0 <= t < k ==> !stem_matches(st@, (#[trigger] config.entry_files@[t])@),
        decreases n - k,
    {
        if stem_matches_pattern(st.as_str(), config.entry_files[k].as_str()) {
            return true;
        }
        k += 1;
    }
    false
}

fn stem_matches_pattern(st: &str, pattern: &str) -> (r: bool)
    ensures
        r == stem_matches(st@, pattern@),
{
    if str_equal(st, pattern) {
        return true;
    }
    let p = chars_of(pattern);
    if p.len() == 0 || p[0] != '.' {
        return false;
    }
    let rest = crate::chars::string_from_chars(p.as_slice(), 1, p.len());
    proof {
        assert(rest@ =~= pattern@.skip(1));
    }
    str_ends_with(st, rest.as_str())
}

fn push_finding(out: &mut Vec<Violation>, file: &str, index: &LineIndex, span: Span, detail: &str, subject: &Option<String>, severity: Severity)
    ensures
        views(final(out)@) == views(old(out)@).push(entry_finding(file@, *index, span, detail@, opt_chars(*subject), severity)),
{
    let pos = index.position_for(span);
    let v = Violation::spanned(file, span, pos.line, pos.column, ENTRY_FILE_NO_LOGIC_RULE_ID, ENTRY_FILE_NO_LOGIC_MESSAGE,
        severity, Some(string_of(detail)), copy_opt_string(subject));
    let ghost before = out@;
    out.push(v);
    proof {
        assert(views(out@) =~= views(before).push(v@));
    }
}

fn control_text(kind: ControlFlowKind) -> (r: String)
    ensures
        r@ == control_detail(kind),
{
    let name = match kind {
        ControlFlowKind::If => "If statement",
        ControlFlowKind::For => "For loop",
        ControlFlowKind::ForIn => "For-in loop",
        ControlFlowKind::ForOf => "For-of loop",
        ControlFlowKind::While => "While loop",
        ControlFlowKind::DoWhile => "Do-while loop",
        ControlFlowKind::Switch => "Switch statement",
        ControlFlowKind::Try => "Try-catch block",
    };
    let mut out = string_of(name);
    crate::chars::push_str(&mut out, " at top level contains logic that should be delegated.");
    proof {
        assert(out@ =~= control_detail(kind));
    }
    out
}

fn check_declarators(out: &mut Vec<Violation>, decls: &Vec<Declarator>, file: &str, index: &LineIndex, severity: Severity)
    ensures
        views(final(out)@) == views(old(out)@) + declarator_findings(decls@, file@, *index, severity),
{
    let ghost start = views(out@);
    let n = decls.len();
    let mut k: usize = 0;
    while k < n
        invariant
            n == decls@.len(),
            0 <= k <= n,
            views(out@) == start + declarator_findings(decls@.take(k as int), file@, *index, severity),
        decreases n - k,
    {
        proof {
            assert(decls@.take(k as int + 1).drop_last() =~= decls@.take(k as int));
        }
        let d = &decls[k];
        match &d.init {
            Some(Initializer::Arrow(span)) => {
                push_finding(out, file, index, *span, ARROW_DETAIL, &d.name, severity);
            },
            Some(Initializer::Function(span)) => {
                push_finding(out, file, index, *span, FUNCTION_EXPRESSION_DETAIL, &d.name, severity);
            },
            _ => {},
        }
        k += 1;
    }
    proof {
        assert(decls@.take(n as int) =~= decls@);
    }
}

fn check_top_level_statement(out: &mut Vec<Violation>, st: &TopLevelStatement, file: &str, index: &LineIndex, severity: Severity)
    ensures
        views(final(out)@) == views(old(out)@) + statement_findings(*st, file@, *index, severity),
{
    let ghost start = views(out@);
    match st {
        TopLevelStatement::Function { span, name } => {
            push_finding(out, file, index, *span, FUNCTION_DETAIL, name, severity);
        },
        TopLevelStatement::Class { span, name } => {
            push_finding(out, file, index, *span, CLASS_DETAIL, name, severity);
        },
        TopLevelStatement::ExportDefault(ExportDefaultKind::Class { span, name }) => {
            push_finding(out, file, index, *span, DEFAULT_CLASS_DETAIL, name, severity);
        },
        TopLevelStatement::Variable(decls) => {
            check_declarators(out, decls, file, index, severity);
        },
        TopLevelStatement::ControlFlow { kind, span } => {
            let detail = control_text(*kind);
            push_finding(out, file, index, *span, detail.as_str(), &None, severity);
        },
        _ => {},
    }
    proof {
        assert(views(out@) =~= start + statement_findings(*st, file@, *index, severity));
    }
}

/// The findings of an entry file: one for each top-level function or class declaration, each
/// default-exported class, each variable initialized with a function, and each top-level
/// control-flow statement, in order; none for other files.
pub fn check_file(file: &str, program: &ProgramModel, line_index: &LineIndex, config: &EntryFileNoLogicRuleConfig) -> (r: Vec<Violation>)
    ensures
        views(r@) == if is_entry(file@, *config) {
            program_findings(program.body@, file@, *line_index, config.severity)
        } else {
            Seq::empty()
        },
{
    let mut violations: Vec<Violation> = Vec::new();
    if !is_entry_file(file, config) {
        return violations;
    }
    let body = &program.body;
    let n = body.len();
    let mut i: usize = 0;
    while i < n
        invariant
            n == body@.len(),
            body@ == program.body@,
            0 <= i <= n,
            views(violations@) == program_findings(body@.take(i as int), file@, *line_index, config.severity),
        decreases n - i,
    {
        proof {
            assert(body@.take(i as int + 1).drop_last() =~= body@.take(i as int));
        }
        check_top_level_statement(&mut violations, &body[i], file, line_index, config.severity);
        i += 1;
    }
    proof {
        assert(body@.take(n as int) =~= body@);
    }
    violations
}

} // verus!
