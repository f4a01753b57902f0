//! `no-console`: no call reaches `console`, directly (`console.log(...)`,
//! `console['log'](...)`) or through a name destructured from it, outside files that an
//! allow pattern matches.

use vstd::prelude::*;
use crate::chars::{copy_string, str_equal};
use crate::config::NoConsoleRuleConfig;
use crate::rule_documentation::summary::string_views;
use crate::rules::hygiene::no_abbreviations::holds_string;
use crate::rules::imports::no_upward_import::{allow_outcome, patterns_match};
use crate::rules::{views, Violation, ViolationView, NO_CONSOLE_RULE_ID};
use crate::syntax::{span_position, LineIndex, Span};

verus! {

pub const NO_CONSOLE_MESSAGE: &'static str = "Disallow console statements outside allowed file patterns.";

/// The callee of a call: a plain identifier (with its span and name), a member access, static
/// or computed (with its span and the name of its object where the object is an identifier),
/// or anything else.
#[derive(Debug)]
pub enum Callee {
    Identifier { span: Span, name: String },
    Member { span: Span, object: Option<String> },
    Other,
}

/// What the walk of a module reaches, in order: a variable declarator (with the name of its
/// initialiser where that is an identifier, and the names that its object pattern binds to
/// plain identifiers, the rest element's included), or a call.
#[derive(Debug)]
pub enum ConsoleEvent {
    Declarator { init: Option<String>, bound: Vec<String> },
    Call(Callee),
}

/// The finding at `span`.
pub open spec fn console_finding(file: Seq<char>, index: LineIndex, config: NoConsoleRuleConfig, span: Span) -> ViolationView {
    let pos = span_position(index, span);
    ViolationView {
        file,
        span: Some(span),
        line: Some(pos.line),
        column: Some(pos.column),
        rule: NO_CONSOLE_RULE_ID@,
        message: NO_CONSOLE_MESSAGE@,
        severity: config.severity,
        detail: None,
        subject: None,
    }
}

/// The findings of the first `k` steps of the walk, and the names destructured from `console`
/// so far. A declarator initialised with `console` adds the names it binds; a call is reported
/// where its callee is such a name, or a member of `console`.
pub open spec fn console_walk(file: Seq<char>, index: LineIndex, config: NoConsoleRuleConfig, events: Seq<ConsoleEvent>, k: int) -> (Seq<ViolationView>, Seq<Seq<char>>)
    decreases k,
{
    if k <= 0 {
        (Seq::empty(), Seq::empty())
    } else {
        let (found, aliases) = console_walk(file, index, config, events, k - 1);
        match events[k - 1] {
            ConsoleEvent::Declarator { init, bound } => if init matches Some(n) && n@ == "console"@ {
                (found, aliases + string_views(bound@))
            } else {
                (found, aliases)
            },
            ConsoleEvent::Call(callee) => match callee {
                Callee::Identifier { span, name } => if aliases.contains(name@) {
                    (found.push(console_finding(file, index, config, span)), aliases)
                } else {
                    (found, aliases)
                },
                Callee::Member { span, object } => if object matches Some(o) && o@ == "console"@ {
                    (found.push(console_finding(file, index, config, span)), aliases)
                } else {
                    (found, aliases)
                },
                Callee::Other => (found, aliases),
            },
        }
    }
}

/// The findings of a file: none where an allow pattern is no valid glob or matches the file;
/// else those of the walk.
pub open spec fn console_findings(file: Seq<char>, index: LineIndex, config: NoConsoleRuleConfig, events: Seq<ConsoleEvent>) -> Seq<ViolationView> {
    match allow_outcome(config.allow_patterns@, file) {
        Some(false) => console_walk(file, index, config, events, events.len() as int).0,
        _ => Seq::empty(),
    }
}

fn is_console(name: &Option<String>) -> (r: bool)
    ensures
        r == (*name matches Some(n) && n@ == "console"@),
{
    match name {
        Some(n) => str_equal(n.as_str(), "console"),
        None => false,
    }
}

fn finding_at(file: &str, line_index: &LineIndex, config: &NoConsoleRuleConfig, span: Span) -> (r: Violation)
    ensures
        r@ == console_finding(file@, *line_index, *config, span),
{
    let pos = line_index.position_for(span);
    Violation::spanned(file, span, pos.line, pos.column, NO_CONSOLE_RULE_ID, NO_CONSOLE_MESSAGE, config.severity, None, None)
}

/// The findings of `no-console` on the walk `events` of one module (see `console_findings`).
pub fn check_file(file: &str, events: &Vec<ConsoleEvent>, line_index: &LineIndex, config: &NoConsoleRuleConfig) -> (r: Vec<Violation>)
    ensures
        views(r@) == console_findings(file@, *line_index, *config, events@),
{
    let mut out: Vec<Violation> = Vec::new();
    match patterns_match(&config.allow_patterns, file) {
        Some(false) => {},
        _ => {
            proof {
                assert(views(out@) =~= Seq::<ViolationView>::empty());
            }
            return out;
        },
    }
    let mut aliases: Vec<String> = Vec::new();
    let n = events.len();
    let mut k: usize = 0;
    while k < n
        invariant
            n == events@.len(),
            0 <= k <= n,
            ({
                let (found, names) = console_walk(file@, *line_index, *config, events@, k as int);
                &&& views(out@) == found
                &&& string_views(aliases@) == names
            }),
        decreases n - k,
    {
        let ghost before = out@;
        let ghost a0 = aliases@;
        match &events[k] {
            ConsoleEvent::Declarator { init, bound } => {
                if is_console(init) {
                    let m = bound.len();
                    let mut i: usize = 0;
                    while i < m
                        invariant
                            m == bound@.len(),
                            0 <= i <= m,
                            string_views(aliases@) == string_views(a0) + string_views(bound@).take(i as int),
                        decreases m - i,
                    {
                        let ghost al = aliases@;
                        aliases.push(copy_string(&bound[i]));
                        proof {
                            assert(string_views(bound@).take(i + 1) =~= string_views(bound@).take(i as int).push(bound@[i as int]@));
                            assert(string_views(aliases@) =~= string_views(al).push(bound@[i as int]@));
                        }
                        i += 1;
                    }
                    proof {
                        assert(string_views(bound@).take(m as int) =~= string_views(bound@));
                    }
                }
            },
            ConsoleEvent::Call(callee) => {
                match callee {
                    Callee::Identifier { span, name } => {
                        if holds_string(&aliases, name.as_str()) {
                            let v = finding_at(file, line_index, config, *span);
                            out.push(v);
                            proof {
                                assert(views(out@) =~= views(before).push(v@));
                            }
                        }
                    },
                    Callee::Member { span, object } => {
                        if is_console(object) {
                            let v = finding_at(file, line_index, config, *span);
                            out.push(v);
                            proof {
                                assert(views(out@) =~= views(before).push(v@));
                            }
                        }
                    },
                    Callee::Other => {},
                }
            },
        }
        k += 1;
    }
    out
}

} // verus!
