//! `no-promise-executor-return`: the executor of `new Promise(...)` returns no value, neither
//! by `return <value>` at its own level nor as the body of an arrow function.

use vstd::prelude::*;
use crate::chars::str_equal;
use crate::config::RuleConfig;
use crate::rules::{views, Violation, ViolationView, NO_PROMISE_EXECUTOR_RETURN_RULE_ID};
use crate::syntax::{span_position, LineIndex, Span};

verus! {

pub const NO_PROMISE_EXECUTOR_RETURN_MESSAGE: &'static str = "Return values from Promise executors cannot be handled; use resolve() or reject() instead.";

/// One step of the walk through a module, in source order: entering a `new` expression (with
/// the name of its callee where that is an identifier), a function, or an arrow function (with
/// its span and whether its body is an expression); leaving what was entered last; a `return`
/// statement (with its span and whether it returns a value).
#[derive(Debug)]
pub enum ExecutorEvent {
    EnterNew { callee: Option<String> },
    EnterFunction,
    EnterArrow { span: Span, expression: bool },
    Exit,
    Return { span: Span, has_argument: bool },
}

/// What leaving a construct undoes: whether a `new Promise` raised the executor depth, or a
/// function or arrow raised the function depth.
#[derive(Clone, Copy, Debug, PartialEq, Eq, Structural)]
pub enum ExecutorFrame {
    New(bool),
    Function(bool),
}

/// The open constructs of the walk.
pub struct ExecutorState {
    pub executor_depth: nat,
    pub function_depth: nat,
    pub frames: Seq<ExecutorFrame>,
}

/// The callee of a `new` expression is the identifier `Promise`.
pub open spec fn is_promise(callee: Option<String>) -> bool {
    callee matches Some(n) && n@ == "Promise"@
}

/// The finding at `span`.
pub open spec fn executor_finding(file: Seq<char>, index: LineIndex, config: RuleConfig, span: Span) -> ViolationView {
    let pos = span_position(index, span);
    ViolationView {
        file,
        span: Some(span),
        line: Some(pos.line),
        column: Some(pos.column),
        rule: NO_PROMISE_EXECUTOR_RETURN_RULE_ID@,
        message: NO_PROMISE_EXECUTOR_RETURN_MESSAGE@,
        severity: config.severity,
        detail: None,
        subject: None,
    }
}

/// The findings of the first `k` steps of the walk and the state after them. Within an
/// executor (inside some `new Promise`), functions and arrows count as levels; an arrow with an
/// expression body at the executor's own level is reported, and so is a `return` with a value
/// at most one level deep.
pub open spec fn executor_walk(file: Seq<char>, index: LineIndex, config: RuleConfig, events: Seq<ExecutorEvent>, k: int) -> (Seq<ViolationView>, ExecutorState)
    decreases k,
{
    if k <= 0 {
        (Seq::empty(), ExecutorState { executor_depth: 0, function_depth: 0, frames: Seq::empty() })
    } else {
        let (found, st) = executor_walk(file, index, config, events, k - 1);
        match events[k - 1] {
            ExecutorEvent::EnterNew { callee } => {
                let p = is_promise(callee);
                (found, ExecutorState { executor_depth: if p { st.executor_depth + 1 } else { st.executor_depth }, frames: st.frames.push(ExecutorFrame::New(p)), ..st })
            },
            ExecutorEvent::EnterFunction => {
                let c = st.executor_depth > 0;
                (found, ExecutorState { function_depth: if c { st.function_depth + 1 } else { st.function_depth }, frames: st.frames.push(ExecutorFrame::Function(c)), ..st })
            },
            ExecutorEvent::EnterArrow { span, expression } => {
                let c = st.executor_depth > 0;
                let next = ExecutorState { function_depth: if c { st.function_depth + 1 } else { st.function_depth }, frames: st.frames.push(ExecutorFrame::Function(c)), ..st };
                if c && st.function_depth == 0 && expression {
                    (found.push(executor_finding(file, index, config, span)), next)
                } else {
                    (found, next)
                }
            },
            ExecutorEvent::Exit => {
                if st.frames.len() == 0 {
                    (found, st)
                } else {
                    let rest = st.frames.drop_last();
                    match st.frames.last() {
                        ExecutorFrame::New(c) => (found, ExecutorState { executor_depth: if c { (st.executor_depth - 1) as nat } else { st.executor_depth }, frames: rest, ..st }),
                        ExecutorFrame::Function(c) => (found, ExecutorState { function_depth: if c { (st.function_depth - 1) as nat } else { st.function_depth }, frames: rest, ..st }),
                    }
                }
            },
            ExecutorEvent::Return { span, has_argument } => {
                if st.executor_depth > 0 && st.function_depth <= 1 && has_argument {
                    (found.push(executor_finding(file, index, config, span)), st)
                } else {
                    (found, st)
                }
            },
        }
    }
}

/// The number of open `new Promise` expressions among the frames.
pub open spec fn promise_levels(frames: Seq<ExecutorFrame>) -> nat
    decreases frames.len(),
{
    if frames.len() == 0 {
        0
    } else {
        promise_levels(frames.drop_last()) + if frames.last() == ExecutorFrame::New(true) { 1nat } else { 0nat }
    }
}

/// The number of open functions and arrows that count as levels among the frames.
pub open spec fn function_levels(frames: Seq<ExecutorFrame>) -> nat
    decreases frames.len(),
{
    if frames.len() == 0 {
        0
    } else {
        function_levels(frames.drop_last()) + if frames.last() == ExecutorFrame::Function(true) { 1nat } else { 0nat }
    }
}

proof fn lemma_levels_le(frames: Seq<ExecutorFrame>)
    ensures
        promise_levels(frames) <= frames.len(),
        function_levels(frames) <= frames.len(),
    decreases frames.len(),
{
    if frames.len() > 0 {
        lemma_levels_le(frames.drop_last());
    }
}

fn finding_at(file: &str, line_index: &LineIndex, config: &RuleConfig, span: Span) -> (r: Violation)
    ensures
        r@ == executor_finding(file@, *line_index, *config, span),
{
    let pos = line_index.position_for(span);
    Violation::spanned(file, span, pos.line, pos.column, NO_PROMISE_EXECUTOR_RETURN_RULE_ID, NO_PROMISE_EXECUTOR_RETURN_MESSAGE, config.severity, None, None)
}

/// The findings of `no-promise-executor-return` on the walk `events` of one module (see
/// `executor_walk`).
pub fn check_file(file: &str, events: &Vec<ExecutorEvent>, line_index: &LineIndex, config: &RuleConfig) -> (r: Vec<Violation>)
    ensures
        views(r@) == executor_walk(file@, *line_index, *config, events@, events@.len() as int).0,
{
    let n = events.len();
    let mut out: Vec<Violation> = Vec::new();
    let mut executor_depth: usize = 0;
    let mut function_depth: usize = 0;
    let mut frames: Vec<ExecutorFrame> = Vec::new();
    let mut k: usize = 0;
    while k < n
        invariant
            n == events@.len(),
            0 <= k <= n,
            frames@.len() <= k,
            executor_depth as nat == promise_levels(frames@),
            function_depth as nat == function_levels(frames@),
            ({
                let (found, st) = executor_walk(file@, *line_index, *config, events@, k as int);
                &&& views(out@) == found
                &&& st == ExecutorState { executor_depth: executor_depth as nat, function_depth: function_depth as nat, frames: frames@ }
            }),
        decreases n - k,
    {
        let ghost before = out@;
        let ghost f0 = frames@;
        proof {
            lemma_levels_le(frames@);
        }
        match &events[k] {
            ExecutorEvent::EnterNew { callee } => {
                let p = match callee {
                    Some(c) => str_equal(c.as_str(), "Promise"),
                    None => false,
                };
                if p {
                    executor_depth = executor_depth + 1;
                }
                frames.push(ExecutorFrame::New(p));
                proof {
                    assert(frames@.drop_last() =~= f0);
                }
            },
            ExecutorEvent::EnterFunction => {
                let c = executor_depth > 0;
                if c {
                    function_depth = function_depth + 1;
                }
                frames.push(ExecutorFrame::Function(c));
                proof {
                    assert(frames@.drop_last() =~= f0);
                }
            },
            ExecutorEvent::EnterArrow { span, expression } => {
                let c = executor_depth > 0;
                if c && function_depth == 0 && *expression {
                    let v = finding_at(file, line_index, config, *span);
                    out.push(v);
                    proof {
                        assert(views(out@) =~= views(before).push(v@));
                    }
                }
                if c {
                    function_depth = function_depth + 1;
                }
                frames.push(ExecutorFrame::Function(c));
                proof {
                    assert(frames@.drop_last() =~= f0);
                }
            },
            ExecutorEvent::Exit => {
                match frames.pop() {
                    Some(ExecutorFrame::New(c)) => {
                        proof {
                            assert(frames@ =~= f0.drop_last());
                        }
                        if c {
                            executor_depth = executor_depth - 1;
                        }
                    },
                    Some(ExecutorFrame::Function(c)) => {
                        proof {
                            assert(frames@ =~= f0.drop_last());
                        }
                        if c {
                            function_depth = function_depth - 1;
                        }
                    },
                    None => {},
                }
            },
            ExecutorEvent::Return { span, has_argument } => {
                if executor_depth > 0 && function_depth <= 1 && *has_argument {
                    let v = finding_at(file, line_index, config, *span);
                    out.push(v);
                    proof {
                        assert(views(out@) =~= views(before).push(v@));
                    }
                }
            },
        }
        k += 1;
    }
    out
}

} // verus!
