//! `no-nested-functions`: function-like constructs are not nested deeper than a configured
//! depth; which constructs count as a nesting level is configured by context.

use vstd::prelude::*;
use crate::chars::{decimal, push_decimal, push_str, string_of};
use crate::config::{NestingContext, NoNestedFunctionsRuleConfig};
use crate::rules::{views, Violation, ViolationView, NO_NESTED_FUNCTIONS_RULE_ID};
use crate::syntax::{span_position, LineIndex, Span};

verus! {

pub const NO_NESTED_FUNCTIONS_MESSAGE: &'static str = "Function is nested too deeply. Extract it to a top-level or module-scope declaration.";

/// The name a function declares, and where.
#[derive(Debug)]
pub struct BindingName {
    pub span: Span,
    pub name: String,
}

/// One step of the walk through a module's function-like constructs, in source order: entering
/// a function (with its span and its name, if any), an arrow function, a class method
/// definition or an object property (a method shorthand or not), and leaving the construct
/// entered last.
#[derive(Debug)]
pub enum NestEvent {
    EnterFunction { span: Span, id: Option<BindingName> },
    EnterArrow { span: Span },
    EnterClassMethod,
    EnterObjectProperty { method: bool },
    Exit,
}

/// What leaving a construct restores: the nesting level it added, or the method flag it set.
#[derive(Clone, Copy, Debug, PartialEq, Eq, Structural)]
pub enum NestFrame {
    Counted(bool),
    ClassMethod(bool),
    ObjectMethod(bool),
}

/// Where the walk stands: the nesting depth, whether it is inside a class method or an object
/// method, and what leaving each open construct restores.
pub struct NestState {
    pub depth: nat,
    pub in_class_method: bool,
    pub in_object_method: bool,
    pub frames: Seq<NestFrame>,
}

/// The context a function entered in this state counts as.
pub open spec fn function_context(in_class_method: bool, in_object_method: bool) -> NestingContext {
    if in_class_method {
        NestingContext::ClassMethod
    } else if in_object_method {
        NestingContext::ObjectMethod
    } else {
        NestingContext::Function
    }
}

/// `depth <d> exceeds max-depth <m>`.
pub open spec fn depth_detail(depth: nat, max_depth: nat) -> Seq<char> {
    "depth "@ + decimal(depth) + " exceeds max-depth "@ + decimal(max_depth)
}

/// A finding at `span` for a construct named `subject` at `depth`.
pub open spec fn nest_finding(file: Seq<char>, index: LineIndex, config: NoNestedFunctionsRuleConfig, span: Span, subject: Seq<char>, depth: nat) -> ViolationView {
    let pos = span_position(index, span);
    ViolationView {
        file,
        span: Some(span),
        line: Some(pos.line),
        column: Some(pos.column),
        rule: NO_NESTED_FUNCTIONS_RULE_ID@,
        message: NO_NESTED_FUNCTIONS_MESSAGE@,
        severity: config.severity,
        detail: Some(depth_detail(depth, config.max_depth as nat)),
        subject: Some(subject),
    }
}

/// The findings of the first `k` steps of the walk, and the state after them. Entering a
/// function or an arrow adds a level where its context counts, and a construct deeper than
/// the maximum is reported at its name (a function) or at itself; entering a class method or
/// an object property sets the method flag for what it holds; leaving restores.
pub open spec fn nest_walk(file: Seq<char>, index: LineIndex, config: NoNestedFunctionsRuleConfig, events: Seq<NestEvent>, k: int) -> (Seq<ViolationView>, NestState)
    decreases k,
{
    if k <= 0 {
        (Seq::empty(), NestState { depth: 0, in_class_method: false, in_object_method: false, frames: Seq::empty() })
    } else {
        let (found, st) = nest_walk(file, index, config, events, k - 1);
        match events[k - 1] {
            NestEvent::EnterFunction { span, id } => {
                let counts = config.contexts@.contains(function_context(st.in_class_method, st.in_object_method));
                let depth = if counts { st.depth + 1 } else { st.depth };
                let next = NestState { depth, frames: st.frames.push(NestFrame::Counted(counts)), ..st };
                if depth > config.max_depth {
                    let (at, subject) = match id {
                        Some(b) => (b.span, b.name@),
                        None => (span, "<anonymous>"@),
                    };
                    (found.push(nest_finding(file, index, config, at, subject, depth)), next)
                } else {
                    (found, next)
                }
            },
            NestEvent::EnterArrow { span } => {
                let counts = config.contexts@.contains(NestingContext::Arrow);
                let depth = if counts { st.depth + 1 } else { st.depth };
                let next = NestState { depth, frames: st.frames.push(NestFrame::Counted(counts)), ..st };
                if depth > config.max_depth {
                    (found.push(nest_finding(file, index, config, span, "<arrow>"@, depth)), next)
                } else {
                    (found, next)
                }
            },
            NestEvent::EnterClassMethod => {
                (found, NestState { in_class_method: true, frames: st.frames.push(NestFrame::ClassMethod(st.in_class_method)), ..st })
            },
            NestEvent::EnterObjectProperty { method } => {
                (found, NestState { in_object_method: method, frames: st.frames.push(NestFrame::ObjectMethod(st.in_object_method)), ..st })
            },
            NestEvent::Exit => {
                if st.frames.len() == 0 {
                    (found, st)
                } else {
                    let rest = st.frames.drop_last();
                    match st.frames.last() {
                        NestFrame::Counted(c) => (found, NestState { depth: if c { (st.depth - 1) as nat } else { st.depth }, frames: rest, ..st }),
                        NestFrame::ClassMethod(saved) => (found, NestState { in_class_method: saved, frames: rest, ..st }),
                        NestFrame::ObjectMethod(saved) => (found, NestState { in_object_method: saved, frames: rest, ..st }),
                    }
                }
            },
        }
    }
}

/// The number of open constructs that added a level.
pub open spec fn counted_levels(frames: Seq<NestFrame>) -> nat
    decreases frames.len(),
{
    if frames.len() == 0 {
        0
    } else {
        counted_levels(frames.drop_last()) + if frames.last() == NestFrame::Counted(true) { 1nat } else { 0nat }
    }
}

proof fn lemma_counted_le(frames: Seq<NestFrame>)
    ensures
        counted_levels(frames) <= frames.len(),
    decreases frames.len(),
{
    if frames.len() > 0 {
        lemma_counted_le(frames.drop_last());
    }
}

fn holds_context(contexts: &Vec<NestingContext>, c: NestingContext) -> (r: bool)
    ensures
        r == contexts@.contains(c),
{
    let n = contexts.len();
    let mut i: usize = 0;
    while i < n
        invariant
            n == contexts@.len(),
            0 <= i <= n,
            forall|j: int| 0 <= j < i ==> contexts@[j] != c,
        decreases n - i,
    {
        if contexts[i] == c {
            return true;
        }
        i += 1;
    }
    false
}

fn depth_finding(file: &str, line_index: &LineIndex, config: &NoNestedFunctionsRuleConfig, span: Span, subject: String, depth: usize) -> (r: Violation)
    ensures
        r@ == nest_finding(file@, *line_index, *config, span, subject@, depth as nat),
{
    let pos = line_index.position_for(span);
    let mut detail = string_of("depth ");
    push_decimal(&mut detail, depth);
    push_str(&mut detail, " exceeds max-depth ");
    push_decimal(&mut detail, config.max_depth);
    proof {
        assert(detail@ =~= depth_detail(depth as nat, config.max_depth as nat));
    }
    Violation::spanned(file, span, pos.line, pos.column, NO_NESTED_FUNCTIONS_RULE_ID, NO_NESTED_FUNCTIONS_MESSAGE, config.severity, Some(detail), Some(subject))
}

/// The findings of `no-nested-functions` on the walk `events` of one module (see
/// `nest_walk`).
pub fn check_file(file: &str, events: &Vec<NestEvent>, line_index: &LineIndex, config: &NoNestedFunctionsRuleConfig) -> (r: Vec<Violation>)
    ensures
        views(r@) == nest_walk(file@, *line_index, *config, events@, events@.len() as int).0,
{
    let n = events.len();
    let mut violations: Vec<Violation> = Vec::new();
    let mut depth: usize = 0;
    let mut in_class_method = false;
    let mut in_object_method = false;
    let mut frames: Vec<NestFrame> = Vec::new();
    let mut k: usize = 0;
    while k < n
        invariant
            n == events@.len(),
            0 <= k <= n,
            frames@.len() <= k,
            depth as nat == counted_levels(frames@),
            ({
                let (found, st) = nest_walk(file@, *line_index, *config, events@, k as int);
                &&& views(violations@) == found
                &&& st == NestState { depth: depth as nat, in_class_method, in_object_method, frames: frames@ }
            }),
        decreases n - k,
    {
        let ghost before = violations@;
        let ghost f0 = frames@;
        proof {
            lemma_counted_le(frames@);
        }
        match &events[k] {
            NestEvent::EnterFunction { span, id } => {
                let context = if in_class_method {
                    NestingContext::ClassMethod
                } else if in_object_method {
                    NestingContext::ObjectMethod
                } else {
                    NestingContext::Function
                };
                let counts = holds_context(&config.contexts, context);
                if counts {
                    depth = depth + 1;
                }
                frames.push(NestFrame::Counted(counts));
                proof {
                    assert(frames@.drop_last() =~= f0);
                }
                if depth > config.max_depth {
                    let v = match id {
                        Some(b) => depth_finding(file, line_index, config, b.span, crate::chars::copy_string(&b.name), depth),
                        None => depth_finding(file, line_index, config, *span, string_of("<anonymous>"), depth),
                    };
                    violations.push(v);
                    proof {
                        assert(views(violations@) =~= views(before).push(v@));
                    }
                }
            },
            NestEvent::EnterArrow { span } => {
                let counts = holds_context(&config.contexts, NestingContext::Arrow);
                if counts {
                    depth = depth + 1;
                }
                frames.push(NestFrame::Counted(counts));
                proof {
                    assert(frames@.drop_last() =~= f0);
                }
                if depth > config.max_depth {
                    let v = depth_finding(file, line_index, config, *span, string_of("<arrow>"), depth);
                    violations.push(v);
                    proof {
                        assert(views(violations@) =~= views(before).push(v@));
                    }
                }
            },
            NestEvent::EnterClassMethod => {
                frames.push(NestFrame::ClassMethod(in_class_method));
                in_class_method = true;
                proof {
                    assert(frames@.drop_last() =~= f0);
                }
            },
            NestEvent::EnterObjectProperty { method } => {
                frames.push(NestFrame::ObjectMethod(in_object_method));
                in_object_method = *method;
                proof {
                    assert(frames@.drop_last() =~= f0);
                }
            },
            NestEvent::Exit => {
                let ghost old_frames = frames@;
                match frames.pop() {
                    Some(NestFrame::Counted(c)) => {
                        if c {
                            depth = depth - 1;
                        }
                    },
                    Some(NestFrame::ClassMethod(saved)) => {
                        in_class_method = saved;
                    },
                    Some(NestFrame::ObjectMethod(saved)) => {
                        in_object_method = saved;
                    },
                    None => {},
                }
                proof {
                    if old_frames.len() > 0 {
                        assert(frames@ =~= old_frames.drop_last());
                    }
                }
            },
        }
        k += 1;
    }
    violations
}

} // verus!
