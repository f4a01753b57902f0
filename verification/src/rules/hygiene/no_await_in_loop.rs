//! `no-await-in-loop`: no `await` inside the body, head or test of a loop (a `for await` loop
//! does not count as one).

use vstd::prelude::*;
use crate::config::RuleConfig;
use crate::rules::{views, Violation, ViolationView, NO_AWAIT_IN_LOOP_RULE_ID};
use crate::syntax::{span_position, LineIndex, Span};

verus! {

pub const NO_AWAIT_IN_LOOP_MESSAGE: &'static str = "Avoid await inside loops; use Promise.all or extract to a separate async function.";

/// The kind of a loop statement.
#[derive(Clone, Copy, Debug, PartialEq, Eq, Structural)]
pub enum LoopKind {
    For,
    While,
    DoWhile,
    ForIn,
    ForOf { awaited: bool },
}

/// One step of the walk through a module, in source order: entering a loop, leaving the loop
/// entered last, or an `await` expression with its span.
#[derive(Debug)]
pub enum LoopEvent {
    EnterLoop(LoopKind),
    Exit,
    Await(Span),
}

/// A loop adds a level, unless it is a `for await` loop.
pub open spec fn counts_as_loop(kind: LoopKind) -> bool {
    kind != (LoopKind::ForOf { awaited: true })
}

/// The number of open loops that count among the frames.
pub open spec fn loop_levels(frames: Seq<bool>) -> nat
    decreases frames.len(),
{
    if frames.len() == 0 {
        0
    } else {
        loop_levels(frames.drop_last()) + if frames.last() { 1nat } else { 0nat }
    }
}

/// The finding at `span`.
pub open spec fn await_finding(file: Seq<char>, index: LineIndex, config: RuleConfig, span: Span) -> ViolationView {
    let pos = span_position(index, span);
    ViolationView {
        file,
        span: Some(span),
        line: Some(pos.line),
        column: Some(pos.column),
        rule: NO_AWAIT_IN_LOOP_RULE_ID@,
        message: NO_AWAIT_IN_LOOP_MESSAGE@,
        severity: config.severity,
        detail: None,
        subject: None,
    }
}

/// The findings of the first `k` steps and the open loops after them (`true` for one that
/// counts): an `await` is reported where some open loop counts.
pub open spec fn await_walk(file: Seq<char>, index: LineIndex, config: RuleConfig, events: Seq<LoopEvent>, k: int) -> (Seq<ViolationView>, Seq<bool>)
    decreases k,
{
    if k <= 0 {
        (Seq::empty(), Seq::empty())
    } else {
        let (found, frames) = await_walk(file, index, config, events, k - 1);
        match events[k - 1] {
            LoopEvent::EnterLoop(kind) => (found, frames.push(counts_as_loop(kind))),
            LoopEvent::Exit => if frames.len() == 0 { (found, frames) } else { (found, frames.drop_last()) },
            LoopEvent::Await(span) => if loop_levels(frames) > 0 {
                (found.push(await_finding(file, index, config, span)), frames)
            } else {
                (found, frames)
            },
        }
    }
}

proof fn lemma_loop_levels_le(frames: Seq<bool>)
    ensures
        loop_levels(frames) <= frames.len(),
    decreases frames.len(),
{
    if frames.len() > 0 {
        lemma_loop_levels_le(frames.drop_last());
    }
}

/// The findings of `no-await-in-loop` on the walk `events` of one module (see `await_walk`).
pub fn check_file(file: &str, events: &Vec<LoopEvent>, line_index: &LineIndex, config: &RuleConfig) -> (r: Vec<Violation>)
    ensures
        views(r@) == await_walk(file@, *line_index, *config, events@, events@.len() as int).0,
{
    let n = events.len();
    let mut out: Vec<Violation> = Vec::new();
    let mut frames: Vec<bool> = Vec::new();
    let mut depth: usize = 0;
    let mut k: usize = 0;
    while k < n
        invariant
            n == events@.len(),
            0 <= k <= n,
            frames@.len() <= k,
            depth as nat == loop_levels(frames@),
            ({
                let (found, open) = await_walk(file@, *line_index, *config, events@, k as int);
                &&& views(out@) == found
                &&& open == frames@
            }),
        decreases n - k,
    {
        let ghost before = out@;
        let ghost f0 = frames@;
        proof {
            lemma_loop_levels_le(frames@);
        }
        match &events[k] {
            LoopEvent::EnterLoop(kind) => {
                let counted = match kind {
                    LoopKind::ForOf { awaited } => !*awaited,
                    _ => true,
                };
                frames.push(counted);
                if counted {
                    depth = depth + 1;
                }
                proof {
                    assert(frames@.drop_last() =~= f0);
                }
            },
            LoopEvent::Exit => {
                match frames.pop() {
                    Some(c) => {
                        proof {
                            assert(frames@ =~= f0.drop_last());
                        }
                        if c {
                            depth = depth - 1;
                        }
                    },
                    None => {},
                }
            },
            LoopEvent::Await(span) => {
                if depth > 0 {
                    let pos = line_index.position_for(*span);
                    let v = Violation::spanned(file, *span, pos.line, pos.column, NO_AWAIT_IN_LOOP_RULE_ID, NO_AWAIT_IN_LOOP_MESSAGE, config.severity, None, None);
                    out.push(v);
                    proof {
                        assert(views(out@) =~= views(before).push(v@));
                    }
                }
            },
        }
        k += 1;
    }
    out
}

} // verus!
