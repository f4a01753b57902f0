use niteo_lint::config::{RuleConfig, Severity};
use niteo_lint::rules::hygiene::no_await_in_loop::{check_file, LoopEvent, LoopKind};
use niteo_lint::rules::Violation;
use niteo_lint::syntax::{LineIndex, Span};

/// The `await` expression written `text` in `source`.
fn await_at(source: &str, text: &str) -> LoopEvent {
    let at = source.find(text).unwrap();
    LoopEvent::Await(Span { start: at as u32, end: (at + text.len()) as u32 })
}

fn enter(kind: LoopKind) -> LoopEvent {
    LoopEvent::EnterLoop(kind)
}

fn run_check(source: &str, events: Vec<LoopEvent>) -> Vec<Violation> {
    let line_index = LineIndex::new(source);
    check_file("lib.ts", &events, &line_index, &RuleConfig { severity: Severity::Warn })
}

#[test]
fn reports_await_in_for_loop() {
    let source = "async function f() { for (let i = 0; i < 10; i++) { await delay(i); } }\n";
    let events = vec![enter(LoopKind::For), await_at(source, "await delay(i)"), LoopEvent::Exit];
    assert_eq!(run_check(source, events).len(), 1);
}

#[test]
fn reports_await_in_for_of_loop() {
    let source = "async function f() { for (const item of items) { await process(item); } }\n";
    let events = vec![enter(LoopKind::ForOf { awaited: false }), await_at(source, "await process(item)"), LoopEvent::Exit];
    assert_eq!(run_check(source, events).len(), 1);
}

#[test]
fn reports_await_in_for_in_loop() {
    let source = "async function f() { for (const key in obj) { await save(key); } }\n";
    let events = vec![enter(LoopKind::ForIn), await_at(source, "await save(key)"), LoopEvent::Exit];
    assert_eq!(run_check(source, events).len(), 1);
}

#[test]
fn reports_await_in_while_loop() {
    let source = "async function f() { while (hasMore()) { await next(); } }\n";
    let events = vec![enter(LoopKind::While), await_at(source, "await next()"), LoopEvent::Exit];
    assert_eq!(run_check(source, events).len(), 1);
}

#[test]
fn reports_await_in_do_while_loop() {
    let source = "async function f() { do { await step(); } while (cond()); }\n";
    let events = vec![enter(LoopKind::DoWhile), await_at(source, "await step()"), LoopEvent::Exit];
    assert_eq!(run_check(source, events).len(), 1);
}

#[test]
fn reports_await_in_nested_loops() {
    let source = "async function f() { for (const row of rows) { for (const col of cols) { await cell(row, col); } } }\n";
    let events = vec![
        enter(LoopKind::ForOf { awaited: false }),
        enter(LoopKind::ForOf { awaited: false }),
        await_at(source, "await cell(row, col)"),
        LoopEvent::Exit,
        LoopEvent::Exit,
    ];
    assert_eq!(run_check(source, events).len(), 1);
}

#[test]
fn does_not_report_await_outside_loop() {
    let source = "async function f() { await delay(); const x = await fetch(); }\n";
    let events = vec![await_at(source, "await delay()"), await_at(source, "await fetch()")];
    assert!(run_check(source, events).is_empty());
}

#[test]
fn does_not_report_non_loop_await() {
    let source = "async function f() { const result = await fetch('/api'); return result; }\n";
    let events = vec![await_at(source, "await fetch('/api')")];
    assert!(run_check(source, events).is_empty());
}

#[test]
fn for_await_loop_is_no_loop_but_an_outer_loop_counts() {
    let source = "async function f() { for await (const x of xs) { await g(x); } while (a) { for await (const y of ys) { await h(y); } } }\n";
    let events = vec![
        enter(LoopKind::ForOf { awaited: true }),
        await_at(source, "await g(x)"),
        LoopEvent::Exit,
        enter(LoopKind::While),
        enter(LoopKind::ForOf { awaited: true }),
        await_at(source, "await h(y)"),
        LoopEvent::Exit,
        LoopEvent::Exit,
    ];
    let violations = run_check(source, events);
    assert_eq!(violations.len(), 1);
    let v = &violations[0];
    assert_eq!(v.rule, "no-await-in-loop");
    assert_eq!(v.message, "Avoid await inside loops; use Promise.all or extract to a separate async function.");
    let at = source.find("await h(y)").unwrap() as u32;
    assert_eq!(v.span, Some(Span { start: at, end: at + 10 }));
    assert_eq!((v.line, v.column), (Some(1), Some(at as usize + 1)));
}
