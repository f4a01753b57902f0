use niteo_lint::config::{EntryFileNoLogicRuleConfig, Severity};
use niteo_lint::program::{ControlFlowKind, Declarator, ExportDefaultKind, Initializer, ProgramModel, TopLevelStatement};
use niteo_lint::rules::entry_file_no_logic::check_file;
use niteo_lint::rules::Violation;
use niteo_lint::syntax::{LineIndex, Span};

// Each test gives the source text and, beside it, its top-level statements as the parser
// reads them.

fn span_of(source: &str, text: &str) -> Span {
    let start = source.find(text).expect("text in source");
    Span { start: start as u32, end: (start + text.len()) as u32 }
}

fn function(source: &str, text: &str, name: &str) -> TopLevelStatement {
    TopLevelStatement::Function { span: span_of(source, text), name: Some(name.to_string()) }
}

fn class(source: &str, text: &str, name: &str) -> TopLevelStatement {
    TopLevelStatement::Class { span: span_of(source, text), name: Some(name.to_string()) }
}

fn variable(name: &str, init: Initializer) -> TopLevelStatement {
    TopLevelStatement::Variable(vec![Declarator { name: Some(name.to_string()), init: Some(init) }])
}

fn control(source: &str, text: &str, kind: ControlFlowKind) -> TopLevelStatement {
    TopLevelStatement::ControlFlow { kind, span: span_of(source, text) }
}

fn test_config() -> EntryFileNoLogicRuleConfig {
    EntryFileNoLogicRuleConfig { severity: Severity::Warn, entry_files: vec![] }
}

fn run_check_with_config(file_name: &str, source: &str, body: Vec<TopLevelStatement>, config: &EntryFileNoLogicRuleConfig) -> Vec<Violation> {
    let line_index = LineIndex::new(source);
    check_file(file_name, &ProgramModel { body }, &line_index, config)
}

fn run_check(file_name: &str, source: &str, body: Vec<TopLevelStatement>) -> Vec<Violation> {
    run_check_with_config(file_name, source, body, &test_config())
}

#[test]
fn skips_non_entry_files() {
    let source = "function helper() { return 42; }\n";
    let body = vec![function(source, "function helper() { return 42; }", "helper")];
    assert!(run_check("utils.ts", source, body).is_empty());
}

#[test]
fn allows_imports_in_entry_file() {
    let source = "import { App } from './App';\nimport React from 'react';\n";
    let body = vec![TopLevelStatement::Import, TopLevelStatement::Import];
    assert!(run_check("main.tsx", source, body).is_empty());
}

#[test]
fn allows_expression_statements_in_entry_file() {
    let source = "import { createRoot } from 'react-dom/client';\ncreateRoot(document.getElementById('root')!).render(null);\n";
    let body = vec![TopLevelStatement::Import, TopLevelStatement::Expression];
    assert!(run_check("main.tsx", source, body).is_empty());
}

#[test]
fn allows_named_exports_in_entry_file() {
    let source = "export { App } from './App';\nexport type { Props } from './types';\n";
    let body = vec![TopLevelStatement::ExportNamed, TopLevelStatement::ExportNamed];
    assert!(run_check("main.ts", source, body).is_empty());
}

#[test]
fn allows_export_all_in_entry_file() {
    let source = "export * from './module';\n";
    let body = vec![TopLevelStatement::ExportAll];
    assert!(run_check("main.ts", source, body).is_empty());
}

#[test]
fn allows_default_export_function_in_entry_file() {
    let source = "export default function App() { return null; }\n";
    let body = vec![TopLevelStatement::ExportDefault(ExportDefaultKind::Function)];
    assert!(run_check("app.tsx", source, body).is_empty());
}

#[test]
fn allows_type_declarations_in_entry_file() {
    let source = "type Config = { port: number };\ninterface Props { children: React.ReactNode }\n";
    let body = vec![TopLevelStatement::TypeAlias, TopLevelStatement::Interface];
    assert!(run_check("main.ts", source, body).is_empty());
}

#[test]
fn allows_simple_const_in_entry_file() {
    let source = "const port = 3000;\nconst name = 'app';\n";
    let body = vec![variable("port", Initializer::Other), variable("name", Initializer::Other)];
    assert!(run_check("main.ts", source, body).is_empty());
}

#[test]
fn reports_function_declaration_in_main() {
    let source = "function bootstrap() { console.log('starting'); }\n";
    let body = vec![function(source, "function bootstrap() { console.log('starting'); }", "bootstrap")];
    let violations = run_check("main.ts", source, body);
    assert_eq!(violations.len(), 1);
    assert_eq!(violations[0].subject, Some("bootstrap".to_string()));
}

#[test]
fn reports_function_declaration_in_app() {
    let source = "function setup() { return {}; }\n";
    let body = vec![function(source, "function setup() { return {}; }", "setup")];
    assert_eq!(run_check("app.tsx", source, body).len(), 1);
}

#[test]
fn reports_function_declaration_in_layout() {
    let source = "function computeLayout() { return {}; }\n";
    let body = vec![function(source, "function computeLayout() { return {}; }", "computeLayout")];
    assert_eq!(run_check("layout.tsx", source, body).len(), 1);
}

#[test]
fn reports_function_declaration_in_page() {
    let source = "function fetchData() { return []; }\n";
    let body = vec![function(source, "function fetchData() { return []; }", "fetchData")];
    assert_eq!(run_check("page.tsx", source, body).len(), 1);
}

#[test]
fn reports_class_declaration() {
    let source = "class AppService { run() {} }\n";
    let body = vec![class(source, "class AppService { run() {} }", "AppService")];
    let violations = run_check("main.ts", source, body);
    assert_eq!(violations.len(), 1);
    assert_eq!(violations[0].subject, Some("AppService".to_string()));
}

#[test]
fn reports_arrow_function_variable() {
    let source = "const bootstrap = () => { console.log('starting'); };\n";
    let body = vec![variable("bootstrap", Initializer::Arrow(span_of(source, "() => { console.log('starting'); }")))];
    let violations = run_check("main.ts", source, body);
    assert_eq!(violations.len(), 1);
    assert_eq!(violations[0].subject, Some("bootstrap".to_string()));
}

#[test]
fn reports_function_expression_variable() {
    let source = "const init = function() { return true; };\n";
    let body = vec![variable("init", Initializer::Function(span_of(source, "function() { return true; }")))];
    let violations = run_check("main.ts", source, body);
    assert_eq!(violations.len(), 1);
    assert_eq!(violations[0].subject, Some("init".to_string()));
}

#[test]
fn reports_if_statement() {
    let source = "if (true) { console.log('yes'); }\n";
    let body = vec![control(source, "if (true) { console.log('yes'); }", ControlFlowKind::If)];
    assert_eq!(run_check("main.ts", source, body).len(), 1);
}

#[test]
fn reports_for_loop() {
    let source = "for (let i = 0; i < 10; i++) {}\n";
    let body = vec![control(source, "for (let i = 0; i < 10; i++) {}", ControlFlowKind::For)];
    assert_eq!(run_check("main.ts", source, body).len(), 1);
}

#[test]
fn reports_while_loop() {
    let source = "while (true) { break; }\n";
    let body = vec![control(source, "while (true) { break; }", ControlFlowKind::While)];
    assert_eq!(run_check("main.ts", source, body).len(), 1);
}

#[test]
fn reports_switch_statement() {
    let source = "switch (x) { case 1: break; }\n";
    let body = vec![control(source, "switch (x) { case 1: break; }", ControlFlowKind::Switch)];
    assert_eq!(run_check("main.ts", source, body).len(), 1);
}

#[test]
fn reports_try_catch() {
    let source = "try { doSomething(); } catch (e) { console.error(e); }\n";
    let body = vec![control(source, "try { doSomething(); } catch (e) { console.error(e); }", ControlFlowKind::Try)];
    assert_eq!(run_check("main.ts", source, body).len(), 1);
}

#[test]
fn entry_file_no_logic_reports_multiple_violations() {
    let source = "function a() {}\nfunction b() {}\nclass C {}\n";
    let body = vec![
        function(source, "function a() {}", "a"),
        function(source, "function b() {}", "b"),
        class(source, "class C {}", "C"),
    ];
    assert_eq!(run_check("main.ts", source, body).len(), 3);
}

#[test]
fn custom_entry_files_config() {
    let config = EntryFileNoLogicRuleConfig { severity: Severity::Warn, entry_files: vec!["bootstrap".to_string()] };
    let source = "function init() { return true; }\n";
    let body = vec![function(source, "function init() { return true; }", "init")];
    assert_eq!(run_check_with_config("bootstrap.ts", source, body, &config).len(), 1);
}

#[test]
fn custom_entry_files_non_match() {
    let config = EntryFileNoLogicRuleConfig { severity: Severity::Warn, entry_files: vec!["bootstrap".to_string()] };
    let source = "function init() { return true; }\n";
    let body = vec![function(source, "function init() { return true; }", "init")];
    assert!(run_check_with_config("server.ts", source, body, &config).is_empty());
}

#[test]
fn allows_const_with_function_call() {
    let source = "const app = createApp();\nconst root = document.getElementById('root');\n";
    let body = vec![variable("app", Initializer::Other), variable("root", Initializer::Other)];
    assert!(run_check("main.ts", source, body).is_empty());
}

#[test]
fn typical_main_ts_is_clean() {
    let source = "import { createRoot } from 'react-dom/client';\nimport { App } from './App';\n\nconst root = createRoot(document.getElementById('root')!);\nroot.render(<App />);\n";
    let body = vec![
        TopLevelStatement::Import,
        TopLevelStatement::Import,
        variable("root", Initializer::Other),
        TopLevelStatement::Expression,
    ];
    assert!(run_check("main.tsx", source, body).is_empty());
}

#[test]
fn typical_app_tsx_is_clean() {
    let source = "import { Layout } from './Layout';\nimport { RouterProvider } from 'react-router-dom';\n\nexport default function App() {\n    return <Layout><RouterProvider /></Layout>;\n}\n";
    let body = vec![
        TopLevelStatement::Import,
        TopLevelStatement::Import,
        TopLevelStatement::ExportDefault(ExportDefaultKind::Function),
    ];
    assert!(run_check("app.tsx", source, body).is_empty());
}

#[test]
fn reports_default_export_class() {
    let source = "export default class App { run() {} }\n";
    let body = vec![TopLevelStatement::ExportDefault(ExportDefaultKind::Class {
        span: span_of(source, "class App { run() {} }"),
        name: Some("App".to_string()),
    })];
    assert_eq!(run_check("app.tsx", source, body).len(), 1);
}

#[test]
fn reports_for_in_loop() {
    let source = "for (const key in obj) {}\n";
    let body = vec![control(source, "for (const key in obj) {}", ControlFlowKind::ForIn)];
    assert_eq!(run_check("main.ts", source, body).len(), 1);
}

#[test]
fn reports_for_of_loop() {
    let source = "for (const item of items) {}\n";
    let body = vec![control(source, "for (const item of items) {}", ControlFlowKind::ForOf)];
    assert_eq!(run_check("main.ts", source, body).len(), 1);
}

#[test]
fn reports_do_while_loop() {
    let source = "do { } while (false);\n";
    let body = vec![control(source, "do { } while (false);", ControlFlowKind::DoWhile)];
    assert_eq!(run_check("main.ts", source, body).len(), 1);
}
