use niteo_lint::config::{ExportGroup, NewlinesBetween, Severity, SortExportsRuleConfig};
use niteo_lint::program::{Comment, CommentPosition, ExportDeclaration, ExportKind, ModuleItem, ModuleSyntax};
use niteo_lint::rules::exports::sort_exports::{check_file, classify_specifier, fix_file};
use niteo_lint::rules::{Fix, TextEdit, Violation};
use niteo_lint::syntax::{LineIndex, Span};

fn quoted(text: &str) -> Option<String> {
    let open = text.find('"')?;
    let close = open + 1 + text[open + 1..].find('"')?;
    Some(text[open + 1..close].to_string())
}

fn identifier(text: &str) -> String {
    text.chars().take_while(|c| c.is_alphanumeric() || *c == '_' || *c == '$').collect()
}

/// What one `export` statement, written on one line, exports.
fn export_kind(text: &str) -> ExportKind {
    let rest = text["export".len()..].trim_start();
    if rest.starts_with("default") {
        return ExportKind::Default;
    }
    if let Some(star) = rest.strip_prefix('*') {
        let star = star.trim_start();
        let exported = star.strip_prefix("as ").map(|s| identifier(s.trim_start()));
        return ExportKind::All { source: quoted(text).unwrap(), exported };
    }
    let rest = rest.strip_prefix("type ").filter(|r| r.trim_start().starts_with('{')).unwrap_or(rest);
    if let Some(list) = rest.trim_start().strip_prefix('{') {
        let source = if text.contains(" from ") { quoted(text) } else { None };
        return ExportKind::Named { name: identifier(list.trim_start()), source };
    }
    let mut words = rest.split_whitespace();
    let mut word = words.next().unwrap_or("");
    while ["declare", "async", "abstract"].contains(&word) {
        word = words.next().unwrap_or("");
    }
    let name = identifier(words.next().unwrap_or(""));
    ExportKind::Named { name, source: None }
}

/// The statements and comments of a small module written one statement or comment per line.
fn module_of(source: &str) -> ModuleSyntax {
    let mut body = Vec::new();
    let mut comments = Vec::new();
    let mut pending: Vec<(usize, usize)> = Vec::new();
    let mut offset = 0usize;
    for line in source.split_inclusive('\n') {
        let content = line.trim_end_matches(['\n', '\r']);
        let indent = content.len() - content.trim_start().len();
        let text = content.trim();
        let start = offset + indent;
        let end = start + text.len();
        if text.starts_with("//") {
            pending.push((start, end));
        } else if !text.is_empty() {
            for (comment_start, comment_end) in pending.drain(..) {
                comments.push(Comment {
                    span: Span { start: comment_start as u32, end: comment_end as u32 },
                    position: CommentPosition::Leading,
                    attached_to: start as u32,
                });
            }
            let span = Span { start: start as u32, end: end as u32 };
            if text.starts_with("export") {
                body.push(ModuleItem::Export(ExportDeclaration { span, kind: export_kind(text) }));
            } else {
                body.push(ModuleItem::Other(span));
            }
        }
        offset += line.len();
    }
    ModuleSyntax { body, comments }
}

fn run_check(source: &str) -> Vec<Violation> {
    run_check_with_config(source, test_config())
}

fn run_check_with_config(source: &str, config: SortExportsRuleConfig) -> Vec<Violation> {
    let line_index = LineIndex::new(source);
    let program = module_of(source);
    check_file("Component.tsx", &program, source, &line_index, &config)
}

fn run_fix(source: &str) -> Vec<Fix> {
    run_fix_with_config(source, test_config())
}

fn run_fix_with_config(source: &str, config: SortExportsRuleConfig) -> Vec<Fix> {
    let program = module_of(source);
    fix_file("Component.tsx", &program, source, &config)
}

fn apply_fix(source: &str, fixes: &[Fix]) -> String {
    let mut edits: Vec<&TextEdit> = fixes.iter().flat_map(|f| f.edits.iter()).collect();
    edits.sort_by(|a, b| b.start.cmp(&a.start));
    let mut out = source.to_string();
    for edit in edits {
        out.replace_range(edit.start..edit.end, &edit.replacement);
    }
    out
}

fn test_config() -> SortExportsRuleConfig {
    SortExportsRuleConfig { severity: Severity::Warn, groups: Vec::new(), newlines_between: NewlinesBetween::Ignore }
}

fn grouped_config(groups: Vec<Vec<ExportGroup>>) -> SortExportsRuleConfig {
    SortExportsRuleConfig { severity: Severity::Warn, groups, newlines_between: NewlinesBetween::Ignore }
}

#[test]
fn allows_sorted_exports() {
    let source = "export const a = 1;\nexport const b = 2;\nexport const c = 3;\n";
    let violations = run_check(source);
    assert!(violations.is_empty());
}

#[test]
fn reports_unsorted_exports() {
    let source = "export const c = 3;\nexport const a = 1;\nexport const b = 2;\n";
    let violations = run_check(source);
    assert!(!violations.is_empty());
}

#[test]
fn fix_sorts_exports() {
    let source = "export const c = 3;\nexport const a = 1;\nexport const b = 2;\n";
    let fixes = run_fix(source);
    let fixed = apply_fix(source, &fixes);
    assert_eq!(fixed, "export const a = 1;\nexport const b = 2;\nexport const c = 3;\n");
}

#[test]
fn sort_exports_sorts_case_insensitive() {
    let source = "export const Zebra = 1;\nexport const apple = 2;\n";
    let fixes = run_fix(source);
    let fixed = apply_fix(source, &fixes);
    assert_eq!(fixed, "export const apple = 2;\nexport const Zebra = 1;\n");
}

#[test]
fn default_export_sorts_first() {
    let source = "export const b = 2;\nexport default function foo() {}\n";
    let fixes = run_fix(source);
    let fixed = apply_fix(source, &fixes);
    assert_eq!(fixed, "export default function foo() {}\nexport const b = 2;\n");
}

#[test]
fn handles_export_specifiers() {
    let source = "export { c };\nexport { a };\nexport { b };\n";
    let fixes = run_fix(source);
    let fixed = apply_fix(source, &fixes);
    assert_eq!(fixed, "export { a };\nexport { b };\nexport { c };\n");
}

#[test]
fn handles_export_all() {
    let source = "export * from \"./z\";\nexport * from \"./a\";\n";
    let fixes = run_fix(source);
    let fixed = apply_fix(source, &fixes);
    assert_eq!(fixed, "export * from \"./a\";\nexport * from \"./z\";\n");
}

#[test]
fn handles_export_namespace() {
    let source = "export * as Z from \"./z\";\nexport * as A from \"./a\";\n";
    let fixes = run_fix(source);
    let fixed = apply_fix(source, &fixes);
    assert_eq!(fixed, "export * as A from \"./a\";\nexport * as Z from \"./z\";\n");
}

#[test]
fn handles_mixed_export_kinds() {
    let source =
        "export const zebra = 1;\nexport default 42;\nexport const apple = 2;\nexport function banana() {}\n";
    let fixes = run_fix(source);
    let fixed = apply_fix(source, &fixes);
    assert_eq!(
        fixed,
        "export default 42;\nexport const apple = 2;\nexport function banana() {}\nexport const zebra = 1;\n"
    );
}

#[test]
fn preserves_blank_line_groups() {
    let source = "export const z = 1;\nexport const y = 2;\n\nexport const b = 3;\nexport const a = 4;\n";
    let fixes = run_fix(source);
    let fixed = apply_fix(source, &fixes);
    assert!(fixed.contains("\n\n"));
    assert_eq!(
        fixed,
        "export const y = 2;\nexport const z = 1;\n\nexport const a = 4;\nexport const b = 3;\n"
    );
}

#[test]
fn handles_type_exports() {
    let source = "export type { Zebra };\nexport type { Alpha };\n";
    let fixes = run_fix(source);
    let fixed = apply_fix(source, &fixes);
    assert_eq!(fixed, "export type { Alpha };\nexport type { Zebra };\n");
}

#[test]
fn no_fix_when_sorted() {
    let source = "export default 1;\nexport const a = 2;\nexport const b = 3;\n";
    let fixes = run_fix(source);
    assert!(fixes.is_empty());
}

#[test]
fn single_export_no_violation() {
    let source = "export const x = 1;\n";
    let violations = run_check(source);
    assert!(violations.is_empty());
}

#[test]
fn handles_interface_exports() {
    let source = "export interface Zebra {}\nexport interface Alpha {}\n";
    let fixes = run_fix(source);
    let fixed = apply_fix(source, &fixes);
    assert_eq!(fixed, "export interface Alpha {}\nexport interface Zebra {}\n");
}

#[test]
fn sort_exports_preserves_crlf_in_groups() {
    let source = "export const c = 3;\r\nexport const a = 1;\r\nexport const b = 2;\r\n";
    let fixes = run_fix(source);
    let fixed = apply_fix(source, &fixes);
    assert_eq!(fixed, "export const a = 1;\r\nexport const b = 2;\r\nexport const c = 3;\r\n");
}

#[test]
fn sort_exports_respects_crlf_blank_line_groups() {
    let source =
        "export const z = 1;\r\nexport const y = 2;\r\n\r\nexport const b = 3;\r\nexport const a = 4;\r\n";
    let fixes = run_fix(source);
    let fixed = apply_fix(source, &fixes);
    assert_eq!(
        fixed,
        "export const y = 2;\r\nexport const z = 1;\r\n\r\nexport const a = 4;\r\nexport const b = 3;\r\n"
    );
}

#[test]
fn group_ordering_external_before_sibling() {
    let config = grouped_config(vec![vec![ExportGroup::External], vec![ExportGroup::Sibling]]);
    let source = "export * from \"./local\";\nexport * from \"react\";\nexport * from \"./other\";\n";
    let fixes = run_fix_with_config(source, config);
    let fixed = apply_fix(source, &fixes);
    assert_eq!(fixed, "export * from \"react\";\nexport * from \"./local\";\nexport * from \"./other\";\n");
}

#[test]
fn group_ordering_local_after_reexports() {
    let config = grouped_config(vec![
        vec![ExportGroup::Default],
        vec![ExportGroup::External, ExportGroup::Sibling],
        vec![ExportGroup::Local],
    ]);
    let source = "export const b = 2;\nexport * from \"react\";\nexport default 42;\nexport const a = 1;\n";
    let fixes = run_fix_with_config(source, config);
    let fixed = apply_fix(source, &fixes);
    assert_eq!(fixed, "export default 42;\nexport * from \"react\";\nexport const a = 1;\nexport const b = 2;\n");
}

#[test]
fn newlines_between_always_adds_blank_lines_for_exports() {
    let mut config = grouped_config(vec![vec![ExportGroup::Default], vec![ExportGroup::Local]]);
    config.newlines_between = NewlinesBetween::Always;
    let source = "export const b = 2;\nexport default 42;\nexport const a = 1;\n";
    let fixes = run_fix_with_config(source, config);
    let fixed = apply_fix(source, &fixes);
    assert_eq!(fixed, "export default 42;\n\nexport const a = 1;\nexport const b = 2;\n");
}

#[test]
fn backward_compat_empty_groups_still_sorts() {
    let config = test_config();
    let source = "export const c = 3;\nexport const a = 1;\nexport const b = 2;\n";
    let fixes = run_fix_with_config(source, config);
    let fixed = apply_fix(source, &fixes);
    assert_eq!(fixed, "export const a = 1;\nexport const b = 2;\nexport const c = 3;\n");
}

#[test]
fn sort_exports_never_sorts_across_an_executable_statement() {
    let source = "export const z = 1;\nconst keep = true;\nexport const a = 2;\n";
    let fixes = run_fix(source);
    assert!(fixes.is_empty());
    assert_eq!(apply_fix(source, &fixes), source);

    let config = grouped_config(vec![vec![ExportGroup::Local], vec![ExportGroup::Sibling]]);
    let grouped_fixes = run_fix_with_config(source, config);
    assert!(grouped_fixes.is_empty());
    assert_eq!(apply_fix(source, &grouped_fixes), source);
}

#[test]
fn moves_leading_comments_with_exports() {
    let source = "// Z comment\nexport const z = 1;\n// A comment\nexport const a = 2;\n";
    let fixes = run_fix(source);
    let fixed = apply_fix(source, &fixes);
    assert_eq!(fixed, "// A comment\nexport const a = 2;\n// Z comment\nexport const z = 1;\n");
}

#[test]
fn newline_modes_have_matching_export_diagnostics_and_fixes() {
    let groups = vec![vec![ExportGroup::External], vec![ExportGroup::Sibling]];
    let source = "export * from \"react\";\nexport * from \"./local\";\n";

    let mut always = grouped_config(groups.clone());
    always.newlines_between = NewlinesBetween::Always;
    let always_violations = run_check_with_config(source, always.clone());
    assert!(!always_violations.is_empty());
    let always_fixed = apply_fix(source, &run_fix_with_config(source, always.clone()));
    assert_eq!(always_fixed, "export * from \"react\";\n\nexport * from \"./local\";\n");
    assert!(run_check_with_config(&always_fixed, always).is_empty());

    let never_source = "export * from \"react\";\n\nexport * from \"./local\";\n";
    let mut never = grouped_config(groups.clone());
    never.newlines_between = NewlinesBetween::Never;
    assert!(!run_check_with_config(never_source, never.clone()).is_empty());
    let never_fixed = apply_fix(never_source, &run_fix_with_config(never_source, never.clone()));
    assert_eq!(never_fixed, source);
    assert!(run_check_with_config(&never_fixed, never).is_empty());

    let mut ignore = grouped_config(groups);
    ignore.newlines_between = NewlinesBetween::Ignore;
    assert!(run_check_with_config(never_source, ignore.clone()).is_empty());
    assert!(run_fix_with_config(never_source, ignore).is_empty());
}

#[test]
fn sort_exports_preserves_crlf_without_adding_an_eof_newline() {
    let source = "export const z = 1;\r\nexport const a = 2;";
    let fixes = run_fix(source);
    let fixed = apply_fix(source, &fixes);
    assert_eq!(fixed, "export const a = 2;\r\nexport const z = 1;");
}

#[test]
fn applying_export_sort_fix_twice_is_idempotent() {
    let source = "export const z = 1;\nexport const a = 2;\n";
    let once = apply_fix(source, &run_fix(source));
    let second_fixes = run_fix(&once);
    assert!(second_fixes.is_empty());
    assert_eq!(apply_fix(&once, &second_fixes), once);
}

#[test]
fn sort_exports_never_fixes_order_and_blank_lines_in_one_pass() {
    let mut config = grouped_config(vec![vec![ExportGroup::External], vec![ExportGroup::Sibling]]);
    config.newlines_between = NewlinesBetween::Never;
    let source = "export * from \"./local\";\n\nexport * from \"react\";\n";
    let fixed = apply_fix(source, &run_fix_with_config(source, config.clone()));
    assert_eq!(fixed, "export * from \"react\";\nexport * from \"./local\";\n");
    assert!(run_check_with_config(&fixed, config.clone()).is_empty());
    assert!(run_fix_with_config(&fixed, config).is_empty());
}

// Findings in detail.

#[test]
fn sort_exports_names_exports_in_details() {
    let source = "export const b = 2;\nexport * from \"./a\";\n";
    let violations = run_check(source);
    assert_eq!(violations.len(), 1);
    assert_eq!(violations[0].rule, "sort-exports");
    assert_eq!(violations[0].detail.as_deref(), Some("Export \"* from \"./a\"\" should appear before \"b\""));
    assert_eq!(violations[0].subject.as_deref(), Some("* from \"./a\""));
    assert_eq!(violations[0].line, Some(2));
}

#[test]
fn sort_exports_grouped_detail_names_the_export_in_place() {
    let config = grouped_config(vec![vec![ExportGroup::Default], vec![ExportGroup::Local]]);
    let source = "export const a = 1;\nexport default 42;\n";
    let violations = run_check_with_config(source, config);
    assert_eq!(violations.len(), 2);
    assert_eq!(violations[0].detail.as_deref(), Some("Export \"default\" should appear in a different position"));
    assert_eq!(violations[1].detail.as_deref(), Some("Export \"a\" should appear in a different position"));
}

#[test]
fn sort_exports_classifies_specifiers() {
    assert_eq!(classify_specifier("../x"), ExportGroup::Parent);
    assert_eq!(classify_specifier("./x"), ExportGroup::Sibling);
    assert_eq!(classify_specifier("./x/index"), ExportGroup::Index);
    assert_eq!(classify_specifier("react"), ExportGroup::External);
}
