use niteo_lint::config::{FileExportsRuleConfig, Severity};
use niteo_lint::rules::exports::max_file_exports::{check_file, ExportShape};
use niteo_lint::rules::Violation;
use niteo_lint::syntax::LineIndex;

fn test_config(max_exports: usize) -> FileExportsRuleConfig {
    FileExportsRuleConfig { severity: Severity::Warn, max_exports, count_default: true }
}

fn run_check_with_config(source: &str, exports: Vec<ExportShape>, config: FileExportsRuleConfig) -> Vec<Violation> {
    let line_index = LineIndex::new(source);
    check_file("dump.ts", &exports, &line_index, &config)
}

fn run_check(source: &str, exports: Vec<ExportShape>, max_exports: usize) -> Vec<Violation> {
    run_check_with_config(source, exports, test_config(max_exports))
}

/// `export default value;` followed by `export const <n> = ...;` for nine names.
fn default_and_nine() -> (&'static str, Vec<ExportShape>) {
    let source = r#"export default value;
export const one = 1;
export const two = 2;
export const three = 3;
export const four = 4;
export const five = 5;
export const six = 6;
export const seven = 7;
export const eight = 8;
export const nine = 9;
"#;
    let mut exports = vec![ExportShape::Default];
    exports.extend(std::iter::repeat(ExportShape::Variables(1)).take(9));
    (source, exports)
}

#[test]
fn declared_exports_reports_files_with_too_many_named_export_declarations() {
    let source = r#"export const one = 1;
export function two() {}
export class Three {}
export interface Four {}
"#;
    let exports = vec![ExportShape::Variables(1), ExportShape::Declaration, ExportShape::Declaration, ExportShape::Declaration];
    let violations = run_check(source, exports, 3);
    assert_eq!(violations.len(), 1);
    assert_eq!(violations[0].line, Some(1));
    assert_eq!(violations[0].column, Some(1));
}

#[test]
fn declared_exports_counts_named_export_lists() {
    let source = r#"const one = 1;
const two = 2;
const three = 3;
export { one, two as renamedTwo, type three };
"#;
    let violations = run_check(source, vec![ExportShape::Specifiers(3)], 2);
    assert_eq!(violations.len(), 1);
}

#[test]
fn declared_exports_counts_multiple_variable_exports() {
    let violations = run_check("export const one = 1, two = 2, three = 3;\n", vec![ExportShape::Variables(3)], 2);
    assert_eq!(violations.len(), 1);
}

#[test]
fn declared_exports_allows_files_within_limit() {
    let source = r#"export const one = 1;
export { two, three };
"#;
    let violations = run_check(source, vec![ExportShape::Variables(1), ExportShape::Specifiers(2)], 3);
    assert!(violations.is_empty());
}

#[test]
fn declared_exports_ignores_exports_in_comments_and_strings() {
    let source = r#"const text = "export const one = 1";
// export const two = 2;
/* export const three = 3; */
export const four = 4;
"#;
    let violations = run_check(source, vec![ExportShape::Variables(1)], 1);
    assert!(violations.is_empty());
}

#[test]
fn declared_exports_counts_default_and_namespace_exports() {
    let source = r#"export default value;
export * from "./other";
export * as names from "./names";
"#;
    let violations = run_check(source, vec![ExportShape::Default, ExportShape::All, ExportShape::All], 2);
    assert_eq!(violations.len(), 1);
}

#[test]
fn counts_multiple_variable_declarations() {
    let violations = run_check("export const one = 1, two = 2, three = 3, four = 4, five = 5;\n", vec![ExportShape::Variables(5)], 4);
    assert_eq!(violations.len(), 1);
}

#[test]
fn excludes_default_exports_when_count_default_is_false() {
    let (source, exports) = default_and_nine();
    let config = FileExportsRuleConfig { severity: Severity::Warn, max_exports: 9, count_default: false };
    let violations = run_check_with_config(source, exports, config);
    assert!(violations.is_empty());
}

#[test]
fn counts_default_exports_when_count_default_is_true() {
    let (source, exports) = default_and_nine();
    let config = FileExportsRuleConfig { severity: Severity::Warn, max_exports: 9, count_default: true };
    let violations = run_check_with_config(source, exports, config);
    assert_eq!(violations.len(), 1);
}

#[test]
fn validates_when_default_export_pushes_over_limit() {
    let source = r#"export default value;
export const one = 1;
export const two = 2;
"#;
    let exports = vec![ExportShape::Default, ExportShape::Variables(1), ExportShape::Variables(1)];
    let config = FileExportsRuleConfig { severity: Severity::Warn, max_exports: 2, count_default: false };
    let violations = run_check_with_config(source, exports, config);
    assert!(violations.is_empty());
}

#[test]
fn count_default_false_still_reports_named_over_limit() {
    let source = r#"export default value;
export const one = 1;
export const two = 2;
export const three = 3;
"#;
    let exports = vec![ExportShape::Default, ExportShape::Variables(1), ExportShape::Variables(1), ExportShape::Variables(1)];
    let config = FileExportsRuleConfig { severity: Severity::Warn, max_exports: 2, count_default: false };
    let violations = run_check_with_config(source, exports, config);
    assert_eq!(violations.len(), 1);
}

#[test]
fn export_count_finding_has_exact_fields() {
    let violations = run_check("", vec![ExportShape::Specifiers(usize::MAX), ExportShape::Specifiers(usize::MAX)], 5);
    assert_eq!(violations.len(), 1);
    let v = &violations[0];
    assert_eq!(v.file, "dump.ts");
    assert_eq!(v.rule, "max-file-exports");
    assert_eq!(v.message, "Split this file or reduce its public surface area.");
    assert_eq!(v.span, None);
    assert_eq!(v.detail, None);
    assert!(run_check("", vec![ExportShape::Specifiers(5)], 5).is_empty());
}
