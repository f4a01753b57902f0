use niteo_lint::config::{NoRestrictedImportsRuleConfig, RestrictedImportPattern, Severity};
use niteo_lint::rules::imports::no_restricted_imports::{check_file, ModuleReference};
use niteo_lint::rules::Violation;
use niteo_lint::syntax::{LineIndex, Span};

/// The declaration on line `line` (counting from 0) of `source`, naming `module` with `names`;
/// its span runs from the start of the line to the end of its statement.
fn reference(source: &str, line: usize, module: &str, names: &[&str]) -> ModuleReference {
    let start: usize = source.split_inclusive('\n').take(line).map(|l| l.len()).sum();
    let text = source[start..].split('\n').next().unwrap();
    let end = start + text.trim_end().len();
    ModuleReference {
        span: Span { start: start as u32, end: end as u32 },
        source: module.to_string(),
        names: names.iter().map(|n| n.to_string()).collect(),
    }
}

fn run_check(source: &str, references: Vec<ModuleReference>, config: &NoRestrictedImportsRuleConfig) -> Vec<Violation> {
    let line_index = LineIndex::new(source);
    check_file("test.ts", &references, &line_index, config)
}

fn config(restricted: Vec<RestrictedImportPattern>) -> NoRestrictedImportsRuleConfig {
    NoRestrictedImportsRuleConfig { severity: Severity::Warn, restricted }
}

fn simple(pat: &str) -> RestrictedImportPattern {
    RestrictedImportPattern::Simple(pat.to_string())
}

fn full(pat: &str, named: Option<Vec<&str>>, message: Option<&str>) -> RestrictedImportPattern {
    RestrictedImportPattern::Full {
        pattern: pat.to_string(),
        named: named.map(|v| v.into_iter().map(String::from).collect()),
        message: message.map(String::from),
    }
}

#[test]
fn reports_exact_match() {
    let source = "import { merge } from 'lodash';\n";
    let violations = run_check(source, vec![reference(source, 0, "lodash", &["merge"])], &config(vec![simple("lodash")]));
    assert_eq!(violations.len(), 1);
    assert_eq!(violations[0].line, Some(1));
    assert_eq!(violations[0].subject.as_deref(), Some("lodash"));
}

#[test]
fn reports_subpath_match() {
    let source = "import merge from 'lodash/fp/merge';\n";
    let violations = run_check(source, vec![reference(source, 0, "lodash/fp/merge", &[])], &config(vec![simple("lodash")]));
    assert_eq!(violations.len(), 1);
    assert_eq!(violations[0].subject.as_deref(), Some("lodash/fp/merge"));
}

#[test]
fn reports_scoped_package() {
    let source = "import { foo } from '@internal/legacy';\n";
    let violations = run_check(source, vec![reference(source, 0, "@internal/legacy", &["foo"])], &config(vec![simple("@internal/legacy")]));
    assert_eq!(violations.len(), 1);
}

#[test]
fn reports_scoped_package_subpath() {
    let source = "import { foo } from '@internal/legacy/utils';\n";
    let violations = run_check(source, vec![reference(source, 0, "@internal/legacy/utils", &["foo"])], &config(vec![simple("@internal/legacy")]));
    assert_eq!(violations.len(), 1);
}

#[test]
fn reports_re_export_named() {
    let source = "export { format } from 'moment';\n";
    let violations = run_check(source, vec![reference(source, 0, "moment", &["format"])], &config(vec![simple("moment")]));
    assert_eq!(violations.len(), 1);
}

#[test]
fn reports_re_export_all() {
    let source = "export * from 'moment';\n";
    let violations = run_check(source, vec![reference(source, 0, "moment", &[])], &config(vec![simple("moment")]));
    assert_eq!(violations.len(), 1);
}

#[test]
fn allows_non_restricted_import() {
    let source = "import { useState } from 'react';\n";
    let violations = run_check(source, vec![reference(source, 0, "react", &["useState"])], &config(vec![simple("lodash")]));
    assert!(violations.is_empty());
}

#[test]
fn allows_partial_name_that_is_not_subpath() {
    let source = "import { x } from 'lodash-es';\n";
    let violations = run_check(source, vec![reference(source, 0, "lodash-es", &["x"])], &config(vec![simple("lodash")]));
    assert!(violations.is_empty());
}

#[test]
fn no_restricted_imports_reports_multiple_violations() {
    let source = "import { merge } from 'lodash';\nimport moment from 'moment';\n";
    let references = vec![reference(source, 0, "lodash", &["merge"]), reference(source, 1, "moment", &[])];
    let violations = run_check(source, references, &config(vec![simple("lodash"), simple("moment")]));
    assert_eq!(violations.len(), 2);
}

#[test]
fn ignores_imports_in_comments() {
    let source = "// import { merge } from 'lodash';\n";
    let violations = run_check(source, Vec::new(), &config(vec![simple("lodash")]));
    assert!(violations.is_empty());
}

#[test]
fn reports_relative_path_restriction() {
    let source = "import { secret } from '../internal';\n";
    let violations = run_check(source, vec![reference(source, 0, "../internal", &["secret"])], &config(vec![simple("../internal")]));
    assert_eq!(violations.len(), 1);
}

#[test]
fn reports_type_only_import() {
    let source = "import type { Foo } from 'legacy-types';\n";
    let violations = run_check(source, vec![reference(source, 0, "legacy-types", &["Foo"])], &config(vec![simple("legacy-types")]));
    assert_eq!(violations.len(), 1);
}

#[test]
fn glob_wildcard_matches_any_single_segment() {
    let source = "import { x } from '@internal/foo';\n";
    let violations = run_check(source, vec![reference(source, 0, "@internal/foo", &["x"])], &config(vec![simple("@internal/*")]));
    assert_eq!(violations.len(), 1);
}

#[test]
fn glob_wildcard_does_not_match_no_segment() {
    let source = "import { x } from '@internal';\n";
    let violations = run_check(source, vec![reference(source, 0, "@internal", &["x"])], &config(vec![simple("@internal/*")]));
    assert!(violations.is_empty());
}

#[test]
fn glob_double_star_matches_deep() {
    let source = "import { x } from '@internal/a/b/c';\n";
    let violations = run_check(source, vec![reference(source, 0, "@internal/a/b/c", &["x"])], &config(vec![simple("@internal/**")]));
    assert_eq!(violations.len(), 1);
}

#[test]
fn glob_question_mark_matches_single_char() {
    let source = "import { x } from 'lib-v1';\n";
    let violations = run_check(source, vec![reference(source, 0, "lib-v1", &["x"])], &config(vec![simple("lib-v?")]));
    assert_eq!(violations.len(), 1);
}

#[test]
fn named_restriction_blocks_specific_import() {
    let source = "import { deprecated } from 'my-lib';\n";
    let violations = run_check(source, vec![reference(source, 0, "my-lib", &["deprecated"])], &config(vec![full("my-lib", Some(vec!["deprecated"]), None)]));
    assert_eq!(violations.len(), 1);
}

#[test]
fn named_restriction_allows_non_restricted_import_from_same_module() {
    let source = "import { allowed } from 'my-lib';\n";
    let violations = run_check(source, vec![reference(source, 0, "my-lib", &["allowed"])], &config(vec![full("my-lib", Some(vec!["deprecated"]), None)]));
    assert!(violations.is_empty());
}

#[test]
fn named_restriction_allows_deep_import_from_same_module() {
    let source = "import { x } from 'my-lib/sub';\n";
    let violations = run_check(source, vec![reference(source, 0, "my-lib/sub", &["x"])], &config(vec![full("my-lib", Some(vec!["deprecated"]), None)]));
    assert!(violations.is_empty());
}

#[test]
fn named_restriction_blocks_multiple_names() {
    let source = "import { deprecated, old } from 'my-lib';\n";
    let violations = run_check(
        source,
        vec![reference(source, 0, "my-lib", &["deprecated", "old"])],
        &config(vec![full("my-lib", Some(vec!["deprecated", "old"]), None)]),
    );
    assert_eq!(violations.len(), 1);
}

#[test]
fn named_restriction_does_not_match_default_import() {
    let source = "import myLib from 'my-lib';\n";
    let violations = run_check(source, vec![reference(source, 0, "my-lib", &[])], &config(vec![full("my-lib", Some(vec!["deprecated"]), None)]));
    assert!(violations.is_empty());
}

#[test]
fn named_restriction_does_not_match_namespace_import() {
    let source = "import * as myLib from 'my-lib';\n";
    let violations = run_check(source, vec![reference(source, 0, "my-lib", &[])], &config(vec![full("my-lib", Some(vec!["deprecated"]), None)]));
    assert!(violations.is_empty());
}

#[test]
fn named_restriction_with_re_export() {
    let source = "export { deprecated } from 'my-lib';\n";
    let violations = run_check(source, vec![reference(source, 0, "my-lib", &["deprecated"])], &config(vec![full("my-lib", Some(vec!["deprecated"]), None)]));
    assert_eq!(violations.len(), 1);
}

#[test]
fn named_restriction_does_not_match_export_all() {
    let source = "export * from 'my-lib';\n";
    let violations = run_check(source, vec![reference(source, 0, "my-lib", &[])], &config(vec![full("my-lib", Some(vec!["deprecated"]), None)]));
    assert!(violations.is_empty());
}

#[test]
fn custom_message_appears_in_detail() {
    let source = "import { merge } from 'lodash';\n";
    let violations = run_check(source, vec![reference(source, 0, "lodash", &["merge"])], &config(vec![full("lodash", None, Some("Use lodash-es instead."))]));
    assert_eq!(violations.len(), 1);
    assert_eq!(violations[0].detail.as_deref(), Some("\"lodash\" matches a restricted pattern: Use lodash-es instead."));
}

#[test]
fn default_detail_when_no_custom_message() {
    let source = "import { merge } from 'lodash';\n";
    let violations = run_check(source, vec![reference(source, 0, "lodash", &["merge"])], &config(vec![simple("lodash")]));
    assert_eq!(violations.len(), 1);
    assert_eq!(violations[0].detail.as_deref(), Some("\"lodash\" matches a restricted pattern"));
}

#[test]
fn restriction_finding_has_exact_fields() {
    let source = "import a from 'a';\nimport { merge } from 'lodash';\n";
    let references = vec![reference(source, 0, "a", &[]), reference(source, 1, "lodash", &["merge"])];
    let violations = run_check(source, references, &config(vec![simple("lodash")]));
    assert_eq!(violations.len(), 1);
    let v = &violations[0];
    assert_eq!(v.rule, "no-restricted-imports");
    assert_eq!(v.message, "Import from a restricted package or path.");
    assert_eq!(v.span, Some(Span { start: 19, end: 50 }));
    assert_eq!(v.line, Some(2));
    assert_eq!(v.column, Some(1));
}

#[test]
fn first_covering_restriction_gives_the_message() {
    let source = "import { merge } from 'lodash';\n";
    let restricted = vec![full("react", None, Some("first")), full("lod*", None, Some("second")), full("lodash", None, Some("third"))];
    let violations = run_check(source, vec![reference(source, 0, "lodash", &["merge"])], &config(restricted));
    assert_eq!(violations.len(), 1);
    assert_eq!(violations[0].detail.as_deref(), Some("\"lodash\" matches a restricted pattern: second"));
}

#[test]
fn glob_that_does_not_build_matches_literally() {
    let source = "import { x } from 'lib[';\n";
    let violations = run_check(source, vec![reference(source, 0, "lib[", &["x"])], &config(vec![simple("lib[")]));
    assert_eq!(violations.len(), 1);
}

#[test]
fn accessors_give_the_fields() {
    let p = full("my-lib", Some(vec!["a"]), Some("m"));
    assert_eq!(p.pattern(), "my-lib");
    assert_eq!(p.named().map(|v| v.len()), Some(1));
    assert_eq!(p.message().map(|m| m.as_str()), Some("m"));
    let s = simple("x");
    assert_eq!(s.pattern(), "x");
    assert!(s.named().is_none());
    assert!(s.message().is_none());
}
