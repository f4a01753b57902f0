use niteo_lint::config::{FileExportsRuleConfig, FileLengthRuleConfig, RuleConfig, Severity};
use niteo_lint::directory_inventory::{DirectoryFacts, DirectoryInventory};
use niteo_lint::rules::files::directory_must_have_barrel;
use niteo_lint::rules::files::max_items_per_directory::directory_violation;
use niteo_lint::rules::files::no_large_file;
use niteo_lint::rules::hook_no_jsx;
use niteo_lint::rules::max_file_exports;
use niteo_lint::rules::DIRECTORY_MUST_HAVE_BARREL_RULE_ID;

fn warn_config() -> RuleConfig {
    RuleConfig { severity: Severity::Warn }
}

fn make_facts(path: &str, source_files: Vec<&str>, subdirectories: Vec<&str>) -> DirectoryFacts {
    DirectoryFacts {
        path: path.to_string(),
        depth: 1,
        source_files: source_files.into_iter().map(|s| s.to_string()).collect(),
        subdirectories: subdirectories.into_iter().map(|s| s.to_string()).collect(),
        barrel_files: Vec::new(),
    }
}

#[test]
fn reports_directory_with_child_folder_and_no_index_ts() {
    let inventory = DirectoryInventory {
        directories: vec![make_facts("src/features", vec!["src/features/Card.tsx"], vec!["src/features/billing"])],
    };
    let violations = directory_must_have_barrel::check_inventory(&inventory, &warn_config());
    assert_eq!(violations.len(), 1);
    assert_eq!(violations[0].rule, DIRECTORY_MUST_HAVE_BARREL_RULE_ID);
    assert_eq!(violations[0].line, None);
    assert_eq!(violations[0].column, None);
    assert!(violations[0].detail.is_some());
}

#[test]
fn allows_directory_with_child_folder_and_index_ts() {
    let inventory = DirectoryInventory {
        directories: vec![make_facts(
            "src/features",
            vec!["src/features/index.ts", "src/features/Card.tsx"],
            vec!["src/features/billing"],
        )],
    };
    let violations = directory_must_have_barrel::check_inventory(&inventory, &warn_config());
    assert!(violations.is_empty());
}

#[test]
fn allows_leaf_directory_without_index_ts() {
    let inventory = DirectoryInventory {
        directories: vec![make_facts("src/features/billing", vec!["src/features/billing/Card.tsx"], vec![])],
    };
    let violations = directory_must_have_barrel::check_inventory(&inventory, &warn_config());
    assert!(violations.is_empty());
}

#[test]
fn ignores_index_tsx() {
    let inventory = DirectoryInventory {
        directories: vec![make_facts(
            "src/features",
            vec!["src/features/index.tsx", "src/features/Card.tsx"],
            vec!["src/features/billing"],
        )],
    };
    let violations = directory_must_have_barrel::check_inventory(&inventory, &warn_config());
    assert_eq!(violations.len(), 1);
}

#[test]
fn respects_severity_from_config() {
    let inventory = DirectoryInventory {
        directories: vec![make_facts("src/features", vec!["src/features/Card.tsx"], vec!["src/features/billing"])],
    };
    let config = RuleConfig { severity: Severity::Error };
    let violations = directory_must_have_barrel::check_inventory(&inventory, &config);
    assert_eq!(violations.len(), 1);
    assert_eq!(violations[0].severity, Severity::Error);
}

#[test]
fn skips_ignored_directories() {
    let inventory = DirectoryInventory {
        directories: vec![make_facts("node_modules", vec![], vec!["node_modules/pkg"])],
    };
    let violations = directory_must_have_barrel::check_inventory(&inventory, &warn_config());
    assert!(violations.is_empty());
}

fn length_config(max_lines: usize) -> FileLengthRuleConfig {
    FileLengthRuleConfig { severity: Severity::Warn, max_lines }
}

#[test]
fn no_large_file_allows_files_within_limit() {
    let source = "line 1\nline 2\nline 3\n";
    let violations = no_large_file::check_file("file.ts", source, &length_config(3));
    assert!(violations.is_empty());
}

#[test]
fn reports_files_over_limit() {
    let source = "line 1\nline 2\nline 3\nline 4\n";
    let violations = no_large_file::check_file("file.ts", source, &length_config(3));
    assert_eq!(violations.len(), 1);
    assert_eq!(violations[0].line, Some(5));
    assert_eq!(violations[0].column, Some(1));
}

#[test]
fn reports_last_column_when_file_has_no_trailing_newline() {
    let source = "line 1\nline 2\nline 3";
    let violations = no_large_file::check_file("file.ts", source, &length_config(2));
    assert_eq!(violations.len(), 1);
    assert_eq!(violations[0].line, Some(3));
    assert_eq!(violations[0].column, Some(7));
}

#[test]
fn counts_empty_file_as_zero_lines() {
    let violations = no_large_file::check_file("file.ts", "", &length_config(1));
    assert!(violations.is_empty());
}

#[test]
fn hook_no_jsx_reports_jsx_in_hook_file() {
    let violations = hook_no_jsx::check_file(
        "src/hooks/useAuth.ts",
        "export function useAuth() {\n  return <div>Loading</div>;\n}\n",
        &warn_config(),
    );
    assert_eq!(violations.len(), 1);
    assert_eq!(violations[0].line, Some(2));
}

#[test]
fn hook_no_jsx_reports_jsx_in_dot_hook_file() {
    let violations = hook_no_jsx::check_file(
        "useAuth.hook.ts",
        "export function useAuth() {\n  return <p>Hello</p>;\n}\n",
        &warn_config(),
    );
    assert_eq!(violations.len(), 1);
}

#[test]
fn hook_no_jsx_reports_jsx_in_dot_hooks_file() {
    let violations = hook_no_jsx::check_file(
        "useAuth.hooks.ts",
        "export function useAuth() {\n  return <span>Hi</span>;\n}\n",
        &warn_config(),
    );
    assert_eq!(violations.len(), 1);
}

#[test]
fn hook_no_jsx_allows_hook_without_jsx() {
    let violations = hook_no_jsx::check_file(
        "src/hooks/useAuth.ts",
        "export function useAuth() {\n  return { user: null };\n}\n",
        &warn_config(),
    );
    assert!(violations.is_empty());
}

#[test]
fn hook_no_jsx_ignores_jsx_in_non_hook_file() {
    let violations = hook_no_jsx::check_file(
        "src/components/Auth.tsx",
        "export function Auth() {\n  return <div>Login</div>;\n}\n",
        &warn_config(),
    );
    assert!(violations.is_empty());
}

#[test]
fn hook_no_jsx_ignores_jsx_in_comments_and_strings() {
    let source = "// return <div>Loading</div>;\nconst text = \"<p>Hello</p>\";\n";
    let violations = hook_no_jsx::check_file("src/hooks/useAuth.ts", source, &warn_config());
    assert!(violations.is_empty());
}

fn exports_config(max_exports: usize) -> FileExportsRuleConfig {
    FileExportsRuleConfig { severity: Severity::Warn, max_exports, count_default: true }
}

#[test]
fn max_file_exports_reports_files_with_too_many_named_export_declarations() {
    let source = "export const one = 1;\nexport function two() {}\nexport class Three {}\nexport interface Four {}\n";
    let violations = max_file_exports::check_file("dump.ts", source, &exports_config(3));
    assert_eq!(violations.len(), 1);
    assert_eq!(violations[0].line, Some(1));
    assert_eq!(violations[0].column, Some(1));
}

#[test]
fn max_file_exports_counts_named_export_lists() {
    let source = "const one = 1;\nconst two = 2;\nconst three = 3;\nexport { one, two as renamedTwo, type three };\n";
    let violations = max_file_exports::check_file("dump.ts", source, &exports_config(2));
    assert_eq!(violations.len(), 1);
}

#[test]
fn max_file_exports_counts_multiple_variable_exports() {
    let violations = max_file_exports::check_file("values.ts", "export const one = 1, two = 2, three = 3;\n", &exports_config(2));
    assert_eq!(violations.len(), 1);
}

#[test]
fn max_file_exports_allows_files_within_limit() {
    let source = "export const one = 1;\nexport { two, three };\n";
    let violations = max_file_exports::check_file("small.ts", source, &exports_config(3));
    assert!(violations.is_empty());
}

#[test]
fn max_file_exports_ignores_exports_in_comments_and_strings() {
    let source = "const text = \"export const one = 1\";\n// export const two = 2;\n/* export const three = 3; */\nexport const four = 4;\n";
    let violations = max_file_exports::check_file("small.ts", source, &exports_config(1));
    assert!(violations.is_empty());
}

#[test]
fn max_file_exports_counts_default_and_namespace_exports() {
    let source = "export default value;\nexport * from \"./other\";\nexport * as names from \"./names\";\n";
    let violations = max_file_exports::check_file("barrel.ts", source, &exports_config(2));
    assert_eq!(violations.len(), 1);
}

#[test]
fn violation_detail_shows_count_and_limit_files_only() {
    let v = directory_violation("src", Severity::Warn, 15, 10, false);
    assert_eq!(v.detail, Some("Contains 15 TypeScript files (limit: 10).".to_string()));
}

#[test]
fn violation_detail_shows_count_and_limit_including_folders() {
    let v = directory_violation("src", Severity::Warn, 25, 20, true);
    assert_eq!(v.detail, Some("Contains 25 TypeScript items (limit: 20).".to_string()));
}
