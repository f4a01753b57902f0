use niteo_lint::config::{DomainConfig, LayerBoundaryConfig, LayerDefinition, RuleConfig, Severity, UpwardImportRuleConfig};
use niteo_lint::import_graph::build_import_graph_from_sources;
use niteo_lint::import_graph::topology::CircularImportContext;
use niteo_lint::rules::exports::no_barrel_chain;
use niteo_lint::rules::imports::{layer_boundaries, no_circular_import, no_private_package_import, no_upward_import};
use niteo_lint::rules::{Violation, NO_PRIVATE_PACKAGE_IMPORT_RULE_ID};
use niteo_lint::syntax::LineIndex;
use niteo_lint::workspace::{Package, Workspace};

fn test_config() -> RuleConfig {
    RuleConfig { severity: Severity::Warn }
}

fn test_domain() -> DomainConfig {
    DomainConfig {
        folders: vec!["tests".to_string()],
        file_suffixes: vec![".test.ts".to_string(), ".tests.ts".to_string()],
    }
}

fn source_of<'a>(file_path: &str, files: &[(&'a str, &'a str)]) -> &'a str {
    files.iter().find(|(path, _)| *path == file_path).map(|(_, source)| *source).unwrap_or("")
}

// no-barrel-chain

fn run_barrel_check(file_path: &str, files: &[(&str, &str)]) -> Vec<Violation> {
    let graph = build_import_graph_from_sources(files, &test_domain(), None);
    let line_index = LineIndex::new(source_of(file_path, files));
    no_barrel_chain::check_file(file_path, &line_index, &graph, &test_config())
}

#[test]
fn reports_re_export_from_folder_barrel() {
    let files = vec![
        ("src/components/index.ts", "export { Button } from './button';\n"),
        ("src/components/button/index.ts", ""),
    ];
    let violations = run_barrel_check("src/components/index.ts", &files);
    assert_eq!(violations.len(), 1);
    assert_eq!(violations[0].line, Some(1));
    assert_eq!(violations[0].column, Some(1));
    assert_eq!(violations[0].subject.as_deref(), Some("./button"));
}

#[test]
fn reports_re_export_from_explicit_barrel_file() {
    let files = vec![("src/index.ts", "export * from './components/index';\n"), ("src/components/index.ts", "")];
    let violations = run_barrel_check("src/index.ts", &files);
    assert_eq!(violations.len(), 1);
}

#[test]
fn reports_type_re_export_from_barrel() {
    let files = vec![("src/index.ts", "export type { Props } from './types';\n"), ("src/types/index.ts", "")];
    let violations = run_barrel_check("src/index.ts", &files);
    assert_eq!(violations.len(), 1);
}

#[test]
fn allows_re_export_from_non_barrel_file() {
    let files = vec![("src/index.ts", "export { Button } from './Button';\n"), ("src/Button.ts", "")];
    let violations = run_barrel_check("src/index.ts", &files);
    assert!(violations.is_empty());
}

#[test]
fn allows_non_barrel_files() {
    let files = vec![("src/Button.ts", "export { Button } from './components';\n"), ("src/components/index.ts", "")];
    let violations = run_barrel_check("src/Button.ts", &files);
    assert!(violations.is_empty());
}

#[test]
fn ignores_external_re_exports() {
    let files = vec![("src/index.ts", "export { z } from 'zod';\n")];
    let violations = run_barrel_check("src/index.ts", &files);
    assert!(violations.is_empty());
}

// layer-boundaries

fn layer(name: &str) -> LayerDefinition {
    LayerDefinition {
        name: name.to_string(),
        domain: DomainConfig { folders: vec![name.to_string()], file_suffixes: vec![] },
    }
}

fn test_layers() -> LayerBoundaryConfig {
    LayerBoundaryConfig {
        order: vec!["app".to_string(), "features".to_string(), "entities".to_string(), "shared".to_string()],
        definitions: vec![layer("app"), layer("features"), layer("entities"), layer("shared")],
    }
}

fn run_layer_check(source_file: &str, source: &str, config: &RuleConfig, layers: &LayerBoundaryConfig) -> Vec<Violation> {
    let base_files = vec![
        ("app/index.ts", "import { Feature } from \"../features/index\";"),
        ("features/index.ts", "import { Entity } from \"../entities/index\";"),
        ("entities/index.ts", "import { Helper } from \"../shared/helper\";"),
        ("shared/helper.ts", ""),
        ("features/auth/session.ts", ""),
    ];
    let mut files: Vec<(&str, &str)> = base_files.into_iter().filter(|(name, _)| *name != source_file).collect();
    files.push((source_file, source));
    let graph = build_import_graph_from_sources(&files, &test_domain(), None);
    let line_index = LineIndex::new(source);
    layer_boundaries::check_file(source_file, &line_index, &graph, config, layers)
}

#[test]
fn allows_downward_import() {
    let source = "import { Thing } from \"../entities/index\";";
    let violations = run_layer_check("features/index.ts", source, &test_config(), &test_layers());
    assert!(violations.is_empty());
}

#[test]
fn allows_same_layer_import() {
    let source = "import { Other } from \"./other\";";
    let violations = run_layer_check("features/index.ts", source, &test_config(), &test_layers());
    assert!(violations.is_empty());
}

#[test]
fn reports_upward_import() {
    let source = "import { getSession } from \"../features/auth/session\";";
    let violations = run_layer_check("shared/date.ts", source, &test_config(), &test_layers());
    assert_eq!(violations.len(), 1);
    assert_eq!(violations[0].rule, "layer-boundaries");
    assert_eq!(violations[0].line, Some(1));
    assert_eq!(violations[0].column, Some(1));
    let detail = violations[0].detail.as_deref().expect("expected detail");
    assert!(detail.contains("shared cannot import features"));
}

#[test]
fn ignores_unknown_source_layer() {
    let source = "import { Something } from \"../shared/helper\";";
    let violations = run_layer_check("lib/unknown.ts", source, &test_config(), &test_layers());
    assert!(violations.is_empty());
}

#[test]
fn ignores_unknown_target_layer() {
    let source = "import { Something } from \"../lib/unknown\";";
    let violations = run_layer_check("features/index.ts", source, &test_config(), &test_layers());
    assert!(violations.is_empty());
}

#[test]
fn quiet_when_no_layers_configured() {
    let empty_layers = LayerBoundaryConfig::default();
    let source = "import { Something } from \"../features\";";
    let files = vec![("shared/date.ts", source), ("features/index.ts", "import { Thing } from \"../lib\";")];
    let graph = build_import_graph_from_sources(&files, &test_domain(), None);
    let line_index = LineIndex::new(source);
    let violations = layer_boundaries::check_file("shared/date.ts", &line_index, &graph, &test_config(), &empty_layers);
    assert!(violations.is_empty());
}

#[test]
fn reports_edge_span_positions() {
    let source = "\nimport { getSession } from \"../features/auth/session\";\n";
    let violations = run_layer_check("shared/date.ts", source.trim(), &test_config(), &test_layers());
    assert_eq!(violations.len(), 1);
    assert_eq!(violations[0].line, Some(1));
}

#[test]
fn reports_reexport_violation() {
    let source = "export { getSession } from \"../features/auth/session\";";
    let violations = run_layer_check("shared/date.ts", source, &test_config(), &test_layers());
    assert_eq!(violations.len(), 1);
}

// no-circular-import

fn run_cycle_check(file_path: &str, files: &[(&str, &str)]) -> Vec<Violation> {
    let graph = build_import_graph_from_sources(files, &test_domain(), None);
    let context = CircularImportContext::new(&graph);
    let line_index = LineIndex::new(source_of(file_path, files));
    no_circular_import::check_file(file_path, &line_index, &graph, &context, &test_config())
}

#[test]
fn detects_direct_cycle() {
    let files = vec![("src/a.ts", "import { b } from './b';\n"), ("src/b.ts", "import { a } from './a';\n")];
    let violations_a = run_cycle_check("src/a.ts", &files);
    let violations_b = run_cycle_check("src/b.ts", &files);
    assert_eq!(violations_a.len(), 1);
    assert!(violations_a[0].detail.as_ref().expect("expected detail").contains("->"));
    assert_eq!(violations_b.len(), 0);
}

#[test]
fn detects_three_node_cycle() {
    let files = vec![
        ("src/a.ts", "import { b } from './b';\n"),
        ("src/b.ts", "import { c } from './c';\n"),
        ("src/c.ts", "import { a } from './a';\n"),
    ];
    assert_eq!(run_cycle_check("src/a.ts", &files).len(), 1);
    assert_eq!(run_cycle_check("src/b.ts", &files).len(), 0);
    assert_eq!(run_cycle_check("src/c.ts", &files).len(), 0);
}

#[test]
fn no_cycle_in_acyclic_graph() {
    let files = vec![
        ("src/a.ts", "import { b } from './b';\n"),
        ("src/b.ts", "import { c } from './c';\n"),
        ("src/c.ts", ""),
    ];
    assert!(run_cycle_check("src/a.ts", &files).is_empty());
}

#[test]
fn no_cycle_with_external_imports() {
    let files = vec![("src/a.ts", "import { z } from 'zod';\n")];
    assert!(run_cycle_check("src/a.ts", &files).is_empty());
}

#[test]
fn reports_line_and_column() {
    let files = vec![("src/a.ts", "import { b } from './b';\n"), ("src/b.ts", "import { a } from './a';\n")];
    let violations = run_cycle_check("src/a.ts", &files);
    assert_eq!(violations[0].line, Some(1));
    assert_eq!(violations[0].column, Some(1));
}

#[test]
fn self_import_is_a_cycle() {
    let files = vec![("src/a.ts", "import { a } from './a';\n")];
    assert_eq!(run_cycle_check("src/a.ts", &files).len(), 1);
}

#[test]
fn two_independent_cycles_both_report() {
    let files = vec![
        ("src/a.ts", "import { b } from './b';\n"),
        ("src/b.ts", "import { a } from './a';\n"),
        ("src/c.ts", "import { d } from './d';\n"),
        ("src/d.ts", "import { c } from './c';\n"),
    ];
    assert_eq!(run_cycle_check("src/a.ts", &files).len(), 1);
    assert_eq!(run_cycle_check("src/c.ts", &files).len(), 1);
}

#[test]
fn duplicate_imports_do_not_duplicate_reports() {
    let files = vec![
        ("src/a.ts", "import { b } from './b';\nimport { b2 } from './b';\n"),
        ("src/b.ts", "import { a } from './a';\n"),
    ];
    assert_eq!(run_cycle_check("src/a.ts", &files).len(), 1);
}

#[test]
fn deterministic_reporting_with_multiple_outgoing() {
    let files = vec![
        ("src/a.ts", "import { b } from './b';\nimport { c } from './c';\n"),
        ("src/b.ts", "import { a } from './a';\n"),
        ("src/c.ts", "import { a } from './a';\n"),
    ];
    let violations_1 = run_cycle_check("src/a.ts", &files);
    let violations_2 = run_cycle_check("src/a.ts", &files);
    assert_eq!(violations_1.len(), 1);
    assert_eq!(violations_2.len(), 1);
    assert_eq!(violations_1[0].detail, violations_2[0].detail);
    assert_eq!(violations_1[0].subject, violations_2[0].subject);
}

#[test]
fn non_canonical_files_return_no_violations() {
    let files = vec![
        ("src/a.ts", "import { b } from './b';\n"),
        ("src/b.ts", "import { c } from './c';\n"),
        ("src/c.ts", "import { a } from './a';\n"),
    ];
    assert_eq!(run_cycle_check("src/b.ts", &files).len(), 0);
    assert_eq!(run_cycle_check("src/c.ts", &files).len(), 0);
}

#[test]
fn cycle_detail_format() {
    let files = vec![("src/a.ts", "import { b } from './b';\n"), ("src/b.ts", "import { a } from './a';\n")];
    let violations = run_cycle_check("src/a.ts", &files);
    assert_eq!(violations[0].detail.as_ref().expect("expected detail"), "a.ts -> b.ts -> a.ts");
}

#[test]
fn three_node_cycle_detail_format() {
    let files = vec![
        ("src/a.ts", "import { b } from './b';\n"),
        ("src/b.ts", "import { c } from './c';\n"),
        ("src/c.ts", "import { a } from './a';\n"),
    ];
    let violations = run_cycle_check("src/a.ts", &files);
    assert_eq!(violations[0].detail.as_ref().expect("expected detail"), "a.ts -> b.ts -> c.ts -> a.ts");
}

// no-private-package-import

fn private_domain() -> DomainConfig {
    DomainConfig { folders: vec!["tests".to_string()], file_suffixes: vec![".test.ts".to_string()] }
}

fn workspace_with_packages(root: &str) -> Workspace {
    Workspace {
        root: root.to_string(),
        packages: vec![
            Package {
                name: "app".to_string(),
                directory: format!("{root}/packages/app"),
                public_entrypoints: vec![format!("{root}/packages/app/src/index.ts")],
            },
            Package {
                name: "ui".to_string(),
                directory: format!("{root}/packages/ui"),
                public_entrypoints: vec![format!("{root}/packages/ui/src/index.ts")],
            },
        ],
    }
}

fn run_private_check(files: &[(&str, &str)], file: &str, workspace: Option<&Workspace>) -> Vec<Violation> {
    let graph = build_import_graph_from_sources(files, &private_domain(), None);
    let line_index = LineIndex::new(files[0].1);
    no_private_package_import::check_file(file, &line_index, &graph, workspace, &test_config())
}

#[test]
fn allows_public_import_from_another_package() {
    let workspace = workspace_with_packages("/repo");
    let files = vec![
        ("/repo/packages/app/src/main.ts", "import { Button } from '../../ui/src/index';"),
        ("/repo/packages/ui/src/index.ts", "export const Button = 1;"),
    ];
    let violations = run_private_check(&files, "/repo/packages/app/src/main.ts", Some(&workspace));
    assert!(violations.is_empty());
}

#[test]
fn reports_private_import_by_relative_path() {
    let workspace = workspace_with_packages("/repo");
    let files = vec![
        ("/repo/packages/app/src/main.ts", "import { Button } from '../../ui/src/internal/Button';"),
        ("/repo/packages/ui/src/internal/Button.ts", "export const Button = 1;"),
    ];
    let violations = run_private_check(&files, "/repo/packages/app/src/main.ts", Some(&workspace));
    assert_eq!(violations.len(), 1);
    assert_eq!(violations[0].rule, NO_PRIVATE_PACKAGE_IMPORT_RULE_ID);
}

#[test]
fn allows_same_package_internal_import() {
    let workspace = workspace_with_packages("/repo");
    let files = vec![
        ("/repo/packages/app/src/main.ts", "import { helper } from './internal/helper';"),
        ("/repo/packages/app/src/internal/helper.ts", "export const helper = 1;"),
    ];
    let violations = run_private_check(&files, "/repo/packages/app/src/main.ts", Some(&workspace));
    assert!(violations.is_empty());
}

#[test]
fn no_violations_without_workspace() {
    let files = vec![
        ("/repo/packages/app/src/main.ts", "import { Button } from '../../ui/src/internal/Button';"),
        ("/repo/packages/ui/src/internal/Button.ts", "export const Button = 1;"),
    ];
    let violations = run_private_check(&files, "/repo/packages/app/src/main.ts", None);
    assert!(violations.is_empty());
}

#[test]
fn no_violations_when_source_outside_packages() {
    let workspace = workspace_with_packages("/repo");
    let files = vec![
        ("/repo/src/main.ts", "import { Button } from '../packages/ui/src/internal/Button';"),
        ("/repo/packages/ui/src/internal/Button.ts", "export const Button = 1;"),
    ];
    let violations = run_private_check(&files, "/repo/src/main.ts", Some(&workspace));
    assert!(violations.is_empty());
}

// no-upward-import

fn upward_config() -> UpwardImportRuleConfig {
    UpwardImportRuleConfig { severity: Severity::Warn, max_depth: 0, allow_patterns: vec![] }
}

fn upward_config_with_depth(max_depth: usize) -> UpwardImportRuleConfig {
    UpwardImportRuleConfig { max_depth, ..upward_config() }
}

fn run_upward_check_at(path: &str, source: &str, config: &UpwardImportRuleConfig) -> Vec<Violation> {
    let files = vec![(path, source)];
    let graph = build_import_graph_from_sources(&files, &test_domain(), None);
    let line_index = LineIndex::new(source);
    no_upward_import::check_file(path, &line_index, &graph, config)
}

fn run_upward_check(source: &str, config: &UpwardImportRuleConfig) -> Vec<Violation> {
    run_upward_check_at("Button.ts", source, config)
}

#[test]
fn reports_upward_relative_imports() {
    let violations = run_upward_check("import { shared } from \"../../../shared\";\n", &upward_config());
    assert_eq!(violations.len(), 1);
    assert_eq!(violations[0].line, Some(1));
    assert_eq!(violations[0].column, Some(1));
}

#[test]
fn reports_upward_relative_export_from() {
    let violations = run_upward_check("export { shared } from \"../shared\";\n", &upward_config());
    assert_eq!(violations.len(), 1);
}

#[test]
fn reports_dynamic_upward_imports() {
    let violations = run_upward_check("const shared = await import(\"../../shared\");\n", &upward_config());
    assert_eq!(violations.len(), 1);
}

#[test]
fn keeps_line_positions_after_multiline_imports() {
    let source = "import {\n  local,\n} from \"./local\";\nimport { shared } from \"../shared\";\n";
    let violations = run_upward_check(source, &upward_config());
    assert_eq!(violations.len(), 1);
    assert_eq!(violations[0].line, Some(4));
    assert_eq!(violations[0].column, Some(1));
}

#[test]
fn allows_same_folder_and_downward_imports() {
    let source = "import { value } from \"./value\";\nexport { other } from \"./other\";\nconst shared = import(\"shared\");\n";
    let violations = run_upward_check(source, &upward_config());
    assert!(violations.is_empty());
}

#[test]
fn does_not_treat_export_default_as_export_from() {
    let source = "export default function Component() {}\nimport { shared } from \"../shared\";\n";
    let violations = run_upward_check(source, &upward_config());
    assert_eq!(violations.len(), 1);
    assert_eq!(violations[0].line, Some(2));
}

#[test]
fn allows_configured_upward_depth() {
    let source = "import { shared } from \"../shared\";\nimport { other } from \"../../other\";\n";
    let violations = run_upward_check(source, &upward_config_with_depth(1));
    assert_eq!(violations.len(), 1);
    assert_eq!(violations[0].line, Some(2));
}

#[test]
fn reports_export_all_upward() {
    let violations = run_upward_check("export * from \"../other\";\n", &upward_config());
    assert_eq!(violations.len(), 1);
}

#[test]
fn allows_upward_imports_matching_allow_patterns() {
    let source = "import { utils } from \"../../utils\";\nimport { normal } from \"../shared\";\n";
    let config = UpwardImportRuleConfig {
        severity: Severity::Warn,
        max_depth: 0,
        allow_patterns: vec!["**/generated/**".to_string()],
    };
    let violations = run_upward_check_at("src/generated/Component.ts", source, &config);
    assert!(violations.is_empty(), "expected no violations for generated file");
}

#[test]
fn reports_upward_imports_outside_allow_patterns() {
    let source = "import { utils } from \"../../utils\";\n";
    let config = UpwardImportRuleConfig {
        severity: Severity::Warn,
        max_depth: 0,
        allow_patterns: vec!["**/generated/**".to_string()],
    };
    let violations = run_upward_check_at("src/components/Button.ts", source, &config);
    assert_eq!(violations.len(), 1, "expected violation for non-generated file");
}
