use niteo_lint::config::{
    BarrelRuleConfig,
    ArchitectureConfig, BooleanPrefixRuleConfig, ExplicitReturnTypeRuleConfig, DomainConfig, EntryFileNoLogicRuleConfig, FileExportsRuleConfig,
    FileLengthRuleConfig, HookPrefixRuleConfig, LayerBoundaryConfig, MaxDirectoryDepthRuleConfig,
    MaxFunctionParamsRuleConfig, MaxItemsPerDirectoryRuleConfig, MinItemsPerDirectoryRuleConfig, NestingContext,
    NewlinesBetween, NoAbbreviationsRuleConfig, NoAnemicDomainRuleConfig, NoAnyRuleConfig, NoCommentsRuleConfig,
    NoConsoleRuleConfig, NoDefaultExportRuleConfig, NoDumpFilesRuleConfig, NoDuplicateFileNamesRuleConfig,
    NoEmptyDirectoriesRuleConfig, NoEmptyDomainRuleConfig, NoGodDomainRuleConfig, NoInterfaceRuleConfig,
    NoMagicNumbersRuleConfig, NoNestedFunctionsRuleConfig, NoOrphanFilesRuleConfig, NoRestrictedImportsRuleConfig, NoThenChainRuleConfig,
    ProjectConfig, RuleConfig, RulesConfig, Severity, SortExportsRuleConfig, SortImportsRuleConfig, StructureConfig, UpwardImportRuleConfig,
};
use niteo_lint::rule_documentation::{configured_rules, explain_rule, render_explanation_text};

fn domain(folders: &[&str], suffixes: &[&str]) -> DomainConfig {
    DomainConfig {
        folders: folders.iter().map(|s| s.to_string()).collect(),
        file_suffixes: suffixes.iter().map(|s| s.to_string()).collect(),
    }
}

fn project_config() -> ProjectConfig {
    ProjectConfig {
        rules: RulesConfig {
            boolean_prefix: BooleanPrefixRuleConfig { severity: Severity::Warn, prefixes: Vec::new(), ignore_constants: false },
            component_file_only_components: RuleConfig { severity: Severity::Warn },
            directory_must_have_barrel: RuleConfig { severity: Severity::Warn },
            hook_no_jsx: RuleConfig { severity: Severity::Warn },
            layer_boundaries: RuleConfig { severity: Severity::Warn },
            hook_prefix: HookPrefixRuleConfig { severity: Severity::Warn, prefixes: Vec::new() },
            max_directory_depth: MaxDirectoryDepthRuleConfig { severity: Severity::Warn, max_depth: 4, ignore_dirs: vec!["node_modules".to_string()] },
            max_file_exports: FileExportsRuleConfig { severity: Severity::Warn, max_exports: 10, count_default: true },
            max_function_params: MaxFunctionParamsRuleConfig { severity: Severity::Warn, max_params: 0 },
            max_items_per_directory: MaxItemsPerDirectoryRuleConfig { severity: Severity::Warn, max_items: 20, ignore_dirs: Vec::new(), count_folders: true },
            min_items_per_directory: MinItemsPerDirectoryRuleConfig { severity: Severity::Warn, min_items: 0, ignore_dirs: Vec::new(), count_folders: false },
            no_barrel_chain: RuleConfig { severity: Severity::Warn },
            no_circular_import: RuleConfig { severity: Severity::Warn },
            no_barrel_files: BarrelRuleConfig { severity: Severity::Warn, barrel_names: vec!["index.ts".to_string()] },
            no_comments: NoCommentsRuleConfig { severity: Severity::Warn, allow_doc_comments: false },
            no_console: NoConsoleRuleConfig { severity: Severity::Warn, allow_patterns: Vec::new() },
            no_debugger: RuleConfig { severity: Severity::Warn },
            no_side_effect_imports: RuleConfig { severity: Severity::Warn },
            sort_imports: SortImportsRuleConfig { severity: Severity::Info, groups: Vec::new(), newlines_between: NewlinesBetween::Ignore, internal_patterns: Vec::new() },
            no_default_export: NoDefaultExportRuleConfig { severity: Severity::Warn, components_only: false },
            no_duplicate_file_names: NoDuplicateFileNamesRuleConfig { severity: Severity::Warn, ignore_names: Vec::new() },
            no_dump_files: NoDumpFilesRuleConfig { severity: Severity::Warn, extra_names: Vec::new() },
            no_empty_directories: NoEmptyDirectoriesRuleConfig { severity: Severity::Warn, ignore_dirs: Vec::new() },
            no_empty_interface: RuleConfig { severity: Severity::Warn },
            no_enums: RuleConfig { severity: Severity::Warn },
            no_eval: RuleConfig { severity: Severity::Warn },
            no_export_star: RuleConfig { severity: Severity::Warn },
            no_focused_test: RuleConfig { severity: Severity::Warn },
            no_inline_types: RuleConfig { severity: Severity::Warn },
            no_interface: NoInterfaceRuleConfig { severity: Severity::Warn, allow_declaration_merging: false },
            no_large_file: FileLengthRuleConfig { severity: Severity::Warn, max_lines: 300 },
            no_logic_in_barrel: RuleConfig { severity: Severity::Warn },
            no_logic_in_domain: RuleConfig { severity: Severity::Warn },
            no_mutable_exports: RuleConfig { severity: Severity::Warn },
            sort_exports: SortExportsRuleConfig { severity: Severity::Warn, groups: Vec::new(), newlines_between: NewlinesBetween::Ignore },
            no_nested_functions: NoNestedFunctionsRuleConfig { severity: Severity::Warn, max_depth: 0, contexts: vec![NestingContext::Function, NestingContext::Arrow] },
            no_orphan_files: NoOrphanFilesRuleConfig { severity: Severity::Warn, entry_files: Vec::new() },
            no_package_cycle: RuleConfig { severity: Severity::Warn },
            no_private_package_import: RuleConfig { severity: Severity::Warn },
            no_namespace: RuleConfig { severity: Severity::Warn },
            no_restricted_imports: NoRestrictedImportsRuleConfig { severity: Severity::Warn, restricted: Vec::new() },
            no_silent_catch: RuleConfig { severity: Severity::Warn },
            no_skipped_test: RuleConfig { severity: Severity::Warn },
            no_test_code_in_production: RuleConfig { severity: Severity::Warn },
            no_then_chain: NoThenChainRuleConfig { severity: Severity::Warn, allow_single: false },
            no_upward_import: UpwardImportRuleConfig { severity: Severity::Warn, max_depth: 2, allow_patterns: Vec::new() },
            prefer_satisfies: RuleConfig { severity: Severity::Warn },
            prefer_readonly: RuleConfig { severity: Severity::Warn },
            no_test_import: RuleConfig { severity: Severity::Warn },
            entry_file_no_logic: EntryFileNoLogicRuleConfig { severity: Severity::Error, entry_files: vec!["main".to_string()] },
            explicit_return_type: ExplicitReturnTypeRuleConfig { severity: Severity::Warn, include_arrow_functions: true, include_class_methods: false, include_private: false, ignore_when_inferred: false },
            no_non_null_assertion: RuleConfig { severity: Severity::Warn },
            no_unsafe_optional_chaining: RuleConfig { severity: Severity::Warn },
            no_await_in_loop: RuleConfig { severity: Severity::Warn },
            no_promise_executor_return: RuleConfig { severity: Severity::Warn },
            no_magic_numbers: NoMagicNumbersRuleConfig { severity: Severity::Warn, allowed_numbers: Vec::new(), enforce_strings: false },
            no_process_env: RuleConfig { severity: Severity::Warn },
            no_abbreviations: NoAbbreviationsRuleConfig {
                severity: Severity::Warn,
                extra_abbreviations: Vec::new(),
                allow_abbreviations: Vec::new(),
                abbreviation_patterns: Vec::new(),
                ignore_properties: false,
                ignore_destructured: false,
            },
            no_any: NoAnyRuleConfig { severity: Severity::Warn, allowed_folders: Vec::new() },
            no_type_assertion: RuleConfig { severity: Severity::Warn },
            no_unnecessary_type_assertion: RuleConfig { severity: Severity::Warn },
            no_empty_domain: NoEmptyDomainRuleConfig { severity: Severity::Warn, ignore_dirs: Vec::new() },
            no_anemic_domain: NoAnemicDomainRuleConfig { severity: Severity::Warn, max_files: 1, ignore_dirs: Vec::new() },
            no_god_domain: NoGodDomainRuleConfig { severity: Severity::Warn, max_files: 0, ignore_dirs: Vec::new() },
        },
        structure: StructureConfig {
            components: domain(&["components"], &[".component.tsx"]),
            constants: domain(&["constants"], &[".constants.ts"]),
            generated: domain(&["generated"], &[".generated.ts"]),
            hooks: domain(&["hooks"], &[".hook.ts"]),
            tests: domain(&["tests"], &[".test.ts"]),
            types: domain(&["types"], &[".types.ts"]),
        },
        architecture: ArchitectureConfig {
            layers: LayerBoundaryConfig { order: vec!["app".to_string(), "domain".to_string()], definitions: Vec::new() },
        },
    }
}

#[test]
fn configured_rules_lists_every_documented_rule_with_its_severity() {
    let config = project_config();
    let rules = configured_rules(&config);
    assert_eq!(rules.len(), 64);
    assert_eq!(rules[0].name, "boolean-prefix");
    assert_eq!(rules[0].severity, Severity::Warn);
    let entry = rules.iter().find(|r| r.name == "entry-file-no-logic").unwrap();
    assert_eq!(entry.severity, Severity::Error);
    let sort = rules.iter().find(|r| r.name == "sort-imports").unwrap();
    assert_eq!(sort.severity, Severity::Info);
    assert_eq!(rules[63].name, "no-god-domain");
}

#[test]
fn explain_rule_reports_current_options() {
    let config = project_config();
    let explanation = explain_rule("max-directory-depth", &config).unwrap();
    assert_eq!(explanation.name, "max-directory-depth");
    assert_eq!(explanation.severity, Severity::Warn);
    assert_eq!(explanation.current_severity, Severity::Warn);
    assert_eq!(explanation.examples.len(), 2);
    assert_eq!(explanation.options.len(), 3);
    assert_eq!(explanation.options[0].name, "severity");
    assert_eq!(
        explanation.current_options,
        vec!["max-depth: 4".to_string(), "ignore-dirs: [\"node_modules\"]".to_string()]
    );
}

#[test]
fn explain_rule_refuses_an_unknown_rule_with_the_list_of_rules() {
    let config = project_config();
    let error = explain_rule("no-such-rule", &config).err().unwrap();
    assert!(error.starts_with("unknown rule 'no-such-rule'. Available rules: boolean-prefix, component-file-only-components, "));
    assert!(error.ends_with(", no-anemic-domain, no-god-domain"));
}

#[test]
fn explain_rule_renders_flags_contexts_and_layers() {
    let config = project_config();
    let layers = explain_rule("layer-boundaries", &config).unwrap();
    assert_eq!(layers.current_options, vec!["layers: [\"app\", \"domain\"]".to_string()]);
    let nested = explain_rule("no-nested-functions", &config).unwrap();
    assert_eq!(nested.current_options, vec!["max-depth: 0".to_string(), "contexts: [function, arrow]".to_string()]);
    let items = explain_rule("max-items-per-directory", &config).unwrap();
    assert_eq!(items.current_options[2], "count-folders: true");
    let mut magic = project_config();
    magic.rules.no_magic_numbers.enforce_strings = true;
    magic.rules.no_magic_numbers.allowed_numbers = vec!["0".to_string(), "1".to_string()];
    let numbers = explain_rule("no-magic-numbers", &magic).unwrap();
    assert_eq!(
        numbers.current_options,
        vec!["allowed-numbers: [\"0\", \"1\"]".to_string(), "enforce-strings: true".to_string()]
    );
}

#[test]
fn render_explanation_text_lays_out_every_section() {
    let config = project_config();
    let explanation = explain_rule("no-debugger", &config).unwrap();
    let text = render_explanation_text(&explanation);
    assert_eq!(
        text,
        "no-debugger\nseverity: warn\n\nIntent\nPrevent committed debugger statements from stopping runtime execution.\n\nExamples\n- Reports: debugger;\n- Prefer: Remove the statement before committing.\n\nConfig options\n- severity: One of off, info, warn, or error.\n\nCurrent config\n- severity: warn\n"
    );
}
