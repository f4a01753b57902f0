//! What each rule's current configuration amounts to: its severity and one line per option.

use vstd::prelude::*;
use crate::chars::{decimal, push_decimal, push_str};
use crate::ignore::join;
use crate::config::{nesting_context_name, NestingContext, ProjectConfig, RestrictedImportPattern, Severity};

verus! {

/// The rule whose configuration a summary describes.
#[derive(Clone, Copy, Debug, PartialEq, Eq, Structural)]
pub enum RuleSummary {
    BooleanPrefix,
    ComponentFileOnlyComponents,
    DirectoryMustHaveBarrel,
    HookNoJsx,
    LayerBoundaries,
    HookPrefix,
    MaxDirectoryDepth,
    MaxFileExports,
    MaxFunctionParams,
    MaxItemsPerDirectory,
    MinItemsPerDirectory,
    NoBarrelChain,
    NoCircularImport,
    NoBarrelFiles,
    NoComments,
    NoConsole,
    NoDebugger,
    NoSideEffectImports,
    SortImports,
    NoDefaultExport,
    NoDuplicateFileNames,
    NoDumpFiles,
    NoEmptyDirectories,
    NoEmptyInterface,
    NoEnums,
    NoEval,
    NoExportStar,
    NoFocusedTest,
    NoInlineTypes,
    NoInterface,
    NoLargeFile,
    NoLogicInBarrel,
    NoLogicInDomain,
    NoMutableExports,
    SortExports,
    NoNestedFunctions,
    NoOrphanFiles,
    NoPackageCycle,
    NoPrivatePackageImport,
    NoNamespace,
    NoRestrictedImports,
    NoSilentCatch,
    NoSkippedTest,
    NoTestCodeInProduction,
    NoThenChain,
    NoUpwardImport,
    PreferSatisfies,
    PreferReadonly,
    NoTestImport,
    EntryFileNoLogic,
    ExplicitReturnType,
    NoNonNullAssertion,
    NoUnsafeOptionalChaining,
    NoAwaitInLoop,
    NoPromiseExecutorReturn,
    NoMagicNumbers,
    NoProcessEnv,
    NoAbbreviations,
    NoAny,
    NoTypeAssertion,
    NoUnnecessaryTypeAssertion,
    NoEmptyDomain,
    NoAnemicDomain,
    NoGodDomain,
}

/// A rule's severity and its option lines.
#[derive(Debug)]
pub struct RuleConfigSummary {
    pub severity: Severity,
    pub options: Vec<String>,
}

/// The characters of each string.
pub open spec fn string_views(v: Seq<String>) -> Seq<Seq<char>> {
    v.map_values(|s: String| s@)
}

/// The severity and option lines of a summary.
pub open spec fn summary_view(s: RuleConfigSummary) -> (Severity, Seq<Seq<char>>) {
    (s.severity, string_views(s.options@))
}

/// What `format!("{:?}", list)` gives for a list of strings: `[`, then each string as its own
/// `Debug` gives it (`debug_str`), separated by `, `, then `]`.
pub open spec fn debug_list(items: Seq<Seq<char>>) -> Seq<char> {
    "["@ + join(items.map_values(|s: Seq<char>| debug_str(s)), ", "@) + "]"@
}

/// Renders a list of strings with its `Debug` implementation (`format!("{:?}", list)`).
/// Claimed: the result is the list in brackets, each string as `debug_string` renders it,
/// separated by `, `; the escaping of each string is the standard library's and is not stated.
#[verifier::external_body]
fn debug_strings(v: &Vec<String>) -> (r: String)
    ensures
        r@ == debug_list(string_views(v@)),
{
    format!("{:?}", v)
}

/// What `format!("{:?}", s)` gives for a string: the string quoted, with the standard
/// library's escapes.
pub uninterp spec fn debug_str(s: Seq<char>) -> Seq<char>;

/// Renders a string with its `Debug` implementation (`format!("{:?}", s)`). Claimed: the
/// result is `debug_str` of the string; the escaping is the standard library's and is not
/// stated.
#[verifier::external_body]
fn debug_string(s: &str) -> (r: String)
    ensures
        r@ == debug_str(s@),
{
    format!("{:?}", s)
}

/// `Some(<d>)` or `None`.
pub open spec fn option_debug(o: Option<Seq<char>>) -> Seq<char> {
    match o {
        Some(d) => "Some("@ + d + ")"@,
        None => "None"@,
    }
}

/// The `Debug` rendering of one restriction, field by field as `derive(Debug)` lays it out.
pub open spec fn restriction_debug(p: RestrictedImportPattern) -> Seq<char> {
    match p {
        RestrictedImportPattern::Simple(s) => "Simple("@ + debug_str(s@) + ")"@,
        RestrictedImportPattern::Full { pattern, named, message } => "Full { pattern: "@ + debug_str(pattern@)
            + ", named: "@ + option_debug(match named {
                Some(v) => Some(debug_list(string_views(v@))),
                None => None,
            }) + ", message: "@ + option_debug(match message {
                Some(m) => Some(debug_str(m@)),
                None => None,
            }) + " }"@,
    }
}

/// The renderings of the first `k` restrictions, separated by `, `.
pub open spec fn restrictions_joined(ps: Seq<RestrictedImportPattern>, k: int) -> Seq<char>
    decreases k,
{
    if k <= 0 {
        Seq::empty()
    } else if k == 1 {
        restriction_debug(ps[0])
    } else {
        restrictions_joined(ps, k - 1) + ", "@ + restriction_debug(ps[k - 1])
    }
}

/// `restricted: [<restriction>, ...]`.
pub open spec fn restricted_line(ps: Seq<RestrictedImportPattern>) -> Seq<char> {
    "restricted: ["@ + restrictions_joined(ps, ps.len() as int) + "]"@
}

fn push_option_debug(out: &mut String, o: Option<String>)
    ensures
        final(out)@ == old(out)@ + option_debug(match o {
            Some(d) => Some(d@),
            None => None,
        }),
{
    match o {
        Some(d) => {
            push_str(out, "Some(");
            push_str(out, d.as_str());
            push_str(out, ")");
        },
        None => {
            push_str(out, "None");
        },
    }
}

fn push_restriction_debug(out: &mut String, p: &RestrictedImportPattern)
    ensures
        final(out)@ == old(out)@ + restriction_debug(*p),
{
    let ghost start = out@;
    match p {
        RestrictedImportPattern::Simple(s) => {
            push_str(out, "Simple(");
            let d = debug_string(s.as_str());
            push_str(out, d.as_str());
            push_str(out, ")");
        },
        RestrictedImportPattern::Full { pattern, named, message } => {
            push_str(out, "Full { pattern: ");
            let d = debug_string(pattern.as_str());
            push_str(out, d.as_str());
            push_str(out, ", named: ");
            let n = match named {
                Some(v) => Some(debug_strings(v)),
                None => None,
            };
            push_option_debug(out, n);
            push_str(out, ", message: ");
            let m = match message {
                Some(t) => Some(debug_string(t.as_str())),
                None => None,
            };
            push_option_debug(out, m);
            push_str(out, " }");
        },
    }
    proof {
        assert(out@ =~= start + restriction_debug(*p));
    }
}

fn restricted_line_of(ps: &Vec<RestrictedImportPattern>) -> (r: String)
    ensures
        r@ == restricted_line(ps@),
{
    let mut out = String::new();
    push_str(&mut out, "restricted: [");
    let ghost head = out@;
    let n = ps.len();
    let mut i: usize = 0;
    while i < n
        invariant
            n == ps@.len(),
            0 <= i <= n,
            head == "restricted: ["@,
            out@ == head + restrictions_joined(ps@, i as int),
        decreases n - i,
    {
        if i > 0 {
            push_str(&mut out, ", ");
        }
        push_restriction_debug(&mut out, &ps[i]);
        proof {
            if i == 0 {
                assert(restrictions_joined(ps@, 1) == restriction_debug(ps@[0]));
            }
            assert(out@ =~= head + restrictions_joined(ps@, i as int + 1));
        }
        i += 1;
    }
    push_str(&mut out, "]");
    proof {
        assert(out@ =~= restricted_line(ps@));
    }
    out
}

/// `<label>: <list>`.
pub open spec fn list_line(label: Seq<char>, v: Seq<String>) -> Seq<char> {
    label + ": "@ + debug_list(string_views(v))
}

/// `<label>: <number>`.
pub open spec fn number_line(label: Seq<char>, n: usize) -> Seq<char> {
    label + ": "@ + decimal(n as nat)
}

/// `true` or `false`.
pub open spec fn flag_text(b: bool) -> Seq<char> {
    if b { "true"@ } else { "false"@ }
}

/// `<label>: <flag>`.
pub open spec fn flag_line(label: Seq<char>, b: bool) -> Seq<char> {
    label + ": "@ + flag_text(b)
}

/// The names of the contexts, separated by `, `.
pub open spec fn context_names(cs: Seq<NestingContext>) -> Seq<char>
    decreases cs.len(),
{
    if cs.len() == 0 {
        Seq::empty()
    } else if cs.len() == 1 {
        nesting_context_name(cs[0])
    } else {
        context_names(cs.drop_last()) + ", "@ + nesting_context_name(cs.last())
    }
}

fn list_line_of(label: &str, v: &Vec<String>) -> (r: String)
    ensures
        r@ == list_line(label@, v@),
{
    let mut out = String::new();
    push_str(&mut out, label);
    push_str(&mut out, ": ");
    let rendered = debug_strings(v);
    push_str(&mut out, rendered.as_str());
    proof {
        assert(out@ =~= list_line(label@, v@));
    }
    out
}

fn number_line_of(label: &str, n: usize) -> (r: String)
    ensures
        r@ == number_line(label@, n),
{
    let mut out = String::new();
    push_str(&mut out, label);
    push_str(&mut out, ": ");
    push_decimal(&mut out, n);
    proof {
        assert(out@ =~= number_line(label@, n));
    }
    out
}

fn flag_line_of(label: &str, b: bool) -> (r: String)
    ensures
        r@ == flag_line(label@, b),
{
    let mut out = String::new();
    push_str(&mut out, label);
    push_str(&mut out, ": ");
    if b {
        push_str(&mut out, "true");
    } else {
        push_str(&mut out, "false");
    }
    proof {
        assert(out@ =~= flag_line(label@, b));
    }
    out
}

fn contexts_line_of(cs: &Vec<NestingContext>) -> (r: String)
    ensures
        r@ == "contexts: ["@ + context_names(cs@) + "]"@,
{
    let mut out = String::new();
    push_str(&mut out, "contexts: [");
    let ghost start = out@;
    let n = cs.len();
    let mut i: usize = 0;
    while i < n
        invariant
            n == cs@.len(),
            0 <= i <= n,
            out@ == start + context_names(cs@.take(i as int)),
        decreases n - i,
    {
        if i > 0 {
            push_str(&mut out, ", ");
        }
        push_str(&mut out, cs[i].as_str());
        proof {
            let t = cs@.take(i as int + 1);
            assert(t.drop_last() =~= cs@.take(i as int));
            if i == 0 {
                assert(context_names(cs@.take(0)) =~= Seq::<char>::empty());
            }
        }
        i += 1;
        proof {
            assert(out@ =~= start + context_names(cs@.take(i as int)));
        }
    }
    push_str(&mut out, "]");
    proof {
        assert(cs@.take(n as int) =~= cs@);
        assert(out@ =~= "contexts: ["@ + context_names(cs@) + "]"@);
    }
    out
}

fn summary_of_lines(severity: Severity, lines: Vec<String>) -> (r: RuleConfigSummary)
    ensures
        summary_view(r) == (severity, string_views(lines@)),
{
    RuleConfigSummary { severity, options: lines }
}

/// The severity and option lines of the summary `kind` under `c`.
pub open spec fn summary_spec(kind: RuleSummary, c: ProjectConfig) -> (Severity, Seq<Seq<char>>) {
    match kind {
        RuleSummary::BooleanPrefix => (c.rules.boolean_prefix.severity, seq![list_line("prefixes"@, c.rules.boolean_prefix.prefixes@), flag_line("ignore-constants"@, c.rules.boolean_prefix.ignore_constants)]),
        RuleSummary::ComponentFileOnlyComponents => (c.rules.component_file_only_components.severity, seq![list_line("folders"@, c.structure.components.folders@), list_line("file-suffixes"@, c.structure.components.file_suffixes@)]),
        RuleSummary::DirectoryMustHaveBarrel => (c.rules.directory_must_have_barrel.severity, seq![]),
        RuleSummary::HookNoJsx => (c.rules.hook_no_jsx.severity, seq![list_line("folders"@, c.structure.hooks.folders@), list_line("file-suffixes"@, c.structure.hooks.file_suffixes@)]),
        RuleSummary::LayerBoundaries => (c.rules.layer_boundaries.severity, seq![list_line("layers"@, c.architecture.layers.order@)]),
        RuleSummary::HookPrefix => (c.rules.hook_prefix.severity, seq![list_line("prefixes"@, c.rules.hook_prefix.prefixes@), list_line("folders"@, c.structure.hooks.folders@), list_line("file-suffixes"@, c.structure.hooks.file_suffixes@)]),
        RuleSummary::MaxDirectoryDepth => (c.rules.max_directory_depth.severity, seq![number_line("max-depth"@, c.rules.max_directory_depth.max_depth), list_line("ignore-dirs"@, c.rules.max_directory_depth.ignore_dirs@)]),
        RuleSummary::MaxFileExports => (c.rules.max_file_exports.severity, seq![number_line("max-exports"@, c.rules.max_file_exports.max_exports)]),
        RuleSummary::MaxFunctionParams => (c.rules.max_function_params.severity, seq![number_line("max-params"@, c.rules.max_function_params.max_params)]),
        RuleSummary::MaxItemsPerDirectory => (c.rules.max_items_per_directory.severity, seq![number_line("max-items"@, c.rules.max_items_per_directory.max_items), list_line("ignore-dirs"@, c.rules.max_items_per_directory.ignore_dirs@), flag_line("count-folders"@, c.rules.max_items_per_directory.count_folders)]),
        RuleSummary::MinItemsPerDirectory => (c.rules.min_items_per_directory.severity, seq![number_line("min-items"@, c.rules.min_items_per_directory.min_items), list_line("ignore-dirs"@, c.rules.min_items_per_directory.ignore_dirs@), flag_line("count-folders"@, c.rules.min_items_per_directory.count_folders)]),
        RuleSummary::NoBarrelChain => (c.rules.no_barrel_chain.severity, seq![]),
        RuleSummary::NoCircularImport => (c.rules.no_circular_import.severity, seq![]),
        RuleSummary::NoBarrelFiles => (c.rules.no_barrel_files.severity, seq![]),
        RuleSummary::NoComments => (c.rules.no_comments.severity, seq![flag_line("allow-doc-comments"@, c.rules.no_comments.allow_doc_comments)]),
        RuleSummary::NoConsole => (c.rules.no_console.severity, seq![list_line("allow-patterns"@, c.rules.no_console.allow_patterns@)]),
        RuleSummary::NoDebugger => (c.rules.no_debugger.severity, seq![]),
        RuleSummary::NoSideEffectImports => (c.rules.no_side_effect_imports.severity, seq![]),
        RuleSummary::SortImports => (c.rules.sort_imports.severity, seq![]),
        RuleSummary::NoDefaultExport => (c.rules.no_default_export.severity, seq![flag_line("components-only"@, c.rules.no_default_export.components_only)]),
        RuleSummary::NoDuplicateFileNames => (c.rules.no_duplicate_file_names.severity, seq![list_line("ignore-names"@, c.rules.no_duplicate_file_names.ignore_names@)]),
        RuleSummary::NoDumpFiles => (c.rules.no_dump_files.severity, seq![list_line("extra-names"@, c.rules.no_dump_files.extra_names@)]),
        RuleSummary::NoEmptyDirectories => (c.rules.no_empty_directories.severity, seq![list_line("ignore-dirs"@, c.rules.no_empty_directories.ignore_dirs@)]),
        RuleSummary::NoEmptyInterface => (c.rules.no_empty_interface.severity, seq![]),
        RuleSummary::NoEnums => (c.rules.no_enums.severity, seq![]),
        RuleSummary::NoEval => (c.rules.no_eval.severity, seq![]),
        RuleSummary::NoExportStar => (c.rules.no_export_star.severity, seq![]),
        RuleSummary::NoFocusedTest => (c.rules.no_focused_test.severity, seq![]),
        RuleSummary::NoInlineTypes => (c.rules.no_inline_types.severity, seq![list_line("folders"@, c.structure.types.folders@), list_line("file-suffixes"@, c.structure.types.file_suffixes@)]),
        RuleSummary::NoInterface => (c.rules.no_interface.severity, seq![flag_line("allow-declaration-merging"@, c.rules.no_interface.allow_declaration_merging)]),
        RuleSummary::NoLargeFile => (c.rules.no_large_file.severity, seq![number_line("max-lines"@, c.rules.no_large_file.max_lines)]),
        RuleSummary::NoLogicInBarrel => (c.rules.no_logic_in_barrel.severity, seq![]),
        RuleSummary::NoLogicInDomain => (c.rules.no_logic_in_domain.severity, seq![list_line("types-folders"@, c.structure.types.folders@), list_line("types-file-suffixes"@, c.structure.types.file_suffixes@), list_line("constants-folders"@, c.structure.constants.folders@), list_line("constants-file-suffixes"@, c.structure.constants.file_suffixes@)]),
        RuleSummary::NoMutableExports => (c.rules.no_mutable_exports.severity, seq![]),
        RuleSummary::SortExports => (c.rules.sort_exports.severity, seq![]),
        RuleSummary::NoNestedFunctions => (c.rules.no_nested_functions.severity, seq![number_line("max-depth"@, c.rules.no_nested_functions.max_depth), "contexts: ["@ + context_names(c.rules.no_nested_functions.contexts@) + "]"@]),
        RuleSummary::NoOrphanFiles => (c.rules.no_orphan_files.severity, seq![list_line("entry-files"@, c.rules.no_orphan_files.entry_files@)]),
        RuleSummary::NoPackageCycle => (c.rules.no_package_cycle.severity, seq![]),
        RuleSummary::NoPrivatePackageImport => (c.rules.no_private_package_import.severity, seq![]),
        RuleSummary::NoNamespace => (c.rules.no_namespace.severity, seq![]),
        RuleSummary::NoRestrictedImports => (c.rules.no_restricted_imports.severity, seq![restricted_line(c.rules.no_restricted_imports.restricted@)]),
        RuleSummary::NoSilentCatch => (c.rules.no_silent_catch.severity, seq![]),
        RuleSummary::NoSkippedTest => (c.rules.no_skipped_test.severity, seq![]),
        RuleSummary::NoTestCodeInProduction => (c.rules.no_test_code_in_production.severity, seq![list_line("folders"@, c.structure.tests.folders@), list_line("file-suffixes"@, c.structure.tests.file_suffixes@)]),
        RuleSummary::NoThenChain => (c.rules.no_then_chain.severity, seq![]),
        RuleSummary::NoUpwardImport => (c.rules.no_upward_import.severity, seq![number_line("max-depth"@, c.rules.no_upward_import.max_depth)]),
        RuleSummary::PreferSatisfies => (c.rules.prefer_satisfies.severity, seq![]),
        RuleSummary::PreferReadonly => (c.rules.prefer_readonly.severity, seq![]),
        RuleSummary::NoTestImport => (c.rules.no_test_import.severity, seq![list_line("folders"@, c.structure.tests.folders@), list_line("file-suffixes"@, c.structure.tests.file_suffixes@)]),
        RuleSummary::EntryFileNoLogic => (c.rules.entry_file_no_logic.severity, seq![list_line("entry-files"@, c.rules.entry_file_no_logic.entry_files@)]),
        RuleSummary::ExplicitReturnType => (c.rules.explicit_return_type.severity, seq![]),
        RuleSummary::NoNonNullAssertion => (c.rules.no_non_null_assertion.severity, seq![]),
        RuleSummary::NoUnsafeOptionalChaining => (c.rules.no_unsafe_optional_chaining.severity, seq![]),
        RuleSummary::NoAwaitInLoop => (c.rules.no_await_in_loop.severity, seq![]),
        RuleSummary::NoPromiseExecutorReturn => (c.rules.no_promise_executor_return.severity, seq![]),
        RuleSummary::NoMagicNumbers => (c.rules.no_magic_numbers.severity, seq![list_line("allowed-numbers"@, c.rules.no_magic_numbers.allowed_numbers@)] + if c.rules.no_magic_numbers.enforce_strings { seq!["enforce-strings: true"@] } else { Seq::empty() }),
        RuleSummary::NoProcessEnv => (c.rules.no_process_env.severity, seq![]),
        RuleSummary::NoAbbreviations => (c.rules.no_abbreviations.severity, seq![list_line("extra-abbreviations"@, c.rules.no_abbreviations.extra_abbreviations@)]),
        RuleSummary::NoAny => (c.rules.no_any.severity, seq![list_line("allowed-folders"@, c.rules.no_any.allowed_folders@), list_line("generated-folders"@, c.structure.generated.folders@), list_line("generated-file-suffixes"@, c.structure.generated.file_suffixes@)]),
        RuleSummary::NoTypeAssertion => (c.rules.no_type_assertion.severity, seq![]),
        RuleSummary::NoUnnecessaryTypeAssertion => (c.rules.no_unnecessary_type_assertion.severity, seq![]),
        RuleSummary::NoEmptyDomain => (c.rules.no_empty_domain.severity, seq![list_line("ignore-dirs"@, c.rules.no_empty_domain.ignore_dirs@)]),
        RuleSummary::NoAnemicDomain => (c.rules.no_anemic_domain.severity, seq![number_line("max-files"@, c.rules.no_anemic_domain.max_files), list_line("ignore-dirs"@, c.rules.no_anemic_domain.ignore_dirs@)]),
        RuleSummary::NoGodDomain => (c.rules.no_god_domain.severity, seq![number_line("max-files"@, c.rules.no_god_domain.max_files), list_line("ignore-dirs"@, c.rules.no_god_domain.ignore_dirs@)]),
    }
}

fn boolean_prefix_summary(config: &ProjectConfig) -> (r: RuleConfigSummary)
    ensures
        summary_view(r) == summary_spec(RuleSummary::BooleanPrefix, *config),
{
    let mut lines: Vec<String> = Vec::new();
    lines.push(list_line_of("prefixes", &config.rules.boolean_prefix.prefixes));
    lines.push(flag_line_of("ignore-constants", config.rules.boolean_prefix.ignore_constants));
    let r = summary_of_lines(config.rules.boolean_prefix.severity, lines);
    proof {
        assert(summary_view(r) =~~= summary_spec(RuleSummary::BooleanPrefix, *config));
    }
    r
}

fn component_file_only_components_summary(config: &ProjectConfig) -> (r: RuleConfigSummary)
    ensures
        summary_view(r) == summary_spec(RuleSummary::ComponentFileOnlyComponents, *config),
{
    let mut lines: Vec<String> = Vec::new();
    lines.push(list_line_of("folders", &config.structure.components.folders));
    lines.push(list_line_of("file-suffixes", &config.structure.components.file_suffixes));
    let r = summary_of_lines(config.rules.component_file_only_components.severity, lines);
    proof {
        assert(summary_view(r) =~~= summary_spec(RuleSummary::ComponentFileOnlyComponents, *config));
    }
    r
}

fn directory_must_have_barrel_summary(config: &ProjectConfig) -> (r: RuleConfigSummary)
    ensures
        summary_view(r) == summary_spec(RuleSummary::DirectoryMustHaveBarrel, *config),
{
    let mut lines: Vec<String> = Vec::new();
    let r = summary_of_lines(config.rules.directory_must_have_barrel.severity, lines);
    proof {
        assert(summary_view(r) =~~= summary_spec(RuleSummary::DirectoryMustHaveBarrel, *config));
    }
    r
}

fn hook_no_jsx_summary(config: &ProjectConfig) -> (r: RuleConfigSummary)
    ensures
        summary_view(r) == summary_spec(RuleSummary::HookNoJsx, *config),
{
    let mut lines: Vec<String> = Vec::new();
    lines.push(list_line_of("folders", &config.structure.hooks.folders));
    lines.push(list_line_of("file-suffixes", &config.structure.hooks.file_suffixes));
    let r = summary_of_lines(config.rules.hook_no_jsx.severity, lines);
    proof {
        assert(summary_view(r) =~~= summary_spec(RuleSummary::HookNoJsx, *config));
    }
    r
}

fn layer_boundaries_summary(config: &ProjectConfig) -> (r: RuleConfigSummary)
    ensures
        summary_view(r) == summary_spec(RuleSummary::LayerBoundaries, *config),
{
    let mut lines: Vec<String> = Vec::new();
    lines.push(list_line_of("layers", &config.architecture.layers.order));
    let r = summary_of_lines(config.rules.layer_boundaries.severity, lines);
    proof {
        assert(summary_view(r) =~~= summary_spec(RuleSummary::LayerBoundaries, *config));
    }
    r
}

fn hook_prefix_summary(config: &ProjectConfig) -> (r: RuleConfigSummary)
    ensures
        summary_view(r) == summary_spec(RuleSummary::HookPrefix, *config),
{
    let mut lines: Vec<String> = Vec::new();
    lines.push(list_line_of("prefixes", &config.rules.hook_prefix.prefixes));
    lines.push(list_line_of("folders", &config.structure.hooks.folders));
    lines.push(list_line_of("file-suffixes", &config.structure.hooks.file_suffixes));
    let r = summary_of_lines(config.rules.hook_prefix.severity, lines);
    proof {
        assert(summary_view(r) =~~= summary_spec(RuleSummary::HookPrefix, *config));
    }
    r
}

fn max_directory_depth_summary(config: &ProjectConfig) -> (r: RuleConfigSummary)
    ensures
        summary_view(r) == summary_spec(RuleSummary::MaxDirectoryDepth, *config),
{
    let mut lines: Vec<String> = Vec::new();
    lines.push(number_line_of("max-depth", config.rules.max_directory_depth.max_depth));
    lines.push(list_line_of("ignore-dirs", &config.rules.max_directory_depth.ignore_dirs));
    let r = summary_of_lines(config.rules.max_directory_depth.severity, lines);
    proof {
        assert(summary_view(r) =~~= summary_spec(RuleSummary::MaxDirectoryDepth, *config));
    }
    r
}

fn max_file_exports_summary(config: &ProjectConfig) -> (r: RuleConfigSummary)
    ensures
        summary_view(r) == summary_spec(RuleSummary::MaxFileExports, *config),
{
    let mut lines: Vec<String> = Vec::new();
    lines.push(number_line_of("max-exports", config.rules.max_file_exports.max_exports));
    let r = summary_of_lines(config.rules.max_file_exports.severity, lines);
    proof {
        assert(summary_view(r) =~~= summary_spec(RuleSummary::MaxFileExports, *config));
    }
    r
}

fn max_function_params_summary(config: &ProjectConfig) -> (r: RuleConfigSummary)
    ensures
        summary_view(r) == summary_spec(RuleSummary::MaxFunctionParams, *config),
{
    let mut lines: Vec<String> = Vec::new();
    lines.push(number_line_of("max-params", config.rules.max_function_params.max_params));
    let r = summary_of_lines(config.rules.max_function_params.severity, lines);
    proof {
        assert(summary_view(r) =~~= summary_spec(RuleSummary::MaxFunctionParams, *config));
    }
    r
}

fn max_items_per_directory_summary(config: &ProjectConfig) -> (r: RuleConfigSummary)
    ensures
        summary_view(r) == summary_spec(RuleSummary::MaxItemsPerDirectory, *config),
{
    let mut lines: Vec<String> = Vec::new();
    lines.push(number_line_of("max-items", config.rules.max_items_per_directory.max_items));
    lines.push(list_line_of("ignore-dirs", &config.rules.max_items_per_directory.ignore_dirs));
    lines.push(flag_line_of("count-folders", config.rules.max_items_per_directory.count_folders));
    let r = summary_of_lines(config.rules.max_items_per_directory.severity, lines);
    proof {
        assert(summary_view(r) =~~= summary_spec(RuleSummary::MaxItemsPerDirectory, *config));
    }
    r
}

fn min_items_per_directory_summary(config: &ProjectConfig) -> (r: RuleConfigSummary)
    ensures
        summary_view(r) == summary_spec(RuleSummary::MinItemsPerDirectory, *config),
{
    let mut lines: Vec<String> = Vec::new();
    lines.push(number_line_of("min-items", config.rules.min_items_per_directory.min_items));
    lines.push(list_line_of("ignore-dirs", &config.rules.min_items_per_directory.ignore_dirs));
    lines.push(flag_line_of("count-folders", config.rules.min_items_per_directory.count_folders));
    let r = summary_of_lines(config.rules.min_items_per_directory.severity, lines);
    proof {
        assert(summary_view(r) =~~= summary_spec(RuleSummary::MinItemsPerDirectory, *config));
    }
    r
}

fn no_barrel_chain_summary(config: &ProjectConfig) -> (r: RuleConfigSummary)
    ensures
        summary_view(r) == summary_spec(RuleSummary::NoBarrelChain, *config),
{
    let mut lines: Vec<String> = Vec::new();
    let r = summary_of_lines(config.rules.no_barrel_chain.severity, lines);
    proof {
        assert(summary_view(r) =~~= summary_spec(RuleSummary::NoBarrelChain, *config));
    }
    r
}

fn no_circular_import_summary(config: &ProjectConfig) -> (r: RuleConfigSummary)
    ensures
        summary_view(r) == summary_spec(RuleSummary::NoCircularImport, *config),
{
    let mut lines: Vec<String> = Vec::new();
    let r = summary_of_lines(config.rules.no_circular_import.severity, lines);
    proof {
        assert(summary_view(r) =~~= summary_spec(RuleSummary::NoCircularImport, *config));
    }
    r
}

fn no_barrel_files_summary(config: &ProjectConfig) -> (r: RuleConfigSummary)
    ensures
        summary_view(r) == summary_spec(RuleSummary::NoBarrelFiles, *config),
{
    let mut lines: Vec<String> = Vec::new();
    let r = summary_of_lines(config.rules.no_barrel_files.severity, lines);
    proof {
        assert(summary_view(r) =~~= summary_spec(RuleSummary::NoBarrelFiles, *config));
    }
    r
}

fn no_comments_summary(config: &ProjectConfig) -> (r: RuleConfigSummary)
    ensures
        summary_view(r) == summary_spec(RuleSummary::NoComments, *config),
{
    let mut lines: Vec<String> = Vec::new();
    lines.push(flag_line_of("allow-doc-comments", config.rules.no_comments.allow_doc_comments));
    let r = summary_of_lines(config.rules.no_comments.severity, lines);
    proof {
        assert(summary_view(r) =~~= summary_spec(RuleSummary::NoComments, *config));
    }
    r
}

fn no_console_summary(config: &ProjectConfig) -> (r: RuleConfigSummary)
    ensures
        summary_view(r) == summary_spec(RuleSummary::NoConsole, *config),
{
    let mut lines: Vec<String> = Vec::new();
    lines.push(list_line_of("allow-patterns", &config.rules.no_console.allow_patterns));
    let r = summary_of_lines(config.rules.no_console.severity, lines);
    proof {
        assert(summary_view(r) =~~= summary_spec(RuleSummary::NoConsole, *config));
    }
    r
}

fn no_debugger_summary(config: &ProjectConfig) -> (r: RuleConfigSummary)
    ensures
        summary_view(r) == summary_spec(RuleSummary::NoDebugger, *config),
{
    let mut lines: Vec<String> = Vec::new();
    let r = summary_of_lines(config.rules.no_debugger.severity, lines);
    proof {
        assert(summary_view(r) =~~= summary_spec(RuleSummary::NoDebugger, *config));
    }
    r
}

fn no_side_effect_imports_summary(config: &ProjectConfig) -> (r: RuleConfigSummary)
    ensures
        summary_view(r) == summary_spec(RuleSummary::NoSideEffectImports, *config),
{
    let mut lines: Vec<String> = Vec::new();
    let r = summary_of_lines(config.rules.no_side_effect_imports.severity, lines);
    proof {
        assert(summary_view(r) =~~= summary_spec(RuleSummary::NoSideEffectImports, *config));
    }
    r
}

fn sort_imports_summary(config: &ProjectConfig) -> (r: RuleConfigSummary)
    ensures
        summary_view(r) == summary_spec(RuleSummary::SortImports, *config),
{
    let mut lines: Vec<String> = Vec::new();
    let r = summary_of_lines(config.rules.sort_imports.severity, lines);
    proof {
        assert(summary_view(r) =~~= summary_spec(RuleSummary::SortImports, *config));
    }
    r
}

fn no_default_export_summary(config: &ProjectConfig) -> (r: RuleConfigSummary)
    ensures
        summary_view(r) == summary_spec(RuleSummary::NoDefaultExport, *config),
{
    let mut lines: Vec<String> = Vec::new();
    lines.push(flag_line_of("components-only", config.rules.no_default_export.components_only));
    let r = summary_of_lines(config.rules.no_default_export.severity, lines);
    proof {
        assert(summary_view(r) =~~= summary_spec(RuleSummary::NoDefaultExport, *config));
    }
    r
}

fn no_duplicate_file_names_summary(config: &ProjectConfig) -> (r: RuleConfigSummary)
    ensures
        summary_view(r) == summary_spec(RuleSummary::NoDuplicateFileNames, *config),
{
    let mut lines: Vec<String> = Vec::new();
    lines.push(list_line_of("ignore-names", &config.rules.no_duplicate_file_names.ignore_names));
    let r = summary_of_lines(config.rules.no_duplicate_file_names.severity, lines);
    proof {
        assert(summary_view(r) =~~= summary_spec(RuleSummary::NoDuplicateFileNames, *config));
    }
    r
}

fn no_dump_files_summary(config: &ProjectConfig) -> (r: RuleConfigSummary)
    ensures
        summary_view(r) == summary_spec(RuleSummary::NoDumpFiles, *config),
{
    let mut lines: Vec<String> = Vec::new();
    lines.push(list_line_of("extra-names", &config.rules.no_dump_files.extra_names));
    let r = summary_of_lines(config.rules.no_dump_files.severity, lines);
    proof {
        assert(summary_view(r) =~~= summary_spec(RuleSummary::NoDumpFiles, *config));
    }
    r
}

fn no_empty_directories_summary(config: &ProjectConfig) -> (r: RuleConfigSummary)
    ensures
        summary_view(r) == summary_spec(RuleSummary::NoEmptyDirectories, *config),
{
    let mut lines: Vec<String> = Vec::new();
    lines.push(list_line_of("ignore-dirs", &config.rules.no_empty_directories.ignore_dirs));
    let r = summary_of_lines(config.rules.no_empty_directories.severity, lines);
    proof {
        assert(summary_view(r) =~~= summary_spec(RuleSummary::NoEmptyDirectories, *config));
    }
    r
}

fn no_empty_interface_summary(config: &ProjectConfig) -> (r: RuleConfigSummary)
    ensures
        summary_view(r) == summary_spec(RuleSummary::NoEmptyInterface, *config),
{
    let mut lines: Vec<String> = Vec::new();
    let r = summary_of_lines(config.rules.no_empty_interface.severity, lines);
    proof {
        assert(summary_view(r) =~~= summary_spec(RuleSummary::NoEmptyInterface, *config));
    }
    r
}

fn no_enums_summary(config: &ProjectConfig) -> (r: RuleConfigSummary)
    ensures
        summary_view(r) == summary_spec(RuleSummary::NoEnums, *config),
{
    let mut lines: Vec<String> = Vec::new();
    let r = summary_of_lines(config.rules.no_enums.severity, lines);
    proof {
        assert(summary_view(r) =~~= summary_spec(RuleSummary::NoEnums, *config));
    }
    r
}

fn no_eval_summary(config: &ProjectConfig) -> (r: RuleConfigSummary)
    ensures
        summary_view(r) == summary_spec(RuleSummary::NoEval, *config),
{
    let mut lines: Vec<String> = Vec::new();
    let r = summary_of_lines(config.rules.no_eval.severity, lines);
    proof {
        assert(summary_view(r) =~~= summary_spec(RuleSummary::NoEval, *config));
    }
    r
}

fn no_export_star_summary(config: &ProjectConfig) -> (r: RuleConfigSummary)
    ensures
        summary_view(r) == summary_spec(RuleSummary::NoExportStar, *config),
{
    let mut lines: Vec<String> = Vec::new();
    let r = summary_of_lines(config.rules.no_export_star.severity, lines);
    proof {
        assert(summary_view(r) =~~= summary_spec(RuleSummary::NoExportStar, *config));
    }
    r
}

fn no_focused_test_summary(config: &ProjectConfig) -> (r: RuleConfigSummary)
    ensures
        summary_view(r) == summary_spec(RuleSummary::NoFocusedTest, *config),
{
    let mut lines: Vec<String> = Vec::new();
    let r = summary_of_lines(config.rules.no_focused_test.severity, lines);
    proof {
        assert(summary_view(r) =~~= summary_spec(RuleSummary::NoFocusedTest, *config));
    }
    r
}

fn no_inline_types_summary(config: &ProjectConfig) -> (r: RuleConfigSummary)
    ensures
        summary_view(r) == summary_spec(RuleSummary::NoInlineTypes, *config),
{
    let mut lines: Vec<String> = Vec::new();
    lines.push(list_line_of("folders", &config.structure.types.folders));
    lines.push(list_line_of("file-suffixes", &config.structure.types.file_suffixes));
    let r = summary_of_lines(config.rules.no_inline_types.severity, lines);
    proof {
        assert(summary_view(r) =~~= summary_spec(RuleSummary::NoInlineTypes, *config));
    }
    r
}

fn no_interface_summary(config: &ProjectConfig) -> (r: RuleConfigSummary)
    ensures
        summary_view(r) == summary_spec(RuleSummary::NoInterface, *config),
{
    let mut lines: Vec<String> = Vec::new();
    lines.push(flag_line_of("allow-declaration-merging", config.rules.no_interface.allow_declaration_merging));
    let r = summary_of_lines(config.rules.no_interface.severity, lines);
    proof {
        assert(summary_view(r) =~~= summary_spec(RuleSummary::NoInterface, *config));
    }
    r
}

fn no_large_file_summary(config: &ProjectConfig) -> (r: RuleConfigSummary)
    ensures
        summary_view(r) == summary_spec(RuleSummary::NoLargeFile, *config),
{
    let mut lines: Vec<String> = Vec::new();
    lines.push(number_line_of("max-lines", config.rules.no_large_file.max_lines));
    let r = summary_of_lines(config.rules.no_large_file.severity, lines);
    proof {
        assert(summary_view(r) =~~= summary_spec(RuleSummary::NoLargeFile, *config));
    }
    r
}

fn no_logic_in_barrel_summary(config: &ProjectConfig) -> (r: RuleConfigSummary)
    ensures
        summary_view(r) == summary_spec(RuleSummary::NoLogicInBarrel, *config),
{
    let mut lines: Vec<String> = Vec::new();
    let r = summary_of_lines(config.rules.no_logic_in_barrel.severity, lines);
    proof {
        assert(summary_view(r) =~~= summary_spec(RuleSummary::NoLogicInBarrel, *config));
    }
    r
}

fn no_logic_in_domain_summary(config: &ProjectConfig) -> (r: RuleConfigSummary)
    ensures
        summary_view(r) == summary_spec(RuleSummary::NoLogicInDomain, *config),
{
    let mut lines: Vec<String> = Vec::new();
    lines.push(list_line_of("types-folders", &config.structure.types.folders));
    lines.push(list_line_of("types-file-suffixes", &config.structure.types.file_suffixes));
    lines.push(list_line_of("constants-folders", &config.structure.constants.folders));
    lines.push(list_line_of("constants-file-suffixes", &config.structure.constants.file_suffixes));
    let r = summary_of_lines(config.rules.no_logic_in_domain.severity, lines);
    proof {
        assert(summary_view(r) =~~= summary_spec(RuleSummary::NoLogicInDomain, *config));
    }
    r
}

fn no_mutable_exports_summary(config: &ProjectConfig) -> (r: RuleConfigSummary)
    ensures
        summary_view(r) == summary_spec(RuleSummary::NoMutableExports, *config),
{
    let mut lines: Vec<String> = Vec::new();
    let r = summary_of_lines(config.rules.no_mutable_exports.severity, lines);
    proof {
        assert(summary_view(r) =~~= summary_spec(RuleSummary::NoMutableExports, *config));
    }
    r
}

fn sort_exports_summary(config: &ProjectConfig) -> (r: RuleConfigSummary)
    ensures
        summary_view(r) == summary_spec(RuleSummary::SortExports, *config),
{
    let mut lines: Vec<String> = Vec::new();
    let r = summary_of_lines(config.rules.sort_exports.severity, lines);
    proof {
        assert(summary_view(r) =~~= summary_spec(RuleSummary::SortExports, *config));
    }
    r
}

fn no_nested_functions_summary(config: &ProjectConfig) -> (r: RuleConfigSummary)
    ensures
        summary_view(r) == summary_spec(RuleSummary::NoNestedFunctions, *config),
{
    let mut lines: Vec<String> = Vec::new();
    lines.push(number_line_of("max-depth", config.rules.no_nested_functions.max_depth));
    lines.push(contexts_line_of(&config.rules.no_nested_functions.contexts));
    let r = summary_of_lines(config.rules.no_nested_functions.severity, lines);
    proof {
        assert(summary_view(r) =~~= summary_spec(RuleSummary::NoNestedFunctions, *config));
    }
    r
}

fn no_orphan_files_summary(config: &ProjectConfig) -> (r: RuleConfigSummary)
    ensures
        summary_view(r) == summary_spec(RuleSummary::NoOrphanFiles, *config),
{
    let mut lines: Vec<String> = Vec::new();
    lines.push(list_line_of("entry-files", &config.rules.no_orphan_files.entry_files));
    let r = summary_of_lines(config.rules.no_orphan_files.severity, lines);
    proof {
        assert(summary_view(r) =~~= summary_spec(RuleSummary::NoOrphanFiles, *config));
    }
    r
}

fn no_package_cycle_summary(config: &ProjectConfig) -> (r: RuleConfigSummary)
    ensures
        summary_view(r) == summary_spec(RuleSummary::NoPackageCycle, *config),
{
    let mut lines: Vec<String> = Vec::new();
    let r = summary_of_lines(config.rules.no_package_cycle.severity, lines);
    proof {
        assert(summary_view(r) =~~= summary_spec(RuleSummary::NoPackageCycle, *config));
    }
    r
}

fn no_private_package_import_summary(config: &ProjectConfig) -> (r: RuleConfigSummary)
    ensures
        summary_view(r) == summary_spec(RuleSummary::NoPrivatePackageImport, *config),
{
    let mut lines: Vec<String> = Vec::new();
    let r = summary_of_lines(config.rules.no_private_package_import.severity, lines);
    proof {
        assert(summary_view(r) =~~= summary_spec(RuleSummary::NoPrivatePackageImport, *config));
    }
    r
}

fn no_namespace_summary(config: &ProjectConfig) -> (r: RuleConfigSummary)
    ensures
        summary_view(r) == summary_spec(RuleSummary::NoNamespace, *config),
{
    let mut lines: Vec<String> = Vec::new();
    let r = summary_of_lines(config.rules.no_namespace.severity, lines);
    proof {
        assert(summary_view(r) =~~= summary_spec(RuleSummary::NoNamespace, *config));
    }
    r
}

fn no_restricted_imports_summary(config: &ProjectConfig) -> (r: RuleConfigSummary)
    ensures
        summary_view(r) == summary_spec(RuleSummary::NoRestrictedImports, *config),
{
    let mut lines: Vec<String> = Vec::new();
    lines.push(restricted_line_of(&config.rules.no_restricted_imports.restricted));
    let r = summary_of_lines(config.rules.no_restricted_imports.severity, lines);
    proof {
        assert(summary_view(r) =~~= summary_spec(RuleSummary::NoRestrictedImports, *config));
    }
    r
}

fn no_silent_catch_summary(config: &ProjectConfig) -> (r: RuleConfigSummary)
    ensures
        summary_view(r) == summary_spec(RuleSummary::NoSilentCatch, *config),
{
    let mut lines: Vec<String> = Vec::new();
    let r = summary_of_lines(config.rules.no_silent_catch.severity, lines);
    proof {
        assert(summary_view(r) =~~= summary_spec(RuleSummary::NoSilentCatch, *config));
    }
    r
}

fn no_skipped_test_summary(config: &ProjectConfig) -> (r: RuleConfigSummary)
    ensures
        summary_view(r) == summary_spec(RuleSummary::NoSkippedTest, *config),
{
    let mut lines: Vec<String> = Vec::new();
    let r = summary_of_lines(config.rules.no_skipped_test.severity, lines);
    proof {
        assert(summary_view(r) =~~= summary_spec(RuleSummary::NoSkippedTest, *config));
    }
    r
}

fn no_test_code_in_production_summary(config: &ProjectConfig) -> (r: RuleConfigSummary)
    ensures
        summary_view(r) == summary_spec(RuleSummary::NoTestCodeInProduction, *config),
{
    let mut lines: Vec<String> = Vec::new();
    lines.push(list_line_of("folders", &config.structure.tests.folders));
    lines.push(list_line_of("file-suffixes", &config.structure.tests.file_suffixes));
    let r = summary_of_lines(config.rules.no_test_code_in_production.severity, lines);
    proof {
        assert(summary_view(r) =~~= summary_spec(RuleSummary::NoTestCodeInProduction, *config));
    }
    r
}

fn no_then_chain_summary(config: &ProjectConfig) -> (r: RuleConfigSummary)
    ensures
        summary_view(r) == summary_spec(RuleSummary::NoThenChain, *config),
{
    let mut lines: Vec<String> = Vec::new();
    let r = summary_of_lines(config.rules.no_then_chain.severity, lines);
    proof {
        assert(summary_view(r) =~~= summary_spec(RuleSummary::NoThenChain, *config));
    }
    r
}

fn no_upward_import_summary(config: &ProjectConfig) -> (r: RuleConfigSummary)
    ensures
        summary_view(r) == summary_spec(RuleSummary::NoUpwardImport, *config),
{
    let mut lines: Vec<String> = Vec::new();
    lines.push(number_line_of("max-depth", config.rules.no_upward_import.max_depth));
    let r = summary_of_lines(config.rules.no_upward_import.severity, lines);
    proof {
        assert(summary_view(r) =~~= summary_spec(RuleSummary::NoUpwardImport, *config));
    }
    r
}

fn prefer_satisfies_summary(config: &ProjectConfig) -> (r: RuleConfigSummary)
    ensures
        summary_view(r) == summary_spec(RuleSummary::PreferSatisfies, *config),
{
    let mut lines: Vec<String> = Vec::new();
    let r = summary_of_lines(config.rules.prefer_satisfies.severity, lines);
    proof {
        assert(summary_view(r) =~~= summary_spec(RuleSummary::PreferSatisfies, *config));
    }
    r
}

fn prefer_readonly_summary(config: &ProjectConfig) -> (r: RuleConfigSummary)
    ensures
        summary_view(r) == summary_spec(RuleSummary::PreferReadonly, *config),
{
    let mut lines: Vec<String> = Vec::new();
    let r = summary_of_lines(config.rules.prefer_readonly.severity, lines);
    proof {
        assert(summary_view(r) =~~= summary_spec(RuleSummary::PreferReadonly, *config));
    }
    r
}

fn no_test_import_summary(config: &ProjectConfig) -> (r: RuleConfigSummary)
    ensures
        summary_view(r) == summary_spec(RuleSummary::NoTestImport, *config),
{
    let mut lines: Vec<String> = Vec::new();
    lines.push(list_line_of("folders", &config.structure.tests.folders));
    lines.push(list_line_of("file-suffixes", &config.structure.tests.file_suffixes));
    let r = summary_of_lines(config.rules.no_test_import.severity, lines);
    proof {
        assert(summary_view(r) =~~= summary_spec(RuleSummary::NoTestImport, *config));
    }
    r
}

fn entry_file_no_logic_summary(config: &ProjectConfig) -> (r: RuleConfigSummary)
    ensures
        summary_view(r) == summary_spec(RuleSummary::EntryFileNoLogic, *config),
{
    let mut lines: Vec<String> = Vec::new();
    lines.push(list_line_of("entry-files", &config.rules.entry_file_no_logic.entry_files));
    let r = summary_of_lines(config.rules.entry_file_no_logic.severity, lines);
    proof {
        assert(summary_view(r) =~~= summary_spec(RuleSummary::EntryFileNoLogic, *config));
    }
    r
}

fn explicit_return_type_summary(config: &ProjectConfig) -> (r: RuleConfigSummary)
    ensures
        summary_view(r) == summary_spec(RuleSummary::ExplicitReturnType, *config),
{
    let mut lines: Vec<String> = Vec::new();
    let r = summary_of_lines(config.rules.explicit_return_type.severity, lines);
    proof {
        assert(summary_view(r) =~~= summary_spec(RuleSummary::ExplicitReturnType, *config));
    }
    r
}

fn no_non_null_assertion_summary(config: &ProjectConfig) -> (r: RuleConfigSummary)
    ensures
        summary_view(r) == summary_spec(RuleSummary::NoNonNullAssertion, *config),
{
    let mut lines: Vec<String> = Vec::new();
    let r = summary_of_lines(config.rules.no_non_null_assertion.severity, lines);
    proof {
        assert(summary_view(r) =~~= summary_spec(RuleSummary::NoNonNullAssertion, *config));
    }
    r
}

fn no_unsafe_optional_chaining_summary(config: &ProjectConfig) -> (r: RuleConfigSummary)
    ensures
        summary_view(r) == summary_spec(RuleSummary::NoUnsafeOptionalChaining, *config),
{
    let mut lines: Vec<String> = Vec::new();
    let r = summary_of_lines(config.rules.no_unsafe_optional_chaining.severity, lines);
    proof {
        assert(summary_view(r) =~~= summary_spec(RuleSummary::NoUnsafeOptionalChaining, *config));
    }
    r
}

fn no_await_in_loop_summary(config: &ProjectConfig) -> (r: RuleConfigSummary)
    ensures
        summary_view(r) == summary_spec(RuleSummary::NoAwaitInLoop, *config),
{
    let mut lines: Vec<String> = Vec::new();
    let r = summary_of_lines(config.rules.no_await_in_loop.severity, lines);
    proof {
        assert(summary_view(r) =~~= summary_spec(RuleSummary::NoAwaitInLoop, *config));
    }
    r
}

fn no_promise_executor_return_summary(config: &ProjectConfig) -> (r: RuleConfigSummary)
    ensures
        summary_view(r) == summary_spec(RuleSummary::NoPromiseExecutorReturn, *config),
{
    let mut lines: Vec<String> = Vec::new();
    let r = summary_of_lines(config.rules.no_promise_executor_return.severity, lines);
    proof {
        assert(summary_view(r) =~~= summary_spec(RuleSummary::NoPromiseExecutorReturn, *config));
    }
    r
}

fn no_magic_numbers_summary(config: &ProjectConfig) -> (r: RuleConfigSummary)
    ensures
        summary_view(r) == summary_spec(RuleSummary::NoMagicNumbers, *config),
{
    let mut lines: Vec<String> = Vec::new();
    lines.push(list_line_of("allowed-numbers", &config.rules.no_magic_numbers.allowed_numbers));
    if config.rules.no_magic_numbers.enforce_strings {
        let mut flag = String::new();
        push_str(&mut flag, "enforce-strings: true");
        lines.push(flag);
    }
    let r = summary_of_lines(config.rules.no_magic_numbers.severity, lines);
    proof {
        assert(summary_view(r) =~~= summary_spec(RuleSummary::NoMagicNumbers, *config));
    }
    r
}

fn no_process_env_summary(config: &ProjectConfig) -> (r: RuleConfigSummary)
    ensures
        summary_view(r) == summary_spec(RuleSummary::NoProcessEnv, *config),
{
    let mut lines: Vec<String> = Vec::new();
    let r = summary_of_lines(config.rules.no_process_env.severity, lines);
    proof {
        assert(summary_view(r) =~~= summary_spec(RuleSummary::NoProcessEnv, *config));
    }
    r
}

fn no_abbreviations_summary(config: &ProjectConfig) -> (r: RuleConfigSummary)
    ensures
        summary_view(r) == summary_spec(RuleSummary::NoAbbreviations, *config),
{
    let mut lines: Vec<String> = Vec::new();
    lines.push(list_line_of("extra-abbreviations", &config.rules.no_abbreviations.extra_abbreviations));
    let r = summary_of_lines(config.rules.no_abbreviations.severity, lines);
    proof {
        assert(summary_view(r) =~~= summary_spec(RuleSummary::NoAbbreviations, *config));
    }
    r
}

fn no_any_summary(config: &ProjectConfig) -> (r: RuleConfigSummary)
    ensures
        summary_view(r) == summary_spec(RuleSummary::NoAny, *config),
{
    let mut lines: Vec<String> = Vec::new();
    lines.push(list_line_of("allowed-folders", &config.rules.no_any.allowed_folders));
    lines.push(list_line_of("generated-folders", &config.structure.generated.folders));
    lines.push(list_line_of("generated-file-suffixes", &config.structure.generated.file_suffixes));
    let r = summary_of_lines(config.rules.no_any.severity, lines);
    proof {
        assert(summary_view(r) =~~= summary_spec(RuleSummary::NoAny, *config));
    }
    r
}

fn no_type_assertion_summary(config: &ProjectConfig) -> (r: RuleConfigSummary)
    ensures
        summary_view(r) == summary_spec(RuleSummary::NoTypeAssertion, *config),
{
    let mut lines: Vec<String> = Vec::new();
    let r = summary_of_lines(config.rules.no_type_assertion.severity, lines);
    proof {
        assert(summary_view(r) =~~= summary_spec(RuleSummary::NoTypeAssertion, *config));
    }
    r
}

fn no_unnecessary_type_assertion_summary(config: &ProjectConfig) -> (r: RuleConfigSummary)
    ensures
        summary_view(r) == summary_spec(RuleSummary::NoUnnecessaryTypeAssertion, *config),
{
    let mut lines: Vec<String> = Vec::new();
    let r = summary_of_lines(config.rules.no_unnecessary_type_assertion.severity, lines);
    proof {
        assert(summary_view(r) =~~= summary_spec(RuleSummary::NoUnnecessaryTypeAssertion, *config));
    }
    r
}

fn no_empty_domain_summary(config: &ProjectConfig) -> (r: RuleConfigSummary)
    ensures
        summary_view(r) == summary_spec(RuleSummary::NoEmptyDomain, *config),
{
    let mut lines: Vec<String> = Vec::new();
    lines.push(list_line_of("ignore-dirs", &config.rules.no_empty_domain.ignore_dirs));
    let r = summary_of_lines(config.rules.no_empty_domain.severity, lines);
    proof {
        assert(summary_view(r) =~~= summary_spec(RuleSummary::NoEmptyDomain, *config));
    }
    r
}

fn no_anemic_domain_summary(config: &ProjectConfig) -> (r: RuleConfigSummary)
    ensures
        summary_view(r) == summary_spec(RuleSummary::NoAnemicDomain, *config),
{
    let mut lines: Vec<String> = Vec::new();
    lines.push(number_line_of("max-files", config.rules.no_anemic_domain.max_files));
    lines.push(list_line_of("ignore-dirs", &config.rules.no_anemic_domain.ignore_dirs));
    let r = summary_of_lines(config.rules.no_anemic_domain.severity, lines);
    proof {
        assert(summary_view(r) =~~= summary_spec(RuleSummary::NoAnemicDomain, *config));
    }
    r
}

fn no_god_domain_summary(config: &ProjectConfig) -> (r: RuleConfigSummary)
    ensures
        summary_view(r) == summary_spec(RuleSummary::NoGodDomain, *config),
{
    let mut lines: Vec<String> = Vec::new();
    lines.push(number_line_of("max-files", config.rules.no_god_domain.max_files));
    lines.push(list_line_of("ignore-dirs", &config.rules.no_god_domain.ignore_dirs));
    let r = summary_of_lines(config.rules.no_god_domain.severity, lines);
    proof {
        assert(summary_view(r) =~~= summary_spec(RuleSummary::NoGodDomain, *config));
    }
    r
}

/// The summary `kind` of the current configuration `config`.
pub fn summarize(kind: RuleSummary, config: &ProjectConfig) -> (r: RuleConfigSummary)
    ensures
        summary_view(r) == summary_spec(kind, *config),
{
    match kind {
        RuleSummary::BooleanPrefix => boolean_prefix_summary(config),
        RuleSummary::ComponentFileOnlyComponents => component_file_only_components_summary(config),
        RuleSummary::DirectoryMustHaveBarrel => directory_must_have_barrel_summary(config),
        RuleSummary::HookNoJsx => hook_no_jsx_summary(config),
        RuleSummary::LayerBoundaries => layer_boundaries_summary(config),
        RuleSummary::HookPrefix => hook_prefix_summary(config),
        RuleSummary::MaxDirectoryDepth => max_directory_depth_summary(config),
        RuleSummary::MaxFileExports => max_file_exports_summary(config),
        RuleSummary::MaxFunctionParams => max_function_params_summary(config),
        RuleSummary::MaxItemsPerDirectory => max_items_per_directory_summary(config),
        RuleSummary::MinItemsPerDirectory => min_items_per_directory_summary(config),
        RuleSummary::NoBarrelChain => no_barrel_chain_summary(config),
        RuleSummary::NoCircularImport => no_circular_import_summary(config),
        RuleSummary::NoBarrelFiles => no_barrel_files_summary(config),
        RuleSummary::NoComments => no_comments_summary(config),
        RuleSummary::NoConsole => no_console_summary(config),
        RuleSummary::NoDebugger => no_debugger_summary(config),
        RuleSummary::NoSideEffectImports => no_side_effect_imports_summary(config),
        RuleSummary::SortImports => sort_imports_summary(config),
        RuleSummary::NoDefaultExport => no_default_export_summary(config),
        RuleSummary::NoDuplicateFileNames => no_duplicate_file_names_summary(config),
        RuleSummary::NoDumpFiles => no_dump_files_summary(config),
        RuleSummary::NoEmptyDirectories => no_empty_directories_summary(config),
        RuleSummary::NoEmptyInterface => no_empty_interface_summary(config),
        RuleSummary::NoEnums => no_enums_summary(config),
        RuleSummary::NoEval => no_eval_summary(config),
        RuleSummary::NoExportStar => no_export_star_summary(config),
        RuleSummary::NoFocusedTest => no_focused_test_summary(config),
        RuleSummary::NoInlineTypes => no_inline_types_summary(config),
        RuleSummary::NoInterface => no_interface_summary(config),
        RuleSummary::NoLargeFile => no_large_file_summary(config),
        RuleSummary::NoLogicInBarrel => no_logic_in_barrel_summary(config),
        RuleSummary::NoLogicInDomain => no_logic_in_domain_summary(config),
        RuleSummary::NoMutableExports => no_mutable_exports_summary(config),
        RuleSummary::SortExports => sort_exports_summary(config),
        RuleSummary::NoNestedFunctions => no_nested_functions_summary(config),
        RuleSummary::NoOrphanFiles => no_orphan_files_summary(config),
        RuleSummary::NoPackageCycle => no_package_cycle_summary(config),
        RuleSummary::NoPrivatePackageImport => no_private_package_import_summary(config),
        RuleSummary::NoNamespace => no_namespace_summary(config),
        RuleSummary::NoRestrictedImports => no_restricted_imports_summary(config),
        RuleSummary::NoSilentCatch => no_silent_catch_summary(config),
        RuleSummary::NoSkippedTest => no_skipped_test_summary(config),
        RuleSummary::NoTestCodeInProduction => no_test_code_in_production_summary(config),
        RuleSummary::NoThenChain => no_then_chain_summary(config),
        RuleSummary::NoUpwardImport => no_upward_import_summary(config),
        RuleSummary::PreferSatisfies => prefer_satisfies_summary(config),
        RuleSummary::PreferReadonly => prefer_readonly_summary(config),
        RuleSummary::NoTestImport => no_test_import_summary(config),
        RuleSummary::EntryFileNoLogic => entry_file_no_logic_summary(config),
        RuleSummary::ExplicitReturnType => explicit_return_type_summary(config),
        RuleSummary::NoNonNullAssertion => no_non_null_assertion_summary(config),
        RuleSummary::NoUnsafeOptionalChaining => no_unsafe_optional_chaining_summary(config),
        RuleSummary::NoAwaitInLoop => no_await_in_loop_summary(config),
        RuleSummary::NoPromiseExecutorReturn => no_promise_executor_return_summary(config),
        RuleSummary::NoMagicNumbers => no_magic_numbers_summary(config),
        RuleSummary::NoProcessEnv => no_process_env_summary(config),
        RuleSummary::NoAbbreviations => no_abbreviations_summary(config),
        RuleSummary::NoAny => no_any_summary(config),
        RuleSummary::NoTypeAssertion => no_type_assertion_summary(config),
        RuleSummary::NoUnnecessaryTypeAssertion => no_unnecessary_type_assertion_summary(config),
        RuleSummary::NoEmptyDomain => no_empty_domain_summary(config),
        RuleSummary::NoAnemicDomain => no_anemic_domain_summary(config),
        RuleSummary::NoGodDomain => no_god_domain_summary(config),
    }
}

} // verus!
