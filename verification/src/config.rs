//! Rule configuration values and severities.

use vstd::prelude::*;
use crate::chars::str_equal;
use crate::rules::{domain_matches_file, matches_domain};

verus! {

/// How strongly a rule's findings are reported.
#[derive(Clone, Copy, Debug, PartialEq, Eq, Structural, Hash)]
pub enum Severity {
    Off,
    Info,
    Warn,
    Error,
}

/// The configuration keyword of a severity.
pub open spec fn severity_keyword(s: Severity) -> Seq<char> {
    match s {
        Severity::Off => "off"@,
        Severity::Info => "info"@,
        Severity::Warn => "warn"@,
        Severity::Error => "error"@,
    }
}

impl Severity {
    /// The configuration keyword of this severity.
    pub fn as_str(&self) -> (r: &'static str)
        ensures
            r@ == severity_keyword(*self),
    {
        match self {
            Severity::Off => "off",
            Severity::Info => "info",
            Severity::Warn => "warn",
            Severity::Error => "error",
        }
    }

    /// Whether findings of this severity are reported at all.
    pub fn is_enabled(&self) -> (r: bool)
        ensures
            r == (*self != Severity::Off),
    {
        !matches!(self, Severity::Off)
    }
}

/// A rule whose only option is its severity.
#[derive(Clone, Copy, Debug)]
pub struct RuleConfig {
    pub severity: Severity,
}

/// Options of `no-large-file`.
#[derive(Clone, Copy, Debug)]
pub struct FileLengthRuleConfig {
    pub severity: Severity,
    pub max_lines: usize,
}

/// Options of `max-file-exports`.
#[derive(Clone, Copy, Debug)]
pub struct FileExportsRuleConfig {
    pub severity: Severity,
    pub max_exports: usize,
    pub count_default: bool,
}

/// Options of `max-directory-depth`.
#[derive(Clone, Debug)]
pub struct MaxDirectoryDepthRuleConfig {
    pub severity: Severity,
    pub max_depth: usize,
    pub ignore_dirs: Vec<String>,
}

/// Options of `max-items-per-directory`.
#[derive(Clone, Debug)]
pub struct MaxItemsPerDirectoryRuleConfig {
    pub severity: Severity,
    pub max_items: usize,
    pub ignore_dirs: Vec<String>,
    pub count_folders: bool,
}

/// Options of `no-empty-directories`.
#[derive(Clone, Debug)]
pub struct NoEmptyDirectoriesRuleConfig {
    pub severity: Severity,
    pub ignore_dirs: Vec<String>,
}

/// Options of `no-anemic-domain`.
#[derive(Clone, Debug)]
pub struct NoAnemicDomainRuleConfig {
    pub severity: Severity,
    pub max_files: usize,
    pub ignore_dirs: Vec<String>,
}

/// Options of `entry-file-no-logic`: the severity, and further entry files by stem (a
/// pattern that starts with `.` names a stem suffix).
#[derive(Clone, Debug)]
pub struct EntryFileNoLogicRuleConfig {
    pub severity: Severity,
    pub entry_files: Vec<String>,
}

/// Options of `no-upward-import`.
#[derive(Clone, Debug)]
pub struct UpwardImportRuleConfig {
    pub severity: Severity,
    pub max_depth: usize,
    pub allow_patterns: Vec<String>,
}

/// The kinds of module specifier that `sort-imports` groups imports by.
#[derive(Clone, Copy, Debug, PartialEq, Eq, Structural)]
pub enum ImportGroup {
    Builtin,
    External,
    Internal,
    Parent,
    Sibling,
    Index,
}

/// Whether `sort-imports` asks for blank lines between import groups, forbids them, or
/// leaves them alone.
#[derive(Clone, Copy, Debug, PartialEq, Eq, Structural)]
pub enum NewlinesBetween {
    Ignore,
    Always,
    Never,
}

/// Options of `sort-imports`: the configured group order (empty: sort each blank-line
/// separated run on its own), the blank-line policy, and the globs that mark a specifier as
/// internal.
#[derive(Clone, Debug)]
pub struct SortImportsRuleConfig {
    pub severity: Severity,
    pub groups: Vec<Vec<ImportGroup>>,
    pub newlines_between: NewlinesBetween,
    pub internal_patterns: Vec<String>,
}

/// Options of `explicit-return-type`: which further constructs are checked, and whether a
/// typed variable counts as typed.
#[derive(Clone, Copy, Debug)]
pub struct ExplicitReturnTypeRuleConfig {
    pub severity: Severity,
    pub include_arrow_functions: bool,
    pub include_class_methods: bool,
    pub include_private: bool,
    pub ignore_when_inferred: bool,
}

/// The kinds of export that `sort-exports` groups exports by.
#[derive(Clone, Copy, Debug, PartialEq, Eq, Structural)]
pub enum ExportGroup {
    Default,
    Local,
    External,
    Parent,
    Sibling,
    Index,
}

/// Options of `sort-exports`: the configured group order (empty: sort each blank-line
/// separated run on its own) and the blank-line policy between groups.
#[derive(Clone, Debug)]
pub struct SortExportsRuleConfig {
    pub severity: Severity,
    pub groups: Vec<Vec<ExportGroup>>,
    pub newlines_between: NewlinesBetween,
}

/// Folders and file-name suffixes that identify one kind of file (types, hooks, tests, ...).
#[derive(Clone, Debug)]
pub struct DomainConfig {
    pub folders: Vec<String>,
    pub file_suffixes: Vec<String>,
}

/// One named architectural layer.
#[derive(Clone, Debug)]
pub struct LayerDefinition {
    pub name: String,
    pub domain: DomainConfig,
}

/// The ordered architectural layers; a layer may import only layers at or after its own
/// position in `order`.
#[derive(Clone, Debug)]
pub struct LayerBoundaryConfig {
    pub order: Vec<String>,
    pub definitions: Vec<LayerDefinition>,
}

impl Default for LayerBoundaryConfig {
    /// No layers.
    fn default() -> (r: Self)
        ensures
            r.order@.len() == 0,
            r.definitions@.len() == 0,
    {
        LayerBoundaryConfig { order: Vec::new(), definitions: Vec::new() }
    }
}

/// The definition of the layer `name`, the first one where several share the name.
pub open spec fn definition_of(defs: Seq<LayerDefinition>, name: Seq<char>) -> Option<LayerDefinition>
    decreases defs.len(),
{
    if defs.len() == 0 {
        None
    } else {
        match definition_of(defs.drop_last(), name) {
            Some(d) => Some(d),
            None => if defs.last().name@ == name { Some(defs.last()) } else { None },
        }
    }
}

/// The first layer of `order` (counting from `from`) whose definition matches `file`.
pub open spec fn layer_from(order: Seq<String>, defs: Seq<LayerDefinition>, file: Seq<char>, from: int) -> Option<Seq<char>>
    decreases order.len() - from,
{
    if from < 0 || from >= order.len() {
        None
    } else if definition_of(defs, order[from]@) matches Some(d) && matches_domain(file, d.domain) {
        Some(order[from]@)
    } else {
        layer_from(order, defs, file, from + 1)
    }
}

/// The layer of `file`: the first layer in order whose definition matches it.
pub open spec fn layer_of(c: LayerBoundaryConfig, file: Seq<char>) -> Option<Seq<char>> {
    layer_from(c.order@, c.definitions@, file, 0)
}

/// The position of `name` in `order`, the first where it occurs twice.
pub open spec fn position_in(order: Seq<String>, name: Seq<char>) -> Option<int>
    decreases order.len(),
{
    if order.len() == 0 {
        None
    } else {
        match position_in(order.drop_last(), name) {
            Some(k) => Some(k),
            None => if order.last()@ == name { Some(order.len() - 1) } else { None },
        }
    }
}

impl LayerBoundaryConfig {
    /// Whether any layer is ordered.
    pub fn is_configured(&self) -> (r: bool)
        ensures
            r == (self.order@.len() > 0),
    {
        self.order.len() > 0
    }

    fn definition_for(&self, name: &str) -> (r: Option<&LayerDefinition>)
        ensures
            match r {
                Some(d) => definition_of(self.definitions@, name@) == Some(*d),
                None => definition_of(self.definitions@, name@) is None,
            },
    {
        let defs = &self.definitions;
        let n = defs.len();
        let mut i: usize = 0;
        while i < n
            invariant
                n == defs@.len(),
                defs@ == self.definitions@,
                0 <= i <= n,
                definition_of(defs@.take(i as int), name@) is None,
            decreases n - i,
        {
            proof {
                assert(defs@.take(i as int + 1).drop_last() =~= defs@.take(i as int));
            }
            if str_equal(defs[i].name.as_str(), name) {
                proof {
                    lemma_definition_found(defs@, name@, i as int, i as int + 1);
                }
                return Some(&defs[i]);
            }
            i += 1;
        }
        proof {
            assert(defs@.take(n as int) =~= defs@);
        }
        None
    }

    /// The layer of `file`: the first layer in order whose definition matches it.
    pub fn layer_for_file(&self, file: &str) -> (r: Option<&String>)
        ensures
            match r {
                Some(l) => layer_of(*self, file@) == Some(l@),
                None => layer_of(*self, file@) is None,
            },
    {
        let n = self.order.len();
        let mut i: usize = 0;
        while i < n
            invariant
                n == self.order@.len(),
                0 <= i <= n,
                layer_from(self.order@, self.definitions@, file@, i as int) == layer_of(*self, file@),
            decreases n - i,
        {
            match self.definition_for(self.order[i].as_str()) {
                Some(d) => {
                    if domain_matches_file(file, &d.domain) {
                        return Some(&self.order[i]);
                    }
                },
                None => {},
            }
            i += 1;
        }
        None
    }
}

proof fn lemma_definition_found(defs: Seq<LayerDefinition>, name: Seq<char>, i: int, j: int)
    requires
        0 <= i < j <= defs.len(),
        j == i + 1 ==> definition_of(defs.take(i), name) is None && defs[i].name@ == name,
        j > i + 1 ==> definition_of(defs.take(j), name) == Some(defs[i]),
    ensures
        definition_of(defs, name) == Some(defs[i]),
    decreases defs.len() - j,
{
    if j == i + 1 {
        assert(defs.take(i + 1).drop_last() =~= defs.take(i));
        assert(definition_of(defs.take(j), name) == Some(defs[i]));
    }
    if j < defs.len() {
        assert(defs.take(j + 1).drop_last() =~= defs.take(j));
        lemma_definition_found(defs, name, i, j + 1);
    } else {
        assert(defs.take(j) =~= defs);
    }
}

/// The position of `name` in `order`, the first where it occurs twice.
pub fn index_of(order: &Vec<String>, name: &str) -> (r: Option<usize>)
    ensures
        match r {
            Some(k) => position_in(order@, name@) == Some(k as int) && k < order@.len(),
            None => position_in(order@, name@) is None,
        },
{
    let n = order.len();
    let mut i: usize = 0;
    while i < n
        invariant
            n == order@.len(),
            0 <= i <= n,
            position_in(order@.take(i as int), name@) is None,
        decreases n - i,
    {
        proof {
            assert(order@.take(i as int + 1).drop_last() =~= order@.take(i as int));
        }
        if str_equal(order[i].as_str(), name) {
            proof {
                lemma_position_found(order@, name@, i as int, i as int + 1);
            }
            return Some(i);
        }
        i += 1;
    }
    proof {
        assert(order@.take(n as int) =~= order@);
    }
    None
}

proof fn lemma_position_found(order: Seq<String>, name: Seq<char>, i: int, j: int)
    requires
        0 <= i < j <= order.len(),
        j == i + 1 ==> position_in(order.take(i), name) is None && order[i]@ == name,
        j > i + 1 ==> position_in(order.take(j), name) == Some(i),
    ensures
        position_in(order, name) == Some(i),
    decreases order.len() - j,
{
    if j == i + 1 {
        assert(order.take(i + 1).drop_last() =~= order.take(i));
        assert(position_in(order.take(j), name) == Some(i));
    }
    if j < order.len() {
        assert(order.take(j + 1).drop_last() =~= order.take(j));
        lemma_position_found(order, name, i, j + 1);
    } else {
        assert(order.take(j) =~= order);
    }
}

/// Options of `boolean-prefix`.
#[derive(Clone, Debug)]
pub struct BooleanPrefixRuleConfig {
    pub severity: Severity,
    pub prefixes: Vec<String>,
    pub ignore_constants: bool,
}

/// Options of `hook-prefix`.
#[derive(Clone, Debug)]
pub struct HookPrefixRuleConfig {
    pub severity: Severity,
    pub prefixes: Vec<String>,
}

/// Options of `max-function-params`.
#[derive(Clone, Debug)]
pub struct MaxFunctionParamsRuleConfig {
    pub severity: Severity,
    pub max_params: usize,
}

/// Options of `min-items-per-directory`.
#[derive(Clone, Debug)]
pub struct MinItemsPerDirectoryRuleConfig {
    pub severity: Severity,
    pub min_items: usize,
    pub ignore_dirs: Vec<String>,
    pub count_folders: bool,
}

/// Options of `no-comments`.
#[derive(Clone, Debug)]
pub struct NoCommentsRuleConfig {
    pub severity: Severity,
    pub allow_doc_comments: bool,
}

/// Options of `no-console`.
#[derive(Clone, Debug)]
pub struct NoConsoleRuleConfig {
    pub severity: Severity,
    pub allow_patterns: Vec<String>,
}

/// Options of `no-barrel-files`: the file names that make a barrel.
#[derive(Clone, Debug)]
pub struct BarrelRuleConfig {
    pub severity: Severity,
    pub barrel_names: Vec<String>,
}

/// Options of `no-then-chain`: whether a single `.then()` that is no part of a chain is
/// allowed.
#[derive(Clone, Debug)]
pub struct NoThenChainRuleConfig {
    pub severity: Severity,
    pub allow_single: bool,
}

/// Options of `no-default-export`.
#[derive(Clone, Debug)]
pub struct NoDefaultExportRuleConfig {
    pub severity: Severity,
    pub components_only: bool,
}

/// Options of `no-duplicate-file-names`.
#[derive(Clone, Debug)]
pub struct NoDuplicateFileNamesRuleConfig {
    pub severity: Severity,
    pub ignore_names: Vec<String>,
}

/// Options of `no-dump-files`.
#[derive(Clone, Debug)]
pub struct NoDumpFilesRuleConfig {
    pub severity: Severity,
    pub extra_names: Vec<String>,
}

/// Options of `no-interface`.
#[derive(Clone, Debug)]
pub struct NoInterfaceRuleConfig {
    pub severity: Severity,
    pub allow_declaration_merging: bool,
}

/// Options of `no-nested-functions`.
#[derive(Clone, Debug)]
pub struct NoNestedFunctionsRuleConfig {
    pub severity: Severity,
    pub max_depth: usize,
    pub contexts: Vec<NestingContext>,
}

/// Options of `no-orphan-files`.
#[derive(Clone, Debug)]
pub struct NoOrphanFilesRuleConfig {
    pub severity: Severity,
    pub entry_files: Vec<String>,
}

/// Options of `no-restricted-imports`.
#[derive(Clone, Debug)]
pub struct NoRestrictedImportsRuleConfig {
    pub severity: Severity,
    pub restricted: Vec<RestrictedImportPattern>,
}

/// One restriction of `no-restricted-imports`: a pattern alone, or a pattern with the names it
/// is limited to and a message of its own.
#[derive(Clone, Debug)]
pub enum RestrictedImportPattern {
    Simple(String),
    Full { pattern: String, named: Option<Vec<String>>, message: Option<String> },
}

impl RestrictedImportPattern {
    /// The pattern that a module specifier is matched against.
    pub open spec fn pattern_text(self) -> Seq<char> {
        match self {
            RestrictedImportPattern::Simple(p) => p@,
            RestrictedImportPattern::Full { pattern, .. } => pattern@,
        }
    }

    /// The names the restriction is limited to, where it is.
    pub open spec fn named_list(self) -> Option<Seq<String>> {
        match self {
            RestrictedImportPattern::Simple(_) => None,
            RestrictedImportPattern::Full { named, .. } => match named {
                Some(v) => Some(v@),
                None => None,
            },
        }
    }

    /// The message of the restriction, where it has one.
    pub open spec fn message_text(self) -> Option<Seq<char>> {
        match self {
            RestrictedImportPattern::Simple(_) => None,
            RestrictedImportPattern::Full { message, .. } => match message {
                Some(m) => Some(m@),
                None => None,
            },
        }
    }

    pub fn pattern(&self) -> (r: &str)
        ensures
            r@ == self.pattern_text(),
    {
        match self {
            RestrictedImportPattern::Simple(p) => p.as_str(),
            RestrictedImportPattern::Full { pattern, .. } => pattern.as_str(),
        }
    }

    pub fn named(&self) -> (r: Option<&Vec<String>>)
        ensures
            match self.named_list() {
                Some(v) => r is Some && r->0@ == v,
                None => r is None,
            },
    {
        match self {
            RestrictedImportPattern::Simple(_) => None,
            RestrictedImportPattern::Full { named, .. } => match named {
                Some(v) => Some(v),
                None => None,
            },
        }
    }

    pub fn message(&self) -> (r: Option<&String>)
        ensures
            match self.message_text() {
                Some(m) => r is Some && r->0@ == m,
                None => r is None,
            },
    {
        match self {
            RestrictedImportPattern::Simple(_) => None,
            RestrictedImportPattern::Full { message, .. } => match message {
                Some(m) => Some(m),
                None => None,
            },
        }
    }
}

/// Options of `no-magic-numbers`.
#[derive(Clone, Debug)]
pub struct NoMagicNumbersRuleConfig {
    pub severity: Severity,
    pub allowed_numbers: Vec<String>,
    pub enforce_strings: bool,
}

/// Options of `no-abbreviations`.
#[derive(Clone, Debug)]
pub struct NoAbbreviationsRuleConfig {
    pub severity: Severity,
    pub extra_abbreviations: Vec<String>,
    pub allow_abbreviations: Vec<String>,
    pub abbreviation_patterns: Vec<String>,
    pub ignore_properties: bool,
    pub ignore_destructured: bool,
}

/// Options of `no-any`.
#[derive(Clone, Debug)]
pub struct NoAnyRuleConfig {
    pub severity: Severity,
    pub allowed_folders: Vec<String>,
}

/// Options of `no-empty-domain`.
#[derive(Clone, Debug)]
pub struct NoEmptyDomainRuleConfig {
    pub severity: Severity,
    pub ignore_dirs: Vec<String>,
}

/// Options of `no-god-domain`.
#[derive(Clone, Debug)]
pub struct NoGodDomainRuleConfig {
    pub severity: Severity,
    pub max_files: usize,
    pub ignore_dirs: Vec<String>,
}

/// The function-like constructs that count as nesting levels for `no-nested-functions`.
#[derive(Clone, Copy, Debug, PartialEq, Eq, Structural)]
pub enum NestingContext {
    Function,
    Arrow,
    ClassMethod,
    ObjectMethod,
}

/// The name of a nesting context.
pub open spec fn nesting_context_name(c: NestingContext) -> Seq<char> {
    match c {
        NestingContext::Function => "function"@,
        NestingContext::Arrow => "arrow"@,
        NestingContext::ClassMethod => "class-method"@,
        NestingContext::ObjectMethod => "object-method"@,
    }
}

impl NestingContext {
    /// The name of this context.
    pub fn as_str(&self) -> (r: &'static str)
        ensures
            r@ == nesting_context_name(*self),
    {
        match self {
            NestingContext::Function => "function",
            NestingContext::Arrow => "arrow",
            NestingContext::ClassMethod => "class-method",
            NestingContext::ObjectMethod => "object-method",
        }
    }
}

/// The folders and file-name suffixes that identify each kind of file.
#[derive(Clone, Debug)]
pub struct StructureConfig {
    pub components: DomainConfig,
    pub constants: DomainConfig,
    pub generated: DomainConfig,
    pub hooks: DomainConfig,
    pub tests: DomainConfig,
    pub types: DomainConfig,
}

/// The architecture of the project: its ordered layers.
#[derive(Clone, Debug)]
pub struct ArchitectureConfig {
    pub layers: LayerBoundaryConfig,
}

/// The options of every rule.
#[derive(Clone, Debug)]
pub struct RulesConfig {
    pub boolean_prefix: BooleanPrefixRuleConfig,
    pub component_file_only_components: RuleConfig,
    pub directory_must_have_barrel: RuleConfig,
    pub hook_no_jsx: RuleConfig,
    pub layer_boundaries: RuleConfig,
    pub hook_prefix: HookPrefixRuleConfig,
    pub max_directory_depth: MaxDirectoryDepthRuleConfig,
    pub max_file_exports: FileExportsRuleConfig,
    pub max_function_params: MaxFunctionParamsRuleConfig,
    pub max_items_per_directory: MaxItemsPerDirectoryRuleConfig,
    pub min_items_per_directory: MinItemsPerDirectoryRuleConfig,
    pub no_barrel_chain: RuleConfig,
    pub no_circular_import: RuleConfig,
    pub no_barrel_files: BarrelRuleConfig,
    pub no_comments: NoCommentsRuleConfig,
    pub no_console: NoConsoleRuleConfig,
    pub no_debugger: RuleConfig,
    pub no_side_effect_imports: RuleConfig,
    pub sort_imports: SortImportsRuleConfig,
    pub no_default_export: NoDefaultExportRuleConfig,
    pub no_duplicate_file_names: NoDuplicateFileNamesRuleConfig,
    pub no_dump_files: NoDumpFilesRuleConfig,
    pub no_empty_directories: NoEmptyDirectoriesRuleConfig,
    pub no_empty_interface: RuleConfig,
    pub no_enums: RuleConfig,
    pub no_eval: RuleConfig,
    pub no_export_star: RuleConfig,
    pub no_focused_test: RuleConfig,
    pub no_inline_types: RuleConfig,
    pub no_interface: NoInterfaceRuleConfig,
    pub no_large_file: FileLengthRuleConfig,
    pub no_logic_in_barrel: RuleConfig,
    pub no_logic_in_domain: RuleConfig,
    pub no_mutable_exports: RuleConfig,
    pub sort_exports: SortExportsRuleConfig,
    pub no_nested_functions: NoNestedFunctionsRuleConfig,
    pub no_orphan_files: NoOrphanFilesRuleConfig,
    pub no_package_cycle: RuleConfig,
    pub no_private_package_import: RuleConfig,
    pub no_namespace: RuleConfig,
    pub no_restricted_imports: NoRestrictedImportsRuleConfig,
    pub no_silent_catch: RuleConfig,
    pub no_skipped_test: RuleConfig,
    pub no_test_code_in_production: RuleConfig,
    pub no_then_chain: NoThenChainRuleConfig,
    pub no_upward_import: UpwardImportRuleConfig,
    pub prefer_satisfies: RuleConfig,
    pub prefer_readonly: RuleConfig,
    pub no_test_import: RuleConfig,
    pub entry_file_no_logic: EntryFileNoLogicRuleConfig,
    pub explicit_return_type: ExplicitReturnTypeRuleConfig,
    pub no_non_null_assertion: RuleConfig,
    pub no_unsafe_optional_chaining: RuleConfig,
    pub no_await_in_loop: RuleConfig,
    pub no_promise_executor_return: RuleConfig,
    pub no_magic_numbers: NoMagicNumbersRuleConfig,
    pub no_process_env: RuleConfig,
    pub no_abbreviations: NoAbbreviationsRuleConfig,
    pub no_any: NoAnyRuleConfig,
    pub no_type_assertion: RuleConfig,
    pub no_unnecessary_type_assertion: RuleConfig,
    pub no_empty_domain: NoEmptyDomainRuleConfig,
    pub no_anemic_domain: NoAnemicDomainRuleConfig,
    pub no_god_domain: NoGodDomainRuleConfig,
}

/// The configuration of a project: the options of its rules, its file kinds and its
/// architecture.
#[derive(Clone, Debug)]
pub struct ProjectConfig {
    pub rules: RulesConfig,
    pub structure: StructureConfig,
    pub architecture: ArchitectureConfig,
}

} // verus!
