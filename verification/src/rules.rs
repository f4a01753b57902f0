//! The rules, the findings they report, and the facts they share.

use vstd::prelude::*;
use crate::chars::{copy_string, copy_opt_string, str_ends_with, string_of};
use crate::config::{DomainConfig, Severity};
use crate::paths::{file_name, file_name_of, has_segment, path_has_segment};
use crate::syntax::Span;
use crate::chars::ends_with;

pub mod boolean_prefix;
pub mod domain;
pub mod entry_file_no_logic;
pub mod explicit_return_type;
pub mod exports;
pub mod files;
pub mod max_file_exports;
pub mod graph;
pub mod hook_no_jsx;
pub mod hook_prefix;
pub mod hygiene;
pub mod imports;
pub mod max_directory_depth;
pub mod max_function_params;
pub mod max_items_per_directory;

verus! {

pub const ENTRY_FILE_NO_LOGIC_RULE_ID: &'static str = "entry-file-no-logic";
pub const DIRECTORY_MUST_HAVE_BARREL_RULE_ID: &'static str = "directory-must-have-barrel";
pub const HOOK_NO_JSX_RULE_ID: &'static str = "hook-no-jsx";
pub const LAYER_BOUNDARIES_RULE_ID: &'static str = "layer-boundaries";
pub const MAX_DIRECTORY_DEPTH_RULE_ID: &'static str = "max-directory-depth";
pub const MAX_FILE_EXPORTS_RULE_ID: &'static str = "max-file-exports";
pub const MAX_ITEMS_PER_DIRECTORY_RULE_ID: &'static str = "max-items-per-directory";
pub const NO_ANEMIC_DOMAIN_RULE_ID: &'static str = "no-anemic-domain";
pub const NO_BARREL_CHAIN_RULE_ID: &'static str = "no-barrel-chain";
pub const NO_CIRCULAR_IMPORT_RULE_ID: &'static str = "no-circular-import";
pub const NO_EMPTY_DIRECTORIES_RULE_ID: &'static str = "no-empty-directories";
pub const NO_LARGE_FILE_RULE_ID: &'static str = "no-large-file";
pub const NO_PRIVATE_PACKAGE_IMPORT_RULE_ID: &'static str = "no-private-package-import";
pub const NO_UPWARD_IMPORT_RULE_ID: &'static str = "no-upward-import";
pub const SORT_IMPORTS_RULE_ID: &'static str = "sort-imports";
pub const SORT_EXPORTS_RULE_ID: &'static str = "sort-exports";
pub const NO_NESTED_FUNCTIONS_RULE_ID: &'static str = "no-nested-functions";
pub const EXPLICIT_RETURN_TYPE_RULE_ID: &'static str = "explicit-return-type";
pub const NO_ABBREVIATIONS_RULE_ID: &'static str = "no-abbreviations";
pub const NO_RESTRICTED_IMPORTS_RULE_ID: &'static str = "no-restricted-imports";
pub const COMPONENT_FILE_ONLY_COMPONENTS_RULE_ID: &'static str = "component-file-only-components";
pub const PREFER_READONLY_RULE_ID: &'static str = "prefer-readonly";
pub const NO_LOGIC_IN_DOMAIN_RULE_ID: &'static str = "no-logic-in-domain";
pub const BOOLEAN_PREFIX_RULE_ID: &'static str = "boolean-prefix";
pub const HOOK_PREFIX_RULE_ID: &'static str = "hook-prefix";
pub const NO_CONSOLE_RULE_ID: &'static str = "no-console";
pub const NO_DEFAULT_EXPORT_RULE_ID: &'static str = "no-default-export";
pub const NO_THEN_CHAIN_RULE_ID: &'static str = "no-then-chain";
pub const NO_DEBUGGER_RULE_ID: &'static str = "no-debugger";
pub const NO_INLINE_TYPES_RULE_ID: &'static str = "no-inline-types";
pub const NO_BARREL_FILES_RULE_ID: &'static str = "no-barrel-files";
pub const NO_EVAL_RULE_ID: &'static str = "no-eval";
pub const NO_SIDE_EFFECT_IMPORTS_RULE_ID: &'static str = "no-side-effect-imports";
pub const NO_LOGIC_IN_BARREL_RULE_ID: &'static str = "no-logic-in-barrel";
pub const NO_AWAIT_IN_LOOP_RULE_ID: &'static str = "no-await-in-loop";
pub const NO_TEST_CODE_IN_PRODUCTION_RULE_ID: &'static str = "no-test-code-in-production";
pub const NO_PROMISE_EXECUTOR_RETURN_RULE_ID: &'static str = "no-promise-executor-return";
pub const MAX_FUNCTION_PARAMS_RULE_ID: &'static str = "max-function-params";

/// One finding of one rule.
#[derive(Debug)]
pub struct Violation {
    pub file: String,
    pub span: Option<Span>,
    pub line: Option<usize>,
    pub column: Option<usize>,
    pub rule: String,
    pub message: String,
    pub severity: Severity,
    pub detail: Option<String>,
    pub subject: Option<String>,
}

/// The plain contents of a finding.
pub struct ViolationView {
    pub file: Seq<char>,
    pub span: Option<Span>,
    pub line: Option<usize>,
    pub column: Option<usize>,
    pub rule: Seq<char>,
    pub message: Seq<char>,
    pub severity: Severity,
    pub detail: Option<Seq<char>>,
    pub subject: Option<Seq<char>>,
}

/// The characters of an optional string.
pub open spec fn opt_chars(s: Option<String>) -> Option<Seq<char>> {
    match s {
        Some(t) => Some(t@),
        None => None,
    }
}

impl View for Violation {
    type V = ViolationView;

    open spec fn view(&self) -> ViolationView {
        ViolationView {
            file: self.file@,
            span: self.span,
            line: self.line,
            column: self.column,
            rule: self.rule@,
            message: self.message@,
            severity: self.severity,
            detail: opt_chars(self.detail),
            subject: opt_chars(self.subject),
        }
    }
}

/// The contents of a sequence of findings.
pub open spec fn views(vs: Seq<Violation>) -> Seq<ViolationView> {
    vs.map_values(|v: Violation| v@)
}

impl Violation {
    /// A finding at a line and column of a file, with no span.
    pub fn located(
        file: &str,
        line: Option<usize>,
        column: Option<usize>,
        rule: &str,
        message: &str,
        severity: Severity,
        detail: Option<String>,
        subject: Option<String>,
    ) -> (r: Violation)
        ensures
            r@ == (ViolationView {
                file: file@,
                span: None,
                line,
                column,
                rule: rule@,
                message: message@,
                severity,
                detail: opt_chars(detail),
                subject: opt_chars(subject),
            }),
    {
        Violation {
            file: string_of(file),
            span: None,
            line,
            column,
            rule: string_of(rule),
            message: string_of(message),
            severity,
            detail,
            subject,
        }
    }

    /// A finding at a span of a file, with the span's line and column.
    pub fn spanned(
        file: &str,
        span: Span,
        line: usize,
        column: usize,
        rule: &str,
        message: &str,
        severity: Severity,
        detail: Option<String>,
        subject: Option<String>,
    ) -> (r: Violation)
        ensures
            r@ == (ViolationView {
                file: file@,
                span: Some(span),
                line: Some(line),
                column: Some(column),
                rule: rule@,
                message: message@,
                severity,
                detail: opt_chars(detail),
                subject: opt_chars(subject),
            }),
    {
        Violation {
            file: string_of(file),
            span: Some(span),
            line: Some(line),
            column: Some(column),
            rule: string_of(rule),
            message: string_of(message),
            severity,
            detail,
            subject,
        }
    }

    /// A copy of this finding.
    pub fn duplicate(&self) -> (r: Violation)
        ensures
            r == *self,
    {
        Violation {
            file: copy_string(&self.file),
            span: self.span,
            line: self.line,
            column: self.column,
            rule: self.rule.clone(),
            message: self.message.clone(),
            severity: self.severity,
            detail: copy_opt_string(&self.detail),
            subject: copy_opt_string(&self.subject),
        }
    }
}

/// One replacement of the bytes `[start, end)` of a file.
#[derive(Debug)]
pub struct TextEdit {
    pub start: usize,
    pub end: usize,
    pub replacement: String,
}

/// The edits that fix one file's findings of one rule.
#[derive(Debug)]
pub struct Fix {
    pub file: String,
    pub rule: String,
    pub edits: Vec<TextEdit>,
}

/// The plain contents of an edit.
pub struct TextEditView {
    pub start: usize,
    pub end: usize,
    pub replacement: Seq<char>,
}

impl View for TextEdit {
    type V = TextEditView;

    open spec fn view(&self) -> TextEditView {
        TextEditView { start: self.start, end: self.end, replacement: self.replacement@ }
    }
}

/// The plain contents of a fix.
pub struct FixView {
    pub file: Seq<char>,
    pub rule: Seq<char>,
    pub edits: Seq<TextEditView>,
}

impl View for Fix {
    type V = FixView;

    open spec fn view(&self) -> FixView {
        FixView { file: self.file@, rule: self.rule@, edits: self.edits@.map_values(|e: TextEdit| e@) }
    }
}

/// The contents of a sequence of fixes.
pub open spec fn fix_views(fs: Seq<Fix>) -> Seq<FixView> {
    fs.map_values(|f: Fix| f@)
}

impl Fix {
    /// A fix of `file` for `rule` that replaces the bytes `[start, end)` with `replacement`.
    pub fn single(file: &str, rule: &str, start: usize, end: usize, replacement: String) -> (r: Fix)
        ensures
            r@ == (FixView {
                file: file@,
                rule: rule@,
                edits: seq![TextEditView { start, end, replacement: replacement@ }],
            }),
    {
        let mut edits: Vec<TextEdit> = Vec::new();
        let edit = TextEdit { start, end, replacement };
        edits.push(edit);
        proof {
            assert(edits@.map_values(|e: TextEdit| e@) =~= seq![edit@]);
        }
        Fix { file: string_of(file), rule: string_of(rule), edits }
    }
}

/// The file name of `file` ends with one of the domain's suffixes.
pub open spec fn is_type_file(file: Seq<char>, types: DomainConfig) -> bool {
    exists|i: int| 0 <= i < types.file_suffixes@.len()
        && ends_with(file_name(file), #[trigger] types.file_suffixes@[i]@)
}

/// One segment of `file` is one of the domain's folders.
pub open spec fn is_in_types_directory(file: Seq<char>, types: DomainConfig) -> bool {
    exists|i: int| 0 <= i < types.folders@.len() && has_segment(file, #[trigger] types.folders@[i]@)
}

/// The name of `file` ends with `.d.ts`.
pub open spec fn is_declaration_file(file: Seq<char>) -> bool {
    ends_with(file_name(file), ".d.ts"@)
}

/// Where a project keeps its type declarations: in type files, in types directories, or both.
#[derive(Debug, Clone, Copy, PartialEq, Eq, Structural)]
pub struct TypeLocationStyle {
    allows_type_files: bool,
    allows_types_directories: bool,
}

/// Whether some file of `files` satisfies `p`.
pub open spec fn any_file(files: Seq<String>, p: spec_fn(Seq<char>) -> bool) -> bool {
    exists|i: int| 0 <= i < files.len() && p(#[trigger] files[i]@)
}

impl TypeLocationStyle {
    /// Whether type files are an accepted place for types.
    pub closed spec fn type_files_allowed(self) -> bool {
        self.allows_type_files
    }

    /// Whether types directories are an accepted place for types.
    pub closed spec fn types_directories_allowed(self) -> bool {
        self.allows_types_directories
    }

    /// The style of a project: types directories are accepted where some file lies in one;
    /// type files are accepted where some file is one, or where no file lies in a types
    /// directory.
    pub fn detect(files: &[String], types: &DomainConfig) -> (r: Self)
        ensures
            r.types_directories_allowed() == any_file(files@, |f: Seq<char>| is_in_types_directory(f, *types)),
            r.type_files_allowed() == (any_file(files@, |f: Seq<char>| is_type_file(f, *types))
                || !any_file(files@, |f: Seq<char>| is_in_types_directory(f, *types))),
    {
        let mut any_type_file = false;
        let mut any_types_dir = false;
        let n = files.len();
        let mut i: usize = 0;
        while i < n
            invariant
                n == files@.len(),
                0 <= i <= n,
                any_type_file == exists|k: int| 0 <= k < i && is_type_file(#[trigger] files@[k]@, *types),
                any_types_dir == exists|k: int| 0 <= k < i && is_in_types_directory(#[trigger] files@[k]@, *types),
            decreases n - i,
        {
            let t = is_type_file_exec(files[i].as_str(), types);
            let d = is_in_types_directory_exec(files[i].as_str(), types);
            if t {
                any_type_file = true;
            }
            if d {
                any_types_dir = true;
            }
            i += 1;
        }
        TypeLocationStyle {
            allows_type_files: any_type_file || !any_types_dir,
            allows_types_directories: any_types_dir,
        }
    }

    /// Whether a type may be declared in `file` under this style.
    pub fn allows_file(self, file: &str, types: &DomainConfig) -> (r: bool)
        ensures
            r == (is_declaration_file(file@)
                || (self.type_files_allowed() && is_type_file(file@, *types))
                || (self.types_directories_allowed() && is_in_types_directory(file@, *types))),
    {
        let name = file_name_of(file);
        let decl = str_ends_with(name.as_str(), ".d.ts");
        decl || (self.allows_type_files && is_type_file_exec(file, types))
            || (self.allows_types_directories && is_in_types_directory_exec(file, types))
    }
}

/// Whether the file name of `file` ends with one of the domain's suffixes.
pub fn is_type_file_exec(file: &str, types: &DomainConfig) -> (r: bool)
    ensures
        r == is_type_file(file@, *types),
{
    let name = file_name_of(file);
    let n = types.file_suffixes.len();
    let mut i: usize = 0;
    while i < n
        invariant
            n == types.file_suffixes@.len(),
            name@ == file_name(file@),
            0 <= i <= n,
            forall|k: int| 0 <= k < i ==> !ends_with(file_name(file@), #[trigger] types.file_suffixes@[k]@),
        decreases n - i,
    {
        if str_ends_with(name.as_str(), types.file_suffixes[i].as_str()) {
            return true;
        }
        i += 1;
    }
    false
}

/// Whether one segment of `file` is one of the domain's folders.
pub fn is_in_types_directory_exec(file: &str, types: &DomainConfig) -> (r: bool)
    ensures
        r == is_in_types_directory(file@, *types),
{
    let n = types.folders.len();
    let mut i: usize = 0;
    while i < n
        invariant
            n == types.folders@.len(),
            0 <= i <= n,
            forall|k: int| 0 <= k < i ==> !has_segment(file@, #[trigger] types.folders@[k]@),
        decreases n - i,
    {
        if path_has_segment(file, types.folders[i].as_str()) {
            return true;
        }
        i += 1;
    }
    false
}

/// `file` belongs to the domain: it lies in one of its folders or its name ends with one of
/// its suffixes.
pub open spec fn matches_domain(file: Seq<char>, domain: DomainConfig) -> bool {
    is_type_file(file, domain) || is_in_types_directory(file, domain)
}

/// Whether `file` belongs to `domain`.
pub fn domain_matches_file(file: &str, domain: &DomainConfig) -> (r: bool)
    ensures
        r == matches_domain(file@, *domain),
{
    is_type_file_exec(file, domain) || is_in_types_directory_exec(file, domain)
}

} // verus!
