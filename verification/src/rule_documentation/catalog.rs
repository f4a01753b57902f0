//! The documentation of every rule: its name, intent, examples and options, and the summary
//! of its current configuration.

use vstd::prelude::*;
use crate::rule_documentation::summary::RuleSummary;

verus! {

/// An example of a rule: what it reports, or what it prefers.
#[derive(Clone, Copy, Debug)]
pub struct RuleExample {
    pub label: &'static str,
    pub code: &'static str,
}

/// An option of a rule and what it does.
#[derive(Clone, Copy, Debug)]
pub struct RuleOption {
    pub name: &'static str,
    pub description: &'static str,
}

/// The documentation of one rule.
#[derive(Debug)]
pub struct RuleDocumentation {
    pub name: &'static str,
    pub intent: &'static str,
    pub examples: Vec<RuleExample>,
    pub options: Vec<RuleOption>,
    pub summarize: RuleSummary,
}

/// The plain contents of a rule's documentation.
pub struct DocView {
    pub name: Seq<char>,
    pub intent: Seq<char>,
    pub examples: Seq<(Seq<char>, Seq<char>)>,
    pub options: Seq<(Seq<char>, Seq<char>)>,
    pub summarize: RuleSummary,
}

/// The label and code of each example.
pub open spec fn example_views(v: Seq<RuleExample>) -> Seq<(Seq<char>, Seq<char>)> {
    v.map_values(|e: RuleExample| (e.label@, e.code@))
}

/// The name and description of each option.
pub open spec fn option_views(v: Seq<RuleOption>) -> Seq<(Seq<char>, Seq<char>)> {
    v.map_values(|o: RuleOption| (o.name@, o.description@))
}

impl View for RuleDocumentation {
    type V = DocView;

    open spec fn view(&self) -> DocView {
        DocView {
            name: self.name@,
            intent: self.intent@,
            examples: example_views(self.examples@),
            options: option_views(self.options@),
            summarize: self.summarize,
        }
    }
}

/// The contents of a list of documentations.
pub open spec fn doc_views(v: Seq<RuleDocumentation>) -> Seq<DocView> {
    v.map_values(|d: RuleDocumentation| d@)
}

/// The option every rule has.
pub open spec fn severity_option() -> (Seq<char>, Seq<char>) {
    ("severity"@, "One of off, info, warn, or error."@)
}

fn severity_rule_option() -> (r: RuleOption)
    ensures
        (r.name@, r.description@) == severity_option(),
{
    RuleOption { name: "severity", description: "One of off, info, warn, or error." }
}

/// The documentation of `boolean-prefix`.
pub open spec fn boolean_prefix_doc() -> DocView {
    DocView {
        name: "boolean-prefix"@,
        intent: "Boolean variables should be prefixed with is, has, or can to signal intent."@,
        examples: seq![("Reports"@, "const open = true;"@), ("Prefer"@, "const isOpen = true;"@)],
        options: seq![severity_option(), ("prefixes"@, "Custom list of allowed boolean prefixes."@), ("ignore-constants"@, "When true, skips checking const declarations."@)],
        summarize: RuleSummary::BooleanPrefix,
    }
}

fn boolean_prefix_documentation() -> (r: RuleDocumentation)
    ensures
        r@ == boolean_prefix_doc(),
{
    let mut examples: Vec<RuleExample> = Vec::new();
    examples.push(RuleExample { label: "Reports", code: "const open = true;" });
    examples.push(RuleExample { label: "Prefer", code: "const isOpen = true;" });
    let mut options: Vec<RuleOption> = Vec::new();
    options.push(severity_rule_option());
    options.push(RuleOption { name: "prefixes", description: "Custom list of allowed boolean prefixes." });
    options.push(RuleOption { name: "ignore-constants", description: "When true, skips checking const declarations." });
    let r = RuleDocumentation {
        name: "boolean-prefix",
        intent: "Boolean variables should be prefixed with is, has, or can to signal intent.",
        examples,
        options,
        summarize: RuleSummary::BooleanPrefix,
    };
    proof {
        assert(r@.examples =~= boolean_prefix_doc().examples);
        assert(r@.options =~= boolean_prefix_doc().options);
    }
    r
}

/// The documentation of `component-file-only-components`.
pub open spec fn component_file_only_components_doc() -> DocView {
    DocView {
        name: "component-file-only-components"@,
        intent: "Component files should export components only. Move utilities, types, and hooks to separate files."@,
        examples: seq![("Reports"@, "export function formatDate() {} // in Button.component.tsx"@), ("Prefer"@, "export function Button() {} // only components exported"@)],
        options: seq![severity_option(), ("project.structure.components"@, "Folders and file suffixes that identify component files."@)],
        summarize: RuleSummary::ComponentFileOnlyComponents,
    }
}

fn component_file_only_components_documentation() -> (r: RuleDocumentation)
    ensures
        r@ == component_file_only_components_doc(),
{
    let mut examples: Vec<RuleExample> = Vec::new();
    examples.push(RuleExample { label: "Reports", code: "export function formatDate() {} // in Button.component.tsx" });
    examples.push(RuleExample { label: "Prefer", code: "export function Button() {} // only components exported" });
    let mut options: Vec<RuleOption> = Vec::new();
    options.push(severity_rule_option());
    options.push(RuleOption { name: "project.structure.components", description: "Folders and file suffixes that identify component files." });
    let r = RuleDocumentation {
        name: "component-file-only-components",
        intent: "Component files should export components only. Move utilities, types, and hooks to separate files.",
        examples,
        options,
        summarize: RuleSummary::ComponentFileOnlyComponents,
    };
    proof {
        assert(r@.examples =~= component_file_only_components_doc().examples);
        assert(r@.options =~= component_file_only_components_doc().options);
    }
    r
}

/// The documentation of `hook-no-jsx`.
pub open spec fn hook_no_jsx_doc() -> DocView {
    DocView {
        name: "hook-no-jsx"@,
        intent: "Keep hook files focused on state and effects. JSX belongs in components."@,
        examples: seq![("Reports"@, "export function useMenu() { return <button />; }"@), ("Prefer"@, "export function useMenu() { return { isOpen, toggle }; }"@)],
        options: seq![severity_option(), ("project.structure.hooks"@, "Folders and file suffixes that identify hook files."@)],
        summarize: RuleSummary::HookNoJsx,
    }
}

fn hook_no_jsx_documentation() -> (r: RuleDocumentation)
    ensures
        r@ == hook_no_jsx_doc(),
{
    let mut examples: Vec<RuleExample> = Vec::new();
    examples.push(RuleExample { label: "Reports", code: "export function useMenu() { return <button />; }" });
    examples.push(RuleExample { label: "Prefer", code: "export function useMenu() { return { isOpen, toggle }; }" });
    let mut options: Vec<RuleOption> = Vec::new();
    options.push(severity_rule_option());
    options.push(RuleOption { name: "project.structure.hooks", description: "Folders and file suffixes that identify hook files." });
    let r = RuleDocumentation {
        name: "hook-no-jsx",
        intent: "Keep hook files focused on state and effects. JSX belongs in components.",
        examples,
        options,
        summarize: RuleSummary::HookNoJsx,
    };
    proof {
        assert(r@.examples =~= hook_no_jsx_doc().examples);
        assert(r@.options =~= hook_no_jsx_doc().options);
    }
    r
}

/// The documentation of `hook-prefix`.
pub open spec fn hook_prefix_doc() -> DocView {
    DocView {
        name: "hook-prefix"@,
        intent: "Hook functions in hook files should start with 'use' to follow React conventions."@,
        examples: seq![("Reports"@, "export function authenticate() { return true; }"@), ("Prefer"@, "export function useAuth() { return { user: null }; }"@)],
        options: seq![severity_option(), ("prefixes"@, "Custom list of allowed hook prefixes."@), ("project.structure.hooks"@, "Folders and file suffixes that identify hook files."@)],
        summarize: RuleSummary::HookPrefix,
    }
}

fn hook_prefix_documentation() -> (r: RuleDocumentation)
    ensures
        r@ == hook_prefix_doc(),
{
    let mut examples: Vec<RuleExample> = Vec::new();
    examples.push(RuleExample { label: "Reports", code: "export function authenticate() { return true; }" });
    examples.push(RuleExample { label: "Prefer", code: "export function useAuth() { return { user: null }; }" });
    let mut options: Vec<RuleOption> = Vec::new();
    options.push(severity_rule_option());
    options.push(RuleOption { name: "prefixes", description: "Custom list of allowed hook prefixes." });
    options.push(RuleOption { name: "project.structure.hooks", description: "Folders and file suffixes that identify hook files." });
    let r = RuleDocumentation {
        name: "hook-prefix",
        intent: "Hook functions in hook files should start with 'use' to follow React conventions.",
        examples,
        options,
        summarize: RuleSummary::HookPrefix,
    };
    proof {
        assert(r@.examples =~= hook_prefix_doc().examples);
        assert(r@.options =~= hook_prefix_doc().options);
    }
    r
}

/// The documentation of `layer-boundaries`.
pub open spec fn layer_boundaries_doc() -> DocView {
    DocView {
        name: "layer-boundaries"@,
        intent: "Enforce that imports respect an ordered set of architectural layers. Each layer may only import layers at or below its own position in the defined order."@,
        examples: seq![("Reports"@, "// src/shared/date.ts\nimport { getSession } from '@/features/auth/session';"@), ("Prefer"@, "// Define layers in niteo.toml\n[architecture.layers]\norder = [\"app\", \"features\", \"entities\", \"shared\"]\n// shared cannot import features, entities, or app"@)],
        options: seq![severity_option(), ("architecture.layers.order"@, "Ordered list of layer names from highest (app) to lowest (shared). Layers can only import from their own level or lower."@), ("architecture.layers.<name>.folders"@, "Folder paths that identify files belonging to this layer."@), ("architecture.layers.<name>.file-suffixes"@, "File name suffixes that identify files belonging to this layer."@)],
        summarize: RuleSummary::LayerBoundaries,
    }
}

fn layer_boundaries_documentation() -> (r: RuleDocumentation)
    ensures
        r@ == layer_boundaries_doc(),
{
    let mut examples: Vec<RuleExample> = Vec::new();
    examples.push(RuleExample { label: "Reports", code: "// src/shared/date.ts\nimport { getSession } from '@/features/auth/session';" });
    examples.push(RuleExample { label: "Prefer", code: "// Define layers in niteo.toml\n[architecture.layers]\norder = [\"app\", \"features\", \"entities\", \"shared\"]\n// shared cannot import features, entities, or app" });
    let mut options: Vec<RuleOption> = Vec::new();
    options.push(severity_rule_option());
    options.push(RuleOption { name: "architecture.layers.order", description: "Ordered list of layer names from highest (app) to lowest (shared). Layers can only import from their own level or lower." });
    options.push(RuleOption { name: "architecture.layers.<name>.folders", description: "Folder paths that identify files belonging to this layer." });
    options.push(RuleOption { name: "architecture.layers.<name>.file-suffixes", description: "File name suffixes that identify files belonging to this layer." });
    let r = RuleDocumentation {
        name: "layer-boundaries",
        intent: "Enforce that imports respect an ordered set of architectural layers. Each layer may only import layers at or below its own position in the defined order.",
        examples,
        options,
        summarize: RuleSummary::LayerBoundaries,
    };
    proof {
        assert(r@.examples =~= layer_boundaries_doc().examples);
        assert(r@.options =~= layer_boundaries_doc().options);
    }
    r
}

/// The documentation of `max-directory-depth`.
pub open spec fn max_directory_depth_doc() -> DocView {
    DocView {
        name: "max-directory-depth"@,
        intent: "Limit nested directories so project structure remains easy to scan."@,
        examples: seq![("Reports"@, "src/features/billing/screens/settings/forms/card/EditCard.tsx"@), ("Prefer"@, "src/features/billing/EditCard.tsx"@)],
        options: seq![severity_option(), ("max-depth"@, "Maximum allowed path depth below the configured project root."@), ("ignore-dirs"@, "Directory names to skip when checking depth."@)],
        summarize: RuleSummary::MaxDirectoryDepth,
    }
}

fn max_directory_depth_documentation() -> (r: RuleDocumentation)
    ensures
        r@ == max_directory_depth_doc(),
{
    let mut examples: Vec<RuleExample> = Vec::new();
    examples.push(RuleExample { label: "Reports", code: "src/features/billing/screens/settings/forms/card/EditCard.tsx" });
    examples.push(RuleExample { label: "Prefer", code: "src/features/billing/EditCard.tsx" });
    let mut options: Vec<RuleOption> = Vec::new();
    options.push(severity_rule_option());
    options.push(RuleOption { name: "max-depth", description: "Maximum allowed path depth below the configured project root." });
    options.push(RuleOption { name: "ignore-dirs", description: "Directory names to skip when checking depth." });
    let r = RuleDocumentation {
        name: "max-directory-depth",
        intent: "Limit nested directories so project structure remains easy to scan.",
        examples,
        options,
        summarize: RuleSummary::MaxDirectoryDepth,
    };
    proof {
        assert(r@.examples =~= max_directory_depth_doc().examples);
        assert(r@.options =~= max_directory_depth_doc().options);
    }
    r
}

/// The documentation of `max-file-exports`.
pub open spec fn max_file_exports_doc() -> DocView {
    DocView {
        name: "max-file-exports"@,
        intent: "Keep each file's public surface small enough to understand and refactor."@,
        examples: seq![("Reports"@, "export const a = 1; export const b = 2; // ...many more"@), ("Prefer"@, "Split unrelated exports into focused modules."@)],
        options: seq![severity_option(), ("max-exports"@, "Maximum number of exports allowed in a file."@)],
        summarize: RuleSummary::MaxFileExports,
    }
}

fn max_file_exports_documentation() -> (r: RuleDocumentation)
    ensures
        r@ == max_file_exports_doc(),
{
    let mut examples: Vec<RuleExample> = Vec::new();
    examples.push(RuleExample { label: "Reports", code: "export const a = 1; export const b = 2; // ...many more" });
    examples.push(RuleExample { label: "Prefer", code: "Split unrelated exports into focused modules." });
    let mut options: Vec<RuleOption> = Vec::new();
    options.push(severity_rule_option());
    options.push(RuleOption { name: "max-exports", description: "Maximum number of exports allowed in a file." });
    let r = RuleDocumentation {
        name: "max-file-exports",
        intent: "Keep each file's public surface small enough to understand and refactor.",
        examples,
        options,
        summarize: RuleSummary::MaxFileExports,
    };
    proof {
        assert(r@.examples =~= max_file_exports_doc().examples);
        assert(r@.options =~= max_file_exports_doc().options);
    }
    r
}

/// The documentation of `max-function-params`.
pub open spec fn max_function_params_doc() -> DocView {
    DocView {
        name: "max-function-params"@,
        intent: "Limit function parameter count. Functions with many parameters are hard to call correctly; prefer an object parameter."@,
        examples: seq![("Reports"@, "function createUser(name: string, age: number, email: string, role: string) {}"@)],
        options: seq![severity_option(), ("max-params"@, "Maximum number of parameters allowed. Default is 3."@)],
        summarize: RuleSummary::MaxFunctionParams,
    }
}

fn max_function_params_documentation() -> (r: RuleDocumentation)
    ensures
        r@ == max_function_params_doc(),
{
    let mut examples: Vec<RuleExample> = Vec::new();
    examples.push(RuleExample { label: "Reports", code: "function createUser(name: string, age: number, email: string, role: string) {}" });
    let mut options: Vec<RuleOption> = Vec::new();
    options.push(severity_rule_option());
    options.push(RuleOption { name: "max-params", description: "Maximum number of parameters allowed. Default is 3." });
    let r = RuleDocumentation {
        name: "max-function-params",
        intent: "Limit function parameter count. Functions with many parameters are hard to call correctly; prefer an object parameter.",
        examples,
        options,
        summarize: RuleSummary::MaxFunctionParams,
    };
    proof {
        assert(r@.examples =~= max_function_params_doc().examples);
        assert(r@.options =~= max_function_params_doc().options);
    }
    r
}

/// The documentation of `max-items-per-directory`.
pub open spec fn max_items_per_directory_doc() -> DocView {
    DocView {
        name: "max-items-per-directory"@,
        intent: "Prevent directories from becoming oversized collections of unrelated files."@,
        examples: seq![("Reports"@, "src/components/ with more items than max-items"@), ("Prefer"@, "Group related files into narrower child directories."@)],
        options: seq![severity_option(), ("max-items"@, "Maximum allowed number of source items in a directory."@), ("ignore-dirs"@, "Directory names to skip."@), ("count-folders"@, "Whether child folders count toward the item limit."@)],
        summarize: RuleSummary::MaxItemsPerDirectory,
    }
}

fn max_items_per_directory_documentation() -> (r: RuleDocumentation)
    ensures
        r@ == max_items_per_directory_doc(),
{
    let mut examples: Vec<RuleExample> = Vec::new();
    examples.push(RuleExample { label: "Reports", code: "src/components/ with more items than max-items" });
    examples.push(RuleExample { label: "Prefer", code: "Group related files into narrower child directories." });
    let mut options: Vec<RuleOption> = Vec::new();
    options.push(severity_rule_option());
    options.push(RuleOption { name: "max-items", description: "Maximum allowed number of source items in a directory." });
    options.push(RuleOption { name: "ignore-dirs", description: "Directory names to skip." });
    options.push(RuleOption { name: "count-folders", description: "Whether child folders count toward the item limit." });
    let r = RuleDocumentation {
        name: "max-items-per-directory",
        intent: "Prevent directories from becoming oversized collections of unrelated files.",
        examples,
        options,
        summarize: RuleSummary::MaxItemsPerDirectory,
    };
    proof {
        assert(r@.examples =~= max_items_per_directory_doc().examples);
        assert(r@.options =~= max_items_per_directory_doc().options);
    }
    r
}

/// The documentation of `min-items-per-directory`.
pub open spec fn min_items_per_directory_doc() -> DocView {
    DocView {
        name: "min-items-per-directory"@,
        intent: "Find tiny directories that add navigation cost without enough structure benefit."@,
        examples: seq![("Reports"@, "src/features/search/ with only one source file"@), ("Prefer"@, "Merge the file into a sibling until the folder has a real boundary."@)],
        options: seq![severity_option(), ("min-items"@, "Minimum expected number of source items in a directory."@), ("ignore-dirs"@, "Directory names to skip."@), ("count-folders"@, "Whether child folders count toward the item total."@)],
        summarize: RuleSummary::MinItemsPerDirectory,
    }
}

fn min_items_per_directory_documentation() -> (r: RuleDocumentation)
    ensures
        r@ == min_items_per_directory_doc(),
{
    let mut examples: Vec<RuleExample> = Vec::new();
    examples.push(RuleExample { label: "Reports", code: "src/features/search/ with only one source file" });
    examples.push(RuleExample { label: "Prefer", code: "Merge the file into a sibling until the folder has a real boundary." });
    let mut options: Vec<RuleOption> = Vec::new();
    options.push(severity_rule_option());
    options.push(RuleOption { name: "min-items", description: "Minimum expected number of source items in a directory." });
    options.push(RuleOption { name: "ignore-dirs", description: "Directory names to skip." });
    options.push(RuleOption { name: "count-folders", description: "Whether child folders count toward the item total." });
    let r = RuleDocumentation {
        name: "min-items-per-directory",
        intent: "Find tiny directories that add navigation cost without enough structure benefit.",
        examples,
        options,
        summarize: RuleSummary::MinItemsPerDirectory,
    };
    proof {
        assert(r@.examples =~= min_items_per_directory_doc().examples);
        assert(r@.options =~= min_items_per_directory_doc().options);
    }
    r
}

/// The documentation of `no-barrel-chain`.
pub open spec fn no_barrel_chain_doc() -> DocView {
    DocView {
        name: "no-barrel-chain"@,
        intent: "Prevent index.ts barrel files from chaining through other barrel files."@,
        examples: seq![("Reports"@, "export { Button } from './components'; // resolves to ./components/index.ts"@), ("Prefer"@, "export { Button } from './components/Button';"@)],
        options: seq![severity_option()],
        summarize: RuleSummary::NoBarrelChain,
    }
}

fn no_barrel_chain_documentation() -> (r: RuleDocumentation)
    ensures
        r@ == no_barrel_chain_doc(),
{
    let mut examples: Vec<RuleExample> = Vec::new();
    examples.push(RuleExample { label: "Reports", code: "export { Button } from './components'; // resolves to ./components/index.ts" });
    examples.push(RuleExample { label: "Prefer", code: "export { Button } from './components/Button';" });
    let mut options: Vec<RuleOption> = Vec::new();
    options.push(severity_rule_option());
    let r = RuleDocumentation {
        name: "no-barrel-chain",
        intent: "Prevent index.ts barrel files from chaining through other barrel files.",
        examples,
        options,
        summarize: RuleSummary::NoBarrelChain,
    };
    proof {
        assert(r@.examples =~= no_barrel_chain_doc().examples);
        assert(r@.options =~= no_barrel_chain_doc().options);
    }
    r
}

/// The documentation of `no-circular-import`.
pub open spec fn no_circular_import_doc() -> DocView {
    DocView {
        name: "no-circular-import"@,
        intent: "Detect circular import chains between modules that can cause runtime initialization issues."@,
        examples: seq![("Reports"@, "// a.ts\nimport { b } from './b';\n// b.ts\nimport { a } from './a';"@), ("Prefer"@, "Break the cycle by extracting shared logic to a third module."@)],
        options: seq![severity_option()],
        summarize: RuleSummary::NoCircularImport,
    }
}

fn no_circular_import_documentation() -> (r: RuleDocumentation)
    ensures
        r@ == no_circular_import_doc(),
{
    let mut examples: Vec<RuleExample> = Vec::new();
    examples.push(RuleExample { label: "Reports", code: "// a.ts\nimport { b } from './b';\n// b.ts\nimport { a } from './a';" });
    examples.push(RuleExample { label: "Prefer", code: "Break the cycle by extracting shared logic to a third module." });
    let mut options: Vec<RuleOption> = Vec::new();
    options.push(severity_rule_option());
    let r = RuleDocumentation {
        name: "no-circular-import",
        intent: "Detect circular import chains between modules that can cause runtime initialization issues.",
        examples,
        options,
        summarize: RuleSummary::NoCircularImport,
    };
    proof {
        assert(r@.examples =~= no_circular_import_doc().examples);
        assert(r@.options =~= no_circular_import_doc().options);
    }
    r
}

/// The documentation of `no-barrel-files`.
pub open spec fn no_barrel_files_doc() -> DocView {
    DocView {
        name: "no-barrel-files"@,
        intent: "Avoid index.ts barrel files that hide import origins and public API shape."@,
        examples: seq![("Reports"@, "export { Button } from './Button';"@), ("Prefer"@, "import { Button } from './Button';"@)],
        options: seq![severity_option()],
        summarize: RuleSummary::NoBarrelFiles,
    }
}

fn no_barrel_files_documentation() -> (r: RuleDocumentation)
    ensures
        r@ == no_barrel_files_doc(),
{
    let mut examples: Vec<RuleExample> = Vec::new();
    examples.push(RuleExample { label: "Reports", code: "export { Button } from './Button';" });
    examples.push(RuleExample { label: "Prefer", code: "import { Button } from './Button';" });
    let mut options: Vec<RuleOption> = Vec::new();
    options.push(severity_rule_option());
    let r = RuleDocumentation {
        name: "no-barrel-files",
        intent: "Avoid index.ts barrel files that hide import origins and public API shape.",
        examples,
        options,
        summarize: RuleSummary::NoBarrelFiles,
    };
    proof {
        assert(r@.examples =~= no_barrel_files_doc().examples);
        assert(r@.options =~= no_barrel_files_doc().options);
    }
    r
}

/// The documentation of `no-comments`.
pub open spec fn no_comments_doc() -> DocView {
    DocView {
        name: "no-comments"@,
        intent: "Discourage implementation comments that duplicate code instead of improving names."@,
        examples: seq![("Reports"@, "// increment count\ncount += 1;"@), ("Prefer"@, "Use clearer names or extract a function."@)],
        options: seq![severity_option(), ("allow-doc-comments"@, "Whether documentation comments are allowed."@)],
        summarize: RuleSummary::NoComments,
    }
}

fn no_comments_documentation() -> (r: RuleDocumentation)
    ensures
        r@ == no_comments_doc(),
{
    let mut examples: Vec<RuleExample> = Vec::new();
    examples.push(RuleExample { label: "Reports", code: "// increment count\ncount += 1;" });
    examples.push(RuleExample { label: "Prefer", code: "Use clearer names or extract a function." });
    let mut options: Vec<RuleOption> = Vec::new();
    options.push(severity_rule_option());
    options.push(RuleOption { name: "allow-doc-comments", description: "Whether documentation comments are allowed." });
    let r = RuleDocumentation {
        name: "no-comments",
        intent: "Discourage implementation comments that duplicate code instead of improving names.",
        examples,
        options,
        summarize: RuleSummary::NoComments,
    };
    proof {
        assert(r@.examples =~= no_comments_doc().examples);
        assert(r@.options =~= no_comments_doc().options);
    }
    r
}

/// The documentation of `no-console`.
pub open spec fn no_console_doc() -> DocView {
    DocView {
        name: "no-console"@,
        intent: "Keep debugging output out of application code except in explicitly allowed files."@,
        examples: seq![("Reports"@, "console.log(user);"@), ("Prefer"@, "Use the project's logger or remove the debug statement."@)],
        options: seq![severity_option(), ("allow-patterns"@, "Path substrings that may contain console statements."@)],
        summarize: RuleSummary::NoConsole,
    }
}

fn no_console_documentation() -> (r: RuleDocumentation)
    ensures
        r@ == no_console_doc(),
{
    let mut examples: Vec<RuleExample> = Vec::new();
    examples.push(RuleExample { label: "Reports", code: "console.log(user);" });
    examples.push(RuleExample { label: "Prefer", code: "Use the project's logger or remove the debug statement." });
    let mut options: Vec<RuleOption> = Vec::new();
    options.push(severity_rule_option());
    options.push(RuleOption { name: "allow-patterns", description: "Path substrings that may contain console statements." });
    let r = RuleDocumentation {
        name: "no-console",
        intent: "Keep debugging output out of application code except in explicitly allowed files.",
        examples,
        options,
        summarize: RuleSummary::NoConsole,
    };
    proof {
        assert(r@.examples =~= no_console_doc().examples);
        assert(r@.options =~= no_console_doc().options);
    }
    r
}

/// The documentation of `no-side-effect-imports`.
pub open spec fn no_side_effect_imports_doc() -> DocView {
    DocView {
        name: "no-side-effect-imports"@,
        intent: "Disallow bare side-effect imports such as `import \"./styles.css\"`; prefer importing named bindings or types."@,
        examples: seq![("Reports"@, "import \"./styles.css\";"@), ("Prefer"@, "import { styles } from \"./styles\";"@)],
        options: seq![severity_option()],
        summarize: RuleSummary::NoSideEffectImports,
    }
}

fn no_side_effect_imports_documentation() -> (r: RuleDocumentation)
    ensures
        r@ == no_side_effect_imports_doc(),
{
    let mut examples: Vec<RuleExample> = Vec::new();
    examples.push(RuleExample { label: "Reports", code: "import \"./styles.css\";" });
    examples.push(RuleExample { label: "Prefer", code: "import { styles } from \"./styles\";" });
    let mut options: Vec<RuleOption> = Vec::new();
    options.push(severity_rule_option());
    let r = RuleDocumentation {
        name: "no-side-effect-imports",
        intent: "Disallow bare side-effect imports such as `import \"./styles.css\"`; prefer importing named bindings or types.",
        examples,
        options,
        summarize: RuleSummary::NoSideEffectImports,
    };
    proof {
        assert(r@.examples =~= no_side_effect_imports_doc().examples);
        assert(r@.options =~= no_side_effect_imports_doc().options);
    }
    r
}

/// The documentation of `sort-imports`.
pub open spec fn sort_imports_doc() -> DocView {
    DocView {
        name: "sort-imports"@,
        intent: "Enforce consistent import ordering by module specifier. Groups separated by blank lines are sorted independently."@,
        examples: seq![("Reports"@, "import c from \"c\";\nimport a from \"a\";\nimport b from \"b\";"@), ("Prefer"@, "import a from \"a\";\nimport b from \"b\";\nimport c from \"c\";"@)],
        options: seq![severity_option()],
        summarize: RuleSummary::SortImports,
    }
}

fn sort_imports_documentation() -> (r: RuleDocumentation)
    ensures
        r@ == sort_imports_doc(),
{
    let mut examples: Vec<RuleExample> = Vec::new();
    examples.push(RuleExample { label: "Reports", code: "import c from \"c\";\nimport a from \"a\";\nimport b from \"b\";" });
    examples.push(RuleExample { label: "Prefer", code: "import a from \"a\";\nimport b from \"b\";\nimport c from \"c\";" });
    let mut options: Vec<RuleOption> = Vec::new();
    options.push(severity_rule_option());
    let r = RuleDocumentation {
        name: "sort-imports",
        intent: "Enforce consistent import ordering by module specifier. Groups separated by blank lines are sorted independently.",
        examples,
        options,
        summarize: RuleSummary::SortImports,
    };
    proof {
        assert(r@.examples =~= sort_imports_doc().examples);
        assert(r@.options =~= sort_imports_doc().options);
    }
    r
}

/// The documentation of `no-debugger`.
pub open spec fn no_debugger_doc() -> DocView {
    DocView {
        name: "no-debugger"@,
        intent: "Prevent committed debugger statements from stopping runtime execution."@,
        examples: seq![("Reports"@, "debugger;"@), ("Prefer"@, "Remove the statement before committing."@)],
        options: seq![severity_option()],
        summarize: RuleSummary::NoDebugger,
    }
}

fn no_debugger_documentation() -> (r: RuleDocumentation)
    ensures
        r@ == no_debugger_doc(),
{
    let mut examples: Vec<RuleExample> = Vec::new();
    examples.push(RuleExample { label: "Reports", code: "debugger;" });
    examples.push(RuleExample { label: "Prefer", code: "Remove the statement before committing." });
    let mut options: Vec<RuleOption> = Vec::new();
    options.push(severity_rule_option());
    let r = RuleDocumentation {
        name: "no-debugger",
        intent: "Prevent committed debugger statements from stopping runtime execution.",
        examples,
        options,
        summarize: RuleSummary::NoDebugger,
    };
    proof {
        assert(r@.examples =~= no_debugger_doc().examples);
        assert(r@.options =~= no_debugger_doc().options);
    }
    r
}

/// The documentation of `no-default-export`.
pub open spec fn no_default_export_doc() -> DocView {
    DocView {
        name: "no-default-export"@,
        intent: "Prefer named exports so imports stay explicit and refactors are safer. When components-only is set, only component files are checked."@,
        examples: seq![("Reports"@, "export default function Button() {}"@), ("Prefer"@, "export function Button() {}"@)],
        options: seq![severity_option(), ("components-only"@, "When true, only enforce named exports in component files."@), ("project.structure.components"@, "Folders and file suffixes that identify component files (used when components-only is true)."@)],
        summarize: RuleSummary::NoDefaultExport,
    }
}

fn no_default_export_documentation() -> (r: RuleDocumentation)
    ensures
        r@ == no_default_export_doc(),
{
    let mut examples: Vec<RuleExample> = Vec::new();
    examples.push(RuleExample { label: "Reports", code: "export default function Button() {}" });
    examples.push(RuleExample { label: "Prefer", code: "export function Button() {}" });
    let mut options: Vec<RuleOption> = Vec::new();
    options.push(severity_rule_option());
    options.push(RuleOption { name: "components-only", description: "When true, only enforce named exports in component files." });
    options.push(RuleOption { name: "project.structure.components", description: "Folders and file suffixes that identify component files (used when components-only is true)." });
    let r = RuleDocumentation {
        name: "no-default-export",
        intent: "Prefer named exports so imports stay explicit and refactors are safer. When components-only is set, only component files are checked.",
        examples,
        options,
        summarize: RuleSummary::NoDefaultExport,
    };
    proof {
        assert(r@.examples =~= no_default_export_doc().examples);
        assert(r@.options =~= no_default_export_doc().options);
    }
    r
}

/// The documentation of `no-duplicate-file-names`.
pub open spec fn no_duplicate_file_names_doc() -> DocView {
    DocView {
        name: "no-duplicate-file-names"@,
        intent: "Avoid repeated file names that make stack traces and editor tabs ambiguous."@,
        examples: seq![("Reports"@, "features/user/Form.tsx and features/team/Form.tsx"@), ("Prefer"@, "UserForm.tsx and TeamForm.tsx"@)],
        options: seq![severity_option(), ("ignore-names"@, "File names allowed to repeat."@)],
        summarize: RuleSummary::NoDuplicateFileNames,
    }
}

fn no_duplicate_file_names_documentation() -> (r: RuleDocumentation)
    ensures
        r@ == no_duplicate_file_names_doc(),
{
    let mut examples: Vec<RuleExample> = Vec::new();
    examples.push(RuleExample { label: "Reports", code: "features/user/Form.tsx and features/team/Form.tsx" });
    examples.push(RuleExample { label: "Prefer", code: "UserForm.tsx and TeamForm.tsx" });
    let mut options: Vec<RuleOption> = Vec::new();
    options.push(severity_rule_option());
    options.push(RuleOption { name: "ignore-names", description: "File names allowed to repeat." });
    let r = RuleDocumentation {
        name: "no-duplicate-file-names",
        intent: "Avoid repeated file names that make stack traces and editor tabs ambiguous.",
        examples,
        options,
        summarize: RuleSummary::NoDuplicateFileNames,
    };
    proof {
        assert(r@.examples =~= no_duplicate_file_names_doc().examples);
        assert(r@.options =~= no_duplicate_file_names_doc().options);
    }
    r
}

/// The documentation of `no-dump-files`.
pub open spec fn no_dump_files_doc() -> DocView {
    DocView {
        name: "no-dump-files"@,
        intent: "Disallow generic file names like utils.ts, helpers.ts, and types.ts that become dumping grounds for unrelated code."@,
        examples: seq![("Reports"@, "utils.ts, helpers.ts, types.ts"@), ("Prefer"@, "authUtils.ts, dateHelpers.ts, userTypes.ts"@)],
        options: seq![severity_option(), ("extra-names"@, "Additional file stems to forbid (beyond utils, helpers, types)."@)],
        summarize: RuleSummary::NoDumpFiles,
    }
}

fn no_dump_files_documentation() -> (r: RuleDocumentation)
    ensures
        r@ == no_dump_files_doc(),
{
    let mut examples: Vec<RuleExample> = Vec::new();
    examples.push(RuleExample { label: "Reports", code: "utils.ts, helpers.ts, types.ts" });
    examples.push(RuleExample { label: "Prefer", code: "authUtils.ts, dateHelpers.ts, userTypes.ts" });
    let mut options: Vec<RuleOption> = Vec::new();
    options.push(severity_rule_option());
    options.push(RuleOption { name: "extra-names", description: "Additional file stems to forbid (beyond utils, helpers, types)." });
    let r = RuleDocumentation {
        name: "no-dump-files",
        intent: "Disallow generic file names like utils.ts, helpers.ts, and types.ts that become dumping grounds for unrelated code.",
        examples,
        options,
        summarize: RuleSummary::NoDumpFiles,
    };
    proof {
        assert(r@.examples =~= no_dump_files_doc().examples);
        assert(r@.options =~= no_dump_files_doc().options);
    }
    r
}

/// The documentation of `no-empty-directories`.
pub open spec fn no_empty_directories_doc() -> DocView {
    DocView {
        name: "no-empty-directories"@,
        intent: "Remove directories that no longer contain source files or useful modules."@,
        examples: seq![("Reports"@, "src/legacy/ with no source files"@), ("Prefer"@, "Delete the directory or move useful files into it."@)],
        options: seq![severity_option(), ("ignore-dirs"@, "Directory names to skip."@)],
        summarize: RuleSummary::NoEmptyDirectories,
    }
}

fn no_empty_directories_documentation() -> (r: RuleDocumentation)
    ensures
        r@ == no_empty_directories_doc(),
{
    let mut examples: Vec<RuleExample> = Vec::new();
    examples.push(RuleExample { label: "Reports", code: "src/legacy/ with no source files" });
    examples.push(RuleExample { label: "Prefer", code: "Delete the directory or move useful files into it." });
    let mut options: Vec<RuleOption> = Vec::new();
    options.push(severity_rule_option());
    options.push(RuleOption { name: "ignore-dirs", description: "Directory names to skip." });
    let r = RuleDocumentation {
        name: "no-empty-directories",
        intent: "Remove directories that no longer contain source files or useful modules.",
        examples,
        options,
        summarize: RuleSummary::NoEmptyDirectories,
    };
    proof {
        assert(r@.examples =~= no_empty_directories_doc().examples);
        assert(r@.options =~= no_empty_directories_doc().options);
    }
    r
}

/// The documentation of `directory-must-have-barrel`.
pub open spec fn directory_must_have_barrel_doc() -> DocView {
    DocView {
        name: "directory-must-have-barrel"@,
        intent: "Non-leaf directories should provide a single import surface via an index.ts barrel."@,
        examples: seq![("Reports"@, "src/features/billing/components/Card.tsx with no src/features/billing/index.ts"@), ("Prefer"@, "src/features/billing/index.ts"@)],
        options: seq![severity_option()],
        summarize: RuleSummary::DirectoryMustHaveBarrel,
    }
}

fn directory_must_have_barrel_documentation() -> (r: RuleDocumentation)
    ensures
        r@ == directory_must_have_barrel_doc(),
{
    let mut examples: Vec<RuleExample> = Vec::new();
    examples.push(RuleExample { label: "Reports", code: "src/features/billing/components/Card.tsx with no src/features/billing/index.ts" });
    examples.push(RuleExample { label: "Prefer", code: "src/features/billing/index.ts" });
    let mut options: Vec<RuleOption> = Vec::new();
    options.push(severity_rule_option());
    let r = RuleDocumentation {
        name: "directory-must-have-barrel",
        intent: "Non-leaf directories should provide a single import surface via an index.ts barrel.",
        examples,
        options,
        summarize: RuleSummary::DirectoryMustHaveBarrel,
    };
    proof {
        assert(r@.examples =~= directory_must_have_barrel_doc().examples);
        assert(r@.options =~= directory_must_have_barrel_doc().options);
    }
    r
}

/// The documentation of `no-empty-interface`.
pub open spec fn no_empty_interface_doc() -> DocView {
    DocView {
        name: "no-empty-interface"@,
        intent: "Avoid empty interfaces that add names without structure."@,
        examples: seq![("Reports"@, "interface Props {}"@), ("Prefer"@, "type Props = Record<string, never>;"@)],
        options: seq![severity_option()],
        summarize: RuleSummary::NoEmptyInterface,
    }
}

fn no_empty_interface_documentation() -> (r: RuleDocumentation)
    ensures
        r@ == no_empty_interface_doc(),
{
    let mut examples: Vec<RuleExample> = Vec::new();
    examples.push(RuleExample { label: "Reports", code: "interface Props {}" });
    examples.push(RuleExample { label: "Prefer", code: "type Props = Record<string, never>;" });
    let mut options: Vec<RuleOption> = Vec::new();
    options.push(severity_rule_option());
    let r = RuleDocumentation {
        name: "no-empty-interface",
        intent: "Avoid empty interfaces that add names without structure.",
        examples,
        options,
        summarize: RuleSummary::NoEmptyInterface,
    };
    proof {
        assert(r@.examples =~= no_empty_interface_doc().examples);
        assert(r@.options =~= no_empty_interface_doc().options);
    }
    r
}

/// The documentation of `no-enums`.
pub open spec fn no_enums_doc() -> DocView {
    DocView {
        name: "no-enums"@,
        intent: "Prefer union types or const objects over TypeScript enums."@,
        examples: seq![("Reports"@, "enum Status { Open = 'open' }"@), ("Prefer"@, "const STATUS = { Open: 'open' } as const;"@)],
        options: seq![severity_option()],
        summarize: RuleSummary::NoEnums,
    }
}

fn no_enums_documentation() -> (r: RuleDocumentation)
    ensures
        r@ == no_enums_doc(),
{
    let mut examples: Vec<RuleExample> = Vec::new();
    examples.push(RuleExample { label: "Reports", code: "enum Status { Open = 'open' }" });
    examples.push(RuleExample { label: "Prefer", code: "const STATUS = { Open: 'open' } as const;" });
    let mut options: Vec<RuleOption> = Vec::new();
    options.push(severity_rule_option());
    let r = RuleDocumentation {
        name: "no-enums",
        intent: "Prefer union types or const objects over TypeScript enums.",
        examples,
        options,
        summarize: RuleSummary::NoEnums,
    };
    proof {
        assert(r@.examples =~= no_enums_doc().examples);
        assert(r@.options =~= no_enums_doc().options);
    }
    r
}

/// The documentation of `no-eval`.
pub open spec fn no_eval_doc() -> DocView {
    DocView {
        name: "no-eval"@,
        intent: "Block dynamic code execution through eval() and new Function()."@,
        examples: seq![("Reports"@, "eval(source);"@), ("Prefer"@, "Use a typed parser or explicit dispatch table."@)],
        options: seq![severity_option()],
        summarize: RuleSummary::NoEval,
    }
}

fn no_eval_documentation() -> (r: RuleDocumentation)
    ensures
        r@ == no_eval_doc(),
{
    let mut examples: Vec<RuleExample> = Vec::new();
    examples.push(RuleExample { label: "Reports", code: "eval(source);" });
    examples.push(RuleExample { label: "Prefer", code: "Use a typed parser or explicit dispatch table." });
    let mut options: Vec<RuleOption> = Vec::new();
    options.push(severity_rule_option());
    let r = RuleDocumentation {
        name: "no-eval",
        intent: "Block dynamic code execution through eval() and new Function().",
        examples,
        options,
        summarize: RuleSummary::NoEval,
    };
    proof {
        assert(r@.examples =~= no_eval_doc().examples);
        assert(r@.options =~= no_eval_doc().options);
    }
    r
}

/// The documentation of `no-export-star`.
pub open spec fn no_export_star_doc() -> DocView {
    DocView {
        name: "no-export-star"@,
        intent: "Make re-exported APIs explicit instead of hiding them behind export *."@,
        examples: seq![("Reports"@, "export * from './Button';"@), ("Prefer"@, "export { Button } from './Button';"@)],
        options: seq![severity_option()],
        summarize: RuleSummary::NoExportStar,
    }
}

fn no_export_star_documentation() -> (r: RuleDocumentation)
    ensures
        r@ == no_export_star_doc(),
{
    let mut examples: Vec<RuleExample> = Vec::new();
    examples.push(RuleExample { label: "Reports", code: "export * from './Button';" });
    examples.push(RuleExample { label: "Prefer", code: "export { Button } from './Button';" });
    let mut options: Vec<RuleOption> = Vec::new();
    options.push(severity_rule_option());
    let r = RuleDocumentation {
        name: "no-export-star",
        intent: "Make re-exported APIs explicit instead of hiding them behind export *.",
        examples,
        options,
        summarize: RuleSummary::NoExportStar,
    };
    proof {
        assert(r@.examples =~= no_export_star_doc().examples);
        assert(r@.options =~= no_export_star_doc().options);
    }
    r
}

/// The documentation of `no-focused-test`.
pub open spec fn no_focused_test_doc() -> DocView {
    DocView {
        name: "no-focused-test"@,
        intent: "Disallow focused test helpers (describe.only, it.only, test.only) that skip the rest of the suite."@,
        examples: seq![("Reports"@, "describe.only('auth', () => { it.only('logs in', () => {}); });"@), ("Prefer"@, "describe('auth', () => { it('logs in', () => {}); });"@)],
        options: seq![severity_option()],
        summarize: RuleSummary::NoFocusedTest,
    }
}

fn no_focused_test_documentation() -> (r: RuleDocumentation)
    ensures
        r@ == no_focused_test_doc(),
{
    let mut examples: Vec<RuleExample> = Vec::new();
    examples.push(RuleExample { label: "Reports", code: "describe.only('auth', () => { it.only('logs in', () => {}); });" });
    examples.push(RuleExample { label: "Prefer", code: "describe('auth', () => { it('logs in', () => {}); });" });
    let mut options: Vec<RuleOption> = Vec::new();
    options.push(severity_rule_option());
    let r = RuleDocumentation {
        name: "no-focused-test",
        intent: "Disallow focused test helpers (describe.only, it.only, test.only) that skip the rest of the suite.",
        examples,
        options,
        summarize: RuleSummary::NoFocusedTest,
    };
    proof {
        assert(r@.examples =~= no_focused_test_doc().examples);
        assert(r@.options =~= no_focused_test_doc().options);
    }
    r
}

/// The documentation of `no-inline-types`.
pub open spec fn no_inline_types_doc() -> DocView {
    DocView {
        name: "no-inline-types"@,
        intent: "Keep exported contracts in colocated type files or accepted type folders."@,
        examples: seq![("Reports"@, "export type User = { id: string }; // in Component.tsx"@), ("Prefer"@, "Move exported contracts to Component.type.ts or a types folder."@)],
        options: seq![severity_option(), ("project.structure.types"@, "Folders and file suffixes that identify type files. Declaration files (.d.ts) are always allowed."@)],
        summarize: RuleSummary::NoInlineTypes,
    }
}

fn no_inline_types_documentation() -> (r: RuleDocumentation)
    ensures
        r@ == no_inline_types_doc(),
{
    let mut examples: Vec<RuleExample> = Vec::new();
    examples.push(RuleExample { label: "Reports", code: "export type User = { id: string }; // in Component.tsx" });
    examples.push(RuleExample { label: "Prefer", code: "Move exported contracts to Component.type.ts or a types folder." });
    let mut options: Vec<RuleOption> = Vec::new();
    options.push(severity_rule_option());
    options.push(RuleOption { name: "project.structure.types", description: "Folders and file suffixes that identify type files. Declaration files (.d.ts) are always allowed." });
    let r = RuleDocumentation {
        name: "no-inline-types",
        intent: "Keep exported contracts in colocated type files or accepted type folders.",
        examples,
        options,
        summarize: RuleSummary::NoInlineTypes,
    };
    proof {
        assert(r@.examples =~= no_inline_types_doc().examples);
        assert(r@.options =~= no_inline_types_doc().options);
    }
    r
}

/// The documentation of `no-interface`.
pub open spec fn no_interface_doc() -> DocView {
    DocView {
        name: "no-interface"@,
        intent: "Prefer type aliases unless interface declaration merging is intentional."@,
        examples: seq![("Reports"@, "interface User { id: string }"@), ("Prefer"@, "type User = { id: string };"@)],
        options: seq![severity_option(), ("allow-declaration-merging"@, "Whether repeated interface declarations are allowed."@)],
        summarize: RuleSummary::NoInterface,
    }
}

fn no_interface_documentation() -> (r: RuleDocumentation)
    ensures
        r@ == no_interface_doc(),
{
    let mut examples: Vec<RuleExample> = Vec::new();
    examples.push(RuleExample { label: "Reports", code: "interface User { id: string }" });
    examples.push(RuleExample { label: "Prefer", code: "type User = { id: string };" });
    let mut options: Vec<RuleOption> = Vec::new();
    options.push(severity_rule_option());
    options.push(RuleOption { name: "allow-declaration-merging", description: "Whether repeated interface declarations are allowed." });
    let r = RuleDocumentation {
        name: "no-interface",
        intent: "Prefer type aliases unless interface declaration merging is intentional.",
        examples,
        options,
        summarize: RuleSummary::NoInterface,
    };
    proof {
        assert(r@.examples =~= no_interface_doc().examples);
        assert(r@.options =~= no_interface_doc().options);
    }
    r
}

/// The documentation of `no-large-file`.
pub open spec fn no_large_file_doc() -> DocView {
    DocView {
        name: "no-large-file"@,
        intent: "Keep files small enough to review and change without broad context."@,
        examples: seq![("Reports"@, "A file with more lines than max-lines."@), ("Prefer"@, "Split by responsibility into focused modules."@)],
        options: seq![severity_option(), ("max-lines"@, "Maximum number of lines allowed in one file."@)],
        summarize: RuleSummary::NoLargeFile,
    }
}

fn no_large_file_documentation() -> (r: RuleDocumentation)
    ensures
        r@ == no_large_file_doc(),
{
    let mut examples: Vec<RuleExample> = Vec::new();
    examples.push(RuleExample { label: "Reports", code: "A file with more lines than max-lines." });
    examples.push(RuleExample { label: "Prefer", code: "Split by responsibility into focused modules." });
    let mut options: Vec<RuleOption> = Vec::new();
    options.push(severity_rule_option());
    options.push(RuleOption { name: "max-lines", description: "Maximum number of lines allowed in one file." });
    let r = RuleDocumentation {
        name: "no-large-file",
        intent: "Keep files small enough to review and change without broad context.",
        examples,
        options,
        summarize: RuleSummary::NoLargeFile,
    };
    proof {
        assert(r@.examples =~= no_large_file_doc().examples);
        assert(r@.options =~= no_large_file_doc().options);
    }
    r
}

/// The documentation of `no-logic-in-barrel`.
pub open spec fn no_logic_in_barrel_doc() -> DocView {
    DocView {
        name: "no-logic-in-barrel"@,
        intent: "Keep index.ts barrel files limited to import/export forwarding."@,
        examples: seq![("Reports"@, "const value = compute(); export { value };"@), ("Prefer"@, "export { value } from './value';"@)],
        options: seq![severity_option()],
        summarize: RuleSummary::NoLogicInBarrel,
    }
}

fn no_logic_in_barrel_documentation() -> (r: RuleDocumentation)
    ensures
        r@ == no_logic_in_barrel_doc(),
{
    let mut examples: Vec<RuleExample> = Vec::new();
    examples.push(RuleExample { label: "Reports", code: "const value = compute(); export { value };" });
    examples.push(RuleExample { label: "Prefer", code: "export { value } from './value';" });
    let mut options: Vec<RuleOption> = Vec::new();
    options.push(severity_rule_option());
    let r = RuleDocumentation {
        name: "no-logic-in-barrel",
        intent: "Keep index.ts barrel files limited to import/export forwarding.",
        examples,
        options,
        summarize: RuleSummary::NoLogicInBarrel,
    };
    proof {
        assert(r@.examples =~= no_logic_in_barrel_doc().examples);
        assert(r@.options =~= no_logic_in_barrel_doc().options);
    }
    r
}

/// The documentation of `no-logic-in-domain`.
pub open spec fn no_logic_in_domain_doc() -> DocView {
    DocView {
        name: "no-logic-in-domain"@,
        intent: "Keep domain type and constant files free of runtime implementation logic."@,
        examples: seq![("Reports"@, "export function buildUser() {} // in user.type.ts"@), ("Prefer"@, "Move implementation to a feature, service, or model module."@)],
        options: seq![severity_option(), ("project.structure.types"@, "Folders and file suffixes that identify type domain files."@), ("project.structure.constants"@, "Folders and file suffixes that identify constants domain files."@)],
        summarize: RuleSummary::NoLogicInDomain,
    }
}

fn no_logic_in_domain_documentation() -> (r: RuleDocumentation)
    ensures
        r@ == no_logic_in_domain_doc(),
{
    let mut examples: Vec<RuleExample> = Vec::new();
    examples.push(RuleExample { label: "Reports", code: "export function buildUser() {} // in user.type.ts" });
    examples.push(RuleExample { label: "Prefer", code: "Move implementation to a feature, service, or model module." });
    let mut options: Vec<RuleOption> = Vec::new();
    options.push(severity_rule_option());
    options.push(RuleOption { name: "project.structure.types", description: "Folders and file suffixes that identify type domain files." });
    options.push(RuleOption { name: "project.structure.constants", description: "Folders and file suffixes that identify constants domain files." });
    let r = RuleDocumentation {
        name: "no-logic-in-domain",
        intent: "Keep domain type and constant files free of runtime implementation logic.",
        examples,
        options,
        summarize: RuleSummary::NoLogicInDomain,
    };
    proof {
        assert(r@.examples =~= no_logic_in_domain_doc().examples);
        assert(r@.options =~= no_logic_in_domain_doc().options);
    }
    r
}

/// The documentation of `no-abbreviations`.
pub open spec fn no_abbreviations_doc() -> DocView {
    DocView {
        name: "no-abbreviations"@,
        intent: "Disallow abbreviated identifiers like btn, ctx, and mgr. Expanded names improve readability and self-document the code."@,
        examples: seq![("Reports"@, "const btn = document.querySelector('button');"@), ("Prefer"@, "const button = document.querySelector('button');"@)],
        options: seq![severity_option(), ("extra-abbreviations"@, "Additional abbreviations to flag beyond the defaults (btn, ctx, mgr)."@)],
        summarize: RuleSummary::NoAbbreviations,
    }
}

fn no_abbreviations_documentation() -> (r: RuleDocumentation)
    ensures
        r@ == no_abbreviations_doc(),
{
    let mut examples: Vec<RuleExample> = Vec::new();
    examples.push(RuleExample { label: "Reports", code: "const btn = document.querySelector('button');" });
    examples.push(RuleExample { label: "Prefer", code: "const button = document.querySelector('button');" });
    let mut options: Vec<RuleOption> = Vec::new();
    options.push(severity_rule_option());
    options.push(RuleOption { name: "extra-abbreviations", description: "Additional abbreviations to flag beyond the defaults (btn, ctx, mgr)." });
    let r = RuleDocumentation {
        name: "no-abbreviations",
        intent: "Disallow abbreviated identifiers like btn, ctx, and mgr. Expanded names improve readability and self-document the code.",
        examples,
        options,
        summarize: RuleSummary::NoAbbreviations,
    };
    proof {
        assert(r@.examples =~= no_abbreviations_doc().examples);
        assert(r@.options =~= no_abbreviations_doc().options);
    }
    r
}

/// The documentation of `no-restricted-imports`.
pub open spec fn no_restricted_imports_doc() -> DocView {
    DocView {
        name: "no-restricted-imports"@,
        intent: "Block imports from a configurable deny-list of packages or paths."@,
        examples: seq![("Reports"@, "import { merge } from 'lodash'; // when lodash is restricted"@), ("Prefer"@, "import merge from './utils/merge';"@)],
        options: seq![severity_option(), ("restricted"@, "List of package names or path prefixes to block."@)],
        summarize: RuleSummary::NoRestrictedImports,
    }
}

fn no_restricted_imports_documentation() -> (r: RuleDocumentation)
    ensures
        r@ == no_restricted_imports_doc(),
{
    let mut examples: Vec<RuleExample> = Vec::new();
    examples.push(RuleExample { label: "Reports", code: "import { merge } from 'lodash'; // when lodash is restricted" });
    examples.push(RuleExample { label: "Prefer", code: "import merge from './utils/merge';" });
    let mut options: Vec<RuleOption> = Vec::new();
    options.push(severity_rule_option());
    options.push(RuleOption { name: "restricted", description: "List of package names or path prefixes to block." });
    let r = RuleDocumentation {
        name: "no-restricted-imports",
        intent: "Block imports from a configurable deny-list of packages or paths.",
        examples,
        options,
        summarize: RuleSummary::NoRestrictedImports,
    };
    proof {
        assert(r@.examples =~= no_restricted_imports_doc().examples);
        assert(r@.options =~= no_restricted_imports_doc().options);
    }
    r
}

/// The documentation of `no-mutable-exports`.
pub open spec fn no_mutable_exports_doc() -> DocView {
    DocView {
        name: "no-mutable-exports"@,
        intent: "Avoid exported mutable bindings that make module state unpredictable."@,
        examples: seq![("Reports"@, "export let currentUser = null;"@), ("Prefer"@, "export const getCurrentUser = () => currentUser;"@)],
        options: seq![severity_option()],
        summarize: RuleSummary::NoMutableExports,
    }
}

fn no_mutable_exports_documentation() -> (r: RuleDocumentation)
    ensures
        r@ == no_mutable_exports_doc(),
{
    let mut examples: Vec<RuleExample> = Vec::new();
    examples.push(RuleExample { label: "Reports", code: "export let currentUser = null;" });
    examples.push(RuleExample { label: "Prefer", code: "export const getCurrentUser = () => currentUser;" });
    let mut options: Vec<RuleOption> = Vec::new();
    options.push(severity_rule_option());
    let r = RuleDocumentation {
        name: "no-mutable-exports",
        intent: "Avoid exported mutable bindings that make module state unpredictable.",
        examples,
        options,
        summarize: RuleSummary::NoMutableExports,
    };
    proof {
        assert(r@.examples =~= no_mutable_exports_doc().examples);
        assert(r@.options =~= no_mutable_exports_doc().options);
    }
    r
}

/// The documentation of `sort-exports`.
pub open spec fn sort_exports_doc() -> DocView {
    DocView {
        name: "sort-exports"@,
        intent: "Enforce consistent export ordering by exported name. Default exports sort first. Groups separated by blank lines are sorted independently."@,
        examples: seq![("Reports"@, "export const c = 1;\nexport const a = 2;\nexport const b = 3;"@), ("Prefer"@, "export const a = 2;\nexport const b = 3;\nexport const c = 1;"@)],
        options: seq![severity_option()],
        summarize: RuleSummary::SortExports,
    }
}

fn sort_exports_documentation() -> (r: RuleDocumentation)
    ensures
        r@ == sort_exports_doc(),
{
    let mut examples: Vec<RuleExample> = Vec::new();
    examples.push(RuleExample { label: "Reports", code: "export const c = 1;\nexport const a = 2;\nexport const b = 3;" });
    examples.push(RuleExample { label: "Prefer", code: "export const a = 2;\nexport const b = 3;\nexport const c = 1;" });
    let mut options: Vec<RuleOption> = Vec::new();
    options.push(severity_rule_option());
    let r = RuleDocumentation {
        name: "sort-exports",
        intent: "Enforce consistent export ordering by exported name. Default exports sort first. Groups separated by blank lines are sorted independently.",
        examples,
        options,
        summarize: RuleSummary::SortExports,
    };
    proof {
        assert(r@.examples =~= sort_exports_doc().examples);
        assert(r@.options =~= sort_exports_doc().options);
    }
    r
}

/// The documentation of `no-nested-functions`.
pub open spec fn no_nested_functions_doc() -> DocView {
    DocView {
        name: "no-nested-functions"@,
        intent: "Disallow functions defined inside other functions beyond a configured nesting depth."@,
        examples: seq![("Reports"@, "function outer() { function middle() { function inner() {} } }"@), ("Prefer"@, "function inner() {} function middle() { inner(); } function outer() { middle(); }"@)],
        options: seq![severity_option(), ("max-depth"@, "Maximum allowed function nesting depth. Default is 2."@), ("contexts"@, "Which function-like constructs count as nesting levels. Each context represents a construct type: 'function', 'arrow', 'class-method', 'object-method'. Exclude a context to allow its construct without contributing to nesting depth. Default is all four."@)],
        summarize: RuleSummary::NoNestedFunctions,
    }
}

fn no_nested_functions_documentation() -> (r: RuleDocumentation)
    ensures
        r@ == no_nested_functions_doc(),
{
    let mut examples: Vec<RuleExample> = Vec::new();
    examples.push(RuleExample { label: "Reports", code: "function outer() { function middle() { function inner() {} } }" });
    examples.push(RuleExample { label: "Prefer", code: "function inner() {} function middle() { inner(); } function outer() { middle(); }" });
    let mut options: Vec<RuleOption> = Vec::new();
    options.push(severity_rule_option());
    options.push(RuleOption { name: "max-depth", description: "Maximum allowed function nesting depth. Default is 2." });
    options.push(RuleOption { name: "contexts", description: "Which function-like constructs count as nesting levels. Each context represents a construct type: 'function', 'arrow', 'class-method', 'object-method'. Exclude a context to allow its construct without contributing to nesting depth. Default is all four." });
    let r = RuleDocumentation {
        name: "no-nested-functions",
        intent: "Disallow functions defined inside other functions beyond a configured nesting depth.",
        examples,
        options,
        summarize: RuleSummary::NoNestedFunctions,
    };
    proof {
        assert(r@.examples =~= no_nested_functions_doc().examples);
        assert(r@.options =~= no_nested_functions_doc().options);
    }
    r
}

/// The documentation of `no-orphan-files`.
pub open spec fn no_orphan_files_doc() -> DocView {
    DocView {
        name: "no-orphan-files"@,
        intent: "Detect files not imported by any other file in the project, which may indicate dead code."@,
        examples: seq![("Reports"@, "// orphan.ts - not imported anywhere"@), ("Prefer"@, "Import the file from another module or mark it as an entry file."@)],
        options: seq![severity_option(), ("entry-files"@, "File stems that are expected entry points and not imported by other files. Defaults to main, app, layout, page."@)],
        summarize: RuleSummary::NoOrphanFiles,
    }
}

fn no_orphan_files_documentation() -> (r: RuleDocumentation)
    ensures
        r@ == no_orphan_files_doc(),
{
    let mut examples: Vec<RuleExample> = Vec::new();
    examples.push(RuleExample { label: "Reports", code: "// orphan.ts - not imported anywhere" });
    examples.push(RuleExample { label: "Prefer", code: "Import the file from another module or mark it as an entry file." });
    let mut options: Vec<RuleOption> = Vec::new();
    options.push(severity_rule_option());
    options.push(RuleOption { name: "entry-files", description: "File stems that are expected entry points and not imported by other files. Defaults to main, app, layout, page." });
    let r = RuleDocumentation {
        name: "no-orphan-files",
        intent: "Detect files not imported by any other file in the project, which may indicate dead code.",
        examples,
        options,
        summarize: RuleSummary::NoOrphanFiles,
    };
    proof {
        assert(r@.examples =~= no_orphan_files_doc().examples);
        assert(r@.options =~= no_orphan_files_doc().options);
    }
    r
}

/// The documentation of `no-package-cycle`.
pub open spec fn no_package_cycle_doc() -> DocView {
    DocView {
        name: "no-package-cycle"@,
        intent: "Detect circular dependencies between workspace packages that can cause initialization deadlocks."@,
        examples: seq![("Reports"@, "// packages/a imports packages/b imports packages/c imports packages/a"@), ("Prefer"@, "Break the cycle by extracting shared logic to a new package or merging the packages."@)],
        options: seq![severity_option()],
        summarize: RuleSummary::NoPackageCycle,
    }
}

fn no_package_cycle_documentation() -> (r: RuleDocumentation)
    ensures
        r@ == no_package_cycle_doc(),
{
    let mut examples: Vec<RuleExample> = Vec::new();
    examples.push(RuleExample { label: "Reports", code: "// packages/a imports packages/b imports packages/c imports packages/a" });
    examples.push(RuleExample { label: "Prefer", code: "Break the cycle by extracting shared logic to a new package or merging the packages." });
    let mut options: Vec<RuleOption> = Vec::new();
    options.push(severity_rule_option());
    let r = RuleDocumentation {
        name: "no-package-cycle",
        intent: "Detect circular dependencies between workspace packages that can cause initialization deadlocks.",
        examples,
        options,
        summarize: RuleSummary::NoPackageCycle,
    };
    proof {
        assert(r@.examples =~= no_package_cycle_doc().examples);
        assert(r@.options =~= no_package_cycle_doc().options);
    }
    r
}

/// The documentation of `no-private-package-import`.
pub open spec fn no_private_package_import_doc() -> DocView {
    DocView {
        name: "no-private-package-import"@,
        intent: "Prevent importing internal files from other packages. Only public exports should be consumed across packages."@,
        examples: seq![("Reports"@, "import { helper } from '@scope/admin/src/internal/utils';"@), ("Prefer"@, "import { helper } from '@scope/admin'; // use public exports only"@)],
        options: seq![severity_option()],
        summarize: RuleSummary::NoPrivatePackageImport,
    }
}

fn no_private_package_import_documentation() -> (r: RuleDocumentation)
    ensures
        r@ == no_private_package_import_doc(),
{
    let mut examples: Vec<RuleExample> = Vec::new();
    examples.push(RuleExample { label: "Reports", code: "import { helper } from '@scope/admin/src/internal/utils';" });
    examples.push(RuleExample { label: "Prefer", code: "import { helper } from '@scope/admin'; // use public exports only" });
    let mut options: Vec<RuleOption> = Vec::new();
    options.push(severity_rule_option());
    let r = RuleDocumentation {
        name: "no-private-package-import",
        intent: "Prevent importing internal files from other packages. Only public exports should be consumed across packages.",
        examples,
        options,
        summarize: RuleSummary::NoPrivatePackageImport,
    };
    proof {
        assert(r@.examples =~= no_private_package_import_doc().examples);
        assert(r@.options =~= no_private_package_import_doc().options);
    }
    r
}

/// The documentation of `no-namespace`.
pub open spec fn no_namespace_doc() -> DocView {
    DocView {
        name: "no-namespace"@,
        intent: "Prefer ES modules over TypeScript namespace declarations."@,
        examples: seq![("Reports"@, "namespace Utils { export function go() {} }"@), ("Prefer"@, "import { go } from './Utils';"@)],
        options: seq![severity_option()],
        summarize: RuleSummary::NoNamespace,
    }
}

fn no_namespace_documentation() -> (r: RuleDocumentation)
    ensures
        r@ == no_namespace_doc(),
{
    let mut examples: Vec<RuleExample> = Vec::new();
    examples.push(RuleExample { label: "Reports", code: "namespace Utils { export function go() {} }" });
    examples.push(RuleExample { label: "Prefer", code: "import { go } from './Utils';" });
    let mut options: Vec<RuleOption> = Vec::new();
    options.push(severity_rule_option());
    let r = RuleDocumentation {
        name: "no-namespace",
        intent: "Prefer ES modules over TypeScript namespace declarations.",
        examples,
        options,
        summarize: RuleSummary::NoNamespace,
    };
    proof {
        assert(r@.examples =~= no_namespace_doc().examples);
        assert(r@.options =~= no_namespace_doc().options);
    }
    r
}

/// The documentation of `no-silent-catch`.
pub open spec fn no_silent_catch_doc() -> DocView {
    DocView {
        name: "no-silent-catch"@,
        intent: "Require catch blocks to log the error, rethrow it, or return a typed fallback."@,
        examples: seq![("Reports"@, "try { doWork(); } catch (e) {}"@), ("Prefer"@, "try { doWork(); } catch (e) { console.error(e); return null; }"@)],
        options: seq![severity_option()],
        summarize: RuleSummary::NoSilentCatch,
    }
}

fn no_silent_catch_documentation() -> (r: RuleDocumentation)
    ensures
        r@ == no_silent_catch_doc(),
{
    let mut examples: Vec<RuleExample> = Vec::new();
    examples.push(RuleExample { label: "Reports", code: "try { doWork(); } catch (e) {}" });
    examples.push(RuleExample { label: "Prefer", code: "try { doWork(); } catch (e) { console.error(e); return null; }" });
    let mut options: Vec<RuleOption> = Vec::new();
    options.push(severity_rule_option());
    let r = RuleDocumentation {
        name: "no-silent-catch",
        intent: "Require catch blocks to log the error, rethrow it, or return a typed fallback.",
        examples,
        options,
        summarize: RuleSummary::NoSilentCatch,
    };
    proof {
        assert(r@.examples =~= no_silent_catch_doc().examples);
        assert(r@.options =~= no_silent_catch_doc().options);
    }
    r
}

/// The documentation of `no-skipped-test`.
pub open spec fn no_skipped_test_doc() -> DocView {
    DocView {
        name: "no-skipped-test"@,
        intent: "Disallow skipped test helpers (describe.skip, it.skip, test.skip) that silently bypass the test suite."@,
        examples: seq![("Reports"@, "describe.skip('auth', () => { it.skip('logs in', () => {}); });"@), ("Prefer"@, "describe('auth', () => { it('logs in', () => {}); });"@)],
        options: seq![severity_option()],
        summarize: RuleSummary::NoSkippedTest,
    }
}

fn no_skipped_test_documentation() -> (r: RuleDocumentation)
    ensures
        r@ == no_skipped_test_doc(),
{
    let mut examples: Vec<RuleExample> = Vec::new();
    examples.push(RuleExample { label: "Reports", code: "describe.skip('auth', () => { it.skip('logs in', () => {}); });" });
    examples.push(RuleExample { label: "Prefer", code: "describe('auth', () => { it('logs in', () => {}); });" });
    let mut options: Vec<RuleOption> = Vec::new();
    options.push(severity_rule_option());
    let r = RuleDocumentation {
        name: "no-skipped-test",
        intent: "Disallow skipped test helpers (describe.skip, it.skip, test.skip) that silently bypass the test suite.",
        examples,
        options,
        summarize: RuleSummary::NoSkippedTest,
    };
    proof {
        assert(r@.examples =~= no_skipped_test_doc().examples);
        assert(r@.options =~= no_skipped_test_doc().options);
    }
    r
}

/// The documentation of `no-test-code-in-production`.
pub open spec fn no_test_code_in_production_doc() -> DocView {
    DocView {
        name: "no-test-code-in-production"@,
        intent: "Disallow test code (describe, it, test, expect, and test library imports) outside test files."@,
        examples: seq![("Reports"@, "describe('auth', () => { it('works', () => { expect(true).toBe(true); }); }); // in src/auth.ts"@), ("Prefer"@, "Move test code to a test file (e.g. tests/auth.test.ts)."@)],
        options: seq![severity_option(), ("project.structure.tests"@, "Folders and file suffixes that identify test files."@)],
        summarize: RuleSummary::NoTestCodeInProduction,
    }
}

fn no_test_code_in_production_documentation() -> (r: RuleDocumentation)
    ensures
        r@ == no_test_code_in_production_doc(),
{
    let mut examples: Vec<RuleExample> = Vec::new();
    examples.push(RuleExample { label: "Reports", code: "describe('auth', () => { it('works', () => { expect(true).toBe(true); }); }); // in src/auth.ts" });
    examples.push(RuleExample { label: "Prefer", code: "Move test code to a test file (e.g. tests/auth.test.ts)." });
    let mut options: Vec<RuleOption> = Vec::new();
    options.push(severity_rule_option());
    options.push(RuleOption { name: "project.structure.tests", description: "Folders and file suffixes that identify test files." });
    let r = RuleDocumentation {
        name: "no-test-code-in-production",
        intent: "Disallow test code (describe, it, test, expect, and test library imports) outside test files.",
        examples,
        options,
        summarize: RuleSummary::NoTestCodeInProduction,
    };
    proof {
        assert(r@.examples =~= no_test_code_in_production_doc().examples);
        assert(r@.options =~= no_test_code_in_production_doc().options);
    }
    r
}

/// The documentation of `no-then-chain`.
pub open spec fn no_then_chain_doc() -> DocView {
    DocView {
        name: "no-then-chain"@,
        intent: "Prefer async/await over .then() chains for better readability and error handling."@,
        examples: seq![("Reports"@, "fetch('/api').then(res => res.json()).then(data => process(data));"@), ("Prefer"@, "const res = await fetch('/api');"@)],
        options: seq![severity_option(), ("allow-single"@, "When true, a single .then() call without chaining is not flagged (default: true)."@)],
        summarize: RuleSummary::NoThenChain,
    }
}

fn no_then_chain_documentation() -> (r: RuleDocumentation)
    ensures
        r@ == no_then_chain_doc(),
{
    let mut examples: Vec<RuleExample> = Vec::new();
    examples.push(RuleExample { label: "Reports", code: "fetch('/api').then(res => res.json()).then(data => process(data));" });
    examples.push(RuleExample { label: "Prefer", code: "const res = await fetch('/api');" });
    let mut options: Vec<RuleOption> = Vec::new();
    options.push(severity_rule_option());
    options.push(RuleOption { name: "allow-single", description: "When true, a single .then() call without chaining is not flagged (default: true)." });
    let r = RuleDocumentation {
        name: "no-then-chain",
        intent: "Prefer async/await over .then() chains for better readability and error handling.",
        examples,
        options,
        summarize: RuleSummary::NoThenChain,
    };
    proof {
        assert(r@.examples =~= no_then_chain_doc().examples);
        assert(r@.options =~= no_then_chain_doc().options);
    }
    r
}

/// The documentation of `no-upward-import`.
pub open spec fn no_upward_import_doc() -> DocView {
    DocView {
        name: "no-upward-import"@,
        intent: "Avoid fragile ../../ imports in favor of local or project-root imports."@,
        examples: seq![("Reports"@, "import { Button } from '../../components/Button';"@), ("Prefer"@, "import { Button } from '@/components/Button';"@)],
        options: seq![severity_option(), ("max-depth"@, "Number of upward ../ segments allowed before reporting."@)],
        summarize: RuleSummary::NoUpwardImport,
    }
}

fn no_upward_import_documentation() -> (r: RuleDocumentation)
    ensures
        r@ == no_upward_import_doc(),
{
    let mut examples: Vec<RuleExample> = Vec::new();
    examples.push(RuleExample { label: "Reports", code: "import { Button } from '../../components/Button';" });
    examples.push(RuleExample { label: "Prefer", code: "import { Button } from '@/components/Button';" });
    let mut options: Vec<RuleOption> = Vec::new();
    options.push(severity_rule_option());
    options.push(RuleOption { name: "max-depth", description: "Number of upward ../ segments allowed before reporting." });
    let r = RuleDocumentation {
        name: "no-upward-import",
        intent: "Avoid fragile ../../ imports in favor of local or project-root imports.",
        examples,
        options,
        summarize: RuleSummary::NoUpwardImport,
    };
    proof {
        assert(r@.examples =~= no_upward_import_doc().examples);
        assert(r@.options =~= no_upward_import_doc().options);
    }
    r
}

/// The documentation of `prefer-satisfies`.
pub open spec fn prefer_satisfies_doc() -> DocView {
    DocView {
        name: "prefer-satisfies"@,
        intent: "Prefer satisfies over as when validating a value against a type."@,
        examples: seq![("Reports"@, "const config = value as Config;"@), ("Prefer"@, "const config = value satisfies Config;"@)],
        options: seq![severity_option()],
        summarize: RuleSummary::PreferSatisfies,
    }
}

fn prefer_satisfies_documentation() -> (r: RuleDocumentation)
    ensures
        r@ == prefer_satisfies_doc(),
{
    let mut examples: Vec<RuleExample> = Vec::new();
    examples.push(RuleExample { label: "Reports", code: "const config = value as Config;" });
    examples.push(RuleExample { label: "Prefer", code: "const config = value satisfies Config;" });
    let mut options: Vec<RuleOption> = Vec::new();
    options.push(severity_rule_option());
    let r = RuleDocumentation {
        name: "prefer-satisfies",
        intent: "Prefer satisfies over as when validating a value against a type.",
        examples,
        options,
        summarize: RuleSummary::PreferSatisfies,
    };
    proof {
        assert(r@.examples =~= prefer_satisfies_doc().examples);
        assert(r@.options =~= prefer_satisfies_doc().options);
    }
    r
}

/// The documentation of `prefer-readonly`.
pub open spec fn prefer_readonly_doc() -> DocView {
    DocView {
        name: "prefer-readonly"@,
        intent: "Prefer readonly for array parameters in exported functions to prevent accidental mutation of caller data."@,
        examples: seq![("Reports"@, "export function process(items: string[]) {}"@), ("Prefer"@, "export function process(items: readonly string[]) {}"@)],
        options: seq![severity_option()],
        summarize: RuleSummary::PreferReadonly,
    }
}

fn prefer_readonly_documentation() -> (r: RuleDocumentation)
    ensures
        r@ == prefer_readonly_doc(),
{
    let mut examples: Vec<RuleExample> = Vec::new();
    examples.push(RuleExample { label: "Reports", code: "export function process(items: string[]) {}" });
    examples.push(RuleExample { label: "Prefer", code: "export function process(items: readonly string[]) {}" });
    let mut options: Vec<RuleOption> = Vec::new();
    options.push(severity_rule_option());
    let r = RuleDocumentation {
        name: "prefer-readonly",
        intent: "Prefer readonly for array parameters in exported functions to prevent accidental mutation of caller data.",
        examples,
        options,
        summarize: RuleSummary::PreferReadonly,
    };
    proof {
        assert(r@.examples =~= prefer_readonly_doc().examples);
        assert(r@.options =~= prefer_readonly_doc().options);
    }
    r
}

/// The documentation of `no-test-import`.
pub open spec fn no_test_import_doc() -> DocView {
    DocView {
        name: "no-test-import"@,
        intent: "Production code may not import test files."@,
        examples: seq![("Reports"@, "import { helper } from './helper.test'; // in src/auth.ts"@), ("Prefer"@, "Move shared helpers out of test files into production modules."@)],
        options: seq![severity_option(), ("project.structure.tests"@, "Folders and file suffixes that identify test files."@)],
        summarize: RuleSummary::NoTestImport,
    }
}

fn no_test_import_documentation() -> (r: RuleDocumentation)
    ensures
        r@ == no_test_import_doc(),
{
    let mut examples: Vec<RuleExample> = Vec::new();
    examples.push(RuleExample { label: "Reports", code: "import { helper } from './helper.test'; // in src/auth.ts" });
    examples.push(RuleExample { label: "Prefer", code: "Move shared helpers out of test files into production modules." });
    let mut options: Vec<RuleOption> = Vec::new();
    options.push(severity_rule_option());
    options.push(RuleOption { name: "project.structure.tests", description: "Folders and file suffixes that identify test files." });
    let r = RuleDocumentation {
        name: "no-test-import",
        intent: "Production code may not import test files.",
        examples,
        options,
        summarize: RuleSummary::NoTestImport,
    };
    proof {
        assert(r@.examples =~= no_test_import_doc().examples);
        assert(r@.options =~= no_test_import_doc().options);
    }
    r
}

/// The documentation of `entry-file-no-logic`.
pub open spec fn entry_file_no_logic_doc() -> DocView {
    DocView {
        name: "entry-file-no-logic"@,
        intent: "Entry files like main.ts, app.tsx, layout.tsx, and page.tsx should delegate logic to dedicated modules instead of containing implementation details."@,
        examples: seq![("Reports"@, "function bootstrap() { /* complex setup logic */ } // in main.ts"@), ("Prefer"@, "import { bootstrap } from './bootstrap'; bootstrap(); // delegate to module"@)],
        options: seq![severity_option(), ("entry-files"@, "File stems to treat as entry files. Defaults to main, app, layout, page."@)],
        summarize: RuleSummary::EntryFileNoLogic,
    }
}

fn entry_file_no_logic_documentation() -> (r: RuleDocumentation)
    ensures
        r@ == entry_file_no_logic_doc(),
{
    let mut examples: Vec<RuleExample> = Vec::new();
    examples.push(RuleExample { label: "Reports", code: "function bootstrap() { /* complex setup logic */ } // in main.ts" });
    examples.push(RuleExample { label: "Prefer", code: "import { bootstrap } from './bootstrap'; bootstrap(); // delegate to module" });
    let mut options: Vec<RuleOption> = Vec::new();
    options.push(severity_rule_option());
    options.push(RuleOption { name: "entry-files", description: "File stems to treat as entry files. Defaults to main, app, layout, page." });
    let r = RuleDocumentation {
        name: "entry-file-no-logic",
        intent: "Entry files like main.ts, app.tsx, layout.tsx, and page.tsx should delegate logic to dedicated modules instead of containing implementation details.",
        examples,
        options,
        summarize: RuleSummary::EntryFileNoLogic,
    };
    proof {
        assert(r@.examples =~= entry_file_no_logic_doc().examples);
        assert(r@.options =~= entry_file_no_logic_doc().options);
    }
    r
}

/// The documentation of `explicit-return-type`.
pub open spec fn explicit_return_type_doc() -> DocView {
    DocView {
        name: "explicit-return-type"@,
        intent: "Require explicit return type annotations on exported functions to make public API contracts clear."@,
        examples: seq![("Reports"@, "export function add(a: number, b: number) { return a + b; }"@), ("Prefer"@, "export function add(a: number, b: number): number { return a + b; }"@)],
        options: seq![severity_option()],
        summarize: RuleSummary::ExplicitReturnType,
    }
}

fn explicit_return_type_documentation() -> (r: RuleDocumentation)
    ensures
        r@ == explicit_return_type_doc(),
{
    let mut examples: Vec<RuleExample> = Vec::new();
    examples.push(RuleExample { label: "Reports", code: "export function add(a: number, b: number) { return a + b; }" });
    examples.push(RuleExample { label: "Prefer", code: "export function add(a: number, b: number): number { return a + b; }" });
    let mut options: Vec<RuleOption> = Vec::new();
    options.push(severity_rule_option());
    let r = RuleDocumentation {
        name: "explicit-return-type",
        intent: "Require explicit return type annotations on exported functions to make public API contracts clear.",
        examples,
        options,
        summarize: RuleSummary::ExplicitReturnType,
    };
    proof {
        assert(r@.examples =~= explicit_return_type_doc().examples);
        assert(r@.options =~= explicit_return_type_doc().options);
    }
    r
}

/// The documentation of `no-non-null-assertion`.
pub open spec fn no_non_null_assertion_doc() -> DocView {
    DocView {
        name: "no-non-null-assertion"@,
        intent: "Disallow the non-null assertion operator (!) which bypasses TypeScript's null safety checks."@,
        examples: seq![("Reports"@, "const value = obj!.prop;"@), ("Prefer"@, "const value = obj?.prop ?? 'default';"@)],
        options: seq![severity_option()],
        summarize: RuleSummary::NoNonNullAssertion,
    }
}

fn no_non_null_assertion_documentation() -> (r: RuleDocumentation)
    ensures
        r@ == no_non_null_assertion_doc(),
{
    let mut examples: Vec<RuleExample> = Vec::new();
    examples.push(RuleExample { label: "Reports", code: "const value = obj!.prop;" });
    examples.push(RuleExample { label: "Prefer", code: "const value = obj?.prop ?? 'default';" });
    let mut options: Vec<RuleOption> = Vec::new();
    options.push(severity_rule_option());
    let r = RuleDocumentation {
        name: "no-non-null-assertion",
        intent: "Disallow the non-null assertion operator (!) which bypasses TypeScript's null safety checks.",
        examples,
        options,
        summarize: RuleSummary::NoNonNullAssertion,
    };
    proof {
        assert(r@.examples =~= no_non_null_assertion_doc().examples);
        assert(r@.options =~= no_non_null_assertion_doc().options);
    }
    r
}

/// The documentation of `no-await-in-loop`.
pub open spec fn no_await_in_loop_doc() -> DocView {
    DocView {
        name: "no-await-in-loop"@,
        intent: "Disallow await inside loop bodies. Extract to a separate async function or use Promise.all."@,
        examples: seq![("Reports"@, "for (const item of items) { await process(item); }"@), ("Prefer"@, "await Promise.all(items.map(item => process(item)));"@)],
        options: seq![severity_option()],
        summarize: RuleSummary::NoAwaitInLoop,
    }
}

fn no_await_in_loop_documentation() -> (r: RuleDocumentation)
    ensures
        r@ == no_await_in_loop_doc(),
{
    let mut examples: Vec<RuleExample> = Vec::new();
    examples.push(RuleExample { label: "Reports", code: "for (const item of items) { await process(item); }" });
    examples.push(RuleExample { label: "Prefer", code: "await Promise.all(items.map(item => process(item)));" });
    let mut options: Vec<RuleOption> = Vec::new();
    options.push(severity_rule_option());
    let r = RuleDocumentation {
        name: "no-await-in-loop",
        intent: "Disallow await inside loop bodies. Extract to a separate async function or use Promise.all.",
        examples,
        options,
        summarize: RuleSummary::NoAwaitInLoop,
    };
    proof {
        assert(r@.examples =~= no_await_in_loop_doc().examples);
        assert(r@.options =~= no_await_in_loop_doc().options);
    }
    r
}

/// The documentation of `no-promise-executor-return`.
pub open spec fn no_promise_executor_return_doc() -> DocView {
    DocView {
        name: "no-promise-executor-return"@,
        intent: "Disallow returning a value from a Promise executor. Values are discarded; use resolve() instead."@,
        examples: seq![("Reports"@, "new Promise((resolve, reject) => { return 42; });"@), ("Prefer"@, "new Promise((resolve, reject) => { resolve(42); });"@)],
        options: seq![severity_option()],
        summarize: RuleSummary::NoPromiseExecutorReturn,
    }
}

fn no_promise_executor_return_documentation() -> (r: RuleDocumentation)
    ensures
        r@ == no_promise_executor_return_doc(),
{
    let mut examples: Vec<RuleExample> = Vec::new();
    examples.push(RuleExample { label: "Reports", code: "new Promise((resolve, reject) => { return 42; });" });
    examples.push(RuleExample { label: "Prefer", code: "new Promise((resolve, reject) => { resolve(42); });" });
    let mut options: Vec<RuleOption> = Vec::new();
    options.push(severity_rule_option());
    let r = RuleDocumentation {
        name: "no-promise-executor-return",
        intent: "Disallow returning a value from a Promise executor. Values are discarded; use resolve() instead.",
        examples,
        options,
        summarize: RuleSummary::NoPromiseExecutorReturn,
    };
    proof {
        assert(r@.examples =~= no_promise_executor_return_doc().examples);
        assert(r@.options =~= no_promise_executor_return_doc().options);
    }
    r
}

/// The documentation of `no-unsafe-optional-chaining`.
pub open spec fn no_unsafe_optional_chaining_doc() -> DocView {
    DocView {
        name: "no-unsafe-optional-chaining"@,
        intent: "Disallow optional chaining (`?.`) on expressions that are never null or undefined, such as literals, constructors, and assertions."@,
        examples: seq![("Reports"@, "const result = 'hello'?.length;"@), ("Reports"@, "const instance = new Foo()?.bar;"@), ("Prefer"@, "const result = 'hello'.length;"@)],
        options: seq![severity_option()],
        summarize: RuleSummary::NoUnsafeOptionalChaining,
    }
}

fn no_unsafe_optional_chaining_documentation() -> (r: RuleDocumentation)
    ensures
        r@ == no_unsafe_optional_chaining_doc(),
{
    let mut examples: Vec<RuleExample> = Vec::new();
    examples.push(RuleExample { label: "Reports", code: "const result = 'hello'?.length;" });
    examples.push(RuleExample { label: "Reports", code: "const instance = new Foo()?.bar;" });
    examples.push(RuleExample { label: "Prefer", code: "const result = 'hello'.length;" });
    let mut options: Vec<RuleOption> = Vec::new();
    options.push(severity_rule_option());
    let r = RuleDocumentation {
        name: "no-unsafe-optional-chaining",
        intent: "Disallow optional chaining (`?.`) on expressions that are never null or undefined, such as literals, constructors, and assertions.",
        examples,
        options,
        summarize: RuleSummary::NoUnsafeOptionalChaining,
    };
    proof {
        assert(r@.examples =~= no_unsafe_optional_chaining_doc().examples);
        assert(r@.options =~= no_unsafe_optional_chaining_doc().options);
    }
    r
}

/// The documentation of `no-magic-numbers`.
pub open spec fn no_magic_numbers_doc() -> DocView {
    DocView {
        name: "no-magic-numbers"@,
        intent: "Disallow numeric and string literals outside constants. Extract literals to named constants for clarity and maintainability."@,
        examples: seq![("Reports"@, "setTimeout(callback, 3000);"@), ("Prefer"@, "const TIMEOUT_MS = 3000;\nsetTimeout(callback, TIMEOUT_MS);"@), ("With enforce-strings"@, "fetch(\"/api/users\");"@), ("With enforce-strings, prefer"@, "const API_URL = \"/api/users\";\nfetch(API_URL);"@)],
        options: seq![severity_option(), ("allowed-numbers"@, "List of numeric literals to allow (e.g., [\"0\", \"1\", \"-1\"])."@), ("enforce-strings"@, "When true, also flag inline string literals that should be named constants (default false)."@)],
        summarize: RuleSummary::NoMagicNumbers,
    }
}

fn no_magic_numbers_documentation() -> (r: RuleDocumentation)
    ensures
        r@ == no_magic_numbers_doc(),
{
    let mut examples: Vec<RuleExample> = Vec::new();
    examples.push(RuleExample { label: "Reports", code: "setTimeout(callback, 3000);" });
    examples.push(RuleExample { label: "Prefer", code: "const TIMEOUT_MS = 3000;\nsetTimeout(callback, TIMEOUT_MS);" });
    examples.push(RuleExample { label: "With enforce-strings", code: "fetch(\"/api/users\");" });
    examples.push(RuleExample { label: "With enforce-strings, prefer", code: "const API_URL = \"/api/users\";\nfetch(API_URL);" });
    let mut options: Vec<RuleOption> = Vec::new();
    options.push(severity_rule_option());
    options.push(RuleOption { name: "allowed-numbers", description: "List of numeric literals to allow (e.g., [\"0\", \"1\", \"-1\"])." });
    options.push(RuleOption { name: "enforce-strings", description: "When true, also flag inline string literals that should be named constants (default false)." });
    let r = RuleDocumentation {
        name: "no-magic-numbers",
        intent: "Disallow numeric and string literals outside constants. Extract literals to named constants for clarity and maintainability.",
        examples,
        options,
        summarize: RuleSummary::NoMagicNumbers,
    };
    proof {
        assert(r@.examples =~= no_magic_numbers_doc().examples);
        assert(r@.options =~= no_magic_numbers_doc().options);
    }
    r
}

/// The documentation of `no-process-env`.
pub open spec fn no_process_env_doc() -> DocView {
    DocView {
        name: "no-process-env"@,
        intent: "Prevent direct access to process.env. Use a centralized config module instead."@,
        examples: seq![("Reports"@, "const key = process.env.API_KEY;"@), ("Prefer"@, "const key = config.apiKey;"@)],
        options: seq![severity_option()],
        summarize: RuleSummary::NoProcessEnv,
    }
}

fn no_process_env_documentation() -> (r: RuleDocumentation)
    ensures
        r@ == no_process_env_doc(),
{
    let mut examples: Vec<RuleExample> = Vec::new();
    examples.push(RuleExample { label: "Reports", code: "const key = process.env.API_KEY;" });
    examples.push(RuleExample { label: "Prefer", code: "const key = config.apiKey;" });
    let mut options: Vec<RuleOption> = Vec::new();
    options.push(severity_rule_option());
    let r = RuleDocumentation {
        name: "no-process-env",
        intent: "Prevent direct access to process.env. Use a centralized config module instead.",
        examples,
        options,
        summarize: RuleSummary::NoProcessEnv,
    };
    proof {
        assert(r@.examples =~= no_process_env_doc().examples);
        assert(r@.options =~= no_process_env_doc().options);
    }
    r
}

/// The documentation of `no-any`.
pub open spec fn no_any_doc() -> DocView {
    DocView {
        name: "no-any"@,
        intent: "Disallow explicit `any` type annotations. Files in generated folders or configured allowed folders are exempt."@,
        examples: seq![("Reports"@, "const value: any = getData();"@), ("Prefer"@, "const value: unknown = getData();"@)],
        options: seq![severity_option(), ("allowed-folders"@, "Folder names where `any` is permitted (e.g. legacy code)."@), ("project.structure.generated"@, "Folders and file suffixes that identify generated files (always exempt)."@)],
        summarize: RuleSummary::NoAny,
    }
}

fn no_any_documentation() -> (r: RuleDocumentation)
    ensures
        r@ == no_any_doc(),
{
    let mut examples: Vec<RuleExample> = Vec::new();
    examples.push(RuleExample { label: "Reports", code: "const value: any = getData();" });
    examples.push(RuleExample { label: "Prefer", code: "const value: unknown = getData();" });
    let mut options: Vec<RuleOption> = Vec::new();
    options.push(severity_rule_option());
    options.push(RuleOption { name: "allowed-folders", description: "Folder names where `any` is permitted (e.g. legacy code)." });
    options.push(RuleOption { name: "project.structure.generated", description: "Folders and file suffixes that identify generated files (always exempt)." });
    let r = RuleDocumentation {
        name: "no-any",
        intent: "Disallow explicit `any` type annotations. Files in generated folders or configured allowed folders are exempt.",
        examples,
        options,
        summarize: RuleSummary::NoAny,
    };
    proof {
        assert(r@.examples =~= no_any_doc().examples);
        assert(r@.options =~= no_any_doc().options);
    }
    r
}

/// The documentation of `no-type-assertion`.
pub open spec fn no_type_assertion_doc() -> DocView {
    DocView {
        name: "no-type-assertion"@,
        intent: "Disallow `as` casts. Prefer type narrowing or `satisfies` for safer type checking."@,
        examples: seq![("Reports"@, "const value = something as string;"@), ("Prefer"@, "const value = something satisfies string;"@)],
        options: seq![severity_option()],
        summarize: RuleSummary::NoTypeAssertion,
    }
}

fn no_type_assertion_documentation() -> (r: RuleDocumentation)
    ensures
        r@ == no_type_assertion_doc(),
{
    let mut examples: Vec<RuleExample> = Vec::new();
    examples.push(RuleExample { label: "Reports", code: "const value = something as string;" });
    examples.push(RuleExample { label: "Prefer", code: "const value = something satisfies string;" });
    let mut options: Vec<RuleOption> = Vec::new();
    options.push(severity_rule_option());
    let r = RuleDocumentation {
        name: "no-type-assertion",
        intent: "Disallow `as` casts. Prefer type narrowing or `satisfies` for safer type checking.",
        examples,
        options,
        summarize: RuleSummary::NoTypeAssertion,
    };
    proof {
        assert(r@.examples =~= no_type_assertion_doc().examples);
        assert(r@.options =~= no_type_assertion_doc().options);
    }
    r
}

/// The documentation of `no-unnecessary-type-assertion`.
pub open spec fn no_unnecessary_type_assertion_doc() -> DocView {
    DocView {
        name: "no-unnecessary-type-assertion"@,
        intent: "Disallow `as` casts where the expression already has the asserted type."@,
        examples: seq![("Reports"@, "const value = \"hello\" as string;"@), ("Prefer"@, "const value = \"hello\";"@)],
        options: seq![severity_option()],
        summarize: RuleSummary::NoUnnecessaryTypeAssertion,
    }
}

fn no_unnecessary_type_assertion_documentation() -> (r: RuleDocumentation)
    ensures
        r@ == no_unnecessary_type_assertion_doc(),
{
    let mut examples: Vec<RuleExample> = Vec::new();
    examples.push(RuleExample { label: "Reports", code: "const value = \"hello\" as string;" });
    examples.push(RuleExample { label: "Prefer", code: "const value = \"hello\";" });
    let mut options: Vec<RuleOption> = Vec::new();
    options.push(severity_rule_option());
    let r = RuleDocumentation {
        name: "no-unnecessary-type-assertion",
        intent: "Disallow `as` casts where the expression already has the asserted type.",
        examples,
        options,
        summarize: RuleSummary::NoUnnecessaryTypeAssertion,
    };
    proof {
        assert(r@.examples =~= no_unnecessary_type_assertion_doc().examples);
        assert(r@.options =~= no_unnecessary_type_assertion_doc().options);
    }
    r
}

/// The documentation of `no-empty-domain`.
pub open spec fn no_empty_domain_doc() -> DocView {
    DocView {
        name: "no-empty-domain"@,
        intent: "Domain folders must contain real source files, not only barrel files that re-export."@,
        examples: seq![("Reports"@, "src/auth/ containing only index.ts with re-exports"@), ("Prefer"@, "Add implementation files to the domain or remove the folder."@)],
        options: seq![severity_option(), ("ignore-dirs"@, "Directory names to skip."@)],
        summarize: RuleSummary::NoEmptyDomain,
    }
}

fn no_empty_domain_documentation() -> (r: RuleDocumentation)
    ensures
        r@ == no_empty_domain_doc(),
{
    let mut examples: Vec<RuleExample> = Vec::new();
    examples.push(RuleExample { label: "Reports", code: "src/auth/ containing only index.ts with re-exports" });
    examples.push(RuleExample { label: "Prefer", code: "Add implementation files to the domain or remove the folder." });
    let mut options: Vec<RuleOption> = Vec::new();
    options.push(severity_rule_option());
    options.push(RuleOption { name: "ignore-dirs", description: "Directory names to skip." });
    let r = RuleDocumentation {
        name: "no-empty-domain",
        intent: "Domain folders must contain real source files, not only barrel files that re-export.",
        examples,
        options,
        summarize: RuleSummary::NoEmptyDomain,
    };
    proof {
        assert(r@.examples =~= no_empty_domain_doc().examples);
        assert(r@.options =~= no_empty_domain_doc().options);
    }
    r
}

/// The documentation of `no-anemic-domain`.
pub open spec fn no_anemic_domain_doc() -> DocView {
    DocView {
        name: "no-anemic-domain"@,
        intent: "Domain folders with too few files add navigation cost without meaningful structure."@,
        examples: seq![("Reports"@, "src/features/search/ with only one source file"@), ("Prefer"@, "Flatten the file into a parent or sibling directory."@)],
        options: seq![severity_option(), ("max-files"@, "Maximum number of files below the threshold. Default is 1."@), ("ignore-dirs"@, "Directory names to skip."@)],
        summarize: RuleSummary::NoAnemicDomain,
    }
}

fn no_anemic_domain_documentation() -> (r: RuleDocumentation)
    ensures
        r@ == no_anemic_domain_doc(),
{
    let mut examples: Vec<RuleExample> = Vec::new();
    examples.push(RuleExample { label: "Reports", code: "src/features/search/ with only one source file" });
    examples.push(RuleExample { label: "Prefer", code: "Flatten the file into a parent or sibling directory." });
    let mut options: Vec<RuleOption> = Vec::new();
    options.push(severity_rule_option());
    options.push(RuleOption { name: "max-files", description: "Maximum number of files below the threshold. Default is 1." });
    options.push(RuleOption { name: "ignore-dirs", description: "Directory names to skip." });
    let r = RuleDocumentation {
        name: "no-anemic-domain",
        intent: "Domain folders with too few files add navigation cost without meaningful structure.",
        examples,
        options,
        summarize: RuleSummary::NoAnemicDomain,
    };
    proof {
        assert(r@.examples =~= no_anemic_domain_doc().examples);
        assert(r@.options =~= no_anemic_domain_doc().options);
    }
    r
}

/// The documentation of `no-god-domain`.
pub open spec fn no_god_domain_doc() -> DocView {
    DocView {
        name: "no-god-domain"@,
        intent: "Domain folders with too many files should be split into sub-domains for clarity."@,
        examples: seq![("Reports"@, "src/components/ with more files than max-files"@), ("Prefer"@, "Group related files into narrower child directories."@)],
        options: seq![severity_option(), ("max-files"@, "Maximum number of files allowed. Default is 20."@), ("ignore-dirs"@, "Directory names to skip."@)],
        summarize: RuleSummary::NoGodDomain,
    }
}

fn no_god_domain_documentation() -> (r: RuleDocumentation)
    ensures
        r@ == no_god_domain_doc(),
{
    let mut examples: Vec<RuleExample> = Vec::new();
    examples.push(RuleExample { label: "Reports", code: "src/components/ with more files than max-files" });
    examples.push(RuleExample { label: "Prefer", code: "Group related files into narrower child directories." });
    let mut options: Vec<RuleOption> = Vec::new();
    options.push(severity_rule_option());
    options.push(RuleOption { name: "max-files", description: "Maximum number of files allowed. Default is 20." });
    options.push(RuleOption { name: "ignore-dirs", description: "Directory names to skip." });
    let r = RuleDocumentation {
        name: "no-god-domain",
        intent: "Domain folders with too many files should be split into sub-domains for clarity.",
        examples,
        options,
        summarize: RuleSummary::NoGodDomain,
    };
    proof {
        assert(r@.examples =~= no_god_domain_doc().examples);
        assert(r@.options =~= no_god_domain_doc().options);
    }
    r
}

/// The documentation of every rule, in catalog order.
pub open spec fn catalog() -> Seq<DocView> {
    seq![
        boolean_prefix_doc(),
        component_file_only_components_doc(),
        hook_no_jsx_doc(),
        hook_prefix_doc(),
        layer_boundaries_doc(),
        max_directory_depth_doc(),
        max_file_exports_doc(),
        max_function_params_doc(),
        max_items_per_directory_doc(),
        min_items_per_directory_doc(),
        no_barrel_chain_doc(),
        no_circular_import_doc(),
        no_barrel_files_doc(),
        no_comments_doc(),
        no_console_doc(),
        no_side_effect_imports_doc(),
        sort_imports_doc(),
        no_debugger_doc(),
        no_default_export_doc(),
        no_duplicate_file_names_doc(),
        no_dump_files_doc(),
        no_empty_directories_doc(),
        directory_must_have_barrel_doc(),
        no_empty_interface_doc(),
        no_enums_doc(),
        no_eval_doc(),
        no_export_star_doc(),
        no_focused_test_doc(),
        no_inline_types_doc(),
        no_interface_doc(),
        no_large_file_doc(),
        no_logic_in_barrel_doc(),
        no_logic_in_domain_doc(),
        no_abbreviations_doc(),
        no_restricted_imports_doc(),
        no_mutable_exports_doc(),
        sort_exports_doc(),
        no_nested_functions_doc(),
        no_orphan_files_doc(),
        no_package_cycle_doc(),
        no_private_package_import_doc(),
        no_namespace_doc(),
        no_silent_catch_doc(),
        no_skipped_test_doc(),
        no_test_code_in_production_doc(),
        no_then_chain_doc(),
        no_upward_import_doc(),
        prefer_satisfies_doc(),
        prefer_readonly_doc(),
        no_test_import_doc(),
        entry_file_no_logic_doc(),
        explicit_return_type_doc(),
        no_non_null_assertion_doc(),
        no_await_in_loop_doc(),
        no_promise_executor_return_doc(),
        no_unsafe_optional_chaining_doc(),
        no_magic_numbers_doc(),
        no_process_env_doc(),
        no_any_doc(),
        no_type_assertion_doc(),
        no_unnecessary_type_assertion_doc(),
        no_empty_domain_doc(),
        no_anemic_domain_doc(),
        no_god_domain_doc(),
    ]
}

/// The documentation of every rule, in catalog order.
pub fn all_rules() -> (r: Vec<RuleDocumentation>)
    ensures
        doc_views(r@) == catalog(),
{
    let mut docs: Vec<RuleDocumentation> = Vec::new();
    docs.push(boolean_prefix_documentation());
    docs.push(component_file_only_components_documentation());
    docs.push(hook_no_jsx_documentation());
    docs.push(hook_prefix_documentation());
    docs.push(layer_boundaries_documentation());
    docs.push(max_directory_depth_documentation());
    docs.push(max_file_exports_documentation());
    docs.push(max_function_params_documentation());
    docs.push(max_items_per_directory_documentation());
    docs.push(min_items_per_directory_documentation());
    docs.push(no_barrel_chain_documentation());
    docs.push(no_circular_import_documentation());
    docs.push(no_barrel_files_documentation());
    docs.push(no_comments_documentation());
    docs.push(no_console_documentation());
    docs.push(no_side_effect_imports_documentation());
    docs.push(sort_imports_documentation());
    docs.push(no_debugger_documentation());
    docs.push(no_default_export_documentation());
    docs.push(no_duplicate_file_names_documentation());
    docs.push(no_dump_files_documentation());
    docs.push(no_empty_directories_documentation());
    docs.push(directory_must_have_barrel_documentation());
    docs.push(no_empty_interface_documentation());
    docs.push(no_enums_documentation());
    docs.push(no_eval_documentation());
    docs.push(no_export_star_documentation());
    docs.push(no_focused_test_documentation());
    docs.push(no_inline_types_documentation());
    docs.push(no_interface_documentation());
    docs.push(no_large_file_documentation());
    docs.push(no_logic_in_barrel_documentation());
    docs.push(no_logic_in_domain_documentation());
    docs.push(no_abbreviations_documentation());
    docs.push(no_restricted_imports_documentation());
    docs.push(no_mutable_exports_documentation());
    docs.push(sort_exports_documentation());
    docs.push(no_nested_functions_documentation());
    docs.push(no_orphan_files_documentation());
    docs.push(no_package_cycle_documentation());
    docs.push(no_private_package_import_documentation());
    docs.push(no_namespace_documentation());
    docs.push(no_silent_catch_documentation());
    docs.push(no_skipped_test_documentation());
    docs.push(no_test_code_in_production_documentation());
    docs.push(no_then_chain_documentation());
    docs.push(no_upward_import_documentation());
    docs.push(prefer_satisfies_documentation());
    docs.push(prefer_readonly_documentation());
    docs.push(no_test_import_documentation());
    docs.push(entry_file_no_logic_documentation());
    docs.push(explicit_return_type_documentation());
    docs.push(no_non_null_assertion_documentation());
    docs.push(no_await_in_loop_documentation());
    docs.push(no_promise_executor_return_documentation());
    docs.push(no_unsafe_optional_chaining_documentation());
    docs.push(no_magic_numbers_documentation());
    docs.push(no_process_env_documentation());
    docs.push(no_any_documentation());
    docs.push(no_type_assertion_documentation());
    docs.push(no_unnecessary_type_assertion_documentation());
    docs.push(no_empty_domain_documentation());
    docs.push(no_anemic_domain_documentation());
    docs.push(no_god_domain_documentation());
    proof {
        assert(doc_views(docs@) =~= catalog());
    }
    docs
}

} // verus!
