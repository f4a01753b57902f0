//! The rules behind common interfaces: each rule with its configuration, checked one file at a
//! time against the import graph or against the module's syntax.

use vstd::prelude::*;
use vstd::string::StringSliceAdditionalSpecFns;
use crate::config::{LayerBoundaryConfig, RuleConfig, Severity, SortExportsRuleConfig, SortImportsRuleConfig, UpwardImportRuleConfig};
use crate::import_graph::topology::CircularImportContext;
use crate::import_graph::ImportGraph;
use crate::program::ModuleSyntax;
use crate::rules::exports::{no_barrel_chain, sort_exports};
use crate::rules::imports::{layer_boundaries, no_circular_import, no_private_package_import, no_upward_import, sort_imports};
use crate::rules::{fix_views, views, Fix, FixView, Violation, ViolationView};
use crate::syntax::LineIndex;
use crate::workspace::Workspace;

verus! {

/// What a graph rule sees of one file: its path, its line index, the import graph, and the
/// workspace where there is one.
pub struct GraphContext<'a> {
    pub file: &'a str,
    pub line_index: &'a LineIndex,
    pub import_graph: &'a ImportGraph,
    pub workspace: Option<&'a Workspace>,
}

/// The workspace of a context, by value.
pub open spec fn context_workspace(ctx: GraphContext) -> Option<Workspace> {
    match ctx.workspace {
        Some(w) => Some(*w),
        None => None,
    }
}

/// A rule checked against the import graph.
pub trait GraphRule {
    /// The findings the rule reports for the file of `ctx`.
    spec fn findings(&self, ctx: GraphContext) -> Seq<ViolationView>;

    /// The severity the rule reports at.
    fn severity(&self) -> Severity;

    /// The findings for the file of `ctx`.
    fn check(&self, ctx: &GraphContext) -> (r: Vec<Violation>)
        ensures
            views(r@) == self.findings(*ctx);
}

/// `layer-boundaries` with its layer order.
pub struct LayerBoundariesAdapter {
    pub config: RuleConfig,
    pub layers: LayerBoundaryConfig,
}

impl GraphRule for LayerBoundariesAdapter {
    open spec fn findings(&self, ctx: GraphContext) -> Seq<ViolationView> {
        layer_boundaries::layer_report(self.layers, *ctx.import_graph, ctx.file@, *ctx.line_index, self.config.severity)
    }

    fn severity(&self) -> Severity {
        self.config.severity
    }

    fn check(&self, ctx: &GraphContext) -> (r: Vec<Violation>) {
        layer_boundaries::check_file(ctx.file, ctx.line_index, ctx.import_graph, &self.config, &self.layers)
    }
}

/// `no-circular-import` with the cycles of the graph.
pub struct NoCircularImportAdapter {
    pub config: RuleConfig,
    pub context: CircularImportContext,
}

impl GraphRule for NoCircularImportAdapter {
    open spec fn findings(&self, ctx: GraphContext) -> Seq<ViolationView> {
        no_circular_import::cycle_report(*ctx.import_graph, self.context, ctx.file@, *ctx.line_index, self.config.severity)
    }

    fn severity(&self) -> Severity {
        self.config.severity
    }

    fn check(&self, ctx: &GraphContext) -> (r: Vec<Violation>) {
        no_circular_import::check_file(ctx.file, ctx.line_index, ctx.import_graph, &self.context, &self.config)
    }
}

/// `no-private-package-import`.
pub struct NoPrivatePackageImportAdapter {
    pub config: RuleConfig,
}

impl GraphRule for NoPrivatePackageImportAdapter {
    open spec fn findings(&self, ctx: GraphContext) -> Seq<ViolationView> {
        no_private_package_import::private_report(*ctx.import_graph, ctx.file@, *ctx.line_index, context_workspace(ctx),
            self.config.severity)
    }

    fn severity(&self) -> Severity {
        self.config.severity
    }

    fn check(&self, ctx: &GraphContext) -> (r: Vec<Violation>) {
        no_private_package_import::check_file(ctx.file, ctx.line_index, ctx.import_graph, ctx.workspace, &self.config)
    }
}

/// `no-barrel-chain`.
pub struct NoBarrelChainAdapter {
    pub config: RuleConfig,
}

impl GraphRule for NoBarrelChainAdapter {
    open spec fn findings(&self, ctx: GraphContext) -> Seq<ViolationView> {
        if crate::import_graph::node_of(ctx.import_graph.files@, ctx.file@) matches Some(n) && n.is_barrel {
            no_barrel_chain::chain_findings(*ctx.import_graph, ctx.import_graph.edges@, ctx.file@, *ctx.line_index,
                self.config.severity)
        } else {
            Seq::empty()
        }
    }

    fn severity(&self) -> Severity {
        self.config.severity
    }

    fn check(&self, ctx: &GraphContext) -> (r: Vec<Violation>) {
        no_barrel_chain::check_file(ctx.file, ctx.line_index, ctx.import_graph, &self.config)
    }
}

/// `no-upward-import`.
pub struct NoUpwardImportAdapter {
    pub config: UpwardImportRuleConfig,
}

impl GraphRule for NoUpwardImportAdapter {
    open spec fn findings(&self, ctx: GraphContext) -> Seq<ViolationView> {
        no_upward_import::upward_report(*ctx.import_graph, ctx.file@, *ctx.line_index, self.config,
            no_upward_import::allow_outcome(self.config.allow_patterns@, ctx.file@))
    }

    fn severity(&self) -> Severity {
        self.config.severity
    }

    fn check(&self, ctx: &GraphContext) -> (r: Vec<Violation>) {
        no_upward_import::check_file(ctx.file, ctx.line_index, ctx.import_graph, &self.config)
    }
}

/// What a rule on a module's syntax sees of one file: its path, the module, its source text
/// and its line index.
pub struct AstContext<'a> {
    pub file: &'a str,
    pub program: &'a ModuleSyntax,
    pub source: &'a str,
    pub line_index: &'a LineIndex,
}

/// A rule checked against a module's syntax, with a fix.
pub trait AstRule {
    /// The findings the rule reports for the module of `ctx`.
    spec fn findings(&self, ctx: AstContext) -> Seq<ViolationView>;

    /// The fixes the rule offers for the module of `ctx`.
    spec fn fixes(&self, ctx: AstContext) -> Seq<FixView>;

    /// The severity the rule reports at.
    fn severity(&self) -> Severity;

    /// The findings for the module of `ctx`.
    fn check(&self, ctx: &AstContext) -> (r: Vec<Violation>)
        ensures
            views(r@) == self.findings(*ctx);

    /// The fixes for the module of `ctx`.
    fn fix(&self, ctx: &AstContext) -> (r: Vec<Fix>)
        ensures
            fix_views(r@) == self.fixes(*ctx);
}

/// `sort-imports` with its groups.
pub struct SortImportsAdapter {
    pub config: SortImportsRuleConfig,
}

impl AstRule for SortImportsAdapter {
    open spec fn findings(&self, ctx: AstContext) -> Seq<ViolationView> {
        sort_imports::sort_imports_findings(ctx.file@, *ctx.program, ctx.source.spec_bytes(), *ctx.line_index, self.config)
    }

    open spec fn fixes(&self, ctx: AstContext) -> Seq<FixView> {
        sort_imports::sort_imports_fixes(ctx.file@, *ctx.program, ctx.source.spec_bytes(), self.config)
    }

    fn severity(&self) -> Severity {
        self.config.severity
    }

    fn check(&self, ctx: &AstContext) -> (r: Vec<Violation>) {
        sort_imports::check_file(ctx.file, ctx.program, ctx.source, ctx.line_index, &self.config)
    }

    fn fix(&self, ctx: &AstContext) -> (r: Vec<Fix>) {
        sort_imports::fix_file(ctx.file, ctx.program, ctx.source, &self.config)
    }
}

/// `sort-exports` with its groups.
pub struct SortExportsAdapter {
    pub config: SortExportsRuleConfig,
}

impl AstRule for SortExportsAdapter {
    open spec fn findings(&self, ctx: AstContext) -> Seq<ViolationView> {
        sort_exports::sort_exports_findings(ctx.file@, *ctx.program, ctx.source.spec_bytes(), *ctx.line_index, self.config)
    }

    open spec fn fixes(&self, ctx: AstContext) -> Seq<FixView> {
        sort_exports::sort_exports_fixes(ctx.file@, *ctx.program, ctx.source.spec_bytes(), self.config)
    }

    fn severity(&self) -> Severity {
        self.config.severity
    }

    fn check(&self, ctx: &AstContext) -> (r: Vec<Violation>) {
        sort_exports::check_file(ctx.file, ctx.program, ctx.source, ctx.line_index, &self.config)
    }

    fn fix(&self, ctx: &AstContext) -> (r: Vec<Fix>) {
        sort_exports::fix_file(ctx.file, ctx.program, ctx.source, &self.config)
    }
}

} // verus!
