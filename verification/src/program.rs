//! The top-level statements of a parsed module, as the statement rules read them.

use vstd::prelude::*;
use crate::syntax::Span;

verus! {

/// What a default export declares.
#[derive(Debug)]
pub enum ExportDefaultKind {
    Function,
    Class { span: Span, name: Option<String> },
    Other,
}

/// The value a variable is initialized with.
#[derive(Debug)]
pub enum Initializer {
    Arrow(Span),
    Function(Span),
    Other,
}

/// One declarator of a variable declaration: the name it binds (where it binds a plain name)
/// and its initializer.
#[derive(Debug)]
pub struct Declarator {
    pub name: Option<String>,
    pub init: Option<Initializer>,
}

/// A statement that controls the flow of execution.
#[derive(Clone, Copy, Debug, PartialEq, Eq, Structural)]
pub enum ControlFlowKind {
    If,
    For,
    ForIn,
    ForOf,
    While,
    DoWhile,
    Switch,
    Try,
}

/// A top-level statement.
#[derive(Debug)]
pub enum TopLevelStatement {
    Import,
    ExportNamed,
    ExportAll,
    ExportDefault(ExportDefaultKind),
    Expression,
    TypeAlias,
    Interface,
    Variable(Vec<Declarator>),
    Function { span: Span, name: Option<String> },
    Class { span: Span, name: Option<String> },
    ControlFlow { kind: ControlFlowKind, span: Span },
    Other,
}

/// The top-level statements of a module, in order.
#[derive(Debug)]
pub struct ProgramModel {
    pub body: Vec<TopLevelStatement>,
}

/// An import declaration: its span and the module specifier it imports from.
#[derive(Debug)]
pub struct ImportDeclaration {
    pub span: Span,
    pub source: String,
}

/// What an export declaration exports.
#[derive(Debug)]
pub enum ExportKind {
    /// `export <declaration>` or `export { ... } [from "<source>"]`: the name of the first
    /// binding it declares or of its first specifier (empty where there is none).
    Named { name: String, source: Option<String> },
    /// `export default ...`.
    Default,
    /// `export * [as <exported>] from "<source>"`.
    All { source: String, exported: Option<String> },
}

/// An export declaration: its span and what it exports.
#[derive(Debug)]
pub struct ExportDeclaration {
    pub span: Span,
    pub kind: ExportKind,
}

/// A statement of a module, as the import and export rules read it: an import declaration,
/// an export declaration, or any other statement with its span.
#[derive(Debug)]
pub enum ModuleItem {
    Import(ImportDeclaration),
    Export(ExportDeclaration),
    Other(Span),
}

/// Whether a comment leads the statement it is attached to or trails the one before it.
#[derive(Clone, Copy, Debug, PartialEq, Eq, Structural)]
pub enum CommentPosition {
    Leading,
    Trailing,
}

/// A comment: its span, its position, and the offset of the token it is attached to.
#[derive(Clone, Copy, Debug)]
pub struct Comment {
    pub span: Span,
    pub position: CommentPosition,
    pub attached_to: u32,
}

/// The statements and comments of a module, in source order.
#[derive(Debug)]
pub struct ModuleSyntax {
    pub body: Vec<ModuleItem>,
    pub comments: Vec<Comment>,
}

} // verus!
