//! Notes about the run itself (not about the linted code), and files that failed to parse.

use vstd::prelude::*;
use crate::chars::push_str;
use crate::syntax::Span;

verus! {

/// What part of the run a diagnostic is about.
#[derive(Clone, Copy, Debug, PartialEq, Eq, Structural)]
pub enum DiagnosticCategory {
    Cache,
    Config,
    Filesystem,
    Parse,
}

/// The name of a diagnostic category.
pub open spec fn category_name(c: DiagnosticCategory) -> Seq<char> {
    match c {
        DiagnosticCategory::Cache => "cache"@,
        DiagnosticCategory::Config => "config"@,
        DiagnosticCategory::Filesystem => "filesystem"@,
        DiagnosticCategory::Parse => "parse"@,
    }
}

impl DiagnosticCategory {
    /// The name of this category.
    pub fn as_str(&self) -> (r: &'static str)
        ensures
            r@ == category_name(*self),
    {
        match self {
            DiagnosticCategory::Cache => "cache",
            DiagnosticCategory::Config => "config",
            DiagnosticCategory::Filesystem => "filesystem",
            DiagnosticCategory::Parse => "parse",
        }
    }
}

/// A note about the run.
#[derive(Debug)]
pub struct Diagnostic {
    pub category: DiagnosticCategory,
    pub message: String,
}

impl Diagnostic {
    /// A note of `category` saying `message`.
    pub fn new(category: DiagnosticCategory, message: &str) -> (r: Diagnostic)
        ensures
            r.category == category,
            r.message@ == message@,
    {
        let mut m = String::new();
        push_str(&mut m, message);
        proof {
            assert(m@ =~= message@);
        }
        Diagnostic { category, message: m }
    }
}

/// A file that could not be parsed.
#[derive(Debug)]
pub struct ParseFailure {
    pub file: String,
    pub message: String,
    pub span: Option<Span>,
}

} // verus!
