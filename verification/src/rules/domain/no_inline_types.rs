//! `no-inline-types`: type aliases and interfaces are declared only where the project keeps its
//! types (see `TypeLocationStyle`).

use vstd::prelude::*;
use crate::config::{DomainConfig, RuleConfig};
use crate::rules::{is_declaration_file, is_in_types_directory, is_type_file, views, TypeLocationStyle, Violation, ViolationView, NO_INLINE_TYPES_RULE_ID};
use crate::syntax::{span_position, LineIndex, Span};

verus! {

pub const NO_INLINE_TYPES_MESSAGE: &'static str = "Move exported contracts to a colocated type file or accepted types folder.";

/// The style admits types in `file`: a declaration file, or a place that the style accepts.
pub open spec fn style_allows(style: TypeLocationStyle, file: Seq<char>, types: DomainConfig) -> bool {
    is_declaration_file(file)
        || (style.type_files_allowed() && is_type_file(file, types))
        || (style.types_directories_allowed() && is_in_types_directory(file, types))
}

/// The finding at a type alias or an interface spanning `span`.
pub open spec fn inline_type_finding(file: Seq<char>, index: LineIndex, config: RuleConfig, span: Span) -> ViolationView {
    let pos = span_position(index, span);
    ViolationView {
        file,
        span: None,
        line: Some(pos.line),
        column: Some(pos.column),
        rule: NO_INLINE_TYPES_RULE_ID@,
        message: NO_INLINE_TYPES_MESSAGE@,
        severity: config.severity,
        detail: None,
        subject: None,
    }
}

/// The findings of `no-inline-types` on the type alias and interface declarations of one
/// module, in walk order: none where the style admits types in the file, else one at each.
pub fn check_file(file: &str, declarations: &Vec<Span>, line_index: &LineIndex, config: &RuleConfig, location_style: TypeLocationStyle, types: &DomainConfig) -> (r: Vec<Violation>)
    ensures
        views(r@) == if style_allows(location_style, file@, *types) {
            Seq::empty()
        } else {
            declarations@.map_values(|s: Span| inline_type_finding(file@, *line_index, *config, s))
        },
{
    let mut out: Vec<Violation> = Vec::new();
    if location_style.allows_file(file, types) {
        proof {
            assert(views(out@) =~= Seq::<ViolationView>::empty());
        }
        return out;
    }
    let n = declarations.len();
    let mut k: usize = 0;
    while k < n
        invariant
            n == declarations@.len(),
            0 <= k <= n,
            views(out@) == declarations@.take(k as int).map_values(|s: Span| inline_type_finding(file@, *line_index, *config, s)),
        decreases n - k,
    {
        let ghost before = out@;
        let span = declarations[k];
        let pos = line_index.position_for(span);
        let v = Violation::located(file, Some(pos.line), Some(pos.column), NO_INLINE_TYPES_RULE_ID, NO_INLINE_TYPES_MESSAGE, config.severity, None, None);
        out.push(v);
        proof {
            assert(declarations@.take(k as int + 1) =~= declarations@.take(k as int).push(span));
            assert(views(out@) =~= views(before).push(v@));
        }
        k += 1;
    }
    proof {
        assert(declarations@.take(n as int) =~= declarations@);
    }
    out
}

} // verus!
