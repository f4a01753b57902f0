//! `no-restricted-imports`: no import or re-export names a module that a configured
//! restriction covers.

use vstd::prelude::*;
use crate::chars::{copy_string, push_str, starts_with, str_equal, str_starts_with, string_of};
use crate::config::{NoRestrictedImportsRuleConfig, RestrictedImportPattern};
use crate::rules::imports::no_upward_import::{glob_match, match_glob};
use crate::rules::{views, Violation, ViolationView, NO_RESTRICTED_IMPORTS_RULE_ID};
use crate::syntax::{span_position, LineIndex, Span};

verus! {

pub const NO_RESTRICTED_IMPORTS_MESSAGE: &'static str = "Import from a restricted package or path.";

/// A declaration that names another module, in source order: an import (with the names its
/// named specifiers import), a re-export `export { ... } from` (with the local names of its
/// specifiers), or `export * from` (with no names).
#[derive(Debug)]
pub struct ModuleReference {
    pub span: Span,
    pub source: String,
    pub names: Vec<String>,
}

/// A pattern holds `*`, `?` or `[` and is matched as a glob.
pub open spec fn has_glob_chars(p: Seq<char>) -> bool {
    p.contains('*') || p.contains('?') || p.contains('[')
}

/// `source` is the pattern itself or a path below it.
pub open spec fn names_or_below(p: Seq<char>, source: Seq<char>) -> bool {
    source == p || starts_with(source, p + "/"@)
}

/// A glob pattern that builds matches by the glob; any other pattern, or a glob that does not
/// build, matches the module it names and the paths below it.
pub open spec fn source_matches(p: Seq<char>, source: Seq<char>) -> bool {
    if has_glob_chars(p) {
        match glob_match(p, source) {
            Some(m) => m,
            None => names_or_below(p, source),
        }
    } else {
        names_or_below(p, source)
    }
}

/// Some name of the declaration is one that the restriction is limited to.
pub open spec fn names_intersect(named: Seq<String>, names: Seq<String>) -> bool {
    exists|i: int, j: int| 0 <= i < names.len() && 0 <= j < named.len() && #[trigger] names[i]@ == #[trigger] named[j]@
}

/// The restriction covers a declaration of `source` with `names`: its pattern matches the
/// source and, where it is limited to names, one of them is imported.
pub open spec fn restriction_applies(pattern: RestrictedImportPattern, source: Seq<char>, names: Seq<String>) -> bool {
    source_matches(pattern.pattern_text(), source) && match pattern.named_list() {
        Some(named) => names_intersect(named, names),
        None => true,
    }
}

/// The first of the first `k` restrictions that covers the declaration.
pub open spec fn first_restriction(patterns: Seq<RestrictedImportPattern>, source: Seq<char>, names: Seq<String>, k: int) -> Option<int>
    decreases k,
{
    if k <= 0 {
        None
    } else {
        match first_restriction(patterns, source, names, k - 1) {
            Some(i) => Some(i),
            None => if restriction_applies(patterns[k - 1], source, names) {
                Some(k - 1)
            } else {
                None
            },
        }
    }
}

/// `"<source>" matches a restricted pattern`, followed by `: <message>` where the restriction
/// has a message.
pub open spec fn restricted_detail(source: Seq<char>, message: Option<Seq<char>>) -> Seq<char> {
    match message {
        Some(m) => "\""@ + source + "\" matches a restricted pattern: "@ + m,
        None => "\""@ + source + "\" matches a restricted pattern"@,
    }
}

/// What a declaration is reported for: the first restriction that covers it, at the whole
/// declaration.
pub open spec fn reference_finding(file: Seq<char>, index: LineIndex, config: NoRestrictedImportsRuleConfig, r: ModuleReference) -> Option<ViolationView> {
    match first_restriction(config.restricted@, r.source@, r.names@, config.restricted@.len() as int) {
        Some(i) => {
            let pos = span_position(index, r.span);
            Some(ViolationView {
                file,
                span: Some(r.span),
                line: Some(pos.line),
                column: Some(pos.column),
                rule: NO_RESTRICTED_IMPORTS_RULE_ID@,
                message: NO_RESTRICTED_IMPORTS_MESSAGE@,
                severity: config.severity,
                detail: Some(restricted_detail(r.source@, config.restricted@[i].message_text())),
                subject: Some(r.source@),
            })
        },
        None => None,
    }
}

/// The findings of the first `k` declarations.
pub open spec fn restricted_findings(file: Seq<char>, index: LineIndex, config: NoRestrictedImportsRuleConfig, refs: Seq<ModuleReference>, k: int) -> Seq<ViolationView>
    decreases k,
{
    if k <= 0 {
        Seq::empty()
    } else {
        let before = restricted_findings(file, index, config, refs, k - 1);
        match reference_finding(file, index, config, refs[k - 1]) {
            Some(v) => before.push(v),
            None => before,
        }
    }
}

fn holds_char(s: &str, c: char) -> (r: bool)
    ensures
        r == s@.contains(c),
{
    let v = crate::chars::chars_of(s);
    let n = v.len();
    let mut i: usize = 0;
    while i < n
        invariant
            n == v@.len(),
            v@ == s@,
            0 <= i <= n,
            forall|j: int| 0 <= j < i ==> v@[j] != c,
        decreases n - i,
    {
        if v[i] == c {
            return true;
        }
        i += 1;
    }
    false
}

fn matches_source(p: &str, source: &str) -> (r: bool)
    ensures
        r == source_matches(p@, source@),
{
    let glob = holds_char(p, '*') || holds_char(p, '?') || holds_char(p, '[');
    if glob {
        match match_glob(p, source) {
            Some(m) => {
                return m;
            },
            None => {},
        }
    }
    let mut below = string_of(p);
    push_str(&mut below, "/");
    str_equal(source, p) || str_starts_with(source, below.as_str())
}

fn intersects(named: &Vec<String>, names: &Vec<String>) -> (r: bool)
    ensures
        r == names_intersect(named@, names@),
{
    let n = names.len();
    let m = named.len();
    let mut i: usize = 0;
    while i < n
        invariant
            n == names@.len(),
            m == named@.len(),
            0 <= i <= n,
            forall|a: int, b: int| 0 <= a < i && 0 <= b < m ==> names@[a]@ != named@[b]@,
        decreases n - i,
    {
        let mut j: usize = 0;
        while j < m
            invariant
                n == names@.len(),
                m == named@.len(),
                0 <= i < n,
                0 <= j <= m,
                forall|b: int| 0 <= b < j ==> names@[i as int]@ != named@[b]@,
            decreases m - j,
        {
            if str_equal(names[i].as_str(), named[j].as_str()) {
                return true;
            }
            j += 1;
        }
        i += 1;
    }
    false
}

fn applies(pattern: &RestrictedImportPattern, source: &str, names: &Vec<String>) -> (r: bool)
    ensures
        r == restriction_applies(*pattern, source@, names@),
{
    if !matches_source(pattern.pattern(), source) {
        return false;
    }
    match pattern.named() {
        Some(named) => intersects(named, names),
        None => true,
    }
}

proof fn lemma_first_restriction_stays(patterns: Seq<RestrictedImportPattern>, source: Seq<char>, names: Seq<String>, k: int, m: int)
    requires
        0 <= k <= m,
        first_restriction(patterns, source, names, k) is Some,
    ensures
        first_restriction(patterns, source, names, m) == first_restriction(patterns, source, names, k),
    decreases m - k,
{
    if k < m {
        lemma_first_restriction_stays(patterns, source, names, k, m - 1);
    }
}

fn find_restriction(patterns: &Vec<RestrictedImportPattern>, source: &str, names: &Vec<String>) -> (r: Option<usize>)
    ensures
        match r {
            Some(i) => i < patterns@.len() && first_restriction(patterns@, source@, names@, patterns@.len() as int) == Some(i as int),
            None => first_restriction(patterns@, source@, names@, patterns@.len() as int) is None,
        },
{
    let n = patterns.len();
    let mut i: usize = 0;
    while i < n
        invariant
            n == patterns@.len(),
            0 <= i <= n,
            first_restriction(patterns@, source@, names@, i as int) is None,
        decreases n - i,
    {
        if applies(&patterns[i], source, names) {
            proof {
                lemma_first_restriction_stays(patterns@, source@, names@, i as int + 1, n as int);
            }
            return Some(i);
        }
        i += 1;
    }
    None
}

fn detail_of(source: &String, message: Option<&String>) -> (r: String)
    ensures
        r@ == restricted_detail(source@, match message {
            Some(m) => Some(m@),
            None => None,
        }),
{
    let mut d = string_of("\"");
    push_str(&mut d, source.as_str());
    match message {
        Some(m) => {
            push_str(&mut d, "\" matches a restricted pattern: ");
            push_str(&mut d, m.as_str());
        },
        None => {
            push_str(&mut d, "\" matches a restricted pattern");
        },
    }
    proof {
        assert(d@ =~= restricted_detail(source@, match message {
            Some(m) => Some(m@),
            None => None,
        }));
    }
    d
}

/// The finding for one declaration, where a restriction covers it (see `reference_finding`).
pub fn check_reference(file: &str, line_index: &LineIndex, config: &NoRestrictedImportsRuleConfig, reference: &ModuleReference) -> (r: Option<Violation>)
    ensures
        match reference_finding(file@, *line_index, *config, *reference) {
            Some(v) => r is Some && r->0@ == v,
            None => r is None,
        },
{
    match find_restriction(&config.restricted, reference.source.as_str(), &reference.names) {
        Some(i) => {
            let detail = detail_of(&reference.source, config.restricted[i].message());
            let pos = line_index.position_for(reference.span);
            Some(Violation::spanned(
                file,
                reference.span,
                pos.line,
                pos.column,
                NO_RESTRICTED_IMPORTS_RULE_ID,
                NO_RESTRICTED_IMPORTS_MESSAGE,
                config.severity,
                Some(detail),
                Some(copy_string(&reference.source)),
            ))
        },
        None => None,
    }
}

/// The findings of `no-restricted-imports` on the declarations of one module that name
/// another module, in source order: one per declaration that a restriction covers.
pub fn check_file(file: &str, references: &Vec<ModuleReference>, line_index: &LineIndex, config: &NoRestrictedImportsRuleConfig) -> (r: Vec<Violation>)
    ensures
        views(r@) == restricted_findings(file@, *line_index, *config, references@, references@.len() as int),
{
    let n = references.len();
    let mut violations: Vec<Violation> = Vec::new();
    let mut k: usize = 0;
    while k < n
        invariant
            n == references@.len(),
            0 <= k <= n,
            views(violations@) == restricted_findings(file@, *line_index, *config, references@, k as int),
        decreases n - k,
    {
        let ghost before = violations@;
        match check_reference(file, line_index, config, &references[k]) {
            Some(v) => {
                violations.push(v);
                proof {
                    assert(views(violations@) =~= views(before).push(v@));
                }
            },
            None => {},
        }
        k += 1;
    }
    violations
}

} // verus!
