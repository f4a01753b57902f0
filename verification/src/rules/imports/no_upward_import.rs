//! `no-upward-import`: relative imports climb at most a configured number of directories,
//! except in files that the allow patterns match.

use vstd::prelude::*;
use crate::config::{Severity, UpwardImportRuleConfig};
use crate::import_graph::{same_file, same_path, ImportEdge, ImportGraph};
use crate::rules::{views, Violation, ViolationView, NO_UPWARD_IMPORT_RULE_ID};
use crate::syntax::{span_position, LineIndex};
use crate::chars::chars_of;

verus! {

pub const NO_UPWARD_IMPORT_MESSAGE: &'static str = "Replace upward relative imports with local or project-root imports.";

/// Whether the glob `pattern` (where `*` and `?` do not match `/`) matches `path`; `None` where
/// `pattern` is no valid glob, or where the set made of it does not compile (a pattern too
/// large for the matcher).
pub uninterp spec fn glob_match(pattern: Seq<char>, path: Seq<char>) -> Option<bool>;

/// Builds the glob `pattern` with globset (`GlobBuilder::new(pattern).literal_separator(true)
/// .build()`), compiles it alone into a set (`GlobSetBuilder::add`, `GlobSetBuilder::build`)
/// and matches `path` with the set (`GlobSet::is_match`). Claimed: the result is `glob_match`
/// of the pattern and the path, `None` exactly where either build reports an error; what
/// matches is globset's and is not stated.
#[verifier::external_body]
pub(crate) fn match_glob(pattern: &str, path: &str) -> (r: Option<bool>)
    ensures
        r == glob_match(pattern@, path@),
{
    match globset::GlobBuilder::new(pattern).literal_separator(true).build() {
        Ok(glob) => match globset::GlobSetBuilder::new().add(glob).build() {
            Ok(set) => Some(set.is_match(path)),
            Err(_) => None,
        },
        Err(_) => None,
    }
}

/// Whether some pattern of `patterns` matches `file`; `None` where some pattern is no valid
/// glob.
pub open spec fn allow_outcome(patterns: Seq<String>, file: Seq<char>) -> Option<bool>
    decreases patterns.len(),
{
    if patterns.len() == 0 {
        Some(false)
    } else {
        match allow_outcome(patterns.drop_last(), file) {
            Some(b) => match glob_match(patterns.last()@, file) {
                Some(m) => Some(b || m),
                None => None,
            },
            None => None,
        }
    }
}

/// The number of leading `..` segments of a specifier.
pub open spec fn upward_depth(spec: Seq<char>) -> nat
    decreases spec.len(),
{
    if spec.len() >= 2 && spec[0] == '.' && spec[1] == '.' && (spec.len() == 2 || spec[2] == '/') {
        if spec.len() > 2 { 1 + upward_depth(spec.skip(3)) } else { 1 }
    } else {
        0
    }
}

/// The findings for the edges of `file` among `edges` that climb more than `max_depth`
/// directories, in order.
pub open spec fn upward_findings(edges: Seq<ImportEdge>, file: Seq<char>, max_depth: nat, index: LineIndex, severity: Severity) -> Seq<ViolationView>
    decreases edges.len(),
{
    if edges.len() == 0 {
        Seq::empty()
    } else {
        let e = edges.last();
        let rest = upward_findings(edges.drop_last(), file, max_depth, index, severity);
        if same_file(e.from@, file) && upward_depth(e.specifier@) > max_depth {
            let pos = span_position(index, e.span);
            rest.push(ViolationView {
                file,
                span: Some(e.span),
                line: Some(pos.line),
                column: Some(pos.column),
                rule: NO_UPWARD_IMPORT_RULE_ID@,
                message: NO_UPWARD_IMPORT_MESSAGE@,
                severity,
                detail: None,
                subject: None,
            })
        } else {
            rest
        }
    }
}

/// The findings of `file` given the outcome of its allow patterns: none where a pattern is
/// invalid or one matches the file; else one for each import that climbs too far.
pub open spec fn upward_report(g: ImportGraph, file: Seq<char>, index: LineIndex, config: UpwardImportRuleConfig, allowed: Option<bool>) -> Seq<ViolationView> {
    match allowed {
        Some(false) => upward_findings(g.edges@, file, config.max_depth as nat, index, config.severity),
        _ => Seq::empty(),
    }
}

/// The number of leading `..` segments of `spec`.
pub fn upward_depth_of(spec: &str) -> (r: usize)
    ensures
        r == upward_depth(spec@),
{
    let s = chars_of(spec);
    let n = s.len();
    let mut i: usize = 0;
    let mut count: usize = 0;
    proof {
        assert(s@.skip(0) =~= s@);
    }
    while n - i >= 2 && s[i] == '.' && s[i + 1] == '.' && (n - i == 2 || s[i + 2] == '/')
        invariant
            n == s@.len(),
            0 <= i <= n,
            count <= i,
            count + upward_depth(s@.skip(i as int)) == upward_depth(spec@),
            s@ == spec@,
        decreases n - i,
    {
        proof {
            assert(s@.skip(i as int)[0] == s@[i as int]);
            assert(s@.skip(i as int)[1] == s@[i as int + 1]);
            if n - i > 2 {
                assert(s@.skip(i as int)[2] == s@[i as int + 2]);
                assert(s@.skip(i as int).skip(3) =~= s@.skip(i as int + 3));
            }
        }
        count = count + 1;
        if n - i == 2 {
            i = n;
            proof {
                assert(s@.skip(i as int).len() == 0);
            }
        } else {
            i = i + 3;
        }
    }
    proof {
        if n - i >= 2 {
            assert(s@.skip(i as int)[0] == s@[i as int]);
            assert(s@.skip(i as int)[1] == s@[i as int + 1]);
            if n - i > 2 {
                assert(s@.skip(i as int)[2] == s@[i as int + 2]);
            }
        }
    }
    count
}

/// The findings of `file` given the outcome of its allow patterns (`None` where one of them is
/// no valid glob, else whether one matches the file).
pub fn check_file_with_allow(file: &str, line_index: &LineIndex, import_graph: &ImportGraph, config: &UpwardImportRuleConfig, allowed: Option<bool>) -> (r: Vec<Violation>)
    ensures
        views(r@) == upward_report(*import_graph, file@, *line_index, *config, allowed),
{
    let mut violations: Vec<Violation> = Vec::new();
    match allowed {
        Some(false) => {},
        _ => {
            return violations;
        },
    }
    let edges = &import_graph.edges;
    let n = edges.len();
    let mut i: usize = 0;
    while i < n
        invariant
            n == edges@.len(),
            edges@ == import_graph.edges@,
            0 <= i <= n,
            views(violations@) == upward_findings(edges@.take(i as int), file@, config.max_depth as nat, *line_index,
                config.severity),
        decreases n - i,
    {
        proof {
            assert(edges@.take(i as int + 1).drop_last() =~= edges@.take(i as int));
        }
        let edge = &edges[i];
        if same_path(edge.from.as_str(), file) && upward_depth_of(edge.specifier.as_str()) > config.max_depth {
            let pos = line_index.position_for(edge.span);
            let v = Violation::spanned(file, edge.span, pos.line, pos.column, NO_UPWARD_IMPORT_RULE_ID,
                NO_UPWARD_IMPORT_MESSAGE, config.severity, None, None);
            let ghost before = violations@;
            violations.push(v);
            proof {
                assert(views(violations@) =~= views(before).push(v@));
            }
        }
        i += 1;
    }
    proof {
        assert(edges@.take(n as int) =~= edges@);
    }
    violations
}

/// Whether an allow pattern of `config` matches `file`; `None` where one is no valid glob.
pub fn allow_patterns_match(config: &UpwardImportRuleConfig, file: &str) -> (r: Option<bool>)
    ensures
        r == allow_outcome(config.allow_patterns@, file@),
{
    patterns_match(&config.allow_patterns, file)
}

/// Whether one of the globs `patterns` matches `path`; `None` where one is no valid glob.
pub fn patterns_match(patterns: &Vec<String>, path: &str) -> (r: Option<bool>)
    ensures
        r == allow_outcome(patterns@, path@),
{
    let n = patterns.len();
    let mut any = false;
    let mut i: usize = 0;
    while i < n
        invariant
            n == patterns@.len(),
            0 <= i <= n,
            allow_outcome(patterns@.take(i as int), path@) == Some(any),
        decreases n - i,
    {
        proof {
            assert(patterns@.take(i as int + 1).drop_last() =~= patterns@.take(i as int));
        }
        match match_glob(patterns[i].as_str(), path) {
            Some(m) => {
                any = any || m;
            },
            None => {
                proof {
                    lemma_invalid_stays(patterns@, path@, i as int + 1);
                }
                return None;
            },
        }
        i += 1;
    }
    proof {
        assert(patterns@.take(n as int) =~= patterns@);
    }
    Some(any)
}

proof fn lemma_invalid_stays(patterns: Seq<String>, file: Seq<char>, j: int)
    requires
        0 < j <= patterns.len(),
        allow_outcome(patterns.take(j), file) is None,
    ensures
        allow_outcome(patterns, file) is None,
    decreases patterns.len() - j,
{
    if j < patterns.len() {
        assert(patterns.take(j + 1).drop_last() =~= patterns.take(j));
        lemma_invalid_stays(patterns, file, j + 1);
    } else {
        assert(patterns.take(j) =~= patterns);
    }
}

/// The findings of `file`: one for each of its imports that climbs more than
/// `config.max_depth` directories, in order; none where an allow pattern matches the file, and
/// none where an allow pattern is no valid glob.
pub fn check_file(file: &str, line_index: &LineIndex, import_graph: &ImportGraph, config: &UpwardImportRuleConfig) -> (r: Vec<Violation>)
    ensures
        views(r@) == upward_report(*import_graph, file@, *line_index, *config, allow_outcome(config.allow_patterns@, file@)),
{
    let allowed = allow_patterns_match(config, file);
    check_file_with_allow(file, line_index, import_graph, config, allowed)
}

} // verus!
