//! `no-abbreviations`: a declared name holds no abbreviation of a configured list (matched in
//! lower case) and matches no configured abbreviation pattern (a regular expression matched
//! without regard to case).

use vstd::prelude::*;
use crate::chars::{contains_seq, copy_string, push_str, str_contains, string_of};
use crate::rule_documentation::summary::string_views;
use crate::config::NoAbbreviationsRuleConfig;
use crate::rules::imports::sort_imports::{lowercase, to_lowercase};
use crate::rules::{views, Violation, ViolationView, NO_ABBREVIATIONS_RULE_ID};
use crate::syntax::{span_position, LineIndex, Span};

verus! {

pub const NO_ABBREVIATIONS_MESSAGE: &'static str = "Avoid abbreviations in identifiers.";

/// The flag that makes a regular expression match without regard to case.
pub const CASE_INSENSITIVE_FLAG: &'static str = "(?i)";

/// One step of the walk through a module's binding names, in source order: entering an object
/// pattern or an array pattern, leaving the pattern entered last, and a name that a declaration
/// binds.
#[derive(Debug)]
pub enum AbbreviationEvent {
    EnterObjectPattern,
    EnterArrayPattern,
    Exit,
    Binding { span: Span, name: String },
}

/// Whether `regex::Regex::new` accepts `pattern`.
pub uninterp spec fn regex_compiles(pattern: Seq<char>) -> bool;

/// Whether the regular expression `pattern`, compiled by `regex::Regex::new`, matches
/// somewhere in `text` (`Regex::is_match`).
pub uninterp spec fn regex_is_match(pattern: Seq<char>, text: Seq<char>) -> bool;

/// Compiles `pattern` with `regex::Regex::new`. Claimed: the result is `regex_compiles` of the
/// pattern. What the regex grammar accepts is not stated.
#[verifier::external_body]
fn compiles(pattern: &str) -> (r: bool)
    ensures
        r == regex_compiles(pattern@),
{
    regex::Regex::new(pattern).is_ok()
}

/// Compiles `pattern` with `regex::Regex::new` and runs `Regex::is_match` on `text`. Claimed:
/// where the pattern compiles, the result is `regex_is_match` of the two. How a regular
/// expression matches is not stated.
#[verifier::external_body]
fn is_match(pattern: &str, text: &str) -> (r: bool)
    requires
        regex_compiles(pattern@),
    ensures
        r == regex_is_match(pattern@, text@),
{
    match regex::Regex::new(pattern) {
        Ok(re) => re.is_match(text),
        Err(_) => false,
    }
}

/// `a` is in the allow list of the configuration.
pub open spec fn allowed(config: NoAbbreviationsRuleConfig, a: Seq<char>) -> bool {
    string_views(config.allow_abbreviations@).contains(a)
}

/// `a` alone, unless the allow list holds it.
pub open spec fn unless_allowed(config: NoAbbreviationsRuleConfig, a: Seq<char>) -> Seq<Seq<char>> {
    if allowed(config, a) {
        Seq::empty()
    } else {
        seq![a]
    }
}

/// The abbreviations looked for, in order: `btn`, `ctx` and `mgr` where the allow list does not
/// hold them, then the extra abbreviations of the configuration.
pub open spec fn abbreviation_list(config: NoAbbreviationsRuleConfig) -> Seq<Seq<char>> {
    unless_allowed(config, "btn"@) + unless_allowed(config, "ctx"@) + unless_allowed(config, "mgr"@)
        + string_views(config.extra_abbreviations@)
}

/// The first of the first `k` abbreviations that occurs in `lower`.
pub open spec fn first_contained(lower: Seq<char>, abbreviations: Seq<Seq<char>>, k: int) -> Option<int>
    decreases k,
{
    if k <= 0 {
        None
    } else {
        match first_contained(lower, abbreviations, k - 1) {
            Some(i) => Some(i),
            None => if contains_seq(lower, abbreviations[k - 1]) {
                Some(k - 1)
            } else {
                None
            },
        }
    }
}

/// `pattern` with the flag that makes it match without regard to case.
pub open spec fn case_insensitive(pattern: Seq<char>) -> Seq<char> {
    CASE_INSENSITIVE_FLAG@ + pattern
}

/// The patterns among `patterns` that do not compile with the flag that makes them match
/// without regard to case, in order.
pub open spec fn invalid_pattern_list(patterns: Seq<Seq<char>>) -> Seq<Seq<char>>
    decreases patterns.len(),
{
    if patterns.len() == 0 {
        Seq::empty()
    } else {
        let rest = invalid_pattern_list(patterns.drop_last());
        if regex_compiles(case_insensitive(patterns.last())) {
            rest
        } else {
            rest.push(patterns.last())
        }
    }
}

/// The abbreviation patterns of the configuration that do not compile, in order: the check
/// passes over them, and a caller warns of them.
pub fn invalid_patterns(config: &NoAbbreviationsRuleConfig) -> (r: Vec<String>)
    ensures
        string_views(r@) == invalid_pattern_list(string_views(config.abbreviation_patterns@)),
{
    let patterns = &config.abbreviation_patterns;
    let ghost ps = string_views(patterns@);
    let n = patterns.len();
    let mut out: Vec<String> = Vec::new();
    let mut j: usize = 0;
    proof {
        assert(ps.take(0) =~= Seq::<Seq<char>>::empty());
        assert(string_views(out@) =~= Seq::<Seq<char>>::empty());
    }
    while j < n
        invariant
            n == patterns@.len(),
            ps == string_views(patterns@),
            0 <= j <= n,
            string_views(out@) == invalid_pattern_list(ps.take(j as int)),
        decreases n - j,
    {
        let mut full = string_of(CASE_INSENSITIVE_FLAG);
        push_str(&mut full, patterns[j].as_str());
        let ghost before = out@;
        proof {
            assert(ps.take(j as int + 1).drop_last() =~= ps.take(j as int));
            assert(ps.take(j as int + 1).last() == ps[j as int]);
            assert(full@ == case_insensitive(ps[j as int]));
        }
        if !compiles(full.as_str()) {
            out.push(copy_string(&patterns[j]));
            proof {
                assert(string_views(out@) =~= string_views(before).push(ps[j as int]));
            }
        }
        j += 1;
    }
    proof {
        assert(ps.take(n as int) =~= ps);
    }
    out
}

/// The first of the first `k` patterns that compiles and matches `name` without regard to case;
/// a pattern that does not compile is passed over.
pub open spec fn first_matching(name: Seq<char>, patterns: Seq<Seq<char>>, k: int) -> Option<int>
    decreases k,
{
    if k <= 0 {
        None
    } else {
        match first_matching(name, patterns, k - 1) {
            Some(j) => Some(j),
            None => {
                let p = case_insensitive(patterns[k - 1]);
                if regex_compiles(p) && regex_is_match(p, name) {
                    Some(k - 1)
                } else {
                    None
                }
            },
        }
    }
}

/// `'<name>' contains the abbreviation '<a>'. Spell it out instead.`
pub open spec fn contains_detail(name: Seq<char>, a: Seq<char>) -> Seq<char> {
    "'"@ + name + "' contains the abbreviation '"@ + a + "'. Spell it out instead."@
}

/// `'<name>' matches the abbreviation pattern '<p>'. Spell it out instead.`
pub open spec fn pattern_detail(name: Seq<char>, p: Seq<char>) -> Seq<char> {
    "'"@ + name + "' matches the abbreviation pattern '"@ + p + "'. Spell it out instead."@
}

/// The finding at a name with the given detail.
pub open spec fn abbreviation_finding(file: Seq<char>, index: LineIndex, config: NoAbbreviationsRuleConfig, span: Span, name: Seq<char>, detail: Seq<char>) -> ViolationView {
    let pos = span_position(index, span);
    ViolationView {
        file,
        span: Some(span),
        line: Some(pos.line),
        column: Some(pos.column),
        rule: NO_ABBREVIATIONS_RULE_ID@,
        message: NO_ABBREVIATIONS_MESSAGE@,
        severity: config.severity,
        detail: Some(detail),
        subject: Some(name),
    }
}

/// What a bound name is reported for: the first abbreviation that its lower-case form holds,
/// else the first pattern that it matches; nothing where neither is found.
pub open spec fn name_finding(file: Seq<char>, index: LineIndex, config: NoAbbreviationsRuleConfig, span: Span, name: Seq<char>) -> Option<ViolationView> {
    let abbreviations = abbreviation_list(config);
    let patterns = string_views(config.abbreviation_patterns@);
    match first_contained(lowercase(name), abbreviations, abbreviations.len() as int) {
        Some(i) => Some(abbreviation_finding(file, index, config, span, name, contains_detail(name, abbreviations[i]))),
        None => match first_matching(name, patterns, patterns.len() as int) {
            Some(j) => Some(abbreviation_finding(file, index, config, span, name, pattern_detail(name, patterns[j]))),
            None => None,
        },
    }
}

/// The number of open object patterns among the open patterns (`true` marks an object
/// pattern).
pub open spec fn object_levels(frames: Seq<bool>) -> nat
    decreases frames.len(),
{
    if frames.len() == 0 {
        0
    } else {
        object_levels(frames.drop_last()) + if frames.last() { 1nat } else { 0nat }
    }
}

/// A name bound inside the open patterns `frames` is passed over: inside any pattern where
/// destructured names are ignored, inside an object pattern where properties are.
pub open spec fn passed_over(config: NoAbbreviationsRuleConfig, frames: Seq<bool>) -> bool {
    (config.ignore_destructured && frames.len() > 0) || (config.ignore_properties && object_levels(frames) > 0)
}

/// The findings of the first `k` steps of the walk, and the patterns open after them.
pub open spec fn abbreviation_walk(file: Seq<char>, index: LineIndex, config: NoAbbreviationsRuleConfig, events: Seq<AbbreviationEvent>, k: int) -> (Seq<ViolationView>, Seq<bool>)
    decreases k,
{
    if k <= 0 {
        (Seq::empty(), Seq::empty())
    } else {
        let (found, frames) = abbreviation_walk(file, index, config, events, k - 1);
        match events[k - 1] {
            AbbreviationEvent::EnterObjectPattern => (found, frames.push(true)),
            AbbreviationEvent::EnterArrayPattern => (found, frames.push(false)),
            AbbreviationEvent::Exit => if frames.len() == 0 {
                (found, frames)
            } else {
                (found, frames.drop_last())
            },
            AbbreviationEvent::Binding { span, name } => {
                if passed_over(config, frames) {
                    (found, frames)
                } else {
                    match name_finding(file, index, config, span, name@) {
                        Some(v) => (found.push(v), frames),
                        None => (found, frames),
                    }
                }
            },
        }
    }
}

pub(crate) fn holds_string(v: &Vec<String>, t: &str) -> (r: bool)
    ensures
        r == string_views(v@).contains(t@),
{
    let n = v.len();
    let mut i: usize = 0;
    while i < n
        invariant
            n == v@.len(),
            0 <= i <= n,
            forall|j: int| 0 <= j < i ==> v@[j]@ != t@,
        decreases n - i,
    {
        if crate::chars::str_equal(v[i].as_str(), t) {
            proof {
                assert(string_views(v@)[i as int] == t@);
            }
            return true;
        }
        i += 1;
    }
    proof {
        if string_views(v@).contains(t@) {
            let j = choose|j: int| 0 <= j < string_views(v@).len() && string_views(v@)[j] == t@;
            assert(v@[j]@ == t@);
        }
    }
    false
}

fn push_unless_allowed(list: &mut Vec<String>, config: &NoAbbreviationsRuleConfig, a: &str)
    ensures
        string_views(final(list)@) == string_views(old(list)@) + unless_allowed(*config, a@),
{
    if holds_string(&config.allow_abbreviations, a) {
        proof {
            assert(string_views(old(list)@) + unless_allowed(*config, a@) =~= string_views(old(list)@));
        }
    } else {
        let ghost before = list@;
        list.push(string_of(a));
        proof {
            assert(string_views(list@) =~= string_views(before) + unless_allowed(*config, a@));
        }
    }
}

/// The abbreviations looked for under `config` (see `abbreviation_list`).
pub fn abbreviations_of(config: &NoAbbreviationsRuleConfig) -> (r: Vec<String>)
    ensures
        string_views(r@) == abbreviation_list(*config),
{
    let mut list: Vec<String> = Vec::new();
    push_unless_allowed(&mut list, config, "btn");
    push_unless_allowed(&mut list, config, "ctx");
    push_unless_allowed(&mut list, config, "mgr");
    let extra = &config.extra_abbreviations;
    let n = extra.len();
    let ghost base = string_views(list@);
    let mut i: usize = 0;
    while i < n
        invariant
            n == extra@.len(),
            extra@ == config.extra_abbreviations@,
            0 <= i <= n,
            string_views(list@) == base + string_views(extra@).take(i as int),
        decreases n - i,
    {
        let ghost before = list@;
        list.push(copy_string(&extra[i]));
        proof {
            assert(string_views(extra@).take(i + 1) =~= string_views(extra@).take(i as int).push(extra@[i as int]@));
            assert(string_views(list@) =~= string_views(before).push(extra@[i as int]@));
        }
        i += 1;
    }
    proof {
        assert(string_views(extra@).take(n as int) =~= string_views(extra@));
        assert(base + string_views(extra@) =~= abbreviation_list(*config));
    }
    list
}

fn finding_for(file: &str, line_index: &LineIndex, config: &NoAbbreviationsRuleConfig, span: Span, name: &String, detail: String) -> (r: Violation)
    ensures
        r@ == abbreviation_finding(file@, *line_index, *config, span, name@, detail@),
{
    let pos = line_index.position_for(span);
    Violation::spanned(file, span, pos.line, pos.column, NO_ABBREVIATIONS_RULE_ID, NO_ABBREVIATIONS_MESSAGE, config.severity, Some(detail), Some(copy_string(name)))
}

fn first_pattern(name: &String, patterns: &Vec<String>) -> (r: Option<usize>)
    ensures
        match r {
            Some(j) => first_matching(name@, string_views(patterns@), patterns@.len() as int) == Some(j as int),
            None => first_matching(name@, string_views(patterns@), patterns@.len() as int) is None,
        },
        r matches Some(j) ==> j < patterns@.len(),
{
    let n = patterns.len();
    let mut j: usize = 0;
    while j < n
        invariant
            n == patterns@.len(),
            0 <= j <= n,
            first_matching(name@, string_views(patterns@), j as int) is None,
        decreases n - j,
    {
        let mut full = string_of(CASE_INSENSITIVE_FLAG);
        push_str(&mut full, patterns[j].as_str());
        proof {
            assert(full@ == case_insensitive(string_views(patterns@)[j as int]));
        }
        if compiles(full.as_str()) && is_match(full.as_str(), name.as_str()) {
            proof {
                lemma_first_matching_stays(name@, string_views(patterns@), j as int + 1, n as int);
            }
            return Some(j);
        }
        j += 1;
    }
    None
}

proof fn lemma_first_matching_stays(name: Seq<char>, patterns: Seq<Seq<char>>, k: int, m: int)
    requires
        0 <= k <= m,
        first_matching(name, patterns, k) is Some,
    ensures
        first_matching(name, patterns, m) == first_matching(name, patterns, k),
    decreases m - k,
{
    if k < m {
        lemma_first_matching_stays(name, patterns, k, m - 1);
    }
}

proof fn lemma_first_contained_stays(lower: Seq<char>, abbreviations: Seq<Seq<char>>, k: int, m: int)
    requires
        0 <= k <= m,
        first_contained(lower, abbreviations, k) is Some,
    ensures
        first_contained(lower, abbreviations, m) == first_contained(lower, abbreviations, k),
    decreases m - k,
{
    if k < m {
        lemma_first_contained_stays(lower, abbreviations, k, m - 1);
    }
}

fn first_abbreviation(lower: &String, abbreviations: &Vec<String>) -> (r: Option<usize>)
    ensures
        match r {
            Some(i) => first_contained(lower@, string_views(abbreviations@), abbreviations@.len() as int) == Some(i as int),
            None => first_contained(lower@, string_views(abbreviations@), abbreviations@.len() as int) is None,
        },
        r matches Some(i) ==> i < abbreviations@.len(),
{
    let n = abbreviations.len();
    let mut i: usize = 0;
    while i < n
        invariant
            n == abbreviations@.len(),
            0 <= i <= n,
            first_contained(lower@, string_views(abbreviations@), i as int) is None,
        decreases n - i,
    {
        if str_contains(lower.as_str(), abbreviations[i].as_str()) {
            proof {
                assert(string_views(abbreviations@)[i as int] == abbreviations@[i as int]@);
                lemma_first_contained_stays(lower@, string_views(abbreviations@), i as int + 1, n as int);
            }
            return Some(i);
        }
        proof {
            assert(string_views(abbreviations@)[i as int] == abbreviations@[i as int]@);
        }
        i += 1;
    }
    None
}

fn contains_detail_of(name: &String, a: &String) -> (r: String)
    ensures
        r@ == contains_detail(name@, a@),
{
    let mut d = string_of("'");
    push_str(&mut d, name.as_str());
    push_str(&mut d, "' contains the abbreviation '");
    push_str(&mut d, a.as_str());
    push_str(&mut d, "'. Spell it out instead.");
    proof {
        assert(d@ =~= contains_detail(name@, a@));
    }
    d
}

fn pattern_detail_of(name: &String, p: &String) -> (r: String)
    ensures
        r@ == pattern_detail(name@, p@),
{
    let mut d = string_of("'");
    push_str(&mut d, name.as_str());
    push_str(&mut d, "' matches the abbreviation pattern '");
    push_str(&mut d, p.as_str());
    push_str(&mut d, "'. Spell it out instead.");
    proof {
        assert(d@ =~= pattern_detail(name@, p@));
    }
    d
}

/// The finding for one bound name, where there is one (see `name_finding`); `abbreviations`
/// is the list that `abbreviations_of` gives for `config`.
pub fn check_name(file: &str, line_index: &LineIndex, config: &NoAbbreviationsRuleConfig, abbreviations: &Vec<String>, span: Span, name: &String) -> (r: Option<Violation>)
    requires
        string_views(abbreviations@) == abbreviation_list(*config),
    ensures
        match name_finding(file@, *line_index, *config, span, name@) {
            Some(v) => r is Some && r->0@ == v,
            None => r is None,
        },
{
    let lower = to_lowercase(name.as_str());
    proof {
        assert(string_views(abbreviations@).len() == abbreviations@.len());
        assert(string_views(config.abbreviation_patterns@).len() == config.abbreviation_patterns@.len());
    }
    match first_abbreviation(&lower, abbreviations) {
        Some(i) => {
            let detail = contains_detail_of(name, &abbreviations[i]);
            proof {
                assert(string_views(abbreviations@)[i as int] == abbreviations@[i as int]@);
            }
            Some(finding_for(file, line_index, config, span, name, detail))
        },
        None => {
            match first_pattern(name, &config.abbreviation_patterns) {
                Some(j) => {
                    let detail = pattern_detail_of(name, &config.abbreviation_patterns[j]);
                    proof {
                        assert(string_views(config.abbreviation_patterns@)[j as int] == config.abbreviation_patterns@[j as int]@);
                    }
                    Some(finding_for(file, line_index, config, span, name, detail))
                },
                None => None,
            }
        },
    }
}

proof fn lemma_object_levels_le(frames: Seq<bool>)
    ensures
        object_levels(frames) <= frames.len(),
    decreases frames.len(),
{
    if frames.len() > 0 {
        lemma_object_levels_le(frames.drop_last());
    }
}

/// The findings of `no-abbreviations` on the walk `events` of one module (see
/// `abbreviation_walk`).
pub fn check_file(file: &str, events: &Vec<AbbreviationEvent>, line_index: &LineIndex, config: &NoAbbreviationsRuleConfig) -> (r: Vec<Violation>)
    ensures
        views(r@) == abbreviation_walk(file@, *line_index, *config, events@, events@.len() as int).0,
{
    let abbreviations = abbreviations_of(config);
    let n = events.len();
    let mut violations: Vec<Violation> = Vec::new();
    let mut frames: Vec<bool> = Vec::new();
    let mut objects: usize = 0;
    let mut k: usize = 0;
    while k < n
        invariant
            n == events@.len(),
            0 <= k <= n,
            frames@.len() <= k,
            objects as nat == object_levels(frames@),
            string_views(abbreviations@) == abbreviation_list(*config),
            ({
                let (found, open) = abbreviation_walk(file@, *line_index, *config, events@, k as int);
                &&& views(violations@) == found
                &&& open == frames@
            }),
        decreases n - k,
    {
        let ghost before = violations@;
        let ghost f0 = frames@;
        proof {
            lemma_object_levels_le(frames@);
        }
        match &events[k] {
            AbbreviationEvent::EnterObjectPattern => {
                frames.push(true);
                objects = objects + 1;
                proof {
                    assert(frames@.drop_last() =~= f0);
                }
            },
            AbbreviationEvent::EnterArrayPattern => {
                frames.push(false);
                proof {
                    assert(frames@.drop_last() =~= f0);
                }
            },
            AbbreviationEvent::Exit => {
                match frames.pop() {
                    Some(was_object) => {
                        proof {
                            assert(frames@ =~= f0.drop_last());
                        }
                        if was_object {
                            objects = objects - 1;
                        }
                    },
                    None => {},
                }
            },
            AbbreviationEvent::Binding { span, name } => {
                let skip = (config.ignore_destructured && frames.len() > 0) || (config.ignore_properties && objects > 0);
                if !skip {
                    match check_name(file, line_index, config, &abbreviations, *span, name) {
                        Some(v) => {
                            violations.push(v);
                            proof {
                                assert(views(violations@) =~= views(before).push(v@));
                            }
                        },
                        None => {},
                    }
                }
            },
        }
        k += 1;
    }
    violations
}

} // verus!
