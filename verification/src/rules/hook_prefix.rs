//! `hook-prefix`: in a file of hooks, every named function, and every `let` or `const`
//! variable initialised with a function, is named with a configured prefix followed by a
//! capital.

use vstd::prelude::*;
use crate::chars::{copy_string, string_of};
use crate::config::HookPrefixRuleConfig;
use crate::jsx::{is_hook_file, is_hook_path};
use crate::rule_documentation::summary::string_views;
use crate::rules::boolean_prefix::{detail_of, has_valid_prefix, prefix_detail, valid_prefix, BoundName, VariableKind};
use crate::rules::{views, Violation, ViolationView, HOOK_PREFIX_RULE_ID};
use crate::syntax::{span_position, LineIndex};

verus! {

pub const HOOK_PREFIX_MESSAGE: &'static str = "Hook function name must start with one of the configured prefixes.";

/// One declarator of a variable declaration: its binding (`None` for a destructuring pattern)
/// and whether it is initialised with an arrow or a function expression.
#[derive(Debug)]
pub struct HookDeclarator {
    pub binding: Option<BoundName>,
    pub function_init: bool,
}

/// What the walk of a module reaches, in order: a function (a declaration or an expression)
/// with its name, if it has one; or a variable declaration with its keyword and declarators.
#[derive(Debug)]
pub enum HookItem {
    Function(Option<BoundName>),
    Variables { kind: VariableKind, declarators: Vec<HookDeclarator> },
}

/// The prefixes looked for: the configured ones, or `use` where none is configured.
pub open spec fn hook_prefix_list(config: HookPrefixRuleConfig) -> Seq<Seq<char>> {
    if config.prefixes@.len() == 0 {
        seq!["use"@]
    } else {
        string_views(config.prefixes@)
    }
}

/// The finding for a name without a valid prefix, where it has none.
pub open spec fn hook_name_finding(file: Seq<char>, index: LineIndex, config: HookPrefixRuleConfig, b: BoundName) -> Option<ViolationView> {
    if has_valid_prefix(b.name@, hook_prefix_list(config)) {
        None
    } else {
        let pos = span_position(index, b.span);
        Some(ViolationView {
            file,
            span: None,
            line: Some(pos.line),
            column: Some(pos.column),
            rule: HOOK_PREFIX_RULE_ID@,
            message: HOOK_PREFIX_MESSAGE@,
            severity: config.severity,
            detail: Some(prefix_detail(b.name@, hook_prefix_list(config))),
            subject: Some(b.name@),
        })
    }
}

/// The finding for one declarator of a checked declaration: a plain name initialised with a
/// function and without a valid prefix.
pub open spec fn hook_declarator_finding(file: Seq<char>, index: LineIndex, config: HookPrefixRuleConfig, d: HookDeclarator) -> Option<ViolationView> {
    match d.binding {
        Some(b) => if d.function_init { hook_name_finding(file, index, config, b) } else { None },
        None => None,
    }
}

/// The findings for the first `k` declarators.
pub open spec fn hook_declarator_findings(file: Seq<char>, index: LineIndex, config: HookPrefixRuleConfig, ds: Seq<HookDeclarator>, k: int) -> Seq<ViolationView>
    decreases k,
{
    if k <= 0 {
        Seq::empty()
    } else {
        let before = hook_declarator_findings(file, index, config, ds, k - 1);
        match hook_declarator_finding(file, index, config, ds[k - 1]) {
            Some(v) => before.push(v),
            None => before,
        }
    }
}

/// The findings for one item: a named function is checked by its name; the declarators of a
/// declaration other than `var` are checked.
pub open spec fn hook_item_findings(file: Seq<char>, index: LineIndex, config: HookPrefixRuleConfig, item: HookItem) -> Seq<ViolationView> {
    match item {
        HookItem::Function(id) => match id {
            Some(b) => match hook_name_finding(file, index, config, b) {
                Some(v) => seq![v],
                None => Seq::empty(),
            },
            None => Seq::empty(),
        },
        HookItem::Variables { kind, declarators } => if kind == VariableKind::Var {
            Seq::empty()
        } else {
            hook_declarator_findings(file, index, config, declarators@, declarators@.len() as int)
        },
    }
}

/// The findings for the first `k` items.
pub open spec fn hook_findings(file: Seq<char>, index: LineIndex, config: HookPrefixRuleConfig, items: Seq<HookItem>, k: int) -> Seq<ViolationView>
    decreases k,
{
    if k <= 0 {
        Seq::empty()
    } else {
        hook_findings(file, index, config, items, k - 1) + hook_item_findings(file, index, config, items[k - 1])
    }
}

/// The prefixes looked for under `config` (see `hook_prefix_list`).
pub fn hook_prefixes_of(config: &HookPrefixRuleConfig) -> (r: Vec<String>)
    ensures
        string_views(r@) == hook_prefix_list(*config),
{
    if config.prefixes.len() == 0 {
        let mut v: Vec<String> = Vec::new();
        v.push(string_of("use"));
        proof {
            assert(string_views(v@) =~= hook_prefix_list(*config));
        }
        v
    } else {
        let v = crate::chars::copy_strings(&config.prefixes);
        proof {
            assert(string_views(v@) =~= hook_prefix_list(*config));
        }
        v
    }
}

fn check_name(file: &str, line_index: &LineIndex, config: &HookPrefixRuleConfig, prefixes: &Vec<String>, b: &BoundName) -> (r: Option<Violation>)
    requires
        string_views(prefixes@) == hook_prefix_list(*config),
    ensures
        match hook_name_finding(file@, *line_index, *config, *b) {
            Some(v) => r is Some && r->0@ == v,
            None => r is None,
        },
{
    if valid_prefix(b.name.as_str(), prefixes) {
        None
    } else {
        let pos = line_index.position_for(b.span);
        let detail = detail_of(&b.name, prefixes);
        Some(Violation::located(file, Some(pos.line), Some(pos.column), HOOK_PREFIX_RULE_ID, HOOK_PREFIX_MESSAGE, config.severity, Some(detail), Some(copy_string(&b.name))))
    }
}

fn push_item_findings(out: &mut Vec<Violation>, file: &str, line_index: &LineIndex, config: &HookPrefixRuleConfig, prefixes: &Vec<String>, item: &HookItem)
    requires
        string_views(prefixes@) == hook_prefix_list(*config),
    ensures
        views(final(out)@) == views(old(out)@) + hook_item_findings(file@, *line_index, *config, *item),
{
    let ghost start = views(out@);
    match item {
        HookItem::Function(id) => {
            match id {
                Some(b) => match check_name(file, line_index, config, prefixes, b) {
                    Some(v) => {
                        out.push(v);
                    },
                    None => {},
                },
                None => {},
            }
            proof {
                assert(views(out@) =~= start + hook_item_findings(file@, *line_index, *config, *item));
            }
        },
        HookItem::Variables { kind, declarators } => {
            if *kind != VariableKind::Var {
                let m = declarators.len();
                let mut i: usize = 0;
                while i < m
                    invariant
                        m == declarators@.len(),
                        0 <= i <= m,
                        string_views(prefixes@) == hook_prefix_list(*config),
                        views(out@) == start + hook_declarator_findings(file@, *line_index, *config, declarators@, i as int),
                    decreases m - i,
                {
                    let d = &declarators[i];
                    let ghost before = out@;
                    match &d.binding {
                        Some(b) => {
                            if d.function_init {
                                match check_name(file, line_index, config, prefixes, b) {
                                    Some(v) => {
                                        out.push(v);
                                        proof {
                                            assert(views(out@) =~= views(before).push(v@));
                                        }
                                    },
                                    None => {},
                                }
                            }
                        },
                        None => {},
                    }
                    proof {
                        assert(views(out@) =~= start + hook_declarator_findings(file@, *line_index, *config, declarators@, i as int + 1));
                    }
                    i += 1;
                }
            }
            proof {
                assert(views(out@) =~= start + hook_item_findings(file@, *line_index, *config, *item));
            }
        },
    }
}

/// The findings of `hook-prefix` on what the walk of one module reaches: none outside files of
/// hooks; within them, one per named function and per function-valued `let` or `const`
/// variable whose name lacks a valid prefix, in walk order.
pub fn check_file(file: &str, items: &Vec<HookItem>, line_index: &LineIndex, config: &HookPrefixRuleConfig) -> (r: Vec<Violation>)
    ensures
        views(r@) == if is_hook_path(file@) {
            hook_findings(file@, *line_index, *config, items@, items@.len() as int)
        } else {
            Seq::empty()
        },
{
    let mut out: Vec<Violation> = Vec::new();
    if !is_hook_file(file) {
        proof {
            assert(views(out@) =~= Seq::<ViolationView>::empty());
        }
        return out;
    }
    let prefixes = hook_prefixes_of(config);
    let n = items.len();
    let mut k: usize = 0;
    proof {
        assert(views(out@) =~= hook_findings(file@, *line_index, *config, items@, 0));
    }
    while k < n
        invariant
            n == items@.len(),
            0 <= k <= n,
            string_views(prefixes@) == hook_prefix_list(*config),
            views(out@) == hook_findings(file@, *line_index, *config, items@, k as int),
        decreases n - k,
    {
        push_item_findings(&mut out, file, line_index, config, &prefixes, &items[k]);
        k += 1;
    }
    out
}

} // verus!
