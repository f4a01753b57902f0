//! `max-file-exports`, read from the export declarations of a module: a module exports no more
//! names than configured; each exported variable, declaration, specifier and `export *` counts
//! one, and `export default` counts one where default exports are counted.

use vstd::prelude::*;
use crate::config::FileExportsRuleConfig;
use crate::rules::max_file_exports::MAX_FILE_EXPORTS_MESSAGE;
use crate::rules::{views, Violation, ViolationView, MAX_FILE_EXPORTS_RULE_ID};
use crate::syntax::LineIndex;

verus! {

/// An export declaration that the walk of a module reaches: `export default`; `export *`
/// (with or without a name); `export` of a variable declaration with its number of
/// declarators; `export` of any other declaration; `export { ... }` with its number of
/// specifiers.
#[derive(Clone, Copy, Debug, PartialEq, Eq, Structural)]
pub enum ExportShape {
    Default,
    All,
    Variables(usize),
    Declaration,
    Specifiers(usize),
}

/// What one export declaration adds to the count.
pub open spec fn shape_count(config: FileExportsRuleConfig, e: ExportShape) -> nat {
    match e {
        ExportShape::Default => if config.count_default { 1 } else { 0 },
        ExportShape::All => 1,
        ExportShape::Variables(n) => n as nat,
        ExportShape::Declaration => 1,
        ExportShape::Specifiers(n) => n as nat,
    }
}

/// The count of the first `k` export declarations.
pub open spec fn export_total(config: FileExportsRuleConfig, exports: Seq<ExportShape>, k: int) -> nat
    decreases k,
{
    if k <= 0 {
        0
    } else {
        export_total(config, exports, k - 1) + shape_count(config, exports[k - 1])
    }
}

/// The one finding of a module that exports too much: at its first line and column.
pub open spec fn too_many_exports(file: Seq<char>, config: FileExportsRuleConfig) -> ViolationView {
    ViolationView {
        file,
        span: None,
        line: Some(1),
        column: Some(1),
        rule: MAX_FILE_EXPORTS_RULE_ID@,
        message: MAX_FILE_EXPORTS_MESSAGE@,
        severity: config.severity,
        detail: None,
        subject: None,
    }
}

fn count_of(config: &FileExportsRuleConfig, e: ExportShape) -> (r: usize)
    ensures
        r as nat == shape_count(*config, e),
{
    match e {
        ExportShape::Default => if config.count_default { 1 } else { 0 },
        ExportShape::All => 1,
        ExportShape::Variables(n) => n,
        ExportShape::Declaration => 1,
        ExportShape::Specifiers(n) => n,
    }
}

proof fn lemma_total_grows(config: FileExportsRuleConfig, exports: Seq<ExportShape>, k: int, m: int)
    requires
        0 <= k <= m,
    ensures
        export_total(config, exports, k) <= export_total(config, exports, m),
    decreases m - k,
{
    if k < m {
        lemma_total_grows(config, exports, k, m - 1);
    }
}

/// The findings of `max-file-exports` on the export declarations of one module: one finding
/// where their count exceeds `max-exports`, else none.
pub fn check_file(file: &str, exports: &Vec<ExportShape>, _line_index: &LineIndex, config: &FileExportsRuleConfig) -> (r: Vec<Violation>)
    ensures
        views(r@) == if export_total(*config, exports@, exports@.len() as int) > config.max_exports {
            seq![too_many_exports(file@, *config)]
        } else {
            Seq::<ViolationView>::empty()
        },
{
    let mut out: Vec<Violation> = Vec::new();
    let n = exports.len();
    let mut total: usize = 0;
    let mut k: usize = 0;
    while k < n
        invariant
            n == exports@.len(),
            0 <= k <= n,
            total as nat == export_total(*config, exports@, k as int),
            total <= config.max_exports,
            out@.len() == 0,
        decreases n - k,
    {
        let c = count_of(config, exports[k]);
        if c > config.max_exports - total {
            proof {
                lemma_total_grows(*config, exports@, k as int + 1, n as int);
            }
            let v = Violation::located(file, Some(1), Some(1), MAX_FILE_EXPORTS_RULE_ID, MAX_FILE_EXPORTS_MESSAGE, config.severity, None, None);
            out.push(v);
            proof {
                assert(views(out@) =~= seq![too_many_exports(file@, *config)]);
            }
            return out;
        }
        total = total + c;
        k += 1;
    }
    proof {
        assert(views(out@) =~= Seq::<ViolationView>::empty());
    }
    out
}

} // verus!
