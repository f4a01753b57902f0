//! Finding the import statements of a source text.
//!
//! A lexical scan that skips strings and comments reads three forms: `import ... from "x"`
//! (and `import "x"`), `export ... from "x"`, and `import("x")`.

use vstd::prelude::*;
use crate::import_graph::ImportKind;
use crate::lexer::{ident_end, ident_end_from, is_blank, is_blank_char, is_ident_part, is_ident_part_char, is_ident_start,
    is_ident_start_char, is_quote, is_quote_char, keyword_at, skip_blank, skip_blank_from, starts_keyword, ScanMode};
use crate::chars::chars_of;

verus! {

/// The first position at or after `i` that holds `c` (the length where there is none).
pub open spec fn find_char(s: Seq<char>, i: int, c: char) -> int
    decreases s.len() - i,
{
    if i < 0 || i >= s.len() {
        s.len() as int
    } else if s[i] == c {
        i
    } else {
        find_char(s, i + 1, c)
    }
}

pub proof fn lemma_find_char(s: Seq<char>, i: int, c: char)
    requires
        0 <= i,
    ensures
        find_char(s, i, c) <= s.len(),
        i <= s.len() ==> i <= find_char(s, i, c),
        find_char(s, i, c) < s.len() ==> s[find_char(s, i, c)] == c,
    decreases s.len() - i,
{
    if i < s.len() && s[i] != c {
        lemma_find_char(s, i + 1, c);
    }
}

/// The string literal that opens at `m`: the bounds of its contents, where it closes.
pub open spec fn string_at(s: Seq<char>, m: int) -> Option<(int, int)> {
    if 0 <= m < s.len() && is_quote(s[m]) {
        let c = find_char(s, m + 1, s[m]);
        if c < s.len() { Some((m + 1, c)) } else { None }
    } else {
        None
    }
}

/// The position of the keyword `from` that ends the import clause starting at `k`: names,
/// commas, `*`, blank space and braced lists may come before it.
pub open spec fn clause_from(s: Seq<char>, k: int) -> Option<int>
    decreases s.len() - k,
{
    if k < 0 || k >= s.len() {
        None
    } else if keyword_at(s, k, "from"@) {
        Some(k)
    } else if s[k] == '{' {
        let c = find_char(s, k + 1, '}');
        if k < c < s.len() { clause_from(s, c + 1) } else { None }
    } else if is_ident_part(s[k]) || is_blank(s[k]) || s[k] == ',' || s[k] == '*' {
        clause_from(s, k + 1)
    } else {
        None
    }
}

/// The specifier after the keyword `from` at `f`.
pub open spec fn after_from(s: Seq<char>, f: int) -> Option<(int, int)> {
    string_at(s, skip_blank(s, f + "from"@.len()))
}

/// `kind` with the bounds of a specifier, where there is one.
pub open spec fn with_kind(kind: ImportKind, r: Option<(int, int)>) -> Option<(ImportKind, int, int)> {
    match r {
        Some((a, b)) => Some((kind, a, b)),
        None => None,
    }
}

/// What follows the keyword `import` that ends at `j`: a dynamic import, a bare import of a
/// module, or an import clause and `from`.
pub open spec fn parse_import(s: Seq<char>, j: int) -> Option<(ImportKind, int, int)> {
    let k = skip_blank(s, j);
    if k < s.len() && s[k] == '(' {
        with_kind(ImportKind::Dynamic, string_at(s, skip_blank(s, k + 1)))
    } else if k < s.len() && is_quote(s[k]) {
        with_kind(ImportKind::Static, string_at(s, k))
    } else {
        match clause_from(s, k) {
            Some(f) => with_kind(ImportKind::Static, after_from(s, f)),
            None => None,
        }
    }
}

/// What follows the keyword `export` that ends at `j`, where it re-exports: `*` (perhaps
/// `* as name`) or a braced list, perhaps after `type`, then `from`.
pub open spec fn parse_reexport(s: Seq<char>, j: int) -> Option<(ImportKind, int, int)> {
    let k0 = skip_blank(s, j);
    let k = if keyword_at(s, k0, "type"@) { skip_blank(s, k0 + "type"@.len()) } else { k0 };
    if k < s.len() && s[k] == '*' {
        let k2 = skip_blank(s, k + 1);
        let k4 = if keyword_at(s, k2, "as"@) {
            let k3 = skip_blank(s, k2 + "as"@.len());
            if k3 < s.len() && is_ident_start(s[k3]) { skip_blank(s, ident_end(s, k3 + 1)) } else { -1 }
        } else {
            k2
        };
        if k4 >= 0 && keyword_at(s, k4, "from"@) { with_kind(ImportKind::ReExport, after_from(s, k4)) } else { None }
    } else if k < s.len() && s[k] == '{' {
        let c = find_char(s, k + 1, '}');
        if c < s.len() {
            let k4 = skip_blank(s, c + 1);
            if keyword_at(s, k4, "from"@) { with_kind(ImportKind::ReExport, after_from(s, k4)) } else { None }
        } else {
            None
        }
    } else {
        None
    }
}

/// The imports found from `i` on: each as its kind, where its statement starts, and the
/// bounds of its specifier.
pub open spec fn imports_from(s: Seq<char>, i: int, mode: ScanMode) -> Seq<(ImportKind, int, int, int)>
    decreases s.len() - i,
{
    if i < 0 || i >= s.len() {
        Seq::empty()
    } else {
        let cur = s[i];
        match mode {
            ScanMode::Quoted(q) => if cur == '\\' {
                imports_from(s, if i + 1 < s.len() { i + 2 } else { s.len() as int }, mode)
            } else {
                imports_from(s, i + 1, if cur == q { ScanMode::Code } else { mode })
            },
            ScanMode::LineComment => if cur == '\n' {
                imports_from(s, i + 1, ScanMode::Code)
            } else {
                imports_from(s, i + 1, mode)
            },
            ScanMode::BlockComment => if cur == '*' && i + 1 < s.len() && s[i + 1] == '/' {
                imports_from(s, i + 2, ScanMode::Code)
            } else {
                imports_from(s, i + 1, mode)
            },
            ScanMode::Code => if is_quote(cur) {
                imports_from(s, i + 1, ScanMode::Quoted(cur))
            } else if cur == '/' && i + 1 < s.len() && s[i + 1] == '/' {
                imports_from(s, i + 2, ScanMode::LineComment)
            } else if cur == '/' && i + 1 < s.len() && s[i + 1] == '*' {
                imports_from(s, i + 2, ScanMode::BlockComment)
            } else if keyword_at(s, i, "import"@) && "import"@.len() > 0 {
                match parse_import(s, i + "import"@.len()) {
                    Some((kind, a, b)) => if i < b < s.len() {
                        seq![(kind, i, a, b)] + imports_from(s, b + 1, ScanMode::Code)
                    } else {
                        Seq::empty()
                    },
                    None => imports_from(s, i + "import"@.len(), ScanMode::Code),
                }
            } else if keyword_at(s, i, "export"@) && "export"@.len() > 0 {
                match parse_reexport(s, i + "export"@.len()) {
                    Some((kind, a, b)) => if i < b < s.len() {
                        seq![(kind, i, a, b)] + imports_from(s, b + 1, ScanMode::Code)
                    } else {
                        Seq::empty()
                    },
                    None => imports_from(s, i + "export"@.len(), ScanMode::Code),
                }
            } else {
                imports_from(s, i + 1, ScanMode::Code)
            },
        }
    }
}

/// The imports of a source text, in order.
pub open spec fn found_imports(s: Seq<char>) -> Seq<(ImportKind, int, int, int)> {
    imports_from(s, 0, ScanMode::Code)
}

fn find_char_from(s: &[char], i: usize, c: char) -> (r: usize)
    requires
        i <= s@.len(),
    ensures
        r == find_char(s@, i as int, c),
        i <= r <= s@.len(),
{
    let n = s.len();
    let mut j = i;
    while j < n && s[j] != c
        invariant
            n == s@.len(),
            i <= j <= n,
            find_char(s@, j as int, c) == find_char(s@, i as int, c),
        decreases n - j,
    {
        j += 1;
    }
    j
}

fn string_at_exec(s: &[char], m: usize) -> (r: Option<(usize, usize)>)
    requires
        m <= s@.len(),
    ensures
        match r {
            Some((a, b)) => string_at(s@, m as int) == Some((a as int, b as int)) && m < a <= b < s@.len(),
            None => string_at(s@, m as int) is None,
        },
{
    let n = s.len();
    if m < n && is_quote_char(s[m]) {
        let c = find_char_from(s, m + 1, s[m]);
        if c < n { Some((m + 1, c)) } else { None }
    } else {
        None
    }
}

fn clause_from_exec(s: &[char], k: usize) -> (r: Option<usize>)
    requires
        k <= s@.len(),
    ensures
        match r {
            Some(f) => clause_from(s@, k as int) == Some(f as int) && k <= f < s@.len() && keyword_at(s@, f as int, "from"@),
            None => clause_from(s@, k as int) is None,
        },
{
    let n = s.len();
    let from_word = chars_of("from");
    let mut j = k;
    while j < n
        invariant
            n == s@.len(),
            k <= j <= n,
            from_word@ == "from"@,
            clause_from(s@, j as int) == clause_from(s@, k as int),
        decreases n - j,
    {
        if starts_keyword(s, j, from_word.as_slice()) {
            return Some(j);
        }
        if s[j] == '{' {
            let c = find_char_from(s, j + 1, '}');
            if c < n {
                j = c + 1;
                continue;
            }
            return None;
        }
        if is_ident_part_char(s[j]) || is_blank_char(s[j]) || s[j] == ',' || s[j] == '*' {
            j += 1;
            continue;
        }
        return None;
    }
    None
}

fn after_from_exec(s: &[char], f: usize) -> (r: Option<(usize, usize)>)
    requires
        keyword_at(s@, f as int, "from"@),
    ensures
        match r {
            Some((a, b)) => after_from(s@, f as int) == Some((a as int, b as int)) && a <= b < s@.len() && f < a,
            None => after_from(s@, f as int) is None,
        },
{
    let n = s.len();
    let k = chars_of("from").len();
    assert(f + k <= n);
    let m = skip_blank_from(s, f + k);
    string_at_exec(s, m)
}

fn parse_import_exec(s: &[char], j: usize) -> (r: Option<(ImportKind, usize, usize)>)
    requires
        j <= s@.len(),
    ensures
        match r {
            Some((kind, a, b)) => parse_import(s@, j as int) == Some((kind, a as int, b as int)) && j < a <= b < s@.len(),
            None => parse_import(s@, j as int) is None,
        },
{
    let n = s.len();
    let k = skip_blank_from(s, j);
    if k < n && s[k] == '(' {
        let m = skip_blank_from(s, k + 1);
        return match string_at_exec(s, m) {
            Some((a, b)) => Some((ImportKind::Dynamic, a, b)),
            None => None,
        };
    }
    if k < n && is_quote_char(s[k]) {
        return match string_at_exec(s, k) {
            Some((a, b)) => Some((ImportKind::Static, a, b)),
            None => None,
        };
    }
    match clause_from_exec(s, k) {
        Some(f) => match after_from_exec(s, f) {
            Some((a, b)) => Some((ImportKind::Static, a, b)),
            None => None,
        },
        None => None,
    }
}

fn parse_reexport_exec(s: &[char], j: usize) -> (r: Option<(ImportKind, usize, usize)>)
    requires
        j <= s@.len(),
    ensures
        match r {
            Some((kind, a, b)) => parse_reexport(s@, j as int) == Some((kind, a as int, b as int)) && j < a <= b < s@.len(),
            None => parse_reexport(s@, j as int) is None,
        },
{
    let n = s.len();
    let type_word = chars_of("type");
    let as_word = chars_of("as");
    let from_word = chars_of("from");
    let k0 = skip_blank_from(s, j);
    let k = if starts_keyword(s, k0, type_word.as_slice()) {
        let t = type_word.len();
        assert(k0 + t <= n);
        skip_blank_from(s, k0 + t)
    } else {
        k0
    };
    if k < n && s[k] == '*' {
        let k2 = skip_blank_from(s, k + 1);
        let k4: usize;
        if starts_keyword(s, k2, as_word.as_slice()) {
            let t = as_word.len();
            assert(k2 + t <= n);
            let k3 = skip_blank_from(s, k2 + t);
            if k3 < n && is_ident_start_char(s[k3]) {
                let e = ident_end_from(s, k3 + 1);
                k4 = skip_blank_from(s, e);
            } else {
                return None;
            }
        } else {
            k4 = k2;
        }
        if starts_keyword(s, k4, from_word.as_slice()) {
            return match after_from_exec(s, k4) {
                Some((a, b)) => Some((ImportKind::ReExport, a, b)),
                None => None,
            };
        }
        return None;
    }
    if k < n && s[k] == '{' {
        let c = find_char_from(s, k + 1, '}');
        if c < n {
            let k4 = skip_blank_from(s, c + 1);
            if starts_keyword(s, k4, from_word.as_slice()) {
                return match after_from_exec(s, k4) {
                    Some((a, b)) => Some((ImportKind::ReExport, a, b)),
                    None => None,
                };
            }
        }
        return None;
    }
    None
}

/// The imports of `s`, in order: kind, start of the statement, and bounds of the specifier.
pub fn extract_imports(s: &[char]) -> (r: Vec<(ImportKind, usize, usize, usize)>)
    ensures
        r@.len() == found_imports(s@).len(),
        forall|k: int| 0 <= k < r@.len() ==> {
            let (kind, start, a, b) = #[trigger] r@[k];
            &&& found_imports(s@)[k] == (kind, start as int, a as int, b as int)
            &&& start < a <= b < s@.len()
        },
{
    let ghost total = found_imports(s@);
    let n = s.len();
    let import_word = chars_of("import");
    let export_word = chars_of("export");
    let mut out: Vec<(ImportKind, usize, usize, usize)> = Vec::new();
    let ghost mut found: Seq<(ImportKind, int, int, int)> = Seq::empty();
    let mut i: usize = 0;
    let mut mode = ScanMode::Code;
    while i < n
        invariant
            n == s@.len(),
            i <= n,
            import_word@ == "import"@,
            export_word@ == "export"@,
            found + imports_from(s@, i as int, mode) == total,
            out@.len() == found.len(),
            forall|k: int| 0 <= k < out@.len() ==> {
                let (kind, start, a, b) = #[trigger] out@[k];
                &&& found[k] == (kind, start as int, a as int, b as int)
                &&& start < a <= b < n
            },
        decreases n - i,
    {
        proof {
            reveal_strlit("import");
            reveal_strlit("export");
        }
        let cur = s[i];
        match mode {
            ScanMode::Quoted(q) => {
                if cur == '\\' {
                    i = if i + 1 < n { i + 2 } else { n };
                } else {
                    if cur == q {
                        mode = ScanMode::Code;
                    }
                    i = i + 1;
                }
            },
            ScanMode::LineComment => {
                if cur == '\n' {
                    mode = ScanMode::Code;
                }
                i = i + 1;
            },
            ScanMode::BlockComment => {
                if cur == '*' && i + 1 < n && s[i + 1] == '/' {
                    mode = ScanMode::Code;
                    i = i + 2;
                } else {
                    i = i + 1;
                }
            },
            ScanMode::Code => {
                if is_quote_char(cur) {
                    mode = ScanMode::Quoted(cur);
                    i = i + 1;
                } else if cur == '/' && i + 1 < n && s[i + 1] == '/' {
                    mode = ScanMode::LineComment;
                    i = i + 2;
                } else if cur == '/' && i + 1 < n && s[i + 1] == '*' {
                    mode = ScanMode::BlockComment;
                    i = i + 2;
                } else if starts_keyword(s, i, import_word.as_slice()) {
                    let t = import_word.len();
                    assert(i + t <= n);
                    match parse_import_exec(s, i + t) {
                        Some((kind, a, b)) => {
                            let ghost before = found;
                            out.push((kind, i, a, b));
                            proof {
                                found = found.push((kind, i as int, a as int, b as int));
                                assert(seq![(kind, i as int, a as int, b as int)] + imports_from(s@, b + 1, ScanMode::Code)
                                    =~= imports_from(s@, i as int, mode));
                                assert(found + imports_from(s@, b + 1, ScanMode::Code)
                                    =~= before + imports_from(s@, i as int, mode));
                            }
                            i = b + 1;
                        },
                        None => {
                            i = i + t;
                        },
                    }
                } else if starts_keyword(s, i, export_word.as_slice()) {
                    let t = export_word.len();
                    assert(i + t <= n);
                    match parse_reexport_exec(s, i + t) {
                        Some((kind, a, b)) => {
                            let ghost before = found;
                            out.push((kind, i, a, b));
                            proof {
                                found = found.push((kind, i as int, a as int, b as int));
                                assert(seq![(kind, i as int, a as int, b as int)] + imports_from(s@, b + 1, ScanMode::Code)
                                    =~= imports_from(s@, i as int, mode));
                                assert(found + imports_from(s@, b + 1, ScanMode::Code)
                                    =~= before + imports_from(s@, i as int, mode));
                            }
                            i = b + 1;
                        },
                        None => {
                            i = i + t;
                        },
                    }
                } else {
                    i = i + 1;
                }
            },
        }
    }
    proof {
        assert(found =~= total);
    }
    out
}

} // verus!
