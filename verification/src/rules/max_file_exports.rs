//! `max-file-exports`: a file may export at most a configured number of names.
//!
//! The exports are counted by a lexical scan of the source: strings and comments are skipped,
//! and each `export` keyword is read as one statement whose exported names are counted.

use vstd::prelude::*;
use crate::chars::{chars_equal, chars_of};
use crate::config::FileExportsRuleConfig;
use crate::rules::{Violation, ViolationView, MAX_FILE_EXPORTS_RULE_ID};
use crate::lexer::{ident_end, ident_end_from, is_blank, is_blank_char, is_ident_start, is_ident_start_char, is_quote, is_quote_char, keyword_at, skip_blank, skip_blank_from, starts_keyword, ScanMode};

verus! {

pub const MAX_FILE_EXPORTS_MESSAGE: &'static str = "Split this file or reduce its public surface area.";

/// The position after the modifiers `declare`, `abstract` and `async` (and blank space) that
/// follow `i`.
pub open spec fn skip_modifiers(s: Seq<char>, i: int) -> int
    decreases s.len() - i,
{
    if 0 <= i < s.len() && is_blank(s[i]) {
        skip_modifiers(s, i + 1)
    } else if keyword_at(s, i, "declare"@) && "declare"@.len() > 0 {
        skip_modifiers(s, i + "declare"@.len())
    } else if keyword_at(s, i, "abstract"@) && "abstract"@.len() > 0 {
        skip_modifiers(s, i + "abstract"@.len())
    } else if keyword_at(s, i, "async"@) && "async"@.len() > 0 {
        skip_modifiers(s, i + "async"@.len())
    } else {
        i
    }
}

/// 1 where an identifier follows `i`, then (after blank space) `c`; else 0.
pub open spec fn identifier_before(s: Seq<char>, i: int, c: char) -> nat {
    let j = skip_blank(s, i);
    if j < s.len() && is_ident_start(s[j]) {
        let k = skip_blank(s, ident_end(s, j + 1));
        if k < s.len() && s[k] == c { 1 } else { 0 }
    } else {
        0
    }
}

/// 1 where an identifier follows `i`; else 0.
pub open spec fn identifier_follows(s: Seq<char>, i: int) -> nat {
    let j = skip_blank(s, i);
    if j < s.len() && is_ident_start(s[j]) { 1 } else { 0 }
}

/// How far a position inside a string moves: past the escaped character after a backslash.
pub open spec fn string_step(c: char) -> int {
    if c == '\\' { 2 } else { 1 }
}

/// The quote still open after the character `c` inside a string quoted by `q`.
pub open spec fn quote_after(c: char, q: char) -> Option<char> {
    if c == q { None } else { Some(q) }
}

/// The names of an export list counted from `i`, inside `depth` open braces: each specifier
/// (other than a bare `type` keyword) between top-level commas counts once.
pub open spec fn named_scan(s: Seq<char>, i: int, depth: nat, has: bool, quote: Option<char>) -> nat
    decreases s.len() - i,
{
    if i < 0 || i >= s.len() || depth == 0 {
        0
    } else {
        let cur = s[i];
        match quote {
            Some(q) => if i + string_step(cur) <= s.len() {
                named_scan(s, i + string_step(cur), depth, has, quote_after(cur, q))
            } else {
                0
            },
            None => if is_quote(cur) {
                named_scan(s, i + 1, depth, has, Some(cur))
            } else if cur == '{' {
                named_scan(s, i + 1, depth + 1, has, None)
            } else if cur == '}' {
                (if depth == 1 && has { 1nat } else { 0nat }) + named_scan(s, i + 1, (depth - 1) as nat, has, None)
            } else if cur == ',' && depth == 1 {
                (if has { 1nat } else { 0nat }) + named_scan(s, i + 1, depth, false, None)
            } else if depth == 1 && is_ident_start(cur) {
                let e = ident_end(s, i + 1);
                if i < e <= s.len() {
                    named_scan(s, e, depth, has || s.subrange(i, e) != "type"@, None)
                } else {
                    0
                }
            } else {
                named_scan(s, i + 1, depth, has, None)
            },
        }
    }
}

/// The bindings of a variable declaration counted from `i`: the first identifier after the
/// keyword and after each top-level comma, up to the end of the statement.
pub open spec fn var_scan(s: Seq<char>, i: int, braces: nat, brackets: nat, parens: nat, expects: bool, quote: Option<char>) -> nat
    decreases s.len() - i,
{
    if i < 0 || i >= s.len() {
        0
    } else {
        let cur = s[i];
        let top = braces == 0 && brackets == 0 && parens == 0;
        match quote {
            Some(q) => if i + string_step(cur) <= s.len() {
                var_scan(s, i + string_step(cur), braces, brackets, parens, expects, quote_after(cur, q))
            } else {
                0
            },
            None => if is_quote(cur) {
                var_scan(s, i + 1, braces, brackets, parens, expects, Some(cur))
            } else if cur == '{' {
                var_scan(s, i + 1, braces + 1, brackets, parens, expects, None)
            } else if cur == '}' {
                var_scan(s, i + 1, if braces == 0 { 0 } else { (braces - 1) as nat }, brackets, parens, expects, None)
            } else if cur == '[' {
                var_scan(s, i + 1, braces, brackets + 1, parens, expects, None)
            } else if cur == ']' {
                var_scan(s, i + 1, braces, if brackets == 0 { 0 } else { (brackets - 1) as nat }, parens, expects, None)
            } else if cur == '(' {
                var_scan(s, i + 1, braces, brackets, parens + 1, expects, None)
            } else if cur == ')' {
                var_scan(s, i + 1, braces, brackets, if parens == 0 { 0 } else { (parens - 1) as nat }, expects, None)
            } else if (cur == ';' || cur == '\n') && top {
                0
            } else if cur == ',' && top {
                var_scan(s, i + 1, braces, brackets, parens, true, None)
            } else if expects && is_ident_start(cur) {
                let e = ident_end(s, i + 1);
                if i < e <= s.len() {
                    1 + var_scan(s, e, braces, brackets, parens, false, None)
                } else {
                    0
                }
            } else {
                var_scan(s, i + 1, braces, brackets, parens, expects, None)
            },
        }
    }
}

/// The names exported by an export list that opens at `i`.
pub open spec fn export_list_count(s: Seq<char>, i: int) -> nat {
    if 0 <= i < s.len() && s[i] == '{' { named_scan(s, i + 1, 1, false, None) } else { 0 }
}

/// The names exported by the statement whose `export` keyword stands at `i`.
pub open spec fn statement_exports(s: Seq<char>, i: int) -> nat {
    let j = skip_blank(s, i + "export"@.len());
    if keyword_at(s, j, "default"@) {
        1
    } else if j < s.len() && s[j] == '*' {
        1
    } else if j < s.len() && s[j] == '{' {
        export_list_count(s, j)
    } else {
        let k = skip_modifiers(s, j);
        if k < s.len() && s[k] == '{' {
            export_list_count(s, k)
        } else if keyword_at(s, k, "type"@) {
            let m = skip_blank(s, k + "type"@.len());
            if m < s.len() && s[m] == '{' { export_list_count(s, m) } else { identifier_before(s, m, '=') }
        } else if keyword_at(s, k, "interface"@) {
            identifier_follows(s, k + "interface"@.len())
        } else if keyword_at(s, k, "function"@) {
            identifier_follows(s, k + "function"@.len())
        } else if keyword_at(s, k, "class"@) {
            identifier_follows(s, k + "class"@.len())
        } else if keyword_at(s, k, "enum"@) {
            identifier_follows(s, k + "enum"@.len())
        } else if keyword_at(s, k, "const"@) {
            var_scan(s, k + "const"@.len(), 0, 0, 0, true, None)
        } else if keyword_at(s, k, "let"@) {
            var_scan(s, k + "let"@.len(), 0, 0, 0, true, None)
        } else if keyword_at(s, k, "var"@) {
            var_scan(s, k + "var"@.len(), 0, 0, 0, true, None)
        } else {
            0
        }
    }
}

/// The exports of `s` counted from `i`: every `export` keyword in code (not in a string or a
/// comment) adds the names its statement exports.
pub open spec fn exports_from(s: Seq<char>, i: int, mode: ScanMode) -> nat
    decreases s.len() - i,
{
    if i < 0 || i >= s.len() {
        0
    } else {
        let cur = s[i];
        match mode {
            ScanMode::Quoted(q) => if cur == '\\' {
                exports_from(s, if i + 1 < s.len() { i + 2 } else { s.len() as int }, mode)
            } else {
                exports_from(s, i + 1, if cur == q { ScanMode::Code } else { mode })
            },
            ScanMode::LineComment => if cur == '\n' {
                exports_from(s, i + 1, ScanMode::Code)
            } else {
                exports_from(s, i + 1, mode)
            },
            ScanMode::BlockComment => if cur == '*' && i + 1 < s.len() && s[i + 1] == '/' {
                exports_from(s, i + 2, ScanMode::Code)
            } else {
                exports_from(s, i + 1, mode)
            },
            ScanMode::Code => if is_quote(cur) {
                exports_from(s, i + 1, ScanMode::Quoted(cur))
            } else if cur == '/' && i + 1 < s.len() && s[i + 1] == '/' {
                exports_from(s, i + 2, ScanMode::LineComment)
            } else if cur == '/' && i + 1 < s.len() && s[i + 1] == '*' {
                exports_from(s, i + 2, ScanMode::BlockComment)
            } else if keyword_at(s, i, "export"@) && "export"@.len() > 0 {
                statement_exports(s, i) + exports_from(s, i + "export"@.len(), ScanMode::Code)
            } else {
                exports_from(s, i + 1, ScanMode::Code)
            },
        }
    }
}

/// The number of names that a source file exports.
pub open spec fn export_count(s: Seq<char>) -> nat {
    exports_from(s, 0, ScanMode::Code)
}

/// `n`, or `usize::MAX` where it does not fit.
pub open spec fn saturated(n: nat) -> nat {
    if n > usize::MAX { usize::MAX as nat } else { n }
}

/// Reads the statement that follows an `export` keyword.
pub struct ExportScanner<'a> {
    pub source: &'a [char],
    pub index: usize,
}

impl<'a> ExportScanner<'a> {
    /// A scanner of `source` at `index`.
    pub fn new(source: &'a [char], index: usize) -> (r: Self)
        ensures
            r.source == source,
            r.index == index,
    {
        ExportScanner { source, index }
    }

    /// Moves past blank space.
    pub fn skip_whitespace(&mut self)
        requires
            old(self).index <= old(self).source@.len(),
        ensures
            final(self).source == old(self).source,
            final(self).index == skip_blank(old(self).source@, old(self).index as int),
            old(self).index <= final(self).index <= final(self).source@.len(),
    {
        self.index = skip_blank_from(self.source, self.index);
    }

    /// Moves past `kw` where it stands here as a whole word.
    pub fn consume_keyword(&mut self, kw: &[char]) -> (r: bool)
        requires
            old(self).index <= old(self).source@.len(),
        ensures
            final(self).source == old(self).source,
            r == keyword_at(old(self).source@, old(self).index as int, kw@),
            final(self).index == if r { old(self).index + kw@.len() } else { old(self).index as int },
            final(self).index <= final(self).source@.len(),
    {
        if !starts_keyword(self.source, self.index, kw) {
            return false;
        }
        let n = self.source.len();
        let k = kw.len();
        assert(self.index + k <= n);
        self.index = self.index + k;
        true
    }

    /// Moves past the blank space and modifiers before a declaration.
    pub fn skip_export_modifiers(&mut self)
        requires
            old(self).index <= old(self).source@.len(),
        ensures
            final(self).source == old(self).source,
            final(self).index == skip_modifiers(old(self).source@, old(self).index as int),
            final(self).index <= final(self).source@.len(),
    {
        let declare = chars_of("declare");
        let abstract_word = chars_of("abstract");
        let async_word = chars_of("async");
        let ghost s = self.source@;
        let ghost start = self.index as int;
        proof {
            reveal_strlit("declare");
            reveal_strlit("abstract");
            reveal_strlit("async");
        }
        loop
            invariant
                self.source@ == s,
                self.index <= s.len(),
                skip_modifiers(s, self.index as int) == skip_modifiers(s, start),
                declare@ == "declare"@,
                abstract_word@ == "abstract"@,
                async_word@ == "async"@,
            ensures
                self.source@ == s,
                self.index == skip_modifiers(s, start),
                self.index <= s.len(),
            decreases s.len() - self.index,
        {
            proof {
                reveal_strlit("declare");
                reveal_strlit("abstract");
                reveal_strlit("async");
            }
            if self.index < self.source.len() && is_blank_char(self.source[self.index]) {
                self.index = self.index + 1;
                continue;
            }
            if self.consume_keyword(declare.as_slice()) {
                continue;
            }
            if self.consume_keyword(abstract_word.as_slice()) {
                continue;
            }
            if self.consume_keyword(async_word.as_slice()) {
                continue;
            }
            break;
        }
    }

    /// The character here, if any.
    pub fn peek_byte(&self) -> (r: Option<char>)
        ensures
            r == (if self.index < self.source@.len() { Some(self.source@[self.index as int]) } else { None }),
    {
        if self.index < self.source.len() { Some(self.source[self.index]) } else { None }
    }

    /// Moves past `c` where it stands here.
    pub fn consume_byte(&mut self, c: char) -> (r: bool)
        requires
            old(self).index <= old(self).source@.len(),
        ensures
            final(self).source == old(self).source,
            r == (old(self).index < old(self).source@.len() && old(self).source@[old(self).index as int] == c),
            final(self).index == if r { old(self).index + 1 } else { old(self).index as int },
    {
        if self.index < self.source.len() && self.source[self.index] == c {
            self.index = self.index + 1;
            true
        } else {
            false
        }
    }

    /// Moves past blank space and the identifier after it, where there is one.
    pub fn next_identifier(&mut self) -> (r: bool)
        requires
            old(self).index <= old(self).source@.len(),
        ensures
            final(self).source == old(self).source,
            r == (identifier_follows(old(self).source@, old(self).index as int) == 1),
            final(self).index <= final(self).source@.len(),
            r ==> final(self).index == ident_end(old(self).source@, skip_blank(old(self).source@, old(self).index as int) + 1),
    {
        self.skip_whitespace();
        if self.index < self.source.len() && is_ident_start_char(self.source[self.index]) {
            self.index = ident_end_from(self.source, self.index + 1);
            true
        } else {
            false
        }
    }

    /// Whether the character here is `c`.
    pub fn at_byte(&self, c: char) -> (r: bool)
        ensures
            r == (self.index < self.source@.len() && self.source@[self.index as int] == c),
    {
        self.index < self.source.len() && self.source[self.index] == c
    }

    /// The names of the export list that opens here (0 where no list opens here).
    pub fn count_named_exports(&mut self) -> (r: usize)
        requires
            old(self).index <= old(self).source@.len(),
        ensures
            final(self).source == old(self).source,
            r == export_list_count(old(self).source@, old(self).index as int),
    {
        let ghost s = self.source@;
        if !self.consume_byte('{') {
            return 0;
        }
        let ghost i0 = self.index as int;
        let n = self.source.len();
        let mut count: usize = 0;
        let mut has_specifier = false;
        let mut brace_depth: usize = 1;
        let mut string_quote: Option<char> = None;
        let type_word = chars_of("type");
        while self.index < n && brace_depth > 0
            invariant
                self.source@ == s,
                n == s.len(),
                1 <= i0 <= self.index <= n,
                brace_depth <= self.index,
                count <= self.index,
                type_word@ == "type"@,
                count + named_scan(s, self.index as int, brace_depth as nat, has_specifier, string_quote)
                    == named_scan(s, i0, 1, false, None),
            decreases n - self.index,
        {
            let current = self.source[self.index];
            match string_quote {
                Some(q) => {
                    let step: usize = if current == '\\' { 2 } else { 1 };
                    if step > n - self.index {
                        self.index = n;
                    } else {
                        self.index = self.index + step;
                    }
                    if current == q {
                        string_quote = None;
                    }
                    continue;
                },
                None => {},
            }
            if is_quote_char(current) {
                string_quote = Some(current);
                self.index = self.index + 1;
            } else if current == '{' {
                brace_depth = brace_depth + 1;
                self.index = self.index + 1;
            } else if current == '}' {
                if brace_depth == 1 && has_specifier {
                    count = count + 1;
                }
                brace_depth = brace_depth - 1;
                self.index = self.index + 1;
            } else if current == ',' && brace_depth == 1 {
                if has_specifier {
                    count = count + 1;
                }
                has_specifier = false;
                self.index = self.index + 1;
            } else if brace_depth == 1 && is_ident_start_char(current) {
                let start = self.index;
                let end = ident_end_from(self.source, start + 1);
                if !chars_equal(&self.source[start..end], type_word.as_slice()) {
                    has_specifier = true;
                }
                self.index = end;
            } else {
                self.index = self.index + 1;
            }
        }
        count
    }

    /// The bindings of the variable declaration whose keyword ends here.
    pub fn count_variable_exports(&mut self) -> (r: usize)
        requires
            old(self).index <= old(self).source@.len(),
        ensures
            final(self).source == old(self).source,
            r == var_scan(old(self).source@, old(self).index as int, 0, 0, 0, true, None),
    {
        let ghost s = self.source@;
        let ghost i0 = self.index as int;
        let n = self.source.len();
        let mut count: usize = 0;
        let mut brace_depth: usize = 0;
        let mut bracket_depth: usize = 0;
        let mut paren_depth: usize = 0;
        let mut expects_binding = true;
        let mut string_quote: Option<char> = None;
        while self.index < n
            invariant
                self.source@ == s,
                n == s.len(),
                i0 <= self.index <= n,
                brace_depth <= self.index,
                bracket_depth <= self.index,
                paren_depth <= self.index,
                count <= self.index,
                count + var_scan(s, self.index as int, brace_depth as nat, bracket_depth as nat, paren_depth as nat,
                    expects_binding, string_quote) == var_scan(s, i0, 0, 0, 0, true, None),
            ensures
                self.source@ == s,
                count == var_scan(s, i0, 0, 0, 0, true, None),
            decreases n - self.index,
        {
            let current = self.source[self.index];
            match string_quote {
                Some(q) => {
                    let step: usize = if current == '\\' { 2 } else { 1 };
                    if step > n - self.index {
                        self.index = n;
                    } else {
                        self.index = self.index + step;
                    }
                    if current == q {
                        string_quote = None;
                    }
                    continue;
                },
                None => {},
            }
            let top = brace_depth == 0 && bracket_depth == 0 && paren_depth == 0;
            if is_quote_char(current) {
                string_quote = Some(current);
                self.index = self.index + 1;
            } else if current == '{' {
                brace_depth = brace_depth + 1;
                self.index = self.index + 1;
            } else if current == '}' {
                brace_depth = brace_depth.saturating_sub(1);
                self.index = self.index + 1;
            } else if current == '[' {
                bracket_depth = bracket_depth + 1;
                self.index = self.index + 1;
            } else if current == ']' {
                bracket_depth = bracket_depth.saturating_sub(1);
                self.index = self.index + 1;
            } else if current == '(' {
                paren_depth = paren_depth + 1;
                self.index = self.index + 1;
            } else if current == ')' {
                paren_depth = paren_depth.saturating_sub(1);
                self.index = self.index + 1;
            } else if (current == ';' || current == '\n') && top {
                break;
            } else if current == ',' && top {
                expects_binding = true;
                self.index = self.index + 1;
            } else if expects_binding && is_ident_start_char(current) {
                count = count + 1;
                expects_binding = false;
                self.index = ident_end_from(self.source, self.index + 1);
            } else {
                self.index = self.index + 1;
            }
        }
        count
    }

    /// Whether an identifier follows, then `c`.
    pub fn has_identifier_before_byte(&mut self, c: char) -> (r: bool)
        requires
            old(self).index <= old(self).source@.len(),
        ensures
            final(self).source == old(self).source,
            r == (identifier_before(old(self).source@, old(self).index as int, c) == 1),
    {
        if !self.next_identifier() {
            return false;
        }
        self.skip_whitespace();
        self.index < self.source.len() && self.source[self.index] == c
    }
}

/// The names exported by the statement whose `export` keyword stands at `index`.
fn count_export_statement(source: &[char], index: usize) -> (r: usize)
    requires
        keyword_at(source@, index as int, "export"@),
    ensures
        r == statement_exports(source@, index as int),
{
    let export_word = chars_of("export");
    let n = source.len();
    let k = export_word.len();
    assert(index + k <= n);
    let mut scanner = ExportScanner::new(source, index + k);
    scanner.skip_whitespace();
    if scanner.consume_keyword(chars_of("default").as_slice()) {
        return 1;
    }
    if scanner.consume_byte('*') {
        return 1;
    }
    if scanner.at_byte('{') {
        return scanner.count_named_exports();
    }
    scanner.skip_export_modifiers();
    if scanner.at_byte('{') {
        return scanner.count_named_exports();
    }
    let ghost k = scanner.index as int;
    if scanner.consume_keyword(chars_of("type").as_slice()) {
        scanner.skip_whitespace();
        if scanner.at_byte('{') {
            return scanner.count_named_exports();
        }
        return if scanner.has_identifier_before_byte('=') { 1 } else { 0 };
    }
    if scanner.consume_keyword(chars_of("interface").as_slice())
        || scanner.consume_keyword(chars_of("function").as_slice())
        || scanner.consume_keyword(chars_of("class").as_slice())
        || scanner.consume_keyword(chars_of("enum").as_slice())
    {
        return if scanner.next_identifier() { 1 } else { 0 };
    }
    if scanner.consume_keyword(chars_of("const").as_slice())
        || scanner.consume_keyword(chars_of("let").as_slice())
        || scanner.consume_keyword(chars_of("var").as_slice())
    {
        return scanner.count_variable_exports();
    }
    0
}

/// The number of names that `source` exports, or `usize::MAX` where that does not fit.
pub fn count_exports(source: &[char]) -> (r: usize)
    ensures
        r == saturated(export_count(source@)),
{
    let ghost s = source@;
    let n = source.len();
    let export_word = chars_of("export");
    let mut i: usize = 0;
    let mut mode = ScanMode::Code;
    let mut count: usize = 0;
    let ghost mut acc: nat = 0;
    while i < n
        invariant
            n == s.len(),
            s == source@,
            i <= n,
            export_word@ == "export"@,
            acc + exports_from(s, i as int, mode) == exports_from(s, 0, ScanMode::Code),
            count == saturated(acc),
        decreases n - i,
    {
        proof {
            reveal_strlit("export");
        }
        let cur = source[i];
        match mode {
            ScanMode::Quoted(q) => {
                if cur == '\\' {
                    i = if i + 1 < n { i + 2 } else { n };
                } else {
                    if cur == q {
                        mode = ScanMode::Code;
                    }
                    i = i + 1;
                }
            },
            ScanMode::LineComment => {
                if cur == '\n' {
                    mode = ScanMode::Code;
                }
                i = i + 1;
            },
            ScanMode::BlockComment => {
                if cur == '*' && i + 1 < n && source[i + 1] == '/' {
                    mode = ScanMode::Code;
                    i = i + 2;
                } else {
                    i = i + 1;
                }
            },
            ScanMode::Code => {
                if is_quote_char(cur) {
                    mode = ScanMode::Quoted(cur);
                    i = i + 1;
                } else if cur == '/' && i + 1 < n && source[i + 1] == '/' {
                    mode = ScanMode::LineComment;
                    i = i + 2;
                } else if cur == '/' && i + 1 < n && source[i + 1] == '*' {
                    mode = ScanMode::BlockComment;
                    i = i + 2;
                } else if starts_keyword(source, i, export_word.as_slice()) {
                    let k = count_export_statement(source, i);
                    proof {
                        acc = acc + k as nat;
                    }
                    count = count.saturating_add(k);
                    i = i + export_word.len();
                } else {
                    i = i + 1;
                }
            },
        }
    }
    count
}

/// The finding of a file that exports more names than `config` allows: one finding at the
/// first line and column where the export count exceeds `max_exports`, else none.
pub fn check_file(file: &str, source: &str, config: &FileExportsRuleConfig) -> (r: Vec<Violation>)
    ensures
        saturated(export_count(source@)) <= config.max_exports ==> r@.len() == 0,
        saturated(export_count(source@)) > config.max_exports ==> r@.len() == 1 && r@[0]@ == (ViolationView {
            file: file@,
            span: None,
            line: Some(1),
            column: Some(1),
            rule: MAX_FILE_EXPORTS_RULE_ID@,
            message: MAX_FILE_EXPORTS_MESSAGE@,
            severity: config.severity,
            detail: None,
            subject: None,
        }),
{
    let chars = chars_of(source);
    let export_count = count_exports(chars.as_slice());
    if export_count <= config.max_exports {
        return Vec::new();
    }
    let mut out: Vec<Violation> = Vec::new();
    out.push(Violation::located(file, Some(1), Some(1), MAX_FILE_EXPORTS_RULE_ID, MAX_FILE_EXPORTS_MESSAGE,
        config.severity, None, None));
    out
}

} // verus!
