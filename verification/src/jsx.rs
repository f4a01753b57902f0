//! Lexical facts about JSX: which files hold hooks, and where the first JSX element of a source
//! text opens.

use vstd::prelude::*;
use vstd::string::StringSliceAdditionalSpecFns;
use crate::chars::{chars_of, ends_with, str_ends_with};
use crate::paths::{file_name, file_name_of, has_segment, path_has_segment, stem, stem_of};
use crate::syntax::{position_at, LineIndex, Position};

verus! {

/// An ASCII letter.
pub open spec fn is_letter(c: u8) -> bool {
    (65 <= c && c <= 90) || (97 <= c && c <= 122)
}

/// A byte of an identifier.
pub open spec fn is_word_byte(c: u8) -> bool {
    is_letter(c) || (48 <= c && c <= 57) || c == 95 || c == 36
}

/// Blank space.
pub open spec fn is_space_byte(c: u8) -> bool {
    c == 32 || c == 9 || c == 13 || c == 10
}

/// A quote that opens a string.
pub open spec fn is_quote_byte(c: u8) -> bool {
    c == 39 || c == 34 || c == 96
}

/// The bytes of the keyword `return`.
pub open spec fn return_word() -> Seq<u8> {
    seq![114u8, 101u8, 116u8, 117u8, 114u8, 110u8]
}

/// The last position before `i` that is not blank (-1 where there is none).
pub open spec fn last_nonblank_before(b: Seq<u8>, i: int) -> int
    decreases i,
{
    if i <= 0 || i > b.len() {
        -1
    } else if is_space_byte(b[i - 1]) {
        last_nonblank_before(b, i - 1)
    } else {
        i - 1
    }
}

/// The keyword `return` ends at position `p` as a whole word.
pub open spec fn return_ends_at(b: Seq<u8>, p: int) -> bool {
    &&& 5 <= p < b.len()
    &&& b.subrange(p - 5, p + 1) == return_word()
    &&& !(p >= 6 && is_word_byte(b[p - 6]))
}

/// A `<` at `i` opens a JSX element or fragment: a letter or `>` follows it, and what comes
/// before it cannot end an operand (so it is no comparison and no type argument list), unless
/// that is the keyword `return`.
pub open spec fn opens_element(b: Seq<u8>, i: int) -> bool {
    &&& 0 <= i
    &&& i + 1 < b.len()
    &&& b[i] == 60
    &&& (is_letter(b[i + 1]) || b[i + 1] == 62)
    &&& {
        let p = last_nonblank_before(b, i);
        p < 0 || !(is_word_byte(b[p]) || b[p] == 41 || b[p] == 93) || return_ends_at(b, p)
    }
}

/// Where the scan of a text stands: in code, in a string, or in a comment.
#[derive(Clone, Copy, Debug, PartialEq, Eq, Structural)]
pub enum TextMode {
    Code,
    Quoted(u8),
    LineComment,
    BlockComment,
}

/// The first position at or after `i` where a JSX element opens in code (not in a string or a
/// comment).
pub open spec fn jsx_from(b: Seq<u8>, i: int, mode: TextMode) -> Option<int>
    decreases b.len() - i,
{
    if i < 0 || i >= b.len() {
        None
    } else {
        let cur = b[i];
        match mode {
            TextMode::Quoted(q) => if cur == 92 {
                jsx_from(b, if i + 1 < b.len() { i + 2 } else { b.len() as int }, mode)
            } else {
                jsx_from(b, i + 1, if cur == q { TextMode::Code } else { mode })
            },
            TextMode::LineComment => if cur == 10 {
                jsx_from(b, i + 1, TextMode::Code)
            } else {
                jsx_from(b, i + 1, mode)
            },
            TextMode::BlockComment => if cur == 42 && i + 1 < b.len() && b[i + 1] == 47 {
                jsx_from(b, i + 2, TextMode::Code)
            } else {
                jsx_from(b, i + 1, mode)
            },
            TextMode::Code => if is_quote_byte(cur) {
                jsx_from(b, i + 1, TextMode::Quoted(cur))
            } else if cur == 47 && i + 1 < b.len() && b[i + 1] == 47 {
                jsx_from(b, i + 2, TextMode::LineComment)
            } else if cur == 47 && i + 1 < b.len() && b[i + 1] == 42 {
                jsx_from(b, i + 2, TextMode::BlockComment)
            } else if opens_element(b, i) {
                Some(i)
            } else {
                jsx_from(b, i + 1, TextMode::Code)
            },
        }
    }
}

/// The offset of the first JSX element of a text, if any.
pub open spec fn first_jsx(b: Seq<u8>) -> Option<int> {
    jsx_from(b, 0, TextMode::Code)
}

/// A file of hooks: its stem ends in `.hook` or `.hooks`, or its name is `use` followed by
/// an upper-case letter.
pub open spec fn is_hook_name(name: Seq<char>) -> bool {
    ||| ends_with(stem(name), ".hook"@)
    ||| ends_with(stem(name), ".hooks"@)
    ||| (name.len() > 3 && name.take(3) == "use"@ && 'A' <= name[3] && name[3] <= 'Z')
}

/// A path of hooks: it lies in a `hooks` directory, or its file name is one of hooks.
pub open spec fn is_hook_path(file: Seq<char>) -> bool {
    has_segment(file, "hooks"@) || is_hook_name(file_name(file))
}

/// Whether `file` holds hooks, by its path.
pub fn is_hook_file(file: &str) -> (r: bool)
    ensures
        r == is_hook_path(file@),
{
    if path_has_segment(file, "hooks") {
        return true;
    }
    let name = file_name_of(file);
    let stem_text = stem_of(name.as_str());
    if str_ends_with(stem_text.as_str(), ".hook") || str_ends_with(stem_text.as_str(), ".hooks") {
        return true;
    }
    let chars = chars_of(name.as_str());
    let use_word = chars_of("use");
    proof {
        reveal_strlit("use");
    }
    if chars.len() > 3 && chars[0] == use_word[0] && chars[1] == use_word[1] && chars[2] == use_word[2]
        && 'A' <= chars[3] && chars[3] <= 'Z' {
        proof {
            assert(chars@.take(3) =~= "use"@);
        }
        return true;
    }
    proof {
        if chars@.len() > 3 && chars@.take(3) == "use"@ {
            assert(chars@.take(3)[0] == chars@[0]);
            assert(chars@.take(3)[1] == chars@[1]);
            assert(chars@.take(3)[2] == chars@[2]);
        }
    }
    false
}

fn is_letter_byte(c: u8) -> (r: bool)
    ensures
        r == is_letter(c),
{
    (65 <= c && c <= 90) || (97 <= c && c <= 122)
}

fn is_word(c: u8) -> (r: bool)
    ensures
        r == is_word_byte(c),
{
    is_letter_byte(c) || (48 <= c && c <= 57) || c == 95 || c == 36
}

fn is_space(c: u8) -> (r: bool)
    ensures
        r == is_space_byte(c),
{
    c == 32 || c == 9 || c == 13 || c == 10
}

fn is_quote(c: u8) -> (r: bool)
    ensures
        r == is_quote_byte(c),
{
    c == 39 || c == 34 || c == 96
}

fn last_nonblank(b: &[u8], i: usize) -> (r: Option<usize>)
    requires
        i <= b@.len(),
    ensures
        match r {
            Some(p) => p == last_nonblank_before(b@, i as int) && p < i,
            None => last_nonblank_before(b@, i as int) == -1,
        },
{
    let mut j = i;
    while j > 0 && is_space(b[j - 1])
        invariant
            j <= i <= b@.len(),
            last_nonblank_before(b@, j as int) == last_nonblank_before(b@, i as int),
        decreases j,
    {
        j -= 1;
    }
    if j == 0 { None } else { Some(j - 1) }
}

fn return_before(b: &[u8], p: usize) -> (r: bool)
    requires
        p < b@.len(),
    ensures
        r == return_ends_at(b@, p as int),
{
    if p < 5 {
        return false;
    }
    let word: [u8; 6] = [114u8, 101u8, 116u8, 117u8, 114u8, 110u8];
    let mut k: usize = 0;
    while k < 6
        invariant
            5 <= p < b@.len(),
            0 <= k <= 6,
            word@ == return_word(),
            forall|t: int| 0 <= t < k ==> b@[p - 5 + t] == word@[t],
        decreases 6 - k,
    {
        if b[p - 5 + k] != word[k] {
            proof {
                assert(b@.subrange(p - 5, p + 1)[k as int] != return_word()[k as int]);
            }
            return false;
        }
        k += 1;
    }
    proof {
        assert(b@.subrange(p - 5, p + 1) =~= return_word());
    }
    !(p >= 6 && is_word(b[p - 6]))
}

fn element_opens(b: &[u8], i: usize) -> (r: bool)
    requires
        i < b@.len(),
    ensures
        r == opens_element(b@, i as int),
{
    let n = b.len();
    if !(i + 1 < n && b[i] == 60 && (is_letter_byte(b[i + 1]) || b[i + 1] == 62)) {
        return false;
    }
    match last_nonblank(b, i) {
        None => true,
        Some(p) => !(is_word(b[p]) || b[p] == 41 || b[p] == 93) || return_before(b, p),
    }
}

/// The offset of the first JSX element of `b`, if any.
fn first_jsx_offset(b: &[u8]) -> (r: Option<usize>)
    ensures
        match r {
            Some(o) => first_jsx(b@) == Some(o as int) && o < b@.len(),
            None => first_jsx(b@) is None,
        },
{
    let n = b.len();
    let mut i: usize = 0;
    let mut mode = TextMode::Code;
    while i < n
        invariant
            n == b@.len(),
            i <= n,
            jsx_from(b@, i as int, mode) == first_jsx(b@),
        decreases n - i,
    {
        let cur = b[i];
        match mode {
            TextMode::Quoted(q) => {
                if cur == 92 {
                    i = if i + 1 < n { i + 2 } else { n };
                } else {
                    if cur == q {
                        mode = TextMode::Code;
                    }
                    i = i + 1;
                }
            },
            TextMode::LineComment => {
                if cur == 10 {
                    mode = TextMode::Code;
                }
                i = i + 1;
            },
            TextMode::BlockComment => {
                if cur == 42 && i + 1 < n && b[i + 1] == 47 {
                    mode = TextMode::Code;
                    i = i + 2;
                } else {
                    i = i + 1;
                }
            },
            TextMode::Code => {
                if is_quote(cur) {
                    mode = TextMode::Quoted(cur);
                    i = i + 1;
                } else if cur == 47 && i + 1 < n && b[i + 1] == 47 {
                    mode = TextMode::LineComment;
                    i = i + 2;
                } else if cur == 47 && i + 1 < n && b[i + 1] == 42 {
                    mode = TextMode::BlockComment;
                    i = i + 2;
                } else if element_opens(b, i) {
                    return Some(i);
                } else {
                    i = i + 1;
                }
            },
        }
    }
    None
}

/// The line and column (in bytes) where the first JSX element of `source` opens, if any.
pub fn first_jsx_location(source: &str) -> (r: Option<Position>)
    requires
        source.spec_bytes().len() < usize::MAX,
    ensures
        r == match first_jsx(source.spec_bytes()) {
            Some(o) => Some(position_at(source.spec_bytes(), o as nat)),
            None => None,
        },
{
    let b = source.as_bytes();
    match first_jsx_offset(b) {
        Some(o) => {
            let index = LineIndex::new(source);
            Some(index.position_at_offset(o))
        },
        None => None,
    }
}

} // verus!
