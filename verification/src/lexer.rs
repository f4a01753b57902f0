//! Lexical pieces shared by the source scanners: identifiers, keywords, blank space, strings
//! and comments.

use vstd::prelude::*;

verus! {

/// A character that may start an identifier.
pub open spec fn is_ident_start(c: char) -> bool {
    ('a' <= c && c <= 'z') || ('A' <= c && c <= 'Z') || c == '_' || c == '$'
}

/// A character that may continue an identifier.
pub open spec fn is_ident_part(c: char) -> bool {
    is_ident_start(c) || ('0' <= c && c <= '9')
}

/// Position `i` of `s` holds an identifier character.
pub open spec fn ident_char_at(s: Seq<char>, i: int) -> bool {
    0 <= i < s.len() && is_ident_part(s[i])
}

/// `kw` stands at `i` as a whole word.
pub open spec fn keyword_at(s: Seq<char>, i: int, kw: Seq<char>) -> bool {
    &&& 0 <= i
    &&& i + kw.len() <= s.len()
    &&& s.subrange(i, i + kw.len()) == kw
    &&& !ident_char_at(s, i - 1)
    &&& !ident_char_at(s, i + kw.len())
}

/// A quote that opens a string.
pub open spec fn is_quote(c: char) -> bool {
    c == '\'' || c == '"' || c == '`'
}

/// Blank space between tokens.
pub open spec fn is_blank(c: char) -> bool {
    c == ' ' || c == '\t' || c == '\r' || c == '\n'
}

/// The first position at or after `i` that is not blank.
pub open spec fn skip_blank(s: Seq<char>, i: int) -> int
    decreases s.len() - i,
{
    if 0 <= i < s.len() && is_blank(s[i]) { skip_blank(s, i + 1) } else { i }
}

/// The end of the identifier characters that start at `i`.
pub open spec fn ident_end(s: Seq<char>, i: int) -> int
    decreases s.len() - i,
{
    if 0 <= i < s.len() && is_ident_part(s[i]) { ident_end(s, i + 1) } else { i }
}

pub proof fn lemma_skip_blank(s: Seq<char>, i: int)
    requires
        0 <= i <= s.len(),
    ensures
        i <= skip_blank(s, i) <= s.len(),
        skip_blank(s, i) < s.len() ==> !is_blank(s[skip_blank(s, i)]),
    decreases s.len() - i,
{
    if i < s.len() && is_blank(s[i]) {
        lemma_skip_blank(s, i + 1);
    }
}

pub proof fn lemma_ident_end(s: Seq<char>, i: int)
    requires
        0 <= i <= s.len(),
    ensures
        i <= ident_end(s, i) <= s.len(),
    decreases s.len() - i,
{
    if i < s.len() && is_ident_part(s[i]) {
        lemma_ident_end(s, i + 1);
    }
}


/// Where the file scan stands: in code, in a string, or in a comment.
#[derive(Clone, Copy, Debug, PartialEq, Eq, Structural)]
pub enum ScanMode {
    Code,
    Quoted(char),
    LineComment,
    BlockComment,
}

pub fn is_ident_start_char(c: char) -> (r: bool)
    ensures
        r == is_ident_start(c),
{
    ('a' <= c && c <= 'z') || ('A' <= c && c <= 'Z') || c == '_' || c == '$'
}

pub fn is_ident_part_char(c: char) -> (r: bool)
    ensures
        r == is_ident_part(c),
{
    is_ident_start_char(c) || ('0' <= c && c <= '9')
}

pub fn is_quote_char(c: char) -> (r: bool)
    ensures
        r == is_quote(c),
{
    c == '\'' || c == '"' || c == '`'
}

pub fn is_blank_char(c: char) -> (r: bool)
    ensures
        r == is_blank(c),
{
    c == ' ' || c == '\t' || c == '\r' || c == '\n'
}

/// Whether `kw` stands at `i` of `s` as a whole word.
pub fn starts_keyword(s: &[char], i: usize, kw: &[char]) -> (r: bool)
    ensures
        r == keyword_at(s@, i as int, kw@),
{
    let n = s.len();
    let k = kw.len();
    if i > n || k > n - i {
        return false;
    }
    let mut j: usize = 0;
    while j < k
        invariant
            n == s@.len(),
            k == kw@.len(),
            i + k <= n,
            0 <= j <= k,
            forall|t: int| 0 <= t < j ==> s@[i + t] == kw@[t],
        decreases k - j,
    {
        if s[i + j] != kw[j] {
            proof {
                assert(s@.subrange(i as int, i + k)[j as int] != kw@[j as int]);
            }
            return false;
        }
        j += 1;
    }
    proof {
        assert(s@.subrange(i as int, i + k) =~= kw@);
    }
    if i > 0 && is_ident_part_char(s[i - 1]) {
        return false;
    }
    if i + k < n && is_ident_part_char(s[i + k]) {
        return false;
    }
    true
}

pub fn skip_blank_from(s: &[char], i: usize) -> (r: usize)
    requires
        i <= s@.len(),
    ensures
        r == skip_blank(s@, i as int),
        i <= r <= s@.len(),
{
    let n = s.len();
    let mut j = i;
    while j < n && is_blank_char(s[j])
        invariant
            n == s@.len(),
            i <= j <= n,
            skip_blank(s@, j as int) == skip_blank(s@, i as int),
        decreases n - j,
    {
        j += 1;
    }
    j
}

pub fn ident_end_from(s: &[char], i: usize) -> (r: usize)
    requires
        i <= s@.len(),
    ensures
        r == ident_end(s@, i as int),
        i <= r <= s@.len(),
{
    let n = s.len();
    let mut j = i;
    while j < n && is_ident_part_char(s[j])
        invariant
            n == s@.len(),
            i <= j <= n,
            ident_end(s@, j as int) == ident_end(s@, i as int),
        decreases n - j,
    {
        j += 1;
    }
    j
}


} // verus!
