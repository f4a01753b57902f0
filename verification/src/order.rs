//! Lexicographic order of strings and of paths.
//!
//! Strings compare character by character; paths compare segment by segment, each segment
//! as a string.

use vstd::prelude::*;
use crate::chars::chars_of;
use crate::paths::{path_key, path_key_of};

verus! {

/// -1, 0 or 1 as `a` sorts before, equal to, or after `b`.
pub open spec fn char_seq_order(a: Seq<char>, b: Seq<char>) -> int
    decreases a.len(),
{
    if a.len() == 0 {
        if b.len() == 0 { 0 } else { -1 }
    } else if b.len() == 0 {
        1
    } else if a[0] < b[0] {
        -1
    } else if a[0] > b[0] {
        1
    } else {
        char_seq_order(a.drop_first(), b.drop_first())
    }
}

pub proof fn lemma_char_seq_order_props(a: Seq<char>, b: Seq<char>)
    ensures
        char_seq_order(a, b) == -char_seq_order(b, a),
        (char_seq_order(a, b) == 0) == (a == b),
        -1 <= char_seq_order(a, b) <= 1,
    decreases a.len(),
{
    if a.len() == 0 && b.len() == 0 {
        assert(a =~= b);
    }
    if a.len() > 0 && b.len() > 0 {
        lemma_char_seq_order_props(a.drop_first(), b.drop_first());
        if a[0] == b[0] && a.drop_first() == b.drop_first() {
            assert(a =~= seq![a[0]] + a.drop_first());
            assert(b =~= seq![b[0]] + b.drop_first());
        }
        if a == b {
            assert(a.drop_first() == b.drop_first());
        }
    }
}

pub proof fn lemma_char_seq_order_trans(a: Seq<char>, b: Seq<char>, c: Seq<char>)
    requires
        char_seq_order(a, b) <= 0,
        char_seq_order(b, c) <= 0,
    ensures
        char_seq_order(a, c) <= 0,
    decreases a.len(),
{
    if a.len() > 0 && b.len() > 0 && c.len() > 0 {
        if a[0] == b[0] && b[0] == c[0] {
            lemma_char_seq_order_trans(a.drop_first(), b.drop_first(), c.drop_first());
        }
    }
}

/// Compares two character slices.
pub fn compare_chars(a: &[char], b: &[char]) -> (r: i8)
    ensures
        r as int == char_seq_order(a@, b@),
{
    let n = a.len();
    let m = b.len();
    let mut i: usize = 0;
    proof {
        assert(a@.skip(0) =~= a@);
        assert(b@.skip(0) =~= b@);
    }
    while i < n && i < m
        invariant
            n == a@.len(),
            m == b@.len(),
            0 <= i <= n,
            i <= m,
            char_seq_order(a@, b@) == char_seq_order(a@.skip(i as int), b@.skip(i as int)),
        decreases n - i,
    {
        let x = a[i];
        let y = b[i];
        if x < y {
            return -1;
        }
        if x > y {
            return 1;
        }
        proof {
            assert(a@.skip(i as int).drop_first() =~= a@.skip(i as int + 1));
            assert(b@.skip(i as int).drop_first() =~= b@.skip(i as int + 1));
        }
        i += 1;
    }
    if i == n && i == m {
        0
    } else if i == n {
        -1
    } else {
        1
    }
}

/// Compares two strings character by character.
pub fn compare_str(a: &str, b: &str) -> (r: i8)
    ensures
        r as int == char_seq_order(a@, b@),
{
    let va = chars_of(a);
    let vb = chars_of(b);
    compare_chars(va.as_slice(), vb.as_slice())
}

/// -1, 0 or 1 as segment list `a` sorts before, equal to, or after `b`.
pub open spec fn segs_order(a: Seq<Seq<char>>, b: Seq<Seq<char>>) -> int
    decreases a.len(),
{
    if a.len() == 0 {
        if b.len() == 0 { 0 } else { -1 }
    } else if b.len() == 0 {
        1
    } else if char_seq_order(a[0], b[0]) != 0 {
        char_seq_order(a[0], b[0])
    } else {
        segs_order(a.drop_first(), b.drop_first())
    }
}

/// Path order, as `std::path::Path` orders paths: their components compared in turn (see
/// `path_key`).
pub open spec fn path_order(a: Seq<char>, b: Seq<char>) -> int {
    segs_order(path_key(a), path_key(b))
}

pub proof fn lemma_segs_order_props(a: Seq<Seq<char>>, b: Seq<Seq<char>>)
    ensures
        segs_order(a, b) == -segs_order(b, a),
        (segs_order(a, b) == 0) == (a == b),
        -1 <= segs_order(a, b) <= 1,
    decreases a.len(),
{
    if a.len() == 0 && b.len() == 0 {
        assert(a =~= b);
    }
    if a.len() > 0 && b.len() > 0 {
        lemma_char_seq_order_props(a[0], b[0]);
        lemma_segs_order_props(a.drop_first(), b.drop_first());
        if a[0] == b[0] && a.drop_first() == b.drop_first() {
            assert(a =~= seq![a[0]] + a.drop_first());
            assert(b =~= seq![b[0]] + b.drop_first());
        }
        if a == b {
            assert(a.drop_first() == b.drop_first());
        }
    }
}

pub proof fn lemma_segs_order_trans(a: Seq<Seq<char>>, b: Seq<Seq<char>>, c: Seq<Seq<char>>)
    requires
        segs_order(a, b) <= 0,
        segs_order(b, c) <= 0,
    ensures
        segs_order(a, c) <= 0,
    decreases a.len(),
{
    if a.len() > 0 && b.len() > 0 && c.len() > 0 {
        lemma_char_seq_order_props(a[0], b[0]);
        lemma_char_seq_order_props(b[0], c[0]);
        lemma_char_seq_order_props(a[0], c[0]);
        if char_seq_order(a[0], b[0]) <= 0 && char_seq_order(b[0], c[0]) <= 0 {
            lemma_char_seq_order_trans(a[0], b[0], c[0]);
        }
        if char_seq_order(a[0], b[0]) == 0 && char_seq_order(b[0], c[0]) == 0 {
            lemma_segs_order_trans(a.drop_first(), b.drop_first(), c.drop_first());
        }
        if char_seq_order(a[0], b[0]) < 0 && char_seq_order(b[0], c[0]) < 0 {
            lemma_char_seq_order_trans(a[0], b[0], c[0]);
        }
    }
}

/// Compares two paths component by component.
pub fn compare_paths(a: &str, b: &str) -> (r: i8)
    ensures
        r as int == path_order(a@, b@),
{
    let sa = path_key_of(a);
    let sb = path_key_of(b);
    let ghost xa = sa@.map_values(|v: Vec<char>| v@);
    let ghost xb = sb@.map_values(|v: Vec<char>| v@);
    let n = sa.len();
    let m = sb.len();
    let mut i: usize = 0;
    proof {
        assert(xa == path_key(a@));
        assert(xb == path_key(b@));
        assert(xa.skip(0) =~= xa);
        assert(xb.skip(0) =~= xb);
    }
    while i < n && i < m
        invariant
            n == sa@.len(),
            m == sb@.len(),
            xa == sa@.map_values(|v: Vec<char>| v@),
            xb == sb@.map_values(|v: Vec<char>| v@),
            xa == path_key(a@),
            xb == path_key(b@),
            0 <= i <= n,
            i <= m,
            segs_order(xa, xb) == segs_order(xa.skip(i as int), xb.skip(i as int)),
        decreases n - i,
    {
        let c = compare_chars(sa[i].as_slice(), sb[i].as_slice());
        proof {
            assert(xa.skip(i as int).len() > 0);
            assert(xb.skip(i as int).len() > 0);
            assert(xa.skip(i as int)[0] == sa@[i as int]@);
            assert(xb.skip(i as int)[0] == sb@[i as int]@);
        }
        if c != 0 {
            proof {
                let sx = xa.skip(i as int);
                let sy = xb.skip(i as int);
                assert(char_seq_order(sx[0], sy[0]) == c as int);
                assert(segs_order(sx, sy) == c as int);
            }
            return c;
        }
        proof {
            assert(xa.skip(i as int).drop_first() =~= xa.skip(i as int + 1));
            assert(xb.skip(i as int).drop_first() =~= xb.skip(i as int + 1));
        }
        i += 1;
    }
    proof {
        assert(xa.skip(i as int).len() == n - i);
        assert(xb.skip(i as int).len() == m - i);
    }
    if i == n && i == m {
        0
    } else if i == n {
        -1
    } else {
        1
    }
}

} // verus!
