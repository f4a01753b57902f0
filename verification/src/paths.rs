//! Slash-separated file paths, taken as strings.
//!
//! A path is split into segments at `/`; empty segments and `.` segments are
//! dropped, as path components drop them.

use vstd::prelude::*;
use crate::chars::{chars_of, chars_equal, string_from_chars};

verus! {

/// The segments completed so far and the segment being read, after reading `p`.
pub open spec fn segment_scan(p: Seq<char>) -> (Seq<Seq<char>>, Seq<char>)
    decreases p.len(),
{
    if p.len() == 0 {
        (Seq::empty(), Seq::empty())
    } else {
        let (done, cur) = segment_scan(p.drop_last());
        if p.last() == '/' {
            (close_segment(done, cur), Seq::empty())
        } else {
            (done, cur.push(p.last()))
        }
    }
}

/// Adds `cur` to `done` unless it is empty or `.`.
pub open spec fn close_segment(done: Seq<Seq<char>>, cur: Seq<char>) -> Seq<Seq<char>> {
    if cur.len() == 0 || cur == seq!['.'] {
        done
    } else {
        done.push(cur)
    }
}

/// The segments of a path.
pub open spec fn segments(p: Seq<char>) -> Seq<Seq<char>> {
    let (done, cur) = segment_scan(p);
    close_segment(done, cur)
}

/// The final segment of a path, or the empty sequence where there is none or it is `..`.
pub open spec fn file_name(p: Seq<char>) -> Seq<char> {
    let s = segments(p);
    if s.len() == 0 || s.last() == seq!['.', '.'] {
        Seq::empty()
    } else {
        s.last()
    }
}

/// The index of the last `.` in `s`, if any.
pub open spec fn last_dot(s: Seq<char>) -> Option<int>
    decreases s.len(),
{
    if s.len() == 0 {
        None
    } else if s.last() == '.' {
        Some(s.len() - 1)
    } else {
        last_dot(s.drop_last())
    }
}

/// A file name without its final extension; a name whose only dot leads it is kept whole.
pub open spec fn stem(name: Seq<char>) -> Seq<char> {
    match last_dot(name) {
        Some(i) => if i == 0 { name } else { name.take(i) },
        None => name,
    }
}

/// `name` is one of the segments of `p`.
pub open spec fn has_segment(p: Seq<char>, name: Seq<char>) -> bool {
    segments(p).contains(name)
}

/// The segments of a path, as strings.
pub fn path_segments(path: &str) -> (r: Vec<Vec<char>>)
    ensures
        r@.map_values(|v: Vec<char>| v@) == segments(path@),
{
    let v = chars_of(path);
    let mut done: Vec<Vec<char>> = Vec::new();
    let mut cur: Vec<char> = Vec::new();
    let n = v.len();
    let mut i: usize = 0;
    while i < n
        invariant
            v@ == path@,
            0 <= i <= n,
            n == v@.len(),
            done@.map_values(|x: Vec<char>| x@) == segment_scan(v@.take(i as int)).0,
            cur@ == segment_scan(v@.take(i as int)).1,
        decreases v@.len() - i,
    {
        let ghost before = v@.take(i as int);
        proof {
            assert(v@.take(i as int + 1).drop_last() =~= before);
        }
        let c = v[i];
        if c == '/' {
            let keep = cur.len() > 0 && !(cur.len() == 1 && cur[0] == '.');
            proof {
                assert(keep == !(cur@.len() == 0 || cur@ == seq!['.'])) by {
                    if cur@.len() == 1 && cur@[0] == '.' {
                        assert(cur@ =~= seq!['.']);
                    }
                }
            }
            if keep {
                let ghost old_done = done@;
                done.push(cur);
                proof {
                    assert(done@.map_values(|x: Vec<char>| x@) =~= old_done.map_values(|x: Vec<char>| x@).push(segment_scan(before).1));
                }
            }
            cur = Vec::new();
            proof {
                assert(cur@ =~= Seq::<char>::empty());
            }
        } else {
            cur.push(c);
        }
        i += 1;
    }
    proof {
        assert(v@.take(v@.len() as int) =~= v@);
    }
    let keep = cur.len() > 0 && !(cur.len() == 1 && cur[0] == '.');
    proof {
        if cur@.len() == 1 && cur@[0] == '.' {
            assert(cur@ =~= seq!['.']);
        }
    }
    if keep {
        let ghost old_done = done@;
        done.push(cur);
        proof {
            assert(done@.map_values(|x: Vec<char>| x@) =~= old_done.map_values(|x: Vec<char>| x@).push(segment_scan(path@).1));
        }
    }
    done
}

/// The final segment of a path (the empty string where there is none or it is `..`).
pub fn file_name_of(path: &str) -> (r: String)
    ensures
        r@ == file_name(path@),
{
    let segs = path_segments(path);
    proof {
        assert(segs@.len() == segments(path@).len());
    }
    if segs.len() == 0 {
        return String::new();
    }
    let last = &segs[segs.len() - 1];
    proof {
        assert(last@ == segments(path@).last());
    }
    let is_parent = last.len() == 2 && last[0] == '.' && last[1] == '.';
    proof {
        if last@.len() == 2 && last@[0] == '.' && last@[1] == '.' {
            assert(last@ =~= seq!['.', '.']);
        }
    }
    if is_parent {
        String::new()
    } else {
        string_from_chars(last.as_slice(), 0, last.len())
    }
}

/// Whether `name` is one of the segments of `path`.
pub fn path_has_segment(path: &str, name: &str) -> (r: bool)
    ensures
        r == has_segment(path@, name@),
{
    let segs = path_segments(path);
    let nv = chars_of(name);
    let mut i: usize = 0;
    while i < segs.len()
        invariant
            segs@.map_values(|v: Vec<char>| v@) == segments(path@),
            nv@ == name@,
            0 <= i <= segs@.len(),
            forall|k: int| 0 <= k < i ==> segments(path@)[k] != name@,
        decreases segs@.len() - i,
    {
        if chars_equal(segs[i].as_slice(), nv.as_slice()) {
            proof {
                assert(segments(path@)[i as int] == name@);
            }
            return true;
        }
        i += 1;
    }
    false
}

/// The stem of a file name: the name without its final extension.
pub fn stem_of(name: &str) -> (r: String)
    ensures
        r@ == stem(name@),
{
    let v = chars_of(name);
    let mut i: usize = v.len();
    proof {
        assert(v@.take(v@.len() as int) =~= v@);
    }
    while i > 0
        invariant
            v@ == name@,
            0 <= i <= v@.len(),
            last_dot(v@) == last_dot(v@.take(i as int)),
            v@.len() <= usize::MAX,
        decreases i,
    {
        proof {
            assert(v@.take(i as int).drop_last() =~= v@.take(i as int - 1));
        }
        if v[i - 1] == '.' {
            proof {
                assert(last_dot(v@) == Some(i as int - 1));
            }
            if i - 1 == 0 {
                return string_from_chars(v.as_slice(), 0, v.len());
            }
            let r = string_from_chars(v.as_slice(), 0, i - 1);
            return r;
        }
        i -= 1;
    }
    proof {
        assert(v@.take(0) =~= Seq::<char>::empty());
        assert(v@.subrange(0, v@.len() as int) =~= v@);
    }
    string_from_chars(v.as_slice(), 0, v.len())
}

/// The extension of a file name: what follows its last dot, where that dot does not lead it.
pub open spec fn extension(name: Seq<char>) -> Option<Seq<char>> {
    match last_dot(name) {
        Some(i) => if i == 0 { None } else { Some(name.skip(i + 1)) },
        None => None,
    }
}

/// The extension of a file name, if any.
pub fn extension_of(name: &str) -> (r: Option<String>)
    ensures
        match r {
            Some(e) => extension(name@) == Some(e@),
            None => extension(name@) is None,
        },
{
    let v = chars_of(name);
    let mut i: usize = v.len();
    proof {
        assert(v@.take(v@.len() as int) =~= v@);
    }
    while i > 0
        invariant
            v@ == name@,
            0 <= i <= v@.len(),
            last_dot(v@) == last_dot(v@.take(i as int)),
        decreases i,
    {
        proof {
            assert(v@.take(i as int).drop_last() =~= v@.take(i as int - 1));
        }
        if v[i - 1] == '.' {
            proof {
                assert(last_dot(v@) == Some(i as int - 1));
            }
            if i - 1 == 0 {
                return None;
            }
            let r = string_from_chars(v.as_slice(), i, v.len());
            proof {
                assert(r@ =~= name@.skip(i as int));
            }
            return Some(r);
        }
        i -= 1;
    }
    proof {
        assert(v@.take(0) =~= Seq::<char>::empty());
    }
    None
}

/// A path component written as characters so that comparing the characters orders components
/// as `std::path::Component` orders them: the root, then `.`, then `..`, then names, names by
/// their characters.
pub open spec fn component_key(segment: Seq<char>) -> Seq<char> {
    if segment == seq!['.', '.'] {
        seq!['\u{2}']
    } else {
        seq!['\u{3}'] + segment
    }
}

/// The key of the root component.
pub open spec fn root_key() -> Seq<char> {
    seq!['\u{0}']
}

/// The key of a leading `.` component.
pub open spec fn cur_dir_key() -> Seq<char> {
    seq!['\u{1}']
}

/// A path starts at the root: it begins with `/`.
pub open spec fn has_root(p: Seq<char>) -> bool {
    p.len() > 0 && p[0] == '/'
}

/// A path without a root keeps a leading `.` as a component: it is `.` or starts with `./`.
pub open spec fn keeps_cur_dir(p: Seq<char>) -> bool {
    !has_root(p) && p.len() > 0 && p[0] == '.' && (p.len() == 1 || p[1] == '/')
}

/// The components of a path as `std::path::Path` reads it (on a system whose separator is
/// `/`), each written by `component_key`: the root where the path starts with `/`, a leading
/// `.` where it is kept, then each segment, `..` as the parent component. Two paths are the
/// same path exactly where their keys are equal.
pub open spec fn path_key(p: Seq<char>) -> Seq<Seq<char>> {
    (if has_root(p) { seq![root_key()] } else { Seq::empty() })
        + (if keeps_cur_dir(p) { seq![cur_dir_key()] } else { Seq::empty() })
        + segments(p).map_values(|s: Seq<char>| component_key(s))
}

fn key_of_segment(v: Vec<char>) -> (r: Vec<char>)
    ensures
        r@ == component_key(v@),
{
    if v.len() == 2 && v[0] == '.' && v[1] == '.' {
        proof {
            assert(v@ =~= seq!['.', '.']);
        }
        let mut r: Vec<char> = Vec::new();
        r.push('\u{2}');
        proof {
            assert(r@ =~= seq!['\u{2}']);
        }
        r
    } else {
        let mut r: Vec<char> = Vec::new();
        r.push('\u{3}');
        let n = v.len();
        let mut i: usize = 0;
        while i < n
            invariant
                n == v@.len(),
                0 <= i <= n,
                r@ == seq!['\u{3}'] + v@.take(i as int),
            decreases n - i,
        {
            r.push(v[i]);
            proof {
                assert(v@.take(i as int + 1) =~= v@.take(i as int).push(v@[i as int]));
                assert(r@ =~= seq!['\u{3}'] + v@.take(i as int + 1));
            }
            i += 1;
        }
        proof {
            assert(v@.take(n as int) =~= v@);
            if v@ == seq!['.', '.'] {
                assert(v@.len() == 2 && v@[0] == '.' && v@[1] == '.');
            }
        }
        r
    }
}

/// The component keys of a path (see `path_key`).
pub fn path_key_of(path: &str) -> (r: Vec<Vec<char>>)
    ensures
        r@.map_values(|v: Vec<char>| v@) == path_key(path@),
{
    let chars = chars_of(path);
    let mut out: Vec<Vec<char>> = Vec::new();
    let root = chars.len() > 0 && chars[0] == '/';
    if root {
        let mut k: Vec<char> = Vec::new();
        k.push('\u{0}');
        out.push(k);
    }
    let cur = !root && chars.len() > 0 && chars[0] == '.' && (chars.len() == 1 || chars[1] == '/');
    if cur {
        let mut k: Vec<char> = Vec::new();
        k.push('\u{1}');
        out.push(k);
    }
    let ghost head = out@.map_values(|v: Vec<char>| v@);
    proof {
        assert(head =~= (if has_root(path@) { seq![root_key()] } else { Seq::empty() })
            + (if keeps_cur_dir(path@) { seq![cur_dir_key()] } else { Seq::empty() }));
    }
    let segs = path_segments(path);
    let ghost xs = segs@.map_values(|v: Vec<char>| v@);
    let n = segs.len();
    let mut i: usize = 0;
    let mut segs = segs;
    let ghost all = segs@;
    while i < n
        invariant
            n == all.len(),
            segs@.len() == n - i,
            forall|j: int| 0 <= j < segs@.len() ==> segs@[j] == all[i + j],
            xs == all.map_values(|v: Vec<char>| v@),
            xs == segments(path@),
            0 <= i <= n,
            out@.map_values(|v: Vec<char>| v@) == head + xs.take(i as int).map_values(|s: Seq<char>| component_key(s)),
        decreases n - i,
    {
        let ghost before = out@;
        let first = segs.remove(0);
        let k = key_of_segment(first);
        out.push(k);
        proof {
            assert(first@ == xs[i as int]);
            assert(xs.take(i as int + 1) =~= xs.take(i as int).push(xs[i as int]));
            assert(xs.take(i as int + 1).map_values(|s: Seq<char>| component_key(s)) =~= xs.take(i as int).map_values(|s: Seq<char>| component_key(s)).push(component_key(xs[i as int])));
            assert(out@.map_values(|v: Vec<char>| v@) =~= before.map_values(|v: Vec<char>| v@).push(k@));
            assert forall|j: int| 0 <= j < segs@.len() implies segs@[j] == all[i + 1 + j] by {
            }
        }
        i += 1;
    }
    proof {
        assert(xs.take(n as int) =~= xs);
    }
    out
}

} // verus!
