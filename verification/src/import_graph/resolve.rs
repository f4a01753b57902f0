//! Resolving a relative module specifier to one of the project's files.
//!
//! The specifier is joined to the importing file's directory (`.` segments dropped, `..`
//! segments going up), and the first of these that is a project file is the target: the path
//! itself, then with `.ts`, with `.tsx`, then `index.ts` and `index.tsx` inside it. Paths are
//! compared by their segments.

use vstd::prelude::*;
use crate::chars::{chars_equal, chars_of, starts_with, str_starts_with, str_equal};
use crate::paths::{path_segments, segments};

verus! {

/// The characters of each segment.
pub open spec fn seg_views(v: Seq<Vec<char>>) -> Seq<Seq<char>> {
    v.map_values(|x: Vec<char>| x@)
}

/// `base` followed by `segs`, where each `..` removes the segment before it.
pub open spec fn normalize(base: Seq<Seq<char>>, segs: Seq<Seq<char>>) -> Seq<Seq<char>>
    decreases segs.len(),
{
    if segs.len() == 0 {
        base
    } else {
        let next = if segs[0] == ".."@ {
            if base.len() > 0 { base.drop_last() } else { base }
        } else {
            base.push(segs[0])
        };
        normalize(next, segs.drop_first())
    }
}

/// A specifier relative to the importing file.
pub open spec fn is_relative(spec: Seq<char>) -> bool {
    spec == "."@ || spec == ".."@ || starts_with(spec, "./"@) || starts_with(spec, "../"@)
}

/// The segments of the directory of `file`.
pub open spec fn dir_segments(file: Seq<char>) -> Seq<Seq<char>> {
    let s = segments(file);
    if s.len() > 0 { s.drop_last() } else { s }
}

/// `t` with `ext` added to its last segment.
pub open spec fn with_extension(t: Seq<Seq<char>>, ext: Seq<char>) -> Seq<Seq<char>> {
    t.drop_last().push(t.last() + ext)
}

/// The paths tried for a joined specifier, in order.
pub open spec fn candidates(t: Seq<Seq<char>>) -> Seq<Seq<Seq<char>>> {
    if t.len() == 0 {
        Seq::empty()
    } else {
        seq![t, with_extension(t, ".ts"@), with_extension(t, ".tsx"@), t.push("index.ts"@), t.push("index.tsx"@)]
    }
}

/// The index of the first file of `files` whose segments are `c`.
pub open spec fn file_with_segments(files: Seq<Seq<char>>, c: Seq<Seq<char>>) -> Option<int>
    decreases files.len(),
{
    if files.len() == 0 {
        None
    } else {
        match file_with_segments(files.drop_last(), c) {
            Some(k) => Some(k),
            None => if segments(files.last()) == c { Some(files.len() - 1) } else { None },
        }
    }
}

/// The index of the file that the first matching candidate of `cands` names.
pub open spec fn first_known(files: Seq<Seq<char>>, cands: Seq<Seq<Seq<char>>>) -> Option<int>
    decreases cands.len(),
{
    if cands.len() == 0 {
        None
    } else {
        match file_with_segments(files, cands[0]) {
            Some(k) => Some(k),
            None => first_known(files, cands.drop_first()),
        }
    }
}

/// The index in `files` of the file that `spec`, imported from `file`, resolves to.
pub open spec fn resolved_index(file: Seq<char>, spec: Seq<char>, files: Seq<Seq<char>>) -> Option<int> {
    if is_relative(spec) {
        first_known(files, candidates(normalize(dir_segments(file), segments(spec))))
    } else {
        None
    }
}

pub proof fn lemma_file_with_segments(files: Seq<Seq<char>>, c: Seq<Seq<char>>)
    ensures
        file_with_segments(files, c) matches Some(k) ==> 0 <= k < files.len() && segments(files[k]) == c,
    decreases files.len(),
{
    if files.len() > 0 {
        lemma_file_with_segments(files.drop_last(), c);
    }
}

pub proof fn lemma_first_known(files: Seq<Seq<char>>, cands: Seq<Seq<Seq<char>>>)
    ensures
        first_known(files, cands) matches Some(k) ==> 0 <= k < files.len(),
    decreases cands.len(),
{
    lemma_file_with_segments(files, cands[0]);
    if cands.len() > 0 {
        lemma_first_known(files, cands.drop_first());
    }
}

/// Whether two segment lists are equal.
pub fn segments_equal(a: &Vec<Vec<char>>, b: &Vec<Vec<char>>) -> (r: bool)
    ensures
        r == (seg_views(a@) == seg_views(b@)),
{
    if a.len() != b.len() {
        proof {
            assert(seg_views(a@).len() != seg_views(b@).len());
        }
        return false;
    }
    let n = a.len();
    let mut i: usize = 0;
    while i < n
        invariant
            n == a@.len(),
            n == b@.len(),
            0 <= i <= n,
            forall|k: int| 0 <= k < i ==> a@[k]@ == b@[k]@,
        decreases n - i,
    {
        if !chars_equal(a[i].as_slice(), b[i].as_slice()) {
            proof {
                assert(seg_views(a@)[i as int] != seg_views(b@)[i as int]);
            }
            return false;
        }
        i += 1;
    }
    proof {
        assert(seg_views(a@) =~= seg_views(b@));
    }
    true
}

fn copy_chars(v: &Vec<char>) -> (r: Vec<char>)
    ensures
        r@ == v@,
{
    let mut out: Vec<char> = Vec::new();
    let n = v.len();
    let mut i: usize = 0;
    while i < n
        invariant
            n == v@.len(),
            0 <= i <= n,
            out@ == v@.take(i as int),
        decreases n - i,
    {
        out.push(v[i]);
        i += 1;
        proof {
            assert(out@ =~= v@.take(i as int));
        }
    }
    proof {
        assert(out@ =~= v@);
    }
    out
}

fn copy_segments(v: &Vec<Vec<char>>) -> (r: Vec<Vec<char>>)
    ensures
        seg_views(r@) == seg_views(v@),
{
    let mut out: Vec<Vec<char>> = Vec::new();
    let n = v.len();
    let mut i: usize = 0;
    while i < n
        invariant
            n == v@.len(),
            0 <= i <= n,
            seg_views(out@) == seg_views(v@).take(i as int),
        decreases n - i,
    {
        let ghost before = seg_views(out@);
        out.push(copy_chars(&v[i]));
        proof {
            assert(seg_views(out@) =~= before.push(v@[i as int]@));
            assert(seg_views(v@).take(i as int + 1) =~= seg_views(v@).take(i as int).push(v@[i as int]@));
        }
        i += 1;
    }
    proof {
        assert(seg_views(v@).take(n as int) =~= seg_views(v@));
    }
    out
}

/// `base` followed by `segs`, where each `..` removes the segment before it.
pub fn normalize_segments(base: Vec<Vec<char>>, segs: &Vec<Vec<char>>) -> (r: Vec<Vec<char>>)
    ensures
        seg_views(r@) == normalize(seg_views(base@), seg_views(segs@)),
{
    let ghost goal = normalize(seg_views(base@), seg_views(segs@));
    let mut cur = base;
    let n = segs.len();
    proof {
        assert(seg_views(segs@).skip(0) =~= seg_views(segs@));
    }
    let mut i: usize = 0;
    while i < n
        invariant
            n == segs@.len(),
            0 <= i <= n,
            normalize(seg_views(cur@), seg_views(segs@).skip(i as int)) == goal,
        decreases n - i,
    {
        let ghost rest = seg_views(segs@).skip(i as int);
        proof {
            assert(rest[0] == segs@[i as int]@);
            assert(rest.drop_first() =~= seg_views(segs@).skip(i as int + 1));
        }
        let is_parent = segs[i].len() == 2 && segs[i][0] == '.' && segs[i][1] == '.';
        proof {
            reveal_strlit("..");
            if segs@[i as int]@.len() == 2 && segs@[i as int]@[0] == '.' && segs@[i as int]@[1] == '.' {
                assert(segs@[i as int]@ =~= ".."@);
            }
        }
        let ghost before = seg_views(cur@);
        if is_parent {
            if cur.len() > 0 {
                cur.pop();
                proof {
                    assert(seg_views(cur@) =~= before.drop_last());
                }
            }
        } else {
            cur.push(copy_chars(&segs[i]));
            proof {
                assert(seg_views(cur@) =~= before.push(segs@[i as int]@));
            }
        }
        i += 1;
    }
    proof {
        assert(seg_views(segs@).skip(n as int) =~= Seq::<Seq<char>>::empty());
    }
    cur
}

fn with_extension_exec(t: &Vec<Vec<char>>, ext: &str) -> (r: Vec<Vec<char>>)
    requires
        t@.len() > 0,
    ensures
        seg_views(r@) == with_extension(seg_views(t@), ext@),
{
    let mut out = copy_segments(t);
    let mut last = out.pop().unwrap();
    let e = chars_of(ext);
    let ghost old_last = last@;
    let m = e.len();
    let mut k: usize = 0;
    while k < m
        invariant
            m == e@.len(),
            0 <= k <= m,
            last@ == old_last + e@.take(k as int),
        decreases m - k,
    {
        last.push(e[k]);
        k += 1;
        proof {
            assert(last@ =~= old_last + e@.take(k as int));
        }
    }
    let ghost prefix = seg_views(out@);
    out.push(last);
    proof {
        assert(e@.take(m as int) =~= e@);
        assert(seg_views(out@) =~= prefix.push(old_last + ext@));
        assert(seg_views(out@) =~= with_extension(seg_views(t@), ext@));
    }
    out
}

fn with_segment(t: &Vec<Vec<char>>, name: &str) -> (r: Vec<Vec<char>>)
    ensures
        seg_views(r@) == seg_views(t@).push(name@),
{
    let mut out = copy_segments(t);
    let ghost prefix = seg_views(out@);
    out.push(chars_of(name));
    proof {
        assert(seg_views(out@) =~= prefix.push(name@));
    }
    out
}

/// The paths tried for a joined specifier, in order.
pub fn candidate_paths(t: &Vec<Vec<char>>) -> (r: Vec<Vec<Vec<char>>>)
    ensures
        r@.map_values(|c: Vec<Vec<char>>| seg_views(c@)) == candidates(seg_views(t@)),
{
    let mut out: Vec<Vec<Vec<char>>> = Vec::new();
    if t.len() == 0 {
        proof {
            assert(out@.map_values(|c: Vec<Vec<char>>| seg_views(c@)) =~= candidates(seg_views(t@)));
        }
        return out;
    }
    out.push(copy_segments(t));
    out.push(with_extension_exec(t, ".ts"));
    out.push(with_extension_exec(t, ".tsx"));
    out.push(with_segment(t, "index.ts"));
    out.push(with_segment(t, "index.tsx"));
    proof {
        assert(out@.map_values(|c: Vec<Vec<char>>| seg_views(c@)) =~= candidates(seg_views(t@)));
    }
    out
}

/// The index of the first file whose segments (listed in `file_segs`) are `c`.
pub fn find_file(files: Ghost<Seq<Seq<char>>>, file_segs: &Vec<Vec<Vec<char>>>, c: &Vec<Vec<char>>) -> (r: Option<usize>)
    requires
        file_segs@.len() == files@.len(),
        forall|k: int| 0 <= k < files@.len() ==> seg_views((#[trigger] file_segs@[k])@) == segments(files@[k]),
    ensures
        match r {
            Some(k) => file_with_segments(files@, seg_views(c@)) == Some(k as int) && k < files@.len(),
            None => file_with_segments(files@, seg_views(c@)) is None,
        },
{
    let n = file_segs.len();
    let mut i: usize = 0;
    while i < n
        invariant
            n == file_segs@.len(),
            n == files@.len(),
            0 <= i <= n,
            forall|k: int| 0 <= k < files@.len() ==> seg_views((#[trigger] file_segs@[k])@) == segments(files@[k]),
            file_with_segments(files@.take(i as int), seg_views(c@)) is None,
        decreases n - i,
    {
        proof {
            assert(files@.take(i as int + 1).drop_last() =~= files@.take(i as int));
        }
        if segments_equal(&file_segs[i], c) {
            proof {
                assert(files@.take(i as int + 1).last() == files@[i as int]);
                lemma_prefix_found(files@, seg_views(c@), i as int);
            }
            return Some(i);
        }
        i += 1;
    }
    proof {
        assert(files@.take(n as int) =~= files@);
    }
    None
}

proof fn lemma_prefix_found(files: Seq<Seq<char>>, c: Seq<Seq<char>>, i: int)
    requires
        0 <= i < files.len(),
        file_with_segments(files.take(i), c) is None,
        segments(files[i]) == c,
    ensures
        file_with_segments(files, c) == Some(i),
    decreases files.len() - i,
{
    assert(files.take(i + 1).drop_last() =~= files.take(i));
    assert(file_with_segments(files.take(i + 1), c) == Some(i));
    lemma_prefix_extends(files, c, i + 1, i);
}

proof fn lemma_prefix_extends(files: Seq<Seq<char>>, c: Seq<Seq<char>>, j: int, i: int)
    requires
        0 <= i < j <= files.len(),
        file_with_segments(files.take(j), c) == Some(i),
    ensures
        file_with_segments(files, c) == Some(i),
    decreases files.len() - j,
{
    if j < files.len() {
        assert(files.take(j + 1).drop_last() =~= files.take(j));
        lemma_prefix_extends(files, c, j + 1, i);
    } else {
        assert(files.take(j) =~= files);
    }
}

/// Whether `spec` is relative to the importing file.
pub fn is_relative_specifier(spec: &str) -> (r: bool)
    ensures
        r == is_relative(spec@),
{
    str_equal(spec, ".") || str_equal(spec, "..") || str_starts_with(spec, "./") || str_starts_with(spec, "../")
}

/// The index in `files` of the file that `spec`, imported from `file`, resolves to.
pub fn resolve_index(files: Ghost<Seq<Seq<char>>>, file_segs: &Vec<Vec<Vec<char>>>, file: &str, spec: &str) -> (r: Option<usize>)
    requires
        file_segs@.len() == files@.len(),
        forall|k: int| 0 <= k < files@.len() ==> seg_views((#[trigger] file_segs@[k])@) == segments(files@[k]),
    ensures
        match r {
            Some(k) => resolved_index(file@, spec@, files@) == Some(k as int) && k < files@.len(),
            None => resolved_index(file@, spec@, files@) is None,
        },
{
    if !is_relative_specifier(spec) {
        return None;
    }
    let mut dir = path_segments(file);
    proof {
        assert(seg_views(dir@) == segments(file@));
    }
    if dir.len() > 0 {
        dir.pop();
    }
    proof {
        assert(seg_views(dir@) =~= dir_segments(file@));
    }
    let spec_segs = path_segments(spec);
    proof {
        assert(seg_views(spec_segs@) == segments(spec@));
    }
    let joined = normalize_segments(dir, &spec_segs);
    let cands = candidate_paths(&joined);
    let ghost cs = candidates(normalize(dir_segments(file@), segments(spec@)));
    let m = cands.len();
    proof {
        assert(cs.skip(0) =~= cs);
        lemma_first_known(files@, cs);
    }
    let mut j: usize = 0;
    while j < m
        invariant
            m == cands@.len(),
            0 <= j <= m,
            cands@.map_values(|c: Vec<Vec<char>>| seg_views(c@)) == cs,
            file_segs@.len() == files@.len(),
            forall|k: int| 0 <= k < files@.len() ==> seg_views((#[trigger] file_segs@[k])@) == segments(files@[k]),
            first_known(files@, cs.skip(j as int)) == first_known(files@, cs),
            is_relative(spec@),
            cs == candidates(normalize(dir_segments(file@), segments(spec@))),
        decreases m - j,
    {
        proof {
            assert(cs.skip(j as int)[0] == seg_views(cands@[j as int]@));
            assert(cs.skip(j as int).drop_first() =~= cs.skip(j as int + 1));
        }
        match find_file(files, file_segs, &cands[j]) {
            Some(k) => {
                proof {
                    lemma_file_with_segments(files@, seg_views(cands@[j as int]@));
                    assert(first_known(files@, cs.skip(j as int)) == Some(k as int));
                    assert(is_relative(spec@));
                    assert(resolved_index(file@, spec@, files@) == first_known(files@, cs));
                }
                return Some(k);
            },
            None => {},
        }
        j += 1;
    }
    proof {
        assert(cs.skip(m as int) =~= Seq::<Seq<Seq<char>>>::empty());
    }
    None
}

} // verus!
