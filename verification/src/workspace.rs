//! The packages of a workspace: where each lives and which of its files it exposes.

use vstd::prelude::*;
use crate::chars::chars_equal;
use crate::import_graph::resolve::seg_views;
use crate::import_graph::{same_file, same_path};
use crate::paths::{path_segments, segments};

verus! {

/// One package: its name, its directory, and the files it exposes to other packages.
#[derive(Debug)]
pub struct Package {
    pub name: String,
    pub directory: String,
    pub public_entrypoints: Vec<String>,
}

/// The packages of a repository.
#[derive(Debug)]
pub struct Workspace {
    pub root: String,
    pub packages: Vec<Package>,
}

/// `file` lies inside the directory `dir`.
pub open spec fn inside(dir: Seq<char>, file: Seq<char>) -> bool {
    let d = segments(dir);
    let f = segments(file);
    d.len() <= f.len() && f.take(d.len() as int) == d
}

/// The index of the first package of `pkgs` that holds `file`.
pub open spec fn package_index(pkgs: Seq<Package>, file: Seq<char>) -> Option<int>
    decreases pkgs.len(),
{
    if pkgs.len() == 0 {
        None
    } else {
        match package_index(pkgs.drop_last(), file) {
            Some(k) => Some(k),
            None => if inside(pkgs.last().directory@, file) { Some(pkgs.len() - 1) } else { None },
        }
    }
}

/// The package that holds `file`: the first whose directory contains it.
pub open spec fn package_of(w: Workspace, file: Seq<char>) -> Option<Package> {
    match package_index(w.packages@, file) {
        Some(k) => Some(w.packages@[k]),
        None => None,
    }
}

/// `file` is one of the package's public entry points.
pub open spec fn is_entrypoint(p: Package, file: Seq<char>) -> bool {
    exists|k: int| 0 <= k < p.public_entrypoints@.len() && same_file((#[trigger] p.public_entrypoints@[k])@, file)
}

fn is_inside(dir: &str, file: &str) -> (r: bool)
    ensures
        r == inside(dir@, file@),
{
    let d = path_segments(dir);
    let f = path_segments(file);
    proof {
        assert(seg_views(d@) == segments(dir@));
        assert(seg_views(f@) == segments(file@));
    }
    if d.len() > f.len() {
        return false;
    }
    let n = d.len();
    let mut i: usize = 0;
    while i < n
        invariant
            n == d@.len(),
            n <= f@.len(),
            seg_views(d@) == segments(dir@),
            seg_views(f@) == segments(file@),
            0 <= i <= n,
            forall|k: int| 0 <= k < i ==> d@[k]@ == f@[k]@,
        decreases n - i,
    {
        if !chars_equal(d[i].as_slice(), f[i].as_slice()) {
            proof {
                assert(seg_views(f@).take(n as int)[i as int] != seg_views(d@)[i as int]);
            }
            return false;
        }
        i += 1;
    }
    proof {
        assert(seg_views(f@).take(n as int) =~= seg_views(d@));
    }
    true
}

impl Package {
    /// Whether `file` is one of this package's public entry points.
    pub fn exposes(&self, file: &str) -> (r: bool)
        ensures
            r == is_entrypoint(*self, file@),
    {
        let n = self.public_entrypoints.len();
        let mut k: usize = 0;
        while k < n
            invariant
                n == self.public_entrypoints@.len(),
                0 <= k <= n,
                forall|t: int| 0 <= t < k ==> !same_file((#[trigger] self.public_entrypoints@[t])@, file@),
            decreases n - k,
        {
            if same_path(self.public_entrypoints[k].as_str(), file) {
                return true;
            }
            k += 1;
        }
        false
    }
}

impl Workspace {
    /// The package that holds `file`: the first whose directory contains it.
    pub fn package_for(&self, file: &str) -> (r: Option<&Package>)
        ensures
            match r {
                Some(p) => package_of(*self, file@) == Some(*p),
                None => package_of(*self, file@) is None,
            },
    {
        let pkgs = &self.packages;
        let n = pkgs.len();
        let mut i: usize = 0;
        while i < n
            invariant
                n == pkgs@.len(),
                pkgs@ == self.packages@,
                0 <= i <= n,
                package_index(pkgs@.take(i as int), file@) is None,
            decreases n - i,
        {
            proof {
                assert(pkgs@.take(i as int + 1).drop_last() =~= pkgs@.take(i as int));
            }
            if is_inside(pkgs[i].directory.as_str(), file) {
                proof {
                    lemma_package_found(pkgs@, file@, i as int, i as int + 1);
                }
                return Some(&pkgs[i]);
            }
            i += 1;
        }
        proof {
            assert(pkgs@.take(n as int) =~= pkgs@);
        }
        None
    }
}

proof fn lemma_package_found(pkgs: Seq<Package>, file: Seq<char>, i: int, j: int)
    requires
        0 <= i < j <= pkgs.len(),
        j == i + 1 ==> package_index(pkgs.take(i), file) is None && inside(pkgs[i].directory@, file),
        j > i + 1 ==> package_index(pkgs.take(j), file) == Some(i),
    ensures
        package_index(pkgs, file) == Some(i),
    decreases pkgs.len() - j,
{
    if j == i + 1 {
        assert(pkgs.take(i + 1).drop_last() =~= pkgs.take(i));
        assert(package_index(pkgs.take(j), file) == Some(i));
    }
    if j < pkgs.len() {
        assert(pkgs.take(j + 1).drop_last() =~= pkgs.take(j));
        lemma_package_found(pkgs, file, i, j + 1);
    } else {
        assert(pkgs.take(j) =~= pkgs);
    }
}

} // verus!
