//! The import graph of a project: its files and the imports between them.

use vstd::prelude::*;
use crate::chars::{str_equal, string_from_chars, string_of, chars_of};
use crate::config::DomainConfig;
use crate::import_graph::extract::{extract_imports, found_imports};
use crate::import_graph::resolve::{resolve_index, resolved_index, seg_views, segments_equal};
use crate::paths::{file_name, file_name_of, path_segments, segments};
use crate::rules::{domain_matches_file, matches_domain};
use crate::syntax::Span;

pub mod extract;
pub mod resolve;
pub mod topology;

verus! {

/// How one file refers to another.
#[derive(Clone, Copy, Debug, PartialEq, Eq, Structural)]
pub enum ImportKind {
    Static,
    ReExport,
    Dynamic,
}

/// One import of one file.
#[derive(Debug)]
pub struct ImportEdge {
    pub from: String,
    pub specifier: String,
    pub resolved_target: Option<String>,
    pub kind: ImportKind,
    pub span: Span,
}

/// One file of the graph.
#[derive(Debug)]
pub struct FileNode {
    pub path: String,
    pub is_barrel: bool,
    pub is_test: bool,
}

/// The files of a project and their imports.
#[derive(Debug)]
pub struct ImportGraph {
    pub files: Vec<FileNode>,
    pub edges: Vec<ImportEdge>,
}

/// The number of bytes of `c` in UTF-8.
pub open spec fn utf8_width(c: char) -> nat {
    let v = c as int;
    if v < 0x80 { 1 } else if v < 0x800 { 2 } else if v < 0x10000 { 3 } else { 4 }
}

/// The number of bytes of `s` in UTF-8.
pub open spec fn utf8_len(s: Seq<char>) -> nat
    decreases s.len(),
{
    if s.len() == 0 { 0 } else { utf8_len(s.drop_last()) + utf8_width(s.last()) }
}

/// `n`, or `u32::MAX` where it does not fit.
pub open spec fn cap32(n: nat) -> u32 {
    if n > u32::MAX { u32::MAX } else { n as u32 }
}

/// The byte offset of position `i` of `s`.
pub open spec fn offset_of(s: Seq<char>, i: int) -> u32 {
    cap32(utf8_len(s.take(i)))
}

/// A barrel: a file named `index.ts` or `index.tsx`.
pub open spec fn is_barrel_path(p: Seq<char>) -> bool {
    file_name(p) == "index.ts"@ || file_name(p) == "index.tsx"@
}

/// `e` is the edge of `file` (whose source is `src`) for the import `found`, resolved among
/// `files`.
pub open spec fn edge_ok(e: ImportEdge, file: Seq<char>, src: Seq<char>, found: (ImportKind, int, int, int), files: Seq<Seq<char>>) -> bool {
    let (kind, start, a, b) = found;
    &&& e.from@ == file
    &&& e.kind == kind
    &&& e.specifier@ == src.subrange(a, b)
    &&& e.span == (Span { start: offset_of(src, start), end: offset_of(src, b + 1) })
    &&& match resolved_index(file, src.subrange(a, b), files) {
        Some(k) => e.resolved_target matches Some(t) && t@ == files[k],
        None => e.resolved_target is None,
    }
}

/// `edges` are the edges of `file`, one for each import of its source, in order.
pub open spec fn file_edges_ok(edges: Seq<ImportEdge>, file: Seq<char>, src: Seq<char>, files: Seq<Seq<char>>) -> bool {
    let found = found_imports(src);
    &&& edges.len() == found.len()
    &&& forall|k: int| 0 <= k < edges.len() ==> edge_ok(#[trigger] edges[k], file, src, found[k], files)
}

/// `edges` are the edges of the files of `sources`, file by file, in order.
pub open spec fn edges_ok(edges: Seq<ImportEdge>, sources: Seq<(Seq<char>, Seq<char>)>, files: Seq<Seq<char>>) -> bool
    decreases sources.len(),
{
    if sources.len() == 0 {
        edges.len() == 0
    } else {
        let (file, src) = sources.last();
        let m = found_imports(src).len();
        &&& edges.len() >= m
        &&& edges_ok(edges.take(edges.len() - m), sources.drop_last(), files)
        &&& file_edges_ok(edges.skip(edges.len() - m), file, src, files)
    }
}

/// The paths and texts of the given files.
pub open spec fn source_views(files: Seq<(&str, &str)>) -> Seq<(Seq<char>, Seq<char>)> {
    files.map_values(|f: (&str, &str)| (f.0@, f.1@))
}

/// The paths of the given files.
pub open spec fn path_views(files: Seq<(&str, &str)>) -> Seq<Seq<char>> {
    files.map_values(|f: (&str, &str)| f.0@)
}

/// `g` is the import graph of the files of `sources`: one node per file, in order, marked as
/// barrel and as test file; and the edges of each file's imports, file by file.
pub open spec fn is_graph_of(g: ImportGraph, sources: Seq<(Seq<char>, Seq<char>)>, tests: DomainConfig) -> bool {
    let paths = sources.map_values(|f: (Seq<char>, Seq<char>)| f.0);
    &&& g.files@.len() == sources.len()
    &&& forall|k: int| 0 <= k < sources.len() ==> {
        let node = #[trigger] g.files@[k];
        &&& node.path@ == paths[k]
        &&& node.is_barrel == is_barrel_path(paths[k])
        &&& node.is_test == matches_domain(paths[k], tests)
    }
    &&& edges_ok(g.edges@, sources, paths)
}

fn utf8_width_of(c: char) -> (r: u32)
    ensures
        r == utf8_width(c),
{
    let v = c as u32;
    if v < 0x80 { 1 } else if v < 0x800 { 2 } else if v < 0x10000 { 3 } else { 4 }
}

/// The byte offset of position `i` of `s`, or `u32::MAX` where it does not fit.
pub fn offset_at(s: &[char], i: usize) -> (r: u32)
    requires
        i <= s@.len(),
    ensures
        r == offset_of(s@, i as int),
{
    let mut total: u32 = 0;
    let mut k: usize = 0;
    while k < i
        invariant
            i <= s@.len(),
            0 <= k <= i,
            total == cap32(utf8_len(s@.take(k as int))),
        decreases i - k,
    {
        proof {
            assert(s@.take(k as int + 1).drop_last() =~= s@.take(k as int));
        }
        total = total.saturating_add(utf8_width_of(s[k]));
        k += 1;
    }
    total
}

/// Whether `p` names a barrel.
pub fn is_barrel_file(p: &str) -> (r: bool)
    ensures
        r == is_barrel_path(p@),
{
    let name = file_name_of(p);
    str_equal(name.as_str(), "index.ts") || str_equal(name.as_str(), "index.tsx")
}

/// The edges of one file, for each import of its source, in order.
fn file_edges(file: &str, source: &str, paths: Ghost<Seq<Seq<char>>>, file_segs: &Vec<Vec<Vec<char>>>, files: &[(&str, &str)]) -> (r: Vec<ImportEdge>)
    requires
        file_segs@.len() == paths@.len(),
        paths@ == path_views(files@),
        forall|k: int| 0 <= k < paths@.len() ==> seg_views((#[trigger] file_segs@[k])@) == segments(paths@[k]),
    ensures
        file_edges_ok(r@, file@, source@, paths@),
{
    let src = chars_of(source);
    let found = extract_imports(src.as_slice());
    let ghost all = found_imports(source@);
    let m = found.len();
    let mut out: Vec<ImportEdge> = Vec::new();
    let mut k: usize = 0;
    while k < m
        invariant
            m == found@.len(),
            m == all.len(),
            all == found_imports(src@),
            src@ == source@,
            0 <= k <= m,
            file_segs@.len() == paths@.len(),
            paths@ == path_views(files@),
            forall|t: int| 0 <= t < paths@.len() ==> seg_views((#[trigger] file_segs@[t])@) == segments(paths@[t]),
            forall|t: int| 0 <= t < found@.len() ==> {
                let (kind, start, a, b) = #[trigger] found@[t];
                &&& all[t] == (kind, start as int, a as int, b as int)
                &&& start < a <= b < src@.len()
            },
            out@.len() == k,
            forall|t: int| 0 <= t < k ==> edge_ok(#[trigger] out@[t], file@, source@, all[t], paths@),
        decreases m - k,
    {
        let (kind, start, a, b) = found[k];
        proof {
            assert(all[k as int] == (kind, start as int, a as int, b as int));
        }
        let specifier = string_from_chars(src.as_slice(), a, b);
        let target = match resolve_index(paths, file_segs, file, specifier.as_str()) {
            Some(t) => {
                proof {
                    assert(paths@[t as int] == files@[t as int].0@);
                }
                Some(string_of(files[t].0))
            },
            None => None,
        };
        let edge = ImportEdge {
            from: string_of(file),
            specifier,
            resolved_target: target,
            kind,
            span: Span { start: offset_at(src.as_slice(), start), end: offset_at(src.as_slice(), b + 1) },
        };
        proof {
            assert(edge_ok(edge, file@, source@, all[k as int], paths@));
        }
        out.push(edge);
        k += 1;
    }
    out
}

/// The import graph of the given files (path and source text of each): a node for each file,
/// and an edge for each import its source makes, resolved among the given files. `tests`
/// marks the test files.
pub fn build_import_graph_from_sources(files: &[(&str, &str)], tests: &DomainConfig, root: Option<&str>) -> (r: ImportGraph)
    ensures
        is_graph_of(r, source_views(files@), *tests),
{
    let ghost paths = path_views(files@);
    let ghost sources = source_views(files@);
    proof {
        assert(paths =~= sources.map_values(|f: (Seq<char>, Seq<char>)| f.0));
    }
    let n = files.len();
    let mut file_segs: Vec<Vec<Vec<char>>> = Vec::new();
    let mut nodes: Vec<FileNode> = Vec::new();
    let mut i: usize = 0;
    while i < n
        invariant
            n == files@.len(),
            paths == path_views(files@),
            0 <= i <= n,
            file_segs@.len() == i,
            nodes@.len() == i,
            forall|k: int| 0 <= k < i ==> seg_views((#[trigger] file_segs@[k])@) == segments(paths[k]),
            forall|k: int| 0 <= k < i ==> {
                let node = #[trigger] nodes@[k];
                &&& node.path@ == paths[k]
                &&& node.is_barrel == is_barrel_path(paths[k])
                &&& node.is_test == matches_domain(paths[k], *tests)
            },
        decreases n - i,
    {
        let path = files[i].0;
        file_segs.push(path_segments(path));
        nodes.push(FileNode {
            path: string_of(path),
            is_barrel: is_barrel_file(path),
            is_test: domain_matches_file(path, tests),
        });
        i += 1;
    }
    let mut edges: Vec<ImportEdge> = Vec::new();
    let mut j: usize = 0;
    while j < n
        invariant
            n == files@.len(),
            paths == path_views(files@),
            sources == source_views(files@),
            0 <= j <= n,
            file_segs@.len() == n,
            forall|k: int| 0 <= k < n ==> seg_views((#[trigger] file_segs@[k])@) == segments(paths[k]),
            edges_ok(edges@, sources.take(j as int), paths),
        decreases n - j,
    {
        let mut block = file_edges(files[j].0, files[j].1, Ghost(paths), &file_segs, files);
        let ghost before = edges@;
        let ghost added = block@;
        edges.append(&mut block);
        proof {
            let m = found_imports(files@[j as int].1@).len();
            assert(sources.take(j as int + 1).drop_last() =~= sources.take(j as int));
            assert(sources.take(j as int + 1).last() == (files@[j as int].0@, files@[j as int].1@));
            assert(edges@.take(edges@.len() - m) =~= before);
            assert(edges@.skip(edges@.len() - m) =~= added);
        }
        j += 1;
    }
    proof {
        assert(sources.take(n as int) =~= sources);
    }
    ImportGraph { files: nodes, edges }
}

/// Two paths name the same file: they have the same segments.
pub open spec fn same_file(a: Seq<char>, b: Seq<char>) -> bool {
    segments(a) == segments(b)
}

/// Whether `a` and `b` name the same file.
pub fn same_path(a: &str, b: &str) -> (r: bool)
    ensures
        r == same_file(a@, b@),
{
    let sa = path_segments(a);
    let sb = path_segments(b);
    proof {
        assert(seg_views(sa@) == segments(a@));
        assert(seg_views(sb@) == segments(b@));
    }
    segments_equal(&sa, &sb)
}

/// The index of the first node of `nodes` for `file`.
pub open spec fn node_index(nodes: Seq<FileNode>, file: Seq<char>) -> Option<int>
    decreases nodes.len(),
{
    if nodes.len() == 0 {
        None
    } else {
        match node_index(nodes.drop_last(), file) {
            Some(k) => Some(k),
            None => if same_file(nodes.last().path@, file) { Some(nodes.len() - 1) } else { None },
        }
    }
}

pub proof fn lemma_node_index(nodes: Seq<FileNode>, file: Seq<char>)
    ensures
        node_index(nodes, file) matches Some(k) ==> 0 <= k < nodes.len(),
    decreases nodes.len(),
{
    if nodes.len() > 0 {
        lemma_node_index(nodes.drop_last(), file);
    }
}

/// The node of `file` in `nodes`, if any.
pub open spec fn node_of(nodes: Seq<FileNode>, file: Seq<char>) -> Option<FileNode> {
    match node_index(nodes, file) {
        Some(k) => Some(nodes[k]),
        None => None,
    }
}

impl ImportGraph {
    /// The node of `file`, if the graph has one.
    pub fn file_node(&self, file: &str) -> (r: Option<&FileNode>)
        ensures
            match r {
                Some(node) => node_of(self.files@, file@) == Some(*node),
                None => node_of(self.files@, file@) is None,
            },
    {
        let n = self.files.len();
        let mut i: usize = 0;
        while i < n
            invariant
                n == self.files@.len(),
                0 <= i <= n,
                node_index(self.files@.take(i as int), file@) is None,
            decreases n - i,
        {
            proof {
                assert(self.files@.take(i as int + 1).drop_last() =~= self.files@.take(i as int));
            }
            if same_path(self.files[i].path.as_str(), file) {
                proof {
                    lemma_node_found_at(self.files@, file@, i as int);
                }
                return Some(&self.files[i]);
            }
            i += 1;
        }
        proof {
            assert(self.files@.take(n as int) =~= self.files@);
        }
        None
    }
}

pub proof fn lemma_node_found_at(nodes: Seq<FileNode>, file: Seq<char>, i: int)
    requires
        0 <= i < nodes.len(),
        node_index(nodes.take(i), file) is None,
        same_file(nodes[i].path@, file),
    ensures
        node_index(nodes, file) == Some(i),
{
    assert(nodes.take(i + 1).drop_last() =~= nodes.take(i));
    assert(node_index(nodes.take(i + 1), file) == Some(i));
    lemma_node_prefix(nodes, file, i + 1, i);
}

proof fn lemma_node_prefix(nodes: Seq<FileNode>, file: Seq<char>, j: int, i: int)
    requires
        0 <= i < j <= nodes.len(),
        node_index(nodes.take(j), file) == Some(i),
    ensures
        node_index(nodes, file) == Some(i),
    decreases nodes.len() - j,
{
    if j < nodes.len() {
        assert(nodes.take(j + 1).drop_last() =~= nodes.take(j));
        lemma_node_prefix(nodes, file, j + 1, i);
    } else {
        assert(nodes.take(j) =~= nodes);
    }
}

proof fn lemma_edges_targets(edges: Seq<ImportEdge>, sources: Seq<(Seq<char>, Seq<char>)>, files: Seq<Seq<char>>)
    requires
        edges_ok(edges, sources, files),
    ensures
        forall|i: int| 0 <= i < edges.len() && (#[trigger] edges[i]).resolved_target is Some
            ==> exists|k: int| 0 <= k < files.len() && files[k] == edges[i].resolved_target->0@,
    decreases sources.len(),
{
    if sources.len() > 0 {
        let (file, src) = sources.last();
        let m = found_imports(src).len();
        let cut = edges.len() - m;
        lemma_edges_targets(edges.take(cut), sources.drop_last(), files);
        assert forall|i: int| 0 <= i < edges.len() && (#[trigger] edges[i]).resolved_target is Some implies
            exists|k: int| 0 <= k < files.len() && files[k] == edges[i].resolved_target->0@ by {
            if i < cut {
                assert(edges.take(cut)[i] == edges[i]);
            } else {
                let e = edges.skip(cut)[i - cut];
                assert(e == edges[i]);
                let found = found_imports(src)[i - cut];
                assert(edge_ok(e, file, src, found, files));
                let spec = src.subrange(found.2, found.3);
                crate::import_graph::resolve::lemma_first_known(files,
                    crate::import_graph::resolve::candidates(crate::import_graph::resolve::normalize(
                        crate::import_graph::resolve::dir_segments(file), segments(spec))));
                let k = resolved_index(file, spec, files)->0;
                assert(files[k] == e.resolved_target->0@);
            }
        }
    }
}

/// Every import that resolves, resolves to a file of the graph.
pub proof fn lemma_resolved_targets_are_files(g: ImportGraph, sources: Seq<(Seq<char>, Seq<char>)>, tests: DomainConfig)
    requires
        is_graph_of(g, sources, tests),
    ensures
        forall|i: int| 0 <= i < g.edges@.len() && (#[trigger] g.edges@[i]).resolved_target is Some
            ==> exists|k: int| 0 <= k < g.files@.len() && g.files@[k].path@ == g.edges@[i].resolved_target->0@,
{
    let paths = sources.map_values(|f: (Seq<char>, Seq<char>)| f.0);
    lemma_edges_targets(g.edges@, sources, paths);
    assert forall|i: int| 0 <= i < g.edges@.len() && (#[trigger] g.edges@[i]).resolved_target is Some implies
        exists|k: int| 0 <= k < g.files@.len() && g.files@[k].path@ == g.edges@[i].resolved_target->0@ by {
        let k = choose|k: int| 0 <= k < paths.len() && paths[k] == g.edges@[i].resolved_target->0@;
        assert(g.files@[k].path@ == paths[k]);
    }
}

} // verus!
