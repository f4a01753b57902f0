//! Import cycles: for files in path order, the shortest cycle back to each file that no
//! earlier cycle passed through.

use vstd::prelude::*;
use crate::chars::{copy_string, str_equal};
use crate::import_graph::{node_index, same_file, same_path, ImportEdge, ImportGraph};
use crate::order::{compare_paths, lemma_segs_order_props, lemma_segs_order_trans, path_order};
use crate::paths::path_key;
use crate::sorting::{insertion_sort, SortKey};

verus! {

broadcast use vstd::seq_lib::group_to_multiset_ensures;

/// `p` imports `q`: some edge from `p` resolves to `q`.
pub open spec fn imports(g: ImportGraph, p: Seq<char>, q: Seq<char>) -> bool {
    exists|k: int| 0 <= k < g.edges@.len() && edge_joins(#[trigger] g.edges@[k], p, q)
}

/// The edge `e` leads from `p` to `q`.
pub open spec fn edge_joins(e: ImportEdge, p: Seq<char>, q: Seq<char>) -> bool {
    &&& same_file(e.from@, p)
    &&& e.resolved_target matches Some(t)
    &&& same_file(t@, q)
}

/// `c` is an import cycle through `key`: it starts and ends at `key` and each file imports the
/// next.
pub open spec fn is_import_cycle(g: ImportGraph, key: Seq<char>, c: Seq<Seq<char>>) -> bool {
    &&& c.len() >= 2
    &&& c[0] == key
    &&& c.last() == key
    &&& forall|k: int| 0 <= k < c.len() - 1 ==> imports(g, #[trigger] c[k], c[k + 1])
}

/// The node `b` is a successor of node `a`: an edge from `a`'s file resolves to `b`'s.
pub open spec fn node_step(g: ImportGraph, a: int, b: int) -> bool {
    &&& 0 <= a < g.files@.len()
    &&& 0 <= b < g.files@.len()
    &&& imports(g, g.files@[a].path@, g.files@[b].path@)
}

/// A node and its path, ordered by path.
pub struct NodeKey<'a> {
    pub index: usize,
    pub path: &'a String,
}

impl<'a> SortKey for NodeKey<'a> {
    open spec fn key_le(&self, other: &Self) -> bool {
        path_order(self.path@, other.path@) <= 0
    }

    proof fn lemma_key_total(a: &Self, b: &Self) {
        lemma_segs_order_props(path_key(a.path@), path_key(b.path@));
    }

    proof fn lemma_key_trans(a: &Self, b: &Self, c: &Self) {
        lemma_segs_order_trans(path_key(a.path@), path_key(b.path@), path_key(c.path@));
    }

    fn le(&self, other: &Self) -> (r: bool) {
        compare_paths(self.path.as_str(), other.path.as_str()) <= 0
    }
}

proof fn lemma_node_index_same(g: ImportGraph, t: Seq<char>)
    ensures
        node_index(g.files@, t) matches Some(v) ==> 0 <= v < g.files@.len() && same_file(g.files@[v].path@, t),
    decreases g.files@.len(),
{
    lemma_node_index_same_seq(g.files@, t);
}

proof fn lemma_node_index_same_seq(nodes: Seq<crate::import_graph::FileNode>, t: Seq<char>)
    ensures
        node_index(nodes, t) matches Some(v) ==> 0 <= v < nodes.len() && same_file(nodes[v].path@, t),
    decreases nodes.len(),
{
    if nodes.len() > 0 {
        lemma_node_index_same_seq(nodes.drop_last(), t);
    }
}

/// The edge `e` leads from node `u` to node `v`: it starts at `u`'s file and resolves to a path
/// whose node (the first node of that path) is `v`.
pub open spec fn links(g: ImportGraph, e: ImportEdge, u: int, v: int) -> bool {
    &&& same_file(e.from@, g.files@[u].path@)
    &&& match e.resolved_target {
        Some(t) => node_index(g.files@, t@) == Some(v),
        None => false,
    }
}

/// Some edge leads from node `u` to node `v`.
pub open spec fn node_edge(g: ImportGraph, u: int, v: int) -> bool {
    &&& 0 <= u < g.files@.len()
    &&& 0 <= v < g.files@.len()
    &&& exists|k: int| 0 <= k < g.edges@.len() && links(g, #[trigger] g.edges@[k], u, v)
}

/// `w` is a walk of nodes along edges.
pub open spec fn is_walk(g: ImportGraph, w: Seq<int>) -> bool {
    &&& w.len() >= 1
    &&& forall|i: int| 0 <= i < w.len() - 1 ==> node_edge(g, #[trigger] w[i], w[i + 1])
}

/// A walk of `m` steps leads from `root` to `x`.
pub open spec fn walk_to(g: ImportGraph, root: int, x: int, m: int) -> bool {
    exists|w: Seq<int>| #[trigger] is_walk(g, w) && w.len() == m + 1 && w[0] == root && w[m] == x
}

/// `c` is a cycle of nodes from `root` back to it along edges.
pub open spec fn cycle_through(g: ImportGraph, root: int, c: Seq<int>) -> bool {
    &&& is_walk(g, c)
    &&& c.len() >= 2
    &&& c[0] == root
    &&& c.last() == root
}

/// The nodes of a cycle as integers.
pub open spec fn node_ints(c: Seq<usize>) -> Seq<int> {
    c.map_values(|v: usize| v as int)
}

/// An edge joins the nodes' files.
proof fn lemma_edge_step(g: ImportGraph, u: int, v: int)
    requires
        node_edge(g, u, v),
    ensures
        node_step(g, u, v),
{
    let k = choose|k: int| 0 <= k < g.edges@.len() && links(g, #[trigger] g.edges@[k], u, v);
    let e = g.edges@[k];
    match e.resolved_target {
        Some(t) => {
            lemma_node_index_same(g, t@);
            assert(edge_joins(e, g.files@[u].path@, g.files@[v].path@));
        },
        None => {},
    }
}

/// A walk of no steps stays at its start.
proof fn lemma_walk_zero(g: ImportGraph, root: int)
    ensures
        walk_to(g, root, root, 0),
        forall|x: int| walk_to(g, root, x, 0) ==> x == root,
{
    let w = seq![root];
    assert(is_walk(g, w));
}

/// A walk extends by an edge.
proof fn lemma_walk_extend(g: ImportGraph, root: int, x: int, y: int, m: int)
    requires
        walk_to(g, root, x, m),
        node_edge(g, x, y),
    ensures
        walk_to(g, root, y, m + 1),
{
    let w = choose|w: Seq<int>| #[trigger] is_walk(g, w) && w.len() == m + 1 && w[0] == root && w[m] == x;
    let w2 = w.push(y);
    assert forall|i: int| 0 <= i < w2.len() - 1 implies node_edge(g, #[trigger] w2[i], w2[i + 1]) by {
        if i < w.len() - 1 {
            assert(w2[i] == w[i] && w2[i + 1] == w[i + 1]);
        }
    }
    assert(is_walk(g, w2));
}

/// A walk of one step more ends with an edge from a walk of `m` steps.
proof fn lemma_walk_last(g: ImportGraph, root: int, y: int, m: int)
    requires
        walk_to(g, root, y, m + 1),
        m >= 0,
    ensures
        exists|x: int| walk_to(g, root, x, m) && #[trigger] node_edge(g, x, y),
{
    let w = choose|w: Seq<int>| #[trigger] is_walk(g, w) && w.len() == m + 2 && w[0] == root && w[m + 1] == y;
    let w1 = w.take(m + 1);
    assert forall|i: int| 0 <= i < w1.len() - 1 implies node_edge(g, #[trigger] w1[i], w1[i + 1]) by {
        assert(w1[i] == w[i] && w1[i + 1] == w[i + 1]);
    }
    assert(is_walk(g, w1));
    assert(walk_to(g, root, w[m], m));
    assert(node_edge(g, w[m], w[m + 1]));
}

/// The last step of a cycle comes from a node that a walk reaches from its start.
proof fn lemma_cycle_last_step(g: ImportGraph, root: int, c: Seq<int>)
    requires
        cycle_through(g, root, c),
    ensures
        walk_to(g, root, c[c.len() - 2], c.len() - 2),
        node_edge(g, c[c.len() - 2], root),
{
    let m = c.len() - 2;
    let w1 = c.take(m + 1);
    assert forall|i: int| 0 <= i < w1.len() - 1 implies node_edge(g, #[trigger] w1[i], w1[i + 1]) by {
        assert(w1[i] == c[i] && w1[i + 1] == c[i + 1]);
    }
    assert(is_walk(g, w1));
    assert(node_edge(g, c[m], c[m + 1]));
}

/// The successors of node `u`, one for each edge of its file that resolves to a node.
fn successors(g: &ImportGraph, u: usize) -> (r: Vec<usize>)
    requires
        u < g.files@.len(),
    ensures
        forall|k: int| 0 <= k < r@.len() ==> node_edge(*g, u as int, #[trigger] r@[k] as int),
        forall|v: int| #[trigger] node_edge(*g, u as int, v) ==> exists|k: int| 0 <= k < r@.len() && r@[k] as int == v,
{
    let mut out: Vec<usize> = Vec::new();
    let n = g.edges.len();
    let mut i: usize = 0;
    while i < n
        invariant
            n == g.edges@.len(),
            u < g.files@.len(),
            0 <= i <= n,
            forall|k: int| 0 <= k < out@.len() ==> node_edge(*g, u as int, #[trigger] out@[k] as int),
            forall|v: int, j: int| 0 <= j < i && #[trigger] links(*g, g.edges@[j], u as int, v) ==> exists|k: int| 0 <= k < out@.len() && out@[k] as int == v,
        decreases n - i,
    {
        let ghost before = out@;
        let e = &g.edges[i];
        if same_path(e.from.as_str(), g.files[u].path.as_str()) {
            match &e.resolved_target {
                Some(t) => {
                    match g.file_node_index(t.as_str()) {
                        Some(v) => {
                            proof {
                                assert(links(*g, g.edges@[i as int], u as int, v as int));
                            }
                            out.push(v);
                        },
                        None => {},
                    }
                },
                None => {},
            }
        }
        proof {
            assert forall|v: int, j: int| 0 <= j < i + 1 && #[trigger] links(*g, g.edges@[j], u as int, v) implies exists|k: int| 0 <= k < out@.len() && out@[k] as int == v by {
                if j < i {
                    let k = choose|k: int| 0 <= k < before.len() && before[k] as int == v;
                    assert(out@[k] == before[k]);
                } else {
                    assert(out@[out@.len() - 1] as int == v);
                }
            }
        }
        i += 1;
    }
    proof {
        assert forall|v: int| #[trigger] node_edge(*g, u as int, v) implies exists|k: int| 0 <= k < out@.len() && out@[k] as int == v by {
            let j = choose|j: int| 0 <= j < g.edges@.len() && links(*g, #[trigger] g.edges@[j], u as int, v);
            assert(links(*g, g.edges@[j], u as int, v));
        }
    }
    out
}

/// The successor lists of all nodes, exactly: each lists the nodes that an edge leads to.
pub open spec fn succ_exact(g: ImportGraph, succ: Seq<Vec<usize>>) -> bool {
    &&& succ.len() == g.files@.len()
    &&& forall|u: int, k: int| 0 <= u < succ.len() && 0 <= k < succ[u]@.len() ==> node_edge(g, u, #[trigger] succ[u]@[k] as int)
    &&& forall|u: int, v: int| #[trigger] node_edge(g, u, v) ==> exists|k: int| 0 <= k < succ[u]@.len() && succ[u]@[k] as int == v
}

/// Node `z` was reached from its parent: the parent is the root or reached, an edge leads from
/// it to `z`, and `z` is one step farther.
pub open spec fn parent_ok(g: ImportGraph, root: int, reached: Seq<bool>, parent: Seq<usize>, dist: Seq<usize>, z: int) -> bool {
    let p = parent[z] as int;
    &&& (p == root || (0 <= p < reached.len() && reached[p]))
    &&& node_edge(g, p, z)
    &&& dist[z] == dist[p] + 1
}

/// The search tree: the root is not marked reached and has distance 0, and every reached node
/// hangs from its parent.
pub open spec fn tree_ok(g: ImportGraph, root: int, reached: Seq<bool>, parent: Seq<usize>, dist: Seq<usize>) -> bool {
    let n = g.files@.len();
    &&& reached.len() == n
    &&& parent.len() == n
    &&& dist.len() == n
    &&& 0 <= root < n
    &&& dist[root] == 0
    &&& !reached[root]
    &&& forall|z: int| 0 <= z < n && #[trigger] reached[z] ==> parent_ok(g, root, reached, parent, dist, z)
}

/// No walk of fewer than `l` steps from the root ends at a node with an edge back to the root.
pub open spec fn no_cycle_below(g: ImportGraph, root: int, l: int) -> bool {
    forall|x: int, m: int| #![trigger walk_to(g, root, x, m), node_edge(g, x, root)]
        0 <= m < l && walk_to(g, root, x, m) ==> !node_edge(g, x, root)
}

/// Every node other than the root that a walk of 1 to `l` steps reaches is reached, no farther.
pub open spec fn complete_to(g: ImportGraph, root: int, reached: Seq<bool>, dist: Seq<usize>, l: int) -> bool {
    forall|y: int, m: int| 1 <= m <= l && 0 <= y < reached.len() && y != root && #[trigger] walk_to(g, root, y, m) ==> reached[y] && dist[y] <= m
}

/// Nodes whose successors are all reached: the root once the search is past it, and reached
/// nodes closer than `l`.
pub open spec fn finished(root: int, reached: Seq<bool>, dist: Seq<usize>, l: int, x: int) -> bool {
    (x == root && l > 0) || (0 <= x < reached.len() && reached[x] && dist[x] < l)
}

/// Every successor other than the root of a finished node is reached, at most one step farther.
pub open spec fn closed(g: ImportGraph, root: int, reached: Seq<bool>, dist: Seq<usize>, l: int) -> bool {
    forall|x: int, y: int| finished(root, reached, dist, l, x) && #[trigger] node_edge(g, x, y) && y != root ==> reached[y] && dist[y] <= dist[x] + 1
}

/// Node `x` is at distance `l` from the root: the root itself when `l` is 0.
pub open spec fn at_level(root: int, reached: Seq<bool>, dist: Seq<usize>, l: int, x: int) -> bool {
    if l == 0 {
        x == root
    } else {
        0 <= x < reached.len() && reached[x] && dist[x] == l
    }
}

/// The frontier holds exactly the nodes at distance `l`.
pub open spec fn frontier_ok(root: int, reached: Seq<bool>, dist: Seq<usize>, l: int, frontier: Seq<usize>) -> bool {
    &&& forall|t: int| 0 <= t < frontier.len() ==> at_level(root, reached, dist, l, #[trigger] frontier[t] as int)
    &&& forall|x: int| 0 <= x < reached.len() && #[trigger] at_level(root, reached, dist, l, x) ==> exists|t: int| 0 <= t < frontier.len() && frontier[t] as int == x
}

/// The nodes met so far: the root, then distinct reached nodes.
pub open spec fn seen_ok(root: int, reached: Seq<bool>, seen: Seq<usize>) -> bool {
    &&& seen.len() >= 1
    &&& seen[0] == root
    &&& seen.len() <= reached.len()
    &&& forall|t: int| 0 <= t < seen.len() ==> #[trigger] seen[t] < reached.len()
    &&& forall|t: int| 1 <= t < seen.len() ==> reached[#[trigger] seen[t] as int]
    &&& forall|t: int| 1 <= t < seen.len() ==> #[trigger] seen[t] != root
    &&& forall|s: int, t: int| 1 <= s < t < seen.len() ==> #[trigger] seen[s] != #[trigger] seen[t]
}

/// Reached nodes lie at distance 1 to `hi`, along a walk of that many steps.
pub open spec fn reached_walks(g: ImportGraph, root: int, reached: Seq<bool>, dist: Seq<usize>, hi: int) -> bool {
    forall|z: int| 0 <= z < g.files@.len() && #[trigger] reached[z] ==> 1 <= dist[z] <= hi && walk_to(g, root, z, dist[z] as int)
}

/// `next` holds exactly the reached nodes at distance `l + 1`.
pub open spec fn next_ok(n: int, reached: Seq<bool>, dist: Seq<usize>, l: int, next: Seq<usize>) -> bool {
    &&& forall|t: int| 0 <= t < next.len() ==> #[trigger] next[t] < n && reached[next[t] as int] && dist[next[t] as int] == l + 1
    &&& forall|z: int| 0 <= z < n && #[trigger] reached[z] && dist[z] == l + 1 ==> exists|t: int| 0 <= t < next.len() && next[t] as int == z
}

/// The state of the search while the nodes at distance `l` are scanned: reached nodes lie at
/// distance 1 to `l + 1` along a walk, there is no cycle of at most `l` steps, the search is
/// closed and complete up to `l`, and `next` holds exactly the nodes at distance `l + 1`.
pub open spec fn level_state(g: ImportGraph, root: int, reached: Seq<bool>, parent: Seq<usize>, dist: Seq<usize>, l: int, seen: Seq<usize>, next: Seq<usize>) -> bool {
    &&& tree_ok(g, root, reached, parent, dist)
    &&& reached_walks(g, root, reached, dist, l + 1)
    &&& no_cycle_below(g, root, l)
    &&& closed(g, root, reached, dist, l)
    &&& complete_to(g, root, reached, dist, l)
    &&& next_ok(g.files@.len() as int, reached, dist, l, next)
    &&& seen_ok(root, reached, seen)
}

/// Every successor of the nodes `xs` is reached, at distance at most `l + 1`, and none is the root.
pub open spec fn scanned(g: ImportGraph, root: int, reached: Seq<bool>, dist: Seq<usize>, l: int, xs: Seq<usize>) -> bool {
    forall|s: int, y: int| 0 <= s < xs.len() && #[trigger] node_edge(g, xs[s] as int, y) ==> y != root && reached[y] && dist[y] <= l + 1
}

/// A node at distance `l` is reached by a walk of `l` steps.
proof fn lemma_level_walk(g: ImportGraph, root: int, reached: Seq<bool>, parent: Seq<usize>, dist: Seq<usize>, l: int, seen: Seq<usize>, next: Seq<usize>, x: int)
    requires
        level_state(g, root, reached, parent, dist, l, seen, next),
        at_level(root, reached, dist, l, x),
    ensures
        walk_to(g, root, x, l),
        0 <= x < g.files@.len(),
        dist[x] == l,
        x == root || reached[x],
{
    if l == 0 {
        lemma_walk_zero(g, root);
    } else {
        assert(reached[x]);
    }
}

/// Hanging `y` from `x`, one step farther, keeps the search tree.
proof fn lemma_add_tree(g: ImportGraph, root: int, reached: Seq<bool>, parent: Seq<usize>, dist: Seq<usize>, l: int, x: usize, y: usize, d: usize)
    requires
        tree_ok(g, root, reached, parent, dist),
        x < g.files@.len(),
        x == root || reached[x as int],
        dist[x as int] == l,
        node_edge(g, x as int, y as int),
        y != root,
        !reached[y as int],
        d == l + 1,
    ensures
        tree_ok(g, root, reached.update(y as int, true), parent.update(y as int, x), dist.update(y as int, d)),
{
    let n = g.files@.len();
    let r2 = reached.update(y as int, true);
    let p2 = parent.update(y as int, x);
    let d2 = dist.update(y as int, d);
    assert(x != y);
    assert forall|z: int| 0 <= z < n && #[trigger] r2[z] implies parent_ok(g, root, r2, p2, d2, z) by {
        if z != y as int {
            assert(reached[z]);
            assert(parent_ok(g, root, reached, parent, dist, z));
            let p = parent[z] as int;
            assert(p2[z] == parent[z]);
            assert(p != y as int);
            assert(d2[p] == dist[p]);
            assert(d2[z] == dist[z]);
        } else {
            assert(p2[z] == x);
            assert(d2[x as int] == dist[x as int]);
        }
    }
}

/// Hanging `y` from `x`, one step farther, keeps the walks to reached nodes.
proof fn lemma_add_walks(g: ImportGraph, root: int, reached: Seq<bool>, dist: Seq<usize>, l: int, x: usize, y: usize, d: usize)
    requires
        reached_walks(g, root, reached, dist, l + 1),
        reached.len() == g.files@.len(),
        dist.len() == g.files@.len(),
        walk_to(g, root, x as int, l),
        node_edge(g, x as int, y as int),
        d == l + 1,
        l >= 0,
    ensures
        reached_walks(g, root, reached.update(y as int, true), dist.update(y as int, d), l + 1),
{
    let n = g.files@.len();
    let r2 = reached.update(y as int, true);
    let d2 = dist.update(y as int, d);
    lemma_walk_extend(g, root, x as int, y as int, l);
    assert forall|z: int| 0 <= z < n && #[trigger] r2[z] implies 1 <= d2[z] <= l + 1 && walk_to(g, root, z, d2[z] as int) by {
        if z != y as int {
            assert(reached[z]);
            assert(d2[z] == dist[z]);
        }
    }
}

/// Reaching a node `y` not reached before, at distance `d >= l`, keeps the search closed and
/// complete up to `l`.
proof fn lemma_add_search(g: ImportGraph, root: int, reached: Seq<bool>, dist: Seq<usize>, l: int, y: int, d: usize)
    requires
        y != root,
        closed(g, root, reached, dist, l),
        complete_to(g, root, reached, dist, l),
        0 <= y < reached.len(),
        reached.len() == dist.len(),
        reached.len() == g.files@.len(),
        !reached[y],
        d >= l,
    ensures
        closed(g, root, reached.update(y, true), dist.update(y, d), l),
        complete_to(g, root, reached.update(y, true), dist.update(y, d), l),
{
    let r2 = reached.update(y, true);
    let d2 = dist.update(y, d);
    assert forall|a: int, b: int| finished(root, r2, d2, l, a) && #[trigger] node_edge(g, a, b) && b != root implies r2[b] && d2[b] <= d2[a] + 1 by {
        assert(finished(root, reached, dist, l, a));
        assert(reached[b] && dist[b] <= dist[a] + 1);
        assert(d2[a] == dist[a]);
        assert(d2[b] == dist[b]);
    }
    assert forall|b: int, m: int| 1 <= m <= l && 0 <= b < r2.len() && b != root && #[trigger] walk_to(g, root, b, m) implies r2[b] && d2[b] <= m by {
        assert(reached[b] && dist[b] <= m);
    }
}

/// Reaching a node `y` not reached before, at distance `l + 1`, and adding it to `next` and
/// `seen` keeps both right.
proof fn lemma_add_next_seen(n: int, root: int, reached: Seq<bool>, dist: Seq<usize>, l: int, seen: Seq<usize>, next: Seq<usize>, y: usize, d: usize)
    requires
        next_ok(n, reached, dist, l, next),
        seen_ok(root, reached, seen),
        reached.len() == n,
        dist.len() == n,
        0 <= root < n,
        y < n,
        y != root,
        !reached[y as int],
        d == l + 1,
    ensures
        next_ok(n, reached.update(y as int, true), dist.update(y as int, d), l, next.push(y)),
        seen_ok(root, reached.update(y as int, true), seen.push(y)),
        seen.len() + 1 <= n,
{
    let r2 = reached.update(y as int, true);
    let d2 = dist.update(y as int, d);
    let s2 = seen.push(y);
    let nx2 = next.push(y);
    lemma_fresh_fits(seen, reached, n, root, y as int);
    assert forall|t: int| 0 <= t < nx2.len() implies #[trigger] nx2[t] < n && r2[nx2[t] as int] && d2[nx2[t] as int] == l + 1 by {
        if t < next.len() {
            assert(nx2[t] == next[t]);
        }
    }
    assert forall|z: int| 0 <= z < n && #[trigger] r2[z] && d2[z] == l + 1 implies exists|t: int| 0 <= t < nx2.len() && nx2[t] as int == z by {
        if z == y as int {
            assert(nx2[next.len() as int] as int == z);
        } else {
            assert(reached[z] && dist[z] == l + 1);
            let t = choose|t: int| 0 <= t < next.len() && next[t] as int == z;
            assert(nx2[t] == next[t]);
        }
    }
    assert forall|t: int| 1 <= t < s2.len() implies r2[#[trigger] s2[t] as int] by {
        if t < seen.len() {
            assert(s2[t] == seen[t]);
        }
    }
    assert forall|t: int| 0 <= t < s2.len() implies #[trigger] s2[t] < r2.len() by {
        if t < seen.len() {
            assert(s2[t] == seen[t]);
        }
    }
    assert forall|t: int| 1 <= t < s2.len() implies #[trigger] s2[t] != root by {
        if t < seen.len() {
            assert(s2[t] == seen[t]);
        }
    }
    assert forall|s: int, t: int| 1 <= s < t < s2.len() implies #[trigger] s2[s] != #[trigger] s2[t] by {
        assert(s2[s] == seen[s]);
        if t < seen.len() {
            assert(s2[t] == seen[t]);
        } else {
            assert(reached[seen[s] as int]);
        }
    }
}

/// Reaching a node `y` not reached before, at distance `l + 1`, keeps the frontier and what
/// was scanned.
proof fn lemma_add_frontier(g: ImportGraph, root: int, reached: Seq<bool>, dist: Seq<usize>, l: int, frontier: Seq<usize>, xs: Seq<usize>, y: int, d: usize)
    requires
        frontier_ok(root, reached, dist, l, frontier),
        scanned(g, root, reached, dist, l, xs),
        0 <= y < reached.len(),
        reached.len() == dist.len(),
        reached.len() == g.files@.len(),
        y != root,
        !reached[y],
        d == l + 1,
    ensures
        frontier_ok(root, reached.update(y, true), dist.update(y, d), l, frontier),
        scanned(g, root, reached.update(y, true), dist.update(y, d), l, xs),
{
    let r2 = reached.update(y, true);
    let d2 = dist.update(y, d);
    assert forall|t: int| 0 <= t < frontier.len() implies at_level(root, r2, d2, l, #[trigger] frontier[t] as int) by {
        assert(at_level(root, reached, dist, l, frontier[t] as int));
        if l > 0 {
            assert(frontier[t] as int != y);
        }
    }
    assert forall|z: int| 0 <= z < r2.len() && #[trigger] at_level(root, r2, d2, l, z) implies exists|t: int| 0 <= t < frontier.len() && frontier[t] as int == z by {
        if l > 0 {
            assert(z != y);
        }
        assert(at_level(root, reached, dist, l, z));
    }
    assert forall|s: int, b: int| 0 <= s < xs.len() && #[trigger] node_edge(g, xs[s] as int, b) implies b != root && r2[b] && d2[b] <= l + 1 by {
        assert(reached[b]);
    }
}

/// Marking a successor `y` of a node `x` at distance `l` as reached at distance `l + 1` keeps the
/// search state, the frontier and what was scanned.
proof fn lemma_add_node(g: ImportGraph, root: int, reached: Seq<bool>, parent: Seq<usize>, dist: Seq<usize>, l: int,
    seen: Seq<usize>, next: Seq<usize>, frontier: Seq<usize>, xs: Seq<usize>, x: usize, y: usize, d: usize)
    requires
        level_state(g, root, reached, parent, dist, l, seen, next),
        frontier_ok(root, reached, dist, l, frontier),
        scanned(g, root, reached, dist, l, xs),
        at_level(root, reached, dist, l, x as int),
        node_edge(g, x as int, y as int),
        y != root,
        !reached[y as int],
        d == l + 1,
        l >= 0,
    ensures
        level_state(g, root, reached.update(y as int, true), parent.update(y as int, x), dist.update(y as int, d), l, seen.push(y), next.push(y)),
        frontier_ok(root, reached.update(y as int, true), dist.update(y as int, d), l, frontier),
        scanned(g, root, reached.update(y as int, true), dist.update(y as int, d), l, xs),
        seen.len() + 1 <= g.files@.len(),
{
    lemma_level_walk(g, root, reached, parent, dist, l, seen, next, x as int);
    lemma_add_tree(g, root, reached, parent, dist, l, x, y, d);
    lemma_add_walks(g, root, reached, dist, l, x, y, d);
    lemma_add_search(g, root, reached, dist, l, y as int, d);
    lemma_add_next_seen(g.files@.len() as int, root, reached, dist, l, seen, next, y, d);
    lemma_add_frontier(g, root, reached, dist, l, frontier, xs, y as int, d);
}

/// With no cycle of fewer than `l` steps, a walk of `l > 0` steps ends at a reached node no
/// farther than `l`, not at the root.
proof fn lemma_walk_lands(g: ImportGraph, root: int, reached: Seq<bool>, dist: Seq<usize>, l: int, x: int)
    requires
        no_cycle_below(g, root, l),
        complete_to(g, root, reached, dist, l),
        reached.len() == g.files@.len(),
        walk_to(g, root, x, l),
        l > 0,
    ensures
        x != root,
        0 <= x < g.files@.len(),
        reached[x],
        dist[x] <= l,
{
    if x == root {
        lemma_walk_last(g, root, root, l - 1);
        let xp = choose|xp: int| walk_to(g, root, xp, l - 1) && #[trigger] node_edge(g, xp, root);
        assert(!node_edge(g, xp, root));
    }
    let w = choose|w: Seq<int>| #[trigger] is_walk(g, w) && w.len() == l + 1 && w[0] == root && w[l] == x;
    assert(node_edge(g, w[l - 1], w[l]));
}

/// Once the nodes at distance `l` are scanned, no cycle takes `l + 1` steps or fewer.
proof fn lemma_up_no_cycle(g: ImportGraph, root: int, reached: Seq<bool>, parent: Seq<usize>, dist: Seq<usize>, l: int, frontier: Seq<usize>)
    requires
        tree_ok(g, root, reached, parent, dist),
        reached_walks(g, root, reached, dist, l + 1),
        no_cycle_below(g, root, l),
        complete_to(g, root, reached, dist, l),
        frontier_ok(root, reached, dist, l, frontier),
        scanned(g, root, reached, dist, l, frontier),
        l >= 0,
    ensures
        no_cycle_below(g, root, l + 1),
{
    assert forall|x: int, m: int| #![trigger walk_to(g, root, x, m), node_edge(g, x, root)]
        0 <= m < l + 1 && walk_to(g, root, x, m) implies !node_edge(g, x, root) by {
        if m == l {
            if l == 0 {
                lemma_walk_zero(g, root);
                assert(at_level(root, reached, dist, l, root));
                let t = choose|t: int| 0 <= t < frontier.len() && frontier[t] as int == root;
                if node_edge(g, x, root) {
                    assert(node_edge(g, frontier[t] as int, root));
                }
            } else {
                lemma_walk_lands(g, root, reached, dist, l, x);
                if dist[x] < l {
                    assert(walk_to(g, root, x, dist[x] as int));
                } else {
                    assert(at_level(root, reached, dist, l, x));
                    let t = choose|t: int| 0 <= t < frontier.len() && frontier[t] as int == x;
                    if node_edge(g, x, root) {
                        assert(node_edge(g, frontier[t] as int, root));
                    }
                }
            }
        }
    }
}

/// Once the nodes at distance `l` are scanned, they are finished too.
proof fn lemma_up_closed(g: ImportGraph, root: int, reached: Seq<bool>, parent: Seq<usize>, dist: Seq<usize>, l: int, frontier: Seq<usize>)
    requires
        tree_ok(g, root, reached, parent, dist),
        reached_walks(g, root, reached, dist, l + 1),
        closed(g, root, reached, dist, l),
        frontier_ok(root, reached, dist, l, frontier),
        scanned(g, root, reached, dist, l, frontier),
        l >= 0,
    ensures
        closed(g, root, reached, dist, l + 1),
{
    assert forall|x: int, y: int| finished(root, reached, dist, l + 1, x) && #[trigger] node_edge(g, x, y) && y != root implies reached[y] && dist[y] <= dist[x] + 1 by {
        if !finished(root, reached, dist, l, x) {
            if x == root {
                assert(l == 0);
            } else {
                assert(reached[x]);
                assert(dist[x] == l);
            }
            assert(dist[x] == l);
            assert(at_level(root, reached, dist, l, x));
            let t = choose|t: int| 0 <= t < frontier.len() && frontier[t] as int == x;
            assert(node_edge(g, frontier[t] as int, y));
        }
    }
}

/// Once the nodes at distance `l` are scanned, every node that a walk of `l + 1` steps reaches
/// is reached.
proof fn lemma_up_complete(g: ImportGraph, root: int, reached: Seq<bool>, dist: Seq<usize>, l: int)
    requires
        no_cycle_below(g, root, l),
        complete_to(g, root, reached, dist, l),
        closed(g, root, reached, dist, l + 1),
        reached.len() == g.files@.len(),
        dist.len() == g.files@.len(),
        0 <= root < g.files@.len(),
        dist[root] == 0,
        l >= 0,
    ensures
        complete_to(g, root, reached, dist, l + 1),
{
    assert forall|y: int, m: int| 1 <= m <= l + 1 && 0 <= y < reached.len() && y != root && #[trigger] walk_to(g, root, y, m) implies reached[y] && dist[y] <= m by {
        if m == l + 1 {
            lemma_walk_last(g, root, y, l);
            let x = choose|x: int| walk_to(g, root, x, l) && #[trigger] node_edge(g, x, y);
            if l == 0 {
                lemma_walk_zero(g, root);
                assert(finished(root, reached, dist, l + 1, x));
            } else {
                lemma_walk_lands(g, root, reached, dist, l, x);
                assert(finished(root, reached, dist, l + 1, x));
            }
        }
    }
}

/// Once every node at distance `l` is scanned, the search state holds at distance `l + 1`, with
/// `next` as its frontier.
proof fn lemma_level_up(g: ImportGraph, root: int, reached: Seq<bool>, parent: Seq<usize>, dist: Seq<usize>, l: int,
    seen: Seq<usize>, next: Seq<usize>, frontier: Seq<usize>)
    requires
        level_state(g, root, reached, parent, dist, l, seen, next),
        frontier_ok(root, reached, dist, l, frontier),
        scanned(g, root, reached, dist, l, frontier),
        l >= 0,
    ensures
        level_state(g, root, reached, parent, dist, l + 1, seen, Seq::<usize>::empty()),
        frontier_ok(root, reached, dist, l + 1, next),
{
    let n = g.files@.len();
    lemma_up_no_cycle(g, root, reached, parent, dist, l, frontier);
    lemma_up_closed(g, root, reached, parent, dist, l, frontier);
    lemma_up_complete(g, root, reached, dist, l);
    assert forall|z: int| 0 <= z < n && #[trigger] reached[z] implies 1 <= dist[z] <= l + 2 && walk_to(g, root, z, dist[z] as int) by {}
    assert forall|x: int| 0 <= x < reached.len() && #[trigger] at_level(root, reached, dist, l + 1, x) implies exists|t: int| 0 <= t < next.len() && next[t] as int == x by {
        assert(reached[x] && dist[x] == l + 1);
    }
    assert forall|t: int| 0 <= t < next.len() implies at_level(root, reached, dist, l + 1, #[trigger] next[t] as int) by {
        assert(next[t] < n);
    }
}

/// When no node lies at distance `l`, every walk from the root ends at the root (after no steps)
/// or at a reached node no farther than the walk's length.
proof fn lemma_walk_reached(g: ImportGraph, root: int, reached: Seq<bool>, parent: Seq<usize>, dist: Seq<usize>, l: int, seen: Seq<usize>, x: int, m: int)
    requires
        level_state(g, root, reached, parent, dist, l, seen, Seq::<usize>::empty()),
        l >= 1,
        forall|z: int| 0 <= z < g.files@.len() && #[trigger] reached[z] ==> dist[z] < l,
        walk_to(g, root, x, m),
        m >= 0,
    ensures
        (x == root && m == 0) || (x != root && 0 <= x < g.files@.len() && reached[x] && dist[x] <= m),
    decreases m,
{
    if m == 0 {
        lemma_walk_zero(g, root);
    } else {
        lemma_walk_last(g, root, x, m - 1);
        let xp = choose|xp: int| walk_to(g, root, xp, m - 1) && #[trigger] node_edge(g, xp, x);
        lemma_walk_reached(g, root, reached, parent, dist, l, seen, xp, m - 1);
        assert(finished(root, reached, dist, l, xp));
        if x == root {
            if xp == root {
                lemma_walk_zero(g, root);
                assert(!node_edge(g, root, root));
            } else {
                assert(walk_to(g, root, xp, dist[xp] as int));
                assert(!node_edge(g, xp, root));
            }
        }
    }
}

/// A cycle through the root takes at least `l + 1` steps when none takes fewer.
proof fn lemma_cycle_at_least(g: ImportGraph, root: int, l: int, c: Seq<int>)
    requires
        no_cycle_below(g, root, l),
        cycle_through(g, root, c),
    ensures
        c.len() >= l + 2,
{
    lemma_cycle_last_step(g, root, c);
    let m = c.len() - 2;
    if m < l {
        assert(!node_edge(g, c[m], root));
    }
}

/// The nodes along a cycle, as integers, form a cycle.
proof fn lemma_node_cycle_through(g: ImportGraph, root: int, c: Seq<usize>)
    requires
        node_cycle(g, root, c),
    ensures
        cycle_through(g, root, node_ints(c)),
        node_ints(c).len() == c.len(),
{
    let w = node_ints(c);
    assert forall|i: int| 0 <= i < w.len() - 1 implies node_edge(g, #[trigger] w[i], w[i + 1]) by {
        assert(node_edge(g, c[i] as int, c[i + 1] as int));
    }
}

/// The path from the root to `w`, following parents, ending with a step back to the root.
fn close_cycle(g: &ImportGraph, root: usize, w: usize, reached: &Vec<bool>, parent: &Vec<usize>, dist: &Vec<usize>) -> (r: Vec<usize>)
    requires
        tree_ok(*g, root as int, reached@, parent@, dist@),
        0 <= w < g.files@.len(),
        w == root || reached@[w as int],
        node_edge(*g, w as int, root as int),
    ensures
        node_cycle(*g, root as int, r@),
        r@.len() == dist@[w as int] + 2,
{
    let mut rev: Vec<usize> = Vec::new();
    rev.push(w);
    let mut cur = w;
    while cur != root
        invariant
            tree_ok(*g, root as int, reached@, parent@, dist@),
            0 <= cur < g.files@.len(),
            cur == root || reached@[cur as int],
            rev@.len() >= 1,
            rev@[0] == w,
            rev@.last() == cur,
            rev@.len() + dist@[cur as int] == dist@[w as int] + 1,
            forall|k: int| 0 <= k < rev@.len() ==> #[trigger] rev@[k] < g.files@.len(),
            forall|k: int| 0 <= k < rev@.len() - 1 ==> node_edge(*g, #[trigger] rev@[k + 1] as int, rev@[k] as int),
        decreases dist@[cur as int],
    {
        proof {
            assert(parent_ok(*g, root as int, reached@, parent@, dist@, cur as int));
        }
        let p = parent[cur];
        rev.push(p);
        cur = p;
    }
    let m = rev.len();
    let mut out: Vec<usize> = Vec::new();
    let mut k: usize = m;
    while k > 0
        invariant
            m == rev@.len(),
            m >= 1,
            0 <= k <= m,
            rev@.last() == root,
            rev@[0] == w,
            out@.len() == m - k,
            forall|t: int| 0 <= t < out@.len() ==> out@[t] == rev@[m - 1 - t],
            forall|t: int| 0 <= t < rev@.len() ==> #[trigger] rev@[t] < g.files@.len(),
            forall|t: int| 0 <= t < rev@.len() - 1 ==> node_edge(*g, #[trigger] rev@[t + 1] as int, rev@[t] as int),
        decreases k,
    {
        k -= 1;
        out.push(rev[k]);
    }
    out.push(root);
    proof {
        assert forall|t: int| 0 <= t < out@.len() - 1 implies node_edge(*g, #[trigger] out@[t] as int, out@[t + 1] as int) by {
            if t < m - 1 {
                let j = m - 2 - t;
                assert(node_edge(*g, rev@[j + 1] as int, rev@[j] as int));
            } else {
                assert(out@[t] == rev@[0]);
            }
        }
        assert forall|t: int| 0 <= t < out@.len() implies #[trigger] out@[t] < g.files@.len() by {
            if t < m {
                assert(out@[t] == rev@[m - 1 - t]);
            }
        }
    }
    out
}

/// A cycle of nodes through `root`.
pub open spec fn node_cycle(g: ImportGraph, root: int, c: Seq<usize>) -> bool {
    &&& c.len() >= 2
    &&& c[0] == root
    &&& c.last() == root
    &&& forall|k: int| 0 <= k < c.len() ==> #[trigger] c[k] < g.files@.len()
    &&& forall|k: int| 0 <= k < c.len() - 1 ==> node_edge(g, #[trigger] c[k] as int, c[k + 1] as int)
}

/// The state of the search while the nodes at distance `l` are scanned, the first `t` of the
/// frontier done.
#[verifier::opaque]
pub open spec fn search_state(g: ImportGraph, root: int, reached: Seq<bool>, parent: Seq<usize>, dist: Seq<usize>, l: int,
    seen: Seq<usize>, next: Seq<usize>, frontier: Seq<usize>, t: int) -> bool {
    &&& level_state(g, root, reached, parent, dist, l, seen, next)
    &&& frontier_ok(root, reached, dist, l, frontier)
    &&& scanned(g, root, reached, dist, l, frontier.take(t))
    &&& 0 <= t <= frontier.len()
    &&& l >= 0
}

/// The search starts at the root, with nothing reached.
proof fn lemma_search_start(g: ImportGraph, root: usize, reached: Seq<bool>, parent: Seq<usize>, dist: Seq<usize>)
    requires
        root < g.files@.len(),
        reached.len() == g.files@.len(),
        parent.len() == g.files@.len(),
        dist.len() == g.files@.len(),
        forall|x: int| 0 <= x < reached.len() ==> !#[trigger] reached[x],
        forall|x: int| 0 <= x < dist.len() ==> #[trigger] dist[x] == 0,
    ensures
        search_state(g, root as int, reached, parent, dist, 0, seq![root], Seq::<usize>::empty(), seq![root], 0),
{
    reveal(search_state);
    let frontier = seq![root];
    assert(seen_ok(root as int, reached, seq![root]));
    assert(level_state(g, root as int, reached, parent, dist, 0, seq![root], Seq::<usize>::empty()));
    assert forall|x: int| 0 <= x < reached.len() && #[trigger] at_level(root as int, reached, dist, 0, x) implies exists|t: int| 0 <= t < frontier.len() && frontier[t] as int == x by {
        assert(frontier[0] as int == x);
    }
    assert(frontier.take(0) =~= Seq::<usize>::empty());
}

/// What the search knows of the frontier node `frontier[t]`.
proof fn lemma_search_node(g: ImportGraph, root: int, reached: Seq<bool>, parent: Seq<usize>, dist: Seq<usize>, l: int,
    seen: Seq<usize>, next: Seq<usize>, frontier: Seq<usize>, t: int)
    requires
        search_state(g, root, reached, parent, dist, l, seen, next, frontier, t),
        0 <= t < frontier.len(),
    ensures
        frontier[t] < g.files@.len(),
        frontier[t] as int == root || reached[frontier[t] as int],
        dist[frontier[t] as int] == l,
        tree_ok(g, root, reached, parent, dist),
        no_cycle_below(g, root, l),
        seen.len() <= g.files@.len(),
        seen.len() >= 1,
{
    reveal(search_state);
    assert(at_level(root, reached, dist, l, frontier[t] as int));
    lemma_level_walk(g, root, reached, parent, dist, l, seen, next, frontier[t] as int);
}

/// A reached node lies at distance at most `l + 1`.
proof fn lemma_search_reached(g: ImportGraph, root: int, reached: Seq<bool>, parent: Seq<usize>, dist: Seq<usize>, l: int,
    seen: Seq<usize>, next: Seq<usize>, frontier: Seq<usize>, t: int, y: int)
    requires
        search_state(g, root, reached, parent, dist, l, seen, next, frontier, t),
        0 <= y < g.files@.len(),
        reached[y],
    ensures
        dist[y] <= l + 1,
        y != root,
{
    reveal(search_state);
}

/// Reaching the successor `y` of `frontier[t]` keeps the search state.
proof fn lemma_search_add(g: ImportGraph, root: int, reached: Seq<bool>, parent: Seq<usize>, dist: Seq<usize>, l: int,
    seen: Seq<usize>, next: Seq<usize>, frontier: Seq<usize>, t: int, x: usize, y: usize, d: usize)
    requires
        search_state(g, root, reached, parent, dist, l, seen, next, frontier, t),
        0 <= t < frontier.len(),
        x == frontier[t],
        node_edge(g, x as int, y as int),
        y != root,
        !reached[y as int],
        d == l + 1,
    ensures
        search_state(g, root, reached.update(y as int, true), parent.update(y as int, x), dist.update(y as int, d), l, seen.push(y), next.push(y), frontier, t),
        seen.len() + 1 <= g.files@.len(),
{
    reveal(search_state);
    assert(at_level(root, reached, dist, l, x as int));
    lemma_add_node(g, root, reached, parent, dist, l, seen, next, frontier, frontier.take(t), x, y, d);
}

/// Once every successor of `frontier[t]` is reached, the first `t + 1` nodes are scanned.
proof fn lemma_scanned_extend(g: ImportGraph, succ: Seq<Vec<usize>>, root: int, reached: Seq<bool>, dist: Seq<usize>, l: int,
    frontier: Seq<usize>, t: int)
    requires
        scanned(g, root, reached, dist, l, frontier.take(t)),
        0 <= t < frontier.len(),
        succ_exact(g, succ),
        forall|j: int| 0 <= j < succ[frontier[t] as int]@.len() ==> #[trigger] succ[frontier[t] as int]@[j] as int != root
            && reached[succ[frontier[t] as int]@[j] as int] && dist[succ[frontier[t] as int]@[j] as int] <= l + 1,
    ensures
        scanned(g, root, reached, dist, l, frontier.take(t + 1)),
{
    let x = frontier[t];
    let xs = frontier.take(t + 1);
    assert forall|s: int, y: int| 0 <= s < xs.len() && #[trigger] node_edge(g, xs[s] as int, y) implies y != root && reached[y] && dist[y] <= l + 1 by {
        if s < t {
            assert(frontier.take(t)[s] == xs[s]);
        } else {
            assert(xs[s] == x);
            let j = choose|j: int| 0 <= j < succ[x as int]@.len() && succ[x as int]@[j] as int == y;
            assert(succ[x as int]@[j] as int == y);
        }
    }
}

/// Once every successor of `frontier[t]` is reached, the node is scanned.
proof fn lemma_search_scan(g: ImportGraph, succ: Seq<Vec<usize>>, root: int, reached: Seq<bool>, parent: Seq<usize>, dist: Seq<usize>, l: int,
    seen: Seq<usize>, next: Seq<usize>, frontier: Seq<usize>, t: int)
    requires
        search_state(g, root, reached, parent, dist, l, seen, next, frontier, t),
        0 <= t < frontier.len(),
        succ_exact(g, succ),
        forall|j: int| 0 <= j < succ[frontier[t] as int]@.len() ==> #[trigger] succ[frontier[t] as int]@[j] as int != root
            && reached[succ[frontier[t] as int]@[j] as int] && dist[succ[frontier[t] as int]@[j] as int] <= l + 1,
    ensures
        search_state(g, root, reached, parent, dist, l, seen, next, frontier, t + 1),
{
    reveal(search_state);
    lemma_scanned_extend(g, succ, root, reached, dist, l, frontier, t);
}

/// Once the whole frontier is scanned, the search moves on to distance `l + 1`, with `next` as
/// its frontier.
proof fn lemma_search_up(g: ImportGraph, root: int, reached: Seq<bool>, parent: Seq<usize>, dist: Seq<usize>, l: int,
    seen: Seq<usize>, next: Seq<usize>, frontier: Seq<usize>)
    requires
        search_state(g, root, reached, parent, dist, l, seen, next, frontier, frontier.len() as int),
    ensures
        search_state(g, root, reached, parent, dist, l + 1, seen, Seq::<usize>::empty(), next, 0),
{
    reveal(search_state);
    assert(frontier.take(frontier.len() as int) =~= frontier);
    lemma_level_up(g, root, reached, parent, dist, l, seen, next, frontier);
    assert(next.take(0) =~= Seq::<usize>::empty());
}

/// The seen nodes number at most the nodes, and at least one.
proof fn lemma_search_seen(g: ImportGraph, root: int, reached: Seq<bool>, parent: Seq<usize>, dist: Seq<usize>, l: int,
    seen: Seq<usize>, next: Seq<usize>, frontier: Seq<usize>, t: int)
    requires
        search_state(g, root, reached, parent, dist, l, seen, next, frontier, t),
    ensures
        1 <= seen.len() <= g.files@.len(),
{
    reveal(search_state);
}

/// When the frontier runs out, there is no cycle through the root.
proof fn lemma_search_none(g: ImportGraph, root: int, reached: Seq<bool>, parent: Seq<usize>, dist: Seq<usize>, l: int,
    seen: Seq<usize>)
    requires
        search_state(g, root, reached, parent, dist, l, seen, Seq::<usize>::empty(), Seq::<usize>::empty(), 0),
    ensures
        forall|c2: Seq<int>| !#[trigger] cycle_through(g, root, c2),
{
    reveal(search_state);
    let n = g.files@.len();
    assert(l >= 1) by {
        if l == 0 {
            assert(at_level(root, reached, dist, 0, root));
        }
    }
    assert forall|z: int| 0 <= z < n && #[trigger] reached[z] implies dist[z] < l by {
        if dist[z] == l {
            assert(at_level(root, reached, dist, l, z));
        }
    }
    assert forall|c2: Seq<int>| !#[trigger] cycle_through(g, root, c2) by {
        if cycle_through(g, root, c2) {
            lemma_cycle_last_step(g, root, c2);
            let m = c2.len() - 2;
            let x = c2[m];
            lemma_walk_reached(g, root, reached, parent, dist, l, seen, x, m);
            if x == root {
                lemma_walk_zero(g, root);
                assert(!node_edge(g, root, root));
            } else {
                assert(walk_to(g, root, x, dist[x] as int));
                assert(!node_edge(g, x, root));
            }
        }
    }
}

/// A shortest cycle from `root` back to itself, by a breadth-first search level by level, if
/// there is one.
fn shortest_cycle(g: &ImportGraph, succ: &Vec<Vec<usize>>, root: usize) -> (r: Option<Vec<usize>>)
    requires
        root < g.files@.len(),
        succ_exact(*g, succ@),
    ensures
        match r {
            Some(c) => node_cycle(*g, root as int, c@) && forall|c2: Seq<int>| #[trigger] cycle_through(*g, root as int, c2) ==> c2.len() >= c@.len(),
            None => forall|c2: Seq<int>| !#[trigger] cycle_through(*g, root as int, c2),
        },
{
    let n = g.files.len();
    let mut reached: Vec<bool> = Vec::new();
    let mut parent: Vec<usize> = Vec::new();
    let mut dist: Vec<usize> = Vec::new();
    let mut i: usize = 0;
    while i < n
        invariant
            n == g.files@.len(),
            0 <= i <= n,
            reached@.len() == i,
            parent@.len() == i,
            dist@.len() == i,
            forall|x: int| 0 <= x < i ==> !#[trigger] reached@[x],
            forall|x: int| 0 <= x < i ==> #[trigger] dist@[x] == 0,
        decreases n - i,
    {
        reached.push(false);
        parent.push(0);
        dist.push(0);
        i += 1;
    }
    let ghost mut seen: Seq<usize> = seq![root];
    let mut frontier: Vec<usize> = Vec::new();
    frontier.push(root);
    let mut level: usize = 0;
    proof {
        lemma_search_start(*g, root, reached@, parent@, dist@);
        assert(frontier@ =~= seq![root]);
    }
    while frontier.len() > 0
        invariant
            n == g.files@.len(),
            root < n,
            succ_exact(*g, succ@),
            search_state(*g, root as int, reached@, parent@, dist@, level as int, seen, Seq::<usize>::empty(), frontier@, 0),
            reached@.len() == n,
            parent@.len() == n,
            dist@.len() == n,
            1 <= seen.len() <= n,
            level <= seen.len(),
            frontier@.len() > 0 ==> level + 1 <= seen.len(),
        decreases n + 1 - seen.len(), frontier@.len(),
    {
        let ghost seen0 = seen;
        let mut next: Vec<usize> = Vec::new();
        let mut t: usize = 0;
        proof {
            assert(next@ =~= Seq::<usize>::empty());
        }
        while t < frontier.len()
            invariant
                n == g.files@.len(),
                root < n,
                succ_exact(*g, succ@),
                search_state(*g, root as int, reached@, parent@, dist@, level as int, seen, next@, frontier@, t as int),
                reached@.len() == n,
                parent@.len() == n,
                dist@.len() == n,
                0 <= t <= frontier@.len(),
                seen.len() == seen0.len() + next@.len(),
                level + 1 <= seen0.len(),
                1 <= seen0.len() <= seen.len() <= n,
            decreases frontier@.len() - t,
        {
            let x = frontier[t];
            proof {
                lemma_search_node(*g, root as int, reached@, parent@, dist@, level as int, seen, next@, frontier@, t as int);
            }
            let nexts = &succ[x];
            let mut k: usize = 0;
            while k < nexts.len()
                invariant
                    n == g.files@.len(),
                    root < n,
                    succ_exact(*g, succ@),
                    search_state(*g, root as int, reached@, parent@, dist@, level as int, seen, next@, frontier@, t as int),
                    reached@.len() == n,
                    parent@.len() == n,
                    dist@.len() == n,
                    0 <= t < frontier@.len(),
                    x == frontier@[t as int],
                    x < n,
                    nexts@ == succ@[x as int]@,
                    0 <= k <= nexts@.len(),
                    forall|j: int| 0 <= j < k ==> #[trigger] nexts@[j] as int != root as int && reached@[nexts@[j] as int] && dist@[nexts@[j] as int] <= level + 1,
                    seen.len() == seen0.len() + next@.len(),
                    level + 1 <= seen0.len(),
                    1 <= seen0.len() <= seen.len() <= n,
                decreases nexts@.len() - k,
            {
                let y = nexts[k];
                proof {
                    assert(node_edge(*g, x as int, succ@[x as int]@[k as int] as int));
                }
                if y == root {
                    proof {
                        lemma_search_node(*g, root as int, reached@, parent@, dist@, level as int, seen, next@, frontier@, t as int);
                    }
                    let c = close_cycle(g, root, x, &reached, &parent, &dist);
                    proof {
                        assert forall|c2: Seq<int>| #[trigger] cycle_through(*g, root as int, c2) implies c2.len() >= c@.len() by {
                            lemma_cycle_at_least(*g, root as int, level as int, c2);
                        }
                    }
                    return Some(c);
                }
                if !reached[y] {
                    let ghost r0 = reached@;
                    proof {
                        lemma_search_add(*g, root as int, reached@, parent@, dist@, level as int, seen, next@, frontier@, t as int, x, y, (level + 1) as usize);
                    }
                    reached.set(y, true);
                    parent.set(y, x);
                    dist.set(y, level + 1);
                    next.push(y);
                    proof {
                        seen = seen.push(y);
                        assert forall|j: int| 0 <= j < k + 1 implies #[trigger] nexts@[j] as int != root as int && reached@[nexts@[j] as int] && dist@[nexts@[j] as int] <= level + 1 by {
                            if j < k {
                                assert(r0[nexts@[j] as int]);
                            }
                        }
                    }
                } else {
                    proof {
                        lemma_search_reached(*g, root as int, reached@, parent@, dist@, level as int, seen, next@, frontier@, t as int, y as int);
                    }
                }
                k += 1;
            }
            proof {
                lemma_search_scan(*g, succ@, root as int, reached@, parent@, dist@, level as int, seen, next@, frontier@, t as int);
            }
            t += 1;
        }
        proof {
            lemma_search_up(*g, root as int, reached@, parent@, dist@, level as int, seen, next@, frontier@);
        }
        frontier = next;
        level = level + 1;
    }
    proof {
        assert(frontier@ =~= Seq::<usize>::empty());
        lemma_search_none(*g, root as int, reached@, parent@, dist@, level as int, seen);
    }
    None
}

/// A node not yet reached fits in a queue of distinct reached nodes.
proof fn lemma_fresh_fits(queue: Seq<usize>, reached: Seq<bool>, n: int, root: int, x: int)
    requires
        reached.len() == n,
        0 <= x < n,
        0 <= root < n,
        x != root,
        !reached[x],
        queue.len() >= 1,
        queue[0] == root,
        forall|t: int| 0 <= t < queue.len() ==> #[trigger] queue[t] < n,
        forall|t: int| 1 <= t < queue.len() ==> reached[#[trigger] queue[t] as int],
        forall|t: int| 1 <= t < queue.len() ==> #[trigger] queue[t] != root,
        forall|s: int, t: int| 1 <= s < t < queue.len() ==> #[trigger] queue[s] != #[trigger] queue[t],
    ensures
        queue.len() + 1 <= n,
{
    broadcast use vstd::set::group_set_axioms;
    let tail = queue.skip(1);
    let range = vstd::set_lib::set_int_range(0, n);
    vstd::set_lib::lemma_int_range(0, n);
    let others = range.remove(root).remove(x);
    assert(range.contains(root));
    assert(range.remove(root).contains(x));
    assert(others.len() == n - 2);
    let mt = tail.map_values(|v: usize| v as int);
    let ts = mt.to_set();
    assert(ts.subset_of(others)) by {
        assert forall|v: int| ts.contains(v) implies others.contains(v) by {
            assert(mt.contains(v));
            let t = choose|t: int| 0 <= t < mt.len() && mt[t] == v;
            assert(queue[t + 1] == tail[t]);
        }
    }
    assert(mt.no_duplicates()) by {
        assert forall|s: int, t: int| 0 <= s < mt.len() && 0 <= t < mt.len() && s != t implies mt[s] != mt[t] by {
            if s < t {
                assert(queue[s + 1] != queue[t + 1]);
            } else {
                assert(queue[t + 1] != queue[s + 1]);
            }
        }
    }
    mt.unique_seq_to_set();
    vstd::set_lib::lemma_len_subset(ts, others);
}


/// The import cycles of a graph, each under the file it starts at.
pub struct CircularImportContext {
    pub cycles_by_file: Vec<(String, Vec<String>)>,
}

/// The paths of the cycle of an entry.
pub open spec fn entry_paths(e: (String, Vec<String>)) -> Seq<Seq<char>> {
    e.1@.map_values(|p: String| p@)
}

/// Every cycle of `cycles` is an import cycle of `g` through the file it is filed under.
pub open spec fn cycles_sound(g: ImportGraph, cycles: Seq<(String, Vec<String>)>) -> bool {
    forall|k: int| 0 <= k < cycles.len() ==> is_import_cycle(g, (#[trigger] cycles[k]).0@, entry_paths(cycles[k]))
}

/// `paths` are the paths of the files along the nodes `c`.
pub open spec fn paths_along(g: ImportGraph, c: Seq<int>, paths: Seq<Seq<char>>) -> bool {
    &&& paths.len() == c.len()
    &&& forall|i: int| 0 <= i < c.len() ==> #[trigger] paths[i] == g.files@[c[i]].path@
}

/// `paths`, filed under `key`, is a shortest cycle back to node `u`, and `key` is `u`'s path.
#[verifier::opaque]
pub open spec fn shortest_entry(g: ImportGraph, u: int, key: Seq<char>, paths: Seq<Seq<char>>) -> bool {
    &&& 0 <= u < g.files@.len()
    &&& key == g.files@[u].path@
    &&& exists|c: Seq<int>| #[trigger] cycle_through(g, u, c) && paths_along(g, c, paths)
    &&& forall|c2: Seq<int>| #[trigger] cycle_through(g, u, c2) ==> c2.len() >= paths.len()
}

/// `paths`, filed under `key`, is a shortest cycle back to some node whose path is `key`.
#[verifier::opaque]
pub open spec fn shortest_for_some_node(g: ImportGraph, key: Seq<char>, paths: Seq<Seq<char>>) -> bool {
    exists|u: int| shortest_entry(g, u, key, paths)
}

/// Some cycle of `cycles` passes through the file `p`.
pub open spec fn on_some_cycle(cycles: Seq<(String, Vec<String>)>, p: Seq<char>) -> bool {
    exists|k: int| 0 <= k < cycles.len() && #[trigger] entry_paths(cycles[k]).contains(p)
}

impl ImportGraph {
    /// The index of the node of `file`, if the graph has one.
    pub fn file_node_index(&self, file: &str) -> (r: Option<usize>)
        ensures
            match r {
                Some(k) => node_index(self.files@, file@) == Some(k as int) && k < self.files@.len(),
                None => node_index(self.files@, file@) is None,
            },
    {
        let n = self.files.len();
        let mut i: usize = 0;
        while i < n
            invariant
                n == self.files@.len(),
                0 <= i <= n,
                node_index(self.files@.take(i as int), file@) is None,
            decreases n - i,
        {
            proof {
                assert(self.files@.take(i as int + 1).drop_last() =~= self.files@.take(i as int));
            }
            if same_path(self.files[i].path.as_str(), file) {
                proof {
                    crate::import_graph::lemma_node_found_at(self.files@, file@, i as int);
                }
                return Some(i);
            }
            i += 1;
        }
        proof {
            assert(self.files@.take(n as int) =~= self.files@);
        }
        None
    }
}

/// The cycle through the nodes `c`, as the paths of its files.
fn cycle_paths(g: &ImportGraph, c: &Vec<usize>) -> (r: Vec<String>)
    requires
        c@.len() >= 2,
        forall|k: int| 0 <= k < c@.len() ==> #[trigger] c@[k] < g.files@.len(),
        forall|k: int| 0 <= k < c@.len() - 1 ==> node_edge(*g, #[trigger] c@[k] as int, c@[k + 1] as int),
    ensures
        is_import_cycle(*g, g.files@[c@[0] as int].path@, r@.map_values(|p: String| p@)) || c@[0] != c@.last(),
        paths_along(*g, node_ints(c@), r@.map_values(|p: String| p@)),
{
    let mut out: Vec<String> = Vec::new();
    let m = c.len();
    let mut k: usize = 0;
    while k < m
        invariant
            m == c@.len(),
            0 <= k <= m,
            forall|t: int| 0 <= t < c@.len() ==> #[trigger] c@[t] < g.files@.len(),
            out@.len() == k,
            forall|t: int| 0 <= t < k ==> (#[trigger] out@[t])@ == g.files@[c@[t] as int].path@,
        decreases m - k,
    {
        out.push(copy_string(&g.files[c[k]].path));
        k += 1;
    }
    proof {
        let ps = out@.map_values(|p: String| p@);
        if c@[0] == c@.last() {
            assert forall|t: int| 0 <= t < ps.len() - 1 implies imports(*g, #[trigger] ps[t], ps[t + 1]) by {
                assert(node_edge(*g, c@[t] as int, c@[t + 1] as int));
                lemma_edge_step(*g, c@[t] as int, c@[t + 1] as int);
            }
        }
        assert forall|i: int| 0 <= i < node_ints(c@).len() implies #[trigger] ps[i] == g.files@[node_ints(c@)[i]].path@ by {
            assert(out@[i]@ == g.files@[c@[i] as int].path@);
        }
    }
    out
}

/// Whether some cycle of `cycles` passes through the file `p`.
fn passes_through(cycles: &Vec<(String, Vec<String>)>, p: &str) -> (r: bool)
    ensures
        r == on_some_cycle(cycles@, p@),
{
    let m = cycles.len();
    let mut k: usize = 0;
    while k < m
        invariant
            m == cycles@.len(),
            0 <= k <= m,
            forall|j: int| 0 <= j < k ==> !(#[trigger] entry_paths(cycles@[j])).contains(p@),
        decreases m - k,
    {
        let paths = &cycles[k].1;
        let len = paths.len();
        let mut i: usize = 0;
        while i < len
            invariant
                len == paths@.len(),
                k < m,
                m == cycles@.len(),
                paths@ == cycles@[k as int].1@,
                0 <= i <= len,
                forall|t: int| 0 <= t < i ==> (#[trigger] paths@[t])@ != p@,
            decreases len - i,
        {
            if str_equal(paths[i].as_str(), p) {
                proof {
                    assert(entry_paths(cycles@[k as int])[i as int] == p@);
                    assert(entry_paths(cycles@[k as int]).contains(p@));
                }
                return true;
            }
            i += 1;
        }
        proof {
            assert forall|t: int| 0 <= t < entry_paths(cycles@[k as int]).len() implies entry_paths(cycles@[k as int])[t] != p@ by {
                assert(paths@[t]@ != p@);
            }
        }
        k += 1;
    }
    false
}

/// The entries filed once the first `j` nodes of `sorted` are taken: each a shortest cycle
/// through its node filed under the node's path, taken among those `j`, in path order, none
/// filed under a file an earlier cycle passes through, and every one of those `j` nodes that
/// lies on a cycle passed through by an entry filed no later in path order.
#[verifier::opaque]
pub open spec fn filed_upto<'a>(g: ImportGraph, sorted: Seq<NodeKey<'a>>, j: int, cycles: Seq<(String, Vec<String>)>) -> bool {
    &&& cycles_sound(g, cycles)
    &&& forall|k: int| 0 <= k < cycles.len() ==> shortest_for_some_node(g, (#[trigger] cycles[k]).0@, entry_paths(cycles[k]))
    &&& forall|k: int| 0 <= k < cycles.len() ==> exists|i: int| 0 <= i < j && (#[trigger] cycles[k]).0@ == sorted[i].path@
    &&& forall|k: int, l: int| 0 <= k < l < cycles.len() ==> path_order((#[trigger] cycles[k]).0@, (#[trigger] cycles[l]).0@) <= 0
    &&& forall|k: int, l: int| 0 <= k < l < cycles.len() ==> !entry_paths(#[trigger] cycles[k]).contains((#[trigger] cycles[l]).0@)
    &&& forall|i: int, c: Seq<int>| 0 <= i < j && #[trigger] cycle_through(g, sorted[i].index as int, c) ==> exists|k: int| 0 <= k < cycles.len()
        && entry_paths(#[trigger] cycles[k]).contains(sorted[i].path@)
        && path_order(cycles[k].0@, sorted[i].path@) <= 0
}

/// Nothing is filed before any node is taken.
proof fn lemma_filed_start<'a>(g: ImportGraph, sorted: Seq<NodeKey<'a>>)
    ensures
        filed_upto(g, sorted, 0, Seq::<(String, Vec<String>)>::empty()),
{
    reveal(filed_upto);
}

/// A node that an entry filed so far passes through, or that lies on no cycle, gets no entry.
proof fn lemma_filed_skip<'a>(g: ImportGraph, sorted: Seq<NodeKey<'a>>, j: int, cycles: Seq<(String, Vec<String>)>)
    requires
        filed_upto(g, sorted, j, cycles),
        0 <= j < sorted.len(),
        crate::sorting::sorted_seq(sorted),
        on_some_cycle(cycles, sorted[j].path@) || forall|c: Seq<int>| !#[trigger] cycle_through(g, sorted[j].index as int, c),
    ensures
        filed_upto(g, sorted, j + 1, cycles),
{
    reveal(filed_upto);
    assert forall|k: int| 0 <= k < cycles.len() implies exists|i: int| 0 <= i < j + 1 && (#[trigger] cycles[k]).0@ == sorted[i].path@ by {
        let i = choose|i: int| 0 <= i < j && cycles[k].0@ == sorted[i].path@;
        assert(0 <= i < j + 1 && cycles[k].0@ == sorted[i].path@);
    }
    assert forall|i: int, c: Seq<int>| 0 <= i < j + 1 && #[trigger] cycle_through(g, sorted[i].index as int, c) implies exists|k: int| 0 <= k < cycles.len()
        && entry_paths(#[trigger] cycles[k]).contains(sorted[i].path@)
        && path_order(cycles[k].0@, sorted[i].path@) <= 0 by {
        if i == j {
            let k = choose|k: int| 0 <= k < cycles.len() && #[trigger] entry_paths(cycles[k]).contains(sorted[j].path@);
            let i2 = choose|i2: int| 0 <= i2 < j && cycles[k].0@ == sorted[i2].path@;
            assert(sorted[i2].key_le(&sorted[j]));
        }
    }
}

/// A node that no entry filed so far passes through gets its shortest cycle as an entry.
proof fn lemma_filed_entry<'a>(g: ImportGraph, sorted: Seq<NodeKey<'a>>, j: int, cycles: Seq<(String, Vec<String>)>, e: (String, Vec<String>))
    requires
        filed_upto(g, sorted, j, cycles),
        0 <= j < sorted.len(),
        crate::sorting::sorted_seq(sorted),
        !on_some_cycle(cycles, sorted[j].path@),
        shortest_entry(g, sorted[j].index as int, e.0@, entry_paths(e)),
        is_import_cycle(g, e.0@, entry_paths(e)),
        e.0@ == sorted[j].path@,
    ensures
        filed_upto(g, sorted, j + 1, cycles.push(e)),
{
    reveal(filed_upto);
    let c2 = cycles.push(e);
    let p = sorted[j].path@;
    lemma_segs_order_props(path_key(p), path_key(p));
    assert(entry_paths(e)[0] == p);
    assert(entry_paths(e).contains(p));
    assert(c2[cycles.len() as int] == e);
    assert forall|k: int| 0 <= k < c2.len() implies is_import_cycle(g, (#[trigger] c2[k]).0@, entry_paths(c2[k])) by {
        if k < cycles.len() {
            assert(c2[k] == cycles[k]);
        }
    }
    assert forall|k: int| 0 <= k < c2.len() implies shortest_for_some_node(g, (#[trigger] c2[k]).0@, entry_paths(c2[k])) by {
        if k < cycles.len() {
            assert(c2[k] == cycles[k]);
        } else {
            reveal(shortest_for_some_node);
            assert(shortest_entry(g, sorted[j].index as int, c2[k].0@, entry_paths(c2[k])));
        }
    }
    assert forall|k: int| 0 <= k < c2.len() implies exists|i: int| 0 <= i < j + 1 && (#[trigger] c2[k]).0@ == sorted[i].path@ by {
        if k < cycles.len() {
            assert(c2[k] == cycles[k]);
            let i = choose|i: int| 0 <= i < j && cycles[k].0@ == sorted[i].path@;
            assert(0 <= i < j + 1 && c2[k].0@ == sorted[i].path@);
        } else {
            assert(c2[k].0@ == sorted[j].path@);
        }
    }
    assert forall|k: int, l: int| 0 <= k < l < c2.len() implies path_order((#[trigger] c2[k]).0@, (#[trigger] c2[l]).0@) <= 0 by {
        assert(c2[k] == cycles[k]);
        if l < cycles.len() {
            assert(c2[l] == cycles[l]);
        } else {
            let i = choose|i: int| 0 <= i < j && cycles[k].0@ == sorted[i].path@;
            assert(sorted[i].key_le(&sorted[j]));
        }
    }
    assert forall|k: int, l: int| 0 <= k < l < c2.len() implies !entry_paths(#[trigger] c2[k]).contains((#[trigger] c2[l]).0@) by {
        assert(c2[k] == cycles[k]);
        if l < cycles.len() {
            assert(c2[l] == cycles[l]);
        }
    }
    assert forall|i: int, c: Seq<int>| 0 <= i < j + 1 && #[trigger] cycle_through(g, sorted[i].index as int, c) implies exists|k: int| 0 <= k < c2.len()
        && entry_paths(#[trigger] c2[k]).contains(sorted[i].path@)
        && path_order(c2[k].0@, sorted[i].path@) <= 0 by {
        if i < j {
            let k = choose|k: int| 0 <= k < cycles.len() && #[trigger] entry_paths(cycles[k]).contains(sorted[i].path@) && path_order(cycles[k].0@, sorted[i].path@) <= 0;
            assert(c2[k] == cycles[k]);
        } else {
            assert(entry_paths(c2[cycles.len() as int]).contains(sorted[i].path@));
        }
    }
}

/// Once every node is taken, every node on a cycle is passed through by an entry filed no
/// later in path order.
proof fn lemma_filed_all<'a>(g: ImportGraph, sorted: Seq<NodeKey<'a>>, unsorted: Seq<NodeKey<'a>>, cycles: Seq<(String, Vec<String>)>)
    requires
        filed_upto(g, sorted, sorted.len() as int, cycles),
        sorted.to_multiset() == unsorted.to_multiset(),
        unsorted.len() == g.files@.len(),
        forall|k: int| 0 <= k < unsorted.len() ==> (#[trigger] unsorted[k]).index == k && unsorted[k].path@ == g.files@[k].path@,
    ensures
        cycles_sound(g, cycles),
        forall|k: int| 0 <= k < cycles.len() ==> shortest_for_some_node(g, (#[trigger] cycles[k]).0@, entry_paths(cycles[k])),
        forall|k: int, l: int| 0 <= k < l < cycles.len() ==> path_order((#[trigger] cycles[k]).0@, (#[trigger] cycles[l]).0@) <= 0,
        forall|k: int, l: int| 0 <= k < l < cycles.len() ==> !entry_paths(#[trigger] cycles[k]).contains((#[trigger] cycles[l]).0@),
        forall|u: int, c: Seq<int>| #[trigger] cycle_through(g, u, c) ==> exists|k: int| 0 <= k < cycles.len()
            && entry_paths(#[trigger] cycles[k]).contains(g.files@[u].path@)
            && path_order(cycles[k].0@, g.files@[u].path@) <= 0,
{
    reveal(filed_upto);
    assert forall|u: int, c: Seq<int>| #[trigger] cycle_through(g, u, c) implies exists|k: int| 0 <= k < cycles.len()
        && entry_paths(#[trigger] cycles[k]).contains(g.files@[u].path@)
        && path_order(cycles[k].0@, g.files@[u].path@) <= 0 by {
        assert(0 <= u < g.files@.len()) by {
            assert(node_edge(g, c[0], c[1]));
        }
        crate::sorting::lemma_permutation_contains(unsorted, sorted, u);
        let i = choose|i: int| 0 <= i < sorted.len() && sorted[i] == unsorted[u];
        assert(sorted[i].index as int == u);
        assert(sorted[i].path@ == g.files@[u].path@);
        assert(cycle_through(g, sorted[i].index as int, c));
    }
}

impl CircularImportContext {
    /// The cycles of `import_graph`: files are taken in path order, and each file that lies on
    /// an import cycle and that no cycle filed so far passes through gets one entry, a shortest
    /// cycle back to it, filed under its path. No other entry is filed.
    pub fn new(import_graph: &ImportGraph) -> (r: Self)
        ensures
            cycles_sound(*import_graph, r.cycles_by_file@),
            forall|k: int| 0 <= k < r.cycles_by_file@.len() ==> shortest_for_some_node(*import_graph, (#[trigger] r.cycles_by_file@[k]).0@, entry_paths(r.cycles_by_file@[k])),
            forall|k: int, l: int| 0 <= k < l < r.cycles_by_file@.len() ==> path_order((#[trigger] r.cycles_by_file@[k]).0@, (#[trigger] r.cycles_by_file@[l]).0@) <= 0,
            forall|k: int, l: int| 0 <= k < l < r.cycles_by_file@.len() ==> !entry_paths(#[trigger] r.cycles_by_file@[k]).contains((#[trigger] r.cycles_by_file@[l]).0@),
            forall|u: int, c: Seq<int>| #[trigger] cycle_through(*import_graph, u, c) ==> exists|k: int| 0 <= k < r.cycles_by_file@.len()
                && entry_paths(#[trigger] r.cycles_by_file@[k]).contains(import_graph.files@[u].path@)
                && path_order(r.cycles_by_file@[k].0@, import_graph.files@[u].path@) <= 0,
    {
        let g = import_graph;
        let n = g.files.len();
        let mut keys: Vec<NodeKey> = Vec::new();
        let mut succ: Vec<Vec<usize>> = Vec::new();
        let mut i: usize = 0;
        while i < n
            invariant
                n == g.files@.len(),
                0 <= i <= n,
                keys@.len() == i,
                succ@.len() == i,
                forall|k: int| 0 <= k < i ==> (#[trigger] keys@[k]).index == k && keys@[k].path@ == g.files@[k].path@,
                forall|u: int, k: int| 0 <= u < succ@.len() && 0 <= k < succ@[u]@.len() ==> node_edge(*g, u, #[trigger] succ@[u]@[k] as int),
                forall|u: int, v: int| 0 <= u < succ@.len() && #[trigger] node_edge(*g, u, v) ==> exists|k: int| 0 <= k < succ@[u]@.len() && succ@[u]@[k] as int == v,
            decreases n - i,
        {
            keys.push(NodeKey { index: i, path: &g.files[i].path });
            let s = successors(g, i);
            let ghost before = succ@;
            let ghost sv = s@;
            succ.push(s);
            proof {
                assert forall|u: int, v: int| 0 <= u < succ@.len() && #[trigger] node_edge(*g, u, v) implies exists|k: int| 0 <= k < succ@[u]@.len() && succ@[u]@[k] as int == v by {
                    if u < i {
                        assert(succ@[u] == before[u]);
                    } else {
                        assert(succ@[u]@ == sv);
                    }
                }
            }
            i += 1;
        }
        proof {
            assert forall|u: int, v: int| #[trigger] node_edge(*g, u, v) implies exists|k: int| 0 <= k < succ@[u]@.len() && succ@[u]@[k] as int == v by {
                assert(0 <= u < succ@.len());
            }
        }
        let ghost unsorted = keys@;
        let sorted = insertion_sort(keys);
        proof {
            assert forall|k: int| 0 <= k < sorted@.len() implies (#[trigger] sorted@[k]).index < n && sorted@[k].path@ == g.files@[sorted@[k].index as int].path@ by {
                crate::sorting::lemma_permutation_contains(sorted@, unsorted, k);
            }
            lemma_filed_start(*g, sorted@);
        }
        let mut cycles: Vec<(String, Vec<String>)> = Vec::new();
        let m = sorted.len();
        let mut j: usize = 0;
        while j < m
            invariant
                n == g.files@.len(),
                m == sorted@.len(),
                0 <= j <= m,
                succ_exact(*g, succ@),
                crate::sorting::sorted_seq(sorted@),
                forall|k: int| 0 <= k < sorted@.len() ==> (#[trigger] sorted@[k]).index < n && sorted@[k].path@ == g.files@[sorted@[k].index as int].path@,
                filed_upto(*g, sorted@, j as int, cycles@),
            decreases m - j,
        {
            let u = sorted[j].index;
            let p = sorted[j].path;
            if passes_through(&cycles, p.as_str()) {
                proof {
                    lemma_filed_skip(*g, sorted@, j as int, cycles@);
                }
            } else {
                match shortest_cycle(g, &succ, u) {
                    Some(c) => {
                        let paths = cycle_paths(g, &c);
                        let key = copy_string(&g.files[u].path);
                        proof {
                            lemma_node_cycle_through(*g, u as int, c@);
                            let e = (key, paths);
                            reveal(shortest_entry);
                            assert(shortest_entry(*g, u as int, e.0@, entry_paths(e)));
                            lemma_filed_entry(*g, sorted@, j as int, cycles@, e);
                        }
                        cycles.push((key, paths));
                    },
                    None => {
                        proof {
                            lemma_filed_skip(*g, sorted@, j as int, cycles@);
                        }
                    },
                }
            }
            j += 1;
        }
        proof {
            lemma_filed_all(*g, sorted@, unsorted, cycles@);
        }
        CircularImportContext { cycles_by_file: cycles }
    }
}

} // verus!
