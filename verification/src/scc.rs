//! Strongly connected components of a part of a graph, computed by petgraph.

use crate::graph::{count_true, Digraph, lemma_selected_count, lists, selected, total_len};
use petgraph::algo::tarjan_scc;
use petgraph::graph::{Graph, NodeIndex};
use petgraph::Directed;
use vstd::prelude::*;

verus! {

/// What petgraph's `tarjan_scc` returns for the directed graph that is built
/// by adding `node_count` nodes and then the edges of `edges` in order: the
/// strongly connected components, each as the list of its node indices.
pub uninterp spec fn tarjan_components(node_count: nat, edges: Seq<(usize, usize)>) -> Seq<Seq<usize>>;

/// The node number `k` of `walk` has an edge of `edges` to the next node of `walk`.
pub open spec fn steps(edges: Seq<(usize, usize)>, walk: Seq<usize>, k: int) -> bool {
    edges.contains((walk[k], walk[k + 1]))
}

/// `walk` is a walk along `edges`: each of its nodes has an edge to the next.
pub open spec fn is_walk(edges: Seq<(usize, usize)>, walk: Seq<usize>) -> bool {
    walk.len() >= 1 && forall|k: int| 0 <= k < walk.len() - 1 ==> #[trigger] steps(edges, walk, k)
}

/// There is a walk along `edges` from `a` to `b`. A node reaches itself.
pub open spec fn reaches(edges: Seq<(usize, usize)>, a: usize, b: usize) -> bool {
    exists|walk: Seq<usize>| #[trigger] is_walk(edges, walk) && walk[0] == a && walk.last() == b
}

/// The node at the place `j` of the list `i` of `lists`.
pub open spec fn node_at(lists: Seq<Seq<usize>>, i: int, j: int) -> usize {
    lists[i][j]
}

/// `lists` has a list `i` with a place `j`.
pub open spec fn is_place(lists: Seq<Seq<usize>>, i: int, j: int) -> bool {
    0 <= i < lists.len() && 0 <= j < lists[i].len()
}

/// No node is named at two places of `lists`.
pub open spec fn named_once(lists: Seq<Seq<usize>>) -> bool {
    forall|i: int, j: int, k: int, l: int|
        is_place(lists, i, j) && is_place(lists, k, l) && #[trigger] node_at(lists, i, j) == #[trigger] node_at(
            lists,
            k,
            l,
        ) ==> i == k && j == l
}

/// `lists` names the node `v`.
pub open spec fn is_named(lists: Seq<Seq<usize>>, v: usize) -> bool {
    exists|i: int, j: int| is_place(lists, i, j) && #[trigger] node_at(lists, i, j) == v
}

/// `components` are the strongly connected components of the graph with
/// the nodes `0..n` and the edges `edges`: every node is in exactly one
/// of them, and two nodes are in one of them exactly when each reaches
/// the other.
#[verifier::opaque]
pub open spec fn are_strong_components(n: nat, edges: Seq<(usize, usize)>, components: Seq<Seq<usize>>) -> bool {
    &&& nodes_below(components, n)
    &&& named_once(components)
    &&& forall|v: usize| v < n ==> #[trigger] is_named(components, v)
    &&& forall|i: int, j: int, k: int, l: int|
        is_place(components, i, j) && is_place(components, k, l) ==> ((i == k) <==> (reaches(
            edges,
            #[trigger] node_at(components, i, j),
            #[trigger] node_at(components, k, l),
        ) && reaches(edges, node_at(components, k, l), node_at(components, i, j))))
}

/// Calls `petgraph::algo::tarjan_scc` on the graph with the nodes
/// `0..node_count` and the edges of `edges`, added in order. Claimed of it:
/// the result is a function of the nodes and edges alone, and it lists the
/// strongly connected components of that graph.
#[verifier::external_body]
fn tarjan(node_count: usize, edges: &Vec<(usize, usize)>) -> (components: Vec<Vec<usize>>)
    requires
        forall|k: int|
            0 <= k < edges@.len() ==> (#[trigger] edges@[k]).0 < node_count && edges@[k].1 < node_count,
    ensures
        lists(components@) == tarjan_components(node_count as nat, edges@),
        are_strong_components(node_count as nat, edges@, lists(components@)),
{
    let mut graph = Graph::<(), (), Directed, usize>::with_capacity(node_count, edges.len());
    for _ in 0..node_count {
        graph.add_node(());
    }
    for edge in edges.iter() {
        graph.add_edge(NodeIndex::new(edge.0), NodeIndex::new(edge.1), ());
    }
    tarjan_scc(&graph).into_iter().map(|c| c.into_iter().map(|v| v.index()).collect()).collect()
}

/// The edges of `g` from node `a` to selected nodes, from edge number `j` of `a` on.
pub open spec fn induced_row(g: Seq<Seq<usize>>, mask: Seq<bool>, a: int, j: nat) -> Seq<(usize, usize)>
    decreases g[a].len() - j,
{
    if j >= g[a].len() {
        Seq::empty()
    } else {
        let b = g[a][j as int];
        let here = if mask[b as int] {
            seq![(a as usize, b)]
        } else {
            Seq::empty()
        };
        here + induced_row(g, mask, a, j + 1)
    }
}

/// The edges of `g` between selected nodes, for the sources `a` and up:
/// ordered by source, and for one source as its successor list has them.
pub open spec fn induced_edges(g: Seq<Seq<usize>>, mask: Seq<bool>, a: nat) -> Seq<(usize, usize)>
    decreases g.len() - a,
{
    if a >= g.len() {
        Seq::empty()
    } else {
        let here = if mask[a as int] {
            induced_row(g, mask, a as int, 0)
        } else {
            Seq::empty()
        };
        here + induced_edges(g, mask, a + 1)
    }
}

/// The components that have two nodes or more, in their order.
pub open spec fn nontrivial(components: Seq<Seq<usize>>) -> Seq<Seq<usize>>
    decreases components.len(),
{
    if components.len() == 0 {
        Seq::empty()
    } else {
        let before = nontrivial(components.drop_last());
        if components.last().len() > 1 {
            before.push(components.last())
        } else {
            before
        }
    }
}

/// The strongly connected components with two nodes or more of the part of
/// `g` that `mask` selects, as petgraph lists them.
pub open spec fn strong_components_of(g: Seq<Seq<usize>>, mask: Seq<bool>) -> Seq<Seq<usize>> {
    nontrivial(tarjan_components(g.len(), induced_edges(g, mask, 0)))
}

/// Every node that `lists` names is below `n`.
pub open spec fn nodes_below(lists: Seq<Seq<usize>>, n: nat) -> bool {
    forall|i: int, j: int| 0 <= i < lists.len() && 0 <= j < lists[i].len() ==> (#[trigger] lists[i][j]) < n
}

/// An edge of the row of `a` leaves `a`.
proof fn lemma_induced_row_source(g: Seq<Seq<usize>>, mask: Seq<bool>, a: int, j: nat, e: (usize, usize))
    requires
        0 <= a < g.len(),
        g.len() <= usize::MAX,
        induced_row(g, mask, a, j).contains(e),
    ensures
        e.0 == a,
    decreases g[a].len() - j,
{
    if j < g[a].len() {
        let b = g[a][j as int];
        let here = if mask[b as int] {
            seq![(a as usize, b)]
        } else {
            Seq::<(usize, usize)>::empty()
        };
        let rest = induced_row(g, mask, a, j + 1);
        let k = choose|k: int| 0 <= k < (here + rest).len() && (here + rest)[k] == e;
        if k < here.len() {
            assert(here[k] == e);
        } else {
            assert(rest[k - here.len()] == e);
            lemma_induced_row_source(g, mask, a, j + 1, e);
        }
    }
}

/// An edge between selected nodes leaves a selected node.
proof fn lemma_induced_edge_source(g: Seq<Seq<usize>>, mask: Seq<bool>, a: nat, e: (usize, usize))
    requires
        g.len() <= usize::MAX,
        induced_edges(g, mask, a).contains(e),
    ensures
        a <= e.0 < g.len(),
        mask[e.0 as int],
    decreases g.len() - a,
{
    if a < g.len() {
        let here = if mask[a as int] {
            induced_row(g, mask, a as int, 0)
        } else {
            Seq::<(usize, usize)>::empty()
        };
        let rest = induced_edges(g, mask, a + 1);
        let k = choose|k: int| 0 <= k < (here + rest).len() && (here + rest)[k] == e;
        if k < here.len() {
            assert(here[k] == e);
            lemma_induced_row_source(g, mask, a as int, 0, e);
        } else {
            assert(rest[k - here.len()] == e);
            lemma_induced_edge_source(g, mask, a + 1, e);
        }
    }
}

/// The nodes of the components with two nodes or more.
pub open spec fn big_nodes(components: Seq<Seq<usize>>) -> Set<usize>
    decreases components.len(),
{
    if components.len() == 0 {
        Set::empty()
    } else if components.last().len() > 1 {
        big_nodes(components.drop_last()).union(components.last().to_set())
    } else {
        big_nodes(components.drop_last())
    }
}

/// A node of a component with two nodes or more is named at a place of
/// such a component.
proof fn lemma_big_node_named(components: Seq<Seq<usize>>, x: usize)
    requires
        big_nodes(components).contains(x),
    ensures
        exists|i: int, j: int|
            is_place(components, i, j) && components[i].len() > 1 && #[trigger] node_at(components, i, j) == x,
    decreases components.len(),
{
    if components.len() > 0 {
        let front = components.drop_last();
        let last = components.last();
        if last.len() > 1 && last.to_set().contains(x) {
            let j = choose|j: int| 0 <= j < last.len() && last[j] == x;
            assert(is_place(components, components.len() - 1, j));
            assert(node_at(components, components.len() - 1, j) == x);
        } else {
            lemma_big_node_named(front, x);
            let (i, j) = choose|i: int, j: int|
                is_place(front, i, j) && front[i].len() > 1 && #[trigger] node_at(front, i, j) == x;
            assert(front[i] == components[i]);
            assert(is_place(components, i, j));
            assert(node_at(components, i, j) == x);
        }
    }
}

/// Where no node is named twice, the components with two nodes or more
/// name as many nodes as they have.
proof fn lemma_big_nodes_count(components: Seq<Seq<usize>>)
    requires
        named_once(components),
    ensures
        big_nodes(components).finite(),
        big_nodes(components).len() == total_len(nontrivial(components)),
    decreases components.len(),
{
    broadcast use vstd::set::group_set_axioms;
    broadcast use vstd::seq_lib::seq_to_set_is_finite;

    if components.len() > 0 {
        let front = components.drop_last();
        let last = components.last();
        let top = components.len() - 1;
        assert(named_once(front)) by {
            assert forall|i: int, j: int, k: int, l: int|
                is_place(front, i, j) && is_place(front, k, l) && #[trigger] node_at(front, i, j)
                    == #[trigger] node_at(front, k, l) implies i == k && j == l by {
                assert(front[i] == components[i] && front[k] == components[k]);
                assert(is_place(components, i, j) && is_place(components, k, l));
                assert(node_at(components, i, j) == node_at(components, k, l));
            }
        }
        lemma_big_nodes_count(front);
        if last.len() > 1 {
            assert(last.no_duplicates()) by {
                assert forall|j: int, l: int| 0 <= j < last.len() && 0 <= l < last.len() && j != l implies last[j]
                    != last[l] by {
                    assert(is_place(components, top, j) && is_place(components, top, l));
                    if last[j] == last[l] {
                        assert(node_at(components, top, j) == node_at(components, top, l));
                    }
                }
            }
            last.unique_seq_to_set();
            assert(big_nodes(front).disjoint(last.to_set())) by {
                assert forall|x: usize| big_nodes(front).contains(x) implies !last.to_set().contains(x) by {
                    if last.to_set().contains(x) {
                        lemma_big_node_named(front, x);
                        let (i, j) = choose|i: int, j: int|
                            is_place(front, i, j) && front[i].len() > 1 && #[trigger] node_at(front, i, j) == x;
                        let l = choose|l: int| 0 <= l < last.len() && last[l] == x;
                        assert(front[i] == components[i]);
                        assert(is_place(components, i, j) && is_place(components, top, l));
                        assert(node_at(components, i, j) == node_at(components, top, l));
                    }
                }
            }
            vstd::set_lib::lemma_set_disjoint_lens(big_nodes(front), last.to_set());
            let kept = nontrivial(components);
            assert(kept.drop_last() =~= nontrivial(front));
            assert(kept.last() == last);
        }
    }
}

/// A walk from a node to another node begins with an edge.
proof fn lemma_walk_leaves(edges: Seq<(usize, usize)>, walk: Seq<usize>, a: usize, b: usize)
    requires
        is_walk(edges, walk),
        walk[0] == a,
        walk.last() == b,
        a != b,
    ensures
        edges.contains((a, walk[1])),
{
    assert(walk.len() >= 2);
    assert(steps(edges, walk, 0));
}

/// Strongly connected components name nodes of the graph, and none twice.
pub proof fn lemma_components_named_once(n: nat, edges: Seq<(usize, usize)>, components: Seq<Seq<usize>>)
    requires
        are_strong_components(n, edges, components),
    ensures
        nodes_below(components, n),
        named_once(components),
{
    reveal(are_strong_components);
}

/// Two nodes of one strongly connected component reach each other.
pub proof fn lemma_component_connected(
    n: nat,
    edges: Seq<(usize, usize)>,
    components: Seq<Seq<usize>>,
    i: int,
    j: int,
    l: int,
)
    requires
        are_strong_components(n, edges, components),
        is_place(components, i, j),
        is_place(components, i, l),
    ensures
        reaches(edges, components[i][j], components[i][l]),
{
    reveal(are_strong_components);
    assert(reaches(edges, node_at(components, i, j), node_at(components, i, l)));
}

/// A node of a component with two nodes or more is selected.
pub proof fn lemma_big_node_selected(
    g: Seq<Seq<usize>>,
    mask: Seq<bool>,
    components: Seq<Seq<usize>>,
    i: int,
    j: int,
)
    requires
        g.len() <= usize::MAX,
        mask.len() == g.len(),
        are_strong_components(g.len(), induced_edges(g, mask, 0), components),
        is_place(components, i, j),
        components[i].len() > 1,
    ensures
        selected(mask).contains(components[i][j]),
{
    let edges = induced_edges(g, mask, 0);
    let l = if j == 0 {
        1int
    } else {
        0int
    };
    let x = components[i][j];
    let y = components[i][l];
    assert(is_place(components, i, l));
    lemma_components_named_once(g.len(), edges, components);
    assert(x != y) by {
        if x == y {
            assert(node_at(components, i, j) == node_at(components, i, l));
        }
    }
    lemma_component_connected(g.len(), edges, components, i, j, l);
    let walk = choose|walk: Seq<usize>| #[trigger] is_walk(edges, walk) && walk[0] == x && walk.last() == y;
    lemma_walk_leaves(edges, walk, x, y);
    lemma_induced_edge_source(g, mask, 0, (x, walk[1]));
}

/// The strongly connected components with two nodes or more of the part
/// of a graph that `mask` selects have, together, no more nodes than
/// `mask` selects.
pub proof fn lemma_components_within(g: Seq<Seq<usize>>, mask: Seq<bool>, components: Seq<Seq<usize>>)
    requires
        g.len() <= usize::MAX,
        mask.len() == g.len(),
        are_strong_components(g.len(), induced_edges(g, mask, 0), components),
    ensures
        total_len(nontrivial(components)) <= count_true(mask),
{
    let edges = induced_edges(g, mask, 0);
    lemma_components_named_once(g.len(), edges, components);
    lemma_big_nodes_count(components);
    lemma_selected_count(mask);
    assert(big_nodes(components).subset_of(selected(mask))) by {
        assert forall|x: usize| big_nodes(components).contains(x) implies selected(mask).contains(x) by {
            lemma_big_node_named(components, x);
            let (i, j) = choose|i: int, j: int|
                is_place(components, i, j) && components[i].len() > 1 && #[trigger] node_at(components, i, j)
                    == x;
            lemma_big_node_selected(g, mask, components, i, j);
        }
    }
    vstd::set_lib::lemma_len_subset(big_nodes(components), selected(mask));
}

pub proof fn lemma_nontrivial_nodes(components: Seq<Seq<usize>>, n: nat)
    requires
        nodes_below(components, n),
    ensures
        nodes_below(nontrivial(components), n),
        forall|i: int| 0 <= i < nontrivial(components).len() ==> (#[trigger] nontrivial(components)[i]).len() > 1,
    decreases components.len(),
{
    if components.len() > 0 {
        let front = components.drop_last();
        assert forall|i: int, j: int| 0 <= i < front.len() && 0 <= j < front[i].len() implies (
        #[trigger] front[i][j]) < n by {
            assert(front[i] == components[i]);
        }
        lemma_nontrivial_nodes(front, n);
    }
}

/// Keeps the components that have two nodes or more.
pub fn nontrivial_components(components: Vec<Vec<usize>>) -> (kept: Vec<Vec<usize>>)
    ensures
        lists(kept@) == nontrivial(lists(components@)),
{
    let mut kept: Vec<Vec<usize>> = Vec::new();
    let mut components = components;
    let ghost all = lists(components@);
    let n = components.len();
    let mut i: usize = 0;
    assert(all.subrange(0, 0) =~= Seq::<Seq<usize>>::empty());
    assert(lists(kept@) =~= nontrivial(all.subrange(0, 0)));
    while i < n
        invariant
            i <= n,
            n == components@.len(),
            all.len() == n,
            forall|k: int| i <= k < n ==> (#[trigger] components@[k])@ == all[k],
            lists(kept@) == nontrivial(all.subrange(0, i as int)),
        decreases n - i,
    {
        let mut c: Vec<usize> = Vec::new();
        let ghost old_components = components@;
        components.set_and_swap(i, &mut c);
        proof {
            assert(c@ == all[i as int]);
            assert forall|k: int| i < k < n implies (#[trigger] components@[k])@ == all[k] by {
                assert(components@[k] == old_components[k]);
            }
            let upto = all.subrange(0, i + 1);
            assert(upto.drop_last() =~= all.subrange(0, i as int));
            assert(upto.last() == all[i as int]);
        }
        let ghost kept0 = lists(kept@);
        if c.len() > 1 {
            kept.push(c);
            assert(lists(kept@) =~= kept0.push(all[i as int]));
        }
        i += 1;
    }
    assert(all.subrange(0, n as int) =~= all);
    kept
}

/// The edges of `g` between the nodes that `mask` selects.
pub fn induced_edge_list(g: &Digraph, mask: &Vec<bool>) -> (edges: Vec<(usize, usize)>)
    requires
        g.wf(),
        mask@.len() == g@.len(),
    ensures
        edges@ == induced_edges(g@, mask@, 0),
        forall|k: int|
            0 <= k < edges@.len() ==> (#[trigger] edges@[k]).0 < g@.len() && edges@[k].1 < g@.len(),
{
    let n = g.node_count();
    let mut edges: Vec<(usize, usize)> = Vec::new();
    let mut a: usize = 0;
    while a < n
        invariant
            a <= n,
            n == g@.len(),
            g.wf(),
            mask@.len() == n,
            edges@ + induced_edges(g@, mask@, a as nat) == induced_edges(g@, mask@, 0),
            forall|k: int| 0 <= k < edges@.len() ==> (#[trigger] edges@[k]).0 < n && edges@[k].1 < n,
        decreases n - a,
    {
        let ghost before = edges@;
        if mask[a] {
            let deg = g.succ[a].len();
            let mut j: usize = 0;
            while j < deg
                invariant
                    j <= deg,
                    a < n,
                    n == g@.len(),
                    g.wf(),
                    mask@.len() == n,
                    deg == g@[a as int].len(),
                    edges@ + induced_row(g@, mask@, a as int, j as nat) == before + induced_row(
                        g@,
                        mask@,
                        a as int,
                        0,
                    ),
                    forall|k: int| 0 <= k < edges@.len() ==> (#[trigger] edges@[k]).0 < n && edges@[k].1 < n,
                decreases deg - j,
            {
                let b = g.succ[a][j];
                let ghost edges0 = edges@;
                assert(g@[a as int][j as int] == b);
                if mask[b] {
                    edges.push((a, b));
                }
                proof {
                    let here = if mask@[b as int] {
                        seq![(a, b)]
                    } else {
                        Seq::<(usize, usize)>::empty()
                    };
                    assert(edges@ =~= edges0 + here);
                    assert((edges0 + here) + induced_row(g@, mask@, a as int, (j + 1) as nat) =~= edges0 + (here
                        + induced_row(g@, mask@, a as int, (j + 1) as nat)));
                }
                j += 1;
            }
            assert(edges@ =~= before + induced_row(g@, mask@, a as int, 0));
        }
        proof {
            let here = if mask@[a as int] {
                induced_row(g@, mask@, a as int, 0)
            } else {
                Seq::<(usize, usize)>::empty()
            };
            assert(edges@ =~= before + here);
            assert((before + here) + induced_edges(g@, mask@, (a + 1) as nat) =~= before + (here + induced_edges(
                g@,
                mask@,
                (a + 1) as nat,
            )));
        }
        a += 1;
    }
    assert(edges@ =~= induced_edges(g@, mask@, 0));
    edges
}

/// The components that petgraph lists for the part of `g` that `mask`
/// selects are the strongly connected components of that part.
pub open spec fn listed_strong(g: Seq<Seq<usize>>, mask: Seq<bool>) -> bool {
    are_strong_components(
        g.len(),
        induced_edges(g, mask, 0),
        tarjan_components(g.len(), induced_edges(g, mask, 0)),
    )
}

/// The strongly connected components with two nodes or more of the part of
/// `g` that `mask` selects.
pub fn scc(g: &Digraph, mask: &Vec<bool>) -> (components: Vec<Vec<usize>>)
    requires
        g.wf(),
        mask@.len() == g@.len(),
    ensures
        lists(components@) == strong_components_of(g@, mask@),
        listed_strong(g@, mask@),
        nodes_below(lists(components@), g@.len()),
        forall|i: int| 0 <= i < components@.len() ==> (#[trigger] components@[i])@.len() > 1,
        total_len(lists(components@)) <= count_true(mask@),
{
    let edges = induced_edge_list(g, mask);
    let all = tarjan(g.node_count(), &edges);
    proof {
        lemma_components_named_once(g@.len(), edges@, lists(all@));
        lemma_nontrivial_nodes(lists(all@), g@.len());
        lemma_components_within(g@, mask@, lists(all@));
    }
    let kept = nontrivial_components(all);
    proof {
        assert forall|i: int| 0 <= i < kept@.len() implies (#[trigger] kept@[i])@.len() > 1 by {
            assert(lists(kept@)[i] == kept@[i]@);
        }
    }
    kept
}

} // verus!
