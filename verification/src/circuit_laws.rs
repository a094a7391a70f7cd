//! Every elementary circuit of a graph is reported: what holds of the
//! search where the components that it is given are the strongly connected
//! components.

use crate::circuits::{
    elementary_circuits_of, least, lemma_mask_count, lemma_simple_row_within, mask_of, search_is_strong,
    search_queue, self_loops, simple_graph, simple_row,
};
use crate::graph::{
    all_nodes, circuits_through, circuits_via, graph_wf, has_edge, is_circuit, is_elementary_circuit,
    is_simple_path, lemma_circuits_through_complete, lemma_circuits_through_sound, lemma_circuits_via_sound,
    lemma_count_true_update, lemma_total_len_concat, lemma_total_len_first, selected, total_len,
};
use crate::scc::{
    are_strong_components, induced_edges, induced_row, is_named, is_place, is_walk, lemma_big_node_selected,
    lemma_components_named_once, lemma_components_within, lemma_nontrivial_nodes, listed_strong, named_once,
    node_at, nodes_below, nontrivial, reaches, steps, strong_components_of, tarjan_components,
};
use vstd::prelude::*;

verus! {

/// `c` begun at its node number `k`.
pub open spec fn rotated(c: Seq<usize>, k: int) -> Seq<usize> {
    c.subrange(k, c.len() as int) + c.subrange(0, k)
}

/// `found` holds `c`, begun at one of its nodes.
pub open spec fn reported(found: Seq<Seq<usize>>, c: Seq<usize>) -> bool {
    exists|k: int| 0 <= k < c.len() && found.contains(#[trigger] rotated(c, k))
}

/// Every node of `c` is one of `nodes`.
pub open spec fn within(c: Seq<usize>, nodes: Seq<usize>) -> bool {
    forall|a: int| 0 <= a < c.len() ==> nodes.contains(#[trigger] c[a])
}

/// An elementary circuit, begun at another of its nodes, is an elementary circuit.
pub proof fn lemma_rotated_circuit(g: Seq<Seq<usize>>, mask: Seq<bool>, c: Seq<usize>, k: int)
    requires
        is_elementary_circuit(g, mask, c),
        0 <= k < c.len(),
    ensures
        is_elementary_circuit(g, mask, rotated(c, k)),
        rotated(c, k)[0] == c[k],
        rotated(c, k).len() == c.len(),
{
    let r = rotated(c, k);
    let n = c.len() as int;
    assert forall|i: int| 0 <= i < n implies #[trigger] r[i] == (if i < n - k {
        c[k + i]
    } else {
        c[i - (n - k)]
    }) by {}
    assert(r.no_duplicates()) by {
        assert forall|i: int, j: int| 0 <= i < n && 0 <= j < n && i != j implies r[i] != r[j] by {
            let x = if i < n - k {
                k + i
            } else {
                i - (n - k)
            };
            let y = if j < n - k {
                k + j
            } else {
                j - (n - k)
            };
            assert(r[i] == c[x] && r[j] == c[y] && x != y);
        }
    }
    assert forall|i: int| 0 <= i < n implies (#[trigger] r[i]) < g.len() && mask[r[i] as int] by {
        if i < n - k {
            assert(r[i] == c[k + i]);
        } else {
            assert(r[i] == c[i - (n - k)]);
        }
    }
    assert forall|i: int| 0 <= i < n - 1 implies has_edge(g, #[trigger] r[i] as int, r[i + 1] as int) by {
        if i + 1 < n - k {
            assert(r[i] == c[k + i] && r[i + 1] == c[k + i + 1]);
            assert(has_edge(g, c[k + i] as int, c[k + i + 1] as int));
        } else if i + 1 == n - k {
            assert(r[i] == c[n - 1] && r[i + 1] == c[0]);
        } else {
            let x = i - (n - k);
            assert(r[i] == c[x] && r[i + 1] == c[x + 1]);
            assert(has_edge(g, c[x] as int, c[x + 1] as int));
        }
    }
    if k == 0 {
        assert(r.last() == c[n - 1] && r[0] == c[0]);
    } else {
        assert(r.last() == c[k - 1] && r[0] == c[k]);
        assert(has_edge(g, c[k - 1] as int, c[k - 1 + 1] as int));
    }
}

/// An elementary circuit of `g` whose nodes `mask` selects is one of the
/// part of `g` that `mask` selects.
pub proof fn lemma_circuit_in_part(g: Seq<Seq<usize>>, mask: Seq<bool>, c: Seq<usize>)
    requires
        is_circuit(g, c),
        forall|a: int| 0 <= a < c.len() ==> mask[(#[trigger] c[a]) as int],
    ensures
        is_elementary_circuit(g, mask, c),
{
}

/// An edge of `g` to a selected node, at or behind the place `j` of the
/// row of `a`, is an edge of the row of `a`.
proof fn lemma_induced_row_holds(g: Seq<Seq<usize>>, mask: Seq<bool>, a: int, j: nat, at: int)
    requires
        0 <= a < g.len(),
        g.len() <= usize::MAX,
        j <= at < g[a].len(),
        mask[g[a][at] as int],
    ensures
        induced_row(g, mask, a, j).contains((a as usize, g[a][at])),
    decreases at - j,
{
    let b = g[a][j as int];
    let here = if mask[b as int] {
        seq![(a as usize, b)]
    } else {
        Seq::<(usize, usize)>::empty()
    };
    let rest = induced_row(g, mask, a, j + 1);
    let all = induced_row(g, mask, a, j);
    assert(all == here + rest);
    if j == at {
        assert(all[0] == (a as usize, g[a][at]));
    } else {
        lemma_induced_row_holds(g, mask, a, j + 1, at);
        let k = choose|k: int| 0 <= k < rest.len() && rest[k] == (a as usize, g[a][at]);
        assert(all[here.len() + k] == rest[k]);
    }
}

/// An edge of `g` between selected nodes is an edge of the selected part.
proof fn lemma_induced_edges_hold(g: Seq<Seq<usize>>, mask: Seq<bool>, from: nat, a: int, b: int)
    requires
        g.len() <= usize::MAX,
        from <= a < g.len(),
        has_edge(g, a, b),
        mask[a],
        0 <= b < mask.len() && mask[b],
    ensures
        induced_edges(g, mask, from).contains((a as usize, b as usize)),
    decreases a - from,
{
    let here = if mask[from as int] {
        induced_row(g, mask, from as int, 0)
    } else {
        Seq::<(usize, usize)>::empty()
    };
    let rest = induced_edges(g, mask, from + 1);
    let all = induced_edges(g, mask, from);
    assert(all == here + rest);
    if from == a {
        let at = choose|at: int| 0 <= at < g[a].len() && #[trigger] g[a][at] == b;
        lemma_induced_row_holds(g, mask, a, 0, at);
        let k = choose|k: int| 0 <= k < here.len() && here[k] == (a as usize, g[a][at]);
        assert(all[k] == here[k]);
    } else {
        lemma_induced_edges_hold(g, mask, from + 1, a, b);
        let k = choose|k: int| 0 <= k < rest.len() && rest[k] == (a as usize, b as usize);
        assert(all[here.len() + k] == rest[k]);
    }
}

/// Each node of `c` has an edge of `edges` to the next, and the last to the first.
pub open spec fn cycle_along(edges: Seq<(usize, usize)>, c: Seq<usize>) -> bool {
    &&& c.len() > 0
    &&& forall|x: int| 0 <= x < c.len() - 1 ==> #[trigger] steps(edges, c, x)
    &&& edges.contains((c.last(), c[0]))
}

/// The edges of an elementary circuit on selected nodes are edges of the selected part.
proof fn lemma_cycle_edges(g: Seq<Seq<usize>>, mask: Seq<bool>, c: Seq<usize>)
    requires
        g.len() <= usize::MAX,
        mask.len() == g.len(),
        is_elementary_circuit(g, mask, c),
    ensures
        cycle_along(induced_edges(g, mask, 0), c),
{
    let edges = induced_edges(g, mask, 0);
    let n = c.len() as int;
    assert forall|x: int| 0 <= x < n - 1 implies #[trigger] steps(edges, c, x) by {
        lemma_circuit_step(g, mask, c, x);
        lemma_induced_edges_hold(g, mask, 0, c[x] as int, c[x + 1] as int);
    }
    lemma_circuit_nodes(g, mask, c, n - 1);
    lemma_circuit_nodes(g, mask, c, 0);
    lemma_induced_edges_hold(g, mask, 0, c[n - 1] as int, c[0] as int);
}

/// A node of an elementary circuit is a selected node of the graph.
proof fn lemma_circuit_nodes(g: Seq<Seq<usize>>, mask: Seq<bool>, c: Seq<usize>, x: int)
    requires
        is_elementary_circuit(g, mask, c),
        0 <= x < c.len(),
    ensures
        c[x] < g.len(),
        mask[c[x] as int],
{
}

/// A node of an elementary circuit has an edge to the next.
proof fn lemma_circuit_step(g: Seq<Seq<usize>>, mask: Seq<bool>, c: Seq<usize>, x: int)
    requires
        is_elementary_circuit(g, mask, c),
        0 <= x < c.len() - 1,
    ensures
        has_edge(g, c[x] as int, c[x + 1] as int),
        c[x] < g.len(),
        c[x + 1] < g.len(),
        mask[c[x] as int],
        mask[c[x + 1] as int],
{
    assert(c[x] < g.len());
    assert(c[x + 1] < g.len());
}

/// Along a cycle, a node reaches every node behind it.
proof fn lemma_cycle_reach_ahead(edges: Seq<(usize, usize)>, c: Seq<usize>, a: int, b: int)
    requires
        cycle_along(edges, c),
        0 <= a <= b < c.len(),
    ensures
        reaches(edges, c[a], c[b]),
{
    let walk = c.subrange(a, b + 1);
    assert forall|k: int| 0 <= k < walk.len() - 1 implies #[trigger] steps(edges, walk, k) by {
        assert(walk[k] == c[a + k] && walk[k + 1] == c[a + k + 1]);
        assert(steps(edges, c, a + k));
    }
    assert(is_walk(edges, walk) && walk[0] == c[a] && walk.last() == c[b]);
}

/// A walk to `b` and a walk on from `b` make a walk.
proof fn lemma_reaches_transitive(edges: Seq<(usize, usize)>, a: usize, b: usize, c: usize)
    requires
        reaches(edges, a, b),
        reaches(edges, b, c),
    ensures
        reaches(edges, a, c),
{
    let first = choose|walk: Seq<usize>| #[trigger] is_walk(edges, walk) && walk[0] == a && walk.last() == b;
    let second = choose|walk: Seq<usize>| #[trigger] is_walk(edges, walk) && walk[0] == b && walk.last() == c;
    let walk = first + second.subrange(1, second.len() as int);
    assert forall|k: int| 0 <= k < walk.len() - 1 implies #[trigger] steps(edges, walk, k) by {
        if k + 1 < first.len() {
            assert(walk[k] == first[k] && walk[k + 1] == first[k + 1]);
            assert(steps(edges, first, k));
        } else if k + 1 == first.len() {
            assert(walk[k] == first[k] && first[k] == second[0]);
            assert(walk[k + 1] == second[1]);
            assert(steps(edges, second, 0));
        } else {
            let x = k - first.len() + 1;
            assert(walk[k] == second[x] && walk[k + 1] == second[x + 1]);
            assert(steps(edges, second, x));
        }
    }
    assert(is_walk(edges, walk) && walk[0] == a && walk.last() == c);
}

/// Along a cycle, each node reaches each node.
proof fn lemma_cycle_reach(edges: Seq<(usize, usize)>, c: Seq<usize>, a: int, b: int)
    requires
        cycle_along(edges, c),
        0 <= a < c.len(),
        0 <= b < c.len(),
    ensures
        reaches(edges, c[a], c[b]),
{
    if a <= b {
        lemma_cycle_reach_ahead(edges, c, a, b);
    } else {
        let n = c.len() as int;
        lemma_cycle_reach_ahead(edges, c, a, n - 1);
        let step = seq![c[n - 1], c[0]];
        assert(is_walk(edges, step) && step[0] == c[n - 1] && step.last() == c[0]) by {
            assert forall|k: int| 0 <= k < step.len() - 1 implies #[trigger] steps(edges, step, k) by {
                assert(step[k] == c[n - 1] && step[k + 1] == c[0]);
            }
        }
        lemma_cycle_reach_ahead(edges, c, 0, b);
        lemma_reaches_transitive(edges, c[a], c[n - 1], c[0]);
        lemma_reaches_transitive(edges, c[a], c[0], c[b]);
    }
}

/// Each node of an elementary circuit on selected nodes reaches each
/// other node of it along the edges of the selected part.
pub proof fn lemma_circuit_reach(g: Seq<Seq<usize>>, mask: Seq<bool>, c: Seq<usize>, a: int, b: int)
    requires
        g.len() <= usize::MAX,
        mask.len() == g.len(),
        is_elementary_circuit(g, mask, c),
        0 <= a < c.len(),
        0 <= b < c.len(),
    ensures
        reaches(induced_edges(g, mask, 0), c[a], c[b]),
{
    lemma_cycle_edges(g, mask, c);
    lemma_cycle_reach(induced_edges(g, mask, 0), c, a, b);
}

/// A node of the graph has its place in the strongly connected components.
proof fn lemma_component_of(n: nat, edges: Seq<(usize, usize)>, components: Seq<Seq<usize>>, v: usize)
    requires
        are_strong_components(n, edges, components),
        v < n,
    ensures
        exists|i: int, j: int| is_place(components, i, j) && #[trigger] node_at(components, i, j) == v,
{
    reveal(are_strong_components);
    assert(is_named(components, v));
}

/// Two nodes that reach each other are in one strongly connected component.
proof fn lemma_same_component(
    n: nat,
    edges: Seq<(usize, usize)>,
    components: Seq<Seq<usize>>,
    i: int,
    j: int,
    k: int,
    l: int,
)
    requires
        are_strong_components(n, edges, components),
        is_place(components, i, j),
        is_place(components, k, l),
        reaches(edges, components[i][j], components[k][l]),
        reaches(edges, components[k][l], components[i][j]),
    ensures
        i == k,
{
    reveal(are_strong_components);
    assert(reaches(edges, node_at(components, i, j), node_at(components, k, l)));
    assert(reaches(edges, node_at(components, k, l), node_at(components, i, j)));
}

/// A component with two nodes or more is kept among those with two nodes or more.
proof fn lemma_nontrivial_keeps(components: Seq<Seq<usize>>, i: int)
    requires
        0 <= i < components.len(),
        components[i].len() > 1,
    ensures
        exists|p: int| 0 <= p < nontrivial(components).len() && #[trigger] nontrivial(components)[p] == components[i],
    decreases components.len(),
{
    let front = components.drop_last();
    let kept = nontrivial(components);
    if i == components.len() - 1 {
        assert(kept[kept.len() - 1] == components[i]);
    } else {
        assert(front[i] == components[i]);
        lemma_nontrivial_keeps(front, i);
        let p = choose|p: int| 0 <= p < nontrivial(front).len() && #[trigger] nontrivial(front)[p] == front[i];
        assert(kept[p] == nontrivial(front)[p]);
    }
}

/// An elementary circuit of two nodes or more, on selected nodes, lies in
/// one of the strongly connected components with two nodes or more of the
/// selected part.
pub proof fn lemma_circuit_component(
    g: Seq<Seq<usize>>,
    mask: Seq<bool>,
    components: Seq<Seq<usize>>,
    c: Seq<usize>,
)
    requires
        g.len() <= usize::MAX,
        mask.len() == g.len(),
        are_strong_components(g.len(), induced_edges(g, mask, 0), components),
        is_elementary_circuit(g, mask, c),
        c.len() >= 2,
    ensures
        exists|p: int| 0 <= p < nontrivial(components).len() && within(c, #[trigger] nontrivial(components)[p]),
{
    let edges = induced_edges(g, mask, 0);
    let n = g.len();
    lemma_component_of(n, edges, components, c[0]);
    let (i0, j0) = choose|i: int, j: int| is_place(components, i, j) && #[trigger] node_at(components, i, j) == c[0];
    assert forall|a: int| 0 <= a < c.len() implies components[i0].contains(#[trigger] c[a]) by {
        lemma_component_of(n, edges, components, c[a]);
        let (i, j) = choose|i: int, j: int| is_place(components, i, j) && #[trigger] node_at(components, i, j) == c[a];
        lemma_circuit_reach(g, mask, c, 0, a);
        lemma_circuit_reach(g, mask, c, a, 0);
        lemma_same_component(n, edges, components, i0, j0, i, j);
        assert(components[i0][j] == c[a]);
    }
    assert(components[i0].len() > 1) by {
        assert(components[i0].contains(c[1]));
        let j1 = choose|j: int| 0 <= j < components[i0].len() && components[i0][j] == c[1];
        assert(c[0] != c[1]);
        assert(j0 != j1);
    }
    lemma_nontrivial_keeps(components, i0);
    let p = choose|p: int| 0 <= p < nontrivial(components).len() && #[trigger] nontrivial(components)[p] == components[i0];
    assert(within(c, nontrivial(components)[p]));
}

/// The least node of a list is a node of the list.
pub proof fn lemma_least_in(nodes: Seq<usize>)
    requires
        nodes.len() > 0,
    ensures
        nodes.contains(least(nodes)),
    decreases nodes.len(),
{
    if nodes.len() == 1 {
        assert(nodes[0] == least(nodes));
    } else {
        let front = nodes.drop_last();
        lemma_least_in(front);
        let k = choose|k: int| 0 <= k < front.len() && front[k] == least(front);
        assert(nodes[k] == front[k]);
        assert(nodes[nodes.len() - 1] == nodes.last());
    }
}

/// Wherever the enumeration of the circuits of `g` asks petgraph for
/// components, what it lists are the strongly connected components of the
/// part asked for.
pub open spec fn components_are_strong(g: Seq<Seq<usize>>) -> bool {
    let simple = simple_graph(g);
    let all = all_nodes(g.len());
    listed_strong(simple, all) && search_is_strong(simple, strong_components_of(simple, all))
}

proof fn lemma_reported_behind(found: Seq<Seq<usize>>, more: Seq<Seq<usize>>, c: Seq<usize>)
    requires
        reported(more, c),
    ensures
        reported(found + more, c),
{
    let k = choose|k: int| 0 <= k < c.len() && more.contains(#[trigger] rotated(c, k));
    let e = choose|e: int| 0 <= e < more.len() && more[e] == rotated(c, k);
    assert((found + more)[found.len() + e] == rotated(c, k));
}

proof fn lemma_reported_before(found: Seq<Seq<usize>>, more: Seq<Seq<usize>>, c: Seq<usize>, k: int)
    requires
        0 <= k < c.len(),
        found.contains(rotated(c, k)),
    ensures
        reported(found + more, c),
{
    let e = choose|e: int| 0 <= e < found.len() && found[e] == rotated(c, k);
    assert((found + more)[e] == rotated(c, k));
}

/// The search of a queue of components reports every elementary circuit
/// of two nodes or more that lies in one of the components.
pub proof fn lemma_search_complete(g: Seq<Seq<usize>>, queue: Seq<Seq<usize>>, i: int, c: Seq<usize>)
    requires
        graph_wf(g),
        g.len() <= usize::MAX,
        search_is_strong(g, queue),
        nodes_below(queue, g.len()),
        0 <= i < queue.len(),
        is_circuit(g, c),
        c.len() >= 2,
        within(c, queue[i]),
    ensures
        reported(search_queue(g, queue), c),
    decreases total_len(queue), queue.len(),
{
    let n = g.len();
    let first = queue.first();
    let rest = queue.drop_first();
    lemma_total_len_first(queue);
    assert forall|a: int, b: int| 0 <= a < rest.len() && 0 <= b < rest[a].len() implies (#[trigger] rest[a][b])
        < n by {
        assert(rest[a] == queue[a + 1]);
    }
    if first.len() == 0 {
        if i == 0 {
            assert(first.contains(c[0]));
        }
        assert(rest[i - 1] == queue[i]);
        lemma_search_complete(g, rest, i - 1, c);
    } else {
        let v = least(first);
        let mask = mask_of(n, first);
        let found = circuits_through(g, mask, v);
        lemma_least_in(first);
        let at = choose|at: int| 0 <= at < first.len() && first[at] == v;
        assert(queue[0][at] < n);
        let part = mask.update(v as int, false);
        let edges = induced_edges(g, part, 0);
        let components = tarjan_components(n, edges);
        let next = strong_components_of(g, part);
        assert(are_strong_components(n, edges, components));
        lemma_components_within(g, part, components);
        lemma_count_true_update(mask, v as int);
        lemma_mask_count(n, first);
        lemma_components_named_once(n, edges, components);
        lemma_nontrivial_nodes(components, n);
        let later = rest + next;
        lemma_total_len_concat(rest, next);
        assert(search_queue(g, queue) == found + search_queue(g, later));
        assert forall|a: int, b: int| 0 <= a < later.len() && 0 <= b < later[a].len() implies (
        #[trigger] later[a][b]) < n by {
            if a < rest.len() {
                assert(later[a] == rest[a]);
            } else {
                assert(later[a] == next[a - rest.len()]);
            }
        }
        if i >= 1 {
            assert(later[i - 1] == queue[i]);
            lemma_search_complete(g, later, i - 1, c);
            lemma_reported_behind(found, search_queue(g, later), c);
        } else {
            assert forall|a: int| 0 <= a < c.len() implies mask[(#[trigger] c[a]) as int] by {
                assert(first.contains(c[a]));
            }
            if c.contains(v) {
                let k = choose|k: int| 0 <= k < c.len() && c[k] == v;
                lemma_circuit_in_part(g, mask, c);
                lemma_rotated_circuit(g, mask, c, k);
                lemma_circuits_through_complete(g, mask, v, rotated(c, k));
                lemma_reported_before(found, search_queue(g, later), c, k);
            } else {
                assert forall|a: int| 0 <= a < c.len() implies part[(#[trigger] c[a]) as int] by {
                    assert(first.contains(c[a]));
                    assert(c[a] != v);
                }
                lemma_circuit_in_part(g, part, c);
                lemma_circuit_component(g, part, components, c);
                let p = choose|p: int| 0 <= p < nontrivial(components).len() && within(
                    c,
                    #[trigger] nontrivial(components)[p],
                );
                assert(later[rest.len() + p] == next[p]);
                lemma_search_complete(g, later, rest.len() + p, c);
                lemma_reported_behind(found, search_queue(g, later), c);
            }
        }
    }
}

/// An entry of a successor list that is no edge back to its node is kept
/// in the simple row.
proof fn lemma_simple_row_keeps(list: Seq<usize>, a: usize, j: nat, at: int)
    requires
        0 <= at < j <= list.len(),
        list[at] != a,
    ensures
        simple_row(list, a, j).contains(list[at]),
    decreases j,
{
    let before = simple_row(list, a, (j - 1) as nat);
    let now = simple_row(list, a, j);
    let b = list[j - 1];
    if at < j - 1 {
        lemma_simple_row_keeps(list, a, (j - 1) as nat, at);
        let k = choose|k: int| 0 <= k < before.len() && before[k] == list[at];
        assert(now[k] == before[k]);
    } else if before.contains(b) {
    } else {
        assert(now[now.len() - 1] == b);
    }
}

/// An edge between two nodes of `g` is an edge of the simple graph.
proof fn lemma_simple_graph_keeps(g: Seq<Seq<usize>>, a: int, b: int)
    requires
        has_edge(g, a, b),
        a != b,
        g.len() <= usize::MAX,
    ensures
        has_edge(simple_graph(g), a, b),
{
    let at = choose|at: int| 0 <= at < g[a].len() && #[trigger] g[a][at] == b;
    lemma_simple_row_keeps(g[a], a as usize, g[a].len(), at);
    let row = simple_graph(g)[a];
    let k = choose|k: int| 0 <= k < row.len() && row[k] == g[a][at];
    assert(row[k] == b);
}

/// The simple graph of a graph is a graph.
proof fn lemma_simple_graph_wf(g: Seq<Seq<usize>>)
    requires
        graph_wf(g),
    ensures
        graph_wf(simple_graph(g)),
        simple_graph(g).len() == g.len(),
{
    let simple = simple_graph(g);
    assert forall|v: int, j: int| 0 <= v < simple.len() && 0 <= j < simple[v].len() implies (
    #[trigger] simple[v][j]) < simple.len() by {
        assert(simple[v].contains(simple[v][j]));
        lemma_simple_row_within(g[v], v as usize, g[v].len(), simple[v][j]);
        let k = choose|k: int| 0 <= k < g[v].len() && g[v][k] == simple[v][j];
        assert(g[v][k] < g.len());
    }
}

/// A node with an edge to itself is listed among the self-loops.
proof fn lemma_self_loop_listed(g: Seq<Seq<usize>>, upto: nat, v: usize)
    requires
        v < upto,
        has_edge(g, v as int, v as int),
    ensures
        self_loops(g, upto).contains(seq![v]),
    decreases upto,
{
    let before = self_loops(g, (upto - 1) as nat);
    let now = self_loops(g, upto);
    if v == upto - 1 {
        assert(now[now.len() - 1] == seq![v]);
    } else {
        lemma_self_loop_listed(g, (upto - 1) as nat, v);
        let k = choose|k: int| 0 <= k < before.len() && before[k] == seq![v];
        assert(now[k] == before[k]);
    }
}

/// Every elementary circuit of a graph is reported, begun at one of its
/// nodes, where the components that petgraph lists for the parts of the
/// simple graph are their strongly connected components.
pub proof fn lemma_elementary_circuits_complete(g: Seq<Seq<usize>>, c: Seq<usize>)
    requires
        graph_wf(g),
        g.len() <= usize::MAX,
        components_are_strong(g),
        is_circuit(g, c),
    ensures
        reported(elementary_circuits_of(g), c),
{
    let n = g.len();
    let simple = simple_graph(g);
    let all = all_nodes(n);
    let loops = self_loops(g, n);
    let initial = strong_components_of(simple, all);
    let searched = search_queue(simple, initial);
    if c.len() == 1 {
        assert(c =~= seq![c[0]]);
        assert(rotated(c, 0) =~= c);
        lemma_self_loop_listed(g, n, c[0]);
        lemma_reported_before(loops, searched, c, 0);
    } else {
        lemma_simple_graph_wf(g);
        assert(is_circuit(simple, c)) by {
            assert forall|k: int| 0 <= k < c.len() - 1 implies has_edge(
                simple,
                #[trigger] c[k] as int,
                c[k + 1] as int,
            ) by {
                assert(has_edge(g, c[k] as int, c[k + 1] as int));
                assert(c[k] != c[k + 1]);
                lemma_simple_graph_keeps(g, c[k] as int, c[k + 1] as int);
            }
            assert(c.last() != c[0]);
            lemma_simple_graph_keeps(g, c.last() as int, c[0] as int);
        }
        let edges = induced_edges(simple, all, 0);
        let components = tarjan_components(n, edges);
        assert(are_strong_components(n, edges, components));
        lemma_circuit_component(simple, all, components, c);
        let p = choose|p: int| 0 <= p < nontrivial(components).len() && within(
            c,
            #[trigger] nontrivial(components)[p],
        );
        lemma_components_named_once(n, edges, components);
        lemma_nontrivial_nodes(components, n);
        lemma_search_complete(simple, initial, p, c);
        lemma_reported_behind(loops, searched, c);
    }
}

/// No successor list of `g` names a node twice.
pub open spec fn rows_distinct(g: Seq<Seq<usize>>) -> bool {
    forall|v: int| 0 <= v < g.len() ==> (#[trigger] g[v]).no_duplicates()
}

/// `c` is `path`, closed by an edge at or behind the place `i`, or goes on
/// from `path` along an edge at or behind the place `i`.
pub open spec fn goes_on(g: Seq<Seq<usize>>, path: Seq<usize>, i: nat, c: Seq<usize>) -> bool {
    let row = g[path.last() as int];
    if c.len() == path.len() {
        c == path && exists|j: int| i <= j < row.len() && #[trigger] row[j] == path[0]
    } else {
        c.len() > path.len() && c[path.len() as int] != path[0] && exists|j: int|
            i <= j < row.len() && #[trigger] row[j] == c[path.len() as int]
    }
}

/// What the walk reports from the edge number `i` on goes on from `path`
/// along an edge at or behind the place `i`.
proof fn lemma_circuits_via_shape(g: Seq<Seq<usize>>, mask: Seq<bool>, path: Seq<usize>, i: nat, e: int)
    requires
        graph_wf(g),
        mask.len() == g.len(),
        is_simple_path(g, mask, path),
        0 <= e < circuits_via(g, mask, path, i).len(),
    ensures
        goes_on(g, path, i, circuits_via(g, mask, path, i)[e]),
    decreases g[path.last() as int].len() - i,
{
    let last = path.last() as int;
    let row = g[last];
    let w = row[i as int];
    assert(w < g.len());
    let rest = circuits_via(g, mask, path, i + 1);
    let here = if !mask[w as int] {
        Seq::<Seq<usize>>::empty()
    } else if w == path[0] {
        seq![path]
    } else if path.contains(w) {
        Seq::<Seq<usize>>::empty()
    } else {
        circuits_via(g, mask, path.push(w), 0)
    };
    let all = circuits_via(g, mask, path, i);
    assert(all == here + rest);
    let c = all[e];
    if e < here.len() {
        assert(c == here[e]);
        if w == path[0] {
            assert(row[i as int] == path[0]);
        } else {
            let longer = path.push(w);
            lemma_longer_path(g, mask, path, i);
            lemma_circuits_via_sound(g, mask, longer, 0);
            assert(c.subrange(0, longer.len() as int) == longer);
            assert(c.subrange(0, longer.len() as int)[path.len() as int] == c[path.len() as int]);
            assert(row[i as int] == c[path.len() as int]);
        }
    } else {
        assert(c == rest[e - here.len()]);
        lemma_circuits_via_shape(g, mask, path, i + 1, e - here.len());
        if c.len() == path.len() {
            let j = choose|j: int| i + 1 <= j < row.len() && #[trigger] row[j] == path[0];
            assert(row[j] == path[0]);
        } else {
            let j = choose|j: int| i + 1 <= j < row.len() && #[trigger] row[j] == c[path.len() as int];
            assert(row[j] == c[path.len() as int]);
        }
    }
}

/// A simple path with a selected node behind it that is not on it, and to
/// which its last node has an edge, is a simple path.
proof fn lemma_longer_path(g: Seq<Seq<usize>>, mask: Seq<bool>, path: Seq<usize>, i: nat)
    requires
        graph_wf(g),
        mask.len() == g.len(),
        is_simple_path(g, mask, path),
        i < g[path.last() as int].len(),
        mask[g[path.last() as int][i as int] as int],
        !path.contains(g[path.last() as int][i as int]),
    ensures
        is_simple_path(g, mask, path.push(g[path.last() as int][i as int])),
{
    let last = path.last() as int;
    let w = g[last][i as int];
    let longer = path.push(w);
    assert(w < g.len());
    assert forall|a: int, b: int| 0 <= a < longer.len() && 0 <= b < longer.len() && a != b implies longer[a]
        != longer[b] by {
        if a == path.len() {
            assert(path[b] == longer[b]);
        } else if b == path.len() {
            assert(path[a] == longer[a]);
        } else {
            assert(path[a] == longer[a] && path[b] == longer[b]);
        }
    }
    assert forall|k: int| 0 <= k < longer.len() - 1 implies has_edge(
        g,
        #[trigger] longer[k] as int,
        longer[k + 1] as int,
    ) by {
        if k == path.len() - 1 {
            assert(g[last][i as int] == longer[k + 1]);
        } else {
            assert(path[k] == longer[k]);
            assert(has_edge(g, path[k] as int, path[k + 1] as int));
        }
    }
}

/// Where no successor list names a node twice, the walk reports no
/// circuit twice.
pub proof fn lemma_circuits_via_distinct(g: Seq<Seq<usize>>, mask: Seq<bool>, path: Seq<usize>, i: nat)
    requires
        graph_wf(g),
        rows_distinct(g),
        mask.len() == g.len(),
        is_simple_path(g, mask, path),
    ensures
        circuits_via(g, mask, path, i).no_duplicates(),
    decreases g.len() + 1 - path.len(), g[path.last() as int].len() - i,
{
    let last = path.last() as int;
    let row = g[last];
    if path.len() > g.len() || i >= row.len() {
    } else {
        let w = row[i as int];
        assert(w < g.len());
        let rest = circuits_via(g, mask, path, i + 1);
        lemma_circuits_via_distinct(g, mask, path, i + 1);
        let here = if !mask[w as int] {
            Seq::<Seq<usize>>::empty()
        } else if w == path[0] {
            seq![path]
        } else if path.contains(w) {
            Seq::<Seq<usize>>::empty()
        } else {
            circuits_via(g, mask, path.push(w), 0)
        };
        let all = circuits_via(g, mask, path, i);
        assert(all == here + rest);
        if mask[w as int] && w != path[0] && !path.contains(w) {
            lemma_longer_path(g, mask, path, i);
            lemma_circuits_via_distinct(g, mask, path.push(w), 0);
        }
        assert forall|a: int, b: int| 0 <= a < all.len() && 0 <= b < all.len() && a != b implies all[a]
            != all[b] by {
            if a < here.len() && b < here.len() {
                assert(all[a] == here[a] && all[b] == here[b]);
            } else if a >= here.len() && b >= here.len() {
                assert(all[a] == rest[a - here.len()] && all[b] == rest[b - here.len()]);
            } else {
                let x = if a < here.len() {
                    a
                } else {
                    b
                };
                let y = if a < here.len() {
                    b
                } else {
                    a
                };
                assert(all[x] == here[x] && all[y] == rest[y - here.len()]);
                lemma_circuits_via_shape(g, mask, path, i, x);
                lemma_circuits_via_shape(g, mask, path, i + 1, y - here.len());
                let c = all[x];
                let d = all[y];
                if c == d {
                    // Both go on along an edge to one node: the edge number
                    // `i`, and an edge behind it.
                    if c.len() == path.len() {
                        let j = choose|j: int| i + 1 <= j < row.len() && #[trigger] row[j] == path[0];
                        if w != path[0] {
                            lemma_circuits_via_sound(g, mask, path.push(w), 0);
                            assert(c.len() >= path.push(w).len());
                        }
                        assert(row[i as int] == row[j]);
                    } else {
                        let j = choose|j: int| i + 1 <= j < row.len() && #[trigger] row[j] == d[path.len() as int];
                        assert(row[i as int] == c[path.len() as int]) by {
                            if w == path[0] {
                                assert(here[x] == path);
                            } else {
                                lemma_circuits_via_sound(g, mask, path.push(w), 0);
                                let longer = path.push(w);
                                assert(c.subrange(0, longer.len() as int) == longer);
                                assert(c.subrange(0, longer.len() as int)[path.len() as int] == c[path.len() as int]);
                            }
                        }
                        assert(row[i as int] == row[j]);
                    }
                }
            }
        }
    }
}

/// Where no successor list names a node twice, the search through `start`
/// reports no circuit twice.
pub proof fn lemma_circuits_through_distinct(g: Seq<Seq<usize>>, mask: Seq<bool>, start: usize)
    requires
        graph_wf(g),
        rows_distinct(g),
        mask.len() == g.len(),
        start < g.len(),
    ensures
        circuits_through(g, mask, start).no_duplicates(),
{
    assert(is_simple_path(g, mask, seq![start]));
    lemma_circuits_via_distinct(g, mask, seq![start], 0);
}

/// No row of a simple row names a node twice.
proof fn lemma_simple_row_distinct(list: Seq<usize>, a: usize, j: nat)
    ensures
        simple_row(list, a, j).no_duplicates(),
    decreases j,
{
    if j > 0 && j <= list.len() {
        lemma_simple_row_distinct(list, a, (j - 1) as nat);
    }
}

/// No successor list of a simple graph names a node twice.
pub proof fn lemma_simple_graph_rows_distinct(g: Seq<Seq<usize>>)
    ensures
        rows_distinct(simple_graph(g)),
{
    assert forall|v: int| 0 <= v < simple_graph(g).len() implies (#[trigger] simple_graph(g)[v]).no_duplicates() by {
        lemma_simple_row_distinct(g[v], v as usize, g[v].len());
    }
}

/// `b` is `a`, begun at one of its nodes.
pub open spec fn is_rotation(a: Seq<usize>, b: Seq<usize>) -> bool {
    exists|k: int| 0 <= k < a.len() && #[trigger] rotated(a, k) == b
}

/// No circuit of `found` is another circuit of `found`, begun at another node.
pub open spec fn reported_once(found: Seq<Seq<usize>>) -> bool {
    forall|x: int, y: int|
        0 <= x < found.len() && 0 <= y < found.len() && x != y ==> !is_rotation(
            #[trigger] found[x],
            #[trigger] found[y],
        )
}

/// A circuit, begun at another node, has the same nodes.
proof fn lemma_rotation_nodes(a: Seq<usize>, k: int, v: usize)
    requires
        0 <= k < a.len(),
    ensures
        a.contains(v) <==> rotated(a, k).contains(v),
{
    let r = rotated(a, k);
    let n = a.len() as int;
    if a.contains(v) {
        let i = choose|i: int| 0 <= i < n && a[i] == v;
        if i >= k {
            assert(r[i - k] == a[i]);
        } else {
            assert(r[i + (n - k)] == a[i]);
        }
    }
    if r.contains(v) {
        let i = choose|i: int| 0 <= i < r.len() && r[i] == v;
        if i < n - k {
            assert(r[i] == a[k + i]);
        } else {
            assert(r[i] == a[i - (n - k)]);
        }
    }
}

/// Each kept component is one of the components, and has two nodes or more.
proof fn lemma_nontrivial_from(components: Seq<Seq<usize>>, p: int)
    requires
        0 <= p < nontrivial(components).len(),
    ensures
        exists|i: int| 0 <= i < components.len() && #[trigger] components[i] == nontrivial(components)[p] && components[i].len() > 1,
    decreases components.len(),
{
    let front = components.drop_last();
    let kept = nontrivial(components);
    if components.last().len() > 1 && p == kept.len() - 1 {
        assert(components[components.len() - 1] == kept[p]);
    } else {
        assert(kept[p] == nontrivial(front)[p]);
        lemma_nontrivial_from(front, p);
        let i = choose|i: int| 0 <= i < front.len() && #[trigger] front[i] == nontrivial(front)[p] && front[i].len() > 1;
        assert(components[i] == front[i]);
    }
}

/// Where no node is named twice among the components, none is among those kept.
proof fn lemma_nontrivial_named_once(components: Seq<Seq<usize>>)
    requires
        named_once(components),
    ensures
        named_once(nontrivial(components)),
    decreases components.len(),
{
    if components.len() > 0 {
        let front = components.drop_last();
        let kept = nontrivial(components);
        let top = components.len() - 1;
        assert(named_once(front)) by {
            assert forall|i: int, j: int, k: int, l: int|
                is_place(front, i, j) && is_place(front, k, l) && #[trigger] node_at(front, i, j)
                    == #[trigger] node_at(front, k, l) implies i == k && j == l by {
                assert(front[i] == components[i] && front[k] == components[k]);
                assert(is_place(components, i, j) && is_place(components, k, l));
                assert(node_at(components, i, j) == node_at(components, k, l));
            }
        }
        lemma_nontrivial_named_once(front);
        if components.last().len() > 1 {
            assert forall|i: int, j: int, k: int, l: int|
                is_place(kept, i, j) && is_place(kept, k, l) && #[trigger] node_at(kept, i, j)
                    == #[trigger] node_at(kept, k, l) implies i == k && j == l by {
                let last = kept.len() - 1;
                if i < last && k < last {
                    assert(kept[i] == nontrivial(front)[i] && kept[k] == nontrivial(front)[k]);
                    assert(is_place(nontrivial(front), i, j) && is_place(nontrivial(front), k, l));
                    assert(node_at(nontrivial(front), i, j) == node_at(nontrivial(front), k, l));
                } else if i == last && k == last {
                    assert(is_place(components, top, j) && is_place(components, top, l));
                    assert(node_at(components, top, j) == node_at(components, top, l));
                } else {
                    let inner = if i < last {
                        i
                    } else {
                        k
                    };
                    let at = if i < last {
                        j
                    } else {
                        l
                    };
                    let other = if i < last {
                        l
                    } else {
                        j
                    };
                    assert(kept[inner] == nontrivial(front)[inner]);
                    lemma_nontrivial_from(front, inner);
                    let o = choose|o: int| 0 <= o < front.len() && #[trigger] front[o] == nontrivial(front)[inner] && front[o].len() > 1;
                    assert(components[o] == front[o]);
                    assert(is_place(components, o, at) && is_place(components, top, other));
                    assert(node_at(components, o, at) == node_at(components, top, other));
                }
            }
        } else {
            assert(kept == nontrivial(front));
        }
    }
}

/// The next components of a component lie in it, and away from the node
/// that was taken out of it.
proof fn lemma_next_within(g: Seq<Seq<usize>>, first: Seq<usize>, v: usize, p: int, j: int)
    requires
        g.len() <= usize::MAX,
        listed_strong(g, mask_of(g.len(), first).update(v as int, false)),
        v < g.len(),
        0 <= p < strong_components_of(g, mask_of(g.len(), first).update(v as int, false)).len(),
        0 <= j < strong_components_of(g, mask_of(g.len(), first).update(v as int, false))[p].len(),
    ensures
        first.contains(strong_components_of(g, mask_of(g.len(), first).update(v as int, false))[p][j]),
        strong_components_of(g, mask_of(g.len(), first).update(v as int, false))[p][j] != v,
{
    let n = g.len();
    let part = mask_of(n, first).update(v as int, false);
    let edges = induced_edges(g, part, 0);
    let components = tarjan_components(n, edges);
    assert(are_strong_components(n, edges, components));
    lemma_nontrivial_from(components, p);
    let i = choose|i: int| 0 <= i < components.len() && #[trigger] components[i] == nontrivial(components)[p] && components[i].len() > 1;
    assert(is_place(components, i, j));
    lemma_big_node_selected(g, part, components, i, j);
    let x = components[i][j];
    assert(selected(part).contains(x));
    assert(part[x as int]);
}

/// Each circuit that the search of a queue reports is an elementary
/// circuit that lies in one of the components of the queue.
pub proof fn lemma_search_within(g: Seq<Seq<usize>>, queue: Seq<Seq<usize>>, e: int)
    requires
        graph_wf(g),
        g.len() <= usize::MAX,
        search_is_strong(g, queue),
        nodes_below(queue, g.len()),
        0 <= e < search_queue(g, queue).len(),
    ensures
        is_circuit(g, search_queue(g, queue)[e]),
        exists|i: int| 0 <= i < queue.len() && within(search_queue(g, queue)[e], #[trigger] queue[i]),
    decreases total_len(queue), queue.len(),
{
    let n = g.len();
    let first = queue.first();
    let rest = queue.drop_first();
    lemma_total_len_first(queue);
    assert forall|a: int, b: int| 0 <= a < rest.len() && 0 <= b < rest[a].len() implies (#[trigger] rest[a][b])
        < n by {
        assert(rest[a] == queue[a + 1]);
    }
    let c = search_queue(g, queue)[e];
    if first.len() == 0 {
        lemma_search_within(g, rest, e);
        let i = choose|i: int| 0 <= i < rest.len() && within(c, #[trigger] rest[i]);
        assert(queue[i + 1] == rest[i]);
    } else {
        let v = least(first);
        let mask = mask_of(n, first);
        let found = circuits_through(g, mask, v);
        lemma_least_in(first);
        let at = choose|at: int| 0 <= at < first.len() && first[at] == v;
        assert(queue[0][at] < n);
        let part = mask.update(v as int, false);
        let edges = induced_edges(g, part, 0);
        let components = tarjan_components(n, edges);
        let next = strong_components_of(g, part);
        assert(are_strong_components(n, edges, components));
        lemma_components_within(g, part, components);
        lemma_count_true_update(mask, v as int);
        lemma_mask_count(n, first);
        lemma_components_named_once(n, edges, components);
        lemma_nontrivial_nodes(components, n);
        let later = rest + next;
        lemma_total_len_concat(rest, next);
        assert(search_queue(g, queue) == found + search_queue(g, later));
        assert forall|a: int, b: int| 0 <= a < later.len() && 0 <= b < later[a].len() implies (
        #[trigger] later[a][b]) < n by {
            if a < rest.len() {
                assert(later[a] == rest[a]);
            } else {
                assert(later[a] == next[a - rest.len()]);
            }
        }
        if e < found.len() {
            assert(c == found[e]);
            lemma_circuits_through_sound(g, mask, v);
            assert(is_elementary_circuit(g, mask, c));
            assert(within(c, queue[0])) by {
                assert forall|a: int| 0 <= a < c.len() implies first.contains(#[trigger] c[a]) by {
                    assert(mask[c[a] as int]);
                }
            }
        } else {
            assert(c == search_queue(g, later)[e - found.len()]);
            lemma_search_within(g, later, e - found.len());
            let i = choose|i: int| 0 <= i < later.len() && within(c, #[trigger] later[i]);
            if i < rest.len() {
                assert(later[i] == rest[i]);
                assert(queue[i + 1] == rest[i]);
            } else {
                let p = i - rest.len();
                assert(later[i] == next[p]);
                assert(within(c, queue[0])) by {
                    assert forall|a: int| 0 <= a < c.len() implies first.contains(#[trigger] c[a]) by {
                        assert(next[p].contains(c[a]));
                        let j = choose|j: int| 0 <= j < next[p].len() && next[p][j] == c[a];
                        lemma_next_within(g, first, v, p, j);
                    }
                }
            }
        }
    }
}

/// Where no node of the queue is named twice, none is named twice once
/// the first component has made room for its next components.
proof fn lemma_later_named_once(g: Seq<Seq<usize>>, queue: Seq<Seq<usize>>)
    requires
        g.len() <= usize::MAX,
        search_is_strong(g, queue),
        nodes_below(queue, g.len()),
        named_once(queue),
        queue.len() > 0,
        queue.first().len() > 0,
    ensures
        named_once(
            queue.drop_first() + strong_components_of(
                g,
                mask_of(g.len(), queue.first()).update(least(queue.first()) as int, false),
            ),
        ),
{
    let n = g.len();
    let first = queue.first();
    let rest = queue.drop_first();
    let v = least(first);
    lemma_least_in(first);
    let at = choose|at: int| 0 <= at < first.len() && first[at] == v;
    assert(queue[0][at] < n);
    let part = mask_of(n, first).update(v as int, false);
    let edges = induced_edges(g, part, 0);
    let components = tarjan_components(n, edges);
    let next = strong_components_of(g, part);
    assert(are_strong_components(n, edges, components));
    lemma_components_named_once(n, edges, components);
    lemma_nontrivial_named_once(components);
    let later = rest + next;
    assert forall|i: int, j: int, k: int, l: int|
        is_place(later, i, j) && is_place(later, k, l) && #[trigger] node_at(later, i, j) == #[trigger] node_at(
            later,
            k,
            l,
        ) implies i == k && j == l by {
        let m = rest.len() as int;
        if i < m && k < m {
            assert(later[i] == queue[i + 1] && later[k] == queue[k + 1]);
            assert(is_place(queue, i + 1, j) && is_place(queue, k + 1, l));
            assert(node_at(queue, i + 1, j) == node_at(queue, k + 1, l));
        } else if i >= m && k >= m {
            assert(later[i] == next[i - m] && later[k] == next[k - m]);
            assert(is_place(next, i - m, j) && is_place(next, k - m, l));
            assert(node_at(next, i - m, j) == node_at(next, k - m, l));
        } else {
            let inner = if i < m {
                i
            } else {
                k
            };
            let inner_at = if i < m {
                j
            } else {
                l
            };
            let outer = if i < m {
                k
            } else {
                i
            };
            let outer_at = if i < m {
                l
            } else {
                j
            };
            assert(later[inner] == queue[inner + 1]);
            assert(later[outer] == next[outer - m]);
            lemma_next_within(g, first, v, outer - m, outer_at);
            let x = next[outer - m][outer_at];
            let o = choose|o: int| 0 <= o < first.len() && first[o] == x;
            assert(is_place(queue, 0, o) && is_place(queue, inner + 1, inner_at));
            assert(node_at(queue, 0, o) == node_at(queue, inner + 1, inner_at));
        }
    }
}

/// Two circuits through `v` that the search reports in two places are
/// not one circuit begun at two nodes.
proof fn lemma_found_once(g: Seq<Seq<usize>>, mask: Seq<bool>, v: usize, x: int, y: int)
    requires
        graph_wf(g),
        rows_distinct(g),
        mask.len() == g.len(),
        v < g.len(),
        mask[v as int],
        0 <= x < circuits_through(g, mask, v).len(),
        0 <= y < circuits_through(g, mask, v).len(),
        x != y,
    ensures
        !is_rotation(circuits_through(g, mask, v)[x], circuits_through(g, mask, v)[y]),
{
    let found = circuits_through(g, mask, v);
    let a = found[x];
    let b = found[y];
    lemma_circuits_through_sound(g, mask, v);
    lemma_circuits_through_distinct(g, mask, v);
    if is_rotation(a, b) {
        let k = choose|k: int| 0 <= k < a.len() && #[trigger] rotated(a, k) == b;
        lemma_rotated_circuit(g, mask, a, k);
        assert(a[k] == v && a[0] == v);
        assert(k == 0);
        assert(rotated(a, 0) =~= a);
    }
}

/// Where no successor list names a node twice and no node of the queue
/// is named twice, the search of the queue reports no circuit twice,
/// whatever node it is begun at.
pub proof fn lemma_search_once(g: Seq<Seq<usize>>, queue: Seq<Seq<usize>>)
    requires
        graph_wf(g),
        rows_distinct(g),
        g.len() <= usize::MAX,
        search_is_strong(g, queue),
        nodes_below(queue, g.len()),
        named_once(queue),
    ensures
        reported_once(search_queue(g, queue)),
    decreases total_len(queue), queue.len(),
{
    let n = g.len();
    if queue.len() > 0 {
        let first = queue.first();
        let rest = queue.drop_first();
        lemma_total_len_first(queue);
        assert forall|a: int, b: int| 0 <= a < rest.len() && 0 <= b < rest[a].len() implies (
        #[trigger] rest[a][b]) < n by {
            assert(rest[a] == queue[a + 1]);
        }
        if first.len() == 0 {
            assert(named_once(rest)) by {
                assert forall|i: int, j: int, k: int, l: int|
                    is_place(rest, i, j) && is_place(rest, k, l) && #[trigger] node_at(rest, i, j)
                        == #[trigger] node_at(rest, k, l) implies i == k && j == l by {
                    assert(rest[i] == queue[i + 1] && rest[k] == queue[k + 1]);
                    assert(is_place(queue, i + 1, j) && is_place(queue, k + 1, l));
                    assert(node_at(queue, i + 1, j) == node_at(queue, k + 1, l));
                }
            }
            lemma_search_once(g, rest);
        } else {
            let v = least(first);
            let mask = mask_of(n, first);
            let found = circuits_through(g, mask, v);
            lemma_least_in(first);
            let at = choose|at: int| 0 <= at < first.len() && first[at] == v;
            assert(queue[0][at] < n);
            let part = mask.update(v as int, false);
            let edges = induced_edges(g, part, 0);
            let components = tarjan_components(n, edges);
            let next = strong_components_of(g, part);
            assert(are_strong_components(n, edges, components));
            lemma_components_within(g, part, components);
            lemma_count_true_update(mask, v as int);
            lemma_mask_count(n, first);
            lemma_components_named_once(n, edges, components);
            lemma_nontrivial_nodes(components, n);
            let later = rest + next;
            lemma_total_len_concat(rest, next);
            let more = search_queue(g, later);
            let all = search_queue(g, queue);
            assert(all == found + more);
            assert forall|a: int, b: int| 0 <= a < later.len() && 0 <= b < later[a].len() implies (
            #[trigger] later[a][b]) < n by {
                if a < rest.len() {
                    assert(later[a] == rest[a]);
                } else {
                    assert(later[a] == next[a - rest.len()]);
                }
            }
            lemma_later_named_once(g, queue);
            lemma_search_once(g, later);
            lemma_circuits_through_sound(g, mask, v);
            assert forall|x: int, y: int| 0 <= x < all.len() && 0 <= y < all.len() && x != y implies !is_rotation(
                #[trigger] all[x],
                #[trigger] all[y],
            ) by {
                if x < found.len() && y < found.len() {
                    assert(all[x] == found[x] && all[y] == found[y]);
                    lemma_found_once(g, mask, v, x, y);
                } else if x >= found.len() && y >= found.len() {
                    assert(all[x] == more[x - found.len()] && all[y] == more[y - found.len()]);
                } else {
                    let inner = if x < found.len() {
                        x
                    } else {
                        y
                    };
                    let outer = if x < found.len() {
                        y
                    } else {
                        x
                    };
                    let a = all[inner];
                    let b = all[outer];
                    assert(a == found[inner] && b == more[outer - found.len()]);
                    assert(a[0] == v);
                    assert(a.contains(v));
                    lemma_search_within(g, later, outer - found.len());
                    let i = choose|i: int| 0 <= i < later.len() && within(b, #[trigger] later[i]);
                    assert(!b.contains(v)) by {
                        if b.contains(v) {
                            let o = choose|o: int| 0 <= o < b.len() && b[o] == v;
                            assert(later[i].contains(b[o]));
                            let j = choose|j: int| 0 <= j < later[i].len() && later[i][j] == v;
                            if i < rest.len() {
                                assert(later[i] == queue[i + 1]);
                                assert(is_place(queue, 0, at) && is_place(queue, i + 1, j));
                                assert(node_at(queue, 0, at) == node_at(queue, i + 1, j));
                            } else {
                                assert(later[i] == next[i - rest.len()]);
                                lemma_next_within(g, first, v, i - rest.len(), j);
                            }
                        }
                    }
                    if is_rotation(all[x], all[y]) {
                        let k = choose|k: int| 0 <= k < all[x].len() && #[trigger] rotated(all[x], k) == all[y];
                        lemma_rotation_nodes(all[x], k, v);
                    }
                }
            }
        }
    }
}

/// The self-loops are listed as circuits of one node, by rising node.
proof fn lemma_self_loops_rise(g: Seq<Seq<usize>>, upto: nat)
    requires
        upto <= usize::MAX,
    ensures
        forall|e: int|
            0 <= e < self_loops(g, upto).len() ==> (#[trigger] self_loops(g, upto)[e]).len() == 1
                && self_loops(g, upto)[e][0] < upto,
        forall|d: int, e: int|
            0 <= d < e < self_loops(g, upto).len() ==> (#[trigger] self_loops(g, upto)[d])[0] < (
            #[trigger] self_loops(g, upto)[e])[0],
    decreases upto,
{
    if upto > 0 {
        lemma_self_loops_rise(g, (upto - 1) as nat);
        let before = self_loops(g, (upto - 1) as nat);
        let now = self_loops(g, upto);
        assert forall|e: int| 0 <= e < now.len() implies (#[trigger] now[e]).len() == 1 && now[e][0] < upto by {
            if e < before.len() {
                assert(now[e] == before[e]);
            }
        }
        assert forall|d: int, e: int| 0 <= d < e < now.len() implies (#[trigger] now[d])[0] < (#[trigger] now[e])[0] by {
            assert(now[d] == before[d]);
            if e < before.len() {
                assert(now[e] == before[e]);
            }
        }
    }
}

/// A simple row of a node does not name the node.
proof fn lemma_simple_row_no_loop(list: Seq<usize>, a: usize, j: nat)
    ensures
        !simple_row(list, a, j).contains(a),
    decreases j,
{
    if j > 0 && j <= list.len() {
        lemma_simple_row_no_loop(list, a, (j - 1) as nat);
        let before = simple_row(list, a, (j - 1) as nat);
        let now = simple_row(list, a, j);
        if now.contains(a) {
            let k = choose|k: int| 0 <= k < now.len() && now[k] == a;
            if k < before.len() {
                assert(before[k] == a);
            }
        }
    }
}

/// An elementary circuit of a simple graph has two nodes or more.
proof fn lemma_simple_circuit_is_long(g: Seq<Seq<usize>>, c: Seq<usize>)
    requires
        is_circuit(simple_graph(g), c),
        g.len() <= usize::MAX,
    ensures
        c.len() >= 2,
{
    if c.len() == 1 {
        let v = c[0] as int;
        let simple = simple_graph(g);
        assert(has_edge(simple, v, v));
        let j = choose|j: int| 0 <= j < simple[v].len() && #[trigger] simple[v][j] == v;
        lemma_simple_row_no_loop(g[v], v as usize, g[v].len());
        assert(simple[v].contains(simple[v][j]));
    }
}

/// No elementary circuit of a graph is reported twice, whatever node it
/// is begun at, where the components that petgraph lists for the parts of
/// the simple graph are their strongly connected components.
pub proof fn lemma_elementary_circuits_once(g: Seq<Seq<usize>>)
    requires
        graph_wf(g),
        g.len() <= usize::MAX,
        components_are_strong(g),
    ensures
        reported_once(elementary_circuits_of(g)),
{
    let n = g.len();
    let simple = simple_graph(g);
    let all_selected = all_nodes(n);
    let loops = self_loops(g, n);
    let edges = induced_edges(simple, all_selected, 0);
    let components = tarjan_components(n, edges);
    let initial = strong_components_of(simple, all_selected);
    let searched = search_queue(simple, initial);
    let all = elementary_circuits_of(g);
    assert(all == loops + searched);
    lemma_simple_graph_wf(g);
    lemma_simple_graph_rows_distinct(g);
    assert(are_strong_components(n, edges, components));
    lemma_components_named_once(n, edges, components);
    lemma_nontrivial_nodes(components, n);
    lemma_nontrivial_named_once(components);
    lemma_search_once(simple, initial);
    lemma_self_loops_rise(g, n);
    assert forall|x: int, y: int| 0 <= x < all.len() && 0 <= y < all.len() && x != y implies !is_rotation(
        #[trigger] all[x],
        #[trigger] all[y],
    ) by {
        let a = all[x];
        let b = all[y];
        if is_rotation(a, b) {
            let k = choose|k: int| 0 <= k < a.len() && #[trigger] rotated(a, k) == b;
            assert(b.len() == a.len());
            if x < loops.len() && y < loops.len() {
                assert(a == loops[x] && b == loops[y]);
                assert(rotated(a, 0) =~= a);
                assert(a[0] == b[0]);
            } else if x >= loops.len() && y >= loops.len() {
                assert(a == searched[x - loops.len()] && b == searched[y - loops.len()]);
            } else if x < loops.len() {
                assert(a == loops[x] && b == searched[y - loops.len()]);
                lemma_search_within(simple, initial, y - loops.len());
                lemma_simple_circuit_is_long(g, b);
            } else {
                assert(b == loops[y] && a == searched[x - loops.len()]);
                lemma_search_within(simple, initial, x - loops.len());
                lemma_simple_circuit_is_long(g, a);
            }
        }
    }
}

/// The elementary circuits of a graph are reported, and each once: each
/// list reported is an elementary circuit, every elementary circuit is
/// reported, begun at one of its nodes, and none is reported twice; where
/// the components that petgraph lists for the parts of the simple graph
/// are their strongly connected components.
pub proof fn lemma_elementary_circuits_exact(g: Seq<Seq<usize>>)
    requires
        graph_wf(g),
        g.len() <= usize::MAX,
        components_are_strong(g),
    ensures
        forall|c: Seq<usize>| is_circuit(g, c) ==> #[trigger] reported(elementary_circuits_of(g), c),
        reported_once(elementary_circuits_of(g)),
{
    assert forall|c: Seq<usize>| is_circuit(g, c) implies #[trigger] reported(elementary_circuits_of(g), c) by {
        lemma_elementary_circuits_complete(g, c);
    }
    lemma_elementary_circuits_once(g);
}

} // verus!
