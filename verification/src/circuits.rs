//! All elementary circuits of a directed graph, after Johnson: the strongly
//! connected components are searched one by one, each from its least node,
//! which is then taken out of the component.

use crate::circuit_laws::{components_are_strong, lemma_elementary_circuits_exact, reported, reported_once};
use crate::graph::{
    all_circuits, all_nodes, circuits_through, count_true, Digraph, has_edge, is_circuit,
    is_elementary_circuit, lemma_count_true_update, lemma_selected_count, lemma_total_len_concat,
    lemma_total_len_first, lists, selected, total_len,
};
use crate::johnson::johnson_cycle_search;
use crate::scc::{listed_strong, nodes_below, scc, strong_components_of};
use vstd::prelude::*;

verus! {

/// The least node of `nodes`.
pub open spec fn least(nodes: Seq<usize>) -> usize
    decreases nodes.len(),
{
    if nodes.len() == 0 {
        0
    } else if nodes.len() == 1 {
        nodes[0]
    } else {
        let m = least(nodes.drop_last());
        if nodes.last() < m {
            nodes.last()
        } else {
            m
        }
    }
}

/// The selection of the nodes of `nodes` among `0..n`.
pub open spec fn mask_of(n: nat, nodes: Seq<usize>) -> Seq<bool> {
    Seq::new(n, |x: int| nodes.contains(x as usize))
}

/// The circuits found by working off `queue`, a list of components: the
/// first component is searched for the circuits through its least node, that
/// node is taken out, and the strongly connected components of what is left
/// of the component join the end of the queue. (These are always smaller
/// than the component they come from; the comparison below only makes the
/// definition well founded.)
pub open spec fn search_queue(g: Seq<Seq<usize>>, queue: Seq<Seq<usize>>) -> Seq<Seq<usize>>
    decreases total_len(queue), queue.len(),
{
    if queue.len() == 0 {
        Seq::empty()
    } else {
        let c = queue.first();
        let rest = queue.drop_first();
        if c.len() == 0 {
            proof {
                lemma_total_len_first(queue);
            }
            search_queue(g, rest)
        } else {
            let v = least(c);
            let mask = mask_of(g.len(), c);
            let found = circuits_through(g, mask, v);
            let next = strong_components_of(g, mask.update(v as int, false));
            if total_len(next) < c.len() {
                proof {
                    lemma_total_len_first(queue);
                    lemma_total_len_concat(rest, next);
                }
                found + search_queue(g, rest + next)
            } else {
                proof {
                    lemma_total_len_first(queue);
                }
                found + search_queue(g, rest)
            }
        }
    }
}

/// Wherever the search of `queue` asks petgraph for components, what it
/// lists are the strongly connected components of the part asked for.
pub open spec fn search_is_strong(g: Seq<Seq<usize>>, queue: Seq<Seq<usize>>) -> bool
    decreases total_len(queue), queue.len(),
{
    if queue.len() == 0 {
        true
    } else {
        let c = queue.first();
        let rest = queue.drop_first();
        if c.len() == 0 {
            proof {
                lemma_total_len_first(queue);
            }
            search_is_strong(g, rest)
        } else {
            let part = mask_of(g.len(), c).update(least(c) as int, false);
            let next = strong_components_of(g, part);
            listed_strong(g, part) && if total_len(next) < c.len() {
                proof {
                    lemma_total_len_first(queue);
                    lemma_total_len_concat(rest, next);
                }
                search_is_strong(g, rest + next)
            } else {
                proof {
                    lemma_total_len_first(queue);
                }
                search_is_strong(g, rest)
            }
        }
    }
}

/// The nodes of `g` that have an edge to themselves, below `v`, in rising order.
pub open spec fn self_loops(g: Seq<Seq<usize>>, v: nat) -> Seq<Seq<usize>>
    decreases v,
{
    if v == 0 {
        Seq::empty()
    } else {
        let before = self_loops(g, (v - 1) as nat);
        if has_edge(g, v - 1, v - 1) {
            before.push(seq![(v - 1) as usize])
        } else {
            before
        }
    }
}

/// The successor list `list` of node `a` without the edge back to `a` and
/// without the repetition of an edge, taken up to its entry number `j`.
pub open spec fn simple_row(list: Seq<usize>, a: usize, j: nat) -> Seq<usize>
    decreases j,
{
    if j == 0 || j > list.len() {
        Seq::empty()
    } else {
        let before = simple_row(list, a, (j - 1) as nat);
        let b = list[j - 1];
        if b == a || before.contains(b) {
            before
        } else {
            before.push(b)
        }
    }
}

/// `g` without its self-loops and with each parallel edge once.
pub open spec fn simple_graph(g: Seq<Seq<usize>>) -> Seq<Seq<usize>> {
    Seq::new(g.len(), |a: int| simple_row(g[a], a as usize, g[a].len()))
}

/// All elementary circuits of `g`: first the self-loops, each as a circuit
/// of one node, then the circuits of two nodes or more, found component by
/// component.
pub open spec fn elementary_circuits_of(g: Seq<Seq<usize>>) -> Seq<Seq<usize>> {
    let simple = simple_graph(g);
    self_loops(g, g.len()) + search_queue(simple, strong_components_of(simple, all_nodes(g.len())))
}

/// The nodes of `c` are no more than its entries.
pub proof fn lemma_mask_count(n: nat, c: Seq<usize>)
    requires
        n <= usize::MAX,
    ensures
        count_true(mask_of(n, c)) <= c.len(),
{
    broadcast use vstd::seq_lib::seq_to_set_is_finite;

    let mask = mask_of(n, c);
    lemma_selected_count(mask);
    assert(selected(mask).subset_of(c.to_set())) by {
        assert forall|x: usize| selected(mask).contains(x) implies c.to_set().contains(x) by {
            assert(mask[x as int]);
        }
    }
    vstd::set_lib::lemma_len_subset(selected(mask), c.to_set());
    c.lemma_cardinality_of_set();
}

/// The least node of the component `c`.
fn least_node(c: &Vec<usize>) -> (v: usize)
    requires
        c@.len() > 0,
    ensures
        v == least(c@),
        c@.contains(v),
{
    let mut v = c[0];
    let mut i: usize = 1;
    assert(c@.subrange(0, 1) =~= seq![c@[0]]);
    while i < c.len()
        invariant
            1 <= i <= c@.len(),
            v == least(c@.subrange(0, i as int)),
            c@.contains(v),
        decreases c@.len() - i,
    {
        proof {
            let upto = c@.subrange(0, i + 1);
            assert(upto.drop_last() =~= c@.subrange(0, i as int));
            assert(upto.last() == c@[i as int]);
        }
        if c[i] < v {
            v = c[i];
        }
        i += 1;
    }
    assert(c@.subrange(0, c@.len() as int) =~= c@);
    v
}

/// The selection of the nodes of `c` among the `n` nodes.
fn component_mask(n: usize, c: &Vec<usize>) -> (mask: Vec<bool>)
    requires
        forall|k: int| 0 <= k < c@.len() ==> (#[trigger] c@[k]) < n,
    ensures
        mask@ == mask_of(n as nat, c@),
{
    let mut mask: Vec<bool> = Vec::new();
    let mut x: usize = 0;
    while x < n
        invariant
            x <= n,
            mask@.len() == x,
            forall|k: int| 0 <= k < x ==> !(#[trigger] mask@[k]),
        decreases n - x,
    {
        mask.push(false);
        x += 1;
    }
    let mut i: usize = 0;
    while i < c.len()
        invariant
            i <= c@.len(),
            mask@.len() == n,
            forall|k: int| 0 <= k < c@.len() ==> (#[trigger] c@[k]) < n,
            forall|x: usize| x < n ==> (#[trigger] mask@[x as int] <==> c@.subrange(0, i as int).contains(x)),
        decreases c@.len() - i,
    {
        let ghost before = mask@;
        mask.set(c[i], true);
        proof {
            let upto = c@.subrange(0, i + 1);
            let prev = c@.subrange(0, i as int);
            assert forall|x: usize| x < n implies (#[trigger] mask@[x as int] <==> upto.contains(x)) by {
                if x == c@[i as int] {
                    assert(upto[i as int] == x);
                } else {
                    if prev.contains(x) {
                        let k = choose|k: int| 0 <= k < prev.len() && prev[k] == x;
                        assert(upto[k] == x);
                    }
                    if upto.contains(x) {
                        let k = choose|k: int| 0 <= k < upto.len() && upto[k] == x;
                        assert(prev[k] == x);
                    }
                }
            }
        }
        i += 1;
    }
    assert(c@.subrange(0, c@.len() as int) =~= c@);
    assert(mask@ =~= mask_of(n as nat, c@));
    mask
}

/// The elementary circuits of `g` that lie in the components of `queue`,
/// which are worked off from the front.
pub fn directed_cycle_search(g: &Digraph, queue: Vec<Vec<usize>>) -> (circuits: Vec<Vec<usize>>)
    requires
        g.wf(),
        nodes_below(lists(queue@), g@.len()),
    ensures
        lists(circuits@) == search_queue(g@, lists(queue@)),
        all_circuits(g@, lists(circuits@)),
        search_is_strong(g@, lists(queue@)),
{
    let n = g.node_count();
    let mut queue = queue;
    let mut circuits: Vec<Vec<usize>> = Vec::new();
    let mut head: usize = 0;
    let ghost initial = lists(queue@);
    proof {
        assert(lists(circuits@) =~= Seq::<Seq<usize>>::empty());
        assert(lists(queue@).subrange(0, lists(queue@).len() as int) =~= lists(queue@));
    }
    while head < queue.len()
        invariant
            head <= queue@.len(),
            n == g@.len(),
            g.wf(),
            nodes_below(lists(queue@), n as nat),
            all_circuits(g@, lists(circuits@)),
            lists(circuits@) + search_queue(g@, lists(queue@).subrange(head as int, queue@.len() as int))
                == search_queue(g@, initial),
            search_is_strong(g@, lists(queue@).subrange(head as int, queue@.len() as int)) ==> search_is_strong(
                g@,
                initial,
            ),
        decreases total_len(lists(queue@).subrange(head as int, queue@.len() as int)), queue@.len() - head,
    {
        let ghost waiting = lists(queue@).subrange(head as int, queue@.len() as int);
        let ghost rest = waiting.drop_first();
        let ghost done = lists(circuits@);
        let ghost queue0 = queue@;
        proof {
            assert(waiting.first() == queue@[head as int]@);
            assert(rest =~= lists(queue@).subrange(head + 1, queue@.len() as int));
            lemma_total_len_first(waiting);
        }
        if queue[head].len() == 0 {
            head += 1;
        } else {
            proof {
                assert forall|k: int| 0 <= k < queue@[head as int]@.len() implies (
                #[trigger] queue@[head as int]@[k]) < n by {
                    assert(lists(queue@)[head as int][k] < n);
                }
            }
            let v = least_node(&queue[head]);
            let mut mask = component_mask(n, &queue[head]);
            let len = queue[head].len();
            let mut found = johnson_cycle_search(g, &mask, v);
            proof {
                assert forall|e: int| 0 <= e < found@.len() implies is_elementary_circuit(
                    g@,
                    mask_of(n as nat, queue@[head as int]@),
                    #[trigger] lists(found@)[e],
                ) by {
                    assert(lists(found@)[e] == found@[e]@);
                }
            }
            let ghost whole = mask@;
            mask.set(v, false);
            let mut next = scc(g, &mask);
            let ghost next_lists = lists(next@);
            let ghost found_lists = lists(found@);
            proof {
                lemma_count_true_update(whole, v as int);
                lemma_mask_count(n as nat, queue@[head as int]@);
                assert(total_len(next_lists) < len);
            }
            circuits.append(&mut found);
            assert(lists(circuits@) =~= done + found_lists);
            proof {
                assert(mask_of(n as nat, queue@[head as int]@)[v as int]);
                assert forall|e: int| 0 <= e < lists(circuits@).len() implies is_circuit(
                    g@,
                    #[trigger] lists(circuits@)[e],
                ) by {
                    if e < done.len() {
                        assert(lists(circuits@)[e] == done[e]);
                    } else {
                        let c = found_lists[e - done.len()];
                        assert(lists(circuits@)[e] == c);
                        assert(is_elementary_circuit(g@, mask_of(n as nat, queue@[head as int]@), c));
                    }
                }
            }
            head += 1;
            queue.append(&mut next);
            proof {
                assert(lists(queue@) =~= lists(queue0) + next_lists);
                assert(lists(queue@).subrange(head as int, queue@.len() as int) =~= rest + next_lists);
                lemma_total_len_concat(rest, next_lists);
                assert forall|i: int, j: int|
                    0 <= i < lists(queue@).len() && 0 <= j < lists(queue@)[i].len() implies (
                #[trigger] lists(queue@)[i][j]) < n by {
                    if i < queue0.len() {
                        assert(lists(queue@)[i] == lists(queue0)[i]);
                    } else {
                        assert(lists(queue@)[i] == next_lists[i - queue0.len()]);
                    }
                }
                assert((done + found_lists) + search_queue(g@, rest + next_lists) =~= done + (found_lists
                    + search_queue(g@, rest + next_lists)));
                assert(search_is_strong(g@, waiting) == search_is_strong(g@, rest + next_lists));
            }
        }
    }
    proof {
        assert(lists(queue@).subrange(head as int, queue@.len() as int) =~= Seq::<Seq<usize>>::empty());
        assert(lists(circuits@) =~= search_queue(g@, initial));
    }
    circuits
}

/// What the first `j` entries of `list` leave in a simple row is in `list`.
pub proof fn lemma_simple_row_within(list: Seq<usize>, a: usize, j: nat, b: usize)
    requires
        j <= list.len(),
        simple_row(list, a, j).contains(b),
    ensures
        list.contains(b),
    decreases j,
{
    if j > 0 {
        let before = simple_row(list, a, (j - 1) as nat);
        let k = choose|k: int| 0 <= k < simple_row(list, a, j).len() && simple_row(list, a, j)[k] == b;
        if k < before.len() {
            assert(before[k] == b);
            lemma_simple_row_within(list, a, (j - 1) as nat, b);
        } else {
            assert(list[j - 1] == b);
        }
    }
}

/// An elementary circuit of the simple graph of `g` is one of `g`.
proof fn lemma_simple_graph_circuit(g: Seq<Seq<usize>>, c: Seq<usize>)
    requires
        is_circuit(simple_graph(g), c),
    ensures
        is_circuit(g, c),
{
    let simple = simple_graph(g);
    assert forall|a: int, b: int| has_edge(simple, a, b) implies has_edge(g, a, b) by {
        let j = choose|j: int| 0 <= j < simple[a].len() && #[trigger] simple[a][j] == b;
        assert(simple[a].contains(b as usize));
        lemma_simple_row_within(g[a], a as usize, g[a].len(), b as usize);
        let k = choose|k: int| 0 <= k < g[a].len() && g[a][k] == b as usize;
        assert(g[a][k] == b);
    }
    assert forall|k: int| 0 <= k < c.len() - 1 implies has_edge(g, #[trigger] c[k] as int, c[k + 1] as int) by {
        assert(has_edge(simple, c[k] as int, c[k + 1] as int));
    }
}

/// Whether `list` holds `x`.
fn list_contains(list: &Vec<usize>, x: usize) -> (found: bool)
    ensures
        found == list@.contains(x),
{
    let mut k: usize = 0;
    while k < list.len()
        invariant
            k <= list@.len(),
            forall|j: int| 0 <= j < k ==> list@[j] != x,
        decreases list@.len() - k,
    {
        if list[k] == x {
            return true;
        }
        k += 1;
    }
    false
}

/// `g` without its self-loops and with each parallel edge once.
pub fn simplify(g: &Digraph) -> (simple: Digraph)
    requires
        g.wf(),
    ensures
        simple@ == simple_graph(g@),
        simple.wf(),
{
    let n = g.node_count();
    let mut succ: Vec<Vec<usize>> = Vec::new();
    let mut a: usize = 0;
    while a < n
        invariant
            a <= n,
            n == g@.len(),
            g.wf(),
            succ@.len() == a,
            forall|v: int| 0 <= v < a ==> (#[trigger] succ@[v])@ == simple_row(g@[v], v as usize, g@[v].len()),
            forall|v: int, k: int| 0 <= v < a && 0 <= k < succ@[v]@.len() ==> (#[trigger] succ@[v]@[k]) < n,
        decreases n - a,
    {
        let mut row: Vec<usize> = Vec::new();
        let deg = g.succ[a].len();
        let mut j: usize = 0;
        while j < deg
            invariant
                j <= deg,
                a < n,
                n == g@.len(),
                g.wf(),
                deg == g@[a as int].len(),
                row@ == simple_row(g@[a as int], a, j as nat),
                forall|k: int| 0 <= k < row@.len() ==> (#[trigger] row@[k]) < n,
            decreases deg - j,
        {
            let b = g.succ[a][j];
            assert(g@[a as int][j as int] == b);
            let seen = list_contains(&row, b);
            if b != a && !seen {
                row.push(b);
            }
            j += 1;
        }
        let ghost before = succ@;
        succ.push(row);
        proof {
            assert forall|v: int| 0 <= v < a + 1 implies (#[trigger] succ@[v])@ == simple_row(
                g@[v],
                v as usize,
                g@[v].len(),
            ) by {
                if v < a {
                    assert(succ@[v] == before[v]);
                }
            }
            assert forall|v: int, k: int| 0 <= v < a + 1 && 0 <= k < succ@[v]@.len() implies (
            #[trigger] succ@[v]@[k]) < n by {
                if v < a {
                    assert(succ@[v] == before[v]);
                }
            }
        }
        a += 1;
    }
    let simple = Digraph { succ };
    assert(simple@ =~= simple_graph(g@));
    simple
}

/// All elementary circuits of `g`: every one of them is listed, begun at
/// one of its nodes, and none twice. A self-loop is a circuit of one node;
/// the self-loops come first, by rising node. A circuit of two nodes or
/// more is listed from its least node on.
pub fn elementary_circuits(g: &Digraph) -> (circuits: Vec<Vec<usize>>)
    requires
        g.wf(),
    ensures
        lists(circuits@) == elementary_circuits_of(g@),
        all_circuits(g@, lists(circuits@)),
        forall|c: Seq<usize>| is_circuit(g@, c) ==> #[trigger] reported(lists(circuits@), c),
        reported_once(lists(circuits@)),
{
    let n = g.node_count();
    let mut circuits: Vec<Vec<usize>> = Vec::new();
    let mut all: Vec<bool> = Vec::new();
    let mut v: usize = 0;
    assert(lists(circuits@) =~= self_loops(g@, 0));
    while v < n
        invariant
            v <= n,
            n == g@.len(),
            lists(circuits@) == self_loops(g@, v as nat),
            all_circuits(g@, lists(circuits@)),
            all@.len() == v,
            forall|k: int| 0 <= k < v ==> #[trigger] all@[k],
        decreases n - v,
    {
        let ghost before = lists(circuits@);
        if g.contains_edge(v, v) {
            let mut one: Vec<usize> = Vec::new();
            one.push(v);
            assert(one@ =~= seq![v]);
            circuits.push(one);
            assert(lists(circuits@) =~= before.push(seq![v]));
            proof {
                assert forall|e: int| 0 <= e < lists(circuits@).len() implies is_circuit(
                    g@,
                    #[trigger] lists(circuits@)[e],
                ) by {
                    if e < before.len() {
                        assert(lists(circuits@)[e] == before[e]);
                    } else {
                        assert(lists(circuits@)[e] == seq![v]);
                    }
                }
            }
        }
        all.push(true);
        v += 1;
    }
    let simple = simplify(g);
    assert(all@ =~= all_nodes(g@.len()));
    let queue = scc(&simple, &all);
    let ghost loops = lists(circuits@);
    let mut found = directed_cycle_search(&simple, queue);
    let ghost found_lists = lists(found@);
    circuits.append(&mut found);
    assert(lists(circuits@) =~= loops + found_lists);
    proof {
        assert forall|e: int| 0 <= e < lists(circuits@).len() implies is_circuit(
            g@,
            #[trigger] lists(circuits@)[e],
        ) by {
            if e < loops.len() {
                assert(lists(circuits@)[e] == loops[e]);
            } else {
                let c = found_lists[e - loops.len()];
                assert(lists(circuits@)[e] == c);
                assert(is_circuit(simple@, c));
                lemma_simple_graph_circuit(g@, c);
            }
        }
        assert(components_are_strong(g@));
        lemma_elementary_circuits_exact(g@);
    }
    circuits
}

} // verus!
