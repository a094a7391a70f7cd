//! Directed graphs over nodes `0..n`, held as successor lists, and the
//! vocabulary in which the circuit search is specified.

use vstd::prelude::*;

verus! {

/// A directed graph: `succ[v]` lists the targets of the edges leaving `v`, in
/// the order in which the edges were added.
#[derive(Debug)]
pub struct Digraph {
    pub succ: Vec<Vec<usize>>,
}

/// Every edge of the successor lists `g` ends at a node of `g`.
pub open spec fn graph_wf(g: Seq<Seq<usize>>) -> bool {
    forall|v: int, j: int| 0 <= v < g.len() && 0 <= j < g[v].len() ==> (#[trigger] g[v][j]) < g.len()
}

/// `g` has an edge from `a` to `b`.
pub open spec fn has_edge(g: Seq<Seq<usize>>, a: int, b: int) -> bool {
    0 <= a < g.len() && exists|j: int| 0 <= j < g[a].len() && #[trigger] g[a][j] == b
}

/// `c` is an elementary circuit of `g` that stays on the nodes selected by
/// `mask`: its nodes are distinct and selected, each has an edge to the next,
/// and the last has an edge to the first.
pub open spec fn is_elementary_circuit(g: Seq<Seq<usize>>, mask: Seq<bool>, c: Seq<usize>) -> bool {
    &&& c.len() > 0
    &&& c.no_duplicates()
    &&& forall|k: int| 0 <= k < c.len() ==> (#[trigger] c[k]) < g.len() && mask[c[k] as int]
    &&& forall|k: int| 0 <= k < c.len() - 1 ==> has_edge(g, #[trigger] c[k] as int, c[k + 1] as int)
    &&& has_edge(g, c.last() as int, c[0] as int)
}

/// The circuits through `path[0]` that a depth-first walk finds when it
/// extends the simple path `path` by the edges number `i` and up of its last
/// node, visiting only nodes selected by `mask`. An edge back to `path[0]`
/// closes a circuit, which is reported as the path walked so far; an edge to
/// another node of the path is not followed.
pub open spec fn circuits_via(g: Seq<Seq<usize>>, mask: Seq<bool>, path: Seq<usize>, i: nat) -> Seq<
    Seq<usize>,
>
    decreases g.len() + 1 - path.len(), g[path.last() as int].len() - i,
{
    if path.len() == 0 || path.len() > g.len() || i >= g[path.last() as int].len() {
        Seq::empty()
    } else {
        let w = g[path.last() as int][i as int];
        let here = if !(w < mask.len() && mask[w as int]) {
            Seq::empty()
        } else if w == path[0] {
            seq![path]
        } else if path.contains(w) {
            Seq::empty()
        } else {
            circuits_via(g, mask, path.push(w), 0)
        };
        here + circuits_via(g, mask, path, i + 1)
    }
}

/// All elementary circuits through `start` on the nodes selected by `mask`,
/// each beginning at `start`, in depth-first order.
pub open spec fn circuits_through(g: Seq<Seq<usize>>, mask: Seq<bool>, start: usize) -> Seq<
    Seq<usize>,
> {
    circuits_via(g, mask, seq![start], 0)
}

/// `p` is a simple path of `g`: its nodes are distinct, each has an edge to
/// the next, and all but the first are selected by `mask`.
pub open spec fn is_simple_path(g: Seq<Seq<usize>>, mask: Seq<bool>, p: Seq<usize>) -> bool {
    &&& p.len() > 0
    &&& p.no_duplicates()
    &&& forall|k: int| 0 <= k < p.len() ==> (#[trigger] p[k]) < g.len()
    &&& forall|k: int| 1 <= k < p.len() ==> mask[(#[trigger] p[k]) as int]
    &&& forall|k: int| 0 <= k < p.len() - 1 ==> has_edge(g, #[trigger] p[k] as int, p[k + 1] as int)
}

/// Every circuit that the walk from the simple path `path` reports is a
/// simple path that begins with `path` and has an edge from its last node
/// back to its first.
pub proof fn lemma_circuits_via_sound(g: Seq<Seq<usize>>, mask: Seq<bool>, path: Seq<usize>, i: nat)
    requires
        graph_wf(g),
        mask.len() == g.len(),
        is_simple_path(g, mask, path),
    ensures
        forall|e: int|
            0 <= e < circuits_via(g, mask, path, i).len() ==> {
                let c = #[trigger] circuits_via(g, mask, path, i)[e];
                &&& is_simple_path(g, mask, c)
                &&& has_edge(g, c.last() as int, c[0] as int)
                &&& c.len() >= path.len()
                &&& c.subrange(0, path.len() as int) == path
            },
    decreases g.len() + 1 - path.len(), g[path.last() as int].len() - i,
{
    let last = path.last() as int;
    if path.len() > g.len() || i >= g[last].len() {
    } else {
        let w = g[last][i as int];
        assert(w < g.len());
        let rest = circuits_via(g, mask, path, i + 1);
        lemma_circuits_via_sound(g, mask, path, i + 1);
        let here = if !mask[w as int] {
            Seq::<Seq<usize>>::empty()
        } else if w == path[0] {
            seq![path]
        } else if path.contains(w) {
            Seq::<Seq<usize>>::empty()
        } else {
            circuits_via(g, mask, path.push(w), 0)
        };
        assert(circuits_via(g, mask, path, i) == here + rest);
        if mask[w as int] && w == path[0] {
            assert(has_edge(g, last, path[0] as int));
            assert(path.subrange(0, path.len() as int) =~= path);
        } else if mask[w as int] && !path.contains(w) {
            let longer = path.push(w);
            assert(is_simple_path(g, mask, longer)) by {
                assert forall|a: int, b: int|
                    0 <= a < longer.len() && 0 <= b < longer.len() && a != b implies longer[a] != longer[b] by {
                    if a == path.len() {
                        assert(path[b] == longer[b]);
                    } else if b == path.len() {
                        assert(path[a] == longer[a]);
                    } else {
                        assert(path[a] == longer[a] && path[b] == longer[b]);
                    }
                }
                assert forall|k: int| 0 <= k < longer.len() - 1 implies has_edge(
                    g,
                    #[trigger] longer[k] as int,
                    longer[k + 1] as int,
                ) by {
                    if k == path.len() - 1 {
                        assert(g[last][i as int] == longer[k + 1]);
                    } else {
                        assert(path[k] == longer[k]);
                        assert(has_edge(g, path[k] as int, path[k + 1] as int));
                    }
                }
            }
            lemma_circuits_via_sound(g, mask, longer, 0);
            assert forall|e: int| 0 <= e < here.len() implies (#[trigger] here[e]).subrange(
                0,
                path.len() as int,
            ) == path by {
                assert(here[e].subrange(0, longer.len() as int) == longer);
                assert(here[e].subrange(0, path.len() as int) =~= longer.subrange(0, path.len() as int));
                assert(longer.subrange(0, path.len() as int) =~= path);
            }
        }
        assert forall|e: int| 0 <= e < (here + rest).len() implies {
            let c = #[trigger] (here + rest)[e];
            &&& is_simple_path(g, mask, c)
            &&& has_edge(g, c.last() as int, c[0] as int)
            &&& c.len() >= path.len()
            &&& c.subrange(0, path.len() as int) == path
        } by {
            if e < here.len() {
                assert((here + rest)[e] == here[e]);
            } else {
                assert((here + rest)[e] == rest[e - here.len()]);
            }
        }
    }
}

/// Every circuit that the search through `start` reports is an elementary
/// circuit of `g` on the selected nodes, and begins at `start`.
pub proof fn lemma_circuits_through_sound(g: Seq<Seq<usize>>, mask: Seq<bool>, start: usize)
    requires
        graph_wf(g),
        mask.len() == g.len(),
        start < g.len(),
        mask[start as int],
    ensures
        forall|e: int|
            0 <= e < circuits_through(g, mask, start).len() ==> is_elementary_circuit(
                g,
                mask,
                #[trigger] circuits_through(g, mask, start)[e],
            ) && circuits_through(g, mask, start)[e][0] == start,
{
    let path = seq![start];
    assert(is_simple_path(g, mask, path));
    lemma_circuits_via_sound(g, mask, path, 0);
    assert forall|e: int| 0 <= e < circuits_through(g, mask, start).len() implies is_elementary_circuit(
        g,
        mask,
        #[trigger] circuits_through(g, mask, start)[e],
    ) && circuits_through(g, mask, start)[e][0] == start by {
        let c = circuits_through(g, mask, start)[e];
        assert(c.subrange(0, 1) == path);
        assert(c.subrange(0, 1)[0] == c[0]);
        assert forall|k: int| 0 <= k < c.len() implies (#[trigger] c[k]) < g.len() && mask[c[k] as int] by {
            if k == 0 {
            }
        }
    }
}

/// A list of distinct nodes of a graph with `n` nodes has no more than `n` entries.
pub proof fn lemma_distinct_nodes_are_few(p: Seq<usize>, n: nat)
    requires
        p.no_duplicates(),
        forall|k: int| 0 <= k < p.len() ==> (#[trigger] p[k]) < n,
    ensures
        p.len() <= n,
{
    let ints = p.map_values(|x: usize| x as int);
    assert(ints.no_duplicates());
    ints.unique_seq_to_set();
    let range = vstd::set_lib::set_int_range(0, n as int);
    vstd::set_lib::lemma_int_range(0, n as int);
    assert(ints.to_set().subset_of(range)) by {
        assert forall|x: int| ints.to_set().contains(x) implies range.contains(x) by {
            let k = choose|k: int| 0 <= k < ints.len() && ints[k] == x;
            assert(p[k] < n);
        }
    }
    vstd::set_lib::lemma_len_subset(ints.to_set(), range);
}

/// What the walk reports from the edge number `j` on, it reports from the
/// edge number `i` on, where `i` is not behind `j`.
pub proof fn lemma_circuits_via_later(
    g: Seq<Seq<usize>>,
    mask: Seq<bool>,
    path: Seq<usize>,
    i: nat,
    j: nat,
    c: Seq<usize>,
)
    requires
        i <= j,
        circuits_via(g, mask, path, j).contains(c),
    ensures
        circuits_via(g, mask, path, i).contains(c),
    decreases j - i,
{
    if i < j {
        lemma_circuits_via_later(g, mask, path, i + 1, j, c);
        let rest = circuits_via(g, mask, path, i + 1);
        let e = choose|e: int| 0 <= e < rest.len() && rest[e] == c;
        if path.len() == 0 || path.len() > g.len() || i >= g[path.last() as int].len() {
            assert(circuits_via(g, mask, path, j).len() == 0);
        } else {
            let all = circuits_via(g, mask, path, i);
            assert(all[all.len() - rest.len() + e] == c);
        }
    }
}

/// The walk from a simple path reports every simple path that begins with
/// it, has its first node selected, and has an edge from its last node
/// back to its first.
pub proof fn lemma_circuits_via_complete(g: Seq<Seq<usize>>, mask: Seq<bool>, path: Seq<usize>, c: Seq<usize>)
    requires
        graph_wf(g),
        mask.len() == g.len(),
        is_simple_path(g, mask, c),
        mask[c[0] as int],
        has_edge(g, c.last() as int, c[0] as int),
        1 <= path.len() <= c.len(),
        c.subrange(0, path.len() as int) == path,
    ensures
        circuits_via(g, mask, path, 0).contains(c),
    decreases c.len() - path.len(),
{
    lemma_distinct_nodes_are_few(c, g.len());
    let at = path.len() as int;
    assert(path[0] == c.subrange(0, at)[0]);
    assert(path.last() == c.subrange(0, at)[at - 1]);
    let last = path.last() as int;
    if at == c.len() {
        assert(c.subrange(0, at) =~= c);
        let i = choose|i: int| 0 <= i < g[last].len() && #[trigger] g[last][i] == c[0] as int;
        let all = circuits_via(g, mask, path, i as nat);
        assert(all[0] == path);
        lemma_circuits_via_later(g, mask, path, 0, i as nat, c);
    } else {
        let w = c[at];
        assert(has_edge(g, c[at - 1] as int, c[at] as int));
        let i = choose|i: int| 0 <= i < g[last].len() && #[trigger] g[last][i] == w as int;
        assert(w != path[0]);
        assert(!path.contains(w)) by {
            if path.contains(w) {
                let k = choose|k: int| 0 <= k < path.len() && path[k] == w;
                assert(c.subrange(0, at)[k] == c[k]);
            }
        }
        let longer = path.push(w);
        assert(c.subrange(0, at + 1) =~= longer);
        lemma_circuits_via_complete(g, mask, longer, c);
        let here = circuits_via(g, mask, longer, 0);
        let e = choose|e: int| 0 <= e < here.len() && here[e] == c;
        let all = circuits_via(g, mask, path, i as nat);
        assert(all == here + circuits_via(g, mask, path, (i + 1) as nat));
        assert(all[e] == c);
        lemma_circuits_via_later(g, mask, path, 0, i as nat, c);
    }
}

/// The search through `start` reports every elementary circuit of `g` on
/// the selected nodes that begins at `start`.
pub proof fn lemma_circuits_through_complete(g: Seq<Seq<usize>>, mask: Seq<bool>, start: usize, c: Seq<usize>)
    requires
        graph_wf(g),
        mask.len() == g.len(),
        is_elementary_circuit(g, mask, c),
        c[0] == start,
    ensures
        circuits_through(g, mask, start).contains(c),
{
    assert(c.subrange(0, 1) =~= seq![start]);
    lemma_circuits_via_complete(g, mask, seq![start], c);
}

/// The selection of all of `n` nodes.
pub open spec fn all_nodes(n: nat) -> Seq<bool> {
    Seq::new(n, |x: int| true)
}

/// `c` is an elementary circuit of `g`.
pub open spec fn is_circuit(g: Seq<Seq<usize>>, c: Seq<usize>) -> bool {
    is_elementary_circuit(g, all_nodes(g.len()), c)
}

/// Each list of `circuits` is an elementary circuit of `g`.
pub open spec fn all_circuits(g: Seq<Seq<usize>>, circuits: Seq<Seq<usize>>) -> bool {
    forall|e: int| 0 <= e < circuits.len() ==> is_circuit(g, #[trigger] circuits[e])
}

/// The lists of `v` as mathematical sequences.
pub open spec fn lists(v: Seq<Vec<usize>>) -> Seq<Seq<usize>> {
    Seq::new(v.len(), |i: int| v[i]@)
}

impl Digraph {
    /// The successor lists as a mathematical sequence.
    pub open spec fn view(&self) -> Seq<Seq<usize>> {
        Seq::new(self.succ@.len(), |v: int| self.succ@[v]@)
    }

    pub open spec fn wf(&self) -> bool {
        graph_wf(self@)
    }

    /// The graph with `n` nodes and no edge.
    pub fn new(n: usize) -> (g: Digraph)
        ensures
            g@.len() == n,
            forall|v: int| 0 <= v < n ==> (#[trigger] g@[v]).len() == 0,
            g.wf(),
    {
        let mut succ: Vec<Vec<usize>> = Vec::new();
        let mut v: usize = 0;
        while v < n
            invariant
                v <= n,
                succ@.len() == v,
                forall|k: int| 0 <= k < v ==> (#[trigger] succ@[k])@.len() == 0,
            decreases n - v,
        {
            succ.push(Vec::new());
            v += 1;
        }
        Digraph { succ }
    }

    pub fn node_count(&self) -> (n: usize)
        ensures
            n == self@.len(),
    {
        self.succ.len()
    }

    /// Adds an edge from `a` to `b` behind the edges that already leave `a`.
    pub fn add_edge(&mut self, a: usize, b: usize)
        requires
            old(self).wf(),
            a < old(self)@.len(),
            b < old(self)@.len(),
        ensures
            final(self).wf(),
            final(self)@ == old(self)@.update(a as int, old(self)@[a as int].push(b)),
    {
        let mut list: Vec<usize> = Vec::new();
        let n = self.succ[a].len();
        let mut j: usize = 0;
        while j < n
            invariant
                j <= n,
                a < self.succ@.len(),
                n == self.succ@[a as int]@.len(),
                list@ == self.succ@[a as int]@.subrange(0, j as int),
            decreases n - j,
        {
            list.push(self.succ[a][j]);
            j += 1;
        }
        assert(list@ == self.succ@[a as int]@);
        list.push(b);
        let ghost before = self@;
        self.succ.set(a, list);
        proof {
            assert(self@ =~= before.update(a as int, before[a as int].push(b)));
            assert forall|v: int, k: int| 0 <= v < self@.len() && 0 <= k < self@[v].len() implies (
            #[trigger] self@[v][k]) < self@.len() by {
                if v == a as int {
                    if k < before[v].len() {
                        assert(self@[v][k] == before[v][k]);
                    }
                } else {
                    assert(self@[v][k] == before[v][k]);
                }
            }
        }
    }

    /// Whether there is an edge from `a` to `b`.
    pub fn contains_edge(&self, a: usize, b: usize) -> (found: bool)
        requires
            a < self@.len(),
        ensures
            found == has_edge(self@, a as int, b as int),
    {
        let n = self.succ[a].len();
        let mut j: usize = 0;
        while j < n
            invariant
                j <= n,
                a < self.succ@.len(),
                n == self.succ@[a as int]@.len(),
                forall|k: int| 0 <= k < j ==> self@[a as int][k] != b,
            decreases n - j,
        {
            if self.succ[a][j] == b {
                assert(self@[a as int][j as int] == b);
                return true;
            }
            j += 1;
        }
        false
    }
}

/// The number of `true` entries of `s`.
pub open spec fn count_true(s: Seq<bool>) -> nat
    decreases s.len(),
{
    if s.len() == 0 {
        0
    } else {
        count_true(s.drop_last()) + if s.last() {
            1nat
        } else {
            0nat
        }
    }
}

/// Taking a `true` entry back makes one `true` entry less.
pub proof fn lemma_count_true_update(s: Seq<bool>, i: int)
    requires
        0 <= i < s.len(),
        s[i],
    ensures
        count_true(s.update(i, false)) + 1 == count_true(s),
    decreases s.len(),
{
    let t = s.update(i, false);
    if i == s.len() - 1 {
        assert(t.drop_last() =~= s.drop_last());
    } else {
        lemma_count_true_update(s.drop_last(), i);
        assert(t.drop_last() =~= s.drop_last().update(i, false));
    }
}

/// The number of nodes that the lists of `queue` name, counted with repetition.
pub open spec fn total_len(queue: Seq<Seq<usize>>) -> nat
    decreases queue.len(),
{
    if queue.len() == 0 {
        0
    } else {
        total_len(queue.drop_last()) + queue.last().len()
    }
}

/// The lists of `a` and `b` name as many nodes as `a` and `b` together.
pub proof fn lemma_total_len_concat(a: Seq<Seq<usize>>, b: Seq<Seq<usize>>)
    ensures
        total_len(a + b) == total_len(a) + total_len(b),
    decreases b.len(),
{
    if b.len() == 0 {
        assert(a + b =~= a);
    } else {
        assert((a + b).drop_last() =~= a + b.drop_last());
        assert((a + b).last() == b.last());
        lemma_total_len_concat(a, b.drop_last());
    }
}

/// A queue names as many nodes as its first list and the rest.
pub proof fn lemma_total_len_first(queue: Seq<Seq<usize>>)
    requires
        queue.len() > 0,
    ensures
        total_len(queue) == queue.first().len() + total_len(queue.drop_first()),
{
    let head = seq![queue.first()];
    assert(head.drop_last() =~= Seq::<Seq<usize>>::empty());
    assert(total_len(head.drop_last()) == 0);
    assert(head.last() == queue.first());
    assert(total_len(head) == queue.first().len());
    assert(head + queue.drop_first() =~= queue);
    lemma_total_len_concat(head, queue.drop_first());
}

/// The nodes that `mask` selects.
pub open spec fn selected(mask: Seq<bool>) -> Set<usize> {
    Set::new(|a: usize| a < mask.len() && mask[a as int])
}

/// `mask` selects as many nodes as it has `true` entries.
pub proof fn lemma_selected_count(mask: Seq<bool>)
    requires
        mask.len() <= usize::MAX,
    ensures
        selected(mask).finite(),
        selected(mask).len() == count_true(mask),
    decreases mask.len(),
{
    broadcast use vstd::set::group_set_axioms;

    if mask.len() == 0 {
        assert(selected(mask) =~= Set::<usize>::empty());
    } else {
        let front = mask.drop_last();
        lemma_selected_count(front);
        let top = (mask.len() - 1) as usize;
        if mask.last() {
            assert(selected(mask) =~= selected(front).insert(top));
            assert(!selected(front).contains(top));
        } else {
            assert(selected(mask) =~= selected(front));
        }
    }
}

} // verus!
