//! The circuit search of Johnson's algorithm: all elementary circuits through
//! one start node, found by a depth-first walk that blocks the nodes from
//! which the start node cannot be reached again.

use crate::graph::{
    circuits_through, circuits_via, count_true, Digraph, graph_wf, is_elementary_circuit,
    lemma_circuits_through_sound, lemma_count_true_update, lemma_distinct_nodes_are_few, lists,
};
use vstd::prelude::*;

verus! {

/// The working state of one search.
pub struct Search {
    /// The simple path walked so far, from the start node.
    pub path: Vec<usize>,
    /// `on_path[x]` holds exactly for the nodes of `path`.
    pub on_path: Vec<bool>,
    /// The nodes that the walk does not enter.
    pub blocked: Vec<bool>,
    /// `waiting[y]` lists the blocked nodes to release when `y` is released.
    pub waiting: Vec<Vec<usize>>,
}

/// Every blocked node off `stack` has only edges to blocked nodes, and none to `start`.
pub open spec fn sealed(
    g: Seq<Seq<usize>>,
    mask: Seq<bool>,
    blocked: Seq<bool>,
    start: usize,
    stack: Seq<usize>,
) -> bool {
    forall|x: usize, j: int|
        x < g.len() && blocked[x as int] && !stack.contains(x) && 0 <= j < g[x as int].len()
            && mask[(#[trigger] g[x as int][j]) as int] ==> g[x as int][j] != start
            && blocked[g[x as int][j] as int]
}

impl Search {
    /// The lists have one entry for each of the `n` nodes, and `on_path`
    /// marks the nodes of the simple path `path`.
    pub open spec fn wf(&self, n: nat) -> bool {
        &&& self.on_path@.len() == n
        &&& self.blocked@.len() == n
        &&& self.waiting@.len() == n
        &&& self.path@.no_duplicates()
        &&& forall|k: int| 0 <= k < self.path@.len() ==> (#[trigger] self.path@[k]) < n
        &&& forall|x: usize| x < n ==> (#[trigger] self.on_path@[x as int] <==> self.path@.contains(x))
        &&& forall|y: int, k: int|
            0 <= y < n && 0 <= k < self.waiting@[y]@.len() ==> (#[trigger] self.waiting@[y]@[k]) < n
    }

    /// The nodes of the path are blocked, and each blocked node off the path
    /// has only edges to blocked nodes, on whose lists it waits.
    pub open spec fn inv(&self, g: Seq<Seq<usize>>, mask: Seq<bool>, start: usize) -> bool {
        &&& forall|x: int| 0 <= x < g.len() && self.on_path@[x] ==> #[trigger] self.blocked@[x]
        &&& sealed(g, mask, self.blocked@, start, self.path@)
        &&& forall|x: usize, j: int|
            x < g.len() && self.blocked@[x as int] && !self.on_path@[x as int] && 0 <= j < g[x as int].len()
                && mask[(#[trigger] g[x as int][j]) as int] ==> self.waiting@[g[x as int][j] as int]@.contains(
                x,
            )
    }

    /// As `inv`, but the nodes listed in `pending` are still to be released.
    pub open spec fn inv_releasing(
        &self,
        g: Seq<Seq<usize>>,
        mask: Seq<bool>,
        start: usize,
        pending: Seq<usize>,
    ) -> bool {
        &&& forall|x: int| 0 <= x < g.len() && self.on_path@[x] ==> #[trigger] self.blocked@[x]
        &&& forall|x: usize, j: int|
            x < g.len() && self.blocked@[x as int] && !self.on_path@[x as int] && !pending.contains(x)
                && 0 <= j < g[x as int].len() && mask[(#[trigger] g[x as int][j]) as int] ==> g[x as int][j]
                != start && self.blocked@[g[x as int][j] as int]
                && self.waiting@[g[x as int][j] as int]@.contains(x)
    }
}

/// A simple path over `n` nodes that misses a node has fewer than `n` nodes.
proof fn lemma_simple_path_is_short(path: Seq<usize>, n: nat, w: usize)
    requires
        path.no_duplicates(),
        forall|k: int| 0 <= k < path.len() ==> (#[trigger] path[k]) < n,
        w < n,
        !path.contains(w),
    ensures
        path.len() < n,
{
    let longer = path.push(w);
    assert forall|a: int, b: int| 0 <= a < longer.len() && 0 <= b < longer.len() && a != b implies longer[a]
        != longer[b] by {
        if a == path.len() {
            assert(path[b] == longer[b]);
        } else if b == path.len() {
            assert(path[a] == longer[a]);
        }
    }
    assert forall|k: int| 0 <= k < longer.len() implies (#[trigger] longer[k]) < n by {
        if k < path.len() {
            assert(longer[k] == path[k]);
        }
    }
    lemma_distinct_nodes_are_few(longer, n);
}

/// No circuit is found by entering a blocked node that is off the path.
proof fn lemma_blocked_is_dead(
    g: Seq<Seq<usize>>,
    mask: Seq<bool>,
    blocked: Seq<bool>,
    stack: Seq<usize>,
    w: usize,
    i: nat,
)
    requires
        graph_wf(g),
        mask.len() == g.len(),
        blocked.len() == g.len(),
        stack.len() > 0,
        sealed(g, mask, blocked, stack[0], stack),
        w < g.len(),
        blocked[w as int],
        !stack.contains(w),
    ensures
        circuits_via(g, mask, stack.push(w), i).len() == 0,
    decreases g.len() + 1 - stack.len(), g[w as int].len() - i,
{
    let p = stack.push(w);
    assert(p.last() == w);
    assert(p[0] == stack[0]);
    if p.len() > g.len() || i >= g[w as int].len() {
    } else {
        let y = g[w as int][i as int];
        lemma_blocked_is_dead(g, mask, blocked, stack, w, i + 1);
        if mask[y as int] {
            assert(y != stack[0] && blocked[y as int]);
            if !p.contains(y) {
                assert(sealed(g, mask, blocked, p[0], p)) by {
                    assert forall|x: usize, j: int|
                        x < g.len() && blocked[x as int] && !p.contains(x) && 0 <= j < g[x as int].len()
                            && mask[(#[trigger] g[x as int][j]) as int] implies g[x as int][j] != p[0]
                        && blocked[g[x as int][j] as int] by {
                        if stack.contains(x) {
                            let k = choose|k: int| 0 <= k < stack.len() && stack[k] == x;
                            assert(p[k] == x);
                        }
                    }
                }
                lemma_blocked_is_dead(g, mask, blocked, p, y, 0);
            }
        }
    }
}

/// Releases `v`, which has just left the path with a circuit found behind
/// it, and with it every blocked node that waits, directly or through
/// others, on a released node. Nodes on the path stay blocked.
fn release(g: &Digraph, mask: &Vec<bool>, start: usize, st: &mut Search, v: usize)
    requires
        g.wf(),
        mask@.len() == g@.len(),
        old(st).wf(g@.len()),
        v < g@.len(),
        old(st).inv_releasing(g@, mask@, start, seq![v]),
    ensures
        final(st).wf(g@.len()),
        final(st).path@ == old(st).path@,
        final(st).on_path@ == old(st).on_path@,
        final(st).inv(g@, mask@, start),
{
    let ghost n = g@.len();
    let mut pending: Vec<usize> = Vec::new();
    pending.push(v);
    assert(pending@ =~= seq![v]);
    while pending.len() > 0
        invariant
            g.wf(),
            mask@.len() == n,
            n == g@.len(),
            st.wf(n),
            st.path@ == old(st).path@,
            st.on_path@ == old(st).on_path@,
            st.inv_releasing(g@, mask@, start, pending@),
            forall|k: int| 0 <= k < pending@.len() ==> (#[trigger] pending@[k]) < n,
        decreases count_true(st.blocked@), pending@.len(),
    {
        let ghost before = pending@;
        let ghost st0 = *st;
        let u = pending.pop().unwrap();
        assert(before =~= pending@.push(u));
        if st.blocked[u] && !st.on_path[u] {
            st.blocked.set(u, false);
            proof {
                lemma_count_true_update(st0.blocked@, u as int);
            }
            let m = st.waiting[u].len();
            let ghost base = pending@;
            let mut k: usize = 0;
            while k < m
                invariant
                    k <= m,
                    u < n,
                    st.waiting@.len() == n,
                    st.waiting@ == st0.waiting@,
                    m == st.waiting@[u as int]@.len(),
                    pending@ == base + st.waiting@[u as int]@.subrange(0, k as int),
                decreases m - k,
            {
                pending.push(st.waiting[u][k]);
                k += 1;
                assert(pending@ =~= base + st.waiting@[u as int]@.subrange(0, k as int));
            }
            assert(st.waiting@[u as int]@.subrange(0, m as int) =~= st.waiting@[u as int]@);
            let ghost listed = st.waiting@[u as int]@;
            st.waiting.set(u, Vec::new());
            proof {
                assert(pending@ == base + listed);
                assert forall|k: int| 0 <= k < pending@.len() implies (#[trigger] pending@[k]) < n by {
                    if k < base.len() {
                        assert(pending@[k] == before[k]);
                    } else {
                        assert(pending@[k] == listed[k - base.len()]);
                    }
                }
                assert(st.wf(n)) by {
                    assert forall|y: int, k: int|
                        0 <= y < n && 0 <= k < st.waiting@[y]@.len() implies (
                    #[trigger] st.waiting@[y]@[k]) < n by {
                        if y != u as int {
                            assert(st.waiting@[y] == st0.waiting@[y]);
                        }
                    }
                }
                assert(st.inv_releasing(g@, mask@, start, pending@)) by {
                    assert forall|x: usize, j: int|
                        x < g@.len() && st.blocked@[x as int] && !st.on_path@[x as int] && !pending@.contains(x)
                            && 0 <= j < g@[x as int].len() && mask@[(#[trigger] g@[x as int][j]) as int] implies g@[x as int][j]
                        != start && st.blocked@[g@[x as int][j] as int]
                        && st.waiting@[g@[x as int][j] as int]@.contains(x) by {
                        let y = g@[x as int][j];
                        assert(x != u);
                        assert(st0.blocked@[x as int]);
                        if before.contains(x) {
                            let k = choose|k: int| 0 <= k < before.len() && before[k] == x;
                            assert(before == base.push(u));
                            assert(k < base.len());
                            assert(pending@[k] == x);
                        }
                        assert(st0.waiting@[y as int]@.contains(x));
                        if y == u {
                            let k = choose|k: int| 0 <= k < listed.len() && listed[k] == x;
                            assert(pending@[base.len() + k] == x);
                        } else {
                            assert(st.waiting@[y as int] == st0.waiting@[y as int]);
                        }
                    }
                }
            }
        } else {
            proof {
                assert(st.inv_releasing(g@, mask@, start, pending@)) by {
                    assert forall|x: usize, j: int|
                        x < g@.len() && st.blocked@[x as int] && !st.on_path@[x as int] && !pending@.contains(x)
                            && 0 <= j < g@[x as int].len() && mask@[(#[trigger] g@[x as int][j]) as int] implies g@[x as int][j]
                        != start && st.blocked@[g@[x as int][j] as int]
                        && st.waiting@[g@[x as int][j] as int]@.contains(x) by {
                        assert(x != u);
                        if before.contains(x) {
                            let k = choose|k: int| 0 <= k < before.len() && before[k] == x;
                            assert(k < pending@.len());
                            assert(pending@[k] == x);
                        }
                    }
                }
            }
        }
    }
    proof {
        assert(st.inv(g@, mask@, start)) by {
            assert forall|x: usize, j: int|
                x < g@.len() && st.blocked@[x as int] && !st.path@.contains(x) && 0 <= j < g@[x as int].len()
                    && mask@[(#[trigger] g@[x as int][j]) as int] implies g@[x as int][j] != start
                && st.blocked@[g@[x as int][j] as int] by {
                assert(!st.on_path@[x as int]);
                assert(!pending@.contains(x));
            }
        }
    }
}

/// Puts `v` on `list` unless it is there.
fn push_unique(list: &mut Vec<usize>, v: usize)
    ensures
        final(list)@.contains(v),
        forall|x: usize| old(list)@.contains(x) ==> final(list)@.contains(x),
        forall|k: int| 0 <= k < final(list)@.len() ==> (#[trigger] final(list)@[k]) == v || old(list)@.contains(
            final(list)@[k],
        ),
{
    let n = list.len();
    let mut k: usize = 0;
    while k < n
        invariant
            k <= n,
            n == list@.len(),
            list@ == old(list)@,
            forall|j: int| 0 <= j < k ==> list@[j] != v,
        decreases n - k,
    {
        if list[k] == v {
            return ;
        }
        k += 1;
    }
    list.push(v);
    proof {
        assert(list@[n as int] == v);
        assert forall|x: usize| old(list)@.contains(x) implies list@.contains(x) by {
            let j = choose|j: int| 0 <= j < old(list)@.len() && old(list)@[j] == x;
            assert(list@[j] == x);
        }
        assert forall|k: int| 0 <= k < list@.len() implies (#[trigger] list@[k]) == v || old(list)@.contains(
            list@[k],
        ) by {
            if k < n {
                assert(old(list)@[k] == list@[k]);
            }
        }
    }
}

/// Walks on from the path through the unblocked node `v`: reports every
/// circuit that continues the path through `v` back to `start`, and says
/// whether there was one. Where there was none, `v` stays blocked and waits
/// on the nodes it has edges to; where there was one, `v` is released.
fn circuit(
    g: &Digraph,
    mask: &Vec<bool>,
    start: usize,
    v: usize,
    st: &mut Search,
    out: &mut Vec<Vec<usize>>,
) -> (closed: bool)
    requires
        g.wf(),
        mask@.len() == g@.len(),
        start < g@.len(),
        v < g@.len(),
        old(st).wf(g@.len()),
        old(st).inv(g@, mask@, start),
        !old(st).blocked@[v as int],
        old(st).path@.len() == 0 ==> v == start,
        old(st).path@.len() > 0 ==> old(st).path@[0] == start,
    ensures
        final(st).wf(g@.len()),
        final(st).inv(g@, mask@, start),
        final(st).path@ == old(st).path@,
        final(st).on_path@ == old(st).on_path@,
        lists(final(out)@) == lists(old(out)@) + circuits_via(g@, mask@, old(st).path@.push(v), 0),
        closed == (circuits_via(g@, mask@, old(st).path@.push(v), 0).len() > 0),
        !closed ==> final(st).blocked@[v as int],
        !closed ==> forall|x: int|
            0 <= x < g@.len() && old(st).blocked@[x] ==> #[trigger] final(st).blocked@[x],
    decreases g@.len() - old(st).path@.len(),
{
    let ghost n = g@.len();
    let ghost p = old(st).path@.push(v);
    proof {
        assert(!old(st).path@.contains(v));
        lemma_simple_path_is_short(old(st).path@, n, v);
    }
    st.path.push(v);
    st.on_path.set(v, true);
    st.blocked.set(v, true);
    let ghost entered = *st;
    proof {
        assert(p[0] == start);
        assert(p.last() == v);
        assert(st.path@.no_duplicates()) by {
            assert forall|a: int, b: int| 0 <= a < p.len() && 0 <= b < p.len() && a != b implies p[a] != p[b] by {
                if a == p.len() - 1 {
                    assert(old(st).path@[b] == p[b]);
                } else if b == p.len() - 1 {
                    assert(old(st).path@[a] == p[a]);
                } else {
                    assert(old(st).path@[a] == p[a] && old(st).path@[b] == p[b]);
                }
            }
        }
        assert forall|x: usize| x < n implies (#[trigger] st.on_path@[x as int] <==> p.contains(x)) by {
            if x == v {
                assert(p[p.len() - 1] == v);
            } else {
                if p.contains(x) {
                    let k = choose|k: int| 0 <= k < p.len() && p[k] == x;
                    assert(old(st).path@[k] == x);
                }
                if old(st).path@.contains(x) {
                    let k = choose|k: int| 0 <= k < old(st).path@.len() && old(st).path@[k] == x;
                    assert(p[k] == x);
                }
            }
        }
        assert(st.wf(n));
        assert(st.inv(g@, mask@, start)) by {
            assert forall|x: usize, j: int|
                x < g@.len() && st.blocked@[x as int] && !p.contains(x) && 0 <= j < g@[x as int].len()
                    && mask@[(#[trigger] g@[x as int][j]) as int] implies g@[x as int][j] != start
                && st.blocked@[g@[x as int][j] as int] by {
                assert(x != v);
                if old(st).path@.contains(x) {
                    let k = choose|k: int| 0 <= k < old(st).path@.len() && old(st).path@[k] == x;
                    assert(p[k] == x);
                }
            }
        }
    }
    let deg = g.succ[v].len();
    let mut closed = false;
    let mut i: usize = 0;
    while i < deg
        invariant
            i <= deg,
            g.wf(),
            n == g@.len(),
            mask@.len() == n,
            start < n,
            v < n,
            deg == g@[v as int].len(),
            0 < p.len() <= n,
            p == old(st).path@.push(v),
            p[0] == start,
            st.wf(n),
            st.inv(g@, mask@, start),
            st.path@ == p,
            st.on_path@ == entered.on_path@,
            entered.blocked@.len() == n,
            lists(out@) + circuits_via(g@, mask@, p, i as nat) == lists(old(out)@) + circuits_via(
                g@,
                mask@,
                p,
                0,
            ),
            out@.len() >= old(out)@.len(),
            closed == (out@.len() > old(out)@.len()),
            !closed ==> forall|x: int| 0 <= x < n && entered.blocked@[x] ==> #[trigger] st.blocked@[x],
            !closed ==> forall|j: int|
                0 <= j < i && mask@[(#[trigger] g@[v as int][j]) as int] ==> g@[v as int][j] != start
                    && st.blocked@[g@[v as int][j] as int],
        decreases deg - i,
    {
        let w = g.succ[v][i];
        let ghost out0 = lists(out@);
        let ghost here = if !mask@[w as int] {
            Seq::<Seq<usize>>::empty()
        } else if w == start {
            seq![p]
        } else if p.contains(w) {
            Seq::<Seq<usize>>::empty()
        } else {
            circuits_via(g@, mask@, p.push(w), 0)
        };
        proof {
            assert(g@[v as int][i as int] == w);
            assert(w < n);
            assert(p.last() == v);
            assert(circuits_via(g@, mask@, p, i as nat) == here + circuits_via(g@, mask@, p, (i + 1) as nat));
        }
        if mask[w] {
            if w == start {
                let found = st.path.clone();
                assert(found@ =~= p);
                out.push(found);
                closed = true;
                assert(lists(out@) =~= out0 + here);
            } else if !st.blocked[w] {
                proof {
                    assert(!st.on_path@[w as int]);
                    assert(!p.contains(w));
                }
                let ghost mid = *st;
                let below = circuit(g, mask, start, w, st, out);
                if below {
                    closed = true;
                } else {
                    proof {
                        if !closed {
                            assert forall|j: int|
                                0 <= j < i + 1 && mask@[(#[trigger] g@[v as int][j]) as int] implies g@[v as int][j]
                                != start && st.blocked@[g@[v as int][j] as int] by {
                                if j < i {
                                    assert(mid.blocked@[g@[v as int][j] as int]);
                                }
                            }
                        }
                    }
                }
            } else {
                proof {
                    if !p.contains(w) {
                        lemma_blocked_is_dead(g@, mask@, st.blocked@, p, w, 0);
                        assert(here =~= Seq::<Seq<usize>>::empty());
                    }
                    assert(lists(out@) =~= out0 + here);
                }
            }
        } else {
            assert(lists(out@) =~= out0 + here);
        }
        proof {
            assert(lists(out@) == out0 + here);
            assert((out0 + here) + circuits_via(g@, mask@, p, (i + 1) as nat) =~= out0 + (here + circuits_via(
                g@,
                mask@,
                p,
                (i + 1) as nat,
            )));
        }
        i += 1;
    }
    proof {
        assert(circuits_via(g@, mask@, p, deg as nat) =~= Seq::<Seq<usize>>::empty());
        assert(lists(out@) =~= lists(old(out)@) + circuits_via(g@, mask@, p, 0));
        assert(lists(out@).len() == out@.len());
        assert(lists(old(out)@).len() == old(out)@.len());
    }
    if closed {
        st.path.pop();
        st.on_path.set(v, false);
        proof {
            assert(st.path@ =~= old(st).path@);
            assert(st.on_path@ =~= old(st).on_path@);
            assert(st.wf(n));
            assert(st.inv_releasing(g@, mask@, start, seq![v])) by {
                assert forall|x: usize, j: int|
                    x < g@.len() && st.blocked@[x as int] && !st.on_path@[x as int] && !seq![v].contains(x)
                        && 0 <= j < g@[x as int].len() && mask@[(#[trigger] g@[x as int][j]) as int] implies g@[x as int][j]
                    != start && st.blocked@[g@[x as int][j] as int]
                    && st.waiting@[g@[x as int][j] as int]@.contains(x) by {
                    assert(seq![v][0] == v);
                    assert(x != v);
                    assert(!entered.on_path@[x as int]);
                    assert(!p.contains(x));
                }
            }
        }
        release(g, mask, start, st, v);
    } else {
        let mut j: usize = 0;
        while j < deg
            invariant
                j <= deg,
                n == g@.len(),
                g.wf(),
                mask@.len() == n,
                v < n,
                deg == g@[v as int].len(),
                st.wf(n),
                st.inv(g@, mask@, start),
                st.path@ == p,
                st.on_path@ == entered.on_path@,
                entered.blocked@.len() == n,
                forall|x: int| 0 <= x < n && entered.blocked@[x] ==> #[trigger] st.blocked@[x],
                forall|k: int|
                    0 <= k < deg && mask@[(#[trigger] g@[v as int][k]) as int] ==> g@[v as int][k] != start
                        && st.blocked@[g@[v as int][k] as int],
                forall|k: int|
                    0 <= k < j && mask@[(#[trigger] g@[v as int][k]) as int] ==> st.waiting@[g@[v as int][k] as int]@.contains(
                    v),
            decreases deg - j,
        {
            let y = g.succ[v][j];
            assert(g@[v as int][j as int] == y);
            if mask[y] {
                let ghost st1 = *st;
                let mut list: Vec<usize> = Vec::new();
                let len = st.waiting[y].len();
                let mut k: usize = 0;
                while k < len
                    invariant
                        k <= len,
                        y < st.waiting@.len(),
                        *st == st1,
                        len == st.waiting@[y as int]@.len(),
                        list@ == st.waiting@[y as int]@.subrange(0, k as int),
                    decreases len - k,
                {
                    list.push(st.waiting[y][k]);
                    k += 1;
                }
                assert(list@ =~= st1.waiting@[y as int]@);
                push_unique(&mut list, v);
                st.waiting.set(y, list);
                proof {
                    assert forall|z: int, x: usize|
                        0 <= z < n && st1.waiting@[z]@.contains(x) implies #[trigger] st.waiting@[z]@.contains(
                        x,
                    ) by {
                        if z != y as int {
                            assert(st.waiting@[z] == st1.waiting@[z]);
                        }
                    }
                    assert(st.wf(n)) by {
                        assert forall|z: int, k: int|
                            0 <= z < n && 0 <= k < st.waiting@[z]@.len() implies (
                        #[trigger] st.waiting@[z]@[k]) < n by {
                            if z != y as int {
                                assert(st.waiting@[z] == st1.waiting@[z]);
                            } else {
                                let e = st.waiting@[z]@[k];
                                if e != v {
                                    assert(st1.waiting@[z]@.contains(e));
                                }
                            }
                        }
                    }
                    assert(st.inv(g@, mask@, start)) by {
                        assert forall|x: usize, jj: int|
                            x < g@.len() && st.blocked@[x as int] && !st.on_path@[x as int] && 0 <= jj < g@[x as int].len()
                                && mask@[(#[trigger] g@[x as int][jj]) as int] implies st.waiting@[g@[x as int][jj] as int]@.contains(
                            x,
                        ) by {
                            assert(st1.waiting@[g@[x as int][jj] as int]@.contains(x));
                        }
                    }
                    assert forall|k: int|
                        0 <= k < j + 1 && mask@[(#[trigger] g@[v as int][k]) as int] implies st.waiting@[g@[v as int][k] as int]@.contains(
                        v) by {
                        if k < j {
                            assert(st1.waiting@[g@[v as int][k] as int]@.contains(v));
                        }
                    }
                }
            }
            j += 1;
        }
        let ghost st2 = *st;
        st.path.pop();
        st.on_path.set(v, false);
        proof {
            assert(st.path@ =~= old(st).path@);
            assert(st.on_path@ =~= old(st).on_path@);
            assert(st.wf(n));
            assert(st.inv(g@, mask@, start)) by {
                assert forall|x: usize, jj: int|
                    x < g@.len() && st.blocked@[x as int] && !st.path@.contains(x) && 0 <= jj < g@[x as int].len()
                        && mask@[(#[trigger] g@[x as int][jj]) as int] implies g@[x as int][jj] != start
                    && st.blocked@[g@[x as int][jj] as int] by {
                    if x != v {
                        assert(!st2.on_path@[x as int]);
                        assert(!p.contains(x));
                    }
                }
                assert forall|x: usize, jj: int|
                    x < g@.len() && st.blocked@[x as int] && !st.on_path@[x as int] && 0 <= jj < g@[x as int].len()
                        && mask@[(#[trigger] g@[x as int][jj]) as int] implies st.waiting@[g@[x as int][jj] as int]@.contains(
                    x,
                ) by {
                    if x != v {
                        assert(!st2.on_path@[x as int]);
                    }
                }
            }
        }
    }
    closed
}

/// All elementary circuits of `g` through `start` that stay on the nodes
/// selected by `mask`, each listed from `start` on, in depth-first order.
pub fn johnson_cycle_search(g: &Digraph, mask: &Vec<bool>, start: usize) -> (circuits: Vec<Vec<usize>>)
    requires
        g.wf(),
        mask@.len() == g@.len(),
        start < g@.len(),
    ensures
        lists(circuits@) == circuits_through(g@, mask@, start),
        mask@[start as int] ==> forall|e: int|
            0 <= e < circuits@.len() ==> is_elementary_circuit(g@, mask@, (#[trigger] circuits@[e])@)
                && circuits@[e]@[0] == start,
{
    let n = g.node_count();
    let mut st = Search { path: Vec::new(), on_path: Vec::new(), blocked: Vec::new(), waiting: Vec::new() };
    let mut x: usize = 0;
    while x < n
        invariant
            x <= n,
            st.path@.len() == 0,
            st.on_path@.len() == x,
            st.blocked@.len() == x,
            st.waiting@.len() == x,
            forall|k: int| 0 <= k < x ==> !(#[trigger] st.on_path@[k]),
            forall|k: int| 0 <= k < x ==> !(#[trigger] st.blocked@[k]),
            forall|k: int| 0 <= k < x ==> (#[trigger] st.waiting@[k])@.len() == 0,
        decreases n - x,
    {
        st.on_path.push(false);
        st.blocked.push(false);
        st.waiting.push(Vec::new());
        x += 1;
    }
    let mut out: Vec<Vec<usize>> = Vec::new();
    proof {
        assert(st.path@ =~= Seq::<usize>::empty());
        assert(st.path@.push(start) =~= seq![start]);
        assert(lists(out@) =~= Seq::<Seq<usize>>::empty());
    }
    let _ = circuit(g, mask, start, start, &mut st, &mut out);
    proof {
        assert(lists(out@) =~= circuits_through(g@, mask@, start));
        if mask@[start as int] {
            lemma_circuits_through_sound(g@, mask@, start);
            assert forall|e: int| 0 <= e < out@.len() implies is_elementary_circuit(
                g@,
                mask@,
                (#[trigger] out@[e])@,
            ) && out@[e]@[0] == start by {
                assert(lists(out@)[e] == out@[e]@);
            }
        }
    }
    out
}

} // verus!
