use cdlint::circuits::{directed_cycle_search, elementary_circuits, simplify};
use cdlint::graph::Digraph;
use cdlint::johnson::johnson_cycle_search;
use cdlint::scc::{induced_edge_list, nontrivial_components, scc};

fn graph(n: usize, edges: &[(usize, usize)]) -> Digraph {
    let mut g = Digraph::new(n);
    for &(a, b) in edges {
        g.add_edge(a, b);
    }
    g
}

fn sorted(mut lists: Vec<Vec<usize>>) -> Vec<Vec<usize>> {
    for l in lists.iter_mut() {
        l.sort();
    }
    lists.sort();
    lists
}

#[test]
fn triangle_has_one_circuit() {
    let g = graph(3, &[(0, 1), (1, 2), (2, 0)]);
    assert_eq!(elementary_circuits(&g), vec![vec![0, 1, 2]]);
}

#[test]
fn triangle_is_found_whatever_the_edge_order() {
    let g = graph(3, &[(2, 0), (1, 2), (0, 1)]);
    assert_eq!(elementary_circuits(&g), vec![vec![0, 1, 2]]);
    let g = graph(3, &[(1, 0), (0, 2), (2, 1)]);
    assert_eq!(elementary_circuits(&g), vec![vec![0, 2, 1]]);
}

#[test]
fn self_loop_is_a_circuit_of_one_node() {
    let g = graph(2, &[(0, 0), (1, 0)]);
    assert_eq!(elementary_circuits(&g), vec![vec![0]]);
}

#[test]
fn acyclic_graph_has_no_circuit() {
    let g = graph(4, &[(0, 1), (1, 2), (0, 2), (2, 3)]);
    assert_eq!(elementary_circuits(&g), Vec::<Vec<usize>>::new());
}

#[test]
fn empty_graph_has_no_circuit() {
    let g = Digraph::new(0);
    assert_eq!(elementary_circuits(&g), Vec::<Vec<usize>>::new());
}

#[test]
fn parallel_edges_give_one_circuit() {
    let g = graph(2, &[(0, 1), (0, 1), (1, 0), (1, 0)]);
    assert_eq!(elementary_circuits(&g), vec![vec![0, 1]]);
}

#[test]
fn complete_graph_on_three_nodes() {
    let g = graph(3, &[(0, 1), (0, 2), (1, 0), (1, 2), (2, 0), (2, 1)]);
    let found = elementary_circuits(&g);
    assert_eq!(found.len(), 5);
    assert_eq!(found[0], vec![0, 1]);
    assert_eq!(found[1], vec![0, 1, 2]);
    assert_eq!(found[2], vec![0, 2]);
    assert_eq!(found[3], vec![0, 2, 1]);
    assert_eq!(found[4], vec![1, 2]);
}

#[test]
fn complete_graph_on_four_nodes_has_twenty_circuits() {
    let mut edges = Vec::new();
    for a in 0..4 {
        for b in 0..4 {
            if a != b {
                edges.push((a, b));
            }
        }
    }
    let g = graph(4, &edges);
    let found = elementary_circuits(&g);
    assert_eq!(found.len(), 20);
    let mut seen = found.clone();
    seen.sort();
    seen.dedup();
    assert_eq!(seen.len(), 20);
}

#[test]
fn two_separate_circuits() {
    let g = graph(5, &[(0, 1), (1, 0), (2, 3), (3, 4), (4, 2)]);
    assert_eq!(sorted(elementary_circuits(&g)), vec![vec![0, 1], vec![2, 3, 4]]);
}

#[test]
fn figure_of_eight() {
    let g = graph(3, &[(0, 1), (1, 0), (1, 2), (2, 1)]);
    assert_eq!(elementary_circuits(&g), vec![vec![0, 1], vec![1, 2]]);
}

#[test]
fn blocked_nodes_are_released_when_a_circuit_closes() {
    // 0 -> 1 -> 2 -> 0, and 1 -> 3 -> 2: node 2 is reached twice.
    let g = graph(4, &[(0, 1), (1, 3), (1, 2), (3, 2), (2, 0)]);
    let mask = vec![true; 4];
    assert_eq!(johnson_cycle_search(&g, &mask, 0), vec![vec![0, 1, 3, 2], vec![0, 1, 2]]);
}

#[test]
fn search_stays_on_the_selected_nodes() {
    let g = graph(3, &[(0, 1), (1, 0), (1, 2), (2, 0)]);
    let mask = vec![true, true, false];
    assert_eq!(johnson_cycle_search(&g, &mask, 0), vec![vec![0, 1]]);
}

#[test]
fn components_of_one_node_are_dropped() {
    let kept = nontrivial_components(vec![vec![3], vec![1, 2], vec![], vec![0, 4, 5]]);
    assert_eq!(kept, vec![vec![1, 2], vec![0, 4, 5]]);
}

#[test]
fn induced_edges_keep_selected_ends_only() {
    let g = graph(3, &[(0, 1), (0, 2), (1, 2), (2, 0)]);
    assert_eq!(induced_edge_list(&g, &vec![true, false, true]), vec![(0, 2), (2, 0)]);
}

#[test]
fn strong_components_come_from_the_selected_part() {
    let g = graph(4, &[(0, 1), (1, 0), (2, 3), (3, 2), (1, 2)]);
    assert_eq!(sorted(scc(&g, &vec![true; 4])), vec![vec![0, 1], vec![2, 3]]);
    assert_eq!(sorted(scc(&g, &vec![true, true, true, false])), vec![vec![0, 1]]);
}

#[test]
fn queue_is_worked_off_from_the_front() {
    let g = graph(4, &[(0, 1), (1, 0), (2, 3), (3, 2)]);
    let found = directed_cycle_search(&g, vec![vec![3, 2], vec![1, 0]]);
    assert_eq!(found, vec![vec![2, 3], vec![0, 1]]);
}

#[test]
fn simplify_drops_loops_and_repeats() {
    let g = graph(2, &[(0, 0), (0, 1), (0, 1), (1, 1), (1, 0)]);
    let s = simplify(&g);
    assert_eq!(s.succ, vec![vec![1], vec![0]]);
}
