use ecdysis::graph::{purge_institutionalized, StateGraph, Unmapped, ROOT};
use ecdysis::live::LiveGraph;
use std::collections::BTreeSet;

#[test]
fn empty_graph_unmaps_first_byte() {
    let g: StateGraph<f64> = StateGraph::new();
    assert_eq!(g.traverse(b"hi"), Err(Unmapped { offset: 0, byte: b'h' }));
}

#[test]
fn growth_then_traverse_succeeds() {
    let mut g: StateGraph<f64> = StateGraph::new();
    let n1 = g.grow(ROOT, b'h', 1.0);
    let n2 = g.grow(n1, b'i', 1.0);
    assert_eq!(g.traverse(b"hi"), Ok(n2));
}

#[test]
fn traverse_reports_offset_of_first_unmapped_byte() {
    let mut g: StateGraph<f64> = StateGraph::new();
    let n1 = g.grow(ROOT, b'a', 1.0);
    let _ = g.grow(n1, b'b', 1.0);
    assert_eq!(g.traverse(b"abz"), Err(Unmapped { offset: 2, byte: b'z' }));
}

#[test]
fn live_graph_swap_publishes_mutation_to_subsequent_readers() {
    let live: LiveGraph<f64> = LiveGraph::new();
    let before = live.load();
    assert_eq!(before.edge_count(), 0);

    live.mutate(|g| {
        g.grow(ROOT, b'q', 1.0);
    });

    let after = live.load();
    assert_eq!(after.edge_count(), 1);
    assert_eq!(before.edge_count(), 0);
}

#[test]
fn purge_removes_only_listed_edges() {
    let mut g: StateGraph<f64> = StateGraph::new();
    g.grow(ROOT, b'a', 1.0);
    g.grow(ROOT, b'b', 1.0);
    let mut set = BTreeSet::new();
    set.insert((ROOT, b'a'));
    let removed = purge_institutionalized(&mut g, &set);
    assert_eq!(removed, 1);
    assert!(g.edge(ROOT, b'a').is_none());
    assert!(g.edge(ROOT, b'b').is_some());
    assert_eq!(g.node_count(), 3);
}

#[test]
fn new_graph_maps_empty_input_to_root() {
    let g: StateGraph<u32> = StateGraph::new();
    assert_eq!(g.traverse(b""), Ok(ROOT));
    assert_eq!(g.node_count(), 1);
    assert_eq!(g.edge_count(), 0);
}

#[test]
fn grow_assigns_positional_ids_and_replaces_existing_edge() {
    let mut g: StateGraph<u32> = StateGraph::new();
    assert_eq!(g.grow(ROOT, b'x', 7), 1);
    assert_eq!(g.grow(ROOT, b'x', 9), 2);
    assert_eq!(g.edge_count(), 1);
    assert_eq!(g.node_count(), 3);
    let e = g.edge(ROOT, b'x').unwrap();
    assert_eq!(e.target, 2);
    assert_eq!(e.score, 9);
}

#[test]
fn set_score_keeps_target() {
    let mut g: StateGraph<u32> = StateGraph::new();
    let n = g.grow(ROOT, b'k', 1);
    assert!(g.set_score(ROOT, b'k', 5));
    assert!(!g.set_score(ROOT, b'z', 5));
    let e = g.edge(ROOT, b'k').unwrap();
    assert_eq!((e.target, e.score), (n, 5));
}

#[test]
fn walked_lists_edges_up_to_first_miss() {
    let mut g: StateGraph<u32> = StateGraph::new();
    let a = g.grow(ROOT, b'a', 0);
    let _b = g.grow(a, b'b', 0);
    assert_eq!(g.walked(b"abc"), vec![(ROOT, b'a'), (a, b'b')]);
    assert_eq!(g.walked(b"x"), vec![]);
}

#[test]
fn traverse_prefix_stops_at_length() {
    let mut g: StateGraph<u32> = StateGraph::new();
    let a = g.grow(ROOT, b'a', 0);
    assert_eq!(g.traverse_prefix(b"az", 1), Ok(a));
    assert_eq!(g.traverse_prefix(b"az", 2), Err(Unmapped { offset: 1, byte: b'z' }));
}

#[test]
fn edge_pairs_lists_every_edge_once() {
    let mut g: StateGraph<u32> = StateGraph::new();
    let a = g.grow(ROOT, b'a', 0);
    g.grow(a, b'b', 0);
    g.grow(ROOT, b'c', 0);
    let mut pairs = g.edge_pairs();
    pairs.sort();
    assert_eq!(pairs, vec![(ROOT, b'a'), (ROOT, b'c'), (a, b'b')]);
}

#[test]
fn remove_edge_returns_removed_edge() {
    let mut g: StateGraph<u32> = StateGraph::new();
    g.grow(ROOT, b'a', 3);
    let e = g.remove_edge(ROOT, b'a').unwrap();
    assert_eq!((e.target, e.score), (1, 3));
    assert!(g.remove_edge(ROOT, b'a').is_none());
    assert_eq!(g.edge_count(), 0);
}

#[test]
fn clone_is_independent_copy() {
    let mut g: StateGraph<f64> = StateGraph::new();
    let n1 = g.grow(ROOT, b'x', 0.5);
    let copy = g.clone();
    g.grow(n1, b'y', 0.5);
    assert_eq!(copy.node_count(), 2);
    assert_eq!(copy.edge_count(), 1);
    assert_eq!(copy.traverse(b"x"), Ok(n1));
    assert_eq!(copy.traverse(b"xy"), Err(Unmapped { offset: 1, byte: b'y' }));
    assert_eq!(g.edge_count(), 2);
}
