use praborrow::WaitForGraph;

fn deadlocked() -> WaitForGraph {
    let mut g = WaitForGraph::new();
    g.add_wait(1, 200);
    g.add_wait(200, 2);
    g.add_wait(2, 100);
    g.add_wait(100, 1);
    g
}

#[test]
fn empty_graph_has_no_cycle() {
    let g = WaitForGraph::new();
    assert!(!g.detect_cycle());
    assert_eq!(g.find_cycle_path(), None);
}

#[test]
fn four_node_wait_chain_is_a_deadlock() {
    let g = deadlocked();
    assert!(g.detect_cycle());
    assert_eq!(g.find_cycle_path(), Some(vec![1, 200, 2, 100]));
}

#[test]
fn removing_any_cycle_edge_clears_the_deadlock() {
    let edges = [(1u128, 200u128), (200, 2), (2, 100), (100, 1)];
    for (from, to) in edges {
        let mut g = deadlocked();
        g.remove_wait(from, to);
        assert!(!g.detect_cycle());
        assert_eq!(g.find_cycle_path(), None);
        assert!(!g.has_wait(from, to));
    }
}

#[test]
fn unrelated_chain_does_not_hide_the_cycle() {
    let mut g = WaitForGraph::new();
    g.add_wait(5, 6);
    g.add_wait(6, 7);
    assert!(!g.detect_cycle());
    g.add_wait(1, 200);
    g.add_wait(200, 2);
    g.add_wait(2, 100);
    g.add_wait(100, 1);
    assert!(g.detect_cycle());
    assert_eq!(g.find_cycle_path(), Some(vec![1, 200, 2, 100]));
}

#[test]
fn adding_an_edge_twice_adds_it_once() {
    let mut g = WaitForGraph::new();
    g.add_wait(3, 4);
    g.add_wait(3, 4);
    assert!(g.has_wait(3, 4));
    g.remove_wait(3, 4);
    assert!(!g.has_wait(3, 4));
}

#[test]
fn removing_a_missing_edge_changes_nothing() {
    let mut g = deadlocked();
    g.remove_wait(7, 8);
    g.remove_wait(200, 1);
    assert!(g.detect_cycle());
    assert!(g.has_wait(1, 200));
}

#[test]
fn self_wait_is_a_cycle() {
    let mut g = WaitForGraph::new();
    g.add_wait(9, 9);
    assert_eq!(g.find_cycle_path(), Some(vec![9]));
}

#[test]
fn diamond_without_back_edge_is_acyclic() {
    let mut g = WaitForGraph::new();
    g.add_wait(1, 2);
    g.add_wait(1, 3);
    g.add_wait(2, 4);
    g.add_wait(3, 4);
    assert!(!g.detect_cycle());
    g.add_wait(4, 1);
    assert!(g.detect_cycle());
    let path = g.find_cycle_path().unwrap();
    assert_eq!(path, vec![1, 2, 4]);
}
