use thekernel_linux_abi::fd::{EpollGraph, EpollGraphId, EpollGraphLimits, EpollId, GraphError};

fn graph_id(raw: u64) -> EpollGraphId {
    EpollGraphId::new(raw).unwrap()
}

fn epoll_id(raw: u64) -> EpollId {
    EpollId::new(raw).unwrap()
}

fn limits(nodes: usize, edges: usize, parents: usize, nesting: usize) -> EpollGraphLimits {
    EpollGraphLimits::try_new(nodes, edges, parents, nesting, 512).unwrap()
}

#[test]
fn zero_capacity_and_unbounded_configuration_are_honest() {
    assert_eq!(
        EpollGraphLimits::try_new(usize::MAX, 0, 0, 0, 0),
        Err(GraphError::Unbounded)
    );
    let mut graph = EpollGraph::try_new(graph_id(1), limits(0, 0, 0, 0)).unwrap();
    assert_eq!(graph.register(epoll_id(1)), Err(GraphError::Capacity));
}

#[test]
fn cycle_and_nesting_are_rejected_before_publication() {
    let mut graph = EpollGraph::try_new(graph_id(1), limits(5, 8, 4, 3)).unwrap();
    let a = graph.register(epoll_id(1)).unwrap();
    let b = graph.register(epoll_id(2)).unwrap();
    let c = graph.register(epoll_id(3)).unwrap();
    let d = graph.register(epoll_id(4)).unwrap();

    graph.add_interest(a, Some(b)).unwrap();
    graph.add_interest(b, Some(c)).unwrap();
    assert_eq!(graph.add_interest(c, Some(a)), Err(GraphError::Cycle));
    assert_eq!(graph.edge_count(), 2);

    graph.add_interest(c, Some(d)).unwrap();
    assert_eq!(graph.add_interest(d, None), Err(GraphError::Nesting));
    assert_eq!(graph.edge_count(), 3);
}

#[test]
fn adding_a_parent_revalidates_existing_child_depth() {
    let mut graph = EpollGraph::try_new(graph_id(1), limits(5, 8, 4, 3)).unwrap();
    let root = graph.register(epoll_id(1)).unwrap();
    let middle = graph.register(epoll_id(2)).unwrap();
    let leaf_owner = graph.register(epoll_id(3)).unwrap();

    graph.add_interest(middle, Some(leaf_owner)).unwrap();
    graph.add_interest(leaf_owner, None).unwrap();
    graph.add_interest(root, Some(middle)).unwrap();

    let outer = graph.register(epoll_id(4)).unwrap();
    assert_eq!(
        graph.add_interest(outer, Some(root)),
        Err(GraphError::Nesting)
    );
}

#[test]
fn reverse_parent_limit_counts_unique_parents_not_duplicate_edges() {
    let mut graph = EpollGraph::try_new(graph_id(1), limits(4, 8, 1, 4)).unwrap();
    let first = graph.register(epoll_id(1)).unwrap();
    let second = graph.register(epoll_id(2)).unwrap();
    let child = graph.register(epoll_id(3)).unwrap();

    let first_edge = graph.add_interest(first, Some(child)).unwrap();
    let duplicate = graph.add_interest(first, Some(child)).unwrap();
    assert_eq!(graph.parent_count(child), Ok(1));
    assert_eq!(
        graph.add_interest(second, Some(child)),
        Err(GraphError::ParentLimit)
    );

    graph.remove_interest(first_edge).unwrap();
    assert_eq!(graph.parent_count(child), Ok(1));
    graph.remove_interest(duplicate).unwrap();
    assert_eq!(graph.parent_count(child), Ok(0));
    graph.add_interest(second, Some(child)).unwrap();
}

#[test]
fn unregister_requires_all_forward_and_reverse_edges_to_be_removed() {
    let mut graph = EpollGraph::try_new(graph_id(1), limits(3, 3, 2, 3)).unwrap();
    let parent = graph.register(epoll_id(1)).unwrap();
    let child = graph.register(epoll_id(2)).unwrap();
    let edge = graph.add_interest(parent, Some(child)).unwrap();

    assert_eq!(graph.unregister(parent), Err(GraphError::Busy));
    assert_eq!(graph.unregister(child), Err(GraphError::Busy));
    graph.remove_interest(edge).unwrap();
    graph.unregister(parent).unwrap();
    graph.unregister(child).unwrap();
}

#[test]
fn stale_and_foreign_edge_tokens_cannot_remove_reused_edges() {
    let mut first = EpollGraph::try_new(graph_id(1), limits(2, 1, 1, 2)).unwrap();
    let parent = first.register(epoll_id(1)).unwrap();
    let edge = first.add_interest(parent, None).unwrap();
    first.remove_interest(edge).unwrap();
    let replacement = first.add_interest(parent, None).unwrap();
    assert_eq!(first.remove_interest(edge), Err(GraphError::StaleToken));

    let mut second = EpollGraph::try_new(graph_id(2), limits(1, 1, 1, 1)).unwrap();
    let other = second.register(epoll_id(2)).unwrap();
    let foreign = second.add_interest(other, None).unwrap();
    assert_eq!(first.remove_interest(foreign), Err(GraphError::StaleToken));
    first.remove_interest(replacement).unwrap();
}

#[test]
fn graph_walk_budget_fails_closed_without_publication() {
    let limits = EpollGraphLimits::try_new(3, 3, 2, 3, 0).unwrap();
    let mut graph = EpollGraph::try_new(graph_id(1), limits).unwrap();
    let parent = graph.register(epoll_id(1)).unwrap();
    assert_eq!(graph.add_interest(parent, None), Err(GraphError::WalkLimit));
    assert_eq!(graph.edge_count(), 0);
}
