//! What the graph of nested epolls is for, stated of the calls themselves: which
//! interests are admitted, and why the others are not.

use crate::counting::{count, count_take_next};
use crate::fd::graph::{
    acyclic, ascent, ascent_bounds_paths, ascent_edges, chain, chains_are_short, connected,
    cycles_are_refused_exactly, descent, descent_bounds_chains, descent_edges, linked, one_step,
    parents_of, parents_of_members, paths_are_short, reachable, reachable_in_steps, search_edges,
    Edge,
    EpollGraph, EpollGraphState, GraphEdgeToken, GraphError, GraphNodeToken,
};
use crate::fd::types::EpollId;
use vstd::prelude::*;

verus! {

/// A path of `n` interests leads to `b`.
pub open spec fn reached(edges: Seq<Option<Edge>>, b: GraphNodeToken, n: nat) -> bool {
    exists|a: GraphNodeToken| #[trigger] reachable(edges, a, b, n)
}

/// A path of `above` interests leads to `parent`, and a chain of `below` starts at
/// the watched epoll, if one is watched.
pub open spec fn runs_through(
    edges: Seq<Option<Edge>>,
    parent: GraphNodeToken,
    child: Option<GraphNodeToken>,
    above: nat,
    below: nat,
) -> bool {
    &&& reached(edges, parent, above)
    &&& match child {
        Some(c) => chain(edges, c, below),
        None => below == 0,
    }
}

proof fn ascent_is_reached(edges: Seq<Option<Edge>>, current: GraphNodeToken, fuel: nat)
    ensures
        reached(edges, current, ascent(edges, current, fuel).0),
    decreases fuel, edges.len() + 1,
{
    ascent_edges_is_reached(edges, edges.len(), current, fuel);
}

proof fn ascent_edges_is_reached(
    edges: Seq<Option<Edge>>,
    n: nat,
    current: GraphNodeToken,
    fuel: nat,
)
    requires
        n <= edges.len(),
    ensures
        reached(edges, current, ascent_edges(edges, n, current, fuel).0),
    decreases fuel, n,
{
    if n == 0 {
        assert(reachable(edges, current, current, 0));
    } else {
        ascent_edges_is_reached(edges, (n - 1) as nat, current, fuel);
        if edges[n - 1] is Some && edges[n - 1]->0.child == Some(current) && fuel > 0 {
            let p = edges[n - 1]->0.parent;
            ascent_is_reached(edges, p, (fuel - 1) as nat);
            let k = ascent(edges, p, (fuel - 1) as nat).0;
            let a = choose|a: GraphNodeToken| #[trigger] reachable(edges, a, p, k);
            assert(linked(edges, p, current));
            one_step(edges, p, current);
            reachable_in_steps(edges, a, p, current, k, 1);
            assert(reached(edges, current, k + 1));
        }
    }
}

proof fn descent_is_reached(edges: Seq<Option<Edge>>, current: GraphNodeToken, fuel: nat)
    ensures
        chain(edges, current, descent(edges, current, fuel).0),
    decreases fuel, edges.len() + 1,
{
    descent_edges_is_reached(edges, edges.len(), current, fuel);
}

proof fn descent_edges_is_reached(
    edges: Seq<Option<Edge>>,
    n: nat,
    current: GraphNodeToken,
    fuel: nat,
)
    requires
        n <= edges.len(),
    ensures
        chain(edges, current, descent_edges(edges, n, current, fuel).0),
    decreases fuel, n,
{
    if n > 0 {
        descent_edges_is_reached(edges, (n - 1) as nat, current, fuel);
        if edges[n - 1] is Some && edges[n - 1]->0.parent == current {
            match edges[n - 1]->0.child {
                Some(c) => {
                    if fuel > 0 {
                        descent_is_reached(edges, c, (fuel - 1) as nat);
                        let m = descent(edges, c, (fuel - 1) as nat).0;
                        assert(edges[n - 1] is Some);
                        assert(chain(edges, current, m + 1));
                    }
                },
                None => {
                    assert(edges[n - 1] is Some);
                    assert(chain(edges, current, 1));
                },
            }
        }
    }
}

/// An admitted interest joins two registered epolls, or an epoll and a leaf; the
/// watched epoll does not already lead back to the watching one; no chain through
/// the interest is longer than allowed; and the watched epoll has no more parents
/// than allowed. Nothing else changes, and the graph has no cycle.
pub proof fn admitted_interests_close_no_cycle(
    graph: &mut EpollGraph,
    parent: GraphNodeToken,
    child: Option<GraphNodeToken>,
    result: Result<GraphEdgeToken, GraphError>,
    above: nat,
    below: nat,
    slot: int,
)
    requires
        old(graph).wf(),
        call_ensures(EpollGraph::add_interest, (graph, parent, child), result),
        0 <= slot < old(graph)@.edges.len(),
    ensures
        result matches Ok(token) ==> {
            let at = token.slot() as int;
            &&& old(graph)@.registered(parent)
            &&& child matches Some(c) ==> old(graph)@.registered(c) && !connected(
                old(graph)@.edges,
                c,
                parent,
            )
            &&& runs_through(old(graph)@.edges, parent, child, above, below) ==> above + 1 + below
                <= old(graph)@.limits.max_nesting()
            &&& child matches Some(c) ==> linked(old(graph)@.edges, parent, c) || parents_of(
                old(graph)@.edges,
                c,
            ).len() < old(graph)@.limits.max_parents_per_node()
            &&& old(graph)@.edges[at] is None
            &&& final(graph)@.edges[at] matches Some(edge)
            &&& edge.parent == parent && edge.child == child && edge.generation
                == token.generation()
            &&& slot != at ==> final(graph)@.edges[slot] == old(graph)@.edges[slot]
            &&& final(graph)@.nodes == old(graph)@.nodes
            &&& acyclic(final(graph)@.edges)
        },
        result is Err ==> final(graph)@ == old(graph)@,
{
    let state = old(graph)@;
    if result is Ok {
        if child is Some {
            cycles_are_refused_exactly(state, parent, child->0);
            parents_of_members(state.edges, child->0);
        }
        if runs_through(state.edges, parent, child, above, below) {
            interests_fit(state, parent, child, above, below);
        }
    }
}

/// An edge names registered epolls at both ends.
proof fn interests_fit(
    state: EpollGraphState,
    parent: GraphNodeToken,
    child: Option<GraphNodeToken>,
    above: nat,
    below: nat,
)
    requires
        state.wf(),
        state.registered(parent),
        child is Some ==> state.registered(child->0),
        runs_through(state.edges, parent, child, above, below),
    ensures
        above + 1 + below <= state.nesting(parent, child),
{
    let fuel = state.nodes.len();
    let a = choose|a: GraphNodeToken| #[trigger] reachable(state.edges, a, parent, above);
    if above > 0 {
        let c = choose|c: GraphNodeToken| #[trigger]
            linked(state.edges, a, c) && reachable(state.edges, c, parent, (above - 1) as nat);
        let i = choose|i: int|
            0 <= i < state.edges.len() && (#[trigger] state.edges[i]) is Some
                && state.edges[i]->0.parent == a && state.edges[i]->0.child == Some(c);
        assert(state.edges[i] is Some);
        assert(state.registered(a));
        paths_are_short(state, a, parent, above);
    }
    ascent_bounds_paths(state.edges, a, parent, fuel, above);
    match child {
        Some(c) => {
            assert(reachable(state.edges, c, c, 0));
            chains_are_short(state, c, c, 0, below);
            descent_bounds_chains(state.edges, c, fuel, below);
        },
        None => {},
    }
}

/// An interest is refused for a reason that holds: an end that is not registered,
/// an epoll that would watch itself, directly or through others, a chain that
/// would be too long, parents that would be too many, or no room for it.
pub proof fn refused_interests_have_a_reason(
    graph: &mut EpollGraph,
    parent: GraphNodeToken,
    child: Option<GraphNodeToken>,
    result: Result<GraphEdgeToken, GraphError>,
    slot: int,
)
    requires
        old(graph).wf(),
        call_ensures(EpollGraph::add_interest, (graph, parent, child), result),
        0 <= slot < old(graph)@.edges.len(),
    ensures
        result == Err::<GraphEdgeToken, GraphError>(GraphError::StaleToken) <==> !old(
            graph,
        )@.registered(parent) || (child is Some && !old(graph)@.registered(child->0)),
        result == Err::<GraphEdgeToken, GraphError>(GraphError::SelfCycle) <==> old(
            graph,
        )@.registered(parent) && child == Some(parent),
        result == Err::<GraphEdgeToken, GraphError>(GraphError::Cycle) ==> child is Some
            && connected(old(graph)@.edges, child->0, parent),
        result == Err::<GraphEdgeToken, GraphError>(GraphError::Nesting) ==> exists|
            above: nat,
            below: nat,
        | #[trigger]
            runs_through(old(graph)@.edges, parent, child, above, below) && above + 1 + below > old(
                graph,
            )@.limits.max_nesting(),
        result == Err::<GraphEdgeToken, GraphError>(GraphError::ParentLimit) ==> child is Some
            && !linked(old(graph)@.edges, parent, child->0) && parents_of(
            old(graph)@.edges,
            child->0,
        ).len() >= old(graph)@.limits.max_parents_per_node(),
        result == Err::<GraphEdgeToken, GraphError>(GraphError::Capacity) ==> old(
            graph,
        )@.edges[slot] is Some,
        result == Err::<GraphEdgeToken, GraphError>(GraphError::GenerationExhausted) ==> old(
            graph,
        )@.next_generation == 0xffff_ffff_ffff_ffffu64,
        result is Err ==> {
            let error = result->Err_0;
            error == GraphError::StaleToken || error == GraphError::SelfCycle || error
                == GraphError::Cycle || error == GraphError::Nesting || error
                == GraphError::ParentLimit || error == GraphError::Capacity || error
                == GraphError::GenerationExhausted || error == GraphError::WalkLimit
        },
{
    let state = old(graph)@;
    if state.registered(parent) && (child is Some ==> state.registered(child->0)) {
        if child is Some {
            cycles_are_refused_exactly(state, parent, child->0);
            parents_of_members(state.edges, child->0);
        }
        let fuel = state.nodes.len();
        ascent_is_reached(state.edges, parent, fuel);
        let above = ascent(state.edges, parent, fuel).0;
        let below = match child {
            Some(c) => descent(state.edges, c, fuel).0,
            None => 0,
        };
        if child is Some {
            descent_is_reached(state.edges, child->0, fuel);
        }
        assert(runs_through(state.edges, parent, child, above, below));
    }
}

/// The first interest of a graph is admitted within three steps of walking.
pub proof fn first_interests_are_admitted(
    graph: &mut EpollGraph,
    parent: GraphNodeToken,
    child: Option<GraphNodeToken>,
    result: Result<GraphEdgeToken, GraphError>,
)
    requires
        old(graph).wf(),
        call_ensures(EpollGraph::add_interest, (graph, parent, child), result),
        old(graph)@.registered(parent),
        child matches Some(c) ==> old(graph)@.registered(c) && c != parent,
        forall|i: int| 0 <= i < old(graph)@.edges.len() ==> (#[trigger] old(graph)@.edges[i]) is None,
        old(graph)@.edges.len() > 0,
        old(graph)@.limits.max_walk_steps() >= 3,
        old(graph)@.limits.max_nesting() >= 1,
        old(graph)@.limits.max_parents_per_node() >= 1,
        old(graph)@.next_generation < 0xffff_ffff_ffff_ffffu64,
    ensures
        result is Ok,
{
    let state = old(graph)@;
    let fuel = state.nodes.len();
    assert(state.edges[0] is None);
    empty_walks(state.edges, state.edges.len(), parent, parent, fuel);
    if child is Some {
        empty_walks(state.edges, state.edges.len(), child->0, parent, fuel);
        parents_of_members(state.edges, child->0);
        assert(parents_of(state.edges, child->0) =~= Set::<GraphNodeToken>::empty()) by {
            assert forall|p: GraphNodeToken| !parents_of(state.edges, child->0).contains(p) by {
                assert(!linked(state.edges, p, child->0));
            }
        }
    }
}

proof fn empty_walks(
    edges: Seq<Option<Edge>>,
    n: nat,
    current: GraphNodeToken,
    target: GraphNodeToken,
    fuel: nat,
)
    requires
        n <= edges.len(),
        forall|i: int| 0 <= i < edges.len() ==> (#[trigger] edges[i]) is None,
    ensures
        ascent_edges(edges, n, current, fuel) == (0nat, 0nat),
        descent_edges(edges, n, current, fuel) == (0nat, 0nat),
        search_edges(edges, n, current, target, fuel) == (false, 0nat),
    decreases n,
{
    if n > 0 {
        empty_walks(edges, (n - 1) as nat, current, target, fuel);
        assert(edges[n - 1] is None);
    }
}

/// An epoll is registered once, in a free slot, and can leave when no interest
/// names it; a removed interest is gone and so is its token.
pub proof fn registrations_come_and_go(
    a: &mut EpollGraph,
    epoll: EpollId,
    registered: Result<GraphNodeToken, GraphError>,
    b: &mut EpollGraph,
    node: GraphNodeToken,
    unregistered: Result<(), GraphError>,
    c: &mut EpollGraph,
    edge: GraphEdgeToken,
    removed: Result<(), GraphError>,
    i: int,
)
    requires
        old(a).wf(),
        old(b).wf(),
        old(c).wf(),
        call_ensures(EpollGraph::register, (a, epoll), registered),
        call_ensures(EpollGraph::unregister, (b, node), unregistered),
        call_ensures(EpollGraph::remove_interest, (c, edge), removed),
    ensures
        registered matches Ok(token) ==> {
            &&& token.epoll() == epoll
            &&& old(a)@.nodes[token.slot() as int] is None
            &&& final(a)@.nodes[token.slot() as int] matches Some(entry) && entry.epoll == epoll
                && entry.generation == token.generation()
            &&& 0 <= i < old(a)@.nodes.len() && i != token.slot() ==> final(a)@.nodes[i] == old(
                a,
            )@.nodes[i]
            &&& final(a)@.edges == old(a)@.edges
        },
        (0 <= i < old(a)@.nodes.len() && (old(a)@.nodes[i] matches Some(entry) && entry.epoll
            == epoll)) ==> registered == Err::<GraphNodeToken, GraphError>(
            GraphError::DuplicateNode,
        ),
        registered is Err && 0 <= i < old(a)@.nodes.len() && old(a)@.nodes[i] is None
            ==> registered->Err_0 == GraphError::DuplicateNode || old(a)@.next_generation
            == 0xffff_ffff_ffff_ffffu64,
        registered == Err::<GraphNodeToken, GraphError>(GraphError::DuplicateNode) ==> exists|j: int|
            0 <= j < old(a)@.nodes.len() && (#[trigger] old(a)@.nodes[j]) is Some && old(
                a,
            )@.nodes[j]->0.epoll == epoll,
        unregistered is Ok ==> final(b)@.nodes[node.slot() as int] is None && final(b)@.edges == old(
            b,
        )@.edges,
        unregistered is Ok && 0 <= i < old(b)@.edges.len() ==> (old(b)@.edges[i] matches Some(e)
            ==> e.parent != node && e.child != Some(node)),
        unregistered == Err::<(), GraphError>(GraphError::Busy) ==> exists|j: int|
            0 <= j < old(b)@.edges.len() && (#[trigger] old(b)@.edges[j]) is Some && (old(
                b,
            )@.edges[j]->0.parent == node || old(b)@.edges[j]->0.child == Some(node)),
        unregistered is Err ==> final(b)@ == old(b)@,
        removed is Ok ==> final(c)@.edges[edge.slot() as int] is None && (old(
            c,
        )@.edges[edge.slot() as int] matches Some(e) && e.generation == edge.generation()) && final(
            c)@.nodes == old(c)@.nodes,
        0 <= i < old(c)@.edges.len() && i != edge.slot() ==> final(c)@.edges[i] == old(c)@.edges[i],
        removed is Err ==> final(c)@ == old(c)@,
{
}

/// The parents of an epoll are the distinct epolls that watch it.
pub proof fn parents_are_the_watching_epolls(
    graph: EpollGraph,
    node: GraphNodeToken,
    result: Result<usize, GraphError>,
    parents: Set<GraphNodeToken>,
)
    requires
        graph.wf(),
        call_ensures(EpollGraph::parent_count, (&graph, node), result),
        forall|p: GraphNodeToken| #[trigger]
            parents.contains(p) <==> linked(graph@.edges, p, node),
    ensures
        result is Ok <==> graph@.registered(node),
        result matches Ok(count) ==> parents.finite() && count == parents.len(),
{
    parents_of_members(graph@.edges, node);
    assert(parents =~= parents_of(graph@.edges, node));
}

/// Every walk examines every interest once at least, so an interest is admitted
/// only where the steps allowed are enough for that.
pub proof fn admitted_interests_fit_the_walk_limit(
    graph: &mut EpollGraph,
    parent: GraphNodeToken,
    child: Option<GraphNodeToken>,
    result: Result<GraphEdgeToken, GraphError>,
    edges: usize,
)
    requires
        old(graph).wf(),
        call_ensures(EpollGraph::edge_count, (old(graph),), edges),
        call_ensures(EpollGraph::add_interest, (graph, parent, child), result),
        result is Ok,
    ensures
        child is None ==> 1 + edges <= old(graph)@.limits.max_walk_steps(),
        child is Some ==> 3 * (1 + edges) <= old(graph)@.limits.max_walk_steps(),
{
    let state = old(graph)@;
    let n = state.edges.len();
    let fuel = state.nodes.len();
    assert(state.edges.take(n as int) =~= state.edges);
    walks_examine_every_edge(state.edges, n, parent, parent, fuel);
    if child is Some {
        walks_examine_every_edge(state.edges, n, child->0, parent, fuel);
    }
}

proof fn walks_examine_every_edge(
    edges: Seq<Option<Edge>>,
    n: nat,
    current: GraphNodeToken,
    target: GraphNodeToken,
    fuel: nat,
)
    requires
        n <= edges.len(),
    ensures
        ascent_edges(edges, n, current, fuel).1 >= count(
            edges.take(n as int),
            |edge: Option<Edge>| edge is Some,
        ),
        descent_edges(edges, n, current, fuel).1 >= count(
            edges.take(n as int),
            |edge: Option<Edge>| edge is Some,
        ),
        !search_edges(edges, n, current, target, fuel).0 ==> search_edges(
            edges,
            n,
            current,
            target,
            fuel,
        ).1 >= count(edges.take(n as int), |edge: Option<Edge>| edge is Some),
    decreases n,
{
    if n == 0 {
        assert(edges.take(0) =~= Seq::<Option<Edge>>::empty());
    } else {
        walks_examine_every_edge(edges, (n - 1) as nat, current, target, fuel);
        count_take_next(edges, n - 1, |edge: Option<Edge>| edge is Some);
    }
}

} // verus!
