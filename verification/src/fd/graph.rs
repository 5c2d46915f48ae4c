use crate::allocation::{allocation_granted, allocation_refused, reserved};
use crate::counting::{count, count_take_next};
use crate::fd::types::{EpollGraphId, EpollId};
use vstd::prelude::*;

verus! {

/// Immutable finite limits for one externally serialized epoll graph domain.
#[derive(Debug, Clone, Copy, PartialEq, Eq, Structural)]
pub struct EpollGraphLimits {
    pub(crate) node_capacity: usize,
    pub(crate) edge_capacity: usize,
    pub(crate) max_parents_per_node: usize,
    pub(crate) max_nesting: usize,
    pub(crate) max_walk_steps: usize,
}

impl EpollGraphLimits {
    /// Every limit is finite.
    #[verifier::type_invariant]
    pub(crate) open spec fn finite(self) -> bool {
        &&& self.node_capacity < usize::MAX
        &&& self.edge_capacity < usize::MAX
        &&& self.max_parents_per_node < usize::MAX
        &&& self.max_nesting < usize::MAX
        &&& self.max_walk_steps < usize::MAX
    }

    /// Creates finite graph, reverse-parent, nesting, and walk limits.
    ///
    /// Zero is a valid honest capacity. `usize::MAX` is rejected for every
    /// field rather than being exposed as an accidental unlimited policy.
    pub fn try_new(
        node_capacity: usize,
        edge_capacity: usize,
        max_parents_per_node: usize,
        max_nesting: usize,
        max_walk_steps: usize,
    ) -> (result: Result<Self, GraphError>)
        ensures
            match result {
                Ok(limits) => {
                    &&& limits.node_capacity() == node_capacity < usize::MAX
                    &&& limits.edge_capacity() == edge_capacity < usize::MAX
                    &&& limits.max_parents_per_node() == max_parents_per_node < usize::MAX
                    &&& limits.max_nesting() == max_nesting < usize::MAX
                    &&& limits.max_walk_steps() == max_walk_steps < usize::MAX
                },
                Err(error) => {
                    &&& error == GraphError::Unbounded
                    &&& node_capacity == usize::MAX || edge_capacity == usize::MAX
                        || max_parents_per_node == usize::MAX || max_nesting == usize::MAX
                        || max_walk_steps == usize::MAX
                },
            },
    {
        if node_capacity == usize::MAX || edge_capacity == usize::MAX || max_parents_per_node
            == usize::MAX || max_nesting == usize::MAX || max_walk_steps == usize::MAX {
            return Err(GraphError::Unbounded);
        }
        Ok(
            Self {
                node_capacity,
                edge_capacity,
                max_parents_per_node,
                max_nesting,
                max_walk_steps,
            },
        )
    }

    /// Maximum simultaneously registered epoll instances.
    #[verifier::when_used_as_spec(spec_node_capacity)]
    pub fn node_capacity(self) -> (result: usize)
        ensures
            result == self.spec_node_capacity(),
    {
        self.node_capacity
    }

    /// Specification counterpart of [`Self::node_capacity`].
    pub open(crate) spec fn spec_node_capacity(self) -> usize {
        self.node_capacity
    }

    /// Maximum simultaneously published interests in the graph domain.
    #[verifier::when_used_as_spec(spec_edge_capacity)]
    pub fn edge_capacity(self) -> (result: usize)
        ensures
            result == self.spec_edge_capacity(),
    {
        self.edge_capacity
    }

    /// Specification counterpart of [`Self::edge_capacity`].
    pub open(crate) spec fn spec_edge_capacity(self) -> usize {
        self.edge_capacity
    }

    /// Maximum distinct epoll parents of one child epoll.
    #[verifier::when_used_as_spec(spec_max_parents_per_node)]
    pub fn max_parents_per_node(self) -> (result: usize)
        ensures
            result == self.spec_max_parents_per_node(),
    {
        self.max_parents_per_node
    }

    /// Specification counterpart of [`Self::max_parents_per_node`].
    pub open(crate) spec fn spec_max_parents_per_node(self) -> usize {
        self.max_parents_per_node
    }

    /// Maximum epoll-to-leaf path length.
    #[verifier::when_used_as_spec(spec_max_nesting)]
    pub fn max_nesting(self) -> (result: usize)
        ensures
            result == self.spec_max_nesting(),
    {
        self.max_nesting
    }

    /// Specification counterpart of [`Self::max_nesting`].
    pub open(crate) spec fn spec_max_nesting(self) -> usize {
        self.max_nesting
    }

    /// Maximum graph nodes/edges examined by one publication attempt.
    #[verifier::when_used_as_spec(spec_max_walk_steps)]
    pub fn max_walk_steps(self) -> (result: usize)
        ensures
            result == self.spec_max_walk_steps(),
    {
        self.max_walk_steps
    }

    /// Specification counterpart of [`Self::max_walk_steps`].
    pub open(crate) spec fn spec_max_walk_steps(self) -> usize {
        self.max_walk_steps
    }
}

/// Generation-tagged registration of one epoll instance in a graph domain.
#[derive(Debug, Clone, Copy, PartialEq, Eq, Hash, Structural)]
pub struct GraphNodeToken {
    pub(crate) graph: EpollGraphId,
    pub(crate) slot: usize,
    pub(crate) generation: u64,
    pub(crate) epoll: EpollId,
}

impl GraphNodeToken {
    /// Returns the graph domain that issued the token.
    #[verifier::when_used_as_spec(spec_graph)]
    pub fn graph(self) -> (result: EpollGraphId)
        ensures
            result == self.spec_graph(),
    {
        self.graph
    }

    /// Specification counterpart of [`Self::graph`].
    pub open(crate) spec fn spec_graph(self) -> EpollGraphId {
        self.graph
    }

    /// Returns the registered epoll instance identity.
    #[verifier::when_used_as_spec(spec_epoll)]
    pub fn epoll(self) -> (result: EpollId)
        ensures
            result == self.spec_epoll(),
    {
        self.epoll
    }

    /// Specification counterpart of [`Self::epoll`].
    pub open(crate) spec fn spec_epoll(self) -> EpollId {
        self.epoll
    }

    /// Returns the opaque registration generation.
    #[verifier::when_used_as_spec(spec_generation)]
    pub fn generation(self) -> (result: u64)
        ensures
            result == self.spec_generation(),
    {
        self.generation
    }

    /// Specification counterpart of [`Self::generation`].
    pub open(crate) spec fn spec_generation(self) -> u64 {
        self.generation
    }

    /// Slot of the registration.
    pub open(crate) spec fn slot(self) -> usize {
        self.slot
    }
}

/// Generation-tagged ownership of one epoll-to-object interest edge.
#[derive(Debug, Clone, Copy, PartialEq, Eq, Hash, Structural)]
pub struct GraphEdgeToken {
    pub(crate) graph: EpollGraphId,
    pub(crate) slot: usize,
    pub(crate) generation: u64,
}

impl GraphEdgeToken {
    /// Returns the graph domain that issued the token.
    #[verifier::when_used_as_spec(spec_graph)]
    pub fn graph(self) -> (result: EpollGraphId)
        ensures
            result == self.spec_graph(),
    {
        self.graph
    }

    /// Specification counterpart of [`Self::graph`].
    pub open(crate) spec fn spec_graph(self) -> EpollGraphId {
        self.graph
    }

    /// Returns the opaque edge generation.
    #[verifier::when_used_as_spec(spec_generation)]
    pub fn generation(self) -> (result: u64)
        ensures
            result == self.spec_generation(),
    {
        self.generation
    }

    /// Specification counterpart of [`Self::generation`].
    pub open(crate) spec fn spec_generation(self) -> u64 {
        self.generation
    }

    /// Slot of the edge.
    pub open(crate) spec fn slot(self) -> usize {
        self.slot
    }
}

/// Epoll graph operation failure before Linux errno mapping.
#[derive(Debug, Clone, Copy, PartialEq, Eq, Structural)]
#[non_exhaustive]
pub enum GraphError {
    /// A configured field used `usize::MAX` as an accidental unlimited value.
    Unbounded,
    /// Fallible fixed storage reservation failed.
    NoMemory,
    /// Node or edge storage has reached its admitted capacity.
    Capacity,
    /// The epoll identity is already registered in this graph.
    DuplicateNode,
    /// The exact node still owns outgoing or incoming interests.
    Busy,
    /// A node or edge token is foreign, removed, or from an older generation.
    StaleToken,
    /// An epoll attempted to directly watch itself.
    SelfCycle,
    /// The proposed edge would introduce a directed cycle.
    Cycle,
    /// The proposed edge would exceed the configured path nesting limit.
    Nesting,
    /// The child already has the maximum number of distinct epoll parents.
    ParentLimit,
    /// Validation exhausted its explicit graph-walk work budget.
    WalkLimit,
    /// No future unique registration or edge generation can be issued.
    GenerationExhausted,
}

/// One registered epoll instance.
#[derive(Debug, Clone, Copy)]
pub struct Node {
    /// Registered epoll identity.
    pub epoll: EpollId,
    /// Generation of the registration.
    pub generation: u64,
}

/// One published interest of an epoll in a child epoll or in a leaf.
#[derive(Debug, Clone, Copy)]
pub struct Edge {
    /// Generation of the interest.
    pub generation: u64,
    /// Watching epoll.
    pub parent: GraphNodeToken,
    /// Watched epoll, or `None` for a leaf.
    pub child: Option<GraphNodeToken>,
}

/// Some edge leads from `a` to the epoll `b`.
pub open spec fn linked(edges: Seq<Option<Edge>>, a: GraphNodeToken, b: GraphNodeToken) -> bool {
    exists|i: int|
        0 <= i < edges.len() && (#[trigger] edges[i]) is Some && edges[i]->0.parent == a
            && edges[i]->0.child == Some(b)
}

/// `b` can be reached from `a` along exactly `n` edges.
pub open spec fn reachable(
    edges: Seq<Option<Edge>>,
    a: GraphNodeToken,
    b: GraphNodeToken,
    n: nat,
) -> bool
    decreases n,
{
    if n == 0 {
        a == b
    } else {
        exists|c: GraphNodeToken| #[trigger]
            linked(edges, a, c) && reachable(edges, c, b, (n - 1) as nat)
    }
}

/// `b` can be reached from `a`.
pub open spec fn connected(
    edges: Seq<Option<Edge>>,
    a: GraphNodeToken,
    b: GraphNodeToken,
) -> bool {
    exists|n: nat| #[trigger] reachable(edges, a, b, n)
}

/// No epoll watches itself, directly or through others.
pub open spec fn acyclic(edges: Seq<Option<Edge>>) -> bool {
    forall|a: GraphNodeToken, n: nat| n > 0 ==> !#[trigger] reachable(edges, a, a, n)
}

/// A chain of `n` interests starts at `a`. Only its last interest may watch a
/// leaf.
pub open spec fn chain(edges: Seq<Option<Edge>>, a: GraphNodeToken, n: nat) -> bool
    decreases n,
{
    n == 0 || exists|i: int|
        0 <= i < edges.len() && (#[trigger] edges[i]) is Some && edges[i]->0.parent == a && (
        match edges[i]->0.child {
            Some(c) => chain(edges, c, (n - 1) as nat),
            None => n == 1,
        })
}

/// The distinct epolls that watch `child`.
pub open spec fn parents_of(edges: Seq<Option<Edge>>, child: GraphNodeToken) -> Set<GraphNodeToken>
    decreases edges.len(),
{
    if edges.len() == 0 {
        Set::empty()
    } else {
        let before = parents_of(edges.drop_last(), child);
        match edges.last() {
            Some(edge) => if edge.child == Some(child) {
                before.insert(edge.parent)
            } else {
                before
            },
            None => before,
        }
    }
}

/// Depth-first search for `target` from `current`: whether it is found, and how
/// many nodes and edges are examined until then.
pub open spec fn search(
    edges: Seq<Option<Edge>>,
    current: GraphNodeToken,
    target: GraphNodeToken,
    fuel: nat,
) -> (bool, nat)
    decreases fuel, edges.len() + 1,
{
    if current == target {
        (true, 1)
    } else {
        let (found, steps) = search_edges(edges, edges.len(), current, target, fuel);
        (found, steps + 1)
    }
}

/// The part of [`search`] that examines the first `n` edge slots.
pub open spec fn search_edges(
    edges: Seq<Option<Edge>>,
    n: nat,
    current: GraphNodeToken,
    target: GraphNodeToken,
    fuel: nat,
) -> (bool, nat)
    decreases fuel, n,
{
    if n == 0 || n > edges.len() {
        (false, 0)
    } else {
        let (found, steps) = search_edges(edges, (n - 1) as nat, current, target, fuel);
        if found || edges[n - 1] is None {
            (found, steps)
        } else if edges[n - 1]->0.parent == current && edges[n - 1]->0.child is Some && fuel > 0 {
            let below = search(edges, edges[n - 1]->0.child->0, target, (fuel - 1) as nat);
            (below.0, steps + 1 + below.1)
        } else {
            (false, steps + 1)
        }
    }
}

/// The larger of two naturals.
pub open spec fn larger(a: nat, b: nat) -> nat {
    if a >= b {
        a
    } else {
        b
    }
}

/// Full walk below `current`: the longest chain that starts there, and how many
/// nodes and edges are examined to find it.
pub open spec fn descent(edges: Seq<Option<Edge>>, current: GraphNodeToken, fuel: nat) -> (nat, nat)
    decreases fuel, edges.len() + 1,
{
    let (depth, steps) = descent_edges(edges, edges.len(), current, fuel);
    (depth, steps + 1)
}

/// The part of [`descent`] that examines the first `n` edge slots.
pub open spec fn descent_edges(
    edges: Seq<Option<Edge>>,
    n: nat,
    current: GraphNodeToken,
    fuel: nat,
) -> (nat, nat)
    decreases fuel, n,
{
    if n == 0 || n > edges.len() {
        (0, 0)
    } else {
        let (depth, steps) = descent_edges(edges, (n - 1) as nat, current, fuel);
        if edges[n - 1] is None {
            (depth, steps)
        } else if edges[n - 1]->0.parent != current {
            (depth, steps + 1)
        } else {
            match edges[n - 1]->0.child {
                Some(child) => if fuel > 0 {
                    let below = descent(edges, child, (fuel - 1) as nat);
                    (larger(depth, below.0 + 1), steps + 1 + below.1)
                } else {
                    (depth, steps + 1)
                },
                None => (larger(depth, 1), steps + 1),
            }
        }
    }
}

/// Full walk above `current`: the longest path that ends there, and how many
/// nodes and edges are examined to find it.
pub open spec fn ascent(edges: Seq<Option<Edge>>, current: GraphNodeToken, fuel: nat) -> (nat, nat)
    decreases fuel, edges.len() + 1,
{
    let (depth, steps) = ascent_edges(edges, edges.len(), current, fuel);
    (depth, steps + 1)
}

/// The part of [`ascent`] that examines the first `n` edge slots.
pub open spec fn ascent_edges(
    edges: Seq<Option<Edge>>,
    n: nat,
    current: GraphNodeToken,
    fuel: nat,
) -> (nat, nat)
    decreases fuel, n,
{
    if n == 0 || n > edges.len() {
        (0, 0)
    } else {
        let (depth, steps) = ascent_edges(edges, (n - 1) as nat, current, fuel);
        if edges[n - 1] is None {
            (depth, steps)
        } else if edges[n - 1]->0.child == Some(current) && fuel > 0 {
            let above = ascent(edges, edges[n - 1]->0.parent, (fuel - 1) as nat);
            (larger(depth, above.0 + 1), steps + 1 + above.1)
        } else {
            (depth, steps + 1)
        }
    }
}

/// Mathematical model of an [`EpollGraph`].
#[verifier::ext_equal]
pub struct EpollGraphState {
    /// Graph domain identity.
    pub id: EpollGraphId,
    /// Configured limits.
    pub limits: EpollGraphLimits,
    /// Registration slots.
    pub nodes: Seq<Option<Node>>,
    /// Interest slots.
    pub edges: Seq<Option<Edge>>,
    /// Next generation for a registration or an interest.
    pub next_generation: u64,
}

impl EpollGraphState {
    /// The state of a graph without registrations.
    pub open spec fn empty(id: EpollGraphId, limits: EpollGraphLimits) -> Self {
        EpollGraphState {
            id,
            limits,
            nodes: Seq::new(limits.node_capacity() as nat, |i: int| None),
            edges: Seq::new(limits.edge_capacity() as nat, |i: int| None),
            next_generation: 1,
        }
    }

    /// The token names a current registration of this graph.
    pub open spec fn registered(self, token: GraphNodeToken) -> bool {
        &&& token.graph() == self.id
        &&& token.slot() < self.nodes.len()
        &&& self.nodes[token.slot() as int] matches Some(node)
        &&& node.generation == token.generation()
        &&& node.epoll == token.epoll()
    }

    /// The token names a current interest of this graph.
    pub open spec fn published(self, token: GraphEdgeToken) -> bool {
        &&& token.graph() == self.id
        &&& token.slot() < self.edges.len()
        &&& self.edges[token.slot() as int] matches Some(edge)
        &&& edge.generation == token.generation()
    }

    /// The epoll instance is registered.
    pub open spec fn has_epoll(self, epoll: EpollId) -> bool {
        exists|i: int|
            0 <= i < self.nodes.len() && (#[trigger] self.nodes[i]) is Some
                && self.nodes[i]->0.epoll == epoll
    }

    /// Some interest starts or ends at `node`.
    pub open spec fn busy(self, node: GraphNodeToken) -> bool {
        exists|i: int|
            0 <= i < self.edges.len() && (#[trigger] self.edges[i]) is Some && (
            self.edges[i]->0.parent == node || self.edges[i]->0.child == Some(node))
    }

    /// Nodes and edges examined while an interest is admitted, up to the point
    /// where the search for a cycle ends.
    pub open spec fn cycle_steps(self, parent: GraphNodeToken, child: Option<GraphNodeToken>) -> nat {
        match child {
            Some(child) => search(self.edges, child, parent, self.nodes.len()).1,
            None => 0,
        }
    }

    /// Nodes and edges examined while an interest is admitted.
    pub open spec fn walk_steps(self, parent: GraphNodeToken, child: Option<GraphNodeToken>) -> nat {
        self.cycle_steps(parent, child) + ascent(self.edges, parent, self.nodes.len()).1 + (
        match child {
            Some(child) => descent(self.edges, child, self.nodes.len()).1,
            None => 0,
        })
    }

    /// Length of the longest chain that would run through the interest.
    pub open spec fn nesting(self, parent: GraphNodeToken, child: Option<GraphNodeToken>) -> nat {
        ascent(self.edges, parent, self.nodes.len()).0 + 1 + (match child {
            Some(child) => descent(self.edges, child, self.nodes.len()).0,
            None => 0,
        })
    }

    /// Why an interest of `parent` in `child` is refused, if it is.
    pub open spec fn refusal(
        self,
        parent: GraphNodeToken,
        child: Option<GraphNodeToken>,
    ) -> Option<GraphError> {
        if !self.registered(parent) || (child is Some && !self.registered(child->0)) {
            Some(GraphError::StaleToken)
        } else if child == Some(parent) {
            Some(GraphError::SelfCycle)
        } else if child is Some && !parents_of(self.edges, child->0).contains(parent) && parents_of(
            self.edges,
            child->0,
        ).len() >= self.limits.max_parents_per_node() {
            Some(GraphError::ParentLimit)
        } else if forall|i: int| 0 <= i < self.edges.len() ==> (#[trigger] self.edges[i]) is Some {
            Some(GraphError::Capacity)
        } else if self.cycle_steps(parent, child) > self.limits.max_walk_steps() {
            Some(GraphError::WalkLimit)
        } else if child is Some && search(self.edges, child->0, parent, self.nodes.len()).0 {
            Some(GraphError::Cycle)
        } else if self.walk_steps(parent, child) > self.limits.max_walk_steps() {
            Some(GraphError::WalkLimit)
        } else if self.nesting(parent, child) > self.limits.max_nesting() {
            Some(GraphError::Nesting)
        } else if self.next_generation == u64::MAX {
            Some(GraphError::GenerationExhausted)
        } else {
            None
        }
    }

    /// What holds of every graph: issued generations lie below the next one,
    /// no epoll is registered twice, interests join registered epolls, there
    /// is no cycle, no chain exceeds the nesting limit, and no epoll has more
    /// distinct parents than allowed.
    pub open spec fn wf(self) -> bool {
        &&& self.nodes.len() == self.limits.node_capacity()
        &&& self.edges.len() == self.limits.edge_capacity()
        &&& 1 <= self.next_generation
        &&& forall|i: int|
            0 <= i < self.nodes.len() && (#[trigger] self.nodes[i]) is Some
                ==> self.nodes[i]->0.generation < self.next_generation
        &&& forall|i: int, j: int|
            #![trigger self.nodes[i], self.nodes[j]]
            0 <= i < j < self.nodes.len() && self.nodes[i] is Some && self.nodes[j] is Some
                ==> self.nodes[i]->0.epoll != self.nodes[j]->0.epoll
        &&& forall|i: int|
            0 <= i < self.edges.len() && (#[trigger] self.edges[i]) is Some ==> {
                let edge = self.edges[i]->0;
                &&& edge.generation < self.next_generation
                &&& self.registered(edge.parent)
                &&& edge.child matches Some(child) ==> self.registered(child)
            }
        &&& acyclic(self.edges)
        &&& forall|a: GraphNodeToken, n: nat| #[trigger]
            chain(self.edges, a, n) ==> n <= self.limits.max_nesting()
        &&& forall|c: GraphNodeToken|
            (#[trigger] parents_of(self.edges, c)).len() <= self.limits.max_parents_per_node()
    }

    /// No token that was stale before is accepted after, and generations are
    /// only ever consumed.
    pub open spec fn retires_into(self, next: Self) -> bool {
        &&& next.id == self.id
        &&& next.limits == self.limits
        &&& self.next_generation <= next.next_generation
        &&& forall|token: GraphNodeToken| #[trigger]
            next.registered(token) && token.generation() < self.next_generation
                ==> self.registered(token)
        &&& forall|token: GraphEdgeToken| #[trigger]
            next.published(token) && token.generation() < self.next_generation
                ==> self.published(token)
    }
}

/// A node or edge token that went stale stays stale, over any number of calls.
pub proof fn retired_graph_tokens_stay_retired(
    first: EpollGraphState,
    second: EpollGraphState,
    third: EpollGraphState,
    node: GraphNodeToken,
    edge: GraphEdgeToken,
)
    requires
        first.retires_into(second),
        second.retires_into(third),
    ensures
        first.retires_into(third),
        node.generation() < first.next_generation && !first.registered(node) ==> !third.registered(
            node,
        ),
        edge.generation() < first.next_generation && !first.published(edge) ==> !third.published(
            edge,
        ),
{
    assert forall|t: GraphNodeToken| #[trigger]
        third.registered(t) && t.generation() < first.next_generation implies first.registered(
        t,
    ) by {
        assert(second.registered(t));
    }
    assert forall|t: GraphEdgeToken| #[trigger]
        third.published(t) && t.generation() < first.next_generation implies first.published(
        t,
    ) by {
        assert(second.published(t));
    }
}

pub(crate) proof fn parents_of_members(edges: Seq<Option<Edge>>, child: GraphNodeToken)
    ensures
        parents_of(edges, child).finite(),
        forall|p: GraphNodeToken| #[trigger]
            parents_of(edges, child).contains(p) <==> linked(edges, p, child),
    decreases edges.len(),
{
    if edges.len() > 0 {
        let front = edges.drop_last();
        parents_of_members(front, child);
        assert forall|p: GraphNodeToken| #[trigger]
            parents_of(edges, child).contains(p) <==> linked(edges, p, child) by {
            if parents_of(front, child).contains(p) {
                let i = choose|i: int|
                    0 <= i < front.len() && (#[trigger] front[i]) is Some && front[i]->0.parent == p
                        && front[i]->0.child == Some(child);
                assert(edges[i] == front[i]);
            }
            if linked(edges, p, child) {
                let i = choose|i: int|
                    0 <= i < edges.len() && (#[trigger] edges[i]) is Some && edges[i]->0.parent == p
                        && edges[i]->0.child == Some(child);
                if i < front.len() {
                    assert(front[i] == edges[i]);
                    assert(linked(front, p, child));
                }
            }
            let last = edges.len() - 1;
            assert(edges[last] == edges.last());
        }
    }
}

pub(crate) proof fn reachable_in_steps(
    edges: Seq<Option<Edge>>,
    a: GraphNodeToken,
    b: GraphNodeToken,
    c: GraphNodeToken,
    n: nat,
    m: nat,
)
    requires
        reachable(edges, a, b, n),
        reachable(edges, b, c, m),
    ensures
        reachable(edges, a, c, n + m),
    decreases n,
{
    if n > 0 {
        let d = choose|d: GraphNodeToken| #[trigger]
            linked(edges, a, d) && reachable(edges, d, b, (n - 1) as nat);
        reachable_in_steps(edges, d, b, c, (n - 1) as nat, m);
        assert((n + m - 1) as nat == (n - 1) as nat + m);
    }
}

proof fn connected_in_steps(
    edges: Seq<Option<Edge>>,
    a: GraphNodeToken,
    b: GraphNodeToken,
    c: GraphNodeToken,
)
    requires
        connected(edges, a, b),
        connected(edges, b, c),
    ensures
        connected(edges, a, c),
{
    let n = choose|n: nat| #[trigger] reachable(edges, a, b, n);
    let m = choose|m: nat| #[trigger] reachable(edges, b, c, m);
    reachable_in_steps(edges, a, b, c, n, m);
}

pub(crate) proof fn one_step(edges: Seq<Option<Edge>>, a: GraphNodeToken, b: GraphNodeToken)
    ensures
        linked(edges, a, b) <==> reachable(edges, a, b, 1),
{
    if linked(edges, a, b) {
        assert(reachable(edges, b, b, 0));
    }
    if reachable(edges, a, b, 1) {
        let c = choose|c: GraphNodeToken| #[trigger]
            linked(edges, a, c) && reachable(edges, c, b, 0);
    }
}

/// The last step of a path.
proof fn last_step(edges: Seq<Option<Edge>>, a: GraphNodeToken, b: GraphNodeToken, n: nat)
    requires
        n > 0,
        reachable(edges, a, b, n),
    ensures
        exists|c: GraphNodeToken| #[trigger]
            linked(edges, c, b) && reachable(edges, a, c, (n - 1) as nat),
    decreases n,
{
    let d = choose|d: GraphNodeToken| #[trigger]
        linked(edges, a, d) && reachable(edges, d, b, (n - 1) as nat);
    if n == 1 {
        assert(linked(edges, a, b) && reachable(edges, a, a, 0));
    } else {
        last_step(edges, d, b, (n - 1) as nat);
        let c = choose|c: GraphNodeToken| #[trigger]
            linked(edges, c, b) && reachable(edges, d, c, (n - 2) as nat);
        assert(reachable(edges, a, c, (n - 1) as nat)) by {
            assert(((n - 1) as nat - 1) as nat == (n - 2) as nat);
        }
    }
}

/// The nodes along a path.
proof fn nodes_along(
    edges: Seq<Option<Edge>>,
    a: GraphNodeToken,
    b: GraphNodeToken,
    n: nat,
) -> (path: Seq<GraphNodeToken>)
    requires
        reachable(edges, a, b, n),
    ensures
        path.len() == n + 1,
        path[0] == a,
        path[n as int] == b,
        forall|i: int, j: int|
            #![trigger path[i], path[j]]
            0 <= i <= j <= n ==> reachable(edges, path[i], path[j], (j - i) as nat),
    decreases n,
{
    if n == 0 {
        seq![a]
    } else {
        let c = choose|c: GraphNodeToken| #[trigger]
            linked(edges, a, c) && reachable(edges, c, b, (n - 1) as nat);
        let rest = nodes_along(edges, c, b, (n - 1) as nat);
        let path = seq![a] + rest;
        assert forall|i: int, j: int|
            #![trigger path[i], path[j]]
            0 <= i <= j <= n implies reachable(edges, path[i], path[j], (j - i) as nat) by {
            if i > 0 {
                assert(path[i] == rest[i - 1] && path[j] == rest[j - 1]);
            } else if j > 0 {
                assert(path[j] == rest[j - 1]);
                assert(rest[0] == c);
                assert(reachable(edges, rest[0], rest[j - 1], (j - 1) as nat));
                assert(((j - i) as nat - 1) as nat == (j - 1) as nat);
            }
        }
        path
    }
}

/// A path visits distinct registered epolls, so it is shorter than the node
/// capacity.
pub(crate) proof fn paths_are_short(state: EpollGraphState, a: GraphNodeToken, b: GraphNodeToken, n: nat)
    requires
        state.wf(),
        state.registered(a),
        reachable(state.edges, a, b, n),
    ensures
        n < state.nodes.len(),
        state.registered(b),
{
    let path = nodes_along(state.edges, a, b, n);
    assert forall|i: int| 0 <= i <= n implies state.registered(#[trigger] path[i]) by {
        if i > 0 {
            assert(reachable(state.edges, path[i - 1], path[i], 1));
            one_step(state.edges, path[i - 1], path[i]);
            let k = choose|k: int|
                0 <= k < state.edges.len() && (#[trigger] state.edges[k]) is Some
                    && state.edges[k]->0.parent == path[i - 1] && state.edges[k]->0.child == Some(
                    path[i],
                );
            assert(state.edges[k] is Some);
        }
    }
    let slots = path.map_values(|t: GraphNodeToken| t.slot() as int);
    assert(slots.no_duplicates()) by {
        assert forall|i: int, j: int|
            0 <= i < slots.len() && 0 <= j < slots.len() && i != j implies slots[i] != slots[j] by {
            assert(state.registered(path[i]) && state.registered(path[j]));
            if slots[i] == slots[j] {
                assert(path[i] == path[j]);
                if i < j {
                    assert(reachable(state.edges, path[i], path[j], (j - i) as nat));
                } else {
                    assert(reachable(state.edges, path[j], path[i], (i - j) as nat));
                }
            }
        }
    }
    slots.unique_seq_to_set();
    let all = vstd::set_lib::set_int_range(0, state.nodes.len() as int);
    vstd::set_lib::lemma_int_range(0, state.nodes.len() as int);
    assert(slots.to_set().subset_of(all)) by {
        assert forall|s: int| slots.to_set().contains(s) implies all.contains(s) by {
            let k = choose|k: int| 0 <= k < slots.len() && slots[k] == s;
            assert(state.registered(path[k]));
        }
    }
    vstd::set_lib::lemma_len_subset(slots.to_set(), all);
}

/// A chain is no longer than the node capacity.
pub(crate) proof fn chains_are_short(state: EpollGraphState, root: GraphNodeToken, a: GraphNodeToken, k: nat, n: nat)
    requires
        state.wf(),
        state.registered(root),
        reachable(state.edges, root, a, k),
        chain(state.edges, a, n),
    ensures
        k + n <= state.nodes.len(),
    decreases n,
{
    paths_are_short(state, root, a, k);
    if n > 1 {
        let i = choose|i: int|
            0 <= i < state.edges.len() && (#[trigger] state.edges[i]) is Some
                && state.edges[i]->0.parent == a && (match state.edges[i]->0.child {
                Some(c) => chain(state.edges, c, (n - 1) as nat),
                None => n == 1,
            });
        let c = state.edges[i]->0.child->0;
        assert(linked(state.edges, a, c));
        one_step(state.edges, a, c);
        reachable_in_steps(state.edges, root, a, c, k, 1);
        chains_are_short(state, root, c, k + 1, (n - 1) as nat);
    }
}

proof fn search_edges_grow(
    edges: Seq<Option<Edge>>,
    n: nat,
    m: nat,
    current: GraphNodeToken,
    target: GraphNodeToken,
    fuel: nat,
)
    requires
        n <= m <= edges.len(),
    ensures
        search_edges(edges, n, current, target, fuel).1 <= search_edges(
            edges,
            m,
            current,
            target,
            fuel,
        ).1,
        search_edges(edges, n, current, target, fuel).0 ==> search_edges(
            edges,
            m,
            current,
            target,
            fuel,
        ) == search_edges(edges, n, current, target, fuel),
    decreases m - n,
{
    if n < m {
        search_edges_grow(edges, n, (m - 1) as nat, current, target, fuel);
    }
}

/// A search that found nothing proves that no path within its fuel exists.
proof fn search_is_complete(
    edges: Seq<Option<Edge>>,
    current: GraphNodeToken,
    target: GraphNodeToken,
    fuel: nat,
    n: nat,
)
    requires
        reachable(edges, current, target, n),
        n <= fuel,
    ensures
        search(edges, current, target, fuel).0,
    decreases n,
{
    if n > 0 && current != target {
        let c = choose|c: GraphNodeToken| #[trigger]
            linked(edges, current, c) && reachable(edges, c, target, (n - 1) as nat);
        let i = choose|i: int|
            0 <= i < edges.len() && (#[trigger] edges[i]) is Some && edges[i]->0.parent == current
                && edges[i]->0.child == Some(c);
        search_is_complete(edges, c, target, (fuel - 1) as nat, (n - 1) as nat);
        search_edges_grow(edges, i as nat, edges.len(), current, target, fuel);
        search_edges_grow(edges, (i + 1) as nat, edges.len(), current, target, fuel);
        assert(search_edges(edges, (i + 1) as nat, current, target, fuel).0);
    }
}

/// A successful search exhibits a path.
proof fn search_is_sound(
    edges: Seq<Option<Edge>>,
    current: GraphNodeToken,
    target: GraphNodeToken,
    fuel: nat,
)
    requires
        search(edges, current, target, fuel).0,
    ensures
        connected(edges, current, target),
    decreases fuel, edges.len() + 1,
{
    if current == target {
        assert(reachable(edges, current, target, 0));
    } else {
        search_edges_are_sound(edges, edges.len(), current, target, fuel);
    }
}

proof fn search_edges_are_sound(
    edges: Seq<Option<Edge>>,
    n: nat,
    current: GraphNodeToken,
    target: GraphNodeToken,
    fuel: nat,
)
    requires
        n <= edges.len(),
        search_edges(edges, n, current, target, fuel).0,
    ensures
        connected(edges, current, target),
    decreases fuel, n,
{
    if search_edges(edges, (n - 1) as nat, current, target, fuel).0 {
        search_edges_are_sound(edges, (n - 1) as nat, current, target, fuel);
    } else {
        let c = edges[n - 1]->0.child->0;
        search_is_sound(edges, c, target, (fuel - 1) as nat);
        assert(linked(edges, current, c));
        one_step(edges, current, c);
        connected_in_steps(edges, current, c, target);
    }
}

proof fn descent_edges_grow(
    edges: Seq<Option<Edge>>,
    n: nat,
    m: nat,
    current: GraphNodeToken,
    fuel: nat,
)
    requires
        n <= m <= edges.len(),
    ensures
        descent_edges(edges, n, current, fuel).0 <= descent_edges(edges, m, current, fuel).0,
        descent_edges(edges, n, current, fuel).1 <= descent_edges(edges, m, current, fuel).1,
    decreases m - n,
{
    if n < m {
        descent_edges_grow(edges, n, (m - 1) as nat, current, fuel);
    }
}

proof fn ascent_edges_grow(
    edges: Seq<Option<Edge>>,
    n: nat,
    m: nat,
    current: GraphNodeToken,
    fuel: nat,
)
    requires
        n <= m <= edges.len(),
    ensures
        ascent_edges(edges, n, current, fuel).0 <= ascent_edges(edges, m, current, fuel).0,
        ascent_edges(edges, n, current, fuel).1 <= ascent_edges(edges, m, current, fuel).1,
    decreases m - n,
{
    if n < m {
        ascent_edges_grow(edges, n, (m - 1) as nat, current, fuel);
    }
}

/// A walk examines more records than the depth it finds.
proof fn descent_is_paid_for(edges: Seq<Option<Edge>>, current: GraphNodeToken, fuel: nat)
    ensures
        descent(edges, current, fuel).0 < descent(edges, current, fuel).1,
    decreases fuel, edges.len() + 1,
{
    descent_edges_are_paid_for(edges, edges.len(), current, fuel);
}

proof fn descent_edges_are_paid_for(
    edges: Seq<Option<Edge>>,
    n: nat,
    current: GraphNodeToken,
    fuel: nat,
)
    ensures
        descent_edges(edges, n, current, fuel).0 <= descent_edges(edges, n, current, fuel).1,
    decreases fuel, n,
{
    if n > 0 && n <= edges.len() {
        descent_edges_are_paid_for(edges, (n - 1) as nat, current, fuel);
        if edges[n - 1] is Some && edges[n - 1]->0.child is Some && fuel > 0 {
            descent_is_paid_for(edges, edges[n - 1]->0.child->0, (fuel - 1) as nat);
        }
    }
}

proof fn ascent_is_paid_for(edges: Seq<Option<Edge>>, current: GraphNodeToken, fuel: nat)
    ensures
        ascent(edges, current, fuel).0 < ascent(edges, current, fuel).1,
    decreases fuel, edges.len() + 1,
{
    ascent_edges_are_paid_for(edges, edges.len(), current, fuel);
}

proof fn ascent_edges_are_paid_for(
    edges: Seq<Option<Edge>>,
    n: nat,
    current: GraphNodeToken,
    fuel: nat,
)
    ensures
        ascent_edges(edges, n, current, fuel).0 <= ascent_edges(edges, n, current, fuel).1,
    decreases fuel, n,
{
    if n > 0 && n <= edges.len() {
        ascent_edges_are_paid_for(edges, (n - 1) as nat, current, fuel);
        if edges[n - 1] is Some && fuel > 0 {
            ascent_is_paid_for(edges, edges[n - 1]->0.parent, (fuel - 1) as nat);
        }
    }
}

/// The walk below an epoll finds every chain within its fuel.
pub(crate) proof fn descent_bounds_chains(
    edges: Seq<Option<Edge>>,
    current: GraphNodeToken,
    fuel: nat,
    n: nat,
)
    requires
        chain(edges, current, n),
        n <= fuel,
    ensures
        n <= descent(edges, current, fuel).0,
    decreases n,
{
    if n > 0 {
        let i = choose|i: int|
            0 <= i < edges.len() && (#[trigger] edges[i]) is Some && edges[i]->0.parent == current
                && (match edges[i]->0.child {
                Some(c) => chain(edges, c, (n - 1) as nat),
                None => n == 1,
            });
        match edges[i]->0.child {
            Some(c) => {
                descent_bounds_chains(edges, c, (fuel - 1) as nat, (n - 1) as nat);
            },
            None => {},
        }
        descent_edges_grow(edges, (i + 1) as nat, edges.len(), current, fuel);
    }
}

/// The walk above an epoll finds every path to it within its fuel.
pub(crate) proof fn ascent_bounds_paths(
    edges: Seq<Option<Edge>>,
    a: GraphNodeToken,
    current: GraphNodeToken,
    fuel: nat,
    n: nat,
)
    requires
        reachable(edges, a, current, n),
        n <= fuel,
    ensures
        n <= ascent(edges, current, fuel).0,
    decreases n,
{
    if n > 0 {
        last_step(edges, a, current, n);
        let c = choose|c: GraphNodeToken| #[trigger]
            linked(edges, c, current) && reachable(edges, a, c, (n - 1) as nat);
        let i = choose|i: int|
            0 <= i < edges.len() && (#[trigger] edges[i]) is Some && edges[i]->0.parent == c
                && edges[i]->0.child == Some(current);
        ascent_bounds_paths(edges, a, c, (fuel - 1) as nat, (n - 1) as nat);
        ascent_edges_grow(edges, (i + 1) as nat, edges.len(), current, fuel);
    }
}

/// Every path that an added edge makes possible runs through that edge.
proof fn new_paths_use_the_new_edge(
    before: Seq<Option<Edge>>,
    slot: int,
    edge: Edge,
    x: GraphNodeToken,
    y: GraphNodeToken,
    n: nat,
)
    requires
        0 <= slot < before.len(),
        before[slot] is None,
        reachable(before.update(slot, Some(edge)), x, y, n),
    ensures
        connected(before, x, y) || (edge.child is Some && connected(before, x, edge.parent)
            && connected(before, edge.child->0, y)),
    decreases n,
{
    let after = before.update(slot, Some(edge));
    if n == 0 {
        assert(reachable(before, x, y, 0));
    } else {
        let c = choose|c: GraphNodeToken| #[trigger]
            linked(after, x, c) && reachable(after, c, y, (n - 1) as nat);
        new_paths_use_the_new_edge(before, slot, edge, c, y, (n - 1) as nat);
        let i = choose|i: int|
            0 <= i < after.len() && (#[trigger] after[i]) is Some && after[i]->0.parent == x
                && after[i]->0.child == Some(c);
        if i == slot {
            assert(reachable(before, x, edge.parent, 0));
            assert(edge.child == Some(c));
        } else {
            assert(before[i] == after[i]);
            assert(linked(before, x, c));
            one_step(before, x, c);
            assert(connected(before, x, c));
            if connected(before, c, y) {
                connected_in_steps(before, x, c, y);
            } else {
                connected_in_steps(before, x, c, edge.parent);
            }
        }
    }
}

/// An edge whose child cannot reach its parent closes no cycle.
proof fn adding_closes_no_cycle(before: Seq<Option<Edge>>, slot: int, edge: Edge)
    requires
        0 <= slot < before.len(),
        before[slot] is None,
        acyclic(before),
        edge.child matches Some(child) ==> !connected(before, child, edge.parent),
    ensures
        acyclic(before.update(slot, Some(edge))),
{
    let after = before.update(slot, Some(edge));
    assert forall|a: GraphNodeToken, n: nat| n > 0 implies !#[trigger] reachable(after, a, a, n) by {
        if reachable(after, a, a, n) {
            let c = choose|c: GraphNodeToken| #[trigger]
                linked(after, a, c) && reachable(after, c, a, (n - 1) as nat);
            new_paths_use_the_new_edge(before, slot, edge, c, a, (n - 1) as nat);
            let i = choose|i: int|
                0 <= i < after.len() && (#[trigger] after[i]) is Some && after[i]->0.parent == a
                    && after[i]->0.child == Some(c);
            if i == slot {
                assert(edge.child == Some(c));
                assert(false);
            } else {
                assert(before[i] == after[i]);
                assert(linked(before, a, c));
                one_step(before, a, c);
                assert(connected(before, a, c));
                if connected(before, c, a) {
                    let m = choose|m: nat| #[trigger] reachable(before, c, a, m);
                    reachable_in_steps(before, a, c, a, 1, m);
                    assert(false);
                } else {
                    connected_in_steps(before, edge.child->0, a, c);
                    connected_in_steps(before, edge.child->0, c, edge.parent);
                    assert(false);
                }
            }
        }
    }
}

/// A path of `k` edges leads from `a` to the edge, and a chain of `m` edges
/// continues behind it.
spec fn spliced(before: Seq<Option<Edge>>, edge: Edge, a: GraphNodeToken, k: nat, m: nat) -> bool {
    reachable(before, a, edge.parent, k) && (match edge.child {
        Some(child) => chain(before, child, m),
        None => m == 0,
    })
}

/// A chain in the extended graph is an old chain, or an old path to the new
/// edge followed by it and an old chain.
proof fn new_chains_use_the_new_edge(
    before: Seq<Option<Edge>>,
    slot: int,
    edge: Edge,
    a: GraphNodeToken,
    n: nat,
)
    requires
        0 <= slot < before.len(),
        before[slot] is None,
        edge.child matches Some(child) ==> !connected(before, child, edge.parent),
        chain(before.update(slot, Some(edge)), a, n),
    ensures
        chain(before, a, n) || exists|k: nat, m: nat| #[trigger]
            spliced(before, edge, a, k, m) && n == k + 1 + m,
    decreases n,
{
    let after = before.update(slot, Some(edge));
    if n > 0 {
        let i = choose|i: int|
            0 <= i < after.len() && (#[trigger] after[i]) is Some && after[i]->0.parent == a && (
            match after[i]->0.child {
                Some(c) => chain(after, c, (n - 1) as nat),
                None => n == 1,
            });
        if i == slot {
            assert(reachable(before, a, edge.parent, 0));
            match edge.child {
                Some(c) => {
                    new_chains_use_the_new_edge(before, slot, edge, c, (n - 1) as nat);
                    assert(chain(before, c, (n - 1) as nat)) by {
                        if !chain(before, c, (n - 1) as nat) {
                            let (k, m) = choose|k: nat, m: nat| #[trigger]
                                spliced(before, edge, c, k, m) && (n - 1) as nat == k + 1 + m;
                            assert(reachable(before, c, edge.parent, k));
                        }
                    }
                    assert(spliced(before, edge, a, 0, (n - 1) as nat));
                },
                None => {
                    assert(spliced(before, edge, a, 0, 0));
                },
            }
        } else {
            assert(before[i] == after[i]);
            match before[i]->0.child {
                Some(c) => {
                    new_chains_use_the_new_edge(before, slot, edge, c, (n - 1) as nat);
                    if chain(before, c, (n - 1) as nat) {
                        assert(chain(before, a, n));
                    } else {
                        let (k, m) = choose|k: nat, m: nat| #[trigger]
                            spliced(before, edge, c, k, m) && (n - 1) as nat == k + 1 + m;
                        assert(linked(before, a, c));
                        one_step(before, a, c);
                        reachable_in_steps(before, a, c, edge.parent, 1, k);
                        assert(spliced(before, edge, a, 1 + k, m));
                    }
                },
                None => {
                    assert(chain(before, a, n));
                },
            }
        }
    }
}

/// Taking edges away adds no path, chain, or parent.
proof fn fewer_edges_fewer_paths(before: Seq<Option<Edge>>, after: Seq<Option<Edge>>)
    requires
        before.len() == after.len(),
        forall|i: int|
            0 <= i < after.len() && (#[trigger] after[i]) is Some ==> before[i] == after[i],
    ensures
        acyclic(before) ==> acyclic(after),
        forall|a: GraphNodeToken, n: nat| #[trigger] chain(after, a, n) ==> chain(before, a, n),
        forall|c: GraphNodeToken| (#[trigger] parents_of(after, c)).len() <= parents_of(before, c).len(),
{
    assert forall|a: GraphNodeToken, n: nat| #[trigger] chain(after, a, n) implies chain(
        before,
        a,
        n,
    ) by {
        fewer_edges_fewer_chains(before, after, a, n);
    }
    if acyclic(before) {
        assert forall|a: GraphNodeToken, n: nat| n > 0 implies !#[trigger] reachable(
            after,
            a,
            a,
            n,
        ) by {
            if reachable(after, a, a, n) {
                fewer_edges_fewer_walks(before, after, a, a, n);
            }
        }
    }
    assert forall|c: GraphNodeToken|
        (#[trigger] parents_of(after, c)).len() <= parents_of(before, c).len() by {
        parents_of_members(before, c);
        parents_of_members(after, c);
        assert(parents_of(after, c).subset_of(parents_of(before, c))) by {
            assert forall|p: GraphNodeToken| parents_of(after, c).contains(p) implies parents_of(
                before,
                c,
            ).contains(p) by {
                let i = choose|i: int|
                    0 <= i < after.len() && (#[trigger] after[i]) is Some && after[i]->0.parent == p
                        && after[i]->0.child == Some(c);
                assert(before[i] == after[i]);
                assert(linked(before, p, c));
            }
        }
        vstd::set_lib::lemma_len_subset(parents_of(after, c), parents_of(before, c));
    }
}

proof fn fewer_edges_fewer_chains(
    before: Seq<Option<Edge>>,
    after: Seq<Option<Edge>>,
    a: GraphNodeToken,
    n: nat,
)
    requires
        before.len() == after.len(),
        forall|i: int|
            0 <= i < after.len() && (#[trigger] after[i]) is Some ==> before[i] == after[i],
        chain(after, a, n),
    ensures
        chain(before, a, n),
    decreases n,
{
    if n > 0 {
        let i = choose|i: int|
            0 <= i < after.len() && (#[trigger] after[i]) is Some && after[i]->0.parent == a && (
            match after[i]->0.child {
                Some(c) => chain(after, c, (n - 1) as nat),
                None => n == 1,
            });
        assert(before[i] == after[i]);
        match after[i]->0.child {
            Some(c) => {
                fewer_edges_fewer_chains(before, after, c, (n - 1) as nat);
            },
            None => {},
        }
    }
}

proof fn fewer_edges_fewer_walks(
    before: Seq<Option<Edge>>,
    after: Seq<Option<Edge>>,
    a: GraphNodeToken,
    b: GraphNodeToken,
    n: nat,
)
    requires
        before.len() == after.len(),
        forall|i: int|
            0 <= i < after.len() && (#[trigger] after[i]) is Some ==> before[i] == after[i],
        reachable(after, a, b, n),
    ensures
        reachable(before, a, b, n),
    decreases n,
{
    if n > 0 {
        let c = choose|c: GraphNodeToken| #[trigger]
            linked(after, a, c) && reachable(after, c, b, (n - 1) as nat);
        fewer_edges_fewer_walks(before, after, c, b, (n - 1) as nat);
        let i = choose|i: int|
            0 <= i < after.len() && (#[trigger] after[i]) is Some && after[i]->0.parent == a
                && after[i]->0.child == Some(c);
        assert(before[i] == after[i]);
        assert(linked(before, a, c));
    }
}

/// An interest is refused as a cycle exactly when its child already reaches its
/// parent: the search neither misses nor invents a path.
pub proof fn cycles_are_refused_exactly(
    state: EpollGraphState,
    parent: GraphNodeToken,
    child: GraphNodeToken,
)
    requires
        state.wf(),
        state.registered(parent),
        state.registered(child),
    ensures
        search(state.edges, child, parent, state.nodes.len()).0 <==> connected(
            state.edges,
            child,
            parent,
        ),
{
    if search(state.edges, child, parent, state.nodes.len()).0 {
        search_is_sound(state.edges, child, parent, state.nodes.len());
    }
    if connected(state.edges, child, parent) {
        let n = choose|n: nat| #[trigger] reachable(state.edges, child, parent, n);
        paths_are_short(state, child, parent, n);
        search_is_complete(state.edges, child, parent, state.nodes.len(), n);
    }
}

/// Publishing an interest that is not refused keeps the graph free of cycles
/// and within its nesting and parent limits.
proof fn admitting_keeps_the_graph(
    state: EpollGraphState,
    parent: GraphNodeToken,
    child: Option<GraphNodeToken>,
    slot: int,
)
    requires
        state.wf(),
        state.refusal(parent, child) is None,
        0 <= slot < state.edges.len(),
        state.edges[slot] is None,
    ensures
        ({
            let next = EpollGraphState {
                edges: state.edges.update(
                    slot,
                    Some(Edge { generation: state.next_generation, parent, child }),
                ),
                next_generation: (state.next_generation + 1) as u64,
                ..state
            };
            next.wf() && state.retires_into(next)
        }),
{
    let edge = Edge { generation: state.next_generation, parent, child };
    let before = state.edges;
    let after = before.update(slot, Some(edge));
    let next = EpollGraphState {
        edges: after,
        next_generation: (state.next_generation + 1) as u64,
        ..state
    };
    let fuel = state.nodes.len();
    if child is Some {
        cycles_are_refused_exactly(state, parent, child->0);
    }
    adding_closes_no_cycle(before, slot, edge);
    assert forall|a: GraphNodeToken, n: nat| #[trigger] chain(after, a, n) implies n
        <= state.limits.max_nesting() by {
        new_chains_use_the_new_edge(before, slot, edge, a, n);
        if !chain(before, a, n) {
            let (k, m) = choose|k: nat, m: nat| #[trigger]
                spliced(before, edge, a, k, m) && n == k + 1 + m;
            if k > 0 {
                let c = choose|c: GraphNodeToken| #[trigger]
                    linked(before, a, c) && reachable(before, c, parent, (k - 1) as nat);
                let i = choose|i: int|
                    0 <= i < before.len() && (#[trigger] before[i]) is Some && before[i]->0.parent
                        == a && before[i]->0.child == Some(c);
                assert(state.registered(a));
                paths_are_short(state, a, parent, k);
            }
            ascent_bounds_paths(before, a, parent, fuel, k);
            match child {
                Some(c) => {
                    assert(reachable(before, c, c, 0));
                    chains_are_short(state, c, c, 0, m);
                    descent_bounds_chains(before, c, fuel, m);
                },
                None => {},
            }
        }
    }
    assert forall|c: GraphNodeToken|
        (#[trigger] parents_of(after, c)).len() <= state.limits.max_parents_per_node() by {
        parents_of_members(before, c);
        parents_of_members(after, c);
        let grown = if child == Some(c) {
            parents_of(before, c).insert(parent)
        } else {
            parents_of(before, c)
        };
        assert(parents_of(after, c) =~= grown) by {
            assert forall|p: GraphNodeToken| parents_of(after, c).contains(p) <==> grown.contains(
                p,
            ) by {
                if linked(after, p, c) {
                    let i = choose|i: int|
                        0 <= i < after.len() && (#[trigger] after[i]) is Some && after[i]->0.parent
                            == p && after[i]->0.child == Some(c);
                    if i != slot {
                        assert(before[i] == after[i]);
                        assert(linked(before, p, c));
                    }
                }
                if linked(before, p, c) {
                    let i = choose|i: int|
                        0 <= i < before.len() && (#[trigger] before[i]) is Some
                            && before[i]->0.parent == p && before[i]->0.child == Some(c);
                    assert(after[i] == before[i]);
                    assert(linked(after, p, c));
                }
                if child == Some(c) {
                    assert(after[slot] is Some);
                    assert(linked(after, parent, c));
                }
            }
        }
    }
    assert forall|i: int| 0 <= i < next.edges.len() && (#[trigger] next.edges[i]) is Some implies {
        let edge = next.edges[i]->0;
        &&& edge.generation < next.next_generation
        &&& next.registered(edge.parent)
        &&& edge.child matches Some(child) ==> next.registered(child)
    } by {
        if i != slot {
            assert(state.edges[i] is Some);
        }
    }
    assert forall|t: GraphEdgeToken| #[trigger]
        next.published(t) && t.generation() < state.next_generation implies state.published(t) by {
        assert(next.edges[t.slot() as int] is Some);
    }
    assert forall|t: GraphNodeToken| #[trigger] next.registered(t) implies state.registered(t) by {}
}

/// Fixed-capacity epoll topology and reverse-parent accounting.
///
/// The consumer serializes every graph mutation with one domain lock. An
/// adapter normally publishes the graph edge and its [`crate::fd::EpollCore`]
/// interest in one such critical section, rolling the first operation back if
/// the second fails. Construction performs every allocation; graph mutation
/// and validation do not allocate, invoke callbacks, or destroy consumers.
pub struct EpollGraph {
    id: EpollGraphId,
    limits: EpollGraphLimits,
    nodes: Vec<Option<Node>>,
    edges: Vec<Option<Edge>>,
    next_generation: u64,
}

impl View for EpollGraph {
    type V = EpollGraphState;

    closed spec fn view(&self) -> EpollGraphState {
        EpollGraphState {
            id: self.id,
            limits: self.limits,
            nodes: self.nodes@,
            edges: self.edges@,
            next_generation: self.next_generation,
        }
    }
}

impl EpollGraph {
    /// Representation invariant of the graph.
    pub open spec fn wf(&self) -> bool {
        self@.wf()
    }

    /// Fallibly reserves all graph storage up front.
    ///
    /// It fails for want of memory only where the allocator refuses the storage.
    pub fn try_new(id: EpollGraphId, limits: EpollGraphLimits) -> (result: Result<Self, GraphError>)
        ensures
            match result {
                Ok(graph) => {
                    &&& graph.wf()
                    &&& graph@ == EpollGraphState::empty(id, limits)
                    &&& allocation_granted::<Option<Node>>(limits.node_capacity())
                    &&& allocation_granted::<Option<Edge>>(limits.edge_capacity())
                },
                Err(error) => {
                    &&& error == GraphError::NoMemory
                    &&& allocation_refused::<Option<Node>>(limits.node_capacity())
                        || allocation_refused::<Option<Edge>>(limits.edge_capacity())
                },
            },
    {
        let mut nodes: Vec<Option<Node>> = match reserved(limits.node_capacity) {
            Some(nodes) => nodes,
            None => return Err(GraphError::NoMemory),
        };
        let mut filled: usize = 0;
        while filled < limits.node_capacity
            invariant
                filled <= limits.node_capacity,
                nodes.len() == filled,
                forall|i: int| 0 <= i < filled ==> (#[trigger] nodes@[i]) is None,
            decreases limits.node_capacity - filled,
        {
            nodes.push(None);
            filled = filled + 1;
        }
        let mut edges: Vec<Option<Edge>> = match reserved(limits.edge_capacity) {
            Some(edges) => edges,
            None => return Err(GraphError::NoMemory),
        };
        let mut filled: usize = 0;
        while filled < limits.edge_capacity
            invariant
                filled <= limits.edge_capacity,
                edges.len() == filled,
                forall|i: int| 0 <= i < filled ==> (#[trigger] edges@[i]) is None,
            decreases limits.edge_capacity - filled,
        {
            edges.push(None);
            filled = filled + 1;
        }
        let graph = Self { id, limits, nodes, edges, next_generation: 1 };
        proof {
            let state = graph@;
            assert(state =~= EpollGraphState::empty(id, limits));
            assert forall|a: GraphNodeToken, n: nat| n > 0 implies !#[trigger] reachable(
                state.edges,
                a,
                a,
                n,
            ) by {
                if reachable(state.edges, a, a, n) {
                    let c = choose|c: GraphNodeToken| #[trigger]
                        linked(state.edges, a, c) && reachable(state.edges, c, a, (n - 1) as nat);
                    assert(linked(state.edges, a, c));
                }
            }
            assert forall|c: GraphNodeToken| (#[trigger] parents_of(state.edges, c)).len() == 0 by {
                parents_of_members(state.edges, c);
                assert(parents_of(state.edges, c) =~= Set::<GraphNodeToken>::empty());
            }
        }
        Ok(graph)
    }

    /// Returns the graph domain identity.
    pub fn id(&self) -> (result: EpollGraphId)
        ensures
            result == self@.id,
    {
        self.id
    }

    /// Returns the immutable configured limits.
    pub fn limits(&self) -> (result: EpollGraphLimits)
        ensures
            result == self@.limits,
    {
        self.limits
    }

    /// Returns the number of registered epoll nodes.
    pub fn node_count(&self) -> (result: usize)
        ensures
            result == count(self@.nodes, |node: Option<Node>| node is Some),
    {
        let ghost registered = |node: Option<Node>| node is Some;
        let mut found: usize = 0;
        let mut i: usize = 0;
        while i < self.nodes.len()
            invariant
                i <= self.nodes.len(),
                found <= i,
                found == count(self.nodes@.take(i as int), registered),
                registered == (|node: Option<Node>| node is Some),
            decreases self.nodes.len() - i,
        {
            proof {
                count_take_next(self.nodes@, i as int, registered);
            }
            if self.nodes[i].is_some() {
                found = found + 1;
            }
            i = i + 1;
        }
        assert(self.nodes@.take(i as int) =~= self.nodes@);
        found
    }

    /// Returns the number of published interest edges, leaf edges among them.
    pub fn edge_count(&self) -> (result: usize)
        ensures
            result == count(self@.edges, |edge: Option<Edge>| edge is Some),
    {
        let ghost published = |edge: Option<Edge>| edge is Some;
        let mut found: usize = 0;
        let mut i: usize = 0;
        while i < self.edges.len()
            invariant
                i <= self.edges.len(),
                found <= i,
                found == count(self.edges@.take(i as int), published),
                published == (|edge: Option<Edge>| edge is Some),
            decreases self.edges.len() - i,
        {
            proof {
                count_take_next(self.edges@, i as int, published);
            }
            if self.edges[i].is_some() {
                found = found + 1;
            }
            i = i + 1;
        }
        assert(self.edges@.take(i as int) =~= self.edges@);
        found
    }

    fn validate_node(&self, token: GraphNodeToken) -> (result: Result<usize, GraphError>)
        ensures
            result == if self@.registered(token) {
                Ok::<usize, GraphError>(token.slot())
            } else {
                Err(GraphError::StaleToken)
            },
    {
        if token.graph != self.id || token.slot >= self.nodes.len() {
            return Err(GraphError::StaleToken);
        }
        match &self.nodes[token.slot] {
            Some(node) => if node.generation == token.generation && node.epoll == token.epoll {
                Ok(token.slot)
            } else {
                Err(GraphError::StaleToken)
            },
            None => Err(GraphError::StaleToken),
        }
    }

    /// Registers one epoll instance without publishing any interest edges.
    pub fn register(&mut self, epoll: EpollId) -> (result: Result<GraphNodeToken, GraphError>)
        requires
            old(self).wf(),
        ensures
            final(self).wf(),
            old(self)@.retires_into(final(self)@),
            match result {
                Ok(token) => {
                    &&& !old(self)@.has_epoll(epoll)
                    &&& old(self)@.next_generation < u64::MAX
                    &&& token.graph() == old(self)@.id
                    &&& token.epoll() == epoll
                    &&& token.generation() == old(self)@.next_generation
                    &&& token.slot() < old(self)@.nodes.len()
                    &&& old(self)@.nodes[token.slot() as int] is None
                    &&& forall|i: int|
                        0 <= i < token.slot() ==> (#[trigger] old(self)@.nodes[i]) is Some
                    &&& final(self)@ == EpollGraphState {
                        nodes: old(self)@.nodes.update(
                            token.slot() as int,
                            Some(Node { epoll, generation: token.generation() }),
                        ),
                        next_generation: (old(self)@.next_generation + 1) as u64,
                        ..old(self)@
                    }
                    &&& final(self)@.registered(token)
                },
                Err(error) => {
                    &&& final(self)@ == old(self)@
                    &&& error == if old(self)@.has_epoll(epoll) {
                        GraphError::DuplicateNode
                    } else if forall|i: int|
                        0 <= i < old(self)@.nodes.len() ==> (#[trigger] old(
                            self,
                        )@.nodes[i]) is Some {
                        GraphError::Capacity
                    } else {
                        GraphError::GenerationExhausted
                    }
                    &&& error == GraphError::GenerationExhausted ==> old(self)@.next_generation
                        == u64::MAX
                },
            },
    {
        let ghost before = self@;
        let capacity: usize = self.nodes.len();
        let mut slot: usize = capacity;
        let mut i: usize = 0;
        while i < capacity
            invariant
                self@ == before,
                before == old(self)@,
                before.wf(),
                capacity == self.nodes.len(),
                i <= capacity,
                slot == capacity || slot < i,
                slot == capacity ==> forall|j: int|
                    0 <= j < i ==> (#[trigger] before.nodes[j]) is Some,
                slot < capacity ==> before.nodes[slot as int] is None && forall|j: int|
                    0 <= j < slot ==> (#[trigger] before.nodes[j]) is Some,
                forall|j: int|
                    0 <= j < i && (#[trigger] before.nodes[j]) is Some ==> before.nodes[j]->0.epoll
                        != epoll,
            decreases capacity - i,
        {
            assert(self.nodes@[i as int] == before.nodes[i as int]);
            match &self.nodes[i] {
                Some(node) => {
                    if node.epoll == epoll {
                        assert(before.has_epoll(epoll));
                        return Err(GraphError::DuplicateNode);
                    }
                },
                None => {
                    if slot == capacity {
                        slot = i;
                    }
                },
            }
            i = i + 1;
        }
        assert(!before.has_epoll(epoll));
        if slot == capacity {
            return Err(GraphError::Capacity);
        }
        let generation = self.next_generation;
        if generation == u64::MAX {
            return Err(GraphError::GenerationExhausted);
        }
        self.next_generation = generation + 1;
        self.nodes[slot] = Some(Node { epoll, generation });
        let token = GraphNodeToken { graph: self.id, slot, generation, epoll };
        proof {
            let after = self@;
            assert forall|t: GraphNodeToken| #[trigger] before.registered(t) implies after.registered(
                t,
            ) by {}
            assert forall|i: int|
                0 <= i < after.edges.len() && (#[trigger] after.edges[i]) is Some implies {
                let edge = after.edges[i]->0;
                &&& edge.generation < after.next_generation
                &&& after.registered(edge.parent)
                &&& edge.child matches Some(child) ==> after.registered(child)
            } by {
                assert(before.edges[i] is Some);
            }
            assert forall|t: GraphNodeToken| #[trigger]
                after.registered(t) && t.generation() < before.next_generation implies before.registered(
            t) by {}
            assert forall|t: GraphEdgeToken| #[trigger] after.published(t) implies before.published(
                t,
            ) by {}
        }
        Ok(token)
    }

    /// Removes an exact epoll registration after all its edges are detached.
    pub fn unregister(&mut self, node: GraphNodeToken) -> (result: Result<(), GraphError>)
        requires
            old(self).wf(),
        ensures
            final(self).wf(),
            old(self)@.retires_into(final(self)@),
            result == if !old(self)@.registered(node) {
                Err::<(), GraphError>(GraphError::StaleToken)
            } else if old(self)@.busy(node) {
                Err(GraphError::Busy)
            } else {
                Ok(())
            },
            final(self)@ == if result is Ok {
                EpollGraphState {
                    nodes: old(self)@.nodes.update(node.slot() as int, None),
                    ..old(self)@
                }
            } else {
                old(self)@
            },
    {
        let ghost before = self@;
        let slot = self.validate_node(node)?;
        let mut i: usize = 0;
        while i < self.edges.len()
            invariant
                self@ == before,
                before == old(self)@,
                before.wf(),
                before.registered(node),
                i <= self.edges.len(),
                forall|j: int|
                    0 <= j < i && (#[trigger] before.edges[j]) is Some ==> before.edges[j]->0.parent
                        != node && before.edges[j]->0.child != Some(node),
            decreases self.edges.len() - i,
        {
            assert(self.edges@[i as int] == before.edges[i as int]);
            if let Some(edge) = &self.edges[i] {
                let watched = match edge.child {
                    Some(child) => child == node,
                    None => false,
                };
                if edge.parent == node || watched {
                    assert(before.busy(node));
                    return Err(GraphError::Busy);
                }
            }
            i = i + 1;
        }
        assert(!before.busy(node));
        self.nodes[slot] = None;
        proof {
            let after = self@;
            assert forall|i: int|
                0 <= i < after.edges.len() && (#[trigger] after.edges[i]) is Some implies {
                let edge = after.edges[i]->0;
                &&& edge.generation < after.next_generation
                &&& after.registered(edge.parent)
                &&& edge.child matches Some(child) ==> after.registered(child)
            } by {
                assert(before.edges[i] is Some);
                let edge = before.edges[i]->0;
                assert(edge.parent != node && edge.child != Some(node));
            }
            assert forall|t: GraphNodeToken| #[trigger] after.registered(t) implies before.registered(
                t,
            ) by {}
            assert forall|t: GraphEdgeToken| #[trigger] after.published(t) implies before.published(
                t,
            ) by {}
        }
        Ok(())
    }

    fn spend(budget: &mut usize) -> (result: Result<(), GraphError>)
        ensures
            match result {
                Ok(_) => *old(budget) > 0 && *final(budget) == *old(budget) - 1,
                Err(error) => error == GraphError::WalkLimit && *old(budget) == 0 && *final(budget)
                    == 0,
            },
    {
        if *budget == 0 {
            return Err(GraphError::WalkLimit);
        }
        *budget = *budget - 1;
        Ok(())
    }

    fn reaches(
        &self,
        current: GraphNodeToken,
        target: GraphNodeToken,
        budget: &mut usize,
        path_len: usize,
        Ghost(root): Ghost<GraphNodeToken>,
    ) -> (result: Result<bool, GraphError>)
        requires
            self.wf(),
            self@.registered(root),
            reachable(self@.edges, root, current, path_len as nat),
        ensures
            ({
                let (found, steps) = search(
                    self@.edges,
                    current,
                    target,
                    (self@.nodes.len() - path_len) as nat,
                );
                match result {
                    Ok(answer) => answer == found && *final(budget) == *old(budget) - steps,
                    Err(error) => error == GraphError::WalkLimit && steps > *old(budget),
                }
            }),
        decreases self@.nodes.len() - path_len,
    {
        proof {
            paths_are_short(self@, root, current, path_len as nat);
        }
        let ghost fuel = (self@.nodes.len() - path_len) as nat;
        let ghost edges = self@.edges;
        let ghost start = *budget;
        Self::spend(budget)?;
        if current == target {
            return Ok(true);
        }
        let mut i: usize = 0;
        while i < self.edges.len()
            invariant
                self.wf(),
                self@.registered(root),
                reachable(self@.edges, root, current, path_len as nat),
                current != target,
                edges == self@.edges,
                edges.len() == self.edges.len(),
                fuel == self@.nodes.len() - path_len,
                fuel > 0,
                start == *old(budget),
                i <= edges.len(),
                !search_edges(edges, i as nat, current, target, fuel).0,
                *budget + 1 + search_edges(edges, i as nat, current, target, fuel).1 == start,
            decreases edges.len() - i,
        {
            proof {
                search_edges_grow(edges, (i + 1) as nat, edges.len(), current, target, fuel);
            }
            assert(self.edges@[i as int] == edges[i as int]);
            if let Some(edge) = &self.edges[i] {
                Self::spend(budget)?;
                if edge.parent == current {
                    if let Some(child) = edge.child {
                        proof {
                            assert(linked(edges, current, child));
                            one_step(edges, current, child);
                            reachable_in_steps(edges, root, current, child, path_len as nat, 1);
                            paths_are_short(self@, root, child, (path_len + 1) as nat);
                        }
                        if self.reaches(child, target, budget, path_len + 1, Ghost(root))? {
                            return Ok(true);
                        }
                    }
                }
            }
            i = i + 1;
        }
        Ok(false)
    }

    fn max_descendant_depth(
        &self,
        current: GraphNodeToken,
        budget: &mut usize,
        path_len: usize,
        Ghost(root): Ghost<GraphNodeToken>,
    ) -> (result: Result<usize, GraphError>)
        requires
            self.wf(),
            self@.registered(root),
            reachable(self@.edges, root, current, path_len as nat),
        ensures
            ({
                let (depth, steps) = descent(
                    self@.edges,
                    current,
                    (self@.nodes.len() - path_len) as nat,
                );
                match result {
                    Ok(answer) => answer == depth && *final(budget) == *old(budget) - steps,
                    Err(error) => error == GraphError::WalkLimit && steps > *old(budget),
                }
            }),
        decreases self@.nodes.len() - path_len,
    {
        proof {
            paths_are_short(self@, root, current, path_len as nat);
        }
        let ghost fuel = (self@.nodes.len() - path_len) as nat;
        let ghost edges = self@.edges;
        let ghost start = *budget;
        Self::spend(budget)?;
        let mut maximum: usize = 0;
        let mut i: usize = 0;
        while i < self.edges.len()
            invariant
                self.wf(),
                self@.registered(root),
                reachable(self@.edges, root, current, path_len as nat),
                edges == self@.edges,
                edges.len() == self.edges.len(),
                fuel == self@.nodes.len() - path_len,
                fuel > 0,
                start == *old(budget),
                i <= edges.len(),
                maximum == descent_edges(edges, i as nat, current, fuel).0,
                *budget + 1 + descent_edges(edges, i as nat, current, fuel).1 == start,
            decreases edges.len() - i,
        {
            proof {
                descent_edges_grow(edges, (i + 1) as nat, edges.len(), current, fuel);
            }
            assert(self.edges@[i as int] == edges[i as int]);
            if let Some(edge) = &self.edges[i] {
                Self::spend(budget)?;
                if edge.parent == current {
                    let below: usize = match edge.child {
                        Some(child) => {
                            proof {
                                assert(linked(edges, current, child));
                                one_step(edges, current, child);
                                reachable_in_steps(edges, root, current, child, path_len as nat, 1);
                                paths_are_short(self@, root, child, (path_len + 1) as nat);
                                descent_is_paid_for(edges, child, (fuel - 1) as nat);
                            }
                            self.max_descendant_depth(child, budget, path_len + 1, Ghost(root))?
                        },
                        None => 0,
                    };
                    if below + 1 > maximum {
                        maximum = below + 1;
                    }
                }
            }
            i = i + 1;
        }
        Ok(maximum)
    }

    fn max_parent_depth(
        &self,
        current: GraphNodeToken,
        budget: &mut usize,
        path_len: usize,
        Ghost(bottom): Ghost<GraphNodeToken>,
    ) -> (result: Result<usize, GraphError>)
        requires
            self.wf(),
            self@.registered(current),
            reachable(self@.edges, current, bottom, path_len as nat),
        ensures
            ({
                let (depth, steps) = ascent(
                    self@.edges,
                    current,
                    (self@.nodes.len() - path_len) as nat,
                );
                match result {
                    Ok(answer) => answer == depth && *final(budget) == *old(budget) - steps,
                    Err(error) => error == GraphError::WalkLimit && steps > *old(budget),
                }
            }),
        decreases self@.nodes.len() - path_len,
    {
        proof {
            paths_are_short(self@, current, bottom, path_len as nat);
        }
        let ghost fuel = (self@.nodes.len() - path_len) as nat;
        let ghost edges = self@.edges;
        let ghost start = *budget;
        Self::spend(budget)?;
        let mut maximum: usize = 0;
        let mut i: usize = 0;
        while i < self.edges.len()
            invariant
                self.wf(),
                self@.registered(current),
                reachable(self@.edges, current, bottom, path_len as nat),
                edges == self@.edges,
                edges.len() == self.edges.len(),
                fuel == self@.nodes.len() - path_len,
                fuel > 0,
                start == *old(budget),
                i <= edges.len(),
                maximum == ascent_edges(edges, i as nat, current, fuel).0,
                *budget + 1 + ascent_edges(edges, i as nat, current, fuel).1 == start,
            decreases edges.len() - i,
        {
            proof {
                ascent_edges_grow(edges, (i + 1) as nat, edges.len(), current, fuel);
            }
            assert(self.edges@[i as int] == edges[i as int]);
            if let Some(edge) = &self.edges[i] {
                Self::spend(budget)?;
                let watched = match edge.child {
                    Some(child) => child == current,
                    None => false,
                };
                if watched {
                    proof {
                        assert(self@.edges[i as int] is Some);
                        assert(linked(edges, edge.parent, current));
                        one_step(edges, edge.parent, current);
                        reachable_in_steps(
                            edges,
                            edge.parent,
                            current,
                            bottom,
                            1,
                            path_len as nat,
                        );
                        paths_are_short(self@, edge.parent, bottom, (path_len + 1) as nat);
                        ascent_is_paid_for(edges, edge.parent, (fuel - 1) as nat);
                    }
                    let above = self.max_parent_depth(
                        edge.parent,
                        budget,
                        path_len + 1,
                        Ghost(bottom),
                    )?;
                    if above + 1 > maximum {
                        maximum = above + 1;
                    }
                }
            }
            i = i + 1;
        }
        Ok(maximum)
    }

    fn watches(&self, parent: GraphNodeToken, child: GraphNodeToken, end: usize) -> (result: bool)
        requires
            end <= self@.edges.len(),
        ensures
            result == linked(self@.edges.take(end as int), parent, child),
    {
        let ghost seen = self@.edges.take(end as int);
        let mut i: usize = 0;
        while i < end
            invariant
                i <= end <= self.edges.len(),
                seen == self.edges@.take(end as int),
                forall|j: int|
                    0 <= j < i && (#[trigger] seen[j]) is Some ==> !(seen[j]->0.parent == parent
                        && seen[j]->0.child == Some(child)),
            decreases end - i,
        {
            assert(seen[i as int] == self.edges@[i as int]);
            if let Some(edge) = &self.edges[i] {
                let matches_child = match edge.child {
                    Some(other) => other == child,
                    None => false,
                };
                if matches_child && edge.parent == parent {
                    return true;
                }
            }
            i = i + 1;
        }
        false
    }

    fn distinct_parent_count(&self, child: GraphNodeToken) -> (result: usize)
        ensures
            result == parents_of(self@.edges, child).len(),
    {
        let ghost edges = self@.edges;
        let mut found: usize = 0;
        let mut index: usize = 0;
        assert(edges.take(0) =~= Seq::<Option<Edge>>::empty());
        while index < self.edges.len()
            invariant
                edges == self@.edges,
                edges.len() == self.edges.len(),
                index <= edges.len(),
                found <= index,
                found == parents_of(edges.take(index as int), child).len(),
            decreases edges.len() - index,
        {
            let ghost seen = edges.take(index as int);
            proof {
                assert(edges.take(index + 1).drop_last() =~= seen);
                assert(edges.take(index + 1).last() == edges[index as int]);
                parents_of_members(seen, child);
            }
            assert(self.edges@[index as int] == edges[index as int]);
            if let Some(edge) = &self.edges[index] {
                let matches_child = match edge.child {
                    Some(other) => other == child,
                    None => false,
                };
                if matches_child && !self.watches(edge.parent, child, index) {
                    found = found + 1;
                }
            }
            index = index + 1;
        }
        assert(edges.take(index as int) =~= edges);
        found
    }

    /// Publishes one interest from `parent` to an epoll `child`, or to a
    /// non-epoll leaf when `child` is `None`.
    ///
    /// Duplicate parent/child edges are retained independently because Linux
    /// interest identity also covers the descriptor used for `ADD`.
    pub fn add_interest(&mut self, parent: GraphNodeToken, child: Option<GraphNodeToken>) -> (result:
        Result<GraphEdgeToken, GraphError>)
        requires
            old(self).wf(),
        ensures
            final(self).wf(),
            old(self)@.retires_into(final(self)@),
            match result {
                Ok(token) => {
                    &&& old(self)@.refusal(parent, child) is None
                    &&& token.graph() == old(self)@.id
                    &&& token.generation() == old(self)@.next_generation
                    &&& token.slot() < old(self)@.edges.len()
                    &&& old(self)@.edges[token.slot() as int] is None
                    &&& forall|i: int|
                        0 <= i < token.slot() ==> (#[trigger] old(self)@.edges[i]) is Some
                    &&& final(self)@ == EpollGraphState {
                        edges: old(self)@.edges.update(
                            token.slot() as int,
                            Some(Edge { generation: token.generation(), parent, child }),
                        ),
                        next_generation: (old(self)@.next_generation + 1) as u64,
                        ..old(self)@
                    }
                    &&& final(self)@.published(token)
                },
                Err(error) => old(self)@.refusal(parent, child) == Some(error) && final(self)@
                    == old(self)@,
            },
    {
        let ghost before = self@;
        proof {
            use_type_invariant(&self.limits);
        }
        let _ = self.validate_node(parent)?;
        if let Some(child) = child {
            let _ = self.validate_node(child)?;
            if parent == child {
                return Err(GraphError::SelfCycle);
            }
            proof {
                parents_of_members(before.edges, child);
                assert(before.edges.take(before.edges.len() as int) =~= before.edges);
            }
            let already_parent = self.watches(parent, child, self.edges.len());
            if !already_parent && self.distinct_parent_count(child)
                >= self.limits.max_parents_per_node {
                return Err(GraphError::ParentLimit);
            }
        }
        let capacity: usize = self.edges.len();
        let mut slot: usize = 0;
        while slot < capacity && self.edges[slot].is_some()
            invariant
                self@ == before,
                capacity == self.edges.len(),
                slot <= capacity,
                forall|j: int| 0 <= j < slot ==> (#[trigger] before.edges[j]) is Some,
            decreases capacity - slot,
        {
            assert(self.edges@[slot as int] == before.edges[slot as int]);
            slot = slot + 1;
        }
        if slot == capacity {
            return Err(GraphError::Capacity);
        }
        assert(before.edges[slot as int] is None);
        let mut budget: usize = self.limits.max_walk_steps;
        if let Some(child) = child {
            assert(reachable(before.edges, child, child, 0));
            if self.reaches(child, parent, &mut budget, 0, Ghost(child))? {
                return Err(GraphError::Cycle);
            }
        }
        assert(reachable(before.edges, parent, parent, 0));
        proof {
            ascent_is_paid_for(before.edges, parent, before.nodes.len());
        }
        let parent_depth = self.max_parent_depth(parent, &mut budget, 0, Ghost(parent))?;
        let child_depth: usize = match child {
            Some(child) => {
                proof {
                    assert(reachable(before.edges, child, child, 0));
                    descent_is_paid_for(before.edges, child, before.nodes.len());
                }
                self.max_descendant_depth(child, &mut budget, 0, Ghost(child))?
            },
            None => 0,
        };
        let combined: usize = parent_depth + 1 + child_depth;
        if combined > self.limits.max_nesting {
            return Err(GraphError::Nesting);
        }
        let generation = self.next_generation;
        if generation == u64::MAX {
            return Err(GraphError::GenerationExhausted);
        }
        proof {
            assert(before.refusal(parent, child) is None);
            admitting_keeps_the_graph(before, parent, child, slot as int);
        }
        self.next_generation = generation + 1;
        self.edges[slot] = Some(Edge { generation, parent, child });
        Ok(GraphEdgeToken { graph: self.id, slot, generation })
    }

    /// Removes one exact interest edge, rejecting foreign or reused tokens.
    pub fn remove_interest(&mut self, token: GraphEdgeToken) -> (result: Result<(), GraphError>)
        requires
            old(self).wf(),
        ensures
            final(self).wf(),
            old(self)@.retires_into(final(self)@),
            !final(self)@.published(token),
            result == if old(self)@.published(token) {
                Ok::<(), GraphError>(())
            } else {
                Err(GraphError::StaleToken)
            },
            final(self)@ == if result is Ok {
                EpollGraphState {
                    edges: old(self)@.edges.update(token.slot() as int, None),
                    ..old(self)@
                }
            } else {
                old(self)@
            },
    {
        let ghost before = self@;
        if token.graph != self.id || token.slot >= self.edges.len() {
            return Err(GraphError::StaleToken);
        }
        match &self.edges[token.slot] {
            Some(edge) => {
                if edge.generation != token.generation {
                    return Err(GraphError::StaleToken);
                }
            },
            None => return Err(GraphError::StaleToken),
        }
        self.edges[token.slot] = None;
        proof {
            let after = self@;
            fewer_edges_fewer_paths(before.edges, after.edges);
            assert forall|i: int|
                0 <= i < after.edges.len() && (#[trigger] after.edges[i]) is Some implies {
                let edge = after.edges[i]->0;
                &&& edge.generation < after.next_generation
                &&& after.registered(edge.parent)
                &&& edge.child matches Some(child) ==> after.registered(child)
            } by {
                assert(before.edges[i] is Some);
            }
            assert forall|t: GraphNodeToken| #[trigger] after.registered(t) implies before.registered(
                t,
            ) by {}
            assert forall|t: GraphEdgeToken| #[trigger] after.published(t) implies before.published(
                t,
            ) by {
                assert(after.edges[t.slot() as int] is Some);
            }
        }
        Ok(())
    }

    /// Returns the number of distinct epoll parents currently watching `node`.
    pub fn parent_count(&self, node: GraphNodeToken) -> (result: Result<usize, GraphError>)
        ensures
            match result {
                Ok(parents) => self@.registered(node) && parents == parents_of(
                    self@.edges,
                    node,
                ).len(),
                Err(error) => !self@.registered(node) && error == GraphError::StaleToken,
            },
    {
        let _ = self.validate_node(node)?;
        Ok(self.distinct_parent_count(node))
    }
}

} // verus!
