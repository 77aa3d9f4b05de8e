//! Trusted boundary to the petgraph crate, whose directed graph backs the
//! call-graph accumulator.
//!
//! The graph's contents are named by two spec functions, [`store_nodes`] and
//! [`store_edges`]; every wrapper below states, over those names, what the
//! petgraph source shows of the call it makes.  Node weights are the plain
//! triple (call-site identifier value, cumulative elapsed nanoseconds,
//! cumulative call count); edge weights are call counts.

use vstd::prelude::*;

verus! {

/// petgraph's adjacency-list graph.  Opaque to the verifier; its contents
/// are reached only through the named spec functions below.
#[verifier::external_type_specification]
#[verifier::external_body]
#[verifier::reject_recursive_types(N)]
#[verifier::reject_recursive_types(E)]
#[verifier::reject_recursive_types(Ty)]
#[verifier::reject_recursive_types(Ix)]
pub struct ExGraph<N, E, Ty, Ix>(petgraph::graph::Graph<N, E, Ty, Ix>);

/// petgraph's marker type for directed edges.
#[verifier::external_type_specification]
#[verifier::external_body]
pub struct ExDirected(petgraph::Directed);

/// Weight of a graph node: call-site identifier value, cumulative elapsed
/// nanoseconds, cumulative call count.
pub type NodeWeight = (u64, u64, u32);

/// An edge as the accumulator sees it: source node index, target node
/// index, call count.
pub type EdgeRecord = (usize, usize, usize);

/// The directed graph backing the accumulator.
pub type GraphStore = petgraph::graph::Graph<NodeWeight, usize, petgraph::Directed, u32>;

/// The node weights of the store, in node-index order.
pub uninterp spec fn store_nodes(g: GraphStore) -> Seq<NodeWeight>;

/// The edges of the store, in edge-index order, each as (source node index,
/// target node index, weight).
pub uninterp spec fn store_edges(g: GraphStore) -> Seq<EdgeRecord>;

/// Relies on petgraph Graph::new: an empty graph.
#[verifier::external_body]
pub(crate) fn store_new() -> (g: GraphStore)
    ensures
        store_nodes(g) == Seq::<NodeWeight>::empty(),
        store_edges(g) == Seq::<EdgeRecord>::empty(),
{
    petgraph::graph::Graph::new()
}

/// Relies on petgraph Graph::clear: removes all nodes and all edges.
#[verifier::external_body]
pub(crate) fn store_clear(g: &mut GraphStore)
    ensures
        store_nodes(*final(g)) == Seq::<NodeWeight>::empty(),
        store_edges(*final(g)) == Seq::<EdgeRecord>::empty(),
{
    g.clear()
}

/// Relies on petgraph Graph::node_count: the number of nodes.
#[verifier::external_body]
pub(crate) fn store_node_count(g: &GraphStore) -> (n: usize)
    ensures
        n == store_nodes(*g).len(),
{
    g.node_count()
}

/// Relies on petgraph Graph::edge_count: the number of edges.
#[verifier::external_body]
pub(crate) fn store_edge_count(g: &GraphStore) -> (n: usize)
    ensures
        n == store_edges(*g).len(),
{
    g.edge_count()
}

/// Relies on petgraph Graph::add_node: appends a node whose index is the
/// node count before the call; edges are untouched.  petgraph reserves the
/// largest u32 index value as a sentinel, hence the capacity bound.
#[verifier::external_body]
pub(crate) fn store_add_node(g: &mut GraphStore, w: NodeWeight) -> (i: usize)
    requires
        store_nodes(*old(g)).len() < u32::MAX,
    ensures
        store_nodes(*final(g)) == store_nodes(*old(g)).push(w),
        store_edges(*final(g)) == store_edges(*old(g)),
        i == store_nodes(*old(g)).len(),
{
    g.add_node(w).index()
}

/// Relies on petgraph Graph::node_weight: the weight of the node at the
/// given index.
#[verifier::external_body]
pub(crate) fn store_node_weight(g: &GraphStore, i: usize) -> (w: NodeWeight)
    requires
        i < store_nodes(*g).len(),
    ensures
        w == store_nodes(*g)[i as int],
{
    *g.node_weight(petgraph::graph::NodeIndex::new(i)).unwrap()
}

/// Relies on petgraph Graph::node_weight_mut: replaces the weight of the
/// node at the given index; nothing else moves.
#[verifier::external_body]
pub(crate) fn store_set_node_weight(g: &mut GraphStore, i: usize, w: NodeWeight)
    requires
        i < store_nodes(*old(g)).len(),
    ensures
        store_nodes(*final(g)) == store_nodes(*old(g)).update(i as int, w),
        store_edges(*final(g)) == store_edges(*old(g)),
{
    *g.node_weight_mut(petgraph::graph::NodeIndex::new(i)).unwrap() = w;
}

/// Relies on petgraph Graph::add_edge: appends an edge from `a` to `b`
/// whose index is the edge count before the call; nodes are untouched.
/// Both endpoints must exist, and petgraph reserves the largest u32 index
/// value as a sentinel, hence the bounds.
#[verifier::external_body]
pub(crate) fn store_add_edge(g: &mut GraphStore, a: usize, b: usize, w: usize) -> (i: usize)
    requires
        a < store_nodes(*old(g)).len(),
        b < store_nodes(*old(g)).len(),
        store_edges(*old(g)).len() < u32::MAX,
    ensures
        store_edges(*final(g)) == store_edges(*old(g)).push((a, b, w)),
        store_nodes(*final(g)) == store_nodes(*old(g)),
        i == store_edges(*old(g)).len(),
{
    g.add_edge(
        petgraph::graph::NodeIndex::new(a),
        petgraph::graph::NodeIndex::new(b),
        w,
    ).index()
}

/// Relies on petgraph Graph::find_edge: some edge from `a` to `b` when one
/// exists, and `None` exactly when none does.
#[verifier::external_body]
pub(crate) fn store_find_edge(g: &GraphStore, a: usize, b: usize) -> (r: Option<usize>)
    ensures
        r matches Some(e) ==> e < store_edges(*g).len()
            && store_edges(*g)[e as int].0 == a
            && store_edges(*g)[e as int].1 == b,
        r is None ==> forall|k: int| 0 <= k < store_edges(*g).len()
            ==> !((#[trigger] store_edges(*g)[k]).0 == a && store_edges(*g)[k].1 == b),
{
    g.find_edge(
        petgraph::graph::NodeIndex::new(a),
        petgraph::graph::NodeIndex::new(b),
    ).map(|e| e.index())
}

/// Relies on petgraph Graph::edge_weight: the weight of the edge at the
/// given index.
#[verifier::external_body]
pub(crate) fn store_edge_weight(g: &GraphStore, e: usize) -> (w: usize)
    requires
        e < store_edges(*g).len(),
    ensures
        w == store_edges(*g)[e as int].2,
{
    *g.edge_weight(petgraph::graph::EdgeIndex::new(e)).unwrap()
}

/// Relies on petgraph Graph::edge_weight_mut: replaces the weight of the
/// edge at the given index; its endpoints and everything else stay.
#[verifier::external_body]
pub(crate) fn store_set_edge_weight(g: &mut GraphStore, e: usize, w: usize)
    requires
        e < store_edges(*old(g)).len(),
    ensures
        store_edges(*final(g)) == store_edges(*old(g)).update(
            e as int,
            (store_edges(*old(g))[e as int].0, store_edges(*old(g))[e as int].1, w),
        ),
        store_nodes(*final(g)) == store_nodes(*old(g)),
{
    *g.edge_weight_mut(petgraph::graph::EdgeIndex::new(e)).unwrap() = w;
}

/// Relies on petgraph Graph::edge_endpoints: the source and target node
/// indices of the edge at the given index.
#[verifier::external_body]
pub(crate) fn store_edge_endpoints(g: &GraphStore, e: usize) -> (r: (usize, usize))
    requires
        e < store_edges(*g).len(),
    ensures
        r.0 == store_edges(*g)[e as int].0,
        r.1 == store_edges(*g)[e as int].1,
{
    let (a, b) = g.edge_endpoints(petgraph::graph::EdgeIndex::new(e)).unwrap();
    (a.index(), b.index())
}

} // verus!
