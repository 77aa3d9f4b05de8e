//! Span lifecycle and the call-graph accumulator.
//!
//! A [`Span`] is one execution of a [`CallSite`]'s code.  Entering a span
//! saves the identifier of the span currently active on the thread (the
//! parent) and installs its own; exiting it restores the parent and merges
//! the measured elapsed time into the [`Collector`]'s graph: elapsed time
//! and call count on the span's node, and one more call on the
//! parent-to-child edge.  [`get_full_graph`] joins the accumulated graph
//! with a [`Registry`] into an immutable snapshot.

use vstd::prelude::*;

use crate::callsite::{CallSite, CallSiteId, Registry, site_with_id};
use crate::clock::{clock_delta_ns, clock_new, clock_raw};
use crate::store::{
    EdgeRecord, GraphStore, NodeWeight, store_add_edge, store_add_node, store_clear,
    store_edge_count, store_edge_endpoints, store_edge_weight, store_find_edge, store_new,
    store_node_count, store_node_weight, store_set_edge_weight, store_set_node_weight,
    store_edges, store_nodes,
};

verus! {

/// Whether some node carries the given call-site identifier value.
pub open spec fn has_node(nodes: Seq<NodeWeight>, cs: u64) -> bool {
    exists|i: int| 0 <= i < nodes.len() && (#[trigger] nodes[i]).0 == cs
}

/// The index of the node carrying the given call-site identifier value;
/// meaningful when `has_node` holds, and unique when identifiers are
/// pairwise distinct.
pub open spec fn node_index(nodes: Seq<NodeWeight>, cs: u64) -> int {
    choose|i: int| 0 <= i < nodes.len() && (#[trigger] nodes[i]).0 == cs
}

/// Node identifiers are pairwise distinct: one node per call site.
pub open spec fn nodes_distinct(nodes: Seq<NodeWeight>) -> bool {
    forall|i: int, j: int| 0 <= i < j < nodes.len()
        ==> (#[trigger] nodes[i]).0 != (#[trigger] nodes[j]).0
}

/// Edges point at existing nodes, and there is at most one edge per
/// ordered pair of nodes: counts accumulate on it, a parallel edge is
/// never added.
pub open spec fn edges_wf(nodes: Seq<NodeWeight>, edges: Seq<EdgeRecord>) -> bool {
    &&& forall|k: int| 0 <= k < edges.len()
        ==> (#[trigger] edges[k]).0 < nodes.len() && edges[k].1 < nodes.len()
    &&& forall|k1: int, k2: int| 0 <= k1 < k2 < edges.len()
        ==> !((#[trigger] edges[k1]).0 == (#[trigger] edges[k2]).0 && edges[k1].1 == edges[k2].1)
}

/// The accumulator's invariant over its graph contents.
pub open spec fn graph_inv(nodes: Seq<NodeWeight>, edges: Seq<EdgeRecord>) -> bool {
    nodes_distinct(nodes) && edges_wf(nodes, edges)
}

/// Whether edge `k` connects the node of call site `p` to the node of call
/// site `c`.
pub open spec fn edge_connects(
    nodes: Seq<NodeWeight>,
    edges: Seq<EdgeRecord>,
    k: int,
    p: u64,
    c: u64,
) -> bool {
    &&& 0 <= k < edges.len()
    &&& edges[k].0 < nodes.len()
    &&& edges[k].1 < nodes.len()
    &&& nodes[edges[k].0 as int].0 == p
    &&& nodes[edges[k].1 as int].0 == c
}

/// Whether some edge connects the node of call site `p` to the node of
/// call site `c`.
pub open spec fn has_edge(nodes: Seq<NodeWeight>, edges: Seq<EdgeRecord>, p: u64, c: u64) -> bool {
    exists|k: int| edge_connects(nodes, edges, k, p, c)
}

/// The index of the edge connecting the node of `p` to the node of `c`;
/// meaningful when `has_edge` holds, and unique under `graph_inv`.
pub open spec fn edge_index(nodes: Seq<NodeWeight>, edges: Seq<EdgeRecord>, p: u64, c: u64) -> int {
    choose|k: int| edge_connects(nodes, edges, k, p, c)
}

/// Addition clamped at the largest u64 value, so that a cumulative elapsed
/// time never wraps around.
pub open spec fn sat_add_u64(a: u64, b: u64) -> u64 {
    if a + b > u64::MAX { u64::MAX } else { (a + b) as u64 }
}

/// Increment clamped at the largest u32 value.
pub open spec fn sat_inc_u32(a: u32) -> u32 {
    if a == u32::MAX { u32::MAX } else { (a + 1) as u32 }
}

/// Increment clamped at the largest usize value.
pub open spec fn sat_inc_usize(a: usize) -> usize {
    if a == usize::MAX { usize::MAX } else { (a + 1) as usize }
}

/// The node list after making sure a node for `cs` exists: unchanged when
/// one does, extended by a fresh zeroed node otherwise.
pub open spec fn spec_add_node(nodes: Seq<NodeWeight>, cs: u64) -> Seq<NodeWeight> {
    if has_node(nodes, cs) { nodes } else { nodes.push((cs, 0u64, 0u32)) }
}

/// The node list after adding `t` nanoseconds of elapsed time and one call
/// to the node of `cs` (which must exist).
pub open spec fn spec_increase_timing(nodes: Seq<NodeWeight>, cs: u64, t: u64) -> Seq<NodeWeight> {
    let i = node_index(nodes, cs);
    nodes.update(i, (cs, sat_add_u64(nodes[i].1, t), sat_inc_u32(nodes[i].2)))
}

/// The edge list after counting one more call from `p` to `c` (whose nodes
/// must exist): the existing edge's count grows by one, or a fresh edge
/// with count one appears.
pub open spec fn spec_increase_call(
    nodes: Seq<NodeWeight>,
    edges: Seq<EdgeRecord>,
    p: u64,
    c: u64,
) -> Seq<EdgeRecord> {
    if has_edge(nodes, edges, p, c) {
        let k = edge_index(nodes, edges, p, c);
        edges.update(k, (edges[k].0, edges[k].1, sat_inc_usize(edges[k].2)))
    } else {
        edges.push((node_index(nodes, p) as usize, node_index(nodes, c) as usize, 1usize))
    }
}

/// Two nodes with one identifier value are the same node.
proof fn lemma_node_index_of(nodes: Seq<NodeWeight>, cs: u64, i: int)
    requires
        nodes_distinct(nodes),
        0 <= i < nodes.len(),
        nodes[i].0 == cs,
    ensures
        has_node(nodes, cs),
        node_index(nodes, cs) == i,
{
    assert(has_node(nodes, cs));
    let j = node_index(nodes, cs);
    if j != i {
        if j < i {
            assert(nodes[j].0 != nodes[i].0);
        } else {
            assert(nodes[i].0 != nodes[j].0);
        }
    }
}

/// Two edges between one ordered pair of nodes are the same edge.
proof fn lemma_edge_index_of(
    nodes: Seq<NodeWeight>,
    edges: Seq<EdgeRecord>,
    p: u64,
    c: u64,
    k: int,
)
    requires
        graph_inv(nodes, edges),
        edge_connects(nodes, edges, k, p, c),
    ensures
        has_edge(nodes, edges, p, c),
        edge_index(nodes, edges, p, c) == k,
{
    assert(has_edge(nodes, edges, p, c));
    let k2 = edge_index(nodes, edges, p, c);
    assert(edge_connects(nodes, edges, k2, p, c));
    if k2 != k {
        lemma_node_index_of(nodes, p, edges[k].0 as int);
        lemma_node_index_of(nodes, p, edges[k2].0 as int);
        lemma_node_index_of(nodes, c, edges[k].1 as int);
        lemma_node_index_of(nodes, c, edges[k2].1 as int);
        assert(edges[k].0 == edges[k2].0 && edges[k].1 == edges[k2].1);
        if k < k2 {
            assert(!(edges[k].0 == edges[k2].0 && edges[k].1 == edges[k2].1));
        } else {
            assert(!(edges[k2].0 == edges[k].0 && edges[k2].1 == edges[k].1));
        }
    }
}

/// Call graph node as the accumulator stores it, identifying its call site
/// by [`CallSiteId`].
#[derive(Debug, Clone, Copy)]
pub struct LightGraphNode {
    /// The call site this node accumulates for.
    pub callsite: CallSiteId,
    /// Total elapsed nanoseconds inside this call site, over all calls.
    pub elapsed_ns: u64,
    /// Number of times this call site has been called.
    pub called: u32,
}

impl LightGraphNode {
    /// A fresh node for the given call site, with nothing accumulated yet.
    pub fn new(callsite: CallSiteId) -> (r: LightGraphNode)
        ensures
            r.callsite == callsite,
            r.elapsed_ns == 0,
            r.called == 0,
    {
        LightGraphNode { callsite, elapsed_ns: 0, called: 0 }
    }

    /// The plain weight stored for this node.
    pub fn weight(&self) -> (w: NodeWeight)
        ensures
            w == (self.callsite.value, self.elapsed_ns, self.called),
    {
        (self.callsite.value, self.elapsed_ns, self.called)
    }

    /// The node described by a stored weight.
    pub fn from_weight(w: NodeWeight) -> (r: LightGraphNode)
        ensures
            r.callsite.value == w.0,
            r.elapsed_ns == w.1,
            r.called == w.2,
    {
        LightGraphNode { callsite: CallSiteId { value: w.0 }, elapsed_ns: w.1, called: w.2 }
    }
}

/// Simple call graph, identifying call sites by their [`CallSiteId`].
///
/// The nodes are call sites with accumulated timings; the edges count the
/// calls from one node to the other.
pub struct LightCallGraph {
    graph: GraphStore,
}

impl LightCallGraph {
    /// The node weights, in node-index order.
    pub closed spec fn nodes(self) -> Seq<NodeWeight> {
        store_nodes(self.graph)
    }

    /// The edges, in edge-index order.
    pub closed spec fn edges(self) -> Seq<EdgeRecord> {
        store_edges(self.graph)
    }

    /// One node per call site, and one edge per ordered pair of nodes.
    pub open spec fn wf(self) -> bool {
        graph_inv(self.nodes(), self.edges())
    }

    /// An empty call graph.
    pub fn new() -> (r: LightCallGraph)
        ensures
            r.nodes() == Seq::<NodeWeight>::empty(),
            r.edges() == Seq::<EdgeRecord>::empty(),
            r.wf(),
    {
        LightCallGraph { graph: store_new() }
    }

    /// Remove every node and every edge.
    pub fn clear(&mut self)
        ensures
            final(self).nodes() == Seq::<NodeWeight>::empty(),
            final(self).edges() == Seq::<EdgeRecord>::empty(),
            final(self).wf(),
    {
        store_clear(&mut self.graph);
    }

    /// The number of nodes.
    pub fn node_count(&self) -> (n: usize)
        ensures
            n == self.nodes().len(),
    {
        store_node_count(&self.graph)
    }

    /// The number of edges.
    pub fn edge_count(&self) -> (n: usize)
        ensures
            n == self.edges().len(),
    {
        store_edge_count(&self.graph)
    }

    /// The node at the given index.
    pub fn node_at(&self, i: usize) -> (w: NodeWeight)
        requires
            i < self.nodes().len(),
        ensures
            w == self.nodes()[i as int],
    {
        store_node_weight(&self.graph, i)
    }

    /// The edge at the given index.
    pub fn edge_at(&self, k: usize) -> (e: EdgeRecord)
        requires
            k < self.edges().len(),
        ensures
            e == self.edges()[k as int],
    {
        let (a, b) = store_edge_endpoints(&self.graph, k);
        let w = store_edge_weight(&self.graph, k);
        (a, b, w)
    }

    /// Find the node for a call site, if any.
    fn find(&self, callsite: CallSiteId) -> (r: Option<usize>)
        ensures
            r matches Some(i) ==> i < self.nodes().len()
                && self.nodes()[i as int].0 == callsite.value,
            r is None ==> !has_node(self.nodes(), callsite.value),
    {
        let n = self.node_count();
        let mut i: usize = 0;
        while i < n
            invariant
                0 <= i <= n,
                n == self.nodes().len(),
                forall|j: int| 0 <= j < i ==> (#[trigger] self.nodes()[j]).0 != callsite.value,
            decreases n - i,
        {
            if self.node_at(i).0 == callsite.value {
                return Some(i);
            }
            i = i + 1;
        }
        None
    }

    /// Add a node for the given call site to the graph; do nothing if there
    /// is already such a node.
    pub fn add_node(&mut self, callsite: CallSiteId)
        requires
            old(self).wf(),
            old(self).nodes().len() < u32::MAX,
        ensures
            final(self).nodes() == spec_add_node(old(self).nodes(), callsite.value),
            final(self).edges() == old(self).edges(),
            final(self).wf(),
    {
        match self.find(callsite) {
            Some(i) => {
                proof {
                    assert(self.nodes()[i as int].0 == callsite.value);
                    assert(has_node(self.nodes(), callsite.value));
                }
            }
            None => {
                let node = LightGraphNode::new(callsite);
                store_add_node(&mut self.graph, node.weight());
                proof {
                    let nodes = store_nodes(self.graph);
                    assert forall|i: int, j: int| 0 <= i < j < nodes.len()
                        implies (#[trigger] nodes[i]).0 != (#[trigger] nodes[j]).0 by {
                        if j == nodes.len() - 1 {
                            assert(!has_node(old(self).nodes(), callsite.value));
                            assert(old(self).nodes()[i].0 != callsite.value);
                        }
                    }
                }
            }
        }
    }

    /// Increase the accumulated time of the call site's node by `time_ns`
    /// nanoseconds (clamped at the largest value rather than wrapping), and
    /// the number of times it was called by one.  The node must already
    /// exist: its absence would be an internal bug, and it is rejected here.
    pub fn increase_timing(&mut self, span: CallSiteId, time_ns: u64)
        requires
            old(self).wf(),
            has_node(old(self).nodes(), span.value),
        ensures
            final(self).nodes() == spec_increase_timing(old(self).nodes(), span.value, time_ns),
            final(self).edges() == old(self).edges(),
            final(self).wf(),
    {
        let i = match self.find(span) {
            Some(i) => i,
            None => {
                proof {
                    assert(false);
                }
                0
            }
        };
        let w = self.node_at(i);
        let elapsed = if w.1 > u64::MAX - time_ns { u64::MAX } else { w.1 + time_ns };
        let called = if w.2 == u32::MAX { u32::MAX } else { w.2 + 1 };
        proof {
            lemma_node_index_of(self.nodes(), span.value, i as int);
        }
        store_set_node_weight(&mut self.graph, i, (span.value, elapsed, called));
        proof {
            let nodes = store_nodes(self.graph);
            assert forall|a: int, b: int| 0 <= a < b < nodes.len()
                implies (#[trigger] nodes[a]).0 != (#[trigger] nodes[b]).0 by {
                assert(old(self).nodes()[a].0 == nodes[a].0);
                assert(old(self).nodes()[b].0 == nodes[b].0);
            }
        }
    }

    /// Increase by one the number of times the `parent` call site called
    /// the `child` call site.  Both nodes must already exist: a missing one
    /// would be an internal bug, and it is rejected here.  Parent and child
    /// may be the same call site: a recursive call accumulates on a
    /// self-loop edge.
    pub fn increase_call_count(&mut self, parent: CallSiteId, child: CallSiteId)
        requires
            old(self).wf(),
            has_node(old(self).nodes(), parent.value),
            has_node(old(self).nodes(), child.value),
            old(self).edges().len() < u32::MAX,
        ensures
            final(self).nodes() == old(self).nodes(),
            final(self).edges() == spec_increase_call(
                old(self).nodes(),
                old(self).edges(),
                parent.value,
                child.value,
            ),
            final(self).wf(),
    {
        let pi = match self.find(parent) {
            Some(i) => i,
            None => {
                proof {
                    assert(false);
                }
                0
            }
        };
        let ci = match self.find(child) {
            Some(i) => i,
            None => {
                proof {
                    assert(false);
                }
                0
            }
        };
        proof {
            lemma_node_index_of(self.nodes(), parent.value, pi as int);
            lemma_node_index_of(self.nodes(), child.value, ci as int);
        }
        match store_find_edge(&self.graph, pi, ci) {
            Some(e) => {
                let count = store_edge_weight(&self.graph, e);
                let bumped = if count == usize::MAX { usize::MAX } else { count + 1 };
                proof {
                    assert(edge_connects(
                        self.nodes(), self.edges(), e as int, parent.value, child.value,
                    ));
                    lemma_edge_index_of(
                        self.nodes(), self.edges(), parent.value, child.value, e as int,
                    );
                }
                store_set_edge_weight(&mut self.graph, e, bumped);
                proof {
                    lemma_update_edge_weight_keeps_inv(
                        old(self).nodes(), old(self).edges(), e as int, bumped,
                    );
                }
            }
            None => {
                proof {
                    if has_edge(self.nodes(), self.edges(), parent.value, child.value) {
                        let k = edge_index(self.nodes(), self.edges(), parent.value, child.value);
                        assert(edge_connects(
                            self.nodes(), self.edges(), k, parent.value, child.value,
                        ));
                        lemma_node_index_of(self.nodes(), parent.value, self.edges()[k].0 as int);
                        lemma_node_index_of(self.nodes(), child.value, self.edges()[k].1 as int);
                        assert(self.edges()[k].0 == pi && self.edges()[k].1 == ci);
                    }
                }
                store_add_edge(&mut self.graph, pi, ci, 1);
                proof {
                    let edges = store_edges(self.graph);
                    assert forall|k1: int, k2: int| 0 <= k1 < k2 < edges.len()
                        implies !((#[trigger] edges[k1]).0 == (#[trigger] edges[k2]).0
                            && edges[k1].1 == edges[k2].1) by {
                        if k2 == edges.len() - 1 {
                            if edges[k1].0 == pi && edges[k1].1 == ci {
                                assert(edge_connects(
                                    old(self).nodes(), old(self).edges(), k1,
                                    parent.value, child.value,
                                ));
                            }
                        }
                    }
                }
            }
        }
    }
}

/// The identifier values of an optional call-site identifier.
pub open spec fn spec_id_of(parent: Option<CallSiteId>) -> Option<u64> {
    match parent {
        Some(p) => Some(p.value),
        None => None,
    }
}

/// The node list after recording one span exit: the span's node exists and
/// carries `d` more nanoseconds and one more call; when a parent is given,
/// its node exists too.
pub open spec fn spec_record_nodes(
    nodes: Seq<NodeWeight>,
    cs: u64,
    parent: Option<u64>,
    d: u64,
) -> Seq<NodeWeight> {
    let timed = spec_increase_timing(spec_add_node(nodes, cs), cs, d);
    match parent {
        Some(p) => spec_add_node(timed, p),
        None => timed,
    }
}

/// The edge list after recording one span exit: unchanged without a
/// parent; with one, the parent-to-child edge carries one more call.
pub open spec fn spec_record_edges(
    nodes: Seq<NodeWeight>,
    edges: Seq<EdgeRecord>,
    cs: u64,
    parent: Option<u64>,
    d: u64,
) -> Seq<EdgeRecord> {
    match parent {
        Some(p) => spec_increase_call(spec_record_nodes(nodes, cs, parent, d), edges, p, cs),
        None => edges,
    }
}

/// A node list that keeps every identifier of a prefix keeps every node of
/// that prefix.
proof fn lemma_same_ids_keep_nodes(n1: Seq<NodeWeight>, n2: Seq<NodeWeight>, cs: u64)
    requires
        n2.len() >= n1.len(),
        forall|i: int| 0 <= i < n1.len() ==> (#[trigger] n2[i]).0 == n1[i].0,
        has_node(n1, cs),
    ensures
        has_node(n2, cs),
{
    let i = choose|i: int| 0 <= i < n1.len() && (#[trigger] n1[i]).0 == cs;
    assert(n2[i].0 == cs);
}

/// The shared accumulator: the call graph, the flag that switches data
/// collection on and off, and the monotonic clock that measures spans.
///
/// In a live process this is the process-wide shared state: the graph is
/// mutated under a single mutual-exclusion boundary (one exit or snapshot
/// at a time), while the flag is read on the hot path without taking it.
pub struct Collector {
    graph: LightCallGraph,
    enabled: bool,
    clock: quanta::Clock,
}

impl Collector {
    /// The accumulated node weights.
    pub closed spec fn nodes(self) -> Seq<NodeWeight> {
        self.graph.nodes()
    }

    /// The accumulated edges.
    pub closed spec fn edges(self) -> Seq<EdgeRecord> {
        self.graph.edges()
    }

    /// Whether data collection is switched on.
    pub closed spec fn is_enabled(self) -> bool {
        self.enabled
    }

    /// The accumulator's graph satisfies the graph invariant.
    pub open spec fn wf(self) -> bool {
        graph_inv(self.nodes(), self.edges())
    }

    /// Room for one more recording: at most two fresh nodes and one fresh
    /// edge, within the backing store's index capacity.
    pub open spec fn can_accumulate(self) -> bool {
        self.nodes().len() + 2 <= u32::MAX && self.edges().len() + 1 <= u32::MAX
    }

    /// A fresh accumulator: empty graph, collection switched off.
    pub fn new() -> (r: Collector)
        ensures
            r.nodes() == Seq::<NodeWeight>::empty(),
            r.edges() == Seq::<EdgeRecord>::empty(),
            !r.is_enabled(),
            r.wf(),
    {
        Collector { graph: LightCallGraph::new(), enabled: false, clock: clock_new() }
    }

    /// Whether data collection is currently switched on.
    pub fn collection_enabled(&self) -> (r: bool)
        ensures
            r == self.is_enabled(),
    {
        self.enabled
    }

    /// The number of call sites with accumulated data.
    pub fn node_count(&self) -> (n: usize)
        ensures
            n == self.nodes().len(),
    {
        self.graph.node_count()
    }

    /// The number of caller-to-callee pairs with accumulated data.
    pub fn edge_count(&self) -> (n: usize)
        ensures
            n == self.edges().len(),
    {
        self.graph.edge_count()
    }

    /// Merge one span execution into the graph: `elapsed_ns` nanoseconds
    /// and one call on the span's node, and, when the span had a parent,
    /// one call on the parent-to-child edge.  Both nodes are created when
    /// missing.  The whole merge is one step of the accumulator: in a live
    /// process it runs as a single critical section.
    pub fn record(
        &mut self,
        callsite: CallSiteId,
        parent: Option<CallSiteId>,
        elapsed_ns: u64,
    )
        requires
            old(self).wf(),
            old(self).can_accumulate(),
        ensures
            final(self).nodes() == spec_record_nodes(
                old(self).nodes(), callsite.value, spec_id_of(parent), elapsed_ns,
            ),
            final(self).edges() == spec_record_edges(
                old(self).nodes(), old(self).edges(), callsite.value,
                spec_id_of(parent), elapsed_ns,
            ),
            final(self).wf(),
            final(self).is_enabled() == old(self).is_enabled(),
    {
        let ghost nodes0 = self.graph.nodes();
        self.graph.add_node(callsite);
        proof {
            if !has_node(nodes0, callsite.value) {
                assert(self.graph.nodes()[nodes0.len() as int].0 == callsite.value);
            }
            assert(has_node(self.graph.nodes(), callsite.value));
        }
        let ghost nodes1 = self.graph.nodes();
        self.graph.increase_timing(callsite, elapsed_ns);
        proof {
            let i = node_index(nodes1, callsite.value);
            assert forall|j: int| 0 <= j < nodes1.len()
                implies (#[trigger] self.graph.nodes()[j]).0 == nodes1[j].0 by {
                if j == i {
                    assert(nodes1[i].0 == callsite.value);
                }
            }
        }
        let ghost nodes2 = self.graph.nodes();
        if let Some(p) = parent {
            proof {
                lemma_same_ids_keep_nodes(nodes1, nodes2, callsite.value);
            }
            self.graph.add_node(p);
            proof {
                if !has_node(nodes2, p.value) {
                    assert(self.graph.nodes()[nodes2.len() as int].0 == p.value);
                }
                assert(has_node(self.graph.nodes(), p.value));
                lemma_same_ids_keep_nodes(nodes2, self.graph.nodes(), callsite.value);
            }
            self.graph.increase_call_count(p, callsite);
        }
    }
}

/// The per-thread slot holding the identifier of the span currently
/// executing on the thread: the most recently entered, not yet exited
/// span, which becomes the parent of any span entered next.
///
/// The slot is owned by its thread alone and follows a strict LIFO
/// discipline: entering a span saves the old value as the parent and
/// stores its own identifier; exiting restores the saved parent.
pub struct ThreadSpanState {
    /// The span currently active on this thread, if any.
    pub current: Option<CallSiteId>,
}

impl ThreadSpanState {
    /// A fresh thread: no span is active.
    pub fn new() -> (r: ThreadSpanState)
        ensures
            r.current is None,
    {
        ThreadSpanState { current: None }
    }
}

/// A `Span` records a single execution of code associated with a
/// [`CallSite`].
pub struct Span {
    /// The call site this span is an execution of.
    pub callsite: CallSiteId,
}

impl Span {
    /// Create a new `Span` associated with the given call site.
    pub fn new(callsite: &CallSite) -> (r: Span)
        ensures
            r.callsite == callsite.id,
    {
        Span { callsite: callsite.id }
    }

    /// Enter the span: the returned guard must be handed back to
    /// [`SpanGuard::exit`] on every path out of the instrumented scope.
    ///
    /// When collection is disabled this is the fast path: the thread slot
    /// is left alone and the guard carries no start time, so the exit will
    /// record nothing — a span that starts while collection is off
    /// contributes nothing, even if collection is switched back on before
    /// it exits.  When collection is enabled, the thread slot's old value
    /// is saved as the parent, the slot now names this span, and a clock
    /// reading is captured.
    #[must_use]
    pub fn enter(&self, thread: &mut ThreadSpanState, collector: &Collector) -> (guard: SpanGuard)
        ensures
            guard.callsite == self.callsite,
            !collector.is_enabled() ==> *final(thread) == *old(thread)
                && guard.start is None
                && guard.parent is None,
            collector.is_enabled() ==> guard.start is Some
                && guard.parent == old(thread).current
                && final(thread).current == Some(self.callsite),
    {
        if !collector.collection_enabled() {
            return SpanGuard { callsite: self.callsite, parent: None, start: None };
        }

        let parent = thread.current;
        thread.current = Some(self.callsite);
        let start = clock_raw(&collector.clock);
        SpanGuard { callsite: self.callsite, parent, start: Some(start) }
    }
}

/// Scope guard of one span execution.  Exiting it records the span's
/// elapsed time in the collector's call graph and restores the thread's
/// current-span slot to the saved parent.
pub struct SpanGuard {
    /// The call site of the span being executed.
    pub callsite: CallSiteId,
    /// The span that was active on this thread when this one was entered.
    pub parent: Option<CallSiteId>,
    /// The clock reading captured on entry, if collection was enabled then.
    pub start: Option<u64>,
}

impl SpanGuard {
    /// Exit the span.  Taking the guard by value, this runs exactly once
    /// per entered span.
    ///
    /// Whether anything is recorded is decided by whether a start reading
    /// was captured on entry, not by the flag's value now: a span that
    /// started while collection was enabled is accounted for even when
    /// collection was switched off in between, and one that started while
    /// it was disabled stays invisible.  When a start reading exists, the
    /// thread slot is restored to the saved parent and the measured
    /// elapsed time is merged into the graph, with one call on the
    /// parent-to-child edge if a parent was saved.
    pub fn exit(self, thread: &mut ThreadSpanState, collector: &mut Collector)
        requires
            old(collector).wf(),
            old(collector).can_accumulate(),
        ensures
            self.start is None ==> *final(thread) == *old(thread)
                && *final(collector) == *old(collector),
            self.start is Some ==> final(thread).current == self.parent
                && exists|d: u64|
                    final(collector).nodes() == spec_record_nodes(
                        old(collector).nodes(), self.callsite.value,
                        spec_id_of(self.parent), d,
                    )
                    && final(collector).edges() == spec_record_edges(
                        old(collector).nodes(), old(collector).edges(),
                        self.callsite.value, spec_id_of(self.parent), d,
                    ),
            final(collector).wf(),
            final(collector).is_enabled() == old(collector).is_enabled(),
    {
        match self.start {
            None => {}
            Some(start) => {
                let end = clock_raw(&collector.clock);
                let elapsed = clock_delta_ns(&collector.clock, start, end);

                thread.current = self.parent;

                collector.record(self.callsite, self.parent, elapsed);
            }
        }
    }
}

/// Clear the collector's call graph of all recorded data.  Clearing an
/// already empty graph leaves it empty: the operation is idempotent.
pub fn clear_collected_data(collector: &mut Collector)
    ensures
        final(collector).nodes() == Seq::<NodeWeight>::empty(),
        final(collector).edges() == Seq::<EdgeRecord>::empty(),
        final(collector).is_enabled() == old(collector).is_enabled(),
        final(collector).wf(),
{
    collector.graph.clear();
}

/// Switch data collection on or off.  Only the flag moves: the graph is
/// untouched, and setting the flag to its current value changes nothing.
pub fn enable_data_collection(collector: &mut Collector, enabled: bool)
    ensures
        final(collector).is_enabled() == enabled,
        final(collector).nodes() == old(collector).nodes(),
        final(collector).edges() == old(collector).edges(),
{
    collector.enabled = enabled;
}

/// All data related to a single call site inside a snapshot of the call
/// graph.
#[derive(Debug, Clone, Copy)]
pub struct TimedSpan {
    /// Identifier of this call site local to the snapshot: its position in
    /// the snapshot's span list.
    pub id: usize,
    /// The call site's registered metadata.
    pub callsite: CallSite,
    /// Total elapsed nanoseconds inside this call site.
    pub elapsed_ns: u64,
    /// Number of times this call site has been called.
    pub called: u32,
}

impl TimedSpan {
    /// Join one accumulated node with its registered call site, under a
    /// snapshot-local identifier.
    pub fn new(node: LightGraphNode, id: usize, callsite: CallSite) -> (r: TimedSpan)
        ensures
            r.id == id,
            r.callsite == callsite,
            r.elapsed_ns == node.elapsed_ns,
            r.called == node.called,
    {
        TimedSpan { id, callsite, elapsed_ns: node.elapsed_ns, called: node.called }
    }
}

/// A set of calls from one call site to another, under snapshot-local
/// identifiers.
#[derive(Debug, Clone, Copy, PartialEq, Eq, Structural)]
pub struct Calls {
    /// The outer, calling span.
    pub caller: usize,
    /// The inner, called span.
    pub callee: usize,
    /// Number of times the outer span called the inner one.
    pub count: usize,
}

/// Full call graph including execution time and number of calls between
/// call sites: an immutable snapshot, independent of later mutation of the
/// live collector.
pub struct FullCallGraph {
    spans: Vec<TimedSpan>,
    calls: Vec<Calls>,
}

/// What a snapshot holds of a collector and a registry: one entry per
/// accumulated node, in node order, joined with its registered call site
/// and numbered by position; and one entry per accumulated edge, in edge
/// order, naming caller and callee by those positions.
pub open spec fn is_snapshot_of(
    snapshot: FullCallGraph,
    collector: Collector,
    registry: Registry,
) -> bool {
    &&& snapshot.spans_view().len() == collector.nodes().len()
    &&& forall|i: int| 0 <= i < collector.nodes().len()
        ==> #[trigger] snapshot.spans_view()[i] == spec_joined_span(collector, registry, i)
    &&& snapshot.calls_view().len() == collector.edges().len()
    &&& forall|k: int| 0 <= k < collector.edges().len()
        ==> #[trigger] snapshot.calls_view()[k] == spec_joined_call(collector, k)
}

/// The snapshot entry for the collector's node at position `i`.
pub open spec fn spec_joined_span(collector: Collector, registry: Registry, i: int) -> TimedSpan {
    TimedSpan {
        id: i as usize,
        callsite: site_with_id(registry, collector.nodes()[i].0),
        elapsed_ns: collector.nodes()[i].1,
        called: collector.nodes()[i].2,
    }
}

/// The snapshot entry for the collector's edge at position `k`.
pub open spec fn spec_joined_call(collector: Collector, k: int) -> Calls {
    Calls {
        caller: collector.edges()[k].0,
        callee: collector.edges()[k].1,
        count: collector.edges()[k].2,
    }
}

impl FullCallGraph {
    /// The snapshot's span entries, in node order.
    pub closed spec fn spans_view(self) -> Seq<TimedSpan> {
        self.spans@
    }

    /// The snapshot's call entries, in edge order.
    pub closed spec fn calls_view(self) -> Seq<Calls> {
        self.calls@
    }

    /// The full list of spans known by this snapshot.
    pub fn spans(&self) -> (r: &Vec<TimedSpan>)
        ensures
            r@ == self.spans_view(),
    {
        &self.spans
    }

    /// The list of calls between spans in this snapshot.
    pub fn calls(&self) -> (r: &Vec<Calls>)
        ensures
            r@ == self.calls_view(),
    {
        &self.calls
    }
}

/// Copy the collector's call graph, as currently known, into an immutable
/// snapshot, joining every node with its call site's registered metadata.
///
/// The whole copy reads one consistent state: in a live process it runs
/// under the accumulator's mutual-exclusion boundary, and the returned
/// value is untouched by whatever the live graph accumulates afterwards.
/// Every accumulated node must belong to a registered call site: data for
/// an unregistered site would mean registration was bypassed.
pub fn get_full_graph(collector: &Collector, registry: &Registry) -> (r: FullCallGraph)
    requires
        collector.wf(),
        registry.wf(),
        forall|i: int| 0 <= i < collector.nodes().len()
            ==> registry.spec_contains_id((#[trigger] collector.nodes()[i]).0),
    ensures
        is_snapshot_of(r, *collector, *registry),
{
    let mut spans: Vec<TimedSpan> = Vec::new();
    let node_total = collector.graph.node_count();
    let mut i: usize = 0;
    while i < node_total
        invariant
            0 <= i <= node_total,
            node_total == collector.nodes().len(),
            collector.wf(),
            registry.wf(),
            forall|j: int| 0 <= j < collector.nodes().len()
                ==> registry.spec_contains_id((#[trigger] collector.nodes()[j]).0),
            spans@.len() == i,
            forall|j: int| 0 <= j < i
                ==> #[trigger] spans@[j] == spec_joined_span(*collector, *registry, j),
        decreases node_total - i,
    {
        let w = collector.graph.node_at(i);
        let node = LightGraphNode::from_weight(w);
        let site = match registry.site_for(w.0) {
            Some(site) => site,
            None => {
                proof {
                    assert(false);
                }
                CallSite {
                    id: CallSiteId { value: 1 },
                    name: "",
                    module: "",
                    file: "",
                    line: 0,
                }
            }
        };
        spans.push(TimedSpan::new(node, i, site));
        i = i + 1;
    }

    let mut calls: Vec<Calls> = Vec::new();
    let edge_total = collector.graph.edge_count();
    let mut k: usize = 0;
    while k < edge_total
        invariant
            0 <= k <= edge_total,
            edge_total == collector.edges().len(),
            calls@.len() == k,
            forall|j: int| 0 <= j < k
                ==> #[trigger] calls@[j] == spec_joined_call(*collector, j),
        decreases edge_total - k,
    {
        let e = collector.graph.edge_at(k);
        calls.push(Calls { caller: e.0, callee: e.1, count: e.2 });
        k = k + 1;
    }

    FullCallGraph { spans, calls }
}

/// Making sure a node exists preserves distinctness, creates the node,
/// and leaves every existing node in place.
proof fn lemma_add_node_shape(nodes: Seq<NodeWeight>, cs: u64)
    requires
        nodes_distinct(nodes),
    ensures
        nodes_distinct(spec_add_node(nodes, cs)),
        has_node(spec_add_node(nodes, cs), cs),
        spec_add_node(nodes, cs).len() >= nodes.len(),
        forall|i: int| 0 <= i < nodes.len() ==> #[trigger] spec_add_node(nodes, cs)[i] == nodes[i],
{
    let grown = spec_add_node(nodes, cs);
    if has_node(nodes, cs) {
        assert(grown == nodes);
    } else {
        assert(grown[nodes.len() as int].0 == cs);
        assert forall|i: int, j: int| 0 <= i < j < grown.len()
            implies (#[trigger] grown[i]).0 != (#[trigger] grown[j]).0 by {
            if j == grown.len() - 1 {
                assert(nodes[i].0 != cs);
            }
        }
    }
}

/// Law: recording one span execution while a node for its call site holds
/// `elapsed` nanoseconds over `called` calls leaves that node (and, with a
/// missing node, a fresh one counted from zero) at exactly `elapsed`
/// plus the measured time — clamped at the largest value — and exactly
/// `called` plus one; whatever the parent was.
pub proof fn lemma_record_accounts_one_call(
    nodes: Seq<NodeWeight>,
    edges: Seq<EdgeRecord>,
    cs: u64,
    parent: Option<u64>,
    d: u64,
)
    requires
        graph_inv(nodes, edges),
    ensures
        ({
            let grown = spec_record_nodes(nodes, cs, parent, d);
            let before_elapsed: u64 =
                if has_node(nodes, cs) { nodes[node_index(nodes, cs)].1 } else { 0u64 };
            let before_called: u32 =
                if has_node(nodes, cs) { nodes[node_index(nodes, cs)].2 } else { 0u32 };
            exists|i: int| 0 <= i < grown.len()
                && (#[trigger] grown[i]).0 == cs
                && grown[i].1 == sat_add_u64(before_elapsed, d)
                && grown[i].2 == sat_inc_u32(before_called)
        }),
{
    let ensured = spec_add_node(nodes, cs);
    lemma_add_node_shape(nodes, cs);
    let i = if has_node(nodes, cs) { node_index(nodes, cs) } else { nodes.len() as int };
    if has_node(nodes, cs) {
        assert(0 <= i < nodes.len() && nodes[i].0 == cs);
        assert(ensured == nodes);
    } else {
        assert(ensured[i] == (cs, 0u64, 0u32));
    }
    lemma_node_index_of(ensured, cs, i);
    let timed = spec_increase_timing(ensured, cs, d);
    assert(timed[i].0 == cs
        && timed[i].1 == sat_add_u64(ensured[i].1, d)
        && timed[i].2 == sat_inc_u32(ensured[i].2));
    let grown = spec_record_nodes(nodes, cs, parent, d);
    match parent {
        Some(p) => {
            assert forall|a: int, b: int| 0 <= a < b < timed.len()
                implies (#[trigger] timed[a]).0 != (#[trigger] timed[b]).0 by {
                assert(timed[a].0 == ensured[a].0);
                assert(timed[b].0 == ensured[b].0);
            }
            lemma_add_node_shape(timed, p);
            assert(grown[i] == timed[i]);
        }
        None => {
            assert(grown == timed);
        }
    }
    assert(0 <= i < grown.len() && grown[i].0 == cs);
}

/// Law: recording a span execution that had a parent leaves an edge from
/// the parent's node to the child's node carrying a count of at least
/// one.  Parent and child may be one call site: a self-recursive call
/// leaves such a count on a self-loop edge.
pub proof fn lemma_record_links_parent_to_child(
    nodes: Seq<NodeWeight>,
    edges: Seq<EdgeRecord>,
    cs: u64,
    p: u64,
    d: u64,
)
    requires
        graph_inv(nodes, edges),
        nodes.len() + 2 <= usize::MAX,
    ensures
        ({
            let grown = spec_record_nodes(nodes, cs, Some(p), d);
            let linked = spec_record_edges(nodes, edges, cs, Some(p), d);
            exists|k: int| edge_connects(grown, linked, k, p, cs) && linked[k].2 >= 1
        }),
{
    let grown = spec_record_nodes(nodes, cs, Some(p), d);
    let linked = spec_record_edges(nodes, edges, cs, Some(p), d);
    assert(linked == spec_increase_call(grown, edges, p, cs));
    if has_edge(grown, edges, p, cs) {
        let k = edge_index(grown, edges, p, cs);
        assert(edge_connects(grown, edges, k, p, cs));
        assert(linked[k].2 == sat_inc_usize(edges[k].2));
        assert(edge_connects(grown, linked, k, p, cs));
    } else {
        let k = edges.len() as int;
        let ensured = spec_add_node(nodes, cs);
        lemma_add_node_shape(nodes, cs);
        let timed = spec_increase_timing(ensured, cs, d);
        let ci = node_index(ensured, cs);
        assert(0 <= ci < ensured.len() && ensured[ci].0 == cs);
        assert forall|a: int, b: int| 0 <= a < b < timed.len()
            implies (#[trigger] timed[a]).0 != (#[trigger] timed[b]).0 by {
            assert(timed[a].0 == ensured[a].0);
            assert(timed[b].0 == ensured[b].0);
        }
        assert(timed[ci].0 == cs);
        lemma_add_node_shape(timed, p);
        assert(has_node(grown, cs)) by {
            lemma_same_ids_keep_nodes(timed, grown, cs);
            assert(has_node(timed, cs)) by {
                assert(timed[ci].0 == cs);
            }
        }
        let pi = node_index(grown, p);
        let ci2 = node_index(grown, cs);
        assert(0 <= pi < grown.len() && grown[pi].0 == p);
        assert(0 <= ci2 < grown.len() && grown[ci2].0 == cs);
        assert(linked[k] == (pi as usize, ci2 as usize, 1usize));
        assert(edge_connects(grown, linked, k, p, cs));
    }
}

/// Law: a snapshot taken after the collector was cleared shows an empty
/// span list and an empty call list.
pub proof fn lemma_snapshot_of_empty_is_empty(
    snapshot: FullCallGraph,
    collector: Collector,
    registry: Registry,
)
    requires
        collector.nodes().len() == 0,
        collector.edges().len() == 0,
        is_snapshot_of(snapshot, collector, registry),
    ensures
        snapshot.spans_view() =~= Seq::<TimedSpan>::empty(),
        snapshot.calls_view() =~= Seq::<Calls>::empty(),
{
}

/// Law: two snapshots of one collector state and one registry are
/// structurally identical — taking a snapshot twice without intervening
/// mutation yields the same spans and the same calls.
pub proof fn lemma_snapshot_deterministic(
    first: FullCallGraph,
    second: FullCallGraph,
    collector: Collector,
    registry: Registry,
)
    requires
        is_snapshot_of(first, collector, registry),
        is_snapshot_of(second, collector, registry),
    ensures
        first.spans_view() =~= second.spans_view(),
        first.calls_view() =~= second.calls_view(),
{
}

/// Replacing only an edge's weight preserves the graph invariant.
proof fn lemma_update_edge_weight_keeps_inv(
    nodes: Seq<NodeWeight>,
    edges: Seq<EdgeRecord>,
    k: int,
    w: usize,
)
    requires
        graph_inv(nodes, edges),
        0 <= k < edges.len(),
    ensures
        graph_inv(nodes, edges.update(k, (edges[k].0, edges[k].1, w))),
{
    let updated = edges.update(k, (edges[k].0, edges[k].1, w));
    assert forall|k1: int, k2: int| 0 <= k1 < k2 < updated.len()
        implies !((#[trigger] updated[k1]).0 == (#[trigger] updated[k2]).0
            && updated[k1].1 == updated[k2].1) by {
        assert(updated[k1].0 == edges[k1].0 && updated[k1].1 == edges[k1].1);
        assert(updated[k2].0 == edges[k2].0 && updated[k2].1 == edges[k2].1);
    }
}

} // verus!
