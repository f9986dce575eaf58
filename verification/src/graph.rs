//! The render graph: named nodes, ordering edges between them, and the fixed
//! order of execution that the edges allow.
use vstd::prelude::*;
use vstd::set_lib::{lemma_len_subset, lemma_subset_equality};

verus! {

/// Names a node of the render graph.
#[derive(Clone, Copy, Debug, PartialEq, Eq, Structural)]
pub enum NodeLabel {
    StartMainPass,
    MainPass,
    EndMainPass,
    Bloom,
    Tonemapping,
    /// The node of this crate's effect.
    PostProcess,
    Fxaa,
    EndMainPassPostProcessing,
    Upscaling,
    /// A node of the host's own.
    Custom(u32),
}

/// An ordering edge: `before` runs strictly before `after`.
#[derive(Clone, Copy, Debug, PartialEq, Eq, Structural)]
pub struct Edge {
    pub before: NodeLabel,
    pub after: NodeLabel,
}

/// Why the graph refused a change, or has no order.
#[derive(Clone, Copy, Debug, PartialEq, Eq, Structural)]
pub enum GraphError {
    /// A node of this name is in the graph already.
    NodeAlreadyExists(NodeLabel),
    /// An edge names a node that is not in the graph.
    InvalidNode(NodeLabel),
    /// The edge is in the graph already.
    EdgeAlreadyExists(Edge),
    /// The edges admit no order of execution.
    Cycle,
}

/// A render graph as plain values: its nodes and edges, each in the order
/// in which they were added.
pub struct GraphView {
    pub nodes: Seq<NodeLabel>,
    pub edges: Seq<Edge>,
}

impl GraphView {
    /// No node and no edge occurs twice, and every edge joins two nodes of
    /// the graph.
    pub open spec fn wf(self) -> bool {
        &&& self.nodes.no_duplicates()
        &&& self.edges.no_duplicates()
        &&& forall|k: int|
            0 <= k < self.edges.len() ==> self.nodes.contains((#[trigger] self.edges[k]).before)
                && self.nodes.contains(self.edges[k].after)
    }

    /// The graph with one more node, added last.
    pub open spec fn with_node(self, label: NodeLabel) -> GraphView {
        GraphView { nodes: self.nodes.push(label), edges: self.edges }
    }

    /// The graph with one more edge, added last.
    pub open spec fn with_edge(self, before: NodeLabel, after: NodeLabel) -> GraphView {
        GraphView { nodes: self.nodes, edges: self.edges.push(Edge { before, after }) }
    }

    /// What adding the node `label` leads to: the graph with the node, or the
    /// refusal of a name that is taken.
    pub open spec fn add_node(self, label: NodeLabel) -> Result<GraphView, GraphError> {
        if self.nodes.contains(label) {
            Err(GraphError::NodeAlreadyExists(label))
        } else {
            Ok(self.with_node(label))
        }
    }

    /// What adding the edge from `before` to `after` leads to: the graph
    /// with the edge, or the refusal of an unknown node (`before` is looked
    /// at first) or of an edge that is there already.
    pub open spec fn add_edge(self, before: NodeLabel, after: NodeLabel) -> Result<
        GraphView,
        GraphError,
    > {
        if !self.nodes.contains(before) {
            Err(GraphError::InvalidNode(before))
        } else if !self.nodes.contains(after) {
            Err(GraphError::InvalidNode(after))
        } else if self.edges.contains(Edge { before, after }) {
            Err(GraphError::EdgeAlreadyExists(Edge { before, after }))
        } else {
            Ok(self.with_edge(before, after))
        }
    }
}

/// Every edge that ends in `label` starts at a node of `emitted`: with
/// `emitted` done, `label` may run.
pub open spec fn node_ready(g: GraphView, emitted: Seq<NodeLabel>, label: NodeLabel) -> bool {
    forall|k: int|
        0 <= k < g.edges.len() && (#[trigger] g.edges[k]).after == label ==> emitted.contains(
            g.edges[k].before,
        )
}

/// The `i`-th node is the first, in the order in which the nodes were added,
/// that has not run and may run once `emitted` is done.
pub open spec fn first_ready(g: GraphView, emitted: Seq<NodeLabel>, i: int) -> bool {
    &&& 0 <= i < g.nodes.len()
    &&& !emitted.contains(g.nodes[i])
    &&& node_ready(g, emitted, g.nodes[i])
    &&& forall|j: int|
        0 <= j < i ==> emitted.contains(#[trigger] g.nodes[j]) || !node_ready(
            g,
            emitted,
            g.nodes[j],
        )
}

/// `order` runs every node of the graph once, and the start of every edge
/// before its end.
pub open spec fn is_execution_order(g: GraphView, order: Seq<NodeLabel>) -> bool {
    &&& order.no_duplicates()
    &&& forall|label: NodeLabel| order.contains(label) <==> g.nodes.contains(label)
    &&& forall|k: int, i: int, j: int|
        #![trigger g.edges[k], order[i], order[j]]
        0 <= k < g.edges.len() && 0 <= i < order.len() && 0 <= j < order.len() && order[i]
            == g.edges[k].before && order[j] == g.edges[k].after ==> i < j
}

/// At place `p`, `order` runs the first node that may run after those
/// before `p`.
pub open spec fn first_ready_at(g: GraphView, order: Seq<NodeLabel>, p: int) -> bool {
    exists|i: int| first_ready(g, order.take(p), i) && g.nodes[i] == order[p]
}

/// Among the orders of execution, the one that at every place runs the
/// first node that may run.
pub open spec fn is_first_ready_order(g: GraphView, order: Seq<NodeLabel>) -> bool {
    forall|p: int| 0 <= p < order.len() ==> #[trigger] first_ready_at(g, order, p)
}

// Two duplicate-free sequences, one within the other: the inner one is no
// longer, and of equal length it holds all of the outer one.
proof fn lemma_contained_labels(inner: Seq<NodeLabel>, outer: Seq<NodeLabel>)
    requires
        inner.no_duplicates(),
        outer.no_duplicates(),
        forall|label: NodeLabel| inner.contains(label) ==> outer.contains(label),
    ensures
        inner.len() <= outer.len(),
        inner.len() == outer.len() ==> forall|label: NodeLabel|
            outer.contains(label) ==> inner.contains(label),
{
    inner.unique_seq_to_set();
    outer.unique_seq_to_set();
    vstd::seq_lib::seq_to_set_is_finite(inner);
    vstd::seq_lib::seq_to_set_is_finite(outer);
    assert(inner.to_set().subset_of(outer.to_set()));
    lemma_len_subset(inner.to_set(), outer.to_set());
    if inner.len() == outer.len() {
        lemma_subset_equality(inner.to_set(), outer.to_set());
        assert forall|label: NodeLabel| outer.contains(label) implies inner.contains(label) by {
            assert(outer.to_set().contains(label));
            assert(inner.to_set().contains(label));
        }
    }
}

// The first place from `from` on at which `o` holds a label that `emitted`
// lacks.
proof fn first_missing(o: Seq<NodeLabel>, emitted: Seq<NodeLabel>, from: int) -> (m: int)
    requires
        0 <= from <= o.len(),
        forall|j: int| 0 <= j < from ==> emitted.contains(#[trigger] o[j]),
        exists|j: int| from <= j < o.len() && !emitted.contains(#[trigger] o[j]),
    ensures
        0 <= m < o.len(),
        !emitted.contains(o[m]),
        forall|j: int| 0 <= j < m ==> emitted.contains(#[trigger] o[j]),
    decreases o.len() - from,
{
    if !emitted.contains(o[from]) {
        from
    } else {
        let w = choose|j: int| from <= j < o.len() && !emitted.contains(#[trigger] o[j]);
        assert(from + 1 <= w < o.len() && !emitted.contains(o[w]));
        first_missing(o, emitted, from + 1)
    }
}

/// Where some nodes have run, others have not, and none of those may run,
/// the graph has no order of execution.
pub proof fn lemma_stuck_has_no_order(g: GraphView, emitted: Seq<NodeLabel>, o: Seq<NodeLabel>)
    requires
        g.wf(),
        emitted.no_duplicates(),
        forall|label: NodeLabel| emitted.contains(label) ==> g.nodes.contains(label),
        emitted.len() < g.nodes.len(),
        forall|i: int|
            0 <= i < g.nodes.len() ==> emitted.contains(#[trigger] g.nodes[i]) || !node_ready(
                g,
                emitted,
                g.nodes[i],
            ),
    ensures
        !is_execution_order(g, o),
{
    if is_execution_order(g, o) {
        if forall|label: NodeLabel| g.nodes.contains(label) ==> emitted.contains(label) {
            lemma_contained_labels(g.nodes, emitted);
            assert(false);
        }
        let missing = choose|label: NodeLabel|
            g.nodes.contains(label) && !emitted.contains(label);
        assert(o.contains(missing));
        let w = o.index_of(missing);
        assert(0 <= w < o.len() && !emitted.contains(o[w]));
        let m = first_missing(o, emitted, 0);
        let r = o[m];
        assert(o.contains(r));
        assert(g.nodes.contains(r));
        let ir = g.nodes.index_of(r);
        assert(g.nodes[ir] == r);
        assert(!node_ready(g, emitted, r));
        let k = choose|k: int|
            0 <= k < g.edges.len() && (#[trigger] g.edges[k]).after == r && !emitted.contains(
                g.edges[k].before,
            );
        let b = g.edges[k].before;
        assert(g.nodes.contains(b));
        assert(o.contains(b));
        let jb = o.index_of(b);
        assert(o[jb] == g.edges[k].before && o[m] == g.edges[k].after);
        assert(jb < m);
        assert(emitted.contains(o[jb]));
        assert(false);
    }
}

/// An order that runs as many distinct nodes as the graph has, each only
/// after the starts of all edges that end in it, is an order of execution.
pub proof fn lemma_ready_order_is_execution_order(g: GraphView, order: Seq<NodeLabel>)
    requires
        g.wf(),
        order.no_duplicates(),
        order.len() == g.nodes.len(),
        forall|label: NodeLabel| order.contains(label) ==> g.nodes.contains(label),
        forall|p: int| 0 <= p < order.len() ==> node_ready(g, order.take(p), #[trigger] order[p]),
    ensures
        is_execution_order(g, order),
{
    lemma_contained_labels(order, g.nodes);
    assert forall|k: int, i: int, j: int|
        #![trigger g.edges[k], order[i], order[j]]
        0 <= k < g.edges.len() && 0 <= i < order.len() && 0 <= j < order.len() && order[i]
            == g.edges[k].before && order[j] == g.edges[k].after implies i < j by {
        assert(node_ready(g, order.take(j), order[j]));
        assert(order.take(j).contains(g.edges[k].before));
        let early = order.take(j).index_of(g.edges[k].before);
        assert(0 <= early < j && order.take(j)[early] == g.edges[k].before);
        assert(order[early] == order[i]);
    }
}

fn contains_label(labels: &Vec<NodeLabel>, label: NodeLabel) -> (r: bool)
    ensures
        r == labels@.contains(label),
{
    let mut i: usize = 0;
    while i < labels.len()
        invariant
            i <= labels@.len(),
            forall|k: int| 0 <= k < i ==> labels@[k] != label,
        decreases labels.len() - i,
    {
        if labels[i] == label {
            return true;
        }
        i += 1;
    }
    false
}

/// The render graph of the host, as far as ordering goes.
#[derive(Debug)]
pub struct RenderGraph {
    nodes: Vec<NodeLabel>,
    edges: Vec<Edge>,
}

impl View for RenderGraph {
    type V = GraphView;

    closed spec fn view(&self) -> GraphView {
        GraphView { nodes: self.nodes@, edges: self.edges@ }
    }
}

impl RenderGraph {
    /// The graph's invariant.
    pub open spec fn wf(&self) -> bool {
        self@.wf()
    }

    /// A graph without nodes.
    pub fn new() -> (graph: RenderGraph)
        ensures
            graph.wf(),
            graph@.nodes.len() == 0,
            graph@.edges.len() == 0,
    {
        RenderGraph { nodes: Vec::new(), edges: Vec::new() }
    }

    /// The nodes, in the order in which they were added.
    pub fn nodes(&self) -> (nodes: &Vec<NodeLabel>)
        ensures
            nodes@ == self@.nodes,
    {
        &self.nodes
    }

    /// The edges, in the order in which they were added.
    pub fn edges(&self) -> (edges: &Vec<Edge>)
        ensures
            edges@ == self@.edges,
    {
        &self.edges
    }

    /// Whether the graph has a node named `label`.
    pub fn has_node(&self, label: NodeLabel) -> (r: bool)
        ensures
            r == self@.nodes.contains(label),
    {
        contains_label(&self.nodes, label)
    }

    /// Whether the graph orders `before` before `after` by an edge.
    pub fn has_edge(&self, before: NodeLabel, after: NodeLabel) -> (r: bool)
        ensures
            r == self@.edges.contains(Edge { before, after }),
    {
        let wanted = Edge { before, after };
        let mut i: usize = 0;
        while i < self.edges.len()
            invariant
                wanted == (Edge { before, after }),
                i <= self.edges@.len(),
                forall|k: int| 0 <= k < i ==> self.edges@[k] != wanted,
            decreases self.edges.len() - i,
        {
            if self.edges[i] == wanted {
                assert(self@.edges[i as int] == wanted);
                return true;
            }
            i += 1;
        }
        false
    }

    /// Adds a node. A name that is taken is refused and the graph stays as
    /// it is: no name ever stands for two nodes.
    pub fn add_node(&mut self, label: NodeLabel) -> (r: Result<(), GraphError>)
        requires
            old(self).wf(),
        ensures
            final(self).wf(),
            match old(self)@.add_node(label) {
                Ok(graph) => r is Ok && final(self)@ == graph,
                Err(error) => r == Err::<(), GraphError>(error) && final(self)@ == old(self)@,
            },
    {
        if self.has_node(label) {
            return Err(GraphError::NodeAlreadyExists(label));
        }
        self.nodes.push(label);
        proof {
            let before = old(self)@;
            let after = self@;
            assert forall|k: int| 0 <= k < after.edges.len() implies after.nodes.contains(
                (#[trigger] after.edges[k]).before,
            ) && after.nodes.contains(after.edges[k].after) by {
                let e = before.edges[k];
                let a = before.nodes.index_of(e.before);
                let b = before.nodes.index_of(e.after);
                assert(after.nodes[a] == e.before);
                assert(after.nodes[b] == e.after);
            }
        }
        Ok(())
    }

    /// Adds the ordering edge from `before` to `after`. An edge to or from
    /// an unknown node, or one that is there already, is refused and the
    /// graph stays as it is.
    pub fn add_node_edge(&mut self, before: NodeLabel, after: NodeLabel) -> (r: Result<
        (),
        GraphError,
    >)
        requires
            old(self).wf(),
        ensures
            final(self).wf(),
            match old(self)@.add_edge(before, after) {
                Ok(graph) => r is Ok && final(self)@ == graph,
                Err(error) => r == Err::<(), GraphError>(error) && final(self)@ == old(self)@,
            },
    {
        if !self.has_node(before) {
            return Err(GraphError::InvalidNode(before));
        }
        if !self.has_node(after) {
            return Err(GraphError::InvalidNode(after));
        }
        if self.has_edge(before, after) {
            return Err(GraphError::EdgeAlreadyExists(Edge { before, after }));
        }
        self.edges.push(Edge { before, after });
        proof {
            let was = old(self)@;
            let now = self@;
            assert forall|k: int| 0 <= k < now.edges.len() implies now.nodes.contains(
                (#[trigger] now.edges[k]).before,
            ) && now.nodes.contains(now.edges[k].after) by {
                if k < was.edges.len() {
                    assert(now.edges[k] == was.edges[k]);
                }
            }
        }
        Ok(())
    }

    fn is_ready(&self, emitted: &Vec<NodeLabel>, label: NodeLabel) -> (r: bool)
        ensures
            r == node_ready(self@, emitted@, label),
    {
        let mut k: usize = 0;
        while k < self.edges.len()
            invariant
                k <= self.edges@.len(),
                forall|c: int|
                    0 <= c < k && (#[trigger] self.edges@[c]).after == label
                        ==> emitted@.contains(self.edges@[c].before),
            decreases self.edges.len() - k,
        {
            if self.edges[k].after == label && !contains_label(emitted, self.edges[k].before) {
                return false;
            }
            k += 1;
        }
        true
    }

    fn pick_ready(&self, emitted: &Vec<NodeLabel>) -> (r: Option<usize>)
        ensures
            match r {
                Some(i) => first_ready(self@, emitted@, i as int),
                None => forall|i: int|
                    0 <= i < self@.nodes.len() ==> emitted@.contains(#[trigger] self@.nodes[i])
                        || !node_ready(self@, emitted@, self@.nodes[i]),
            },
    {
        let mut i: usize = 0;
        while i < self.nodes.len()
            invariant
                i <= self.nodes@.len(),
                forall|j: int|
                    0 <= j < i ==> emitted@.contains(#[trigger] self@.nodes[j]) || !node_ready(
                        self@,
                        emitted@,
                        self@.nodes[j],
                    ),
            decreases self.nodes.len() - i,
        {
            if !contains_label(emitted, self.nodes[i]) && self.is_ready(emitted, self.nodes[i]) {
                return Some(i);
            }
            i += 1;
        }
        None
    }

    /// Resolves the graph into its fixed order of execution: every node
    /// once, the start of every edge before its end, and at each place the
    /// first node, in the order in which the nodes were added, that may run
    /// there. Fails exactly when the edges admit no order at all.
    pub fn execution_order(&self) -> (r: Result<Vec<NodeLabel>, GraphError>)
        requires
            self.wf(),
        ensures
            match r {
                Ok(order) => is_execution_order(self@, order@) && is_first_ready_order(
                    self@,
                    order@,
                ),
                Err(error) => error == GraphError::Cycle && forall|o: Seq<NodeLabel>|
                    !is_execution_order(self@, o),
            },
    {
        let n = self.nodes.len();
        let mut order: Vec<NodeLabel> = Vec::new();
        while order.len() < n
            invariant
                self.wf(),
                n == self@.nodes.len(),
                order@.len() <= n,
                order@.no_duplicates(),
                forall|label: NodeLabel| order@.contains(label) ==> self@.nodes.contains(label),
                is_first_ready_order(self@, order@),
                forall|p: int|
                    0 <= p < order@.len() ==> node_ready(
                        self@,
                        order@.take(p),
                        #[trigger] order@[p],
                    ),
            decreases n - order.len(),
        {
            match self.pick_ready(&order) {
                None => {
                    proof {
                        assert forall|o: Seq<NodeLabel>| !is_execution_order(self@, o) by {
                            lemma_stuck_has_no_order(self@, order@, o);
                        }
                    }
                    return Err(GraphError::Cycle);
                },
                Some(i) => {
                    let ghost before = order@;
                    let label = self.nodes[i];
                    order.push(label);
                    proof {
                        let now = order@;
                        let last = before.len() as int;
                        assert(now.take(last) =~= before);
                        assert forall|x: NodeLabel| now.contains(x) implies self@.nodes.contains(
                            x,
                        ) by {
                            let at = now.index_of(x);
                            assert(0 <= at < now.len() && now[at] == x);
                            if at < last {
                                assert(before[at] == x);
                                assert(before.contains(x));
                            } else {
                                assert(self@.nodes[i as int] == x);
                            }
                        }
                        assert forall|p: int| 0 <= p < now.len() implies #[trigger] first_ready_at(
                            self@,
                            now,
                            p,
                        ) && node_ready(self@, now.take(p), now[p]) by {
                            if p < last {
                                assert(now.take(p) =~= before.take(p));
                                assert(now[p] == before[p]);
                                assert(first_ready_at(self@, before, p));
                            } else {
                                assert(first_ready(self@, now.take(p), i as int));
                            }
                        }
                    }
                },
            }
        }
        proof {
            lemma_ready_order_is_execution_order(self@, order@);
        }
        Ok(order)
    }
}

/// The first-ready order is one order: two of them of equal length are equal.
pub proof fn lemma_first_ready_order_unique(g: GraphView, a: Seq<NodeLabel>, b: Seq<NodeLabel>)
    requires
        is_first_ready_order(g, a),
        is_first_ready_order(g, b),
        a.len() == b.len(),
    ensures
        a == b,
{
    lemma_first_ready_prefix(g, a, b, a.len() as int);
    assert(a.take(a.len() as int) =~= a);
    assert(b.take(b.len() as int) =~= b);
}

proof fn lemma_first_ready_prefix(g: GraphView, a: Seq<NodeLabel>, b: Seq<NodeLabel>, p: int)
    requires
        is_first_ready_order(g, a),
        is_first_ready_order(g, b),
        0 <= p <= a.len(),
        p <= b.len(),
    ensures
        a.take(p) == b.take(p),
    decreases p,
{
    if p == 0 {
        assert(a.take(0) =~= b.take(0));
    } else {
        lemma_first_ready_prefix(g, a, b, p - 1);
        let emitted = a.take(p - 1);
        assert(first_ready_at(g, a, p - 1));
        assert(first_ready_at(g, b, p - 1));
        let i = choose|i: int| first_ready(g, a.take(p - 1), i) && g.nodes[i] == a[p - 1];
        let j = choose|j: int| first_ready(g, b.take(p - 1), j) && g.nodes[j] == b[p - 1];
        assert(first_ready(g, emitted, i) && first_ready(g, emitted, j));
        if i < j {
            assert(emitted.contains(g.nodes[i]) || !node_ready(g, emitted, g.nodes[i]));
        } else if j < i {
            assert(emitted.contains(g.nodes[j]) || !node_ready(g, emitted, g.nodes[j]));
        }
        assert(a[p - 1] == b[p - 1]);
        assert(a.take(p) =~= a.take(p - 1).push(a[p - 1]));
        assert(b.take(p) =~= b.take(p - 1).push(b[p - 1]));
    }
}

/// In every order of execution the start of an edge of the graph runs
/// strictly before its end.
pub proof fn lemma_edge_orders(
    g: GraphView,
    order: Seq<NodeLabel>,
    before: NodeLabel,
    after: NodeLabel,
)
    requires
        is_execution_order(g, order),
        g.edges.contains(Edge { before, after }),
        g.nodes.contains(before),
        g.nodes.contains(after),
    ensures
        order.contains(before),
        order.contains(after),
        order.index_of(before) < order.index_of(after),
{
    let k = g.edges.index_of(Edge { before, after });
    let i = order.index_of(before);
    let j = order.index_of(after);
    assert(order.contains(before) && order.contains(after));
    assert(order[i] == g.edges[k].before && order[j] == g.edges[k].after);
}

} // verus!
