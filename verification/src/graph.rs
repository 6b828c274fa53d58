//! Computational graph: a static list of operation nodes in execution
//! order, with a fusion pass that merges a linear node and the activation
//! that follows it.
use vstd::prelude::*;

verus! {

/// Operations the engine knows.
#[derive(Debug, Clone, Copy, PartialEq, Eq, Hash, Structural)]
pub enum Op {
    /// Matrix multiplication: Y = X * W
    MatMul,
    /// Element-wise addition: Y = X + b
    Add,
    /// ReLU activation: Y = max(0, X)
    ReLU,
    /// GELU activation
    GELU,
    /// Softmax normalization
    Softmax,
    /// Layer normalization
    LayerNorm,
    /// Fused Linear + ReLU
    FusedLinearReLU,
    /// Fused Linear + GELU
    FusedLinearGELU,
    /// Multi-head attention
    Attention,
    /// Element-wise multiplication
    Multiply,
}

/// `first` followed by `next` can be merged into one fused operation.
pub open spec fn can_fuse_ops(first: Op, next: Op) -> bool {
    (first == Op::MatMul || first == Op::Add) && (next == Op::ReLU || next == Op::GELU)
}

/// The operation that `first` followed by `next` fuse into, if any.
pub open spec fn fused_op(first: Op, next: Op) -> Option<Op> {
    if (first == Op::MatMul || first == Op::Add) && next == Op::ReLU {
        Some(Op::FusedLinearReLU)
    } else if (first == Op::MatMul || first == Op::Add) && next == Op::GELU {
        Some(Op::FusedLinearGELU)
    } else {
        None
    }
}

impl Op {
    /// Whether this operation followed by `next` can be fused.
    pub fn can_fuse_with(&self, next: &Op) -> (r: bool)
        ensures
            r == can_fuse_ops(*self, *next),
    {
        match (self, next) {
            (Op::MatMul, Op::ReLU) | (Op::MatMul, Op::GELU) | (Op::Add, Op::ReLU) | (
                Op::Add,
                Op::GELU,
            ) => true,
            _ => false,
        }
    }

    /// The fused operation for this operation followed by `next`.
    pub fn fuse(&self, next: &Op) -> (r: Option<Op>)
        ensures
            r == fused_op(*self, *next),
            r matches Some(f) ==> fused_activation(f) == Some(*next) && fused_linear_part(f),
    {
        match (self, next) {
            (Op::MatMul, Op::ReLU) | (Op::Add, Op::ReLU) => Some(Op::FusedLinearReLU),
            (Op::MatMul, Op::GELU) | (Op::Add, Op::GELU) => Some(Op::FusedLinearGELU),
            _ => None,
        }
    }
}

/// Operation-specific parameters. A layer norm's epsilon is kept as the bit
/// pattern of its `f32` value.
#[derive(Debug, Clone, Copy, PartialEq, Eq, Structural)]
pub enum NodeMetadata {
    NoParams,
    MatMul { m: usize, k: usize, n: usize },
    Attention { num_heads: usize, head_dim: usize, seq_len: usize },
    LayerNorm { epsilon: u32 },
}

/// A node of the graph.
#[derive(Debug, Clone)]
pub struct Node {
    /// Identifier of the node
    pub id: usize,
    /// Operation to perform
    pub op: Op,
    /// Arena offsets of the input tensors
    pub inputs: Vec<usize>,
    /// Arena offset of the output tensor
    pub output: usize,
    /// Operation-specific parameters
    pub metadata: NodeMetadata,
}

/// A node as a mathematical value.
pub struct NodeView {
    pub id: usize,
    pub op: Op,
    pub inputs: Seq<usize>,
    pub output: usize,
    pub metadata: NodeMetadata,
}

impl View for Node {
    type V = NodeView;

    open spec fn view(&self) -> NodeView {
        NodeView {
            id: self.id,
            op: self.op,
            inputs: self.inputs@,
            output: self.output,
            metadata: self.metadata,
        }
    }
}

/// The node's operation can be the first half of a fusion.
pub open spec fn node_fusable(n: NodeView) -> bool {
    n.op == Op::MatMul || n.op == Op::Add
}

impl Node {
    /// Whether this node can be fused with the node after it.
    pub fn is_fusable(&self) -> (r: bool)
        ensures
            r == node_fusable(self@),
    {
        match self.op {
            Op::MatMul | Op::Add => true,
            _ => false,
        }
    }

    fn copy(&self) -> (r: Node)
        ensures
            r@ == self@,
    {
        Node {
            id: self.id,
            op: self.op,
            inputs: copy_indices(&self.inputs),
            output: self.output,
            metadata: self.metadata,
        }
    }
}

fn copy_indices(v: &Vec<usize>) -> (r: Vec<usize>)
    ensures
        r@ == v@,
{
    let mut r: Vec<usize> = Vec::with_capacity(v.len());
    let mut i: usize = 0;
    while i < v.len()
        invariant
            i <= v@.len(),
            r@ == v@.subrange(0, i as int),
        decreases v@.len() - i,
    {
        r.push(v[i]);
        i = i + 1;
        assert(r@ =~= v@.subrange(0, i as int));
    }
    assert(v@.subrange(0, v@.len() as int) =~= v@);
    r
}

// ---------------------------------------------------------------------------
// The fusion pass, as a function on node sequences
// ---------------------------------------------------------------------------
/// The pass looks at `cur` and `next` as a fusion candidate; it then reads
/// `next`'s first input.
pub open spec fn pair_checked(cur: NodeView, next: NodeView) -> bool {
    can_fuse_ops(cur.op, next.op) && node_fusable(cur)
}

/// The pass merges `cur` and `next`: they can fuse and `next` reads what
/// `cur` writes.
pub open spec fn pair_fuses(cur: NodeView, next: NodeView) -> bool {
    &&& pair_checked(cur, next)
    &&& next.inputs.len() > 0
    &&& cur.output == next.inputs[0]
    &&& fused_op(cur.op, next.op) is Some
}

/// The node that replaces `cur` and `next` when they are fused.
pub open spec fn fused_node(cur: NodeView, next: NodeView) -> NodeView {
    NodeView {
        id: cur.id,
        op: fused_op(cur.op, next.op).unwrap(),
        inputs: cur.inputs,
        output: next.output,
        metadata: cur.metadata,
    }
}

/// The result of the fusion pass on `nodes[i..]`.
pub open spec fn optimize_from(nodes: Seq<NodeView>, i: int) -> Seq<NodeView>
    decreases nodes.len() - i,
{
    if i < 0 || i >= nodes.len() {
        Seq::empty()
    } else if i + 1 < nodes.len() && pair_fuses(nodes[i], nodes[i + 1]) {
        seq![fused_node(nodes[i], nodes[i + 1])] + optimize_from(nodes, i + 2)
    } else {
        seq![nodes[i]] + optimize_from(nodes, i + 1)
    }
}

/// The fusion pass: scanning left to right, each node that can fuse with the
/// node after it and feeds it is merged with it; every other node is kept.
pub open spec fn optimized(nodes: Seq<NodeView>) -> Seq<NodeView> {
    optimize_from(nodes, 0)
}

/// The pass, scanning `nodes[i..]`, never looks for the first input of a
/// candidate that has none.
pub open spec fn optimize_safe_from(nodes: Seq<NodeView>, i: int) -> bool
    decreases nodes.len() - i,
{
    if i < 0 || i >= nodes.len() {
        true
    } else if i + 1 < nodes.len() && pair_checked(nodes[i], nodes[i + 1]) && nodes[i
        + 1].inputs.len() == 0 {
        false
    } else if i + 1 < nodes.len() && pair_fuses(nodes[i], nodes[i + 1]) {
        optimize_safe_from(nodes, i + 2)
    } else {
        optimize_safe_from(nodes, i + 1)
    }
}

pub open spec fn optimize_safe(nodes: Seq<NodeView>) -> bool {
    optimize_safe_from(nodes, 0)
}

/// Number of nodes of `nodes` whose operation is `op`.
pub open spec fn count_op(nodes: Seq<NodeView>, op: Op) -> nat
    decreases nodes.len(),
{
    if nodes.len() == 0 {
        0
    } else {
        count_op(nodes.drop_last(), op) + if nodes.last().op == op {
            1nat
        } else {
            0nat
        }
    }
}

/// `pairs` records, once per operation, how many nodes of `nodes` carry it,
/// and leaves out no operation that occurs.
pub open spec fn counts_exact(pairs: Seq<(Op, usize)>, nodes: Seq<NodeView>) -> bool {
    &&& forall|k: int|
        0 <= k < pairs.len() ==> #[trigger] pairs[k].1 == count_op(nodes, pairs[k].0) && pairs[k].1
            > 0
    &&& forall|k: int, l: int| 0 <= k < l < pairs.len() ==> pairs[k].0 != pairs[l].0
    &&& forall|op: Op|
        #[trigger] count_op(nodes, op) > 0 ==> exists|k: int| 0 <= k < pairs.len() && pairs[k].0 == op
}

/// Sum of the counts in `pairs`.
pub open spec fn total_count(pairs: Seq<(Op, usize)>) -> int
    decreases pairs.len(),
{
    if pairs.len() == 0 {
        0
    } else {
        total_count(pairs.drop_last()) + pairs.last().1
    }
}

/// Statistics about a graph.
pub struct GraphStats {
    pub num_nodes: usize,
    pub num_tensors: usize,
    /// For each operation that occurs, how many nodes carry it, in order of
    /// first occurrence.
    pub op_counts: Vec<(Op, usize)>,
}

proof fn lemma_count_op_bound(nodes: Seq<NodeView>, op: Op)
    ensures
        count_op(nodes, op) <= nodes.len(),
    decreases nodes.len(),
{
    if nodes.len() > 0 {
        lemma_count_op_bound(nodes.drop_last(), op);
    }
}

proof fn lemma_count_op_take(nodes: Seq<NodeView>, i: int, op: Op)
    requires
        0 <= i < nodes.len(),
    ensures
        count_op(nodes.take(i + 1), op) == count_op(nodes.take(i), op) + if nodes[i].op == op {
            1nat
        } else {
            0nat
        },
{
    assert(nodes.take(i + 1).drop_last() =~= nodes.take(i));
}

fn position_of(pairs: &Vec<(Op, usize)>, op: Op) -> (r: Option<usize>)
    ensures
        r matches Some(j) ==> j < pairs@.len() && pairs@[j as int].0 == op,
        r is None ==> forall|k: int| 0 <= k < pairs@.len() ==> pairs@[k].0 != op,
{
    let mut j: usize = 0;
    while j < pairs.len()
        invariant
            j <= pairs@.len(),
            forall|k: int| 0 <= k < j ==> pairs@[k].0 != op,
        decreases pairs@.len() - j,
    {
        if pairs[j].0 == op {
            return Some(j);
        }
        j = j + 1;
    }
    None
}

// ---------------------------------------------------------------------------
// Graph
// ---------------------------------------------------------------------------
/// The computational graph: nodes in execution order.
pub struct Graph {
    nodes: Vec<Node>,
    tensor_producers: Vec<Option<usize>>,
    num_tensors: usize,
}

/// A graph as a mathematical value.
pub struct GraphView {
    pub nodes: Seq<NodeView>,
    pub tensor_producers: Seq<Option<usize>>,
    pub num_tensors: usize,
}

pub open spec fn view_nodes(nodes: Seq<Node>) -> Seq<NodeView> {
    nodes.map_values(|n: Node| n@)
}

impl View for Graph {
    type V = GraphView;

    closed spec fn view(&self) -> GraphView {
        GraphView {
            nodes: view_nodes(self.nodes@),
            tensor_producers: self.tensor_producers@,
            num_tensors: self.num_tensors,
        }
    }
}

/// `g` after appending node `n`: the node gets the next id in order and, if
/// its output names a known tensor, is recorded as that tensor's producer.
pub open spec fn graph_with_node(g: GraphView, n: NodeView) -> GraphView {
    GraphView {
        nodes: g.nodes.push(n),
        tensor_producers: if n.output < g.tensor_producers.len() {
            g.tensor_producers.update(n.output as int, Some(g.nodes.len() as usize))
        } else {
            g.tensor_producers
        },
        num_tensors: g.num_tensors,
    }
}

/// An empty graph over `num_tensors` tensors.
pub open spec fn empty_graph(num_tensors: usize) -> GraphView {
    GraphView {
        nodes: Seq::empty(),
        tensor_producers: Seq::new(num_tensors as nat, |i: int| None::<usize>),
        num_tensors,
    }
}

impl Graph {
    /// Creates an empty graph over `num_tensors` tensors.
    pub fn new(num_tensors: usize) -> (r: Self)
        ensures
            r@ == empty_graph(num_tensors),
    {
        let mut tensor_producers: Vec<Option<usize>> = Vec::with_capacity(num_tensors);
        let mut i: usize = 0;
        while i < num_tensors
            invariant
                i <= num_tensors,
                tensor_producers@ == Seq::new(i as nat, |j: int| None::<usize>),
            decreases num_tensors - i,
        {
            tensor_producers.push(None);
            i = i + 1;
            assert(tensor_producers@ =~= Seq::new(i as nat, |j: int| None::<usize>));
        }
        let r = Graph { nodes: Vec::new(), tensor_producers, num_tensors };
        assert(r@.nodes =~= Seq::<NodeView>::empty());
        r
    }

    /// Appends a node and returns its position.
    pub fn add_node(&mut self, node: Node) -> (r: usize)
        ensures
            r == old(self)@.nodes.len(),
            final(self)@ == graph_with_node(old(self)@, node@),
    {
        let node_id = self.nodes.len();
        if node.output < self.tensor_producers.len() {
            self.tensor_producers.set(node.output, Some(node_id));
        }
        self.nodes.push(node);
        assert(self@.nodes =~= old(self)@.nodes.push(node@));
        node_id
    }

    /// The node at position `id`, if there is one.
    #[inline]
    pub fn get_node(&self, id: usize) -> (r: Option<&Node>)
        ensures
            id < self@.nodes.len() ==> r is Some && r.unwrap()@ == self@.nodes[id as int],
            id >= self@.nodes.len() ==> r is None,
    {
        if id < self.nodes.len() {
            Some(&self.nodes[id])
        } else {
            None
        }
    }

    /// The node after position `current_node_id`, if there is one.
    #[inline]
    pub fn get_next(&self, current_node_id: usize) -> (r: Option<&Node>)
        requires
            current_node_id < usize::MAX,
        ensures
            current_node_id + 1 < self@.nodes.len() ==> r is Some && r.unwrap()@
                == self@.nodes[current_node_id + 1],
            current_node_id + 1 >= self@.nodes.len() ==> r is None,
    {
        self.get_node(current_node_id + 1)
    }

    /// All nodes in execution order.
    #[inline]
    pub fn nodes(&self) -> (r: &[Node])
        ensures
            view_nodes(r@) == self@.nodes,
    {
        self.nodes.as_slice()
    }

    /// Number of nodes, of tensors, and of nodes per operation.
    pub fn stats(&self) -> (r: GraphStats)
        ensures
            r.num_nodes == self@.nodes.len(),
            r.num_tensors == self@.num_tensors,
            counts_exact(r.op_counts@, self@.nodes),
    {
        let ghost nodes = self@.nodes;
        let mut op_counts: Vec<(Op, usize)> = Vec::new();
        let mut i: usize = 0;
        while i < self.nodes.len()
            invariant
                nodes == self@.nodes,
                i <= nodes.len(),
                counts_exact(op_counts@, nodes.take(i as int)),
            decreases nodes.len() - i,
        {
            let op = self.nodes[i].op;
            let ghost prev = op_counts@;
            proof {
                assert(nodes[i as int].op == op);
                assert forall|o: Op| #[trigger]
                    count_op(nodes.take(i + 1), o) == count_op(nodes.take(i as int), o) + if o
                        == op {
                        1nat
                    } else {
                        0nat
                    } by {
                    lemma_count_op_take(nodes, i as int, o);
                }
            }
            match position_of(&op_counts, op) {
                Some(j) => {
                    let c = op_counts[j].1;
                    proof {
                        lemma_count_op_bound(nodes.take(i as int), op);
                    }
                    op_counts.set(j, (op, c + 1));
                    proof {
                        assert forall|o: Op| #[trigger]
                            count_op(nodes.take(i + 1), o) > 0 implies exists|k: int|
                            0 <= k < op_counts@.len() && op_counts@[k].0 == o by {
                            if o != op {
                                assert(count_op(nodes.take(i as int), o) > 0);
                                let k = choose|k: int| 0 <= k < prev.len() && prev[k].0 == o;
                                assert(op_counts@[k].0 == o);
                            } else {
                                assert(op_counts@[j as int].0 == o);
                            }
                        }
                    }
                },
                None => {
                    proof {
                        if count_op(nodes.take(i as int), op) > 0 {
                            let k = choose|k: int| 0 <= k < prev.len() && prev[k].0 == op;
                            assert(false);
                        }
                    }
                    op_counts.push((op, 1));
                    proof {
                        assert forall|o: Op| #[trigger]
                            count_op(nodes.take(i + 1), o) > 0 implies exists|k: int|
                            0 <= k < op_counts@.len() && op_counts@[k].0 == o by {
                            if o != op {
                                assert(count_op(nodes.take(i as int), o) > 0);
                                let k = choose|k: int| 0 <= k < prev.len() && prev[k].0 == o;
                                assert(op_counts@[k].0 == o);
                            } else {
                                assert(op_counts@[prev.len() as int].0 == o);
                            }
                        }
                    }
                },
            }
            i = i + 1;
        }
        assert(nodes.take(nodes.len() as int) =~= nodes);
        GraphStats { num_nodes: self.nodes.len(), num_tensors: self.num_tensors, op_counts }
    }

    /// Runs the fusion pass over the nodes. Tensor producers and the tensor
    /// count are left as they were.
    pub fn optimize(&mut self)
        requires
            optimize_safe(old(self)@.nodes),
        ensures
            final(self)@ == (GraphView { nodes: optimized(old(self)@.nodes), ..old(self)@ }),
    {
        let ghost nodes = self@.nodes;
        let mut optimized_nodes: Vec<Node> = Vec::new();
        let mut i: usize = 0;
        let len = self.nodes.len();
        while i < len
            invariant
                self@ == old(self)@,
                nodes == self@.nodes,
                len == nodes.len(),
                i <= len,
                optimize_safe_from(nodes, i as int),
                optimized(nodes) == view_nodes(optimized_nodes@) + optimize_from(nodes, i as int),
            decreases len - i,
        {
            let current = &self.nodes[i];
            proof {
                assert(optimize_from(nodes, i as int) == if i + 1 < nodes.len() && pair_fuses(
                    nodes[i as int],
                    nodes[i + 1],
                ) {
                    seq![fused_node(nodes[i as int], nodes[i + 1])] + optimize_from(nodes, i + 2)
                } else {
                    seq![nodes[i as int]] + optimize_from(nodes, i + 1)
                });
            }
            if i + 1 < len {
                let next = &self.nodes[i + 1];
                if current.op.can_fuse_with(&next.op) && current.is_fusable() && current.output
                    == next.inputs[0] {
                    if let Some(fused_op) = current.op.fuse(&next.op) {
                        let fused_node = Node {
                            id: current.id,
                            op: fused_op,
                            inputs: copy_indices(&current.inputs),
                            output: next.output,
                            metadata: current.metadata,
                        };
                        let ghost before = optimized_nodes@;
                        optimized_nodes.push(fused_node);
                        proof {
                            assert(view_nodes(optimized_nodes@) =~= view_nodes(before).push(
                                fused_node@,
                            ));
                            assert(view_nodes(optimized_nodes@) + optimize_from(nodes, i + 2)
                                =~= view_nodes(before) + (seq![fused_node@] + optimize_from(
                                nodes,
                                i + 2,
                            )));
                        }
                        i = i + 2;
                        continue;
                    }
                }
            }
            let ghost before = optimized_nodes@;
            let copied = current.copy();
            optimized_nodes.push(copied);
            proof {
                assert(view_nodes(optimized_nodes@) =~= view_nodes(before).push(copied@));
                assert(view_nodes(optimized_nodes@) + optimize_from(nodes, i + 1) =~= view_nodes(
                    before,
                ) + (seq![nodes[i as int]] + optimize_from(nodes, i + 1)));
            }
            i = i + 1;
        }
        proof {
            assert(optimize_from(nodes, i as int) =~= Seq::<NodeView>::empty());
            assert(view_nodes(optimized_nodes@) + optimize_from(nodes, i as int) =~= view_nodes(
                optimized_nodes@,
            ));
        }
        self.nodes = optimized_nodes;
    }
}


// ---------------------------------------------------------------------------
// Builder
// ---------------------------------------------------------------------------
/// A node that the builder can make: a matrix multiplication with its sizes,
/// a ReLU, or a layer norm with its epsilon.
pub open spec fn is_builder_node(n: NodeView) -> bool {
    ||| n.op == Op::MatMul && n.inputs.len() == 2 && n.metadata is MatMul
    ||| n.op == Op::ReLU && n.inputs.len() == 1 && n.metadata is NoParams
    ||| n.op == Op::LayerNorm && n.inputs.len() == 1 && n.metadata is LayerNorm
}

/// Nodes as the builder lays them out: builder nodes, numbered by position.
pub open spec fn builder_nodes(nodes: Seq<NodeView>) -> bool {
    forall|i: int| 0 <= i < nodes.len() ==> #[trigger] is_builder_node(nodes[i]) && nodes[i].id == i
}

/// Builds graphs node by node.
pub struct GraphBuilder {
    graph: Graph,
    next_node_id: usize,
}

impl GraphBuilder {
    /// The graph built so far.
    pub closed spec fn graph_view(&self) -> GraphView {
        self.graph@
    }

    /// The builder's bookkeeping holds: the next id is the number of nodes,
    /// and the nodes are builder nodes numbered by position.
    pub closed spec fn wf(&self) -> bool {
        &&& self.next_node_id == self.graph@.nodes.len()
        &&& builder_nodes(self.graph@.nodes)
    }

    /// The node the builder appends next, with the given operation, inputs,
    /// output and parameters.
    pub open spec fn next_node(
        &self,
        op: Op,
        inputs: Seq<usize>,
        output: usize,
        metadata: NodeMetadata,
    ) -> NodeView {
        NodeView { id: self.graph_view().nodes.len() as usize, op, inputs, output, metadata }
    }

    pub fn new(num_tensors: usize) -> (r: Self)
        ensures
            r.wf(),
            r.graph_view() == empty_graph(num_tensors),
    {
        GraphBuilder { graph: Graph::new(num_tensors), next_node_id: 0 }
    }

    fn push_node(self, op: Op, inputs: Vec<usize>, output: usize, metadata: NodeMetadata) -> (r:
        Self)
        requires
            self.wf(),
            self.graph_view().nodes.len() < usize::MAX,
            is_builder_node(self.next_node(op, inputs@, output, metadata)),
        ensures
            r.wf(),
            r.graph_view() == graph_with_node(
                self.graph_view(),
                self.next_node(op, inputs@, output, metadata),
            ),
    {
        let mut b = self;
        let node = Node { id: b.next_node_id, op, inputs, output, metadata };
        b.next_node_id = b.next_node_id + 1;
        b.graph.add_node(node);
        b
    }

    /// Appends a matrix multiplication of the `m`x`k` input by the `k`x`n`
    /// weights.
    pub fn add_matmul(
        self,
        input: usize,
        weights: usize,
        output: usize,
        m: usize,
        k: usize,
        n: usize,
    ) -> (r: Self)
        requires
            self.wf(),
            self.graph_view().nodes.len() < usize::MAX,
        ensures
            r.wf(),
            r.graph_view() == graph_with_node(
                self.graph_view(),
                self.next_node(
                    Op::MatMul,
                    seq![input, weights],
                    output,
                    NodeMetadata::MatMul { m, k, n },
                ),
            ),
    {
        let inputs = vec![input, weights];
        assert(inputs@ =~= seq![input, weights]);
        self.push_node(Op::MatMul, inputs, output, NodeMetadata::MatMul { m, k, n })
    }

    /// Appends a ReLU.
    pub fn add_relu(self, input: usize, output: usize) -> (r: Self)
        requires
            self.wf(),
            self.graph_view().nodes.len() < usize::MAX,
        ensures
            r.wf(),
            r.graph_view() == graph_with_node(
                self.graph_view(),
                self.next_node(Op::ReLU, seq![input], output, NodeMetadata::NoParams),
            ),
    {
        let inputs = vec![input];
        assert(inputs@ =~= seq![input]);
        self.push_node(Op::ReLU, inputs, output, NodeMetadata::NoParams)
    }

    /// Appends a layer norm; `epsilon` is the bit pattern of its `f32` value.
    pub fn add_layer_norm(self, input: usize, output: usize, epsilon: u32) -> (r: Self)
        requires
            self.wf(),
            self.graph_view().nodes.len() < usize::MAX,
        ensures
            r.wf(),
            r.graph_view() == graph_with_node(
                self.graph_view(),
                self.next_node(
                    Op::LayerNorm,
                    seq![input],
                    output,
                    NodeMetadata::LayerNorm { epsilon },
                ),
            ),
    {
        let inputs = vec![input];
        assert(inputs@ =~= seq![input]);
        self.push_node(Op::LayerNorm, inputs, output, NodeMetadata::LayerNorm { epsilon })
    }

    /// The graph built so far, with the fusion pass run over it.
    pub fn optimize(self) -> (r: Graph)
        requires
            self.wf(),
        ensures
            r@ == (GraphView { nodes: optimized(self.graph_view().nodes), ..self.graph_view() }),
            builder_nodes(self.graph_view().nodes),
    {
        proof {
            law_builder_graphs_optimize_safe(self.graph@.nodes);
        }
        let mut graph = self.graph;
        graph.optimize();
        graph
    }

    /// The graph built so far.
    pub fn build(self) -> (r: Graph)
        requires
            self.wf(),
        ensures
            r@ == self.graph_view(),
            builder_nodes(r@.nodes),
    {
        self.graph
    }
}

/// Graphs made by the builder can always go through the fusion pass.
pub proof fn law_builder_graphs_optimize_safe(nodes: Seq<NodeView>)
    requires
        builder_nodes(nodes),
    ensures
        optimize_safe(nodes),
{
    assert forall|j: int| 0 <= j < nodes.len() implies #[trigger] nodes[j].inputs.len() > 0 by {
        assert(is_builder_node(nodes[j]));
    }
    lemma_inputs_make_optimize_safe(nodes, 0);
}

/// When every node has an input, the fusion pass never reads a missing one.
proof fn lemma_inputs_make_optimize_safe(nodes: Seq<NodeView>, i: int)
    requires
        forall|j: int| 0 <= j < nodes.len() ==> #[trigger] nodes[j].inputs.len() > 0,
    ensures
        optimize_safe_from(nodes, i),
    decreases nodes.len() - i,
{
    if 0 <= i < nodes.len() {
        if i + 1 < nodes.len() && pair_fuses(nodes[i], nodes[i + 1]) {
            lemma_inputs_make_optimize_safe(nodes, i + 2);
        } else {
            lemma_inputs_make_optimize_safe(nodes, i + 1);
        }
    }
}


// ---------------------------------------------------------------------------
// Laws
// ---------------------------------------------------------------------------
/// The two fusion rules agree: two operations can fuse exactly when fusing
/// them yields an operation.
pub proof fn law_fusion_rules_agree(first: Op, next: Op)
    ensures
        can_fuse_ops(first, next) == (fused_op(first, next) is Some),
{
}

/// The activation that a fused operation applies after its linear part.
pub open spec fn fused_activation(op: Op) -> Option<Op> {
    match op {
        Op::FusedLinearReLU => Some(Op::ReLU),
        Op::FusedLinearGELU => Some(Op::GELU),
        _ => None,
    }
}

/// The operation is one of the fused linear-plus-activation operations.
pub open spec fn fused_linear_part(op: Op) -> bool {
    op == Op::FusedLinearReLU || op == Op::FusedLinearGELU
}

/// Fusing keeps the activation: a MatMul or Add followed by ReLU or GELU
/// fuses into the fused operation whose activation is that same ReLU or GELU,
/// and nothing else fuses.
pub proof fn law_fusion_keeps_activation(first: Op, next: Op)
    ensures
        (first == Op::MatMul || first == Op::Add) && (next == Op::ReLU || next == Op::GELU) ==> {
            &&& fused_op(first, next) is Some
            &&& fused_linear_part(fused_op(first, next).unwrap())
            &&& fused_activation(fused_op(first, next).unwrap()) == Some(next)
        },
        !((first == Op::MatMul || first == Op::Add) && (next == Op::ReLU || next == Op::GELU))
            ==> fused_op(first, next) is None,
{
}

/// No pair of neighbours in `s` is fused by the pass, and the pass reads no
/// missing input in `s`.
pub open spec fn fusion_free(s: Seq<NodeView>) -> bool {
    forall|j: int, k: int|
        #![trigger s[j], s[k]]
        0 <= j && k == j + 1 && k < s.len() ==> pair_kept(s[j], s[k])
}

/// The pass neither fuses `cur` with `next` nor reads a missing input of
/// `next`.
pub open spec fn pair_kept(cur: NodeView, next: NodeView) -> bool {
    !pair_fuses(cur, next) && !(pair_checked(cur, next) && next.inputs.len() == 0)
}

proof fn lemma_fusion_free_fixed(s: Seq<NodeView>, i: int)
    requires
        fusion_free(s),
        0 <= i,
    ensures
        optimize_from(s, i) == s.subrange(i, s.len() as int) || i > s.len(),
        optimize_safe_from(s, i),
    decreases s.len() - i,
{
    if i < s.len() {
        if i + 1 < s.len() {
            assert(pair_kept(s[i], s[i + 1]));
        }
        lemma_fusion_free_fixed(s, i + 1);
        assert(optimize_from(s, i) =~= s.subrange(i, s.len() as int));
    } else if i == s.len() {
        assert(optimize_from(s, i) =~= s.subrange(i, s.len() as int));
    }
}

proof fn lemma_optimize_head(s: Seq<NodeView>, i: int)
    requires
        0 <= i < s.len(),
    ensures
        optimize_from(s, i).len() > 0,
        optimize_from(s, i)[0] == if i + 1 < s.len() && pair_fuses(s[i], s[i + 1]) {
            fused_node(s[i], s[i + 1])
        } else {
            s[i]
        },
{
}

/// Prepending `x` to a fusion-free sequence keeps it fusion-free when `x`
/// and the sequence's first node do not fuse.
proof fn lemma_fusion_free_cons(x: NodeView, rest: Seq<NodeView>)
    requires
        fusion_free(rest),
        rest.len() > 0 ==> pair_kept(x, rest[0]),
    ensures
        fusion_free(seq![x] + rest),
{
    let o = seq![x] + rest;
    assert forall|j: int, k: int| 0 <= j && k == j + 1 && k < o.len() implies pair_kept(
        #[trigger] o[j],
        #[trigger] o[k],
    ) by {
        if j > 0 {
            assert(o[j] == rest[j - 1]);
            assert(o[k] == rest[k - 1]);
        } else {
            assert(o[k] == rest[0]);
        }
    }
}

#[verifier::spinoff_prover]
proof fn lemma_optimize_result_fusion_free(s: Seq<NodeView>, i: int)
    requires
        optimize_safe_from(s, i),
        0 <= i,
    ensures
        fusion_free(optimize_from(s, i)),
    decreases s.len() - i,
{
    if i >= s.len() {
        assert(optimize_from(s, i) =~= Seq::<NodeView>::empty());
    } else if i + 1 < s.len() && pair_fuses(s[i], s[i + 1]) {
        let f = fused_node(s[i], s[i + 1]);
        let rest = optimize_from(s, i + 2);
        assert(optimize_safe_from(s, i + 2));
        lemma_optimize_result_fusion_free(s, i + 2);
        assert(optimize_from(s, i) == seq![f] + rest);
        assert(f.op == Op::FusedLinearReLU || f.op == Op::FusedLinearGELU);
        lemma_fusion_free_cons(f, rest);
    } else {
        let rest = optimize_from(s, i + 1);
        assert(optimize_safe_from(s, i + 1));
        lemma_optimize_result_fusion_free(s, i + 1);
        assert(optimize_from(s, i) == seq![s[i]] + rest);
        if i + 1 < s.len() {
            lemma_optimize_head(s, i + 1);
            if i + 2 < s.len() && pair_fuses(s[i + 1], s[i + 2]) {
                let g = fused_node(s[i + 1], s[i + 2]);
                assert(rest[0] == g);
                assert(g.op == Op::FusedLinearReLU || g.op == Op::FusedLinearGELU);
            } else {
                assert(rest[0] == s[i + 1]);
            }
        }
        lemma_fusion_free_cons(s[i], rest);
    }
}

/// One run of the fusion pass reaches a fixed point: running it again on its
/// result is allowed and changes nothing.
pub proof fn law_optimize_idempotent(nodes: Seq<NodeView>)
    requires
        optimize_safe(nodes),
    ensures
        optimize_safe(optimized(nodes)),
        optimized(optimized(nodes)) == optimized(nodes),
{
    lemma_optimize_result_fusion_free(nodes, 0);
    let o = optimized(nodes);
    lemma_fusion_free_fixed(o, 0);
    assert(o.subrange(0, o.len() as int) =~= o);
}

proof fn lemma_optimize_len(s: Seq<NodeView>, i: int)
    requires
        0 <= i <= s.len(),
    ensures
        optimize_from(s, i).len() <= s.len() - i,
    decreases s.len() - i,
{
    if i < s.len() {
        if i + 1 < s.len() && pair_fuses(s[i], s[i + 1]) {
            lemma_optimize_len(s, i + 2);
        } else {
            lemma_optimize_len(s, i + 1);
        }
    }
}

/// The fusion pass never adds nodes.
pub proof fn law_optimize_never_grows(nodes: Seq<NodeView>)
    ensures
        optimized(nodes).len() <= nodes.len(),
{
    lemma_optimize_len(nodes, 0);
}


spec fn sum_counts(ops: Seq<Op>, nodes: Seq<NodeView>) -> int
    decreases ops.len(),
{
    if ops.len() == 0 {
        0
    } else {
        sum_counts(ops.drop_last(), nodes) + count_op(nodes, ops.last())
    }
}

spec fn hits(ops: Seq<Op>, x: Op) -> int
    decreases ops.len(),
{
    if ops.len() == 0 {
        0
    } else {
        hits(ops.drop_last(), x) + if ops.last() == x {
            1int
        } else {
            0int
        }
    }
}

proof fn lemma_sum_counts_step(ops: Seq<Op>, nodes: Seq<NodeView>)
    requires
        nodes.len() > 0,
    ensures
        sum_counts(ops, nodes) == sum_counts(ops, nodes.drop_last()) + hits(ops, nodes.last().op),
    decreases ops.len(),
{
    if ops.len() > 0 {
        lemma_sum_counts_step(ops.drop_last(), nodes);
    }
}

proof fn lemma_hits_distinct(ops: Seq<Op>, x: Op)
    requires
        forall|k: int, l: int| 0 <= k < l < ops.len() ==> ops[k] != ops[l],
        exists|k: int| 0 <= k < ops.len() && ops[k] == x,
    ensures
        hits(ops, x) == 1,
    decreases ops.len(),
{
    let init = ops.drop_last();
    if ops.last() == x {
        lemma_hits_absent(init, x);
    } else {
        let k = choose|k: int| 0 <= k < ops.len() && ops[k] == x;
        assert(init[k] == x);
        lemma_hits_distinct(init, x);
    }
}

proof fn lemma_hits_absent(ops: Seq<Op>, x: Op)
    requires
        forall|k: int| 0 <= k < ops.len() ==> ops[k] != x,
    ensures
        hits(ops, x) == 0,
    decreases ops.len(),
{
    if ops.len() > 0 {
        lemma_hits_absent(ops.drop_last(), x);
    }
}

proof fn lemma_sum_counts_covering(ops: Seq<Op>, nodes: Seq<NodeView>)
    requires
        forall|k: int, l: int| 0 <= k < l < ops.len() ==> ops[k] != ops[l],
        forall|i: int| 0 <= i < nodes.len() ==> exists|k: int| 0 <= k < ops.len() && ops[k] == (
        #[trigger] nodes[i]).op,
    ensures
        sum_counts(ops, nodes) == nodes.len(),
    decreases nodes.len(),
{
    if nodes.len() == 0 {
        lemma_sum_counts_empty(ops, nodes);
    } else {
        let init = nodes.drop_last();
        assert forall|i: int| 0 <= i < init.len() implies exists|k: int|
            0 <= k < ops.len() && ops[k] == (#[trigger] init[i]).op by {
            assert(init[i] == nodes[i]);
        }
        lemma_sum_counts_covering(ops, init);
        lemma_sum_counts_step(ops, nodes);
        assert(nodes.last() == nodes[nodes.len() - 1]);
        lemma_hits_distinct(ops, nodes.last().op);
    }
}

proof fn lemma_sum_counts_empty(ops: Seq<Op>, nodes: Seq<NodeView>)
    requires
        nodes.len() == 0,
    ensures
        sum_counts(ops, nodes) == 0,
    decreases ops.len(),
{
    if ops.len() > 0 {
        lemma_sum_counts_empty(ops.drop_last(), nodes);
    }
}

proof fn lemma_count_op_present(nodes: Seq<NodeView>, i: int)
    requires
        0 <= i < nodes.len(),
    ensures
        count_op(nodes, nodes[i].op) > 0,
    decreases nodes.len(),
{
    if i < nodes.len() - 1 {
        lemma_count_op_present(nodes.drop_last(), i);
    }
}

proof fn lemma_total_is_sum(pairs: Seq<(Op, usize)>, nodes: Seq<NodeView>)
    requires
        forall|k: int| 0 <= k < pairs.len() ==> #[trigger] pairs[k].1 == count_op(nodes, pairs[k].0),
    ensures
        total_count(pairs) == sum_counts(pairs.map_values(|p: (Op, usize)| p.0), nodes),
    decreases pairs.len(),
{
    if pairs.len() > 0 {
        let init = pairs.drop_last();
        assert forall|k: int| 0 <= k < init.len() implies #[trigger] init[k].1 == count_op(
            nodes,
            init[k].0,
        ) by {
            assert(init[k] == pairs[k]);
        }
        lemma_total_is_sum(init, nodes);
        assert(pairs.map_values(|p: (Op, usize)| p.0).drop_last() =~= init.map_values(
            |p: (Op, usize)| p.0,
        ));
        assert(pairs[pairs.len() - 1].1 == count_op(nodes, pairs[pairs.len() - 1].0));
    }
}

/// Graph statistics count every node exactly once: the per-operation counts
/// add up to the number of nodes.
pub proof fn law_stats_total(pairs: Seq<(Op, usize)>, nodes: Seq<NodeView>)
    requires
        counts_exact(pairs, nodes),
    ensures
        total_count(pairs) == nodes.len(),
{
    let ops = pairs.map_values(|p: (Op, usize)| p.0);
    lemma_total_is_sum(pairs, nodes);
    assert forall|i: int| 0 <= i < nodes.len() implies exists|k: int|
        0 <= k < ops.len() && ops[k] == (#[trigger] nodes[i]).op by {
        lemma_count_op_present(nodes, i);
        let k = choose|k: int| 0 <= k < pairs.len() && pairs[k].0 == nodes[i].op;
        assert(ops[k] == nodes[i].op);
    }
    lemma_sum_counts_covering(ops, nodes);
}

} // verus!
