//! The inference engine: a graph and an arena, and the scheduler that turns
//! the graph's nodes into kernel calls on arena ranges.
//!
//! The kernels themselves compute on floating-point values; the engine
//! decides which kernel runs on which ranges, in which order, and where
//! execution stops with an error.
use vstd::prelude::*;
use crate::arena::{Arena, ArenaError, ArenaModel, Section, zeros, words_of_bytes, max_arena_elems};
use crate::graph::{
    Graph, GraphStats, GraphView, Node, NodeView, NodeMetadata, Op, counts_exact, builder_nodes,
    is_builder_node, optimized, optimize_from, pair_fuses, fused_node,
};

verus! {

/// One kernel invocation. `input`, `a`, `b` and `output` are offsets into the
/// activation section, `weights` an offset into the weight section;
/// matrices are row-major.
#[derive(Debug, Clone, Copy, PartialEq, Eq, Structural)]
pub enum KernelCall {
    /// `output[m x n] = input[m x k] * weights[k x n]`
    MatMul { input: usize, weights: usize, output: usize, m: usize, k: usize, n: usize },
    /// `output[m x n] = max(0, input[m x k] * weights[k x n])`
    FusedLinearReLU { input: usize, weights: usize, output: usize, m: usize, k: usize, n: usize },
    /// `output[..len] = max(0, input[..len])`
    ReLU { input: usize, output: usize, len: usize },
    /// `output[..len] = gelu(input[..len])`
    GELU { input: usize, output: usize, len: usize },
    /// `output[..len] = a[..len] + b[..len]`
    Add { a: usize, b: usize, output: usize, len: usize },
    /// `output[..len] = softmax(input[..len])`
    Softmax { input: usize, output: usize, len: usize },
    /// `output[..len] = layer_norm(input[..len])`, `epsilon` being the bit
    /// pattern of an `f32`
    LayerNorm { input: usize, output: usize, len: usize, epsilon: u32 },
}

/// Why a node cannot run.
#[derive(Debug, Clone, Copy, PartialEq, Eq, Structural)]
pub enum ExecutionError {
    UnsupportedOp(Op),
    InvalidMetadata,
    NotImplemented,
}

/// The outcome of scheduling a graph: the kernel calls to run, in order, and
/// whether the run ends normally or with the error of the node after the
/// last call.
pub struct ExecutionSchedule {
    pub calls: Vec<KernelCall>,
    pub outcome: Result<(), ExecutionError>,
}

/// The number of inputs a node of this operation reads.
pub open spec fn inputs_needed(op: Op) -> nat {
    match op {
        Op::MatMul | Op::FusedLinearReLU | Op::Add => 2,
        Op::ReLU | Op::GELU | Op::Softmax | Op::LayerNorm => 1,
        _ => 0,
    }
}

/// What running node `n` amounts to: a kernel call, or the error it stops
/// with. Element-wise operations act on the single element at their input.
pub open spec fn node_call(n: NodeView) -> Result<KernelCall, ExecutionError> {
    match n.op {
        Op::MatMul => match n.metadata {
            NodeMetadata::MatMul { m, k, n: cols } => Ok(
                KernelCall::MatMul {
                    input: n.inputs[0],
                    weights: n.inputs[1],
                    output: n.output,
                    m,
                    k,
                    n: cols,
                },
            ),
            _ => Err(ExecutionError::InvalidMetadata),
        },
        Op::FusedLinearReLU => match n.metadata {
            NodeMetadata::MatMul { m, k, n: cols } => Ok(
                KernelCall::FusedLinearReLU {
                    input: n.inputs[0],
                    weights: n.inputs[1],
                    output: n.output,
                    m,
                    k,
                    n: cols,
                },
            ),
            _ => Err(ExecutionError::InvalidMetadata),
        },
        Op::ReLU => Ok(KernelCall::ReLU { input: n.inputs[0], output: n.output, len: 1 }),
        Op::GELU => Ok(KernelCall::GELU { input: n.inputs[0], output: n.output, len: 1 }),
        Op::Add => Ok(
            KernelCall::Add { a: n.inputs[0], b: n.inputs[1], output: n.output, len: 1 },
        ),
        Op::Softmax => Ok(KernelCall::Softmax { input: n.inputs[0], output: n.output, len: 1 }),
        Op::LayerNorm => match n.metadata {
            NodeMetadata::LayerNorm { epsilon } => Ok(
                KernelCall::LayerNorm { input: n.inputs[0], output: n.output, len: 1, epsilon },
            ),
            _ => Err(ExecutionError::InvalidMetadata),
        },
        Op::FusedLinearGELU => Err(ExecutionError::NotImplemented),
        _ => Err(ExecutionError::UnsupportedOp(n.op)),
    }
}

/// The ranges a call reads and writes lie inside their sections, given the
/// weight section's and the activation section's sizes.
pub open spec fn call_in_bounds(c: KernelCall, weights_len: nat, act_len: nat) -> bool {
    match c {
        KernelCall::MatMul { input, weights, output, m, k, n }
        | KernelCall::FusedLinearReLU { input, weights, output, m, k, n } => {
            &&& input + m * k <= act_len
            &&& weights + k * n <= weights_len
            &&& output + m * n <= act_len
        },
        KernelCall::ReLU { input, output, len }
        | KernelCall::GELU { input, output, len }
        | KernelCall::Softmax { input, output, len }
        | KernelCall::LayerNorm { input, output, len, .. } => {
            &&& input + len <= act_len
            &&& output + len <= act_len
        },
        KernelCall::Add { a, b, output, len } => {
            &&& a + len <= act_len
            &&& b + len <= act_len
            &&& output + len <= act_len
        },
    }
}

/// The calls that running `nodes[i..]` makes, and how the run ends.
pub open spec fn schedule_from(nodes: Seq<NodeView>, i: int) -> (Seq<KernelCall>, Result<
    (),
    ExecutionError,
>)
    decreases nodes.len() - i,
{
    if i < 0 || i >= nodes.len() {
        (Seq::empty(), Ok(()))
    } else {
        match node_call(nodes[i]) {
            Err(e) => (Seq::empty(), Err(e)),
            Ok(c) => {
                let rest = schedule_from(nodes, i + 1);
                (seq![c] + rest.0, rest.1)
            },
        }
    }
}

pub open spec fn schedule(nodes: Seq<NodeView>) -> (Seq<KernelCall>, Result<(), ExecutionError>) {
    schedule_from(nodes, 0)
}

/// Every node that runs before the run ends has the inputs it reads, and its
/// call stays inside the arena's sections.
pub open spec fn runs_in_bounds_from(
    nodes: Seq<NodeView>,
    i: int,
    weights_len: nat,
    act_len: nat,
) -> bool
    decreases nodes.len() - i,
{
    if i < 0 || i >= nodes.len() {
        true
    } else {
        match node_call(nodes[i]) {
            Err(_) => true,
            Ok(c) => {
                &&& nodes[i].inputs.len() >= inputs_needed(nodes[i].op)
                &&& call_in_bounds(c, weights_len, act_len)
                &&& runs_in_bounds_from(nodes, i + 1, weights_len, act_len)
            },
        }
    }
}

pub open spec fn runs_in_bounds(nodes: Seq<NodeView>, weights_len: nat, act_len: nat) -> bool {
    runs_in_bounds_from(nodes, 0, weights_len, act_len)
}

/// Turns one node into its kernel call.
fn schedule_node(node: &Node) -> (r: Result<KernelCall, ExecutionError>)
    requires
        node_call(node@) is Ok ==> node@.inputs.len() >= inputs_needed(node@.op),
    ensures
        r == node_call(node@),
{
    match node.op {
        Op::MatMul => match node.metadata {
            NodeMetadata::MatMul { m, k, n } => Ok(
                KernelCall::MatMul {
                    input: node.inputs[0],
                    weights: node.inputs[1],
                    output: node.output,
                    m,
                    k,
                    n,
                },
            ),
            _ => Err(ExecutionError::InvalidMetadata),
        },
        Op::FusedLinearReLU => match node.metadata {
            NodeMetadata::MatMul { m, k, n } => Ok(
                KernelCall::FusedLinearReLU {
                    input: node.inputs[0],
                    weights: node.inputs[1],
                    output: node.output,
                    m,
                    k,
                    n,
                },
            ),
            _ => Err(ExecutionError::InvalidMetadata),
        },
        Op::ReLU => Ok(KernelCall::ReLU { input: node.inputs[0], output: node.output, len: 1 }),
        Op::GELU => Ok(KernelCall::GELU { input: node.inputs[0], output: node.output, len: 1 }),
        Op::Add => Ok(
            KernelCall::Add { a: node.inputs[0], b: node.inputs[1], output: node.output, len: 1 },
        ),
        Op::Softmax => Ok(
            KernelCall::Softmax { input: node.inputs[0], output: node.output, len: 1 },
        ),
        Op::LayerNorm => match node.metadata {
            NodeMetadata::LayerNorm { epsilon } => Ok(
                KernelCall::LayerNorm { input: node.inputs[0], output: node.output, len: 1, epsilon },
            ),
            _ => Err(ExecutionError::InvalidMetadata),
        },
        Op::FusedLinearGELU => Err(ExecutionError::NotImplemented),
        _ => Err(ExecutionError::UnsupportedOp(node.op)),
    }
}

/// The synchronous graph executor: a graph and the arena it runs in.
pub struct InferenceEngine {
    graph: Graph,
    arena: Arena,
}

impl InferenceEngine {
    /// The engine's arena.
    pub closed spec fn arena_state(&self) -> Arena {
        self.arena
    }

    /// The engine's graph.
    pub closed spec fn graph_view(&self) -> GraphView {
        self.graph@
    }

    pub open spec fn wf(&self) -> bool {
        self.arena_state().wf()
    }

    /// The arena's contents.
    pub open spec fn arena_model(&self) -> ArenaModel {
        self.arena_state().model()
    }

    /// The graph's nodes run within this engine's arena.
    pub open spec fn runs_in_bounds(&self) -> bool {
        runs_in_bounds(
            self.graph_view().nodes,
            self.arena_model().weights.len(),
            self.arena_model().activations.len(),
        )
    }

    /// Creates an engine over `graph` with an arena of the given section
    /// sizes.
    pub fn new(graph: Graph, weights_size: usize, activations_size: usize, io_size: usize) -> (r:
        Self)
        requires
            weights_size + activations_size + io_size <= max_arena_elems(),
        ensures
            r.wf(),
            r.graph_view() == graph@,
            r.arena_model().weights == zeros(weights_size as nat),
            r.arena_model().activations == zeros(activations_size as nat),
            r.arena_model().io == zeros(io_size as nat),
    {
        InferenceEngine { graph, arena: Arena::new(weights_size, activations_size, io_size) }
    }

    /// Loads the model weights from a byte buffer; see `Arena::load_weights`.
    pub fn load_weights(&mut self, data: &[u8]) -> (r: Result<(), ArenaError>)
        requires
            old(self).wf(),
        ensures
            final(self).wf(),
            final(self).graph_view() == old(self).graph_view(),
            data@.len() == 4 * old(self).arena_model().weights.len() <==> r is Ok,
            r is Ok ==> final(self).arena_model() == old(self).arena_model().with_section(
                Section::Weights,
                words_of_bytes(data@),
            ),
            r is Err ==> final(self).arena_model() == old(self).arena_model() && r
                == Err::<(), ArenaError>(
                ArenaError::SizeMismatch {
                    expected: (4 * old(self).arena_model().weights.len()) as usize,
                    actual: data@.len() as usize,
                },
            ),
    {
        self.arena.load_weights(data)
    }

    /// Prepares a run of the graph: zeroes the activation section and lists
    /// the kernel calls of the nodes in order, up to the first node that
    /// cannot run, whose error becomes the outcome.
    ///
    /// Running the listed calls on the arena, in order, is a run of the graph.
    pub fn execute(&mut self) -> (r: ExecutionSchedule)
        requires
            old(self).wf(),
            old(self).runs_in_bounds(),
        ensures
            final(self).wf(),
            final(self).graph_view() == old(self).graph_view(),
            final(self).arena_model() == old(self).arena_model().with_section(
                Section::Activations,
                zeros(old(self).arena_model().activations.len()),
            ),
            r.calls@ == schedule(old(self).graph_view().nodes).0,
            r.outcome == schedule(old(self).graph_view().nodes).1,
    {
        self.arena.clear_activations();
        let ghost cleared = self.arena.model();
        let ghost nodes = self.graph@.nodes;
        let ghost w = self.arena.model().weights.len();
        let ghost a = self.arena.model().activations.len();
        let nodes_slice = self.graph.nodes();
        let mut calls: Vec<KernelCall> = Vec::new();
        let mut i: usize = 0;
        while i < nodes_slice.len()
            invariant
                self.arena.wf(),
                self.arena.model() == cleared,
                cleared == old(self).arena_model().with_section(
                    Section::Activations,
                    zeros(old(self).arena_model().activations.len()),
                ),
                self.graph@ == old(self).graph@,
                nodes == old(self).graph@.nodes,
                crate::graph::view_nodes(nodes_slice@) == nodes,
                i <= nodes.len(),
                runs_in_bounds_from(nodes, i as int, w, a),
                schedule(nodes) == (calls@ + schedule_from(nodes, i as int).0, schedule_from(
                    nodes,
                    i as int,
                ).1),
            decreases nodes.len() - i,
        {
            let node = &nodes_slice[i];
            assert(node@ == nodes[i as int]);
            match schedule_node(node) {
                Ok(call) => {
                    let ghost before = calls@;
                    calls.push(call);
                    assert(calls@ + schedule_from(nodes, i + 1).0 =~= before + schedule_from(
                        nodes,
                        i as int,
                    ).0);
                },
                Err(e) => {
                    assert(calls@ + schedule_from(nodes, i as int).0 =~= calls@);
                    return ExecutionSchedule { calls, outcome: Err(e) };
                },
            }
            i = i + 1;
        }
        assert(calls@ + schedule_from(nodes, i as int).0 =~= calls@);
        ExecutionSchedule { calls, outcome: Ok(()) }
    }

    /// The engine's arena.
    pub fn arena(&self) -> (r: &Arena)
        ensures
            *r == self.arena_state(),
    {
        &self.arena
    }

    /// The engine's arena, for writing; the graph stays as it is.
    pub fn arena_mut(&mut self) -> (r: &mut Arena)
        ensures
            *r == old(self).arena_state(),
            *final(r) == final(self).arena_state(),
            final(self).graph_view() == old(self).graph_view(),
    {
        &mut self.arena
    }

    /// Statistics of the engine's graph.
    pub fn graph_stats(&self) -> (r: GraphStats)
        ensures
            r.num_nodes == self.graph_view().nodes.len(),
            r.num_tensors == self.graph_view().num_tensors,
            counts_exact(r.op_counts@, self.graph_view().nodes),
    {
        self.graph.stats()
    }
}


// ---------------------------------------------------------------------------
// Laws
// ---------------------------------------------------------------------------
proof fn lemma_schedule_in_bounds_from(nodes: Seq<NodeView>, i: int, w: nat, a: nat)
    requires
        runs_in_bounds_from(nodes, i, w, a),
    ensures
        forall|k: int|
            0 <= k < schedule_from(nodes, i).0.len() ==> call_in_bounds(
                #[trigger] schedule_from(nodes, i).0[k],
                w,
                a,
            ),
    decreases nodes.len() - i,
{
    if 0 <= i < nodes.len() {
        if let Ok(c) = node_call(nodes[i]) {
            lemma_schedule_in_bounds_from(nodes, i + 1, w, a);
            let rest = schedule_from(nodes, i + 1).0;
            assert forall|k: int| 0 <= k < schedule_from(nodes, i).0.len() implies call_in_bounds(
                #[trigger] schedule_from(nodes, i).0[k],
                w,
                a,
            ) by {
                if k > 0 {
                    assert(schedule_from(nodes, i).0[k] == rest[k - 1]);
                }
            }
        }
    }
}

/// A run stays inside the arena: every kernel call of the schedule reads and
/// writes only ranges inside their sections, and all writes go to the
/// activation section, so weights and IO are never written by a run.
pub proof fn law_schedule_in_bounds(nodes: Seq<NodeView>, weights_len: nat, act_len: nat)
    requires
        runs_in_bounds(nodes, weights_len, act_len),
    ensures
        forall|k: int|
            0 <= k < schedule(nodes).0.len() ==> call_in_bounds(
                #[trigger] schedule(nodes).0[k],
                weights_len,
                act_len,
            ),
{
    lemma_schedule_in_bounds_from(nodes, 0, weights_len, act_len);
}

/// Nodes each of which turns into a kernel call.
pub open spec fn all_runnable(nodes: Seq<NodeView>) -> bool {
    forall|i: int| 0 <= i < nodes.len() ==> #[trigger] node_call(nodes[i]) is Ok
}

proof fn lemma_runnable_schedule_from(nodes: Seq<NodeView>, i: int)
    requires
        all_runnable(nodes),
        0 <= i <= nodes.len(),
    ensures
        schedule_from(nodes, i).1 is Ok,
        schedule_from(nodes, i).0.len() == nodes.len() - i,
    decreases nodes.len() - i,
{
    if i < nodes.len() {
        assert(node_call(nodes[i]) is Ok);
        lemma_runnable_schedule_from(nodes, i + 1);
    }
}

proof fn lemma_optimize_from_runnable(nodes: Seq<NodeView>, i: int)
    requires
        builder_nodes(nodes),
        0 <= i,
    ensures
        all_runnable(optimize_from(nodes, i)),
    decreases nodes.len() - i,
{
    if i < nodes.len() {
        let o = optimize_from(nodes, i);
        assert(is_builder_node(nodes[i]));
        if i + 1 < nodes.len() && pair_fuses(nodes[i], nodes[i + 1]) {
            lemma_optimize_from_runnable(nodes, i + 2);
            assert(is_builder_node(nodes[i + 1]));
            let rest = optimize_from(nodes, i + 2);
            assert(o == seq![fused_node(nodes[i], nodes[i + 1])] + rest);
            assert forall|j: int| 0 <= j < o.len() implies #[trigger] node_call(o[j]) is Ok by {
                if j > 0 {
                    assert(o[j] == rest[j - 1]);
                }
            }
        } else {
            lemma_optimize_from_runnable(nodes, i + 1);
            let rest = optimize_from(nodes, i + 1);
            assert(o == seq![nodes[i]] + rest);
            assert forall|j: int| 0 <= j < o.len() implies #[trigger] node_call(o[j]) is Ok by {
                if j > 0 {
                    assert(o[j] == rest[j - 1]);
                }
            }
        }
    } else {
        assert(optimize_from(nodes, i) =~= Seq::<NodeView>::empty());
    }
}

/// Graphs made by the builder run to the end, with or without the fusion
/// pass: every node turns into one kernel call and the outcome is `Ok`.
pub proof fn law_builder_graphs_run(nodes: Seq<NodeView>)
    requires
        builder_nodes(nodes),
    ensures
        schedule(nodes).1 is Ok,
        schedule(nodes).0.len() == nodes.len(),
        schedule(optimized(nodes)).1 is Ok,
        schedule(optimized(nodes)).0.len() == optimized(nodes).len(),
{
    assert forall|i: int| 0 <= i < nodes.len() implies #[trigger] node_call(nodes[i]) is Ok by {
        assert(is_builder_node(nodes[i]));
    }
    lemma_runnable_schedule_from(nodes, 0);
    lemma_optimize_from_runnable(nodes, 0);
    lemma_runnable_schedule_from(optimized(nodes), 0);
}


/// Number of activation words a call reads as its (first) input.
pub open spec fn call_input_len(c: KernelCall) -> int {
    match c {
        KernelCall::MatMul { m, k, .. } | KernelCall::FusedLinearReLU { m, k, .. } => m * k,
        KernelCall::ReLU { len, .. } | KernelCall::GELU { len, .. } | KernelCall::Softmax {
            len,
            ..
        } | KernelCall::LayerNorm { len, .. } | KernelCall::Add { len, .. } => len as int,
    }
}

/// Number of weight words a call reads.
pub open spec fn call_weights_len(c: KernelCall) -> int {
    match c {
        KernelCall::MatMul { k, n, .. } | KernelCall::FusedLinearReLU { k, n, .. } => k * n,
        _ => 0,
    }
}

/// Number of activation words a call writes.
pub open spec fn call_output_len(c: KernelCall) -> int {
    match c {
        KernelCall::MatMul { m, n, .. } | KernelCall::FusedLinearReLU { m, n, .. } => m * n,
        KernelCall::ReLU { len, .. } | KernelCall::GELU { len, .. } | KernelCall::Softmax {
            len,
            ..
        } | KernelCall::LayerNorm { len, .. } | KernelCall::Add { len, .. } => len as int,
    }
}

/// Where a call reads its input, its weights (0 when it reads none) and where
/// it writes.
pub open spec fn call_offsets(c: KernelCall) -> (usize, usize, usize) {
    match c {
        KernelCall::MatMul { input, weights, output, .. }
        | KernelCall::FusedLinearReLU { input, weights, output, .. } => (input, weights, output),
        KernelCall::ReLU { input, output, .. } | KernelCall::GELU { input, output, .. }
        | KernelCall::Softmax { input, output, .. } | KernelCall::LayerNorm {
            input,
            output,
            ..
        } => (input, 0, output),
        KernelCall::Add { a, output, .. } => (a, 0, output),
    }
}

/// A matrix node with sizes `m`, `k`, `n` turns into a call of the same kind
/// that reads an `m`x`k` input from the node's first input, `k`x`n` weights
/// from its second, and writes the `m`x`n` product to the node's output.
pub proof fn law_matmul_call_sizes(node: NodeView, m: usize, k: usize, n: usize)
    requires
        node.op == Op::MatMul || node.op == Op::FusedLinearReLU,
        node.metadata == (NodeMetadata::MatMul { m, k, n }),
    ensures
        node_call(node) is Ok,
        node.op == Op::MatMul ==> node_call(node).unwrap() is MatMul,
        node.op == Op::FusedLinearReLU ==> node_call(node).unwrap() is FusedLinearReLU,
        call_input_len(node_call(node).unwrap()) == m * k,
        call_weights_len(node_call(node).unwrap()) == k * n,
        call_output_len(node_call(node).unwrap()) == m * n,
        call_offsets(node_call(node).unwrap()) == (node.inputs[0], node.inputs[1], node.output),
{
}

/// An element-wise node turns into a one-element call from its first input
/// to its output.
pub proof fn law_elementwise_call(node: NodeView)
    requires
        node.op == Op::ReLU || node.op == Op::GELU || node.op == Op::Softmax || node.op
            == Op::Add || (node.op == Op::LayerNorm && node.metadata is LayerNorm),
    ensures
        node_call(node) is Ok,
        call_input_len(node_call(node).unwrap()) == 1,
        call_output_len(node_call(node).unwrap()) == 1,
        call_weights_len(node_call(node).unwrap()) == 0,
        call_offsets(node_call(node).unwrap()) == (node.inputs[0], 0usize, node.output),
{
}

} // verus!
