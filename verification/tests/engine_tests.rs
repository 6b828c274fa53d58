use inference_engine::arena::Section;
use inference_engine::graph::{Graph, GraphBuilder, Node, NodeMetadata, Op};
use inference_engine::{ExecutionError, InferenceEngine, KernelCall};

#[test]
fn test_simple_inference() {
    // Build a simple graph: Input -> MatMul -> ReLU -> Output
    let graph = GraphBuilder::new(10)
        .add_matmul(0, 1, 2, 2, 3, 2) // [2x3] * [3x2] = [2x2]
        .add_relu(2, 3)
        .build();

    let mut engine = InferenceEngine::new(graph, 100, 200, 50);

    // Execute
    let result = engine.execute();
    assert!(result.outcome.is_ok());
}

#[test]
fn test_fused_execution() {
    // Build graph that should be fused
    let graph = GraphBuilder::new(10)
        .add_matmul(0, 1, 2, 2, 3, 2)
        .add_relu(2, 3)
        .optimize(); // This should fuse MatMul + ReLU

    let stats = graph.stats();
    assert_eq!(stats.num_nodes, 1, "Graph should have 1 fused node");

    let mut engine = InferenceEngine::new(graph, 100, 200, 50);
    let result = engine.execute();
    assert!(result.outcome.is_ok());
}

#[test]
fn schedule_lists_kernel_calls_in_order() {
    let graph = GraphBuilder::new(10)
        .add_matmul(0, 1, 2, 2, 3, 2)
        .add_relu(2, 3)
        .add_layer_norm(3, 4, 7)
        .build();
    let mut engine = InferenceEngine::new(graph, 100, 200, 50);
    let schedule = engine.execute();
    assert_eq!(
        schedule.calls,
        vec![
            KernelCall::MatMul { input: 0, weights: 1, output: 2, m: 2, k: 3, n: 2 },
            KernelCall::ReLU { input: 2, output: 3, len: 1 },
            KernelCall::LayerNorm { input: 3, output: 4, len: 1, epsilon: 7 },
        ]
    );
}

#[test]
fn fused_schedule_uses_fused_kernel() {
    let graph = GraphBuilder::new(10)
        .add_matmul(0, 1, 2, 2, 3, 2)
        .add_relu(2, 3)
        .optimize();
    let mut engine = InferenceEngine::new(graph, 100, 200, 50);
    let schedule = engine.execute();
    assert_eq!(
        schedule.calls,
        vec![KernelCall::FusedLinearReLU { input: 0, weights: 1, output: 3, m: 2, k: 3, n: 2 }]
    );
}

fn node(op: Op, inputs: Vec<usize>, metadata: NodeMetadata) -> Node {
    Node { id: 0, op, inputs, output: 5, metadata }
}

#[test]
fn unsupported_op_stops_the_run_after_earlier_calls() {
    let mut graph = Graph::new(10);
    graph.add_node(node(Op::Add, vec![0, 1], NodeMetadata::NoParams));
    graph.add_node(node(Op::Attention, vec![0], NodeMetadata::NoParams));
    graph.add_node(node(Op::ReLU, vec![0], NodeMetadata::NoParams));
    let mut engine = InferenceEngine::new(graph, 10, 10, 10);
    let schedule = engine.execute();
    assert_eq!(schedule.calls, vec![KernelCall::Add { a: 0, b: 1, output: 5, len: 1 }]);
    assert_eq!(schedule.outcome, Err(ExecutionError::UnsupportedOp(Op::Attention)));
}

#[test]
fn matmul_without_sizes_is_invalid_metadata() {
    let mut graph = Graph::new(10);
    graph.add_node(node(Op::MatMul, vec![0, 1], NodeMetadata::NoParams));
    let mut engine = InferenceEngine::new(graph, 10, 10, 10);
    assert_eq!(engine.execute().outcome, Err(ExecutionError::InvalidMetadata));
}

#[test]
fn fused_linear_gelu_is_not_implemented() {
    let mut graph = Graph::new(10);
    graph.add_node(node(Op::FusedLinearGELU, vec![0, 1], NodeMetadata::MatMul { m: 1, k: 1, n: 1 }));
    let mut engine = InferenceEngine::new(graph, 10, 10, 10);
    let schedule = engine.execute();
    assert!(schedule.calls.is_empty());
    assert_eq!(schedule.outcome, Err(ExecutionError::NotImplemented));
}

#[test]
fn execute_zeroes_activations_only() {
    let graph = GraphBuilder::new(4).add_relu(0, 1).build();
    let mut engine = InferenceEngine::new(graph, 2, 2, 2);
    engine.arena_mut().section_slice_mut(Section::Weights).copy_from_slice(&[1, 2]);
    engine.arena_mut().section_slice_mut(Section::Activations).copy_from_slice(&[3, 4]);
    engine.arena_mut().section_slice_mut(Section::IO).copy_from_slice(&[5, 6]);
    let schedule = engine.execute();
    assert!(schedule.outcome.is_ok());
    assert_eq!(engine.arena().section_slice(Section::Weights), &[1, 2]);
    assert_eq!(engine.arena().section_slice(Section::Activations), &[0, 0]);
    assert_eq!(engine.arena().section_slice(Section::IO), &[5, 6]);
}

#[test]
fn engine_loads_weights_and_reports_stats() {
    let graph = GraphBuilder::new(6).add_relu(0, 1).add_relu(1, 2).build();
    let mut engine = InferenceEngine::new(graph, 1, 4, 1);
    assert!(engine.load_weights(&[0, 0, 0, 0, 0]).is_err());
    assert!(engine.load_weights(&0.25f32.to_ne_bytes()).is_ok());
    assert_eq!(f32::from_bits(engine.arena().section_slice(Section::Weights)[0]), 0.25);
    let stats = engine.graph_stats();
    assert_eq!(stats.num_nodes, 2);
    assert_eq!(stats.num_tensors, 6);
    assert_eq!(stats.op_counts, vec![(Op::ReLU, 2)]);
}
