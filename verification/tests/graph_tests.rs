use inference_engine::graph::{Graph, GraphBuilder, Node, NodeMetadata, Op};

#[test]
fn test_op_fusion() {
    assert!(Op::MatMul.can_fuse_with(&Op::ReLU));
    assert!(Op::MatMul.can_fuse_with(&Op::GELU));
    assert!(!Op::ReLU.can_fuse_with(&Op::MatMul));

    assert_eq!(Op::MatMul.fuse(&Op::ReLU), Some(Op::FusedLinearReLU));
}

#[test]
fn test_graph_builder() {
    let graph = GraphBuilder::new(5)
        .add_matmul(0, 1, 2, 128, 512, 512)
        .add_relu(2, 3)
        .build();

    assert_eq!(graph.nodes().len(), 2);
    assert_eq!(graph.nodes()[0].op, Op::MatMul);
    assert_eq!(graph.nodes()[1].op, Op::ReLU);
}

#[test]
fn test_graph_optimization() {
    let mut graph = GraphBuilder::new(5)
        .add_matmul(0, 1, 2, 128, 512, 512)
        .add_relu(2, 3)
        .build();

    graph.optimize();

    // Should be fused into a single FusedLinearReLU
    assert_eq!(graph.nodes().len(), 1);
    assert_eq!(graph.nodes()[0].op, Op::FusedLinearReLU);
}

fn node(id: usize, op: Op, inputs: Vec<usize>, output: usize) -> Node {
    Node { id, op, inputs, output, metadata: NodeMetadata::NoParams }
}

#[test]
fn fusion_rules_agree_on_every_pair() {
    let ops = [
        Op::MatMul,
        Op::Add,
        Op::ReLU,
        Op::GELU,
        Op::Softmax,
        Op::LayerNorm,
        Op::FusedLinearReLU,
        Op::FusedLinearGELU,
        Op::Attention,
        Op::Multiply,
    ];
    for a in ops.iter() {
        for b in ops.iter() {
            assert_eq!(a.can_fuse_with(b), a.fuse(b).is_some());
        }
    }
    assert_eq!(Op::Add.fuse(&Op::GELU), Some(Op::FusedLinearGELU));
    assert_eq!(Op::Add.fuse(&Op::ReLU), Some(Op::FusedLinearReLU));
    assert_eq!(Op::ReLU.fuse(&Op::GELU), None);
}

#[test]
fn fused_node_keeps_first_inputs_and_metadata_and_takes_second_output() {
    let mut graph = GraphBuilder::new(5)
        .add_matmul(0, 1, 2, 2, 3, 4)
        .add_relu(2, 3)
        .build();
    graph.optimize();
    let fused = &graph.nodes()[0];
    assert_eq!(fused.id, 0);
    assert_eq!(fused.inputs, vec![0, 1]);
    assert_eq!(fused.output, 3);
    assert_eq!(fused.metadata, NodeMetadata::MatMul { m: 2, k: 3, n: 4 });
}

#[test]
fn unconnected_nodes_are_not_fused() {
    let mut graph = GraphBuilder::new(5)
        .add_matmul(0, 1, 2, 2, 3, 4)
        .add_relu(4, 3)
        .build();
    graph.optimize();
    assert_eq!(graph.nodes().len(), 2);
    assert_eq!(graph.nodes()[0].op, Op::MatMul);
    assert_eq!(graph.nodes()[1].op, Op::ReLU);
}

#[test]
fn optimize_twice_changes_nothing_more() {
    let mut graph = Graph::new(8);
    graph.add_node(node(0, Op::MatMul, vec![0, 1], 2));
    graph.add_node(node(1, Op::MatMul, vec![2, 1], 3));
    graph.add_node(node(2, Op::ReLU, vec![3], 4));
    graph.add_node(node(3, Op::Add, vec![4, 5], 6));
    graph.add_node(node(4, Op::GELU, vec![6], 7));
    graph.optimize();
    let ops: Vec<Op> = graph.nodes().iter().map(|n| n.op).collect();
    assert_eq!(ops, vec![Op::MatMul, Op::FusedLinearReLU, Op::FusedLinearGELU]);
    graph.optimize();
    let again: Vec<Op> = graph.nodes().iter().map(|n| n.op).collect();
    assert_eq!(again, ops);
}

#[test]
fn add_node_returns_position_and_nodes_are_found() {
    let mut graph = Graph::new(3);
    assert_eq!(graph.add_node(node(7, Op::ReLU, vec![0], 1)), 0);
    assert_eq!(graph.add_node(node(8, Op::GELU, vec![1], 9)), 1);
    assert_eq!(graph.nodes().len(), 2);
    assert_eq!(graph.get_node(1).unwrap().id, 8);
    assert!(graph.get_node(2).is_none());
    assert_eq!(graph.get_next(0).unwrap().op, Op::GELU);
    assert!(graph.get_next(1).is_none());
}

#[test]
fn stats_count_each_operation() {
    let graph = GraphBuilder::new(9)
        .add_matmul(0, 1, 2, 1, 1, 1)
        .add_relu(2, 3)
        .add_matmul(3, 1, 4, 1, 1, 1)
        .add_layer_norm(4, 5, 1e-5f32.to_bits())
        .build();
    let stats = graph.stats();
    assert_eq!(stats.num_nodes, 4);
    assert_eq!(stats.num_tensors, 9);
    assert_eq!(
        stats.op_counts,
        vec![(Op::MatMul, 2), (Op::ReLU, 1), (Op::LayerNorm, 1)]
    );
    let total: usize = stats.op_counts.iter().map(|p| p.1).sum();
    assert_eq!(total, stats.num_nodes);
}

#[test]
fn builder_numbers_nodes_and_keeps_epsilon_bits() {
    let graph = GraphBuilder::new(4)
        .add_relu(0, 1)
        .add_layer_norm(1, 2, 0.5f32.to_bits())
        .build();
    assert_eq!(graph.nodes()[0].id, 0);
    assert_eq!(graph.nodes()[1].id, 1);
    assert_eq!(
        graph.nodes()[1].metadata,
        NodeMetadata::LayerNorm { epsilon: 0.5f32.to_bits() }
    );
}

#[test]
fn builder_optimize_fuses() {
    let graph = GraphBuilder::new(10)
        .add_matmul(0, 1, 2, 2, 3, 2)
        .add_relu(2, 3)
        .optimize();
    assert_eq!(graph.stats().num_nodes, 1);
}
