//! ONNX model loader: records the model's path and builds its graph.
use vstd::prelude::*;
use crate::graph::{Graph, GraphBuilder, GraphView, NodeMetadata, NodeView, Op, empty_graph, graph_with_node};

verus! {

/// Bit pattern of the `f32` value `1e-5`, the layer-norm epsilon of the
/// models this loader builds.
pub const LAYER_NORM_EPSILON_BITS: u32 = 0x3727_c5ac;

/// ONNX model loader.
pub struct OnnxLoader {
    model_path: String,
}

/// Errors of the ONNX loader.
#[derive(Debug)]
pub enum LoaderError {
    InvalidFormat(String),
    UnsupportedOp(String),
}

/// The graph the ONNX loader builds over 50 tensors: a 128x768 by 768x768
/// matrix multiplication, a ReLU on its result, and a layer norm after that.
pub open spec fn onnx_graph() -> GraphView {
    let g0 = empty_graph(50);
    let g1 = graph_with_node(
        g0,
        NodeView {
            id: 0,
            op: Op::MatMul,
            inputs: seq![0usize, 1usize],
            output: 2,
            metadata: NodeMetadata::MatMul { m: 128, k: 768, n: 768 },
        },
    );
    let g2 = graph_with_node(
        g1,
        NodeView {
            id: 1,
            op: Op::ReLU,
            inputs: seq![2usize],
            output: 3,
            metadata: NodeMetadata::NoParams,
        },
    );
    graph_with_node(
        g2,
        NodeView {
            id: 2,
            op: Op::LayerNorm,
            inputs: seq![3usize],
            output: 4,
            metadata: NodeMetadata::LayerNorm { epsilon: LAYER_NORM_EPSILON_BITS },
        },
    )
}

impl OnnxLoader {
    /// The path of the model file.
    pub closed spec fn path(&self) -> Seq<char> {
        self.model_path@
    }

    /// Makes a loader for the model at `path`.
    pub fn load(path: &str) -> (r: Result<Self, LoaderError>)
        ensures
            r matches Ok(loader) && loader.path() == path@,
    {
        Ok(OnnxLoader { model_path: path.to_owned() })
    }

    /// The model's graph.
    pub fn build_graph(&self) -> (r: Result<Graph, LoaderError>)
        ensures
            r matches Ok(g) && g@ == onnx_graph(),
    {
        let builder = GraphBuilder::new(50);
        let builder = builder.add_matmul(0, 1, 2, 128, 768, 768);
        let builder = builder.add_relu(2, 3);
        let builder = builder.add_layer_norm(3, 4, LAYER_NORM_EPSILON_BITS);
        Ok(builder.build())
    }
}


/// The ONNX loader's graph is a chain of three nodes: each node after the
/// first reads, as its first input, the tensor the node before it writes.
pub proof fn law_onnx_graph_is_chain()
    ensures
        onnx_graph().nodes.len() == 3,
        forall|i: int|
            0 <= i < onnx_graph().nodes.len() - 1 ==> onnx_graph().nodes[i + 1].inputs.len() > 0
                && #[trigger] onnx_graph().nodes[i + 1].inputs[0] == onnx_graph().nodes[i].output,
        onnx_graph().nodes[0].inputs == seq![0usize, 1usize],
        onnx_graph().nodes[2].op == Op::LayerNorm,
{
    let g = onnx_graph();
    assert(g.nodes[1].inputs[0] == g.nodes[0].output);
    assert(g.nodes[2].inputs[0] == g.nodes[1].output);
}

} // verus!
