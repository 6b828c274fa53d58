//! GGUF model loader: reads the header of a memory-mapped GGUF file and
//! builds the model's graph.
use vstd::prelude::*;
use memmap2::Mmap;
use crate::graph::{Graph, GraphView, NodeMetadata, NodeView, Op, empty_graph, graph_with_node};

verus! {

#[verifier::external_type_specification]
#[verifier::external_body]
pub struct ExMmap(Mmap);

#[verifier::external_type_specification]
#[verifier::external_body]
pub struct ExIoError(std::io::Error);

/// GGUF file magic number ("GGUF" in little-endian).
#[allow(dead_code)]
const GGUF_MAGIC: u32 = 0x46554747;

/// GGUF format version.
#[allow(dead_code)]
const GGUF_VERSION: u32 = 3;

/// Smallest header this loader accepts, in bytes.
pub const MIN_HEADER_LEN: usize = 16;

/// Quantization types supported.
#[allow(non_camel_case_types)]
#[derive(Debug, Clone, Copy, PartialEq, Eq, Structural)]
pub enum QuantType {
    F32,
    F16,
    Q4_0,
}

/// GGUF tensor descriptor.
#[derive(Debug, Clone)]
pub struct TensorInfo {
    pub name: String,
    pub shape: Vec<usize>,
    pub quant_type: QuantType,
    pub offset: usize,
    pub size: usize,
}

/// GGUF model metadata.
#[derive(Debug)]
pub struct ModelMetadata {
    pub architecture: String,
    pub vocab_size: usize,
    pub hidden_size: usize,
    pub num_layers: usize,
}

/// Errors of the GGUF loader.
#[derive(Debug)]
pub enum LoaderError {
    Io(std::io::Error),
    InvalidFormat(String),
}

impl From<std::io::Error> for LoaderError {
    fn from(e: std::io::Error) -> (r: Self) {
        LoaderError::Io(e)
    }
}

impl vstd::std_specs::convert::FromSpecImpl<std::io::Error> for LoaderError {
    open spec fn obeys_from_spec() -> bool {
        true
    }

    open spec fn from_spec(e: std::io::Error) -> Self {
        LoaderError::Io(e)
    }
}

/// The metadata this loader reports for every GGUF model it accepts.
pub open spec fn default_metadata(m: ModelMetadata) -> bool {
    &&& m.architecture@ == "llama"@
    &&& m.vocab_size == 32000
    &&& m.hidden_size == 4096
    &&& m.num_layers == 32
}

/// `r` is what the header parser answers for a file of `len` bytes: too
/// small files are refused, others give no tensors and the default metadata.
pub open spec fn header_result(len: nat, r: Result<(Vec<TensorInfo>, ModelMetadata), LoaderError>) -> bool {
    if len < MIN_HEADER_LEN {
        r matches Err(LoaderError::InvalidFormat(msg)) && msg@ == "File too small"@
    } else {
        r matches Ok((tensors, metadata)) && tensors@.len() == 0 && default_metadata(metadata)
    }
}

/// The graph the GGUF loader builds: one 128x512 by 512x512 matrix
/// multiplication over 100 tensors.
pub open spec fn gguf_graph() -> GraphView {
    graph_with_node(
        empty_graph(100),
        NodeView {
            id: 0,
            op: Op::MatMul,
            inputs: seq![0usize, 1usize],
            output: 2,
            metadata: NodeMetadata::MatMul { m: 128, k: 512, n: 512 },
        },
    )
}

/// The length, in bytes, that a mapping was made with.
pub uninterp spec fn mapped_len(map: Mmap) -> nat;

/// The bytes of a memory-mapped file.
///
/// Dereferences `memmap2::Mmap`, which yields the mapped region as a byte
/// slice built from the mapping's pointer and the length it was made with;
/// the contract claims only that length. Nothing is claimed of the contents,
/// which are those of the file and can change under the mapping.
#[verifier::external_body]
fn mapped_bytes(map: &Mmap) -> (r: &[u8])
    ensures
        r@.len() == mapped_len(*map),
{
    &**map
}

/// GGUF model loader over a memory-mapped file.
pub struct GgufLoader {
    mmap: Mmap,
    tensors: Vec<TensorInfo>,
    metadata: ModelMetadata,
}

impl GgufLoader {
    /// The tensors the header lists.
    pub closed spec fn tensor_count(&self) -> nat {
        self.tensors@.len()
    }

    /// The mapping the loader reads from.
    pub closed spec fn mapping(&self) -> Mmap {
        self.mmap
    }

    /// The loader only exists over mappings long enough to hold a header.
    #[verifier::type_invariant]
    spec fn header_fits(&self) -> bool {
        mapped_len(self.mmap) >= MIN_HEADER_LEN
    }

    /// The model metadata read from the header.
    pub closed spec fn metadata_state(&self) -> ModelMetadata {
        self.metadata
    }

    /// Parses a GGUF header: a file shorter than `MIN_HEADER_LEN` bytes is
    /// refused with `InvalidFormat("File too small")`; otherwise the loader
    /// reports no tensors and the default metadata.
    pub fn parse_header(data: &[u8]) -> (r: Result<(Vec<TensorInfo>, ModelMetadata), LoaderError>)
        ensures
            header_result(data@.len(), r),
    {
        if data.len() < MIN_HEADER_LEN {
            return Err(LoaderError::InvalidFormat("File too small".to_owned()));
        }
        let metadata = ModelMetadata {
            architecture: "llama".to_owned(),
            vocab_size: 32000,
            hidden_size: 4096,
            num_layers: 32,
        };
        Ok((Vec::new(), metadata))
    }

    /// Makes a loader over a mapped file by parsing its header.
    pub fn from_mmap(mmap: Mmap) -> (r: Result<Self, LoaderError>)
        ensures
            r is Ok <==> mapped_len(mmap) >= MIN_HEADER_LEN,
            match r {
                Ok(loader) => {
                    &&& loader.tensor_count() == 0
                    &&& default_metadata(loader.metadata_state())
                    &&& loader.mapping() == mmap
                },
                Err(e) => e matches LoaderError::InvalidFormat(msg) && msg@ == "File too small"@,
            },
    {
        let (tensors, metadata) = match Self::parse_header(mapped_bytes(&mmap)) {
            Ok(parsed) => parsed,
            Err(e) => {
                return Err(e);
            },
        };
        Ok(GgufLoader { mmap, tensors, metadata })
    }

    /// The model's graph.
    pub fn build_graph(&self) -> (r: Result<Graph, LoaderError>)
        ensures
            r matches Ok(g) && g@ == gguf_graph(),
    {
        let builder = crate::graph::GraphBuilder::new(100);
        let builder = builder.add_matmul(0, 1, 2, 128, 512, 512);
        Ok(builder.build())
    }

    /// The mapped file's bytes: as many as the mapping was made with, which
    /// is at least a header's worth.
    pub fn weights_buffer(&self) -> (r: &[u8])
        ensures
            r@.len() == mapped_len(self.mapping()),
            r@.len() >= MIN_HEADER_LEN,
    {
        proof {
            use_type_invariant(self);
        }
        mapped_bytes(&self.mmap)
    }
}


/// The GGUF loader's graph is one matrix multiplication that reads its input
/// from tensor 0 and its weights from tensor 1, and writes tensor 2.
pub proof fn law_gguf_graph_shape()
    ensures
        gguf_graph().nodes.len() == 1,
        gguf_graph().nodes[0].op == Op::MatMul,
        gguf_graph().nodes[0].inputs.len() == 2,
        gguf_graph().nodes[0].inputs[0] == 0,
        gguf_graph().nodes[0].inputs[1] == 1,
        gguf_graph().nodes[0].output == 2,
{
}

} // verus!
