use inference_engine::gguf::{GgufLoader, LoaderError as GgufError};
use inference_engine::graph::{NodeMetadata, Op};
use inference_engine::onnx::OnnxLoader;

#[test]
fn gguf_header_too_small_is_refused() {
    match GgufLoader::parse_header(&[0u8; 15]) {
        Err(GgufError::InvalidFormat(msg)) => assert_eq!(msg, "File too small"),
        other => panic!("unexpected: {:?}", other.is_ok()),
    }
}

#[test]
fn gguf_header_gives_default_metadata() {
    let (tensors, metadata) = GgufLoader::parse_header(&[0u8; 16]).unwrap();
    assert!(tensors.is_empty());
    assert_eq!(metadata.architecture, "llama");
    assert_eq!(metadata.vocab_size, 32000);
    assert_eq!(metadata.hidden_size, 4096);
    assert_eq!(metadata.num_layers, 32);
}

#[test]
fn gguf_io_errors_convert() {
    let e: GgufError = std::io::Error::new(std::io::ErrorKind::NotFound, "missing").into();
    assert!(matches!(e, GgufError::Io(_)));
}

#[test]
fn onnx_loader_keeps_path_and_builds_graph() {
    let loader = OnnxLoader::load("model.onnx").unwrap();
    let graph = loader.build_graph().unwrap();
    let nodes = graph.nodes();
    assert_eq!(nodes.len(), 3);
    assert_eq!(nodes[0].op, Op::MatMul);
    assert_eq!(nodes[0].metadata, NodeMetadata::MatMul { m: 128, k: 768, n: 768 });
    assert_eq!(nodes[1].op, Op::ReLU);
    assert_eq!(nodes[2].op, Op::LayerNorm);
    assert_eq!(nodes[2].metadata, NodeMetadata::LayerNorm { epsilon: 1e-5f32.to_bits() });
    assert_eq!(graph.stats().num_tensors, 50);
}

fn anonymous_map(len: usize) -> memmap2::Mmap {
    let mut map = memmap2::MmapMut::map_anon(len).expect("anonymous map");
    for (i, b) in map.iter_mut().enumerate() {
        *b = i as u8;
    }
    map.make_read_only().expect("read-only map")
}

#[test]
fn gguf_loader_over_mapped_bytes() {
    let loader = GgufLoader::from_mmap(anonymous_map(20)).unwrap();
    let bytes = loader.weights_buffer();
    assert_eq!(bytes.len(), 20);
    assert_eq!(bytes[19], 19);
    let graph = loader.build_graph().unwrap();
    assert_eq!(graph.nodes().len(), 1);
    assert_eq!(graph.nodes()[0].metadata, NodeMetadata::MatMul { m: 128, k: 512, n: 512 });
    assert_eq!(graph.stats().num_tensors, 100);
}

#[test]
fn gguf_loader_refuses_short_mapping() {
    match GgufLoader::from_mmap(anonymous_map(8)) {
        Err(GgufError::InvalidFormat(msg)) => assert_eq!(msg, "File too small"),
        _ => panic!("a short mapping must be refused"),
    }
}
