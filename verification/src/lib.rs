//! An inference engine for small neural-network graphs: a word arena split
//! into weight, activation and IO sections; a static operation graph with
//! operator fusion; a scheduler that turns the graph into kernel calls on
//! arena ranges; request and result queues with back-pressure; and model
//! loaders.
pub mod arena;
pub mod engine;
pub mod gguf;
pub mod graph;
pub mod onnx;
pub mod runtime;
pub mod sink;
pub mod stream;

pub use engine::{ExecutionError, ExecutionSchedule, InferenceEngine, KernelCall};
pub use runtime::{HybridRuntime, RuntimeError};
