use inference_engine::arena::Section;
use inference_engine::graph::GraphBuilder;
use inference_engine::runtime::OUTPUT_LEN;
use inference_engine::sink::{InferenceResult, ResultSink, SinkError};
use inference_engine::stream::{InferenceRequest, RequestStream, WorkspaceManager};
use inference_engine::{HybridRuntime, InferenceEngine};

fn bits(values: &[f32]) -> Vec<u32> {
    values.iter().map(|v| v.to_bits()).collect()
}

#[test]
fn test_workspace_manager() {
    let mut manager = WorkspaceManager::new(3);

    // Acquire all slots
    let _slot1 = manager.try_acquire().expect("Should get slot 1");
    let slot2 = manager.try_acquire().expect("Should get slot 2");
    let _slot3 = manager.try_acquire().expect("Should get slot 3");

    // No more slots available
    assert!(manager.try_acquire().is_none());
    assert!(!manager.has_capacity());

    // Release one
    manager.release(slot2);
    assert!(manager.has_capacity());

    // Can acquire again
    let _slot4 = manager.try_acquire().expect("Should get slot after release");
}

#[test]
fn test_request_stream() {
    let requests = vec![
        InferenceRequest { id: 1, data: bits(&[1.0, 2.0, 3.0]), batch_size: 1 },
        InferenceRequest { id: 2, data: bits(&[4.0, 5.0, 6.0]), batch_size: 1 },
    ];

    let mut stream = RequestStream::new(requests);

    let first = stream.next_request();
    assert!(first.is_some());
    assert_eq!(first.unwrap().id, 1);

    let second = stream.next_request();
    assert!(second.is_some());
    assert_eq!(second.unwrap().id, 2);

    let third = stream.next_request();
    assert!(third.is_none());
}

#[test]
fn test_result_sink_backpressure() {
    let mut sink = ResultSink::new(2);

    // Can send up to capacity
    let result1 = InferenceResult { request_id: 1, data: bits(&[1.0, 2.0]), latency_us: 100 };
    sink.start_send(result1).expect("Should send");

    let result2 = InferenceResult { request_id: 2, data: bits(&[3.0, 4.0]), latency_us: 150 };
    sink.start_send(result2).expect("Should send");

    // Drain to free capacity
    let drained = sink.drain();
    assert_eq!(drained.len(), 2);

    // Can send again
    let result3 = InferenceResult { request_id: 3, data: bits(&[5.0, 6.0]), latency_us: 120 };
    sink.start_send(result3).expect("Should send after drain");
}

#[test]
fn test_sync_inference() {
    // Build simple graph
    let graph = GraphBuilder::new(10)
        .add_matmul(0, 1, 2, 2, 3, 2)
        .add_relu(2, 3)
        .build();

    let engine = InferenceEngine::new(graph, 100, 200, 500);
    let mut runtime = HybridRuntime::new(engine, 4);

    // Stage the input, schedule the run, read the output
    let input = bits(&[1.0, 2.0, 3.0]);
    runtime.stage_input(&input);
    let schedule = runtime.engine_mut().execute();
    assert!(schedule.outcome.is_ok());
    let output = runtime.collect_output();
    assert_eq!(output.len(), OUTPUT_LEN);
    assert_eq!(&output[..3], &input[..]);
}

#[test]
fn test_async_pipeline() {
    let graph = GraphBuilder::new(10).add_matmul(0, 1, 2, 2, 3, 2).build();

    let engine = InferenceEngine::new(graph, 100, 200, 500);
    let mut runtime = HybridRuntime::new(engine, 4);

    let requests = vec![
        InferenceRequest { id: 1, data: vec![1.0f32.to_bits(); 10], batch_size: 1 },
        InferenceRequest { id: 2, data: vec![2.0f32.to_bits(); 10], batch_size: 1 },
    ];

    let mut stream = RequestStream::new(requests);
    let mut sink = ResultSink::new(10);

    // The request loop, with the kernel calls left to the caller
    while let Some(request) = stream.next_request() {
        let slot = runtime.begin_request(&request);
        let schedule = runtime.engine_mut().execute();
        assert!(schedule.outcome.is_ok());
        let result = runtime.finish_request(slot, request.id, 0);
        assert!(sink.start_send(result).is_ok());
    }
    let results = sink.drain();
    assert_eq!(results.len(), 2);
    assert_eq!(results[0].request_id, 1);
    assert_eq!(results[1].request_id, 2);
    assert_eq!(results[1].data[..10], vec![2.0f32.to_bits(); 10][..]);
}

#[test]
fn workspace_hands_out_lowest_free_slot() {
    let mut manager = WorkspaceManager::new(3);
    let a = manager.try_acquire().unwrap();
    let b = manager.try_acquire().unwrap();
    assert_eq!((a.index, b.index), (0, 1));
    assert_eq!(a.section, Section::IO);
    manager.release(a);
    assert_eq!(manager.try_acquire().unwrap().index, 0);
    // An index the manager does not have is ignored
    manager.release(inference_engine::stream::WorkspaceSlot { index: 9, section: Section::IO });
    assert_eq!(manager.try_acquire().unwrap().index, 2);
    assert!(manager.try_acquire().is_none());
}

#[test]
fn empty_workspace_has_no_capacity() {
    let mut manager = WorkspaceManager::new(0);
    assert!(!manager.has_capacity());
    assert!(manager.try_acquire().is_none());
}

#[test]
fn full_sink_refuses_and_keeps_contents() {
    let mut sink = ResultSink::new(1);
    assert!(sink.has_capacity());
    sink.start_send(InferenceResult { request_id: 1, data: vec![], latency_us: 0 }).unwrap();
    assert!(!sink.has_capacity());
    let refused = sink.start_send(InferenceResult { request_id: 2, data: vec![], latency_us: 0 });
    assert_eq!(refused, Err(SinkError::BufferFull));
    let drained = sink.drain();
    assert_eq!(drained.len(), 1);
    assert_eq!(drained[0].request_id, 1);
    assert!(sink.has_capacity());
}

#[test]
fn zero_sized_sink_never_accepts() {
    let mut sink = ResultSink::new(0);
    assert!(!sink.has_capacity());
    let r = sink.start_send(InferenceResult { request_id: 1, data: vec![], latency_us: 0 });
    assert_eq!(r, Err(SinkError::BufferFull));
}

#[test]
fn stage_input_copies_only_what_fits() {
    let graph = GraphBuilder::new(1).build();
    let engine = InferenceEngine::new(graph, 0, 0, 3);
    let mut runtime = HybridRuntime::new(engine, 1);
    runtime.stage_input(&[9, 8, 7, 6, 5]);
    assert_eq!(runtime.engine().arena().section_slice(Section::IO), &[9, 8, 7]);
    runtime.stage_input(&[1]);
    assert_eq!(runtime.engine().arena().section_slice(Section::IO), &[1, 8, 7]);
}

#[test]
fn finish_request_releases_the_slot() {
    let graph = GraphBuilder::new(1).build();
    let engine = InferenceEngine::new(graph, 0, 0, 120);
    let mut runtime = HybridRuntime::new(engine, 1);
    let request = InferenceRequest { id: 4, data: vec![3; 5], batch_size: 1 };
    let slot = runtime.begin_request(&request);
    assert_eq!(slot.index, 0);
    let result = runtime.finish_request(slot, 4, 17);
    assert_eq!(result.request_id, 4);
    assert_eq!(result.latency_us, 17);
    assert_eq!(result.data.len(), 100);
    assert_eq!(&result.data[..6], &[3, 3, 3, 3, 3, 0]);
    // The slot is free again
    let again = runtime.begin_request(&request);
    assert_eq!(again.index, 0);
}
