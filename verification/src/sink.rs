//! Outgoing results: a bounded buffer that refuses results when full, which
//! is how a slow consumer holds back the engine.
use vstd::prelude::*;

verus! {

/// Result of an inference. `data` holds the bit patterns of the `f32`
/// outputs.
#[derive(Debug, Clone)]
pub struct InferenceResult {
    /// Request ID this result corresponds to
    pub request_id: u64,
    /// Output tensor data
    pub data: Vec<u32>,
    /// Inference latency in microseconds
    pub latency_us: u64,
}

/// A result as a mathematical value.
pub struct ResultView {
    pub request_id: u64,
    pub data: Seq<u32>,
    pub latency_us: u64,
}

impl View for InferenceResult {
    type V = ResultView;

    open spec fn view(&self) -> ResultView {
        ResultView { request_id: self.request_id, data: self.data@, latency_us: self.latency_us }
    }
}

/// Errors of a result sink.
#[derive(Debug, Clone, PartialEq, Eq)]
pub enum SinkError {
    BufferFull,
    Io(String),
}

/// Buffers results up to a fixed number.
pub struct ResultSink {
    buffer: Vec<InferenceResult>,
    max_buffer_size: usize,
}

impl ResultSink {
    /// The results buffered so far, oldest first.
    pub closed spec fn buffered(&self) -> Seq<ResultView> {
        self.buffer@.map_values(|r: InferenceResult| r@)
    }

    /// How many results the sink holds at most.
    pub closed spec fn max_size(&self) -> nat {
        self.max_buffer_size as nat
    }

    /// The sink never holds more results than its maximum.
    pub open spec fn wf(&self) -> bool {
        self.buffered().len() <= self.max_size()
    }

    pub fn new(max_buffer_size: usize) -> (r: Self)
        ensures
            r.wf(),
            r.buffered() == Seq::<ResultView>::empty(),
            r.max_size() == max_buffer_size,
    {
        let r = ResultSink { buffer: Vec::new(), max_buffer_size };
        assert(r.buffered() =~= Seq::<ResultView>::empty());
        r
    }

    /// Whether the sink can take another result.
    pub fn has_capacity(&self) -> (r: bool)
        ensures
            r == (self.buffered().len() < self.max_size()),
    {
        self.buffer.len() < self.max_buffer_size
    }

    /// Takes a result, or refuses it with `BufferFull` when the sink is full,
    /// leaving the sink as it was.
    pub fn start_send(&mut self, item: InferenceResult) -> (r: Result<(), SinkError>)
        requires
            old(self).wf(),
        ensures
            final(self).wf(),
            final(self).max_size() == old(self).max_size(),
            old(self).buffered().len() < old(self).max_size() ==> {
                &&& r is Ok
                &&& final(self).buffered() == old(self).buffered().push(item@)
            },
            old(self).buffered().len() >= old(self).max_size() ==> {
                &&& r == Err::<(), SinkError>(SinkError::BufferFull)
                &&& final(self).buffered() == old(self).buffered()
            },
    {
        if !self.has_capacity() {
            return Err(SinkError::BufferFull);
        }
        self.buffer.push(item);
        assert(self.buffered() =~= old(self).buffered().push(item@));
        Ok(())
    }

    /// Hands out every buffered result, oldest first, and empties the sink.
    pub fn drain(&mut self) -> (r: Vec<InferenceResult>)
        ensures
            final(self).wf(),
            final(self).max_size() == old(self).max_size(),
            r@.map_values(|x: InferenceResult| x@) == old(self).buffered(),
            final(self).buffered() == Seq::<ResultView>::empty(),
    {
        let mut r: Vec<InferenceResult> = Vec::new();
        std::mem::swap(&mut r, &mut self.buffer);
        assert(self.buffered() =~= Seq::<ResultView>::empty());
        r
    }
}

/// A sink that streams results over a WebSocket connection.
pub struct WebSocketSink {
    endpoint: String,
}

impl WebSocketSink {
    /// The endpoint the sink sends to.
    pub closed spec fn endpoint(&self) -> Seq<char> {
        self.endpoint@
    }

    pub fn new(endpoint: String) -> (r: Self)
        ensures
            r.endpoint() == endpoint@,
    {
        WebSocketSink { endpoint }
    }
}

// ---------------------------------------------------------------------------
// Laws
// ---------------------------------------------------------------------------
/// A drained sink takes results again, as long as its maximum is not zero.
pub proof fn law_drained_sink_accepts(sink: ResultSink)
    requires
        sink.buffered() == Seq::<ResultView>::empty(),
    ensures
        (sink.buffered().len() < sink.max_size()) == (sink.max_size() > 0),
{
}

} // verus!
