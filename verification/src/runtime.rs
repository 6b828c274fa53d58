//! The hybrid runtime: requests come in, are staged into the arena's IO
//! section within a leased workspace slot, the engine runs, and the first
//! words of the IO section go out as the result.
use vstd::prelude::*;
use crate::arena::{ArenaModel, Section};
use crate::engine::InferenceEngine;
use crate::sink::InferenceResult;
use crate::stream::{
    InferenceRequest, WorkspaceManager, WorkspaceSlot, lowest_free, some_free,
};

verus! {

/// Number of IO words returned as a request's output.
pub const OUTPUT_LEN: usize = 100;

/// Errors of the runtime.
#[derive(Debug, Clone, PartialEq, Eq)]
pub enum RuntimeError {
    ExecutionFailed(String),
    SinkFailed(String),
}

/// `io` with the first `min(input.len(), io.len())` words replaced by the
/// input's.
pub open spec fn staged(io: Seq<u32>, input: Seq<u32>) -> Seq<u32> {
    let n = if input.len() < io.len() {
        input.len()
    } else {
        io.len()
    };
    input.take(n as int) + io.skip(n as int)
}

/// An engine together with the workspace slots that bound concurrent
/// requests.
pub struct HybridRuntime {
    engine: InferenceEngine,
    workspace_manager: WorkspaceManager,
}

impl HybridRuntime {
    /// The runtime's engine.
    pub closed spec fn engine_state(&self) -> InferenceEngine {
        self.engine
    }

    /// The runtime's workspace slots.
    pub closed spec fn workspace(&self) -> WorkspaceManager {
        self.workspace_manager
    }

    pub open spec fn wf(&self) -> bool {
        &&& self.engine_state().wf()
        &&& self.workspace().wf()
    }

    /// The contents of the engine's arena.
    pub open spec fn arena_model(&self) -> ArenaModel {
        self.engine_state().arena_model()
    }

    pub fn new(engine: InferenceEngine, num_concurrent_requests: usize) -> (r: Self)
        requires
            engine.wf(),
        ensures
            r.wf(),
            r.engine_state() == engine,
            r.workspace().num_slots() == num_concurrent_requests,
            r.workspace().occupied() == Seq::new(num_concurrent_requests as nat, |i: int| false),
    {
        HybridRuntime {
            engine,
            workspace_manager: WorkspaceManager::new(num_concurrent_requests),
        }
    }

    /// The runtime's engine.
    pub fn engine(&self) -> (r: &InferenceEngine)
        ensures
            *r == self.engine_state(),
    {
        &self.engine
    }

    /// The runtime's workspace slots.
    pub fn workspace_manager(&self) -> (r: &WorkspaceManager)
        ensures
            *r == self.workspace(),
    {
        &self.workspace_manager
    }

    /// The runtime's engine, for running it; the slots stay as they are.
    pub fn engine_mut(&mut self) -> (r: &mut InferenceEngine)
        ensures
            *r == old(self).engine_state(),
            *final(r) == final(self).engine_state(),
            final(self).workspace() == old(self).workspace(),
    {
        &mut self.engine
    }

    /// Copies the input into the start of the IO section, as much of it as
    /// fits; the rest of the arena is left as it was.
    pub fn stage_input(&mut self, input: &[u32])
        requires
            old(self).wf(),
        ensures
            final(self).wf(),
            final(self).workspace() == old(self).workspace(),
            final(self).engine_state().graph_view() == old(self).engine_state().graph_view(),
            final(self).arena_model() == old(self).arena_model().with_section(
                Section::IO,
                staged(old(self).arena_model().io, input@),
            ),
            final(self).arena_model().io.len() == old(self).arena_model().io.len(),
            forall|i: int|
                0 <= i < old(self).arena_model().io.len() ==> #[trigger] final(self).arena_model().io[i]
                    == if i < input@.len() {
                    input@[i]
                } else {
                    old(self).arena_model().io[i]
                },
    {
        proof {
            law_staging_copies_what_fits(old(self).arena_model().io, input@);
        }
        let ghost old_io = self.engine.arena_model().io;
        let io_section = self.engine.arena_mut().section_slice_mut(Section::IO);
        let copy_len = if input.len() < io_section.len() {
            input.len()
        } else {
            io_section.len()
        };
        let mut i: usize = 0;
        while i < copy_len
            invariant
                copy_len <= input@.len(),
                copy_len <= old_io.len(),
                io_section@.len() == old_io.len(),
                i <= copy_len,
                forall|j: int| 0 <= j < i ==> io_section@[j] == input@[j],
                forall|j: int| i <= j < old_io.len() ==> io_section@[j] == old_io[j],
            decreases copy_len - i,
        {
            io_section[i] = input[i];
            i = i + 1;
        }
        assert(io_section@ =~= staged(old_io, input@));
    }

    /// The first `OUTPUT_LEN` words of the IO section.
    pub fn collect_output(&self) -> (r: Vec<u32>)
        requires
            self.wf(),
            self.arena_model().io.len() >= OUTPUT_LEN,
        ensures
            r@ == self.arena_model().io.take(OUTPUT_LEN as int),
    {
        let io_section = self.engine.arena().section_slice(Section::IO);
        let mut out: Vec<u32> = Vec::with_capacity(OUTPUT_LEN);
        let mut i: usize = 0;
        while i < OUTPUT_LEN
            invariant
                io_section@.len() >= OUTPUT_LEN,
                i <= OUTPUT_LEN,
                out@ == io_section@.take(i as int),
            decreases OUTPUT_LEN - i,
        {
            out.push(io_section[i]);
            i = i + 1;
            assert(out@ =~= io_section@.take(i as int));
        }
        out
    }

    /// Starts a request: leases the lowest free slot and stages the request's
    /// data into the IO section.
    pub fn begin_request(&mut self, request: &InferenceRequest) -> (slot: WorkspaceSlot)
        requires
            old(self).wf(),
            some_free(old(self).workspace().occupied()),
        ensures
            final(self).wf(),
            lowest_free(old(self).workspace().occupied(), slot.index as int),
            slot.section == Section::IO,
            final(self).workspace().occupied() == old(self).workspace().occupied().update(
                slot.index as int,
                true,
            ),
            final(self).workspace().num_slots() == old(self).workspace().num_slots(),
            final(self).engine_state().graph_view() == old(self).engine_state().graph_view(),
            final(self).arena_model() == old(self).arena_model().with_section(
                Section::IO,
                staged(old(self).arena_model().io, request.data@),
            ),
    {
        match self.workspace_manager.try_acquire() {
            Some(slot) => {
                self.stage_input(request.data.as_slice());
                slot
            },
            None => {
                proof {
                    assert(false);
                }
                WorkspaceSlot { index: 0, section: Section::IO }
            },
        }
    }

    /// Finishes a request: reads its output from the IO section, gives its
    /// slot back, and packs the result.
    pub fn finish_request(&mut self, slot: WorkspaceSlot, request_id: u64, latency_us: u64) -> (r:
        InferenceResult)
        requires
            old(self).wf(),
            old(self).arena_model().io.len() >= OUTPUT_LEN,
        ensures
            final(self).wf(),
            final(self).engine_state() == old(self).engine_state(),
            final(self).workspace().num_slots() == old(self).workspace().num_slots(),
            final(self).workspace().occupied() == if slot.index < old(
                self,
            ).workspace().occupied().len() {
                old(self).workspace().occupied().update(slot.index as int, false)
            } else {
                old(self).workspace().occupied()
            },
            r.request_id == request_id,
            r.latency_us == latency_us,
            r.data@ == old(self).arena_model().io.take(OUTPUT_LEN as int),
    {
        let data = self.collect_output();
        self.workspace_manager.release(slot);
        InferenceResult { request_id, data, latency_us }
    }
}


// ---------------------------------------------------------------------------
// Laws
// ---------------------------------------------------------------------------
/// A run touches only the activation section, so the output read after
/// staging an input and running the engine is the staged IO section's
/// first `OUTPUT_LEN` words: the input as far as it fits, then what IO held
/// before.
pub proof fn law_output_reads_staged_io(m: ArenaModel, input: Seq<u32>)
    requires
        m.io.len() >= OUTPUT_LEN,
    ensures
        ({
            let staged_model = m.with_section(Section::IO, staged(m.io, input));
            let after_run = staged_model.with_section(
                Section::Activations,
                crate::arena::zeros(staged_model.activations.len()),
            );
            &&& after_run.io.take(OUTPUT_LEN as int) == staged(m.io, input).take(OUTPUT_LEN as int)
            &&& after_run.weights == m.weights
            &&& forall|i: int|
                0 <= i < OUTPUT_LEN && i < input.len() ==> #[trigger] after_run.io[i] == input[i]
        }),
{
    let io = staged(m.io, input);
    assert forall|i: int| 0 <= i < OUTPUT_LEN && i < input.len() implies #[trigger] io[i]
        == input[i] by {
        let n = if input.len() < m.io.len() {
            input.len()
        } else {
            m.io.len()
        };
        assert(i < n);
    }
}


/// Staging copies every input word that fits: the IO section keeps its size,
/// word `i` becomes the input's word `i` whenever the input has one, and keeps
/// its old value otherwise.
pub proof fn law_staging_copies_what_fits(io: Seq<u32>, input: Seq<u32>)
    ensures
        staged(io, input).len() == io.len(),
        forall|i: int|
            0 <= i < io.len() ==> #[trigger] staged(io, input)[i] == if i < input.len() {
                input[i]
            } else {
                io[i]
            },
{
}

} // verus!
