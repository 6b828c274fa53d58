//! Incoming requests: a queue of inference requests and the workspace
//! slots that bound how many are in flight at once.
use vstd::prelude::*;
use crate::arena::Section;

verus! {

/// A request for inference. `data` holds the bit patterns of the `f32`
/// inputs.
#[derive(Debug, Clone)]
pub struct InferenceRequest {
    /// Request ID for tracking
    pub id: u64,
    /// Raw input data (tokens, embeddings, etc.)
    pub data: Vec<u32>,
    /// Batch size
    pub batch_size: usize,
}

/// A request as a mathematical value.
pub struct RequestView {
    pub id: u64,
    pub data: Seq<u32>,
    pub batch_size: usize,
}

impl View for InferenceRequest {
    type V = RequestView;

    open spec fn view(&self) -> RequestView {
        RequestView { id: self.id, data: self.data@, batch_size: self.batch_size }
    }
}

impl InferenceRequest {
    fn copy(&self) -> (r: InferenceRequest)
        ensures
            r@ == self@,
    {
        let mut data: Vec<u32> = Vec::with_capacity(self.data.len());
        let mut i: usize = 0;
        while i < self.data.len()
            invariant
                i <= self.data@.len(),
                data@ == self.data@.take(i as int),
            decreases self.data@.len() - i,
        {
            data.push(self.data[i]);
            i = i + 1;
            assert(data@ =~= self.data@.take(i as int));
        }
        assert(self.data@.take(self.data@.len() as int) =~= self.data@);
        InferenceRequest { id: self.id, data, batch_size: self.batch_size }
    }
}

/// A queue of requests handed out one at a time, in order.
pub struct RequestStream {
    requests: Vec<InferenceRequest>,
    position: usize,
}

impl RequestStream {
    /// The queued requests, handed out or not.
    pub closed spec fn requests(&self) -> Seq<RequestView> {
        self.requests@.map_values(|r: InferenceRequest| r@)
    }

    /// How many requests have been handed out.
    pub closed spec fn position(&self) -> nat {
        self.position as nat
    }

    pub fn new(requests: Vec<InferenceRequest>) -> (r: Self)
        ensures
            r.requests() == requests@.map_values(|q: InferenceRequest| q@),
            r.position() == 0,
    {
        RequestStream { requests, position: 0 }
    }

    /// The next request, or `None` once all have been handed out.
    pub fn next_request(&mut self) -> (r: Option<InferenceRequest>)
        ensures
            final(self).requests() == old(self).requests(),
            old(self).position() < old(self).requests().len() ==> {
                &&& r is Some
                &&& r.unwrap()@ == old(self).requests()[old(self).position() as int]
                &&& final(self).position() == old(self).position() + 1
            },
            old(self).position() >= old(self).requests().len() ==> {
                &&& r is None
                &&& final(self).position() == old(self).position()
            },
    {
        if self.position < self.requests.len() {
            let req = self.requests[self.position].copy();
            self.position = self.position + 1;
            Some(req)
        } else {
            None
        }
    }
}

/// Sender side of the request channel.
pub struct RequestSender;

/// Failure to send a request.
#[derive(Debug)]
pub struct SendError;

/// Slot `i` is the lowest free one.
pub open spec fn lowest_free(occupied: Seq<bool>, i: int) -> bool {
    &&& 0 <= i < occupied.len()
    &&& !occupied[i]
    &&& forall|j: int| 0 <= j < i ==> occupied[j]
}

/// Some slot is free.
pub open spec fn some_free(occupied: Seq<bool>) -> bool {
    exists|j: int| 0 <= j < occupied.len() && !occupied[j]
}

/// Leases workspace slots to incoming requests; when all slots are taken,
/// new requests have to wait.
pub struct WorkspaceManager {
    num_slots: usize,
    occupied: Vec<bool>,
}

/// A leased workspace slot.
pub struct WorkspaceSlot {
    pub index: usize,
    pub section: Section,
}

impl WorkspaceManager {
    /// Which slots are taken.
    pub closed spec fn occupied(&self) -> Seq<bool> {
        self.occupied@
    }

    /// The number of slots the manager was made with.
    pub closed spec fn num_slots(&self) -> nat {
        self.num_slots as nat
    }

    /// There is one flag per slot.
    pub closed spec fn wf(&self) -> bool {
        self.occupied@.len() == self.num_slots
    }

    pub fn new(num_slots: usize) -> (r: Self)
        ensures
            r.wf(),
            r.num_slots() == num_slots,
            r.occupied() == Seq::new(num_slots as nat, |i: int| false),
    {
        let mut occupied: Vec<bool> = Vec::with_capacity(num_slots);
        let mut i: usize = 0;
        while i < num_slots
            invariant
                i <= num_slots,
                occupied@ == Seq::new(i as nat, |j: int| false),
            decreases num_slots - i,
        {
            occupied.push(false);
            i = i + 1;
            assert(occupied@ =~= Seq::new(i as nat, |j: int| false));
        }
        WorkspaceManager { num_slots, occupied }
    }

    /// Takes the lowest free slot, or returns `None` when every slot is taken.
    pub fn try_acquire(&mut self) -> (r: Option<WorkspaceSlot>)
        ensures
            final(self).num_slots() == old(self).num_slots(),
            old(self).wf() ==> final(self).wf(),
            match r {
                Some(slot) => {
                    &&& lowest_free(old(self).occupied(), slot.index as int)
                    &&& slot.section == Section::IO
                    &&& final(self).occupied() == old(self).occupied().update(
                        slot.index as int,
                        true,
                    )
                },
                None => {
                    &&& !some_free(old(self).occupied())
                    &&& final(self).occupied() == old(self).occupied()
                },
            },
    {
        let mut idx: usize = 0;
        while idx < self.occupied.len()
            invariant
                self.occupied@ == old(self).occupied@,
                self.num_slots == old(self).num_slots,
                idx <= self.occupied@.len(),
                forall|j: int| 0 <= j < idx ==> self.occupied@[j],
            decreases self.occupied@.len() - idx,
        {
            if !self.occupied[idx] {
                self.occupied.set(idx, true);
                return Some(WorkspaceSlot { index: idx, section: Section::IO });
            }
            idx = idx + 1;
        }
        None
    }

    /// Gives a slot back; a slot index the manager does not have is ignored.
    pub fn release(&mut self, slot: WorkspaceSlot)
        ensures
            final(self).num_slots() == old(self).num_slots(),
            old(self).wf() ==> final(self).wf(),
            final(self).occupied() == if slot.index < old(self).occupied().len() {
                old(self).occupied().update(slot.index as int, false)
            } else {
                old(self).occupied()
            },
    {
        if slot.index < self.occupied.len() {
            self.occupied.set(slot.index, false);
        }
    }

    /// Whether some slot is free.
    pub fn has_capacity(&self) -> (r: bool)
        ensures
            r == some_free(self.occupied()),
    {
        let mut i: usize = 0;
        while i < self.occupied.len()
            invariant
                i <= self.occupied@.len(),
                forall|j: int| 0 <= j < i ==> self.occupied@[j],
            decreases self.occupied@.len() - i,
        {
            if !self.occupied[i] {
                return true;
            }
            i = i + 1;
        }
        false
    }
}

// ---------------------------------------------------------------------------
// Laws
// ---------------------------------------------------------------------------
/// Acquiring succeeds exactly when some slot is free.
pub proof fn law_acquire_iff_capacity(occupied: Seq<bool>)
    ensures
        some_free(occupied) <==> exists|i: int| lowest_free(occupied, i),
{
    if some_free(occupied) {
        let j = choose|j: int| 0 <= j < occupied.len() && !occupied[j];
        lemma_lowest_free_exists(occupied, j);
    }
}

proof fn lemma_lowest_free_exists(occupied: Seq<bool>, j: int)
    requires
        0 <= j < occupied.len(),
        !occupied[j],
    ensures
        exists|i: int| lowest_free(occupied, i),
    decreases j,
{
    if forall|k: int| 0 <= k < j ==> occupied[k] {
        assert(lowest_free(occupied, j));
    } else {
        let k = choose|k: int| 0 <= k < j && !occupied[k];
        lemma_lowest_free_exists(occupied, k);
    }
}

/// Releasing the slot just acquired gives the manager back its state.
pub proof fn law_acquire_then_release(occupied: Seq<bool>, i: int)
    requires
        lowest_free(occupied, i),
    ensures
        occupied.update(i, true).update(i, false) == occupied,
{
    assert(occupied.update(i, true).update(i, false) =~= occupied);
}

/// Slots held at the same time are distinct: a second acquire never hands out
/// the slot the first one took.
pub proof fn law_acquired_slots_distinct(occupied: Seq<bool>, i: int, j: int)
    requires
        lowest_free(occupied, i),
        lowest_free(occupied.update(i, true), j),
    ensures
        i != j,
{
}

} // verus!
