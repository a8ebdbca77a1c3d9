//! The GPU context: one object owning the resource registry, the
//! identity allocators, and the dispatch engine.
//!
//! Every buffer and pipeline created from the same context shares this
//! state.  Mutation requires exclusive access; reads require shared
//! access.  The device itself is driven by the caller: it executes the
//! submissions recorded here and reports how many are complete, and this
//! context hands back the callback tokens to fire.

use vstd::prelude::*;
use crate::handles::{BufferHandle, IdAllocator};
use crate::registry::{buf_contents, contains_buffer, Error, Registry};
use crate::dispatch::{tokens_between, Command, DispatchEngine};

verus! {

/// Copies a byte vector.
fn copy_bytes(src: &Vec<u8>) -> (r: Vec<u8>)
    ensures
        r@ == src@,
{
    let mut out: Vec<u8> = Vec::new();
    let mut k: usize = 0;
    while k < src.len()
        invariant
            k <= src@.len(),
            out@ == src@.subrange(0, k as int),
        decreases src@.len() - k,
    {
        out.push(src[k]);
        proof {
            assert(src@.subrange(0, k as int).push(src@[k as int]) =~= src@.subrange(
                0,
                (k + 1) as int,
            ));
        }
        k = k + 1;
    }
    proof {
        assert(src@.subrange(0, src@.len() as int) =~= src@);
    }
    out
}

/// The per-context state: registry, identity allocators, and dispatch
/// engine.
pub struct Gpu {
    pub registry: Registry,
    pub buffer_ids: IdAllocator,
    pub pipeline_ids: IdAllocator,
    pub callback_ids: IdAllocator,
    pub engine: DispatchEngine,
}

impl Gpu {
    /// The registry's cache-coherence invariant together with the
    /// engine's completion bound.
    pub open spec fn wf(self) -> bool {
        &&& self.registry.wf()
        &&& self.engine.wf()
    }

    /// A fresh context with no resources, no pipelines and nothing
    /// submitted.
    pub fn new() -> (r: Self)
        ensures
            r.wf(),
            r.registry.buffers@.len() == 0,
            r.registry.pipelines@.len() == 0,
            r.registry.next_version == 0,
            r.buffer_ids.next_id() == 0,
            r.pipeline_ids.next_id() == 0,
            r.callback_ids.next_id() == 0,
            r.engine.pending@.len() == 0,
            r.engine.submissions@.len() == 0,
            r.engine.completed == 0,
    {
        Gpu {
            registry: Registry::new(),
            buffer_ids: IdAllocator::new(),
            pipeline_ids: IdAllocator::new(),
            callback_ids: IdAllocator::new(),
            engine: DispatchEngine::new(),
        }
    }

    /// Blocking read-back: returns the contents currently behind the
    /// handle, reflecting every write submitted before this call.
    /// Fails only on an unregistered handle — a lifecycle bug in the
    /// caller.
    pub fn download(&self, h: BufferHandle) -> (r: Result<Vec<u8>, Error>)
        requires
            self.wf(),
        ensures
            match r {
                Ok(bytes) => contains_buffer(self.registry.buffers@, h) && bytes@ == buf_contents(
                    self.registry.buffers@,
                    h,
                ),
                Err(e) => e == Error::UnknownHandle && !contains_buffer(self.registry.buffers@, h),
            },
    {
        match self.registry.get_buffer(h) {
            None => Err(Error::UnknownHandle),
            Some(entry) => Ok(copy_bytes(&entry.contents)),
        }
    }

    /// Non-blocking read-back: submits a map-for-read request and
    /// returns the callback token that will fire, with the decoded
    /// result, once a completion report covers this submission.
    /// Read-backs complete in submission order relative to prior writes
    /// to the same buffer.
    pub fn download_async(&mut self, h: BufferHandle) -> (r: Result<u64, Error>)
        requires
            old(self).wf(),
            old(self).callback_ids.next_id() < u64::MAX,
        ensures
            final(self).wf(),
            final(self).registry == old(self).registry,
            final(self).buffer_ids == old(self).buffer_ids,
            final(self).pipeline_ids == old(self).pipeline_ids,
            r.is_ok() <==> contains_buffer(old(self).registry.buffers@, h),
            r.is_err() ==> *final(self) == *old(self) && r == Result::<u64, Error>::Err(
                Error::UnknownHandle,
            ),
            r.is_ok() ==> {
                &&& r == Result::<u64, Error>::Ok(old(self).callback_ids.next_id())
                &&& final(self).callback_ids.next_id() == old(self).callback_ids.next_id() + 1
                &&& final(self).engine.pending == old(self).engine.pending
                &&& final(self).engine.pending_callbacks == old(self).engine.pending_callbacks
                &&& final(self).engine.completed == old(self).engine.completed
                &&& final(self).engine.submissions@.len() == old(self).engine.submissions@.len()
                    + 1
                &&& forall|i: int|
                    0 <= i < old(self).engine.submissions@.len()
                        ==> #[trigger] final(self).engine.submissions@[i]
                        == old(self).engine.submissions@[i]
                &&& final(self).engine.submissions@.last().commands@ == seq![
                    Command::Readback { buffer: h },
                ]
                &&& final(self).engine.submissions@.last().callbacks@ == seq![
                    old(self).callback_ids.next_id(),
                ]
            },
    {
        if self.registry.get_buffer(h).is_none() {
            return Err(Error::UnknownHandle);
        }
        let token = self.callback_ids.allocate();
        self.engine.submit_now(Command::Readback { buffer: h }, Some(token));
        Ok(token)
    }

    /// Submits all queued dispatches as one batch, in queue order.
    pub fn flush_dispatch_queue(&mut self)
        requires
            old(self).wf(),
        ensures
            final(self).wf(),
            final(self).registry == old(self).registry,
            final(self).buffer_ids == old(self).buffer_ids,
            final(self).pipeline_ids == old(self).pipeline_ids,
            final(self).callback_ids == old(self).callback_ids,
            final(self).engine.completed == old(self).engine.completed,
            final(self).engine.pending@.len() == 0,
            final(self).engine.pending_callbacks@.len() == 0,
            (old(self).engine.pending@.len() == 0 && old(self).engine.pending_callbacks@.len()
                == 0) ==> final(self).engine.submissions == old(self).engine.submissions,
            (old(self).engine.pending@.len() > 0 || old(self).engine.pending_callbacks@.len() > 0)
                ==> {
                &&& final(self).engine.submissions@.len() == old(self).engine.submissions@.len()
                    + 1
                &&& forall|i: int|
                    0 <= i < old(self).engine.submissions@.len()
                        ==> #[trigger] final(self).engine.submissions@[i]
                        == old(self).engine.submissions@[i]
                &&& final(self).engine.submissions@.last().commands@ == old(self).engine.pending@
                &&& final(self).engine.submissions@.last().callbacks@ == old(
                    self,
                ).engine.pending_callbacks@
            },
    {
        self.engine.flush();
    }

    /// Takes the device's report that the first `n` submissions are
    /// complete and returns the callback tokens of the newly completed
    /// submissions, in submission order.  An explicit poll hands in the
    /// count the device reports now; a blocking wait hands in the total
    /// submission count.
    pub fn process_completions(&mut self, n: usize) -> (r: Vec<u64>)
        requires
            old(self).wf(),
            old(self).engine.completed <= n <= old(self).engine.submissions@.len(),
        ensures
            final(self).wf(),
            final(self).registry == old(self).registry,
            final(self).buffer_ids == old(self).buffer_ids,
            final(self).pipeline_ids == old(self).pipeline_ids,
            final(self).callback_ids == old(self).callback_ids,
            final(self).engine.pending == old(self).engine.pending,
            final(self).engine.pending_callbacks == old(self).engine.pending_callbacks,
            final(self).engine.submissions == old(self).engine.submissions,
            final(self).engine.completed == n,
            r@ == tokens_between(
                old(self).engine.submissions@,
                old(self).engine.completed as int,
                n as int,
            ),
    {
        self.engine.process_completions(n)
    }

    /// How many submissions have been handed to the device queue.
    pub fn submitted_count(&self) -> (r: usize)
        ensures
            r == self.engine.submissions@.len(),
    {
        self.engine.submissions.len()
    }

    /// How many submissions the device has reported complete.
    pub fn completed_count(&self) -> (r: usize)
        ensures
            r == self.engine.completed,
    {
        self.engine.completed
    }
}

} // verus!
