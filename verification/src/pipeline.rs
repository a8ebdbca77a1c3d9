//! Pipeline builders and pipelines.
//!
//! A builder accumulates a binding descriptor list by successive `bind`
//! calls: slot `i` is the `i`-th call, a strict positional contract that
//! must match the shader's compiled slot layout.  Finishing registers the
//! list with a clear dirty flag and an eagerly computed binding set.
//! Before every dispatch or draw the pipeline consults its dirty flag and
//! rebuilds the cached binding set when stale.

use vstd::prelude::*;
use crate::binding::{Bindable, BindableResource};
use crate::dispatch::{Command, Workgroups};
use crate::gpu::Gpu;
use crate::handles::PipelineHandle;
use crate::registry::{
    all_registered, can_refresh, contains_pipeline, pipe_at, set_fresh, slots_match, Error,
};

verus! {

/// An immutable compiled compute program plus its binding descriptor
/// list, registered in a context.
#[derive(Clone, Copy, PartialEq, Eq, Structural, Debug)]
pub struct ComputePipeline {
    pub handle: PipelineHandle,
}

/// An immutable compiled render program plus its binding descriptor
/// list, registered in a context.
#[derive(Clone, Copy, PartialEq, Eq, Structural, Debug)]
pub struct RenderPipeline {
    pub handle: PipelineHandle,
}

/// Accumulates the binding descriptor list of a compute pipeline.
pub struct ComputePipelineBuilder {
    pub entries: Vec<BindableResource>,
}

/// Accumulates the binding descriptor list of a render pipeline.
pub struct RenderPipelineBuilder {
    pub entries: Vec<BindableResource>,
}

/// Binding slots follow call order: binding one more resource keeps
/// every earlier slot and assigns the next slot to the new resource, so
/// after any sequence of binds, slot `i` holds the resource of the
/// `i`-th call.
pub proof fn lemma_bind_order(entries: Seq<BindableResource>, r: BindableResource)
    ensures
        entries.push(r).len() == entries.len() + 1,
        forall|i: int| 0 <= i < entries.len() ==> entries.push(r)[i] == entries[i],
        entries.push(r)[entries.len() as int] == r,
{
}

impl Gpu {
    /// Starts building a compute pipeline.  The compiled shader module
    /// lives with the device runner; here the builder starts with an
    /// empty binding descriptor list.
    pub fn compute_pipeline(&self) -> (r: ComputePipelineBuilder)
        ensures
            r.entries@.len() == 0,
    {
        ComputePipelineBuilder { entries: Vec::new() }
    }

    /// Starts building a render pipeline.
    pub fn render_pipeline(&self) -> (r: RenderPipelineBuilder)
        ensures
            r.entries@.len() == 0,
    {
        RenderPipelineBuilder { entries: Vec::new() }
    }
}

impl ComputePipelineBuilder {
    /// Adds the supplied resource as the next entry of the binding
    /// descriptor list: slots are assigned by call order, starting at
    /// zero.
    pub fn bind_buffer<B: Bindable>(self, entry: &B) -> (r: Self)
        ensures
            r.entries@ == self.entries@.push(entry.spec_resource_id()),
    {
        let mut this = self;
        this.entries.push(entry.resource_id());
        this
    }

    /// Turns the builder into a live pipeline: allocates a fresh
    /// pipeline handle, registers the binding descriptor list with the
    /// dirty flag clear, and computes the initial binding set eagerly
    /// from the current registry contents.
    pub fn finish(self, gpu: &mut Gpu) -> (r: Result<ComputePipeline, Error>)
        requires
            old(gpu).wf(),
            old(gpu).pipeline_ids.next_id() < u64::MAX,
        ensures
            final(gpu).wf(),
            final(gpu).registry.buffers == old(gpu).registry.buffers,
            final(gpu).registry.next_version == old(gpu).registry.next_version,
            final(gpu).buffer_ids == old(gpu).buffer_ids,
            final(gpu).callback_ids == old(gpu).callback_ids,
            final(gpu).engine == old(gpu).engine,
            r.is_ok() <==> (!contains_pipeline(
                old(gpu).registry.pipelines@,
                PipelineHandle { id: old(gpu).pipeline_ids.next_id() },
            ) && all_registered(old(gpu).registry.buffers@, self.entries@)),
            r.is_err() ==> *final(gpu) == *old(gpu),
            r.is_ok() ==> {
                let h = PipelineHandle { id: old(gpu).pipeline_ids.next_id() };
                &&& r == Result::<ComputePipeline, Error>::Ok(ComputePipeline { handle: h })
                &&& final(gpu).pipeline_ids.next_id() == old(gpu).pipeline_ids.next_id() + 1
                &&& final(gpu).registry.pipelines@.len() == old(gpu).registry.pipelines@.len() + 1
                &&& forall|i: int|
                    0 <= i < old(gpu).registry.pipelines@.len()
                        ==> #[trigger] final(gpu).registry.pipelines@[i]
                        == old(gpu).registry.pipelines@[i]
                &&& contains_pipeline(final(gpu).registry.pipelines@, h)
                &&& pipe_at(final(gpu).registry.pipelines@, h)
                    == old(gpu).registry.pipelines@.len()
                &&& final(gpu).registry.pipelines@.last().handle == h
                &&& final(gpu).registry.pipelines@.last().resources@ == self.entries@
                &&& final(gpu).registry.pipelines@.last().dirty == false
                &&& slots_match(
                    self.entries@,
                    final(gpu).registry.pipelines@.last().binding_set@,
                )
                &&& set_fresh(
                    final(gpu).registry.buffers@,
                    final(gpu).registry.pipelines@.last().binding_set@,
                )
            },
    {
        let id = gpu.pipeline_ids.peek();
        let h = PipelineHandle { id };
        match gpu.registry.register_pipeline(h, self.entries) {
            Err(e) => Err(e),
            Ok(_) => {
                let _ = gpu.pipeline_ids.allocate();
                Ok(ComputePipeline { handle: h })
            },
        }
    }
}

impl RenderPipelineBuilder {
    /// Adds the supplied resource as the next entry of the binding
    /// descriptor list: slots are assigned by call order, starting at
    /// zero.
    pub fn bind_buffer<B: Bindable>(self, entry: &B) -> (r: Self)
        ensures
            r.entries@ == self.entries@.push(entry.spec_resource_id()),
    {
        let mut this = self;
        this.entries.push(entry.resource_id());
        this
    }

    /// Turns the builder into a live pipeline, as
    /// [`ComputePipelineBuilder::finish`] does.
    pub fn finish(self, gpu: &mut Gpu) -> (r: Result<RenderPipeline, Error>)
        requires
            old(gpu).wf(),
            old(gpu).pipeline_ids.next_id() < u64::MAX,
        ensures
            final(gpu).wf(),
            final(gpu).registry.buffers == old(gpu).registry.buffers,
            final(gpu).registry.next_version == old(gpu).registry.next_version,
            final(gpu).buffer_ids == old(gpu).buffer_ids,
            final(gpu).callback_ids == old(gpu).callback_ids,
            final(gpu).engine == old(gpu).engine,
            r.is_ok() <==> (!contains_pipeline(
                old(gpu).registry.pipelines@,
                PipelineHandle { id: old(gpu).pipeline_ids.next_id() },
            ) && all_registered(old(gpu).registry.buffers@, self.entries@)),
            r.is_err() ==> *final(gpu) == *old(gpu),
            r.is_ok() ==> {
                let h = PipelineHandle { id: old(gpu).pipeline_ids.next_id() };
                &&& r == Result::<RenderPipeline, Error>::Ok(RenderPipeline { handle: h })
                &&& final(gpu).pipeline_ids.next_id() == old(gpu).pipeline_ids.next_id() + 1
                &&& final(gpu).registry.pipelines@.len() == old(gpu).registry.pipelines@.len() + 1
                &&& forall|i: int|
                    0 <= i < old(gpu).registry.pipelines@.len()
                        ==> #[trigger] final(gpu).registry.pipelines@[i]
                        == old(gpu).registry.pipelines@[i]
                &&& contains_pipeline(final(gpu).registry.pipelines@, h)
                &&& pipe_at(final(gpu).registry.pipelines@, h)
                    == old(gpu).registry.pipelines@.len()
                &&& final(gpu).registry.pipelines@.last().handle == h
                &&& final(gpu).registry.pipelines@.last().resources@ == self.entries@
                &&& final(gpu).registry.pipelines@.last().dirty == false
                &&& slots_match(
                    self.entries@,
                    final(gpu).registry.pipelines@.last().binding_set@,
                )
                &&& set_fresh(
                    final(gpu).registry.buffers@,
                    final(gpu).registry.pipelines@.last().binding_set@,
                )
            },
    {
        let id = gpu.pipeline_ids.peek();
        let h = PipelineHandle { id };
        match gpu.registry.register_pipeline(h, self.entries) {
            Err(e) => Err(e),
            Ok(_) => {
                let _ = gpu.pipeline_ids.allocate();
                Ok(RenderPipeline { handle: h })
            },
        }
    }
}

impl ComputePipeline {
    /// Dispatches the pipeline on the given workgroup counts, encoding
    /// this operation alone and submitting it at once.  The binding set
    /// is rebuilt first when the dirty flag is set; a clean pipeline
    /// reuses its cached set untouched.
    pub fn dispatch(&self, gpu: &mut Gpu, workgroups: Workgroups) -> (r: Result<(), Error>)
        requires
            old(gpu).wf(),
        ensures
            final(gpu).wf(),
            final(gpu).registry.buffers == old(gpu).registry.buffers,
            final(gpu).registry.next_version == old(gpu).registry.next_version,
            final(gpu).buffer_ids == old(gpu).buffer_ids,
            final(gpu).pipeline_ids == old(gpu).pipeline_ids,
            final(gpu).callback_ids == old(gpu).callback_ids,
            r.is_ok() <==> can_refresh(old(gpu).registry, self.handle),
            r.is_err() ==> *final(gpu) == *old(gpu),
            r.is_ok() ==> {
                let i = pipe_at(old(gpu).registry.pipelines@, self.handle);
                &&& final(gpu).registry.pipelines@.len() == old(gpu).registry.pipelines@.len()
                &&& forall|j: int|
                    0 <= j < old(gpu).registry.pipelines@.len() && j != i
                        ==> #[trigger] final(gpu).registry.pipelines@[j]
                        == old(gpu).registry.pipelines@[j]
                &&& final(gpu).registry.pipelines@[i].handle == self.handle
                &&& final(gpu).registry.pipelines@[i].resources
                    == old(gpu).registry.pipelines@[i].resources
                &&& final(gpu).registry.pipelines@[i].dirty == false
                &&& slots_match(
                    final(gpu).registry.pipelines@[i].resources@,
                    final(gpu).registry.pipelines@[i].binding_set@,
                )
                &&& set_fresh(
                    final(gpu).registry.buffers@,
                    final(gpu).registry.pipelines@[i].binding_set@,
                )
                &&& !old(gpu).registry.pipelines@[i].dirty
                    ==> final(gpu).registry.pipelines@[i] == old(gpu).registry.pipelines@[i]
                &&& final(gpu).engine.pending == old(gpu).engine.pending
                &&& final(gpu).engine.pending_callbacks == old(gpu).engine.pending_callbacks
                &&& final(gpu).engine.completed == old(gpu).engine.completed
                &&& final(gpu).engine.submissions@.len() == old(gpu).engine.submissions@.len() + 1
                &&& forall|j: int|
                    0 <= j < old(gpu).engine.submissions@.len()
                        ==> #[trigger] final(gpu).engine.submissions@[j]
                        == old(gpu).engine.submissions@[j]
                &&& final(gpu).engine.submissions@.last().commands@ == seq![
                    Command::Dispatch { pipeline: self.handle, workgroups },
                ]
                &&& final(gpu).engine.submissions@.last().callbacks@ == Seq::<u64>::empty()
            },
    {
        match gpu.registry.refresh_binding_set(self.handle) {
            Err(e) => Err(e),
            Ok(_) => {
                gpu.engine.submit_now(
                    Command::Dispatch { pipeline: self.handle, workgroups },
                    None,
                );
                Ok(())
            },
        }
    }

    /// As [`ComputePipeline::dispatch`], and registers a completion
    /// callback: returns the token that fires once a completion report
    /// covers this submission.
    pub fn dispatch_callback(&self, gpu: &mut Gpu, workgroups: Workgroups) -> (r: Result<
        u64,
        Error,
    >)
        requires
            old(gpu).wf(),
            old(gpu).callback_ids.next_id() < u64::MAX,
        ensures
            final(gpu).wf(),
            final(gpu).registry.buffers == old(gpu).registry.buffers,
            final(gpu).buffer_ids == old(gpu).buffer_ids,
            final(gpu).pipeline_ids == old(gpu).pipeline_ids,
            r.is_ok() <==> can_refresh(old(gpu).registry, self.handle),
            r.is_err() ==> *final(gpu) == *old(gpu),
            r.is_ok() ==> {
                let i = pipe_at(old(gpu).registry.pipelines@, self.handle);
                &&& r == Result::<u64, Error>::Ok(old(gpu).callback_ids.next_id())
                &&& final(gpu).callback_ids.next_id() == old(gpu).callback_ids.next_id() + 1
                &&& final(gpu).registry.pipelines@.len() == old(gpu).registry.pipelines@.len()
                &&& forall|j: int|
                    0 <= j < old(gpu).registry.pipelines@.len() && j != i
                        ==> #[trigger] final(gpu).registry.pipelines@[j]
                        == old(gpu).registry.pipelines@[j]
                &&& final(gpu).registry.pipelines@[i].dirty == false
                &&& set_fresh(
                    final(gpu).registry.buffers@,
                    final(gpu).registry.pipelines@[i].binding_set@,
                )
                &&& final(gpu).engine.pending == old(gpu).engine.pending
                &&& final(gpu).engine.submissions@.len() == old(gpu).engine.submissions@.len() + 1
                &&& final(gpu).engine.submissions@.last().commands@ == seq![
                    Command::Dispatch { pipeline: self.handle, workgroups },
                ]
                &&& final(gpu).engine.submissions@.last().callbacks@ == seq![
                    old(gpu).callback_ids.next_id(),
                ]
            },
    {
        match gpu.registry.refresh_binding_set(self.handle) {
            Err(e) => Err(e),
            Ok(_) => {
                let token = gpu.callback_ids.allocate();
                gpu.engine.submit_now(
                    Command::Dispatch { pipeline: self.handle, workgroups },
                    Some(token),
                );
                Ok(token)
            },
        }
    }

    /// Queues the dispatch on the shared pending stream, to run with the
    /// next flush.  The binding set is still consulted and rebuilt now,
    /// exactly as for an immediate dispatch.
    pub fn queue_dispatch(&self, gpu: &mut Gpu, workgroups: Workgroups) -> (r: Result<(), Error>)
        requires
            old(gpu).wf(),
        ensures
            final(gpu).wf(),
            final(gpu).registry.buffers == old(gpu).registry.buffers,
            final(gpu).buffer_ids == old(gpu).buffer_ids,
            final(gpu).pipeline_ids == old(gpu).pipeline_ids,
            final(gpu).callback_ids == old(gpu).callback_ids,
            r.is_ok() <==> can_refresh(old(gpu).registry, self.handle),
            r.is_err() ==> *final(gpu) == *old(gpu),
            r.is_ok() ==> {
                let i = pipe_at(old(gpu).registry.pipelines@, self.handle);
                &&& final(gpu).registry.pipelines@.len() == old(gpu).registry.pipelines@.len()
                &&& forall|j: int|
                    0 <= j < old(gpu).registry.pipelines@.len() && j != i
                        ==> #[trigger] final(gpu).registry.pipelines@[j]
                        == old(gpu).registry.pipelines@[j]
                &&& final(gpu).registry.pipelines@[i].dirty == false
                &&& set_fresh(
                    final(gpu).registry.buffers@,
                    final(gpu).registry.pipelines@[i].binding_set@,
                )
                &&& !old(gpu).registry.pipelines@[i].dirty
                    ==> final(gpu).registry.pipelines@[i] == old(gpu).registry.pipelines@[i]
                &&& final(gpu).engine.submissions == old(gpu).engine.submissions
                &&& final(gpu).engine.completed == old(gpu).engine.completed
                &&& final(gpu).engine.pending@ == old(gpu).engine.pending@.push(
                    Command::Dispatch { pipeline: self.handle, workgroups },
                )
                &&& final(gpu).engine.pending_callbacks@ == old(gpu).engine.pending_callbacks@
            },
    {
        match gpu.registry.refresh_binding_set(self.handle) {
            Err(e) => Err(e),
            Ok(_) => {
                gpu.engine.enqueue(Command::Dispatch { pipeline: self.handle, workgroups }, None);
                Ok(())
            },
        }
    }

    /// As [`ComputePipeline::queue_dispatch`], and registers a
    /// completion callback for the batch this dispatch is flushed with.
    pub fn queue_dispatch_callback(&self, gpu: &mut Gpu, workgroups: Workgroups) -> (r: Result<
        u64,
        Error,
    >)
        requires
            old(gpu).wf(),
            old(gpu).callback_ids.next_id() < u64::MAX,
        ensures
            final(gpu).wf(),
            final(gpu).registry.buffers == old(gpu).registry.buffers,
            final(gpu).buffer_ids == old(gpu).buffer_ids,
            final(gpu).pipeline_ids == old(gpu).pipeline_ids,
            r.is_ok() <==> can_refresh(old(gpu).registry, self.handle),
            r.is_err() ==> *final(gpu) == *old(gpu),
            r.is_ok() ==> {
                let i = pipe_at(old(gpu).registry.pipelines@, self.handle);
                &&& r == Result::<u64, Error>::Ok(old(gpu).callback_ids.next_id())
                &&& final(gpu).callback_ids.next_id() == old(gpu).callback_ids.next_id() + 1
                &&& final(gpu).registry.pipelines@[i].dirty == false
                &&& set_fresh(
                    final(gpu).registry.buffers@,
                    final(gpu).registry.pipelines@[i].binding_set@,
                )
                &&& final(gpu).engine.submissions == old(gpu).engine.submissions
                &&& final(gpu).engine.pending@ == old(gpu).engine.pending@.push(
                    Command::Dispatch { pipeline: self.handle, workgroups },
                )
                &&& final(gpu).engine.pending_callbacks@
                    == old(gpu).engine.pending_callbacks@.push(old(gpu).callback_ids.next_id())
            },
    {
        match gpu.registry.refresh_binding_set(self.handle) {
            Err(e) => Err(e),
            Ok(_) => {
                let token = gpu.callback_ids.allocate();
                gpu.engine.enqueue(
                    Command::Dispatch { pipeline: self.handle, workgroups },
                    Some(token),
                );
                Ok(token)
            },
        }
    }

    /// Removes the pipeline from the registry.  Buffers are untouched
    /// and stay usable by newly built pipelines.
    pub fn destroy(&self, gpu: &mut Gpu) -> (r: Result<(), Error>)
        requires
            old(gpu).wf(),
        ensures
            final(gpu).wf(),
            final(gpu).registry.buffers == old(gpu).registry.buffers,
            final(gpu).buffer_ids == old(gpu).buffer_ids,
            final(gpu).pipeline_ids == old(gpu).pipeline_ids,
            final(gpu).callback_ids == old(gpu).callback_ids,
            final(gpu).engine == old(gpu).engine,
            r.is_ok() <==> contains_pipeline(old(gpu).registry.pipelines@, self.handle),
            r.is_err() ==> *final(gpu) == *old(gpu),
            r.is_ok() ==> {
                &&& !contains_pipeline(final(gpu).registry.pipelines@, self.handle)
                &&& forall|h2: PipelineHandle|
                    h2 != self.handle ==> contains_pipeline(final(gpu).registry.pipelines@, h2)
                        == contains_pipeline(old(gpu).registry.pipelines@, h2)
            },
    {
        gpu.registry.remove_pipeline(self.handle)
    }
}

impl RenderPipeline {
    /// Performs the binding-cache consultation for an indexed draw: if
    /// the dirty flag is set, the cached binding set is rebuilt from the
    /// current registry contents before the draw executes.  Returns
    /// whether a rebuild happened; a clean pipeline's cached set is
    /// reused untouched.
    pub fn draw_indexed(&self, gpu: &mut Gpu) -> (r: Result<bool, Error>)
        requires
            old(gpu).wf(),
        ensures
            final(gpu).wf(),
            final(gpu).registry.buffers == old(gpu).registry.buffers,
            final(gpu).buffer_ids == old(gpu).buffer_ids,
            final(gpu).pipeline_ids == old(gpu).pipeline_ids,
            final(gpu).callback_ids == old(gpu).callback_ids,
            final(gpu).engine == old(gpu).engine,
            r.is_ok() <==> can_refresh(old(gpu).registry, self.handle),
            r.is_err() ==> *final(gpu) == *old(gpu),
            r.is_ok() ==> {
                let i = pipe_at(old(gpu).registry.pipelines@, self.handle);
                &&& r == Result::<bool, Error>::Ok(old(gpu).registry.pipelines@[i].dirty)
                &&& final(gpu).registry.pipelines@.len() == old(gpu).registry.pipelines@.len()
                &&& forall|j: int|
                    0 <= j < old(gpu).registry.pipelines@.len() && j != i
                        ==> #[trigger] final(gpu).registry.pipelines@[j]
                        == old(gpu).registry.pipelines@[j]
                &&& final(gpu).registry.pipelines@[i].dirty == false
                &&& set_fresh(
                    final(gpu).registry.buffers@,
                    final(gpu).registry.pipelines@[i].binding_set@,
                )
                &&& !old(gpu).registry.pipelines@[i].dirty
                    ==> final(gpu).registry.pipelines@[i] == old(gpu).registry.pipelines@[i]
            },
    {
        gpu.registry.refresh_binding_set(self.handle)
    }

    /// Performs the binding-cache consultation for drawing the built-in
    /// screen-filling quad, exactly as [`RenderPipeline::draw_indexed`]
    /// does; the quad's vertex and index geometry live with the device
    /// runner.
    pub fn draw_screen_quad(&self, gpu: &mut Gpu) -> (r: Result<bool, Error>)
        requires
            old(gpu).wf(),
        ensures
            final(gpu).wf(),
            final(gpu).registry.buffers == old(gpu).registry.buffers,
            final(gpu).buffer_ids == old(gpu).buffer_ids,
            final(gpu).pipeline_ids == old(gpu).pipeline_ids,
            final(gpu).callback_ids == old(gpu).callback_ids,
            final(gpu).engine == old(gpu).engine,
            r.is_ok() <==> can_refresh(old(gpu).registry, self.handle),
            r.is_err() ==> *final(gpu) == *old(gpu),
            r.is_ok() ==> {
                let i = pipe_at(old(gpu).registry.pipelines@, self.handle);
                &&& r == Result::<bool, Error>::Ok(old(gpu).registry.pipelines@[i].dirty)
                &&& final(gpu).registry.pipelines@.len() == old(gpu).registry.pipelines@.len()
                &&& forall|j: int|
                    0 <= j < old(gpu).registry.pipelines@.len() && j != i
                        ==> #[trigger] final(gpu).registry.pipelines@[j]
                        == old(gpu).registry.pipelines@[j]
                &&& final(gpu).registry.pipelines@[i].dirty == false
                &&& set_fresh(
                    final(gpu).registry.buffers@,
                    final(gpu).registry.pipelines@[i].binding_set@,
                )
                &&& !old(gpu).registry.pipelines@[i].dirty
                    ==> final(gpu).registry.pipelines@[i] == old(gpu).registry.pipelines@[i]
            },
    {
        gpu.registry.refresh_binding_set(self.handle)
    }

    /// Removes the pipeline from the registry.  Buffers are untouched
    /// and stay usable by newly built pipelines.
    pub fn destroy(&self, gpu: &mut Gpu) -> (r: Result<(), Error>)
        requires
            old(gpu).wf(),
        ensures
            final(gpu).wf(),
            final(gpu).registry.buffers == old(gpu).registry.buffers,
            final(gpu).buffer_ids == old(gpu).buffer_ids,
            final(gpu).pipeline_ids == old(gpu).pipeline_ids,
            final(gpu).callback_ids == old(gpu).callback_ids,
            final(gpu).engine == old(gpu).engine,
            r.is_ok() <==> contains_pipeline(old(gpu).registry.pipelines@, self.handle),
            r.is_err() ==> *final(gpu) == *old(gpu),
            r.is_ok() ==> {
                &&& !contains_pipeline(final(gpu).registry.pipelines@, self.handle)
                &&& forall|h2: PipelineHandle|
                    h2 != self.handle ==> contains_pipeline(final(gpu).registry.pipelines@, h2)
                        == contains_pipeline(old(gpu).registry.pipelines@, h2)
            },
    {
        gpu.registry.remove_pipeline(self.handle)
    }
}

} // verus!
