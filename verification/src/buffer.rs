//! Buffer wrappers: uniform and storage buffers registered in a context.
//!
//! A wrapper holds only its handle; the registry is the single source of
//! truth for the live resource, so the resource can be replaced (and the
//! dependent pipelines dirty-marked) without the wrapper changing.  An
//! in-place upload is a pure memory write; a resize replaces the
//! underlying allocation and invalidates every dependent pipeline's
//! cached binding set.

use vstd::prelude::*;
use crate::binding::{Bindable, BindableResource, BindingTypeDesc};
use crate::gpu::Gpu;
use crate::handles::BufferHandle;
use crate::registry::{buf_at, buf_contents, buf_version, contains_buffer, Error};

verus! {

/// A uniform buffer is for passing small amounts of read-only data.
#[derive(Clone, Copy, PartialEq, Eq, Structural, Debug)]
pub struct UniformBuffer {
    pub handle: BufferHandle,
}

/// A storage buffer is read/write from the shader and resizable.
#[derive(Clone, Copy, PartialEq, Eq, Structural, Debug)]
pub struct StorageBuffer {
    pub handle: BufferHandle,
    pub read_only: bool,
}

impl Bindable for UniformBuffer {
    open spec fn spec_resource_id(&self) -> BindableResource {
        BindableResource::Buffer(self.handle)
    }

    open spec fn spec_binding_type(&self) -> BindingTypeDesc {
        BindingTypeDesc::Uniform
    }

    fn resource_id(&self) -> BindableResource {
        BindableResource::Buffer(self.handle)
    }

    fn binding_type(&self) -> BindingTypeDesc {
        BindingTypeDesc::Uniform
    }
}

impl Bindable for StorageBuffer {
    open spec fn spec_resource_id(&self) -> BindableResource {
        BindableResource::Buffer(self.handle)
    }

    open spec fn spec_binding_type(&self) -> BindingTypeDesc {
        BindingTypeDesc::Storage { read_only: self.read_only }
    }

    fn resource_id(&self) -> BindableResource {
        BindableResource::Buffer(self.handle)
    }

    fn binding_type(&self) -> BindingTypeDesc {
        BindingTypeDesc::Storage { read_only: self.read_only }
    }
}

impl Gpu {
    /// Creates a uniform buffer with the given initial contents,
    /// registered under a fresh handle.
    pub fn create_uniform(&mut self, data: Vec<u8>, mutable: bool) -> (r: Result<
        UniformBuffer,
        Error,
    >)
        requires
            old(self).wf(),
            old(self).buffer_ids.next_id() < u64::MAX,
            old(self).registry.next_version < u64::MAX,
        ensures
            final(self).wf(),
            final(self).pipeline_ids == old(self).pipeline_ids,
            final(self).callback_ids == old(self).callback_ids,
            final(self).engine == old(self).engine,
            r.is_ok() <==> !contains_buffer(
                old(self).registry.buffers@,
                BufferHandle { id: old(self).buffer_ids.next_id() },
            ),
            r.is_err() ==> *final(self) == *old(self) && r == Result::<
                UniformBuffer,
                Error,
            >::Err(Error::DuplicateHandle),
            r.is_ok() ==> {
                let h = BufferHandle { id: old(self).buffer_ids.next_id() };
                &&& r == Result::<UniformBuffer, Error>::Ok(UniformBuffer { handle: h })
                &&& final(self).buffer_ids.next_id() == old(self).buffer_ids.next_id() + 1
                &&& final(self).registry.buffers@.len() == old(self).registry.buffers@.len() + 1
                &&& forall|i: int|
                    0 <= i < old(self).registry.buffers@.len()
                        ==> #[trigger] final(self).registry.buffers@[i]
                        == old(self).registry.buffers@[i]
                &&& contains_buffer(final(self).registry.buffers@, h)
                &&& buf_contents(final(self).registry.buffers@, h) == data@
                &&& final(self).registry.buffers@.last().handle == h
                &&& final(self).registry.buffers@.last().usage == BindingTypeDesc::Uniform
                &&& final(self).registry.buffers@.last().mutable == mutable
                &&& final(self).registry.pipelines@.len() == old(self).registry.pipelines@.len()
                &&& forall|i: int|
                    0 <= i < old(self).registry.pipelines@.len() ==> {
                        &&& (#[trigger] final(self).registry.pipelines@[i]).handle
                            == old(self).registry.pipelines@[i].handle
                        &&& final(self).registry.pipelines@[i].resources
                            == old(self).registry.pipelines@[i].resources
                        &&& final(self).registry.pipelines@[i].binding_set
                            == old(self).registry.pipelines@[i].binding_set
                        &&& final(self).registry.pipelines@[i].dirty == (old(
                            self,
                        ).registry.pipelines@[i].dirty
                            || old(self).registry.pipelines@[i].resources@.contains(
                            BindableResource::Buffer(h),
                        ))
                    }
            },
    {
        let id = self.buffer_ids.peek();
        let h = BufferHandle { id };
        match self.registry.register_buffer(h, BindingTypeDesc::Uniform, mutable, data) {
            Err(e) => Err(e),
            Ok(_) => {
                let _ = self.buffer_ids.allocate();
                Ok(UniformBuffer { handle: h })
            },
        }
    }

    /// Creates a storage buffer with the given initial contents,
    /// registered under a fresh handle.
    pub fn create_storage(&mut self, data: Vec<u8>, read_only: bool, mutable: bool) -> (r: Result<
        StorageBuffer,
        Error,
    >)
        requires
            old(self).wf(),
            old(self).buffer_ids.next_id() < u64::MAX,
            old(self).registry.next_version < u64::MAX,
        ensures
            final(self).wf(),
            final(self).pipeline_ids == old(self).pipeline_ids,
            final(self).callback_ids == old(self).callback_ids,
            final(self).engine == old(self).engine,
            r.is_ok() <==> !contains_buffer(
                old(self).registry.buffers@,
                BufferHandle { id: old(self).buffer_ids.next_id() },
            ),
            r.is_err() ==> *final(self) == *old(self) && r == Result::<
                StorageBuffer,
                Error,
            >::Err(Error::DuplicateHandle),
            r.is_ok() ==> {
                let h = BufferHandle { id: old(self).buffer_ids.next_id() };
                &&& r == Result::<StorageBuffer, Error>::Ok(
                    StorageBuffer { handle: h, read_only },
                )
                &&& final(self).buffer_ids.next_id() == old(self).buffer_ids.next_id() + 1
                &&& final(self).registry.buffers@.len() == old(self).registry.buffers@.len() + 1
                &&& forall|i: int|
                    0 <= i < old(self).registry.buffers@.len()
                        ==> #[trigger] final(self).registry.buffers@[i]
                        == old(self).registry.buffers@[i]
                &&& contains_buffer(final(self).registry.buffers@, h)
                &&& buf_contents(final(self).registry.buffers@, h) == data@
                &&& final(self).registry.buffers@.last().handle == h
                &&& final(self).registry.buffers@.last().usage == (BindingTypeDesc::Storage {
                    read_only,
                })
                &&& final(self).registry.buffers@.last().mutable == mutable
                &&& final(self).registry.pipelines@.len() == old(self).registry.pipelines@.len()
                &&& forall|i: int|
                    0 <= i < old(self).registry.pipelines@.len() ==> {
                        &&& (#[trigger] final(self).registry.pipelines@[i]).handle
                            == old(self).registry.pipelines@[i].handle
                        &&& final(self).registry.pipelines@[i].resources
                            == old(self).registry.pipelines@[i].resources
                        &&& final(self).registry.pipelines@[i].binding_set
                            == old(self).registry.pipelines@[i].binding_set
                        &&& final(self).registry.pipelines@[i].dirty == (old(
                            self,
                        ).registry.pipelines@[i].dirty
                            || old(self).registry.pipelines@[i].resources@.contains(
                            BindableResource::Buffer(h),
                        ))
                    }
            },
    {
        let id = self.buffer_ids.peek();
        let h = BufferHandle { id };
        match self.registry.register_buffer(
            h,
            BindingTypeDesc::Storage { read_only },
            mutable,
            data,
        ) {
            Err(e) => Err(e),
            Ok(_) => {
                let _ = self.buffer_ids.allocate();
                Ok(StorageBuffer { handle: h, read_only })
            },
        }
    }
}

impl UniformBuffer {
    /// Uploads data into the buffer in place: a same-size rewrite of the
    /// underlying memory region.  No pipeline's dirty flag is touched.
    pub fn upload(&self, gpu: &mut Gpu, data: Vec<u8>) -> (r: Result<(), Error>)
        requires
            old(gpu).wf(),
        ensures
            final(gpu).wf(),
            final(gpu).registry.pipelines == old(gpu).registry.pipelines,
            final(gpu).registry.next_version == old(gpu).registry.next_version,
            final(gpu).buffer_ids == old(gpu).buffer_ids,
            final(gpu).pipeline_ids == old(gpu).pipeline_ids,
            final(gpu).callback_ids == old(gpu).callback_ids,
            final(gpu).engine == old(gpu).engine,
            r.is_ok() <==> (contains_buffer(old(gpu).registry.buffers@, self.handle)
                && data@.len() == buf_contents(old(gpu).registry.buffers@, self.handle).len()),
            r.is_err() ==> final(gpu).registry.buffers == old(gpu).registry.buffers,
            r.is_ok() ==> {
                &&& buf_contents(final(gpu).registry.buffers@, self.handle) == data@
                &&& buf_version(final(gpu).registry.buffers@, self.handle) == buf_version(
                    old(gpu).registry.buffers@,
                    self.handle,
                )
                &&& forall|h2: BufferHandle|
                    contains_buffer(final(gpu).registry.buffers@, h2) == contains_buffer(
                        old(gpu).registry.buffers@,
                        h2,
                    )
                &&& forall|i: int|
                    0 <= i < old(gpu).registry.buffers@.len() && i != buf_at(
                        old(gpu).registry.buffers@,
                        self.handle,
                    ) ==> #[trigger] final(gpu).registry.buffers@[i]
                        == old(gpu).registry.buffers@[i]
            },
    {
        gpu.registry.upload_in_place(self.handle, data)
    }

    /// Removes the buffer from the registry, releasing the underlying
    /// resource.  Pipelines are untouched.
    pub fn destroy(&self, gpu: &mut Gpu) -> (r: Result<(), Error>)
        requires
            old(gpu).wf(),
        ensures
            final(gpu).wf(),
            final(gpu).registry.pipelines == old(gpu).registry.pipelines,
            final(gpu).buffer_ids == old(gpu).buffer_ids,
            final(gpu).pipeline_ids == old(gpu).pipeline_ids,
            final(gpu).callback_ids == old(gpu).callback_ids,
            final(gpu).engine == old(gpu).engine,
            r.is_ok() <==> contains_buffer(old(gpu).registry.buffers@, self.handle),
            r.is_err() ==> *final(gpu) == *old(gpu),
            r.is_ok() ==> {
                &&& !contains_buffer(final(gpu).registry.buffers@, self.handle)
                &&& forall|h2: BufferHandle|
                    h2 != self.handle ==> contains_buffer(final(gpu).registry.buffers@, h2)
                        == contains_buffer(old(gpu).registry.buffers@, h2)
            },
    {
        gpu.registry.remove_buffer(self.handle)
    }
}

impl StorageBuffer {
    /// Uploads data into the buffer in place: a same-size rewrite of the
    /// underlying memory region.  No pipeline's dirty flag is touched.
    pub fn upload(&self, gpu: &mut Gpu, data: Vec<u8>) -> (r: Result<(), Error>)
        requires
            old(gpu).wf(),
        ensures
            final(gpu).wf(),
            final(gpu).registry.pipelines == old(gpu).registry.pipelines,
            final(gpu).registry.next_version == old(gpu).registry.next_version,
            final(gpu).buffer_ids == old(gpu).buffer_ids,
            final(gpu).pipeline_ids == old(gpu).pipeline_ids,
            final(gpu).callback_ids == old(gpu).callback_ids,
            final(gpu).engine == old(gpu).engine,
            r.is_ok() <==> (contains_buffer(old(gpu).registry.buffers@, self.handle)
                && data@.len() == buf_contents(old(gpu).registry.buffers@, self.handle).len()),
            r.is_err() ==> final(gpu).registry.buffers == old(gpu).registry.buffers,
            r.is_ok() ==> {
                &&& buf_contents(final(gpu).registry.buffers@, self.handle) == data@
                &&& buf_version(final(gpu).registry.buffers@, self.handle) == buf_version(
                    old(gpu).registry.buffers@,
                    self.handle,
                )
                &&& forall|h2: BufferHandle|
                    contains_buffer(final(gpu).registry.buffers@, h2) == contains_buffer(
                        old(gpu).registry.buffers@,
                        h2,
                    )
                &&& forall|i: int|
                    0 <= i < old(gpu).registry.buffers@.len() && i != buf_at(
                        old(gpu).registry.buffers@,
                        self.handle,
                    ) ==> #[trigger] final(gpu).registry.buffers@[i]
                        == old(gpu).registry.buffers@[i]
            },
    {
        gpu.registry.upload_in_place(self.handle, data)
    }

    /// Resizes the buffer by replacing the underlying allocation with
    /// one holding the given contents.  The buffer receives a fresh
    /// version and every pipeline whose binding descriptor list contains
    /// this buffer is marked dirty before the call returns.
    pub fn resize(&self, gpu: &mut Gpu, data: Vec<u8>) -> (r: Result<(), Error>)
        requires
            old(gpu).wf(),
            old(gpu).registry.next_version < u64::MAX,
        ensures
            final(gpu).wf(),
            final(gpu).buffer_ids == old(gpu).buffer_ids,
            final(gpu).pipeline_ids == old(gpu).pipeline_ids,
            final(gpu).callback_ids == old(gpu).callback_ids,
            final(gpu).engine == old(gpu).engine,
            r.is_ok() <==> contains_buffer(old(gpu).registry.buffers@, self.handle),
            r.is_err() ==> *final(gpu) == *old(gpu) && r == Result::<(), Error>::Err(
                Error::UnknownHandle,
            ),
            r.is_ok() ==> {
                &&& buf_contents(final(gpu).registry.buffers@, self.handle) == data@
                &&& buf_version(final(gpu).registry.buffers@, self.handle) != buf_version(
                    old(gpu).registry.buffers@,
                    self.handle,
                )
                &&& forall|h2: BufferHandle|
                    contains_buffer(final(gpu).registry.buffers@, h2) == contains_buffer(
                        old(gpu).registry.buffers@,
                        h2,
                    )
                &&& final(gpu).registry.pipelines@.len() == old(gpu).registry.pipelines@.len()
                &&& forall|i: int|
                    0 <= i < old(gpu).registry.pipelines@.len() ==> {
                        &&& (#[trigger] final(gpu).registry.pipelines@[i]).handle
                            == old(gpu).registry.pipelines@[i].handle
                        &&& final(gpu).registry.pipelines@[i].resources
                            == old(gpu).registry.pipelines@[i].resources
                        &&& final(gpu).registry.pipelines@[i].binding_set
                            == old(gpu).registry.pipelines@[i].binding_set
                        &&& final(gpu).registry.pipelines@[i].dirty == (old(
                            gpu,
                        ).registry.pipelines@[i].dirty
                            || old(gpu).registry.pipelines@[i].resources@.contains(
                            BindableResource::Buffer(self.handle),
                        ))
                    }
            },
    {
        gpu.registry.replace_buffer(self.handle, data)
    }

    /// Blocking read-back of this buffer's contents.
    pub fn download(&self, gpu: &Gpu) -> (r: Result<Vec<u8>, Error>)
        requires
            gpu.wf(),
        ensures
            match r {
                Ok(bytes) => contains_buffer(gpu.registry.buffers@, self.handle) && bytes@
                    == buf_contents(gpu.registry.buffers@, self.handle),
                Err(e) => e == Error::UnknownHandle && !contains_buffer(
                    gpu.registry.buffers@,
                    self.handle,
                ),
            },
    {
        gpu.download(self.handle)
    }

    /// Non-blocking read-back: returns the callback token that fires
    /// once a completion report covers this request.
    pub fn download_async(&self, gpu: &mut Gpu) -> (r: Result<u64, Error>)
        requires
            old(gpu).wf(),
            old(gpu).callback_ids.next_id() < u64::MAX,
        ensures
            final(gpu).wf(),
            final(gpu).registry == old(gpu).registry,
            r.is_ok() <==> contains_buffer(old(gpu).registry.buffers@, self.handle),
            r.is_err() ==> *final(gpu) == *old(gpu),
            r.is_ok() ==> r == Result::<u64, Error>::Ok(old(gpu).callback_ids.next_id()),
    {
        gpu.download_async(self.handle)
    }

    /// Removes the buffer from the registry, releasing the underlying
    /// resource.  Pipelines are untouched.
    pub fn destroy(&self, gpu: &mut Gpu) -> (r: Result<(), Error>)
        requires
            old(gpu).wf(),
        ensures
            final(gpu).wf(),
            final(gpu).registry.pipelines == old(gpu).registry.pipelines,
            final(gpu).buffer_ids == old(gpu).buffer_ids,
            final(gpu).pipeline_ids == old(gpu).pipeline_ids,
            final(gpu).callback_ids == old(gpu).callback_ids,
            final(gpu).engine == old(gpu).engine,
            r.is_ok() <==> contains_buffer(old(gpu).registry.buffers@, self.handle),
            r.is_err() ==> *final(gpu) == *old(gpu),
            r.is_ok() ==> {
                &&& !contains_buffer(final(gpu).registry.buffers@, self.handle)
                &&& forall|h2: BufferHandle|
                    h2 != self.handle ==> contains_buffer(final(gpu).registry.buffers@, h2)
                        == contains_buffer(old(gpu).registry.buffers@, h2)
            },
    {
        gpu.registry.remove_buffer(self.handle)
    }
}

} // verus!
