//! The resource registry: the single source of truth for live resources.
//!
//! The registry maps buffer handles to live buffer records and pipeline
//! handles to (binding descriptor list, dirty flag, cached binding set)
//! records.  Its central invariant is cache coherence: whenever a
//! pipeline's dirty flag is clear, its cached binding set names the
//! current version of every registered buffer it binds.  Replacing the
//! resource behind a handle bumps that buffer's version and marks every
//! pipeline whose descriptor list contains the handle dirty; a same-size
//! in-place rewrite changes neither versions nor dirty flags.

use vstd::prelude::*;
use crate::handles::{BufferHandle, PipelineHandle};
use crate::binding::{BindableResource, BindingTypeDesc};

verus! {

/// Why a registry or dispatch operation was refused.
#[derive(Clone, Copy, PartialEq, Eq, Structural, Debug)]
pub enum Error {
    /// A resource was already registered under this handle.
    DuplicateHandle,
    /// No resource is registered under this handle.
    UnknownHandle,
    /// A binding descriptor list names a buffer that is no longer registered.
    DanglingResource,
    /// An in-place upload supplied data of a different size than the buffer.
    SizeMismatch,
}

/// A live buffer record: usage class, advisory mutability marker, the
/// version of the underlying allocation, and the device-side contents as
/// last written by the host.
pub struct BufferEntry {
    pub handle: BufferHandle,
    pub usage: BindingTypeDesc,
    pub mutable: bool,
    pub version: u64,
    pub contents: Vec<u8>,
}

/// One slot of a realized binding set: the bound resource and the version
/// of the underlying allocation it was resolved against.
#[derive(Clone, Copy, PartialEq, Eq, Structural, Debug)]
pub struct BindingRef {
    pub resource: BindableResource,
    pub version: u64,
}

/// A live pipeline record: its binding descriptor list (fixed at build
/// time), the dirty flag, and the cached binding set.
pub struct PipelineEntry {
    pub handle: PipelineHandle,
    pub resources: Vec<BindableResource>,
    pub dirty: bool,
    pub binding_set: Vec<BindingRef>,
}

/// No two buffer records share a handle.
pub open spec fn unique_buffers(bufs: Seq<BufferEntry>) -> bool {
    forall|i: int, j: int|
        0 <= i < j < bufs.len() ==> (#[trigger] bufs[i]).handle != (#[trigger] bufs[j]).handle
}

/// Some buffer record carries this handle.
pub open spec fn contains_buffer(bufs: Seq<BufferEntry>, h: BufferHandle) -> bool {
    exists|i: int| 0 <= i < bufs.len() && (#[trigger] bufs[i]).handle == h
}

/// The index of the buffer record carrying this handle.
pub open spec fn buf_at(bufs: Seq<BufferEntry>, h: BufferHandle) -> int {
    choose|i: int| 0 <= i < bufs.len() && (#[trigger] bufs[i]).handle == h
}

/// The version of the allocation currently behind this handle.
pub open spec fn buf_version(bufs: Seq<BufferEntry>, h: BufferHandle) -> u64 {
    bufs[buf_at(bufs, h)].version
}

/// The contents currently behind this handle.
pub open spec fn buf_contents(bufs: Seq<BufferEntry>, h: BufferHandle) -> Seq<u8> {
    bufs[buf_at(bufs, h)].contents@
}

/// No two pipeline records share a handle.
pub open spec fn unique_pipelines(ps: Seq<PipelineEntry>) -> bool {
    forall|i: int, j: int|
        0 <= i < j < ps.len() ==> (#[trigger] ps[i]).handle != (#[trigger] ps[j]).handle
}

/// Some pipeline record carries this handle.
pub open spec fn contains_pipeline(ps: Seq<PipelineEntry>, h: PipelineHandle) -> bool {
    exists|i: int| 0 <= i < ps.len() && (#[trigger] ps[i]).handle == h
}

/// The index of the pipeline record carrying this handle.
pub open spec fn pipe_at(ps: Seq<PipelineEntry>, h: PipelineHandle) -> int {
    choose|i: int| 0 <= i < ps.len() && (#[trigger] ps[i]).handle == h
}

/// The resource named by a binding descriptor is currently registered.
pub open spec fn res_registered(bufs: Seq<BufferEntry>, r: BindableResource) -> bool {
    match r {
        BindableResource::Buffer(h) => contains_buffer(bufs, h),
    }
}

/// Every resource in a binding descriptor list is currently registered.
pub open spec fn all_registered(bufs: Seq<BufferEntry>, resources: Seq<BindableResource>) -> bool {
    forall|k: int| 0 <= k < resources.len() ==> res_registered(bufs, #[trigger] resources[k])
}

/// A binding-set slot reflects the current allocation behind its handle,
/// as far as that handle is still registered.
pub open spec fn slot_current(bufs: Seq<BufferEntry>, b: BindingRef) -> bool {
    match b.resource {
        BindableResource::Buffer(h) => contains_buffer(bufs, h) ==> b.version == buf_version(
            bufs,
            h,
        ),
    }
}

/// The binding set assigns slot `i` to the `i`-th descriptor-list entry.
pub open spec fn slots_match(resources: Seq<BindableResource>, set: Seq<BindingRef>) -> bool {
    &&& set.len() == resources.len()
    &&& forall|k: int| 0 <= k < set.len() ==> (#[trigger] set[k]).resource == resources[k]
}

/// Every slot of the binding set reflects the current registry contents.
pub open spec fn set_fresh(bufs: Seq<BufferEntry>, set: Seq<BindingRef>) -> bool {
    forall|k: int| 0 <= k < set.len() ==> slot_current(bufs, #[trigger] set[k])
}

/// Well-formedness of one pipeline record against the buffer records:
/// slots follow the descriptor list, and a clear dirty flag means the
/// cached set reflects the current buffer versions.
pub open spec fn pipe_wf(bufs: Seq<BufferEntry>, p: PipelineEntry) -> bool {
    &&& slots_match(p.resources@, p.binding_set@)
    &&& !p.dirty ==> set_fresh(bufs, p.binding_set@)
}

/// A dispatch or draw on this pipeline can proceed: the pipeline is
/// registered and, if its cached binding set is stale, every buffer its
/// descriptor list names is still registered (a descriptor naming a
/// destroyed buffer is a lifecycle bug in the caller).
pub open spec fn can_refresh(reg: Registry, h: PipelineHandle) -> bool {
    &&& contains_pipeline(reg.pipelines@, h)
    &&& (reg.pipelines@[pipe_at(reg.pipelines@, h)].dirty ==> all_registered(
        reg.buffers@,
        reg.pipelines@[pipe_at(reg.pipelines@, h)].resources@,
    ))
}

/// Concurrency-safe mapping from handle to live resource record, for
/// buffers and pipelines separately.  Exclusive (`&mut`) access is
/// required for every mutation; shared access suffices for reads.
pub struct Registry {
    pub buffers: Vec<BufferEntry>,
    pub pipelines: Vec<PipelineEntry>,
    pub next_version: u64,
}

impl Registry {
    /// Handles are unique, versions are below the version counter, and
    /// every clean pipeline's cached binding set is current.
    pub open spec fn wf(self) -> bool {
        &&& unique_buffers(self.buffers@)
        &&& unique_pipelines(self.pipelines@)
        &&& forall|i: int|
            0 <= i < self.pipelines@.len() ==> pipe_wf(self.buffers@, #[trigger] self.pipelines@[i])
        &&& forall|i: int|
            0 <= i < self.buffers@.len() ==> (#[trigger] self.buffers@[i]).version
                < self.next_version
    }

    pub fn new() -> (r: Self)
        ensures
            r.wf(),
            r.buffers@.len() == 0,
            r.pipelines@.len() == 0,
            r.next_version == 0,
    {
        Registry { buffers: Vec::new(), pipelines: Vec::new(), next_version: 0 }
    }
}

/// Whether a binding descriptor list mentions a resource.
fn list_contains(v: &Vec<BindableResource>, x: BindableResource) -> (b: bool)
    ensures
        b == v@.contains(x),
{
    let mut j: usize = 0;
    while j < v.len()
        invariant
            j <= v@.len(),
            forall|k: int| 0 <= k < j ==> v@[k] != x,
        decreases v@.len() - j,
    {
        if v[j] == x {
            return true;
        }
        j = j + 1;
    }
    assert(!v@.contains(x));
    false
}

impl Registry {
    /// The position of the record registered under this buffer handle.
    fn find_buffer_index(&self, h: BufferHandle) -> (r: Option<usize>)
        requires
            unique_buffers(self.buffers@),
        ensures
            match r {
                Some(i) => i < self.buffers@.len() && self.buffers@[i as int].handle == h
                    && contains_buffer(self.buffers@, h) && buf_at(self.buffers@, h) == i,
                None => !contains_buffer(self.buffers@, h),
            },
    {
        find_buffer(&self.buffers, h)
    }

    fn find_pipeline_index(&self, h: PipelineHandle) -> (r: Option<usize>)
        requires
            unique_pipelines(self.pipelines@),
        ensures
            match r {
                Some(i) => i < self.pipelines@.len() && self.pipelines@[i as int].handle == h
                    && contains_pipeline(self.pipelines@, h) && pipe_at(self.pipelines@, h) == i,
                None => !contains_pipeline(self.pipelines@, h),
            },
    {
        let mut j: usize = 0;
        while j < self.pipelines.len()
            invariant
                unique_pipelines(self.pipelines@),
                j <= self.pipelines@.len(),
                forall|k: int| 0 <= k < j ==> (#[trigger] self.pipelines@[k]).handle != h,
            decreases self.pipelines@.len() - j,
        {
            if self.pipelines[j].handle == h {
                proof {
                    lemma_pipe_at(self.pipelines@, h, j as int);
                }
                return Some(j);
            }
            j = j + 1;
        }
        None
    }

    /// Looks a buffer up under shared access.  Absence indicates a
    /// lifecycle bug in the caller.
    pub fn get_buffer(&self, h: BufferHandle) -> (r: Option<&BufferEntry>)
        requires
            self.wf(),
        ensures
            match r {
                Some(e) => contains_buffer(self.buffers@, h) && *e == self.buffers@[buf_at(
                    self.buffers@,
                    h,
                )],
                None => !contains_buffer(self.buffers@, h),
            },
    {
        match self.find_buffer_index(h) {
            Some(i) => Some(&self.buffers[i]),
            None => None,
        }
    }

    /// Looks a pipeline up under shared access.  Absence indicates a
    /// lifecycle bug in the caller.
    pub fn get_pipeline(&self, h: PipelineHandle) -> (r: Option<&PipelineEntry>)
        requires
            self.wf(),
        ensures
            match r {
                Some(e) => contains_pipeline(self.pipelines@, h) && *e == self.pipelines@[pipe_at(
                    self.pipelines@,
                    h,
                )],
                None => !contains_pipeline(self.pipelines@, h),
            },
    {
        match self.find_pipeline_index(h) {
            Some(i) => Some(&self.pipelines[i]),
            None => None,
        }
    }

    /// Marks every pipeline whose binding descriptor list contains the
    /// resource dirty — all matching pipelines, not only the first.
    /// Nothing else changes.
    pub fn mark_dirty_for(&mut self, r: BindableResource)
        requires
            old(self).wf(),
        ensures
            final(self).wf(),
            final(self).buffers == old(self).buffers,
            final(self).next_version == old(self).next_version,
            final(self).pipelines@.len() == old(self).pipelines@.len(),
            forall|i: int|
                0 <= i < old(self).pipelines@.len() ==> {
                    &&& (#[trigger] final(self).pipelines@[i]).handle
                        == old(self).pipelines@[i].handle
                    &&& final(self).pipelines@[i].resources == old(self).pipelines@[i].resources
                    &&& final(self).pipelines@[i].binding_set
                        == old(self).pipelines@[i].binding_set
                    &&& final(self).pipelines@[i].dirty == (old(self).pipelines@[i].dirty
                        || old(self).pipelines@[i].resources@.contains(r))
                },
    {
        let mut j: usize = 0;
        while j < self.pipelines.len()
            invariant
                self.buffers == old(self).buffers,
                self.next_version == old(self).next_version,
                self.pipelines@.len() == old(self).pipelines@.len(),
                j <= self.pipelines@.len(),
                forall|i: int|
                    j <= i < old(self).pipelines@.len()
                        ==> #[trigger] self.pipelines@[i] == old(self).pipelines@[i],
                forall|i: int|
                    0 <= i < j ==> {
                        &&& (#[trigger] self.pipelines@[i]).handle
                            == old(self).pipelines@[i].handle
                        &&& self.pipelines@[i].resources == old(self).pipelines@[i].resources
                        &&& self.pipelines@[i].binding_set == old(self).pipelines@[i].binding_set
                        &&& self.pipelines@[i].dirty == (old(self).pipelines@[i].dirty
                            || old(self).pipelines@[i].resources@.contains(r))
                    },
            decreases self.pipelines@.len() - j,
        {
            if list_contains(&self.pipelines[j].resources, r) {
                self.pipelines[j].dirty = true;
            }
            j = j + 1;
        }
        proof {
            assert forall|i: int|
                0 <= i < final(self).pipelines@.len() implies pipe_wf(
                final(self).buffers@,
                #[trigger] final(self).pipelines@[i],
            ) by {
                assert(pipe_wf(old(self).buffers@, old(self).pipelines@[i]));
            }
            assert(unique_pipelines(final(self).pipelines@)) by {
                assert forall|i: int, j2: int|
                    0 <= i < j2 < final(self).pipelines@.len()
                        implies (#[trigger] final(self).pipelines@[i]).handle
                        != (#[trigger] final(self).pipelines@[j2]).handle by {
                    assert(old(self).pipelines@[i].handle != old(self).pipelines@[j2].handle);
                }
            }
        }
    }
}

impl Registry {
    /// Registers a buffer under a handle.  Fails on a duplicate handle —
    /// the existing record is never silently overwritten.  In the corner
    /// case that some pipeline's descriptor list already names the handle
    /// (a revived handle), those pipelines are marked dirty, since the
    /// resource behind the handle has been replaced.
    pub fn register_buffer(
        &mut self,
        h: BufferHandle,
        usage: BindingTypeDesc,
        mutable: bool,
        contents: Vec<u8>,
    ) -> (r: Result<(), Error>)
        requires
            old(self).wf(),
            old(self).next_version < u64::MAX,
        ensures
            final(self).wf(),
            r.is_ok() <==> !contains_buffer(old(self).buffers@, h),
            r.is_err() ==> *final(self) == *old(self) && r == Result::<(), Error>::Err(
                Error::DuplicateHandle,
            ),
            r.is_ok() ==> {
                &&& final(self).buffers@.len() == old(self).buffers@.len() + 1
                &&& final(self).buffers@ == old(self).buffers@.push(final(self).buffers@.last())
                &&& final(self).buffers@.last().handle == h
                &&& final(self).buffers@.last().usage == usage
                &&& final(self).buffers@.last().mutable == mutable
                &&& final(self).buffers@.last().contents@ == contents@
                &&& final(self).buffers@.last().version == old(self).next_version
                &&& contains_buffer(final(self).buffers@, h)
                &&& buf_at(final(self).buffers@, h) == old(self).buffers@.len()
                &&& buf_contents(final(self).buffers@, h) == contents@
                &&& buf_version(final(self).buffers@, h) == old(self).next_version
                &&& final(self).next_version == old(self).next_version + 1
                &&& final(self).pipelines@.len() == old(self).pipelines@.len()
                &&& forall|i: int|
                    0 <= i < old(self).pipelines@.len() ==> {
                        &&& (#[trigger] final(self).pipelines@[i]).handle
                            == old(self).pipelines@[i].handle
                        &&& final(self).pipelines@[i].resources
                            == old(self).pipelines@[i].resources
                        &&& final(self).pipelines@[i].binding_set
                            == old(self).pipelines@[i].binding_set
                        &&& final(self).pipelines@[i].dirty == (old(self).pipelines@[i].dirty
                            || old(self).pipelines@[i].resources@.contains(
                            BindableResource::Buffer(h),
                        ))
                    }
            },
    {
        if self.find_buffer_index(h).is_some() {
            return Err(Error::DuplicateHandle);
        }
        self.mark_dirty_for(BindableResource::Buffer(h));
        let version = self.next_version;
        self.next_version = self.next_version + 1;
        let ghost bufs0 = self.buffers@;
        self.buffers.push(BufferEntry { handle: h, usage, mutable, version, contents });
        proof {
            let bufs1 = self.buffers@;
            assert(unique_buffers(bufs1)) by {
                assert forall|i: int, j: int|
                    0 <= i < j < bufs1.len() implies (#[trigger] bufs1[i]).handle
                    != (#[trigger] bufs1[j]).handle by {
                    if j == bufs1.len() - 1 {
                        assert(bufs1[i] == bufs0[i]);
                    } else {
                        assert(bufs0[i].handle != bufs0[j].handle);
                    }
                }
            }
            lemma_buf_at(bufs1, h, bufs1.len() - 1);
            assert forall|h2: BufferHandle|
                h2 != h && contains_buffer(bufs1, h2) implies contains_buffer(bufs0, h2)
                && buf_at(bufs1, h2) == buf_at(bufs0, h2) by {
                let i = buf_at(bufs1, h2);
                assert(0 <= i < bufs1.len() && bufs1[i].handle == h2);
                assert(i < bufs1.len() - 1);
                assert(bufs0[i].handle == h2);
                lemma_buf_at(bufs0, h2, i);
                lemma_buf_at(bufs1, h2, i);
            }
            assert forall|h2: BufferHandle|
                h2 != h && contains_buffer(bufs0, h2) implies contains_buffer(bufs1, h2) by {
                let i = buf_at(bufs0, h2);
                assert(0 <= i < bufs0.len() && bufs0[i].handle == h2);
                assert(bufs1[i].handle == h2);
                lemma_buf_at(bufs1, h2, i);
            }
            assert forall|j: int|
                0 <= j < self.pipelines@.len() implies pipe_wf(
                bufs1,
                #[trigger] self.pipelines@[j],
            ) by {
                let p = self.pipelines@[j];
                assert(pipe_wf(bufs0, p));
                if !p.dirty {
                    assert(!p.resources@.contains(BindableResource::Buffer(h)));
                    assert forall|k: int|
                        0 <= k < p.binding_set@.len() implies slot_current(
                        bufs1,
                        #[trigger] p.binding_set@[k],
                    ) by {
                        let b = p.binding_set@[k];
                        assert(b.resource == p.resources@[k]);
                        match b.resource {
                            BindableResource::Buffer(h2) => {
                                assert(p.resources@[k] == BindableResource::Buffer(h2));
                                assert(p.resources@.contains(BindableResource::Buffer(h2)));
                                assert(h2 != h);
                                if contains_buffer(bufs1, h2) {
                                    assert(contains_buffer(bufs0, h2));
                                    assert(slot_current(bufs0, b));
                                    assert(buf_at(bufs1, h2) == buf_at(bufs0, h2));
                                    assert(bufs1[buf_at(bufs0, h2)] == bufs0[buf_at(bufs0, h2)]);
                                }
                            },
                        }
                    }
                }
            }
            assert forall|i: int|
                0 <= i < bufs1.len() implies (#[trigger] bufs1[i]).version
                < self.next_version by {}
            assert(self.buffers@ =~= bufs0.push(self.buffers@.last()));
        }
        Ok(())
    }

    /// Removes the buffer registered under a handle and drops its record;
    /// removing an absent handle is refused.  Pipelines are untouched.
    pub fn remove_buffer(&mut self, h: BufferHandle) -> (r: Result<(), Error>)
        requires
            old(self).wf(),
        ensures
            final(self).wf(),
            r.is_ok() <==> contains_buffer(old(self).buffers@, h),
            r.is_err() ==> *final(self) == *old(self) && r == Result::<(), Error>::Err(
                Error::UnknownHandle,
            ),
            r.is_ok() ==> {
                &&& final(self).buffers@ == old(self).buffers@.remove(
                    buf_at(old(self).buffers@, h),
                )
                &&& !contains_buffer(final(self).buffers@, h)
                &&& forall|h2: BufferHandle|
                    h2 != h ==> contains_buffer(final(self).buffers@, h2) == contains_buffer(
                        old(self).buffers@,
                        h2,
                    )
                &&& forall|h2: BufferHandle|
                    h2 != h && contains_buffer(old(self).buffers@, h2) ==> final(self).buffers@[buf_at(final(self).buffers@, h2)] == old(self).buffers@[buf_at(
                        old(self).buffers@,
                        h2,
                    )]
                &&& final(self).pipelines == old(self).pipelines
                &&& final(self).next_version == old(self).next_version
            },
    {
        match self.find_buffer_index(h) {
            None => Err(Error::UnknownHandle),
            Some(i) => {
                let ghost bufs0 = self.buffers@;
                let ghost idx = i as int;
                self.buffers.remove(i);
                proof {
                    lemma_remove_buffer(bufs0, idx);
                    assert forall|j: int|
                        0 <= j < final(self).pipelines@.len() implies pipe_wf(
                        final(self).buffers@,
                        #[trigger] final(self).pipelines@[j],
                    ) by {
                        let p = final(self).pipelines@[j];
                        assert(pipe_wf(bufs0, p));
                        if !p.dirty {
                            assert forall|k: int|
                                0 <= k < p.binding_set@.len() implies slot_current(
                                final(self).buffers@,
                                #[trigger] p.binding_set@[k],
                            ) by {
                                let b = p.binding_set@[k];
                                match b.resource {
                                    BindableResource::Buffer(h2) => {
                                        if h2 != h && contains_buffer(final(self).buffers@, h2) {
                                            assert(slot_current(bufs0, b));
                                            assert(final(self).buffers@[buf_at(
                                                final(self).buffers@,
                                                h2,
                                            )] == bufs0[buf_at(bufs0, h2)]);
                                        }
                                    },
                                }
                            }
                        }
                    }
                    assert forall|j: int|
                        0 <= j < final(self).buffers@.len() implies (#[trigger] final(self).buffers@[j]).version < final(self).next_version by {
                        let j0 = if j < idx { j } else { j + 1 };
                        assert(final(self).buffers@[j] == bufs0[j0]);
                    }
                }
                Ok(())
            },
        }
    }

    /// Removes the pipeline registered under a handle and drops its
    /// record; removing an absent handle is refused.  Buffers are
    /// untouched.
    pub fn remove_pipeline(&mut self, h: PipelineHandle) -> (r: Result<(), Error>)
        requires
            old(self).wf(),
        ensures
            final(self).wf(),
            r.is_ok() <==> contains_pipeline(old(self).pipelines@, h),
            r.is_err() ==> *final(self) == *old(self) && r == Result::<(), Error>::Err(
                Error::UnknownHandle,
            ),
            r.is_ok() ==> {
                &&& final(self).pipelines@ == old(self).pipelines@.remove(
                    pipe_at(old(self).pipelines@, h),
                )
                &&& !contains_pipeline(final(self).pipelines@, h)
                &&& forall|h2: PipelineHandle|
                    h2 != h ==> contains_pipeline(final(self).pipelines@, h2) == contains_pipeline(
                        old(self).pipelines@,
                        h2,
                    )
                &&& forall|h2: PipelineHandle|
                    h2 != h && contains_pipeline(old(self).pipelines@, h2) ==> final(self).pipelines@[pipe_at(final(self).pipelines@, h2)] == old(self).pipelines@[pipe_at(old(self).pipelines@, h2)]
                &&& final(self).buffers == old(self).buffers
                &&& final(self).next_version == old(self).next_version
            },
    {
        match self.find_pipeline_index(h) {
            None => Err(Error::UnknownHandle),
            Some(i) => {
                let ghost ps0 = self.pipelines@;
                let ghost idx = i as int;
                self.pipelines.remove(i);
                proof {
                    lemma_remove_pipeline(ps0, idx);
                    assert forall|j: int|
                        0 <= j < final(self).pipelines@.len() implies pipe_wf(
                        final(self).buffers@,
                        #[trigger] final(self).pipelines@[j],
                    ) by {
                        let j0 = if j < idx { j } else { j + 1 };
                        assert(final(self).pipelines@[j] == ps0[j0]);
                        assert(pipe_wf(final(self).buffers@, ps0[j0]));
                    }
                }
                Ok(())
            },
        }
    }
}

/// The position of the record carrying this handle, if any.
fn find_buffer(bufs: &Vec<BufferEntry>, h: BufferHandle) -> (r: Option<usize>)
    requires
        unique_buffers(bufs@),
    ensures
        match r {
            Some(i) => i < bufs@.len() && bufs@[i as int].handle == h && contains_buffer(bufs@, h)
                && buf_at(bufs@, h) == i,
            None => !contains_buffer(bufs@, h),
        },
{
    let mut j: usize = 0;
    while j < bufs.len()
        invariant
            unique_buffers(bufs@),
            j <= bufs@.len(),
            forall|k: int| 0 <= k < j ==> (#[trigger] bufs@[k]).handle != h,
        decreases bufs@.len() - j,
    {
        if bufs[j].handle == h {
            proof {
                lemma_buf_at(bufs@, h, j as int);
            }
            return Some(j);
        }
        j = j + 1;
    }
    None
}

/// Re-resolves a binding descriptor list against the current buffer
/// records, producing a binding set whose slot `i` names the `i`-th
/// descriptor with the version currently behind its handle.  Fails when
/// a descriptor names an unregistered buffer — a lifecycle bug in the
/// caller.
pub fn resolve_set(bufs: &Vec<BufferEntry>, resources: &Vec<BindableResource>) -> (r: Result<
    Vec<BindingRef>,
    Error,
>)
    requires
        unique_buffers(bufs@),
    ensures
        match r {
            Ok(set) => all_registered(bufs@, resources@) && slots_match(resources@, set@)
                && set_fresh(bufs@, set@),
            Err(e) => e == Error::DanglingResource && !all_registered(bufs@, resources@),
        },
{
    let mut set: Vec<BindingRef> = Vec::new();
    let mut k: usize = 0;
    while k < resources.len()
        invariant
            unique_buffers(bufs@),
            k <= resources@.len(),
            set@.len() == k,
            forall|m: int| 0 <= m < k ==> (#[trigger] set@[m]).resource == resources@[m],
            forall|m: int| 0 <= m < k ==> slot_current(bufs@, #[trigger] set@[m]),
            forall|m: int| 0 <= m < k ==> res_registered(bufs@, #[trigger] resources@[m]),
        decreases resources@.len() - k,
    {
        let res = resources[k];
        match res {
            BindableResource::Buffer(h) => {
                match find_buffer(bufs, h) {
                    None => {
                        proof {
                            assert(!res_registered(bufs@, resources@[k as int]));
                        }
                        return Err(Error::DanglingResource);
                    },
                    Some(i) => {
                        set.push(BindingRef { resource: res, version: bufs[i].version });
                    },
                }
            },
        }
        k = k + 1;
    }
    Ok(set)
}

impl Registry {
    /// Rewrites a buffer's contents in place: a pure memory write that
    /// reuses the same underlying allocation.  The buffer's version is
    /// unchanged and no pipeline's dirty flag is touched.  The data must
    /// have the buffer's exact size; a different size calls for
    /// [`Registry::replace_buffer`].
    pub fn upload_in_place(&mut self, h: BufferHandle, data: Vec<u8>) -> (r: Result<(), Error>)
        requires
            old(self).wf(),
        ensures
            final(self).wf(),
            final(self).pipelines == old(self).pipelines,
            final(self).next_version == old(self).next_version,
            r.is_ok() <==> (contains_buffer(old(self).buffers@, h) && data@.len() == buf_contents(
                old(self).buffers@,
                h,
            ).len()),
            r.is_err() ==> final(self).buffers == old(self).buffers,
            (r.is_err() && !contains_buffer(old(self).buffers@, h)) ==> r == Result::<
                (),
                Error,
            >::Err(Error::UnknownHandle),
            (r.is_err() && contains_buffer(old(self).buffers@, h)) ==> r == Result::<
                (),
                Error,
            >::Err(Error::SizeMismatch),
            r.is_ok() ==> {
                &&& final(self).buffers@.len() == old(self).buffers@.len()
                &&& forall|i: int|
                    0 <= i < old(self).buffers@.len() && i != buf_at(old(self).buffers@, h)
                        ==> #[trigger] final(self).buffers@[i] == old(self).buffers@[i]
                &&& buf_at(final(self).buffers@, h) == buf_at(old(self).buffers@, h)
                &&& buf_contents(final(self).buffers@, h) == data@
                &&& buf_version(final(self).buffers@, h) == buf_version(old(self).buffers@, h)
                &&& final(self).buffers@[buf_at(final(self).buffers@, h)].usage == old(
                    self,
                ).buffers@[buf_at(old(self).buffers@, h)].usage
                &&& final(self).buffers@[buf_at(final(self).buffers@, h)].mutable == old(
                    self,
                ).buffers@[buf_at(old(self).buffers@, h)].mutable
                &&& forall|h2: BufferHandle|
                    contains_buffer(final(self).buffers@, h2) == contains_buffer(
                        old(self).buffers@,
                        h2,
                    )
            },
    {
        match self.find_buffer_index(h) {
            None => Err(Error::UnknownHandle),
            Some(i) => {
                if data.len() != self.buffers[i].contents.len() {
                    return Err(Error::SizeMismatch);
                }
                let ghost bufs0 = self.buffers@;
                let ghost idx = i as int;
                self.buffers[i].contents = data;
                proof {
                    lemma_update_at(bufs0, self.buffers@, idx);
                    lemma_buf_at(self.buffers@, h, idx);
                    assert forall|j: int|
                        0 <= j < self.pipelines@.len() implies pipe_wf(
                        self.buffers@,
                        #[trigger] self.pipelines@[j],
                    ) by {
                        let p = self.pipelines@[j];
                        assert(pipe_wf(bufs0, p));
                        if !p.dirty {
                            assert forall|k: int|
                                0 <= k < p.binding_set@.len() implies slot_current(
                                self.buffers@,
                                #[trigger] p.binding_set@[k],
                            ) by {
                                let b = p.binding_set@[k];
                                assert(slot_current(bufs0, b));
                                match b.resource {
                                    BindableResource::Buffer(h2) => {
                                        if contains_buffer(self.buffers@, h2) {
                                            let j2 = buf_at(bufs0, h2);
                                            assert(buf_at(self.buffers@, h2) == j2);
                                            assert(self.buffers@[j2].version
                                                == bufs0[j2].version);
                                        }
                                    },
                                }
                            }
                        }
                    }
                    assert forall|j: int|
                        0 <= j < self.buffers@.len() implies (#[trigger] self.buffers@[j]).version
                        < self.next_version by {
                        assert(self.buffers@[j].version == bufs0[j].version);
                    }
                }
                Ok(())
            },
        }
    }

    /// Replaces the resource behind a handle — the model of a resize or
    /// reallocation.  The buffer receives a fresh version and the new
    /// contents, and every pipeline whose binding descriptor list
    /// contains the handle is marked dirty before the call returns.
    pub fn replace_buffer(&mut self, h: BufferHandle, data: Vec<u8>) -> (r: Result<(), Error>)
        requires
            old(self).wf(),
            old(self).next_version < u64::MAX,
        ensures
            final(self).wf(),
            r.is_ok() <==> contains_buffer(old(self).buffers@, h),
            r.is_err() ==> *final(self) == *old(self) && r == Result::<(), Error>::Err(
                Error::UnknownHandle,
            ),
            r.is_ok() ==> {
                &&& final(self).buffers@.len() == old(self).buffers@.len()
                &&& forall|i: int|
                    0 <= i < old(self).buffers@.len() && i != buf_at(old(self).buffers@, h)
                        ==> #[trigger] final(self).buffers@[i] == old(self).buffers@[i]
                &&& buf_at(final(self).buffers@, h) == buf_at(old(self).buffers@, h)
                &&& buf_contents(final(self).buffers@, h) == data@
                &&& buf_version(final(self).buffers@, h) == old(self).next_version
                &&& buf_version(final(self).buffers@, h) != buf_version(old(self).buffers@, h)
                &&& forall|h2: BufferHandle|
                    contains_buffer(final(self).buffers@, h2) == contains_buffer(
                        old(self).buffers@,
                        h2,
                    )
                &&& final(self).next_version == old(self).next_version + 1
                &&& final(self).pipelines@.len() == old(self).pipelines@.len()
                &&& forall|i: int|
                    0 <= i < old(self).pipelines@.len() ==> {
                        &&& (#[trigger] final(self).pipelines@[i]).handle
                            == old(self).pipelines@[i].handle
                        &&& final(self).pipelines@[i].resources
                            == old(self).pipelines@[i].resources
                        &&& final(self).pipelines@[i].binding_set
                            == old(self).pipelines@[i].binding_set
                        &&& final(self).pipelines@[i].dirty == (old(self).pipelines@[i].dirty
                            || old(self).pipelines@[i].resources@.contains(
                            BindableResource::Buffer(h),
                        ))
                    }
            },
    {
        match self.find_buffer_index(h) {
            None => Err(Error::UnknownHandle),
            Some(i) => {
                self.mark_dirty_for(BindableResource::Buffer(h));
                let version = self.next_version;
                self.next_version = self.next_version + 1;
                let ghost bufs0 = self.buffers@;
                let ghost idx = i as int;
                self.buffers[i].contents = data;
                self.buffers[i].version = version;
                proof {
                    lemma_update_at(bufs0, self.buffers@, idx);
                    lemma_buf_at(self.buffers@, h, idx);
                    assert forall|j: int|
                        0 <= j < self.pipelines@.len() implies pipe_wf(
                        self.buffers@,
                        #[trigger] self.pipelines@[j],
                    ) by {
                        let p = self.pipelines@[j];
                        assert(pipe_wf(bufs0, p));
                        if !p.dirty {
                            assert(!p.resources@.contains(BindableResource::Buffer(h)));
                            assert forall|k: int|
                                0 <= k < p.binding_set@.len() implies slot_current(
                                self.buffers@,
                                #[trigger] p.binding_set@[k],
                            ) by {
                                let b = p.binding_set@[k];
                                assert(b.resource == p.resources@[k]);
                                assert(slot_current(bufs0, b));
                                match b.resource {
                                    BindableResource::Buffer(h2) => {
                                        assert(p.resources@[k] == BindableResource::Buffer(h2));
                                        assert(p.resources@.contains(BindableResource::Buffer(h2)));
                                        assert(h2 != h);
                                        if contains_buffer(self.buffers@, h2) {
                                            let j2 = buf_at(bufs0, h2);
                                            assert(buf_at(self.buffers@, h2) == j2);
                                            assert(j2 != idx);
                                            assert(self.buffers@[j2] == bufs0[j2]);
                                        }
                                    },
                                }
                            }
                        }
                    }
                    assert forall|j: int|
                        0 <= j < self.buffers@.len() implies (#[trigger] self.buffers@[j]).version
                        < self.next_version by {
                        if j != idx {
                            assert(self.buffers@[j] == bufs0[j]);
                        }
                    }
                }
                Ok(())
            },
        }
    }

    /// Registers a pipeline under a handle with its binding descriptor
    /// list, computing the initial binding set eagerly from the current
    /// registry contents, with the dirty flag clear.  Fails on a
    /// duplicate handle, or when a descriptor names an unregistered
    /// buffer.
    pub fn register_pipeline(&mut self, h: PipelineHandle, resources: Vec<BindableResource>) -> (r:
        Result<(), Error>)
        requires
            old(self).wf(),
        ensures
            final(self).wf(),
            r.is_ok() <==> (!contains_pipeline(old(self).pipelines@, h) && all_registered(
                old(self).buffers@,
                resources@,
            )),
            r.is_err() ==> *final(self) == *old(self),
            (r.is_err() && contains_pipeline(old(self).pipelines@, h)) ==> r == Result::<
                (),
                Error,
            >::Err(Error::DuplicateHandle),
            (r.is_err() && !contains_pipeline(old(self).pipelines@, h)) ==> r == Result::<
                (),
                Error,
            >::Err(Error::DanglingResource) && !all_registered(old(self).buffers@, resources@),
            r.is_ok() ==> {
                &&& final(self).buffers == old(self).buffers
                &&& final(self).next_version == old(self).next_version
                &&& final(self).pipelines@.len() == old(self).pipelines@.len() + 1
                &&& forall|i: int|
                    0 <= i < old(self).pipelines@.len() ==> #[trigger] final(self).pipelines@[i]
                        == old(self).pipelines@[i]
                &&& final(self).pipelines@.last().handle == h
                &&& final(self).pipelines@.last().resources == resources
                &&& final(self).pipelines@.last().dirty == false
                &&& slots_match(resources@, final(self).pipelines@.last().binding_set@)
                &&& set_fresh(final(self).buffers@, final(self).pipelines@.last().binding_set@)
                &&& contains_pipeline(final(self).pipelines@, h)
                &&& pipe_at(final(self).pipelines@, h) == old(self).pipelines@.len()
                &&& forall|h2: PipelineHandle|
                    h2 != h ==> contains_pipeline(final(self).pipelines@, h2) == contains_pipeline(
                        old(self).pipelines@,
                        h2,
                    )
            },
    {
        if self.find_pipeline_index(h).is_some() {
            return Err(Error::DuplicateHandle);
        }
        let set = match resolve_set(&self.buffers, &resources) {
            Err(e) => {
                return Err(e);
            },
            Ok(set) => set,
        };
        let ghost ps0 = self.pipelines@;
        self.pipelines.push(
            PipelineEntry { handle: h, resources, dirty: false, binding_set: set },
        );
        proof {
            let ps1 = self.pipelines@;
            assert(unique_pipelines(ps1)) by {
                assert forall|i: int, j: int|
                    0 <= i < j < ps1.len() implies (#[trigger] ps1[i]).handle
                    != (#[trigger] ps1[j]).handle by {
                    if j == ps1.len() - 1 {
                        assert(ps1[i] == ps0[i]);
                    } else {
                        assert(ps0[i].handle != ps0[j].handle);
                    }
                }
            }
            lemma_pipe_at(ps1, h, ps1.len() - 1);
            assert forall|j: int|
                0 <= j < ps1.len() implies pipe_wf(self.buffers@, #[trigger] ps1[j]) by {
                if j < ps1.len() - 1 {
                    assert(ps1[j] == ps0[j]);
                    assert(pipe_wf(self.buffers@, ps0[j]));
                }
            }
            assert forall|h2: PipelineHandle|
                h2 != h && contains_pipeline(ps1, h2) implies contains_pipeline(ps0, h2) by {
                let i = pipe_at(ps1, h2);
                assert(0 <= i < ps1.len() && ps1[i].handle == h2);
                assert(i < ps1.len() - 1);
                assert(ps0[i].handle == h2);
                lemma_pipe_at(ps0, h2, i);
            }
            assert forall|h2: PipelineHandle|
                h2 != h && contains_pipeline(ps0, h2) implies contains_pipeline(ps1, h2) by {
                let i = pipe_at(ps0, h2);
                assert(0 <= i < ps0.len() && ps0[i].handle == h2);
                assert(ps1[i].handle == h2);
                lemma_pipe_at(ps1, h2, i);
            }
        }
        Ok(())
    }

    /// Consults a pipeline's dirty flag before a dispatch or draw.  If
    /// set, rebuilds the cached binding set from the current registry
    /// contents and clears the flag; if clear, reuses the cached set
    /// untouched.  Returns whether a rebuild happened.  Every other
    /// pipeline record is left exactly as it was.
    pub fn refresh_binding_set(&mut self, h: PipelineHandle) -> (r: Result<bool, Error>)
        requires
            old(self).wf(),
        ensures
            final(self).wf(),
            final(self).buffers == old(self).buffers,
            final(self).next_version == old(self).next_version,
            r.is_ok() <==> (contains_pipeline(old(self).pipelines@, h) && (old(
                self,
            ).pipelines@[pipe_at(old(self).pipelines@, h)].dirty ==> all_registered(
                old(self).buffers@,
                old(self).pipelines@[pipe_at(old(self).pipelines@, h)].resources@,
            ))),
            r.is_err() ==> *final(self) == *old(self),
            (r.is_err() && !contains_pipeline(old(self).pipelines@, h)) ==> r == Result::<
                bool,
                Error,
            >::Err(Error::UnknownHandle),
            (r.is_err() && contains_pipeline(old(self).pipelines@, h)) ==> r == Result::<
                bool,
                Error,
            >::Err(Error::DanglingResource),
            r.is_ok() ==> {
                let i = pipe_at(old(self).pipelines@, h);
                &&& r == Result::<bool, Error>::Ok(old(self).pipelines@[i].dirty)
                &&& final(self).pipelines@.len() == old(self).pipelines@.len()
                &&& forall|j: int|
                    0 <= j < old(self).pipelines@.len() && j != i
                        ==> #[trigger] final(self).pipelines@[j] == old(self).pipelines@[j]
                &&& final(self).pipelines@[i].handle == old(self).pipelines@[i].handle
                &&& final(self).pipelines@[i].resources == old(self).pipelines@[i].resources
                &&& final(self).pipelines@[i].dirty == false
                &&& slots_match(
                    final(self).pipelines@[i].resources@,
                    final(self).pipelines@[i].binding_set@,
                )
                &&& set_fresh(final(self).buffers@, final(self).pipelines@[i].binding_set@)
                &&& !old(self).pipelines@[i].dirty ==> final(self).pipelines@[i] == old(
                    self,
                ).pipelines@[i]
                &&& contains_pipeline(final(self).pipelines@, h)
                &&& pipe_at(final(self).pipelines@, h) == i
            },
    {
        let i = match self.find_pipeline_index(h) {
            None => {
                return Err(Error::UnknownHandle);
            },
            Some(i) => i,
        };
        if !self.pipelines[i].dirty {
            proof {
                assert(pipe_wf(self.buffers@, self.pipelines@[i as int]));
            }
            return Ok(false);
        }
        let set = match resolve_set(&self.buffers, &self.pipelines[i].resources) {
            Err(e) => {
                return Err(e);
            },
            Ok(set) => set,
        };
        let ghost ps0 = self.pipelines@;
        let ghost idx = i as int;
        self.pipelines[i].binding_set = set;
        self.pipelines[i].dirty = false;
        proof {
            let ps1 = self.pipelines@;
            assert(unique_pipelines(ps1)) by {
                assert forall|a: int, b: int|
                    0 <= a < b < ps1.len() implies (#[trigger] ps1[a]).handle
                    != (#[trigger] ps1[b]).handle by {
                    assert(ps0[a].handle != ps0[b].handle);
                }
            }
            lemma_pipe_at(ps1, h, idx);
            assert forall|j: int|
                0 <= j < ps1.len() implies pipe_wf(self.buffers@, #[trigger] ps1[j]) by {
                if j != idx {
                    assert(ps1[j] == ps0[j]);
                    assert(pipe_wf(self.buffers@, ps0[j]));
                }
            }
        }
        Ok(true)
    }
}

/// Cache coherence, the registry's central invariant: in a well-formed
/// registry, a pipeline whose dirty flag is clear has a cached binding
/// set whose slot `i` names the `i`-th descriptor-list entry with the
/// current version of every buffer that is still registered.
pub proof fn lemma_clean_cache_is_current(reg: Registry, i: int)
    requires
        reg.wf(),
        0 <= i < reg.pipelines@.len(),
        !reg.pipelines@[i].dirty,
    ensures
        slots_match(reg.pipelines@[i].resources@, reg.pipelines@[i].binding_set@),
        set_fresh(reg.buffers@, reg.pipelines@[i].binding_set@),
{
    assert(pipe_wf(reg.buffers@, reg.pipelines@[i]));
}

/// In a duplicate-free sequence, an entry found at index `j` pins down
/// `buf_at` to `j`.
pub proof fn lemma_buf_at(bufs: Seq<BufferEntry>, h: BufferHandle, j: int)
    requires
        unique_buffers(bufs),
        0 <= j < bufs.len(),
        bufs[j].handle == h,
    ensures
        contains_buffer(bufs, h),
        buf_at(bufs, h) == j,
{
    assert(contains_buffer(bufs, h));
    let i = buf_at(bufs, h);
    assert(0 <= i < bufs.len() && bufs[i].handle == h);
    if i < j {
        assert(bufs[i].handle != bufs[j].handle);
    } else if j < i {
        assert(bufs[j].handle != bufs[i].handle);
    }
}

/// In a duplicate-free sequence, an entry found at index `j` pins down
/// `pipe_at` to `j`.
pub proof fn lemma_pipe_at(ps: Seq<PipelineEntry>, h: PipelineHandle, j: int)
    requires
        unique_pipelines(ps),
        0 <= j < ps.len(),
        ps[j].handle == h,
    ensures
        contains_pipeline(ps, h),
        pipe_at(ps, h) == j,
{
    assert(contains_pipeline(ps, h));
    let i = pipe_at(ps, h);
    assert(0 <= i < ps.len() && ps[i].handle == h);
    if i < j {
        assert(ps[i].handle != ps[j].handle);
    } else if j < i {
        assert(ps[j].handle != ps[i].handle);
    }
}

/// Replacing the record at one index, handle kept, preserves uniqueness
/// and every lookup under a different handle.
pub proof fn lemma_update_at(a: Seq<BufferEntry>, b: Seq<BufferEntry>, idx: int)
    requires
        unique_buffers(a),
        a.len() == b.len(),
        0 <= idx < a.len(),
        b[idx].handle == a[idx].handle,
        forall|i: int| 0 <= i < a.len() && i != idx ==> #[trigger] b[i] == a[i],
    ensures
        unique_buffers(b),
        forall|h: BufferHandle| contains_buffer(b, h) == contains_buffer(a, h),
        forall|h: BufferHandle|
            contains_buffer(a, h) ==> buf_at(b, h) == buf_at(a, h),
{
    assert forall|i: int| 0 <= i < a.len() implies (#[trigger] b[i]).handle == a[i].handle by {
        if i != idx {
            assert(b[i] == a[i]);
        }
    }
    assert forall|h: BufferHandle| contains_buffer(a, h) implies contains_buffer(b, h)
        && buf_at(b, h) == buf_at(a, h) by {
        let j = buf_at(a, h);
        assert(0 <= j < a.len() && a[j].handle == h);
        assert(b[j].handle == h);
        lemma_buf_at(b, h, j);
    }
    assert forall|h: BufferHandle| contains_buffer(b, h) implies contains_buffer(a, h) by {
        let j = buf_at(b, h);
        assert(0 <= j < b.len() && b[j].handle == h);
        assert(a[j].handle == h);
        lemma_buf_at(a, h, j);
    }
}

/// Removing the record at one index preserves uniqueness, removes exactly
/// that handle, and preserves every lookup under a different handle.
pub proof fn lemma_remove_buffer(a: Seq<BufferEntry>, idx: int)
    requires
        unique_buffers(a),
        0 <= idx < a.len(),
    ensures
        unique_buffers(a.remove(idx)),
        !contains_buffer(a.remove(idx), a[idx].handle),
        forall|h: BufferHandle|
            h != a[idx].handle ==> contains_buffer(a.remove(idx), h) == contains_buffer(a, h),
        forall|h: BufferHandle|
            h != a[idx].handle && contains_buffer(a, h) ==> a.remove(idx)[buf_at(
                a.remove(idx),
                h,
            )] == a[buf_at(a, h)],
{
    let b = a.remove(idx);
    assert(b.len() == a.len() - 1);
    assert forall|i: int| 0 <= i < b.len() implies #[trigger] b[i] == (if i < idx {
        a[i]
    } else {
        a[i + 1]
    }) by {}
    assert(unique_buffers(b)) by {
        assert forall|i: int, j: int|
            0 <= i < j < b.len() implies (#[trigger] b[i]).handle != (#[trigger] b[j]).handle by {
            let i0 = if i < idx { i } else { i + 1 };
            let j0 = if j < idx { j } else { j + 1 };
            assert(b[i] == a[i0]);
            assert(b[j] == a[j0]);
            assert(a[i0].handle != a[j0].handle);
        }
    }
    assert forall|i: int| 0 <= i < b.len() implies (#[trigger] b[i]).handle != a[idx].handle by {
        let i0 = if i < idx { i } else { i + 1 };
        assert(b[i] == a[i0]);
        assert(a[i0].handle != a[idx].handle);
    }
    assert forall|h: BufferHandle|
        h != a[idx].handle && contains_buffer(a, h) implies contains_buffer(b, h) && b[buf_at(
        b,
        h,
    )] == a[buf_at(a, h)] by {
        let j = buf_at(a, h);
        assert(0 <= j < a.len() && a[j].handle == h);
        assert(j != idx);
        let j1 = if j < idx { j } else { j - 1 };
        assert(b[j1] == a[j]);
        lemma_buf_at(b, h, j1);
    }
    assert forall|h: BufferHandle|
        h != a[idx].handle && contains_buffer(b, h) implies contains_buffer(a, h) by {
        let j = buf_at(b, h);
        assert(0 <= j < b.len() && b[j].handle == h);
        let j0 = if j < idx { j } else { j + 1 };
        assert(a[j0].handle == h);
        lemma_buf_at(a, h, j0);
    }
}

/// Removing the record at one index preserves uniqueness, removes exactly
/// that handle, and preserves every lookup under a different handle.
pub proof fn lemma_remove_pipeline(a: Seq<PipelineEntry>, idx: int)
    requires
        unique_pipelines(a),
        0 <= idx < a.len(),
    ensures
        unique_pipelines(a.remove(idx)),
        !contains_pipeline(a.remove(idx), a[idx].handle),
        forall|h: PipelineHandle|
            h != a[idx].handle ==> contains_pipeline(a.remove(idx), h) == contains_pipeline(a, h),
        forall|h: PipelineHandle|
            h != a[idx].handle && contains_pipeline(a, h) ==> a.remove(idx)[pipe_at(
                a.remove(idx),
                h,
            )] == a[pipe_at(a, h)],
{
    let b = a.remove(idx);
    assert(b.len() == a.len() - 1);
    assert(unique_pipelines(b)) by {
        assert forall|i: int, j: int|
            0 <= i < j < b.len() implies (#[trigger] b[i]).handle != (#[trigger] b[j]).handle by {
            let i0 = if i < idx { i } else { i + 1 };
            let j0 = if j < idx { j } else { j + 1 };
            assert(b[i] == a[i0]);
            assert(b[j] == a[j0]);
            assert(a[i0].handle != a[j0].handle);
        }
    }
    assert forall|i: int| 0 <= i < b.len() implies (#[trigger] b[i]).handle != a[idx].handle by {
        let i0 = if i < idx { i } else { i + 1 };
        assert(b[i] == a[i0]);
        assert(a[i0].handle != a[idx].handle);
    }
    assert forall|h: PipelineHandle|
        h != a[idx].handle && contains_pipeline(a, h) implies contains_pipeline(b, h) && b[pipe_at(
        b,
        h,
    )] == a[pipe_at(a, h)] by {
        let j = pipe_at(a, h);
        assert(0 <= j < a.len() && a[j].handle == h);
        assert(j != idx);
        let j1 = if j < idx { j } else { j - 1 };
        assert(b[j1] == a[j]);
        lemma_pipe_at(b, h, j1);
    }
    assert forall|h: PipelineHandle|
        h != a[idx].handle && contains_pipeline(b, h) implies contains_pipeline(a, h) by {
        let j = pipe_at(b, h);
        assert(0 <= j < b.len() && b[j].handle == h);
        let j0 = if j < idx { j } else { j + 1 };
        assert(a[j0].handle == h);
        lemma_pipe_at(a, h, j0);
    }
}

} // verus!
