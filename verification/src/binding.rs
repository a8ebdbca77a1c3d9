//! The bindable capability: how a resource participates in a pipeline's
//! binding set.
//!
//! Pipelines are generic over "anything bindable", not over concrete
//! buffer kinds.  A bindable resource exposes its handle (for binding-list
//! membership and dirty tracking) and its binding-type descriptor (uniform
//! vs. storage, read-only vs. read-write).

use vstd::prelude::*;
use crate::handles::BufferHandle;

verus! {

/// Static metadata describing how a buffer is exposed to a shader.
#[derive(Clone, Copy, PartialEq, Eq, Structural, Debug)]
pub enum BindingTypeDesc {
    /// Small, read-only from the shader's perspective.
    Uniform,
    /// Read/write from the shader, resizable.
    Storage { read_only: bool },
}

/// Identity of a resource as it appears in a binding descriptor list.
#[derive(Clone, Copy, PartialEq, Eq, Structural, Debug)]
pub enum BindableResource {
    Buffer(BufferHandle),
}

/// A resource type that can be bound into a pipeline's binding set.
pub trait Bindable {
    /// The handle this resource binds under, as a spec-level value.
    spec fn spec_resource_id(&self) -> BindableResource;

    /// The binding-type descriptor, as a spec-level value.
    spec fn spec_binding_type(&self) -> BindingTypeDesc;

    /// Identity for binding-list membership and dirty tracking.
    fn resource_id(&self) -> (r: BindableResource)
        ensures
            r == self.spec_resource_id(),
    ;

    /// Static metadata consumed when compiling the binding layout.
    fn binding_type(&self) -> (r: BindingTypeDesc)
        ensures
            r == self.spec_binding_type(),
    ;
}

} // verus!
