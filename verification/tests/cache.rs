//! Binding-cache and registry behaviour: slot order, dirty-flag
//! invalidation, in-place uploads, round trips, and lifecycle.

use gpukit::binding::{BindableResource, BindingTypeDesc};
use gpukit::buffer::{StorageBuffer, UniformBuffer};
use gpukit::dispatch::Workgroups;
use gpukit::gpu::Gpu;
use gpukit::handles::BufferHandle;
use gpukit::registry::Error;

fn wg() -> Workgroups {
    Workgroups { x: 1, y: 1, z: 1 }
}

#[test]
fn slots_follow_bind_order() {
    let mut gpu = Gpu::new();
    let a: UniformBuffer = gpu.create_uniform(vec![0, 1, 2, 3], false).unwrap();
    let b: StorageBuffer = gpu.create_storage(vec![4, 5, 6, 7], false, true).unwrap();
    let p = gpu
        .compute_pipeline()
        .bind_buffer(&a)
        .bind_buffer(&b)
        .finish(&mut gpu)
        .unwrap();

    let entry = gpu.registry.get_pipeline(p.handle).unwrap();
    assert_eq!(entry.resources.len(), 2);
    assert_eq!(entry.resources[0], BindableResource::Buffer(a.handle));
    assert_eq!(entry.resources[1], BindableResource::Buffer(b.handle));
    assert_eq!(entry.binding_set.len(), 2);
    assert_eq!(entry.binding_set[0].resource, BindableResource::Buffer(a.handle));
    assert_eq!(entry.binding_set[1].resource, BindableResource::Buffer(b.handle));
    assert!(!entry.dirty);
}

#[test]
fn resize_marks_every_sharing_pipeline_dirty() {
    let mut gpu = Gpu::new();
    let shared = gpu.create_storage(vec![0; 8], false, true).unwrap();
    let other = gpu.create_storage(vec![0; 8], false, true).unwrap();

    let p1 = gpu.compute_pipeline().bind_buffer(&shared).finish(&mut gpu).unwrap();
    let p2 = gpu.compute_pipeline().bind_buffer(&shared).finish(&mut gpu).unwrap();
    let p3 = gpu.compute_pipeline().bind_buffer(&other).finish(&mut gpu).unwrap();

    shared.resize(&mut gpu, vec![0; 16]).unwrap();

    // Every pipeline sharing the buffer is invalidated, not only the
    // first match; an unrelated pipeline is untouched.
    assert!(gpu.registry.get_pipeline(p1.handle).unwrap().dirty);
    assert!(gpu.registry.get_pipeline(p2.handle).unwrap().dirty);
    assert!(!gpu.registry.get_pipeline(p3.handle).unwrap().dirty);
}

#[test]
fn dispatch_rebuilds_stale_set_and_leaves_others_cached() {
    let mut gpu = Gpu::new();
    let shared = gpu.create_storage(vec![0; 8], false, true).unwrap();
    let other = gpu.create_storage(vec![0; 8], false, true).unwrap();
    let p = gpu.compute_pipeline().bind_buffer(&shared).finish(&mut gpu).unwrap();
    let q = gpu.compute_pipeline().bind_buffer(&other).finish(&mut gpu).unwrap();

    let q_set_before: Vec<_> = gpu.registry.get_pipeline(q.handle).unwrap().binding_set.clone();

    shared.resize(&mut gpu, vec![0; 32]).unwrap();
    let new_version = gpu.registry.get_buffer(shared.handle).unwrap().version;

    p.dispatch(&mut gpu, wg()).unwrap();
    let p_entry = gpu.registry.get_pipeline(p.handle).unwrap();
    assert!(!p_entry.dirty);
    assert_eq!(p_entry.binding_set[0].version, new_version);

    // The pipeline not referencing the resized buffer keeps its cached
    // set unchanged: a cache hit, zero rebuild.
    q.dispatch(&mut gpu, wg()).unwrap();
    let q_entry = gpu.registry.get_pipeline(q.handle).unwrap();
    assert!(!q_entry.dirty);
    assert_eq!(q_entry.binding_set, q_set_before);
}

#[test]
fn upload_in_place_never_sets_dirty() {
    let mut gpu = Gpu::new();
    let buf = gpu.create_storage(vec![1, 2, 3, 4], false, true).unwrap();
    let p1 = gpu.compute_pipeline().bind_buffer(&buf).finish(&mut gpu).unwrap();
    let p2 = gpu.compute_pipeline().bind_buffer(&buf).finish(&mut gpu).unwrap();
    let version_before = gpu.registry.get_buffer(buf.handle).unwrap().version;

    buf.upload(&mut gpu, vec![9, 9, 9, 9]).unwrap();

    assert!(!gpu.registry.get_pipeline(p1.handle).unwrap().dirty);
    assert!(!gpu.registry.get_pipeline(p2.handle).unwrap().dirty);
    assert_eq!(gpu.registry.get_buffer(buf.handle).unwrap().version, version_before);
}

#[test]
fn upload_of_wrong_size_is_rejected() {
    let mut gpu = Gpu::new();
    let buf = gpu.create_storage(vec![1, 2, 3, 4], false, true).unwrap();
    assert_eq!(buf.upload(&mut gpu, vec![1, 2, 3]), Err(Error::SizeMismatch));
    assert_eq!(gpu.registry.get_buffer(buf.handle).unwrap().contents, vec![1, 2, 3, 4]);
}

#[test]
fn byte_round_trip() {
    let mut gpu = Gpu::new();
    let buf = gpu.create_storage(vec![0; 4], false, true).unwrap();
    buf.upload(&mut gpu, vec![5, 6, 7, 8]).unwrap();
    assert_eq!(buf.download(&gpu).unwrap(), vec![5, 6, 7, 8]);
}

#[test]
fn typed_round_trip_through_codec() {
    // The payload codec serializes a typed value to the raw byte layout
    // a GPU buffer expects; uploading those bytes and downloading them
    // back decodes to the same value.
    let value: [u32; 3] = [7, 1_000_000, u32::MAX];
    let mut bytes: Vec<u8> = Vec::new();
    let mut writer = encase::StorageBuffer::new(&mut bytes);
    writer.write(&value).unwrap();

    let mut gpu = Gpu::new();
    let buf = gpu.create_storage(vec![0; bytes.len()], false, true).unwrap();
    buf.upload(&mut gpu, bytes).unwrap();

    let back = buf.download(&gpu).unwrap();
    let reader = encase::StorageBuffer::new(&back);
    let decoded: [u32; 3] = reader.create().unwrap();
    assert_eq!(decoded, value);
}

#[test]
fn duplicate_registration_is_rejected() {
    let mut gpu = Gpu::new();
    let h = BufferHandle { id: 999 };
    gpu.registry
        .register_buffer(h, BindingTypeDesc::Uniform, false, vec![1, 2])
        .unwrap();
    let second = gpu
        .registry
        .register_buffer(h, BindingTypeDesc::Uniform, false, vec![3, 4]);
    assert_eq!(second, Err(Error::DuplicateHandle));
    // The first registration was not silently overwritten.
    assert_eq!(gpu.registry.get_buffer(h).unwrap().contents, vec![1, 2]);
}

#[test]
fn removing_an_absent_handle_is_rejected() {
    let mut gpu = Gpu::new();
    let buf = gpu.create_uniform(vec![1], false).unwrap();
    buf.destroy(&mut gpu).unwrap();
    assert_eq!(buf.destroy(&mut gpu), Err(Error::UnknownHandle));
}

#[test]
fn dropping_pipeline_leaves_buffer_usable() {
    let mut gpu = Gpu::new();
    let buf = gpu.create_storage(vec![0; 8], false, true).unwrap();
    let p = gpu.compute_pipeline().bind_buffer(&buf).finish(&mut gpu).unwrap();

    p.destroy(&mut gpu).unwrap();
    assert!(gpu.registry.get_pipeline(p.handle).is_none());
    assert!(gpu.registry.get_buffer(buf.handle).is_some());

    // The buffer remains valid and usable by a newly built pipeline.
    let p2 = gpu.compute_pipeline().bind_buffer(&buf).finish(&mut gpu).unwrap();
    let entry = gpu.registry.get_pipeline(p2.handle).unwrap();
    assert_eq!(entry.resources[0], BindableResource::Buffer(buf.handle));
}

#[test]
fn dispatch_with_dangling_descriptor_fails() {
    let mut gpu = Gpu::new();
    let buf = gpu.create_storage(vec![0; 8], false, true).unwrap();
    let p = gpu.compute_pipeline().bind_buffer(&buf).finish(&mut gpu).unwrap();

    buf.resize(&mut gpu, vec![0; 16]).unwrap();
    buf.destroy(&mut gpu).unwrap();

    // The stale set cannot be rebuilt against a destroyed buffer.
    assert_eq!(p.dispatch(&mut gpu, wg()), Err(Error::DanglingResource));
}

#[test]
fn download_of_unknown_handle_fails() {
    let mut gpu = Gpu::new();
    let buf = gpu.create_storage(vec![0; 8], false, true).unwrap();
    buf.destroy(&mut gpu).unwrap();
    assert_eq!(buf.download(&gpu), Err(Error::UnknownHandle));
}

#[test]
fn empty_buffer_and_empty_descriptor_list() {
    let mut gpu = Gpu::new();
    let buf = gpu.create_uniform(Vec::new(), false).unwrap();
    assert_eq!(gpu.download(buf.handle).map(|b| b.len()), Ok(0));
    buf.upload(&mut gpu, Vec::new()).unwrap();

    // A pipeline with no bound resources is legal: nothing to resolve,
    // nothing ever marks it dirty.
    let p = gpu.compute_pipeline().finish(&mut gpu).unwrap();
    let entry = gpu.registry.get_pipeline(p.handle).unwrap();
    assert!(entry.resources.is_empty());
    assert!(entry.binding_set.is_empty());
    p.dispatch(&mut gpu, wg()).unwrap();
    assert!(!gpu.registry.get_pipeline(p.handle).unwrap().dirty);
}

#[test]
fn resize_with_no_dependent_pipelines_only_bumps_version() {
    let mut gpu = Gpu::new();
    let buf = gpu.create_storage(vec![1, 2], false, true).unwrap();
    let v0 = gpu.registry.get_buffer(buf.handle).unwrap().version;
    buf.resize(&mut gpu, vec![1, 2, 3]).unwrap();
    let entry = gpu.registry.get_buffer(buf.handle).unwrap();
    assert_ne!(entry.version, v0);
    assert_eq!(entry.contents, vec![1, 2, 3]);
}

#[test]
fn render_pipeline_draw_consults_cache() {
    let mut gpu = Gpu::new();
    let buf = gpu.create_uniform(vec![0; 16], false).unwrap();
    let p = gpu.render_pipeline().bind_buffer(&buf).finish(&mut gpu).unwrap();

    // Clean pipeline: a draw is a cache hit.
    assert_eq!(p.draw_indexed(&mut gpu), Ok(false));

    // An in-place upload stays a cache hit; only a replacement forces a
    // rebuild.
    buf.upload(&mut gpu, vec![1; 16]).unwrap();
    assert_eq!(p.draw_screen_quad(&mut gpu), Ok(false));

    gpu.registry.replace_buffer(buf.handle, vec![2; 16]).unwrap();
    assert_eq!(p.draw_indexed(&mut gpu), Ok(true));
    assert_eq!(p.draw_indexed(&mut gpu), Ok(false));
}
