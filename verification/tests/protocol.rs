//! Dispatch and read-back protocol: handle uniqueness, queue order,
//! flushes, and cooperative completion callbacks.

use gpukit::dispatch::{Command, Workgroups};
use gpukit::gpu::Gpu;

fn wg() -> Workgroups {
    Workgroups { x: 4, y: 2, z: 1 }
}

#[test]
fn allocated_handles_are_distinct() {
    let mut gpu = Gpu::new();
    let mut handles: Vec<u64> = Vec::new();
    for i in 0..100 {
        let buf = gpu.create_uniform(vec![i as u8], false).unwrap();
        handles.push(buf.handle.id);
    }
    for i in 0..handles.len() {
        for j in (i + 1)..handles.len() {
            assert_ne!(handles[i], handles[j]);
        }
    }
}

#[test]
fn immediate_dispatch_submits_one_command() {
    let mut gpu = Gpu::new();
    let buf = gpu.create_storage(vec![0; 8], false, true).unwrap();
    let p = gpu.compute_pipeline().bind_buffer(&buf).finish(&mut gpu).unwrap();

    assert_eq!(gpu.submitted_count(), 0);
    p.dispatch(&mut gpu, wg()).unwrap();
    assert_eq!(gpu.submitted_count(), 1);
    let sub = &gpu.engine.submissions[0];
    assert_eq!(sub.commands.len(), 1);
    assert_eq!(
        sub.commands[0],
        Command::Dispatch { pipeline: p.handle, workgroups: wg() }
    );
    assert!(sub.callbacks.is_empty());
}

#[test]
fn queued_dispatches_flush_as_one_batch_in_order() {
    let mut gpu = Gpu::new();
    let buf = gpu.create_storage(vec![0; 8], false, true).unwrap();
    let p1 = gpu.compute_pipeline().bind_buffer(&buf).finish(&mut gpu).unwrap();
    let p2 = gpu.compute_pipeline().bind_buffer(&buf).finish(&mut gpu).unwrap();

    p1.queue_dispatch(&mut gpu, wg()).unwrap();
    p2.queue_dispatch(&mut gpu, wg()).unwrap();
    assert_eq!(gpu.submitted_count(), 0);
    assert_eq!(gpu.engine.pending.len(), 2);

    gpu.flush_dispatch_queue();
    assert_eq!(gpu.submitted_count(), 1);
    assert!(gpu.engine.pending.is_empty());
    let sub = &gpu.engine.submissions[0];
    assert_eq!(sub.commands.len(), 2);
    assert_eq!(
        sub.commands[0],
        Command::Dispatch { pipeline: p1.handle, workgroups: wg() }
    );
    assert_eq!(
        sub.commands[1],
        Command::Dispatch { pipeline: p2.handle, workgroups: wg() }
    );
}

#[test]
fn flush_with_nothing_pending_submits_nothing() {
    let mut gpu = Gpu::new();
    gpu.flush_dispatch_queue();
    assert_eq!(gpu.submitted_count(), 0);
}

#[test]
fn callbacks_fire_in_submission_order() {
    let mut gpu = Gpu::new();
    let buf = gpu.create_storage(vec![0; 8], false, true).unwrap();
    let p = gpu.compute_pipeline().bind_buffer(&buf).finish(&mut gpu).unwrap();

    let t1 = p.dispatch_callback(&mut gpu, wg()).unwrap();
    let t2 = p.dispatch_callback(&mut gpu, wg()).unwrap();
    assert_ne!(t1, t2);

    // The device reports both submissions complete; their tokens drain
    // in submission order.
    let n = gpu.submitted_count();
    let fired = gpu.process_completions(n);
    assert_eq!(fired, vec![t1, t2]);
    assert_eq!(gpu.completed_count(), n);

    // A later poll with no new completions fires nothing.
    let fired_again = gpu.process_completions(n);
    assert!(fired_again.is_empty());
}

#[test]
fn queued_callback_fires_with_its_batch() {
    let mut gpu = Gpu::new();
    let buf = gpu.create_storage(vec![0; 8], false, true).unwrap();
    let p = gpu.compute_pipeline().bind_buffer(&buf).finish(&mut gpu).unwrap();

    let t = p.queue_dispatch_callback(&mut gpu, wg()).unwrap();
    assert!(gpu.process_completions(0).is_empty());

    gpu.flush_dispatch_queue();
    let n = gpu.submitted_count();
    assert_eq!(gpu.process_completions(n), vec![t]);
}

#[test]
fn split_polls_preserve_callback_order() {
    let mut gpu = Gpu::new();
    let buf = gpu.create_storage(vec![0; 8], false, true).unwrap();
    let p = gpu.compute_pipeline().bind_buffer(&buf).finish(&mut gpu).unwrap();

    let t1 = p.dispatch_callback(&mut gpu, wg()).unwrap();
    let t2 = p.dispatch_callback(&mut gpu, wg()).unwrap();
    let t3 = p.dispatch_callback(&mut gpu, wg()).unwrap();

    let first = gpu.process_completions(1);
    let rest = gpu.process_completions(3);
    let mut all = first;
    all.extend(rest);
    assert_eq!(all, vec![t1, t2, t3]);
}

#[test]
fn async_download_is_ordered_after_prior_writes() {
    let mut gpu = Gpu::new();
    let buf = gpu.create_storage(vec![0; 4], false, true).unwrap();
    buf.upload(&mut gpu, vec![1, 2, 3, 4]).unwrap();

    let token = buf.download_async(&mut gpu).unwrap();
    let n = gpu.submitted_count();
    assert_eq!(n, 1);
    assert_eq!(
        gpu.engine.submissions[0].commands[0],
        Command::Readback { buffer: buf.handle }
    );

    // Once the device reports the read-back complete, the token fires
    // and the contents reflect the earlier write.
    assert_eq!(gpu.process_completions(n), vec![token]);
    assert_eq!(buf.download(&gpu).unwrap(), vec![1, 2, 3, 4]);
}
