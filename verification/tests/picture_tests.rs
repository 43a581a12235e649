//! The per-picture completion state machine, driven through the backend
//! facade.

use va_backend::backend::{SubmitError, VaapiBackend};
use va_backend::error::SyncError;
use va_backend::format::{VA_FOURCC_NV12, VA_RT_FORMAT_YUV420};
use va_backend::negotiate::{HardwareConfig, HardwareContext, StreamParams};
use va_backend::picture::{GenericBackendHandle, SubmitOutcome, SurfaceStatus, SyncOutcome};
use va_backend::Resolution;

fn negotiated_backend() -> VaapiBackend {
    let mut backend = VaapiBackend::new(false);
    let params = StreamParams {
        va_profile: 19,
        rt_format: VA_RT_FORMAT_YUV420,
        min_num_surfaces: 2,
        coded_size: (64, 64),
        visible_rect: ((0, 0), (62, 62)),
    };
    let plan = backend
        .plan_sequence(&params, &vec![VA_FOURCC_NV12])
        .unwrap();
    backend.commit_sequence(&plan, Some((HardwareConfig { id: 1 }, HardwareContext { id: 1 })));
    backend.frame_pool().add_surfaces(vec![0, 1]);
    backend
}

fn submit_one(backend: &mut VaapiBackend, timestamp: u64) -> GenericBackendHandle {
    let lease = backend.frame_pool().get_surface().unwrap();
    backend
        .process_picture(lease, timestamp, SubmitOutcome::Accepted)
        .ok()
        .unwrap()
}

#[test]
fn submitting_before_negotiation_fails() {
    let mut bare = VaapiBackend::new(false);
    bare.frame_pool().set_coded_resolution(Resolution { width: 16, height: 16 });
    bare.frame_pool().add_surfaces(vec![9]);
    let lease = bare.frame_pool().get_surface().unwrap();
    match bare.process_picture(lease, 0, SubmitOutcome::Accepted) {
        Err(SubmitError::NotNegotiated { lease }) => {
            // The lease comes back and can be returned to the pool.
            assert!(lease.release_into(bare.frame_pool()));
        }
        _ => panic!("submission without a context must fail"),
    }
}

#[test]
fn rejected_submission_hands_the_lease_back() {
    let mut backend = negotiated_backend();
    let lease = backend.frame_pool().get_surface().unwrap();
    match backend.process_picture(lease, 0, SubmitOutcome::Rejected) {
        Err(SubmitError::Rejected { lease }) => {
            assert!(lease.release_into(backend.frame_pool()));
            assert_eq!(backend.frame_pool().num_surfaces_left(), 2);
        }
        _ => panic!("a rejected submission must fail"),
    }
}

#[test]
fn pending_picture_polls_then_syncs() {
    // Non-blocking mode: readiness is polled; it is false before the
    // device finishes and true after, and sync then succeeds at once.
    let mut backend = negotiated_backend();
    let mut handle = submit_one(&mut backend, 42);
    assert_eq!(handle.timestamp(), 42);
    assert_eq!(handle.coded_resolution(), Resolution { width: 64, height: 64 });
    assert_eq!(handle.display_resolution(), Resolution { width: 62, height: 62 });
    assert!(handle.picture().is_none());

    assert!(!handle.is_ready(Ok(SurfaceStatus::Busy)));
    assert!(handle.is_ready(Ok(SurfaceStatus::Ready)));

    assert_eq!(handle.sync(SyncOutcome::Finished), Ok(()));
    assert!(handle.picture().is_some());
    assert!(handle.is_ready(Ok(SurfaceStatus::Busy)));
}

#[test]
fn sync_is_idempotent_after_success() {
    // A second sync after success returns the same ready state without
    // consulting the device again: even a failure answer cannot undo it.
    let mut backend = negotiated_backend();
    let mut handle = submit_one(&mut backend, 7);
    assert_eq!(handle.sync(SyncOutcome::Finished), Ok(()));
    assert_eq!(handle.sync(SyncOutcome::Finished), Ok(()));
    assert_eq!(handle.sync(SyncOutcome::Failed), Ok(()));
    assert!(handle.picture().is_some());
}

#[test]
fn failed_sync_reports_and_stays_pending() {
    let mut backend = negotiated_backend();
    let mut handle = submit_one(&mut backend, 7);
    assert_eq!(handle.sync(SyncOutcome::Failed), Err(SyncError::Hardware));
    assert!(handle.picture().is_none());
    // The failure is transient in the state machine: a later success still
    // completes the picture.
    assert_eq!(handle.sync(SyncOutcome::Finished), Ok(()));
    assert!(handle.picture().is_some());
}

#[test]
fn failed_status_query_counts_as_ready() {
    let mut backend = negotiated_backend();
    let handle = submit_one(&mut backend, 7);
    assert!(handle.is_ready(Err(SyncError::Hardware)));
    assert_eq!(handle.is_va_ready(Err(SyncError::Hardware)), Err(SyncError::Hardware));
    assert_eq!(handle.is_va_ready(Ok(SurfaceStatus::Busy)), Ok(false));
}

#[test]
fn mapped_view_needs_a_ready_picture() {
    let mut backend = negotiated_backend();
    let mut handle = submit_one(&mut backend, 7);
    assert_eq!(
        handle.mapped_view_layout(),
        Err(va_backend::picture::MapError::NotReady)
    );
    handle.sync(SyncOutcome::Finished).unwrap();
    let layout = handle.mapped_view_layout().unwrap();
    assert_eq!(layout.fourcc, VA_FOURCC_NV12);
    assert_eq!(layout.coded_resolution, Resolution { width: 64, height: 64 });
    assert_eq!(layout.display_resolution, Resolution { width: 62, height: 62 });
}

#[test]
fn finished_picture_returns_its_surface() {
    let mut backend = negotiated_backend();
    let mut handle = submit_one(&mut backend, 7);
    handle.sync(SyncOutcome::Finished).unwrap();
    let id = handle.surface_id();
    let lease = handle.into_lease();
    assert_eq!(lease.surface().id, id);
    assert!(lease.release_into(backend.frame_pool()));
    assert_eq!(backend.frame_pool().num_surfaces_left(), 2);
}
