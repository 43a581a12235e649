//! Stream negotiation: layout resolution, context reuse decisions, and the
//! fail-closed error cases.

use va_backend::backend::VaapiBackend;
use va_backend::error::NegotiationError;
use va_backend::format::{
    DecodedFormat, VA_FOURCC_I420, VA_FOURCC_NV12, VA_FOURCC_P010, VA_RT_FORMAT_YUV420,
    VA_RT_FORMAT_YUV420_10,
};
use va_backend::negotiate::{
    finish_open, plan_open, ContextSource, HardwareConfig, HardwareContext, StreamMetadataState,
    StreamParams,
};
use va_backend::pool::SurfacePool;
use va_backend::Resolution;

fn params(rt_format: u32, width: u32, height: u32) -> StreamParams {
    StreamParams {
        va_profile: 19,
        rt_format,
        min_num_surfaces: 4,
        coded_size: (width, height),
        visible_rect: ((0, 0), (width, height)),
    }
}

fn mappable() -> Vec<u32> {
    vec![VA_FOURCC_NV12, VA_FOURCC_I420, VA_FOURCC_P010]
}

fn fresh_hw(id: u64) -> Option<(HardwareConfig, HardwareContext)> {
    Some((HardwareConfig { id }, HardwareContext { id }))
}

#[test]
fn first_sequence_builds_fresh_context() {
    let mut backend = VaapiBackend::new(false);
    assert!(backend.stream_info().is_none());

    let plan = backend
        .plan_sequence(&params(VA_RT_FORMAT_YUV420, 320, 240), &mappable())
        .unwrap();
    assert_eq!(plan.source, ContextSource::Fresh);
    // The first table entry for 8-bit 4:2:0 is the hardware-native
    // biplanar layout.
    assert_eq!(plan.map_fourcc, VA_FOURCC_NV12);
    assert_eq!(plan.decoded_format, DecodedFormat::I420);
    assert_eq!(plan.coded_resolution, Resolution { width: 320, height: 240 });

    backend.commit_sequence(&plan, fresh_hw(1));
    let info = backend.stream_info().unwrap();
    assert_eq!(info.coded_resolution, Resolution { width: 320, height: 240 });
    assert_eq!(info.display_resolution, Resolution { width: 320, height: 240 });
    assert_eq!(info.min_num_frames, 4);
    assert_eq!(info.format, DecodedFormat::I420);
    assert_eq!(
        backend.frame_pool().coded_resolution(),
        Resolution { width: 320, height: 240 }
    );
}

#[test]
fn odd_coded_size_rounds_up_to_even() {
    let backend = VaapiBackend::new(false);
    let plan = backend
        .plan_sequence(&params(VA_RT_FORMAT_YUV420, 321, 239), &mappable())
        .unwrap();
    assert_eq!(plan.coded_resolution, Resolution { width: 322, height: 240 });
    // The display resolution is the visible rectangle, not rounded.
    assert_eq!(plan.display_resolution, Resolution { width: 321, height: 239 });
}

#[test]
fn identical_stream_reuses_context_and_config() {
    // Negotiating twice with identical resolution, pixel-format class and
    // profile keeps the same hardware context and config.
    let mut backend = VaapiBackend::new(false);
    let p = params(VA_RT_FORMAT_YUV420, 320, 240);
    let plan = backend.plan_sequence(&p, &mappable()).unwrap();
    backend.commit_sequence(&plan, fresh_hw(7));

    let second = backend.plan_sequence(&p, &mappable()).unwrap();
    assert_eq!(second.source, ContextSource::Reuse);
    backend.commit_sequence(&second, None);
    // No new hardware objects were needed; the epoch keeps context 7.
    let info = backend.stream_info().unwrap();
    assert_eq!(info.coded_resolution, Resolution { width: 320, height: 240 });
}

#[test]
fn resolution_change_with_reuse_support_keeps_context_and_grows_pool() {
    // With context reuse declared, only the resolution changing keeps the
    // context, and the pool follows the new resolution.
    let mut backend = VaapiBackend::new(true);
    let plan = backend
        .plan_sequence(&params(VA_RT_FORMAT_YUV420, 320, 240), &mappable())
        .unwrap();
    backend.commit_sequence(&plan, fresh_hw(3));
    backend.frame_pool().add_surfaces(vec![0, 1]);
    assert_eq!(backend.frame_pool().num_managed_surfaces(), 2);

    let grown = backend
        .plan_sequence(&params(VA_RT_FORMAT_YUV420, 1920, 1080), &mappable())
        .unwrap();
    assert_eq!(grown.source, ContextSource::Reuse);
    backend.commit_sequence(&grown, None);
    assert_eq!(
        backend.frame_pool().coded_resolution(),
        Resolution { width: 1920, height: 1080 }
    );
    // The old 320x240 surfaces cannot hold the new frames; all purged.
    assert_eq!(backend.frame_pool().num_managed_surfaces(), 0);
    assert_eq!(backend.frame_pool().num_surfaces_left(), 0);
}

#[test]
fn resolution_change_without_reuse_support_needs_fresh_context() {
    let mut backend = VaapiBackend::new(false);
    let plan = backend
        .plan_sequence(&params(VA_RT_FORMAT_YUV420, 320, 240), &mappable())
        .unwrap();
    backend.commit_sequence(&plan, fresh_hw(3));

    let changed = backend
        .plan_sequence(&params(VA_RT_FORMAT_YUV420, 1920, 1080), &mappable())
        .unwrap();
    assert_eq!(changed.source, ContextSource::Fresh);
}

#[test]
fn class_change_needs_fresh_context_even_with_reuse_support() {
    let mut backend = VaapiBackend::new(true);
    let plan = backend
        .plan_sequence(&params(VA_RT_FORMAT_YUV420, 320, 240), &mappable())
        .unwrap();
    backend.commit_sequence(&plan, fresh_hw(3));

    let deeper = backend
        .plan_sequence(&params(VA_RT_FORMAT_YUV420_10, 320, 240), &mappable())
        .unwrap();
    assert_eq!(deeper.source, ContextSource::Fresh);
    assert_eq!(deeper.map_fourcc, VA_FOURCC_P010);
    assert_eq!(deeper.decoded_format, DecodedFormat::I010);
}

#[test]
fn identical_stream_keeps_the_same_context_object() {
    // Observed at the negotiation layer itself: the surviving metadata
    // carries the very context and config of the first epoch.
    let p = params(VA_RT_FORMAT_YUV420, 320, 240);
    let first = plan_open(&p, None, &StreamMetadataState::Unparsed, false, &mappable()).unwrap();
    assert_eq!(first.source, ContextSource::Fresh);
    let pool = SurfacePool::new(
        VA_RT_FORMAT_YUV420,
        None,
        Resolution { width: 16, height: 16 },
    );
    let (state, pool) = finish_open(&first, StreamMetadataState::Unparsed, pool, fresh_hw(7));

    let second = plan_open(&p, None, &state, false, &mappable()).unwrap();
    assert_eq!(second.source, ContextSource::Reuse);
    let (state, _pool) = finish_open(&second, state, pool, None);
    match state {
        StreamMetadataState::Parsed(m) => {
            assert_eq!(m.context, HardwareContext { id: 7 });
            assert_eq!(m.config, HardwareConfig { id: 7 });
        }
        StreamMetadataState::Unparsed => panic!("negotiation must leave a parsed state"),
    }
}

#[test]
fn resolution_change_keeps_context_and_pool_follows() {
    // With context reuse declared and only the resolution changed, the
    // context object survives and the returned pool sits at the new
    // resolution.
    let small = params(VA_RT_FORMAT_YUV420, 320, 240);
    let first = plan_open(&small, None, &StreamMetadataState::Unparsed, true, &mappable())
        .unwrap();
    let pool = SurfacePool::new(
        VA_RT_FORMAT_YUV420,
        None,
        Resolution { width: 16, height: 16 },
    );
    let (state, mut pool) = finish_open(&first, StreamMetadataState::Unparsed, pool, fresh_hw(9));
    pool.add_surfaces(vec![0, 1, 2]);

    let grown = params(VA_RT_FORMAT_YUV420, 1920, 1080);
    let plan = plan_open(&grown, None, &state, true, &mappable()).unwrap();
    assert_eq!(plan.source, ContextSource::Reuse);
    let (state, pool) = finish_open(&plan, state, pool, None);
    match state {
        StreamMetadataState::Parsed(m) => {
            assert_eq!(m.context, HardwareContext { id: 9 });
            assert_eq!(m.stream_info.coded_resolution, Resolution { width: 1920, height: 1080 });
        }
        StreamMetadataState::Unparsed => panic!("negotiation must leave a parsed state"),
    }
    assert_eq!(pool.coded_resolution(), Resolution { width: 1920, height: 1080 });
    assert_eq!(pool.num_managed_surfaces(), 0);
}

#[test]
fn unknown_class_is_rejected() {
    let backend = VaapiBackend::new(false);
    let err = backend
        .plan_sequence(&params(0x8, 320, 240), &mappable())
        .unwrap_err();
    assert_eq!(err, NegotiationError::UnsupportedRtFormat { rt_format: 0x8 });
}

#[test]
fn unmappable_layout_is_rejected() {
    let backend = VaapiBackend::new(false);
    // The driver cannot map the biplanar 4:2:0 layout here.
    let only_p010 = vec![VA_FOURCC_P010];
    let err = backend
        .plan_sequence(&params(VA_RT_FORMAT_YUV420, 320, 240), &only_p010)
        .unwrap_err();
    assert_eq!(err, NegotiationError::UnsupportedFourcc { fourcc: VA_FOURCC_NV12 });
}
