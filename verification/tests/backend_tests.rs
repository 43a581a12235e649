//! The facade operations the external codec state machine consumes.

use va_backend::backend::VaapiBackend;
use va_backend::error::NegotiationError;
use va_backend::format::{
    DecodedFormat, VA_ATTRIB_NOT_SUPPORTED, VA_FOURCC_I420, VA_FOURCC_NV12, VA_RT_FORMAT_YUV420,
};
use va_backend::negotiate::{ContextSource, HardwareConfig, HardwareContext, StreamParams};

fn base_params() -> StreamParams {
    StreamParams {
        va_profile: 19,
        rt_format: VA_RT_FORMAT_YUV420,
        min_num_surfaces: 4,
        coded_size: (320, 240),
        visible_rect: ((0, 0), (320, 240)),
    }
}

fn mappable_fourccs() -> Vec<u32> {
    vec![VA_FOURCC_NV12, VA_FOURCC_I420]
}

fn negotiated() -> VaapiBackend {
    let mut backend = VaapiBackend::new(false);
    let plan = backend.plan_sequence(&base_params(), &mappable_fourccs()).unwrap();
    backend.commit_sequence(&plan, Some((HardwareConfig { id: 5 }, HardwareContext { id: 5 })));
    backend
}

#[test]
fn stream_info_needs_a_negotiation() {
    let backend = VaapiBackend::new(false);
    assert!(backend.stream_info().is_none());
    let backend = negotiated();
    assert!(backend.stream_info().is_some());
}

#[test]
fn supported_formats_follow_the_stream_class() {
    let backend = negotiated();
    let formats = backend
        .supported_formats_for_stream(VA_RT_FORMAT_YUV420, &mappable_fourccs())
        .unwrap();
    assert_eq!(formats, vec![DecodedFormat::NV12, DecodedFormat::I420]);

    let only_i420 = vec![VA_FOURCC_I420];
    let formats = backend
        .supported_formats_for_stream(VA_RT_FORMAT_YUV420, &only_i420)
        .unwrap();
    assert_eq!(formats, vec![DecodedFormat::I420]);
}

#[test]
fn supported_formats_need_a_negotiation() {
    let backend = VaapiBackend::new(false);
    let err = backend
        .supported_formats_for_stream(VA_RT_FORMAT_YUV420, &mappable_fourccs())
        .unwrap_err();
    assert_eq!(err, NegotiationError::NotNegotiated);
}

#[test]
fn try_format_targets_the_requested_layout() {
    let mut backend = negotiated();
    let plan = backend
        .plan_try_format(&base_params(), DecodedFormat::I420, VA_RT_FORMAT_YUV420, &mappable_fourccs())
        .unwrap();
    assert_eq!(plan.map_fourcc, VA_FOURCC_I420);
    // Nothing but the target layout changed, so the context is kept.
    assert_eq!(plan.source, ContextSource::Reuse);
    backend.commit_sequence(&plan, None);
    assert_eq!(backend.stream_info().unwrap().format, DecodedFormat::I420);
}

#[test]
fn try_format_rejects_formats_the_stream_cannot_give() {
    let backend = negotiated();
    let err = backend
        .plan_try_format(&base_params(), DecodedFormat::I010, VA_RT_FORMAT_YUV420, &mappable_fourccs())
        .unwrap_err();
    assert_eq!(
        err,
        NegotiationError::UnsupportedDecodedFormat { format: DecodedFormat::I010 }
    );
    // A failed attempt leaves the prior state untouched.
    assert_eq!(backend.stream_info().unwrap().format, DecodedFormat::I420);
}

#[test]
fn try_format_fails_closed_without_device_support() {
    let backend = negotiated();
    let err = backend
        .plan_try_format(&base_params(), DecodedFormat::I420, VA_ATTRIB_NOT_SUPPORTED, &mappable_fourccs())
        .unwrap_err();
    assert_eq!(
        err,
        NegotiationError::UnsupportedRtFormat { rt_format: VA_RT_FORMAT_YUV420 }
    );

    let bare = VaapiBackend::new(false);
    let err = bare
        .plan_try_format(&base_params(), DecodedFormat::I420, VA_RT_FORMAT_YUV420, &mappable_fourccs())
        .unwrap_err();
    assert_eq!(err, NegotiationError::NotNegotiated);
}
