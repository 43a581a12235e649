//! The pixel-format tables and device-capability queries.

use va_backend::decoder::{BlockingMode, StatelessDecoder};
use va_backend::error::NegotiationError;
use va_backend::format::{
    decoded_format_from_fourcc, entry_for_format, format_map, supported_formats_for_rt_format,
    va_rt_format_to_string, DecodedFormat, VA_ATTRIB_NOT_SUPPORTED, VA_FOURCC_I420,
    VA_FOURCC_NV12, VA_FOURCC_P010, VA_FOURCC_Y212, VA_RT_FORMAT_YUV420, VA_RT_FORMAT_YUV420_10,
    VA_RT_FORMAT_YUV444_12,
};

#[test]
fn class_names_are_exact() {
    assert_eq!(va_rt_format_to_string(VA_RT_FORMAT_YUV420), "YUV420");
    assert_eq!(va_rt_format_to_string(VA_RT_FORMAT_YUV420_10), "YUV420_10");
    assert_eq!(va_rt_format_to_string(VA_RT_FORMAT_YUV444_12), "YUV444_12");
    // An unknown class is reported with its value, in decimal.
    assert_eq!(va_rt_format_to_string(0x12345), "unknown VA rt_format 74565");
    assert_eq!(va_rt_format_to_string(0), "unknown VA rt_format 0");
}

#[test]
fn fourccs_map_to_decoded_formats() {
    assert_eq!(decoded_format_from_fourcc(VA_FOURCC_NV12), Some(DecodedFormat::NV12));
    assert_eq!(decoded_format_from_fourcc(VA_FOURCC_P010), Some(DecodedFormat::I010));
    assert_eq!(decoded_format_from_fourcc(VA_FOURCC_Y212), Some(DecodedFormat::I212));
    assert_eq!(decoded_format_from_fourcc(0xDEAD), None);
}

#[test]
fn priority_table_prefers_native_layouts() {
    let table = format_map();
    assert_eq!(table.len(), 10);
    // For 8-bit 4:2:0 the hardware-native biplanar layout comes first.
    assert_eq!(table[0].va_fourcc, VA_FOURCC_NV12);
    assert_eq!(table[1].va_fourcc, VA_FOURCC_I420);
    let entry = entry_for_format(DecodedFormat::I420).unwrap();
    assert_eq!(entry.va_fourcc, VA_FOURCC_I420);
    assert_eq!(entry.rt_format, VA_RT_FORMAT_YUV420);
}

#[test]
fn supported_formats_respect_the_device() {
    // The device supports the class and maps only the planar layout.
    let mappable = vec![VA_FOURCC_I420];
    let entries =
        supported_formats_for_rt_format(VA_RT_FORMAT_YUV420, VA_RT_FORMAT_YUV420, &mappable)
            .unwrap();
    assert_eq!(entries.len(), 1);
    assert_eq!(entries[0].decoded_format, DecodedFormat::I420);
}

#[test]
fn unsupported_attribute_rejects_the_class() {
    let mappable = vec![VA_FOURCC_I420, VA_FOURCC_NV12];
    let err = supported_formats_for_rt_format(
        VA_RT_FORMAT_YUV420,
        VA_ATTRIB_NOT_SUPPORTED,
        &mappable,
    )
    .unwrap_err();
    assert_eq!(
        err,
        NegotiationError::UnsupportedRtFormat { rt_format: VA_RT_FORMAT_YUV420 }
    );
    // An attribute whose bits miss the class rejects it too.
    let err = supported_formats_for_rt_format(VA_RT_FORMAT_YUV420_10, 0x1, &mappable)
        .unwrap_err();
    assert_eq!(
        err,
        NegotiationError::UnsupportedRtFormat { rt_format: VA_RT_FORMAT_YUV420_10 }
    );
}

#[test]
fn dummy_decoder_carries_its_mode() {
    let decoder = StatelessDecoder::new_dummy(BlockingMode::NonBlocking);
    assert_eq!(decoder.blocking_mode, BlockingMode::NonBlocking);
    let mut decoder = StatelessDecoder::new_dummy(BlockingMode::Blocking);
    assert_eq!(decoder.blocking_mode, BlockingMode::Blocking);
    assert!(decoder.backend.new_sequence().is_ok());
    assert!(decoder.backend.submit_picture().is_ok());
}
