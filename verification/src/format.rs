//! Pixel-format classes, decoded formats, and the mapping between them.
//!
//! A pixel-format class is carried as the device's `VA_RT_FORMAT_*` value: a
//! grouping of chroma subsampling and bit depth that determines which output
//! layouts the hardware can map a decoded surface into.

use vstd::prelude::*;
use crate::error::NegotiationError;
use vstd::string::StringExecFns;

verus! {

/// 8-bit 4:2:0 class.
pub const VA_RT_FORMAT_YUV420: u32 = 0x1;
/// 8-bit 4:2:2 class.
pub const VA_RT_FORMAT_YUV422: u32 = 0x2;
/// 8-bit 4:4:4 class.
pub const VA_RT_FORMAT_YUV444: u32 = 0x4;
/// 10-bit 4:2:0 class.
pub const VA_RT_FORMAT_YUV420_10: u32 = 0x100;
/// 10-bit 4:2:2 class.
pub const VA_RT_FORMAT_YUV422_10: u32 = 0x200;
/// 10-bit 4:4:4 class.
pub const VA_RT_FORMAT_YUV444_10: u32 = 0x400;
/// 12-bit 4:2:0 class.
pub const VA_RT_FORMAT_YUV420_12: u32 = 0x1000;
/// 12-bit 4:2:2 class.
pub const VA_RT_FORMAT_YUV422_12: u32 = 0x2000;
/// 12-bit 4:4:4 class.
pub const VA_RT_FORMAT_YUV444_12: u32 = 0x4000;

/// The value a device reports for a configuration attribute it does not
/// support at all.
pub const VA_ATTRIB_NOT_SUPPORTED: u32 = 0x80000000;

/// Hardware-native biplanar 8-bit 4:2:0.
pub const VA_FOURCC_NV12: u32 = 0x3231564E;
/// Planar 8-bit 4:2:0.
pub const VA_FOURCC_I420: u32 = 0x30323449;
/// Planar 8-bit 4:2:2.
pub const VA_FOURCC_422H: u32 = 0x48323234;
/// Planar 8-bit 4:4:4.
pub const VA_FOURCC_444P: u32 = 0x50343434;
/// Biplanar 10-bit 4:2:0, most-significant bits valid.
pub const VA_FOURCC_P010: u32 = 0x30313050;
/// Biplanar 12-bit 4:2:0, most-significant bits valid.
pub const VA_FOURCC_P012: u32 = 0x32313050;
/// Packed 10-bit 4:2:2, most-significant bits valid.
pub const VA_FOURCC_Y210: u32 = 0x30313259;
/// Packed 12-bit 4:2:2, most-significant bits valid.
pub const VA_FOURCC_Y212: u32 = 0x32313259;
/// Packed 10-bit 4:4:4 with alpha.
pub const VA_FOURCC_Y410: u32 = 0x30313459;
/// Packed 12-bit 4:4:4 with alpha.
pub const VA_FOURCC_Y412: u32 = 0x32313459;

/// A canonical planar output layout: tightly packed, row-major planes with
/// the least-significant bits of each sample valid.
#[derive(Clone, Copy, Debug, PartialEq, Eq, Hash, Structural)]
pub enum DecodedFormat {
    /// Planar 8-bit 4:2:0.
    I420,
    /// Biplanar 8-bit 4:2:0.
    NV12,
    /// Planar 8-bit 4:2:2.
    I422,
    /// Planar 8-bit 4:4:4.
    I444,
    /// Planar 10-bit 4:2:0.
    I010,
    /// Planar 12-bit 4:2:0.
    I012,
    /// Planar 10-bit 4:2:2.
    I210,
    /// Planar 12-bit 4:2:2.
    I212,
    /// Planar 10-bit 4:4:4.
    I410,
    /// Planar 12-bit 4:4:4.
    I412,
}

/// One row of the static priority table: a pixel-format class, the
/// hardware-native layout the device maps it to, and the canonical decoded
/// format that layout normalizes into.
#[derive(Clone, Copy, Debug, PartialEq, Eq, Hash, Structural)]
pub struct FormatMap {
    pub rt_format: u32,
    pub va_fourcc: u32,
    pub decoded_format: DecodedFormat,
}

/// The static priority table mapping each pixel-format class to compatible
/// decoded formats, most preferred first.
pub open spec fn spec_format_map() -> Seq<FormatMap> {
    seq![
        FormatMap { rt_format: VA_RT_FORMAT_YUV420, va_fourcc: VA_FOURCC_NV12, decoded_format: DecodedFormat::NV12 },
        FormatMap { rt_format: VA_RT_FORMAT_YUV420, va_fourcc: VA_FOURCC_I420, decoded_format: DecodedFormat::I420 },
        FormatMap { rt_format: VA_RT_FORMAT_YUV422, va_fourcc: VA_FOURCC_422H, decoded_format: DecodedFormat::I422 },
        FormatMap { rt_format: VA_RT_FORMAT_YUV444, va_fourcc: VA_FOURCC_444P, decoded_format: DecodedFormat::I444 },
        FormatMap { rt_format: VA_RT_FORMAT_YUV420_10, va_fourcc: VA_FOURCC_P010, decoded_format: DecodedFormat::I010 },
        FormatMap { rt_format: VA_RT_FORMAT_YUV420_12, va_fourcc: VA_FOURCC_P012, decoded_format: DecodedFormat::I012 },
        FormatMap { rt_format: VA_RT_FORMAT_YUV422_10, va_fourcc: VA_FOURCC_Y210, decoded_format: DecodedFormat::I210 },
        FormatMap { rt_format: VA_RT_FORMAT_YUV422_12, va_fourcc: VA_FOURCC_Y212, decoded_format: DecodedFormat::I212 },
        FormatMap { rt_format: VA_RT_FORMAT_YUV444_10, va_fourcc: VA_FOURCC_Y410, decoded_format: DecodedFormat::I410 },
        FormatMap { rt_format: VA_RT_FORMAT_YUV444_12, va_fourcc: VA_FOURCC_Y412, decoded_format: DecodedFormat::I412 },
    ]
}

/// The priority table as a vector, for iteration by executable code.
pub fn format_map() -> (r: Vec<FormatMap>)
    ensures
        r@ == spec_format_map(),
{
    let mut v: Vec<FormatMap> = Vec::new();
    v.push(FormatMap { rt_format: VA_RT_FORMAT_YUV420, va_fourcc: VA_FOURCC_NV12, decoded_format: DecodedFormat::NV12 });
    v.push(FormatMap { rt_format: VA_RT_FORMAT_YUV420, va_fourcc: VA_FOURCC_I420, decoded_format: DecodedFormat::I420 });
    v.push(FormatMap { rt_format: VA_RT_FORMAT_YUV422, va_fourcc: VA_FOURCC_422H, decoded_format: DecodedFormat::I422 });
    v.push(FormatMap { rt_format: VA_RT_FORMAT_YUV444, va_fourcc: VA_FOURCC_444P, decoded_format: DecodedFormat::I444 });
    v.push(FormatMap { rt_format: VA_RT_FORMAT_YUV420_10, va_fourcc: VA_FOURCC_P010, decoded_format: DecodedFormat::I010 });
    v.push(FormatMap { rt_format: VA_RT_FORMAT_YUV420_12, va_fourcc: VA_FOURCC_P012, decoded_format: DecodedFormat::I012 });
    v.push(FormatMap { rt_format: VA_RT_FORMAT_YUV422_10, va_fourcc: VA_FOURCC_Y210, decoded_format: DecodedFormat::I210 });
    v.push(FormatMap { rt_format: VA_RT_FORMAT_YUV422_12, va_fourcc: VA_FOURCC_Y212, decoded_format: DecodedFormat::I212 });
    v.push(FormatMap { rt_format: VA_RT_FORMAT_YUV444_10, va_fourcc: VA_FOURCC_Y410, decoded_format: DecodedFormat::I410 });
    v.push(FormatMap { rt_format: VA_RT_FORMAT_YUV444_12, va_fourcc: VA_FOURCC_Y412, decoded_format: DecodedFormat::I412 });
    proof {
        assert(v@ =~= spec_format_map());
    }
    v
}

/// Whether `rt_format` is one of the pixel-format classes this backend knows.
pub open spec fn is_known_rt_format(rt_format: u32) -> bool {
    ||| rt_format == VA_RT_FORMAT_YUV420
    ||| rt_format == VA_RT_FORMAT_YUV422
    ||| rt_format == VA_RT_FORMAT_YUV444
    ||| rt_format == VA_RT_FORMAT_YUV420_10
    ||| rt_format == VA_RT_FORMAT_YUV420_12
    ||| rt_format == VA_RT_FORMAT_YUV422_10
    ||| rt_format == VA_RT_FORMAT_YUV422_12
    ||| rt_format == VA_RT_FORMAT_YUV444_10
    ||| rt_format == VA_RT_FORMAT_YUV444_12
}

/// Whether `rt_format` is one of the pixel-format classes this backend
/// knows; the decidable twin of [`is_known_rt_format`].
pub fn known_rt_format(rt_format: u32) -> (r: bool)
    ensures
        r == is_known_rt_format(rt_format),
{
    rt_format == VA_RT_FORMAT_YUV420 || rt_format == VA_RT_FORMAT_YUV422 || rt_format
        == VA_RT_FORMAT_YUV444 || rt_format == VA_RT_FORMAT_YUV420_10 || rt_format
        == VA_RT_FORMAT_YUV420_12 || rt_format == VA_RT_FORMAT_YUV422_10 || rt_format
        == VA_RT_FORMAT_YUV422_12 || rt_format == VA_RT_FORMAT_YUV444_10 || rt_format
        == VA_RT_FORMAT_YUV444_12
}

/// One decimal digit as text.
pub open spec fn spec_decimal_digit(d: nat) -> Seq<char> {
    if d == 0 { "0"@ }
    else if d == 1 { "1"@ }
    else if d == 2 { "2"@ }
    else if d == 3 { "3"@ }
    else if d == 4 { "4"@ }
    else if d == 5 { "5"@ }
    else if d == 6 { "6"@ }
    else if d == 7 { "7"@ }
    else if d == 8 { "8"@ }
    else { "9"@ }
}

/// The decimal digits of `n`, most significant first.
pub open spec fn spec_u32_decimal(n: nat) -> Seq<char>
    decreases n,
{
    if n < 10 {
        spec_decimal_digit(n)
    } else {
        spec_u32_decimal(n / 10) + spec_decimal_digit(n % 10)
    }
}

/// Appends the decimal digits of `n` to `s`.
fn append_u32_decimal(s: &mut String, n: u32)
    ensures
        final(s)@ == old(s)@ + spec_u32_decimal(n as nat),
    decreases n,
{
    if n >= 10 {
        append_u32_decimal(s, n / 10);
    }
    let ghost mid = s@;
    let d = n % 10;
    let digit: &str = if d == 0 { "0" }
    else if d == 1 { "1" }
    else if d == 2 { "2" }
    else if d == 3 { "3" }
    else if d == 4 { "4" }
    else if d == 5 { "5" }
    else if d == 6 { "6" }
    else if d == 7 { "7" }
    else { "8" };
    let digit: &str = if d == 9 { "9" } else { digit };
    s.append(digit);
    proof {
        assert(digit@ == spec_decimal_digit((n % 10) as nat));
        if n >= 10 {
            assert(s@ =~= old(s)@ + spec_u32_decimal(n as nat));
        } else {
            assert((n % 10) as nat == n as nat);
        }
    }
}

/// The name of a pixel-format class, in spec form; an unknown value is
/// reported with the value itself.
pub open spec fn spec_rt_format_name(rt_format: u32) -> Seq<char> {
    if rt_format == VA_RT_FORMAT_YUV420 { "YUV420"@ }
    else if rt_format == VA_RT_FORMAT_YUV422 { "YUV422"@ }
    else if rt_format == VA_RT_FORMAT_YUV444 { "YUV444"@ }
    else if rt_format == VA_RT_FORMAT_YUV420_10 { "YUV420_10"@ }
    else if rt_format == VA_RT_FORMAT_YUV420_12 { "YUV420_12"@ }
    else if rt_format == VA_RT_FORMAT_YUV422_10 { "YUV422_10"@ }
    else if rt_format == VA_RT_FORMAT_YUV422_12 { "YUV422_12"@ }
    else if rt_format == VA_RT_FORMAT_YUV444_10 { "YUV444_10"@ }
    else if rt_format == VA_RT_FORMAT_YUV444_12 { "YUV444_12"@ }
    else { "unknown VA rt_format "@ + spec_u32_decimal(rt_format as nat) }
}

/// A diagnostic name for a pixel-format class value; an unknown value is
/// named by its decimal digits.
pub fn va_rt_format_to_string(va_rt_format: u32) -> (r: String)
    ensures
        r@ == spec_rt_format_name(va_rt_format),
{
    let s: &str = if va_rt_format == VA_RT_FORMAT_YUV420 { "YUV420" }
    else if va_rt_format == VA_RT_FORMAT_YUV422 { "YUV422" }
    else if va_rt_format == VA_RT_FORMAT_YUV444 { "YUV444" }
    else if va_rt_format == VA_RT_FORMAT_YUV420_10 { "YUV420_10" }
    else if va_rt_format == VA_RT_FORMAT_YUV420_12 { "YUV420_12" }
    else if va_rt_format == VA_RT_FORMAT_YUV422_10 { "YUV422_10" }
    else if va_rt_format == VA_RT_FORMAT_YUV422_12 { "YUV422_12" }
    else if va_rt_format == VA_RT_FORMAT_YUV444_10 { "YUV444_10" }
    else if va_rt_format == VA_RT_FORMAT_YUV444_12 { "YUV444_12" }
    else {
        let mut out = "unknown VA rt_format ".to_owned();
        append_u32_decimal(&mut out, va_rt_format);
        return out;
    };
    s.to_owned()
}

/// The canonical decoded format a known pixel-format class normalizes into
/// when the hardware picks the surface's internal layout itself.
pub fn decoded_format_for_rt_format(rt_format: u32) -> (r: DecodedFormat)
    requires
        is_known_rt_format(rt_format),
    ensures
        r == spec_decoded_format_for_rt_format(rt_format),
{
    if rt_format == VA_RT_FORMAT_YUV420 { DecodedFormat::I420 }
    else if rt_format == VA_RT_FORMAT_YUV422 { DecodedFormat::I422 }
    else if rt_format == VA_RT_FORMAT_YUV444 { DecodedFormat::I444 }
    else if rt_format == VA_RT_FORMAT_YUV420_10 { DecodedFormat::I010 }
    else if rt_format == VA_RT_FORMAT_YUV420_12 { DecodedFormat::I012 }
    else if rt_format == VA_RT_FORMAT_YUV422_10 { DecodedFormat::I210 }
    else if rt_format == VA_RT_FORMAT_YUV422_12 { DecodedFormat::I212 }
    else if rt_format == VA_RT_FORMAT_YUV444_10 { DecodedFormat::I410 }
    else { DecodedFormat::I412 }
}

/// Spec twin of [`decoded_format_for_rt_format`].
pub open spec fn spec_decoded_format_for_rt_format(rt_format: u32) -> DecodedFormat {
    if rt_format == VA_RT_FORMAT_YUV420 { DecodedFormat::I420 }
    else if rt_format == VA_RT_FORMAT_YUV422 { DecodedFormat::I422 }
    else if rt_format == VA_RT_FORMAT_YUV444 { DecodedFormat::I444 }
    else if rt_format == VA_RT_FORMAT_YUV420_10 { DecodedFormat::I010 }
    else if rt_format == VA_RT_FORMAT_YUV420_12 { DecodedFormat::I012 }
    else if rt_format == VA_RT_FORMAT_YUV422_10 { DecodedFormat::I210 }
    else if rt_format == VA_RT_FORMAT_YUV422_12 { DecodedFormat::I212 }
    else if rt_format == VA_RT_FORMAT_YUV444_10 { DecodedFormat::I410 }
    else { DecodedFormat::I412 }
}

/// The entries of the priority table whose class is `rt_format` and whose
/// hardware layout appears among the driver's mappable image formats.
pub open spec fn spec_supported_entries(rt_format: u32, fourccs: Seq<u32>) -> Seq<FormatMap> {
    spec_format_map().filter(
        |e: FormatMap| e.rt_format == rt_format && fourccs.contains(e.va_fourcc),
    )
}

/// Whether `x` occurs in `v`.
pub(crate) fn contains_u32(v: &Vec<u32>, x: u32) -> (r: bool)
    ensures
        r == v@.contains(x),
{
    let mut i: usize = 0;
    while i < v.len()
        invariant
            i <= v@.len(),
            forall|j: int| 0 <= j < i ==> v@[j] != x,
        decreases v@.len() - i,
    {
        if v[i] == x {
            proof {
                assert(v@[i as int] == x);
            }
            return true;
        }
        i = i + 1;
    }
    false
}

/// The decoded formats the hardware supports for a stream of class
/// `rt_format`, given the device's answers: the configuration attribute
/// value it reported for this profile and entrypoint, and the fourccs of the
/// image formats it can map into.
///
/// Fails exactly when the device reported the class unsupported: the
/// attribute is the not-supported marker or its bits do not cover
/// `rt_format`.
pub fn supported_formats_for_rt_format(
    rt_format: u32,
    attrib_value: u32,
    image_format_fourccs: &Vec<u32>,
) -> (r: Result<Vec<FormatMap>, NegotiationError>)
    ensures
        r is Err <==> (attrib_value == VA_ATTRIB_NOT_SUPPORTED || attrib_value & rt_format == 0),
        r matches Err(e) ==> e == (NegotiationError::UnsupportedRtFormat { rt_format }),
        r matches Ok(v) ==> v@ == spec_supported_entries(rt_format, image_format_fourccs@),
{
    if attrib_value == VA_ATTRIB_NOT_SUPPORTED || attrib_value & rt_format == 0 {
        return Err(NegotiationError::UnsupportedRtFormat { rt_format });
    }

    let ghost pred = |e: FormatMap| e.rt_format == rt_format
        && image_format_fourccs@.contains(e.va_fourcc);
    let table = format_map();
    let mut out: Vec<FormatMap> = Vec::new();
    let mut i: usize = 0;
    while i < table.len()
        invariant
            table@ == spec_format_map(),
            i <= table@.len(),
            pred == (|e: FormatMap| e.rt_format == rt_format
                && image_format_fourccs@.contains(e.va_fourcc)),
            out@ == spec_format_map().take(i as int).filter(pred),
        decreases table@.len() - i,
    {
        let entry = table[i];
        let keep = entry.rt_format == rt_format
            && contains_u32(image_format_fourccs, entry.va_fourcc);
        if keep {
            out.push(entry);
        }
        proof {
            reveal(Seq::filter);
            let taken = spec_format_map().take(i as int + 1);
            assert(taken.drop_last() =~= spec_format_map().take(i as int));
            assert(taken.last() == entry);
        }
        i = i + 1;
    }
    proof {
        assert(spec_format_map().take(table@.len() as int) =~= spec_format_map());
    }
    Ok(out)
}

/// The first priority-table entry whose decoded format is `format`,
/// scanning from the front of `t`.
pub open spec fn spec_entry_rec_for_format(t: Seq<FormatMap>, format: DecodedFormat) -> Option<
    FormatMap,
>
    decreases t.len(),
{
    if t.len() == 0 {
        None
    } else if t[0].decoded_format == format {
        Some(t[0])
    } else {
        spec_entry_rec_for_format(t.drop_first(), format)
    }
}

/// The priority-table entry for a decoded format, if the table has one.
pub open spec fn spec_entry_for_format(format: DecodedFormat) -> Option<FormatMap> {
    spec_entry_rec_for_format(spec_format_map(), format)
}

/// An entry found by the scan really is a table entry for its format.
pub(crate) proof fn lemma_entry_for_format_in_table(t: Seq<FormatMap>, format: DecodedFormat)
    ensures
        spec_entry_rec_for_format(t, format) matches Some(fm) ==> t.contains(fm)
            && fm.decoded_format == format,
    decreases t.len(),
{
    if t.len() > 0 && t[0].decoded_format != format {
        lemma_entry_for_format_in_table(t.drop_first(), format);
        let rest = spec_entry_rec_for_format(t.drop_first(), format);
        if rest is Some {
            let fm = rest->Some_0;
            let i = choose|i: int| 0 <= i < t.drop_first().len() && t.drop_first()[i] == fm;
            assert(t[i + 1] == fm);
        }
    }
}

/// Where some entry of `t` carries the format, the scan finds one.
pub(crate) proof fn lemma_entry_for_format_found(t: Seq<FormatMap>, format: DecodedFormat, i: int)
    requires
        0 <= i < t.len(),
        t[i].decoded_format == format,
    ensures
        spec_entry_rec_for_format(t, format) is Some,
    decreases t.len(),
{
    if t[0].decoded_format != format {
        assert(t.drop_first()[i - 1] == t[i]);
        lemma_entry_for_format_found(t.drop_first(), format, i - 1);
    }
}

/// Finds the priority-table entry for a decoded format.
pub fn entry_for_format(format: DecodedFormat) -> (r: Option<FormatMap>)
    ensures
        r == spec_entry_for_format(format),
{
    let table = format_map();
    proof {
        assert(table@.skip(0) =~= table@);
    }
    let mut i: usize = 0;
    while i < table.len()
        invariant
            table@ == spec_format_map(),
            i <= table@.len(),
            spec_entry_rec_for_format(table@.skip(i as int), format) == spec_entry_for_format(
                format,
            ),
        decreases table@.len() - i,
    {
        let entry = table[i];
        proof {
            assert(table@.skip(i as int)[0] == entry);
        }
        if entry.decoded_format == format {
            return Some(entry);
        }
        proof {
            assert(table@.skip(i as int).drop_first() =~= table@.skip(i as int + 1));
        }
        i = i + 1;
    }
    proof {
        assert(table@.skip(table@.len() as int).len() == 0);
    }
    None
}

/// The canonical decoded format a mapped image with the given hardware
/// fourcc reads out as, if the backend can normalize that layout.
pub fn decoded_format_from_fourcc(fourcc: u32) -> (r: Option<DecodedFormat>)
    ensures
        r == spec_decoded_format_from_fourcc(fourcc),
{
    if fourcc == VA_FOURCC_I420 { Some(DecodedFormat::I420) }
    else if fourcc == VA_FOURCC_NV12 { Some(DecodedFormat::NV12) }
    else if fourcc == VA_FOURCC_P010 { Some(DecodedFormat::I010) }
    else if fourcc == VA_FOURCC_P012 { Some(DecodedFormat::I012) }
    else if fourcc == VA_FOURCC_Y210 { Some(DecodedFormat::I210) }
    else if fourcc == VA_FOURCC_Y212 { Some(DecodedFormat::I212) }
    else if fourcc == VA_FOURCC_Y410 { Some(DecodedFormat::I410) }
    else if fourcc == VA_FOURCC_Y412 { Some(DecodedFormat::I412) }
    else { None }
}

/// Spec twin of [`decoded_format_from_fourcc`].
pub open spec fn spec_decoded_format_from_fourcc(fourcc: u32) -> Option<DecodedFormat> {
    if fourcc == VA_FOURCC_I420 { Some(DecodedFormat::I420) }
    else if fourcc == VA_FOURCC_NV12 { Some(DecodedFormat::NV12) }
    else if fourcc == VA_FOURCC_P010 { Some(DecodedFormat::I010) }
    else if fourcc == VA_FOURCC_P012 { Some(DecodedFormat::I012) }
    else if fourcc == VA_FOURCC_Y210 { Some(DecodedFormat::I210) }
    else if fourcc == VA_FOURCC_Y212 { Some(DecodedFormat::I212) }
    else if fourcc == VA_FOURCC_Y410 { Some(DecodedFormat::I410) }
    else if fourcc == VA_FOURCC_Y412 { Some(DecodedFormat::I412) }
    else { None }
}

} // verus!
