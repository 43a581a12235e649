//! Plane layouts of externally allocated frames.
//!
//! A frame handed to the device as external backing memory describes its
//! planes by offset and stride; the device wants them as fixed four-entry
//! arrays, padded with zeroes.

use vstd::prelude::*;

verus! {

/// One plane of an externally allocated frame.
#[derive(Clone, Copy, Debug, PartialEq, Eq, Structural)]
pub struct PlaneLayout {
    /// Byte offset of the plane from the start of the frame's memory.
    pub offset: usize,
    /// Bytes per row of the plane.
    pub stride: usize,
}

/// The strides of up to four planes, zero-padded, as the device's
/// descriptors carry them.
pub fn padded_strides(planes: &Vec<PlaneLayout>) -> (r: [u32; 4])
    ensures
        forall|i: int|
            0 <= i < 4 ==> r@[i] == (if i < planes@.len() {
                planes@[i].stride as u32
            } else {
                0u32
            }),
{
    let mut r: [u32; 4] = [0, 0, 0, 0];
    let mut i: usize = 0;
    while i < 4
        invariant
            i <= 4,
            forall|j: int|
                0 <= j < i ==> r@[j] == (if j < planes@.len() {
                    planes@[j].stride as u32
                } else {
                    0u32
                }),
            forall|j: int| i <= j < 4 ==> r@[j] == 0u32,
        decreases 4 - i,
    {
        if i < planes.len() {
            r[i] = #[verifier::truncate] (planes[i].stride as u32);
        }
        i = i + 1;
    }
    r
}

/// The offsets of up to four planes, zero-padded, as the device's
/// descriptors carry them.
pub fn padded_offsets(planes: &Vec<PlaneLayout>) -> (r: [u32; 4])
    ensures
        forall|i: int|
            0 <= i < 4 ==> r@[i] == (if i < planes@.len() {
                planes@[i].offset as u32
            } else {
                0u32
            }),
{
    let mut r: [u32; 4] = [0, 0, 0, 0];
    let mut i: usize = 0;
    while i < 4
        invariant
            i <= 4,
            forall|j: int|
                0 <= j < i ==> r@[j] == (if j < planes@.len() {
                    planes@[j].offset as u32
                } else {
                    0u32
                }),
            forall|j: int| i <= j < 4 ==> r@[j] == 0u32,
        decreases 4 - i,
    {
        if i < planes.len() {
            r[i] = #[verifier::truncate] (planes[i].offset as u32);
        }
        i = i + 1;
    }
    r
}

} // verus!
