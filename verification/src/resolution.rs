//! Frame resolutions and the containment order the surface pool relies on.

use vstd::prelude::*;

verus! {

/// A frame resolution in pixels.
#[derive(Clone, Copy, Debug, PartialEq, Eq, Structural)]
pub struct Resolution {
    pub width: u32,
    pub height: u32,
}

impl Resolution {
    /// Whether `self` is large enough to hold a frame of resolution `other`
    /// in both dimensions.
    pub open spec fn spec_can_contain(self, other: Resolution) -> bool {
        self.width >= other.width && self.height >= other.height
    }

    /// Whether a surface of resolution `self` can hold a frame of resolution
    /// `other`.
    pub fn can_contain(&self, other: Resolution) -> (r: bool)
        ensures
            r == self.spec_can_contain(other),
    {
        self.width >= other.width && self.height >= other.height
    }

    /// The resolution with both dimensions rounded up to the next even value.
    pub open spec fn spec_round_up_even(self) -> Resolution {
        Resolution {
            width: if self.width % 2 == 1 { (self.width + 1) as u32 } else { self.width },
            height: if self.height % 2 == 1 { (self.height + 1) as u32 } else { self.height },
        }
    }

    /// Rounds both dimensions up to the next even value, as the hardware
    /// decode context requires of coded sizes.
    pub fn round_up_even(&self) -> (r: Resolution)
        requires
            self.width < u32::MAX,
            self.height < u32::MAX,
        ensures
            r == self.spec_round_up_even(),
            r.spec_can_contain(*self),
    {
        Resolution {
            width: if self.width % 2 == 1 { self.width + 1 } else { self.width },
            height: if self.height % 2 == 1 { self.height + 1 } else { self.height },
        }
    }
}

} // verus!
