//! The per-picture completion state machine.
//!
//! A submitted picture is `Pending` until the device confirms completion,
//! then `Ready`, irreversibly. The transition happens in place; a transient
//! `Invalid` placeholder exists only so the state can be moved out during
//! the replace, and is never observable from outside.

use vstd::prelude::*;
use crate::error::SyncError;
use crate::negotiate::ParsedStreamMetadata;
use crate::pool::{PooledSurface, Surface};
use crate::resolution::Resolution;

verus! {

/// What the device answered when a pending picture was synchronized.
#[derive(Clone, Copy, Debug, PartialEq, Eq, Structural)]
pub enum SyncOutcome {
    /// Decoding finished; the surface holds the picture.
    Finished,
    /// The device reported a completion failure; the data is undefined.
    Failed,
}

/// The status the device reports for a surface under a non-blocking query.
#[derive(Clone, Copy, Debug, PartialEq, Eq, Structural)]
pub enum SurfaceStatus {
    /// All operations on the surface have completed.
    Ready,
    /// The device is still working on the surface.
    Busy,
}

/// What the device answered when a picture was submitted to it (the begin,
/// render and end steps taken together).
#[derive(Clone, Copy, Debug, PartialEq, Eq, Structural)]
pub enum SubmitOutcome {
    /// The submission was accepted; decoding proceeds asynchronously.
    Accepted,
    /// The device refused the submission.
    Rejected,
}

/// Mapping a picture for reading failed.
#[derive(Clone, Copy, Debug, PartialEq, Eq, Structural)]
pub enum MapError {
    /// The picture has not been synchronized; reading it is not safe.
    NotReady,
}

/// The layout a ready picture's mapped view is produced with.
#[derive(Clone, Copy, Debug, PartialEq, Eq, Structural)]
pub struct MappedViewLayout {
    /// The fourcc of the layout the device maps the surface into.
    pub fourcc: u32,
    /// The resolution the picture was decoded at.
    pub coded_resolution: Resolution,
    /// The visible part, which a read returns.
    pub display_resolution: Resolution,
}

/// Rendering state of a submitted picture.
enum PictureState {
    /// Synchronized; safe to read.
    Ready(PooledSurface),
    /// Submitted, not yet known complete; unsafe to read.
    Pending(PooledSurface),
    /// Placeholder installed only while the state is moved out during the
    /// pending-to-ready replace.
    Invalid,
}

/// One submitted decode operation and its leased target surface.
pub struct GenericBackendHandle {
    state: PictureState,
    /// The decoder resolution when this picture was processed.
    coded_resolution: Resolution,
    /// Actual resolution of the visible rectangle in the decoded buffer.
    display_resolution: Resolution,
    /// The fourcc of the image format its surface is mapped with.
    map_format: u32,
    /// The timestamp the picture was submitted under.
    timestamp: u64,
}

impl GenericBackendHandle {
    /// Whether the picture has been synchronized.
    pub closed spec fn spec_is_ready(self) -> bool {
        self.state is Ready
    }

    /// Whether the picture is still awaiting completion.
    pub closed spec fn spec_is_pending(self) -> bool {
        self.state is Pending
    }

    /// A handle is always pending or ready; the transient placeholder never
    /// escapes a method.
    pub open spec fn wf(self) -> bool {
        self.spec_is_ready() || self.spec_is_pending()
    }

    /// The lease on the picture's target surface.
    pub closed spec fn spec_lease(self) -> PooledSurface {
        match self.state {
            PictureState::Ready(l) => l,
            PictureState::Pending(l) => l,
            PictureState::Invalid => arbitrary(),
        }
    }

    /// The picture's target surface.
    pub open spec fn spec_surface(self) -> Surface {
        self.spec_lease().spec_surface()
    }

    /// The timestamp the picture was submitted under.
    pub closed spec fn spec_timestamp(self) -> u64 {
        self.timestamp
    }

    /// The decoder resolution when this picture was processed.
    pub closed spec fn spec_coded_resolution(self) -> Resolution {
        self.coded_resolution
    }

    /// The resolution of the picture's visible rectangle.
    pub closed spec fn spec_display_resolution(self) -> Resolution {
        self.display_resolution
    }

    /// The fourcc the picture's surface is mapped with.
    pub closed spec fn spec_map_format(self) -> u32 {
        self.map_format
    }

    /// Submits a picture: the leased target surface and a timestamp, under
    /// the current stream metadata. The device's answer to the submission
    /// enters as `outcome`; on rejection the lease is handed back untouched.
    pub fn new(
        surface: PooledSurface,
        timestamp: u64,
        metadata: &ParsedStreamMetadata,
        outcome: SubmitOutcome,
    ) -> (r: Result<GenericBackendHandle, PooledSurface>)
        ensures
            outcome == SubmitOutcome::Accepted ==> {
                &&& r matches Ok(h)
                &&& h.wf()
                &&& h.spec_is_pending()
                &&& !h.spec_is_ready()
                &&& h.spec_lease() == surface
                &&& h.spec_timestamp() == timestamp
                &&& h.spec_coded_resolution() == metadata.stream_info.coded_resolution
                &&& h.spec_display_resolution() == metadata.stream_info.display_resolution
                &&& h.spec_map_format() == metadata.map_format
            },
            outcome == SubmitOutcome::Rejected ==> r == Result::<
                GenericBackendHandle,
                PooledSurface,
            >::Err(surface),
    {
        match outcome {
            SubmitOutcome::Accepted => Ok(
                GenericBackendHandle {
                    state: PictureState::Pending(surface),
                    coded_resolution: metadata.stream_info.coded_resolution,
                    display_resolution: metadata.stream_info.display_resolution,
                    map_format: metadata.map_format,
                    timestamp,
                },
            ),
            SubmitOutcome::Rejected => Err(surface),
        }
    }

    /// Confirms completion. A picture that is already ready stays ready and
    /// succeeds again, whatever the device would answer — the second call
    /// does not consult it. A pending picture becomes ready exactly when
    /// the device finished it; on failure it stays pending and the error
    /// names the hardware.
    pub fn sync(&mut self, outcome: SyncOutcome) -> (r: Result<(), SyncError>)
        requires
            old(self).wf(),
        ensures
            final(self).wf(),
            final(self).spec_lease() == old(self).spec_lease(),
            final(self).spec_timestamp() == old(self).spec_timestamp(),
            final(self).spec_coded_resolution() == old(self).spec_coded_resolution(),
            final(self).spec_display_resolution() == old(self).spec_display_resolution(),
            final(self).spec_map_format() == old(self).spec_map_format(),
            old(self).spec_is_ready() ==> r is Ok && *final(self) == *old(self),
            old(self).spec_is_pending() && outcome == SyncOutcome::Finished ==> r is Ok
                && final(self).spec_is_ready(),
            old(self).spec_is_pending() && outcome == SyncOutcome::Failed ==> r == Result::<
                (),
                SyncError,
            >::Err(SyncError::Hardware) && final(self).spec_is_pending(),
    {
        let mut taken = PictureState::Invalid;
        core::mem::swap(&mut self.state, &mut taken);
        let (next, res): (PictureState, Result<(), SyncError>) = match taken {
            PictureState::Ready(l) => (PictureState::Ready(l), Ok(())),
            PictureState::Pending(l) => {
                match outcome {
                    SyncOutcome::Finished => (PictureState::Ready(l), Ok(())),
                    SyncOutcome::Failed => (PictureState::Pending(l), Err(SyncError::Hardware)),
                }
            },
            PictureState::Invalid => vstd::pervasive::unreached(),
        };
        self.state = next;
        res
    }

    /// Whether the picture may be read, given the device's answer to a
    /// status query on its surface. A ready picture asks the device
    /// nothing; for a pending one the device's word decides.
    pub fn is_va_ready(&self, query: Result<SurfaceStatus, SyncError>) -> (r: Result<
        bool,
        SyncError,
    >)
        requires
            self.wf(),
        ensures
            self.spec_is_ready() ==> r == Result::<bool, SyncError>::Ok(true),
            self.spec_is_pending() ==> {
                &&& (query matches Ok(s) ==> r == Result::<bool, SyncError>::Ok(
                    s == SurfaceStatus::Ready,
                ))
                &&& (query matches Err(e) ==> r == Result::<bool, SyncError>::Err(e))
            },
    {
        match &self.state {
            PictureState::Ready(_) => Ok(true),
            PictureState::Pending(_) => {
                match query {
                    Ok(status) => Ok(match status {
                        SurfaceStatus::Ready => true,
                        SurfaceStatus::Busy => false,
                    }),
                    Err(e) => Err(e),
                }
            },
            PictureState::Invalid => vstd::pervasive::unreached(),
        }
    }

    /// Whether polling may stop: like [`GenericBackendHandle::is_va_ready`], but a
    /// failed status query counts as ready, so a broken device cannot make
    /// the caller poll forever.
    pub fn is_ready(&self, query: Result<SurfaceStatus, SyncError>) -> (r: bool)
        requires
            self.wf(),
        ensures
            self.spec_is_ready() ==> r,
            self.spec_is_pending() ==> r == (query == Result::<SurfaceStatus, SyncError>::Ok(
                SurfaceStatus::Ready,
            ) || query is Err),
    {
        match self.is_va_ready(query) {
            Ok(b) => b,
            Err(_) => true,
        }
    }

    /// The synchronized picture's surface, for use as a decode reference;
    /// nothing for a picture that has not been synchronized.
    pub fn picture(&self) -> (r: Option<Surface>)
        requires
            self.wf(),
        ensures
            self.spec_is_ready() ==> r == Some(self.spec_surface()),
            self.spec_is_pending() ==> r is None,
    {
        match &self.state {
            PictureState::Ready(l) => Some(l.surface()),
            PictureState::Pending(_) => None,
            PictureState::Invalid => vstd::pervasive::unreached(),
        }
    }

    /// The timestamp the picture was submitted under.
    pub fn timestamp(&self) -> (r: u64)
        requires
            self.wf(),
        ensures
            r == self.spec_timestamp(),
    {
        self.timestamp
    }

    /// The id of the surface backing this picture.
    pub fn surface_id(&self) -> (r: u32)
        requires
            self.wf(),
        ensures
            r == self.spec_surface().id,
    {
        match &self.state {
            PictureState::Ready(l) => l.surface().id,
            PictureState::Pending(l) => l.surface().id,
            PictureState::Invalid => vstd::pervasive::unreached(),
        }
    }

    /// The decoder resolution when this picture was processed.
    pub fn coded_resolution(&self) -> (r: Resolution)
        requires
            self.wf(),
        ensures
            r == self.spec_coded_resolution(),
    {
        self.coded_resolution
    }

    /// The resolution of the picture's visible rectangle.
    pub fn display_resolution(&self) -> (r: Resolution)
        requires
            self.wf(),
        ensures
            r == self.spec_display_resolution(),
    {
        self.display_resolution
    }

    /// The layout a fresh mapped view of this picture is produced with; the
    /// view itself is the device's to make. Fails iff the picture has not
    /// been synchronized.
    pub fn mapped_view_layout(&self) -> (r: Result<MappedViewLayout, MapError>)
        requires
            self.wf(),
        ensures
            r is Ok <==> self.spec_is_ready(),
            self.spec_is_ready() ==> r == Result::<MappedViewLayout, MapError>::Ok(
                MappedViewLayout {
                    fourcc: self.spec_map_format(),
                    coded_resolution: self.spec_coded_resolution(),
                    display_resolution: self.spec_display_resolution(),
                },
            ),
            !self.spec_is_ready() ==> r == Result::<MappedViewLayout, MapError>::Err(
                MapError::NotReady,
            ),
    {
        match &self.state {
            PictureState::Ready(_) => Ok(
                MappedViewLayout {
                    fourcc: self.map_format,
                    coded_resolution: self.coded_resolution,
                    display_resolution: self.display_resolution,
                },
            ),
            PictureState::Pending(_) => Err(MapError::NotReady),
            PictureState::Invalid => vstd::pervasive::unreached(),
        }
    }

    /// Takes the lease back out of the handle, for return to its pool once
    /// the consumer is done with the picture.
    pub fn into_lease(self) -> (l: PooledSurface)
        requires
            self.wf(),
        ensures
            l == self.spec_lease(),
    {
        match self.state {
            PictureState::Ready(l) => l,
            PictureState::Pending(l) => l,
            PictureState::Invalid => vstd::pervasive::unreached(),
        }
    }
}

} // verus!
