//! The backend facade the external codec state machines drive.
//!
//! A sequence change happens in two steps around the device's work: the
//! facade plans the negotiation ([`VaapiBackend::plan_sequence`] or
//! [`VaapiBackend::plan_try_format`], touching nothing), the caller performs
//! whatever device work the plan demands (creating a fresh config and
//! context), and the facade commits the plan
//! ([`VaapiBackend::commit_sequence`]). A plan that fails, or device work
//! that fails, therefore leaves the previous state untouched.

use vstd::prelude::*;
use crate::error::NegotiationError;
use crate::format::{
    is_known_rt_format, spec_format_map, spec_supported_entries, supported_formats_for_rt_format,
    DecodedFormat, FormatMap, VA_ATTRIB_NOT_SUPPORTED, VA_RT_FORMAT_YUV420,
};
use crate::negotiate::{
    finish_open, plan_open, spec_plan_open, ContextSource, HardwareConfig, HardwareContext,
    OpenPlan, ParsedStreamMetadata, StreamInfo, StreamMetadataState, StreamParams,
    USAGE_HINT_DECODER,
};
use crate::picture::{GenericBackendHandle, SubmitOutcome};
use crate::pool::{PooledSurface, SurfacePool};
use crate::resolution::Resolution;
use crate::seqs::lemma_filter_subset;

verus! {

/// Whether the stream of pixel-format class `rt_format` supports reading
/// out as `format`, given the fourccs the device can map.
pub open spec fn spec_stream_supports_format(
    rt_format: u32,
    fourccs: Seq<u32>,
    format: DecodedFormat,
) -> bool {
    exists|i: int|
        0 <= i < spec_supported_entries(rt_format, fourccs).len() && (#[trigger] spec_supported_entries(
            rt_format,
            fourccs,
        )[i]).decoded_format == format
}

/// Whether any entry of `v` carries the decoded format `format`.
fn contains_format(v: &Vec<FormatMap>, format: DecodedFormat) -> (r: bool)
    ensures
        r == exists|i: int| 0 <= i < v@.len() && (#[trigger] v@[i]).decoded_format == format,
{
    let mut i: usize = 0;
    while i < v.len()
        invariant
            i <= v@.len(),
            forall|k: int| 0 <= k < i ==> (#[trigger] v@[k]).decoded_format != format,
        decreases v@.len() - i,
    {
        if v[i].decoded_format == format {
            proof {
                assert(v@[i as int].decoded_format == format);
            }
            return true;
        }
        i = i + 1;
    }
    false
}

/// Submitting a picture failed; the lease on its target surface comes back
/// with the error.
pub enum SubmitError {
    /// No negotiation has succeeded yet, so there is no context to decode
    /// through.
    NotNegotiated { lease: PooledSurface },
    /// The device refused the submission.
    Rejected { lease: PooledSurface },
}

/// The backend facade: the surface pool and stream state of the current
/// negotiation epoch.
pub struct VaapiBackend {
    /// A pool of surfaces; surfaces are expensive to allocate, so they are
    /// reused across pictures.
    surface_pool: SurfacePool,
    /// The metadata state, updated whenever a sequence is (re)negotiated.
    metadata_state: StreamMetadataState,
    /// Whether the codec supports context reuse across a resolution change.
    supports_context_reuse: bool,
}

impl VaapiBackend {
    /// The current surface pool.
    pub closed spec fn spec_pool(self) -> SurfacePool {
        self.surface_pool
    }

    /// The current stream state.
    pub closed spec fn spec_metadata(self) -> StreamMetadataState {
        self.metadata_state
    }

    /// Whether the codec supports context reuse across a resolution change.
    pub closed spec fn spec_supports_context_reuse(self) -> bool {
        self.supports_context_reuse
    }

    /// The facade is well-formed when its pool is.
    pub open spec fn wf(self) -> bool {
        self.spec_pool().wf()
    }

    /// Creates a backend with nothing negotiated yet and a small default
    /// pool, since the stream's format is not known before the first
    /// sequence.
    pub fn new(supports_context_reuse: bool) -> (r: VaapiBackend)
        ensures
            r.wf(),
            r.spec_metadata() is Unparsed,
            r.spec_supports_context_reuse() == supports_context_reuse,
            r.spec_pool().spec_free() =~= Seq::<crate::pool::Surface>::empty(),
            r.spec_pool().spec_managed() =~= Seq::<crate::pool::Surface>::empty(),
            r.spec_pool().spec_rt_format() == VA_RT_FORMAT_YUV420,
            r.spec_pool().spec_usage_hint() == Some(USAGE_HINT_DECODER),
            r.spec_pool().spec_coded_resolution() == (Resolution { width: 16, height: 16 }),
    {
        VaapiBackend {
            surface_pool: SurfacePool::new(
                VA_RT_FORMAT_YUV420,
                Some(USAGE_HINT_DECODER),
                Resolution { width: 16, height: 16 },
            ),
            metadata_state: StreamMetadataState::Unparsed,
            supports_context_reuse,
        }
    }

    /// Plans the negotiation for a new sequence, touching nothing. The
    /// device's mappable image formats enter as their fourccs.
    pub fn plan_sequence(
        &self,
        params: &StreamParams,
        image_format_fourccs: &Vec<u32>,
    ) -> (r: Result<OpenPlan, NegotiationError>)
        requires
            params.coded_size.0 < u32::MAX,
            params.coded_size.1 < u32::MAX,
            params.visible_rect.1.0 >= params.visible_rect.0.0,
            params.visible_rect.1.1 >= params.visible_rect.0.1,
        ensures
            r == spec_plan_open(
                *params,
                None,
                self.spec_metadata(),
                self.spec_supports_context_reuse(),
                image_format_fourccs@,
            ),
            r matches Ok(plan) ==> is_known_rt_format(plan.rt_format),
    {
        plan_open(
            params,
            None,
            &self.metadata_state,
            self.supports_context_reuse,
            image_format_fourccs,
        )
    }

    /// Commits a planned negotiation, installing the new stream state and
    /// pool. When the plan calls for a fresh context the device has already
    /// created the config and context, and they enter as `fresh`.
    pub fn commit_sequence(
        &mut self,
        plan: &OpenPlan,
        fresh: Option<(HardwareConfig, HardwareContext)>,
    )
        requires
            old(self).wf(),
            is_known_rt_format(plan.rt_format),
            plan.source == ContextSource::Reuse ==> old(self).spec_metadata() is Parsed,
            plan.source == ContextSource::Fresh ==> fresh is Some,
        ensures
            final(self).wf(),
            final(self).spec_supports_context_reuse() == old(self).spec_supports_context_reuse(),
            final(self).spec_metadata() matches StreamMetadataState::Parsed(m) && {
                &&& m.stream_info == (StreamInfo {
                    format: crate::format::spec_decoded_format_for_rt_format(plan.rt_format),
                    coded_resolution: plan.coded_resolution,
                    display_resolution: plan.display_resolution,
                    min_num_frames: plan.min_num_surfaces,
                })
                &&& m.rt_format == plan.rt_format
                &&& m.profile == plan.profile
                &&& m.map_format == plan.map_fourcc
                &&& (plan.source == ContextSource::Reuse ==> {
                    &&& old(self).spec_metadata() matches StreamMetadataState::Parsed(old_m)
                    &&& m.context == old_m.context
                    &&& m.config == old_m.config
                })
                &&& (plan.source == ContextSource::Fresh ==> {
                    &&& fresh matches Some(f)
                    &&& m.config == f.0
                    &&& m.context == f.1
                })
            },
            final(self).spec_pool().spec_coded_resolution().spec_can_contain(
                plan.coded_resolution,
            ),
            plan.source == ContextSource::Fresh ==> {
                &&& final(self).spec_pool().spec_free() =~= Seq::<crate::pool::Surface>::empty()
                &&& final(self).spec_pool().spec_managed() =~= Seq::<
                    crate::pool::Surface,
                >::empty()
                &&& final(self).spec_pool().spec_rt_format() == plan.rt_format
                &&& final(self).spec_pool().spec_coded_resolution() == plan.coded_resolution
            },
            plan.source == ContextSource::Reuse ==> {
                &&& old(self).spec_pool().spec_coded_resolution().spec_can_contain(
                    plan.coded_resolution,
                ) ==> final(self).spec_pool() == old(self).spec_pool()
                &&& !old(self).spec_pool().spec_coded_resolution().spec_can_contain(
                    plan.coded_resolution,
                ) ==> {
                    &&& final(self).spec_pool().spec_coded_resolution() == plan.coded_resolution
                    &&& final(self).spec_pool().spec_managed() == old(
                        self,
                    ).spec_pool().spec_managed().filter(
                        |s: crate::pool::Surface| s.size.spec_can_contain(plan.coded_resolution),
                    )
                    &&& final(self).spec_pool().spec_free() == old(
                        self,
                    ).spec_pool().spec_free().filter(
                        |s: crate::pool::Surface| s.size.spec_can_contain(plan.coded_resolution),
                    )
                }
            },
    {
        let mut state = StreamMetadataState::Unparsed;
        core::mem::swap(&mut self.metadata_state, &mut state);
        let mut pool = SurfacePool::new(plan.rt_format, None, plan.coded_resolution);
        core::mem::swap(&mut self.surface_pool, &mut pool);
        let (new_state, new_pool) = finish_open(plan, state, pool, fresh);
        self.metadata_state = new_state;
        self.surface_pool = new_pool;
    }

    /// The decoded formats the device supports for the current stream, such
    /// that reading needs no extra conversion. The device's answers enter as
    /// the reported configuration attribute and the mappable fourccs.
    pub fn supported_formats_for_stream(
        &self,
        attrib_value: u32,
        image_format_fourccs: &Vec<u32>,
    ) -> (r: Result<Vec<DecodedFormat>, NegotiationError>)
        ensures
            self.spec_metadata() is Unparsed ==> r == Result::<
                Vec<DecodedFormat>,
                NegotiationError,
            >::Err(NegotiationError::NotNegotiated),
            self.spec_metadata() matches StreamMetadataState::Parsed(m) ==> {
                &&& (attrib_value == VA_ATTRIB_NOT_SUPPORTED || attrib_value & m.rt_format == 0)
                    <==> r is Err
                &&& r matches Err(e) ==> e == (NegotiationError::UnsupportedRtFormat {
                    rt_format: m.rt_format,
                })
                &&& r matches Ok(v) ==> v@ == spec_supported_entries(
                    m.rt_format,
                    image_format_fourccs@,
                ).map_values(|e: FormatMap| e.decoded_format)
            },
    {
        let metadata = match self.metadata_state.get_parsed() {
            Ok(m) => m,
            Err(e) => {
                return Err(e);
            },
        };
        let entries = match supported_formats_for_rt_format(
            metadata.rt_format,
            attrib_value,
            image_format_fourccs,
        ) {
            Ok(entries) => entries,
            Err(e) => {
                return Err(e);
            },
        };
        let ghost target = entries@.map_values(|e: FormatMap| e.decoded_format);
        let mut formats: Vec<DecodedFormat> = Vec::new();
        let mut i: usize = 0;
        while i < entries.len()
            invariant
                i <= entries@.len(),
                target == entries@.map_values(|e: FormatMap| e.decoded_format),
                formats@ == target.take(i as int),
            decreases entries@.len() - i,
        {
            formats.push(entries[i].decoded_format);
            proof {
                assert(formats@ =~= target.take(i as int + 1));
            }
            i = i + 1;
        }
        proof {
            assert(target.take(entries@.len() as int) =~= target);
        }
        Ok(formats)
    }

    /// Plans a renegotiation that targets one specific decoded format.
    ///
    /// Nothing is touched: a failure — no negotiation yet, the class
    /// unsupported by the device, or the format not among the stream's
    /// supported formats — leaves the prior state exactly as it was.
    pub fn plan_try_format(
        &self,
        params: &StreamParams,
        format: DecodedFormat,
        attrib_value: u32,
        image_format_fourccs: &Vec<u32>,
    ) -> (r: Result<OpenPlan, NegotiationError>)
        requires
            params.coded_size.0 < u32::MAX,
            params.coded_size.1 < u32::MAX,
            params.visible_rect.1.0 >= params.visible_rect.0.0,
            params.visible_rect.1.1 >= params.visible_rect.0.1,
            is_known_rt_format(params.rt_format),
        ensures
            self.spec_metadata() is Unparsed ==> r == Result::<OpenPlan, NegotiationError>::Err(
                NegotiationError::NotNegotiated,
            ),
            self.spec_metadata() matches StreamMetadataState::Parsed(m) ==> {
                &&& ((attrib_value == VA_ATTRIB_NOT_SUPPORTED || attrib_value & m.rt_format == 0)
                    ==> r == Result::<OpenPlan, NegotiationError>::Err(
                    NegotiationError::UnsupportedRtFormat { rt_format: m.rt_format },
                ))
                &&& (!(attrib_value == VA_ATTRIB_NOT_SUPPORTED || attrib_value & m.rt_format == 0)
                    ==> {
                    &&& (!spec_stream_supports_format(m.rt_format, image_format_fourccs@, format)
                        ==> r == Result::<OpenPlan, NegotiationError>::Err(
                        NegotiationError::UnsupportedDecodedFormat { format },
                    ))
                    &&& (spec_stream_supports_format(m.rt_format, image_format_fourccs@, format)
                        ==> r == spec_plan_open(
                        *params,
                        crate::format::spec_entry_for_format(format),
                        self.spec_metadata(),
                        self.spec_supports_context_reuse(),
                        image_format_fourccs@,
                    ))
                })
            },
            r matches Ok(plan) ==> is_known_rt_format(plan.rt_format),
    {
        let metadata = match self.metadata_state.get_parsed() {
            Ok(m) => m,
            Err(e) => {
                return Err(e);
            },
        };
        let entries = match supported_formats_for_rt_format(
            metadata.rt_format,
            attrib_value,
            image_format_fourccs,
        ) {
            Ok(entries) => entries,
            Err(e) => {
                return Err(e);
            },
        };
        if !contains_format(&entries, format) {
            return Err(NegotiationError::UnsupportedDecodedFormat { format });
        }
        proof {
            let supported = spec_supported_entries(metadata.rt_format, image_format_fourccs@);
            let i = choose|i: int|
                0 <= i < supported.len() && (#[trigger] supported[i]).decoded_format == format;
            lemma_filter_subset(
                spec_format_map(),
                |e: FormatMap| e.rt_format == metadata.rt_format
                    && image_format_fourccs@.contains(e.va_fourcc),
                i,
            );
            let j = choose|j: int|
                0 <= j < spec_format_map().len() && spec_format_map()[j] == supported[i];
            crate::format::lemma_entry_for_format_found(spec_format_map(), format, j);
            crate::format::lemma_entry_for_format_in_table(spec_format_map(), format);
        }
        let entry = match crate::format::entry_for_format(format) {
            Some(entry) => entry,
            None => vstd::pervasive::unreached(),
        };
        plan_open(
            params,
            Some(entry),
            &self.metadata_state,
            self.supports_context_reuse,
            image_format_fourccs,
        )
    }

    /// Submits a picture for decoding: a leased target surface and the
    /// timestamp it decodes under. The device's answer to the submission
    /// enters as `outcome`; every failure hands the lease back.
    pub fn process_picture(
        &self,
        surface: PooledSurface,
        timestamp: u64,
        outcome: SubmitOutcome,
    ) -> (r: Result<GenericBackendHandle, SubmitError>)
        ensures
            self.spec_metadata() is Unparsed ==> {
                &&& r matches Err(SubmitError::NotNegotiated { lease })
                &&& lease == surface
            },
            self.spec_metadata() matches StreamMetadataState::Parsed(m) ==> {
                &&& (outcome == SubmitOutcome::Rejected ==> {
                    &&& r matches Err(SubmitError::Rejected { lease })
                    &&& lease == surface
                })
                &&& (outcome == SubmitOutcome::Accepted ==> {
                    &&& r matches Ok(h)
                    &&& h.wf()
                    &&& h.spec_is_pending()
                    &&& h.spec_lease() == surface
                    &&& h.spec_timestamp() == timestamp
                    &&& h.spec_coded_resolution() == m.stream_info.coded_resolution
                    &&& h.spec_display_resolution() == m.stream_info.display_resolution
                    &&& h.spec_map_format() == m.map_format
                })
            },
    {
        let metadata = match self.metadata_state.get_parsed() {
            Ok(m) => m,
            Err(_) => {
                return Err(SubmitError::NotNegotiated { lease: surface });
            },
        };
        match GenericBackendHandle::new(surface, timestamp, &metadata, outcome) {
            Ok(handle) => Ok(handle),
            Err(lease) => Err(SubmitError::Rejected { lease }),
        }
    }

    /// The surface pool, for capacity queries and growth by the caller.
    pub fn frame_pool(&mut self) -> (r: &mut SurfacePool)
        ensures
            *r == old(self).spec_pool(),
            final(self).spec_pool() == *final(r),
            final(self).spec_metadata() == old(self).spec_metadata(),
            final(self).spec_supports_context_reuse() == old(self).spec_supports_context_reuse(),
    {
        &mut self.surface_pool
    }

    /// The stream information of the current epoch; nothing before the
    /// first successful negotiation.
    pub fn stream_info(&self) -> (r: Option<StreamInfo>)
        ensures
            self.spec_metadata() is Unparsed ==> r is None,
            self.spec_metadata() matches StreamMetadataState::Parsed(m) ==> r == Some(
                m.stream_info,
            ),
    {
        match self.metadata_state.get_parsed() {
            Ok(m) => Some(m.stream_info),
            Err(_) => None,
        }
    }
}

} // verus!
