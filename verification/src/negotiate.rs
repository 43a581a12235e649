//! The stream-negotiation state machine.
//!
//! On each new sequence the backend decides whether the existing hardware
//! context and config can be reused or must be rebuilt, resolves the output
//! layout, and resizes the surface pool. The decision is split from the
//! device work: [`plan_open`] computes everything the device's answers
//! permit without touching any state, and [`finish_open`] applies a plan,
//! taking the freshly created hardware objects as plain values when the plan
//! calls for them. A failed plan therefore never mutates anything.

use vstd::prelude::*;
use crate::error::NegotiationError;
use crate::format::{
    spec_format_map, spec_decoded_format_for_rt_format, is_known_rt_format, DecodedFormat,
    FormatMap,
};
use crate::pool::SurfacePool;
use crate::resolution::Resolution;

verus! {

/// The usage hint the pool allocates decode surfaces with.
pub const USAGE_HINT_DECODER: u32 = 0x1;

/// A hardware decode configuration, as this crate sees it: the identity of
/// the config object the device created.
#[derive(Clone, Copy, Debug, PartialEq, Eq, Structural)]
pub struct HardwareConfig {
    pub id: u64,
}

/// A hardware decode context created from a config; shared, read-only, by
/// all pictures of one negotiation epoch.
#[derive(Clone, Copy, Debug, PartialEq, Eq, Structural)]
pub struct HardwareContext {
    pub id: u64,
}

/// Information about the current stream, directly extracted from it.
#[derive(Clone, Copy, Debug, PartialEq, Eq, Structural)]
pub struct StreamInfo {
    /// The canonical format decoded frames read out as.
    pub format: DecodedFormat,
    /// The resolution the hardware decode context operates at.
    pub coded_resolution: Resolution,
    /// The sub-rectangle of the coded surface holding meaningful pixels.
    pub display_resolution: Resolution,
    /// The minimum number of surfaces required to decode the stream.
    pub min_num_frames: usize,
}

/// What the external codec state machine reports about a new sequence, as
/// plain values.
#[derive(Clone, Copy, Debug)]
pub struct StreamParams {
    /// The hardware profile the stream requires.
    pub va_profile: i32,
    /// The stream's pixel-format class.
    pub rt_format: u32,
    /// The minimum number of surfaces required to decode the stream.
    pub min_num_surfaces: usize,
    /// The coded size of the stream, not yet rounded.
    pub coded_size: (u32, u32),
    /// The visible rectangle within the coded size, as two corners.
    pub visible_rect: ((u32, u32), (u32, u32)),
}

/// Everything one successful negotiation fixed for the stream.
#[derive(Clone, Copy, Debug, PartialEq, Eq, Structural)]
pub struct ParsedStreamMetadata {
    /// The context pictures of this epoch decode through.
    pub context: HardwareContext,
    /// The config that created the context; kept so the device does not
    /// destroy it while the context lives.
    pub config: HardwareConfig,
    /// Derived stream information.
    pub stream_info: StreamInfo,
    /// The fourcc of the image format used to map surfaces for reading.
    pub map_format: u32,
    /// The pixel-format class parsed from the stream.
    pub rt_format: u32,
    /// The profile parsed from the stream.
    pub profile: i32,
}

/// State of the input stream: nothing negotiated yet, or parsed with a
/// context ready to decode into.
pub enum StreamMetadataState {
    /// The metadata for the current stream has not yet been parsed.
    Unparsed,
    /// The metadata has been parsed and a suitable context exists.
    Parsed(ParsedStreamMetadata),
}

impl StreamMetadataState {
    /// The parsed metadata, or an error if no negotiation has succeeded yet.
    pub fn get_parsed(&self) -> (r: Result<ParsedStreamMetadata, NegotiationError>)
        ensures
            r is Ok <==> self is Parsed,
            r matches Ok(m) ==> *self == StreamMetadataState::Parsed(m),
            r is Err ==> r == Result::<ParsedStreamMetadata, NegotiationError>::Err(
                NegotiationError::NotNegotiated,
            ),
    {
        match self {
            StreamMetadataState::Unparsed => Err(NegotiationError::NotNegotiated),
            StreamMetadataState::Parsed(m) => Ok(*m),
        }
    }
}

/// Whether a previous epoch's context and config can carry the new
/// sequence: the pixel-format class and profile are unchanged, and either
/// the coded resolution is unchanged too or the codec declared context
/// reuse across resolution changes.
pub open spec fn spec_should_reuse(
    old_state: StreamMetadataState,
    rt_format: u32,
    profile: i32,
    coded_resolution: Resolution,
    supports_context_reuse: bool,
) -> bool {
    match old_state {
        StreamMetadataState::Parsed(old) => old.rt_format == rt_format && old.profile == profile
            && (old.stream_info.coded_resolution == coded_resolution || supports_context_reuse),
        StreamMetadataState::Unparsed => false,
    }
}

/// Where a plan's hardware context comes from.
#[derive(Clone, Copy, Debug, PartialEq, Eq, Structural)]
pub enum ContextSource {
    /// Keep the previous epoch's context, config and surface pool.
    Reuse,
    /// The device must create a fresh config and context; the surface pool
    /// is replaced by a fresh one.
    Fresh,
}

/// The outcome of planning a negotiation: everything [`finish_open`] needs
/// to rebuild the stream state.
#[derive(Clone, Copy, Debug, PartialEq, Eq, Structural)]
pub struct OpenPlan {
    /// Whether the previous context is kept or a fresh one is needed.
    pub source: ContextSource,
    /// The stream's pixel-format class.
    pub rt_format: u32,
    /// The stream's hardware profile.
    pub profile: i32,
    /// The coded size rounded up to even dimensions.
    pub coded_resolution: Resolution,
    /// The size of the visible rectangle.
    pub display_resolution: Resolution,
    /// The fourcc of the layout the device will map surfaces into.
    pub map_fourcc: u32,
    /// The canonical format decoded frames will read out as.
    pub decoded_format: DecodedFormat,
    /// The minimum number of surfaces the stream needs.
    pub min_num_surfaces: usize,
}

/// The first priority-table entry for a pixel-format class, scanning from
/// the front of `t`.
pub open spec fn spec_first_entry_rec(t: Seq<FormatMap>, rt_format: u32) -> Option<FormatMap>
    decreases t.len(),
{
    if t.len() == 0 {
        None
    } else if t[0].rt_format == rt_format {
        Some(t[0])
    } else {
        spec_first_entry_rec(t.drop_first(), rt_format)
    }
}

/// The most preferred layout for a pixel-format class, if the class is in
/// the priority table at all.
pub open spec fn spec_first_entry_for(rt_format: u32) -> Option<FormatMap> {
    spec_first_entry_rec(spec_format_map(), rt_format)
}

/// The table entry a negotiation resolves to: the caller's preferred entry
/// if one was supplied, else the first table entry for the class.
pub open spec fn spec_resolved_entry(preferred: Option<FormatMap>, rt_format: u32) -> Option<
    FormatMap,
> {
    match preferred {
        Some(fm) => Some(fm),
        None => spec_first_entry_for(rt_format),
    }
}

/// Finds the most preferred layout for a pixel-format class in the static
/// priority table.
fn first_entry_for(rt_format: u32) -> (r: Option<FormatMap>)
    ensures
        r == spec_first_entry_for(rt_format),
{
    let table = crate::format::format_map();
    proof {
        assert(table@.skip(0) =~= table@);
    }
    let mut i: usize = 0;
    while i < table.len()
        invariant
            table@ == spec_format_map(),
            i <= table@.len(),
            spec_first_entry_rec(table@.skip(i as int), rt_format) == spec_first_entry_for(
                rt_format,
            ),
        decreases table@.len() - i,
    {
        let entry = table[i];
        proof {
            assert(table@.skip(i as int)[0] == entry);
        }
        if entry.rt_format == rt_format {
            return Some(entry);
        }
        proof {
            assert(table@.skip(i as int).drop_first() =~= table@.skip(i as int + 1));
        }
        i = i + 1;
    }
    proof {
        assert(table@.skip(table@.len() as int).len() == 0);
    }
    None
}

/// The coded resolution a set of stream parameters negotiates: the coded
/// size rounded up to even dimensions.
pub open spec fn spec_negotiated_resolution(params: StreamParams) -> Resolution {
    (Resolution { width: params.coded_size.0, height: params.coded_size.1 }).spec_round_up_even()
}

/// The display resolution a set of stream parameters negotiates: the size
/// of the visible rectangle.
pub open spec fn spec_display_resolution(params: StreamParams) -> Resolution {
    Resolution {
        width: (params.visible_rect.1.0 - params.visible_rect.0.0) as u32,
        height: (params.visible_rect.1.1 - params.visible_rect.0.1) as u32,
    }
}

/// What planning a (re)negotiation yields: the resolved entry decides the
/// layout, the device's mappable fourccs decide whether it can be used, and
/// the previous state decides whether the context survives.
pub open spec fn spec_plan_open(
    params: StreamParams,
    preferred: Option<FormatMap>,
    old_state: StreamMetadataState,
    supports_context_reuse: bool,
    fourccs: Seq<u32>,
) -> Result<OpenPlan, NegotiationError> {
    match spec_resolved_entry(preferred, params.rt_format) {
        None => Err(NegotiationError::UnsupportedRtFormat { rt_format: params.rt_format }),
        Some(fm) => if !fourccs.contains(fm.va_fourcc) {
            Err(NegotiationError::UnsupportedFourcc { fourcc: fm.va_fourcc })
        } else {
            let coded_resolution = spec_negotiated_resolution(params);
            Ok(
                OpenPlan {
                    source: if spec_should_reuse(
                        old_state,
                        params.rt_format,
                        params.va_profile,
                        coded_resolution,
                        supports_context_reuse,
                    ) {
                        ContextSource::Reuse
                    } else {
                        ContextSource::Fresh
                    },
                    rt_format: params.rt_format,
                    profile: params.va_profile,
                    coded_resolution,
                    display_resolution: spec_display_resolution(params),
                    map_fourcc: fm.va_fourcc,
                    decoded_format: spec_decoded_format_for_rt_format(params.rt_format),
                    min_num_surfaces: params.min_num_surfaces,
                },
            )
        },
    }
}

/// Plans a (re)negotiation without touching any state.
///
/// The device's contribution enters as plain values: `image_format_fourccs`
/// is what the driver answered when asked which image formats it can map.
/// Fails, leaving everything untouched, iff the class has no table entry
/// (and none was preferred) or the resolved layout is not mappable.
pub fn plan_open(
    params: &StreamParams,
    preferred: Option<FormatMap>,
    old_state: &StreamMetadataState,
    supports_context_reuse: bool,
    image_format_fourccs: &Vec<u32>,
) -> (r: Result<OpenPlan, NegotiationError>)
    requires
        params.coded_size.0 < u32::MAX,
        params.coded_size.1 < u32::MAX,
        params.visible_rect.1.0 >= params.visible_rect.0.0,
        params.visible_rect.1.1 >= params.visible_rect.0.1,
        preferred matches Some(fm) ==> spec_format_map().contains(fm) && is_known_rt_format(
            params.rt_format,
        ),
    ensures
        r == spec_plan_open(
            *params,
            preferred,
            *old_state,
            supports_context_reuse,
            image_format_fourccs@,
        ),
        r matches Ok(plan) ==> is_known_rt_format(plan.rt_format)
            && image_format_fourccs@.contains(plan.map_fourcc),
{
    proof {
        lemma_first_entry_is_table_entry(spec_format_map(), params.rt_format);
        assert forall|k: int| 0 <= k < spec_format_map().len() implies is_known_rt_format(
            (#[trigger] spec_format_map()[k]).rt_format,
        ) by {
        }
    }
    let entry = match preferred {
        Some(fm) => fm,
        None => {
            match first_entry_for(params.rt_format) {
                Some(fm) => fm,
                None => {
                    return Err(
                        NegotiationError::UnsupportedRtFormat { rt_format: params.rt_format },
                    );
                },
            }
        },
    };

    if !crate::format::contains_u32(image_format_fourccs, entry.va_fourcc) {
        return Err(NegotiationError::UnsupportedFourcc { fourcc: entry.va_fourcc });
    }

    let coded_resolution = (Resolution {
        width: params.coded_size.0,
        height: params.coded_size.1,
    }).round_up_even();
    let display_resolution = Resolution {
        width: params.visible_rect.1.0 - params.visible_rect.0.0,
        height: params.visible_rect.1.1 - params.visible_rect.0.1,
    };

    let reuse = match old_state {
        StreamMetadataState::Parsed(old) => old.rt_format == params.rt_format && old.profile
            == params.va_profile && (old.stream_info.coded_resolution == coded_resolution
            || supports_context_reuse),
        StreamMetadataState::Unparsed => false,
    };

    Ok(
        OpenPlan {
            source: if reuse {
                ContextSource::Reuse
            } else {
                ContextSource::Fresh
            },
            rt_format: params.rt_format,
            profile: params.va_profile,
            coded_resolution,
            display_resolution,
            map_fourcc: entry.va_fourcc,
            decoded_format: crate::format::decoded_format_for_rt_format(params.rt_format),
            min_num_surfaces: params.min_num_surfaces,
        },
    )
}

/// Planning against a parsed stream whose coded resolution, pixel-format
/// class and profile all match the new parameters yields a reuse plan:
/// committing it keeps the previous context and config (see
/// [`finish_open`]), whatever the codec declared about context reuse.
pub proof fn lemma_unchanged_stream_plans_reuse(
    params: StreamParams,
    m: ParsedStreamMetadata,
    supports_context_reuse: bool,
    fourccs: Seq<u32>,
)
    requires
        m.rt_format == params.rt_format,
        m.profile == params.va_profile,
        m.stream_info.coded_resolution == spec_negotiated_resolution(params),
        spec_plan_open(
            params,
            None,
            StreamMetadataState::Parsed(m),
            supports_context_reuse,
            fourccs,
        ) is Ok,
    ensures
        spec_plan_open(
            params,
            None,
            StreamMetadataState::Parsed(m),
            supports_context_reuse,
            fourccs,
        )->Ok_0.source == ContextSource::Reuse,
{
}

/// When the codec declares context reuse, a resolution change alone — the
/// pixel-format class and profile unchanged — still yields a reuse plan.
/// Committing it keeps the previous context and config, and grows the pool
/// to the new coded resolution wherever the old pool cannot contain it (see
/// [`finish_open`]).
pub proof fn lemma_resolution_change_plans_reuse(
    params: StreamParams,
    m: ParsedStreamMetadata,
    fourccs: Seq<u32>,
)
    requires
        m.rt_format == params.rt_format,
        m.profile == params.va_profile,
        spec_plan_open(params, None, StreamMetadataState::Parsed(m), true, fourccs) is Ok,
    ensures
        spec_plan_open(
            params,
            None,
            StreamMetadataState::Parsed(m),
            true,
            fourccs,
        )->Ok_0.source == ContextSource::Reuse,
{
}

/// A first entry found by the scan really is a table entry for its class.
proof fn lemma_first_entry_is_table_entry(t: Seq<FormatMap>, rt_format: u32)
    ensures
        spec_first_entry_rec(t, rt_format) matches Some(fm) ==> t.contains(fm) && fm.rt_format
            == rt_format,
    decreases t.len(),
{
    if t.len() > 0 && t[0].rt_format != rt_format {
        lemma_first_entry_is_table_entry(t.drop_first(), rt_format);
        let rest = spec_first_entry_rec(t.drop_first(), rt_format);
        if rest is Some {
            let fm = rest->Some_0;
            let i = choose|i: int|
                0 <= i < t.drop_first().len() && t.drop_first()[i] == fm;
            assert(t[i + 1] == fm);
        }
    }
}

/// Applies a negotiation plan: moves or creates the hardware objects,
/// grows the surviving pool if the new coded resolution does not fit it
/// (purging undersized surfaces), and produces the new parsed state.
///
/// When the plan calls for a fresh context the device has already created
/// the config and context; they enter as `fresh`.
pub fn finish_open(
    plan: &OpenPlan,
    old_state: StreamMetadataState,
    old_pool: SurfacePool,
    fresh: Option<(HardwareConfig, HardwareContext)>,
) -> (r: (StreamMetadataState, SurfacePool))
    requires
        old_pool.wf(),
        is_known_rt_format(plan.rt_format),
        plan.source == ContextSource::Reuse ==> old_state is Parsed,
        plan.source == ContextSource::Fresh ==> fresh is Some,
    ensures
        r.0 matches StreamMetadataState::Parsed(m) && {
            &&& m.stream_info == (StreamInfo {
                format: spec_decoded_format_for_rt_format(plan.rt_format),
                coded_resolution: plan.coded_resolution,
                display_resolution: plan.display_resolution,
                min_num_frames: plan.min_num_surfaces,
            })
            &&& m.rt_format == plan.rt_format
            &&& m.profile == plan.profile
            &&& m.map_format == plan.map_fourcc
            &&& (plan.source == ContextSource::Reuse ==> {
                &&& old_state matches StreamMetadataState::Parsed(old)
                &&& m.context == old.context
                &&& m.config == old.config
            })
            &&& (plan.source == ContextSource::Fresh ==> {
                &&& fresh matches Some(f)
                &&& m.config == f.0
                &&& m.context == f.1
            })
        },
        r.1.wf(),
        r.1.spec_coded_resolution().spec_can_contain(plan.coded_resolution),
        plan.source == ContextSource::Fresh ==> {
            &&& r.1.spec_free() =~= Seq::<crate::pool::Surface>::empty()
            &&& r.1.spec_managed() =~= Seq::<crate::pool::Surface>::empty()
            &&& r.1.spec_rt_format() == plan.rt_format
            &&& r.1.spec_usage_hint() == Some(USAGE_HINT_DECODER)
            &&& r.1.spec_coded_resolution() == plan.coded_resolution
        },
        plan.source == ContextSource::Reuse ==> {
            &&& old_pool.spec_coded_resolution().spec_can_contain(plan.coded_resolution) ==> r.1
                == old_pool
            &&& !old_pool.spec_coded_resolution().spec_can_contain(plan.coded_resolution) ==> {
                &&& r.1.spec_coded_resolution() == plan.coded_resolution
                &&& r.1.spec_managed() == old_pool.spec_managed().filter(
                    |s: crate::pool::Surface| s.size.spec_can_contain(plan.coded_resolution),
                )
                &&& r.1.spec_free() == old_pool.spec_free().filter(
                    |s: crate::pool::Surface| s.size.spec_can_contain(plan.coded_resolution),
                )
                &&& r.1.spec_rt_format() == old_pool.spec_rt_format()
                &&& r.1.spec_usage_hint() == old_pool.spec_usage_hint()
            }
        },
{
    let (config, context, mut pool) = match plan.source {
        ContextSource::Reuse => {
            match old_state {
                StreamMetadataState::Parsed(old) => (old.config, old.context, old_pool),
                StreamMetadataState::Unparsed => vstd::pervasive::unreached(),
            }
        },
        ContextSource::Fresh => {
            let (config, context) = match fresh {
                Some(f) => f,
                None => vstd::pervasive::unreached(),
            };
            let pool = SurfacePool::new(
                plan.rt_format,
                Some(USAGE_HINT_DECODER),
                plan.coded_resolution,
            );
            (config, context, pool)
        },
    };

    if !pool.coded_resolution().can_contain(plan.coded_resolution) {
        // Grow the pool, purging what the new resolution cannot use; the
        // pool thus tracks the largest resolution seen, so later, smaller
        // sequences need no reallocation.
        pool.set_coded_resolution(plan.coded_resolution);
    }

    let metadata = ParsedStreamMetadata {
        context,
        config,
        stream_info: StreamInfo {
            format: crate::format::decoded_format_for_rt_format(plan.rt_format),
            coded_resolution: plan.coded_resolution,
            display_resolution: plan.display_resolution,
            min_num_frames: plan.min_num_surfaces,
        },
        map_format: plan.map_fourcc,
        rt_format: plan.rt_format,
        profile: plan.profile,
    };

    (StreamMetadataState::Parsed(metadata), pool)
}

} // verus!
