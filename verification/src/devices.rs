//! Decisions of the Windows adapter: which capture endpoints are offered, and in which
//! order.

use vstd::prelude::*;

use crate::buffers::{plan_buffers, spec_output_capacity, BufferPlan, SIGNAL_MONITOR_RING_FRAMES};
use crate::config::{
    config_is_valid, spec_latency_frames, spec_scaled_frames, validation_message, AudioDevice,
    EngineConfig, PIPELINE_SAMPLE_RATE,
};
use crate::error::EngineError;
use crate::metrics::{EngineMetrics, EngineState, SharedMetrics};
use crate::pulse::{device_views, opt_view};
use crate::sort::{is_stable_sort_by, lemma_sort_views, stable_sort_by_keys, text_order, SortKey};
use crate::text::{chars_equal, chars_of, concat_str};
use vstd::wrapping::u64_specs::wrapping_add;
use crate::vb_cable::{
    endpoint_matches, is_vb_cable_playback_endpoint, is_vb_cable_recording_endpoint, VB_CABLE_PLAYBACK_ENDPOINT_NAME,
    VB_CABLE_RECORDING_ENDPOINT_NAME,
};

verus! {

/// What `str::to_lowercase` returns for a text (full Unicode lower-case mapping).
pub uninterp spec fn unicode_lowercase(s: Seq<char>) -> Seq<char>;

/// Lower-cases a text with Unicode rules.
///
/// Trusted: `str::to_lowercase`. The contract only names its result as a function of the
/// text; the Unicode case tables are not restated here.
#[verifier::external_body]
fn to_lowercase(s: &str) -> (r: String)
    ensures
        r@ == unicode_lowercase(s@),
{
    s.to_lowercase()
}

/// A capture endpoint as the audio host lists it; a field is `None` when the host could
/// not report it.
#[derive(Debug)]
pub struct EndpointInfo {
    pub id: Option<String>,
    pub name: Option<String>,
}

/// The device an endpoint becomes: endpoints without an identifier or a name, and
/// VB-CABLE's recording side (to avoid feedback), are not offered.
pub open spec fn endpoint_device(default_id: Option<Seq<char>>, e: EndpointInfo) -> Option<
    (Seq<char>, Seq<char>, bool),
> {
    match (e.id, e.name) {
        (Some(id), Some(name)) => if endpoint_matches(
            name@,
            "cable output"@,
            VB_CABLE_RECORDING_ENDPOINT_NAME@,
        ) {
            None
        } else {
            Some((id@, name@, default_id == Some(id@)))
        },
        _ => None,
    }
}

/// The devices made from `endpoints`, in listing order.
pub open spec fn listed_endpoints(default_id: Option<Seq<char>>, endpoints: Seq<EndpointInfo>) -> Seq<
    (Seq<char>, Seq<char>, bool),
>
    decreases endpoints.len(),
{
    if endpoints.len() == 0 {
        Seq::empty()
    } else {
        let rest = listed_endpoints(default_id, endpoints.drop_last());
        match endpoint_device(default_id, endpoints.last()) {
            Some(d) => rest.push(d),
            None => rest,
        }
    }
}

/// Endpoint order: the default first, then by lower-cased name.
pub open spec fn endpoint_order(a: (Seq<char>, Seq<char>, bool), b: (Seq<char>, Seq<char>, bool)) -> int {
    if a.2 && !b.2 {
        -1
    } else if !a.2 && b.2 {
        1
    } else {
        text_order(unicode_lowercase(a.1), unicode_lowercase(b.1))
    }
}

pub open spec fn by_endpoint_order() -> spec_fn((Seq<char>, Seq<char>, bool), (Seq<char>, Seq<char>, bool)) -> int {
    |a: (Seq<char>, Seq<char>, bool), b: (Seq<char>, Seq<char>, bool)| endpoint_order(a, b)
}

/// A capture device with its name in the form it is ordered by.
pub open spec fn entry_view(e: (AudioDevice, Vec<char>)) -> ((Seq<char>, Seq<char>, bool), Seq<char>) {
    (e.0@, e.1@)
}

pub open spec fn entry_views(entries: Seq<(AudioDevice, Vec<char>)>) -> Seq<
    ((Seq<char>, Seq<char>, bool), Seq<char>),
> {
    entries.map_values(|e: (AudioDevice, Vec<char>)| entry_view(e))
}

/// Order of capture entries: the default first, then by the given ordering name.
pub open spec fn entry_order(
    a: ((Seq<char>, Seq<char>, bool), Seq<char>),
    b: ((Seq<char>, Seq<char>, bool), Seq<char>),
) -> int {
    if a.0.2 && !b.0.2 {
        -1
    } else if !a.0.2 && b.0.2 {
        1
    } else {
        text_order(a.1, b.1)
    }
}

pub open spec fn by_entry_order() -> spec_fn(
    ((Seq<char>, Seq<char>, bool), Seq<char>),
    ((Seq<char>, Seq<char>, bool), Seq<char>),
) -> int {
    |a: ((Seq<char>, Seq<char>, bool), Seq<char>), b: ((Seq<char>, Seq<char>, bool), Seq<char>)|
        entry_order(a, b)
}

/// Orders capture devices, each given with the name it is ordered by (its lower-cased
/// name): the default first, then by that name, equal entries in their given order.
pub fn order_capture_devices(entries: Vec<(AudioDevice, Vec<char>)>) -> (sorted: Vec<
    (AudioDevice, Vec<char>),
>)
    ensures
        exists|origin: Seq<int>|
            #[trigger] is_stable_sort_by(
                entry_views(entries@),
                by_entry_order(),
                entry_views(sorted@),
                origin,
            ),
{
    let mut keys: Vec<SortKey> = Vec::new();
    let mut i: usize = 0;
    while i < entries.len()
        invariant
            i <= entries.len(),
            keys@.len() == i,
            forall|k: int|
                0 <= k < i ==> (#[trigger] keys@[k]).text@ == entries@[k].1@ && keys@[k].minor == 0
                    && keys@[k].rank == (if entries@[k].0.is_default {
                    0u32
                } else {
                    1u32
                }),
        decreases entries.len() - i,
    {
        let text = entries[i].1.clone();
        let rank: u32 = if entries[i].0.is_default {
            0
        } else {
            1
        };
        keys.push(SortKey { rank, text, minor: 0 });
        i += 1;
    }
    let ghost input = entries@;
    let ghost key_seq = keys@;
    let sorted = stable_sort_by_keys(entries, keys);
    proof {
        let origin = choose|origin: Seq<int>| crate::sort::is_stable_sort(input, key_seq, sorted@, origin);
        let view = |e: (AudioDevice, Vec<char>)| entry_view(e);
        let order = by_entry_order();
        lemma_sort_views(input, key_seq, sorted@, origin, view, order);
        assert(input.map_values(view) =~= entry_views(input));
        assert(sorted@.map_values(view) =~= entry_views(sorted@));
    }
    sorted
}

/// Ordering entries by their lower-cased names orders the devices by `endpoint_order`.
proof fn lemma_entries_order_devices(
    entries: Seq<((Seq<char>, Seq<char>, bool), Seq<char>)>,
    sorted: Seq<((Seq<char>, Seq<char>, bool), Seq<char>)>,
    origin: Seq<int>,
)
    requires
        is_stable_sort_by(entries, by_entry_order(), sorted, origin),
        forall|i: int| 0 <= i < entries.len() ==> (#[trigger] entries[i]).1 == unicode_lowercase(entries[i].0.1),
    ensures
        is_stable_sort_by(
            entries.map_values(|e: ((Seq<char>, Seq<char>, bool), Seq<char>)| e.0),
            by_endpoint_order(),
            sorted.map_values(|e: ((Seq<char>, Seq<char>, bool), Seq<char>)| e.0),
            origin,
        ),
{
    let n = entries.len();
    let first = |e: ((Seq<char>, Seq<char>, bool), Seq<char>)| e.0;
    assert forall|k: int| 0 <= k < n implies (#[trigger] sorted[k]).1 == unicode_lowercase(sorted[k].0.1) by {
        assert(sorted[k] == entries[origin[k]]);
    }
    assert forall|k1: int, k2: int| 0 <= k1 < k2 < n implies endpoint_order(
        #[trigger] sorted.map_values(first)[k1],
        #[trigger] sorted.map_values(first)[k2],
    ) <= 0 by {
        assert(entry_order(sorted[k1], sorted[k2]) <= 0);
        assert(sorted[k1].1 == unicode_lowercase(sorted[k1].0.1));
        assert(sorted[k2].1 == unicode_lowercase(sorted[k2].0.1));
    }
    assert forall|k1: int, k2: int|
        0 <= k1 < k2 < n && endpoint_order(sorted.map_values(first)[k1], sorted.map_values(first)[k2])
            == 0 implies #[trigger] origin[k1] < #[trigger] origin[k2] by {
        assert(sorted[k1].1 == unicode_lowercase(sorted[k1].0.1));
        assert(sorted[k2].1 == unicode_lowercase(sorted[k2].0.1));
        assert(entry_order(sorted[k1], sorted[k2]) == 0);
    }
    assert forall|k: int| 0 <= k < n implies 0 <= #[trigger] origin[k] < n
        && sorted.map_values(first)[k] == entries.map_values(first)[origin[k]] by {
        assert(sorted[k] == entries[origin[k]]);
    }
}

/// The physical capture endpoints, default first, then by name ignoring case.
pub fn input_devices(default_id: Option<String>, endpoints: Vec<EndpointInfo>) -> (devices: Vec<
    AudioDevice,
>)
    ensures
        exists|origin: Seq<int>|
            #[trigger] is_stable_sort_by(
                listed_endpoints(opt_view(default_id), endpoints@),
                by_endpoint_order(),
                device_views(devices@),
                origin,
            ),
{
    let ghost dflt = opt_view(default_id);
    let mut entries: Vec<(AudioDevice, Vec<char>)> = Vec::new();
    let mut i: usize = 0;
    while i < endpoints.len()
        invariant
            i <= endpoints.len(),
            dflt == opt_view(default_id),
            entry_views(entries@).map_values(|e: ((Seq<char>, Seq<char>, bool), Seq<char>)| e.0)
                == listed_endpoints(dflt, endpoints@.take(i as int)),
            forall|k: int|
                0 <= k < entries@.len() ==> (#[trigger] entries@[k]).1@ == unicode_lowercase(
                    entries@[k].0.name@,
                ),
        decreases endpoints.len() - i,
    {
        let e = &endpoints[i];
        assert(endpoints@.take(i + 1).drop_last() =~= endpoints@.take(i as int));
        assert(endpoints@.take(i + 1).last() == endpoints@[i as int]);
        match (&e.id, &e.name) {
            (Some(id), Some(name)) => {
                if !is_vb_cable_recording_endpoint(name.as_str()) {
                    let is_default = match &default_id {
                        Some(d) => *d == *id,
                        None => false,
                    };
                    let lower = to_lowercase(name.as_str());
                    let text = chars_of(lower.as_str());
                    let ghost before = entries@;
                    entries.push((AudioDevice { id: id.clone(), name: name.clone(), is_default }, text));
                    assert(entry_views(entries@).map_values(
                        |e: ((Seq<char>, Seq<char>, bool), Seq<char>)| e.0,
                    ) =~= entry_views(before).map_values(
                        |e: ((Seq<char>, Seq<char>, bool), Seq<char>)| e.0,
                    ).push(endpoint_device(dflt, endpoints@[i as int])->0));
                }
            },
            _ => {},
        }
        i += 1;
    }
    assert(endpoints@.take(endpoints@.len() as int) =~= endpoints@);
    let ghost input = entries@;
    let sorted = order_capture_devices(entries);
    proof {
        let origin = choose|origin: Seq<int>|
            #[trigger] is_stable_sort_by(entry_views(input), by_entry_order(), entry_views(sorted@), origin);
        assert forall|k: int| 0 <= k < entry_views(input).len() implies (#[trigger] entry_views(input)[k]).1
            == unicode_lowercase(entry_views(input)[k].0.1) by {
            assert(entry_views(input)[k] == entry_view(input[k]));
        }
        lemma_entries_order_devices(entry_views(input), entry_views(sorted@), origin);
    }
    let ghost sorted_views = entry_views(sorted@);
    let mut rest = sorted;
    let mut devices: Vec<AudioDevice> = Vec::new();
    let n = rest.len();
    let mut k: usize = 0;
    while k < n
        invariant
            k <= n == sorted_views.len(),
            rest@.len() == n - k,
            forall|m: int| 0 <= m < rest@.len() ==> entry_view(#[trigger] rest@[m]) == sorted_views[m + k],
            device_views(devices@) == sorted_views.map_values(
                |e: ((Seq<char>, Seq<char>, bool), Seq<char>)| e.0,
            ).take(k as int),
        decreases n - k,
    {
        let ghost rest0 = rest@;
        let ghost devices0 = devices@;
        assert(device_views(devices0).len() == devices0.len());
        assert(devices0.len() == k);
        let (device, _) = rest.remove(0);
        assert(entry_view(rest0[0]) == sorted_views[k as int]);
        assert(device@ == sorted_views[k as int].0);
        devices.push(device);
        assert(devices@ == devices0.push(device));
        assert(device_views(devices@)[k as int] == sorted_views[k as int].0);
        assert forall|m: int| 0 <= m < rest@.len() implies entry_view(#[trigger] rest@[m])
            == sorted_views[m + k + 1] by {
            assert(rest@[m] == rest0[m + 1]);
        }
        k += 1;
        assert(device_views(devices@) =~= sorted_views.map_values(
            |e: ((Seq<char>, Seq<char>, bool), Seq<char>)| e.0,
        ).take(k as int));
    }
    assert(sorted_views.map_values(|e: ((Seq<char>, Seq<char>, bool), Seq<char>)| e.0).take(
        n as int,
    ) =~= sorted_views.map_values(|e: ((Seq<char>, Seq<char>, bool), Seq<char>)| e.0));
    devices
}

/// No device made from the endpoints is VB-CABLE's recording side.
proof fn lemma_listed_endpoints_exclude_cable(default_id: Option<Seq<char>>, endpoints: Seq<EndpointInfo>)
    ensures
        forall|k: int|
            0 <= k < listed_endpoints(default_id, endpoints).len() ==> !endpoint_matches(
                (#[trigger] listed_endpoints(default_id, endpoints)[k]).1,
                "cable output"@,
                VB_CABLE_RECORDING_ENDPOINT_NAME@,
            ),
    decreases endpoints.len(),
{
    if endpoints.len() > 0 {
        let earlier = endpoints.drop_last();
        lemma_listed_endpoints_exclude_cable(default_id, earlier);
        let rest = listed_endpoints(default_id, earlier);
        let all = listed_endpoints(default_id, endpoints);
        match endpoint_device(default_id, endpoints.last()) {
            Some(d) => {
                assert(all == rest.push(d));
                assert forall|k: int| 0 <= k < all.len() implies !endpoint_matches(
                    (#[trigger] all[k]).1,
                    "cable output"@,
                    VB_CABLE_RECORDING_ENDPOINT_NAME@,
                ) by {
                    if k < rest.len() {
                        assert(all[k] == rest[k]);
                    }
                }
            },
            None => {
                assert(all == rest);
            },
        }
    }
}

/// The capture list never offers VB-CABLE's recording side, which would feed the route's
/// own output back into it; and a default device comes before every other device.
pub proof fn lemma_capture_list_is_safe(
    default_id: Option<String>,
    endpoints: Seq<EndpointInfo>,
    devices: Seq<AudioDevice>,
    origin: Seq<int>,
)
    requires
        is_stable_sort_by(
            listed_endpoints(opt_view(default_id), endpoints),
            by_endpoint_order(),
            device_views(devices),
            origin,
        ),
    ensures
        forall|k: int|
            0 <= k < devices.len() ==> !endpoint_matches(
                (#[trigger] devices[k]).name@,
                "cable output"@,
                VB_CABLE_RECORDING_ENDPOINT_NAME@,
            ),
        forall|k1: int, k2: int|
            0 <= k1 < k2 < devices.len() && (#[trigger] devices[k2]).is_default ==> (#[trigger] devices[k1]).is_default,
{
    let listed = listed_endpoints(opt_view(default_id), endpoints);
    let views = device_views(devices);
    lemma_listed_endpoints_exclude_cable(opt_view(default_id), endpoints);
    assert forall|k: int| 0 <= k < devices.len() implies !endpoint_matches(
        (#[trigger] devices[k]).name@,
        "cable output"@,
        VB_CABLE_RECORDING_ENDPOINT_NAME@,
    ) by {
        assert(views[k] == listed[origin[k]]);
        assert(views[k] == devices[k]@);
    }
    assert forall|k1: int, k2: int|
        0 <= k1 < k2 < devices.len() && (#[trigger] devices[k2]).is_default implies (#[trigger] devices[k1]).is_default by {
        assert(views[k1] == devices[k1]@);
        assert(views[k2] == devices[k2]@);
        assert(endpoint_order(views[k1], views[k2]) <= 0);
    }
}

/// Whether an endpoint reported the identifier `wanted`.
pub open spec fn reports_id(entry: Option<String>, wanted: Seq<char>) -> bool {
    entry matches Some(id) && id@ == wanted
}

/// The first endpoint whose identifier is `wanted_id`; fails when no endpoint reported it.
pub fn find_input_device(ids: &Vec<Option<String>>, wanted_id: &str) -> (r: Result<usize, EngineError>)
    ensures
        match r {
            Ok(k) => k < ids@.len() && reports_id(ids@[k as int], wanted_id@) && forall|j: int|
                0 <= j < k ==> !reports_id(#[trigger] ids@[j], wanted_id@),
            Err(EngineError::InputDeviceNotFound(m)) => m@ == wanted_id@ && forall|j: int|
                0 <= j < ids@.len() ==> !reports_id(#[trigger] ids@[j], wanted_id@),
            Err(_) => false,
        },
{
    let wanted = chars_of(wanted_id);
    let mut i: usize = 0;
    while i < ids.len()
        invariant
            i <= ids.len(),
            wanted@ == wanted_id@,
            forall|j: int| 0 <= j < i ==> !reports_id(#[trigger] ids@[j], wanted_id@),
        decreases ids.len() - i,
    {
        match &ids[i] {
            Some(id) => {
                let candidate = chars_of(id.as_str());
                if chars_equal(candidate.as_slice(), wanted.as_slice()) {
                    return Ok(i);
                }
            },
            None => {},
        }
        i += 1;
    }
    Err(EngineError::InputDeviceNotFound(wanted_id.to_owned()))
}

/// Whether an output endpoint reported a name that identifies VB-CABLE's playback side.
pub open spec fn is_cable_playback(name: Option<String>) -> bool {
    name matches Some(n) && endpoint_matches(n@, "cable input"@, VB_CABLE_PLAYBACK_ENDPOINT_NAME@)
}

/// The first output endpoint that is VB-CABLE's playback side, by the names the endpoints
/// reported, or `None` when there is none.
pub fn find_vb_cable_playback_device(names: &Vec<Option<String>>) -> (r: Option<usize>)
    ensures
        match r {
            Some(k) => k < names@.len() && is_cable_playback(names@[k as int]) && forall|j: int|
                0 <= j < k ==> !is_cable_playback(#[trigger] names@[j]),
            None => forall|j: int| 0 <= j < names@.len() ==> !is_cable_playback(#[trigger] names@[j]),
        },
{
    let mut i: usize = 0;
    while i < names.len()
        invariant
            i <= names.len(),
            forall|j: int| 0 <= j < i ==> !is_cable_playback(#[trigger] names@[j]),
        decreases names.len() - i,
    {
        match &names[i] {
            Some(name) => {
                if is_vb_cable_playback_endpoint(name.as_str()) {
                    return Some(i);
                }
            },
            None => {},
        }
        i += 1;
    }
    None
}

/// Sample encodings of an endpoint format, as far as the choice of format tells them apart.
#[derive(Clone, Copy, Debug, PartialEq, Eq, Structural)]
pub enum SampleEncoding {
    F32,
    I16,
    I24,
    I32,
    F64,
    /// Direct Stream Digital, which the route cannot carry.
    Dsd,
    Other,
}

pub open spec fn spec_sample_format_rank(format: SampleEncoding) -> u8 {
    match format {
        SampleEncoding::F32 => 0,
        SampleEncoding::I16 => 1,
        SampleEncoding::I24 => 2,
        SampleEncoding::I32 => 3,
        SampleEncoding::F64 => 4,
        SampleEncoding::Dsd => 255,
        SampleEncoding::Other => 5,
    }
}

/// Preference among encodings, lowest first: 32-bit float, then integer PCM of growing
/// width, then 64-bit float, then anything else, and DSD last.
pub fn sample_format_rank(format: SampleEncoding) -> (r: u8)
    ensures
        r == spec_sample_format_rank(format),
{
    match format {
        SampleEncoding::F32 => 0,
        SampleEncoding::I16 => 1,
        SampleEncoding::I24 => 2,
        SampleEncoding::I32 => 3,
        SampleEncoding::F64 => 4,
        SampleEncoding::Dsd => 255,
        SampleEncoding::Other => 5,
    }
}

/// Fails for a DSD format, naming the endpoint and the format.
pub fn reject_dsd(format: SampleEncoding, format_name: &str, endpoint: &str) -> (r: Result<(), EngineError>)
    ensures
        match r {
            Ok(()) => format != SampleEncoding::Dsd,
            Err(EngineError::UnsupportedFormat(m)) => format == SampleEncoding::Dsd && m@ == endpoint@
                + " uses unsupported DSD format "@ + format_name@,
            Err(_) => false,
        },
{
    if format == SampleEncoding::Dsd {
        let head = concat_str(endpoint, " uses unsupported DSD format ");
        Err(EngineError::UnsupportedFormat(concat_str(head.as_str(), format_name)))
    } else {
        Ok(())
    }
}

/// A range of output configurations an endpoint supports.
#[derive(Clone, Copy, Debug, PartialEq, Eq, Structural)]
pub struct OutputFormatRange {
    pub channels: u16,
    pub encoding: SampleEncoding,
    pub min_sample_rate: u32,
    pub max_sample_rate: u32,
}

/// Whether a range can play PCM at the pipeline rate.
pub open spec fn usable_output(range: OutputFormatRange) -> bool {
    &&& range.min_sample_rate <= PIPELINE_SAMPLE_RATE <= range.max_sample_rate
    &&& range.encoding != SampleEncoding::Dsd
}

/// The output format of VB-CABLE's playback endpoint: among the ranges that play PCM at
/// the pipeline rate, the first with the most preferred encoding; fails when there is none.
pub fn vb_cable_output_format(ranges: &Vec<OutputFormatRange>) -> (r: Result<usize, EngineError>)
    ensures
        match r {
            Ok(k) => {
                &&& k < ranges@.len()
                &&& usable_output(ranges@[k as int])
                &&& forall|j: int|
                    0 <= j < ranges@.len() && usable_output(#[trigger] ranges@[j]) ==> spec_sample_format_rank(
                        ranges@[k as int].encoding,
                    ) <= spec_sample_format_rank(ranges@[j].encoding)
                &&& forall|j: int|
                    0 <= j < k && usable_output(#[trigger] ranges@[j]) ==> spec_sample_format_rank(
                        ranges@[k as int].encoding,
                    ) < spec_sample_format_rank(ranges@[j].encoding)
            },
            Err(EngineError::UnsupportedFormat(m)) => m@ == VB_CABLE_PLAYBACK_ENDPOINT_NAME@
                + " must support 48 kHz PCM"@ && forall|j: int|
                0 <= j < ranges@.len() ==> !usable_output(#[trigger] ranges@[j]),
            Err(_) => false,
        },
{
    let mut best: Option<usize> = None;
    let mut i: usize = 0;
    while i < ranges.len()
        invariant
            i <= ranges.len(),
            match best {
                None => forall|j: int| 0 <= j < i ==> !usable_output(#[trigger] ranges@[j]),
                Some(k) => {
                    &&& k < i
                    &&& usable_output(ranges@[k as int])
                    &&& forall|j: int|
                        0 <= j < i && usable_output(#[trigger] ranges@[j]) ==> spec_sample_format_rank(
                            ranges@[k as int].encoding,
                        ) <= spec_sample_format_rank(ranges@[j].encoding)
                    &&& forall|j: int|
                        0 <= j < k && usable_output(#[trigger] ranges@[j]) ==> spec_sample_format_rank(
                            ranges@[k as int].encoding,
                        ) < spec_sample_format_rank(ranges@[j].encoding)
                },
            },
        decreases ranges.len() - i,
    {
        let range = ranges[i];
        if range.min_sample_rate <= PIPELINE_SAMPLE_RATE && PIPELINE_SAMPLE_RATE <= range.max_sample_rate
            && range.encoding != SampleEncoding::Dsd {
            let rank = sample_format_rank(range.encoding);
            match best {
                None => {
                    best = Some(i);
                },
                Some(k) => {
                    if rank < sample_format_rank(ranges[k].encoding) {
                        best = Some(i);
                    }
                },
            }
        }
        i += 1;
    }
    match best {
        Some(k) => Ok(k),
        None => Err(
            EngineError::UnsupportedFormat(
                concat_str(VB_CABLE_PLAYBACK_ENDPOINT_NAME, " must support 48 kHz PCM"),
            ),
        ),
    }
}

/// Fails when an endpoint format reports no sample rate or no channels.
pub fn check_endpoint_formats(input_rate: u32, input_channels: u16, output_channels: u16) -> (r: Result<
    (),
    EngineError,
>)
    ensures
        match r {
            Ok(()) => input_rate != 0 && input_channels != 0 && output_channels != 0,
            Err(EngineError::UnsupportedFormat(m)) => (input_rate == 0 || input_channels == 0
                || output_channels == 0) && m@
                == "an endpoint reported zero channels or sample rate"@,
            Err(_) => false,
        },
{
    if input_rate == 0 || input_channels == 0 || output_channels == 0 {
        Err(
            EngineError::UnsupportedFormat(
                String::from_str("an endpoint reported zero channels or sample rate"),
            ),
        )
    } else {
        Ok(())
    }
}

/// The endpoints of a Windows route: the configured microphone and VB-CABLE's playback
/// side, as positions in the host's input and output lists.
#[derive(Clone, Copy, Debug, PartialEq, Eq, Structural)]
pub struct RouteEndpoints {
    pub input: usize,
    pub output: usize,
}

/// The first start decisions of a Windows route, in the order the route is opened: the
/// configuration, the configured microphone among the input endpoints' identifiers, then
/// VB-CABLE's playback side among the output endpoints' names.
pub fn find_route_endpoints(
    config: &EngineConfig,
    input_ids: &Vec<Option<String>>,
    output_names: &Vec<Option<String>>,
) -> (r: Result<RouteEndpoints, EngineError>)
    ensures
        !config_is_valid(*config) ==> (r matches Err(EngineError::InvalidConfiguration(m)) && m@
            == validation_message(*config)),
        config_is_valid(*config) && (forall|j: int|
            0 <= j < input_ids@.len() ==> !reports_id(#[trigger] input_ids@[j], config.input_device_id@))
            ==> (r matches Err(EngineError::InputDeviceNotFound(m)) && m@ == config.input_device_id@),
        config_is_valid(*config) && (exists|j: int|
            0 <= j < input_ids@.len() && reports_id(#[trigger] input_ids@[j], config.input_device_id@))
            && (forall|j: int| 0 <= j < output_names@.len() ==> !is_cable_playback(#[trigger] output_names@[j]))
            ==> (r matches Err(EngineError::VirtualOutputUnavailable(m)) && m@
            == VB_CABLE_PLAYBACK_ENDPOINT_NAME@),
        r matches Ok(e) ==> {
            &&& config_is_valid(*config)
            &&& e.input < input_ids@.len()
            &&& reports_id(input_ids@[e.input as int], config.input_device_id@)
            &&& forall|j: int| 0 <= j < e.input ==> !reports_id(#[trigger] input_ids@[j], config.input_device_id@)
            &&& e.output < output_names@.len()
            &&& is_cable_playback(output_names@[e.output as int])
            &&& forall|j: int| 0 <= j < e.output ==> !is_cable_playback(#[trigger] output_names@[j])
        },
        config_is_valid(*config) && (exists|j: int|
            0 <= j < input_ids@.len() && reports_id(#[trigger] input_ids@[j], config.input_device_id@))
            && (exists|j: int| 0 <= j < output_names@.len() && is_cable_playback(#[trigger] output_names@[j]))
            ==> r is Ok,
{
    config.validate()?;
    let input = find_input_device(input_ids, config.input_device_id.as_str())?;
    let output = match find_vb_cable_playback_device(output_names) {
        Some(k) => k,
        None => {
            return Err(
                EngineError::VirtualOutputUnavailable(VB_CABLE_PLAYBACK_ENDPOINT_NAME.to_owned()),
            );
        },
    };
    Ok(RouteEndpoints { input, output })
}

/// The default format of a capture endpoint.
#[derive(Debug)]
pub struct InputFormat {
    pub encoding: SampleEncoding,
    /// The encoding's name, as errors show it.
    pub encoding_name: String,
    pub sample_rate: u32,
    pub channels: u16,
}

/// The formats and ring sizes of a Windows route.
#[derive(Clone, Copy, Debug, PartialEq, Eq, Structural)]
pub struct RouteFormats {
    /// Position of the chosen range among the playback endpoint's ranges.
    pub output_format: usize,
    pub input_rate: u32,
    pub input_channels: u16,
    pub output_channels: u16,
    pub buffers: BufferPlan,
}

/// The ring sizes of a route for a valid configuration and a nonzero input rate.
pub open spec fn route_plan(config: EngineConfig, input_rate: u32) -> BufferPlan {
    let target = spec_latency_frames(PIPELINE_SAMPLE_RATE, config.target_latency_ms);
    BufferPlan {
        target_output_frames: target as usize,
        output_capacity: spec_output_capacity(target) as usize,
        input_capacity: spec_scaled_frames(spec_output_capacity(target), input_rate as nat) as usize,
        monitor_capacity: SIGNAL_MONITOR_RING_FRAMES,
    }
}

/// Whether range `k` is the one VB-CABLE's playback side is opened with: it plays PCM at
/// the pipeline rate, no such range has a more preferred encoding, and every such range
/// before it has a less preferred one.
pub open spec fn preferred_output(ranges: Seq<OutputFormatRange>, k: int) -> bool {
    &&& 0 <= k < ranges.len()
    &&& usable_output(ranges[k])
    &&& forall|j: int|
        0 <= j < ranges.len() && usable_output(#[trigger] ranges[j]) ==> spec_sample_format_rank(
            ranges[k].encoding,
        ) <= spec_sample_format_rank(ranges[j].encoding)
    &&& forall|j: int|
        0 <= j < k && usable_output(#[trigger] ranges[j]) ==> spec_sample_format_rank(
            ranges[k].encoding,
        ) < spec_sample_format_rank(ranges[j].encoding)
}

/// At most one range is the preferred one, so the route's output format is determined.
pub proof fn lemma_preferred_output_is_unique(ranges: Seq<OutputFormatRange>, a: int, b: int)
    requires
        preferred_output(ranges, a),
        preferred_output(ranges, b),
    ensures
        a == b,
{
    if a < b {
        assert(usable_output(ranges[a]));
    } else if b < a {
        assert(usable_output(ranges[b]));
    }
}

/// The remaining start decisions of a Windows route, in order, for a valid configuration:
/// the microphone's default format (as the host reported it, or its error) must not be
/// DSD; VB-CABLE's playback ranges (or the host's error) must offer PCM at the pipeline
/// rate; the formats must report channels and a rate; then the rings are sized.
pub fn plan_route_formats(
    config: &EngineConfig,
    input_format: Result<InputFormat, String>,
    output_ranges: Result<Vec<OutputFormatRange>, String>,
) -> (r: Result<RouteFormats, EngineError>)
    requires
        config_is_valid(*config),
    ensures
        match input_format {
            Err(e) => r matches Err(EngineError::UnsupportedFormat(m)) && m@ == e@,
            Ok(f) => if f.encoding == SampleEncoding::Dsd {
                r matches Err(EngineError::UnsupportedFormat(m)) && m@ == "input"@
                    + " uses unsupported DSD format "@ + f.encoding_name@
            } else {
                match output_ranges {
                    Err(e) => r matches Err(EngineError::UnsupportedFormat(m)) && m@ == e@,
                    Ok(ranges) => if forall|j: int|
                        0 <= j < ranges@.len() ==> !usable_output(#[trigger] ranges@[j]) {
                        r matches Err(EngineError::UnsupportedFormat(m)) && m@
                            == VB_CABLE_PLAYBACK_ENDPOINT_NAME@ + " must support 48 kHz PCM"@
                    } else {
                        match r {
                            Ok(plan) => {
                                &&& preferred_output(ranges@, plan.output_format as int)
                                &&& plan.input_rate == f.sample_rate
                                &&& plan.input_channels == f.channels
                                &&& plan.output_channels == ranges@[plan.output_format as int].channels
                                &&& f.sample_rate != 0 && f.channels != 0 && plan.output_channels != 0
                                &&& plan.buffers == route_plan(*config, f.sample_rate)
                            },
                            Err(EngineError::UnsupportedFormat(m)) => m@
                                == "an endpoint reported zero channels or sample rate"@ && (f.sample_rate
                                == 0 || f.channels == 0 || exists|k: int|
                                #[trigger] preferred_output(ranges@, k) && ranges@[k].channels == 0),
                            Err(_) => false,
                        }
                    },
                }
            },
        },
{
    let format = match input_format {
        Ok(format) => format,
        Err(e) => {
            return Err(EngineError::UnsupportedFormat(e));
        },
    };
    reject_dsd(format.encoding, format.encoding_name.as_str(), "input")?;
    let ranges = match output_ranges {
        Ok(ranges) => ranges,
        Err(e) => {
            return Err(EngineError::UnsupportedFormat(e));
        },
    };
    let chosen = vb_cable_output_format(&ranges)?;
    let output_channels = ranges[chosen].channels;
    assert(preferred_output(ranges@, chosen as int));
    check_endpoint_formats(format.sample_rate, format.channels, output_channels)?;
    let buffers = match plan_buffers(config, format.sample_rate) {
        Ok(plan) => plan,
        Err(e) => {
            proof {
                let target = spec_latency_frames(PIPELINE_SAMPLE_RATE, config.target_latency_ms);
                assert(target <= 12_000) by (nonlinear_arith)
                    requires
                        target == (48_000 * config.target_latency_ms as nat) / 1000,
                        config.target_latency_ms <= 250,
                ;
                assert(spec_output_capacity(target) <= 48_000);
                assert(spec_output_capacity(target) * format.sample_rate <= u64::MAX) by (nonlinear_arith)
                    requires
                        spec_output_capacity(target) <= 48_000,
                        format.sample_rate <= u32::MAX,
                ;
            }
            return Err(e);
        },
    };
    Ok(
        RouteFormats {
            output_format: chosen,
            input_rate: format.sample_rate,
            input_channels: format.channels,
            output_channels,
            buffers,
        },
    )
}

/// Kinds of error that the audio host reports on a running stream.
#[derive(Clone, Copy, Debug, PartialEq, Eq, Structural)]
pub enum StreamErrorKind {
    /// A buffer over- or underrun; the stream continues.
    Xrun,
    /// The default device changed; the stream continues on its endpoint.
    DeviceChanged,
    /// Real-time scheduling was refused; the stream continues.
    RealtimeDenied,
    /// Anything else: the stream is lost.
    Other,
}

/// What a stream error does to the route's metrics: a run is a discontinuity, a device
/// change or refused real-time scheduling is ignored, anything else faults the route with
/// `prefix` followed by the error's description.
pub open spec fn stream_error_effect(
    before: (EngineMetrics, Option<String>),
    after: (EngineMetrics, Option<String>),
    kind: StreamErrorKind,
    input_side: bool,
    prefix: Seq<char>,
    description: Seq<char>,
) -> bool {
    match kind {
        StreamErrorKind::Xrun => after.1 == before.1 && if input_side {
            after.0 == (EngineMetrics {
                input_discontinuities: wrapping_add(before.0.input_discontinuities, 1),
                ..before.0
            })
        } else {
            after.0 == (EngineMetrics {
                output_discontinuities: wrapping_add(before.0.output_discontinuities, 1),
                ..before.0
            })
        },
        StreamErrorKind::DeviceChanged | StreamErrorKind::RealtimeDenied => after == before,
        StreamErrorKind::Other => {
            &&& after.0 == (EngineMetrics {
                stream_faults: wrapping_add(before.0.stream_faults, 1),
                state: EngineState::Faulted,
                ..before.0
            })
            &&& (before.1 is Some ==> after.1 == before.1)
            &&& (before.1 is None ==> after.1 is Some && after.1->0@ == prefix + description)
        },
    }
}

/// Accounts for an error reported on the capture stream.
pub fn handle_input_stream_error(metrics: &mut SharedMetrics, kind: StreamErrorKind, description: &str)
    ensures
        stream_error_effect(
            (old(metrics).counters(), old(metrics).fault()),
            (final(metrics).counters(), final(metrics).fault()),
            kind,
            true,
            "input stream: "@,
            description@,
        ),
{
    match kind {
        StreamErrorKind::Xrun => metrics.add_input_discontinuity(),
        StreamErrorKind::DeviceChanged | StreamErrorKind::RealtimeDenied => {},
        StreamErrorKind::Other => metrics.mark_stream_fault(concat_str("input stream: ", description)),
    }
}

/// Accounts for an error reported on the VB-CABLE playback stream.
pub fn handle_output_stream_error(metrics: &mut SharedMetrics, kind: StreamErrorKind, description: &str)
    ensures
        stream_error_effect(
            (old(metrics).counters(), old(metrics).fault()),
            (final(metrics).counters(), final(metrics).fault()),
            kind,
            false,
            "VB-CABLE output stream: "@,
            description@,
        ),
{
    match kind {
        StreamErrorKind::Xrun => metrics.add_output_discontinuity(),
        StreamErrorKind::DeviceChanged | StreamErrorKind::RealtimeDenied => {},
        StreamErrorKind::Other => metrics.mark_stream_fault(
            concat_str("VB-CABLE output stream: ", description),
        ),
    }
}

} // verus!
