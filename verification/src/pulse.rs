//! Decisions of the Linux audio-server adapter: which capture sources are microphones,
//! the virtual microphone's module arguments, and which leftover modules to remove.

use vstd::prelude::*;

use crate::buffers::{plan_buffers, spec_output_capacity, BufferPlan, SIGNAL_MONITOR_RING_FRAMES};
use crate::config::{
    config_is_valid, spec_latency_frames, spec_scaled_frames, validation_message, AudioDevice,
    EngineConfig, PIPELINE_SAMPLE_RATE,
};
use crate::error::EngineError;
use crate::sort::{is_stable_sort_by, lemma_sort_views, stable_sort_by_keys, text_order, SortKey};
use crate::text::{chars_equal, chars_of, concat_str, starts_with};

verus! {

/// Name of the null sink that receives processed audio.
pub const SINK_NAME: &'static str = "noise_hoihoi_output";

/// Name of the virtual microphone source.
pub const SOURCE_NAME: &'static str = "noise_hoihoi_microphone";

/// Description of the virtual microphone shown to recording applications.
pub const OUTPUT_MICROPHONE_NAME: &'static str = "NoiseHoiHoi Microphone";

/// A start failure of the Linux audio route, with its reason.
pub fn error(message: &str) -> (e: EngineError)
    ensures
        e matches EngineError::Start(m) && m@ == "Linux audio: "@ + message@,
{
    EngineError::Start(concat_str("Linux audio: ", message))
}

/// Whether a capture source is a physical microphone: not a sink monitor and not one of
/// this application's own virtual sources.
pub open spec fn spec_is_input(name: Seq<char>, is_monitor: bool) -> bool {
    !is_monitor && name != SOURCE_NAME@ && !"noise_hoihoi_"@.is_prefix_of(name)
}

pub fn is_input(name: &str, is_monitor: bool) -> (r: bool)
    ensures
        r == spec_is_input(name@, is_monitor),
{
    let chars = chars_of(name);
    let own = chars_of(SOURCE_NAME);
    let prefix = chars_of("noise_hoihoi_");
    !is_monitor && !crate::text::chars_equal(chars.as_slice(), own.as_slice()) && !starts_with(
        chars.as_slice(),
        prefix.as_slice(),
    )
}

/// Arguments of the null sink module.
pub open spec fn spec_sink_arguments() -> Seq<char> {
    "sink_name="@ + SINK_NAME@
        + " rate=48000 channels=1 channel_map=mono sink_properties=device.description=NoiseHoiHoi_Output"@
}

/// Arguments of the remap-source module that exposes the sink monitor as a microphone.
pub open spec fn spec_source_arguments() -> Seq<char> {
    "master="@ + SINK_NAME@ + ".monitor source_name="@ + SOURCE_NAME@
        + " channels=1 channel_map=mono master_channel_map=mono source_properties=\"device.description='"@
        + OUTPUT_MICROPHONE_NAME@ + "'\""@
}

pub fn sink_arguments() -> (r: String)
    ensures
        r@ == spec_sink_arguments(),
{
    let a = concat_str("sink_name=", SINK_NAME);
    concat_str(
        a.as_str(),
        " rate=48000 channels=1 channel_map=mono sink_properties=device.description=NoiseHoiHoi_Output",
    )
}

pub fn source_arguments() -> (r: String)
    ensures
        r@ == spec_source_arguments(),
{
    let a = concat_str("master=", SINK_NAME);
    let b = concat_str(a.as_str(), ".monitor source_name=");
    let c = concat_str(b.as_str(), SOURCE_NAME);
    let d = concat_str(
        c.as_str(),
        " channels=1 channel_map=mono master_channel_map=mono source_properties=\"device.description='",
    );
    let e = concat_str(d.as_str(), OUTPUT_MICROPHONE_NAME);
    let r = concat_str(e.as_str(), "'\"");
    assert(r@ =~= spec_source_arguments());
    r
}

/// Whether a listed name is exactly `wanted`.
pub open spec fn is_named(entry: Option<String>, wanted: Seq<char>) -> bool {
    entry matches Some(n) && n@ == wanted
}

/// Whether any of the listed names is exactly `wanted`.
pub open spec fn lists_name(names: Seq<Option<String>>, wanted: Seq<char>) -> bool {
    exists|k: int| 0 <= k < names.len() && is_named(#[trigger] names[k], wanted)
}

fn find_name(names: &Vec<Option<String>>, wanted: &str) -> (r: bool)
    ensures
        r == lists_name(names@, wanted@),
{
    let target = chars_of(wanted);
    let mut i: usize = 0;
    while i < names.len()
        invariant
            i <= names.len(),
            target@ == wanted@,
            forall|j: int| 0 <= j < i ==> !is_named(#[trigger] names@[j], wanted@),
        decreases names.len() - i,
    {
        match &names[i] {
            Some(n) => {
                let candidate = chars_of(n.as_str());
                if chars_equal(candidate.as_slice(), target.as_slice()) {
                    return true;
                }
            },
            None => {},
        }
        i += 1;
    }
    false
}

/// Refuses to create the virtual microphone when a sink or a source with its names already
/// exists, given the names of the server's sinks and sources.
pub fn check_microphone_free(sink_names: &Vec<Option<String>>, source_names: &Vec<Option<String>>) -> (r:
    Result<(), EngineError>)
    ensures
        match r {
            Ok(()) => !lists_name(sink_names@, SINK_NAME@) && !lists_name(source_names@, SOURCE_NAME@),
            Err(EngineError::Start(m)) => (lists_name(sink_names@, SINK_NAME@) || lists_name(
                source_names@,
                SOURCE_NAME@,
            )) && m@ == "Linux audio: "@ + MICROPHONE_OCCUPIED@,
            Err(_) => false,
        },
{
    if find_name(sink_names, SINK_NAME) || find_name(source_names, SOURCE_NAME) {
        Err(error(MICROPHONE_OCCUPIED))
    } else {
        Ok(())
    }
}

/// Reason given when the virtual microphone's endpoints already exist.
pub const MICROPHONE_OCCUPIED: &'static str = "NoiseHoiHoi virtual microphone already exists; close the other instance or remove stale NoiseHoiHoi modules (see Linux README)";

/// The failure reported when the audio server refuses to load `module`.
pub fn module_load_failure(module: &str) -> (e: EngineError)
    ensures
        e matches EngineError::Start(m) && m@ == "Linux audio: "@ + "cannot load "@ + module@
            + "; the audio server must allow virtual microphone modules"@,
{
    let head = concat_str("cannot load ", module);
    let reason = concat_str(head.as_str(), "; the audio server must allow virtual microphone modules");
    let e = error(reason.as_str());
    assert("Linux audio: "@ + reason@ =~= "Linux audio: "@ + "cannot load "@ + module@
        + "; the audio server must allow virtual microphone modules"@);
    e
}

/// State of a stream or of the server connection, as the audio server reports it.
#[derive(Clone, Copy, Debug, PartialEq, Eq, Structural)]
pub enum ServerState {
    Unconnected,
    Connecting,
    Ready,
    Failed,
    Terminated,
}

/// Whether a state means that the stream or connection is gone.
pub open spec fn is_lost(state: ServerState) -> bool {
    state == ServerState::Failed || state == ServerState::Terminated
}

/// Reason given when a stream of the route is lost.
pub const STREAMS_LOST: &'static str = "microphone or output disconnected; select a microphone and Retry";

/// Reason given when the connection to the audio server is lost.
pub const SERVER_LOST: &'static str = "audio server disconnected; start PipeWire with pipewire-pulse or PulseAudio, then Retry";

/// Fails when the capture or the playback stream of the route is lost.
pub fn check_streams(input: ServerState, output: ServerState) -> (r: Result<(), EngineError>)
    ensures
        match r {
            Ok(()) => !is_lost(input) && !is_lost(output),
            Err(EngineError::Start(m)) => (is_lost(input) || is_lost(output)) && m@ == "Linux audio: "@
                + STREAMS_LOST@,
            Err(_) => false,
        },
{
    if input == ServerState::Failed || input == ServerState::Terminated || output
        == ServerState::Failed || output == ServerState::Terminated {
        Err(error(STREAMS_LOST))
    } else {
        Ok(())
    }
}

/// Fails when one iteration of the server's main loop failed or the connection is lost.
pub fn check_server(iterated: bool, context: ServerState) -> (r: Result<(), EngineError>)
    ensures
        match r {
            Ok(()) => iterated && !is_lost(context),
            Err(EngineError::Start(m)) => (!iterated || is_lost(context)) && m@ == "Linux audio: "@
                + SERVER_LOST@,
            Err(_) => false,
        },
{
    if !iterated || context == ServerState::Failed || context == ServerState::Terminated {
        Err(error(SERVER_LOST))
    } else {
        Ok(())
    }
}

/// Fails when the configured microphone is not among the listed devices.
pub fn check_input_listed(devices: &Vec<AudioDevice>, input_device_id: &str) -> (r: Result<(), EngineError>)
    ensures
        match r {
            Ok(()) => exists|k: int| 0 <= k < devices@.len() && (#[trigger] devices@[k]).id@ == input_device_id@,
            Err(EngineError::InputDeviceNotFound(m)) => m@ == input_device_id@ && forall|k: int|
                0 <= k < devices@.len() ==> (#[trigger] devices@[k]).id@ != input_device_id@,
            Err(_) => false,
        },
{
    let wanted = chars_of(input_device_id);
    let mut i: usize = 0;
    while i < devices.len()
        invariant
            i <= devices.len(),
            wanted@ == input_device_id@,
            forall|k: int| 0 <= k < i ==> (#[trigger] devices@[k]).id@ != input_device_id@,
        decreases devices.len() - i,
    {
        let candidate = chars_of(devices[i].id.as_str());
        if chars_equal(candidate.as_slice(), wanted.as_slice()) {
            return Ok(());
        }
        i += 1;
    }
    Err(EngineError::InputDeviceNotFound(input_device_id.to_owned()))
}

/// The ring sizes of a route at the pipeline rate for a valid configuration.
pub open spec fn pipeline_plan(config: EngineConfig) -> BufferPlan {
    let target = spec_latency_frames(PIPELINE_SAMPLE_RATE, config.target_latency_ms);
    BufferPlan {
        target_output_frames: target as usize,
        output_capacity: spec_output_capacity(target) as usize,
        input_capacity: spec_scaled_frames(spec_output_capacity(target), PIPELINE_SAMPLE_RATE as nat) as usize,
        monitor_capacity: SIGNAL_MONITOR_RING_FRAMES,
    }
}

/// The start decisions of a Linux route, in the order the route is opened: the
/// configuration, the ring sizes, the microphone among the server's sources, and that the
/// virtual microphone is free. `devices` are the listed microphones; `sink_names` and
/// `source_names` the names of the server's sinks and sources.
pub fn plan_linux_route(
    config: &EngineConfig,
    devices: &Vec<AudioDevice>,
    sink_names: &Vec<Option<String>>,
    source_names: &Vec<Option<String>>,
) -> (r: Result<BufferPlan, EngineError>)
    ensures
        !config_is_valid(*config) ==> (r matches Err(EngineError::InvalidConfiguration(m)) && m@
            == validation_message(*config)),
        config_is_valid(*config) && !(exists|k: int|
            0 <= k < devices@.len() && (#[trigger] devices@[k]).id@ == config.input_device_id@)
            ==> (r matches Err(EngineError::InputDeviceNotFound(m)) && m@ == config.input_device_id@),
        config_is_valid(*config) && (exists|k: int|
            0 <= k < devices@.len() && (#[trigger] devices@[k]).id@ == config.input_device_id@)
            && (lists_name(sink_names@, SINK_NAME@) || lists_name(source_names@, SOURCE_NAME@))
            ==> (r matches Err(EngineError::Start(m)) && m@ == "Linux audio: "@ + MICROPHONE_OCCUPIED@),
        r matches Ok(plan) ==> {
            &&& config_is_valid(*config)
            &&& exists|k: int|
                0 <= k < devices@.len() && (#[trigger] devices@[k]).id@ == config.input_device_id@
            &&& !lists_name(sink_names@, SINK_NAME@)
            &&& !lists_name(source_names@, SOURCE_NAME@)
            &&& plan == pipeline_plan(*config)
        },
        config_is_valid(*config) && (exists|k: int|
            0 <= k < devices@.len() && (#[trigger] devices@[k]).id@ == config.input_device_id@)
            && !lists_name(sink_names@, SINK_NAME@) && !lists_name(source_names@, SOURCE_NAME@)
            ==> r is Ok,
{
    let plan = match plan_buffers(config, PIPELINE_SAMPLE_RATE) {
        Ok(plan) => plan,
        Err(e) => {
            proof {
                if config_is_valid(*config) {
                    let target = spec_latency_frames(PIPELINE_SAMPLE_RATE, config.target_latency_ms);
                    assert(target <= 12_000) by (nonlinear_arith)
                        requires
                            target == (48_000 * config.target_latency_ms as nat) / 1000,
                            config.target_latency_ms <= 250,
                    ;
                    assert(spec_output_capacity(target) <= 48_000);
                    assert(spec_output_capacity(target) * 48_000 <= u64::MAX) by (nonlinear_arith)
                        requires
                            spec_output_capacity(target) <= 48_000,
                    ;
                }
            }
            return Err(e);
        },
    };
    check_input_listed(devices, config.input_device_id.as_str())?;
    check_microphone_free(sink_names, source_names)?;
    Ok(plan)
}

/// A capture source as the audio server lists it.
#[derive(Debug)]
pub struct SourceInfo {
    pub name: Option<String>,
    pub description: Option<String>,
    pub monitor_of_sink: bool,
}

pub open spec fn opt_view(s: Option<String>) -> Option<Seq<char>> {
    match s {
        Some(v) => Some(v@),
        None => None,
    }
}

/// The device a source becomes, if it is a named microphone: identified by its name,
/// labelled by its description (else its name), default when named as the default source.
pub open spec fn source_device(default_source: Option<Seq<char>>, source: SourceInfo) -> Option<
    (Seq<char>, Seq<char>, bool),
> {
    match source.name {
        None => None,
        Some(name) => if spec_is_input(name@, source.monitor_of_sink) {
            Some(
                (
                    name@,
                    match source.description {
                        Some(d) => d@,
                        None => name@,
                    },
                    default_source == Some(name@),
                ),
            )
        } else {
            None
        },
    }
}

/// The devices made from `sources`, in listing order.
pub open spec fn listed_devices(default_source: Option<Seq<char>>, sources: Seq<SourceInfo>) -> Seq<
    (Seq<char>, Seq<char>, bool),
>
    decreases sources.len(),
{
    if sources.len() == 0 {
        Seq::empty()
    } else {
        let rest = listed_devices(default_source, sources.drop_last());
        match source_device(default_source, sources.last()) {
            Some(d) => rest.push(d),
            None => rest,
        }
    }
}

/// Device order: the default device first, then by display name.
pub open spec fn device_order(a: (Seq<char>, Seq<char>, bool), b: (Seq<char>, Seq<char>, bool)) -> int {
    if a.2 && !b.2 {
        -1
    } else if !a.2 && b.2 {
        1
    } else {
        text_order(a.1, b.1)
    }
}

/// `device_order` as a function value.
pub open spec fn by_device_order() -> spec_fn((Seq<char>, Seq<char>, bool), (Seq<char>, Seq<char>, bool)) -> int {
    |a: (Seq<char>, Seq<char>, bool), b: (Seq<char>, Seq<char>, bool)| device_order(a, b)
}

/// The views of a list of devices.
pub open spec fn device_views(devices: Seq<AudioDevice>) -> Seq<(Seq<char>, Seq<char>, bool)> {
    devices.map_values(|d: AudioDevice| d@)
}

/// `removal_order` as a function value.
pub open spec fn by_removal_order() -> spec_fn((bool, u32), (bool, u32)) -> int {
    |a: (bool, u32), b: (bool, u32)| removal_order(a, b)
}

/// The microphones among the listed capture sources, default first, then by name.
pub fn input_devices(default_source: Option<String>, sources: Vec<SourceInfo>) -> (devices: Vec<
    AudioDevice,
>)
    ensures
        exists|origin: Seq<int>|
            #[trigger] is_stable_sort_by(
                listed_devices(opt_view(default_source), sources@),
                by_device_order(),
                device_views(devices@),
                origin,
            ),
{
    let ghost dflt = opt_view(default_source);
    let mut found: Vec<AudioDevice> = Vec::new();
    let mut keys: Vec<SortKey> = Vec::new();
    let mut i: usize = 0;
    while i < sources.len()
        invariant
            i <= sources.len(),
            dflt == opt_view(default_source),
            device_views(found@) == listed_devices(dflt, sources@.take(i as int)),
            keys@.len() == found@.len(),
            forall|k: int|
                0 <= k < found@.len() ==> (#[trigger] keys@[k]).text@ == found@[k].name@ && keys@[k].minor
                    == 0 && keys@[k].rank == (if found@[k].is_default {
                    0u32
                } else {
                    1u32
                }),
        decreases sources.len() - i,
    {
        let source = &sources[i];
        assert(sources@.take(i + 1).drop_last() =~= sources@.take(i as int));
        assert(sources@.take(i + 1).last() == sources@[i as int]);
        match &source.name {
            None => {},
            Some(name) => {
                if is_input(name.as_str(), source.monitor_of_sink) {
                    let label = match &source.description {
                        Some(d) => d.clone(),
                        None => name.clone(),
                    };
                    let is_default = match &default_source {
                        Some(d) => *d == *name,
                        None => false,
                    };
                    let text = chars_of(label.as_str());
                    keys.push(SortKey { rank: if is_default { 0 } else { 1 }, text, minor: 0 });
                    found.push(AudioDevice { id: name.clone(), name: label, is_default });
                    assert(device_views(found@) =~= listed_devices(
                        dflt,
                        sources@.take(i as int),
                    ).push(source_device(dflt, sources@[i as int])->0));
                }
            },
        }
        i += 1;
    }
    assert(sources@.take(sources@.len() as int) =~= sources@);
    let ghost input = found@;
    let ghost key_seq = keys@;
    let sorted = stable_sort_by_keys(found, keys);
    proof {
        let origin = choose|origin: Seq<int>| crate::sort::is_stable_sort(input, key_seq, sorted@, origin);
        let view = |d: AudioDevice| d@;
        let order = by_device_order();
        assert forall|i: int, j: int| 0 <= i < input.len() && 0 <= j < input.len() implies crate::sort::key_order(
            key_seq[i],
            key_seq[j],
        ) == order(view(input[i]), view(input[j])) by {
            assert(key_seq[i].text@ == input[i].name@);
            assert(key_seq[j].text@ == input[j].name@);
        }
        lemma_sort_views(input, key_seq, sorted@, origin, view, order);
        assert(input.map_values(view) =~= device_views(input));
        assert(sorted@.map_values(view) =~= device_views(sorted@));
    }
    sorted
}

/// Whether `source` is a capture source (not a sink monitor) named `id`.
pub open spec fn is_capture_source_named(source: SourceInfo, id: Seq<char>) -> bool {
    !source.monitor_of_sink && source.name is Some && source.name->0@ == id
}

/// Every device made from the sources is a named capture source and a microphone.
proof fn lemma_listed_devices_are_inputs(default_source: Option<Seq<char>>, sources: Seq<SourceInfo>)
    ensures
        forall|k: int|
            0 <= k < listed_devices(default_source, sources).len() ==> {
                &&& spec_is_input((#[trigger] listed_devices(default_source, sources)[k]).0, false)
                &&& exists|j: int|
                    0 <= j < sources.len() && is_capture_source_named(
                        #[trigger] sources[j],
                        listed_devices(default_source, sources)[k].0,
                    )
            },
    decreases sources.len(),
{
    if sources.len() > 0 {
        let earlier = sources.drop_last();
        lemma_listed_devices_are_inputs(default_source, earlier);
        let rest = listed_devices(default_source, earlier);
        let all = listed_devices(default_source, sources);
        match source_device(default_source, sources.last()) {
            Some(d) => {
                assert(all == rest.push(d));
                assert forall|k: int| 0 <= k < all.len() implies {
                    &&& spec_is_input((#[trigger] all[k]).0, false)
                    &&& exists|j: int|
                        0 <= j < sources.len() && is_capture_source_named(#[trigger] sources[j], all[k].0)
                } by {
                    if k < rest.len() {
                        assert(all[k] == rest[k]);
                        let j = choose|j: int|
                            0 <= j < earlier.len() && is_capture_source_named(#[trigger] earlier[j], rest[k].0);
                        assert(sources[j] == earlier[j]);
                    } else {
                        assert(is_capture_source_named(sources[sources.len() - 1], all[k].0));
                    }
                }
            },
            None => {
                assert(all == rest);
                assert forall|k: int| 0 <= k < all.len() implies exists|j: int|
                    0 <= j < sources.len() && is_capture_source_named(
                        #[trigger] sources[j],
                        (#[trigger] all[k]).0,
                    ) by {
                    let j = choose|j: int|
                        0 <= j < earlier.len() && is_capture_source_named(#[trigger] earlier[j], rest[k].0);
                    assert(sources[j] == earlier[j]);
                }
            },
        }
    }
}

/// The microphone list offers only capture sources, never a sink monitor, and never this
/// application's own virtual sources, either of which would feed the route back into
/// itself; and a default device comes before every other device.
pub proof fn lemma_microphone_list_is_safe(
    default_source: Option<String>,
    sources: Seq<SourceInfo>,
    devices: Seq<AudioDevice>,
    origin: Seq<int>,
)
    requires
        is_stable_sort_by(
            listed_devices(opt_view(default_source), sources),
            by_device_order(),
            device_views(devices),
            origin,
        ),
    ensures
        forall|k: int| 0 <= k < devices.len() ==> spec_is_input((#[trigger] devices[k]).id@, false),
        forall|k: int|
            0 <= k < devices.len() ==> exists|j: int|
                0 <= j < sources.len() && is_capture_source_named(
                    #[trigger] sources[j],
                    (#[trigger] devices[k]).id@,
                ),
        forall|k1: int, k2: int|
            0 <= k1 < k2 < devices.len() && (#[trigger] devices[k2]).is_default ==> (#[trigger] devices[k1]).is_default,
{
    let listed = listed_devices(opt_view(default_source), sources);
    let views = device_views(devices);
    lemma_listed_devices_are_inputs(opt_view(default_source), sources);
    assert forall|k: int| 0 <= k < devices.len() implies spec_is_input(
        (#[trigger] devices[k]).id@,
        false,
    ) && exists|j: int|
        0 <= j < sources.len() && is_capture_source_named(#[trigger] sources[j], devices[k].id@) by {
        assert(views[k] == listed[origin[k]]);
        assert(views[k] == devices[k]@);
    }
    assert forall|k1: int, k2: int|
        0 <= k1 < k2 < devices.len() && (#[trigger] devices[k2]).is_default implies (#[trigger] devices[k1]).is_default by {
        assert(views[k1] == devices[k1]@);
        assert(views[k2] == devices[k2]@);
        assert(device_order(views[k1], views[k2]) <= 0);
    }
}

/// A loaded module as the audio server lists it.
#[derive(Debug)]
pub struct ModuleInfo {
    pub name: Option<String>,
    pub argument: Option<String>,
    pub index: u32,
}

/// Whether a module is one this application loads, with exactly its arguments; yields
/// whether it is the null sink.
pub open spec fn owned_module(module: ModuleInfo) -> Option<(bool, u32)> {
    let name = match module.name {
        Some(n) => n@,
        None => Seq::empty(),
    };
    let args = match module.argument {
        Some(a) => a@,
        None => Seq::empty(),
    };
    if name == "module-null-sink"@ && args == spec_sink_arguments() {
        Some((true, module.index))
    } else if name == "module-remap-source"@ && args == spec_source_arguments() {
        Some((false, module.index))
    } else {
        None
    }
}

/// This application's modules among `modules`, in listing order.
pub open spec fn owned_modules(modules: Seq<ModuleInfo>) -> Seq<(bool, u32)>
    decreases modules.len(),
{
    if modules.len() == 0 {
        Seq::empty()
    } else {
        let rest = owned_modules(modules.drop_last());
        match owned_module(modules.last()) {
            Some(m) => rest.push(m),
            None => rest,
        }
    }
}

/// Removal order: remap sources (which depend on their sink) before null sinks, then by
/// module index.
pub open spec fn removal_order(a: (bool, u32), b: (bool, u32)) -> int {
    if !a.0 && b.0 {
        -1
    } else if a.0 && !b.0 {
        1
    } else if a.1 < b.1 {
        -1
    } else if a.1 > b.1 {
        1
    } else {
        0
    }
}

fn module_field(field: &Option<String>) -> (r: Vec<char>)
    ensures
        r@ == match field {
            Some(v) => v@,
            None => Seq::<char>::empty(),
        },
{
    match field {
        Some(v) => chars_of(v.as_str()),
        None => Vec::new(),
    }
}

/// Modules left behind by an earlier run, with exactly this application's module types and
/// arguments, in the order in which they must be unloaded: each entry is whether it is the
/// null sink, and its index.
pub fn abandoned_modules(modules: &Vec<ModuleInfo>) -> (owned: Vec<(bool, u32)>)
    ensures
        exists|origin: Seq<int>|
            #[trigger] is_stable_sort_by(owned_modules(modules@), by_removal_order(), owned@, origin),
{
    let sink_args = sink_arguments();
    let source_args = source_arguments();
    let sink_args_chars = chars_of(sink_args.as_str());
    let source_args_chars = chars_of(source_args.as_str());
    let null_sink = chars_of("module-null-sink");
    let remap_source = chars_of("module-remap-source");
    let mut found: Vec<(bool, u32)> = Vec::new();
    let mut keys: Vec<SortKey> = Vec::new();
    let mut i: usize = 0;
    while i < modules.len()
        invariant
            i <= modules.len(),
            sink_args_chars@ == spec_sink_arguments(),
            source_args_chars@ == spec_source_arguments(),
            null_sink@ == "module-null-sink"@,
            remap_source@ == "module-remap-source"@,
            found@ == owned_modules(modules@.take(i as int)),
            keys@.len() == found@.len(),
            forall|k: int|
                0 <= k < found@.len() ==> (#[trigger] keys@[k]).text@.len() == 0 && keys@[k].minor
                    == found@[k].1 as u64 && keys@[k].rank == (if found@[k].0 {
                    1u32
                } else {
                    0u32
                }),
        decreases modules.len() - i,
    {
        let module = &modules[i];
        assert(modules@.take(i + 1).drop_last() =~= modules@.take(i as int));
        assert(modules@.take(i + 1).last() == modules@[i as int]);
        let name = module_field(&module.name);
        let args = module_field(&module.argument);
        let is_sink = crate::text::chars_equal(name.as_slice(), null_sink.as_slice())
            && crate::text::chars_equal(args.as_slice(), sink_args_chars.as_slice());
        let is_source = crate::text::chars_equal(name.as_slice(), remap_source.as_slice())
            && crate::text::chars_equal(args.as_slice(), source_args_chars.as_slice());
        if is_sink || is_source {
            found.push((is_sink, module.index));
            let key = SortKey { rank: if is_sink { 1 } else { 0 }, text: Vec::new(), minor: module.index as u64 };
            assert(key.text@.len() == 0);
            keys.push(key);
            assert(found@ =~= owned_modules(modules@.take(i as int)).push(owned_module(modules@[i as int])->0));
        }
        i += 1;
    }
    assert(modules@.take(modules@.len() as int) =~= modules@);
    let ghost input = found@;
    let ghost key_seq = keys@;
    let sorted = stable_sort_by_keys(found, keys);
    proof {
        let origin = choose|origin: Seq<int>| crate::sort::is_stable_sort(input, key_seq, sorted@, origin);
        let view = |m: (bool, u32)| m;
        let order = by_removal_order();
        assert forall|i: int, j: int| 0 <= i < input.len() && 0 <= j < input.len() implies crate::sort::key_order(
            key_seq[i],
            key_seq[j],
        ) == order(view(input[i]), view(input[j])) by {
            assert(text_order(key_seq[i].text@, key_seq[j].text@) == 0) by {
                assert(key_seq[i].text@.len() == 0 && key_seq[j].text@.len() == 0);
            }
        }
        lemma_sort_views(input, key_seq, sorted@, origin, view, order);
        assert(input.map_values(view) =~= input);
        assert(sorted@.map_values(view) =~= sorted@);
    }
    sorted
}

} // verus!
