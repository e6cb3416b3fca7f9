//! Application session state: device and processor selection and the route lifecycle.
//!
//! The session decides; the caller performs the work it asks for (enumerating devices,
//! saving settings, starting a route on a background thread) and reports the outcome.

use vstd::prelude::*;

use crate::config::{AudioDevice, EngineConfig};
use crate::error::EngineError;
use crate::metrics::{initial_metrics, EngineMetrics};
use crate::text::concat_str;

verus! {

/// Persisted user choices.
#[derive(Clone, Debug, PartialEq, Eq)]
pub struct Settings {
    pub input_device_id: Option<String>,
    pub noise_reduction: bool,
    pub processor_id: Option<String>,
}

impl Default for Settings {
    fn default() -> (s: Self)
        ensures
            s.input_device_id is None,
            !s.noise_reduction,
            s.processor_id is None,
    {
        Settings { input_device_id: None, noise_reduction: false, processor_id: None }
    }
}

/// Presentation data of a compute processor; native handles stay with the caller.
#[derive(Clone, Debug)]
pub struct ComputeProcessor {
    pub id: String,
    pub name: String,
    pub is_gpu: bool,
    pub runtime: String,
}

impl ComputeProcessor {
    pub fn id(&self) -> (r: &str)
        ensures
            r@ == self.id@,
    {
        self.id.as_str()
    }

    pub fn name(&self) -> (r: &str)
        ensures
            r@ == self.name@,
    {
        self.name.as_str()
    }

    pub fn is_gpu(&self) -> (r: bool)
        ensures
            r == self.is_gpu,
    {
        self.is_gpu
    }

    pub fn default_runtime(&self) -> (r: &str)
        ensures
            r@ == self.runtime@,
    {
        self.runtime.as_str()
    }
}

/// A route start that the caller must perform on a background thread, after dropping the
/// previous route there.
#[derive(Debug)]
pub struct StartRequest {
    pub config: EngineConfig,
    /// The processor to run, or `None` for pass-through.
    pub processor: Option<String>,
}

/// Whether `id` names one of `devices`.
pub open spec fn has_device(devices: Seq<AudioDevice>, id: Seq<char>) -> bool {
    exists|i: int| 0 <= i < devices.len() && #[trigger] devices[i].id@ == id
}

/// Whether `k` is the first default device.
pub open spec fn is_first_default(devices: Seq<AudioDevice>, k: int) -> bool {
    0 <= k < devices.len() && devices[k].is_default && forall|j: int|
        0 <= j < k ==> !#[trigger] devices[j].is_default
}

/// Whether `selected` is the device selection after a refresh of `devices`, given the
/// selection `previous`: a selection that names a listed device is kept; otherwise the
/// first default device, else the first device, else nothing is selected.
pub open spec fn device_selection(
    devices: Seq<AudioDevice>,
    previous: Option<String>,
    selected: Option<String>,
) -> bool {
    if previous is Some && has_device(devices, previous->0@) {
        selected == previous
    } else if exists|k: int| is_first_default(devices, k) {
        exists|k: int| is_first_default(devices, k) && (selected matches Some(s) && s@ == devices[k].id@)
    } else if devices.len() > 0 {
        selected matches Some(s) && s@ == devices[0].id@
    } else {
        selected is None
    }
}

/// Whether `id` names one of `processors`.
pub open spec fn has_processor(processors: Seq<ComputeProcessor>, id: Seq<char>) -> bool {
    exists|i: int| 0 <= i < processors.len() && #[trigger] processors[i].id@ == id
}

/// Whether `k` is the first processor that is not a GPU.
pub open spec fn is_first_cpu(processors: Seq<ComputeProcessor>, k: int) -> bool {
    0 <= k < processors.len() && !processors[k].is_gpu && forall|j: int|
        0 <= j < k ==> #[trigger] processors[j].is_gpu
}

/// Whether `selected` is the processor selection after a refresh: a selection that names a
/// listed processor is kept; otherwise the first non-GPU processor, else the first
/// processor, else nothing is selected.
pub open spec fn processor_selection(
    processors: Seq<ComputeProcessor>,
    previous: Option<String>,
    selected: Option<String>,
) -> bool {
    if previous is Some && has_processor(processors, previous->0@) {
        selected == previous
    } else if exists|k: int| is_first_cpu(processors, k) {
        exists|k: int| is_first_cpu(processors, k) && (selected matches Some(s) && s@ == processors[k].id@)
    } else if processors.len() > 0 {
        selected matches Some(s) && s@ == processors[0].id@
    } else {
        selected is None
    }
}

/// Whether `k` is the first processor whose identifier is `id`.
pub open spec fn is_first_with_id(processors: Seq<ComputeProcessor>, id: Seq<char>, k: int) -> bool {
    0 <= k < processors.len() && processors[k].id@ == id && forall|j: int|
        0 <= j < k ==> #[trigger] processors[j].id@ != id
}

/// Editable settings are applied explicitly; callers must not edit while `busy()`.
#[derive(Debug)]
pub struct Session {
    pub settings: Settings,
    pub devices: Vec<AudioDevice>,
    pub processors: Vec<ComputeProcessor>,
    pub error: Option<String>,
    pub notice: Option<String>,
    /// Where the route stands; maintained by the methods below.
    pub route: RouteState,
}

/// Where a session's route stands; only the session's methods change it.
#[derive(Debug)]
pub struct RouteState {
    /// A route is running.
    engine: bool,
    /// A route start is in flight.
    engine_start: bool,
    /// The signal monitor is requested.
    monitor_enabled: bool,
    /// The session has been shut down; it never leaves this state.
    stopping: bool,
}

impl RouteState {
    /// Whether a route is running.
    pub closed spec fn engine_held(&self) -> bool {
        self.engine
    }

    /// Whether a route start is in flight.
    pub closed spec fn is_starting(&self) -> bool {
        self.engine_start
    }

    /// Whether the session has been shut down.
    pub closed spec fn is_stopping(&self) -> bool {
        self.stopping
    }

    /// Whether the signal monitor is requested.
    pub closed spec fn monitor_requested(&self) -> bool {
        self.monitor_enabled
    }
}

impl Session {
    /// Whether a route is running.
    pub open spec fn engine_held(&self) -> bool {
        self.route.engine_held()
    }

    /// Whether a route start is in flight.
    pub open spec fn is_starting(&self) -> bool {
        self.route.is_starting()
    }

    /// Whether the session has been shut down.
    pub open spec fn is_stopping(&self) -> bool {
        self.route.is_stopping()
    }

    /// Whether the signal monitor is requested.
    pub open spec fn monitor_requested(&self) -> bool {
        self.route.monitor_requested()
    }

    pub open spec fn is_busy(&self) -> bool {
        self.is_starting() || self.is_stopping()
    }

    /// The route lifecycle: running, starting, shut down, monitor requested.
    pub open spec fn lifecycle(&self) -> (bool, bool, bool, bool) {
        (self.engine_held(), self.is_starting(), self.is_stopping(), self.monitor_requested())
    }

    /// A session over the loaded settings, refreshed with the enumerated devices and
    /// processors.
    pub fn new(
        settings: Settings,
        notice: Option<String>,
        devices: Result<Vec<AudioDevice>, EngineError>,
        processors: Vec<ComputeProcessor>,
    ) -> (s: Self)
        ensures
            !s.engine_held(),
            !s.is_starting(),
            !s.is_stopping(),
            !s.monitor_requested(),
            s.processors@ == processors@,
            s.settings.noise_reduction == settings.noise_reduction,
            match devices {
                Ok(d) => s.devices@ == d@ && device_selection(
                    d@,
                    settings.input_device_id,
                    s.settings.input_device_id,
                ) && device_list_error(d@, s.error),
                Err(e) => s.devices@.len() == 0 && s.settings.input_device_id
                    == settings.input_device_id && (s.error matches Some(m) && m@
                    == e.spec_message()),
            },
            processor_selection(processors@, settings.processor_id, s.settings.processor_id),
            (settings.processor_id is Some && !has_processor(processors@, settings.processor_id->0@))
                ==> (s.notice matches Some(m) && m@ == missing_processor_notice()),
            !(settings.processor_id is Some && !has_processor(
                processors@,
                settings.processor_id->0@,
            )) ==> s.notice == notice,
    {
        let mut session = Session {
            settings,
            notice,
            devices: Vec::new(),
            processors: Vec::new(),
            error: None,
            route: RouteState { engine: false, engine_start: false, monitor_enabled: false, stopping: false },
        };
        session.refresh_devices(devices);
        session.refresh_processors(processors);
        session
    }

    pub fn busy(&self) -> (r: bool)
        ensures
            r == self.is_busy(),
    {
        self.route.engine_start || self.route.stopping
    }

    pub fn starting(&self) -> (r: bool)
        ensures
            r == self.is_starting(),
    {
        self.route.engine_start
    }

    pub fn has_engine(&self) -> (r: bool)
        ensures
            r == self.engine_held(),
    {
        self.route.engine
    }

    pub fn monitor_enabled(&self) -> (r: bool)
        ensures
            r == self.monitor_requested(),
    {
        self.route.monitor_enabled
    }

    /// Records the outcome of saving the settings and restarts the route with them.
    /// The caller saves only when the session is not busy.
    pub fn apply_settings(&mut self, saved: Result<(), String>) -> (request: Option<StartRequest>)
        ensures
            old(self).is_busy() ==> request is None && *final(self) == *old(self),
            !old(self).is_busy() ==> match saved {
                Ok(()) => final(self).notice == old(self).notice,
                Err(e) => final(self).notice matches Some(m) && m@ == "Could not save settings: "@
                    + e@,
            },
            !old(self).is_busy() ==> start_outcome(*old(self), *final(self), request),
    {
        if self.busy() {
            return None;
        }
        if let Err(error) = saved {
            self.notice = Some(concat_str("Could not save settings: ", error.as_str()));
        }
        self.start()
    }

    /// Enables or disables the signal monitor; returns whether a running route must be told.
    pub fn set_monitor_enabled(&mut self, enabled: bool) -> (forward: bool)
        ensures
            same_lists(*old(self), *final(self)),
            final(self).error == old(self).error,
            final(self).notice == old(self).notice,
            final(self).lifecycle() == (
                old(self).engine_held(),
                old(self).is_starting(),
                old(self).is_stopping(),
                enabled,
            ),
            forward == old(self).engine_held(),
    {
        self.route.monitor_enabled = enabled;
        self.route.engine
    }

    /// Begins shutdown: the session stays busy from now on. Returns whether a running
    /// route and a pending start must be cleaned up by the caller.
    pub fn take_shutdown(&mut self) -> (handover: (bool, bool))
        ensures
            final(self).is_stopping(),
            !final(self).engine_held(),
            !final(self).is_starting(),
            handover == (old(self).engine_held(), old(self).is_starting()),
            final(self).settings == old(self).settings,
            final(self).devices == old(self).devices,
            final(self).processors == old(self).processors,
            final(self).error == old(self).error,
            final(self).notice == old(self).notice,
            final(self).monitor_requested() == old(self).monitor_requested(),
    {
        self.route.stopping = true;
        let handover = (self.route.engine, self.route.engine_start);
        self.route.engine = false;
        self.route.engine_start = false;
        handover
    }

    /// The session error, else the first fault of the running route.
    pub fn runtime_error(&self, route_fault: Option<String>) -> (r: Option<String>)
        ensures
            r == (if self.error is Some {
                self.error
            } else if self.engine_held() {
                route_fault
            } else {
                None
            }),
    {
        match &self.error {
            Some(error) => Some(error.clone()),
            None => if self.route.engine {
                route_fault
            } else {
                None
            },
        }
    }

    /// Replaces the processor list and repairs the selection.
    pub fn refresh_processors(&mut self, processors: Vec<ComputeProcessor>)
        ensures
            final(self).processors@ == processors@,
            processor_selection(
                processors@,
                old(self).settings.processor_id,
                final(self).settings.processor_id,
            ),
            final(self).settings.input_device_id == old(self).settings.input_device_id,
            final(self).settings.noise_reduction == old(self).settings.noise_reduction,
            (old(self).settings.processor_id is Some && !has_processor(
                processors@,
                old(self).settings.processor_id->0@,
            )) ==> (final(self).notice matches Some(m) && m@ == missing_processor_notice()),
            !(old(self).settings.processor_id is Some && !has_processor(
                processors@,
                old(self).settings.processor_id->0@,
            )) ==> final(self).notice == old(self).notice,
            final(self).devices == old(self).devices,
            final(self).error == old(self).error,
            final(self).engine_held() == old(self).engine_held(),
            final(self).is_starting() == old(self).is_starting(),
            final(self).is_stopping() == old(self).is_stopping(),
            final(self).monitor_requested() == old(self).monitor_requested(),
    {
        self.processors = processors;
        let valid = match &self.settings.processor_id {
            Some(id) => self.find_processor(id).is_some(),
            None => false,
        };
        if valid {
            return;
        }
        let missing = self.settings.processor_id.is_some();
        let chosen: Option<String> = match first_cpu_index(&self.processors) {
            Some(k) => Some(self.processors[k].id.clone()),
            None => if self.processors.len() > 0 {
                Some(self.processors[0].id.clone())
            } else {
                None
            },
        };
        self.settings.processor_id = chosen;
        if missing {
            self.notice = Some(
                String::from_str(
                    "The selected processor is no longer available; select an available processor.",
                ),
            );
        }
    }

    /// Replaces the device list with an enumeration result and repairs the selection.
    pub fn refresh_devices(&mut self, devices: Result<Vec<AudioDevice>, EngineError>)
        ensures
            match devices {
                Ok(d) => final(self).devices@ == d@ && device_selection(
                    d@,
                    old(self).settings.input_device_id,
                    final(self).settings.input_device_id,
                ) && device_list_error(d@, final(self).error),
                Err(e) => final(self).devices@.len() == 0 && final(self).settings.input_device_id
                    == old(self).settings.input_device_id && (final(self).error matches Some(m)
                    && m@ == e.spec_message()),
            },
            final(self).settings.processor_id == old(self).settings.processor_id,
            final(self).settings.noise_reduction == old(self).settings.noise_reduction,
            final(self).processors == old(self).processors,
            final(self).notice == old(self).notice,
            final(self).engine_held() == old(self).engine_held(),
            final(self).is_starting() == old(self).is_starting(),
            final(self).is_stopping() == old(self).is_stopping(),
            final(self).monitor_requested() == old(self).monitor_requested(),
    {
        match devices {
            Ok(devices) => {
                self.devices = devices;
                let valid = match &self.settings.input_device_id {
                    Some(id) => self.has_device_id(id),
                    None => false,
                };
                if !valid {
                    let chosen: Option<String> = match first_default_index(&self.devices) {
                        Some(k) => Some(self.devices[k].id.clone()),
                        None => if self.devices.len() > 0 {
                            Some(self.devices[0].id.clone())
                        } else {
                            None
                        },
                    };
                    self.settings.input_device_id = chosen;
                }
                self.error = if self.devices.len() == 0 {
                    Some(String::from_str("No physical input microphone was found."))
                } else {
                    None
                };
            },
            Err(error) => {
                self.devices.clear();
                self.error = Some(error.message());
            },
        }
    }

    fn has_device_id(&self, id: &String) -> (r: bool)
        ensures
            r == has_device(self.devices@, id@),
    {
        let mut i: usize = 0;
        while i < self.devices.len()
            invariant
                i <= self.devices.len(),
                forall|j: int| 0 <= j < i ==> #[trigger] self.devices@[j].id@ != id@,
            decreases self.devices.len() - i,
        {
            if self.devices[i].id == *id {
                return true;
            }
            i += 1;
        }
        false
    }

    fn find_processor(&self, id: &String) -> (r: Option<usize>)
        ensures
            match r {
                Some(k) => is_first_with_id(self.processors@, id@, k as int),
                None => !has_processor(self.processors@, id@),
            },
    {
        let mut i: usize = 0;
        while i < self.processors.len()
            invariant
                i <= self.processors.len(),
                forall|j: int| 0 <= j < i ==> #[trigger] self.processors@[j].id@ != id@,
            decreases self.processors.len() - i,
        {
            if self.processors[i].id == *id {
                return Some(i);
            }
            i += 1;
        }
        None
    }

    /// The first listed processor with the selected identifier.
    pub fn selected_processor(&self) -> (r: Option<&ComputeProcessor>)
        ensures
            match self.settings.processor_id {
                None => r is None,
                Some(id) => match r {
                    Some(p) => exists|k: int|
                        is_first_with_id(self.processors@, id@, k) && *p == self.processors@[k],
                    None => !has_processor(self.processors@, id@),
                },
            },
    {
        match &self.settings.processor_id {
            None => None,
            Some(id) => match self.find_processor(id) {
                Some(k) => Some(&self.processors[k]),
                None => None,
            },
        }
    }

    /// Decides whether to start a route with the current settings.
    ///
    /// Nothing happens while busy. Without an input device, or with noise reduction on but
    /// no available selected processor, the session reports the missing choice. Otherwise
    /// the running route is handed over to be closed first and a start is requested.
    pub fn start(&mut self) -> (request: Option<StartRequest>)
        ensures
            start_outcome(*old(self), *final(self), request),
            final(self).notice == old(self).notice,
    {
        if self.busy() {
            return None;
        }
        let input_device_id = match &self.settings.input_device_id {
            Some(id) => id.clone(),
            None => {
                self.error = Some(String::from_str("Select an input microphone first."));
                return None;
            },
        };
        let processor = if self.settings.noise_reduction {
            let selected = match &self.settings.processor_id {
                Some(id) => match self.find_processor(id) {
                    Some(_) => Some(id.clone()),
                    None => None,
                },
                None => None,
            };
            match selected {
                Some(id) => Some(id),
                None => {
                    self.error = Some(String::from_str("Select a compute processor first."));
                    return None;
                },
            }
        } else {
            None
        };
        self.route.engine = false;
        self.route.engine_start = true;
        self.error = None;
        Some(StartRequest { config: EngineConfig::new(input_device_id), processor })
    }

    /// The counters to show: those of the running route, all zero without one.
    pub fn metrics(&self, route: EngineMetrics) -> (m: EngineMetrics)
        ensures
            m == (if self.engine_held() {
                route
            } else {
                initial_metrics()
            }),
    {
        if self.route.engine {
            route
        } else {
            EngineMetrics::default()
        }
    }

    /// The settings that `apply_settings` has saved first: the current settings, or `None`
    /// while busy, when nothing is saved.
    pub fn settings_to_save(&self) -> (saved: Option<Settings>)
        ensures
            match saved {
                Some(s) => !self.is_busy() && s == self.settings,
                None => self.is_busy(),
            },
    {
        if self.busy() {
            None
        } else {
            Some(copy_settings(&self.settings))
        }
    }

    /// Records that the background start could not even be launched.
    pub fn start_spawn_failed(&mut self, reason: String)
        ensures
            same_lists(*old(self), *final(self)),
            final(self).notice == old(self).notice,
            final(self).lifecycle() == (
                old(self).engine_held(),
                false,
                old(self).is_stopping(),
                old(self).monitor_requested(),
            ),
            final(self).error matches Some(m) && m@ == "Failed to start the audio initialization: "@
                + reason@,
    {
        self.route.engine_start = false;
        self.error = Some(concat_str("Failed to start the audio initialization: ", reason.as_str()));
    }

    /// Records the outcome of a pending start; `None` means it is still running.
    /// Returns, when a route was installed, whether the signal monitor must be enabled on it.
    pub fn poll_engine_start(&mut self, outcome: Option<Result<(), String>>) -> (installed: Option<
        bool,
    >)
        ensures
            !old(self).is_starting() || outcome is None ==> *final(self) == *old(self)
                && installed is None,
            old(self).is_starting() && outcome is Some ==> match outcome->0 {
                Ok(()) => {
                    &&& same_lists(*old(self), *final(self))
                    &&& final(self).notice == old(self).notice
                    &&& final(self).error is None
                    &&& final(self).lifecycle() == (
                        true,
                        false,
                        old(self).is_stopping(),
                        old(self).monitor_requested(),
                    )
                    &&& installed == Some(old(self).monitor_requested())
                },
                Err(e) => {
                    &&& same_lists(*old(self), *final(self))
                    &&& final(self).notice == old(self).notice
                    &&& final(self).error == Some(e)
                    &&& final(self).lifecycle() == (
                        old(self).engine_held(),
                        false,
                        old(self).is_stopping(),
                        old(self).monitor_requested(),
                    )
                    &&& installed is None
                },
            },
    {
        if !self.route.engine_start {
            return None;
        }
        match outcome {
            None => None,
            Some(Ok(())) => {
                self.route.engine_start = false;
                self.route.engine = true;
                self.error = None;
                Some(self.route.monitor_enabled)
            },
            Some(Err(e)) => {
                self.route.engine_start = false;
                self.error = Some(e);
                None
            },
        }
    }
}

/// An exact copy of the settings.
fn copy_settings(settings: &Settings) -> (copy: Settings)
    ensures
        copy == *settings,
{
    let input_device_id = match &settings.input_device_id {
        Some(id) => Some(id.clone()),
        None => None,
    };
    let processor_id = match &settings.processor_id {
        Some(id) => Some(id.clone()),
        None => None,
    };
    Settings { input_device_id, noise_reduction: settings.noise_reduction, processor_id }
}

/// The index of the first default device, if any.
fn first_default_index(devices: &Vec<AudioDevice>) -> (r: Option<usize>)
    ensures
        match r {
            Some(k) => is_first_default(devices@, k as int),
            None => forall|j: int| 0 <= j < devices@.len() ==> !#[trigger] devices@[j].is_default,
        },
{
    let mut i: usize = 0;
    while i < devices.len()
        invariant
            i <= devices.len(),
            forall|j: int| 0 <= j < i ==> !#[trigger] devices@[j].is_default,
        decreases devices.len() - i,
    {
        if devices[i].is_default {
            return Some(i);
        }
        i += 1;
    }
    None
}

/// The index of the first processor that is not a GPU, if any.
fn first_cpu_index(processors: &Vec<ComputeProcessor>) -> (r: Option<usize>)
    ensures
        match r {
            Some(k) => is_first_cpu(processors@, k as int),
            None => forall|j: int| 0 <= j < processors@.len() ==> #[trigger] processors@[j].is_gpu,
        },
{
    let mut i: usize = 0;
    while i < processors.len()
        invariant
            i <= processors.len(),
            forall|j: int| 0 <= j < i ==> #[trigger] processors@[j].is_gpu,
        decreases processors.len() - i,
    {
        if !processors[i].is_gpu {
            return Some(i);
        }
        i += 1;
    }
    None
}

/// The session error after a successful device enumeration: a notice when no microphone
/// was found, otherwise none.
pub open spec fn device_list_error(devices: Seq<AudioDevice>, error: Option<String>) -> bool {
    if devices.len() == 0 {
        error matches Some(m) && m@ == "No physical input microphone was found."@
    } else {
        error is None
    }
}

/// Notice shown when the saved processor disappeared.
pub open spec fn missing_processor_notice() -> Seq<char> {
    "The selected processor is no longer available; select an available processor."@
}

/// `after` has the settings, device list and processor list of `before`.
pub open spec fn same_lists(before: Session, after: Session) -> bool {
    &&& after.settings == before.settings
    &&& after.devices == before.devices
    &&& after.processors == before.processors
}

/// What `start` does from state `before`: nothing while busy; a reported missing choice;
/// or a start request, after which the session is starting without a running route.
/// The notice is left to the caller's contract.
pub open spec fn start_outcome(before: Session, after: Session, request: Option<StartRequest>) -> bool {
    if before.is_busy() {
        request is None && after == before
    } else if before.settings.input_device_id is None {
        &&& request is None
        &&& same_lists(before, after)
        &&& after.lifecycle() == before.lifecycle()
        &&& after.error matches Some(m) && m@ == "Select an input microphone first."@
    } else if before.settings.noise_reduction && !has_processor(
        before.processors@,
        before.settings.processor_id->0@,
    ) || before.settings.noise_reduction && before.settings.processor_id is None {
        &&& request is None
        &&& same_lists(before, after)
        &&& after.lifecycle() == before.lifecycle()
        &&& after.error matches Some(m) && m@ == "Select a compute processor first."@
    } else {
        &&& request matches Some(req)
        &&& req.config.input_device_id == before.settings.input_device_id->0
        &&& req.config.target_latency_ms == 40
        &&& req.processor == (if before.settings.noise_reduction {
            before.settings.processor_id
        } else {
            None::<String>
        })
        &&& same_lists(before, after)
        &&& after.error is None
        &&& after.lifecycle() == (false, true, before.is_stopping(), before.monitor_requested())
    }
}


/// Once the session is shut down, no start is ever requested and nothing changes.
pub proof fn lemma_shutdown_blocks_start(before: Session, after: Session, request: Option<StartRequest>)
    requires
        before.is_stopping(),
        start_outcome(before, after, request),
    ensures
        request is None,
        after == before,
        after.is_stopping(),
{
}

/// While a start is pending, another start request opens no second route.
pub proof fn lemma_one_start_in_flight(before: Session, after: Session, request: Option<StartRequest>)
    requires
        before.is_starting(),
        start_outcome(before, after, request),
    ensures
        request is None,
        after == before,
{
}

/// A granted start closes the previous route first: the session no longer holds it.
pub proof fn lemma_start_replaces_route(before: Session, after: Session, request: Option<StartRequest>)
    requires
        start_outcome(before, after, request),
        request is Some,
    ensures
        !after.engine_held(),
        after.is_starting(),
        after.error is None,
        !before.is_busy(),
{
}

/// A device refresh with at least one device always leaves a listed device selected.
pub proof fn lemma_device_selection_is_listed(
    devices: Seq<AudioDevice>,
    previous: Option<String>,
    selected: Option<String>,
)
    requires
        devices.len() > 0,
        device_selection(devices, previous, selected),
    ensures
        selected matches Some(s) && has_device(devices, s@),
{
    if previous is Some && has_device(devices, previous->0@) {
    } else if exists|k: int| is_first_default(devices, k) {
        let k = choose|k: int| is_first_default(devices, k) && (selected matches Some(s) && s@ == devices[k].id@);
        assert(devices[k].id@ == selected->0@);
    } else {
        assert(devices[0].id@ == selected->0@);
    }
}

/// A processor refresh with at least one processor always leaves a listed processor
/// selected.
pub proof fn lemma_processor_selection_is_listed(
    processors: Seq<ComputeProcessor>,
    previous: Option<String>,
    selected: Option<String>,
)
    requires
        processors.len() > 0,
        processor_selection(processors, previous, selected),
    ensures
        selected matches Some(s) && has_processor(processors, s@),
{
    if previous is Some && has_processor(processors, previous->0@) {
    } else if exists|k: int| is_first_cpu(processors, k) {
        let k = choose|k: int| is_first_cpu(processors, k) && (selected matches Some(s) && s@ == processors[k].id@);
        assert(processors[k].id@ == selected->0@);
    } else {
        assert(processors[0].id@ == selected->0@);
    }
}

/// What a device refresh selects: a previous selection that names a listed device is
/// kept; whatever is selected names a listed device, one marked default when the previous
/// selection is not listed and some device is; nothing is selected only when no device is
/// listed.
pub proof fn lemma_listed_selection_is_kept(
    devices: Seq<AudioDevice>,
    previous: Option<String>,
    selected: Option<String>,
)
    requires
        device_selection(devices, previous, selected),
    ensures
        (previous matches Some(id) && exists|i: int| 0 <= i < devices.len() && #[trigger] devices[i].id@ == id@)
            ==> selected == previous,
        selected matches Some(s) ==> exists|i: int| 0 <= i < devices.len() && #[trigger] devices[i].id@ == s@,
        selected is None <==> devices.len() == 0,
        !(previous matches Some(id) && exists|i: int|
            0 <= i < devices.len() && #[trigger] devices[i].id@ == id@) && (exists|i: int|
            0 <= i < devices.len() && #[trigger] devices[i].is_default) ==> (selected matches Some(s)
            && exists|i: int| 0 <= i < devices.len() && devices[i].is_default && #[trigger] devices[i].id@ == s@),
{
    if previous matches Some(id) && exists|i: int| 0 <= i < devices.len() && #[trigger] devices[i].id@ == id@ {
        let id = previous->0;
        let i = choose|i: int| 0 <= i < devices.len() && #[trigger] devices[i].id@ == id@;
        assert(has_device(devices, id@));
    } else {
        if exists|i: int| 0 <= i < devices.len() && #[trigger] devices[i].is_default {
            let i = choose|i: int| 0 <= i < devices.len() && #[trigger] devices[i].is_default;
            lemma_first_default_exists(devices, i);
        }
        if exists|k: int| is_first_default(devices, k) {
            let k = choose|k: int| is_first_default(devices, k) && (selected matches Some(s) && s@ == devices[k].id@);
            assert(devices[k].id@ == selected->0@);
        } else if devices.len() > 0 {
            assert(devices[0].id@ == selected->0@);
        }
    }
}

/// Some device is the first default one when any device is marked default.
proof fn lemma_first_default_exists(devices: Seq<AudioDevice>, i: int)
    requires
        0 <= i < devices.len(),
        devices[i].is_default,
    ensures
        exists|k: int| is_first_default(devices, k),
    decreases i,
{
    if forall|j: int| 0 <= j < i ==> !#[trigger] devices[j].is_default {
        assert(is_first_default(devices, i));
    } else {
        let j = choose|j: int| 0 <= j < i && #[trigger] devices[j].is_default;
        lemma_first_default_exists(devices, j);
    }
}

} // verus!
