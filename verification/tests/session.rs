use std::sync::Arc;

use noise_hoihoi::config::AudioDevice;
use noise_hoihoi::error::EngineError;
use noise_hoihoi::metrics::{EngineState, MetricsHandle, SharedMetrics};
use noise_hoihoi::session::{ComputeProcessor, Session, Settings, StartRequest};

fn devices() -> Result<Vec<AudioDevice>, EngineError> {
    Ok(vec![AudioDevice {
        id: "mic".into(),
        name: "Test mic".into(),
        is_default: true,
    }])
}

fn processors() -> Vec<ComputeProcessor> {
    vec![ComputeProcessor {
        id: "cpu".into(),
        name: "Test CPU".into(),
        is_gpu: false,
        runtime: "Test".into(),
    }]
}

fn saved_settings() -> Settings {
    Settings {
        input_device_id: Some("missing-mic".into()),
        processor_id: Some("missing-gpu".into()),
        noise_reduction: false,
    }
}

/// Plays the backend for one granted start: records it, closing the previous route first.
fn launch(events: &mut Vec<String>, had_engine: bool, request: StartRequest) {
    assert_eq!(request.config.input_device_id, "mic");
    if had_engine {
        events.push("closed".into());
    }
    events.push(format!(
        "start:{}",
        request.processor.as_deref().unwrap_or("bypass")
    ));
}

#[test]
fn missing_devices_fall_back_and_start_failure_can_be_retried() {
    let mut events = Vec::new();
    let mut session = Session::new(saved_settings(), None, devices(), processors());
    assert_eq!(session.settings.input_device_id.as_deref(), Some("mic"));
    assert_eq!(session.settings.processor_id.as_deref(), Some("cpu"));
    assert!(session.notice.is_some());

    let had_engine = session.has_engine();
    launch(&mut events, had_engine, session.start().unwrap());
    let failure = EngineError::Start("test failure".into()).message();
    assert_eq!(session.poll_engine_start(Some(Err(failure))), None);
    assert!(!session.starting());
    assert!(!session.has_engine());
    assert!(session.runtime_error(None).unwrap().contains("test failure"));

    let had_engine = session.has_engine();
    launch(&mut events, had_engine, session.start().unwrap());
    assert_eq!(session.poll_engine_start(None), None);
    assert!(session.starting());
    // The route the backend opened reports itself running.
    let mut route = SharedMetrics::default();
    route.set_state(EngineState::Running);
    let route = MetricsHandle(Arc::new(route));
    assert_eq!(session.metrics(route.snapshot()).state, EngineState::Stopped);
    assert_eq!(session.poll_engine_start(Some(Ok(()))), Some(false));
    assert!(session.has_engine());
    assert!(session.runtime_error(route.last_error()).is_none());
    assert_eq!(session.metrics(route.snapshot()).state, EngineState::Running);

    let (engine, pending) = session.take_shutdown();
    assert!(engine && !pending);
    events.push("closed".into());
    assert_eq!(events, ["start:bypass", "start:bypass", "closed"]);
}

#[test]
fn reconfiguration_closes_previous_route_before_starting_and_saves_settings() {
    let mut events = Vec::new();
    let mut session = Session::new(Settings::default(), None, devices(), processors());
    let had_engine = session.has_engine();
    launch(&mut events, had_engine, session.start().unwrap());
    session.poll_engine_start(Some(Ok(())));

    session.settings.noise_reduction = true;
    assert!(!session.busy());
    // What the backend is asked to save before the restart.
    let saved = session.settings_to_save();
    let had_engine = session.has_engine();
    launch(&mut events, had_engine, session.apply_settings(Ok(())).unwrap());
    session.poll_engine_start(Some(Ok(())));
    assert_eq!(saved, Some(session.settings.clone()));
    assert_eq!(
        saved,
        Some(Settings {
            input_device_id: Some("mic".into()),
            noise_reduction: true,
            processor_id: Some("cpu".into()),
        })
    );
    assert!(session.settings_to_save().is_some());
    assert_eq!(events, ["start:bypass", "closed", "start:cpu"]);

    let (engine, _) = session.take_shutdown();
    if engine {
        events.push("closed".into());
    }
    assert_eq!(events.last().unwrap(), "closed");
}

#[test]
fn closing_during_startup_disposes_the_late_route_and_prevents_restart() {
    let mut events = Vec::new();
    let mut session = Session::new(Settings::default(), None, devices(), processors());
    let had_engine = session.has_engine();
    launch(&mut events, had_engine, session.start().unwrap());
    // A second request while pending must not open another route, nor save anything.
    assert!(session.start().is_none());
    assert!(session.settings_to_save().is_none());
    let (engine, pending) = session.take_shutdown();
    assert!(!engine && pending);
    assert!(session.busy());
    assert!(session.start().is_none());
    assert!(!session.starting());
    // The late route arrives after shutdown: the session does not take it, so the
    // caller disposes it.
    assert_eq!(session.poll_engine_start(Some(Ok(()))), None);
    assert!(!session.has_engine());
    events.push("closed".into());
    assert_eq!(events, ["start:bypass", "closed"]);
}

#[test]
fn start_reports_missing_choices() {
    let mut session = Session::new(
        Settings::default(),
        None,
        Ok(Vec::new()),
        Vec::new(),
    );
    assert_eq!(
        session.error.as_deref(),
        Some("No physical input microphone was found.")
    );
    assert!(session.start().is_none());
    assert_eq!(
        session.error.as_deref(),
        Some("Select an input microphone first.")
    );
    session.settings.input_device_id = Some("mic".into());
    session.settings.noise_reduction = true;
    assert!(session.start().is_none());
    assert_eq!(
        session.error.as_deref(),
        Some("Select a compute processor first.")
    );
    assert!(!session.starting());
}

#[test]
fn enumeration_failures_and_save_failures_are_reported() {
    let failed = Err(EngineError::DeviceEnumeration("no host".into()));
    let mut session = Session::new(Settings::default(), None, failed, processors());
    assert_eq!(
        session.error.as_deref(),
        Some("failed to enumerate audio devices: no host")
    );
    assert!(session.devices.is_empty());
    session.refresh_devices(devices());
    assert!(session.error.is_none());
    let request = session.apply_settings(Err("disk full".into())).unwrap();
    assert_eq!(
        session.notice.as_deref(),
        Some("Could not save settings: disk full")
    );
    assert_eq!(request.processor, None);
    assert_eq!(request.config.target_latency_ms, 40);
}

#[test]
fn monitor_requests_are_forwarded_to_a_running_route() {
    let mut session = Session::new(Settings::default(), None, devices(), processors());
    assert!(!session.set_monitor_enabled(true));
    assert!(session.monitor_enabled());
    session.start().unwrap();
    assert_eq!(session.poll_engine_start(Some(Ok(()))), Some(true));
    assert!(session.set_monitor_enabled(false));
    assert_eq!(
        session.runtime_error(Some("route fault".into())).as_deref(),
        Some("route fault")
    );
}

#[test]
fn a_failed_launch_is_reported() {
    let mut session = Session::new(Settings::default(), None, devices(), processors());
    session.start().unwrap();
    session.start_spawn_failed("no threads".into());
    assert!(!session.starting());
    assert_eq!(
        session.error.as_deref(),
        Some("Failed to start the audio initialization: no threads")
    );
}

#[test]
fn selected_processor_follows_the_settings() {
    let mut session = Session::new(saved_settings(), None, devices(), processors());
    assert_eq!(session.selected_processor().unwrap().name(), "Test CPU");
    session.settings.processor_id = None;
    assert!(session.selected_processor().is_none());
    session.settings.processor_id = Some("gone".into());
    assert!(session.selected_processor().is_none());
}
