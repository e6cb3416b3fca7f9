use noise_hoihoi::session::Settings;
use noise_hoihoi::settings::{
    legacy_settings_text, SettingsFile, SettingsSource, DIRECTORY_UNAVAILABLE_ON_LOAD, LEGACY_FILE_NAME,
    LEGACY_SETTINGS_KEY, SETTINGS_FILE_NAME,
};

fn stored() -> Settings {
    Settings {
        input_device_id: Some("microphone-id".into()),
        processor_id: Some("gpu-id".into()),
        noise_reduction: true,
    }
}

#[test]
fn json_settings_win_over_the_legacy_store() {
    assert_eq!(SettingsFile::source(true, true), SettingsSource::Json);
    assert_eq!(SettingsFile::source(false, true), SettingsSource::Legacy);
    assert_eq!(SettingsFile::source(false, false), SettingsSource::Defaults);
    assert_eq!(SETTINGS_FILE_NAME, "settings.json");
    assert_eq!(LEGACY_FILE_NAME, "app.ron");
    assert_eq!(LEGACY_SETTINGS_KEY, "noise-hoihoi-settings");
}

#[test]
fn a_legacy_store_without_the_entry_gives_defaults() {
    assert_eq!(SettingsFile::from_legacy_entry(Some(stored())), stored());
    assert_eq!(SettingsFile::from_legacy_entry(None), Settings::default());
}

#[test]
fn load_failures_fall_back_to_defaults_and_are_reported() {
    assert_eq!(SettingsFile::load_outcome(Some(Ok(stored()))), (stored(), None));
    let (settings, notice) = SettingsFile::load_outcome(Some(Err("expected value".into())));
    assert_eq!(settings, Settings::default());
    assert_eq!(notice.as_deref(), Some("Could not load settings: expected value"));
    let (settings, notice) = SettingsFile::load_outcome(None);
    assert_eq!(settings, Settings::default());
    assert_eq!(notice.as_deref(), Some(DIRECTORY_UNAVAILABLE_ON_LOAD));
    assert_eq!(DIRECTORY_UNAVAILABLE_ON_LOAD, "Settings directory is unavailable.");
}

#[test]
fn the_legacy_store_is_read_by_its_settings_key() {
    let store = r#"{"window": "(800, 600)", "noise-hoihoi-settings": "(noise_reduction: true)"}"#;
    assert_eq!(
        legacy_settings_text(store).unwrap().as_deref(),
        Some("(noise_reduction: true)")
    );
    assert_eq!(legacy_settings_text(r#"{"window": "x"}"#).unwrap(), None);
    assert_eq!(legacy_settings_text("{}").unwrap(), None);
    assert!(!legacy_settings_text("not ron").unwrap_err().is_empty());
}
