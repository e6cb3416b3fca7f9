use noise_hoihoi::vb_cable::{
    is_vb_cable_playback_endpoint, is_vb_cable_recording_endpoint,
    VB_CABLE_PLAYBACK_ENDPOINT_NAME, VB_CABLE_RECORDING_ENDPOINT_NAME,
};

#[test]
fn accepts_full_and_short_playback_names_case_insensitively() {
    assert!(is_vb_cable_playback_endpoint(
        "CABLE Input (VB-Audio Virtual Cable)"
    ));
    assert!(is_vb_cable_playback_endpoint("cable input"));
    assert!(is_vb_cable_playback_endpoint(
        "CABLE INPUT (VB-AUDIO VIRTUAL CABLE)"
    ));
}

#[test]
fn keeps_playback_and_recording_names_distinct() {
    assert!(is_vb_cable_recording_endpoint(
        "CABLE Output (VB-Audio Virtual Cable)"
    ));
    assert!(!is_vb_cable_playback_endpoint(
        "CABLE Output (VB-Audio Virtual Cable)"
    ));
    assert!(!is_vb_cable_recording_endpoint("unrelated microphone"));
}

#[test]
fn endpoint_constants_recognize_themselves_only() {
    assert!(is_vb_cable_playback_endpoint(VB_CABLE_PLAYBACK_ENDPOINT_NAME));
    assert!(is_vb_cable_recording_endpoint(VB_CABLE_RECORDING_ENDPOINT_NAME));
    assert!(!is_vb_cable_recording_endpoint(VB_CABLE_PLAYBACK_ENDPOINT_NAME));
    assert!(is_vb_cable_recording_endpoint("Cable Output"));
    assert!(!is_vb_cable_playback_endpoint("cable input 2"));
    assert!(!is_vb_cable_playback_endpoint(""));
}
