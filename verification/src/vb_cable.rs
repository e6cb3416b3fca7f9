//! Recognition of the VB-CABLE virtual audio endpoints by name.

use vstd::prelude::*;

use crate::text::{
    ascii_lower_seq, chars_equal, chars_of, contains_chars, occurs_in, starts_with,
    to_ascii_lowercase,
};

verus! {

/// VB-CABLE's playback endpoint, fed by the application.
pub const VB_CABLE_PLAYBACK_ENDPOINT_NAME: &'static str = "CABLE Input (VB-Audio Virtual Cable)";

/// VB-CABLE's recording endpoint, selected by recording applications.
pub const VB_CABLE_RECORDING_ENDPOINT_NAME: &'static str = "CABLE Output (VB-Audio Virtual Cable)";

/// Whether `actual` names an endpoint: it equals the full name or the short name ignoring
/// ASCII case, or starts with the short name and mentions "vb-audio virtual cable".
pub open spec fn endpoint_matches(actual: Seq<char>, short_name: Seq<char>, full_name: Seq<char>) -> bool {
    let lower = ascii_lower_seq(actual);
    lower == ascii_lower_seq(full_name) || lower == short_name || (short_name.is_prefix_of(lower)
        && occurs_in("vb-audio virtual cable"@, lower))
}

/// Whether a Windows endpoint name identifies VB-CABLE's playback side.
pub fn is_vb_cable_playback_endpoint(name: &str) -> (r: bool)
    ensures
        r == endpoint_matches(name@, "cable input"@, VB_CABLE_PLAYBACK_ENDPOINT_NAME@),
{
    endpoint_name_matches(name, "cable input", VB_CABLE_PLAYBACK_ENDPOINT_NAME)
}

/// Whether a Windows endpoint name identifies VB-CABLE's recording side.
pub fn is_vb_cable_recording_endpoint(name: &str) -> (r: bool)
    ensures
        r == endpoint_matches(name@, "cable output"@, VB_CABLE_RECORDING_ENDPOINT_NAME@),
{
    endpoint_name_matches(name, "cable output", VB_CABLE_RECORDING_ENDPOINT_NAME)
}

fn endpoint_name_matches(actual: &str, short_name: &str, full_name: &str) -> (r: bool)
    ensures
        r == endpoint_matches(actual@, short_name@, full_name@),
{
    let lower = to_ascii_lowercase(actual);
    let full = to_ascii_lowercase(full_name);
    let short = chars_of(short_name);
    let marker = chars_of("vb-audio virtual cable");
    chars_equal(lower.as_slice(), full.as_slice()) || chars_equal(lower.as_slice(), short.as_slice())
        || (starts_with(lower.as_slice(), short.as_slice()) && contains_chars(
        lower.as_slice(),
        marker.as_slice(),
    ))
}


/// No endpoint name is taken for both sides of the cable: the playback and recording
/// endpoints are told apart.
pub proof fn lemma_cable_sides_are_distinct(name: Seq<char>)
    ensures
        !(endpoint_matches(name, "cable input"@, VB_CABLE_PLAYBACK_ENDPOINT_NAME@)
            && endpoint_matches(name, "cable output"@, VB_CABLE_RECORDING_ENDPOINT_NAME@)),
{
    reveal_strlit("cable input");
    reveal_strlit("cable output");
    reveal_strlit("CABLE Input (VB-Audio Virtual Cable)");
    reveal_strlit("CABLE Output (VB-Audio Virtual Cable)");
    let lower = ascii_lower_seq(name);
    let full_in = ascii_lower_seq(VB_CABLE_PLAYBACK_ENDPOINT_NAME@);
    let full_out = ascii_lower_seq(VB_CABLE_RECORDING_ENDPOINT_NAME@);
    // Every accepted playback name has 'i' at position 6, every recording name 'o'.
    if endpoint_matches(name, "cable input"@, VB_CABLE_PLAYBACK_ENDPOINT_NAME@) {
        assert(lower.len() > 6 && lower[6] == 'i') by {
            if lower == full_in {
                assert(full_in[6] == 'i');
            } else if lower == "cable input"@ {
            } else {
                assert(lower.subrange(0, 11) == "cable input"@);
                assert(lower.subrange(0, 11)[6] == lower[6]);
            }
        }
        if endpoint_matches(name, "cable output"@, VB_CABLE_RECORDING_ENDPOINT_NAME@) {
            assert(lower[6] == 'o') by {
                if lower == full_out {
                    assert(full_out[6] == 'o');
                } else if lower == "cable output"@ {
                } else {
                    assert(lower.subrange(0, 12) == "cable output"@);
                    assert(lower.subrange(0, 12)[6] == lower[6]);
                }
            }
        }
    }
}

/// Whether the ASCII-lowercase form of `name` begins with `prefix` and mentions VB-Audio's
/// cable anywhere.
pub open spec fn names_the_cable(name: Seq<char>, prefix: Seq<char>) -> bool {
    let lower = ascii_lower_seq(name);
    &&& prefix.len() <= lower.len()
    &&& lower.subrange(0, prefix.len() as int) == prefix
    &&& exists|j: int|
        0 <= j && j + 22 <= lower.len() && #[trigger] lower.subrange(j, j + 22)
            == "vb-audio virtual cable"@
}

/// VB-CABLE's endpoints are recognized by name, whatever their numbering: a name whose
/// ASCII-lowercase form starts with "cable input" and mentions "vb-audio virtual cable" is
/// the playback side (so is the bare short name), one that starts with "cable output" and
/// mentions it is the recording side; and every recognized name starts that way.
pub proof fn lemma_cable_endpoints_by_prefix_and_marker(name: Seq<char>)
    ensures
        names_the_cable(name, "cable input"@) ==> endpoint_matches(
            name,
            "cable input"@,
            VB_CABLE_PLAYBACK_ENDPOINT_NAME@,
        ),
        ascii_lower_seq(name) == "cable input"@ ==> endpoint_matches(
            name,
            "cable input"@,
            VB_CABLE_PLAYBACK_ENDPOINT_NAME@,
        ),
        endpoint_matches(name, "cable input"@, VB_CABLE_PLAYBACK_ENDPOINT_NAME@) ==> (
        ascii_lower_seq(name).len() >= 11 && ascii_lower_seq(name).subrange(0, 11) == "cable input"@),
        names_the_cable(name, "cable output"@) ==> endpoint_matches(
            name,
            "cable output"@,
            VB_CABLE_RECORDING_ENDPOINT_NAME@,
        ),
        ascii_lower_seq(name) == "cable output"@ ==> endpoint_matches(
            name,
            "cable output"@,
            VB_CABLE_RECORDING_ENDPOINT_NAME@,
        ),
        endpoint_matches(name, "cable output"@, VB_CABLE_RECORDING_ENDPOINT_NAME@) ==> (
        ascii_lower_seq(name).len() >= 12 && ascii_lower_seq(name).subrange(0, 12)
            == "cable output"@),
{
    reveal_strlit("cable input");
    reveal_strlit("cable output");
    reveal_strlit("vb-audio virtual cable");
    reveal_strlit("CABLE Input (VB-Audio Virtual Cable)");
    reveal_strlit("CABLE Output (VB-Audio Virtual Cable)");
    let lower = ascii_lower_seq(name);
    let marker = "vb-audio virtual cable"@;
    if names_the_cable(name, "cable input"@) {
        let j = choose|j: int| 0 <= j && j + 22 <= lower.len() && #[trigger] lower.subrange(j, j + 22) == marker;
        assert(lower.subrange(j, j + marker.len()) == marker);
        assert("cable input"@.is_prefix_of(lower));
    }
    if names_the_cable(name, "cable output"@) {
        let j = choose|j: int| 0 <= j && j + 22 <= lower.len() && #[trigger] lower.subrange(j, j + 22) == marker;
        assert(lower.subrange(j, j + marker.len()) == marker);
        assert("cable output"@.is_prefix_of(lower));
    }
    let full_in = ascii_lower_seq(VB_CABLE_PLAYBACK_ENDPOINT_NAME@);
    let full_out = ascii_lower_seq(VB_CABLE_RECORDING_ENDPOINT_NAME@);
    assert(full_in.subrange(0, 11) =~= "cable input"@);
    assert(full_out.subrange(0, 12) =~= "cable output"@);
    if lower == "cable input"@ {
        assert(lower.subrange(0, 11) =~= lower);
    }
    if lower == "cable output"@ {
        assert(lower.subrange(0, 12) =~= lower);
    }
    if endpoint_matches(name, "cable input"@, VB_CABLE_PLAYBACK_ENDPOINT_NAME@) && lower != full_in
        && lower != "cable input"@ {
        assert(lower.subrange(0, 11) =~= "cable input"@);
    }
    if endpoint_matches(name, "cable output"@, VB_CABLE_RECORDING_ENDPOINT_NAME@) && lower != full_out
        && lower != "cable output"@ {
        assert(lower.subrange(0, 12) =~= "cable output"@);
    }
}

} // verus!
