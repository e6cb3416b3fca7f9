//! Where the persisted settings come from, and what loading them gives the session.
//!
//! Reading and writing the files is the caller's; this module decides which file counts
//! and how a failure is reported.

use vstd::prelude::*;

use std::collections::HashMap;

use crate::session::Settings;
use crate::text::{chars_equal, chars_of, concat_str};

verus! {

/// Name of the application's data directory.
pub const DIRECTORY_NAME: &'static str = "NoiseHoiHoi";

/// Settings written by this version, as JSON.
pub const SETTINGS_FILE_NAME: &'static str = "settings.json";

/// Key/value store of an earlier user interface, in RON.
pub const LEGACY_FILE_NAME: &'static str = "app.ron";

/// Key under which the earlier user interface stored the settings.
pub const LEGACY_SETTINGS_KEY: &'static str = "noise-hoihoi-settings";

/// Message when the platform names no data directory, as the load reports it.
pub const DIRECTORY_UNAVAILABLE_ON_LOAD: &'static str = "Settings directory is unavailable.";

/// Message when the platform names no data directory, as the save reports it.
pub const DIRECTORY_UNAVAILABLE_ON_SAVE: &'static str = "Settings directory is unavailable";

/// What `ron::from_str` makes of a text as a map from strings to strings: the map, or the
/// text of the error it reports.
pub uninterp spec fn ron_string_map(text: Seq<char>) -> Result<Map<Seq<char>, Seq<char>>, Seq<char>>;

/// Parses a RON map of strings to strings.
///
/// Trusted: `ron::from_str::<HashMap<String, String>>`. The contract names its result as a
/// function of the text and states that the returned pairs are exactly the map's entries,
/// each key once; the order of the pairs is the hash map's and is left open.
#[verifier::external_body]
fn parse_ron_string_map(text: &str) -> (r: Result<Vec<(String, String)>, String>)
    ensures
        match (r, ron_string_map(text@)) {
            (Ok(entries), Ok(map)) => {
                &&& forall|i: int|
                    0 <= i < entries@.len() ==> map.contains_key((#[trigger] entries@[i]).0@)
                        && map[entries@[i].0@] == entries@[i].1@
                &&& forall|key: Seq<char>|
                    #[trigger] map.contains_key(key) ==> exists|i: int|
                        0 <= i < entries@.len() && (#[trigger] entries@[i]).0@ == key
                &&& forall|i: int, j: int|
                    0 <= i < j < entries@.len() ==> (#[trigger] entries@[i]).0@ != (#[trigger] entries@[j]).0@
            },
            (Err(message), Err(error)) => message@ == error,
            _ => false,
        },
{
    match ron::from_str::<HashMap<String, String>>(text) {
        Ok(map) => Ok(map.into_iter().collect()),
        Err(error) => Err(error.to_string()),
    }
}

/// The value of the first entry whose key is `LEGACY_SETTINGS_KEY`, if any.
pub fn find_legacy_entry(entries: &Vec<(String, String)>) -> (r: Option<String>)
    ensures
        match r {
            Some(value) => exists|j: int|
                0 <= j < entries@.len() && (#[trigger] entries@[j]).0@ == LEGACY_SETTINGS_KEY@
                    && value@ == entries@[j].1@ && forall|i: int|
                    0 <= i < j ==> (#[trigger] entries@[i]).0@ != LEGACY_SETTINGS_KEY@,
            None => forall|j: int|
                0 <= j < entries@.len() ==> (#[trigger] entries@[j]).0@ != LEGACY_SETTINGS_KEY@,
        },
{
    let key = chars_of(LEGACY_SETTINGS_KEY);
    let mut i: usize = 0;
    while i < entries.len()
        invariant
            i <= entries@.len(),
            key@ == LEGACY_SETTINGS_KEY@,
            forall|j: int| 0 <= j < i ==> (#[trigger] entries@[j]).0@ != LEGACY_SETTINGS_KEY@,
        decreases entries.len() - i,
    {
        let candidate = chars_of(entries[i].0.as_str());
        if chars_equal(candidate.as_slice(), key.as_slice()) {
            return Some(entries[i].1.clone());
        }
        i += 1;
    }
    None
}

/// The settings entry of the earlier key/value store whose text is `store`: the value
/// under `LEGACY_SETTINGS_KEY`, `None` when the store has no such entry, or the parse error.
pub fn legacy_settings_text(store: &str) -> (r: Result<Option<String>, String>)
    ensures
        match (r, ron_string_map(store@)) {
            (Ok(Some(value)), Ok(map)) => map.contains_key(LEGACY_SETTINGS_KEY@) && value@
                == map[LEGACY_SETTINGS_KEY@],
            (Ok(None), Ok(map)) => !map.contains_key(LEGACY_SETTINGS_KEY@),
            (Err(message), Err(error)) => message@ == error,
            _ => false,
        },
{
    let entries = match parse_ron_string_map(store) {
        Ok(entries) => entries,
        Err(message) => {
            return Err(message);
        },
    };
    let found = find_legacy_entry(&entries);
    proof {
        let map = ron_string_map(store@)->Ok_0;
        if map.contains_key(LEGACY_SETTINGS_KEY@) && found is None {
            let j = choose|j: int|
                0 <= j < entries@.len() && (#[trigger] entries@[j]).0@ == LEGACY_SETTINGS_KEY@;
            assert(entries@[j].0@ != LEGACY_SETTINGS_KEY@);
        }
    }
    Ok(found)
}

/// Which stored settings a load reads.
#[derive(Clone, Copy, Debug, PartialEq, Eq, Structural)]
pub enum SettingsSource {
    /// The JSON settings file.
    Json,
    /// The settings entry of the earlier key/value store.
    Legacy,
    /// Nothing is stored: the defaults.
    Defaults,
}

/// The settings file of the application's data directory.
#[derive(Clone, Copy, Debug, Default)]
pub struct SettingsFile;

impl SettingsFile {
    /// The JSON file wins over the earlier store, which wins over the defaults.
    pub fn source(json_exists: bool, legacy_exists: bool) -> (s: SettingsSource)
        ensures
            s == (if json_exists {
                SettingsSource::Json
            } else if legacy_exists {
                SettingsSource::Legacy
            } else {
                SettingsSource::Defaults
            }),
    {
        if json_exists {
            SettingsSource::Json
        } else if legacy_exists {
            SettingsSource::Legacy
        } else {
            SettingsSource::Defaults
        }
    }

    /// Settings from the earlier store: its settings entry when there is one, the defaults
    /// otherwise.
    pub fn from_legacy_entry(entry: Option<Settings>) -> (s: Settings)
        ensures
            match entry {
                Some(stored) => s == stored,
                None => s.input_device_id is None && !s.noise_reduction && s.processor_id is None,
            },
    {
        match entry {
            Some(stored) => stored,
            None => Settings::default(),
        }
    }

    /// What the session starts with after a load: `None` when the platform names no data
    /// directory, otherwise the outcome of reading it. A failure falls back to the defaults
    /// and is reported.
    pub fn load_outcome(loaded: Option<Result<Settings, String>>) -> (r: (Settings, Option<String>))
        ensures
            match loaded {
                Some(Ok(stored)) => r.0 == stored && r.1 is None,
                Some(Err(error)) => {
                    &&& r.0.input_device_id is None
                    &&& !r.0.noise_reduction
                    &&& r.0.processor_id is None
                    &&& r.1 matches Some(m) && m@ == "Could not load settings: "@ + error@
                },
                None => {
                    &&& r.0.input_device_id is None
                    &&& !r.0.noise_reduction
                    &&& r.0.processor_id is None
                    &&& r.1 matches Some(m) && m@ == DIRECTORY_UNAVAILABLE_ON_LOAD@
                },
            },
    {
        match loaded {
            Some(Ok(stored)) => (stored, None),
            Some(Err(error)) => (
                Settings::default(),
                Some(concat_str("Could not load settings: ", error.as_str())),
            ),
            None => (Settings::default(), Some(DIRECTORY_UNAVAILABLE_ON_LOAD.to_owned())),
        }
    }
}

} // verus!
