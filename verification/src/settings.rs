//! Non-secret application settings, kept in
//! `%APPDATA%\API for Cursor\settings.json`.

use vstd::prelude::*;
use crate::location::{extended, opt_location, Location, LocationView};

verus! {

/// The port the local API listens on unless the settings name another.
pub const DEFAULT_PORT: u16 = 8787;

/// The application's settings.
#[derive(Clone, Copy, Debug, PartialEq, Eq, Structural)]
pub struct Settings {
    /// The port the local API listens on.
    pub port: u16,
    /// Whether the application starts with Windows.
    pub autostart: bool,
}

/// The settings used when none are stored: the default port, no autostart.
pub open spec fn default_settings() -> Settings {
    Settings { port: DEFAULT_PORT, autostart: false }
}

/// The port used when the settings do not name one.
pub fn default_port() -> (p: u16)
    ensures
        p == DEFAULT_PORT,
{
    DEFAULT_PORT
}

impl Default for Settings {
    fn default() -> (s: Settings)
        ensures
            s == default_settings(),
    {
        Settings { port: DEFAULT_PORT, autostart: false }
    }
}

/// The message given when `%APPDATA%` cannot be resolved.
pub const NO_APPDATA: &'static str = "could not resolve %APPDATA%";

/// The directory that holds the settings file: `%APPDATA%\API for Cursor`;
/// an error when `%APPDATA%` could not be resolved.
pub fn settings_dir(appdata: Option<Location>) -> (r: Result<Location, String>)
    ensures
        r is Ok <==> appdata is Some,
        r matches Ok(l) ==> Some(l@) == match opt_location(appdata) {
            Some(a) => Some(extended(a, seq!["API for Cursor"@])),
            None => None,
        },
        r matches Err(e) ==> e@ == NO_APPDATA@,
{
    match appdata {
        Some(a) => Ok(a.join("API for Cursor")),
        None => Err(NO_APPDATA.to_string()),
    }
}

/// The settings file: `%APPDATA%\API for Cursor\settings.json`; an error
/// when `%APPDATA%` could not be resolved.
pub fn settings_path(appdata: Option<Location>) -> (r: Result<Location, String>)
    ensures
        r is Ok <==> appdata is Some,
        r matches Ok(l) ==> Some(l@) == match opt_location(appdata) {
            Some(a) => Some(extended(a, seq!["API for Cursor"@, "settings.json"@])),
            None => None,
        },
        r matches Err(e) ==> e@ == NO_APPDATA@,
{
    match settings_dir(appdata) {
        Ok(d) => {
            let l = d.join("settings.json");
            proof {
                let a = opt_location(appdata)->0;
                assert(l@.segments =~= a.segments + seq!["API for Cursor"@, "settings.json"@]);
            }
            Ok(l)
        },
        Err(e) => Err(e),
    }
}

/// The settings in effect: those that were read, or the defaults when the
/// file was missing, unreadable or did not parse (`parsed` is `None`).
pub fn load(parsed: Option<Settings>) -> (s: Settings)
    ensures
        s == match parsed {
            Some(p) => p,
            None => default_settings(),
        },
{
    match parsed {
        Some(p) => p,
        None => Settings::default(),
    }
}

/// The configured port (the default, 8787, when none is stored).
pub fn port(parsed: Option<Settings>) -> (p: u16)
    ensures
        p == load_view(parsed).port,
{
    load(parsed).port
}

/// The settings in effect for what was read.
pub open spec fn load_view(parsed: Option<Settings>) -> Settings {
    match parsed {
        Some(p) => p,
        None => default_settings(),
    }
}

/// The settings to store when the port is changed: those in effect with the
/// new port.
pub fn with_port(parsed: Option<Settings>, port: u16) -> (s: Settings)
    ensures
        s == (Settings { port, ..load_view(parsed) }),
{
    let mut s = load(parsed);
    s.port = port;
    s
}

/// The settings reported to the interface: those in effect.
pub fn get_settings(parsed: Option<Settings>) -> (r: Result<Settings, String>)
    ensures
        r matches Ok(s) && s == load_view(parsed),
{
    Ok(load(parsed))
}

/// A port that was set is the port read back, and nothing else changes.
pub proof fn law_port_roundtrip(parsed: Option<Settings>, p: u16)
    ensures
        load_view(Some((Settings { port: p, ..load_view(parsed) }))).port == p,
        load_view(Some((Settings { port: p, ..load_view(parsed) }))).autostart == load_view(
            parsed,
        ).autostart,
{
}

/// Without stored settings the port is 8787 and autostart is off.
pub proof fn law_defaults()
    ensures
        load_view(None).port == 8787,
        !load_view(None).autostart,
{
}

} // verus!
