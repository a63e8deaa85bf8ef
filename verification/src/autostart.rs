//! Starting with Windows, through the value `APIforCursor` under the current
//! user's `Run` key. What the value holds and how registry answers are read
//! is decided here; the registry itself is reached by the caller.

use vstd::prelude::*;

verus! {

/// The registry key that lists programs started at sign-in.
pub const RUN_KEY_PATH: &'static str = "Software\\Microsoft\\Windows\\CurrentVersion\\Run";

/// The value under the `Run` key that this application owns.
pub const VALUE_NAME: &'static str = "APIforCursor";

/// The command stored for autostart: the quoted executable path and
/// `--hidden`.
pub open spec fn autostart_command_view(exe: Seq<char>) -> Seq<char> {
    "\""@ + exe + "\" --hidden"@
}

/// The command stored for autostart: `"<exe>" --hidden`.
pub fn current_exe_command(exe: &str) -> (r: String)
    ensures
        r@ == autostart_command_view(exe@),
{
    let mut r = "\"".to_string();
    r.append(exe);
    r.append("\" --hidden");
    r
}

/// What a registry request came to.
pub enum RegistryOutcome {
    /// The value was there (for a read) or the change was made.
    Done,
    /// The value does not exist.
    NotFound,
    /// The request failed, with this message.
    Failed(String),
}

/// Whether autostart is on, given what reading the value gave: present
/// means on, absent means off, and any other failure is an error.
pub fn is_autostart_enabled(read: RegistryOutcome) -> (r: Result<bool, String>)
    ensures
        read is Done ==> r == Ok::<bool, String>(true),
        read is NotFound ==> r == Ok::<bool, String>(false),
        read matches RegistryOutcome::Failed(m) ==> (r matches Err(e) && e == m),
{
    match read {
        RegistryOutcome::Done => Ok(true),
        RegistryOutcome::NotFound => Ok(false),
        RegistryOutcome::Failed(m) => Err(m),
    }
}

/// What switching autostart off amounts to, given what deleting the value
/// gave: a value that was not there counts as removed.
pub fn autostart_removed(delete: RegistryOutcome) -> (r: Result<(), String>)
    ensures
        !(delete is Failed) ==> r is Ok,
        delete matches RegistryOutcome::Failed(m) ==> (r matches Err(e) && e == m),
{
    match delete {
        RegistryOutcome::Failed(m) => Err(m),
        _ => Ok(()),
    }
}

} // verus!
