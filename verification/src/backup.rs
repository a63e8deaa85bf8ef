//! Backups taken before a configuration file is overwritten: only when the
//! file exists and its content would change, under the name
//! `<file>.api-for-cursor-backup.<milliseconds since the epoch>`.

use vstd::prelude::*;
use std::time::{Duration, SystemTime};
use crate::text::{decimal, decimal_string};

verus! {

#[verifier::external_type_specification]
#[verifier::external_body]
pub struct ExSystemTime(SystemTime);

/// What is inserted between a file's name and the backup's timestamp.
pub const BACKUP_MARK: &'static str = ".api-for-cursor-backup.";

/// Whether a file must be backed up before `new_content` is written: it
/// exists (its content could be read) and differs from `new_content`.
pub fn needs_backup(existing: &Option<String>, new_content: &str) -> (b: bool)
    ensures
        b == (existing matches Some(e) && e@ != new_content@),
{
    match existing {
        Some(e) => !(*e == new_content.to_string()),
        None => false,
    }
}

/// The backup's file name: the file's name (`config` when it has none),
/// the backup mark, and the time in milliseconds.
pub open spec fn backup_name_view(file_name: Option<Seq<char>>, epoch_ms: u128) -> Seq<char> {
    let name = match file_name {
        Some(n) => n,
        None => "config"@,
    };
    name + BACKUP_MARK@ + decimal(epoch_ms as nat)
}

/// The backup's file name (see [`backup_name_view`]).
pub fn backup_name(file_name: Option<String>, epoch_ms: u128) -> (r: String)
    ensures
        r@ == backup_name_view(
            match file_name {
                Some(n) => Some(n@),
                None => None,
            },
            epoch_ms,
        ),
{
    let mut r = match file_name {
        Some(n) => n,
        None => "config".to_string(),
    };
    r.append(BACKUP_MARK);
    let digits = decimal_string(epoch_ms);
    r.append(digits.as_str());
    r
}

/// Calls `SystemTime::now`. The time is not predictable, so nothing is
/// promised.
#[verifier::external_body]
fn system_now() -> SystemTime {
    SystemTime::now()
}

/// Calls `SystemTime::duration_since(UNIX_EPOCH)`, keeping the duration when
/// the time is not before the epoch. Nothing is promised of the result.
#[verifier::external_body]
fn since_unix_epoch(t: SystemTime) -> Option<Duration> {
    t.duration_since(std::time::UNIX_EPOCH).ok()
}

/// Calls `Duration::as_millis`: the whole milliseconds of the duration. The
/// duration is opaque here, so nothing is promised of the number.
#[verifier::external_body]
fn whole_millis(d: &Duration) -> u128 {
    d.as_millis()
}

/// Milliseconds since the Unix epoch by the system clock, or 0 when the
/// clock is set before the epoch.
pub fn epoch_ms() -> u128 {
    match since_unix_epoch(system_now()) {
        Some(d) => whole_millis(&d),
        None => 0,
    }
}

} // verus!
