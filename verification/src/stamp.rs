//! The line that tells when the bridge list was last modified. The moment is
//! turned into local date and time by `chrono`.

use chrono::{DateTime, Local};
use std::fmt::Write;
use vstd::prelude::*;

verus! {

/// How the moment is written: year, month, day, hours, minutes, seconds.
pub const STAMP_FORMAT: &'static str = "%Y-%m-%d %H:%M:%S";

/// What stands before the moment.
pub const STAMP_LABEL: &'static str = "Tor bridges last modified: ";

/// What stands after it: a blank, and two line feeds for an empty line below.
pub const STAMP_END: &'static str = " \n\n";

/// The line for the moment written as `stamp`.
pub open spec fn stamp_line(stamp: Seq<char>) -> Seq<char> {
    STAMP_LABEL@ + stamp + STAMP_END@
}

/// `DateTime::from_timestamp`, `DateTime::with_timezone` with `Local` and
/// `DateTime::format` of chrono: the moment `secs` seconds and `nanos`
/// nanoseconds after the start of 1970 (UTC), written in the time zone of
/// the machine after `pattern`. `None` where chrono has no date for the
/// moment or cannot write it after the pattern. What is written depends on
/// that time zone.
#[verifier::external_body]
fn local_stamp(secs: i64, nanos: u32, pattern: &str) -> (stamp: Option<String>) {
    let moment = DateTime::from_timestamp(secs, nanos)?.with_timezone(&Local);
    let mut stamp = String::new();
    write!(stamp, "{}", moment.format(pattern)).ok()?;
    Some(stamp)
}

/// The line that tells that the bridge list was last modified at the moment
/// written as `stamp`.
pub fn last_modified_line(stamp: &str) -> (line: String)
    ensures
        line@ == stamp_line(stamp@),
{
    let mut line = String::from_str(STAMP_LABEL);
    line.append(stamp);
    line.append(STAMP_END);
    line
}

/// The line for a moment once it is known how it is written, if at all: the
/// line of the stamp, or `None` where there is none.
pub fn line_of_stamp(stamp: Option<String>) -> (line: Option<String>)
    ensures
        match line {
            Some(text) => stamp is Some && text@ == stamp_line(stamp->0@),
            None => stamp is None,
        },
{
    match stamp {
        Some(written) => Some(last_modified_line(written.as_str())),
        None => None,
    }
}

/// The line that tells when the bridge list was last modified, for a moment
/// given in seconds and nanoseconds since the start of 1970 (UTC). `None`
/// where the moment has no date.
pub fn last_modified(secs: i64, nanos: u32) -> (line: Option<String>)
    ensures
        line matches Some(text) ==> exists|stamp: Seq<char>| text@ == stamp_line(stamp),
{
    line_of_stamp(local_stamp(secs, nanos, STAMP_FORMAT))
}

} // verus!
