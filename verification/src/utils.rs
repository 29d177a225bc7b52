//! Wall-clock time formatting for log lines.

use vstd::prelude::*;

use chrono::{Local, TimeZone};

verus! {

/// Relies on chrono's `TimeZone::timestamp_millis_opt` on `Local` and
/// `DateTime::format` with `"%H:%M:%S"`: the local wall-clock time of the
/// given Unix-epoch milliseconds as zero-padded two-digit hours, minutes
/// and seconds separated by colons — 8 characters, colons at indices 2 and
/// 5, decimal digits everywhere else. When the timestamp maps to no single
/// local time, the epoch is shown instead, and failing that the time now.
/// The result depends on the machine's time zone, so no more than this
/// shape is stated.
#[verifier::external_body]
pub fn get_local_timestring(time: i64) -> (r: String)
    ensures
        r@.len() == 8,
        r@[2] == ':' && r@[5] == ':',
        forall|i: int|
            0 <= i < 8 && i != 2 && i != 5 ==> '0' <= #[trigger] r@[i] && r@[i] <= '9',
{
    let datetime = match Local.timestamp_millis_opt(time).single() {
        Some(d) => d,
        None => match Local.timestamp_millis_opt(0).single() {
            Some(d) => d,
            None => Local::now(),
        },
    };
    datetime.format("%H:%M:%S").to_string()
}

} // verus!
