//! When the alarm is armed: every day from 07:00 up to, but not including,
//! 12:00 local time.

use vstd::prelude::*;

verus! {

/// Start of the armed interval, as `[hour, minute]` of the local day.
pub const INTERVAL_BEGIN: [u32; 2] = [7, 0];
/// End of the armed interval (not included), as `[hour, minute]`.
pub const INTERVAL_END: [u32; 2] = [12, 0];

/// Minutes since local midnight.
pub open spec fn minute_of_day(hour: int, minute: int) -> int {
    hour * 60 + minute
}

/// Whether the local time `hour:minute` lies in the armed interval.
pub open spec fn in_active_interval(hour: int, minute: int) -> bool {
    &&& minute_of_day(7, 0) <= minute_of_day(hour, minute)
    &&& minute_of_day(hour, minute) < minute_of_day(12, 0)
}

/// Whether the local time `hour:minute` lies in the armed interval.
pub fn is_within_active_interval(hour: u32, minute: u32) -> (active: bool)
    ensures
        active == in_active_interval(hour as int, minute as int),
{
    let begin_mins: u64 = (INTERVAL_BEGIN[0] as u64) * 60 + (INTERVAL_BEGIN[1] as u64);
    let end_mins: u64 = (INTERVAL_END[0] as u64) * 60 + (INTERVAL_END[1] as u64);
    let current_mins: u64 = (hour as u64) * 60 + (minute as u64);
    begin_mins <= current_mins && current_mins < end_mins
}

/// The armed interval is one stretch of the morning that does not cross
/// midnight: on a clock, it is armed exactly during the hours 7 to 11.
pub proof fn lemma_armed_hours(hour: int, minute: int)
    requires
        0 <= hour < 24,
        0 <= minute < 60,
    ensures
        in_active_interval(hour, minute) <==> 7 <= hour < 12,
{
}

} // verus!
