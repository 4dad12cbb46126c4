//! Whole days between two instants, and which of them comes earlier in the local day.

use vstd::prelude::*;

verus! {

/// Seconds of one day.
pub const SECONDS_PER_DAY: i64 = 86_400;

/// The earliest instant that calendar arithmetic accepts, in seconds since the epoch:
/// the first second of the year -262143.
pub const MIN_TIMESTAMP: i64 = -8_334_601_228_800;

/// The latest instant that calendar arithmetic accepts, in seconds since the epoch:
/// the last second of the year 262142.
pub const MAX_TIMESTAMP: i64 = 8_210_266_876_799;

/// A fixed difference between local time and UTC, of less than a day either way.
#[derive(Clone, Copy, Debug, PartialEq, Eq)]
pub struct FixedOffset {
    local_minus_utc: i32,
}

impl View for FixedOffset {
    type V = int;

    /// Seconds to add to UTC to get the local time.
    closed spec fn view(&self) -> int {
        self.local_minus_utc as int
    }
}

impl FixedOffset {
    #[verifier::type_invariant]
    spec fn within_a_day(self) -> bool {
        offset_in_range(self.local_minus_utc as int)
    }

    /// The offset of a zone `seconds` east of Greenwich, if that is less than a day either
    /// way; a negative number is a zone to the west.
    pub fn east_opt(seconds: i32) -> (offset: Option<FixedOffset>)
        ensures
            match offset {
                Some(o) => o@ == seconds && offset_in_range(seconds as int),
                None => !offset_in_range(seconds as int),
            },
    {
        if -86_400 < seconds && seconds < 86_400 {
            Some(FixedOffset { local_minus_utc: seconds })
        } else {
            None
        }
    }

    /// The offset of a zone `seconds` west of Greenwich, if that is less than a day either
    /// way; a negative number is a zone to the east.
    pub fn west_opt(seconds: i32) -> (offset: Option<FixedOffset>)
        ensures
            match offset {
                Some(o) => o@ == -seconds && offset_in_range(seconds as int),
                None => !offset_in_range(seconds as int),
            },
    {
        if -86_400 < seconds && seconds < 86_400 {
            Some(FixedOffset { local_minus_utc: -seconds })
        } else {
            None
        }
    }

    /// Seconds to add to UTC to get the local time.
    pub fn local_minus_utc(&self) -> (seconds: i32)
        ensures
            seconds == self@,
            offset_in_range(seconds as int),
    {
        proof {
            use_type_invariant(self);
        }
        self.local_minus_utc
    }
}

/// The offset is less than a day either way.
pub open spec fn offset_in_range(seconds: int) -> bool {
    -SECONDS_PER_DAY < seconds < SECONDS_PER_DAY
}

/// The instant lies in the years that calendar arithmetic accepts.
pub open spec fn timestamp_in_range(timestamp: int) -> bool {
    MIN_TIMESTAMP <= timestamp <= MAX_TIMESTAMP
}

/// The instant has a local time in a zone of this offset: the calendar holds the instant,
/// and the offset is less than a day.
pub open spec fn local_time_exists(timestamp: int, offset_seconds: int) -> bool {
    timestamp_in_range(timestamp) && offset_in_range(offset_seconds)
}

/// Seconds since midnight of an instant counted in local seconds since the epoch.
pub open spec fn second_of_day(local_seconds: int) -> int {
    local_seconds % 86_400
}

/// Full days in a span of seconds; a negative span counts its full days negatively, so that
/// a part of a day is dropped in either direction.
pub open spec fn whole_days(seconds: int) -> int {
    if seconds >= 0 {
        seconds / 86_400
    } else {
        -((-seconds) / 86_400)
    }
}

/// Whether an instant can be handed to `days_elapsed_between_timestamps`.
pub fn is_timestamp_in_range(timestamp: i64) -> (accepted: bool)
    ensures
        accepted == timestamp_in_range(timestamp as int),
{
    MIN_TIMESTAMP <= timestamp && timestamp <= MAX_TIMESTAMP
}

/// Calls `chrono::DateTime::time` on the instant `timestamp` in the zone `offset_seconds`
/// east of Greenwich, and reads the result's seconds since midnight. Believed of chrono: it
/// makes the offset where that is less than a day either way, and the instant where that
/// lies in the years that its calendar holds; the local time of day is then the instant
/// shifted by the offset, taken modulo one day, with a remainder that is never negative.
#[verifier::external_body]
#[allow(deprecated)]
fn local_second_of_day(timestamp: i64, offset_seconds: i32) -> (second: Option<u32>)
    ensures
        match second {
            Some(s) => s == second_of_day(timestamp + offset_seconds) && local_time_exists(
                timestamp as int,
                offset_seconds as int,
            ),
            None => !local_time_exists(timestamp as int, offset_seconds as int),
        },
{
    let offset = chrono::FixedOffset::east_opt(offset_seconds)?;
    let utc = chrono::NaiveDateTime::from_timestamp_opt(timestamp, 0)?;
    let local = chrono::TimeZone::from_utc_datetime(&offset, &utc);
    Some(chrono::Timelike::num_seconds_from_midnight(&local.time()))
}

/// Calls `chrono::DateTime::signed_duration_since` on two instants in the zone
/// `offset_seconds` east of Greenwich, and `num_days` on the result. Believed of chrono: it
/// makes the offset and the instants as said above; the duration is then the difference of
/// the instants, whatever the zone, and its days are its seconds divided by those of a day,
/// rounded towards zero.
#[verifier::external_body]
#[allow(deprecated)]
fn whole_days_between(from: i64, to: i64, offset_seconds: i32) -> (days: Option<i64>)
    ensures
        match days {
            Some(d) => d == whole_days(to - from) && local_time_exists(
                from as int,
                offset_seconds as int,
            ) && local_time_exists(to as int, offset_seconds as int),
            None => !(local_time_exists(from as int, offset_seconds as int) && local_time_exists(
                to as int,
                offset_seconds as int,
            )),
        },
{
    let offset = chrono::FixedOffset::east_opt(offset_seconds)?;
    let from_utc = chrono::NaiveDateTime::from_timestamp_opt(from, 0)?;
    let to_utc = chrono::NaiveDateTime::from_timestamp_opt(to, 0)?;
    let from_local = chrono::TimeZone::from_utc_datetime(&offset, &from_utc);
    let to_local = chrono::TimeZone::from_utc_datetime(&offset, &to_utc);
    Some(to_local.signed_duration_since(from_local).num_days())
}

/// Compares two instants, given in seconds since the epoch, in the zone of `offset`. The
/// first part of the answer says whether the local time of day of `timestamp_b` is earlier
/// than that of `timestamp_a`; the second is the number of full days from `timestamp_a` to
/// `timestamp_b`, negative where `timestamp_b` is the earlier instant.
pub fn days_elapsed_between_timestamps(
    timestamp_a: i64,
    timestamp_b: i64,
    offset: FixedOffset,
) -> (elapsed: (bool, i64))
    requires
        timestamp_in_range(timestamp_a as int),
        timestamp_in_range(timestamp_b as int),
    ensures
        elapsed.0 == (second_of_day(timestamp_b + offset@) < second_of_day(timestamp_a + offset@)),
        elapsed.1 == whole_days(timestamp_b - timestamp_a),
{
    let shift = offset.local_minus_utc();
    let time_a = local_second_of_day(timestamp_a, shift).unwrap();
    let time_b = local_second_of_day(timestamp_b, shift).unwrap();
    let days_elapsed = whole_days_between(timestamp_a, timestamp_b, shift).unwrap();
    (time_b < time_a, days_elapsed)
}

/// An age in days, as the day counter tells it.
#[derive(Clone, Copy, Debug, PartialEq, Eq, Structural)]
pub enum Age {
    /// This many days are over, the last of them at or before the present time of day.
    Completed(i64),
    /// This many days will be over later on the present day.
    CompletesToday(i64),
}

/// The age that a comparison of two instants amounts to: where the later instant comes
/// earlier in the day than the earlier one, the day that is under way is counted as one
/// that completes today.
pub open spec fn age_of(earlier_in_day: bool, days_elapsed: int) -> Age {
    if earlier_in_day {
        Age::CompletesToday((days_elapsed + 1) as i64)
    } else {
        Age::Completed(days_elapsed as i64)
    }
}

/// The age at the instant `now` of what began at the instant `born`, in the zone of
/// `offset`: the full days since, or one more where the time of day of `born` is still to
/// come on the day of `now`.
pub fn age_at(born: i64, now: i64, offset: FixedOffset) -> (age: Age)
    requires
        timestamp_in_range(born as int),
        timestamp_in_range(now as int),
    ensures
        age == age_of(
            second_of_day(now + offset@) < second_of_day(born + offset@),
            whole_days(now - born),
        ),
        match age {
            Age::Completed(days) => days == whole_days(now - born),
            Age::CompletesToday(days) => days == whole_days(now - born) + 1,
        },
{
    let (earlier_in_day, days_elapsed) = days_elapsed_between_timestamps(born, now, offset);
    if earlier_in_day {
        Age::CompletesToday(days_elapsed + 1)
    } else {
        Age::Completed(days_elapsed)
    }
}

} // verus!
