use vstd::prelude::*;
use std::fmt::Write;
use std::time::{SystemTime, UNIX_EPOCH};
use crate::value::DatetimeInstance;

verus! {

/// The name of the text that chrono renders for a UTC time (seconds and nanoseconds
/// since the epoch) under a strftime-style pattern; `None` where the time is out of
/// chrono's range or the pattern holds an invalid item.
pub uninterp spec fn utc_formatted(secs: int, nanos: int, pattern: Seq<char>) -> Option<Seq<char>>;

/// Relies on `std::time::SystemTime::now` and `SystemTime::duration_since(UNIX_EPOCH)`:
/// how far the clock stands after (`Ok`) or before (`Err`, through
/// `SystemTimeError::duration`) the epoch, as whole seconds and the nanoseconds past
/// them, which `Duration::subsec_nanos` keeps below one billion.
#[verifier::external_body]
fn system_clock() -> (r: Result<(u64, u32), (u64, u32)>)
    ensures
        match r {
            Ok((_, n)) => n < 1_000_000_000,
            Err((_, n)) => n < 1_000_000_000,
        },
{
    match SystemTime::now().duration_since(UNIX_EPOCH) {
        Ok(d) => Ok((d.as_secs(), d.subsec_nanos())),
        Err(e) => Err((e.duration().as_secs(), e.duration().subsec_nanos())),
    }
}

/// The name of whether chrono can represent a UTC time given as seconds and
/// nanoseconds since the epoch.
pub uninterp spec fn utc_representable(secs: int, nanos: int) -> bool;

/// Relies on `chrono::DateTime::from_timestamp`: `Some` exactly where chrono can
/// represent the time.
#[verifier::external_body]
fn utc_in_range(secs: i64, nanos: u32) -> (r: bool)
    ensures
        r == utc_representable(secs as int, nanos as int),
{
    chrono::DateTime::from_timestamp(secs, nanos).is_some()
}

/// A clock reading as seconds (negative before 1970) and the nanoseconds past them,
/// the way chrono turns a `SystemTime` into a date; `None` where the seconds do not
/// fit in 64 bits.
pub open spec fn epoch_spec(reading: Result<(u64, u32), (u64, u32)>) -> Option<(int, int)> {
    match reading {
        Ok((s, n)) => if s <= i64::MAX {
            Some((s as int, n as int))
        } else {
            None
        },
        Err((s, n)) => if n == 0 {
            if s <= 0x8000_0000_0000_0000 {
                Some((-(s as int), 0))
            } else {
                None
            }
        } else if s < 0x8000_0000_0000_0000 {
            Some((-(s as int) - 1, 1_000_000_000 - n))
        } else {
            None
        },
    }
}

/// A clock reading as a point in time.
pub fn epoch_time(reading: Result<(u64, u32), (u64, u32)>) -> (r: Option<DatetimeInstance>)
    requires
        match reading {
            Ok((_, n)) => n < 1_000_000_000,
            Err((_, n)) => n < 1_000_000_000,
        },
    ensures
        match r {
            Some(d) => epoch_spec(reading) == Some((d.secs as int, d.nanos as int)),
            None => epoch_spec(reading) is None,
        },
{
    match reading {
        Ok((s, n)) => {
            if s <= i64::MAX as u64 {
                Some(DatetimeInstance { secs: s as i64, nanos: n })
            } else {
                None
            }
        },
        Err((s, n)) => {
            if n == 0 {
                if s < 0x8000_0000_0000_0000u64 {
                    Some(DatetimeInstance { secs: -(s as i64), nanos: 0 })
                } else if s == 0x8000_0000_0000_0000u64 {
                    Some(DatetimeInstance { secs: i64::MIN, nanos: 0 })
                } else {
                    None
                }
            } else if s < 0x8000_0000_0000_0000u64 {
                Some(DatetimeInstance { secs: -(s as i64) - 1, nanos: 1_000_000_000 - n })
            } else {
                None
            }
        },
    }
}

/// Relies on `chrono::DateTime::from_timestamp` and `DateTime::format`: the time is
/// rendered under the pattern, or `None` where either fails.
#[verifier::external_body]
fn format_utc(secs: i64, nanos: u32, pattern: &str) -> (r: Option<String>)
    ensures
        match r {
            Some(s) => utc_formatted(secs as int, nanos as int, pattern@) == Some(s@),
            None => utc_formatted(secs as int, nanos as int, pattern@) is None,
        },
{
    let mut out = String::new();
    match chrono::DateTime::from_timestamp(secs, nanos) {
        Some(t) => match write!(out, "{}", t.format(pattern)) {
            Ok(()) => Some(out),
            Err(_) => None,
        },
        None => None,
    }
}

/// The class `Datetime`: its default instance is the current time.
pub struct DatetimeClass;

impl DatetimeClass {
    /// The current time, or `None` where the clock reads a time that chrono cannot
    /// represent.
    pub fn create_instance(&self) -> (r: Option<DatetimeInstance>)
        ensures
            r matches Some(d) ==> d.nanos < 1_000_000_000 && utc_representable(d.secs as int, d.nanos as int),
    {
        match epoch_time(system_clock()) {
            Some(d) => {
                if utc_in_range(d.secs, d.nanos) {
                    Some(d)
                } else {
                    None
                }
            },
            None => None,
        }
    }
}

impl DatetimeInstance {
    /// The time rendered under a strftime-style pattern, as `d.format(pattern)` gives it.
    pub fn format(&self, pattern: &str) -> (r: Option<String>)
        ensures
            match r {
                Some(s) => utc_formatted(self.secs as int, self.nanos as int, pattern@) == Some(s@),
                None => utc_formatted(self.secs as int, self.nanos as int, pattern@) is None,
            },
    {
        format_utc(self.secs, self.nanos, pattern)
    }
}

} // verus!
