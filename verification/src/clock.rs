//! Clock readouts: an instant as the wall-clock time of a named zone, or of
//! the zone of this machine.
//!
//! The time zones and the formats are those of `chrono` and `chrono-tz`.
//! What they write is named here, not defined: `zone_known`,
//! `zone_clock_text` and `offset_clock_text` stand for what the two crates
//! compute, and the functions of this module are exact over those names.

use crate::error::{outcome, ErrorModel, StatusError};
use crate::text::text_view;
use vstd::prelude::*;

verus! {

/// A point in time: whole seconds since 1970-01-01 00:00:00 UTC, and the
/// nanoseconds since the last whole second.
#[derive(Clone, Copy, Debug, PartialEq, Eq, Structural)]
pub struct Instant {
    pub secs: i64,
    pub nanos: u32,
}

/// Whether `chrono-tz` knows a time zone by the name `name`.
pub uninterp spec fn zone_known(name: Seq<char>) -> bool;

/// What `chrono` writes for the instant of so many seconds and nanoseconds
/// in the time zone `name` with the format `fmt`; `None` where it writes
/// nothing, because the zone is not known, the instant lies outside the
/// dates that it can hold, or it refuses the format.
pub uninterp spec fn zone_clock_text(name: Seq<char>, secs: int, nanos: int, fmt: Seq<char>) -> Option<
    Seq<char>,
>;

/// What `chrono` writes for the instant of so many seconds and nanoseconds
/// at `offset` seconds east of UTC with the format `fmt`; `None` where it
/// writes nothing, because the offset is a day or more, the instant lies
/// outside the dates that it can hold, or it refuses the format.
pub uninterp spec fn offset_clock_text(offset: int, secs: int, nanos: int, fmt: Seq<char>) -> Option<
    Seq<char>,
>;

/// The message of `chrono-tz` for a name that is no time zone.
pub open spec fn unknown_zone_message(name: Seq<char>) -> Seq<char> {
    seq!['\''] + name + "' is not a valid timezone"@
}

/// Looks a time zone up by its name.
///
/// Wraps `<chrono_tz::Tz as FromStr>::from_str`. It finds the name in the
/// table of time zones that the crate was built with, and fails for any
/// other name with the message `'<name>' is not a valid timezone`.
#[verifier::external_body]
fn zone_lookup(name: &str) -> (r: Result<(), String>)
    ensures
        r is Ok <==> zone_known(name@),
        r matches Err(message) ==> message@ == unknown_zone_message(name@),
{
    match name.parse::<chrono_tz::Tz>() {
        Ok(_) => Ok(()),
        Err(message) => Err(message),
    }
}

/// Writes an instant as the time of a named zone.
///
/// Wraps `chrono::DateTime::format` on the instant in the zone, written out
/// by `DelayedFormat::write_to`. The result is a function of the zone, the
/// instant and the format alone: the rules of the zones are compiled into
/// `chrono-tz`, and no locale is read.
#[verifier::external_body]
fn zone_clock(name: &str, at: &Instant, fmt: &str) -> (r: Option<String>)
    ensures
        text_view(r) == zone_clock_text(name@, at.secs as int, at.nanos as int, fmt@),
{
    let zone: chrono_tz::Tz = name.parse().ok()?;
    let utc = chrono::DateTime::from_timestamp(at.secs, at.nanos)?;
    let mut out = String::new();
    utc.with_timezone(&zone).format(fmt).write_to(&mut out).ok()?;
    Some(out)
}

/// Writes an instant as the time at a fixed offset from UTC.
///
/// Wraps `chrono::DateTime::format` on the instant at
/// `chrono::FixedOffset::east_opt(offset)`, written out by
/// `DelayedFormat::write_to`. The result is a function of the offset, the
/// instant and the format alone.
#[verifier::external_body]
fn offset_clock(offset: i32, at: &Instant, fmt: &str) -> (r: Option<String>)
    ensures
        text_view(r) == offset_clock_text(offset as int, at.secs as int, at.nanos as int, fmt@),
{
    let zone = chrono::FixedOffset::east_opt(offset)?;
    let utc = chrono::DateTime::from_timestamp(at.secs, at.nanos)?;
    let mut out = String::new();
    utc.with_timezone(&zone).format(fmt).write_to(&mut out).ok()?;
    Some(out)
}

/// Reads the clock.
///
/// Wraps `chrono::Utc::now`, with `DateTime::timestamp` and
/// `DateTime::timestamp_subsec_nanos` to take the instant apart. Nothing is
/// claimed of the instant: it is whatever the clock of the machine says.
/// `Utc::now` expects that clock to stand at or after 1970.
#[verifier::external_body]
fn utc_now() -> Instant {
    let now = chrono::Utc::now();
    Instant { secs: now.timestamp(), nanos: now.timestamp_subsec_nanos() }
}

/// The offset from UTC, in seconds to the east, that the zone of this
/// machine has at an instant.
///
/// Wraps `chrono::DateTime::with_timezone` to `chrono::Local`, and
/// `chrono::FixedOffset::local_minus_utc` on the offset that it finds. The
/// offset follows from how the machine is set up; all that is claimed of it
/// is the range of a `FixedOffset`, which lies between UTC-23:59:59 and
/// UTC+23:59:59. `None` where `chrono` cannot hold the instant.
#[verifier::external_body]
fn local_offset(at: &Instant) -> (r: Option<i32>)
    ensures
        r matches Some(offset) ==> -86_400 < offset < 86_400,
{
    let utc = chrono::DateTime::from_timestamp(at.secs, at.nanos)?;
    Some(utc.with_timezone(&chrono::Local).offset().local_minus_utc())
}

impl Instant {
    /// The instant that the clock of the machine shows.
    pub fn now() -> Instant {
        utc_now()
    }

    /// The offset from UTC, in seconds to the east, of the zone of this
    /// machine at the instant; zero where none can be had.
    pub fn local_offset(&self) -> (offset: i32)
        ensures
            -86_400 < offset < 86_400,
    {
        match local_offset(self) {
            Some(offset) => offset,
            None => 0,
        }
    }
}

/// The time of an instant in a named zone: the text that `chrono` writes
/// with the format; an error for a name that is no time zone, and another
/// where `chrono` writes nothing.
pub open spec fn zone_time(name: Seq<char>, at: Instant, fmt: Seq<char>) -> Result<
    Seq<char>,
    ErrorModel,
> {
    if !zone_known(name) {
        Err(ErrorModel::ParseTz(unknown_zone_message(name)))
    } else {
        match zone_clock_text(name, at.secs as int, at.nanos as int, fmt) {
            Some(text) => Ok(text),
            None => Err(ErrorModel::Format(fmt)),
        }
    }
}

/// The time of an instant at an offset from UTC: the text that `chrono`
/// writes with the format, and nothing where it writes none.
pub open spec fn local_time(offset: int, at: Instant, fmt: Seq<char>) -> Seq<char> {
    match offset_clock_text(offset, at.secs as int, at.nanos as int, fmt) {
        Some(text) => text,
        None => Seq::empty(),
    }
}

/// The time of the instant `at` in the zone `tz_name`, written with `fmt`.
pub fn tz_time_at(tz_name: &str, fmt: &str, at: &Instant) -> (r: Result<String, StatusError>)
    ensures
        outcome(r) == zone_time(tz_name@, *at, fmt@),
{
    match zone_lookup(tz_name) {
        Err(message) => Err(StatusError::ParseTz(message)),
        Ok(()) => match zone_clock(tz_name, at, fmt) {
            Some(text) => Ok(text),
            None => Err(StatusError::Format(fmt.to_owned())),
        },
    }
}

/// The time of now in the zone `tz_name`, written with `fmt`.
pub fn get_tz_time(tz_name: &str, fmt: &str) -> (r: Result<String, StatusError>)
    ensures
        exists|at: Instant| outcome(r) == zone_time(tz_name@, at, fmt@),
        !zone_known(tz_name@) ==> outcome(r) == Err::<Seq<char>, ErrorModel>(
            ErrorModel::ParseTz(unknown_zone_message(tz_name@)),
        ),
        zone_known(tz_name@) ==> r is Ok || outcome(r) == Err::<Seq<char>, ErrorModel>(
            ErrorModel::Format(fmt@),
        ),
{
    let at = Instant::now();
    tz_time_at(tz_name, fmt, &at)
}

/// The time of the instant `at` at `offset` seconds east of UTC, written
/// with `fmt`; empty where it cannot be written.
pub fn local_time_at(fmt: &str, at: &Instant, offset: i32) -> (s: String)
    ensures
        s@ == local_time(offset as int, *at, fmt@),
{
    match offset_clock(offset, at, fmt) {
        Some(text) => text,
        None => String::new(),
    }
}

/// The time of now in the zone of this machine, written with `fmt`; empty
/// where it cannot be written.
pub fn get_local_time(fmt: &str) -> (s: String)
    ensures
        exists|at: Instant, offset: int|
            -86_400 < offset < 86_400 && s@ == local_time(offset, at, fmt@),
{
    let at = Instant::now();
    let offset: i32 = at.local_offset();
    let s = local_time_at(fmt, &at, offset);
    assert(-86_400 < offset < 86_400 && s@ == local_time(offset as int, at, fmt@));
    s
}

} // verus!
