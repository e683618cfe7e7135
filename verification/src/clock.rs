use crate::error::Error;
use crate::models::{ScheduleTime, ScheduleTimeView};
use vstd::prelude::*;

verus! {

/// An instant of time: the whole seconds since 1970-01-01T00:00:00Z, leap
/// seconds not counted, and the nanoseconds that follow that second.
#[derive(Clone, Copy, Debug, PartialEq, Eq, Structural)]
pub struct Instant {
    pub secs: i64,
    pub nanos: u32,
}

impl Instant {
    /// The nanoseconds from 1970-01-01T00:00:00Z to this instant.
    pub open spec fn since_epoch(self) -> int {
        self.secs * 1_000_000_000 + self.nanos
    }
}

/// A span of time that is not negative: whole seconds and the nanoseconds
/// beyond them, fewer than a second.
#[derive(Clone, Copy, Debug, PartialEq, Eq, Structural)]
pub struct Delay {
    pub secs: u64,
    pub nanos: u32,
}

impl Delay {
    /// The span in nanoseconds.
    pub open spec fn total_nanos(self) -> int {
        self.secs * 1_000_000_000 + self.nanos
    }
}

/// The longest span a `Delay` holds.
pub open spec fn longest_delay() -> Delay {
    Delay { secs: u64::MAX, nanos: 999_999_999 }
}

/// The span from `now` to `at`: nothing where `at` is not later than `now`,
/// and the longest span there is where the true one would not fit.
pub open spec fn delay_between(now: Instant, at: Instant) -> Delay {
    let gap = at.since_epoch() - now.since_epoch();
    if gap <= 0 {
        Delay { secs: 0, nanos: 0 }
    } else if gap / 1_000_000_000 > u64::MAX {
        longest_delay()
    } else {
        Delay { secs: (gap / 1_000_000_000) as u64, nanos: (gap % 1_000_000_000) as u32 }
    }
}

/// How long to wait at `now` for a trigger that is to fire at `at`.
pub fn delay_until(now: Instant, at: Instant) -> (delay: Delay)
    ensures
        delay == delay_between(now, at),
        delay.nanos < 1_000_000_000,
{
    let from: i128 = now.secs as i128 * 1_000_000_000 + now.nanos as i128;
    let to: i128 = at.secs as i128 * 1_000_000_000 + at.nanos as i128;
    let gap: i128 = to - from;
    if gap <= 0 {
        Delay { secs: 0, nanos: 0 }
    } else if gap / 1_000_000_000 > u64::MAX as i128 {
        Delay { secs: u64::MAX, nanos: 999_999_999 }
    } else {
        Delay { secs: (gap / 1_000_000_000) as u64, nanos: (gap % 1_000_000_000) as u32 }
    }
}

/// chrono's `ParseError`, what its parser gives for a text it rejects.
/// Nothing is known of what it holds.
#[verifier::external_type_specification]
#[verifier::external_body]
pub struct ExParseError(chrono::ParseError);

/// The instant that chrono reads from `text` as a timestamp in its relaxed
/// form of RFC 3339, as seconds and nanoseconds, or `None` where chrono
/// rejects `text`.
pub uninterp spec fn timestamp_instant(text: Seq<char>) -> Option<(i64, u32)>;

/// The instant that `text` names, if it is a timestamp.
pub open spec fn instant_of(text: Seq<char>) -> Option<Instant> {
    match timestamp_instant(text) {
        Some((secs, nanos)) => Some(Instant { secs, nanos }),
        None => None,
    }
}

/// Parses `text` with chrono's `FromStr` for `DateTime<Utc>` and takes the
/// result apart with `timestamp` and `timestamp_subsec_nanos`. The contract
/// gives the outcome its name: what comes back depends on `text` alone.
#[verifier::external_body]
fn parse_utc(text: &str) -> (parsed: Result<(i64, u32), chrono::ParseError>)
    ensures
        match parsed {
            Ok(at) => timestamp_instant(text@) == Some(at),
            Err(_) => timestamp_instant(text@) is None,
        },
{
    text.parse::<chrono::DateTime<chrono::Utc>>().map(
        |t| (t.timestamp(), t.timestamp_subsec_nanos()),
    )
}

/// Reads the clock with chrono's `Local::now` and takes the reading apart with
/// `timestamp` and `timestamp_subsec_nanos`. Nothing is claimed of it.
#[verifier::external_body]
fn read_clock() -> (now: Instant) {
    let t = chrono::Local::now();
    Instant { secs: t.timestamp(), nanos: t.timestamp_subsec_nanos() }
}

/// Writes `at` in this machine's time zone: chrono's `DateTime::from_timestamp`,
/// `with_timezone(&Local)` and `to_rfc3339`. `None` where chrono has no such
/// instant. The text depends on the machine's time zone, so nothing is claimed
/// of it.
#[verifier::external_body]
fn local_rfc3339(at: Instant) -> (text: Option<String>) {
    chrono::DateTime::from_timestamp(at.secs, at.nanos).map(
        |t| t.with_timezone(&chrono::Local).to_rfc3339(),
    )
}

/// The current instant.
pub fn now() -> Instant {
    read_clock()
}

/// `at` written as a timestamp with this machine's offset from UTC, as far
/// as it can be written. Whether the text reads back as `at` is for
/// `accept_timestamp` to say.
pub fn write_timestamp(at: Instant) -> Option<String> {
    local_rfc3339(at)
}

/// `text` is there and reads back as `at`.
pub open spec fn written_as(text: Option<String>, at: Instant) -> bool {
    match text {
        Some(t) => instant_of(t@) == Some(at),
        None => false,
    }
}

/// Reads an ISO 8601 timestamp.
pub fn parse_timestamp(text: &str) -> (parsed: Result<Instant, Error>)
    ensures
        match parsed {
            Ok(at) => instant_of(text@) == Some(at),
            Err(e) => e == Error::InvalidTimestamp && instant_of(text@) is None,
        },
{
    match parse_utc(text) {
        Ok((secs, nanos)) => Ok(Instant { secs, nanos }),
        Err(_) => Err(Error::InvalidTimestamp),
    }
}

/// `seconds` after `now`, where that instant can be held.
pub open spec fn seconds_after(now: Instant, seconds: u64) -> Option<Instant> {
    if now.secs + seconds <= i64::MAX {
        Some(Instant { secs: (now.secs + seconds) as i64, nanos: now.nanos })
    } else {
        None
    }
}

/// The instant that `schedule_time` names at `now`: the instant a timestamp
/// names, or the given number of seconds after `now`.
pub open spec fn resolved(schedule_time: ScheduleTimeView, now: Instant) -> Option<Instant> {
    match schedule_time {
        ScheduleTimeView::DateTime(text) => instant_of(text),
        ScheduleTimeView::Duration(seconds) => seconds_after(now, seconds),
    }
}

/// Resolves `schedule_time` to an instant, given the current instant `now`.
/// Fails with `InvalidTimestamp` where a timestamp cannot be read, or where
/// the instant lies beyond what an `Instant` holds.
pub fn resolve(schedule_time: &ScheduleTime, now: Instant) -> (at: Result<Instant, Error>)
    ensures
        at == (match resolved(schedule_time@, now) {
            Some(instant) => Ok::<Instant, Error>(instant),
            None => Err(Error::InvalidTimestamp),
        }),
{
    match schedule_time {
        ScheduleTime::DateTime(text) => parse_timestamp(text.as_str()),
        ScheduleTime::Duration(seconds) => {
            let secs: i128 = now.secs as i128 + *seconds as i128;
            if secs <= i64::MAX as i128 {
                Ok(Instant { secs: secs as i64, nanos: now.nanos })
            } else {
                Err(Error::InvalidTimestamp)
            }
        },
    }
}

/// Accepts `text` as the written form of `at` where it reads back as `at`.
pub fn accept_timestamp(at: Instant, text: Option<String>) -> (accepted: Result<String, Error>)
    ensures
        match accepted {
            Ok(written) => text == Some(written) && written_as(text, at),
            Err(e) => e == Error::InvalidTimestamp && !written_as(text, at),
        },
{
    match text {
        Some(written) => {
            match parse_timestamp(written.as_str()) {
                Ok(back) => {
                    if back.secs == at.secs && back.nanos == at.nanos {
                        Ok(written)
                    } else {
                        Err(Error::InvalidTimestamp)
                    }
                },
                Err(_) => Err(Error::InvalidTimestamp),
            }
        },
        None => Err(Error::InvalidTimestamp),
    }
}

/// Writes `at` as a timestamp with this machine's offset from UTC. What is
/// returned reads back as `at`; an instant that cannot be written so is
/// refused with `InvalidTimestamp`.
pub fn format_timestamp(at: Instant) -> (written: Result<String, Error>)
    ensures
        match written {
            Ok(text) => instant_of(text@) == Some(at),
            Err(e) => e == Error::InvalidTimestamp,
        },
{
    accept_timestamp(at, write_timestamp(at))
}

/// A number of seconds resolves to the instant that lies so many seconds
/// after `now`.
pub proof fn lemma_duration_is_now_plus_seconds(now: Instant, seconds: u64)
    requires
        seconds_after(now, seconds) is Some,
    ensures
        resolved(ScheduleTimeView::Duration(seconds), now) is Some,
        resolved(ScheduleTimeView::Duration(seconds), now).unwrap().since_epoch()
            == now.since_epoch() + seconds * 1_000_000_000,
        delay_between(now, resolved(ScheduleTimeView::Duration(seconds), now).unwrap())
            != longest_delay() ==> delay_between(
            now,
            resolved(ScheduleTimeView::Duration(seconds), now).unwrap(),
        ).total_nanos() == seconds * 1_000_000_000,
{
    let at = resolved(ScheduleTimeView::Duration(seconds), now).unwrap();
    let gap = at.since_epoch() - now.since_epoch();
    assert(gap == seconds * 1_000_000_000);
    if gap > 0 && gap / 1_000_000_000 <= u64::MAX {
        assert(gap == 1_000_000_000 * (gap / 1_000_000_000) + gap % 1_000_000_000);
    }
}

/// Reading a timestamp and writing its instant names the same instant again:
/// where `text` names the instant `at` and `written` is accepted as the
/// written form of `at`, `written` resolves to `at` as `text` does, whatever
/// the clock says.
pub proof fn lemma_round_trip(text: Seq<char>, at: Instant, written: Option<String>, now: Instant)
    requires
        resolved(ScheduleTimeView::DateTime(text), now) == Some(at),
        written_as(written, at),
    ensures
        resolved(ScheduleTimeView::DateTime(written.unwrap()@), now) == Some(at),
        resolved(ScheduleTimeView::DateTime(written.unwrap()@), now) == resolved(
            ScheduleTimeView::DateTime(text),
            now,
        ),
{
}

} // verus!
