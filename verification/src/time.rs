//! Readings of the monotonic clock and the spans between them.

use crate::clock::given;
use vstd::prelude::*;

verus! {

/// Nanoseconds in a second.
pub const NANOS_PER_SEC: i64 = 1_000_000_000;

/// A reading of the monotonic clock, or the span between two of them.
#[derive(Clone, Copy, Debug, PartialEq, Eq, Structural)]
pub struct TimeSpec {
    pub sec: i64,
    pub nsec: i64,
}

/// Why the clock gave no reading.
#[derive(Clone, Copy, Debug, PartialEq, Eq, Structural)]
pub enum ClockError {
    /// The system refused to read the clock.
    Unavailable,
}

impl TimeSpec {
    /// The nanoseconds lie within a second.
    pub open spec fn normal(self) -> bool {
        0 <= self.nsec < NANOS_PER_SEC
    }

    /// The same in nanoseconds alone.
    pub open spec fn nanos(self) -> int {
        self.sec * NANOS_PER_SEC + self.nsec
    }

    /// The span of no length, and the origin of the clock.
    pub fn zero() -> (t: TimeSpec)
        ensures
            t.normal(),
            t.nanos() == 0,
    {
        TimeSpec { sec: 0, nsec: 0 }
    }
}

/// Whole seconds from `a` to `b`, rounded down; below zero where `b` is the
/// earlier.
pub open spec fn seconds_between(a: TimeSpec, b: TimeSpec) -> int {
    (b.nanos() - a.nanos()) / NANOS_PER_SEC as int
}

/// Whether the seconds of the span from `a` to `b` fit their type.
pub open spec fn span_fits(a: TimeSpec, b: TimeSpec) -> bool {
    i64::MIN <= seconds_between(a, b) <= i64::MAX
}

/// The span from one reading to another, with its nanoseconds within a second,
/// unless its seconds do not fit their type. It lies before zero where the second
/// reading is the earlier.
pub fn tsn_timespecff_diff(start: &TimeSpec, stop: &TimeSpec) -> (diff: Option<TimeSpec>)
    ensures
        diff is Some <==> span_fits(*start, *stop),
        diff matches Some(d) ==> d.normal() && d.nanos() == stop.nanos() - start.nanos(),
{
    let second: i128 = NANOS_PER_SEC as i128;
    let nanos: i128 = (stop.sec as i128 - start.sec as i128) * second + (stop.nsec as i128
        - start.nsec as i128);
    let sec: i128 = nanos.checked_div_euclid(second).unwrap();
    let nsec: i128 = nanos.checked_rem_euclid(second).unwrap();
    if sec < i64::MIN as i128 || sec > i64::MAX as i128 {
        None
    } else {
        Some(TimeSpec { sec: sec as i64, nsec: nsec as i64 })
    }
}

/// Law: nanoseconds alone determine a span whose nanoseconds lie within a second,
/// so there is only one such span between two readings.
pub proof fn law_nanoseconds_determine_a_span(a: TimeSpec, b: TimeSpec)
    requires
        a.normal(),
        b.normal(),
    ensures
        a.nanos() == b.nanos() <==> a == b,
{
}

/// The declaration of `nix::errno::Errno`, the error of a system call. Nothing
/// is known of a value of it.
#[verifier::external_type_specification]
#[verifier::external_body]
pub struct ExErrno(nix::errno::Errno);

/// `nix::time::clock_gettime` on `CLOCK_MONOTONIC`, as the seconds and
/// nanoseconds of the reading. It is the system's answer at the time of the call,
/// and nothing else is claimed of it.
#[verifier::external_body]
fn clock_gettime() -> (r: Result<(i64, i64), nix::errno::Errno>)
    ensures
        given(r.ok()),
{
    let t = nix::time::clock_gettime(nix::time::ClockId::CLOCK_MONOTONIC)?;
    Ok((t.tv_sec() as i64, t.tv_nsec() as i64))
}

/// What an answer of the clock amounts to; `None` stands for a clock that could
/// not be read.
pub open spec fn read_as(raw: Option<(i64, i64)>) -> Result<TimeSpec, ClockError> {
    match raw {
        None => Err(ClockError::Unavailable),
        Some((sec, nsec)) => Ok(TimeSpec { sec, nsec }),
    }
}

/// The reading in an answer of the clock, whatever it shows.
pub fn reading(raw: Option<(i64, i64)>) -> (t: Result<TimeSpec, ClockError>)
    ensures
        t == read_as(raw),
{
    match raw {
        None => Err(ClockError::Unavailable),
        Some((sec, nsec)) => Ok(TimeSpec { sec, nsec }),
    }
}

/// Whether the outcome is what a call that read the clock made of its answer.
pub open spec fn answered(t: Result<TimeSpec, ClockError>) -> bool {
    exists|raw: Option<(i64, i64)>| #[trigger] given(raw) && t == read_as(raw)
}

/// Reads the monotonic clock. Whether it can be read, and what it shows, rests with
/// the system; `reading` says what is made of each answer.
pub fn now() -> (t: Result<TimeSpec, ClockError>)
    ensures
        exists|raw: Option<(i64, i64)>| t == #[trigger] read_as(raw),
        answered(t),
{
    match clock_gettime() {
        Ok(raw) => {
            assert(given(Some(raw)));
            reading(Some(raw))
        },
        Err(_) => {
            assert(given(None));
            reading(None)
        },
    }
}

/// Law: a reading is its seconds and nanoseconds, and what an answer of the clock
/// shows is read as it stands.
pub proof fn law_a_reading_is_what_the_clock_shows(raw: Option<(i64, i64)>, t: TimeSpec)
    ensures
        read_as(raw) == Ok::<TimeSpec, ClockError>(t) <==> raw == Some((t.sec, t.nsec)),
        read_as(raw) is Err <==> raw is None,
        t.nanos() == t.sec * 1_000_000_000 + t.nsec,
        t.normal() <==> 0 <= t.nsec <= 999_999_999,
{
}

/// Law: the whole seconds between two readings are as many as fit between them,
/// and a span that fits has seconds that are a signed 64-bit number.
pub proof fn law_whole_seconds_fit_between(a: TimeSpec, b: TimeSpec)
    ensures
        ({
            let nanos = (b.sec - a.sec) * 1_000_000_000 + (b.nsec - a.nsec);
            let n = seconds_between(a, b);
            &&& n * 1_000_000_000 <= nanos < (n + 1) * 1_000_000_000
            &&& span_fits(a, b) <==> -9_223_372_036_854_775_808 <= n
                <= 9_223_372_036_854_775_807
        }),
{
}

/// Law: a span leads from its first reading to its second, and the spans of a way
/// through a reading between them add up to the span of the whole way.
pub proof fn law_spans_add_up(
    a: TimeSpec,
    b: TimeSpec,
    c: TimeSpec,
    ab: TimeSpec,
    bc: TimeSpec,
    ac: TimeSpec,
)
    requires
        ab.nanos() == b.nanos() - a.nanos(),
        bc.nanos() == c.nanos() - b.nanos(),
        ac.nanos() == c.nanos() - a.nanos(),
    ensures
        a.sec * 1_000_000_000 + a.nsec + ab.sec * 1_000_000_000 + ab.nsec == b.sec * 1_000_000_000
            + b.nsec,
        (ab.sec + bc.sec) * 1_000_000_000 + ab.nsec + bc.nsec == ac.sec * 1_000_000_000 + ac.nsec,
{
}

} // verus!
