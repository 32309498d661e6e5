//! The server's counters, and the reports that are made of them.

use crate::time::{
    answered, now, seconds_between, span_fits, tsn_timespecff_diff, ClockError, TimeSpec, NANOS_PER_SEC,
};
use vstd::prelude::*;

verus! {

/// What the server has counted, and whether it is still counting.
#[derive(Clone, Copy, Debug, PartialEq, Eq, Structural)]
pub struct Statistics {
    pub pkt_count: u64,
    pub total_bytes: u64,
    pub last_id: u32,
    pub running: bool,
}

impl Statistics {
    /// Nothing counted yet, and counting.
    pub fn new() -> (s: Statistics)
        ensures
            s == (Statistics { pkt_count: 0, total_bytes: 0, last_id: 0, running: true }),
    {
        Statistics { pkt_count: 0, total_bytes: 0, last_id: 0, running: true }
    }
}

/// One line of the report.
#[derive(Clone, Copy, Debug, PartialEq, Eq, Structural)]
pub struct Report {
    /// Whole seconds since the start, counted modulo 65536.
    pub time_elapsed: u16,
    /// Packets since the counters were last taken over.
    pub pps: u64,
    /// Bits since the counters were last taken over.
    pub bps: u64,
    /// How many times over the packets cover the step of the identifiers, rounded
    /// down; the loss rate is one minus it. There is none, and the loss rate is
    /// zero, where the identifier has not moved.
    pub covered: Option<u64>,
}

/// Why no report can be made.
#[derive(Clone, Copy, Debug, PartialEq, Eq, Structural)]
pub enum MonitorError {
    /// The clock could not be read.
    Clock(ClockError),
    /// The span between two readings does not fit its type.
    SpanTooLong,
    /// Fewer packets are counted than before.
    PacketsWentBack,
    /// Fewer bytes are counted than before.
    BytesWentBack,
    /// The identifier is lower than before.
    IdWentBack,
    /// The identifier has not moved, and the last report is about its step.
    IdUnmoved,
    /// The number of bits does not fit.
    TooManyBits,
}

/// What the thread that prints reports is to do next.
#[derive(Clone, Copy, Debug, PartialEq, Eq, Structural)]
pub enum Turn {
    /// Print a line and go on.
    Print(Report),
    /// Wait for so many nanoseconds and go on.
    Sleep(u64),
    /// Print the last line, if there is one, and stop.
    Stop(Option<Report>),
}

/// Where the reports stand: when they started, when the last one was made, and
/// the counters that the next one starts from.
#[derive(Clone, Copy, Debug, PartialEq, Eq, Structural)]
pub struct Monitor {
    pub start: TimeSpec,
    pub tlast: TimeSpec,
    pub last_id: u32,
    pub last_pkt_count: u64,
    pub last_total_bytes: u64,
}

impl Monitor {
    /// No line was printed before the start.
    pub open spec fn wf(self) -> bool {
        self.start.nanos() <= self.tlast.nanos()
    }

    /// Why the counters `stat` give no report at the time `t`, if they give none;
    /// `last` for the last report, which needs a step of the identifier.
    pub open spec fn objection(self, stat: Statistics, t: TimeSpec, last: bool) -> Option<
        MonitorError,
    > {
        if !span_fits(self.start, t) {
            Some(MonitorError::SpanTooLong)
        } else if stat.pkt_count < self.last_pkt_count {
            Some(MonitorError::PacketsWentBack)
        } else if stat.total_bytes < self.last_total_bytes {
            Some(MonitorError::BytesWentBack)
        } else if stat.last_id < self.last_id {
            Some(MonitorError::IdWentBack)
        } else if last && stat.last_id == self.last_id {
            Some(MonitorError::IdUnmoved)
        } else if (stat.total_bytes - self.last_total_bytes) * 8 > u64::MAX {
            Some(MonitorError::TooManyBits)
        } else {
            None
        }
    }

    /// The report on the counters `stat` at the time `t`.
    pub open spec fn report(self, stat: Statistics, t: TimeSpec) -> Report {
        Report {
            time_elapsed: (seconds_between(self.start, t) % 0x1_0000) as u16,
            pps: (stat.pkt_count - self.last_pkt_count) as u64,
            bps: ((stat.total_bytes - self.last_total_bytes) * 8) as u64,
            covered: if stat.last_id == self.last_id {
                None
            } else {
                Some(
                    ((stat.pkt_count - self.last_pkt_count) / (stat.last_id - self.last_id)) as u64,
                )
            },
        }
    }

    /// Where the reports stand after one on `stat` at `t`: the counters are taken
    /// over if the identifier has moved.
    pub open spec fn after(self, stat: Statistics, t: TimeSpec) -> Monitor {
        if stat.last_id == self.last_id {
            Monitor { tlast: t, ..self }
        } else {
            Monitor {
                start: self.start,
                tlast: t,
                last_id: stat.last_id,
                last_pkt_count: stat.pkt_count,
                last_total_bytes: stat.total_bytes,
            }
        }
    }

    /// What follows from the counters `stat` and the reading `t` while the server
    /// is counting.
    pub open spec fn observed(self, stat: Statistics, t: TimeSpec) -> Result<Turn, MonitorError> {
        if !span_fits(self.tlast, t) {
            Err(MonitorError::SpanTooLong)
        } else if seconds_between(self.tlast, t) < 1 {
            let since = (t.nanos() - self.tlast.nanos()) % NANOS_PER_SEC as int;
            Ok(Turn::Sleep(((NANOS_PER_SEC - since) / 1000) as u64))
        } else {
            match self.objection(stat, t, false) {
                Some(e) => Err(e),
                None => Ok(Turn::Print(self.report(stat, t))),
            }
        }
    }

    /// What follows from the counters `stat` and the reading `t` when the server
    /// has stopped counting.
    pub open spec fn finished(self, stat: Statistics, t: TimeSpec) -> Result<Turn, MonitorError> {
        if !span_fits(self.tlast, t) {
            Err(MonitorError::SpanTooLong)
        } else if seconds_between(self.tlast, t) < 1 {
            Ok(Turn::Stop(None))
        } else {
            match self.objection(stat, t, true) {
                Some(e) => Err(e),
                None => Ok(Turn::Stop(Some(self.report(stat, t)))),
            }
        }
    }

    /// What follows from the counters `stat` and an attempt to read the clock.
    pub open spec fn turned(self, stat: Statistics, t: Result<TimeSpec, ClockError>) -> Result<
        Turn,
        MonitorError,
    > {
        match t {
            Err(e) => Err(MonitorError::Clock(e)),
            Ok(t) => if stat.running {
                self.observed(stat, t)
            } else {
                self.finished(stat, t)
            },
        }
    }

    /// Where the reports stand after that: they move on only when a line is
    /// printed and more are to come.
    pub open spec fn next(self, stat: Statistics, t: Result<TimeSpec, ClockError>) -> Monitor {
        match self.turned(stat, t) {
            Ok(Turn::Print(_)) => self.after(stat, t->Ok_0),
            _ => self,
        }
    }

    /// Reports that start at a reading of the clock, with nothing counted.
    pub fn new(start: TimeSpec) -> (m: Monitor)
        ensures
            m.wf(),
            m == (Monitor {
                start,
                tlast: start,
                last_id: 0,
                last_pkt_count: 0,
                last_total_bytes: 0,
            }),
    {
        Monitor { start, tlast: start, last_id: 0, last_pkt_count: 0, last_total_bytes: 0 }
    }

    /// Reports that start now, if the system lets the clock be read; `begin_at` says
    /// what comes of each reading.
    pub fn begin() -> (m: Result<Monitor, ClockError>)
        ensures
            answered(
                match m {
                    Ok(v) => Ok(v.start),
                    Err(e) => Err(e),
                },
            ),
            m matches Ok(v) ==> v.wf() && v == (Monitor {
                start: v.start,
                tlast: v.start,
                last_id: 0,
                last_pkt_count: 0,
                last_total_bytes: 0,
            }),
    {
        Monitor::begin_at(now())
    }

    /// Reports that start at what came of reading the clock.
    pub fn begin_at(t: Result<TimeSpec, ClockError>) -> (m: Result<Monitor, ClockError>)
        ensures
            match t {
                Ok(start) => m == Ok::<Monitor, ClockError>(
                    Monitor {
                        start,
                        tlast: start,
                        last_id: 0,
                        last_pkt_count: 0,
                        last_total_bytes: 0,
                    },
                ),
                Err(e) => m == Err::<Monitor, ClockError>(e),
            },
    {
        match t {
            Ok(start) => Ok(Monitor::new(start)),
            Err(e) => Err(e),
        }
    }

    /// The report on the counters at a time, or why there is none.
    fn make_report(&self, stat: &Statistics, t: &TimeSpec, last: bool) -> (r: Result<
        Report,
        MonitorError,
    >)
        requires
            self.wf(),
            self.start.nanos() <= t.nanos(),
        ensures
            match self.objection(*stat, *t, last) {
                Some(e) => r == Err::<Report, MonitorError>(e),
                None => r == Ok::<Report, MonitorError>(self.report(*stat, *t)),
            },
    {
        let tdiff = match tsn_timespecff_diff(&self.start, t) {
            Some(tdiff) => tdiff,
            None => {
                return Err(MonitorError::SpanTooLong);
            },
        };
        let elapsed: u64 = (tdiff.sec as u64) % 0x1_0000;
        let time_elapsed: u16 = elapsed as u16;
        proof {
            lemma_whole_seconds(self.start, *t, tdiff);
        }
        if stat.pkt_count < self.last_pkt_count {
            return Err(MonitorError::PacketsWentBack);
        }
        let pps: u64 = stat.pkt_count - self.last_pkt_count;
        if stat.total_bytes < self.last_total_bytes {
            return Err(MonitorError::BytesWentBack);
        }
        let bytes: u64 = stat.total_bytes - self.last_total_bytes;
        if stat.last_id < self.last_id {
            return Err(MonitorError::IdWentBack);
        }
        let step: u64 = (stat.last_id - self.last_id) as u64;
        if last && step == 0 {
            return Err(MonitorError::IdUnmoved);
        }
        let covered: Option<u64> = if step == 0 {
            None
        } else {
            Some(pps / step)
        };
        match bytes.checked_mul(8) {
            Some(bps) => Ok(Report { time_elapsed, pps, bps, covered }),
            None => Err(MonitorError::TooManyBits),
        }
    }

    /// One round while the server is counting: a report if a second has passed
    /// since the last one, and else a short sleep.
    pub fn observe(&mut self, stat: &Statistics, t: TimeSpec) -> (r: Result<Turn, MonitorError>)
        requires
            old(self).wf(),
        ensures
            final(self).wf(),
            r == old(self).observed(*stat, t),
            *final(self) == (if r matches Ok(Turn::Print(_)) {
                old(self).after(*stat, t)
            } else {
                *old(self)
            }),
    {
        let tdiff = match tsn_timespecff_diff(&self.tlast, &t) {
            Some(tdiff) => tdiff,
            None => {
                return Err(MonitorError::SpanTooLong);
            },
        };
        proof {
            lemma_whole_seconds(self.tlast, t, tdiff);
        }
        if tdiff.sec >= 1 {
            match self.make_report(stat, &t, false) {
                Ok(report) => {
                    self.tlast = t;
                    if stat.last_id != self.last_id {
                        self.last_pkt_count = stat.pkt_count;
                        self.last_total_bytes = stat.total_bytes;
                        self.last_id = stat.last_id;
                    }
                    Ok(Turn::Print(report))
                },
                Err(e) => Err(e),
            }
        } else {
            let remaining_ns: u64 = (NANOS_PER_SEC - tdiff.nsec) as u64;
            Ok(Turn::Sleep(remaining_ns / 1000))
        }
    }

    /// The last round, when the server has stopped counting.
    pub fn finish(&self, stat: &Statistics, t: TimeSpec) -> (r: Result<Turn, MonitorError>)
        requires
            self.wf(),
        ensures
            r == self.finished(*stat, t),
    {
        let tdiff = match tsn_timespecff_diff(&self.tlast, &t) {
            Some(tdiff) => tdiff,
            None => {
                return Err(MonitorError::SpanTooLong);
            },
        };
        proof {
            lemma_whole_seconds(self.tlast, t, tdiff);
        }
        if tdiff.sec >= 1 {
            match self.make_report(stat, &t, true) {
                Ok(report) => Ok(Turn::Stop(Some(report))),
                Err(e) => Err(e),
            }
        } else {
            Ok(Turn::Stop(None))
        }
    }
}

impl Monitor {
    /// One round, given what came of reading the clock.
    pub fn turn_at(&mut self, stat: &Statistics, t: Result<TimeSpec, ClockError>) -> (r: Result<
        Turn,
        MonitorError,
    >)
        requires
            old(self).wf(),
        ensures
            final(self).wf(),
            r == old(self).turned(*stat, t),
            *final(self) == old(self).next(*stat, t),
    {
        match t {
            Err(e) => Err(MonitorError::Clock(e)),
            Ok(t) => if stat.running {
                self.observe(stat, t)
            } else {
                self.finish(stat, t)
            },
        }
    }

    /// One round of the thread that prints reports: reads the clock and says what
    /// came of that, and what to do.
    pub fn turn(&mut self, stat: &Statistics) -> (r: (
        Result<TimeSpec, ClockError>,
        Result<Turn, MonitorError>,
    ))
        requires
            old(self).wf(),
        ensures
            final(self).wf(),
            answered(r.0),
            r.1 == old(self).turned(*stat, r.0),
            *final(self) == old(self).next(*stat, r.0),
    {
        let t = now();
        let turn = self.turn_at(stat, t);
        (t, turn)
    }
}

/// Law: a line is printed, the last one too, only when at least a second has
/// passed since the one before it, or since the start if there was none.
pub proof fn law_reports_are_a_second_apart(m: Monitor, stat: Statistics, t: TimeSpec)
    requires
        m.wf(),
        (m.observed(stat, t) matches Ok(Turn::Print(_))) || (m.finished(stat, t) matches Ok(
            Turn::Stop(Some(_)),
        )),
    ensures
        t.nanos() - m.tlast.nanos() >= NANOS_PER_SEC,
{
}

/// Law: a sleep lasts a thousandth of what is left of the second, so at most a
/// millisecond, and never goes past the time of the next line.
pub proof fn law_sleeps_are_short(m: Monitor, stat: Statistics, t: TimeSpec)
    requires
        m.wf(),
        m.observed(stat, t) matches Ok(Turn::Sleep(_)),
    ensures
        m.observed(stat, t)->Ok_0->Sleep_0 <= 1_000_000,
        t.nanos() + m.observed(stat, t)->Ok_0->Sleep_0 <= m.tlast.nanos() + NANOS_PER_SEC,
{
}

/// Law: the loss rate of a line is zero exactly when the packets cover the step
/// of the identifiers once and not twice, and one exactly when they do not cover
/// it.
pub proof fn law_when_the_loss_is_zero_or_one(m: Monitor, stat: Statistics, t: TimeSpec)
    requires
        m.objection(stat, t, false) is None,
        stat.last_id != m.last_id,
    ensures
        m.report(stat, t).covered == Some(1u64) <==> stat.last_id - m.last_id <= stat.pkt_count
            - m.last_pkt_count < 2 * (stat.last_id - m.last_id),
        m.report(stat, t).covered == Some(0u64) <==> stat.pkt_count - m.last_pkt_count
            < stat.last_id - m.last_id,
{
    let p = (stat.pkt_count - m.last_pkt_count) as int;
    let d = (stat.last_id - m.last_id) as int;
    vstd::arithmetic::div_mod::lemma_fundamental_div_mod(p, d);
    let q = p / d;
    assert(q == 1 <==> d <= p < 2 * d) by (nonlinear_arith)
        requires
            p == d * q + p % d,
            0 <= p % d < d,
            d > 0,
    ;
    assert(q == 0 <==> p < d) by (nonlinear_arith)
        requires
            p == d * q + p % d,
            0 <= p % d < d,
            d > 0,
            p >= 0,
    ;
    assert(0 <= q <= p) by (nonlinear_arith)
        requires
            p == d * q + p % d,
            0 <= p % d < d,
            d > 0,
            p >= 0,
    ;
}

/// Where the reports stand after a run of rounds.
pub open spec fn run(m: Monitor, rounds: Seq<(Statistics, Result<TimeSpec, ClockError>)>) -> Monitor
    decreases rounds.len(),
{
    if rounds.len() == 0 {
        m
    } else {
        let before = run(m, rounds.drop_last());
        before.next(rounds.last().0, rounds.last().1)
    }
}

/// The packets and the bits on the lines printed in a run of rounds while the
/// identifier moved.
pub open spec fn printed(
    m: Monitor,
    rounds: Seq<(Statistics, Result<TimeSpec, ClockError>)>,
) -> (int, int)
    decreases rounds.len(),
{
    if rounds.len() == 0 {
        (0, 0)
    } else {
        let sums = printed(m, rounds.drop_last());
        let before = run(m, rounds.drop_last());
        match before.turned(rounds.last().0, rounds.last().1) {
            Ok(Turn::Print(r)) => if r.covered is Some {
                (sums.0 + r.pps, sums.1 + r.bps)
            } else {
                sums
            },
            _ => sums,
        }
    }
}

/// Law: nothing is counted twice or left out between the lines of a moving
/// identifier. Over any run of rounds their packets, and their bits, add up to
/// what the counters have grown by.
pub proof fn law_lines_add_up(
    m: Monitor,
    rounds: Seq<(Statistics, Result<TimeSpec, ClockError>)>,
)
    requires
        m.wf(),
    ensures
        run(m, rounds).wf(),
        printed(m, rounds).0 == run(m, rounds).last_pkt_count - m.last_pkt_count,
        printed(m, rounds).1 == 8 * (run(m, rounds).last_total_bytes - m.last_total_bytes),
    decreases rounds.len(),
{
    if rounds.len() > 0 {
        law_lines_add_up(m, rounds.drop_last());
    }
}

/// How many lines are printed in a run of rounds, the last one included.
pub open spec fn lines(
    m: Monitor,
    rounds: Seq<(Statistics, Result<TimeSpec, ClockError>)>,
) -> int
    decreases rounds.len(),
{
    if rounds.len() == 0 {
        0
    } else {
        let before = run(m, rounds.drop_last());
        lines(m, rounds.drop_last()) + match before.turned(rounds.last().0, rounds.last().1) {
            Ok(Turn::Print(_)) => 1int,
            Ok(Turn::Stop(Some(_))) => 1int,
            _ => 0int,
        }
    }
}

/// Law: where the clock never goes back, at most one line is printed for each
/// whole second from the start to the last reading, the last line included. The
/// thread stops at the first round in which the server is no longer counting.
pub proof fn law_at_most_a_line_each_second(
    m: Monitor,
    rounds: Seq<(Statistics, Result<TimeSpec, ClockError>)>,
)
    requires
        m.wf(),
        rounds.len() > 0,
        forall|i: int| 0 <= i < rounds.len() ==> (#[trigger] rounds[i]).1 is Ok,
        forall|i: int| 0 <= i < rounds.len() - 1 ==> (#[trigger] rounds[i]).0.running,
        forall|i: int, j: int|
            0 <= i <= j < rounds.len() ==> (#[trigger] rounds[i]).1->Ok_0.nanos() <= (
            #[trigger] rounds[j]).1->Ok_0.nanos(),
        m.tlast.nanos() <= rounds[0].1->Ok_0.nanos(),
    ensures
        lines(m, rounds) <= seconds_between(m.start, rounds.last().1->Ok_0),
{
    let before = rounds.drop_last();
    lemma_lines_push_the_last_reading(m, before);
    assert(run(m, before).tlast.nanos() <= rounds.last().1->Ok_0.nanos()) by {
        if before.len() > 0 {
            assert(before.last() == rounds[rounds.len() - 2]);
        }
    }
}

/// While the server is counting, each line moves the time of the last one by a
/// second or more, and that time is never ahead of the clock.
proof fn lemma_lines_push_the_last_reading(
    m: Monitor,
    rounds: Seq<(Statistics, Result<TimeSpec, ClockError>)>,
)
    requires
        forall|i: int|
            0 <= i < rounds.len() ==> (#[trigger] rounds[i]).1 is Ok && rounds[i].0.running,
        forall|i: int, j: int|
            0 <= i <= j < rounds.len() ==> (#[trigger] rounds[i]).1->Ok_0.nanos() <= (
            #[trigger] rounds[j]).1->Ok_0.nanos(),
        rounds.len() > 0 ==> m.tlast.nanos() <= rounds[0].1->Ok_0.nanos(),
    ensures
        run(m, rounds).tlast.nanos() >= m.tlast.nanos() + lines(m, rounds) * NANOS_PER_SEC,
        rounds.len() == 0 ==> run(m, rounds) == m,
        rounds.len() > 0 ==> run(m, rounds).tlast.nanos() <= rounds.last().1->Ok_0.nanos(),
    decreases rounds.len(),
{
    if rounds.len() > 0 {
        let before = rounds.drop_last();
        lemma_lines_push_the_last_reading(m, before);
        assert(rounds.last() == rounds[rounds.len() - 1]);
        if before.len() > 0 {
            assert(before.last() == rounds[rounds.len() - 2]);
        }
    }
}

/// Nanoseconds from `a` to `b`.
pub open spec fn nanos_between(a: TimeSpec, b: TimeSpec) -> int {
    (b.sec - a.sec) * 1_000_000_000 + (b.nsec - a.nsec)
}

/// Whether so many nanoseconds are less than two to the power of 63 seconds either
/// way.
pub open spec fn in_reach(nanos: int) -> bool {
    -9_223_372_036_854_775_808_000_000_000 <= nanos < 9_223_372_036_854_775_808_000_000_000
}

/// Whether no counter is behind where the next line starts from, and the bits fit.
pub open spec fn counters_go_on(m: Monitor, stat: Statistics) -> bool {
    &&& stat.pkt_count >= m.last_pkt_count
    &&& stat.total_bytes >= m.last_total_bytes
    &&& stat.last_id >= m.last_id
    &&& (stat.total_bytes - m.last_total_bytes) * 8 <= 0xffff_ffff_ffff_ffff
}

/// Law: while the server counts and its counters go on, a line is printed exactly
/// when a second or more has passed since the last one; when it has stopped, exactly
/// then the last line is, if the identifier has moved.
pub proof fn law_a_line_when_a_second_has_passed(m: Monitor, stat: Statistics, t: TimeSpec)
    requires
        m.wf(),
    ensures
        (m.turned(stat, Ok(t)) matches Ok(Turn::Print(_))) <==> stat.running && nanos_between(
            m.tlast,
            t,
        ) >= 1_000_000_000 && in_reach(nanos_between(m.start, t)) && counters_go_on(m, stat),
        (m.turned(stat, Ok(t)) matches Ok(Turn::Stop(Some(_)))) <==> !stat.running && nanos_between(
            m.tlast,
            t,
        ) >= 1_000_000_000 && in_reach(nanos_between(m.start, t)) && counters_go_on(m, stat)
            && stat.last_id != m.last_id,
{
}

/// Law: before a second has passed the thread sleeps for a thousandth of the rest of
/// it, rounded down, while the server counts, and stops without a line when it does
/// not.
pub proof fn law_before_a_second_has_passed(m: Monitor, stat: Statistics, t: TimeSpec)
    requires
        nanos_between(m.tlast, t) < 1_000_000_000,
        in_reach(nanos_between(m.tlast, t)),
    ensures
        stat.running ==> m.turned(stat, Ok(t)) is Ok && m.turned(stat, Ok(t))->Ok_0 is Sleep,
        stat.running && nanos_between(m.tlast, t) >= 0 ==> {
            let s = m.turned(stat, Ok(t))->Ok_0->Sleep_0;
            let rest = 1_000_000_000 - nanos_between(m.tlast, t);
            s * 1000 <= rest < (s + 1) * 1000
        },
        stat.running && nanos_between(m.tlast, t) < 0 ==> {
            let s = m.turned(stat, Ok(t))->Ok_0->Sleep_0;
            let rest = 1_000_000_000 - nanos_between(m.tlast, t) % 1_000_000_000;
            s * 1000 <= rest < (s + 1) * 1000
        },
        !stat.running ==> m.turned(stat, Ok(t)) == Ok::<Turn, MonitorError>(Turn::Stop(None)),
        m.next(stat, Ok(t)) == m,
{
}

/// Law: why a round fails. The clock could not be read, a span is out of reach, or,
/// when a line is due, the packets, the bytes or the identifier went back, the
/// identifier of the last line has not moved, or the bits do not fit; what comes first
/// in this order is the error. A round that fails changes nothing.
pub proof fn law_why_a_round_fails(m: Monitor, stat: Statistics, t: TimeSpec, e: ClockError)
    requires
        m.wf(),
    ensures
        m.turned(stat, Err(e)) == Err::<Turn, MonitorError>(MonitorError::Clock(e)),
        m.next(stat, Err(e)) == m,
        m.turned(stat, Ok(t)) is Err ==> m.next(stat, Ok(t)) == m,
        !in_reach(nanos_between(m.tlast, t)) ==> m.turned(stat, Ok(t)) == Err::<Turn, MonitorError>(
            MonitorError::SpanTooLong,
        ),
        nanos_between(m.tlast, t) >= 1_000_000_000 && in_reach(nanos_between(m.tlast, t)) ==> {
            let r = m.turned(stat, Ok(t));
            if !in_reach(nanos_between(m.start, t)) {
                r == Err::<Turn, MonitorError>(MonitorError::SpanTooLong)
            } else if stat.pkt_count < m.last_pkt_count {
                r == Err::<Turn, MonitorError>(MonitorError::PacketsWentBack)
            } else if stat.total_bytes < m.last_total_bytes {
                r == Err::<Turn, MonitorError>(MonitorError::BytesWentBack)
            } else if stat.last_id < m.last_id {
                r == Err::<Turn, MonitorError>(MonitorError::IdWentBack)
            } else if !stat.running && stat.last_id == m.last_id {
                r == Err::<Turn, MonitorError>(MonitorError::IdUnmoved)
            } else if (stat.total_bytes - m.last_total_bytes) * 8 > 0xffff_ffff_ffff_ffff {
                r == Err::<Turn, MonitorError>(MonitorError::TooManyBits)
            } else {
                r is Ok
            }
        },
{
}

/// Whether a round prints the line.
pub open spec fn prints(
    m: Monitor,
    stat: Statistics,
    t: TimeSpec,
    line: Report,
) -> bool {
    m.turned(stat, Ok(t)) == Ok::<Turn, MonitorError>(Turn::Print(line)) || m.turned(stat, Ok(t))
        == Ok::<Turn, MonitorError>(Turn::Stop(Some(line)))
}

/// Whether the line is about the packets, the bytes and the identifiers between two
/// points of the counting: as many packets, eight bits for each byte, and the whole
/// number of times that the packets cover the step of the identifier, if there is a
/// step.
pub open spec fn is_about(
    line: Report,
    packets: int,
    bytes: int,
    step: int,
) -> bool {
    &&& line.pps == packets
    &&& line.bps == 8 * bytes
    &&& line.covered is None <==> step == 0
    &&& step > 0 ==> line.covered->0 * step <= packets < (line.covered->0 + 1) * step
}

/// Law: what a line says. It is about the difference between the counters and those
/// that it starts from, and its time is the whole seconds since the start, modulo two
/// to the power of 16.
pub proof fn law_what_a_line_says(m: Monitor, stat: Statistics, t: TimeSpec, line: Report)
    requires
        m.wf(),
        prints(m, stat, t, line),
    ensures
        is_about(
            line,
            stat.pkt_count - m.last_pkt_count,
            stat.total_bytes - m.last_total_bytes,
            stat.last_id - m.last_id,
        ),
        line.time_elapsed == nanos_between(m.start, t) / 1_000_000_000 % 65536,
{
    let p = (stat.pkt_count - m.last_pkt_count) as int;
    let d = (stat.last_id - m.last_id) as int;
    if d > 0 {
        vstd::arithmetic::div_mod::lemma_fundamental_div_mod(p, d);
        let q = p / d;
        assert(0 <= q <= p && q * d <= p < (q + 1) * d) by (nonlinear_arith)
            requires
                p == d * q + p % d,
                0 <= p % d < d,
                d > 0,
                p >= 0,
        ;
    }
}

/// Law: what the next line starts from. A line in the loop moves the time of the last
/// one to its reading. If the identifier has moved, the next line starts from its
/// counters and its identifier; if not, from where it started itself.
pub proof fn law_what_the_next_line_starts_from(
    m: Monitor,
    stat: Statistics,
    t: TimeSpec,
    line: Report,
)
    requires
        m.turned(stat, Ok(t)) == Ok::<Turn, MonitorError>(Turn::Print(line)),
    ensures
        m.next(stat, Ok(t)).start == m.start,
        m.next(stat, Ok(t)).tlast == t,
        m.next(stat, Ok(t)).last_id == stat.last_id,
        stat.last_id != m.last_id ==> {
            &&& m.next(stat, Ok(t)).last_pkt_count == stat.pkt_count
            &&& m.next(stat, Ok(t)).last_total_bytes == stat.total_bytes
        },
        stat.last_id == m.last_id ==> {
            &&& m.next(stat, Ok(t)).last_pkt_count == m.last_pkt_count
            &&& m.next(stat, Ok(t)).last_total_bytes == m.last_total_bytes
        },
{
}

/// Law: two lines in a row. Where the identifier moved at the first, the second is
/// about what was counted between the two, and its packets are divided by the step of
/// the identifier between the two.
pub proof fn law_of_two_lines(
    m: Monitor,
    stat: Statistics,
    t: TimeSpec,
    line: Report,
    stat2: Statistics,
    t2: TimeSpec,
    line2: Report,
)
    requires
        m.wf(),
        m.turned(stat, Ok(t)) == Ok::<Turn, MonitorError>(Turn::Print(line)),
        stat.last_id != m.last_id,
        prints(m.next(stat, Ok(t)), stat2, t2, line2),
    ensures
        is_about(
            line2,
            stat2.pkt_count - stat.pkt_count,
            stat2.total_bytes - stat.total_bytes,
            stat2.last_id - stat.last_id,
        ),
        nanos_between(t, t2) >= 1_000_000_000,
        line2.time_elapsed == nanos_between(m.start, t2) / 1_000_000_000 % 65536,
{
    law_what_the_next_line_starts_from(m, stat, t, line);
    let after = m.next(stat, Ok(t));
    law_what_a_line_says(after, stat2, t2, line2);
    law_a_line_when_a_second_has_passed(after, stat2, t2);
}

/// The sum of the steps of the identifier on the lines printed in a run of rounds: how
/// far the identifier of each line is from where the line starts.
pub open spec fn steps(
    m: Monitor,
    rounds: Seq<(Statistics, Result<TimeSpec, ClockError>)>,
) -> int
    decreases rounds.len(),
{
    if rounds.len() == 0 {
        0
    } else {
        let before = run(m, rounds.drop_last());
        steps(m, rounds.drop_last()) + match before.turned(rounds.last().0, rounds.last().1) {
            Ok(Turn::Print(_)) => rounds.last().0.last_id - before.last_id,
            _ => 0int,
        }
    }
}

/// The identifier of the last line printed in a run of rounds, or the one at the start
/// if there was none.
pub open spec fn last_printed_id(
    m: Monitor,
    rounds: Seq<(Statistics, Result<TimeSpec, ClockError>)>,
) -> u32
    decreases rounds.len(),
{
    if rounds.len() == 0 {
        m.last_id
    } else {
        match run(m, rounds.drop_last()).turned(rounds.last().0, rounds.last().1) {
            Ok(Turn::Print(_)) => rounds.last().0.last_id,
            _ => last_printed_id(m, rounds.drop_last()),
        }
    }
}

/// Law: the steps of the identifier, by which the packets of the lines are divided, add
/// up over any run of rounds to the way from the identifier at the start to that of the
/// last line.
pub proof fn law_steps_add_up(
    m: Monitor,
    rounds: Seq<(Statistics, Result<TimeSpec, ClockError>)>,
)
    ensures
        run(m, rounds).last_id == last_printed_id(m, rounds),
        steps(m, rounds) == last_printed_id(m, rounds) - m.last_id,
    decreases rounds.len(),
{
    if rounds.len() > 0 {
        law_steps_add_up(m, rounds.drop_last());
    }
}

/// Law: the flag of the counters chooses between a round in the loop and the last
/// round, and has no other effect on what is printed or carried over.
pub proof fn law_the_flag_only_chooses(m: Monitor, stat: Statistics, t: TimeSpec)
    ensures
        m.observed(stat, t) == m.turned(Statistics { running: true, ..stat }, Ok(t)),
        m.finished(stat, t) == m.turned(Statistics { running: false, ..stat }, Ok(t)),
        (m.observed(stat, t) matches Ok(Turn::Print(_))) ==> m.after(stat, t) == m.next(
            Statistics { running: true, ..stat },
            Ok(t),
        ),
        m.next(Statistics { running: false, ..stat }, Ok(t)) == m,
{
}

/// The seconds of the span between two readings are the whole seconds between
/// them.
proof fn lemma_whole_seconds(a: TimeSpec, b: TimeSpec, d: TimeSpec)
    requires
        d.normal(),
        d.nanos() == b.nanos() - a.nanos(),
    ensures
        d.sec == seconds_between(a, b),
{
}

} // verus!
