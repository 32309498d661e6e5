use throughput::statistics::{Monitor, MonitorError, Report, Statistics, Turn};
use throughput::time::{now, reading, tsn_timespecff_diff, ClockError, TimeSpec};

fn at(sec: i64, nsec: i64) -> TimeSpec {
    TimeSpec { sec, nsec }
}

fn stat(pkt_count: u64, total_bytes: u64, last_id: u32) -> Statistics {
    Statistics { pkt_count, total_bytes, last_id, running: true }
}

#[test]
fn spans_between_readings() {
    assert_eq!(tsn_timespecff_diff(&at(1, 200), &at(3, 700)), Some(at(2, 500)));
    assert_eq!(tsn_timespecff_diff(&at(1, 700), &at(3, 200)), Some(at(1, 999_999_500)));
    assert_eq!(tsn_timespecff_diff(&at(5, 5), &at(5, 5)), Some(TimeSpec::zero()));
    assert_eq!(tsn_timespecff_diff(&at(-3, 5), &at(2, 6)), Some(at(5, 1)));
}

#[test]
fn spans_to_an_earlier_reading() {
    assert_eq!(tsn_timespecff_diff(&at(3, 700), &at(1, 200)), Some(at(-3, 999_999_500)));
    assert_eq!(tsn_timespecff_diff(&at(3, 200), &at(1, 700)), Some(at(-2, 500)));
}

#[test]
fn spans_have_their_nanoseconds_within_a_second() {
    assert_eq!(tsn_timespecff_diff(&at(1, 0), &at(1, 2_500_000_000)), Some(at(2, 500_000_000)));
    assert_eq!(tsn_timespecff_diff(&at(1, 0), &at(3, -1)), Some(at(1, 999_999_999)));
}

#[test]
fn spans_that_do_not_fit() {
    assert_eq!(tsn_timespecff_diff(&at(-1, 0), &at(i64::MAX, 0)), None);
    assert_eq!(tsn_timespecff_diff(&at(-1, 1), &at(i64::MAX, 0)), Some(at(i64::MAX, 999_999_999)));
    assert_eq!(tsn_timespecff_diff(&at(1, 0), &at(i64::MIN, 0)), None);
}

#[test]
fn raw_readings() {
    assert_eq!(reading(Some((7, 8))), Ok(at(7, 8)));
    assert_eq!(reading(None), Err(ClockError::Unavailable));
    assert_eq!(reading(Some((-1, 0))), Ok(at(-1, 0)));
    assert_eq!(reading(Some((0, 1_000_000_000))), Ok(at(0, 1_000_000_000)));
    assert_eq!(reading(Some((0, -1))), Ok(at(0, -1)));
}

#[test]
fn the_clock_runs_forward() {
    let a = now().unwrap();
    let b = now().unwrap();
    assert!((a.sec, a.nsec) <= (b.sec, b.nsec));
    assert_ne!(a, TimeSpec::zero());
}

#[test]
fn counters_start_at_zero() {
    assert_eq!(Statistics::new(), stat(0, 0, 0));
}

#[test]
fn a_report_after_a_second() {
    let mut m = Monitor::new(at(10, 0));
    let r = m.observe(&stat(50, 5000, 100), at(12, 0));
    assert_eq!(
        r,
        Ok(Turn::Print(Report { time_elapsed: 2, pps: 50, bps: 40000, covered: Some(0) }))
    );
    assert_eq!(
        m,
        Monitor {
            start: at(10, 0),
            tlast: at(12, 0),
            last_id: 100,
            last_pkt_count: 50,
            last_total_bytes: 5000,
        }
    );
    let r = m.observe(&stat(150, 5001, 200), at(13, 1));
    assert_eq!(
        r,
        Ok(Turn::Print(Report { time_elapsed: 3, pps: 100, bps: 8, covered: Some(1) }))
    );
}

#[test]
fn an_unmoved_identifier_keeps_the_counters() {
    let mut m = Monitor::new(at(0, 0));
    let r = m.observe(&stat(5, 50, 0), at(1, 0));
    assert_eq!(r, Ok(Turn::Print(Report { time_elapsed: 1, pps: 5, bps: 400, covered: None })));
    assert_eq!(m.last_pkt_count, 0);
    assert_eq!(m.tlast, at(1, 0));
    let r = m.observe(&stat(7, 60, 2), at(2, 0));
    assert_eq!(
        r,
        Ok(Turn::Print(Report { time_elapsed: 2, pps: 7, bps: 480, covered: Some(3) }))
    );
}

#[test]
fn a_short_sleep_within_a_second() {
    let mut m = Monitor::new(at(10, 0));
    let before = m;
    assert_eq!(m.observe(&stat(0, 0, 0), at(10, 0)), Ok(Turn::Sleep(1_000_000)));
    assert_eq!(m.observe(&stat(0, 0, 0), at(10, 400_000_000)), Ok(Turn::Sleep(600_000)));
    assert_eq!(m.observe(&stat(0, 0, 0), at(10, 999_999_999)), Ok(Turn::Sleep(0)));
    assert_eq!(m, before);
}

#[test]
fn elapsed_seconds_wrap_around() {
    let mut m = Monitor::new(at(0, 0));
    match m.observe(&stat(1, 1, 1), at(65_537, 5)) {
        Ok(Turn::Print(r)) => assert_eq!(r.time_elapsed, 1),
        other => panic!("{:?}", other),
    }
}

#[test]
fn reports_that_cannot_be_made() {
    let mut m = Monitor::new(at(10, 0));
    assert!(m.observe(&stat(50, 5000, 100), at(12, 0)).is_ok());
    let before = m;
    let t = at(14, 0);
    assert_eq!(
        m.observe(&stat(50, 5000, 100), at(i64::MIN, 0)),
        Err(MonitorError::SpanTooLong)
    );
    assert_eq!(
        m.finish(&stat(50, 5000, 100), at(i64::MIN, 0)),
        Err(MonitorError::SpanTooLong)
    );
    assert_eq!(m.observe(&stat(49, 0, 0), t), Err(MonitorError::PacketsWentBack));
    assert_eq!(m.observe(&stat(50, 4999, 0), t), Err(MonitorError::BytesWentBack));
    assert_eq!(m.observe(&stat(50, 5000, 99), t), Err(MonitorError::IdWentBack));
    assert_eq!(m.observe(&stat(50, u64::MAX, 100), t), Err(MonitorError::TooManyBits));
    assert_eq!(m.finish(&stat(50, 5000, 100), t), Err(MonitorError::IdUnmoved));
    assert_eq!(
        m.turn_at(&stat(50, 5000, 100), Err(ClockError::Unavailable)),
        Err(MonitorError::Clock(ClockError::Unavailable))
    );
    assert_eq!(m, before);
}

#[test]
fn the_last_report() {
    let m = Monitor::new(at(10, 0));
    assert_eq!(m.finish(&stat(4, 10, 2), at(10, 999_999_999)), Ok(Turn::Stop(None)));
    assert_eq!(
        m.finish(&stat(4, 10, 2), at(11, 0)),
        Ok(Turn::Stop(Some(Report { time_elapsed: 1, pps: 4, bps: 80, covered: Some(2) })))
    );
}

#[test]
fn the_flag_decides_between_a_report_and_the_last_one() {
    let mut m = Monitor::new(at(0, 0));
    let mut s = stat(3, 3, 3);
    assert_eq!(m.turn_at(&s, Ok(at(0, 0))), Ok(Turn::Sleep(1_000_000)));
    s.running = false;
    assert_eq!(m.turn_at(&s, Ok(at(0, 0))), Ok(Turn::Stop(None)));
}

#[test]
fn a_round_by_the_clock() {
    let mut m = Monitor::begin().unwrap();
    assert_eq!(m, Monitor::new(m.start));
    let mut same = m;
    let (t, r) = m.turn(&stat(0, 0, 0));
    assert!(t.is_ok());
    assert_eq!(r, same.turn_at(&stat(0, 0, 0), t));
    assert!(r.is_ok());
    assert_eq!(m, same);
}

#[test]
fn lines_add_up() {
    let mut m = Monitor::new(at(0, 0));
    let mut packets = 0;
    let mut bits = 0;
    let rounds = [stat(3, 30, 4), stat(5, 50, 4), stat(9, 90, 6), stat(9, 90, 7), stat(20, 200, 9)];
    for (i, s) in rounds.iter().enumerate() {
        match m.observe(s, at(i as i64 + 1, 0)) {
            Ok(Turn::Print(r)) => {
                if r.covered.is_some() {
                    packets += r.pps;
                    bits += r.bps;
                }
            }
            other => panic!("{:?}", other),
        }
    }
    assert_eq!(packets, 20);
    assert_eq!(bits, 1600);
}

#[test]
fn reports_begin_at_a_reading_or_not_at_all() {
    assert_eq!(Monitor::begin_at(Ok(at(7, 8))), Ok(Monitor::new(at(7, 8))));
    assert_eq!(
        Monitor::begin_at(Err(ClockError::Unavailable)),
        Err(ClockError::Unavailable)
    );
}

#[test]
fn a_reading_behind_the_last_one() {
    let mut m = Monitor::new(at(10, 0));
    let before = m;
    assert_eq!(m.observe(&stat(4, 10, 2), at(9, 600_000_000)), Ok(Turn::Sleep(400_000)));
    assert_eq!(m.observe(&stat(4, 10, 2), at(7, 0)), Ok(Turn::Sleep(1_000_000)));
    assert_eq!(m.finish(&stat(4, 10, 2), at(9, 0)), Ok(Turn::Stop(None)));
    assert_eq!(m, before);
}

#[test]
fn readings_before_zero() {
    let mut m = Monitor::new(at(-5, 500_000_000));
    assert_eq!(
        m.observe(&stat(4, 10, 2), at(-3, 0)),
        Ok(Turn::Print(Report { time_elapsed: 1, pps: 4, bps: 80, covered: Some(2) }))
    );
    let mut m = Monitor::new(at(-5, 0));
    assert_eq!(m.observe(&stat(4, 10, 2), at(i64::MAX, 0)), Err(MonitorError::SpanTooLong));
}

#[test]
fn the_last_line_too_waits_for_a_second() {
    let mut m = Monitor::new(at(0, 0));
    assert!(m.observe(&stat(1, 1, 1), at(1, 500_000_000)).is_ok());
    assert_eq!(m.finish(&stat(2, 2, 2), at(2, 499_999_999)), Ok(Turn::Stop(None)));
    assert_eq!(
        m.finish(&stat(2, 2, 2), at(2, 500_000_000)),
        Ok(Turn::Stop(Some(Report { time_elapsed: 2, pps: 1, bps: 8, covered: Some(1) })))
    );
}

#[test]
fn at_most_a_line_each_second() {
    let mut m = Monitor::new(at(0, 0));
    let mut s = stat(0, 0, 0);
    let mut lines = 0;
    for i in 1..=20 {
        s.pkt_count += 1;
        s.last_id += 1;
        s.running = i < 20;
        match m.turn_at(&s, Ok(at(i * 300 / 1000, i * 300 % 1000 * 1_000_000))) {
            Ok(Turn::Print(_)) | Ok(Turn::Stop(Some(_))) => lines += 1,
            Ok(_) => {}
            Err(e) => panic!("{:?}", e),
        }
    }
    assert_eq!(lines, 5);
}
