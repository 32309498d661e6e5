use throughput::frame::{
    decode, encode, MyEthernet, Payload, PktPerf, PktPerfResult, ETHERTYPE_PERF,
};
use throughput::opcode::perf_opcode;
use throughput::server::{Action, Fault, Server};
use throughput::statistics::Statistics;
use throughput::time::{ClockError, TimeSpec};

fn frame(op: u8) -> MyEthernet {
    MyEthernet {
        dest: [1, 2, 3, 4, 5, 6],
        src: [7, 8, 9, 10, 11, 12],
        ether_type: 0,
        payload: Payload {
            id: 0x1234_5678u32.to_be(),
            op,
            pkt_perf: PktPerf {
                pkt_count: 9,
                pkt_perf_result: PktPerfResult {
                    pkt_count: 8,
                    pkt_size: 7,
                    elapsed_sec: 6,
                    elapsed_nsec: 5,
                },
            },
        },
    }
}

fn reply(op: perf_opcode) -> MyEthernet {
    let mut f = frame(op.code());
    f.dest = [7, 8, 9, 10, 11, 12];
    f.src = [1, 2, 3, 4, 5, 6];
    f.ether_type = ETHERTYPE_PERF.to_be();
    f
}

#[test]
fn a_start_is_answered_and_the_session_goes_on() {
    let mut s = Server::new(1460);
    match s.serve(&encode(&frame(0x00)), 59) {
        Ok(Action::Started { id, eth, packet }) => {
            assert_eq!(id, 0x1234_5678);
            assert_eq!(eth, reply(perf_opcode::PERF_RES_START));
            assert_eq!(decode(&packet.buffer), Ok(eth));
            assert_eq!(packet.len, 59);
        }
        other => panic!("{:?}", other),
    }
    assert_eq!(s, Server::new(1460));
}

#[test]
fn data_is_counted_and_ends_the_session() {
    let mut s = Server::new(1460);
    assert_eq!(s.serve(&encode(&frame(0x30)), 100), Ok(Action::Counted));
    assert_eq!(
        s.stats,
        Statistics { pkt_count: 1, total_bytes: 104, last_id: 0x1234_5678, running: true }
    );
    assert!(!s.open);
}

#[test]
fn data_that_was_not_received() {
    let mut s = Server::new(1460);
    assert_eq!(s.serve(&encode(&frame(0x30)), -1), Ok(Action::Counted));
    assert_eq!(s.stats.total_bytes, 3);
    let mut s = Server::new(1460);
    assert_eq!(s.serve(&encode(&frame(0x30)), -10), Ok(Action::Counted));
    assert_eq!(s.stats.total_bytes, u64::MAX - 5);
}

#[test]
fn full_counters() {
    let mut s = Server::new(1460);
    s.stats.pkt_count = u64::MAX;
    assert_eq!(s.serve(&encode(&frame(0x30)), 100), Err(Fault::TooManyPackets));
    s.stats.pkt_count = 0;
    s.stats.total_bytes = u64::MAX - 103;
    let before = s;
    assert_eq!(s.serve(&encode(&frame(0x30)), 100), Err(Fault::TooManyBytes));
    assert_eq!(s, before);
    assert_eq!(s.serve(&encode(&frame(0x30)), 99), Ok(Action::Counted));
    assert_eq!(s.stats.total_bytes, u64::MAX);
}

#[test]
fn an_end_stops_the_counting() {
    let mut s = Server::new(1460);
    match s.serve(&encode(&frame(0x01)), 40) {
        Ok(Action::Ended { id, eth, packet }) => {
            assert_eq!(id, 0x1234_5678u32.to_be());
            assert_eq!(eth, reply(perf_opcode::PERF_REQ_END));
            assert_eq!(packet.len, 40);
            assert_eq!(packet.bytes().unwrap(), encode(&eth)[..40].to_vec());
        }
        other => panic!("{:?}", other),
    }
    assert!(!s.stats.running);
    assert!(!s.open);
    assert_ne!(s.tend, TimeSpec::zero());
}

#[test]
fn an_end_at_a_given_time() {
    let t = TimeSpec { sec: 12, nsec: 34 };
    let mut s = Server::new(1460);
    assert!(s.answer(frame(0x01), 40, Ok(t)).is_ok());
    assert_eq!(s.tend, t);
    let t = TimeSpec { sec: -1, nsec: 2_000_000_000 };
    let mut s = Server::new(1460);
    assert!(s.answer(frame(0x01), 40, Ok(t)).is_ok());
    assert_eq!(s.tend, t);
    let mut s = Server::new(1460);
    assert_eq!(
        s.answer(frame(0x01), 40, Err(ClockError::Unavailable)),
        Err(Fault::Clock(ClockError::Unavailable))
    );
    assert_eq!(s, Server::new(1460));
}

#[test]
fn a_result_reports_no_time() {
    let mut s = Server::new(64);
    let mut expected = reply(perf_opcode::PERF_RES_RESULT);
    expected.payload.pkt_perf.pkt_perf_result.elapsed_sec = 0;
    expected.payload.pkt_perf.pkt_perf_result.elapsed_nsec = 0;
    match s.serve(&encode(&frame(0x40)), 59) {
        Ok(Action::Answered { eth, packet }) => {
            assert_eq!(eth, expected);
            assert_eq!(packet.buffer, encode(&expected));
            assert_eq!(packet.len, 64);
        }
        other => panic!("{:?}", other),
    }
    assert!(!s.open);
}

#[test]
fn an_answer_returns_to_its_sender() {
    let request = encode(&frame(0x00));
    let mut s = Server::new(1460);
    match s.serve(&request, 59) {
        Ok(Action::Started { packet, .. }) => {
            let answer = packet.bytes().unwrap();
            assert_eq!(answer[0..6], request[6..12]);
            assert_eq!(answer[6..12], request[0..6]);
            assert_eq!(answer[14..18], request[14..18]);
            assert_eq!(answer[18], 0x20);
            assert_eq!(answer[19..59], request[19..59]);
        }
        other => panic!("{:?}", other),
    }
}

#[test]
fn frames_that_a_server_cannot_answer() {
    let mut s = Server::new(1460);
    assert_eq!(s.serve(&[0; 58], 58), Err(Fault::TooShort));
    assert_eq!(s.serve(&encode(&frame(0x02)), 59), Err(Fault::UnknownOpcode(0x02)));
    for op in
        [perf_opcode::PERF_RES_START, perf_opcode::PERF_RES_END, perf_opcode::PERF_RES_RESULT]
    {
        assert_eq!(s.serve(&encode(&frame(op.code())), 59), Err(Fault::Unsupported(op)));
    }
    assert_eq!(s, Server::new(1460));
}

#[test]
fn a_session_of_starts_and_one_end() {
    let mut s = Server::new(1460);
    let mut sent = 0;
    for op in [0x00u8, 0x00, 0x00, 0x40] {
        assert!(s.open);
        match s.serve(&encode(&frame(op)), 59) {
            Ok(Action::Counted) => {}
            Ok(_) => sent += 1,
            Err(e) => panic!("{:?}", e),
        }
    }
    assert!(!s.open);
    assert_eq!(sent, 4);
    assert_eq!(s.stats.pkt_count, 0);
}
