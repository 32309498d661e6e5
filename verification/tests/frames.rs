use throughput::frame::{
    decode, encode, send_perf, FrameError, MyEthernet, Packet, Payload, PktPerf, PktPerfResult,
    ETHERTYPE_PERF, FRAME_LEN,
};
use throughput::opcode::perf_opcode;

fn sample() -> MyEthernet {
    MyEthernet {
        dest: [1, 2, 3, 4, 5, 6],
        src: [7, 8, 9, 10, 11, 12],
        ether_type: 0x1337,
        payload: Payload {
            id: 0x0102_0304,
            op: 0x30,
            pkt_perf: PktPerf {
                pkt_count: 0x1122_3344_5566_7788,
                pkt_perf_result: PktPerfResult {
                    pkt_count: 1,
                    pkt_size: 256,
                    elapsed_sec: -2,
                    elapsed_nsec: 999_999_999,
                },
            },
        },
    }
}

fn sample_bytes() -> Vec<u8> {
    let mut b: Vec<u8> = vec![1, 2, 3, 4, 5, 6, 7, 8, 9, 10, 11, 12];
    b.extend([0x37, 0x13]);
    b.extend([4, 3, 2, 1]);
    b.push(0x30);
    b.extend([0x88, 0x77, 0x66, 0x55, 0x44, 0x33, 0x22, 0x11]);
    b.extend([1, 0, 0, 0, 0, 0, 0, 0]);
    b.extend([0, 1, 0, 0, 0, 0, 0, 0]);
    b.extend([0xfe, 0xff, 0xff, 0xff, 0xff, 0xff, 0xff, 0xff]);
    b.extend([0xff, 0xc9, 0x9a, 0x3b, 0, 0, 0, 0]);
    b
}

#[test]
fn encoding_writes_every_field_at_its_place() {
    let b = encode(&sample());
    assert_eq!(b.len(), FRAME_LEN);
    assert_eq!(b, sample_bytes());
}

#[test]
fn decoding_reads_every_field_from_its_place() {
    assert_eq!(decode(&sample_bytes()), Ok(sample()));
}

#[test]
fn decoding_gives_what_was_encoded() {
    assert_eq!(decode(&encode(&sample())), Ok(sample()));
}

#[test]
fn encoding_gives_what_was_decoded() {
    let mut b: Vec<u8> = Vec::new();
    for i in 0..FRAME_LEN {
        b.push((i * 37 % 251) as u8);
    }
    assert_eq!(encode(&decode(&b).unwrap()), b);
}

#[test]
fn decoding_ignores_what_follows_a_frame() {
    let mut b = sample_bytes();
    b.extend([1, 2, 3, 4, 5]);
    assert_eq!(decode(&b), Ok(sample()));
}

#[test]
fn too_few_bytes_hold_no_frame() {
    let b = sample_bytes();
    assert_eq!(decode(&b[..58]), Err(FrameError::TooShort));
    assert_eq!(decode(&[]), Err(FrameError::TooShort));
}

#[test]
fn a_frame_is_stamped_before_it_is_sent() {
    let mut eth = sample();
    let packet = send_perf(0xcafe_0001, &mut eth, 24);
    let mut expected = sample();
    expected.payload.id = 0xcafe_0001u32.to_be();
    expected.ether_type = ETHERTYPE_PERF.to_be();
    assert_eq!(eth, expected);
    assert_eq!(packet.buffer, encode(&expected));
    assert_eq!(packet.len, 24);
}

#[test]
fn a_packet_goes_out_cut_or_filled_up() {
    let p = Packet { buffer: vec![1, 2, 3], len: 2 };
    assert_eq!(p.bytes(), Some(vec![1, 2]));
    let p = Packet { buffer: vec![1, 2, 3], len: 5 };
    assert_eq!(p.bytes(), Some(vec![1, 2, 3, 0, 0]));
    let p = Packet { buffer: vec![1, 2, 3], len: 0 };
    assert_eq!(p.bytes(), Some(vec![]));
    let p = Packet { buffer: vec![1, 2, 3], len: -1 };
    assert_eq!(p.bytes(), None);
}

#[test]
fn operations_and_their_bytes() {
    let all = [
        (perf_opcode::PERF_REQ_START, 0x00u8),
        (perf_opcode::PERF_REQ_END, 0x01),
        (perf_opcode::PERF_RES_START, 0x20),
        (perf_opcode::PERF_RES_END, 0x21),
        (perf_opcode::PERF_DATA, 0x30),
        (perf_opcode::PERF_REQ_RESULT, 0x40),
        (perf_opcode::PERF_RES_RESULT, 0x41),
    ];
    for (op, code) in all {
        assert_eq!(op.code(), code);
        assert_eq!(perf_opcode::from(code), op);
        assert_eq!(perf_opcode::lookup(code), Some(op));
    }
    let mut known = 0;
    for value in 0..=255u8 {
        if let Some(op) = perf_opcode::lookup(value) {
            assert_eq!(op.code(), value);
            known += 1;
        }
    }
    assert_eq!(known, 7);
    assert_eq!(perf_opcode::lookup(0x02), None);
}
