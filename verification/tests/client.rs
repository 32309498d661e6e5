use throughput::address::{interface_name, parse_mac, split, MacError};
use throughput::client::{request, request_for, ClientError, CUSTOM_ID};
use throughput::frame::{encode, ETHERTYPE_PERF};
use throughput::opcode::perf_opcode;
use throughput::server::{Action, Server};

const SRC: [u8; 6] = [1, 2, 3, 4, 5, 6];
const DST: [u8; 6] = [0xaa, 0xbb, 0xcc, 0xdd, 0xee, 0xff];

#[test]
fn an_address_is_read_in_either_case() {
    assert_eq!(parse_mac("aa:bb:CC:dd:Ee:ff"), Ok(DST));
    assert_eq!(parse_mac("00:01:09:10:90:0a"), Ok([0, 1, 9, 16, 144, 10]));
}

#[test]
fn only_the_first_byte_of_a_part_counts() {
    assert_eq!(parse_mac("aa00:bb11:cc22:dd33:ee44:ff55"), Ok(DST));
}

#[test]
fn only_six_parts_count() {
    assert_eq!(parse_mac("aa:bb:cc:dd:ee:ff:xyz:"), Ok(DST));
}

#[test]
fn faulty_addresses() {
    assert_eq!(parse_mac("aa:bb:cc:dd:ee"), Err(MacError::Missing { part: 5 }));
    assert_eq!(parse_mac(""), Err(MacError::Empty { part: 0 }));
    assert_eq!(parse_mac("aa::cc:dd:ee:ff"), Err(MacError::Empty { part: 1 }));
    assert_eq!(parse_mac("aa:bb:c:dd:ee:ff"), Err(MacError::NotHex { part: 2 }));
    assert_eq!(parse_mac("aa:bb:cc:dg:ee:ff"), Err(MacError::NotHex { part: 3 }));
    assert_eq!(parse_mac("aa:bb:cc:dd:\u{e9}:ff"), Err(MacError::NotHex { part: 4 }));
    assert_eq!(parse_mac("aa-bb-cc"), Err(MacError::NotHex { part: 0 }));
    assert_eq!(parse_mac("aa:zz"), Err(MacError::NotHex { part: 1 }));
}

#[test]
fn a_text_is_parted_at_its_colons() {
    assert_eq!(split("a:b"), vec!["a", "b"]);
    assert_eq!(split(""), vec![""]);
    assert_eq!(split(":"), vec!["", ""]);
    assert_eq!(split("x:\u{e9}y::"), vec!["x", "\u{e9}y", "", ""]);
    assert_eq!(split("1:2:3:4"), "1:2:3:4".split(':').collect::<Vec<&str>>());
}

#[test]
fn names_of_interfaces() {
    let mut eth0 = [0u8; 16];
    eth0[..4].copy_from_slice(b"eth0");
    assert_eq!(interface_name("eth0"), Some(eth0));
    assert_eq!(interface_name(""), Some([0; 16]));
    assert_eq!(interface_name("0123456789abcdef"), Some(*b"0123456789abcdef"));
    assert_eq!(interface_name("0123456789abcdefg"), None);
}

#[test]
fn the_request_holds_its_fields_and_zeros() {
    let p = request(100, SRC, DST);
    let mut expected: Vec<u8> = Vec::new();
    expected.extend(SRC);
    expected.extend(DST);
    expected.extend(ETHERTYPE_PERF.to_be().to_le_bytes());
    expected.extend(CUSTOM_ID.to_be().to_le_bytes());
    expected.push(0);
    expected.resize(100, 0);
    assert_eq!(p.buffer, expected);
    assert_eq!(p.len as usize, std::mem::size_of::<Vec<u8>>());
}

#[test]
fn the_smallest_request() {
    let p = request(19, SRC, DST);
    assert_eq!(p.buffer.len(), 19);
    assert_eq!(p.buffer[18], 0);
}

#[test]
fn a_request_for_a_target() {
    assert_eq!(request_for(100, SRC, "aa:bb:cc:dd:ee:ff"), Ok(request(100, SRC, DST)));
    assert_eq!(request_for(-1, SRC, "aa"), Err(ClientError::NegativeSize));
    assert_eq!(
        request_for(18, SRC, "aa:bb"),
        Err(ClientError::Target(MacError::Missing { part: 2 }))
    );
    assert_eq!(request_for(18, SRC, "aa:bb:cc:dd:ee:ff"), Err(ClientError::TooSmall));
}

#[test]
fn a_server_answers_the_request() {
    let sent = request(100, SRC, DST).bytes().unwrap();
    let mut buffer = vec![0u8; 1460];
    buffer[..sent.len()].copy_from_slice(&sent);
    let mut server = Server::new(1460);
    match server.serve(&buffer, sent.len() as i32) {
        Ok(Action::Started { id, eth, packet }) => {
            assert_eq!(id, CUSTOM_ID);
            assert_eq!(eth.dest, DST);
            assert_eq!(eth.src, SRC);
            assert_eq!(eth.ether_type, ETHERTYPE_PERF.to_be());
            assert_eq!(eth.payload.id, CUSTOM_ID.to_be());
            assert_eq!(eth.payload.op, perf_opcode::PERF_RES_START.code());
            assert_eq!(packet.buffer, encode(&eth));
            assert_eq!(packet.len as usize, sent.len());
        }
        other => panic!("{:?}", other),
    }
    assert!(server.open);
}
