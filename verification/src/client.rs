//! The client's side of the protocol: the request that starts a measurement.

use crate::address::{first_fault, names, parse_mac, MacError};
use crate::byte_order::{
    law_network_order_puts_the_high_byte_first, law_network_order_undoes_itself, network16, network32,
};
use crate::frame::{
    holds, le, lemma_bytes_of_four, lemma_bytes_of_two, lemma_le_determines_bytes, MyEthernet, Packet, ETHERTYPE_PERF,
};
use crate::opcode::perf_opcode;
use crate::server::{answers, Action, Fault, Server};
use crate::time::{ClockError, TimeSpec};
use vstd::endian::{endianness, Endian};
use vstd::prelude::*;

verus! {

/// The identifier that the client's request carries.
pub const CUSTOM_ID: u32 = 0xdead_beef;

/// How many seconds the client waits for a frame.
pub const TIMEOUT_SEC: u32 = 1;

/// How many bytes the client writes of its request; zeros follow.
pub const REQUEST_LEN: usize = 19;

/// Why the client cannot make its request.
#[derive(Clone, Copy, Debug, PartialEq, Eq, Structural)]
pub enum ClientError {
    /// No buffer has a negative size.
    NegativeSize,
    /// The target names no hardware address.
    Target(MacError),
    /// The request does not fit into the buffer.
    TooSmall,
}

/// Whether the bytes are those of a request to start from `srcmac` and `dstmac`,
/// with zeros behind it.
pub open spec fn is_request(b: Seq<u8>, srcmac: [u8; 6], dstmac: [u8; 6]) -> bool {
    &&& b.len() >= REQUEST_LEN
    &&& b.subrange(0, 6) == srcmac@
    &&& b.subrange(6, 12) == dstmac@
    &&& le(b.subrange(12, 14)) == network16(ETHERTYPE_PERF)
    &&& le(b.subrange(14, 18)) == network32(CUSTOM_ID)
    &&& b[18] == perf_opcode::PERF_REQ_START.spec_code()
    &&& forall|i: int| REQUEST_LEN <= i < b.len() ==> b[i] == 0
}

/// Writes an address into the buffer at `at`.
fn put_mac(pkt: &mut Vec<u8>, at: usize, mac: &[u8; 6])
    requires
        at + 6 <= old(pkt)@.len(),
    ensures
        final(pkt)@.len() == old(pkt)@.len(),
        final(pkt)@.subrange(at as int, at + 6) == mac@,
        forall|i: int|
            0 <= i < old(pkt)@.len() && !(at <= i < at + 6) ==> final(pkt)@[i] == old(pkt)@[i],
{
    let n: usize = pkt.len();
    let mut k: usize = 0;
    while k < 6
        invariant
            k <= 6,
            at + 6 <= n == pkt@.len(),
            pkt@.len() == old(pkt)@.len(),
            forall|i: int| 0 <= i < k ==> pkt@[at + i] == mac@[i],
            forall|i: int|
                0 <= i < old(pkt)@.len() && !(at <= i < at + 6) ==> pkt@[i] == old(pkt)@[i],
        decreases 6 - k,
    {
        pkt[at + k] = mac[k];
        k = k + 1;
    }
}

/// The request to start, in a buffer of `size` bytes. As many bytes of it are to
/// be sent as the handle of a byte vector takes.
pub fn request(size: usize, srcmac: [u8; 6], dstmac: [u8; 6]) -> (packet: Packet)
    requires
        size >= REQUEST_LEN,
    ensures
        packet.buffer@.len() == size,
        is_request(packet.buffer@, srcmac, dstmac),
        packet.len == vstd::layout::size_of::<Vec<u8>>() as i32,
{
    let mut pkt: Vec<u8> = vec![0; size];
    put_mac(&mut pkt, 0, &srcmac);
    put_mac(&mut pkt, 6, &dstmac);
    let ether_type: u16 = socket::htons(ETHERTYPE_PERF);
    pkt[12] = (ether_type % 256) as u8;
    pkt[13] = (ether_type / 256) as u8;
    let id: u32 = socket::htonl(CUSTOM_ID);
    pkt[14] = (id % 256) as u8;
    pkt[15] = (id / 256 % 256) as u8;
    pkt[16] = (id / 65536 % 256) as u8;
    pkt[17] = (id / 16777216) as u8;
    pkt[18] = perf_opcode::PERF_REQ_START.code();
    proof {
        reveal_with_fuel(le, 5);
        assert(pkt@.subrange(0, 6) =~= srcmac@);
        assert(pkt@.subrange(6, 12) =~= dstmac@);
    }
    let len: usize = core::mem::size_of::<Vec<u8>>();
    Packet { buffer: pkt, len: len as i32 }
}

/// The request to start that goes from the address `srcmac` to the one that the
/// text `target` names, in a buffer of `size` bytes.
pub fn request_for(size: i32, srcmac: [u8; 6], target: &str) -> (r: Result<Packet, ClientError>)
    ensures
        match r {
            Ok(packet) => {
                &&& size >= REQUEST_LEN
                &&& packet.buffer@.len() == size
                &&& packet.len == vstd::layout::size_of::<Vec<u8>>() as i32
                &&& exists|dstmac: [u8; 6]|
                    #[trigger] is_request(packet.buffer@, srcmac, dstmac) && names(target@, dstmac)
            },
            Err(ClientError::NegativeSize) => size < 0,
            Err(ClientError::Target(e)) => size >= 0 && first_fault(target@, e),
            Err(ClientError::TooSmall) => {
                &&& 0 <= size < REQUEST_LEN
                &&& exists|dstmac: [u8; 6]| names(target@, dstmac)
            },
        },
{
    if size < 0 {
        return Err(ClientError::NegativeSize);
    }
    match parse_mac(target) {
        Ok(dstmac) => {
            let n: usize = size as usize;
            if n < REQUEST_LEN {
                Err(ClientError::TooSmall)
            } else {
                let packet = request(n, srcmac, dstmac);
                assert(is_request(packet.buffer@, srcmac, dstmac));
                Ok(packet)
            }
        },
        Err(e) => Err(ClientError::Target(e)),
    }
}

/// Law: a server understands the client. Where its buffer begins with what the
/// client wrote, it takes the frame for a request to start under the client's
/// identifier, and answers it with the two addresses in exchanged places.
pub proof fn law_a_server_answers_the_request(
    request: Seq<u8>,
    srcmac: [u8; 6],
    dstmac: [u8; 6],
    buffer: Seq<u8>,
    f: MyEthernet,
    before: Server,
    received: i32,
    clock: Result<TimeSpec, ClockError>,
    after: Server,
    r: Result<Action, Fault>,
)
    requires
        is_request(request, srcmac, dstmac),
        holds(buffer, f),
        buffer.take(REQUEST_LEN as int) == request.take(REQUEST_LEN as int),
        answers(before, f, received, clock, after, r),
    ensures
        after == before,
        r matches Ok(Action::Started { id, eth, packet }) && id == CUSTOM_ID && eth.dest == dstmac
            && eth.src == srcmac && eth.payload.op == perf_opcode::PERF_RES_START.spec_code()
            && packet.len == received && eth.ether_type == f.ether_type && eth.payload.id
            == f.payload.id && packet.buffer@.subrange(12, 18) == request.subrange(12, 18),
{
    let n = REQUEST_LEN as int;
    assert forall|a: int, b: int| 0 <= a <= b <= n implies #[trigger] buffer.subrange(a, b)
        == request.subrange(a, b) by {
        assert(buffer.subrange(a, b) =~= buffer.take(n).subrange(a, b));
        assert(request.subrange(a, b) =~= request.take(n).subrange(a, b));
    }
    assert(buffer[18] == buffer.take(n)[18]);
    assert(request[18] == request.take(n)[18]);
    law_network_order_undoes_itself(CUSTOM_ID);
    assert(f.src =~= dstmac);
    assert(f.dest =~= srcmac);
    let b = r->Ok_0->Started_packet.buffer@;
    lemma_le_determines_bytes(b.subrange(12, 14), request.subrange(12, 14));
    lemma_le_determines_bytes(b.subrange(14, 18), request.subrange(14, 18));
    assert(b.subrange(12, 18) =~= b.subrange(12, 14) + b.subrange(14, 18));
    assert(request.subrange(12, 18) =~= request.subrange(12, 14) + request.subrange(14, 18));
}

/// Law: the request byte by byte, whatever its size. The two addresses come first.
/// The EtherType, 0x1337, and the identifier, 0xdeadbeef, stand in the order of the
/// network: on a little-endian machine the high byte first. Zeros follow.
pub proof fn law_the_bytes_of_a_request(b: Seq<u8>, srcmac: [u8; 6], dstmac: [u8; 6])
    requires
        is_request(b, srcmac, dstmac),
    ensures
        b.len() >= 19,
        forall|i: int| 0 <= i < 6 ==> b[i] == #[trigger] srcmac[i],
        forall|i: int| 0 <= i < 6 ==> b[6 + i] == #[trigger] dstmac[i],
        endianness() is Little ==> b[12] == 0x13 && b[13] == 0x37 && b[14] == 0xde && b[15] == 0xad
            && b[16] == 0xbe && b[17] == 0xef,
        endianness() is Big ==> b[12] == 0x37 && b[13] == 0x13 && b[14] == 0xef && b[15] == 0xbe
            && b[16] == 0xad && b[17] == 0xde,
        forall|i: int| 18 <= i < b.len() ==> #[trigger] b[i] == 0,
{
    assert forall|i: int| 0 <= i < 6 implies b[i] == #[trigger] srcmac[i] by {
        assert(b.subrange(0, 6)[i] == srcmac@[i]);
    }
    assert forall|i: int| 0 <= i < 6 implies b[6 + i] == #[trigger] dstmac[i] by {
        assert(b.subrange(6, 12)[i] == dstmac@[i]);
    }
    law_network_order_puts_the_high_byte_first(0x13, 0x37, 0, 0, 0x1337_0000, 0x1337);
    law_network_order_puts_the_high_byte_first(0xde, 0xad, 0xbe, 0xef, 0xdead_beef, 0xdead);
    let t = b.subrange(12, 14);
    let id = b.subrange(14, 18);
    if endianness() is Little {
        lemma_bytes_of_two(t, 0x13, 0x37);
        lemma_bytes_of_four(id, 0xde, 0xad, 0xbe, 0xef);
    } else {
        lemma_bytes_of_two(t, 0x37, 0x13);
        lemma_bytes_of_four(id, 0xef, 0xbe, 0xad, 0xde);
    }
    assert(b[12] == t[0] && b[13] == t[1]);
    assert(b[14] == id[0] && b[15] == id[1] && b[16] == id[2] && b[17] == id[3]);
}

/// Law: the size of the buffer changes nothing but the number of zeros. Requests
/// between the same addresses have the same bytes as far as both reach, and requests
/// to different targets differ in the target alone.
pub proof fn law_requests_differ_in_addresses_and_zeros(
    a: Seq<u8>,
    b: Seq<u8>,
    src_a: [u8; 6],
    dst_a: [u8; 6],
    src_b: [u8; 6],
    dst_b: [u8; 6],
)
    requires
        is_request(a, src_a, dst_a),
        is_request(b, src_b, dst_b),
        a.len() <= b.len(),
    ensures
        forall|i: int| 12 <= i < a.len() ==> #[trigger] a[i] == b[i],
        src_a == src_b && dst_a == dst_b ==> a == b.take(a.len() as int),
        a == b ==> src_a == src_b && dst_a == dst_b,
{
    law_the_bytes_of_a_request(a, src_a, dst_a);
    law_the_bytes_of_a_request(b, src_b, dst_b);
    assert forall|i: int| 12 <= i < a.len() implies #[trigger] a[i] == b[i] by {}
    if src_a == src_b && dst_a == dst_b {
        assert forall|i: int| 0 <= i < a.len() implies a[i] == b[i] by {
            if i < 6 {
                assert(a[i] == src_a[i] && b[i] == src_b[i]);
            } else if i < 12 {
                assert(a[6 + (i - 6)] == dst_a[i - 6] && b[6 + (i - 6)] == dst_b[i - 6]);
            }
        }
        assert(a =~= b.take(a.len() as int));
    }
    if a == b {
        assert(src_a =~= src_b);
        assert(dst_a =~= dst_b);
    }
}

} // verus!
