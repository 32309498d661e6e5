//! The frame of the protocol, its bytes, and the packets handed to the socket.

use crate::byte_order::{
    law_network_order_puts_the_high_byte_first, law_network_order_undoes_itself, network16, network32,
};
use vstd::endian::{endianness, Endian};
use vstd::prelude::*;

verus! {

/// The EtherType of the protocol, in the machine's byte order.
pub const ETHERTYPE_PERF: u16 = 0x1337;

/// The virtual network that the frames go through.
pub const VLAN_ID_PERF: u32 = 10;

/// The priority of the frames in it.
pub const VLAN_PRI_PERF: u32 = 3;

/// How many bytes a frame takes.
pub const FRAME_LEN: usize = 59;

/// A frame: its addresses, its EtherType and what it carries.
#[derive(Clone, Copy, Debug, PartialEq, Eq)]
pub struct MyEthernet {
    pub dest: [u8; 6],
    pub src: [u8; 6],
    pub ether_type: u16,
    pub payload: Payload,
}

/// What a frame carries: an identifier, both it and the EtherType in network
/// byte order, the byte of an operation, and counters.
#[derive(Clone, Copy, Debug, PartialEq, Eq)]
pub struct Payload {
    pub id: u32,
    pub op: u8,
    pub pkt_perf: PktPerf,
}

/// The counters of a frame.
#[derive(Clone, Copy, Debug, PartialEq, Eq)]
pub struct PktPerf {
    pub pkt_count: u64,
    pub pkt_perf_result: PktPerfResult,
}

/// The result of a measurement.
#[derive(Clone, Copy, Debug, PartialEq, Eq)]
pub struct PktPerfResult {
    pub pkt_count: u64,
    pub pkt_size: u64,
    pub elapsed_sec: i64,
    pub elapsed_nsec: i64,
}

/// Why bytes hold no frame.
#[derive(Clone, Copy, Debug, PartialEq, Eq, Structural)]
pub enum FrameError {
    /// There are fewer bytes than a frame takes.
    TooShort,
}

/// The fields of a frame in the order in which they are written.
pub type Wire = ([u8; 6], [u8; 6], u16, (u32, u8, (u64, (u64, u64, i64, i64))));

/// The frame with these fields.
pub open spec fn of_wire(w: Wire) -> MyEthernet {
    MyEthernet {
        dest: w.0,
        src: w.1,
        ether_type: w.2,
        payload: Payload {
            id: w.3.0,
            op: w.3.1,
            pkt_perf: PktPerf {
                pkt_count: w.3.2.0,
                pkt_perf_result: PktPerfResult {
                    pkt_count: w.3.2.1.0,
                    pkt_size: w.3.2.1.1,
                    elapsed_sec: w.3.2.1.2,
                    elapsed_nsec: w.3.2.1.3,
                },
            },
        },
    }
}

/// The number that bytes stand for, the least significant first.
pub open spec fn le(s: Seq<u8>) -> nat
    decreases s.len(),
{
    if s.len() == 0 {
        0
    } else {
        s[0] as nat + 256 * le(s.drop_first())
    }
}

/// The signed number whose two's complement in eight bytes is `v`.
pub open spec fn signed64(v: nat) -> int {
    if v < 0x8000_0000_0000_0000 {
        v as int
    } else {
        v - 0x1_0000_0000_0000_0000
    }
}

/// Whether the bytes begin with the frame `f`: each field at its place, the
/// numbers with their least significant byte first.
pub open spec fn holds(b: Seq<u8>, f: MyEthernet) -> bool {
    let result = f.payload.pkt_perf.pkt_perf_result;
    &&& b.len() >= FRAME_LEN
    &&& f.dest@ == b.subrange(0, 6)
    &&& f.src@ == b.subrange(6, 12)
    &&& f.ether_type == le(b.subrange(12, 14))
    &&& f.payload.id == le(b.subrange(14, 18))
    &&& f.payload.op == b[18]
    &&& f.payload.pkt_perf.pkt_count == le(b.subrange(19, 27))
    &&& result.pkt_count == le(b.subrange(27, 35))
    &&& result.pkt_size == le(b.subrange(35, 43))
    &&& result.elapsed_sec == signed64(le(b.subrange(43, 51)))
    &&& result.elapsed_nsec == signed64(le(b.subrange(51, 59)))
}

/// The declaration of `bincode::ErrorKind`, the error of reading and writing
/// frames. Nothing is known of a value of it.
#[verifier::external_type_specification]
#[verifier::external_body]
pub struct ExErrorKind(bincode::ErrorKind);

/// `bincode::deserialize` of the fields of a frame. It reads arrays and tuples
/// field by field with nothing between them, and each number from as many
/// bytes as its type has, the least significant first. It ignores bytes behind
/// the last field and fails exactly where bytes are missing.
#[verifier::external_body]
fn deserialize(bytes: &[u8]) -> (r: Result<Wire, Box<bincode::ErrorKind>>)
    ensures
        r is Ok <==> bytes@.len() >= FRAME_LEN,
        r matches Ok(w) ==> holds(bytes@, of_wire(w)),
{
    bincode::deserialize(bytes)
}

/// `bincode::serialize` of the fields of a frame. It writes what
/// `bincode::deserialize` reads and nothing more. It has no limit on the size
/// and writes to a vector, so it does not fail.
#[verifier::external_body]
fn serialize(fields: &Wire) -> (r: Result<Vec<u8>, Box<bincode::ErrorKind>>)
    ensures
        r is Ok,
        r->Ok_0@.len() == FRAME_LEN,
        holds(r->Ok_0@, of_wire(*fields)),
{
    bincode::serialize(fields)
}

/// The frame that the bytes begin with.
pub fn decode(bytes: &[u8]) -> (r: Result<MyEthernet, FrameError>)
    ensures
        r is Err <==> bytes@.len() < FRAME_LEN,
        r matches Ok(f) ==> holds(bytes@, f),
{
    match deserialize(bytes) {
        Ok(w) => {
            let (dest, src, ether_type, (id, op, (pkt_count, result))) = w;
            Ok(
                MyEthernet {
                    dest,
                    src,
                    ether_type,
                    payload: Payload {
                        id,
                        op,
                        pkt_perf: PktPerf {
                            pkt_count,
                            pkt_perf_result: PktPerfResult {
                                pkt_count: result.0,
                                pkt_size: result.1,
                                elapsed_sec: result.2,
                                elapsed_nsec: result.3,
                            },
                        },
                    },
                },
            )
        },
        Err(_) => Err(FrameError::TooShort),
    }
}

/// The bytes of a frame.
pub fn encode(f: &MyEthernet) -> (bytes: Vec<u8>)
    ensures
        bytes@.len() == FRAME_LEN,
        holds(bytes@, *f),
{
    let p = f.payload;
    let r = p.pkt_perf.pkt_perf_result;
    let w: Wire = (
        f.dest,
        f.src,
        f.ether_type,
        (
            p.id,
            p.op,
            (p.pkt_perf.pkt_count, (r.pkt_count, r.pkt_size, r.elapsed_sec, r.elapsed_nsec)),
        ),
    );
    serialize(&w).unwrap()
}

/// A buffer and how many bytes are to be sent from its start.
#[derive(Debug, PartialEq, Eq)]
pub struct Packet {
    pub buffer: Vec<u8>,
    pub len: i32,
}

impl Packet {
    /// The bytes that go out: `len` of them, those of the buffer first and
    /// zeros where the buffer has ended. A negative length cannot be sent.
    pub fn bytes(&self) -> (r: Option<Vec<u8>>)
        ensures
            r is None <==> self.len < 0,
            r matches Some(b) ==> b@ == Seq::new(
                self.len as nat,
                |i: int| if i < self.buffer@.len() { self.buffer@[i] } else { 0u8 },
            ),
    {
        if self.len < 0 {
            return None;
        }
        let n: usize = self.len as usize;
        let mut out: Vec<u8> = Vec::new();
        let mut i: usize = 0;
        while i < n
            invariant
                n == self.len,
                i <= n,
                out@.len() == i,
                forall|j: int|
                    0 <= j < i ==> out@[j] == (if j < self.buffer@.len() {
                        self.buffer@[j]
                    } else {
                        0u8
                    }),
            decreases n - i,
        {
            if i < self.buffer.len() {
                out.push(self.buffer[i]);
            } else {
                out.push(0);
            }
            i = i + 1;
        }
        Some(out)
    }
}

/// The frame `f` as it is sent under the identifier `id`.
pub open spec fn stamped(f: MyEthernet, id: u32) -> MyEthernet {
    MyEthernet {
        ether_type: network16(ETHERTYPE_PERF),
        payload: Payload { id: network32(id), ..f.payload },
        ..f
    }
}

/// Puts the identifier and the EtherType into a frame and makes of it a packet
/// of which `size` bytes are to be sent.
pub fn send_perf(id: u32, eth: &mut MyEthernet, size: i32) -> (packet: Packet)
    ensures
        *final(eth) == stamped(*old(eth), id),
        packet.buffer@.len() == FRAME_LEN,
        holds(packet.buffer@, *final(eth)),
        packet.len == size,
{
    eth.payload.id = socket::htonl(id);
    eth.ether_type = socket::htons(ETHERTYPE_PERF);
    let buffer = encode(eth);
    let sent = decode(buffer.as_slice()).unwrap();
    proof {
        law_decoding_gives_what_was_encoded(buffer@, *eth, sent);
    }
    *eth = sent;
    Packet { buffer, len: size }
}

/// Law: bytes begin with at most one frame, so decoding the bytes of a frame
/// gives that frame, whatever follows them.
pub proof fn law_decoding_gives_what_was_encoded(bytes: Seq<u8>, f: MyEthernet, g: MyEthernet)
    requires
        holds(bytes, f),
        holds(bytes, g),
    ensures
        f == g,
{
    assert(f.dest =~= g.dest);
    assert(f.src =~= g.src);
}

/// Law: a frame has only one encoding, so encoding what was decoded gives the
/// bytes back, as far as the frame reaches.
pub proof fn law_encoding_gives_what_was_decoded(a: Seq<u8>, b: Seq<u8>, f: MyEthernet)
    requires
        holds(a, f),
        holds(b, f),
    ensures
        a.take(FRAME_LEN as int) == b.take(FRAME_LEN as int),
{
    lemma_le_determines_bytes(a.subrange(12, 14), b.subrange(12, 14));
    lemma_payload_bytes(a, b, f, f);
    assert(a.take(59) =~= a.subrange(0, 6) + a.subrange(6, 12) + a.subrange(12, 14) + a.subrange(
        14,
        18,
    ) + seq![a[18]] + a.subrange(19, 59));
    assert(b.take(59) =~= b.subrange(0, 6) + b.subrange(6, 12) + b.subrange(12, 14) + b.subrange(
        14,
        18,
    ) + seq![b[18]] + b.subrange(19, 59));
}

/// Frames with one identifier and one set of counters have the same bytes there.
pub(crate) proof fn lemma_payload_bytes(a: Seq<u8>, b: Seq<u8>, f: MyEthernet, g: MyEthernet)
    requires
        holds(a, f),
        holds(b, g),
        f.payload.id == g.payload.id,
        f.payload.pkt_perf == g.payload.pkt_perf,
    ensures
        a.subrange(14, 18) == b.subrange(14, 18),
        a.subrange(19, 59) == b.subrange(19, 59),
{
    lemma_le_determines_bytes(a.subrange(14, 18), b.subrange(14, 18));
    lemma_same_counters(a, b, f, g);
}

/// Frames with one set of counters have the same bytes there.
proof fn lemma_same_counters(a: Seq<u8>, b: Seq<u8>, f: MyEthernet, g: MyEthernet)
    requires
        holds(a, f),
        holds(b, g),
        f.payload.pkt_perf == g.payload.pkt_perf,
    ensures
        a.subrange(19, 59) == b.subrange(19, 59),
{
    lemma_le_determines_bytes(a.subrange(19, 27), b.subrange(19, 27));
    lemma_le_determines_bytes(a.subrange(27, 35), b.subrange(27, 35));
    lemma_le_determines_bytes(a.subrange(35, 43), b.subrange(35, 43));
    lemma_le_bound(a.subrange(43, 51));
    lemma_le_bound(b.subrange(43, 51));
    lemma_le_determines_bytes(a.subrange(43, 51), b.subrange(43, 51));
    lemma_le_bound(a.subrange(51, 59));
    lemma_le_bound(b.subrange(51, 59));
    lemma_le_determines_bytes(a.subrange(51, 59), b.subrange(51, 59));
    assert(a.subrange(19, 59) =~= a.subrange(19, 27) + a.subrange(27, 35) + a.subrange(35, 43)
        + a.subrange(43, 51) + a.subrange(51, 59));
    assert(b.subrange(19, 59) =~= b.subrange(19, 27) + b.subrange(27, 35) + b.subrange(35, 43)
        + b.subrange(43, 51) + b.subrange(51, 59));
}

/// Bytes of one length that stand for one number are the same.
pub(crate) proof fn lemma_le_determines_bytes(s: Seq<u8>, t: Seq<u8>)
    requires
        s.len() == t.len(),
        le(s) == le(t),
    ensures
        s == t,
    decreases s.len(),
{
    if s.len() > 0 {
        lemma_le_determines_bytes(s.drop_first(), t.drop_first());
        assert(s =~= seq![s[0]] + s.drop_first());
        assert(t =~= seq![t[0]] + t.drop_first());
    }
}

/// Eight bytes stand for a number below two to the power of 64.
proof fn lemma_le_bound(s: Seq<u8>)
    requires
        s.len() == 8,
    ensures
        le(s) < 0x1_0000_0000_0000_0000,
{
    reveal_with_fuel(le, 9);
}

/// Law: where each byte of a frame stands. The addresses come first, then the
/// numbers, each with its low byte first, and negative numbers in two's complement.
pub proof fn law_the_layout_of_a_frame(b: Seq<u8>, f: MyEthernet)
    ensures
        holds(b, f) <==> {
            let p = f.payload.pkt_perf;
            let r = p.pkt_perf_result;
            &&& b.len() >= 59
            &&& forall|i: int| 0 <= i < 6 ==> #[trigger] b[i] == f.dest[i]
            &&& forall|i: int| 0 <= i < 6 ==> b[6 + i] == #[trigger] f.src[i]
            &&& f.ether_type == b[12] + b[13] * 0x100
            &&& f.payload.id == b[14] + b[15] * 0x100 + b[16] * 0x1_0000 + b[17] * 0x100_0000
            &&& f.payload.op == b[18]
            &&& p.pkt_count == eight(b, 19)
            &&& r.pkt_count == eight(b, 27)
            &&& r.pkt_size == eight(b, 35)
            &&& r.elapsed_sec == eight(b, 43) || r.elapsed_sec + 0x1_0000_0000_0000_0000 == eight(
                b,
                43,
            )
            &&& r.elapsed_nsec == eight(b, 51) || r.elapsed_nsec + 0x1_0000_0000_0000_0000
                == eight(b, 51)
        },
{
    if b.len() >= 59 {
        lemma_two(b, 12);
        lemma_four(b, 14);
        lemma_eight(b, 19);
        lemma_eight(b, 27);
        lemma_eight(b, 35);
        lemma_eight(b, 43);
        lemma_eight(b, 51);
        if forall|i: int| 0 <= i < 6 ==> #[trigger] b[i] == f.dest[i] {
            assert(f.dest@ =~= b.subrange(0, 6));
        }
        if forall|i: int| 0 <= i < 6 ==> b[6 + i] == #[trigger] f.src[i] {
            assert(f.src@ =~= b.subrange(6, 12));
        }
        if f.dest@ == b.subrange(0, 6) {
            assert forall|i: int| 0 <= i < 6 implies #[trigger] b[i] == f.dest[i] by {
                assert(b.subrange(0, 6)[i] == b[i]);
            }
        }
        if f.src@ == b.subrange(6, 12) {
            assert forall|i: int| 0 <= i < 6 implies b[6 + i] == #[trigger] f.src[i] by {
                assert(b.subrange(6, 12)[i] == b[6 + i]);
            }
        }
    }
}

/// The number in the eight bytes from `at` on, the low byte first.
pub open spec fn eight(b: Seq<u8>, at: int) -> int {
    b[at] + b[at + 1] * 0x100 + b[at + 2] * 0x1_0000 + b[at + 3] * 0x100_0000 + b[at + 4]
        * 0x1_0000_0000 + b[at + 5] * 0x100_0000_0000 + b[at + 6] * 0x1_0000_0000_0000 + b[at + 7]
        * 0x100_0000_0000_0000
}

/// Two bytes as a number.
proof fn lemma_two(b: Seq<u8>, at: int)
    requires
        0 <= at,
        at + 2 <= b.len(),
    ensures
        le(b.subrange(at, at + 2)) == b[at] + b[at + 1] * 0x100,
{
    reveal_with_fuel(le, 3);
}

/// Four bytes as a number.
proof fn lemma_four(b: Seq<u8>, at: int)
    requires
        0 <= at,
        at + 4 <= b.len(),
    ensures
        le(b.subrange(at, at + 4)) == b[at] + b[at + 1] * 0x100 + b[at + 2] * 0x1_0000 + b[at + 3]
            * 0x100_0000,
{
    reveal_with_fuel(le, 5);
}

/// Eight bytes as a number.
proof fn lemma_eight(b: Seq<u8>, at: int)
    requires
        0 <= at,
        at + 8 <= b.len(),
    ensures
        le(b.subrange(at, at + 8)) == eight(b, at),
{
    reveal_with_fuel(le, 9);
}

/// Law: the fields of a frame are written in the order of its description.
pub proof fn law_the_order_of_the_fields(
    f: MyEthernet,
    dest: [u8; 6],
    src: [u8; 6],
    ether_type: u16,
    id: u32,
    op: u8,
    pkt_count: u64,
    r: (u64, u64, i64, i64),
)
    ensures
        f == of_wire((dest, src, ether_type, (id, op, (pkt_count, r)))) <==> {
            let p = f.payload.pkt_perf;
            &&& f.dest == dest && f.src == src && f.ether_type == ether_type
            &&& f.payload.id == id && f.payload.op == op && p.pkt_count == pkt_count
            &&& p.pkt_perf_result.pkt_count == r.0 && p.pkt_perf_result.pkt_size == r.1
            &&& p.pkt_perf_result.elapsed_sec == r.2 && p.pkt_perf_result.elapsed_nsec == r.3
        },
{
}

/// Law: what goes out under an identifier. Its bytes are those of the frame, but
/// for the EtherType, 0x1337, and the identifier, which stand in the order of the
/// network: on a little-endian machine the high byte first.
pub proof fn law_what_is_sent(
    before: Seq<u8>,
    f: MyEthernet,
    id: u32,
    i0: u8,
    i1: u8,
    i2: u8,
    i3: u8,
    after: Seq<u8>,
)
    requires
        holds(before, f),
        holds(after, stamped(f, id)),
        id == i0 * 0x100_0000 + i1 * 0x1_0000 + i2 * 0x100 + i3,
    ensures
        forall|i: int| 0 <= i < 12 ==> #[trigger] after[i] == before[i],
        forall|i: int| 18 <= i < 59 ==> #[trigger] after[i] == before[i],
        endianness() is Little ==> after.subrange(12, 18) == seq![0x13u8, 0x37u8, i0, i1, i2, i3],
        endianness() is Big ==> after.subrange(12, 18) == seq![0x37u8, 0x13u8, i3, i2, i1, i0],
        network32(stamped(f, id).payload.id) == id,
{
    let g = stamped(f, id);
    law_network_order_puts_the_high_byte_first(i0, i1, i2, i3, id, (i0 * 0x100 + i1) as u16);
    law_network_order_puts_the_high_byte_first(0x13, 0x37, 0, 0, 0x1337_0000, 0x1337);
    law_network_order_undoes_itself(id);
    lemma_same_counters(after, before, g, f);
    assert forall|i: int| 0 <= i < 12 implies #[trigger] after[i] == before[i] by {
        if i < 6 {
            assert(after.subrange(0, 6)[i] == before.subrange(0, 6)[i]);
        } else {
            assert(after.subrange(6, 12)[i - 6] == before.subrange(6, 12)[i - 6]);
        }
    }
    assert forall|i: int| 18 <= i < 59 implies #[trigger] after[i] == before[i] by {
        if i > 18 {
            assert(after.subrange(19, 59)[i - 19] == before.subrange(19, 59)[i - 19]);
        }
    }
    let whole = after.subrange(12, 14) + after.subrange(14, 18);
    assert(after.subrange(12, 18) =~= whole);
    if endianness() is Little {
        lemma_bytes_of_two(after.subrange(12, 14), 0x13, 0x37);
        lemma_bytes_of_four(after.subrange(14, 18), i0, i1, i2, i3);
        assert(whole =~= seq![0x13u8, 0x37u8, i0, i1, i2, i3]);
    } else {
        lemma_bytes_of_two(after.subrange(12, 14), 0x37, 0x13);
        lemma_bytes_of_four(after.subrange(14, 18), i3, i2, i1, i0);
        assert(whole =~= seq![0x37u8, 0x13u8, i3, i2, i1, i0]);
    }
}

/// Two bytes are known from the number that they stand for.
pub(crate) proof fn lemma_bytes_of_two(s: Seq<u8>, a: u8, b: u8)
    requires
        s.len() == 2,
        le(s) == a + b * 0x100,
    ensures
        s == seq![a, b],
{
    let t = seq![a, b];
    lemma_two(t, 0);
    assert(t.subrange(0, 2) =~= t);
    lemma_le_determines_bytes(s, t);
}

/// Four bytes are known from the number that they stand for.
pub(crate) proof fn lemma_bytes_of_four(s: Seq<u8>, a: u8, b: u8, c: u8, d: u8)
    requires
        s.len() == 4,
        le(s) == a + b * 0x100 + c * 0x1_0000 + d * 0x100_0000,
    ensures
        s == seq![a, b, c, d],
{
    let t = seq![a, b, c, d];
    lemma_four(t, 0);
    assert(t.subrange(0, 4) =~= t);
    lemma_le_determines_bytes(s, t);
}

/// Law: the numbers of the protocol.
pub proof fn law_the_numbers_of_the_protocol()
    ensures
        ETHERTYPE_PERF == 0x1337,
        FRAME_LEN == 6 + 6 + 2 + 4 + 1 + 5 * 8,
        VLAN_ID_PERF == 10,
        VLAN_PRI_PERF == 3,
{
}

} // verus!
