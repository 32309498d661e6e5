//! The server's side of the protocol: what it answers to a frame, and how its
//! counters change.

use crate::byte_order::{law_network_order_undoes_itself, network16, network32};
use crate::frame::{
    decode, holds, lemma_payload_bytes, send_perf, MyEthernet, Packet, Payload, PktPerf, PktPerfResult,
    ETHERTYPE_PERF, FRAME_LEN,
};
use crate::opcode::{law_the_codes, perf_opcode};
use crate::statistics::Statistics;
use crate::time::{answered, now, tsn_timespecff_diff, ClockError, TimeSpec, NANOS_PER_SEC};
use vstd::prelude::*;

verus! {

/// What the program is to do about a frame.
#[derive(Debug, PartialEq, Eq)]
pub enum Action {
    /// Start the thread that prints reports and send the packet, which holds
    /// `eth`. `id` is the identifier of the request.
    Started { id: u32, eth: MyEthernet, packet: Packet },
    /// The frame has been counted.
    Counted,
    /// Wait for the thread that prints reports and send the packet, which holds
    /// `eth`. `id` is the identifier of the request as it stood in the frame.
    Ended { id: u32, eth: MyEthernet, packet: Packet },
    /// Send the packet, which holds `eth`.
    Answered { eth: MyEthernet, packet: Packet },
}

/// Why the server cannot go on.
#[derive(Clone, Copy, Debug, PartialEq, Eq, Structural)]
pub enum Fault {
    /// The buffer is too short for a frame.
    TooShort,
    /// The byte stands for no operation.
    UnknownOpcode(u8),
    /// The operation is not one that a server is asked for.
    Unsupported(perf_opcode),
    /// The clock could not be read.
    Clock(ClockError),
    /// One packet more cannot be counted.
    TooManyPackets,
    /// So many bytes more cannot be counted.
    TooManyBytes,
}

/// A server: its counters, the size of its buffer, when the measurement began
/// and ended, and whether it takes more frames.
#[derive(Clone, Copy, Debug, PartialEq, Eq, Structural)]
pub struct Server {
    pub stats: Statistics,
    pub size: i32,
    pub tstart: TimeSpec,
    pub tend: TimeSpec,
    pub open: bool,
}

/// The frame that answers `f` with the operation `op`: it goes back to the sender
/// under the same identifier and carries the same counters.
pub open spec fn reply(f: MyEthernet, op: perf_opcode) -> MyEthernet {
    MyEthernet {
        dest: f.src,
        src: f.dest,
        ether_type: network16(ETHERTYPE_PERF),
        payload: Payload { op: op.spec_code(), ..f.payload },
    }
}

/// The frame that answers `f` with a measurement that lasted `nanos` nanoseconds.
pub open spec fn result_reply(f: MyEthernet, nanos: int) -> MyEthernet {
    let r = reply(f, perf_opcode::PERF_RES_RESULT);
    MyEthernet {
        payload: Payload {
            pkt_perf: PktPerf {
                pkt_perf_result: PktPerfResult {
                    elapsed_sec: (nanos / NANOS_PER_SEC as int) as i64,
                    elapsed_nsec: (nanos % NANOS_PER_SEC as int) as i64,
                    ..r.payload.pkt_perf.pkt_perf_result
                },
                ..r.payload.pkt_perf
            },
            ..r.payload
        },
        ..r
    }
}

/// Whether a packet holds the frame `eth` and `len` bytes of it are to be sent.
pub open spec fn carries(packet: Packet, eth: MyEthernet, len: i32) -> bool {
    packet.buffer@.len() == FRAME_LEN && holds(packet.buffer@, eth) && packet.len == len
}

/// What a frame adds to the bytes when `received` is what came of receiving it:
/// four more than that, modulo two to the power of 64.
pub open spec fn counted_bytes(received: i32) -> int {
    if received + 4 >= 0 {
        received + 4
    } else {
        received + 4 + 0x1_0000_0000_0000_0000
    }
}

/// Whether `r` is what comes of the frame `f`, with `received` what came of
/// receiving it and `clock` what came of reading the clock, and takes the server
/// from `before` to `after`.
pub open spec fn answers(
    before: Server,
    f: MyEthernet,
    received: i32,
    clock: Result<TimeSpec, ClockError>,
    after: Server,
    r: Result<Action, Fault>,
) -> bool {
    let op = f.payload.op;
    let s = before.stats;
    if op == perf_opcode::PERF_REQ_START.spec_code() {
        &&& r matches Ok(Action::Started { id, eth, packet })
        &&& id == network32(f.payload.id)
        &&& eth == reply(f, perf_opcode::PERF_RES_START)
        &&& carries(packet, eth, received)
        &&& after == before
    } else if op == perf_opcode::PERF_DATA.spec_code() {
        if s.pkt_count == u64::MAX {
            r == Err::<Action, Fault>(Fault::TooManyPackets) && after == before
        } else if s.total_bytes + counted_bytes(received) > u64::MAX {
            r == Err::<Action, Fault>(Fault::TooManyBytes) && after == before
        } else {
            &&& r == Ok::<Action, Fault>(Action::Counted)
            &&& after == (Server {
                stats: Statistics {
                    pkt_count: (s.pkt_count + 1) as u64,
                    total_bytes: (s.total_bytes + counted_bytes(received)) as u64,
                    last_id: network32(f.payload.id),
                    running: s.running,
                },
                open: false,
                ..before
            })
        }
    } else if op == perf_opcode::PERF_REQ_END.spec_code() {
        match clock {
            Err(e) => r == Err::<Action, Fault>(Fault::Clock(e)) && after == before,
            Ok(t) => {
                &&& r matches Ok(Action::Ended { id, eth, packet })
                &&& id == f.payload.id
                &&& eth == reply(f, perf_opcode::PERF_REQ_END)
                &&& carries(packet, eth, received)
                &&& after == (Server {
                    stats: Statistics { running: false, ..s },
                    tend: t,
                    open: false,
                    ..before
                })
            },
        }
    } else if op == perf_opcode::PERF_REQ_RESULT.spec_code() {
        &&& r matches Ok(Action::Answered { eth, packet })
        &&& eth == result_reply(f, before.tend.nanos() - before.tstart.nanos())
        &&& carries(packet, eth, before.size)
        &&& after == (Server { open: false, ..before })
    } else if perf_opcode::known(op) {
        &&& r matches Err(Fault::Unsupported(o))
        &&& o.spec_code() == op
        &&& after == before
    } else {
        r == Err::<Action, Fault>(Fault::UnknownOpcode(op)) && after == before
    }
}

impl Server {
    /// As long as the server takes frames, no measurement has been timed.
    pub open spec fn wf(self) -> bool {
        self.open ==> self.tstart == (TimeSpec { sec: 0, nsec: 0 }) && self.tend == (TimeSpec {
            sec: 0,
            nsec: 0,
        })
    }

    /// A server with a buffer of `size` bytes that has counted nothing.
    pub fn new(size: i32) -> (s: Server)
        ensures
            s.wf(),
            s.open,
            s.size == size,
            s.stats == (Statistics { pkt_count: 0, total_bytes: 0, last_id: 0, running: true }),
            s.tstart == (TimeSpec { sec: 0, nsec: 0 }),
            s.tend == (TimeSpec { sec: 0, nsec: 0 }),
    {
        Server {
            stats: Statistics::new(),
            size,
            tstart: TimeSpec::zero(),
            tend: TimeSpec::zero(),
            open: true,
        }
    }

    /// Counts a frame of data.
    fn count(&mut self, id: u32, received: i32) -> (r: Result<(), Fault>)
        ensures
            ({
                let s = old(self).stats;
                if s.pkt_count == u64::MAX {
                    r == Err::<(), Fault>(Fault::TooManyPackets) && *final(self) == *old(self)
                } else if s.total_bytes + counted_bytes(received) > u64::MAX {
                    r == Err::<(), Fault>(Fault::TooManyBytes) && *final(self) == *old(self)
                } else {
                    r is Ok && *final(self) == (Server {
                        stats: Statistics {
                            pkt_count: (s.pkt_count + 1) as u64,
                            total_bytes: (s.total_bytes + counted_bytes(received)) as u64,
                            last_id: id,
                            running: s.running,
                        },
                        ..*old(self)
                    })
                }
            }),
    {
        let grown: i64 = received as i64 + 4;
        let more: u64 = grown as u64;
        assert(grown < 0 ==> (grown as u64) == grown + 0x1_0000_0000_0000_0000) by (bit_vector);
        match self.stats.pkt_count.checked_add(1) {
            None => Err(Fault::TooManyPackets),
            Some(pkt_count) => match self.stats.total_bytes.checked_add(more) {
                None => Err(Fault::TooManyBytes),
                Some(total_bytes) => {
                    self.stats.pkt_count = pkt_count;
                    self.stats.total_bytes = total_bytes;
                    self.stats.last_id = id;
                    Ok(())
                },
            },
        }
    }

    /// Answers the frame `eth`. `received` is what came of receiving it: how many
    /// bytes, or a negative number. `clock` is what came of reading the clock; only
    /// a request to end looks at it.
    pub fn answer(
        &mut self,
        eth: MyEthernet,
        received: i32,
        clock: Result<TimeSpec, ClockError>,
    ) -> (r: Result<Action, Fault>)
        requires
            old(self).wf(),
            old(self).open,
        ensures
            final(self).wf(),
            answers(*old(self), eth, received, clock, *final(self), r),
    {
        let request = eth;
        let mut eth = eth;
        let id: u32 = socket::ntohl(eth.payload.id);
        proof {
            law_network_order_undoes_itself(eth.payload.id);
        }
        eth.dest = request.src;
        eth.src = request.dest;
        match perf_opcode::lookup(eth.payload.op) {
            None => Err(Fault::UnknownOpcode(eth.payload.op)),
            Some(perf_opcode::PERF_REQ_START) => {
                eth.payload.op = perf_opcode::PERF_RES_START.code();
                let packet = send_perf(id, &mut eth, received);
                Ok(Action::Started { id, eth, packet })
            },
            Some(perf_opcode::PERF_DATA) => match self.count(id, received) {
                Ok(()) => {
                    self.open = false;
                    Ok(Action::Counted)
                },
                Err(e) => Err(e),
            },
            Some(perf_opcode::PERF_REQ_END) => match clock {
                Ok(tend) => {
                    self.tend = tend;
                    self.stats.running = false;
                    self.open = false;
                    eth.payload.op = perf_opcode::PERF_REQ_END.code();
                    let packet = send_perf(id, &mut eth, received);
                    Ok(Action::Ended { id: request.payload.id, eth, packet })
                },
                Err(e) => Err(Fault::Clock(e)),
            },
            Some(perf_opcode::PERF_REQ_RESULT) => {
                let tdiff = tsn_timespecff_diff(&self.tstart, &self.tend).unwrap();
                eth.payload.op = perf_opcode::PERF_RES_RESULT.code();
                eth.payload.pkt_perf.pkt_perf_result.elapsed_sec = tdiff.sec;
                eth.payload.pkt_perf.pkt_perf_result.elapsed_nsec = tdiff.nsec;
                self.open = false;
                let packet = send_perf(id, &mut eth, self.size);
                Ok(Action::Answered { eth, packet })
            },
            Some(op) => Err(Fault::Unsupported(op)),
        }
    }

    /// One round of the server: answers the frame at the start of its buffer.
    /// `received` is what came of receiving into the buffer.
    pub fn serve(&mut self, pkt: &[u8], received: i32) -> (r: Result<Action, Fault>)
        requires
            old(self).wf(),
            old(self).open,
        ensures
            final(self).wf(),
            r == Err::<Action, Fault>(Fault::TooShort) <==> pkt@.len() < FRAME_LEN,
            pkt@.len() < FRAME_LEN ==> *final(self) == *old(self),
            pkt@.len() >= FRAME_LEN ==> exists|f: MyEthernet, clock: Result<TimeSpec, ClockError>|
                (f.payload.op == 0x01 ==> answered(clock)) && holds(pkt@, f) && #[trigger] answers(
                    *old(self),
                    f,
                    received,
                    clock,
                    *final(self),
                    r,
                ),
    {
        match decode(pkt) {
            Ok(eth) => {
                let clock = if eth.payload.op == perf_opcode::PERF_REQ_END.code() {
                    now()
                } else {
                    Ok(TimeSpec::zero())
                };
                let r = self.answer(eth, received, clock);
                assert(holds(pkt@, eth) && answers(*old(self), eth, received, clock, *self, r));
                r
            },
            Err(_) => Err(Fault::TooShort),
        }
    }
}

/// Law: a request that is answered ends the session, unless it is the request to
/// start; one that is not answered changes nothing.
pub proof fn law_only_a_start_keeps_the_session_open(
    before: Server,
    f: MyEthernet,
    received: i32,
    clock: Result<TimeSpec, ClockError>,
    after: Server,
    r: Result<Action, Fault>,
)
    requires
        before.open,
        answers(before, f, received, clock, after, r),
    ensures
        r is Ok ==> (after.open <==> f.payload.op == perf_opcode::PERF_REQ_START.spec_code()),
        r is Err ==> after == before,
{
}

/// Law: only a frame of data changes the counters, and it counts as one packet.
pub proof fn law_only_data_is_counted(
    before: Server,
    f: MyEthernet,
    received: i32,
    clock: Result<TimeSpec, ClockError>,
    after: Server,
    r: Result<Action, Fault>,
)
    requires
        answers(before, f, received, clock, after, r),
    ensures
        r == Ok::<Action, Fault>(Action::Counted) ==> {
            &&& f.payload.op == perf_opcode::PERF_DATA.spec_code()
            &&& after.stats.pkt_count == before.stats.pkt_count + 1
            &&& after.stats.total_bytes == before.stats.total_bytes + counted_bytes(received)
        },
        r != Ok::<Action, Fault>(Action::Counted) ==> {
            &&& after.stats.pkt_count == before.stats.pkt_count
            &&& after.stats.total_bytes == before.stats.total_bytes
            &&& after.stats.last_id == before.stats.last_id
        },
{
}

/// Law: an open server has timed nothing, so it answers a request for the result
/// with a span of no length.
pub proof fn law_an_open_server_reports_no_time(
    before: Server,
    f: MyEthernet,
    received: i32,
    clock: Result<TimeSpec, ClockError>,
    after: Server,
    r: Result<Action, Fault>,
)
    requires
        before.wf(),
        before.open,
        f.payload.op == perf_opcode::PERF_REQ_RESULT.spec_code(),
        answers(before, f, received, clock, after, r),
    ensures
        r->Ok_0->Answered_eth.payload.pkt_perf.pkt_perf_result.elapsed_sec == 0,
        r->Ok_0->Answered_eth.payload.pkt_perf.pkt_perf_result.elapsed_nsec == 0,
{
}

/// Law: an answer goes back to where the request came from. Its bytes are those
/// of the request, but for the two addresses, which change places, the EtherType
/// and the operation.
pub proof fn law_an_answer_returns_to_its_sender(
    request: Seq<u8>,
    f: MyEthernet,
    op: perf_opcode,
    answer: Seq<u8>,
)
    requires
        holds(request, f),
        holds(answer, reply(f, op)),
    ensures
        answer.subrange(0, 6) == request.subrange(6, 12),
        answer.subrange(6, 12) == request.subrange(0, 6),
        answer.subrange(14, 18) == request.subrange(14, 18),
        answer[18] == op.spec_code(),
        answer.subrange(19, 59) == request.subrange(19, 59),
{
    lemma_payload_bytes(answer, request, reply(f, op), f);
}

/// One round of a server: the frame, what came of receiving it and of reading the
/// clock, and what came of it all.
pub struct Round {
    pub frame: MyEthernet,
    pub received: i32,
    pub clock: Result<TimeSpec, ClockError>,
    pub outcome: Result<Action, Fault>,
}

impl Round {
    /// Whether the round is a request to start.
    pub open spec fn starts(self) -> bool {
        self.frame.payload.op == perf_opcode::PERF_REQ_START.spec_code()
    }

    /// Whether the round is a request to end or for the result that was met.
    pub open spec fn closes_with_an_answer(self) -> bool {
        self.outcome is Ok && (self.frame.payload.op == perf_opcode::PERF_REQ_END.spec_code()
            || self.frame.payload.op == perf_opcode::PERF_REQ_RESULT.spec_code())
    }

    /// Whether a packet is sent in answer.
    pub open spec fn sends(self) -> bool {
        self.outcome is Ok && self.outcome != Ok::<Action, Fault>(Action::Counted)
    }
}

/// Whether the rounds are a session that takes an open server through the states,
/// one more than there are rounds: it is open at each round, and each round before
/// the last is met.
pub open spec fn session(states: Seq<Server>, rounds: Seq<Round>) -> bool {
    &&& states.len() == rounds.len() + 1
    &&& forall|i: int|
        0 <= i < rounds.len() ==> states[i].open && answers(
            states[i],
            (#[trigger] rounds[i]).frame,
            rounds[i].received,
            rounds[i].clock,
            states[i + 1],
            rounds[i].outcome,
        )
    &&& forall|i: int| 0 <= i < rounds.len() - 1 ==> (#[trigger] rounds[i]).outcome is Ok
}

/// In how many rounds a packet is sent.
pub open spec fn sent(rounds: Seq<Round>) -> int
    decreases rounds.len(),
{
    if rounds.len() == 0 {
        0
    } else {
        sent(rounds.drop_last()) + if rounds.last().sends() {
            1int
        } else {
            0int
        }
    }
}

/// How many rounds are requests to start.
pub open spec fn started(rounds: Seq<Round>) -> int
    decreases rounds.len(),
{
    if rounds.len() == 0 {
        0
    } else {
        started(rounds.drop_last()) + if rounds.last().starts() {
            1int
        } else {
            0int
        }
    }
}

/// Law: in a session every frame but the last is a request to start, at most one
/// packet is counted, and one answer is sent for each request to start and one for
/// a request to end or for the result that is met.
pub proof fn law_of_a_session(states: Seq<Server>, rounds: Seq<Round>)
    requires
        session(states, rounds),
        rounds.len() > 0,
    ensures
        forall|i: int| 0 <= i < rounds.len() - 1 ==> (#[trigger] rounds[i]).starts(),
        states[0].stats.pkt_count <= states.last().stats.pkt_count <= states[0].stats.pkt_count + 1,
        sent(rounds) == started(rounds) + (if rounds.last().closes_with_an_answer() {
            1int
        } else {
            0int
        }),
{
    let n = rounds.len() - 1;
    let before = rounds.drop_last();
    assert forall|i: int| 0 <= i < n implies (#[trigger] rounds[i]).starts() && states[i + 1]
        == states[i] by {
        let next = rounds[i + 1];
        assert(answers(
            states[i + 1],
            next.frame,
            next.received,
            next.clock,
            states[i + 2],
            next.outcome,
        ));
    }
    lemma_starts_change_nothing(states.drop_last(), before);
    assert(states.drop_last().last() == states[n]);
    assert(rounds.last() == rounds[n]);
}

/// Requests to start leave the server as it is, and each is answered.
proof fn lemma_starts_change_nothing(states: Seq<Server>, rounds: Seq<Round>)
    requires
        session(states, rounds),
        forall|i: int| 0 <= i < rounds.len() ==> (#[trigger] rounds[i]).starts(),
    ensures
        states.last() == states[0],
        sent(rounds) == started(rounds) == rounds.len(),
    decreases rounds.len(),
{
    if rounds.len() > 0 {
        let n = rounds.len() - 1;
        let before = rounds.drop_last();
        assert forall|i: int| 0 <= i < before.len() implies states.drop_last()[i].open && answers(
            states.drop_last()[i],
            (#[trigger] before[i]).frame,
            before[i].received,
            before[i].clock,
            states.drop_last()[i + 1],
            before[i].outcome,
        ) by {
            assert(before[i] == rounds[i]);
        }
        assert forall|i: int| 0 <= i < before.len() implies (#[trigger] before[i]).starts()
            && before[i].outcome is Ok by {
            assert(before[i] == rounds[i]);
        }
        lemma_starts_change_nothing(states.drop_last(), before);
        assert(rounds.last() == rounds[n]);
    }
}

/// Law: a request to start (0x00) is always answered, with 0x20, and leaves the
/// server as it is. The answer exchanges the addresses, keeps the identifier and the
/// counters, has the protocol's EtherType, and is as long as what came.
pub proof fn law_of_a_start(
    before: Server,
    f: MyEthernet,
    received: i32,
    clock: Result<TimeSpec, ClockError>,
    after: Server,
    r: Result<Action, Fault>,
)
    requires
        answers(before, f, received, clock, after, r),
        f.payload.op == 0x00,
    ensures
        after == before,
        r is Ok && r->Ok_0 is Started,
        network32(r->Ok_0->Started_id) == f.payload.id,
        r->Ok_0->Started_eth.payload.op == 0x20,
        is_answer(r->Ok_0->Started_eth, f),
        r->Ok_0->Started_eth.payload.pkt_perf == f.payload.pkt_perf,
        holds(r->Ok_0->Started_packet.buffer@, r->Ok_0->Started_eth),
        r->Ok_0->Started_packet.buffer@.len() == 59,
        r->Ok_0->Started_packet.len == received,
{
    law_network_order_undoes_itself(f.payload.id);
}

/// Whether `eth` is sent back to where `f` came from: the addresses change places,
/// the identifier stays, and the EtherType is 0x1337 in the order of the network.
pub open spec fn is_answer(eth: MyEthernet, f: MyEthernet) -> bool {
    &&& eth.dest == f.src
    &&& eth.src == f.dest
    &&& eth.payload.id == f.payload.id
    &&& eth.ether_type == network16(0x1337)
}

/// Law: a frame of data (0x30) counts as one packet and as four bytes more than
/// came, whatever its length, and its identifier is kept; nothing else changes but
/// that the session ends. It is refused only where a counter would overflow.
pub proof fn law_of_data(
    before: Server,
    f: MyEthernet,
    received: i32,
    clock: Result<TimeSpec, ClockError>,
    after: Server,
    r: Result<Action, Fault>,
)
    requires
        answers(before, f, received, clock, after, r),
        f.payload.op == 0x30,
    ensures
        received >= -4 ==> (r is Ok <==> before.stats.pkt_count < 0xffff_ffff_ffff_ffff
            && before.stats.total_bytes + received + 4 <= 0xffff_ffff_ffff_ffff),
        received < -4 ==> (r is Ok <==> before.stats.pkt_count < 0xffff_ffff_ffff_ffff
            && before.stats.total_bytes + received + 4 < 0),
        r is Ok ==> {
            &&& r->Ok_0 is Counted
            &&& after.stats.pkt_count == before.stats.pkt_count + 1
            &&& received >= -4 ==> after.stats.total_bytes == before.stats.total_bytes + received
                + 4
            &&& received < -4 ==> after.stats.total_bytes == before.stats.total_bytes + received
                + 4 + 0x1_0000_0000_0000_0000
            &&& network32(after.stats.last_id) == f.payload.id
            &&& after.stats.running == before.stats.running
            &&& after.size == before.size
            &&& after.tstart == before.tstart
            &&& after.tend == before.tend
            &&& !after.open
        },
        r is Err ==> after == before && r->Err_0 == (if before.stats.pkt_count
            == 0xffff_ffff_ffff_ffff {
            Fault::TooManyPackets
        } else {
            Fault::TooManyBytes
        }),
{
    law_network_order_undoes_itself(f.payload.id);
}

/// Law: two servers with the same counters that take frames of different length
/// differ afterwards by just that in the bytes they have counted.
pub proof fn law_bytes_follow_the_length(
    before: Server,
    f: MyEthernet,
    g: MyEthernet,
    received_f: i32,
    received_g: i32,
    clock: Result<TimeSpec, ClockError>,
    after_f: Server,
    after_g: Server,
    r_f: Result<Action, Fault>,
    r_g: Result<Action, Fault>,
)
    requires
        answers(before, f, received_f, clock, after_f, r_f),
        answers(before, g, received_g, clock, after_g, r_g),
        r_f == Ok::<Action, Fault>(Action::Counted),
        r_g == Ok::<Action, Fault>(Action::Counted),
        received_f >= -4 && received_g >= -4,
    ensures
        after_f.stats.total_bytes - after_g.stats.total_bytes == received_f - received_g,
        after_f.stats.pkt_count == after_g.stats.pkt_count,
{
}

/// Law: a request to end (0x01) is met whenever the clock could be read, whatever
/// came and however much of it. The counting is over then, the time is noted, the
/// session ends, and nothing else changes. The answer has 0x01 again and is as long
/// as what came.
pub proof fn law_of_an_end(
    before: Server,
    f: MyEthernet,
    received: i32,
    clock: Result<TimeSpec, ClockError>,
    after: Server,
    r: Result<Action, Fault>,
)
    requires
        answers(before, f, received, clock, after, r),
        f.payload.op == 0x01,
    ensures
        r is Ok <==> clock is Ok,
        clock matches Err(e) ==> r == Err::<Action, Fault>(Fault::Clock(e)) && after == before,
        clock is Ok ==> {
            &&& !after.stats.running
            &&& after.stats.pkt_count == before.stats.pkt_count
            &&& after.stats.total_bytes == before.stats.total_bytes
            &&& after.stats.last_id == before.stats.last_id
            &&& Ok::<TimeSpec, ClockError>(after.tend) == clock
            &&& after.tstart == before.tstart
            &&& after.size == before.size
            &&& !after.open
            &&& r->Ok_0 is Ended
            &&& r->Ok_0->Ended_id == f.payload.id
            &&& r->Ok_0->Ended_eth.payload.op == 0x01
            &&& is_answer(r->Ok_0->Ended_eth, f)
            &&& r->Ok_0->Ended_eth.payload.pkt_perf == f.payload.pkt_perf
            &&& holds(r->Ok_0->Ended_packet.buffer@, r->Ok_0->Ended_eth)
            &&& r->Ok_0->Ended_packet.buffer@.len() == 59
            &&& r->Ok_0->Ended_packet.len == received
        },
{
}

/// Law: the counting stops with a request to end that is met, and with nothing else;
/// once stopped it does not start again.
pub proof fn law_only_an_end_stops_the_counting(
    before: Server,
    f: MyEthernet,
    received: i32,
    clock: Result<TimeSpec, ClockError>,
    after: Server,
    r: Result<Action, Fault>,
)
    requires
        answers(before, f, received, clock, after, r),
    ensures
        after.stats.running <==> before.stats.running && !(f.payload.op == 0x01 && r is Ok),
{
}

/// Law: a request for the result (0x40) is always answered, with 0x41, and ends the
/// session. The answer carries the time from the start to the end of the measurement,
/// keeps the other counters, and is as long as the buffer.
pub proof fn law_of_a_result(
    before: Server,
    f: MyEthernet,
    received: i32,
    clock: Result<TimeSpec, ClockError>,
    after: Server,
    r: Result<Action, Fault>,
)
    requires
        answers(before, f, received, clock, after, r),
        f.payload.op == 0x40,
        i64::MIN <= (before.tend.nanos() - before.tstart.nanos()) / 1_000_000_000 <= i64::MAX,
    ensures
        r is Ok && r->Ok_0 is Answered,
        r->Ok_0->Answered_eth.payload.op == 0x41,
        is_answer(r->Ok_0->Answered_eth, f),
        ({
            let old_perf = f.payload.pkt_perf;
            let new_perf = r->Ok_0->Answered_eth.payload.pkt_perf;
            let result = new_perf.pkt_perf_result;
            &&& result.elapsed_sec * 1_000_000_000 + result.elapsed_nsec == (before.tend.sec
                - before.tstart.sec) * 1_000_000_000 + before.tend.nsec - before.tstart.nsec
            &&& 0 <= result.elapsed_nsec <= 999_999_999
            &&& new_perf.pkt_count == old_perf.pkt_count
            &&& result.pkt_count == old_perf.pkt_perf_result.pkt_count
            &&& result.pkt_size == old_perf.pkt_perf_result.pkt_size
        }),
        holds(r->Ok_0->Answered_packet.buffer@, r->Ok_0->Answered_eth),
        r->Ok_0->Answered_packet.buffer@.len() == 59,
        r->Ok_0->Answered_packet.len == before.size,
        after.stats == before.stats,
        after.tstart == before.tstart,
        after.tend == before.tend,
        after.size == before.size,
        !after.open,
{
}

/// Law: every other frame is refused, by the name of its operation if it has one and
/// by its byte if not, and leaves the server as it is.
pub proof fn law_of_other_frames(
    before: Server,
    f: MyEthernet,
    received: i32,
    clock: Result<TimeSpec, ClockError>,
    after: Server,
    r: Result<Action, Fault>,
)
    requires
        answers(before, f, received, clock, after, r),
        f.payload.op != 0x00 && f.payload.op != 0x01 && f.payload.op != 0x30 && f.payload.op
            != 0x40,
    ensures
        after == before,
        r is Err,
        r->Err_0 == (if f.payload.op == 0x20 {
            Fault::Unsupported(perf_opcode::PERF_RES_START)
        } else if f.payload.op == 0x21 {
            Fault::Unsupported(perf_opcode::PERF_RES_END)
        } else if f.payload.op == 0x41 {
            Fault::Unsupported(perf_opcode::PERF_RES_RESULT)
        } else {
            Fault::UnknownOpcode(f.payload.op)
        }),
{
    law_the_codes(perf_opcode::PERF_DATA, f.payload.op);
}

} // verus!
