//! The operations that a frame can ask for or answer.

use vstd::prelude::*;

verus! {

/// What a frame of the protocol is for.
#[allow(non_camel_case_types)]
#[derive(Clone, Copy, Debug, PartialEq, Eq, Structural)]
pub enum perf_opcode {
    PERF_REQ_START,
    PERF_REQ_END,
    PERF_RES_START,
    PERF_RES_END,
    PERF_DATA,
    PERF_REQ_RESULT,
    PERF_RES_RESULT,
}

impl perf_opcode {
    /// The byte that stands for the operation in a frame.
    pub open spec fn spec_code(self) -> u8 {
        match self {
            perf_opcode::PERF_REQ_START => 0x00,
            perf_opcode::PERF_REQ_END => 0x01,
            perf_opcode::PERF_RES_START => 0x20,
            perf_opcode::PERF_RES_END => 0x21,
            perf_opcode::PERF_DATA => 0x30,
            perf_opcode::PERF_REQ_RESULT => 0x40,
            perf_opcode::PERF_RES_RESULT => 0x41,
        }
    }

    /// Whether a byte stands for some operation.
    pub open spec fn known(value: u8) -> bool {
        exists|op: perf_opcode| #[trigger] op.spec_code() == value
    }

    /// The byte that stands for this operation.
    #[verifier::when_used_as_spec(spec_code)]
    pub fn code(self) -> (value: u8)
        ensures
            value == self.spec_code(),
    {
        match self {
            perf_opcode::PERF_REQ_START => 0x00,
            perf_opcode::PERF_REQ_END => 0x01,
            perf_opcode::PERF_RES_START => 0x20,
            perf_opcode::PERF_RES_END => 0x21,
            perf_opcode::PERF_DATA => 0x30,
            perf_opcode::PERF_REQ_RESULT => 0x40,
            perf_opcode::PERF_RES_RESULT => 0x41,
        }
    }

    /// The operation that a byte stands for, if it stands for one.
    pub fn lookup(value: u8) -> (op: Option<perf_opcode>)
        ensures
            op is Some <==> perf_opcode::known(value),
            op matches Some(o) ==> o.spec_code() == value,
    {
        let op = match value {
            0x00 => Some(perf_opcode::PERF_REQ_START),
            0x01 => Some(perf_opcode::PERF_REQ_END),
            0x20 => Some(perf_opcode::PERF_RES_START),
            0x21 => Some(perf_opcode::PERF_RES_END),
            0x30 => Some(perf_opcode::PERF_DATA),
            0x40 => Some(perf_opcode::PERF_REQ_RESULT),
            0x41 => Some(perf_opcode::PERF_RES_RESULT),
            _ => None,
        };
        proof {
            if let Some(o) = op {
                assert(o.spec_code() == value);
            }
        }
        op
    }

    /// The operation that a byte of the protocol stands for.
    pub fn from(value: u8) -> (op: perf_opcode)
        requires
            perf_opcode::known(value),
        ensures
            op.spec_code() == value,
    {
        perf_opcode::lookup(value).unwrap()
    }
}

/// Law: no two operations share a byte, so a byte names at most one operation.
pub proof fn law_codes_are_distinct(a: perf_opcode, b: perf_opcode)
    ensures
        a.spec_code() == b.spec_code() <==> a == b,
{
}

/// Law: requests have the codes 0x00, 0x01 and 0x40, the answers to them 0x20 more
/// or, for the result, one more, and data has 0x30; no other byte is an operation.
pub proof fn law_the_codes(op: perf_opcode, value: u8)
    ensures
        op.spec_code() == 0x00 <==> op is PERF_REQ_START,
        op.spec_code() == 0x01 <==> op is PERF_REQ_END,
        op.spec_code() == 0x20 <==> op is PERF_RES_START,
        op.spec_code() == 0x21 <==> op is PERF_RES_END,
        op.spec_code() == 0x30 <==> op is PERF_DATA,
        op.spec_code() == 0x40 <==> op is PERF_REQ_RESULT,
        op.spec_code() == 0x41 <==> op is PERF_RES_RESULT,
        perf_opcode::known(value) <==> (value == 0x00 || value == 0x01 || value == 0x20 || value
            == 0x21 || value == 0x30 || value == 0x40 || value == 0x41),
{
    assert(perf_opcode::PERF_REQ_START.spec_code() == 0x00);
    assert(perf_opcode::PERF_REQ_END.spec_code() == 0x01);
    assert(perf_opcode::PERF_RES_START.spec_code() == 0x20);
    assert(perf_opcode::PERF_RES_END.spec_code() == 0x21);
    assert(perf_opcode::PERF_DATA.spec_code() == 0x30);
    assert(perf_opcode::PERF_REQ_RESULT.spec_code() == 0x40);
    assert(perf_opcode::PERF_RES_RESULT.spec_code() == 0x41);
}

} // verus!
