//! Building the subscription request: the exact three segments that tell
//! the kernel to start multicasting process events to this listener. The
//! caller hands them to the socket as one gather-write.

use vstd::prelude::*;

use crate::bytes::{
    lemma_u32_le_roundtrip, push_u16_le, push_u32_le, u16_le_bytes, u32_le_at, u32_le_bytes,
};
use crate::wire::{
    spec_align4, CN_IDX_PROC, CN_MSG_SIZE, CN_VAL_PROC, NLMSG_DONE, NLMSG_HDR_SIZE,
    PROC_CN_MCAST_LISTEN,
};

verus! {

/// The three segments of one subscription request, in send order.
pub struct ListenRequest {
    /// The outer message header: total declared length, a "done" type tag,
    /// and the listener's identifier as source.
    pub header: Vec<u8>,
    /// The connector envelope addressed to the process-event group, with a
    /// one-byte payload declared.
    pub envelope: Vec<u8>,
    /// The one-byte "begin multicast listen" operation code.
    pub op: Vec<u8>,
}

/// Total declared length of the request: aligned header, envelope, one
/// operation byte.
pub open spec fn listen_total_len() -> int {
    spec_align4(NLMSG_HDR_SIZE as int) + CN_MSG_SIZE + 1
}

/// The outer header bytes of the request sent by listener `identifier`.
pub open spec fn listen_header_bytes(identifier: u32) -> Seq<u8> {
    u32_le_bytes(listen_total_len() as u32) + u16_le_bytes(NLMSG_DONE) + u16_le_bytes(0)
        + u32_le_bytes(0) + u32_le_bytes(identifier)
}

/// The connector envelope bytes of the request: the process-event group
/// identity, zero sequence and ack, and a one-byte payload declared.
pub open spec fn listen_envelope_bytes() -> Seq<u8> {
    u32_le_bytes(CN_IDX_PROC) + u32_le_bytes(CN_VAL_PROC) + u32_le_bytes(0) + u32_le_bytes(0)
        + u16_le_bytes(1) + u16_le_bytes(0)
}

/// The one-byte operation segment of the request.
pub open spec fn listen_op_bytes() -> Seq<u8> {
    seq![PROC_CN_MCAST_LISTEN]
}

/// Builds the subscription request for listener `identifier`: the exact
/// bytes of `listen_header_bytes`, `listen_envelope_bytes` and
/// `listen_op_bytes`.
pub fn build_listen_request(identifier: u32) -> (req: ListenRequest)
    ensures
        req.header@ == listen_header_bytes(identifier),
        req.envelope@ == listen_envelope_bytes(),
        req.op@ == listen_op_bytes(),
{
    let mut header: Vec<u8> = Vec::new();
    push_u32_le(&mut header, (NLMSG_HDR_SIZE + CN_MSG_SIZE + 1) as u32);
    push_u16_le(&mut header, NLMSG_DONE);
    push_u16_le(&mut header, 0);
    push_u32_le(&mut header, 0);
    push_u32_le(&mut header, identifier);
    let mut envelope: Vec<u8> = Vec::new();
    push_u32_le(&mut envelope, CN_IDX_PROC);
    push_u32_le(&mut envelope, CN_VAL_PROC);
    push_u32_le(&mut envelope, 0);
    push_u32_le(&mut envelope, 0);
    push_u16_le(&mut envelope, 1);
    push_u16_le(&mut envelope, 0);
    let mut op: Vec<u8> = Vec::new();
    op.push(PROC_CN_MCAST_LISTEN);
    proof {
        assert(header@ =~= listen_header_bytes(identifier));
        assert(envelope@ =~= listen_envelope_bytes());
        assert(op@ =~= listen_op_bytes());
    }
    ListenRequest { header, envelope, op }
}

/// For every listener identifier, the subscription request's total encoded
/// length is the aligned header size plus the envelope size plus one, the
/// header's declared-length field says exactly that, and its source tag is
/// the identifier.
pub proof fn lemma_listen_request_well_formed(identifier: u32)
    ensures
        listen_header_bytes(identifier).len() + listen_envelope_bytes().len()
            + listen_op_bytes().len() == listen_total_len(),
        listen_total_len() == spec_align4(NLMSG_HDR_SIZE as int) + CN_MSG_SIZE + 1,
        u32_le_at(listen_header_bytes(identifier), 0) == listen_total_len(),
        u32_le_at(listen_header_bytes(identifier), 12) == identifier,
{
    let h = listen_header_bytes(identifier);
    lemma_u32_le_roundtrip(listen_total_len() as u32);
    assert(u32_le_at(h, 0) == u32_le_at(u32_le_bytes(listen_total_len() as u32), 0)) by {
        crate::bytes::lemma_u32_le_at_eq(h, u32_le_bytes(listen_total_len() as u32), 0, 0);
    }
    lemma_u32_le_roundtrip(identifier);
    assert(u32_le_at(h, 12) == u32_le_at(u32_le_bytes(identifier), 0)) by {
        crate::bytes::lemma_u32_le_at_eq(h, u32_le_bytes(identifier), 12, 0);
    }
}

} // verus!
