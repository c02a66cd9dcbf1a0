//! Constants of the netlink / connector wire format, and the length
//! arithmetic that the framing rules are stated over.

use vstd::prelude::*;

verus! {

/// Byte size of the outer message header: length (4), type (2), flags (2),
/// sequence (4), source identifier (4).
pub const NLMSG_HDR_SIZE: usize = 16;

/// Byte size of the connector envelope: group index (4), group value (4),
/// sequence (4), ack (4), payload length (2), flags (2).
pub const CN_MSG_SIZE: usize = 20;

/// Outer header type tag: no-op, skipped by the consumer.
pub const NLMSG_NOOP: u16 = 1;

/// Outer header type tag: kernel-reported delivery error, skipped by the
/// consumer.
pub const NLMSG_ERROR: u16 = 2;

/// Outer header type tag: end-of-batch marker; the consumer stops here.
pub const NLMSG_DONE: u16 = 3;

/// Connector group class index of the process-event multicast group.
pub const CN_IDX_PROC: u32 = 1;

/// Connector group value of the process-event multicast group.
pub const CN_VAL_PROC: u32 = 1;

/// One-byte operation code meaning "begin multicast listen".
pub const PROC_CN_MCAST_LISTEN: u8 = 1;

/// Byte size of the fixed front of a process-event payload: discriminant (4),
/// cpu (4), timestamp (8). The per-kind body follows it.
pub const PROC_EVENT_HDR_SIZE: usize = 16;

/// Process-event discriminant: a process forked.
pub const PROC_EVENT_FORK: u32 = 0x1;

/// Process-event discriminant: a process called exec.
pub const PROC_EVENT_EXEC: u32 = 0x2;

/// Process-event discriminant: a process dumped core.
pub const PROC_EVENT_COREDUMP: u32 = 0x40000000;

/// Process-event discriminant: a process exited.
pub const PROC_EVENT_EXIT: u32 = 0x80000000;

/// `len` rounded up to the next multiple of 4, the alignment unit of the
/// wire format.
pub open spec fn spec_align4(len: int) -> int {
    ((len + 3) / 4) * 4
}

pub proof fn lemma_align4_bounds(len: int)
    requires
        0 <= len,
    ensures
        len <= spec_align4(len) < len + 4,
        spec_align4(len) % 4 == 0,
{
}

/// Rounds a length up to the wire format's 4-byte alignment unit.
pub fn nlmsg_align(len: usize) -> (r: usize)
    requires
        len + 3 <= usize::MAX,
    ensures
        r == spec_align4(len as int),
{
    ((len + 3) / 4) * 4
}

/// Byte size of the outer message header, rounded up to the alignment unit
/// (it is already a multiple of 4).
pub fn nlmsg_hdrlen() -> (r: usize)
    ensures
        r == NLMSG_HDR_SIZE,
        r == spec_align4(NLMSG_HDR_SIZE as int),
{
    ((NLMSG_HDR_SIZE + 3) / 4) * 4
}

/// Total declared length of a message whose payload takes `len` bytes: the
/// payload plus the aligned header in front of it.
pub fn nlmsg_length(len: usize) -> (r: usize)
    requires
        len + NLMSG_HDR_SIZE <= usize::MAX,
    ensures
        r == len + NLMSG_HDR_SIZE,
{
    len + nlmsg_hdrlen()
}

} // verus!
