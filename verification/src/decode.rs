//! Decoding one data-carrying sub-message into an application event: the
//! payload starts with a connector envelope naming a multicast group; only
//! the process-event group is decoded further, and its payload's
//! discriminant picks the event kind. Every read is bounds-checked first;
//! anything short, foreign or unknown decodes to nothing.

use vstd::prelude::*;

use crate::bytes::{read_u32_le, u32_le_at};
use crate::framing::SubMessage;
use crate::wire::{
    CN_IDX_PROC, CN_MSG_SIZE, CN_VAL_PROC, PROC_EVENT_COREDUMP, PROC_EVENT_EXEC, PROC_EVENT_EXIT,
    PROC_EVENT_FORK, PROC_EVENT_HDR_SIZE,
};

verus! {

/// The classification of one kernel process event.
#[derive(Clone, Copy, PartialEq, Eq, Structural, Debug)]
pub enum PidEvent {
    /// A process appeared: the kernel reported a fork or an exec.
    New(i32),
    /// A process disappeared: the kernel reported an exit or a coredump.
    Exit(i32),
}

/// Offset, inside a sub-message payload, of the process-event discriminant:
/// the connector envelope lies in front of it.
pub open spec fn what_offset() -> int {
    CN_MSG_SIZE as int
}

/// Offset, inside a sub-message payload, of the event's per-kind body: the
/// envelope, then the fixed front of the process-event payload.
pub open spec fn body_offset() -> int {
    CN_MSG_SIZE + PROC_EVENT_HDR_SIZE
}

/// The event, if any, that a sub-message payload decodes to.
///
/// Nothing comes out when the payload is too short for the envelope, when
/// the envelope's group identity is not the process-event group, when the
/// payload is too short for the field the discriminant calls for, or when
/// the discriminant is unknown. A fork's subject is the child process; the
/// other kinds name their subject first in the body.
pub open spec fn decode_spec(p: Seq<u8>) -> Option<PidEvent> {
    if p.len() < CN_MSG_SIZE + 4 {
        Option::None
    } else if u32_le_at(p, 0) != CN_IDX_PROC || u32_le_at(p, 4) != CN_VAL_PROC {
        Option::None
    } else {
        let what = u32_le_at(p, what_offset());
        if what == PROC_EVENT_FORK {
            if p.len() < body_offset() + 12 {
                Option::None
            } else {
                Option::Some(PidEvent::New(u32_le_at(p, body_offset() + 8) as i32))
            }
        } else if what == PROC_EVENT_EXEC {
            if p.len() < body_offset() + 4 {
                Option::None
            } else {
                Option::Some(PidEvent::New(u32_le_at(p, body_offset()) as i32))
            }
        } else if what == PROC_EVENT_EXIT || what == PROC_EVENT_COREDUMP {
            if p.len() < body_offset() + 4 {
                Option::None
            } else {
                Option::Some(PidEvent::Exit(u32_le_at(p, body_offset()) as i32))
            }
        } else {
            Option::None
        }
    }
}

/// Decodes one framed sub-message, exactly as `decode_spec` reads its
/// payload bytes.
pub fn decode(sub: &SubMessage) -> (r: Option<PidEvent>)
    ensures
        r == decode_spec(sub@.payload),
{
    let p = &sub.payload;
    let n: usize = p.len();
    if n < CN_MSG_SIZE + 4 {
        return None;
    }
    if read_u32_le(p, 0) != CN_IDX_PROC || read_u32_le(p, 4) != CN_VAL_PROC {
        return None;
    }
    let what = read_u32_le(p, CN_MSG_SIZE);
    let body = CN_MSG_SIZE + PROC_EVENT_HDR_SIZE;
    if what == PROC_EVENT_FORK {
        if n < body + 12 {
            None
        } else {
            Some(PidEvent::New(read_u32_le(p, body + 8) as i32))
        }
    } else if what == PROC_EVENT_EXEC {
        if n < body + 4 {
            None
        } else {
            Some(PidEvent::New(read_u32_le(p, body) as i32))
        }
    } else if what == PROC_EVENT_EXIT || what == PROC_EVENT_COREDUMP {
        if n < body + 4 {
            None
        } else {
            Some(PidEvent::Exit(read_u32_le(p, body) as i32))
        }
    } else {
        None
    }
}

/// Group filtering: a sub-message whose envelope names any group identity
/// other than the process-event group decodes to nothing, whatever the rest
/// of the payload holds.
pub proof fn lemma_decode_foreign_group(p: Seq<u8>)
    requires
        u32_le_at(p, 0) != CN_IDX_PROC || u32_le_at(p, 4) != CN_VAL_PROC,
    ensures
        decode_spec(p) == Option::<PidEvent>::None,
{
}

/// Classification: on a payload addressed to the process-event group and
/// long enough for the field its discriminant calls for, fork and exec
/// decode to `New`, exit and coredump to `Exit`, each carrying the subject
/// process identifier read from the payload bytes.
pub proof fn lemma_decode_classification(p: Seq<u8>)
    requires
        CN_MSG_SIZE + 4 <= p.len(),
        u32_le_at(p, 0) == CN_IDX_PROC,
        u32_le_at(p, 4) == CN_VAL_PROC,
    ensures
        u32_le_at(p, what_offset()) == PROC_EVENT_FORK && body_offset() + 12 <= p.len()
            ==> decode_spec(p) == Option::Some(
            PidEvent::New(u32_le_at(p, body_offset() + 8) as i32),
        ),
        u32_le_at(p, what_offset()) == PROC_EVENT_EXEC && body_offset() + 4 <= p.len()
            ==> decode_spec(p) == Option::Some(PidEvent::New(u32_le_at(p, body_offset()) as i32)),
        u32_le_at(p, what_offset()) == PROC_EVENT_EXIT && body_offset() + 4 <= p.len()
            ==> decode_spec(p) == Option::Some(PidEvent::Exit(u32_le_at(p, body_offset()) as i32)),
        u32_le_at(p, what_offset()) == PROC_EVENT_COREDUMP && body_offset() + 4 <= p.len()
            ==> decode_spec(p) == Option::Some(PidEvent::Exit(u32_le_at(p, body_offset()) as i32)),
{
}

} // verus!
