use pidmon::decode::{decode, PidEvent};
use pidmon::framing::{frame, NlHeader, SubMessage};
use pidmon::listen::build_listen_request;
use pidmon::monitor::events_from_datagram;
use pidmon::wire::{nlmsg_align, nlmsg_hdrlen, nlmsg_length};

fn push_u32(v: &mut Vec<u8>, x: u32) {
    v.extend_from_slice(&x.to_le_bytes());
}

fn push_u16(v: &mut Vec<u8>, x: u16) {
    v.extend_from_slice(&x.to_le_bytes());
}

/// A connector envelope for the given group identity, followed by a
/// process-event payload with the given discriminant and body.
fn connector_payload(idx: u32, val: u32, what: u32, body: &[u8]) -> Vec<u8> {
    let mut p = Vec::new();
    push_u32(&mut p, idx);
    push_u32(&mut p, val);
    push_u32(&mut p, 0);
    push_u32(&mut p, 0);
    push_u16(&mut p, (16 + body.len()) as u16);
    push_u16(&mut p, 0);
    push_u32(&mut p, what);
    push_u32(&mut p, 0);
    push_u32(&mut p, 0);
    push_u32(&mut p, 0);
    p.extend_from_slice(body);
    p
}

/// One whole sub-message: header with the declared length, then the
/// payload, padded with zeros to the 4-byte alignment unit.
fn sub_message_bytes(msg_type: u16, payload: &[u8]) -> Vec<u8> {
    let len = 16 + payload.len();
    let mut m = Vec::new();
    push_u32(&mut m, len as u32);
    push_u16(&mut m, msg_type);
    push_u16(&mut m, 0);
    push_u32(&mut m, 0);
    push_u32(&mut m, 0);
    m.extend_from_slice(payload);
    while m.len() % 4 != 0 {
        m.push(0);
    }
    m
}

fn sub_message_value(msg_type: u16, payload: &[u8]) -> SubMessage {
    SubMessage {
        header: NlHeader {
            len: (16 + payload.len()) as u32,
            msg_type,
            flags: 0,
            sequence: 0,
            pid: 0,
        },
        payload: payload.to_vec(),
    }
}

#[test]
fn it_works() {}

#[test]
fn align_helpers() {
    assert_eq!(nlmsg_align(0), 0);
    assert_eq!(nlmsg_align(1), 4);
    assert_eq!(nlmsg_align(17), 20);
    assert_eq!(nlmsg_align(20), 20);
    assert_eq!(nlmsg_hdrlen(), 16);
    assert_eq!(nlmsg_length(21), 37);
}

#[test]
fn listen_request_layout() {
    let req = build_listen_request(0xdead_beef);
    assert_eq!(req.header.len() + req.envelope.len() + req.op.len(), 16 + 20 + 1);
    assert_eq!(&req.header[0..4], &37u32.to_le_bytes());
    assert_eq!(&req.header[4..6], &3u16.to_le_bytes());
    assert_eq!(&req.header[6..8], &0u16.to_le_bytes());
    assert_eq!(&req.header[8..12], &0u32.to_le_bytes());
    assert_eq!(&req.header[12..16], &0xdead_beefu32.to_le_bytes());
    let mut envelope = Vec::new();
    push_u32(&mut envelope, 1);
    push_u32(&mut envelope, 1);
    push_u32(&mut envelope, 0);
    push_u32(&mut envelope, 0);
    push_u16(&mut envelope, 1);
    push_u16(&mut envelope, 0);
    assert_eq!(req.envelope, envelope);
    assert_eq!(req.op, vec![1u8]);
}

#[test]
fn frame_two_messages_round_trip() {
    let first = sub_message_bytes(0, &[10, 11, 12, 13, 14]);
    let second = sub_message_bytes(0, &[20, 21]);
    let mut buffer = first.clone();
    buffer.extend_from_slice(&second);
    let subs = frame(&buffer);
    assert_eq!(subs.len(), 2);
    assert_eq!(subs[0].header.len, 21);
    assert_eq!(subs[0].payload, vec![10, 11, 12, 13, 14]);
    assert_eq!(subs[1].header.len, 18);
    assert_eq!(subs[1].payload, vec![20, 21]);
    // The yielded views hold the exact input bytes: re-encoding them gives
    // the buffer back.
    let mut rebuilt = Vec::new();
    for sub in &subs {
        rebuilt.extend_from_slice(&sub_message_bytes(sub.header.msg_type, &sub.payload));
    }
    assert_eq!(rebuilt, buffer);
}

#[test]
fn frame_truncated_last_message() {
    let first = sub_message_bytes(0, &[1, 2, 3]);
    let mut buffer = first.clone();
    // A second header that declares 64 bytes, of which only the header and
    // four payload bytes were actually received.
    push_u32(&mut buffer, 64);
    push_u16(&mut buffer, 0);
    push_u16(&mut buffer, 0);
    push_u32(&mut buffer, 0);
    push_u32(&mut buffer, 0);
    buffer.extend_from_slice(&[9, 9, 9, 9]);
    let subs = frame(&buffer);
    assert_eq!(subs.len(), 1);
    assert_eq!(subs[0].payload, vec![1, 2, 3]);
}

#[test]
fn frame_undersized_declared_length() {
    // A header that declares fewer bytes than a header takes: the framer
    // stops cleanly instead of yielding a malformed view.
    let mut buffer = Vec::new();
    push_u32(&mut buffer, 8);
    push_u16(&mut buffer, 0);
    push_u16(&mut buffer, 0);
    push_u32(&mut buffer, 0);
    push_u32(&mut buffer, 0);
    assert_eq!(frame(&buffer).len(), 0);
}

#[test]
fn decode_keeps_all_pid_bits() {
    let payload = connector_payload(1, 1, 0x2, &[0xff, 0xff, 0xff, 0xff, 0, 0, 0, 0]);
    assert_eq!(decode(&sub_message_value(0, &payload)), Some(PidEvent::New(-1)));
}

#[test]
fn frame_empty_buffer() {
    let buffer: Vec<u8> = Vec::new();
    assert_eq!(frame(&buffer).len(), 0);
    assert_eq!(events_from_datagram(&buffer).len(), 0);
}

#[test]
fn events_stop_at_done() {
    let fork_a = connector_payload(1, 1, 0x1, &[0, 0, 0, 0, 0, 0, 0, 0, 77, 0, 0, 0, 0, 0, 0, 0]);
    let fork_b = connector_payload(1, 1, 0x1, &[0, 0, 0, 0, 0, 0, 0, 0, 88, 0, 0, 0, 0, 0, 0, 0]);
    let mut buffer = sub_message_bytes(0, &fork_a);
    buffer.extend_from_slice(&sub_message_bytes(3, &[]));
    buffer.extend_from_slice(&sub_message_bytes(0, &fork_b));
    // The framer is type-agnostic and sees all three; the consumer stops at
    // the end-of-batch marker.
    assert_eq!(frame(&buffer).len(), 3);
    let events = events_from_datagram(&buffer);
    assert_eq!(events, vec![PidEvent::New(77)]);
}

#[test]
fn events_skip_noop_and_error() {
    let exit = connector_payload(1, 1, 0x80000000, &[55, 0, 0, 0, 0, 0, 0, 0]);
    let mut buffer = sub_message_bytes(1, &[1, 2, 3, 4]);
    buffer.extend_from_slice(&sub_message_bytes(2, &[5, 6, 7, 8]));
    buffer.extend_from_slice(&sub_message_bytes(0, &exit));
    let events = events_from_datagram(&buffer);
    assert_eq!(events, vec![PidEvent::Exit(55)]);
}

#[test]
fn decode_foreign_group_yields_nothing() {
    let foreign = connector_payload(2, 1, 0x1, &[0; 16]);
    assert_eq!(decode(&sub_message_value(0, &foreign)), None);
    let foreign_val = connector_payload(1, 7, 0x1, &[0; 16]);
    assert_eq!(decode(&sub_message_value(0, &foreign_val)), None);
}

#[test]
fn decode_short_payload_yields_nothing() {
    assert_eq!(decode(&sub_message_value(0, &[1, 0, 0, 0, 1, 0, 0, 0])), None);
    // Envelope and discriminant present, but the body the discriminant
    // calls for is missing.
    let short = connector_payload(1, 1, 0x1, &[]);
    assert_eq!(decode(&sub_message_value(0, &short)), None);
}

#[test]
fn decode_fork_is_new_child() {
    // Fork body: parent pid/tgid, then the child pid, the subject.
    let body = [9, 0, 0, 0, 9, 0, 0, 0, 0x12, 0x34, 0, 0, 0x12, 0x34, 0, 0];
    let payload = connector_payload(1, 1, 0x1, &body);
    assert_eq!(decode(&sub_message_value(0, &payload)), Some(PidEvent::New(0x3412)));
}

#[test]
fn decode_exec_is_new() {
    let payload = connector_payload(1, 1, 0x2, &[42, 0, 0, 0, 42, 0, 0, 0]);
    assert_eq!(decode(&sub_message_value(0, &payload)), Some(PidEvent::New(42)));
}

#[test]
fn decode_exit_is_exit() {
    let payload = connector_payload(1, 1, 0x80000000, &[43, 0, 0, 0, 43, 0, 0, 0]);
    assert_eq!(decode(&sub_message_value(0, &payload)), Some(PidEvent::Exit(43)));
}

#[test]
fn decode_coredump_is_exit() {
    let payload = connector_payload(1, 1, 0x40000000, &[44, 0, 0, 0, 44, 0, 0, 0]);
    assert_eq!(decode(&sub_message_value(0, &payload)), Some(PidEvent::Exit(44)));
}

#[test]
fn decode_unknown_discriminant_yields_nothing() {
    let payload = connector_payload(1, 1, 0x200, &[44, 0, 0, 0]);
    assert_eq!(decode(&sub_message_value(0, &payload)), None);
}

#[test]
fn end_to_end_fork_datagram() {
    let body_pid = 4242u32;
    let mut body = Vec::new();
    push_u32(&mut body, 1000);
    push_u32(&mut body, 1000);
    push_u32(&mut body, body_pid);
    push_u32(&mut body, body_pid);
    let payload = connector_payload(1, 1, 0x1, &body);
    let buffer = sub_message_bytes(0, &payload);
    let events = events_from_datagram(&buffer);
    assert_eq!(events, vec![PidEvent::New(4242)]);
}
