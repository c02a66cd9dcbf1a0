//! Walking the self-describing framing inside one received datagram: the
//! buffer holds back-to-back sub-messages, each a fixed header followed by a
//! payload, each starting at the 4-byte-aligned offset after the previous
//! one's declared length.

use vstd::prelude::*;

use crate::bytes::{
    lemma_u16_le_at_eq, lemma_u16_le_roundtrip, lemma_u32_le_at_eq, lemma_u32_le_roundtrip,
    read_u16_le, read_u32_le, u16_le_at, u16_le_bytes, u32_le_at, u32_le_bytes,
};
use crate::wire::{lemma_align4_bounds, spec_align4, NLMSG_HDR_SIZE};

verus! {

/// The outer header of one sub-message, in decoded form.
#[derive(Clone, Copy, PartialEq, Eq, Structural, Debug)]
pub struct NlHeader {
    /// Declared total length of the sub-message, header included.
    pub len: u32,
    /// Type tag: no-op, error, done, or a data-carrying type.
    pub msg_type: u16,
    /// Flag bits; carried through, not interpreted here.
    pub flags: u16,
    /// Sequence number; carried through, not interpreted here.
    pub sequence: u32,
    /// Source identifier of the sender.
    pub pid: u32,
}

/// One framed sub-message: its decoded header and a copy of its payload,
/// the bytes between the header's end and the declared length.
#[derive(Clone, PartialEq, Eq, Debug)]
pub struct SubMessage {
    /// The decoded outer header.
    pub header: NlHeader,
    /// The payload bytes, `declared length - header size` of them.
    pub payload: Vec<u8>,
}

/// The mathematical form of one framed sub-message.
#[verifier::ext_equal]
pub struct SubMessageSpec {
    /// The decoded outer header.
    pub header: NlHeader,
    /// The payload bytes.
    pub payload: Seq<u8>,
}

impl View for SubMessage {
    type V = SubMessageSpec;

    open spec fn view(&self) -> SubMessageSpec {
        SubMessageSpec { header: self.header, payload: self.payload@ }
    }
}

/// The header fields stored at the front of `b`.
pub open spec fn header_at(b: Seq<u8>) -> NlHeader
    recommends
        NLMSG_HDR_SIZE <= b.len(),
{
    NlHeader {
        len: u32_le_at(b, 0),
        msg_type: u16_le_at(b, 4),
        flags: u16_le_at(b, 6),
        sequence: u32_le_at(b, 8),
        pid: u32_le_at(b, 12),
    }
}

/// The sub-message of declared length `l` at the front of `b`.
pub open spec fn sub_at(b: Seq<u8>, l: int) -> SubMessageSpec
    recommends
        NLMSG_HDR_SIZE <= l <= b.len(),
{
    SubMessageSpec { header: header_at(b), payload: b.subrange(NLMSG_HDR_SIZE as int, l) }
}

/// The sequence of sub-messages framed inside `b`, by the iteration rule:
/// stop if fewer bytes remain than one header takes; read the declared
/// length `l`; stop if `l` is shorter than the header itself or overruns the
/// remaining bytes (truncation); otherwise yield the sub-message and advance
/// by `l` rounded up to the alignment unit, stopping if that step overruns.
pub open spec fn frame_spec(b: Seq<u8>) -> Seq<SubMessageSpec>
    decreases b.len(),
{
    if b.len() < NLMSG_HDR_SIZE {
        Seq::empty()
    } else {
        let l = u32_le_at(b, 0) as int;
        if l < NLMSG_HDR_SIZE || l > b.len() {
            Seq::empty()
        } else if spec_align4(l) > b.len() {
            seq![sub_at(b, l)]
        } else {
            seq![sub_at(b, l)] + frame_spec(b.skip(spec_align4(l)))
        }
    }
}

/// The views of a vector of framed sub-messages.
pub open spec fn views_of(subs: Seq<SubMessage>) -> Seq<SubMessageSpec> {
    subs.map_values(|s: SubMessage| s@)
}

/// Copies `b[start .. end]` into a fresh vector.
fn copy_range(b: &Vec<u8>, start: usize, end: usize) -> (r: Vec<u8>)
    requires
        start <= end <= b@.len(),
    ensures
        r@ == b@.subrange(start as int, end as int),
{
    let mut r: Vec<u8> = Vec::new();
    let mut i: usize = start;
    while i < end
        invariant
            start <= i <= end <= b@.len(),
            r@ == b@.subrange(start as int, i as int),
        decreases end - i,
    {
        r.push(b[i]);
        i = i + 1;
        assert(r@ =~= b@.subrange(start as int, i as int));
    }
    r
}

/// Splits one received datagram into the sub-messages framed inside it,
/// in order, by the iteration rule of `frame_spec`. Truncation or a short
/// buffer ends the sequence; neither is an error.
pub fn frame(buffer: &Vec<u8>) -> (subs: Vec<SubMessage>)
    ensures
        views_of(subs@) == frame_spec(buffer@),
{
    let n: usize = buffer.len();
    let mut subs: Vec<SubMessage> = Vec::new();
    let mut cur: usize = 0;
    proof {
        assert(buffer@.skip(0) =~= buffer@);
        assert(views_of(subs@) + frame_spec(buffer@) =~= frame_spec(buffer@));
    }
    loop
        invariant_except_break
            views_of(subs@) + frame_spec(buffer@.skip(cur as int)) == frame_spec(buffer@),
        invariant
            cur <= n,
            n == buffer@.len(),
        ensures
            views_of(subs@) == frame_spec(buffer@),
        decreases n - cur,
    {
        let ghost rest = buffer@.skip(cur as int);
        let remaining = n - cur;
        if remaining < NLMSG_HDR_SIZE {
            assert(frame_spec(rest) =~= Seq::empty());
            assert(views_of(subs@) =~= frame_spec(buffer@));
            break;
        }
        let len32 = read_u32_le(buffer, cur);
        proof {
            assert forall|k: int| 0 <= k < 4 implies buffer@[cur + k] == #[trigger] rest[0 + k] by {}
            crate::bytes::lemma_u32_le_at_eq(buffer@, rest, cur as int, 0);
        }
        if len32 < NLMSG_HDR_SIZE as u32 {
            assert(views_of(subs@) =~= frame_spec(buffer@));
            break;
        }
        let l = len32 as usize;
        if l > remaining {
            assert(views_of(subs@) =~= frame_spec(buffer@));
            break;
        }
        let header = NlHeader {
            len: len32,
            msg_type: read_u16_le(buffer, cur + 4),
            flags: read_u16_le(buffer, cur + 6),
            sequence: read_u32_le(buffer, cur + 8),
            pid: read_u32_le(buffer, cur + 12),
        };
        let payload = copy_range(buffer, cur + NLMSG_HDR_SIZE, cur + l);
        let sub = SubMessage { header, payload };
        proof {
            assert forall|k: int| 0 <= k < 2 implies buffer@[cur + 4 + k] == #[trigger] rest[4 + k] by {}
            assert forall|k: int| 0 <= k < 2 implies buffer@[cur + 6 + k] == #[trigger] rest[6 + k] by {}
            assert forall|k: int| 0 <= k < 4 implies buffer@[cur + 8 + k] == #[trigger] rest[8 + k] by {}
            assert forall|k: int| 0 <= k < 4 implies buffer@[cur + 12 + k] == #[trigger] rest[12 + k] by {}
            crate::bytes::lemma_u16_le_at_eq(buffer@, rest, cur + 4, 4);
            crate::bytes::lemma_u16_le_at_eq(buffer@, rest, cur + 6, 6);
            crate::bytes::lemma_u32_le_at_eq(buffer@, rest, cur + 8, 8);
            crate::bytes::lemma_u32_le_at_eq(buffer@, rest, cur + 12, 12);
            assert(sub.header == header_at(rest));
            assert(sub.payload@ =~= rest.subrange(NLMSG_HDR_SIZE as int, l as int));
            assert(sub@ =~= sub_at(rest, l as int));
        }
        let pad = (4 - (l % 4)) % 4;
        proof {
            assert(l + pad == spec_align4(l as int));
        }
        let ghost old_subs = subs@;
        subs.push(sub);
        proof {
            assert(views_of(subs@) =~= views_of(old_subs) + seq![sub@]);
        }
        if pad > remaining - l {
            proof {
                assert(spec_align4(l as int) > rest.len());
                assert(frame_spec(rest) =~= seq![sub_at(rest, l as int)]);
                assert(views_of(subs@) =~= frame_spec(buffer@));
            }
            break;
        }
        let step = l + pad;
        proof {
            assert(frame_spec(rest) =~= seq![sub_at(rest, l as int)] + frame_spec(
                rest.skip(step as int),
            ));
            assert(rest.skip(step as int) =~= buffer@.skip(cur + step));
            assert(views_of(subs@) + frame_spec(buffer@.skip(cur + step)) =~= frame_spec(
                buffer@,
            ));
        }
        cur = cur + step;
    }
    subs
}

/// A sub-message whose declared length is honest: the header's size plus
/// its payload's length.
pub open spec fn sub_wf(s: SubMessageSpec) -> bool {
    s.header.len == NLMSG_HDR_SIZE + s.payload.len()
}

/// The bytes that store one sub-message's header.
pub open spec fn header_bytes(h: NlHeader) -> Seq<u8> {
    u32_le_bytes(h.len) + u16_le_bytes(h.msg_type) + u16_le_bytes(h.flags) + u32_le_bytes(
        h.sequence,
    ) + u32_le_bytes(h.pid)
}

/// `n` zero bytes of alignment padding.
pub open spec fn zeros(n: int) -> Seq<u8> {
    Seq::new(n as nat, |i: int| 0u8)
}

/// The bytes one sub-message occupies inside a buffer: its header, its
/// payload, and zero padding up to the alignment unit.
pub open spec fn encode_sub(s: SubMessageSpec) -> Seq<u8> {
    header_bytes(s.header) + s.payload + zeros(spec_align4(s.header.len as int) - s.header.len)
}

/// The buffer that holds `subs` back-to-back, each at the aligned offset
/// after the previous one.
pub open spec fn encode_all(subs: Seq<SubMessageSpec>) -> Seq<u8>
    decreases subs.len(),
{
    if subs.len() == 0 {
        Seq::empty()
    } else {
        encode_sub(subs[0]) + encode_all(subs.skip(1))
    }
}

/// Reading the front of `encode_sub(s) + suffix` finds `s` again: the
/// declared length comes back from its field, the other header fields from
/// theirs, and the payload bytes are the ones encoded.
proof fn lemma_encode_sub_front(s: SubMessageSpec, suffix: Seq<u8>)
    requires
        sub_wf(s),
    ensures
        (encode_sub(s) + suffix).len() == spec_align4(s.header.len as int) + suffix.len(),
        u32_le_at(encode_sub(s) + suffix, 0) == s.header.len,
        header_at(encode_sub(s) + suffix) == s.header,
        (encode_sub(s) + suffix).subrange(NLMSG_HDR_SIZE as int, s.header.len as int)
            == s.payload,
        (encode_sub(s) + suffix).skip(spec_align4(s.header.len as int)) == suffix,
{
    let h = s.header;
    let hb = header_bytes(h);
    let l = h.len as int;
    let b = encode_sub(s) + suffix;
    lemma_align4_bounds(l);
    assert(hb.len() == 16);
    assert(encode_sub(s).len() == spec_align4(l));
    assert forall|k: int| 0 <= k < 16 implies b[k] == #[trigger] hb[k] by {}
    assert forall|k: int| 0 <= k < 4 implies hb[0 + k] == #[trigger] u32_le_bytes(h.len)[k] by {}
    assert forall|k: int| 0 <= k < 2 implies hb[4 + k] == #[trigger] u16_le_bytes(
        h.msg_type,
    )[k] by {}
    assert forall|k: int| 0 <= k < 2 implies hb[6 + k] == #[trigger] u16_le_bytes(h.flags)[k] by {}
    assert forall|k: int| 0 <= k < 4 implies hb[8 + k] == #[trigger] u32_le_bytes(
        h.sequence,
    )[k] by {}
    assert forall|k: int| 0 <= k < 4 implies hb[12 + k] == #[trigger] u32_le_bytes(h.pid)[k] by {}
    lemma_u32_le_at_eq(b, u32_le_bytes(h.len), 0, 0);
    lemma_u32_le_roundtrip(h.len);
    lemma_u16_le_at_eq(b, u16_le_bytes(h.msg_type), 4, 0);
    lemma_u16_le_roundtrip(h.msg_type);
    lemma_u16_le_at_eq(b, u16_le_bytes(h.flags), 6, 0);
    lemma_u16_le_roundtrip(h.flags);
    lemma_u32_le_at_eq(b, u32_le_bytes(h.sequence), 8, 0);
    lemma_u32_le_roundtrip(h.sequence);
    lemma_u32_le_at_eq(b, u32_le_bytes(h.pid), 12, 0);
    lemma_u32_le_roundtrip(h.pid);
    assert(b.subrange(NLMSG_HDR_SIZE as int, l) =~= s.payload);
    assert(b.skip(spec_align4(l)) =~= suffix);
}

/// Framing a buffer that holds well-formed sub-messages back-to-back, with
/// anything at all after them, yields exactly those sub-messages followed by
/// whatever the trailing bytes frame to on their own.
pub proof fn lemma_frame_append(subs: Seq<SubMessageSpec>, tail: Seq<u8>)
    requires
        forall|i: int| 0 <= i < subs.len() ==> sub_wf(#[trigger] subs[i]),
    ensures
        frame_spec(encode_all(subs) + tail) == subs + frame_spec(tail),
    decreases subs.len(),
{
    if subs.len() == 0 {
        assert(encode_all(subs) + tail =~= tail);
        assert(subs + frame_spec(tail) =~= frame_spec(tail));
    } else {
        let s0 = subs[0];
        let rest = subs.skip(1);
        let b = encode_all(subs) + tail;
        let l = s0.header.len as int;
        assert(sub_wf(s0));
        lemma_align4_bounds(l);
        assert(b =~= encode_sub(s0) + (encode_all(rest) + tail));
        lemma_encode_sub_front(s0, encode_all(rest) + tail);
        assert(NLMSG_HDR_SIZE <= l);
        assert(l <= b.len());
        assert(spec_align4(l) <= b.len());
        assert(sub_at(b, l) =~= s0);
        assert(frame_spec(b) == seq![sub_at(b, l)] + frame_spec(b.skip(spec_align4(l))));
        assert forall|i: int| 0 <= i < rest.len() implies sub_wf(#[trigger] rest[i]) by {
            assert(rest[i] == subs[i + 1]);
        }
        lemma_frame_append(rest, tail);
        assert(b.skip(spec_align4(l)) == encode_all(rest) + tail);
        assert(seq![s0] + (rest + frame_spec(tail)) =~= subs + frame_spec(tail));
        assert(frame_spec(b) =~= subs + frame_spec(tail));
    }
}

/// Framing idempotence: a buffer holding exactly N well-formed sub-messages
/// back-to-back frames to exactly those N, bytes reconstructible as encoded.
pub proof fn lemma_frame_of_encoded(subs: Seq<SubMessageSpec>)
    requires
        forall|i: int| 0 <= i < subs.len() ==> sub_wf(#[trigger] subs[i]),
    ensures
        frame_spec(encode_all(subs)) == subs,
{
    lemma_frame_append(subs, Seq::empty());
    assert(encode_all(subs) + Seq::<u8>::empty() =~= encode_all(subs));
    assert(subs + frame_spec(Seq::<u8>::empty()) =~= subs);
}

/// Truncation safety: when a buffer ends in a header whose declared length
/// overruns the bytes actually there, framing yields all the well-formed
/// sub-messages in front of it and stops cleanly, yielding nothing for the
/// truncated one.
pub proof fn lemma_frame_truncation(subs: Seq<SubMessageSpec>, tail: Seq<u8>)
    requires
        forall|i: int| 0 <= i < subs.len() ==> sub_wf(#[trigger] subs[i]),
        NLMSG_HDR_SIZE <= tail.len(),
        tail.len() < u32_le_at(tail, 0),
    ensures
        frame_spec(encode_all(subs) + tail) == subs,
{
    lemma_frame_append(subs, tail);
    assert(frame_spec(tail) =~= Seq::<SubMessageSpec>::empty());
    assert(subs + Seq::<SubMessageSpec>::empty() =~= subs);
}

} // verus!
