//! The per-datagram read step of the monitor: frame the received bytes,
//! classify each sub-message's type tag, and collect the decoded events in
//! arrival order. Anomalies inside a datagram never fail the call; they only
//! reduce the yield.

use vstd::prelude::*;

use crate::decode::{decode, decode_spec, PidEvent};
use crate::framing::{frame, frame_spec, views_of, SubMessageSpec};
use crate::wire::{NLMSG_DONE, NLMSG_ERROR, NLMSG_NOOP};

verus! {

/// The events contributed by a sequence of framed sub-messages: a "done"
/// tag ends the batch at once, "no-op" and "error" tags are skipped, and
/// every other sub-message contributes whatever it decodes to.
pub open spec fn consume_spec(subs: Seq<SubMessageSpec>) -> Seq<PidEvent>
    decreases subs.len(),
{
    if subs.len() == 0 {
        Seq::empty()
    } else {
        let s = subs[0];
        let rest = subs.skip(1);
        if s.header.msg_type == NLMSG_DONE {
            Seq::empty()
        } else if s.header.msg_type == NLMSG_NOOP || s.header.msg_type == NLMSG_ERROR {
            consume_spec(rest)
        } else {
            match decode_spec(s.payload) {
                Option::Some(e) => seq![e] + consume_spec(rest),
                Option::None => consume_spec(rest),
            }
        }
    }
}

/// The events that one received datagram yields: frame it, then consume the
/// framed sub-messages.
pub open spec fn events_spec(b: Seq<u8>) -> Seq<PidEvent> {
    consume_spec(frame_spec(b))
}

/// Turns one received datagram into its events, in arrival order: exactly
/// `events_spec` of the buffer's bytes. A short, truncated or foreign
/// datagram yields fewer events, never an error.
pub fn events_from_datagram(buffer: &Vec<u8>) -> (events: Vec<PidEvent>)
    ensures
        events@ == events_spec(buffer@),
{
    let subs = frame(buffer);
    let ghost all = views_of(subs@);
    let mut events: Vec<PidEvent> = Vec::new();
    let mut i: usize = 0;
    let n = subs.len();
    proof {
        assert(all.skip(0) =~= all);
    }
    loop
        invariant_except_break
            events@ + consume_spec(all.skip(i as int)) == consume_spec(all),
        invariant
            i <= n,
            n == subs@.len(),
            all == views_of(subs@),
        ensures
            events@ == consume_spec(all),
        decreases n - i,
    {
        if i >= n {
            assert(consume_spec(all.skip(i as int)) =~= Seq::empty());
            assert(events@ =~= consume_spec(all));
            break;
        }
        let sub = &subs[i];
        proof {
            assert(all.skip(i as int)[0] == sub@);
        }
        let tag = sub.header.msg_type;
        if tag == NLMSG_DONE {
            assert(events@ =~= consume_spec(all));
            break;
        }
        if tag != NLMSG_NOOP && tag != NLMSG_ERROR {
            if let Some(e) = decode(sub) {
                events.push(e);
            }
        }
        proof {
            assert(all.skip(i as int).skip(1) =~= all.skip(i + 1));
            assert(events@ + consume_spec(all.skip(i + 1)) =~= consume_spec(all));
        }
        i = i + 1;
    }
    events
}

/// Early termination: sub-messages at or after an end-of-batch marker
/// contribute no events; consuming a batch that holds a "done" sub-message
/// consumes only what stands before it.
pub proof fn lemma_consume_stops_at_done(
    pre: Seq<SubMessageSpec>,
    done: SubMessageSpec,
    post: Seq<SubMessageSpec>,
)
    requires
        done.header.msg_type == NLMSG_DONE,
        forall|i: int| 0 <= i < pre.len() ==> (#[trigger] pre[i]).header.msg_type != NLMSG_DONE,
    ensures
        consume_spec(pre + seq![done] + post) == consume_spec(pre),
    decreases pre.len(),
{
    let whole = pre + seq![done] + post;
    if pre.len() == 0 {
        assert(whole[0] == done);
        assert(consume_spec(whole) =~= Seq::<PidEvent>::empty());
        assert(consume_spec(pre) =~= Seq::<PidEvent>::empty());
    } else {
        let p0 = pre[0];
        assert(whole[0] == p0);
        assert(p0.header.msg_type != NLMSG_DONE);
        let pre1 = pre.skip(1);
        assert forall|i: int| 0 <= i < pre1.len() implies (#[trigger] pre1[i]).header.msg_type
            != NLMSG_DONE by {
            assert(pre1[i] == pre[i + 1]);
        }
        lemma_consume_stops_at_done(pre1, done, post);
        assert(whole.skip(1) =~= pre1 + seq![done] + post);
        assert(consume_spec(whole) == consume_spec(pre));
    }
}

} // verus!
