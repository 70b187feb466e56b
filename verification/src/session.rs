//! The per-connection session state machine.
//!
//! One session owns one accepted connection. It runs two duties: the
//! inbound duty decodes each full line the peer sends and publishes it to
//! the hub; the outbound duty receives from the session's subscription and
//! encodes each envelope for the peer. The surrounding program performs the
//! transport work (reading lines, writing bytes, waiting) and hands the
//! session the events it observes; the session decides what each event
//! means and what to do next.
//!
//! A session is a two-state machine, `Active` then `Closed` (terminal).
//! Either duty may close it; closing is idempotent, and a closed session
//! reacts to every further event by doing nothing. Self-delivery policy:
//! each published envelope carries the numeric id of its session of origin,
//! and the outbound duty filters envelopes bearing its own id out, so a
//! sender never sees its own message echoed. A subscriber that lagged
//! behind the backlog is closed (the lag is fatal to that session only).

use vstd::prelude::*;
use crate::codec;
use crate::codec::DecodeError;
use crate::hub::{drain_spec, receive_step, Hub, RecvOutcomeView, Subscription};
use crate::message::{Envelope, EnvelopeView};

verus! {

/// Why a session was closed.
#[derive(Clone, Copy, Debug, PartialEq, Eq, Structural)]
pub enum CloseReason {
    /// The peer ended its stream (a clean disconnect).
    PeerClosed,
    /// The peer sent a line that is not a well-formed frame.
    MalformedMessage,
    /// Writing to the peer failed.
    WriteFailure,
    /// The session's subscription fell behind the hub's backlog.
    Lagged,
}

/// What the inbound duty did with one full line.
#[derive(Clone, Copy, Debug, PartialEq, Eq, Structural)]
pub enum InboundOutcome {
    /// The line decoded and its message was published.
    Published,
    /// The line was malformed; the session is now closed.
    Rejected,
    /// The session was already closed; nothing happened.
    AlreadyClosed,
}

/// What the outbound duty decided after one receive.
#[derive(Debug)]
pub enum OutboundOutcome {
    /// Write this already-encoded frame to the peer.
    Deliver(String),
    /// The envelope came from this session itself; nothing to write.
    Skipped,
    /// Nothing past the cursor yet; wait for the next publish.
    Idle,
    /// The subscription lagged; the session is now closed.
    Lagging,
    /// The session was already closed; nothing happened.
    AlreadyClosed,
}

/// What the outbound duty writes for an envelope: the encoded frame, unless
/// the envelope originated from the session itself, which is filtered out.
pub open spec fn deliver_decision(id: usize, e: EnvelopeView) -> Option<Seq<char>> {
    if e.origin == id {
        None
    } else {
        Some(codec::encode_spec(e.msg))
    }
}

/// One accepted connection's state: its id, whether it is still active, and
/// its subscription into the hub.
pub struct Session {
    id: usize,
    active: bool,
    sub: Subscription,
}

impl Session {
    /// The id stamped on every envelope this session publishes. The caller
    /// gives each session its own id.
    pub closed spec fn id(&self) -> usize {
        self.id
    }

    /// Whether the session is still active (not yet closed).
    pub closed spec fn is_active(&self) -> bool {
        self.active
    }

    /// The session's subscription cursor into the hub's publish log.
    pub closed spec fn cursor(&self) -> nat {
        self.sub.cursor()
    }

    /// The session's cursor never points past the hub's publish log.
    pub open spec fn wf(&self, hub: &Hub) -> bool {
        self.cursor() <= hub.log().len()
    }

    /// Creates the session for a newly accepted connection: active, with a
    /// fresh subscription that observes only envelopes published from now
    /// on.
    pub fn new(id: usize, hub: &Hub) -> (s: Session)
        requires
            hub.wf(),
        ensures
            s.id() == id,
            s.is_active(),
            s.cursor() == hub.log().len(),
            s.wf(hub),
    {
        Session { id, active: true, sub: hub.subscribe() }
    }

    /// Inbound duty, one full line: decode it and publish the message, or —
    /// on a malformed line — close this session. The hub's log is untouched
    /// unless a message is published, so a protocol violation never affects
    /// any other session.
    pub fn on_line(&mut self, hub: &mut Hub, line: &str) -> (r: InboundOutcome)
        requires
            old(hub).wf(),
            old(self).wf(old(hub)),
            old(hub).log().len() < usize::MAX,
        ensures
            final(hub).wf(),
            final(hub).cap() == old(hub).cap(),
            final(self).wf(final(hub)),
            final(self).id() == old(self).id(),
            final(self).cursor() == old(self).cursor(),
            !old(self).is_active() ==> r == InboundOutcome::AlreadyClosed && final(hub).log()
                == old(hub).log() && !final(self).is_active(),
            old(self).is_active() ==> match codec::parse_line(line@) {
                Some(mv) => r == InboundOutcome::Published && final(self).is_active()
                    && final(hub).log() == old(hub).log().push(
                    EnvelopeView { origin: old(self).id(), msg: mv },
                ),
                None => r == InboundOutcome::Rejected && !final(self).is_active()
                    && final(hub).log() == old(hub).log(),
            },
    {
        if !self.active {
            return InboundOutcome::AlreadyClosed;
        }
        match codec::decode(line) {
            Ok(m) => {
                hub.publish(Envelope { origin: self.id, msg: m });
                InboundOutcome::Published
            },
            Err(DecodeError::MalformedMessage) => {
                self.active = false;
                InboundOutcome::Rejected
            },
        }
    }

    /// Inbound duty, end of stream: the peer disconnected cleanly, so the
    /// session closes.
    pub fn on_eof(&mut self) -> (r: CloseReason)
        ensures
            !final(self).is_active(),
            final(self).id() == old(self).id(),
            final(self).cursor() == old(self).cursor(),
            r == CloseReason::PeerClosed,
    {
        self.active = false;
        CloseReason::PeerClosed
    }

    /// Outbound duty, a write to the peer failed: the peer is gone, so the
    /// session closes.
    pub fn on_write_failure(&mut self) -> (r: CloseReason)
        ensures
            !final(self).is_active(),
            final(self).id() == old(self).id(),
            final(self).cursor() == old(self).cursor(),
            r == CloseReason::WriteFailure,
    {
        self.active = false;
        CloseReason::WriteFailure
    }

    /// Outbound duty, one step: receive the next envelope past the cursor,
    /// if any, and decide what to write. An envelope from this session
    /// itself is filtered out; a lagged subscription closes the session.
    /// The hub itself is untouched.
    pub fn poll_outbound(&mut self, hub: &Hub) -> (r: OutboundOutcome)
        requires
            hub.wf(),
            old(self).wf(hub),
        ensures
            final(self).wf(hub),
            final(self).id() == old(self).id(),
            !old(self).is_active() ==> r is AlreadyClosed && *final(self) == *old(self),
            old(self).is_active() ==> ({
                let (step, c2) = receive_step(hub.log(), hub.cap(), old(self).cursor());
                &&& final(self).cursor() == c2
                &&& match step {
                    RecvOutcomeView::Empty => r is Idle && final(self).is_active(),
                    RecvOutcomeView::Received(e) => if e.origin == old(self).id() {
                        r is Skipped && final(self).is_active() && deliver_decision(
                            old(self).id(),
                            e,
                        ) is None
                    } else {
                        (r matches OutboundOutcome::Deliver(f) && f@ == codec::encode_spec(e.msg)
                            && Some(f@) == deliver_decision(old(self).id(), e))
                            && final(self).is_active()
                    },
                    RecvOutcomeView::Lagged(_) => r is Lagging && !final(self).is_active(),
                }
            }),
    {
        if !self.active {
            return OutboundOutcome::AlreadyClosed;
        }
        match hub.receive(&mut self.sub) {
            crate::hub::RecvOutcome::Empty => OutboundOutcome::Idle,
            crate::hub::RecvOutcome::Received(e) => {
                if e.origin == self.id {
                    OutboundOutcome::Skipped
                } else {
                    OutboundOutcome::Deliver(codec::encode(&e.msg))
                }
            },
            crate::hub::RecvOutcome::Lagged(_) => {
                self.active = false;
                OutboundOutcome::Lagging
            },
        }
    }

    /// Tears the session down; either duty may call it, and the first call
    /// wins. Returns whether this call performed the teardown — a second
    /// call finds the session already closed, changes nothing and returns
    /// `false`.
    pub fn close(&mut self) -> (r: bool)
        ensures
            !final(self).is_active(),
            final(self).id() == old(self).id(),
            final(self).cursor() == old(self).cursor(),
            r == old(self).is_active(),
            !old(self).is_active() ==> *final(self) == *old(self),
    {
        let was_active = self.active;
        self.active = false;
        was_active
    }
}

/// Law: a session's own messages are never delivered back to it. With the
/// origin-filtering self-delivery policy, an envelope whose origin is the
/// session's own id is never turned into a write — so a message sent by a
/// session reaches that session zero times, and in particular never more
/// than once.
pub proof fn lemma_no_self_delivery(id: usize, e: EnvelopeView)
    ensures
        e.origin == id ==> deliver_decision(id, e) is None,
        e.origin != id ==> deliver_decision(id, e) == Some(codec::encode_spec(e.msg)),
{
}

/// Law: however many messages a session publishes and however far its own
/// subscription reads, none of the envelopes bearing its own id in the
/// stream it observes is ever turned into a write — a sender's message
/// reaches the sender zero times.
pub proof fn lemma_sender_never_echoed(log: Seq<EnvelopeView>, cap: nat, c: nat, id: usize)
    requires
        c <= log.len(),
    ensures
        forall|i: int|
            0 <= i < drain_spec(log, cap, c).len() && (#[trigger] drain_spec(log, cap, c)[i]).origin
                == id ==> deliver_decision(id, drain_spec(log, cap, c)[i]) is None,
{
}

/// Law: teardown is idempotent. Once a session is closed it stays closed,
/// and a second close (from the other duty racing on the same session)
/// changes nothing and reports that the teardown had already happened.
pub proof fn lemma_close_idempotent(s0: Session, s1: Session, s2: Session, r1: bool, r2: bool)
    requires
        !s1.is_active(),
        s1.id() == s0.id(),
        s1.cursor() == s0.cursor(),
        r1 == s0.is_active(),
        !s0.is_active() ==> s1 == s0,
        !s2.is_active(),
        s2.id() == s1.id(),
        s2.cursor() == s1.cursor(),
        r2 == s1.is_active(),
        !s1.is_active() ==> s2 == s1,
    ensures
        s2 == s1,
        !r2,
{
}

} // verus!
