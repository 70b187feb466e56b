//! The broadcast hub: one shared channel with a bounded backlog.
//!
//! Every published envelope is appended to a single publish log. The hub
//! retains only the most recent `capacity` envelopes; each subscription
//! holds a cursor into the log and reads the log in publish order. A
//! subscriber whose cursor has fallen behind the retained backlog is told
//! how many envelopes it missed (`Lagged`) and its cursor jumps to the
//! oldest retained envelope — nothing is ever skipped silently.
//!
//! The hub's contracts speak of the full abstract publish log, carried as
//! ghost state beside the retained ring.

use vstd::prelude::*;
use crate::message::{Envelope, EnvelopeView};

verus! {

/// What one call to [`Hub::receive`] yields.
pub enum RecvOutcome {
    /// Nothing past the cursor has been published yet.
    Empty,
    /// The next envelope in publish order.
    Received(Envelope),
    /// The cursor fell behind the retained backlog; this many envelopes
    /// were missed.
    Lagged(usize),
}

/// The mathematical value of a [`RecvOutcome`].
pub enum RecvOutcomeView {
    Empty,
    Received(EnvelopeView),
    Lagged(nat),
}

impl View for RecvOutcome {
    type V = RecvOutcomeView;

    open spec fn view(&self) -> RecvOutcomeView {
        match self {
            RecvOutcome::Empty => RecvOutcomeView::Empty,
            RecvOutcome::Received(e) => RecvOutcomeView::Received(e@),
            RecvOutcome::Lagged(k) => RecvOutcomeView::Lagged(*k as nat),
        }
    }
}

/// One subscriber's independent read cursor into the hub's publish log.
pub struct Subscription {
    cursor: usize,
}

impl Subscription {
    /// The position in the publish log of the next envelope this
    /// subscription will observe.
    pub closed spec fn cursor(&self) -> nat {
        self.cursor as nat
    }
}

/// The index of the oldest envelope still retained by a hub whose publish
/// log has length `log_len`.
pub open spec fn first_retained(log_len: nat, cap: nat) -> nat {
    if log_len <= cap {
        0
    } else {
        (log_len - cap) as nat
    }
}

/// What one receive does, as a function of the publish log, the capacity
/// and the subscriber's cursor: the outcome, and the cursor afterwards.
pub open spec fn receive_step(log: Seq<EnvelopeView>, cap: nat, c: nat) -> (RecvOutcomeView, nat)
    recommends
        c <= log.len(),
{
    let fr = first_retained(log.len(), cap);
    if c == log.len() {
        (RecvOutcomeView::Empty, c)
    } else if c >= fr {
        (RecvOutcomeView::Received(log[c as int]), (c + 1) as nat)
    } else {
        (RecvOutcomeView::Lagged((fr - c) as nat), fr)
    }
}

/// The envelopes a subscriber at cursor `c` observes when it receives until
/// the log is exhausted: the retained suffix of the log past its cursor.
pub open spec fn drain_spec(log: Seq<EnvelopeView>, cap: nat, c: nat) -> Seq<EnvelopeView>
    recommends
        c <= log.len(),
    decreases log.len() - c,
{
    let fr = first_retained(log.len(), cap);
    if c >= log.len() {
        Seq::<EnvelopeView>::empty()
    } else if c >= fr {
        seq![log[c as int]] + drain_spec(log, cap, (c + 1) as nat)
    } else {
        drain_spec(log, cap, fr)
    }
}

/// The views of a sequence of envelopes.
pub open spec fn views_of(s: Seq<Envelope>) -> Seq<EnvelopeView> {
    s.map_values(|e: Envelope| e@)
}

/// The shared broadcast channel. Holds the most recent `capacity` published
/// envelopes; older ones are dropped, and a subscriber that still pointed at
/// a dropped envelope is told so on its next receive.
pub struct Hub {
    buf: Vec<Envelope>,
    first: usize,
    capacity: usize,
    log: Ghost<Seq<EnvelopeView>>,
}

impl Hub {
    /// The full abstract publish log: every envelope ever published, in
    /// publish order.
    pub closed spec fn log(&self) -> Seq<EnvelopeView> {
        self.log@
    }

    /// The backlog capacity the hub was created with.
    pub closed spec fn cap(&self) -> nat {
        self.capacity as nat
    }

    /// The hub's internal invariant: the ring holds exactly the most recent
    /// `capacity` entries of the publish log.
    pub closed spec fn wf(&self) -> bool {
        &&& self.capacity >= 1
        &&& self.log@.len() <= usize::MAX
        &&& self.first + self.buf@.len() == self.log@.len()
        &&& self.first == first_retained(self.log@.len(), self.capacity as nat)
        &&& forall|k: int|
            0 <= k < self.buf@.len() ==> (#[trigger] self.buf@[k])@ == self.log@[self.first + k]
    }

    /// Creates a hub with an empty publish log and the given backlog
    /// capacity.
    pub fn new(capacity: usize) -> (h: Hub)
        requires
            capacity >= 1,
        ensures
            h.wf(),
            h.log() == Seq::<EnvelopeView>::empty(),
            h.cap() == capacity,
    {
        Hub { buf: Vec::new(), first: 0, capacity, log: Ghost(Seq::empty()) }
    }

    /// The backlog capacity.
    pub fn capacity(&self) -> (c: usize)
        ensures
            c == self.cap(),
    {
        self.capacity
    }

    /// How many envelopes have been published so far: the publish log's
    /// length, and the sequence number the next published envelope gets.
    pub fn published(&self) -> (n: usize)
        requires
            self.wf(),
        ensures
            n == self.log().len(),
    {
        self.first + self.buf.len()
    }

    /// Appends an envelope to the publish log, dropping the oldest retained
    /// envelope if the backlog is full. Never blocks and never fails.
    pub fn publish(&mut self, e: Envelope)
        requires
            old(self).wf(),
            old(self).log().len() < usize::MAX,
        ensures
            final(self).wf(),
            final(self).log() == old(self).log().push(e@),
            final(self).cap() == old(self).cap(),
    {
        proof {
            self.log@ = self.log@.push(e@);
        }
        self.buf.push(e);
        if self.buf.len() > self.capacity {
            self.buf.remove(0);
            self.first = self.first + 1;
        }
    }

    /// Registers a new subscriber positioned at the current end of the
    /// publish log: it observes only envelopes published after this call.
    pub fn subscribe(&self) -> (s: Subscription)
        requires
            self.wf(),
        ensures
            s.cursor() == self.log().len(),
    {
        Subscription { cursor: self.first + self.buf.len() }
    }

    /// One receive on a subscription: yields exactly what [`receive_step`]
    /// says for the current log and cursor, and moves the cursor the same
    /// way. The hub itself is untouched.
    pub fn receive(&self, sub: &mut Subscription) -> (r: RecvOutcome)
        requires
            self.wf(),
            old(sub).cursor() <= self.log().len(),
        ensures
            final(sub).cursor() <= self.log().len(),
            (r@, final(sub).cursor()) == receive_step(self.log(), self.cap(), old(sub).cursor()),
    {
        let next = self.first + self.buf.len();
        if sub.cursor == next {
            return RecvOutcome::Empty;
        }
        if sub.cursor >= self.first {
            let idx = sub.cursor - self.first;
            let e = self.buf[idx].duplicate();
            sub.cursor = sub.cursor + 1;
            return RecvOutcome::Received(e);
        }
        let skipped = self.first - sub.cursor;
        sub.cursor = self.first;
        RecvOutcome::Lagged(skipped)
    }

    /// Receives until the log is exhausted, returning the envelopes in
    /// publish order: exactly [`drain_spec`] of the starting cursor.
    pub fn drain(&self, sub: &mut Subscription) -> (r: Vec<Envelope>)
        requires
            self.wf(),
            old(sub).cursor() <= self.log().len(),
        ensures
            final(sub).cursor() == self.log().len(),
            views_of(r@) == drain_spec(self.log(), self.cap(), old(sub).cursor()),
    {
        let ghost c0: nat = sub.cursor();
        let mut r: Vec<Envelope> = Vec::new();
        loop
            invariant
                self.wf(),
                c0 == old(sub).cursor(),
                c0 <= self.log().len(),
                sub.cursor() <= self.log().len(),
                drain_spec(self.log(), self.cap(), c0) == views_of(r@) + drain_spec(
                    self.log(),
                    self.cap(),
                    sub.cursor(),
                ),
            decreases self.log().len() - sub.cursor(),
        {
            let ghost c_before: nat = sub.cursor();
            match self.receive(sub) {
                RecvOutcome::Empty => {
                    proof {
                        assert(drain_spec(self.log(), self.cap(), sub.cursor())
                            =~= Seq::<EnvelopeView>::empty());
                        assert(views_of(r@) + Seq::<EnvelopeView>::empty() =~= views_of(r@));
                    }
                    return r;
                },
                RecvOutcome::Received(e) => {
                    proof {
                        assert(views_of(r@.push(e)) =~= views_of(r@) + seq![e@]);
                        assert((views_of(r@) + seq![e@]) + drain_spec(
                            self.log(),
                            self.cap(),
                            sub.cursor(),
                        ) =~= views_of(r@) + (seq![e@] + drain_spec(
                            self.log(),
                            self.cap(),
                            sub.cursor(),
                        )));
                    }
                    r.push(e);
                },
                RecvOutcome::Lagged(_) => {
                    proof {
                        assert(drain_spec(self.log(), self.cap(), c_before) == drain_spec(
                            self.log(),
                            self.cap(),
                            sub.cursor(),
                        ));
                    }
                },
            }
        }
    }
}

/// Law: delivery is in publish order, each envelope exactly once. A
/// subscriber whose cursor is still within the retained backlog observes,
/// over repeated receives, exactly the suffix of the publish log from its
/// cursor on — every envelope published at or after its cursor, in the
/// order it was published, none repeated and none skipped.
pub proof fn lemma_delivery_in_order(log: Seq<EnvelopeView>, cap: nat, c: nat)
    requires
        first_retained(log.len(), cap) <= c <= log.len(),
    ensures
        drain_spec(log, cap, c) == log.skip(c as int),
    decreases log.len() - c,
{
    if c == log.len() {
        assert(log.skip(c as int) =~= Seq::<EnvelopeView>::empty());
    } else {
        lemma_delivery_in_order(log, cap, (c + 1) as nat);
        assert(seq![log[c as int]] + log.skip(c as int + 1) =~= log.skip(c as int));
    }
}

/// Law: no envelope is delivered to one subscriber more than once. Whatever
/// the cursor, the envelopes a subscriber observes are the log entries at
/// strictly increasing positions starting at the oldest position it can
/// still observe, so one published envelope — one position of the log — is
/// observed at most once.
pub proof fn lemma_no_duplicate_delivery(log: Seq<EnvelopeView>, cap: nat, c: nat)
    requires
        c <= log.len(),
    ensures
        ({
            let m = if c >= first_retained(log.len(), cap) {
                c
            } else {
                first_retained(log.len(), cap)
            };
            &&& drain_spec(log, cap, c).len() == log.len() - m
            &&& forall|i: int|
                0 <= i < log.len() - m ==> #[trigger] drain_spec(log, cap, c)[i] == log[m + i]
        }),
{
    let fr = first_retained(log.len(), cap);
    if c >= fr {
        lemma_delivery_in_order(log, cap, c);
    } else {
        lemma_delivery_in_order(log, cap, fr);
    }
}

/// Law: all subscribers observe messages in the same relative order. Two
/// subscribers within the retained backlog each observe a suffix of the one
/// shared publish log, so the one that is further ahead observes exactly
/// what the other observes with its already-seen prefix removed.
pub proof fn lemma_uniform_delivery_order(log: Seq<EnvelopeView>, cap: nat, c1: nat, c2: nat)
    requires
        first_retained(log.len(), cap) <= c1 <= c2 <= log.len(),
    ensures
        drain_spec(log, cap, c2) == drain_spec(log, cap, c1).skip(c2 - c1),
{
    lemma_delivery_in_order(log, cap, c1);
    lemma_delivery_in_order(log, cap, c2);
    assert(log.skip(c1 as int).skip(c2 - c1) =~= log.skip(c2 as int));
}

/// Law: backlog overflow is signalled, never silent. If more envelopes than
/// the capacity were published past a subscriber's cursor, its next receive
/// yields `Lagged` with the exact number of envelopes it missed, and its
/// cursor resumes at the oldest retained envelope.
pub proof fn lemma_overflow_is_signalled(log: Seq<EnvelopeView>, cap: nat, c: nat)
    requires
        c + cap < log.len(),
    ensures
        ({
            let fr = first_retained(log.len(), cap);
            &&& receive_step(log, cap, c) == (RecvOutcomeView::Lagged((fr - c) as nat), fr)
            &&& fr - c >= 1
        }),
{
}

} // verus!
