//! The reactor: owner of the pending-response table and sole caller of the
//! receive primitive.
//!
//! One drain step issues one receive call (retrying once with a bigger
//! buffer when told the message does not fit, since the primitive consumes
//! nothing in that case) and routes what arrives: a response is recorded in
//! the pending entry of exactly its own identifier, where the owning handle
//! picks it up at its next poll; an interface message is appended to the
//! inbox for the process's message consumer.  Interest never includes an
//! identifier that is not waiting, so resolved entries are never fed again.

use vstd::prelude::*;

verus! {

use crate::message::{
    InterfaceMessage, Message, MessageView, decode_message, lemma_message_round_trip,
    spec_message_encoding,
};
use crate::search::{lemma_find, lemma_find_ext, spec_find};
use crate::system::{
    ANY_INTERFACE_TOKEN, FIRST_MESSAGE_ID, NextMessageOutcome, SystemState, spec_first_match,
    spec_match_pred,
};
use vstd::slice::slice_subrange;

/// One pending-response entry.
pub struct PendingEntry {
    /// The live identifier this entry awaits the answer to.
    pub message_id: u64,
    /// `None` while the answer is awaited; the answer's payload once it
    /// arrived, until the owning handle picks it up.
    pub response: Option<Vec<u8>>,
}

/// Mathematical value of a [`PendingEntry`].
pub struct PendingEntryView {
    pub message_id: u64,
    pub response: Option<Seq<u8>>,
}

impl View for PendingEntry {
    type V = PendingEntryView;

    open spec fn view(&self) -> PendingEntryView {
        PendingEntryView {
            message_id: self.message_id,
            response: match self.response {
                Some(v) => Some(v@),
                None => None,
            },
        }
    }
}

/// The predicate a pending entry must satisfy to carry `message_id`.
pub open spec fn spec_entry_pred(message_id: u64) -> spec_fn(PendingEntryView) -> bool {
    |e: PendingEntryView| e.message_id == message_id
}

/// What one drain step reports.
#[derive(Debug, Clone, Copy, PartialEq, Eq, Structural)]
pub enum DrainOutcome {
    /// No queued message matched this process's interest.
    Idle,
    /// The answer to `message_id` arrived and now awaits pickup by the
    /// handle that owns that identifier.
    ResponseArrived { message_id: u64 },
    /// An answer arrived for an identifier with no pending entry; it was
    /// discarded.  A normal race, not an error: the entry was retired while
    /// the answer was in flight.
    ResponseDiscarded { message_id: u64 },
    /// An interface message arrived and was appended to the inbox.
    InterfaceQueued,
}

/// The reactor state of one process.
pub struct Reactor {
    /// One entry per outstanding request with a waiter, keyed by live
    /// message identifier.
    pub pending: Vec<PendingEntry>,
    /// Whether this process consumes interface messages; only then does the
    /// interest set carry [`ANY_INTERFACE_TOKEN`].
    pub serves_interfaces: bool,
    /// Interface messages drained but not yet handed to the consumer,
    /// oldest first.
    pub inbox: Vec<InterfaceMessage>,
}

/// The predicate a queued message must satisfy for this reactor to take it:
/// destined to `pid`, and either a response some pending entry awaits or an
/// interface message while the process serves interfaces.
pub open spec fn spec_accept_pred(r: Reactor, pid: u64) -> spec_fn(
    crate::system::Envelope,
) -> bool {
    |e: crate::system::Envelope| e.dest_pid == pid && r.spec_accepts(e.message@)
}

/// Index of the oldest queued message this reactor would take.
pub open spec fn spec_reactor_first_match(
    r: Reactor,
    q: Seq<crate::system::Envelope>,
    pid: u64,
) -> Option<int> {
    spec_find(q, spec_accept_pred(r, pid))
}

impl Reactor {
    /// The pending table as a sequence of mathematical values.
    pub open spec fn spec_pending_view(self) -> Seq<PendingEntryView> {
        self.pending@.map_values(|e: PendingEntry| e@)
    }

    /// Index of the pending entry for `message_id`, if any.
    pub open spec fn spec_entry_index(self, message_id: u64) -> Option<int> {
        spec_find(self.spec_pending_view(), spec_entry_pred(message_id))
    }

    /// Whether a pending entry for `message_id` exists.
    pub open spec fn spec_has_entry(self, message_id: u64) -> bool {
        self.spec_entry_index(message_id) is Some
    }

    /// Whether `message_id` still awaits its answer.
    pub open spec fn spec_waiting(self, message_id: u64) -> bool {
        match self.spec_entry_index(message_id) {
            Some(i) => self.spec_pending_view()[i].response is None,
            None => false,
        }
    }

    /// Whether the reactor takes a message: a response only if its
    /// identifier awaits one, an interface message only if the process
    /// consumes them.
    pub open spec fn spec_accepts(self, m: MessageView) -> bool {
        match m {
            MessageView::Interface(_) => self.serves_interfaces,
            MessageView::Response(rm) => self.spec_waiting(rm.message_id),
        }
    }

    /// What the reactor keeps true of itself: pending identifiers are
    /// pairwise distinct and were allocated by the environment, so they
    /// never collide with the reserved interest tokens.
    pub open spec fn wf(self) -> bool {
        &&& (forall|i: int, j: int|
            0 <= i < j < self.spec_pending_view().len() ==> (
            #[trigger] self.spec_pending_view()[i]).message_id != (
            #[trigger] self.spec_pending_view()[j]).message_id)
        &&& (forall|i: int|
            0 <= i < self.spec_pending_view().len() ==> (
            #[trigger] self.spec_pending_view()[i]).message_id >= FIRST_MESSAGE_ID)
    }

    /// A fresh reactor: no pending entries, no inbox, not serving
    /// interfaces.
    pub fn new() -> (r: Reactor)
        ensures
            r.wf(),
            r.spec_pending_view().len() == 0,
            r.inbox@.len() == 0,
            !r.serves_interfaces,
    {
        Reactor { pending: Vec::new(), serves_interfaces: false, inbox: Vec::new() }
    }

    /// Declares that this process consumes interface messages, so drains
    /// start asking for them.
    pub fn serve_interfaces(&mut self)
        requires
            old(self).wf(),
        ensures
            final(self).wf(),
            final(self).serves_interfaces,
            final(self).pending@ == old(self).pending@,
            final(self).inbox@ == old(self).inbox@,
    {
        self.serves_interfaces = true;
    }

    /// Adds a waiting entry for a freshly allocated identifier.
    pub fn register_waiter(&mut self, message_id: u64)
        requires
            old(self).wf(),
            message_id >= FIRST_MESSAGE_ID,
            !old(self).spec_has_entry(message_id),
        ensures
            final(self).wf(),
            final(self).spec_pending_view() == old(self).spec_pending_view().push(
                PendingEntryView { message_id, response: None },
            ),
            final(self).serves_interfaces == old(self).serves_interfaces,
            final(self).inbox@ == old(self).inbox@,
            final(self).spec_waiting(message_id),
    {
        let ghost v0 = self.spec_pending_view();
        self.pending.push(PendingEntry { message_id, response: None });
        proof {
            assert(self.spec_pending_view() =~= v0.push(
                PendingEntryView { message_id, response: None },
            ));
            lemma_find(v0, spec_entry_pred(message_id));
            assert(spec_entry_pred(message_id)(self.spec_pending_view().last()));
            lemma_find(self.spec_pending_view(), spec_entry_pred(message_id));
            assert forall|i: int, j: int|
                0 <= i < j < self.spec_pending_view().len() implies (
            #[trigger] self.spec_pending_view()[i]).message_id != (
            #[trigger] self.spec_pending_view()[j]).message_id by {
                if j == v0.len() as int {
                    assert(!spec_entry_pred(message_id)(v0[i]));
                }
            }
        }
    }

    /// Removes the entry for `message_id`, if one exists.  Used when the
    /// owning handle is torn down.
    pub fn remove_waiter(&mut self, message_id: u64)
        requires
            old(self).wf(),
        ensures
            final(self).wf(),
            !final(self).spec_has_entry(message_id),
            match old(self).spec_entry_index(message_id) {
                Some(i) => final(self).spec_pending_view() == old(self).spec_pending_view().remove(
                    i,
                ),
                None => final(self).spec_pending_view() == old(self).spec_pending_view(),
            },
            final(self).serves_interfaces == old(self).serves_interfaces,
            final(self).inbox@ == old(self).inbox@,
    {
        let ghost v0 = self.spec_pending_view();
        match find_pending(&self.pending, message_id) {
            None => {
                proof {
                    lemma_find(v0, spec_entry_pred(message_id));
                }
            },
            Some(i) => {
                self.pending.remove(i);
                proof {
                    assert(self.spec_pending_view() =~= v0.remove(i as int));
                    lemma_find(v0, spec_entry_pred(message_id));
                    assert forall|a: int, b: int|
                        0 <= a < b < self.spec_pending_view().len() implies (
                    #[trigger] self.spec_pending_view()[a]).message_id != (
                    #[trigger] self.spec_pending_view()[b]).message_id by {
                        assert(self.spec_pending_view()[a] == if a < i as int {
                            v0[a]
                        } else {
                            v0[a + 1]
                        });
                        assert(self.spec_pending_view()[b] == if b < i as int {
                            v0[b]
                        } else {
                            v0[b + 1]
                        });
                    }
                    assert forall|k: int|
                        0 <= k < self.spec_pending_view().len() implies !spec_entry_pred(
                        message_id,
                    )(#[trigger] self.spec_pending_view()[k]) by {
                        assert(self.spec_pending_view()[k] == if k < i as int {
                            v0[k]
                        } else {
                            v0[k + 1]
                        });
                    }
                    crate::search::lemma_find_none(
                        self.spec_pending_view(),
                        spec_entry_pred(message_id),
                    );
                }
            },
        }
    }

    /// Hands out the answer recorded for `message_id`, removing its entry;
    /// `None` while the entry is still waiting or after it was retired.
    pub fn take_response(&mut self, message_id: u64) -> (r: Option<Vec<u8>>)
        requires
            old(self).wf(),
        ensures
            final(self).wf(),
            final(self).serves_interfaces == old(self).serves_interfaces,
            final(self).inbox@ == old(self).inbox@,
            match r {
                Some(payload) => {
                    let i = old(self).spec_entry_index(message_id)->Some_0;
                    &&& old(self).spec_entry_index(message_id) is Some
                    &&& old(self).spec_pending_view()[i].response == Some(payload@)
                    &&& final(self).spec_pending_view() == old(self).spec_pending_view().remove(i)
                    &&& !final(self).spec_has_entry(message_id)
                },
                None => {
                    &&& final(self).spec_pending_view() == old(self).spec_pending_view()
                    &&& (old(self).spec_has_entry(message_id) ==> old(self).spec_waiting(
                        message_id,
                    ))
                },
            },
    {
        let ghost v0 = self.spec_pending_view();
        let i = match find_pending(&self.pending, message_id) {
            Some(i) => i,
            None => {
                proof {
                    lemma_find(v0, spec_entry_pred(message_id));
                }
                return None;
            },
        };
        if self.pending[i].response.is_none() {
            return None;
        }
        let entry = self.pending.remove(i);
        proof {
            assert(self.spec_pending_view() =~= v0.remove(i as int));
            lemma_find(v0, spec_entry_pred(message_id));
            assert forall|a: int, b: int|
                0 <= a < b < self.spec_pending_view().len() implies (
            #[trigger] self.spec_pending_view()[a]).message_id != (
            #[trigger] self.spec_pending_view()[b]).message_id by {
                assert(self.spec_pending_view()[a] == if a < i as int {
                    v0[a]
                } else {
                    v0[a + 1]
                });
                assert(self.spec_pending_view()[b] == if b < i as int {
                    v0[b]
                } else {
                    v0[b + 1]
                });
            }
            assert forall|k: int|
                0 <= k < self.spec_pending_view().len() implies !spec_entry_pred(message_id)(
                #[trigger] self.spec_pending_view()[k],
            ) by {
                assert(self.spec_pending_view()[k] == if k < i as int {
                    v0[k]
                } else {
                    v0[k + 1]
                });
            }
            crate::search::lemma_find_none(self.spec_pending_view(), spec_entry_pred(message_id));
        }
        match entry.response {
            Some(payload) => Some(payload),
            None => None,
        }
    }

    /// Hands the oldest drained interface message to the consumer.
    pub fn next_interface_message(&mut self) -> (r: Option<InterfaceMessage>)
        requires
            old(self).wf(),
        ensures
            final(self).wf(),
            final(self).spec_pending_view() == old(self).spec_pending_view(),
            final(self).serves_interfaces == old(self).serves_interfaces,
            match r {
                Some(m) => old(self).inbox@.len() > 0 && m == old(self).inbox@[0]
                    && final(self).inbox@ == old(self).inbox@.remove(0),
                None => old(self).inbox@.len() == 0 && final(self).inbox@ == old(self).inbox@,
            },
    {
        if self.inbox.len() == 0 {
            None
        } else {
            Some(self.inbox.remove(0))
        }
    }
}

/// Index of the first pending entry carrying `message_id`, if any.
fn find_pending(pending: &Vec<PendingEntry>, message_id: u64) -> (r: Option<usize>)
    ensures
        ({
            let view = pending@.map_values(|e: PendingEntry| e@);
            match r {
                Some(i) => i < view.len() && spec_find(view, spec_entry_pred(message_id)) == Some(
                    i as int,
                ),
                None => spec_find(view, spec_entry_pred(message_id)) is None,
            }
        }),
{
    let ghost view = pending@.map_values(|e: PendingEntry| e@);
    let mut i: usize = 0;
    while i < pending.len()
        invariant
            i <= pending@.len(),
            view == pending@.map_values(|e: PendingEntry| e@),
            crate::search::spec_find_from(view, spec_entry_pred(message_id), 0)
                == crate::search::spec_find_from(view, spec_entry_pred(message_id), i as int),
        decreases pending@.len() - i,
    {
        if pending[i].message_id == message_id {
            assert(spec_entry_pred(message_id)(view[i as int]));
            return Some(i);
        }
        assert(!spec_entry_pred(message_id)(view[i as int]));
        i = i + 1;
    }
    None
}


/// How one drain step relates the reactor and the environment before it to
/// those after it and to its outcome.  At most one pending entry changes: the
/// one keyed by the delivered response's own identifier, and it receives
/// exactly that response's payload.
pub open spec fn spec_drain_transition(
    r0: Reactor,
    r1: Reactor,
    s0: SystemState,
    s1: SystemState,
    pid: u64,
    outcome: DrainOutcome,
) -> bool {
    &&& s1.registry@ == s0.registry@
    &&& s1.live@ == s0.live@
    &&& s1.next_message_id == s0.next_message_id
    &&& r1.serves_interfaces == r0.serves_interfaces
    &&& match outcome {
        DrainOutcome::Idle => {
            &&& spec_reactor_first_match(r0, s0.queue@, pid) is None
            &&& s1.queue@ == s0.queue@
            &&& r1.spec_pending_view() == r0.spec_pending_view()
            &&& r1.inbox@ == r0.inbox@
        },
        DrainOutcome::ResponseArrived { message_id } => {
            let fm = spec_reactor_first_match(r0, s0.queue@, pid);
            &&& fm is Some
            &&& {
                let m = s0.queue@[fm->Some_0].message@;
                let ei = r0.spec_entry_index(message_id)->Some_0;
                &&& m is Response
                &&& m.correlation_id() == message_id
                &&& s1.queue@ == s0.queue@.remove(fm->Some_0)
                &&& r0.spec_entry_index(message_id) is Some
                &&& r0.spec_pending_view()[ei].response is None
                &&& r1.spec_pending_view() == r0.spec_pending_view().update(
                    ei,
                    PendingEntryView { message_id, response: Some(m.payload()) },
                )
                &&& r1.inbox@ == r0.inbox@
            }
        },
        DrainOutcome::ResponseDiscarded { message_id } => {
            let fm = spec_reactor_first_match(r0, s0.queue@, pid);
            &&& fm is Some
            &&& {
                let m = s0.queue@[fm->Some_0].message@;
                &&& m is Response
                &&& m.correlation_id() == message_id
                &&& !r0.spec_has_entry(message_id)
                &&& s1.queue@ == s0.queue@.remove(fm->Some_0)
                &&& r1.spec_pending_view() == r0.spec_pending_view()
                &&& r1.inbox@ == r0.inbox@
            }
        },
        DrainOutcome::InterfaceQueued => {
            let fm = spec_reactor_first_match(r0, s0.queue@, pid);
            &&& fm is Some
            &&& {
                let m = s0.queue@[fm->Some_0].message@;
                &&& m is Interface
                &&& r0.serves_interfaces
                &&& s1.queue@ == s0.queue@.remove(fm->Some_0)
                &&& r1.spec_pending_view() == r0.spec_pending_view()
                &&& r1.inbox@.len() == r0.inbox@.len() + 1
                &&& r1.inbox@.subrange(0, r0.inbox@.len() as int) == r0.inbox@
                &&& r1.inbox@.last()@ == m->Interface_0
            }
        },
    }
}

/// An interest list built from the reactor selects exactly the messages the
/// reactor accepts, whatever the queue holds.
proof fn lemma_interest_faithful(r: Reactor, s: SystemState, pid: u64, interest: Seq<u64>)
    requires
        r.wf(),
        s.wf(),
        forall|j: int|
            0 <= j < interest.len() ==> ((#[trigger] interest[j]) == ANY_INTERFACE_TOKEN
                && r.serves_interfaces) || r.spec_waiting(interest[j]),
        forall|id: u64| #[trigger] r.spec_waiting(id) ==> interest.contains(id),
        r.serves_interfaces ==> interest.contains(ANY_INTERFACE_TOKEN),
    ensures
        spec_first_match(s.queue@, pid, interest) == spec_reactor_first_match(r, s.queue@, pid),
        forall|k: int|
            0 <= k < s.queue@.len() ==> (spec_match_pred(pid, interest)(#[trigger] s.queue@[k])
                <==> spec_accept_pred(r, pid)(s.queue@[k])),
{
    assert forall|k: int| 0 <= k < s.queue@.len() implies (spec_match_pred(pid, interest)(
        #[trigger] s.queue@[k],
    ) <==> spec_accept_pred(r, pid)(s.queue@[k])) by {
        let e = s.queue@[k];
        let m = e.message@;
        assert(s.spec_envelope_wf(e));
        match m {
            MessageView::Response(rm) => {
                let id = rm.message_id;
                if interest.contains(id) {
                    let j = choose|j: int| 0 <= j < interest.len() && interest[j] == id;
                    assert(r.spec_waiting(id));
                }
            },
            MessageView::Interface(_) => {
                if interest.contains(ANY_INTERFACE_TOKEN) {
                    let j = choose|j: int|
                        0 <= j < interest.len() && interest[j] == ANY_INTERFACE_TOKEN;
                    if !r.serves_interfaces {
                        assert(r.spec_waiting(ANY_INTERFACE_TOKEN));
                        lemma_find(
                            r.spec_pending_view(),
                            spec_entry_pred(ANY_INTERFACE_TOKEN),
                        );
                    }
                }
            },
        }
    }
    lemma_find_ext(s.queue@, spec_match_pred(pid, interest), spec_accept_pred(r, pid));
}

/// A buffer of `n` zero bytes.
fn zero_buffer(n: usize) -> (r: Vec<u8>)
    ensures
        r@.len() == n,
{
    let mut r: Vec<u8> = Vec::new();
    let mut i: usize = 0;
    while i < n
        invariant
            r@.len() == i <= n,
        decreases n - i,
    {
        r.push(0u8);
        i = i + 1;
    }
    r
}

impl Reactor {
    /// The interest list for the next receive call: every identifier still
    /// awaiting its answer, plus [`ANY_INTERFACE_TOKEN`] when the process
    /// consumes interface messages.
    #[verifier::loop_isolation(false)]
    pub fn build_interest(&self) -> (tp: Vec<u64>)
        requires
            self.wf(),
        ensures
            forall|j: int|
                0 <= j < tp@.len() ==> ((#[trigger] tp@[j]) == ANY_INTERFACE_TOKEN
                    && self.serves_interfaces) || self.spec_waiting(tp@[j]),
            forall|id: u64| #[trigger] self.spec_waiting(id) ==> tp@.contains(id),
            self.serves_interfaces ==> tp@.contains(ANY_INTERFACE_TOKEN),
    {
        let ghost view = self.spec_pending_view();
        let mut tp: Vec<u64> = Vec::new();
        let mut i: usize = 0;
        while i < self.pending.len()
            invariant
                i <= self.pending@.len(),
                forall|j: int|
                    0 <= j < tp@.len() ==> self.spec_waiting(#[trigger] tp@[j]),
                forall|k: int|
                    0 <= k < i && view[k].response is None ==> tp@.contains(
                        (#[trigger] view[k]).message_id,
                    ),
            decreases self.pending@.len() - i,
        {
            if self.pending[i].response.is_none() {
                let id = self.pending[i].message_id;
                proof {
                    assert(spec_entry_pred(id)(view[i as int]));
                    lemma_find(view, spec_entry_pred(id));
                    assert(self.spec_entry_index(id) == Some(i as int));
                    assert(self.spec_waiting(id));
                }
                let ghost tp_before = tp@;
                tp.push(id);
                proof {
                    assert(tp@.contains(id)) by {
                        assert(tp@[tp_before.len() as int] == id);
                    }
                    assert forall|k: int|
                        0 <= k < i + 1 && view[k].response is None implies tp@.contains(
                        (#[trigger] view[k]).message_id,
                    ) by {
                        if k < i as int {
                            let w = choose|w: int|
                                0 <= w < tp_before.len() && tp_before[w] == view[k].message_id;
                            assert(tp@[w] == view[k].message_id);
                        }
                    }
                }
            }
            i = i + 1;
        }
        if self.serves_interfaces {
            let ghost tp_before = tp@;
            tp.push(ANY_INTERFACE_TOKEN);
            proof {
                assert(tp@[tp_before.len() as int] == ANY_INTERFACE_TOKEN);
                assert forall|id: u64| #[trigger] self.spec_waiting(id) implies tp@.contains(
                    id,
                ) by {
                    lemma_find(view, spec_entry_pred(id));
                    let ei = self.spec_entry_index(id)->Some_0;
                    assert(view[ei].response is None);
                    assert(tp_before.contains(id));
                    let w = choose|w: int| 0 <= w < tp_before.len() && tp_before[w] == id;
                    assert(tp@[w] == id);
                }
            }
        } else {
            proof {
                assert forall|id: u64| #[trigger] self.spec_waiting(id) implies tp@.contains(
                    id,
                ) by {
                    lemma_find(view, spec_entry_pred(id));
                    let ei = self.spec_entry_index(id)->Some_0;
                    assert(view[ei].response is None);
                }
            }
        }
        tp
    }

    /// One scheduling opportunity of the reactor: issue one receive call for
    /// the current interest set (retrying once with an exactly-sized buffer
    /// when the first matching message did not fit, which consumes nothing)
    /// and route what arrives.
    #[verifier::loop_isolation(false)]
    pub fn drain_once(&mut self, sys: &mut SystemState, pid: u64) -> (outcome: DrainOutcome)
        requires
            old(self).wf(),
            old(sys).wf(),
        ensures
            final(self).wf(),
            final(sys).wf(),
            spec_drain_transition(
                *old(self),
                *final(self),
                *old(sys),
                *final(sys),
                pid,
                outcome,
            ),
    {
        let mut to_poll = self.build_interest();
        let ghost interest = to_poll@;
        proof {
            lemma_interest_faithful(*self, *sys, pid, interest);
        }
        let ghost fm = spec_first_match(old(sys).queue@, pid, interest);
        let mut buf: Vec<u8> = Vec::new();
        loop
            invariant
                *self == *old(self),
                sys.registry@ == old(sys).registry@,
                sys.queue@ == old(sys).queue@,
                sys.live@ == old(sys).live@,
                sys.next_message_id == old(sys).next_message_id,
                to_poll@ == interest,
            decreases (if fm is Some && spec_message_encoding(
                old(sys).queue@[fm->Some_0].message@,
            ).len() <= buf@.len() {
                0int
            } else {
                1int
            }),
        {
            match sys.next_message(pid, &mut to_poll, &mut buf) {
                NextMessageOutcome::Nothing => {
                    return DrainOutcome::Idle;
                },
                NextMessageOutcome::TooSmall { required } => {
                    buf = zero_buffer(required);
                },
                NextMessageOutcome::Delivered { len } => {
                    let ghost qi = fm->Some_0;
                    let ghost delivered = old(sys).queue@[qi].message@;
                    proof {
                        lemma_find(old(sys).queue@, spec_match_pred(pid, interest));
                        assert(old(sys).spec_envelope_wf(old(sys).queue@[qi]));
                        lemma_message_round_trip(delivered);
                        assert(buf@.subrange(0, len as int) =~= spec_message_encoding(delivered));
                    }
                    let msg = match decode_message(slice_subrange(buf.as_slice(), 0, len)) {
                        Some(m) => m,
                        None => {
                            // Cannot happen: the primitive wrote a whole
                            // well-formed message.
                            return DrainOutcome::Idle;
                        },
                    };
                    proof {
                        assert(msg@ == delivered);
                    }
                    match msg {
                        Message::Interface(im) => {
                            let ghost inbox0 = self.inbox@;
                            self.inbox.push(im);
                            proof {
                                assert(self.inbox@.subrange(0, inbox0.len() as int) =~= inbox0);
                            }
                            return DrainOutcome::InterfaceQueued;
                        },
                        Message::Response(rm) => {
                            let mid = rm.message_id;
                            let ghost payload = rm.actual_data@;
                            match find_pending(&self.pending, mid) {
                                Some(ei) => {
                                    let ghost v0 = self.spec_pending_view();
                                    let _ = self.pending.remove(ei);
                                    self.pending.insert(
                                        ei,
                                        PendingEntry {
                                            message_id: mid,
                                            response: Some(rm.actual_data),
                                        },
                                    );
                                    proof {
                                        lemma_find(v0, spec_entry_pred(mid));
                                        assert(self.spec_pending_view() =~= v0.update(
                                            ei as int,
                                            PendingEntryView {
                                                message_id: mid,
                                                response: Some(payload),
                                            },
                                        ));
                                        assert forall|a: int, b: int|
                                            0 <= a < b < self.spec_pending_view().len() implies (
                                        #[trigger] self.spec_pending_view()[a]).message_id != (
                                        #[trigger] self.spec_pending_view()[b]).message_id by {
                                            assert(v0[a].message_id == self.spec_pending_view()[
                                                a
                                            ].message_id);
                                            assert(v0[b].message_id == self.spec_pending_view()[
                                                b
                                            ].message_id);
                                        }
                                        assert(old(self).spec_accepts(delivered));
                                        assert(old(self).spec_waiting(mid));
                                    }
                                    return DrainOutcome::ResponseArrived { message_id: mid };
                                },
                                None => {
                                    // A late answer for a retired entry is
                                    // discarded; with this reactor's interest
                                    // discipline the case cannot arise, but
                                    // tolerating it is part of the contract.
                                    return DrainOutcome::ResponseDiscarded { message_id: mid };
                                },
                            }
                        },
                    }
                },
            }
        }
    }
}

} // verus!
