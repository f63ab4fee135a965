//! A reference implementation of the routing environment: the interface
//! registry, the live-request table, the delivery queue, and the multiplexed
//! receive primitive.
//!
//! The environment is modelled as one explicit state value threaded through
//! the calls, so that every routing rule is a proved contract: registration
//! is first-come-only, a message is queued exactly for the owner of its
//! interface, an answer is delivered at most once and only to the original
//! emitter, and receive hands messages out in arrival order among the ones
//! that match the caller's interest set.

use vstd::prelude::*;

verus! {

use crate::codec::MAX_PAYLOAD_LEN;
use crate::emit::{CancelMessageErr, EmitErr};
use crate::interface::InterfaceRegisterError;
use crate::message::{
    InterfaceMessage, InterfaceMessageView, Message, MessageView, ResponseMessage,
    ResponseMessageView, encode_message, spec_message_encoding,
};
use crate::search::{lemma_find, lemma_find_none, spec_find};
use vstd::slice::slice_to_vec;

/// Interest token meaning "any inbound interface message".  Message
/// identifiers and interest tokens share one numeric namespace; this value
/// and [`EMPTY_TOKEN`] are reserved, so allocated identifiers start at
/// [`FIRST_MESSAGE_ID`].
pub const ANY_INTERFACE_TOKEN: u64 = 1;

/// Interest-list padding; ignored by the receive primitive.
pub const EMPTY_TOKEN: u64 = 0;

/// Smallest message identifier the environment ever allocates.
pub const FIRST_MESSAGE_ID: u64 = 2;

/// One recorded registration: the interface and the process that owns it.
#[derive(Debug, Clone, PartialEq, Eq)]
pub struct Registration {
    pub interface: [u8; 32],
    pub pid: u64,
}

/// One queued message together with the process it is destined for.
#[derive(Debug, Clone, PartialEq, Eq)]
pub struct Envelope {
    pub dest_pid: u64,
    pub message: Message,
}

/// One outstanding request that still awaits its answer.
#[derive(Debug, Clone, Copy, PartialEq, Eq, Structural)]
pub struct LiveRequest {
    pub message_id: u64,
    pub emitter_pid: u64,
}

/// The whole routing environment.
#[derive(Debug, Clone, PartialEq, Eq)]
pub struct SystemState {
    /// Which process owns which interface; at most one owner each.
    pub registry: Vec<Registration>,
    /// Messages accepted for delivery, in arrival order.
    pub queue: Vec<Envelope>,
    /// Message identifiers that are live: allocated and not yet answered or
    /// cancelled.
    pub live: Vec<LiveRequest>,
    /// The next identifier to allocate; never reused here.
    pub next_message_id: u64,
}

/// The interest token a message is handed out for: its own identifier for a
/// response, the "any interface message" token otherwise.
pub open spec fn spec_wanted_token(m: MessageView) -> u64 {
    match m {
        MessageView::Interface(_) => ANY_INTERFACE_TOKEN,
        MessageView::Response(rm) => rm.message_id,
    }
}

/// Whether an interest list accepts a message.
pub open spec fn spec_matches_interest(interest: Seq<u64>, m: MessageView) -> bool {
    interest.contains(spec_wanted_token(m))
}

/// Whether a queued message may be handed to `pid` polling `interest`.
pub open spec fn spec_envelope_matches(e: Envelope, pid: u64, interest: Seq<u64>) -> bool {
    e.dest_pid == pid && spec_matches_interest(interest, e.message@)
}

/// The predicate a queued message must satisfy to be handed to `pid`
/// polling `interest`.
pub open spec fn spec_match_pred(pid: u64, interest: Seq<u64>) -> spec_fn(Envelope) -> bool {
    |e: Envelope| spec_envelope_matches(e, pid, interest)
}

/// Index of the first queued message that `pid` polling `interest` would
/// receive.
pub open spec fn spec_first_match(q: Seq<Envelope>, pid: u64, interest: Seq<u64>) -> Option<int> {
    spec_find(q, spec_match_pred(pid, interest))
}

/// The predicate a registration must satisfy to own `interface`.
pub open spec fn spec_owner_pred(interface: Seq<u8>) -> spec_fn(Registration) -> bool {
    |x: Registration| x.interface@ == interface
}

/// The predicate a live request must satisfy to carry `message_id`.
pub open spec fn spec_live_pred(message_id: u64) -> spec_fn(LiveRequest) -> bool {
    |l: LiveRequest| l.message_id == message_id
}

impl SystemState {
    /// Index of the registration owning `interface`, if any.
    pub open spec fn spec_owner_index(self, interface: Seq<u8>) -> Option<int> {
        spec_find(self.registry@, spec_owner_pred(interface))
    }

    /// Whether some process has registered `interface`.
    pub open spec fn spec_is_registered(self, interface: Seq<u8>) -> bool {
        self.spec_owner_index(interface) is Some
    }

    /// The process owning `interface`; meaningful only when registered.
    pub open spec fn spec_owner_pid(self, interface: Seq<u8>) -> u64 {
        self.registry@[self.spec_owner_index(interface)->Some_0].pid
    }

    /// Index of the live request with this identifier, if any.
    pub open spec fn spec_live_index(self, message_id: u64) -> Option<int> {
        spec_find(self.live@, spec_live_pred(message_id))
    }

    /// Whether `message_id` is live: allocated and not yet retired.
    pub open spec fn spec_id_live(self, message_id: u64) -> bool {
        self.spec_live_index(message_id) is Some
    }

    /// The emitter that the answer to `message_id` must go back to;
    /// meaningful only while the identifier is live.
    pub open spec fn spec_live_emitter(self, message_id: u64) -> u64 {
        self.live@[self.spec_live_index(message_id)->Some_0].emitter_pid
    }

    /// Everything the environment keeps true of itself.
    pub open spec fn wf(self) -> bool {
        &&& FIRST_MESSAGE_ID <= self.next_message_id
        &&& (forall|i: int, j: int|
            0 <= i < j < self.registry@.len() ==> (#[trigger] self.registry@[i]).interface@ != (
            #[trigger] self.registry@[j]).interface@)
        &&& (forall|i: int, j: int|
            0 <= i < j < self.live@.len() ==> (#[trigger] self.live@[i]).message_id != (
            #[trigger] self.live@[j]).message_id)
        &&& (forall|i: int|
            0 <= i < self.live@.len() ==> FIRST_MESSAGE_ID <= (
            #[trigger] self.live@[i]).message_id < self.next_message_id)
        &&& (forall|i: int|
            0 <= i < self.queue@.len() ==> self.spec_envelope_wf(#[trigger] self.queue@[i]))
        &&& (forall|i: int, j: int|
            0 <= i < j < self.queue@.len() && (#[trigger] self.queue@[i]).message@ is Response
                && (#[trigger] self.queue@[j]).message@ is Response
                ==> self.queue@[i].message@.correlation_id()
                != self.queue@[j].message@.correlation_id())
    }

    /// What holds of every queued message: its payload fits the wire format;
    /// a response identifier was allocated and is no longer live, so a
    /// response is delivered at most once; an interface-message identifier
    /// is zero or allocated.
    pub open spec fn spec_envelope_wf(self, e: Envelope) -> bool {
        &&& e.message@.payload_fits()
        &&& match e.message@ {
            MessageView::Interface(im) => im.message_id == 0 || (FIRST_MESSAGE_ID
                <= im.message_id < self.next_message_id),
            MessageView::Response(rm) => FIRST_MESSAGE_ID <= rm.message_id
                < self.next_message_id && !self.spec_id_live(rm.message_id),
        }
    }

    /// A fresh environment: nothing registered, nothing queued, nothing
    /// live.
    pub fn new() -> (s: SystemState)
        ensures
            s.wf(),
            s.registry@.len() == 0,
            s.queue@.len() == 0,
            s.live@.len() == 0,
            s.next_message_id == FIRST_MESSAGE_ID,
    {
        SystemState {
            registry: Vec::new(),
            queue: Vec::new(),
            live: Vec::new(),
            next_message_id: FIRST_MESSAGE_ID,
        }
    }

    /// Registers `pid` as the handler of `interface`: first registrant wins,
    /// any later attempt fails and changes nothing.
    pub fn register_interface(&mut self, pid: u64, interface: &[u8; 32]) -> (r: Result<
        (),
        InterfaceRegisterError,
    >)
        requires
            old(self).wf(),
        ensures
            final(self).wf(),
            spec_register_transition(*old(self), *final(self), pid, interface@, r),
    {
        match find_owner(&self.registry, interface) {
            Some(_) => Err(InterfaceRegisterError::AlreadyRegistered),
            None => {
                proof {
                    lemma_find(self.registry@, spec_owner_pred(interface@));
                }
                let ghost regs0 = self.registry@;
                self.registry.push(Registration { interface: *interface, pid });
                proof {
                    assert(self.registry@.subrange(0, regs0.len() as int) =~= regs0);
                    assert(spec_owner_pred(interface@)(self.registry@.last()));
                    lemma_find(self.registry@, spec_owner_pred(interface@));
                    assert forall|i: int, j: int|
                        0 <= i < j < self.registry@.len() implies self.registry@[i].interface@
                        != self.registry@[j].interface@ by {
                        if j == regs0.len() as int {
                            assert(!spec_owner_pred(interface@)(regs0[i]));
                        }
                    }
                }
                Ok(())
            },
        }
    }
}

/// How one `register_interface` call relates the state before it to the
/// state after it and to its result.
pub open spec fn spec_register_transition(
    s0: SystemState,
    s1: SystemState,
    pid: u64,
    interface: Seq<u8>,
    r: Result<(), InterfaceRegisterError>,
) -> bool {
    &&& s1.queue@ == s0.queue@
    &&& s1.live@ == s0.live@
    &&& s1.next_message_id == s0.next_message_id
    &&& if s0.spec_is_registered(interface) {
        &&& r == Err::<(), InterfaceRegisterError>(InterfaceRegisterError::AlreadyRegistered)
        &&& s1.registry@ == s0.registry@
    } else {
        &&& r == Ok::<(), InterfaceRegisterError>(())
        &&& s1.registry@.len() == s0.registry@.len() + 1
        &&& s1.registry@.subrange(0, s0.registry@.len() as int) == s0.registry@
        &&& s1.registry@.last().interface@ == interface
        &&& s1.registry@.last().pid == pid
    }
    &&& s1.spec_is_registered(interface)
}

/// Compares two interface identifiers byte for byte.
pub fn interface_eq(a: &[u8; 32], b: &[u8; 32]) -> (r: bool)
    ensures
        r == (a@ == b@),
{
    let mut i: usize = 0;
    while i < 32
        invariant
            i <= 32,
            forall|k: int| 0 <= k < i ==> a@[k] == b@[k],
        decreases 32 - i,
    {
        if a[i] != b[i] {
            return false;
        }
        i = i + 1;
    }
    assert(a@ =~= b@);
    true
}

/// Index of the registration owning `interface`, if any.
fn find_owner(registry: &Vec<Registration>, interface: &[u8; 32]) -> (r: Option<usize>)
    ensures
        match r {
            Some(i) => i < registry@.len() && spec_find(registry@, spec_owner_pred(interface@))
                == Some(i as int),
            None => spec_find(registry@, spec_owner_pred(interface@)) is None,
        },
{
    let mut i: usize = 0;
    while i < registry.len()
        invariant
            i <= registry@.len(),
            crate::search::spec_find_from(registry@, spec_owner_pred(interface@), 0)
                == crate::search::spec_find_from(registry@, spec_owner_pred(interface@), i as int),
        decreases registry@.len() - i,
    {
        if interface_eq(&registry[i].interface, interface) {
            assert(spec_owner_pred(interface@)(registry@[i as int]));
            return Some(i);
        }
        assert(!spec_owner_pred(interface@)(registry@[i as int]));
        i = i + 1;
    }
    None
}


impl SystemState {
    /// Routes a message to the owner of `interface_hash`: fails without any
    /// effect when nobody owns it, otherwise queues one interface message
    /// for the owner and, when an answer is wanted, allocates a fresh live
    /// identifier and returns it.
    pub fn emit_message(
        &mut self,
        emitter_pid: u64,
        interface_hash: &[u8; 32],
        payload: &[u8],
        needs_answer: bool,
    ) -> (r: Result<Option<u64>, EmitErr>)
        requires
            old(self).wf(),
            payload@.len() <= MAX_PAYLOAD_LEN,
            old(self).next_message_id < u64::MAX,
        ensures
            final(self).wf(),
            spec_emit_transition(
                *old(self),
                *final(self),
                emitter_pid,
                interface_hash@,
                payload@,
                needs_answer,
                r,
            ),
    {
        let owner: u64 = match find_owner(&self.registry, interface_hash) {
            Some(i) => self.registry[i].pid,
            None => {
                return Err(EmitErr::BadInterface);
            },
        };
        let message_id: u64 = if needs_answer {
            self.next_message_id
        } else {
            0
        };
        let data = slice_to_vec(payload);
        let ghost s0 = *self;
        self.queue.push(
            Envelope {
                dest_pid: owner,
                message: Message::Interface(
                    InterfaceMessage { message_id, emitter_pid, actual_data: data },
                ),
            },
        );
        if needs_answer {
            self.live.push(LiveRequest { message_id, emitter_pid });
            self.next_message_id = self.next_message_id + 1;
        }
        proof {
            assert(self.queue@.subrange(0, s0.queue@.len() as int) =~= s0.queue@);
            assert forall|i: int| 0 <= i < self.queue@.len() implies self.spec_envelope_wf(
                #[trigger] self.queue@[i],
            ) by {
                let e = self.queue@[i];
                if i < s0.queue@.len() {
                    assert(s0.spec_envelope_wf(e));
                    if e.message@ is Response {
                        let rid = e.message@->Response_0.message_id;
                        lemma_find(s0.live@, spec_live_pred(rid));
                        lemma_find_none(self.live@, spec_live_pred(rid));
                    }
                }
            }
            if needs_answer {
                lemma_find(s0.live@, spec_live_pred(message_id));
            }
        }
        Ok(
            if needs_answer {
                Some(message_id)
            } else {
                None
            },
        )
    }

    /// Sends the answer to a live request back to its original emitter and
    /// retires the identifier; fails without any effect when the identifier
    /// is not live.
    pub fn emit_answer(&mut self, message_id: u64, payload: &[u8]) -> (r: Result<
        (),
        CancelMessageErr,
    >)
        requires
            old(self).wf(),
            payload@.len() <= MAX_PAYLOAD_LEN,
        ensures
            final(self).wf(),
            spec_answer_transition(*old(self), *final(self), message_id, payload@, r),
    {
        let i = match find_live(&self.live, message_id) {
            Some(i) => i,
            None => {
                return Err(CancelMessageErr::InvalidMessageId);
            },
        };
        let emitter_pid = self.live[i].emitter_pid;
        let ghost s0 = *self;
        self.live.remove(i);
        let data = slice_to_vec(payload);
        self.queue.push(
            Envelope {
                dest_pid: emitter_pid,
                message: Message::Response(ResponseMessage { message_id, actual_data: data }),
            },
        );
        proof {
            lemma_find(s0.live@, spec_live_pred(message_id));
            assert(self.queue@.subrange(0, s0.queue@.len() as int) =~= s0.queue@);
            assert forall|a: int, b: int|
                0 <= a < b < self.live@.len() implies (#[trigger] self.live@[a]).message_id != (
            #[trigger] self.live@[b]).message_id by {
                assert(self.live@[a] == if a < i { s0.live@[a] } else { s0.live@[a + 1] });
                assert(self.live@[b] == if b < i { s0.live@[b] } else { s0.live@[b + 1] });
            }
            assert forall|k: int| 0 <= k < self.live@.len() implies !spec_live_pred(message_id)(
                #[trigger] self.live@[k],
            ) by {
                assert(self.live@[k] == if k < i { s0.live@[k] } else { s0.live@[k + 1] });
            }
            lemma_find_none(self.live@, spec_live_pred(message_id));
            assert forall|k: int| 0 <= k < self.queue@.len() implies self.spec_envelope_wf(
                #[trigger] self.queue@[k],
            ) by {
                let e = self.queue@[k];
                if k < s0.queue@.len() {
                    assert(s0.spec_envelope_wf(e));
                    if e.message@ is Response {
                        let rid = e.message@->Response_0.message_id;
                        lemma_find(s0.live@, spec_live_pred(rid));
                        assert forall|m: int|
                            0 <= m < self.live@.len() implies !spec_live_pred(rid)(
                        #[trigger] self.live@[m]) by {
                            assert(self.live@[m] == if m < i {
                                s0.live@[m]
                            } else {
                                s0.live@[m + 1]
                            });
                        }
                        lemma_find_none(self.live@, spec_live_pred(rid));
                    }
                } else {
                    assert(e.message@ is Response);
                }
            }
            assert forall|a: int, b: int|
                0 <= a < b < self.queue@.len() && (#[trigger] self.queue@[a]).message@ is Response
                    && (#[trigger] self.queue@[b]).message@ is Response implies self.queue@[a]
                .message@.correlation_id() != self.queue@[b].message@.correlation_id() by {
                if b == s0.queue@.len() as int {
                    assert(s0.spec_envelope_wf(s0.queue@[a]));
                }
            }
        }
        Ok(())
    }

    /// Retires a live identifier without answering it: no answer will ever
    /// be delivered for it.  Fails without any effect when the identifier is
    /// not live.
    pub fn cancel_message(&mut self, message_id: u64) -> (r: Result<(), CancelMessageErr>)
        requires
            old(self).wf(),
        ensures
            final(self).wf(),
            spec_cancel_transition(*old(self), *final(self), message_id, r),
    {
        let i = match find_live(&self.live, message_id) {
            Some(i) => i,
            None => {
                return Err(CancelMessageErr::InvalidMessageId);
            },
        };
        let ghost s0 = *self;
        self.live.remove(i);
        proof {
            lemma_find(s0.live@, spec_live_pred(message_id));
            assert forall|a: int, b: int|
                0 <= a < b < self.live@.len() implies (#[trigger] self.live@[a]).message_id != (
            #[trigger] self.live@[b]).message_id by {
                assert(self.live@[a] == if a < i { s0.live@[a] } else { s0.live@[a + 1] });
                assert(self.live@[b] == if b < i { s0.live@[b] } else { s0.live@[b + 1] });
            }
            assert forall|k: int| 0 <= k < self.queue@.len() implies self.spec_envelope_wf(
                #[trigger] self.queue@[k],
            ) by {
                let e = self.queue@[k];
                assert(s0.spec_envelope_wf(e));
                if e.message@ is Response {
                    let rid = e.message@->Response_0.message_id;
                    lemma_find(s0.live@, spec_live_pred(rid));
                    assert forall|m: int|
                        0 <= m < self.live@.len() implies !spec_live_pred(rid)(
                    #[trigger] self.live@[m]) by {
                        assert(self.live@[m] == if m < i { s0.live@[m] } else { s0.live@[m + 1] });
                    }
                    lemma_find_none(self.live@, spec_live_pred(rid));
                }
            }
        }
        Ok(())
    }
}

/// How one kernel-side `emit_message` call relates the state before it to
/// the state after it and to its result.
pub open spec fn spec_emit_transition(
    s0: SystemState,
    s1: SystemState,
    emitter_pid: u64,
    interface: Seq<u8>,
    payload: Seq<u8>,
    needs_answer: bool,
    r: Result<Option<u64>, EmitErr>,
) -> bool {
    &&& s1.registry@ == s0.registry@
    &&& if !s0.spec_is_registered(interface) {
        &&& r == Err::<Option<u64>, EmitErr>(EmitErr::BadInterface)
        &&& s1.queue@ == s0.queue@
        &&& s1.live@ == s0.live@
        &&& s1.next_message_id == s0.next_message_id
    } else {
        &&& s1.queue@.len() == s0.queue@.len() + 1
        &&& s1.queue@.subrange(0, s0.queue@.len() as int) == s0.queue@
        &&& s1.queue@.last().dest_pid == s0.spec_owner_pid(interface)
        &&& s1.queue@.last().message@ == MessageView::Interface(
            InterfaceMessageView {
                message_id: if needs_answer {
                    s0.next_message_id
                } else {
                    0u64
                },
                emitter_pid,
                actual_data: payload,
            },
        )
        &&& if needs_answer {
            &&& r == Ok::<Option<u64>, EmitErr>(Some(s0.next_message_id))
            &&& s1.live@ == s0.live@.push(
                LiveRequest { message_id: s0.next_message_id, emitter_pid },
            )
            &&& s1.next_message_id == s0.next_message_id + 1
        } else {
            &&& r == Ok::<Option<u64>, EmitErr>(None)
            &&& s1.live@ == s0.live@
            &&& s1.next_message_id == s0.next_message_id
        }
    }
}

/// How one `emit_answer` call relates the state before it to the state
/// after it and to its result.
pub open spec fn spec_answer_transition(
    s0: SystemState,
    s1: SystemState,
    message_id: u64,
    payload: Seq<u8>,
    r: Result<(), CancelMessageErr>,
) -> bool {
    &&& s1.registry@ == s0.registry@
    &&& s1.next_message_id == s0.next_message_id
    &&& if !s0.spec_id_live(message_id) {
        &&& r == Err::<(), CancelMessageErr>(CancelMessageErr::InvalidMessageId)
        &&& s1.queue@ == s0.queue@
        &&& s1.live@ == s0.live@
    } else {
        &&& r == Ok::<(), CancelMessageErr>(())
        &&& s1.live@ == s0.live@.remove(s0.spec_live_index(message_id)->Some_0)
        &&& s1.queue@.len() == s0.queue@.len() + 1
        &&& s1.queue@.subrange(0, s0.queue@.len() as int) == s0.queue@
        &&& s1.queue@.last().dest_pid == s0.spec_live_emitter(message_id)
        &&& s1.queue@.last().message@ == MessageView::Response(
            ResponseMessageView { message_id, actual_data: payload },
        )
    }
}

/// How one kernel-side `cancel_message` call relates the state before it to
/// the state after it and to its result.
pub open spec fn spec_cancel_transition(
    s0: SystemState,
    s1: SystemState,
    message_id: u64,
    r: Result<(), CancelMessageErr>,
) -> bool {
    &&& s1.registry@ == s0.registry@
    &&& s1.queue@ == s0.queue@
    &&& s1.next_message_id == s0.next_message_id
    &&& if !s0.spec_id_live(message_id) {
        &&& r == Err::<(), CancelMessageErr>(CancelMessageErr::InvalidMessageId)
        &&& s1.live@ == s0.live@
    } else {
        &&& r == Ok::<(), CancelMessageErr>(())
        &&& s1.live@ == s0.live@.remove(s0.spec_live_index(message_id)->Some_0)
    }
}

/// Index of the live request carrying `message_id`, if any.
fn find_live(live: &Vec<LiveRequest>, message_id: u64) -> (r: Option<usize>)
    ensures
        match r {
            Some(i) => i < live@.len() && spec_find(live@, spec_live_pred(message_id)) == Some(
                i as int,
            ),
            None => spec_find(live@, spec_live_pred(message_id)) is None,
        },
{
    let mut i: usize = 0;
    while i < live.len()
        invariant
            i <= live@.len(),
            crate::search::spec_find_from(live@, spec_live_pred(message_id), 0)
                == crate::search::spec_find_from(live@, spec_live_pred(message_id), i as int),
        decreases live@.len() - i,
    {
        if live[i].message_id == message_id {
            assert(spec_live_pred(message_id)(live@[i as int]));
            return Some(i);
        }
        assert(!spec_live_pred(message_id)(live@[i as int]));
        i = i + 1;
    }
    None
}


/// What one receive call reports: nothing matched; the first matching
/// message needs a larger buffer; or a message of `len` bytes was written.
#[derive(Debug, Clone, Copy, PartialEq, Eq, Structural)]
pub enum NextMessageOutcome {
    /// No queued message matches the interest list.
    Nothing,
    /// The first matching message is `required` bytes long, which exceeds
    /// the destination buffer; nothing was written or consumed.
    TooSmall { required: usize },
    /// The first matching message was written to the first `len` bytes of
    /// the destination buffer and consumed.
    Delivered { len: usize },
}

/// The predicate an interest entry must satisfy to carry `token`.
pub open spec fn spec_token_pred(token: u64) -> spec_fn(u64) -> bool {
    |x: u64| x == token
}

/// How one receive call relates the state, the interest list and the
/// destination buffer before it to those after it and to its outcome.
pub open spec fn spec_next_message_transition(
    s0: SystemState,
    s1: SystemState,
    pid: u64,
    tp0: Seq<u64>,
    tp1: Seq<u64>,
    out0: Seq<u8>,
    out1: Seq<u8>,
    r: NextMessageOutcome,
) -> bool {
    &&& s1.registry@ == s0.registry@
    &&& s1.live@ == s0.live@
    &&& s1.next_message_id == s0.next_message_id
    &&& match r {
        NextMessageOutcome::Nothing => {
            &&& spec_first_match(s0.queue@, pid, tp0) is None
            &&& s1.queue@ == s0.queue@
            &&& tp1 == tp0
            &&& out1 == out0
        },
        NextMessageOutcome::TooSmall { required } => {
            let fm = spec_first_match(s0.queue@, pid, tp0);
            &&& fm is Some
            &&& required == spec_message_encoding(s0.queue@[fm->Some_0].message@).len()
            &&& required > out0.len()
            &&& s1.queue@ == s0.queue@
            &&& tp1 == tp0
            &&& out1 == out0
        },
        NextMessageOutcome::Delivered { len } => {
            let fm = spec_first_match(s0.queue@, pid, tp0);
            &&& fm is Some
            &&& {
                let i = fm->Some_0;
                let m = s0.queue@[i].message@;
                let enc = spec_message_encoding(m);
                let ti = spec_find(tp0, spec_token_pred(spec_wanted_token(m)));
                &&& len == enc.len() <= out0.len()
                &&& s1.queue@ == s0.queue@.remove(i)
                &&& out1 == enc + out0.skip(len as int)
                &&& ti is Some
                &&& tp1 == tp0.update(ti->Some_0, EMPTY_TOKEN)
            }
        },
    }
}

impl SystemState {
    /// The multiplexed receive primitive.  Among the queued messages
    /// destined for `pid`, takes the oldest one matching the interest list
    /// `to_poll`: a `to_poll` entry equal to a live message identifier
    /// matches the response to that request, an entry equal to
    /// [`ANY_INTERFACE_TOKEN`] matches any interface message, and entries
    /// equal to [`EMPTY_TOKEN`] are padding (no identifier is ever allocated
    /// below [`FIRST_MESSAGE_ID`], so padding matches nothing).
    ///
    /// When the oldest matching message fits, its encoding is written over
    /// the front of `out`, the message is consumed, and the interest entry
    /// that matched it is cleared to [`EMPTY_TOKEN`]; when it does not fit,
    /// its encoded size is reported and nothing changes.  Messages that
    /// match nothing stay queued, in order, for later calls.
    ///
    /// The kernel primitive this models can also suspend the caller until a
    /// message arrives; in this single-image environment the caller is the
    /// only thread, so only the non-suspending form exists and a miss is
    /// reported as [`NextMessageOutcome::Nothing`].
    pub fn next_message(&mut self, pid: u64, to_poll: &mut Vec<u64>, out: &mut Vec<u8>) -> (r:
        NextMessageOutcome)
        requires
            old(self).wf(),
        ensures
            final(self).wf(),
            spec_next_message_transition(
                *old(self),
                *final(self),
                pid,
                old(to_poll)@,
                final(to_poll)@,
                old(out)@,
                final(out)@,
                r,
            ),
    {
        let i = match find_first_match(&self.queue, pid, to_poll) {
            Some(i) => i,
            None => {
                return NextMessageOutcome::Nothing;
            },
        };
        proof {
            lemma_find(self.queue@, spec_match_pred(pid, to_poll@));
            assert(self.spec_envelope_wf(self.queue@[i as int]));
        }
        let enc = encode_message(&self.queue[i].message);
        if enc.len() > out.len() {
            return NextMessageOutcome::TooSmall { required: enc.len() };
        }
        let len = enc.len();
        let ghost s0 = *self;
        let env = self.queue.remove(i);
        let token: u64 = match &env.message {
            Message::Response(rm) => rm.message_id,
            Message::Interface(_) => ANY_INTERFACE_TOKEN,
        };
        let j = match find_token(to_poll, token) {
            Some(j) => j,
            None => {
                // Cannot happen: the message was selected because the
                // interest list contains its token.
                proof {
                    let interest = to_poll@;
                    assert(token == spec_wanted_token(env.message@));
                    assert(spec_matches_interest(interest, env.message@));
                    let k = choose|k: int|
                        0 <= k < interest.len() && interest[k] == spec_wanted_token(env.message@);
                    assert(spec_token_pred(token)(interest[k]));
                    lemma_find(interest, spec_token_pred(token));
                }
                return NextMessageOutcome::Nothing;
            },
        };
        let _ = to_poll.remove(j);
        to_poll.insert(j, EMPTY_TOKEN);
        write_prefix(out, enc);
        proof {
            assert(to_poll@ =~= old(to_poll)@.update(j as int, EMPTY_TOKEN));
            assert forall|k: int| 0 <= k < self.queue@.len() implies self.spec_envelope_wf(
                #[trigger] self.queue@[k],
            ) by {
                assert(self.queue@[k] == if k < i as int {
                    s0.queue@[k]
                } else {
                    s0.queue@[k + 1]
                });
                assert(s0.spec_envelope_wf(self.queue@[k]));
            }
            assert forall|a: int, b: int|
                0 <= a < b < self.queue@.len() && (#[trigger] self.queue@[a]).message@ is Response
                    && (#[trigger] self.queue@[b]).message@ is Response implies self.queue@[a]
                .message@.correlation_id() != self.queue@[b].message@.correlation_id() by {
                assert(self.queue@[a] == if a < i as int {
                    s0.queue@[a]
                } else {
                    s0.queue@[a + 1]
                });
                assert(self.queue@[b] == if b < i as int {
                    s0.queue@[b]
                } else {
                    s0.queue@[b + 1]
                });
            }
        }
        NextMessageOutcome::Delivered { len }
    }
}

/// Overwrites the front of `out` with `data`, leaving the rest in place.
fn write_prefix(out: &mut Vec<u8>, data: Vec<u8>)
    requires
        data@.len() <= old(out)@.len(),
    ensures
        final(out)@ == data@ + old(out)@.skip(data@.len() as int),
{
    let ghost data0 = data@;
    let len = data.len();
    let mut merged = data;
    let mut k: usize = len;
    while k < out.len()
        invariant
            len <= k <= out@.len(),
            out@ == old(out)@,
            len == data0.len(),
            merged@ == data0 + out@.subrange(len as int, k as int),
        decreases out@.len() - k,
    {
        merged.push(out[k]);
        k = k + 1;
        assert(merged@ =~= data0 + out@.subrange(len as int, k as int));
    }
    *out = merged;
    assert(out@ =~= data0 + old(out)@.skip(len as int));
}

/// Whether the interest list accepts the message, executably.
fn matches_interest(to_poll: &Vec<u64>, m: &Message) -> (r: bool)
    ensures
        r == spec_matches_interest(to_poll@, m@),
{
    let token: u64 = match m {
        Message::Response(rm) => rm.message_id,
        Message::Interface(_) => ANY_INTERFACE_TOKEN,
    };
    match find_token(to_poll, token) {
        Some(j) => {
            proof {
                lemma_find(to_poll@, spec_token_pred(token));
                assert(to_poll@[spec_find(to_poll@, spec_token_pred(token))->Some_0] == token);
            }
            true
        },
        None => {
            proof {
                lemma_find(to_poll@, spec_token_pred(token));
                if to_poll@.contains(token) {
                    let k = choose|k: int| 0 <= k < to_poll@.len() && to_poll@[k] == token;
                    assert(spec_token_pred(token)(to_poll@[k]));
                }
            }
            false
        },
    }
}

/// Index of the first interest entry equal to `token`, if any.
fn find_token(to_poll: &Vec<u64>, token: u64) -> (r: Option<usize>)
    ensures
        match r {
            Some(j) => j < to_poll@.len() && spec_find(to_poll@, spec_token_pred(token)) == Some(
                j as int,
            ),
            None => spec_find(to_poll@, spec_token_pred(token)) is None,
        },
{
    let mut i: usize = 0;
    while i < to_poll.len()
        invariant
            i <= to_poll@.len(),
            crate::search::spec_find_from(to_poll@, spec_token_pred(token), 0)
                == crate::search::spec_find_from(to_poll@, spec_token_pred(token), i as int),
        decreases to_poll@.len() - i,
    {
        if to_poll[i] == token {
            assert(spec_token_pred(token)(to_poll@[i as int]));
            return Some(i);
        }
        assert(!spec_token_pred(token)(to_poll@[i as int]));
        i = i + 1;
    }
    None
}

/// Index of the oldest queued message that `pid` polling `to_poll` would
/// receive, if any.
fn find_first_match(queue: &Vec<Envelope>, pid: u64, to_poll: &Vec<u64>) -> (r: Option<usize>)
    ensures
        match r {
            Some(i) => i < queue@.len() && spec_first_match(queue@, pid, to_poll@) == Some(
                i as int,
            ),
            None => spec_first_match(queue@, pid, to_poll@) is None,
        },
{
    let mut i: usize = 0;
    while i < queue.len()
        invariant
            i <= queue@.len(),
            crate::search::spec_find_from(queue@, spec_match_pred(pid, to_poll@), 0)
                == crate::search::spec_find_from(queue@, spec_match_pred(pid, to_poll@), i as int),
        decreases queue@.len() - i,
    {
        let hit = queue[i].dest_pid == pid && matches_interest(to_poll, &queue[i].message);
        if hit {
            assert(spec_match_pred(pid, to_poll@)(queue@[i as int]));
            return Some(i);
        }
        assert(!spec_match_pred(pid, to_poll@)(queue@[i as int]));
        i = i + 1;
    }
    None
}

} // verus!
