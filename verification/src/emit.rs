//! The emitter API: typed emission of messages toward registered interfaces,
//! and one-shot response handles correlated by message identifier.

use vstd::prelude::*;

verus! {

use crate::codec::{DecodeAll, Encode, MAX_PAYLOAD_LEN};
use crate::reactor::{PendingEntryView, Reactor, spec_entry_pred};
use crate::search::lemma_find;
use crate::system::{
    SystemState, spec_cancel_transition, spec_emit_transition,
};
use core::marker::PhantomData;

/// Error returned by the functions that emit a message, or carried by a
/// response handle as its resolution.
#[derive(Debug, Clone, Copy, PartialEq, Eq, Structural)]
pub enum EmitErr {
    /// The given interface has no registered handler.
    BadInterface,
    /// The answer arrived but its payload did not decode to the expected
    /// type.  Fatal only to the one request it answers.
    InvalidResponsePayload,
}

/// Error returned by [`cancel_message`].
#[derive(Debug, Clone, Copy, PartialEq, Eq, Structural)]
pub enum CancelMessageErr {
    /// The message identifier is not live: never allocated, already
    /// answered, or already cancelled.
    InvalidMessageId,
}


/// Every pending entry of the reactor was keyed by an identifier this
/// environment allocated, so a freshly allocated identifier never collides
/// with one.
pub open spec fn spec_reactor_coupled(r: Reactor, s: SystemState) -> bool {
    forall|i: int|
        0 <= i < r.spec_pending_view().len() ==> (
        #[trigger] r.spec_pending_view()[i]).message_id < s.next_message_id
}

/// Emits an already-encoded payload toward the handler of `interface_hash`.
/// Fails, with no side effect at all, exactly when nobody has registered the
/// interface; allocates and returns a fresh live identifier exactly when an
/// answer is wanted.
pub fn emit_message_raw(
    sys: &mut SystemState,
    emitter_pid: u64,
    interface_hash: &[u8; 32],
    buf: &[u8],
    needs_answer: bool,
) -> (r: Result<Option<u64>, EmitErr>)
    requires
        old(sys).wf(),
        buf@.len() <= MAX_PAYLOAD_LEN,
        old(sys).next_message_id < u64::MAX,
    ensures
        final(sys).wf(),
        spec_emit_transition(
            *old(sys),
            *final(sys),
            emitter_pid,
            interface_hash@,
            buf@,
            needs_answer,
            r,
        ),
{
    sys.emit_message(emitter_pid, interface_hash, buf, needs_answer)
}

/// Emits a typed message toward the handler of `interface_hash`.  The
/// message is encoded and sent as is: no validity check is made beyond the
/// wire format, and whether the handler understands it is the caller's
/// concern.
pub fn emit_message<M: Encode>(
    sys: &mut SystemState,
    emitter_pid: u64,
    interface_hash: &[u8; 32],
    msg: &M,
    needs_answer: bool,
) -> (r: Result<Option<u64>, EmitErr>)
    requires
        old(sys).wf(),
        msg.encoding().len() <= MAX_PAYLOAD_LEN,
        old(sys).next_message_id < u64::MAX,
    ensures
        final(sys).wf(),
        spec_emit_transition(
            *old(sys),
            *final(sys),
            emitter_pid,
            interface_hash@,
            msg.encoding(),
            needs_answer,
            r,
        ),
{
    let bytes = msg.encode();
    emit_message_raw(sys, emitter_pid, interface_hash, bytes.as_slice(), needs_answer)
}

/// Emits a typed message and expects no answer: fire and forget.
pub fn emit_message_without_response<M: Encode>(
    sys: &mut SystemState,
    emitter_pid: u64,
    interface_hash: &[u8; 32],
    msg: &M,
) -> (r: Result<(), EmitErr>)
    requires
        old(sys).wf(),
        msg.encoding().len() <= MAX_PAYLOAD_LEN,
        old(sys).next_message_id < u64::MAX,
    ensures
        final(sys).wf(),
        spec_emit_transition(
            *old(sys),
            *final(sys),
            emitter_pid,
            interface_hash@,
            msg.encoding(),
            false,
            match r {
                Ok(_) => Ok(None),
                Err(e) => Err(e),
            },
        ),
{
    match emit_message(sys, emitter_pid, interface_hash, msg, false) {
        Ok(_) => Ok(()),
        Err(e) => Err(e),
    }
}

/// Cancels a live message: no answer will be delivered for it.  Fails,
/// changing nothing, when the identifier is not live — never allocated,
/// already answered, or already cancelled.
pub fn cancel_message(sys: &mut SystemState, message_id: u64) -> (r: Result<
    (),
    CancelMessageErr,
>)
    requires
        old(sys).wf(),
    ensures
        final(sys).wf(),
        spec_cancel_transition(*old(sys), *final(sys), message_id, r),
{
    sys.cancel_message(message_id)
}

/// One-shot, cancellable handle for the answer to an emitted request.
///
/// Born either awaiting a live identifier or already failed (when the
/// emission itself failed); resolves at most once, through [`Self::poll`];
/// torn down early through [`Self::retire`], which makes one best-effort
/// cancellation attempt.
pub struct EmitMessageWithResponse<T> {
    /// The identifier the answer is awaited for; `None` once resolved or
    /// when the emission already failed.
    inner: Option<u64>,
    /// The emission failure this handle resolves with, when emission failed.
    error: Option<EmitErr>,
    /// The type the answer's payload decodes to.
    decode_to: PhantomData<T>,
}

impl<T> EmitMessageWithResponse<T> {
    /// The identifier this handle awaits an answer for.
    pub closed spec fn spec_msg_id(self) -> Option<u64> {
        self.inner
    }

    /// The emission failure this handle will resolve with, if any.
    pub closed spec fn spec_pre_error(self) -> Option<EmitErr> {
        self.error
    }

    /// Whether the handle has already resolved: polling it again would be
    /// an error.
    pub open spec fn spec_is_resolved(self) -> bool {
        self.spec_msg_id() is None && self.spec_pre_error() is None
    }
}

/// Emits a typed message wanting an answer, and returns a handle that
/// resolves with the decoded answer.  When emission fails the handle is
/// already failed and no waiter is registered; otherwise a waiting entry
/// keyed by the fresh identifier is added to the reactor.
pub fn emit_message_with_response<M: Encode, T: DecodeAll>(
    sys: &mut SystemState,
    reactor: &mut Reactor,
    emitter_pid: u64,
    interface_hash: [u8; 32],
    msg: &M,
) -> (r: EmitMessageWithResponse<T>)
    requires
        old(sys).wf(),
        old(reactor).wf(),
        spec_reactor_coupled(*old(reactor), *old(sys)),
        msg.encoding().len() <= MAX_PAYLOAD_LEN,
        old(sys).next_message_id < u64::MAX,
    ensures
        final(sys).wf(),
        final(reactor).wf(),
        spec_reactor_coupled(*final(reactor), *final(sys)),
        final(reactor).serves_interfaces == old(reactor).serves_interfaces,
        final(reactor).inbox@ == old(reactor).inbox@,
        !r.spec_is_resolved(),
        ({
            let ok = old(sys).spec_is_registered(interface_hash@);
            let mid = old(sys).next_message_id;
            &&& spec_emit_transition(
                *old(sys),
                *final(sys),
                emitter_pid,
                interface_hash@,
                msg.encoding(),
                true,
                if ok {
                    Ok(Some(mid))
                } else {
                    Err(EmitErr::BadInterface)
                },
            )
            &&& if ok {
                &&& r.spec_msg_id() == Some(mid)
                &&& r.spec_pre_error() is None
                &&& final(reactor).spec_pending_view() == old(reactor).spec_pending_view().push(
                    PendingEntryView { message_id: mid, response: None },
                )
                &&& final(reactor).spec_waiting(mid)
            } else {
                &&& r.spec_msg_id() is None
                &&& r.spec_pre_error() == Some(EmitErr::BadInterface)
                &&& final(reactor).spec_pending_view() == old(reactor).spec_pending_view()
            }
        }),
{
    let mid_opt = match emit_message(sys, emitter_pid, &interface_hash, msg, true) {
        Ok(m) => m,
        Err(e) => {
            return EmitMessageWithResponse { inner: None, error: Some(e), decode_to: PhantomData };
        },
    };
    let mid = match mid_opt {
        Some(m) => m,
        None => {
            // Cannot happen: a successful emission wanting an answer always
            // returns the fresh identifier.
            return EmitMessageWithResponse {
                inner: None,
                error: Some(EmitErr::BadInterface),
                decode_to: PhantomData,
            };
        },
    };
    proof {
        lemma_find(reactor.spec_pending_view(), spec_entry_pred(mid));
    }
    reactor.register_waiter(mid);
    EmitMessageWithResponse { inner: Some(mid), error: None, decode_to: PhantomData }
}

impl<T: DecodeAll> EmitMessageWithResponse<T> {
    /// Polls the handle once.  `None` while the answer has not arrived yet;
    /// `Some` resolves the handle, with the decoded answer, with the
    /// emission failure it was born with, or with
    /// [`EmitErr::InvalidResponsePayload`] when the answer's payload does
    /// not decode to `T` — a protocol error fatal to this one request only.
    pub fn poll(&mut self, reactor: &mut Reactor) -> (r: Option<Result<T, EmitErr>>)
        requires
            old(reactor).wf(),
            !old(self).spec_is_resolved(),
        ensures
            final(reactor).wf(),
            final(reactor).serves_interfaces == old(reactor).serves_interfaces,
            final(reactor).inbox@ == old(reactor).inbox@,
            final(self).spec_is_resolved() == (r is Some),
            match old(self).spec_pre_error() {
                Some(e) => r == Some(Err::<T, EmitErr>(e)) && final(reactor).spec_pending_view()
                    == old(reactor).spec_pending_view(),
                None => {
                    let mid = old(self).spec_msg_id()->Some_0;
                    match r {
                        None => {
                            &&& final(self).spec_msg_id() == old(self).spec_msg_id()
                            &&& final(self).spec_pre_error() is None
                            &&& final(reactor).spec_pending_view() == old(
                                reactor,
                            ).spec_pending_view()
                            &&& (old(reactor).spec_has_entry(mid) ==> old(reactor).spec_waiting(
                                mid,
                            ))
                        },
                        Some(res) => {
                            let ei = old(reactor).spec_entry_index(mid)->Some_0;
                            let payload = old(reactor).spec_pending_view()[ei].response->Some_0;
                            &&& old(reactor).spec_entry_index(mid) is Some
                            &&& old(reactor).spec_pending_view()[ei].response is Some
                            &&& final(reactor).spec_pending_view() == old(
                                reactor,
                            ).spec_pending_view().remove(ei)
                            &&& !final(reactor).spec_has_entry(mid)
                            &&& res == (match T::spec_decoded(payload) {
                                Some(v) => Ok::<T, EmitErr>(v),
                                None => Err::<T, EmitErr>(EmitErr::InvalidResponsePayload),
                            })
                        },
                    }
                },
            },
    {
        match self.error {
            Some(e) => {
                self.inner = None;
                self.error = None;
                return Some(Err(e));
            },
            None => {},
        }
        let mid = match self.inner {
            Some(m) => m,
            None => {
                // Cannot happen: an unresolved handle without a stored
                // failure is awaiting an identifier.
                return None;
            },
        };
        match reactor.take_response(mid) {
            None => None,
            Some(payload) => {
                self.inner = None;
                match T::decode_all(payload.as_slice()) {
                    Some(v) => Some(Ok(v)),
                    None => Some(Err(EmitErr::InvalidResponsePayload)),
                }
            },
        }
    }

    /// Tears the handle down without waiting for the answer: removes its
    /// pending entry, so the reactor discards a late answer, and makes one
    /// best-effort cancellation attempt whose failure — an answer already in
    /// flight or already delivered — is swallowed.  Call this when the
    /// handle is given up before resolution.
    pub fn retire(&mut self, sys: &mut SystemState, reactor: &mut Reactor)
        requires
            old(sys).wf(),
            old(reactor).wf(),
        ensures
            final(sys).wf(),
            final(reactor).wf(),
            final(self).spec_is_resolved(),
            final(reactor).serves_interfaces == old(reactor).serves_interfaces,
            final(reactor).inbox@ == old(reactor).inbox@,
            final(sys).registry@ == old(sys).registry@,
            final(sys).queue@ == old(sys).queue@,
            final(sys).next_message_id == old(sys).next_message_id,
            match old(self).spec_msg_id() {
                Some(mid) => {
                    &&& !final(reactor).spec_has_entry(mid)
                    &&& final(reactor).spec_pending_view() == (match old(
                        reactor,
                    ).spec_entry_index(mid) {
                        Some(i) => old(reactor).spec_pending_view().remove(i),
                        None => old(reactor).spec_pending_view(),
                    })
                    &&& spec_cancel_transition(
                        *old(sys),
                        *final(sys),
                        mid,
                        if old(sys).spec_id_live(mid) {
                            Ok(())
                        } else {
                            Err(CancelMessageErr::InvalidMessageId)
                        },
                    )
                },
                None => {
                    &&& final(sys).live@ == old(sys).live@
                    &&& final(reactor).spec_pending_view() == old(reactor).spec_pending_view()
                },
            },
    {
        match self.inner {
            None => {
                self.error = None;
            },
            Some(mid) => {
                self.inner = None;
                self.error = None;
                reactor.remove_waiter(mid);
                let _ = sys.cancel_message(mid);
            },
        }
    }
}

} // verus!
