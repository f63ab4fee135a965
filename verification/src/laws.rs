//! The crate-level guarantees, each proved once and for all over the
//! transition relations that the executable functions ensure.

use vstd::prelude::*;

verus! {

use crate::emit::{CancelMessageErr, EmitErr};
use crate::interface::InterfaceRegisterError;
use crate::message::spec_message_encoding;
use crate::reactor::{
    DrainOutcome, PendingEntryView, Reactor, spec_drain_transition, spec_reactor_first_match,
};
use crate::search::{lemma_find, lemma_find_none};
use crate::system::{
    NextMessageOutcome, SystemState, spec_answer_transition, spec_cancel_transition,
    spec_emit_transition, spec_first_match, spec_live_pred, spec_next_message_transition,
    spec_register_transition,
};

/// Registration is first-come-only: once a registration of an interface has
/// succeeded, every later registration of the same interface, by any
/// process, fails and leaves the existing registration untouched.
pub proof fn lemma_register_is_exclusive(
    s0: SystemState,
    s1: SystemState,
    s2: SystemState,
    pid1: u64,
    pid2: u64,
    interface: Seq<u8>,
    r1: Result<(), InterfaceRegisterError>,
    r2: Result<(), InterfaceRegisterError>,
)
    requires
        spec_register_transition(s0, s1, pid1, interface, r1),
        r1 is Ok,
        spec_register_transition(s1, s2, pid2, interface, r2),
    ensures
        r2 == Err::<(), InterfaceRegisterError>(InterfaceRegisterError::AlreadyRegistered),
        s2.registry@ == s1.registry@,
{
}

/// A successful cancellation retires the identifier: a later answer for it
/// is rejected and the environment is left unchanged, so the waiter never
/// resolves.
pub proof fn lemma_cancel_blocks_answer(
    s0: SystemState,
    s1: SystemState,
    s2: SystemState,
    message_id: u64,
    payload: Seq<u8>,
    r2: Result<(), CancelMessageErr>,
)
    requires
        s0.wf(),
        spec_cancel_transition(s0, s1, message_id, Ok(())),
        spec_answer_transition(s1, s2, message_id, payload, r2),
    ensures
        r2 == Err::<(), CancelMessageErr>(CancelMessageErr::InvalidMessageId),
        s2.queue@ == s1.queue@,
        s2.live@ == s1.live@,
{
    let i0 = s0.spec_live_index(message_id)->Some_0;
    lemma_find(s0.live@, spec_live_pred(message_id));
    assert forall|k: int| 0 <= k < s1.live@.len() implies !spec_live_pred(message_id)(
        #[trigger] s1.live@[k],
    ) by {
        assert(s1.live@[k] == if k < i0 {
            s0.live@[k]
        } else {
            s0.live@[k + 1]
        });
    }
    lemma_find_none(s1.live@, spec_live_pred(message_id));
}

/// An identifier is answered at most once: after one answer succeeds, every
/// further answer for the same identifier is rejected.
pub proof fn lemma_answer_at_most_once(
    s0: SystemState,
    s1: SystemState,
    s2: SystemState,
    message_id: u64,
    payload1: Seq<u8>,
    payload2: Seq<u8>,
    r2: Result<(), CancelMessageErr>,
)
    requires
        s0.wf(),
        spec_answer_transition(s0, s1, message_id, payload1, Ok(())),
        spec_answer_transition(s1, s2, message_id, payload2, r2),
    ensures
        r2 == Err::<(), CancelMessageErr>(CancelMessageErr::InvalidMessageId),
{
    let i0 = s0.spec_live_index(message_id)->Some_0;
    lemma_find(s0.live@, spec_live_pred(message_id));
    assert forall|k: int| 0 <= k < s1.live@.len() implies !spec_live_pred(message_id)(
        #[trigger] s1.live@[k],
    ) by {
        assert(s1.live@[k] == if k < i0 {
            s0.live@[k]
        } else {
            s0.live@[k + 1]
        });
    }
    lemma_find_none(s1.live@, spec_live_pred(message_id));
}

/// A failed emission has no side effect at all: no message is queued and no
/// identifier is allocated, so a later cancellation of any identifier that
/// was not live before the emission still fails.
pub proof fn lemma_failed_emit_has_no_effect(
    s0: SystemState,
    s1: SystemState,
    s2: SystemState,
    emitter_pid: u64,
    interface: Seq<u8>,
    payload: Seq<u8>,
    needs_answer: bool,
    r1: Result<Option<u64>, EmitErr>,
    any_id: u64,
    r2: Result<(), CancelMessageErr>,
)
    requires
        spec_emit_transition(s0, s1, emitter_pid, interface, payload, needs_answer, r1),
        r1 is Err,
        spec_cancel_transition(s1, s2, any_id, r2),
        !s0.spec_id_live(any_id),
    ensures
        s1.queue@ == s0.queue@,
        s1.live@ == s0.live@,
        s1.next_message_id == s0.next_message_id,
        r2 == Err::<(), CancelMessageErr>(CancelMessageErr::InvalidMessageId),
{
}

/// A receive call whose buffer is too small consumes nothing and changes
/// nothing; repeating it with a buffer of at least the reported size
/// delivers that same message, unchanged, and consumes it.
pub proof fn lemma_small_buffer_keeps_message(
    s0: SystemState,
    s1: SystemState,
    s2: SystemState,
    pid: u64,
    tp0: Seq<u64>,
    tp1: Seq<u64>,
    tp2: Seq<u64>,
    out0: Seq<u8>,
    out1: Seq<u8>,
    big0: Seq<u8>,
    big1: Seq<u8>,
    required: usize,
    r2: NextMessageOutcome,
)
    requires
        spec_next_message_transition(
            s0,
            s1,
            pid,
            tp0,
            tp1,
            out0,
            out1,
            (NextMessageOutcome::TooSmall { required }),
        ),
        spec_next_message_transition(s1, s2, pid, tp1, tp2, big0, big1, r2),
        big0.len() >= required,
    ensures
        s1.queue@ == s0.queue@,
        tp1 == tp0,
        out1 == out0,
        r2 == (NextMessageOutcome::Delivered { len: required }),
        ({
            let fm = spec_first_match(s0.queue@, pid, tp0);
            &&& fm is Some
            &&& big1 == spec_message_encoding(s0.queue@[fm->Some_0].message@) + big0.skip(
                required as int,
            )
            &&& s2.queue@ == s0.queue@.remove(fm->Some_0)
        }),
{
    match r2 {
        NextMessageOutcome::Nothing => {},
        NextMessageOutcome::TooSmall { required: r } => {},
        NextMessageOutcome::Delivered { len } => {},
    }
}

/// One drain step never touches any pending entry other than the one keyed
/// by the delivered response's own identifier, and that entry receives
/// exactly that response's payload: answers cannot cross over between
/// waiters.
pub proof fn lemma_drain_no_cross_talk(
    r0: Reactor,
    r1: Reactor,
    s0: SystemState,
    s1: SystemState,
    pid: u64,
    message_id: u64,
)
    requires
        r0.wf(),
        spec_drain_transition(
            r0,
            r1,
            s0,
            s1,
            pid,
            (DrainOutcome::ResponseArrived { message_id }),
        ),
    ensures
        ({
            let fm = spec_reactor_first_match(r0, s0.queue@, pid);
            let m = s0.queue@[fm->Some_0].message@;
            let ei = r0.spec_entry_index(message_id)->Some_0;
            &&& fm is Some
            &&& m is Response
            &&& m.correlation_id() == message_id
            &&& r1.spec_pending_view()[ei] == (PendingEntryView {
                message_id,
                response: Some(m.payload()),
            })
            &&& forall|k: int|
                0 <= k < r0.spec_pending_view().len() && k != ei
                    ==> #[trigger] r1.spec_pending_view()[k] == r0.spec_pending_view()[k]
        }),
{
    lemma_find(
        r0.spec_pending_view(),
        crate::reactor::spec_entry_pred(message_id),
    );
}

} // verus!
