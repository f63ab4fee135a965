//! End-to-end correlation scenarios: concurrent response handles, the
//! reactor's drain step, cancellation and teardown.

use ipc_reactor::codec::Encode;
use ipc_reactor::emit::{
    cancel_message, emit_message_with_response, CancelMessageErr, EmitErr, EmitMessageWithResponse,
};
use ipc_reactor::reactor::{DrainOutcome, Reactor};
use ipc_reactor::system::SystemState;
use ipc_reactor::vulkan::VulkanRedirect;

const IFACE: [u8; 32] = [0x49; 32];

#[test]
fn request_is_answered_end_to_end() {
    let mut sys = SystemState::new();
    let mut reactor_a = Reactor::new();
    let mut reactor_b = Reactor::new();

    // Process A registers the interface and consumes its messages.
    assert_eq!(sys.register_interface(1, &IFACE), Ok(()));
    reactor_a.serve_interfaces();

    // Process B asks for an answer, typed as a 32-bit integer.
    let mut fut: EmitMessageWithResponse<u32> =
        emit_message_with_response(&mut sys, &mut reactor_b, 2, IFACE, &5u32);
    assert_eq!(fut.poll(&mut reactor_b), None);

    // A drains the request, computes the answer, sends it back.
    assert!(matches!(reactor_a.drain_once(&mut sys, 1), DrainOutcome::InterfaceQueued));
    let request = reactor_a.next_interface_message().unwrap();
    assert_eq!(request.emitter_pid, 2);
    assert_eq!(request.actual_data, Encode::encode(&5u32));
    assert_eq!(sys.emit_answer(request.message_id, &Encode::encode(&42u32)), Ok(()));

    // B drains its answer and the handle resolves with the decoded value.
    assert!(matches!(
        reactor_b.drain_once(&mut sys, 2),
        DrainOutcome::ResponseArrived { message_id: _ }
    ));
    assert_eq!(fut.poll(&mut reactor_b), Some(Ok(42)));
}

#[test]
fn concurrent_answers_never_cross_over() {
    let mut sys = SystemState::new();
    let mut reactor_a = Reactor::new();
    let mut reactor_b = Reactor::new();
    assert_eq!(sys.register_interface(1, &IFACE), Ok(()));
    reactor_a.serve_interfaces();

    // B makes three concurrent requests.
    let mut futs: Vec<EmitMessageWithResponse<u32>> = Vec::new();
    for k in 0u32..3 {
        futs.push(emit_message_with_response(&mut sys, &mut reactor_b, 2, IFACE, &k));
    }

    // A receives them all and answers out of order, each with a payload
    // derived from its own request.
    let mut requests = Vec::new();
    for _ in 0..3 {
        assert!(matches!(reactor_a.drain_once(&mut sys, 1), DrainOutcome::InterfaceQueued));
        requests.push(reactor_a.next_interface_message().unwrap());
    }
    for request in requests.iter().rev() {
        let k = u32::from_le_bytes(request.actual_data[..4].try_into().unwrap());
        assert_eq!(sys.emit_answer(request.message_id, &Encode::encode(&(100 + k))), Ok(()));
    }

    // B drains everything; each handle resolves with its own answer.
    for _ in 0..3 {
        assert!(matches!(
            reactor_b.drain_once(&mut sys, 2),
            DrainOutcome::ResponseArrived { message_id: _ }
        ));
    }
    assert!(matches!(reactor_b.drain_once(&mut sys, 2), DrainOutcome::Idle));
    for (k, fut) in futs.iter_mut().enumerate() {
        assert_eq!(fut.poll(&mut reactor_b), Some(Ok(100 + k as u32)));
    }
}

#[test]
fn emission_failure_resolves_immediately() {
    let mut sys = SystemState::new();
    let mut reactor = Reactor::new();
    let mut fut: EmitMessageWithResponse<u32> =
        emit_message_with_response(&mut sys, &mut reactor, 2, IFACE, &1u32);
    assert_eq!(fut.poll(&mut reactor), Some(Err(EmitErr::BadInterface)));
}

#[test]
fn undecodable_answer_fails_only_its_own_request() {
    let mut sys = SystemState::new();
    let mut reactor_a = Reactor::new();
    let mut reactor_b = Reactor::new();
    assert_eq!(sys.register_interface(1, &IFACE), Ok(()));
    reactor_a.serve_interfaces();

    let mut bad: EmitMessageWithResponse<u32> =
        emit_message_with_response(&mut sys, &mut reactor_b, 2, IFACE, &1u32);
    let mut good: EmitMessageWithResponse<u32> =
        emit_message_with_response(&mut sys, &mut reactor_b, 2, IFACE, &2u32);

    assert!(matches!(reactor_a.drain_once(&mut sys, 1), DrainOutcome::InterfaceQueued));
    assert!(matches!(reactor_a.drain_once(&mut sys, 1), DrainOutcome::InterfaceQueued));
    let first = reactor_a.next_interface_message().unwrap();
    let second = reactor_a.next_interface_message().unwrap();
    // Three bytes never decode to a 32-bit integer.
    assert_eq!(sys.emit_answer(first.message_id, &[1, 2, 3]), Ok(()));
    assert_eq!(sys.emit_answer(second.message_id, &Encode::encode(&7u32)), Ok(()));

    assert!(matches!(
        reactor_b.drain_once(&mut sys, 2),
        DrainOutcome::ResponseArrived { message_id: _ }
    ));
    assert!(matches!(
        reactor_b.drain_once(&mut sys, 2),
        DrainOutcome::ResponseArrived { message_id: _ }
    ));
    assert_eq!(bad.poll(&mut reactor_b), Some(Err(EmitErr::InvalidResponsePayload)));
    assert_eq!(good.poll(&mut reactor_b), Some(Ok(7)));
}

#[test]
fn cancelling_before_the_answer_keeps_the_handle_pending() {
    let mut sys = SystemState::new();
    let mut reactor_a = Reactor::new();
    let mut reactor_b = Reactor::new();
    assert_eq!(sys.register_interface(1, &IFACE), Ok(()));
    reactor_a.serve_interfaces();

    let mut fut: EmitMessageWithResponse<u32> =
        emit_message_with_response(&mut sys, &mut reactor_b, 2, IFACE, &1u32);
    assert!(matches!(reactor_a.drain_once(&mut sys, 1), DrainOutcome::InterfaceQueued));
    let request = reactor_a.next_interface_message().unwrap();

    // B cancels before any answer is emitted: the router rejects the late
    // answer and the handle never resolves.
    assert_eq!(cancel_message(&mut sys, request.message_id), Ok(()));
    assert_eq!(
        sys.emit_answer(request.message_id, &Encode::encode(&42u32)),
        Err(CancelMessageErr::InvalidMessageId)
    );
    assert!(matches!(reactor_b.drain_once(&mut sys, 2), DrainOutcome::Idle));
    assert_eq!(fut.poll(&mut reactor_b), None);
}

#[test]
fn retiring_a_handle_leaks_no_entry_and_cancels() {
    let mut sys = SystemState::new();
    let mut reactor_a = Reactor::new();
    let mut reactor_b = Reactor::new();
    assert_eq!(sys.register_interface(1, &IFACE), Ok(()));
    reactor_a.serve_interfaces();

    let mut fut: EmitMessageWithResponse<u32> =
        emit_message_with_response(&mut sys, &mut reactor_b, 2, IFACE, &1u32);
    assert!(matches!(reactor_a.drain_once(&mut sys, 1), DrainOutcome::InterfaceQueued));
    let request = reactor_a.next_interface_message().unwrap();

    // B gives the handle up without polling it to completion: its pending
    // entry is gone and the identifier was cancelled.
    fut.retire(&mut sys, &mut reactor_b);
    assert_eq!(
        sys.emit_answer(request.message_id, &Encode::encode(&42u32)),
        Err(CancelMessageErr::InvalidMessageId)
    );
    assert!(matches!(reactor_b.drain_once(&mut sys, 2), DrainOutcome::Idle));

    // Retiring an already-resolved handle attempts nothing further.
    fut.retire(&mut sys, &mut reactor_b);
}

#[test]
fn vulkan_redirect_declines_every_message() {
    let mut sys = SystemState::new();
    let mut reactor_a = Reactor::new();
    assert_eq!(sys.register_interface(1, &IFACE), Ok(()));
    reactor_a.serve_interfaces();
    assert_eq!(sys.emit_message(2, &IFACE, &[1, 2], false), Ok(None));
    assert!(matches!(reactor_a.drain_once(&mut sys, 1), DrainOutcome::InterfaceQueued));
    let request = reactor_a.next_interface_message().unwrap();

    let redirect = VulkanRedirect::new(IFACE);
    assert_eq!(redirect.interface, IFACE);
    assert_eq!(redirect.handle(&request), None);
}
