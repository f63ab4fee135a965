//! Tests of the routing environment: registration, emission, answering,
//! cancellation and the receive primitive.

use ipc_reactor::emit::{CancelMessageErr, EmitErr};
use ipc_reactor::interface::InterfaceRegisterError;
use ipc_reactor::message::{decode_message, Message};
use ipc_reactor::system::{NextMessageOutcome, SystemState, ANY_INTERFACE_TOKEN, EMPTY_TOKEN};

const IFACE: [u8; 32] = [0xab; 32];
const OTHER: [u8; 32] = [0x11; 32];

#[test]
fn register_interface_is_first_come() {
    let mut sys = SystemState::new();
    assert_eq!(sys.register_interface(1, &IFACE), Ok(()));
    assert_eq!(
        sys.register_interface(2, &IFACE),
        Err(InterfaceRegisterError::AlreadyRegistered)
    );
    assert_eq!(
        sys.register_interface(1, &IFACE),
        Err(InterfaceRegisterError::AlreadyRegistered)
    );
    assert_eq!(sys.register_interface(2, &OTHER), Ok(()));
}

#[test]
fn emit_to_unregistered_interface_fails_without_effect() {
    let mut sys = SystemState::new();
    assert_eq!(sys.emit_message(9, &IFACE, &[1, 2, 3], true), Err(EmitErr::BadInterface));
    // No identifier was allocated, so cancelling anything a caller might
    // synthesize fails.
    for id in [0u64, 1, 2, 3, 100] {
        assert_eq!(sys.cancel_message(id), Err(CancelMessageErr::InvalidMessageId));
    }
}

#[test]
fn emit_without_answer_allocates_nothing() {
    let mut sys = SystemState::new();
    assert_eq!(sys.register_interface(1, &IFACE), Ok(()));
    assert_eq!(sys.emit_message(9, &IFACE, &[1, 2, 3], false), Ok(None));
    for id in [0u64, 1, 2, 3] {
        assert_eq!(sys.cancel_message(id), Err(CancelMessageErr::InvalidMessageId));
    }
}

#[test]
fn small_buffer_reports_size_and_keeps_message() {
    let mut sys = SystemState::new();
    assert_eq!(sys.register_interface(1, &IFACE), Ok(()));
    let mid = sys.emit_message(9, &IFACE, &[5, 6, 7], true).unwrap().unwrap();
    assert!(mid >= 2);

    let mut to_poll: Vec<u64> = vec![EMPTY_TOKEN, ANY_INTERFACE_TOKEN];
    let mut out: Vec<u8> = vec![0; 4];
    let r = sys.next_message(1, &mut to_poll, &mut out);
    let required = match r {
        NextMessageOutcome::TooSmall { required } => required,
        other => panic!("expected a too-small report, got {:?}", other),
    };
    // Nothing was written and nothing was consumed.
    assert_eq!(out, vec![0; 4]);
    assert_eq!(to_poll, vec![EMPTY_TOKEN, ANY_INTERFACE_TOKEN]);

    // A large enough buffer receives that same message, unchanged.
    let mut out: Vec<u8> = vec![0; required];
    let r = sys.next_message(1, &mut to_poll, &mut out);
    assert_eq!(r, NextMessageOutcome::Delivered { len: required });
    let msg = decode_message(&out[..required]).unwrap();
    match msg {
        Message::Interface(im) => {
            assert_eq!(im.message_id, mid);
            assert_eq!(im.emitter_pid, 9);
            assert_eq!(im.actual_data, vec![5, 6, 7]);
        }
        Message::Response(_) => panic!("expected an interface message"),
    }
    // The matched interest entry was cleared, and the message was consumed.
    assert_eq!(to_poll, vec![EMPTY_TOKEN, EMPTY_TOKEN]);
    let mut out: Vec<u8> = vec![0; 64];
    let mut to_poll: Vec<u64> = vec![ANY_INTERFACE_TOKEN];
    assert_eq!(sys.next_message(1, &mut to_poll, &mut out), NextMessageOutcome::Nothing);
}

#[test]
fn receive_skips_non_matching_messages() {
    let mut sys = SystemState::new();
    assert_eq!(sys.register_interface(1, &IFACE), Ok(()));
    // Two interface messages for process 1, then an answer to the first.
    let mid = sys.emit_message(2, &IFACE, &[1], true).unwrap().unwrap();
    assert_eq!(sys.emit_message(3, &IFACE, &[2], false), Ok(None));
    assert_eq!(sys.emit_answer(mid, &[42]), Ok(()));

    // Process 2 polls only for its answer: the interface messages queued
    // ahead of it are skipped and stay queued.
    let mut to_poll: Vec<u64> = vec![mid];
    let mut out: Vec<u8> = vec![0; 64];
    let r = sys.next_message(2, &mut to_poll, &mut out);
    let len = match r {
        NextMessageOutcome::Delivered { len } => len,
        other => panic!("expected a delivery, got {:?}", other),
    };
    match decode_message(&out[..len]).unwrap() {
        Message::Response(rm) => {
            assert_eq!(rm.message_id, mid);
            assert_eq!(rm.actual_data, vec![42]);
        }
        Message::Interface(_) => panic!("expected the response"),
    }
    assert_eq!(to_poll, vec![EMPTY_TOKEN]);

    // The two interface messages are still there for process 1, in order.
    let mut to_poll: Vec<u64> = vec![ANY_INTERFACE_TOKEN, ANY_INTERFACE_TOKEN];
    let mut out: Vec<u8> = vec![0; 64];
    for expected_payload in [vec![1u8], vec![2u8]] {
        let r = sys.next_message(1, &mut to_poll, &mut out);
        let len = match r {
            NextMessageOutcome::Delivered { len } => len,
            other => panic!("expected a delivery, got {:?}", other),
        };
        match decode_message(&out[..len]).unwrap() {
            Message::Interface(im) => assert_eq!(im.actual_data, expected_payload),
            Message::Response(_) => panic!("expected an interface message"),
        }
    }
}

#[test]
fn cancelled_identifier_rejects_answer() {
    let mut sys = SystemState::new();
    assert_eq!(sys.register_interface(1, &IFACE), Ok(()));
    let mid = sys.emit_message(2, &IFACE, &[1], true).unwrap().unwrap();
    assert_eq!(sys.cancel_message(mid), Ok(()));
    assert_eq!(sys.emit_answer(mid, &[9]), Err(CancelMessageErr::InvalidMessageId));
    assert_eq!(sys.cancel_message(mid), Err(CancelMessageErr::InvalidMessageId));
}

#[test]
fn answer_is_delivered_at_most_once() {
    let mut sys = SystemState::new();
    assert_eq!(sys.register_interface(1, &IFACE), Ok(()));
    let mid = sys.emit_message(2, &IFACE, &[1], true).unwrap().unwrap();
    assert_eq!(sys.emit_answer(mid, &[9]), Ok(()));
    assert_eq!(sys.emit_answer(mid, &[10]), Err(CancelMessageErr::InvalidMessageId));
}
