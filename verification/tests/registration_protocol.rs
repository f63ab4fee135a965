//! Tests of the registration-protocol data model and its wire format.

use ipc_reactor::interface::{
    decode_register_request, decode_register_response, encode_register_request,
    encode_register_response, InterfaceMessage, InterfaceRegisterError, InterfaceRegisterResponse,
};

#[test]
fn register_request_round_trips() {
    let mut id = [0u8; 32];
    for (k, b) in id.iter_mut().enumerate() {
        *b = k as u8;
    }
    let m = InterfaceMessage::Register(id);
    let enc = encode_register_request(&m);
    assert_eq!(enc.len(), 33);
    assert_eq!(enc[0], 0);
    assert_eq!(&enc[1..], &id);
    assert_eq!(decode_register_request(&enc), Some(m));
}

#[test]
fn register_request_rejects_malformed_bytes() {
    assert_eq!(decode_register_request(&[]), None);
    assert_eq!(decode_register_request(&[0; 32]), None);
    assert_eq!(decode_register_request(&[1; 33]), None);
    assert_eq!(decode_register_request(&[0; 34]), None);
}

#[test]
fn register_response_round_trips() {
    let ok = InterfaceRegisterResponse { result: Ok(()) };
    assert_eq!(encode_register_response(&ok), vec![0]);
    assert_eq!(decode_register_response(&[0]), Some(ok));

    let err = InterfaceRegisterResponse {
        result: Err(InterfaceRegisterError::AlreadyRegistered),
    };
    assert_eq!(encode_register_response(&err), vec![1, 0]);
    assert_eq!(decode_register_response(&[1, 0]), Some(err));

    assert_eq!(decode_register_response(&[]), None);
    assert_eq!(decode_register_response(&[2]), None);
    assert_eq!(decode_register_response(&[1, 1]), None);
    assert_eq!(decode_register_response(&[0, 0]), None);
}
