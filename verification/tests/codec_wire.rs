//! Wire-format tests, pinning the crate's encoding to the SCALE codec.

use ipc_reactor::codec::{
    append_bytes, append_compact_u32, append_u32_le, append_u64_le, read_compact_u32, read_u32_le,
    read_u64_le, DecodeAll, Encode,
};
use ipc_reactor::message::{
    decode_message, encode_message, InterfaceMessage, Message, ResponseMessage,
};
use parity_scale_codec::{Compact, Encode as ScaleEncode};

#[test]
fn u32_little_endian_bytes() {
    let mut out: Vec<u8> = Vec::new();
    append_u32_le(&mut out, 0x0403_0201);
    assert_eq!(out, vec![0x01, 0x02, 0x03, 0x04]);
    assert_eq!(read_u32_le(&out, 0), 0x0403_0201);
}

#[test]
fn u64_little_endian_bytes() {
    let mut out: Vec<u8> = Vec::new();
    append_u64_le(&mut out, 0x0807_0605_0403_0201);
    assert_eq!(out, vec![0x01, 0x02, 0x03, 0x04, 0x05, 0x06, 0x07, 0x08]);
    assert_eq!(read_u64_le(&out, 0), 0x0807_0605_0403_0201);
}

#[test]
fn compact_lengths_round_trip() {
    for n in [0u32, 1, 63, 64, 300, 16383, 16384, 1_000_000, 1 << 30, u32::MAX] {
        let mut out: Vec<u8> = Vec::new();
        append_compact_u32(&mut out, n);
        let got = read_compact_u32(&out, 0);
        assert_eq!(got, Some((n, out.len())));
    }
}

#[test]
fn compact_matches_scale() {
    for n in [0u32, 1, 63, 64, 300, 16383, 16384, 1_000_000, 1 << 30, u32::MAX] {
        let mut ours: Vec<u8> = Vec::new();
        append_compact_u32(&mut ours, n);
        assert_eq!(ours, Compact(n).encode());
    }
}

#[test]
fn integers_match_scale() {
    assert_eq!(Encode::encode(&42u32), ScaleEncode::encode(&42u32));
    assert_eq!(
        Encode::encode(&0xdead_beef_0123_4567u64),
        ScaleEncode::encode(&0xdead_beef_0123_4567u64)
    );
}

#[test]
fn typed_payloads_round_trip() {
    let v: u32 = 42;
    assert_eq!(<u32 as DecodeAll>::decode_all(&Encode::encode(&v)), Some(42));
    let w: u64 = u64::MAX - 7;
    assert_eq!(<u64 as DecodeAll>::decode_all(&Encode::encode(&w)), Some(w));
    assert_eq!(<u32 as DecodeAll>::decode_all(&[1, 2, 3]), None);
    assert_eq!(<u64 as DecodeAll>::decode_all(&[]), None);
}

#[test]
fn append_bytes_copies() {
    let mut out: Vec<u8> = vec![7];
    append_bytes(&mut out, &[1, 2, 3]);
    assert_eq!(out, vec![7, 1, 2, 3]);
}

#[test]
fn response_message_exact_bytes() {
    let m = Message::Response(ResponseMessage { message_id: 5, actual_data: vec![9] });
    let enc = encode_message(&m);
    assert_eq!(enc, vec![1, 5, 0, 0, 0, 0, 0, 0, 0, 4, 9]);
}

#[test]
fn message_encoding_matches_scale_layout() {
    // The derive-style SCALE layout: variant tag, fixed fields
    // little-endian, payload behind a compact length.
    let payload: Vec<u8> = vec![1, 2, 3];
    let m = Message::Response(ResponseMessage { message_id: 7, actual_data: payload.clone() });
    let mut expected: Vec<u8> = vec![1u8];
    expected.extend(ScaleEncode::encode(&7u64));
    expected.extend(ScaleEncode::encode(&payload));
    assert_eq!(encode_message(&m), expected);

    let im = Message::Interface(InterfaceMessage {
        message_id: 3,
        emitter_pid: 12,
        actual_data: payload.clone(),
    });
    let mut expected: Vec<u8> = vec![0u8];
    expected.extend(ScaleEncode::encode(&3u64));
    expected.extend(ScaleEncode::encode(&12u64));
    expected.extend(ScaleEncode::encode(&payload));
    assert_eq!(encode_message(&im), expected);
}

#[test]
fn message_round_trips() {
    let m = Message::Interface(InterfaceMessage {
        message_id: 0,
        emitter_pid: 77,
        actual_data: vec![],
    });
    assert_eq!(decode_message(&encode_message(&m)), Some(m));
    let m = Message::Response(ResponseMessage {
        message_id: u64::MAX,
        actual_data: (0..=255u8).collect(),
    });
    assert_eq!(decode_message(&encode_message(&m)), Some(m));
}

#[test]
fn malformed_messages_are_rejected() {
    assert_eq!(decode_message(&[]), None);
    assert_eq!(decode_message(&[2, 0, 0, 0, 0, 0, 0, 0, 0, 0]), None);
    let m = Message::Response(ResponseMessage { message_id: 1, actual_data: vec![1, 2] });
    let mut enc = encode_message(&m);
    enc.pop();
    assert_eq!(decode_message(&enc), None);
    let mut enc = encode_message(&m);
    enc.push(0);
    assert_eq!(decode_message(&enc), None);
}
