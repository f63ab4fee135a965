//! Data model of the interface-registration protocol: the request a process
//! sends to register an interface, and the answer it receives.

use vstd::prelude::*;

verus! {

use crate::codec::append_bytes;

/// A request sent to the registry service.
#[derive(Debug, Clone, PartialEq, Eq)]
pub enum InterfaceMessage {
    /// Ask to become the handler of the interface with this identifier.
    Register([u8; 32]),
}

/// The answer to an [`InterfaceMessage::Register`] request.
#[derive(Debug, PartialEq, Eq)]
pub struct InterfaceRegisterResponse {
    /// Whether the registration was recorded.
    pub result: Result<(), InterfaceRegisterError>,
}

/// Why a registration request was refused.
#[derive(Debug, Clone, Copy, PartialEq, Eq, Structural)]
pub enum InterfaceRegisterError {
    /// Another registration for this interface already exists; the existing
    /// one is untouched.
    AlreadyRegistered,
}


/// The wire bytes of a registration request: the variant tag, followed by
/// the 32 bytes of the interface identifier.
pub open spec fn spec_register_request_encoding(m: InterfaceMessage) -> Seq<u8> {
    match m {
        InterfaceMessage::Register(hash) => seq![0u8] + hash@,
    }
}

/// The wire bytes of a registration answer: the tag of `Ok`, or the tag of
/// `Err` followed by the error's own tag.
pub open spec fn spec_register_response_encoding(m: InterfaceRegisterResponse) -> Seq<u8> {
    match m.result {
        Ok(_) => seq![0u8],
        Err(InterfaceRegisterError::AlreadyRegistered) => seq![1u8, 0u8],
    }
}

/// Encodes a registration request.
pub fn encode_register_request(m: &InterfaceMessage) -> (r: Vec<u8>)
    ensures
        r@ == spec_register_request_encoding(*m),
{
    match m {
        InterfaceMessage::Register(hash) => {
            let mut out: Vec<u8> = Vec::new();
            out.push(0u8);
            append_bytes(&mut out, hash.as_slice());
            proof {
                assert(out@ =~= spec_register_request_encoding(*m));
            }
            out
        },
    }
}

/// Decodes a whole byte sequence into the registration request it encodes,
/// if any.
pub fn decode_register_request(bytes: &[u8]) -> (r: Option<InterfaceMessage>)
    ensures
        match r {
            Some(m) => bytes@ == spec_register_request_encoding(m),
            None => forall|m: InterfaceMessage|
                bytes@ != spec_register_request_encoding(m),
        },
{
    if bytes.len() != 33 || bytes[0] != 0 {
        proof {
            assert forall|m: InterfaceMessage|
                bytes@ != spec_register_request_encoding(m) by {
                let InterfaceMessage::Register(hash) = m;
                if bytes@ == spec_register_request_encoding(m) {
                    assert(bytes@.len() == 33);
                    assert(bytes@[0] == 0u8);
                }
            }
        }
        return None;
    }
    let mut hash: [u8; 32] = [0; 32];
    let mut i: usize = 0;
    while i < 32
        invariant
            i <= 32,
            bytes@.len() == 33,
            forall|k: int| 0 <= k < i ==> hash@[k] == bytes@[k + 1],
        decreases 32 - i,
    {
        hash[i] = bytes[i + 1];
        i = i + 1;
    }
    proof {
        assert(bytes@ =~= spec_register_request_encoding(InterfaceMessage::Register(hash)));
    }
    Some(InterfaceMessage::Register(hash))
}

/// Encodes a registration answer.
pub fn encode_register_response(m: &InterfaceRegisterResponse) -> (r: Vec<u8>)
    ensures
        r@ == spec_register_response_encoding(*m),
{
    match m.result {
        Ok(_) => {
            let mut out: Vec<u8> = Vec::new();
            out.push(0u8);
            proof {
                assert(out@ =~= spec_register_response_encoding(*m));
            }
            out
        },
        Err(InterfaceRegisterError::AlreadyRegistered) => {
            let mut out: Vec<u8> = Vec::new();
            out.push(1u8);
            out.push(0u8);
            proof {
                assert(out@ =~= spec_register_response_encoding(*m));
            }
            out
        },
    }
}

/// Decodes a whole byte sequence into the registration answer it encodes,
/// if any.
pub fn decode_register_response(bytes: &[u8]) -> (r: Option<InterfaceRegisterResponse>)
    ensures
        match r {
            Some(m) => bytes@ == spec_register_response_encoding(m),
            None => forall|m: InterfaceRegisterResponse|
                bytes@ != spec_register_response_encoding(m),
        },
{
    if bytes.len() == 1 && bytes[0] == 0 {
        let m = InterfaceRegisterResponse { result: Ok(()) };
        proof {
            assert(bytes@ =~= spec_register_response_encoding(m));
        }
        Some(m)
    } else if bytes.len() == 2 && bytes[0] == 1 && bytes[1] == 0 {
        let m = InterfaceRegisterResponse {
            result: Err(InterfaceRegisterError::AlreadyRegistered),
        };
        proof {
            assert(bytes@ =~= spec_register_response_encoding(m));
        }
        Some(m)
    } else {
        proof {
            assert forall|m: InterfaceRegisterResponse|
                bytes@ != spec_register_response_encoding(m) by {
                if bytes@ == spec_register_response_encoding(m) {
                    match m.result {
                        Ok(_) => {
                            assert(bytes@.len() == 1 && bytes@[0] == 0u8);
                        },
                        Err(InterfaceRegisterError::AlreadyRegistered) => {
                            assert(bytes@.len() == 2 && bytes@[0] == 1u8 && bytes@[1] == 0u8);
                        },
                    }
                }
            }
        }
        None
    }
}

/// Decoding the encoding of a registration request gives it back.
pub proof fn lemma_register_request_round_trip(m: InterfaceMessage, m2: InterfaceMessage)
    requires
        spec_register_request_encoding(m) == spec_register_request_encoding(m2),
    ensures
        m == m2,
{
    broadcast use vstd::array::axiom_array_ext_equal;

    let InterfaceMessage::Register(h) = m;
    let InterfaceMessage::Register(h2) = m2;
    assert(h@ =~= spec_register_request_encoding(m).skip(1));
    assert(h2@ =~= spec_register_request_encoding(m2).skip(1));
    assert(h =~= h2);
}

} // verus!
