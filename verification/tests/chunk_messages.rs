//! The chunk protocol's messages and their wire form.
use ant_tunnel::chunk::{
    ChunkGetRequest, ChunkGetResponse, ChunkMessage, ChunkMessageBody, ChunkPutRequest,
    ChunkPutResponse, ChunkQuoteRequest, ChunkQuoteResponse, MerkleCandidateQuoteRequest,
    MerkleCandidateQuoteResponse, ProtocolError, CHUNK_PROTOCOL_ID, CLOSE_GROUP_MAJORITY,
    CLOSE_GROUP_SIZE, DATA_TYPE_CHUNK, MAX_CHUNK_SIZE, MAX_WIRE_MESSAGE_SIZE, PROOF_TAG_MERKLE,
    PROOF_TAG_SINGLE_NODE, PROTOCOL_VERSION,
};

#[test]
fn test_get_request_roundtrip() {
    let address = [0xCD; 32];
    let msg = ChunkMessage {
        request_id: 7,
        body: ChunkMessageBody::GetRequest(ChunkGetRequest::new(address)),
    };
    let encoded = msg.encode().expect("encode");
    let decoded = ChunkMessage::decode(&encoded).expect("decode");
    assert_eq!(decoded.request_id, 7);
    match decoded.body {
        ChunkMessageBody::GetRequest(req) => assert_eq!(req.address, address),
        _ => panic!("expected GetRequest"),
    }
}

#[test]
fn test_get_response_success_roundtrip() {
    let address = [0xAB; 32];
    let content = vec![1, 2, 3, 4, 5];
    let msg = ChunkMessage {
        request_id: 42,
        body: ChunkMessageBody::GetResponse(ChunkGetResponse::Success {
            address,
            content: content.clone(),
        }),
    };
    let encoded = msg.encode().expect("encode");
    let decoded = ChunkMessage::decode(&encoded).expect("decode");
    match decoded.body {
        ChunkMessageBody::GetResponse(ChunkGetResponse::Success { address: a, content: c }) => {
            assert_eq!(a, address);
            assert_eq!(c, content);
        }
        _ => panic!("expected GetResponse::Success"),
    }
}

#[test]
fn test_get_response_not_found_roundtrip() {
    let address = [0x12; 32];
    let msg = ChunkMessage {
        request_id: 0,
        body: ChunkMessageBody::GetResponse(ChunkGetResponse::NotFound { address }),
    };
    let encoded = msg.encode().expect("encode");
    let decoded = ChunkMessage::decode(&encoded).expect("decode");
    match decoded.body {
        ChunkMessageBody::GetResponse(ChunkGetResponse::NotFound { address: a }) => {
            assert_eq!(a, address);
        }
        _ => panic!("expected GetResponse::NotFound"),
    }
}

#[test]
fn test_decode_rejects_oversized() {
    let oversized = vec![0u8; MAX_WIRE_MESSAGE_SIZE + 1];
    let result = ChunkMessage::decode(&oversized);
    assert!(matches!(
        result,
        Err(ProtocolError::MessageTooLarge { .. })
    ));
}

#[test]
fn test_constants_match_upstream() {
    assert_eq!(CLOSE_GROUP_SIZE, 5);
    assert_eq!(CLOSE_GROUP_MAJORITY, 3);
    assert_eq!(MAX_CHUNK_SIZE, 4 * 1024 * 1024);
    assert_eq!(MAX_WIRE_MESSAGE_SIZE, 5 * 1024 * 1024);
    assert_eq!(DATA_TYPE_CHUNK, 0);
    assert_eq!(PROOF_TAG_SINGLE_NODE, 0x01);
    assert_eq!(PROOF_TAG_MERKLE, 0x02);
}

#[test]
fn protocol_identifier_and_version() {
    assert_eq!(CHUNK_PROTOCOL_ID, "autonomi/ant/chunk/v1");
    assert_eq!(PROTOCOL_VERSION, 1);
}

/// The message is encoded as `postcard` encodes the same fields.
#[test]
fn test_byte_compatibility_with_ant_node() {
    let address = [0xABu8; 32];
    let our_msg = ChunkMessage {
        request_id: 42,
        body: ChunkMessageBody::GetRequest(ChunkGetRequest::new(address)),
    };
    let our_bytes = our_msg.encode().expect("our encode");
    let their_bytes = postcard::to_stdvec(&(42u64, 2u32, address)).expect("postcard encode");
    assert_eq!(our_bytes, their_bytes);
}

#[test]
fn test_byte_compatibility_get_response_success() {
    let address = [0xCDu8; 32];
    let content: Vec<u8> = vec![10, 20, 30, 40, 50];
    let our_msg = ChunkMessage {
        request_id: 99,
        body: ChunkMessageBody::GetResponse(ChunkGetResponse::Success {
            address,
            content: content.clone(),
        }),
    };
    let our_bytes = our_msg.encode().expect("our encode");
    let their_bytes =
        postcard::to_stdvec(&(99u64, 3u32, 0u32, address, content)).expect("postcard encode");
    assert_eq!(our_bytes, their_bytes);
}

#[test]
fn test_byte_compatibility_put_request() {
    let address = [0xEFu8; 32];
    let content: Vec<u8> = vec![1, 2, 3];
    let proof: Vec<u8> = vec![10, 20, 30];
    let our_msg = ChunkMessage {
        request_id: 100,
        body: ChunkMessageBody::PutRequest(ChunkPutRequest::with_payment(
            address,
            content.clone(),
            proof.clone(),
        )),
    };
    let our_bytes = our_msg.encode().expect("our encode");
    let their_bytes = postcard::to_stdvec(&(100u64, 0u32, address, content, Some(proof)))
        .expect("postcard encode");
    assert_eq!(our_bytes, their_bytes);
}

fn encoded(request_id: u64, body: ChunkMessageBody) -> Vec<u8> {
    ChunkMessage { request_id, body }.encode().expect("encode")
}

/// Encodes, decodes and encodes again; the bytes must be the same as `expected`.
fn check(request_id: u64, body: ChunkMessageBody, expected: Vec<u8>) {
    let bytes = encoded(request_id, body);
    assert_eq!(bytes, expected);
    let back = ChunkMessage::decode(&bytes).expect("decode");
    assert_eq!(back.request_id, request_id);
    assert_eq!(back.encode().expect("encode"), bytes);
}

#[test]
fn every_message_is_encoded_like_its_fields() {
    let a = [7u8; 32];
    let pc = |v: Result<Vec<u8>, postcard::Error>| v.expect("postcard encode");
    check(
        0,
        ChunkMessageBody::PutRequest(ChunkPutRequest::new(a, vec![9; 300])),
        pc(postcard::to_stdvec(&(0u64, 0u32, a, vec![9u8; 300], None::<Vec<u8>>))),
    );
    check(
        127,
        ChunkMessageBody::PutResponse(ChunkPutResponse::Success { address: a }),
        pc(postcard::to_stdvec(&(127u64, 1u32, 0u32, a))),
    );
    check(
        128,
        ChunkMessageBody::PutResponse(ChunkPutResponse::AlreadyExists { address: a }),
        pc(postcard::to_stdvec(&(128u64, 1u32, 1u32, a))),
    );
    check(
        16384,
        ChunkMessageBody::PutResponse(ChunkPutResponse::PaymentRequired {
            message: "zahlen, bitte: 5 €".to_string(),
        }),
        pc(postcard::to_stdvec(&(16384u64, 1u32, 2u32, "zahlen, bitte: 5 €"))),
    );
    check(
        u64::MAX,
        ChunkMessageBody::PutResponse(ChunkPutResponse::Error(ProtocolError::ChunkTooLarge {
            size: usize::MAX,
            max_size: 3,
        })),
        pc(postcard::to_stdvec(&(u64::MAX, 1u32, 3u32, 3u32, usize::MAX, 3usize))),
    );
    check(
        1,
        ChunkMessageBody::GetResponse(ChunkGetResponse::NotFound { address: a }),
        pc(postcard::to_stdvec(&(1u64, 3u32, 1u32, a))),
    );
    check(
        2,
        ChunkMessageBody::GetResponse(ChunkGetResponse::Error(ProtocolError::Internal(
            String::new(),
        ))),
        pc(postcard::to_stdvec(&(2u64, 3u32, 2u32, 8u32, ""))),
    );
    let quote = ChunkQuoteRequest::new(a, 1 << 40);
    assert_eq!(quote.data_type, DATA_TYPE_CHUNK);
    check(
        3,
        ChunkMessageBody::QuoteRequest(quote),
        pc(postcard::to_stdvec(&(3u64, 4u32, a, 1u64 << 40, 0u32))),
    );
    check(
        4,
        ChunkMessageBody::QuoteResponse(ChunkQuoteResponse::Success {
            quote: vec![1, 2],
            already_stored: true,
        }),
        pc(postcard::to_stdvec(&(4u64, 5u32, 0u32, vec![1u8, 2], true))),
    );
    check(
        5,
        ChunkMessageBody::QuoteResponse(ChunkQuoteResponse::Error(ProtocolError::QuoteFailed(
            "no".to_string(),
        ))),
        pc(postcard::to_stdvec(&(5u64, 5u32, 1u32, 7u32, "no"))),
    );
    check(
        6,
        ChunkMessageBody::MerkleCandidateQuoteRequest(MerkleCandidateQuoteRequest {
            address: a,
            data_type: u32::MAX,
            data_size: 1000,
            merkle_payment_timestamp: 1_700_000_000,
        }),
        pc(postcard::to_stdvec(&(6u64, 6u32, a, u32::MAX, 1000u64, 1_700_000_000u64))),
    );
    check(
        7,
        ChunkMessageBody::MerkleCandidateQuoteResponse(MerkleCandidateQuoteResponse::Success {
            candidate_node: vec![],
        }),
        pc(postcard::to_stdvec(&(7u64, 7u32, 0u32, Vec::<u8>::new()))),
    );
    check(
        8,
        ChunkMessageBody::MerkleCandidateQuoteResponse(MerkleCandidateQuoteResponse::Error(
            ProtocolError::AddressMismatch { expected: a, actual: [8; 32] },
        )),
        pc(postcard::to_stdvec(&(8u64, 7u32, 1u32, 4u32, a, [8u8; 32]))),
    );
}

#[test]
fn every_error_survives_the_wire() {
    let errors = vec![
        ProtocolError::SerializationFailed("a".to_string()),
        ProtocolError::DeserializationFailed("b".to_string()),
        ProtocolError::MessageTooLarge { size: 5, max_size: 4 },
        ProtocolError::ChunkTooLarge { size: 300, max_size: 200 },
        ProtocolError::AddressMismatch { expected: [1; 32], actual: [2; 32] },
        ProtocolError::StorageFailed("c".to_string()),
        ProtocolError::PaymentFailed("d".to_string()),
        ProtocolError::QuoteFailed("e".to_string()),
        ProtocolError::Internal("f".to_string()),
    ];
    for error in errors {
        let bytes = encoded(
            1,
            ChunkMessageBody::GetResponse(ChunkGetResponse::Error(error.clone())),
        );
        match ChunkMessage::decode(&bytes).expect("decode").body {
            ChunkMessageBody::GetResponse(ChunkGetResponse::Error(e)) => assert_eq!(e, error),
            _ => panic!("expected an error"),
        }
    }
}

fn refused(data: &[u8]) -> String {
    match ChunkMessage::decode(data) {
        Err(ProtocolError::DeserializationFailed(why)) => why,
        _ => panic!("expected a deserialization error"),
    }
}

#[test]
fn malformed_messages_are_refused() {
    let end = "Hit the end of buffer, expected more data";
    let varint = "Found a varint that didn't terminate. Is the usize too big for this platform?";
    let variant = "Serde Deserialization Error";
    assert_eq!(refused(&[]), end);
    assert_eq!(refused(&[0x80]), end);
    assert_eq!(refused(&[1, 2, 0xCD]), end);
    // Request identifiers: eleven bytes, and ten bytes beyond 64 bits.
    assert_eq!(refused(&[0xFF; 11]), varint);
    assert_eq!(refused(&[0xFF, 0xFF, 0xFF, 0xFF, 0xFF, 0xFF, 0xFF, 0xFF, 0xFF, 2]), varint);
    // Variants: six bytes, beyond 32 bits, and beyond the last one.
    assert_eq!(refused(&[0, 0xFF, 0xFF, 0xFF, 0xFF, 0x10]), varint);
    assert_eq!(refused(&[0, 8]), variant);
    assert_eq!(refused(&[0, 3, 3]), variant);
    assert_eq!(refused(&[0, 3, 2, 9]), variant);
    // A byte string that announces more than there is.
    let mut short = vec![0, 3, 0];
    short.extend_from_slice(&[5; 32]);
    short.extend_from_slice(&[4, 1, 2, 3]);
    assert_eq!(refused(&short), end);
    // A flag that is neither 0 nor 1.
    assert_eq!(refused(&[0, 5, 0, 0, 2]), "Found a bool that wasn't 0 or 1");
    assert_eq!(refused(&[0, 5, 0, 0]), end);
    // An option that is neither 0 nor 1.
    let mut option = vec![0, 0];
    option.extend_from_slice(&[5; 32]);
    option.extend_from_slice(&[0, 2]);
    assert_eq!(refused(&option), "Found an Option discriminant that wasn't 0 or 1");
    // A text that is not UTF-8.
    assert_eq!(refused(&[0, 1, 2, 2, 0xC3, 0x28]), "Tried to parse invalid utf-8");
}

#[test]
fn decoding_is_lenient_where_postcard_is() {
    let mut bytes = encoded(5, ChunkMessageBody::GetRequest(ChunkGetRequest::new([3; 32])));
    bytes.extend_from_slice(b"trailing");
    assert_eq!(ChunkMessage::decode(&bytes).expect("decode").request_id, 5);
    // A number in more bytes than it needs.
    let mut padded = vec![0x85, 0x80, 0x00, 0x02];
    padded.extend_from_slice(&[3; 32]);
    assert_eq!(ChunkMessage::decode(&padded).expect("decode").request_id, 5);
    assert_eq!(
        postcard::from_bytes::<(u64, u32, [u8; 32])>(&padded).expect("postcard").0,
        5
    );
}

#[test]
fn the_size_limit_is_exact() {
    let data = vec![0u8; MAX_WIRE_MESSAGE_SIZE];
    // All zeros are a PUT request; what matters is that the size passes.
    assert!(ChunkMessage::decode(&data).is_ok());
    let data = vec![0u8; MAX_WIRE_MESSAGE_SIZE + 1];
    match ChunkMessage::decode(&data) {
        Err(ProtocolError::MessageTooLarge { size, max_size }) => {
            assert_eq!(size, MAX_WIRE_MESSAGE_SIZE + 1);
            assert_eq!(max_size, MAX_WIRE_MESSAGE_SIZE);
        }
        _ => panic!("expected MessageTooLarge"),
    }
}

#[test]
fn error_texts() {
    let text = |e: ProtocolError| e.to_string();
    assert_eq!(
        text(ProtocolError::SerializationFailed("x".to_string())),
        "serialization failed: x"
    );
    assert_eq!(
        text(ProtocolError::DeserializationFailed("x".to_string())),
        "deserialization failed: x"
    );
    assert_eq!(
        text(ProtocolError::MessageTooLarge { size: 5242881, max_size: 5242880 }),
        "message size 5242881 exceeds maximum 5242880"
    );
    assert_eq!(
        text(ProtocolError::ChunkTooLarge { size: 10, max_size: 0 }),
        "chunk size 10 exceeds maximum 0"
    );
    assert_eq!(
        text(ProtocolError::AddressMismatch { expected: [0x0F; 32], actual: [0xA0; 32] }),
        format!("address mismatch: expected {}, got {}", "0f".repeat(32), "a0".repeat(32))
    );
    assert_eq!(text(ProtocolError::StorageFailed("x".to_string())), "storage failed: x");
    assert_eq!(text(ProtocolError::PaymentFailed("x".to_string())), "payment failed: x");
    assert_eq!(text(ProtocolError::QuoteFailed("x".to_string())), "quote failed: x");
    assert_eq!(text(ProtocolError::Internal("x".to_string())), "internal error: x");
}
