//! Envelopes, nonces and the session cipher.
use ant_tunnel::pqc_tunnel::{
    build_auth_message, build_nonce, decode_client_hello, decode_encrypted, decode_server_accept,
    derive_peer_id, encode_client_hello, encode_encrypted, encode_server_accept, Direction,
    EnvelopeType, SessionCipher, TunnelError, AUTH_SIGN_CONTEXT, ML_DSA_65_PK_SIZE,
    ML_DSA_65_SIG_SIZE, ML_KEM_768_CT_SIZE, ML_KEM_768_EK_SIZE, PQC_VERSION,
};
use chacha20poly1305::aead::{Aead, KeyInit};
use chacha20poly1305::ChaCha20Poly1305;

#[test]
fn session_cipher_roundtrip() {
    let ss = [0xAB; 32];
    let cipher = SessionCipher::from_shared_secret(&ss);

    let plaintext = b"hello, post-quantum world";
    let encrypted = cipher
        .encrypt(1, Direction::ClientToServer, plaintext)
        .expect("encrypt");
    let decrypted = cipher
        .decrypt(1, Direction::ClientToServer, &encrypted)
        .expect("decrypt");
    assert_eq!(decrypted, plaintext);
}

#[test]
fn wrong_key_fails_decryption() {
    let cipher_a = SessionCipher::from_shared_secret(&[0xAA; 32]);
    let cipher_b = SessionCipher::from_shared_secret(&[0xBB; 32]);

    let encrypted = cipher_a
        .encrypt(1, Direction::ClientToServer, b"secret")
        .expect("encrypt");

    let result = cipher_b.decrypt(1, Direction::ClientToServer, &encrypted);
    assert!(result.is_err());
}

#[test]
fn wrong_direction_fails_decryption() {
    let cipher = SessionCipher::from_shared_secret(&[0xCC; 32]);

    let encrypted = cipher
        .encrypt(1, Direction::ClientToServer, b"secret")
        .expect("encrypt");

    let result = cipher.decrypt(1, Direction::ServerToClient, &encrypted);
    assert!(result.is_err());
}

#[test]
fn wrong_stream_seq_fails_decryption() {
    let cipher = SessionCipher::from_shared_secret(&[0xDD; 32]);

    let encrypted = cipher
        .encrypt(1, Direction::ClientToServer, b"secret")
        .expect("encrypt");

    let result = cipher.decrypt(2, Direction::ClientToServer, &encrypted);
    assert!(result.is_err());
}

#[test]
fn nonce_uniqueness() {
    let n1 = build_nonce(1, Direction::ClientToServer);
    let n2 = build_nonce(1, Direction::ServerToClient);
    let n3 = build_nonce(2, Direction::ClientToServer);

    assert_ne!(n1, n2, "different direction must produce different nonce");
    assert_ne!(n1, n3, "different seq must produce different nonce");
    assert_ne!(n2, n3);
}

#[test]
fn client_hello_roundtrip() {
    let ek = [0x42; ML_KEM_768_EK_SIZE];
    let encoded = encode_client_hello(&ek);
    let (version, decoded_ek) = decode_client_hello(&encoded).expect("decode");
    assert_eq!(version, PQC_VERSION);
    assert_eq!(decoded_ek, ek);
}

#[test]
fn server_accept_roundtrip() {
    let ct = [0x99; ML_KEM_768_CT_SIZE];
    let pubkey = [0xAA; ML_DSA_65_PK_SIZE];
    let sig = [0xBB; ML_DSA_65_SIG_SIZE];
    let encoded = encode_server_accept(&ct, &pubkey, &sig);
    let decoded = match decode_server_accept(&encoded) {
        Ok(decoded) => decoded,
        Err(_) => panic!("decode"),
    };
    assert_eq!(decoded.version, PQC_VERSION);
    assert_eq!(decoded.ct, ct);
    assert_eq!(decoded.pubkey, pubkey);
    assert_eq!(decoded.signature, sig);
}

#[test]
fn encrypted_envelope_roundtrip() {
    let ciphertext = vec![1, 2, 3, 4, 5, 6, 7, 8];
    let encoded = encode_encrypted(42, &ciphertext);
    let (seq, decoded_ct) = decode_encrypted(&encoded).expect("decode");
    assert_eq!(seq, 42);
    assert_eq!(decoded_ct, &ciphertext);
}

#[test]
fn decode_rejects_wrong_type() {
    let mut data = encode_client_hello(&[0; ML_KEM_768_EK_SIZE]);
    data[0] = 0x02; // ServerAccept type byte, but ClientHello payload
    assert!(decode_client_hello(&data).is_err());
}

#[test]
fn decode_rejects_truncated() {
    assert!(decode_client_hello(&[0x01, 0x00]).is_err());
    assert!(decode_server_accept(&[0x02, 0x00]).is_err());
    assert!(decode_encrypted(&[0x03]).is_err());
}

#[test]
fn envelope_sizes_match_spec() {
    let hello = encode_client_hello(&[0; ML_KEM_768_EK_SIZE]);
    assert_eq!(hello.len(), 1 + 2 + ML_KEM_768_EK_SIZE); // 1187

    let accept = encode_server_accept(
        &[0; ML_KEM_768_CT_SIZE],
        &[0; ML_DSA_65_PK_SIZE],
        &[0; ML_DSA_65_SIG_SIZE],
    );
    assert_eq!(
        accept.len(),
        1 + 2 + ML_KEM_768_CT_SIZE + ML_DSA_65_PK_SIZE + ML_DSA_65_SIG_SIZE
    ); // 6352
}

#[test]
fn auth_message_construction() {
    let ek = [0x11; ML_KEM_768_EK_SIZE];
    let ct = [0x22; ML_KEM_768_CT_SIZE];
    let msg = build_auth_message(&ek, &ct);
    assert_eq!(
        msg.len(),
        AUTH_SIGN_CONTEXT.len() + ML_KEM_768_EK_SIZE + ML_KEM_768_CT_SIZE
    );
    assert!(msg.starts_with(AUTH_SIGN_CONTEXT));
    assert_eq!(&msg[AUTH_SIGN_CONTEXT.len()..AUTH_SIGN_CONTEXT.len() + ML_KEM_768_EK_SIZE], &ek);
    assert_eq!(&msg[AUTH_SIGN_CONTEXT.len() + ML_KEM_768_EK_SIZE..], &ct);
}

#[test]
fn peer_id_derivation_is_blake3() {
    let pubkey = [0x42; ML_DSA_65_PK_SIZE];
    let peer_id = derive_peer_id(&pubkey);
    let expected = *blake3::hash(&pubkey).as_bytes();
    assert_eq!(peer_id, expected);
}

#[test]
fn auth_context_is_the_domain_separator() {
    assert_eq!(AUTH_SIGN_CONTEXT, b"ant-wt-auth-v1");
}

#[test]
fn auth_messages_of_different_handshakes_differ() {
    let a = build_auth_message(&[1; ML_KEM_768_EK_SIZE], &[2; ML_KEM_768_CT_SIZE]);
    let b = build_auth_message(&[3; ML_KEM_768_EK_SIZE], &[2; ML_KEM_768_CT_SIZE]);
    let c = build_auth_message(&[1; ML_KEM_768_EK_SIZE], &[4; ML_KEM_768_CT_SIZE]);
    assert_ne!(a, b);
    assert_ne!(a, c);
    assert_ne!(b, c);
}

#[test]
fn nonce_layout() {
    assert_eq!(
        build_nonce(0x0102_0304, Direction::ClientToServer),
        [1, 2, 3, 4, 0, 0, 0, 0, 0, 0, 0, 0]
    );
    assert_eq!(
        build_nonce(u32::MAX, Direction::ServerToClient),
        [255, 255, 255, 255, 1, 0, 0, 0, 0, 0, 0, 0]
    );
}

#[test]
fn envelope_types_and_bytes() {
    assert_eq!(EnvelopeType::from_byte(1), Some(EnvelopeType::ClientHello));
    assert_eq!(EnvelopeType::from_byte(2), Some(EnvelopeType::ServerAccept));
    assert_eq!(EnvelopeType::from_byte(3), Some(EnvelopeType::Encrypted));
    for b in 0..=255u8 {
        match EnvelopeType::from_byte(b) {
            Some(t) => assert_eq!(t.to_byte(), b),
            None => assert!(b == 0 || b > 3),
        }
    }
}

#[test]
fn cipher_is_chacha20poly1305_under_the_derived_key() {
    let ss = [0x5A; 32];
    let key = blake3::derive_key("ant-wt-pqc-v1", &ss);
    let direct = ChaCha20Poly1305::new((&key).into())
        .encrypt(&[0, 0, 0, 7, 1, 0, 0, 0, 0, 0, 0, 0].into(), b"payload".as_slice())
        .expect("encrypt");
    let ours = SessionCipher::from_shared_secret(&ss)
        .encrypt(7, Direction::ServerToClient, b"payload")
        .expect("encrypt");
    assert_eq!(ours, direct);
    assert_eq!(ours.len(), 7 + 16);
}

#[test]
fn equal_secrets_give_equal_ciphers() {
    let a = SessionCipher::from_shared_secret(&[1; 32]);
    let b = SessionCipher::from_shared_secret(&[1; 32]);
    let sealed = a.encrypt(3, Direction::ClientToServer, b"").expect("encrypt");
    assert_eq!(sealed.len(), 16);
    assert_eq!(b.decrypt(3, Direction::ClientToServer, &sealed).expect("decrypt"), b"");
}

#[test]
fn tampered_and_short_ciphertexts_are_refused() {
    let cipher = SessionCipher::from_shared_secret(&[9; 32]);
    let mut sealed = cipher.encrypt(1, Direction::ClientToServer, b"data").expect("encrypt");
    sealed[0] ^= 1;
    assert!(matches!(
        cipher.decrypt(1, Direction::ClientToServer, &sealed),
        Err(TunnelError::DecryptionFailed)
    ));
    assert!(matches!(
        cipher.decrypt(1, Direction::ClientToServer, &[0; 15]),
        Err(TunnelError::DecryptionFailed)
    ));
}

#[test]
fn client_hello_layout_and_trailing_bytes() {
    let mut hello = encode_client_hello(&[0x42; ML_KEM_768_EK_SIZE]);
    assert_eq!(&hello[..4], &[1, 0, 2, 0x42]);
    hello.push(0xFF);
    assert!(decode_client_hello(&hello).is_ok());
    hello[2] = 9;
    assert_eq!(decode_client_hello(&hello).expect("decode").0, 9);
}

fn why(e: TunnelError) -> String {
    e.to_string()
}

#[test]
fn envelope_errors_say_what_is_wrong() {
    assert_eq!(
        why(decode_client_hello(&[1, 0]).map(|_| ()).expect_err("short")),
        "invalid PQC envelope: ClientHello too short: 2 bytes, expected 1187"
    );
    assert_eq!(
        why(decode_client_hello(&[0xAB; 1187]).map(|_| ()).expect_err("type")),
        "invalid PQC envelope: expected ClientHello type 0x01, got 0xab"
    );
    assert_eq!(
        why(decode_server_accept(&[2; 6351]).map(|_| ()).expect_err("short")),
        "invalid PQC envelope: ServerAccept too short: 6351 bytes, expected 6352"
    );
    assert_eq!(
        why(decode_server_accept(&[3; 6352]).map(|_| ()).expect_err("type")),
        "invalid PQC envelope: expected ServerAccept type 0x02, got 0x03"
    );
    assert_eq!(
        why(decode_encrypted(&[]).map(|_| ()).expect_err("short")),
        "invalid PQC envelope: Encrypted envelope too short: 0 bytes"
    );
    assert_eq!(
        why(decode_encrypted(&[0; 5]).map(|_| ()).expect_err("type")),
        "invalid PQC envelope: expected Encrypted type 0x03, got 0x00"
    );
    assert_eq!(decode_encrypted(&[3, 0, 0, 1, 0]).expect("decode"), (256, &[][..]));
}

#[test]
fn error_texts_of_the_tunnel() {
    assert_eq!(why(TunnelError::UnsupportedVersion(65535)), "unsupported PQC version: 65535");
    assert_eq!(why(TunnelError::EncryptionFailed), "PQC tunnel encryption failed");
    assert_eq!(why(TunnelError::DecryptionFailed), "PQC tunnel decryption failed");
    assert_eq!(why(TunnelError::AuthenticationFailed), "ML-DSA-65 signature verification failed");
    assert_eq!(
        why(TunnelError::PeerIdMismatch { expected: [0xAB; 32], actual: [0x01; 32] }),
        format!("PeerId mismatch: expected {}, got {}", "ab".repeat(32), "01".repeat(32))
    );
}
