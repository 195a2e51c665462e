//! The authenticated key exchange, run with the real primitives.
use ant_tunnel::handshake::{
    accept_client, accept_with, check_server, client_hello_length, read_client_hello,
    read_server_accept, respond, ClientHandshake, ClientHandshakeError, NodeKeys,
    ServerHandshakeError, MAX_CLIENT_HELLO, MAX_HANDSHAKE_RESPONSE,
};
use ant_tunnel::pqc_tunnel::{
    derive_peer_id, encode_client_hello, encode_server_accept, Direction, SessionCipher,
    ML_DSA_65_PK_SIZE, ML_DSA_65_SIG_SIZE, ML_KEM_768_CT_SIZE, ML_KEM_768_EK_SIZE,
};
use ant_tunnel::wire::frame;
use saorsa_pqc::pqc::{MlDsa65, MlDsaOperations};

fn node_keys() -> NodeKeys {
    let (pk, sk) = MlDsa65::new().generate_keypair().expect("keypair");
    let mut public_key = [0u8; ML_DSA_65_PK_SIZE];
    public_key.copy_from_slice(pk.as_bytes());
    NodeKeys { public_key, secret_key: sk.as_bytes().to_vec() }
}

fn start() -> ClientHandshake {
    match ClientHandshake::start() {
        Ok(h) => h,
        Err(_) => panic!("start"),
    }
}

/// The answer of a server to a client.
fn answer(client: &ClientHandshake, keys: &NodeKeys) -> (Vec<u8>, SessionCipher) {
    let hello = client.hello();
    let len = match client_hello_length([hello[0], hello[1], hello[2], hello[3]]) {
        Ok(len) => len,
        Err(_) => panic!("length"),
    };
    assert_eq!(len, hello.len() - 4);
    match respond(&hello[4..], Some(keys)) {
        Ok(a) => a,
        Err(_) => panic!("respond"),
    }
}

fn refusal(client: &ClientHandshake, response: &[u8], expected: Option<&[u8; 32]>) -> String {
    match client.finish(response, expected) {
        Ok(_) => panic!("accepted"),
        Err(e) => e.to_string(),
    }
}

#[test]
fn both_sides_arrive_at_the_same_cipher() {
    let keys = node_keys();
    let client = start();
    let (response, server_cipher) = answer(&client, &keys);
    assert_eq!(response.len(), 4 + 6352);
    assert!(response.len() <= MAX_HANDSHAKE_RESPONSE);
    let client_cipher = match client.finish(&response, None) {
        Ok(c) => c,
        Err(_) => panic!("finish"),
    };
    let sealed = client_cipher.encrypt(1, Direction::ClientToServer, b"hi").expect("encrypt");
    assert_eq!(
        server_cipher.decrypt(1, Direction::ClientToServer, &sealed).expect("decrypt"),
        b"hi"
    );
}

#[test]
fn the_expected_peer_is_accepted_and_another_one_refused() {
    let keys = node_keys();
    let client = start();
    let (response, _cipher) = answer(&client, &keys);
    let id = derive_peer_id(&keys.public_key);
    assert!(client.finish(&response, Some(&id)).is_ok());
    let other = [0x77; 32];
    assert_eq!(
        refusal(&client, &response, Some(&other)),
        format!("PeerId mismatch: expected {}, got {}", "77".repeat(32), hex::encode(id))
    );
}

#[test]
fn two_handshakes_differ() {
    let keys = node_keys();
    let (a, b) = (start(), start());
    assert_ne!(a.hello(), b.hello());
    let (first, _) = answer(&a, &keys);
    let (second, _) = answer(&a, &keys);
    assert_ne!(first, second);
}

#[test]
fn an_answer_to_another_client_is_refused() {
    let keys = node_keys();
    let (a, b) = (start(), start());
    let (response, _) = answer(&a, &keys);
    assert_eq!(
        refusal(&b, &response, None),
        "ML-DSA-65 signature verification failed — server not authenticated"
    );
}

#[test]
fn tampering_is_noticed() {
    let keys = node_keys();
    let client = start();
    let (response, _) = answer(&client, &keys);
    // One byte of the ciphertext, of the public key and of the signature.
    for index in [4 + 3, 4 + 3 + 1088, 4 + 3 + 1088 + 1952] {
        let mut forged = response.clone();
        forged[index] ^= 1;
        assert!(matches!(
            client.finish(&forged, None),
            Err(ClientHandshakeError::NotAuthenticated)
        ));
    }
    // The length prefix is not read.
    let mut relabelled = response.clone();
    relabelled[0] = 0xFF;
    assert!(client.finish(&relabelled, None).is_ok());
}

#[test]
fn malformed_responses_are_refused() {
    let keys = node_keys();
    let client = start();
    let (response, _) = answer(&client, &keys);
    assert_eq!(refusal(&client, &[0, 0, 0], None), "handshake response too short: 3 bytes");
    assert_eq!(
        refusal(&client, &response[..100], None),
        "invalid ServerAccept: invalid PQC envelope: ServerAccept too short: 96 bytes, expected 6352"
    );
    let mut wrong_type = response.clone();
    wrong_type[4] = 1;
    assert_eq!(
        refusal(&client, &wrong_type, None),
        "invalid ServerAccept: invalid PQC envelope: expected ServerAccept type 0x02, got 0x01"
    );
    let mut wrong_version = response.clone();
    wrong_version[6] = 3;
    assert_eq!(refusal(&client, &wrong_version, None), "unsupported PQC version: 3");
    assert!(matches!(
        read_server_accept(&wrong_version),
        Err(ClientHandshakeError::UnsupportedVersion(3))
    ));
}

#[test]
fn a_malformed_decapsulation_key_is_noticed() {
    let keys = node_keys();
    let real = start();
    let hello = real.hello();
    let mut ek = [0u8; ML_KEM_768_EK_SIZE];
    ek.copy_from_slice(&hello[7..]);
    let broken = ClientHandshake::with_keys(ek, [0; 2400]);
    assert_eq!(broken.hello(), hello);
    let (response, _) = answer(&real, &keys);
    assert_eq!(refusal(&broken, &response, None), "ML-KEM-768 decapsulation failed");
}

#[test]
fn checks_of_the_server() {
    let id = [1; 32];
    assert!(check_server(Some(true), &id, None).is_ok());
    assert!(check_server(Some(true), &id, Some(&[1; 32])).is_ok());
    assert!(matches!(
        check_server(Some(true), &id, Some(&[2; 32])),
        Err(ClientHandshakeError::PeerIdMismatch { .. })
    ));
    assert!(matches!(
        check_server(Some(false), &id, Some(&[2; 32])),
        Err(ClientHandshakeError::NotAuthenticated)
    ));
    assert!(matches!(
        check_server(None, &id, None),
        Err(ClientHandshakeError::InvalidPublicKey)
    ));
}

#[test]
fn remaining_client_texts() {
    assert_eq!(ClientHandshakeError::KeyGenerationFailed.to_string(), "ML-KEM-768 keygen failed");
    assert_eq!(
        ClientHandshakeError::ResponseTooLarge.to_string(),
        "handshake response exceeds size limit"
    );
    assert_eq!(
        ClientHandshakeError::InvalidPublicKey.to_string(),
        "invalid ML-DSA-65 public key"
    );
}

fn server_refusal(message: &[u8], keys: Option<&NodeKeys>) -> String {
    match respond(message, keys) {
        Ok(_) => panic!("accepted"),
        Err(e) => e.to_string(),
    }
}

#[test]
fn the_server_refuses_what_is_no_hello() {
    let keys = node_keys();
    let hello = start().hello();
    assert_eq!(
        server_refusal(&hello[4..], None),
        "NodeIdentity required for authenticated PQC handshake"
    );
    assert_eq!(
        server_refusal(&hello[4..104], Some(&keys)),
        "invalid PQC envelope: ClientHello too short: 100 bytes, expected 1187"
    );
    let bad_key = encode_client_hello(&[0xFF; ML_KEM_768_EK_SIZE]);
    assert_eq!(server_refusal(&bad_key, Some(&keys)), "invalid ML-KEM-768 encapsulation key");
}

/// The server answers a hello of another version with its own; the client decides.
#[test]
fn hellos_of_other_versions_are_answered() {
    let keys = node_keys();
    let client = start();
    for version in [0u8, 1, 3] {
        let mut hello = client.hello()[4..].to_vec();
        hello[2] = version;
        assert!(read_client_hello(&hello).is_ok());
        let (response, cipher) = match respond(&hello, Some(&keys)) {
            Ok(a) => a,
            Err(_) => panic!("respond"),
        };
        assert_eq!(&response[4..7], &[2, 0, 2]);
        let own = match client.finish(&response, None) {
            Ok(c) => c,
            Err(_) => panic!("finish"),
        };
        let sealed = cipher.encrypt(1, Direction::ServerToClient, b"x").expect("encrypt");
        assert_eq!(own.decrypt(1, Direction::ServerToClient, &sealed).expect("decrypt"), b"x");
    }
}

#[test]
fn long_answers_are_refused() {
    let client = start();
    let limit = vec![0; MAX_HANDSHAKE_RESPONSE];
    assert_ne!(refusal(&client, &limit, None), "handshake response exceeds size limit");
    let beyond = vec![0; MAX_HANDSHAKE_RESPONSE + 1];
    assert_eq!(refusal(&client, &beyond, None), "handshake response exceeds size limit");
    assert!(matches!(
        read_server_accept(&beyond),
        Err(ClientHandshakeError::ResponseTooLarge)
    ));
}

#[test]
fn the_server_needs_a_working_secret_key() {
    let hello = start().hello();
    let mut keys = node_keys();
    keys.secret_key.pop();
    assert_eq!(
        server_refusal(&hello[4..], Some(&keys)),
        "Failed to deserialize ML-DSA-65 secret key: Invalid key size: expected 4032, got 4031"
    );
    assert_eq!(
        ServerHandshakeError::SigningFailed("x".to_string()).to_string(),
        "ML-DSA-65 signing failed: x"
    );
}

#[test]
fn the_size_of_a_hello_is_limited() {
    assert!(matches!(client_hello_length([0, 0, 0x10, 0]), Ok(MAX_CLIENT_HELLO)));
    match client_hello_length([0, 0, 0x10, 1]) {
        Err(e) => assert_eq!(e.to_string(), "PQC handshake message too large"),
        Ok(_) => panic!("accepted"),
    }
    assert_eq!(
        ServerHandshakeError::EncapsulationFailed.to_string(),
        "ML-KEM-768 encapsulation failed"
    );
}

#[test]
fn the_answer_frames_what_it_is_given() {
    let ct = [1; ML_KEM_768_CT_SIZE];
    let pk = [2; ML_DSA_65_PK_SIZE];
    let sig = [3; ML_DSA_65_SIG_SIZE];
    let (framed, cipher) = accept_with(&[4; 32], &ct, &pk, &sig);
    assert_eq!(framed, frame(&encode_server_accept(&ct, &pk, &sig)));
    assert_eq!(&framed[..7], &[0, 0, 0x18, 0xD0, 2, 0, 2]);
    let sealed = cipher.encrypt(1, Direction::ServerToClient, b"x").expect("encrypt");
    let same = SessionCipher::from_shared_secret(&[4; 32]);
    assert_eq!(same.decrypt(1, Direction::ServerToClient, &sealed).expect("decrypt"), b"x");
}

#[test]
fn a_client_key_is_answered_directly() {
    let keys = node_keys();
    let client = start();
    let hello = client.hello();
    let ek = match read_client_hello(&hello[4..]) {
        Ok(ek) => ek,
        Err(_) => panic!("hello"),
    };
    let (response, _) = match accept_client(&ek, &keys) {
        Ok(a) => a,
        Err(_) => panic!("accept"),
    };
    assert!(client.finish(&response, None).is_ok());
}
