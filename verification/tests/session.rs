//! Streams of an established session.
use ant_tunnel::pqc_tunnel::{encode_encrypted, Direction, SessionCipher};
use ant_tunnel::session::{
    open_envelope, open_request, request_length, seal_response, ClientSession, EnvelopeError,
    Permits, RequestError, ServerSession, StreamAction, StreamCounter, MAX_CONCURRENT_STREAMS,
    MAX_REQUEST_ENVELOPE, MAX_RESPONSE, MAX_STREAMS_PER_SESSION, MAX_STREAM_SEQ,
};
use ant_tunnel::stream::{announced_length, ResponseBuffer};
use ant_tunnel::wire::frame;
use ant_tunnel::MAX_WIRE_MESSAGE_SIZE;

fn cipher() -> SessionCipher {
    SessionCipher::from_shared_secret(&[0x11; 32])
}

fn text<T>(r: Result<T, RequestError>) -> String {
    match r {
        Ok(_) => panic!("accepted"),
        Err(e) => e.to_string(),
    }
}

#[test]
fn a_request_and_its_response() {
    let server = cipher();
    let mut streams = StreamCounter::new();
    let mut client = ClientSession::new(cipher());
    for n in 1..=3u32 {
        let message = vec![n as u8; 34];
        let request = client.seal_request(&message).expect_or("seal");
        assert_eq!(request.seq, n);
        assert_eq!(request.frame.len(), 4 + 1 + 4 + 34 + 16);
        let seq = streams.next_stream().expect("number");
        assert_eq!(seq, n);
        let opened = open_request(&server, seq, &request.frame[4..]);
        assert_eq!(opened.expect_or("open"), message);
        let reply = seal_response(&server, seq, b"reply").expect("seal");
        assert_eq!(reply.len(), 5 + 25);
        assert_eq!(client.open_response(seq, &reply).expect_or("open"), b"reply");
    }
}

trait ExpectOr<T> {
    fn expect_or(self, what: &str) -> T;
}

impl<T, E> ExpectOr<T> for Result<T, E> {
    fn expect_or(self, what: &str) -> T {
        match self {
            Ok(v) => v,
            Err(_) => panic!("{what}"),
        }
    }
}

#[test]
fn stream_numbers_run_out_before_they_repeat() {
    assert_eq!(MAX_STREAM_SEQ, u32::MAX - 1);
    let mut counter = StreamCounter::starting_at(u32::MAX - 3);
    assert_eq!(counter.next_stream(), Some(u32::MAX - 3));
    assert_eq!(counter.next_stream(), Some(u32::MAX - 2));
    assert_eq!(counter.next_stream(), None);
    assert_eq!(counter.next_stream(), None);
    let mut client = ClientSession::resumed(cipher(), MAX_STREAM_SEQ - 1);
    assert_eq!(client.seal_request(b"last").expect_or("seal").seq, MAX_STREAM_SEQ - 1);
    for _ in 0..2 {
        assert_eq!(
            text(client.seal_request(b"one too many")),
            "session stream limit reached — reconnect required to prevent nonce reuse"
        );
    }
}

#[test]
fn responses_of_other_streams_are_refused() {
    let client = ClientSession::new(cipher());
    let reply = seal_response(&cipher(), 2, b"reply").expect("seal");
    assert_eq!(
        text(client.open_response(1, &reply)),
        "response sequence mismatch: expected 1, got 2"
    );
    // Relabelled, it still does not decrypt under the other number's nonce.
    let mut relabelled = reply.clone();
    relabelled[8] = 1;
    assert_eq!(
        text(client.open_response(1, &relabelled)),
        "PQC decryption failed: PQC tunnel decryption failed"
    );
    assert_eq!(client.open_response(2, &reply).expect_or("open"), b"reply");
}

#[test]
fn malformed_responses_of_a_stream_are_refused() {
    let client = ClientSession::new(cipher());
    assert_eq!(text(client.open_response(1, &[1, 2, 3])), "response too short: 3 bytes");
    assert_eq!(
        text(client.open_response(1, &[0, 0, 0, 2, 3, 0])),
        "invalid response envelope: invalid PQC envelope: Encrypted envelope too short: 2 bytes"
    );
    assert_eq!(
        text(client.open_response(1, &[0, 0, 0, 5, 4, 0, 0, 0, 1])),
        "invalid response envelope: invalid PQC envelope: expected Encrypted type 0x03, got 0x04"
    );
    assert_eq!(
        text(client.open_response(1, &vec![0; MAX_RESPONSE + 1])),
        "response exceeds size limit: 5243393 > 5243392"
    );
    assert_eq!(
        text(client.open_response(1, &vec![0; MAX_RESPONSE])),
        "invalid response envelope: invalid PQC envelope: expected Encrypted type 0x03, got 0x00"
    );
    assert_eq!(
        RequestError::EncryptionFailed.to_string(),
        "PQC encryption failed: PQC tunnel encryption failed"
    );
}

#[test]
fn the_server_refuses_foreign_envelopes() {
    let server = cipher();
    let mut client = ClientSession::new(cipher());
    let request = client.seal_request(b"request").expect_or("seal");
    assert!(matches!(
        open_request(&server, 2, &request.frame[4..]),
        Err(EnvelopeError::SequenceMismatch { expected: 2, actual: 1 })
    ));
    // A request is no response.
    assert!(matches!(
        open_envelope(&server, 1, Direction::ServerToClient, &request.frame[4..]),
        Err(EnvelopeError::DecryptionFailed)
    ));
    assert!(matches!(
        open_request(&server, 1, &encode_encrypted(1, &[0; 16])),
        Err(EnvelopeError::DecryptionFailed)
    ));
    assert!(matches!(open_request(&server, 1, &[1; 40]), Err(EnvelopeError::Invalid(_))));
}

fn established(global: &mut Permits) -> ServerSession {
    let mut session = ServerSession::new();
    assert_eq!(session.stream_opened(global), StreamAction::Handshake);
    session.handshake_done(true);
    session
}

#[test]
fn permits_are_counted() {
    let mut permits = Permits::new(2);
    assert!(!permits.any_used());
    assert!(permits.try_acquire());
    assert!(permits.any_used());
    assert!(permits.try_acquire());
    assert!(!permits.try_acquire());
    permits.release();
    assert!(permits.try_acquire());
    assert!(!permits.try_acquire());
    assert!(!Permits::new(0).try_acquire());
}

#[test]
fn the_first_stream_is_the_handshake() {
    let mut global = Permits::new(MAX_CONCURRENT_STREAMS);
    let mut session = established(&mut global);
    assert!(!global.any_used());
    assert_eq!(session.stream_opened(&mut global), StreamAction::Serve(1));
    assert_eq!(session.stream_opened(&mut global), StreamAction::Serve(2));
    assert!(global.any_used());
}

#[test]
fn no_stream_is_served_after_a_failed_handshake() {
    let mut global = Permits::new(MAX_CONCURRENT_STREAMS);
    let mut session = ServerSession::new();
    assert_eq!(session.stream_opened(&mut global), StreamAction::Handshake);
    session.handshake_done(false);
    for _ in 0..3 {
        assert_eq!(session.stream_opened(&mut global), StreamAction::CloseSession);
    }
    session.handshake_done(true);
    assert_eq!(session.stream_opened(&mut global), StreamAction::CloseSession);
    assert!(!global.any_used());
}

/// Serves the next stream of a session and opens an envelope on it.
fn receive(session: &mut ServerSession, global: &mut Permits, envelope: &[u8]) -> EnvelopeError {
    let seq = match session.stream_opened(global) {
        StreamAction::Serve(seq) => seq,
        other => panic!("not served: {other:?}"),
    };
    match open_request(&cipher(), seq, envelope) {
        Ok(_) => panic!("opened"),
        Err(e) => e,
    }
}

#[test]
fn plaintext_ends_a_session() {
    let envelopes: [&[u8]; 3] = [&[0x00; 40], &[0x00], &[0x00, 0xFF, 0xFF, 0xFF, 0xFF]];
    for envelope in envelopes {
        let mut global = Permits::new(MAX_CONCURRENT_STREAMS);
        let mut session = established(&mut global);
        let mut other = established(&mut global);
        let e = receive(&mut session, &mut global, envelope);
        assert!(matches!(&e, EnvelopeError::Plaintext(_)));
        assert!(session.envelope_refused(&e));
        assert_eq!(session.stream_opened(&mut global), StreamAction::CloseSession);
        session.handshake_done(true);
        assert_eq!(session.stream_opened(&mut global), StreamAction::CloseSession);
        session.stream_done(&mut global);
        assert!(!global.any_used());
        assert_eq!(other.stream_opened(&mut global), StreamAction::Serve(1));
    }
    match open_request(&cipher(), 1, &[0x00; 40]) {
        Err(EnvelopeError::Plaintext(why)) => assert_eq!(
            why,
            "invalid PQC envelope: expected Encrypted type 0x03, got 0x00"
        ),
        _ => panic!("expected a refusal"),
    }
}

#[test]
fn other_refused_envelopes_leave_the_session() {
    let mut global = Permits::new(MAX_CONCURRENT_STREAMS);
    let mut session = established(&mut global);
    let foreign = encode_encrypted(77, &[0; 16]);
    let forged = encode_encrypted(2, &[0; 16]);
    let e = receive(&mut session, &mut global, &foreign);
    assert!(matches!(&e, EnvelopeError::SequenceMismatch { expected: 1, actual: 77 }));
    assert!(!session.envelope_refused(&e));
    let e = receive(&mut session, &mut global, &forged);
    assert!(matches!(&e, EnvelopeError::DecryptionFailed));
    assert!(!session.envelope_refused(&e));
    for envelope in [&[][..], &[1][..], &[4; 40][..]] {
        let e = receive(&mut session, &mut global, envelope);
        assert!(matches!(&e, EnvelopeError::Invalid(_)));
        assert!(!session.envelope_refused(&e));
    }
    assert_eq!(session.stream_opened(&mut global), StreamAction::Serve(6));
}

#[test]
fn a_session_serves_eight_streams_at_once() {
    assert_eq!(MAX_STREAMS_PER_SESSION, 8);
    let mut global = Permits::new(MAX_CONCURRENT_STREAMS);
    let mut session = established(&mut global);
    for n in 1..=8 {
        assert_eq!(session.stream_opened(&mut global), StreamAction::Serve(n));
    }
    // The dropped streams have the numbers 9 and 10.
    assert_eq!(session.stream_opened(&mut global), StreamAction::DropSessionOverloaded);
    assert_eq!(session.stream_opened(&mut global), StreamAction::DropSessionOverloaded);
    session.stream_done(&mut global);
    assert_eq!(session.stream_opened(&mut global), StreamAction::Serve(11));
    assert_eq!(session.stream_opened(&mut global), StreamAction::DropSessionOverloaded);
    for _ in 0..8 {
        session.stream_done(&mut global);
    }
    assert!(!global.any_used());
}

#[test]
fn all_sessions_share_sixty_four_permits() {
    assert_eq!(MAX_CONCURRENT_STREAMS, 64);
    let mut global = Permits::new(MAX_CONCURRENT_STREAMS);
    let mut sessions: Vec<ServerSession> = (0..9).map(|_| established(&mut global)).collect();
    for session in sessions[..8].iter_mut() {
        for n in 1..=8 {
            assert_eq!(session.stream_opened(&mut global), StreamAction::Serve(n));
        }
    }
    assert_eq!(sessions[8].stream_opened(&mut global), StreamAction::DropOverloaded);
    assert_eq!(sessions[0].stream_opened(&mut global), StreamAction::DropOverloaded);
    // The end of a stream that the session does not serve frees nothing.
    sessions[8].stream_done(&mut global);
    assert_eq!(sessions[8].stream_opened(&mut global), StreamAction::DropOverloaded);
    sessions[0].stream_done(&mut global);
    assert_eq!(sessions[8].stream_opened(&mut global), StreamAction::Serve(3));
    assert_eq!(sessions[0].stream_opened(&mut global), StreamAction::DropOverloaded);
}

#[test]
fn a_stream_without_a_session_permit_takes_no_other() {
    let mut global = Permits::new(9);
    let mut full = established(&mut global);
    for n in 1..=8 {
        assert_eq!(full.stream_opened(&mut global), StreamAction::Serve(n));
    }
    assert_eq!(full.stream_opened(&mut global), StreamAction::DropSessionOverloaded);
    let mut other = established(&mut global);
    assert_eq!(other.stream_opened(&mut global), StreamAction::Serve(1));
    assert_eq!(other.stream_opened(&mut global), StreamAction::DropOverloaded);
}

#[test]
fn announced_lengths_are_limited() {
    assert_eq!(MAX_REQUEST_ENVELOPE, MAX_WIRE_MESSAGE_SIZE + 256);
    let limit = (MAX_REQUEST_ENVELOPE as u32).to_be_bytes();
    assert_eq!(request_length(limit), Ok(MAX_REQUEST_ENVELOPE));
    let beyond = (MAX_REQUEST_ENVELOPE as u32 + 1).to_be_bytes();
    assert_eq!(request_length(beyond), Err(MAX_REQUEST_ENVELOPE + 1));
    assert_eq!(announced_length([0x12, 0x34, 0x56, 0x78], usize::MAX), Ok(0x1234_5678));
    assert_eq!(announced_length([0, 0, 0, 1], 0), Err(1));
}

#[test]
fn response_buffers_are_limited() {
    let mut buffer = ResponseBuffer::new(5);
    assert_eq!(buffer.push(&[1, 2, 3]), Ok(()));
    assert_eq!(buffer.push(&[]), Ok(()));
    assert_eq!(buffer.push(&[4, 5]), Ok(()));
    assert_eq!(buffer.as_slice(), &[1, 2, 3, 4, 5]);
    assert_eq!(buffer.push(&[6, 7]), Err(7));
}

#[test]
fn frames_carry_their_length() {
    assert_eq!(frame(&[]), vec![0, 0, 0, 0]);
    assert_eq!(frame(&[9; 258])[..5], [0, 0, 1, 2, 9]);
}
