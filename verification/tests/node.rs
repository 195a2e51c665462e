//! Fetching from the network after a local miss.
use ant_tunnel::node::{
    judge_peer_message, local_miss, weigh_content, FetchAction, Miss, NetworkFetch, PeerOutcome,
    PeerVerdict,
};
use ant_tunnel::download::DownloadClient;
use ant_tunnel::pqc_tunnel::SessionCipher;
use ant_tunnel::session::{seal_response, ClientSession, MAX_RESPONSE};
use ant_tunnel::{
    compute_address, ChunkGetRequest, ChunkGetResponse, ChunkMessage, ChunkMessageBody,
    ProtocolError, MAX_CHUNK_SIZE, MAX_WIRE_MESSAGE_SIZE,
};

fn bytes_of(request_id: u64, body: ChunkMessageBody) -> Vec<u8> {
    ChunkMessage { request_id, body }.encode().expect("encode")
}

#[test]
fn only_a_missing_chunk_starts_a_fetch() {
    let address = [4; 32];
    let missing = bytes_of(
        77,
        ChunkMessageBody::GetResponse(ChunkGetResponse::NotFound { address }),
    );
    assert_eq!(local_miss(&missing), Some(Miss { request_id: 77, address }));
    let found = bytes_of(
        77,
        ChunkMessageBody::GetResponse(ChunkGetResponse::Success { address, content: vec![1] }),
    );
    assert_eq!(local_miss(&found), None);
    let error = bytes_of(
        77,
        ChunkMessageBody::GetResponse(ChunkGetResponse::Error(ProtocolError::Internal(
            "x".to_string(),
        ))),
    );
    assert_eq!(local_miss(&error), None);
    let request = bytes_of(77, ChunkMessageBody::GetRequest(ChunkGetRequest::new(address)));
    assert_eq!(local_miss(&request), None);
    assert_eq!(local_miss(&[1, 2, 3]), None);
}

#[test]
fn messages_of_peers_are_judged() {
    let content = b"chunk".to_vec();
    let address = compute_address(&content);
    let success = |address, content: &[u8]| {
        ChunkMessageBody::GetResponse(ChunkGetResponse::Success {
            address,
            content: content.to_vec(),
        })
    };
    assert!(matches!(
        judge_peer_message(&address, success(address, b"chunk")),
        PeerVerdict::Content(c) if c == b"chunk"
    ));
    assert!(matches!(
        judge_peer_message(&address, success(address, b"tampered")),
        PeerVerdict::Ignore
    ));
    let other = compute_address(b"another chunk");
    assert!(matches!(
        judge_peer_message(&address, success(other, b"another chunk")),
        PeerVerdict::Ignore
    ));
    assert!(matches!(
        judge_peer_message(&address, success(other, b"chunk")),
        PeerVerdict::Ignore
    ));
    let not_found = ChunkMessageBody::GetResponse(ChunkGetResponse::NotFound { address });
    assert!(matches!(judge_peer_message(&address, not_found), PeerVerdict::NotFound));
    let request = ChunkMessageBody::GetRequest(ChunkGetRequest::new(address));
    assert!(matches!(judge_peer_message(&address, request), PeerVerdict::Ignore));
}

#[test]
fn answers_are_told_by_their_request_identifier() {
    let content = b"chunk".to_vec();
    let address = compute_address(&content);
    let miss = Miss { request_id: 9, address };
    let (fetch, _) = NetworkFetch::begin_with_id(miss, 1, 1000);
    let success = || {
        ChunkMessageBody::GetResponse(ChunkGetResponse::Success {
            address,
            content: content.clone(),
        })
    };
    let answer = bytes_of(1000, success());
    assert!(matches!(fetch.judge(&answer), PeerVerdict::Content(c) if c == b"chunk"));
    // Under the client's identifier, it answers another request.
    assert!(matches!(fetch.judge(&bytes_of(9, success())), PeerVerdict::Ignore));
    assert!(matches!(fetch.judge(&answer[..answer.len() - 1]), PeerVerdict::Ignore));
    assert!(matches!(fetch.judge(&[]), PeerVerdict::Ignore));
    let not_found = ChunkMessageBody::GetResponse(ChunkGetResponse::NotFound { address });
    assert!(matches!(fetch.judge(&bytes_of(1000, not_found)), PeerVerdict::NotFound));
    let other = ChunkMessageBody::GetResponse(ChunkGetResponse::Success {
        address: compute_address(b"another chunk"),
        content: b"another chunk".to_vec(),
    });
    assert!(matches!(fetch.judge(&bytes_of(1000, other)), PeerVerdict::Ignore));
}

#[test]
fn content_counts_where_three_addresses_agree() {
    let (a, b) = ([1; 32], [3; 32]);
    assert!(matches!(weigh_content(&a, &a, vec![2], &a), PeerVerdict::Content(c) if c == [2]));
    assert!(matches!(weigh_content(&a, &a, vec![2], &b), PeerVerdict::Ignore));
    assert!(matches!(weigh_content(&a, &b, vec![2], &a), PeerVerdict::Ignore));
    assert!(matches!(weigh_content(&b, &a, vec![2], &a), PeerVerdict::Ignore));
}

#[test]
fn peers_are_asked_one_after_the_other() {
    let address = compute_address(&[1, 2, 3]);
    let miss = Miss { request_id: 9, address };
    let (mut fetch, action) = NetworkFetch::begin_with_id(miss, 3, 1000);
    assert!(matches!(action, FetchAction::AskPeer(0)));
    assert_eq!(fetch.peer_request_id(), 1000);
    assert_eq!(
        fetch.peer_message().expect("encode"),
        bytes_of(1000, ChunkMessageBody::GetRequest(ChunkGetRequest::new(address)))
    );
    assert!(matches!(fetch.peer_done(PeerOutcome::Failed), FetchAction::AskPeer(1)));
    assert!(matches!(fetch.peer_done(PeerOutcome::Failed), FetchAction::AskPeer(2)));
    match fetch.peer_done(PeerOutcome::Content(vec![1, 2, 3])) {
        FetchAction::Reply(reply) => assert_eq!(
            reply,
            bytes_of(
                9,
                ChunkMessageBody::GetResponse(ChunkGetResponse::Success {
                    address,
                    content: vec![1, 2, 3],
                })
            )
        ),
        _ => panic!("expected a reply"),
    }
}

#[test]
fn content_under_another_address_counts_as_a_failure() {
    let miss = Miss { request_id: 9, address: [6; 32] };
    let (mut fetch, _) = NetworkFetch::begin_with_id(miss, 2, 1);
    assert!(matches!(fetch.content_done(vec![1], &[7; 32]), FetchAction::AskPeer(1)));
    match fetch.content_done(vec![1], &[6; 32]) {
        FetchAction::Reply(reply) => assert_eq!(
            reply,
            bytes_of(
                9,
                ChunkMessageBody::GetResponse(ChunkGetResponse::Success {
                    address: [6; 32],
                    content: vec![1],
                })
            )
        ),
        _ => panic!("expected a reply"),
    }
}

#[test]
fn a_fetch_gives_up_when_all_peers_failed() {
    let miss = Miss { request_id: 9, address: [6; 32] };
    let (mut fetch, _) = NetworkFetch::begin_with_id(miss, 2, 1);
    assert!(matches!(fetch.peer_done(PeerOutcome::Failed), FetchAction::AskPeer(1)));
    assert!(matches!(fetch.peer_done(PeerOutcome::Failed), FetchAction::GiveUp));
    assert!(matches!(fetch.peer_done(PeerOutcome::Failed), FetchAction::GiveUp));
    let (_, action) = NetworkFetch::begin_with_id(miss, 0, 1);
    assert!(matches!(action, FetchAction::GiveUp));
}

#[test]
fn request_identifiers_to_peers_are_random() {
    let miss = Miss { request_id: 9, address: [6; 32] };
    let ids: Vec<u64> = (0..4)
        .map(|_| NetworkFetch::begin(miss, 1).0.peer_request_id())
        .collect();
    assert!(ids.iter().any(|id| *id != ids[0]));
}

#[test]
fn the_largest_chunk_reaches_the_client() {
    let content = vec![0x5A; MAX_CHUNK_SIZE];
    let address = compute_address(&content);
    let miss = Miss { request_id: u64::MAX, address };
    let (mut fetch, _) = NetworkFetch::begin_with_id(miss, 1, 1);
    let response = match fetch.peer_done(PeerOutcome::Content(content.clone())) {
        FetchAction::Reply(response) => response,
        _ => panic!("expected a reply"),
    };
    assert!(response.len() <= MAX_WIRE_MESSAGE_SIZE);
    let frame = seal_response(&SessionCipher::from_shared_secret(&[1; 32]), 1, &response)
        .expect("seal");
    assert!(frame.len() <= MAX_RESPONSE);
    let session = ClientSession::new(SessionCipher::from_shared_secret(&[1; 32]));
    let opened = match session.open_response(1, &frame) {
        Ok(opened) => opened,
        Err(_) => panic!("open"),
    };
    match DownloadClient::new().finish_chunk_get(&address, &opened) {
        Ok(Some(chunk)) => assert_eq!(chunk.content, content),
        _ => panic!("expected the chunk"),
    }
}

/// A peer may answer with another chunk, whole and under its own address; the next peer
/// is asked.
#[test]
fn a_wrong_chunk_from_a_peer_does_not_reach_the_client() {
    let miss = Miss { request_id: 3, address: compute_address(b"wanted") };
    let (mut fetch, _) = NetworkFetch::begin_with_id(miss, 2, 1);
    let other = || PeerOutcome::Content(b"another chunk".to_vec());
    assert!(matches!(fetch.peer_done(other()), FetchAction::AskPeer(1)));
    assert!(matches!(fetch.peer_done(other()), FetchAction::GiveUp));
}
