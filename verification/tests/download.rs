//! Chunks, the cache and whole downloads.
use ant_tunnel::download::{
    check_content, ChunkLookup, ChunkPlan, Download, DownloadAction, DownloadClient, DownloadError,
    FetchError, CACHE_CAPACITY,
};
use ant_tunnel::{
    compute_address, ChunkGetRequest, ChunkGetResponse, ChunkMessage, ChunkMessageBody, DataChunk,
    ProtocolError, XorName,
};
use bytes::Bytes;
use std::collections::HashMap;

#[test]
fn addresses_are_blake3_hashes() {
    assert_eq!(compute_address(b"abc"), *blake3::hash(b"abc").as_bytes());
}

#[test]
fn chunks_know_their_address() {
    let chunk = DataChunk::from_content(Bytes::from_static(b"hello"));
    assert_eq!(chunk.address, compute_address(b"hello"));
    assert!(chunk.verify());
    assert_eq!(chunk.size(), 5);
    let copy = chunk.clone();
    assert_eq!(copy.address, chunk.address);
    assert_eq!(copy.content, chunk.content);
    let wrong = DataChunk::new(chunk.address, Bytes::from_static(b"hullo"));
    assert!(!wrong.verify());
    assert_eq!(DataChunk::new([0; 32], Bytes::new()).size(), 0);
}

fn reply(body: ChunkMessageBody) -> Vec<u8> {
    ChunkMessage { request_id: 1, body }.encode().expect("encode")
}

fn success(address: XorName, content: &[u8]) -> Vec<u8> {
    reply(ChunkMessageBody::GetResponse(ChunkGetResponse::Success {
        address,
        content: content.to_vec(),
    }))
}

fn asks(client: &mut DownloadClient, address: &XorName) -> Option<Vec<u8>> {
    match client.begin_chunk_get(address) {
        Ok(ChunkLookup::Ask(request)) => Some(request),
        Ok(ChunkLookup::Cached(chunk)) => {
            assert_eq!(chunk.address, *address);
            assert!(chunk.verify());
            None
        }
        Err(_) => panic!("lookup"),
    }
}

fn store(client: &mut DownloadClient, content: &[u8]) -> XorName {
    let address = compute_address(content);
    match client.finish_chunk_get(&address, &success(address, content)) {
        Ok(Some(chunk)) => assert_eq!(chunk.content, content),
        _ => panic!("store"),
    }
    address
}

#[test]
fn a_chunk_is_asked_for_once() {
    let mut client = DownloadClient::new();
    let address = compute_address(b"data");
    let request = asks(&mut client, &address).expect("request");
    let expected = ChunkMessage {
        request_id: 1,
        body: ChunkMessageBody::GetRequest(ChunkGetRequest::new(address)),
    };
    assert_eq!(request, expected.encode().expect("encode"));
    assert_eq!(store(&mut client, b"data"), address);
    assert!(asks(&mut client, &address).is_none());
    // A hit uses up no identifier.
    let other = asks(&mut client, &[0; 32]).expect("request");
    assert_eq!(ChunkMessage::decode(&other).expect("decode").request_id, 2);
    assert_eq!(client.next_request_id(), 3);
    assert_eq!(client.next_request_id(), 4);
}

#[test]
fn the_cache_forgets_the_least_recently_used_chunk() {
    assert_eq!(CACHE_CAPACITY, 1024);
    let mut client = DownloadClient::new();
    let addresses: Vec<XorName> = (0..1024u32)
        .map(|i| store(&mut client, &i.to_be_bytes()))
        .collect();
    assert!(asks(&mut client, &addresses[0]).is_none());
    store(&mut client, b"one more");
    assert!(asks(&mut client, &addresses[0]).is_none());
    assert!(asks(&mut client, &addresses[1]).is_some());
    assert!(asks(&mut client, &addresses[2]).is_none());
    // Putting a known chunk again pushes nothing out.
    store(&mut client, &5u32.to_be_bytes());
    assert!(asks(&mut client, &addresses[3]).is_none());
}

#[test]
fn a_fetched_chunk_stays_while_fewer_others_are_used_than_fit() {
    let mut client = DownloadClient::new();
    let old: Vec<XorName> = (0..600u32)
        .map(|i| store(&mut client, &i.to_be_bytes()))
        .collect();
    let kept = store(&mut client, b"kept");
    // Known and new chunks, 1023 in all, some of them more than once.
    for address in old.iter().chain(old.iter()) {
        assert!(asks(&mut client, address).is_none());
    }
    for i in 600..1023u32 {
        store(&mut client, &i.to_be_bytes());
        store(&mut client, &i.to_be_bytes());
    }
    assert!(asks(&mut client, &kept).is_none());
    // One more, and the oldest goes.
    for i in 0..1023u32 {
        store(&mut client, &i.to_be_bytes());
    }
    store(&mut client, &1023u32.to_be_bytes());
    assert!(asks(&mut client, &kept).is_some());
}

fn refusal(address: &XorName, response: &[u8]) -> String {
    let mut client = DownloadClient::new();
    let text = match client.finish_chunk_get(address, response) {
        Ok(_) => panic!("accepted"),
        Err(e) => e.to_string(),
    };
    // Nothing was cached.
    assert!(asks(&mut client, address).is_some());
    text
}

#[test]
fn only_genuine_chunks_are_taken() {
    let address = compute_address(b"data");
    let other = compute_address(b"other");
    assert_eq!(
        refusal(&address, &success(other, b"other")),
        format!("address mismatch: expected {}, got {}", hex::encode(address), hex::encode(other))
    );
    assert_eq!(
        refusal(&address, &success(address, b"other")),
        format!(
            "content hash mismatch: expected {}, got {}",
            hex::encode(address),
            hex::encode(other)
        )
    );
    assert_eq!(
        refusal(
            &address,
            &reply(ChunkMessageBody::GetResponse(ChunkGetResponse::Error(
                ProtocolError::StorageFailed("disk".to_string())
            )))
        ),
        "remote error: storage failed: disk"
    );
    assert_eq!(
        refusal(&address, &reply(ChunkMessageBody::GetRequest(ChunkGetRequest::new(address)))),
        "unexpected response type"
    );
    assert_eq!(
        refusal(&address, &[]),
        "decode error: deserialization failed: Hit the end of buffer, expected more data"
    );
}

#[test]
fn a_missing_chunk_is_no_error() {
    let mut client = DownloadClient::new();
    let response = reply(ChunkMessageBody::GetResponse(ChunkGetResponse::NotFound {
        address: [1; 32],
    }));
    assert!(matches!(client.finish_chunk_get(&[1; 32], &response), Ok(None)));
}

#[test]
fn content_is_checked_against_both_addresses() {
    assert!(check_content(&[1; 32], &[1; 32], &[1; 32]).is_ok());
    assert!(matches!(
        check_content(&[1; 32], &[2; 32], &[2; 32]),
        Err(FetchError::AddressMismatch { .. })
    ));
    assert!(matches!(
        check_content(&[1; 32], &[1; 32], &[2; 32]),
        Err(FetchError::ContentMismatch { .. })
    ));
    assert_eq!(
        FetchError::Encode(ProtocolError::SerializationFailed("x".to_string())).to_string(),
        "failed to encode request: serialization failed: x"
    );
}

/// An encrypted file: its content, its address and all chunks by address.
fn encrypted_file() -> (Vec<u8>, XorName, Vec<XorName>, HashMap<XorName, Vec<u8>>) {
    let file: Vec<u8> = (0..20_000u32).map(|i| (i * i % 251) as u8).collect();
    let (map, chunks) = self_encryption::encrypt(Bytes::from(file.clone())).expect("encrypt");
    let map_bytes = map.to_bytes().expect("map");
    let mut store: HashMap<XorName, Vec<u8>> = HashMap::new();
    for chunk in &chunks {
        store.insert(compute_address(&chunk.content), chunk.content.to_vec());
    }
    let listed: Vec<XorName> = map.infos().iter().map(|info| info.dst_hash.0).collect();
    let address = compute_address(&map_bytes);
    store.insert(address, map_bytes);
    (file, address, listed, store)
}

fn found(store: &HashMap<XorName, Vec<u8>>, address: &XorName) -> Option<DataChunk> {
    store.get(address).map(|c| DataChunk::new(*address, Bytes::from(c.clone())))
}

#[test]
fn a_file_is_downloaded_chunk_by_chunk() {
    let (file, address, listed, store) = encrypted_file();
    let (mut download, first) = Download::begin(address);
    let mut asked: Vec<XorName> = Vec::new();
    let mut action = first;
    loop {
        action = match action {
            DownloadAction::Fetch(wanted) => {
                asked.push(wanted);
                match download.chunk_done(found(&store, &wanted)) {
                    Ok(next) => next,
                    Err(e) => panic!("{}", e.to_string()),
                }
            }
            DownloadAction::Finished(data) => {
                assert_eq!(data, file);
                break;
            }
        };
    }
    assert_eq!(asked[0], address);
    assert_eq!(asked[1..], listed);
    // Nothing more is wanted; the file stays available.
    assert!(matches!(download.chunk_done(None), Ok(DownloadAction::Finished(d)) if d == file));
}

fn failure(r: Result<DownloadAction, DownloadError>) -> String {
    match r {
        Ok(_) => panic!("accepted"),
        Err(e) => e.to_string(),
    }
}

#[test]
fn a_download_needs_its_data_map() {
    let (mut download, action) = Download::begin([0xAB; 32]);
    assert!(matches!(action, DownloadAction::Fetch(a) if a == [0xAB; 32]));
    assert_eq!(
        failure(download.chunk_done(None)),
        format!("DataMap not found at {}", "ab".repeat(32))
    );
    let junk = DataChunk::from_content(Bytes::from_static(&[2, 0, 0, 0, 0, 0, 0, 0, 0, 0]));
    assert_eq!(
        failure(download.chunk_done(Some(junk))),
        "failed to deserialize DataMap: unsupported DataMap version: 2"
    );
}

#[test]
fn a_download_needs_every_chunk() {
    let (_, address, listed, store) = encrypted_file();
    let (mut download, _) = Download::begin(address);
    assert!(download.chunk_done(found(&store, &address)).is_ok());
    assert!(download.chunk_done(found(&store, &listed[0])).is_ok());
    assert_eq!(
        failure(download.chunk_done(None)),
        format!("Missing chunk 2/{}: {}", listed.len(), hex::encode(listed[1]))
    );
}

#[test]
fn foreign_chunks_do_not_decrypt() {
    let (_, address, listed, store) = encrypted_file();
    let (mut download, _) = Download::begin(address);
    let mut last = download.chunk_done(found(&store, &address));
    for wanted in &listed {
        assert!(matches!(last, Ok(DownloadAction::Fetch(a)) if a == *wanted));
        last = download.chunk_done(Some(DataChunk::new(*wanted, Bytes::from_static(b"foreign"))));
    }
    assert!(failure(last).starts_with("decryption failed: "));
}

#[test]
fn a_plan_takes_chunks_in_order() {
    let mut plan = ChunkPlan::new(vec![[1; 32], [2; 32]]);
    assert_eq!(plan.wanted(), Some([1; 32]));
    match plan.chunk_done(None) {
        Err(e) => assert_eq!(e.to_string(), format!("Missing chunk 1/2: {}", "01".repeat(32))),
        Ok(()) => panic!("accepted"),
    }
    assert!(plan.chunk_done(Some(DataChunk::new([1; 32], Bytes::new()))).is_ok());
    assert_eq!(plan.wanted(), Some([2; 32]));
    assert!(plan.chunk_done(Some(DataChunk::new([2; 32], Bytes::new()))).is_ok());
    assert_eq!(plan.wanted(), None);
    assert!(plan.chunk_done(None).is_ok());
    assert_eq!(ChunkPlan::new(vec![]).wanted(), None);
}
