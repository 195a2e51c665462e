//! Fetching a chunk from the network on behalf of a client, after a miss in local
//! storage.
use crate::chunk;
use crate::chunk::{
    ChunkGetRequest, ChunkGetResponse, ChunkMessage, ChunkMessageBody, GetRequestView,
    GetResponseView, MessageBodyView, MessageView, XorName,
};
use crate::codec;
use crate::compute_address;
use crate::hash;
use crate::wire;
use vstd::prelude::*;

verus! {

/// A request that local storage could not serve.
#[derive(Debug, Clone, Copy, PartialEq, Eq)]
pub struct Miss {
    /// The identifier that the client gave its request.
    pub request_id: u64,
    /// The address of the missing chunk.
    pub address: XorName,
}

/// Identifier and address in a local response that reports a missing chunk.
pub open spec fn missed(response: Seq<u8>) -> Option<(u64, Seq<u8>)> {
    match chunk::decoded_message(response) {
        Ok(m) => match m.body {
            MessageBodyView::GetResponse(GetResponseView::NotFound { address }) => Some(
                (m.request_id, address),
            ),
            _ => None,
        },
        Err(_) => None,
    }
}

/// The miss that a local response reports, if any.
pub fn local_miss(response: &[u8]) -> (r: Option<Miss>)
    ensures
        match missed(response@) {
            Some((request_id, address)) => (r matches Some(m) && m.request_id == request_id
                && m.address@ == address),
            None => r is None,
        },
{
    match ChunkMessage::decode(response) {
        Ok(message) => match message.body {
            ChunkMessageBody::GetResponse(ChunkGetResponse::NotFound { address }) => Some(
                Miss { request_id: message.request_id, address },
            ),
            _ => None,
        },
        Err(_) => None,
    }
}

/// What a message from a peer means for a fetch.
#[derive(Debug)]
pub enum PeerVerdict {
    /// The peer sent the content of a chunk.
    Content(Vec<u8>),
    /// The peer does not have the chunk.
    NotFound,
    /// The message is no answer; keep waiting.
    Ignore,
}

/// The contents of a `PeerVerdict`.
#[verifier::ext_equal]
pub enum PeerVerdictView {
    Content(Seq<u8>),
    NotFound,
    Ignore,
}

impl View for PeerVerdict {
    type V = PeerVerdictView;

    open spec fn view(&self) -> PeerVerdictView {
        match self {
            PeerVerdict::Content(c) => PeerVerdictView::Content(c@),
            PeerVerdict::NotFound => PeerVerdictView::NotFound,
            PeerVerdict::Ignore => PeerVerdictView::Ignore,
        }
    }
}

/// What a message from a peer means for a fetch of the chunk at `asked`: content counts
/// where it comes under that address and hashes to it.
pub open spec fn peer_verdict(asked: Seq<u8>, body: MessageBodyView) -> PeerVerdictView {
    match body {
        MessageBodyView::GetResponse(GetResponseView::Success { address, content }) =>
            if address == asked && hash::blake3_hash(content) == asked {
                PeerVerdictView::Content(content)
            } else {
                PeerVerdictView::Ignore
            },
        MessageBodyView::GetResponse(GetResponseView::NotFound { address }) =>
            PeerVerdictView::NotFound,
        _ => PeerVerdictView::Ignore,
    }
}

/// Weighs content that came under address `claimed` for a fetch of the chunk at `asked`,
/// given the content's hash.
pub fn weigh_content(
    asked: &XorName,
    claimed: &XorName,
    content: Vec<u8>,
    computed: &XorName,
) -> (r: PeerVerdict)
    ensures
        r@ == if claimed@ == asked@ && computed@ == asked@ {
            PeerVerdictView::Content(content@)
        } else {
            PeerVerdictView::Ignore
        },
{
    if wire::same_bytes(claimed, asked) && wire::same_bytes(computed, asked) {
        PeerVerdict::Content(content)
    } else {
        PeerVerdict::Ignore
    }
}

/// Decides what a message from a peer means for a fetch of the chunk at `asked`.
pub fn judge_peer_message(asked: &XorName, body: ChunkMessageBody) -> (r: PeerVerdict)
    ensures
        r@ == peer_verdict(asked@, body@),
{
    match body {
        ChunkMessageBody::GetResponse(ChunkGetResponse::Success { address, content }) => {
            let computed = compute_address(content.as_slice());
            weigh_content(asked, &address, content, &computed)
        },
        ChunkMessageBody::GetResponse(ChunkGetResponse::NotFound { address: _ }) =>
            PeerVerdict::NotFound,
        _ => PeerVerdict::Ignore,
    }
}

/// What the bytes of a message from a peer mean for a fetch of the chunk at `asked` under
/// request identifier `request_id`: only a message with that identifier is an answer.
pub open spec fn judged(request_id: u64, asked: Seq<u8>, message: Seq<u8>) -> PeerVerdictView {
    match chunk::decoded_message(message) {
        Ok(m) if m.request_id == request_id => peer_verdict(asked, m.body),
        _ => PeerVerdictView::Ignore,
    }
}

/// How asking a peer ended.
#[derive(Debug)]
pub enum PeerOutcome {
    /// The peer sent content.
    Content(Vec<u8>),
    /// The peer does not have the chunk, could not be reached or took too long.
    Failed,
}

/// What to do next in a fetch.
#[derive(Debug)]
pub enum FetchAction {
    /// Ask the peer with this index.
    AskPeer(usize),
    /// Send this response to the client.
    Reply(Vec<u8>),
    /// Stay with the local response.
    GiveUp,
}

/// The contents of a `FetchAction`.
#[verifier::ext_equal]
pub enum FetchActionView {
    AskPeer(nat),
    Reply(Seq<u8>),
    GiveUp,
}

impl View for FetchAction {
    type V = FetchActionView;

    open spec fn view(&self) -> FetchActionView {
        match self {
            FetchAction::AskPeer(i) => FetchActionView::AskPeer(*i as nat),
            FetchAction::Reply(b) => FetchActionView::Reply(b@),
            FetchAction::GiveUp => FetchActionView::GiveUp,
        }
    }
}

/// The request that asks a peer for a chunk.
pub open spec fn peer_request(request_id: u64, address: Seq<u8>) -> MessageView {
    MessageView {
        request_id,
        body: MessageBodyView::GetRequest((GetRequestView { address })),
    }
}

/// The response that hands a fetched chunk to the client.
pub open spec fn fetched_response(
    request_id: u64,
    address: Seq<u8>,
    content: Seq<u8>,
) -> MessageView {
    MessageView {
        request_id,
        body: MessageBodyView::GetResponse((GetResponseView::Success { address, content })),
    }
}

/// Asking the peer with index `next` of `peers`.
pub open spec fn ask(next: nat, peers: nat) -> FetchActionView {
    if next < peers {
        FetchActionView::AskPeer(next)
    } else {
        FetchActionView::GiveUp
    }
}

/// The index of the peer to ask after the one with index `next` of `peers` failed.
pub open spec fn after_failure(next: nat, peers: nat) -> nat {
    if next < peers {
        next + 1
    } else {
        next
    }
}

/// A fetch in progress: the peers closest to a chunk are asked one after the other.
pub struct NetworkFetch {
    miss: Miss,
    request_id: u64,
    peers: usize,
    next: usize,
}

/// A random number from `rand::random`. Nothing is known of it.
#[verifier::external_body]
fn random_request_id() -> (r: u64) {
    rand::random()
}

impl NetworkFetch {
    /// The miss that the fetch answers.
    pub closed spec fn miss(&self) -> Miss {
        self.miss
    }

    /// The identifier of the requests to the peers.
    pub closed spec fn request_id(&self) -> u64 {
        self.request_id
    }

    /// The number of peers.
    pub closed spec fn peers(&self) -> nat {
        self.peers as nat
    }

    /// The index of the peer that is being asked.
    pub closed spec fn next(&self) -> nat {
        self.next as nat
    }

    /// Begins a fetch from a number of peers, under a random request identifier.
    pub fn begin(miss: Miss, peers: usize) -> (r: (Self, FetchAction))
        ensures
            r.0.miss() == miss,
            r.0.peers() == peers,
            r.0.next() == 0,
            r.1@ == ask(0, peers as nat),
    {
        NetworkFetch::begin_with_id(miss, peers, random_request_id())
    }

    /// Begins a fetch from a number of peers, under a given request identifier.
    pub fn begin_with_id(miss: Miss, peers: usize, request_id: u64) -> (r: (Self, FetchAction))
        ensures
            r.0.miss() == miss,
            r.0.request_id() == request_id,
            r.0.peers() == peers,
            r.0.next() == 0,
            r.1@ == ask(0, peers as nat),
    {
        let fetch = NetworkFetch { miss, request_id, peers, next: 0 };
        let action = if peers > 0 {
            FetchAction::AskPeer(0)
        } else {
            FetchAction::GiveUp
        };
        (fetch, action)
    }

    /// The identifier of the requests to the peers.
    pub fn peer_request_id(&self) -> (r: u64)
        ensures
            r == self.request_id(),
    {
        self.request_id
    }

    /// The request to send to each peer.
    pub fn peer_message(&self) -> (r: Result<Vec<u8>, crate::ProtocolError>)
        ensures
            r is Ok,
            r->Ok_0@ == peer_request(self.request_id(), self.miss().address@).encoding(),
            r->Ok_0@ == codec::varint(self.request_id() as nat) + seq![2u8]
                + self.miss().address@,
            chunk::decoded_message(r->Ok_0@) == Ok::<_, chunk::ErrorView>(
                (MessageView {
                    request_id: self.request_id(),
                    body: MessageBodyView::GetRequest(
                        (GetRequestView { address: self.miss().address@ }),
                    ),
                }),
            ),
    {
        proof {
            peers_are_asked_for_the_miss(self.request_id(), self.miss().address@);
        }
        let message = ChunkMessage {
            request_id: self.request_id,
            body: ChunkMessageBody::GetRequest(ChunkGetRequest::new(self.miss.address)),
        };
        message.encode()
    }

    /// Decides what the bytes of a message from a peer mean for this fetch.
    pub fn judge(&self, message: &[u8]) -> (r: PeerVerdict)
        ensures
            r@ == judged(self.request_id(), self.miss().address@, message@),
    {
        match ChunkMessage::decode(message) {
            Ok(m) => if m.request_id == self.request_id {
                judge_peer_message(&self.miss.address, m.body)
            } else {
                PeerVerdict::Ignore
            },
            Err(_) => PeerVerdict::Ignore,
        }
    }

    /// Decides what to do after a peer was asked. The first content that belongs to the
    /// missing chunk ends the fetch with a response under the client's own request
    /// identifier and address; after anything else the next peer is asked, until there
    /// is none left.
    pub fn peer_done(&mut self, outcome: PeerOutcome) -> (r: FetchAction)
        ensures
            final(self).miss() == old(self).miss(),
            final(self).request_id() == old(self).request_id(),
            final(self).peers() == old(self).peers(),
            (final(self).next(), r@) == fetch_step(
                old(self).miss(),
                old(self).next(),
                old(self).peers(),
                match outcome {
                    PeerOutcome::Content(content) => Some(
                        (content@, hash::blake3_hash(content@)),
                    ),
                    PeerOutcome::Failed => None,
                },
            ),
    {
        match outcome {
            PeerOutcome::Content(content) => {
                let computed = compute_address(content.as_slice());
                self.content_done(content, &computed)
            },
            PeerOutcome::Failed => self.peer_failed(),
        }
    }

    /// Decides what to do after a peer sent content, given the content's hash.
    pub fn content_done(&mut self, content: Vec<u8>, computed: &XorName) -> (r: FetchAction)
        ensures
            final(self).miss() == old(self).miss(),
            final(self).request_id() == old(self).request_id(),
            final(self).peers() == old(self).peers(),
            (final(self).next(), r@) == fetch_step(
                old(self).miss(),
                old(self).next(),
                old(self).peers(),
                Some((content@, computed@)),
            ),
    {
        if !wire::same_bytes(computed, &self.miss.address) {
            return self.peer_failed();
        }
        let message = ChunkMessage {
            request_id: self.miss.request_id,
            body: ChunkMessageBody::GetResponse(
                ChunkGetResponse::Success { address: self.miss.address, content },
            ),
        };
        match message.encode() {
            Ok(bytes) => FetchAction::Reply(bytes),
            Err(_) => FetchAction::GiveUp,
        }
    }

    /// Goes on to the next peer.
    fn peer_failed(&mut self) -> (r: FetchAction)
        ensures
            final(self).miss() == old(self).miss(),
            final(self).request_id() == old(self).request_id(),
            final(self).peers() == old(self).peers(),
            final(self).next() == after_failure(old(self).next(), old(self).peers()),
            r@ == ask(final(self).next(), old(self).peers()),
    {
        if self.next < self.peers {
            self.next = self.next + 1;
        }
        if self.next < self.peers {
            FetchAction::AskPeer(self.next)
        } else {
            FetchAction::GiveUp
        }
    }
}

/// What a fetch does after a peer was asked: the index of the peer to ask from then on,
/// and the action. `sent` is the content that the peer sent, with its hash.
pub open spec fn fetch_step(
    miss: Miss,
    next: nat,
    peers: nat,
    sent: Option<(Seq<u8>, Seq<u8>)>,
) -> (nat, FetchActionView) {
    match sent {
        Some((content, computed)) if computed == miss.address@ => (
            next,
            FetchActionView::Reply(
                fetched_response(miss.request_id, miss.address@, content).encoding(),
            ),
        ),
        _ => (after_failure(next, peers), ask(after_failure(next, peers), peers)),
    }
}

/// A fetch only ever relays the chunk that was asked for: a reply to the client holds
/// content that hashes to the missing address, under that address and the client's own
/// request identifier.
pub proof fn only_the_asked_chunk_is_relayed(
    miss: Miss,
    next: nat,
    peers: nat,
    content: Option<Seq<u8>>,
)
    ensures
        ({
            let sent = match content {
                Some(c) => Some((c, hash::blake3_hash(c))),
                None => None,
            };
            fetch_step(miss, next, peers, sent).1 matches FetchActionView::Reply(bytes) ==> {
                &&& content is Some
                &&& hash::blake3_hash(content->0) == miss.address@
                &&& bytes == fetched_response(
                    miss.request_id,
                    miss.address@,
                    content->0,
                ).encoding()
                &&& bytes.len() <= chunk::MAX_WIRE_MESSAGE_SIZE ==> chunk::decoded_message(bytes)
                    == Ok::<_, chunk::ErrorView>(
                    fetched_response(miss.request_id, miss.address@, content->0),
                )
            }
        }),
{
    if content is Some {
        let m = fetched_response(miss.request_id, miss.address@, content->0);
        if m.encoding().len() <= chunk::MAX_WIRE_MESSAGE_SIZE {
            fetched_response_is_read_back(miss.request_id, miss.address@, content->0);
        }
    }
}

/// Content that a peer's message is judged to hold ends the fetch with a reply.
pub proof fn judged_content_is_relayed(
    miss: Miss,
    request_id: u64,
    next: nat,
    peers: nat,
    message: Seq<u8>,
)
    ensures
        judged(request_id, miss.address@, message) matches PeerVerdictView::Content(c)
            ==> fetch_step(
            miss,
            next,
            peers,
            Some((c, hash::blake3_hash(c))),
        ).1 is Reply,
{
}

/// Messages under other request identifiers, and bytes that are no message, are ignored.
pub proof fn other_answers_are_ignored(request_id: u64, asked: Seq<u8>, message: Seq<u8>)
    ensures
        !(judged(request_id, asked, message) is Ignore) ==> (chunk::decoded_message(
            message,
        ) matches Ok(m) && m.request_id == request_id),
{
}

/// A peer that sends the chunk under the request's identifier has its content taken.
pub proof fn honest_answers_count(request_id: u64, content: Seq<u8>)
    requires
        hash::blake3_hash(content).len() == 32,
        fetched_response(request_id, hash::blake3_hash(content), content).encoding().len()
            <= chunk::MAX_WIRE_MESSAGE_SIZE,
    ensures
        judged(
            request_id,
            hash::blake3_hash(content),
            fetched_response(request_id, hash::blake3_hash(content), content).encoding(),
        ) == PeerVerdictView::Content(content),
{
    fetched_response_is_read_back(request_id, hash::blake3_hash(content), content);
}

/// A fetch that is begun asks the peers in order, each at most once: after `k` failures
/// it asks the peer with index `k`, and gives up when all have failed.
pub proof fn peers_are_asked_in_order(nexts: Seq<nat>, peers: nat, k: int)
    requires
        0 <= k < nexts.len(),
        nexts[0] == 0,
        forall|i: int|
            #![trigger nexts[i]]
            0 < i < nexts.len() ==> nexts[i] == after_failure(nexts[i - 1], peers),
    ensures
        k < peers ==> ask(nexts[k], peers) == FetchActionView::AskPeer(k as nat),
        k >= peers ==> ask(nexts[k], peers) == FetchActionView::GiveUp,
        nexts[k] == if k < peers {
            k
        } else {
            peers as int
        },
    decreases k,
{
    if k > 0 {
        peers_are_asked_in_order(nexts, peers, k - 1);
        assert(nexts[k] == after_failure(nexts[k - 1], peers));
    }
}

/// A chunk of the largest size still fits into a message, and its encrypted frame into
/// what a client reads.
pub proof fn chunks_fit_on_the_wire(request_id: u64, address: Seq<u8>, content: Seq<u8>)
    requires
        address.len() == 32,
        content.len() <= chunk::MAX_CHUNK_SIZE,
    ensures
        fetched_response(request_id, address, content).encoding().len()
            <= chunk::MAX_WIRE_MESSAGE_SIZE,
        fetched_response(request_id, address, content).encoding().len() + 25
            <= crate::session::MAX_RESPONSE,
        crate::pqc_tunnel::fits_cipher(
            fetched_response(request_id, address, content).encoding().len(),
        ),
{
    crate::codec::numbers_take_ten_bytes(request_id as nat);
    crate::codec::numbers_take_ten_bytes(content.len());
}

/// A client reads from the response to a fetch its own request identifier and address
/// and the fetched content.
pub proof fn fetched_response_is_read_back(request_id: u64, address: Seq<u8>, content: Seq<u8>)
    requires
        address.len() == 32,
        fetched_response(request_id, address, content).encoding().len()
            <= chunk::MAX_WIRE_MESSAGE_SIZE,
    ensures
        chunk::decoded_message(fetched_response(request_id, address, content).encoding()) == Ok::<
            _,
            chunk::ErrorView,
        >(fetched_response(request_id, address, content)),
{
    chunk::decode_inverts_encode(fetched_response(request_id, address, content));
}

/// What a peer is sent reads as a GET request for exactly the missing address, under
/// exactly the identifier of the fetch, and is laid out as that identifier, 2 and the
/// address.
pub proof fn peers_are_asked_for_the_miss(request_id: u64, address: Seq<u8>)
    requires
        address.len() == 32,
    ensures
        peer_request(request_id, address).encoding() == codec::varint(request_id as nat)
            + seq![2u8] + address,
        chunk::decoded_message(peer_request(request_id, address).encoding()) == Ok::<
            _,
            chunk::ErrorView,
        >(
            (MessageView {
                request_id,
                body: MessageBodyView::GetRequest((GetRequestView { address })),
            }),
        ),
{
    let m = MessageView {
        request_id,
        body: MessageBodyView::GetRequest((GetRequestView { address })),
    };
    codec::numbers_take_ten_bytes(request_id as nat);
    assert(m.encoding() =~= codec::varint(request_id as nat) + seq![2u8] + address);
    chunk::decode_inverts_encode(m);
}

/// A peer that has the chunk ends the fetch: whatever identifier and address it reads from
/// the request, the chunk sent back under them is judged content by the same fetch, and
/// the fetch replies to the client with that chunk, under the client's own identifier.
pub proof fn peers_with_the_chunk_end_the_fetch(
    miss: Miss,
    request_id: u64,
    next: nat,
    peers: nat,
    asked: MessageView,
    content: Seq<u8>,
    answer: Seq<u8>,
)
    requires
        chunk::decoded_message(peer_request(request_id, miss.address@).encoding()) == Ok::<
            _,
            chunk::ErrorView,
        >(asked),
        asked.body is GetRequest,
        hash::blake3_hash(content) == miss.address@,
        answer.len() <= 5242880,
        answer == codec::varint(asked.request_id as nat) + seq![3u8, 0u8]
            + asked.body->GetRequest_0.address + codec::varint(content.len()) + content,
    ensures
        judged(request_id, miss.address@, answer) == PeerVerdictView::Content(content),
        fetch_step(miss, next, peers, Some((content, hash::blake3_hash(content)))).1
            == FetchActionView::Reply(
            codec::varint(miss.request_id as nat) + seq![3u8, 0u8] + miss.address@ + codec::varint(
                content.len(),
            ) + content,
        ),
{
    peers_are_asked_for_the_miss(request_id, miss.address@);
    replies_have_their_layout(request_id, miss.address@, content);
    replies_have_their_layout(miss.request_id, miss.address@, content);
}

/// A response with a chunk is laid out as its identifier, 3, 0, the address, and the
/// content behind its length. It reads as such.
pub proof fn replies_have_their_layout(request_id: u64, address: Seq<u8>, content: Seq<u8>)
    requires
        address.len() == 32,
    ensures
        fetched_response(request_id, address, content).encoding() == codec::varint(
            request_id as nat,
        ) + seq![3u8, 0u8] + address + codec::varint(content.len()) + content,
        fetched_response(request_id, address, content).encoding().len() <= 5242880
            ==> chunk::decoded_message(
            codec::varint(request_id as nat) + seq![3u8, 0u8] + address + codec::varint(
                content.len(),
            ) + content,
        ) == Ok::<_, chunk::ErrorView>(
            (MessageView {
                request_id,
                body: MessageBodyView::GetResponse((GetResponseView::Success { address, content })),
            }),
        ),
{
    let m = fetched_response(request_id, address, content);
    assert(m.encoding() =~= codec::varint(request_id as nat) + seq![3u8, 0u8] + address
        + codec::varint(content.len()) + content);
    if m.encoding().len() <= 5242880 {
        chunk::decode_inverts_encode(m);
    }
}

/// A local response reports a miss exactly where it reads as a GET response that has not
/// found the chunk; the miss has its identifier and address.
pub proof fn misses_are_reported_by_not_found(response: Seq<u8>, request_id: u64, address: Seq<u8>)
    ensures
        missed(response) == Some((request_id, address)) <==> chunk::decoded_message(response)
            == Ok::<_, chunk::ErrorView>(
            (MessageView {
                request_id,
                body: MessageBodyView::GetResponse((GetResponseView::NotFound { address })),
            }),
        ),
{
}

/// What a message means to a fetch: content exactly where it is a response with the chunk
/// that was asked for, genuine and under the fetch's own identifier; a refusal exactly
/// where it is a response under that identifier that has not found it; else nothing.
pub proof fn messages_mean_what_they_are(
    request_id: u64,
    asked: Seq<u8>,
    message: Seq<u8>,
    content: Seq<u8>,
)
    ensures
        judged(request_id, asked, message) == PeerVerdictView::Content(content) <==> {
            &&& chunk::decoded_message(message) == Ok::<_, chunk::ErrorView>(
                (MessageView {
                    request_id,
                    body: MessageBodyView::GetResponse(
                        (GetResponseView::Success { address: asked, content }),
                    ),
                }),
            )
            &&& hash::blake3_hash(content) == asked
        },
        judged(request_id, asked, message) is NotFound <==> (chunk::decoded_message(
            message,
        ) matches Ok(m) && m.request_id == request_id && m.body is GetResponse
            && m.body->GetResponse_0 is NotFound),
{
}

/// A fetch runs through its peers: as long as none has sent the chunk, the next one is
/// asked, and after the last the fetch is given up. The first content that hashes to the
/// missing address is the reply to the client.
pub proof fn fetches_run_through_their_peers(
    miss: Miss,
    peers: nat,
    nexts: Seq<nat>,
    sent: Seq<Option<Seq<u8>>>,
    actions: Seq<FetchActionView>,
    i: int,
)
    requires
        nexts.len() == sent.len() + 1,
        actions.len() == sent.len(),
        nexts[0] == 0,
        forall|j: int|
            #![trigger sent[j]]
            0 <= j < sent.len() ==> (nexts[j + 1], actions[j]) == fetch_step(
                miss,
                nexts[j],
                peers,
                match sent[j] {
                    Some(c) => Some((c, hash::blake3_hash(c))),
                    None => None,
                },
            ),
        0 <= i < sent.len(),
        i < peers,
        forall|j: int|
            #![trigger sent[j]]
            0 <= j < i ==> (sent[j] matches Some(c) ==> hash::blake3_hash(c) != miss.address@),
    ensures
        match sent[i] {
            Some(c) if hash::blake3_hash(c) == miss.address@ => actions[i]
                == FetchActionView::Reply(
                fetched_response(miss.request_id, miss.address@, c).encoding(),
            ),
            _ => actions[i] == if i + 1 < peers {
                FetchActionView::AskPeer((i + 1) as nat)
            } else {
                FetchActionView::GiveUp
            },
        },
        nexts[i] == i,
    decreases i,
{
    assert(sent[i] is Some || sent[i] is None);
    if i > 0 {
        fetches_run_through_their_peers(miss, peers, nexts, sent, actions, i - 1);
        assert(sent[i - 1] is Some || sent[i - 1] is None);
        assert(nexts[i - 1 + 1] == i);
    }
}

/// Verdicts and actions show what they are.
pub proof fn verdicts_and_actions_show_what_they_are(verdict: PeerVerdict, action: FetchAction)
    ensures
        match verdict {
            PeerVerdict::Content(c) => verdict@ == PeerVerdictView::Content(c@),
            PeerVerdict::NotFound => verdict@ == PeerVerdictView::NotFound,
            PeerVerdict::Ignore => verdict@ == PeerVerdictView::Ignore,
        },
        match action {
            FetchAction::AskPeer(i) => action@ == FetchActionView::AskPeer(i as nat),
            FetchAction::Reply(b) => action@ == FetchActionView::Reply(b@),
            FetchAction::GiveUp => action@ == FetchActionView::GiveUp,
        },
        forall|peers: nat| #[trigger]
            ask(0, peers) == if peers > 0 {
                FetchActionView::AskPeer(0)
            } else {
                FetchActionView::GiveUp
            },
{
}

/// Content with the missing address for its hash ends a fetch with the response that holds
/// it, under the client's own identifier; anything else is one peer less.
pub proof fn content_ends_a_fetch_by_its_hash(
    miss: Miss,
    next: nat,
    peers: nat,
    content: Seq<u8>,
    computed: Seq<u8>,
)
    ensures
        computed == miss.address@ ==> fetch_step(miss, next, peers, Some((content, computed))) == (
            next,
            FetchActionView::Reply(
                codec::varint(miss.request_id as nat) + seq![3u8, 0u8] + miss.address@
                    + codec::varint(content.len()) + content,
            ),
        ),
        computed != miss.address@ ==> fetch_step(miss, next, peers, Some((content, computed)))
            == fetch_step(miss, next, peers, None),
        next < peers ==> fetch_step(miss, next, peers, None) == (
            next + 1,
            if next + 1 < peers {
                FetchActionView::AskPeer(next + 1)
            } else {
                FetchActionView::GiveUp
            },
        ),
        next >= peers ==> fetch_step(miss, next, peers, None) == (next, FetchActionView::GiveUp),
{
    replies_have_their_layout(miss.request_id, miss.address@, content);
}

} // verus!
