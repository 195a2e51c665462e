//! Downloading: fetching single chunks through a cache, and whole files by way of their
//! data map.
//!
//! The transport stays outside. `DownloadClient` says what to send for a chunk and takes
//! the response; `Download` says which chunk to fetch next and takes what was found.
use crate::cache;
use crate::chunk;
use crate::chunk::{
    ChunkGetRequest, ChunkGetResponse, ChunkMessage, ChunkMessageBody, ErrorView, GetRequestView,
    GetResponseView, MessageBodyView, MessageView, ProtocolError, XorName,
};
use crate::codec;
use crate::compute_address;
use crate::content;
use crate::hash;
use crate::text;
use crate::wire;
use crate::DataChunk;
use bytes::Bytes;
use lru::LruCache;
use self_encryption::{DataMap, EncryptedChunk};
use vstd::prelude::*;

verus! {

// ---------------------------------------------------------------------------
// Single chunks
// ---------------------------------------------------------------------------

/// Largest number of chunks in the cache.
pub const CACHE_CAPACITY: usize = 1024;

/// Why fetching a chunk fails.
#[derive(Debug)]
pub enum FetchError {
    /// The request could not be encoded.
    Encode(ProtocolError),
    /// The response could not be decoded.
    Decode(ProtocolError),
    /// The response is about another chunk.
    AddressMismatch { expected: XorName, actual: XorName },
    /// The content does not belong to its address.
    ContentMismatch { expected: XorName, actual: XorName },
    /// The node reports an error.
    Remote(ProtocolError),
    /// The response is no answer to a request for a chunk.
    UnexpectedResponse,
}

/// The contents of a `FetchError`.
#[verifier::ext_equal]
pub enum FetchFault {
    Encode(ErrorView),
    Decode(ErrorView),
    AddressMismatch { expected: Seq<u8>, actual: Seq<u8> },
    ContentMismatch { expected: Seq<u8>, actual: Seq<u8> },
    Remote(ErrorView),
    UnexpectedResponse,
}

impl View for FetchError {
    type V = FetchFault;

    open spec fn view(&self) -> FetchFault {
        match self {
            FetchError::Encode(e) => FetchFault::Encode(e@),
            FetchError::Decode(e) => FetchFault::Decode(e@),
            FetchError::AddressMismatch { expected, actual } => FetchFault::AddressMismatch {
                expected: expected@,
                actual: actual@,
            },
            FetchError::ContentMismatch { expected, actual } => FetchFault::ContentMismatch {
                expected: expected@,
                actual: actual@,
            },
            FetchError::Remote(e) => FetchFault::Remote(e@),
            FetchError::UnexpectedResponse => FetchFault::UnexpectedResponse,
        }
    }
}

impl FetchFault {
    /// The text of the error.
    pub open spec fn text(self) -> Seq<char> {
        match self {
            FetchFault::Encode(e) => "failed to encode request: "@ + e.text(),
            FetchFault::Decode(e) => "decode error: "@ + e.text(),
            FetchFault::AddressMismatch { expected, actual } => text::mismatch(
                "address mismatch: expected "@,
                expected,
                actual,
            ),
            FetchFault::ContentMismatch { expected, actual } => text::mismatch(
                "content hash mismatch: expected "@,
                expected,
                actual,
            ),
            FetchFault::Remote(e) => "remote error: "@ + e.text(),
            FetchFault::UnexpectedResponse => "unexpected response type"@,
        }
    }
}

impl FetchError {
    /// The text of the error.
    pub fn to_string(&self) -> (r: String)
        ensures
            r@ == self@.text(),
    {
        match self {
            FetchError::Encode(e) => text::joined(
                "failed to encode request: ",
                e.to_string().as_str(),
            ),
            FetchError::Decode(e) => text::joined("decode error: ", e.to_string().as_str()),
            FetchError::AddressMismatch { expected, actual } => text::mismatch_text(
                "address mismatch: expected ",
                expected,
                actual,
            ),
            FetchError::ContentMismatch { expected, actual } => text::mismatch_text(
                "content hash mismatch: expected ",
                expected,
                actual,
            ),
            FetchError::Remote(e) => text::joined("remote error: ", e.to_string().as_str()),
            FetchError::UnexpectedResponse => text::plain("unexpected response type"),
        }
    }
}

/// The request for a chunk.
pub open spec fn chunk_request(request_id: u64, address: Seq<u8>) -> MessageView {
    MessageView {
        request_id,
        body: MessageBodyView::GetRequest((GetRequestView { address })),
    }
}

/// What content that came under address `claimed` is worth to a client that asked for
/// `address`, given the content's hash.
pub open spec fn content_check(address: Seq<u8>, claimed: Seq<u8>, computed: Seq<u8>) -> Result<
    (),
    FetchFault,
> {
    if claimed != address {
        Err(FetchFault::AddressMismatch { expected: address, actual: claimed })
    } else if computed != claimed {
        Err(FetchFault::ContentMismatch { expected: claimed, actual: computed })
    } else {
        Ok(())
    }
}

/// What a response is worth to a client that asked for `address`: the content of the
/// chunk, nothing where the node does not have it, or a fault.
pub open spec fn chunk_outcome(address: Seq<u8>, response: Seq<u8>) -> Result<
    Option<Seq<u8>>,
    FetchFault,
> {
    match chunk::decoded_message(response) {
        Err(e) => Err(FetchFault::Decode(e)),
        Ok(m) => match m.body {
            MessageBodyView::GetResponse(GetResponseView::Success { address: claimed, content }) =>
                match content_check(address, claimed, hash::blake3_hash(content)) {
                    Ok(()) => Ok(Some(content)),
                    Err(fault) => Err(fault),
                },
            MessageBodyView::GetResponse(GetResponseView::NotFound { address: _ }) => Ok(None),
            MessageBodyView::GetResponse(GetResponseView::Error(e)) => Err(FetchFault::Remote(e)),
            _ => Err(FetchFault::UnexpectedResponse),
        },
    }
}

/// Checks content that came under address `claimed` for a client that asked for
/// `address`, given the content's hash.
pub fn check_content(address: &XorName, claimed: &XorName, computed: &XorName) -> (r: Result<
    (),
    FetchError,
>)
    ensures
        match content_check(address@, claimed@, computed@) {
            Ok(()) => r is Ok,
            Err(fault) => (r matches Err(e) && e@ == fault),
        },
{
    if !wire::same_bytes(claimed, address) {
        return Err(FetchError::AddressMismatch { expected: *address, actual: *claimed });
    }
    if !wire::same_bytes(computed, claimed) {
        return Err(FetchError::ContentMismatch { expected: *claimed, actual: *computed });
    }
    Ok(())
}

/// The chunk in a response to a client that asked for `address`.
fn chunk_in_response(address: &XorName, response: &[u8]) -> (r: Result<
    Option<Vec<u8>>,
    FetchError,
>)
    ensures
        match chunk_outcome(address@, response@) {
            Ok(None) => (r matches Ok(None)),
            Ok(Some(bytes)) => (r matches Ok(Some(v)) && v@ == bytes),
            Err(fault) => (r matches Err(e) && e@ == fault),
        },
{
    let message = match ChunkMessage::decode(response) {
        Ok(message) => message,
        Err(e) => return Err(FetchError::Decode(e)),
    };
    match message.body {
        ChunkMessageBody::GetResponse(ChunkGetResponse::Success { address: claimed, content }) => {
            let computed = compute_address(content.as_slice());
            check_content(address, &claimed, &computed)?;
            Ok(Some(content))
        },
        ChunkMessageBody::GetResponse(ChunkGetResponse::NotFound { address: _ }) => Ok(None),
        ChunkMessageBody::GetResponse(ChunkGetResponse::Error(e)) => Err(FetchError::Remote(e)),
        _ => Err(FetchError::UnexpectedResponse),
    }
}

/// How to come by a chunk.
#[derive(Debug)]
pub enum ChunkLookup {
    /// The cache has it.
    Cached(DataChunk),
    /// Send this request to the node.
    Ask(Vec<u8>),
}

/// Fetches chunks through a cache.
pub struct DownloadClient {
    next_request_id: u64,
    cache: LruCache<[u8; 32], Bytes>,
}

/// A use of the cache.
pub enum CacheUse {
    /// An address was looked up.
    LookedUp(Seq<u8>),
    /// Content for an address was taken from a node.
    Fetched(Seq<u8>, Seq<u8>),
}

impl CacheUse {
    /// The address that was used.
    pub open spec fn address(self) -> Seq<u8> {
        match self {
            CacheUse::LookedUp(address) => address,
            CacheUse::Fetched(address, _) => address,
        }
    }
}

/// The entries of a client's cache after a use, where all of them are intact.
pub open spec fn after_use(
    entries: Seq<(Seq<u8>, Seq<u8>)>,
    usage: CacheUse,
) -> Seq<(Seq<u8>, Seq<u8>)> {
    match usage {
        CacheUse::LookedUp(address) => match cache::lookup(entries, address) {
            Some(bytes) => seq![(address, bytes)] + cache::without(entries, address),
            None => entries,
        },
        CacheUse::Fetched(address, bytes) => cache::with_entry(
            entries,
            CACHE_CAPACITY as nat,
            address,
            bytes,
        ),
    }
}

/// Whether every entry's bytes belong to its address.
pub open spec fn entries_intact(entries: Seq<(Seq<u8>, Seq<u8>)>) -> bool {
    forall|i: int|
        #![trigger entries[i]]
        0 <= i < entries.len() ==> entries[i].0 == hash::blake3_hash(entries[i].1)
}

/// Whether entries are those of a client's cache: intact chunks, none twice and not more
/// than there is room for.
pub open spec fn entries_sound(entries: Seq<(Seq<u8>, Seq<u8>)>) -> bool {
    &&& entries.len() <= CACHE_CAPACITY
    &&& cache::addresses_differ(entries)
    &&& entries_intact(entries)
}

impl DownloadClient {
    /// The identifier of the next request.
    pub closed spec fn request_id(&self) -> u64 {
        self.next_request_id
    }

    /// The cached chunks, most recently used first.
    pub closed spec fn cached(&self) -> Seq<(Seq<u8>, Seq<u8>)> {
        cache::entries(self.cache)
    }

    /// The largest number of cached chunks.
    pub closed spec fn cache_limit(&self) -> nat {
        cache::capacity(self.cache)
    }

    /// What every operation keeps: the cache holds only intact chunks, none twice and
    /// not more than its limit.
    pub open spec fn well_formed(&self) -> bool {
        &&& self.cache_limit() == CACHE_CAPACITY
        &&& entries_sound(self.cached())
    }

    /// A client with an empty cache.
    pub fn new() -> (r: Self)
        ensures
            r.well_formed(),
            r.request_id() == 1,
            r.cached() == Seq::<(Seq<u8>, Seq<u8>)>::empty(),
    {
        DownloadClient { next_request_id: 1, cache: cache::with_capacity(CACHE_CAPACITY) }
    }

    /// The identifier for a request. After the last one they start over at zero.
    pub fn next_request_id(&mut self) -> (r: u64)
        ensures
            r == old(self).request_id(),
            final(self).request_id() == if r == u64::MAX {
                0
            } else {
                r + 1
            },
            final(self).cached() == old(self).cached(),
            final(self).cache_limit() == old(self).cache_limit(),
    {
        let id: u64 = self.next_request_id;
        self.next_request_id = if id == u64::MAX {
            0
        } else {
            id + 1
        };
        id
    }

    /// Looks for a chunk in the cache, and makes a request for it where it is not there.
    /// Cached bytes that do not belong to their address are thrown away.
    pub fn begin_chunk_get(&mut self, address: &XorName) -> (r: Result<ChunkLookup, FetchError>)
        ensures
            final(self).cache_limit() == old(self).cache_limit(),
            old(self).well_formed() ==> final(self).well_formed(),
            r is Ok,
            old(self).well_formed() ==> {
                &&& r->Ok_0 is Cached <==> cache::lookup(old(self).cached(), address@) is Some
                &&& final(self).cached() == after_use(
                    old(self).cached(),
                    CacheUse::LookedUp(address@),
                )
            },
            match (cache::lookup(old(self).cached(), address@), r->Ok_0) {
                (Some(bytes), ChunkLookup::Cached(c)) => {
                    &&& hash::blake3_hash(bytes) == address@
                    &&& c.address@ == address@
                    &&& c.data() == bytes
                    &&& c.intact()
                    &&& final(self).cached() == seq![(address@, bytes)] + cache::without(
                        old(self).cached(),
                        address@,
                    )
                    &&& final(self).request_id() == old(self).request_id()
                },
                (Some(bytes), ChunkLookup::Ask(request)) => {
                    &&& hash::blake3_hash(bytes) != address@
                    &&& request@ == chunk_request(old(self).request_id(), address@).encoding()
                    &&& request@ == codec::varint(old(self).request_id() as nat) + seq![2u8]
                        + address@
                    &&& chunk::decoded_message(request@) == Ok::<_, ErrorView>(
                        (MessageView {
                            request_id: old(self).request_id(),
                            body: MessageBodyView::GetRequest(
                                (GetRequestView { address: address@ }),
                            ),
                        }),
                    )
                    &&& final(self).cached() == cache::without(
                        seq![(address@, bytes)] + cache::without(old(self).cached(), address@),
                        address@,
                    )
                    &&& final(self).request_id() == if old(self).request_id() == u64::MAX {
                        0
                    } else {
                        old(self).request_id() + 1
                    }
                },
                (None, ChunkLookup::Ask(request)) => {
                    &&& request@ == chunk_request(old(self).request_id(), address@).encoding()
                    &&& request@ == codec::varint(old(self).request_id() as nat) + seq![2u8]
                        + address@
                    &&& chunk::decoded_message(request@) == Ok::<_, ErrorView>(
                        (MessageView {
                            request_id: old(self).request_id(),
                            body: MessageBodyView::GetRequest(
                                (GetRequestView { address: address@ }),
                            ),
                        }),
                    )
                    &&& final(self).cached() == old(self).cached()
                    &&& final(self).request_id() == if old(self).request_id() == u64::MAX {
                        0
                    } else {
                        old(self).request_id() + 1
                    }
                },
                (None, ChunkLookup::Cached(_)) => false,
            },
    {
        proof {
            lemma_touched_cache(old(self).cached(), address@);
            requests_ask_for_the_address(old(self).request_id(), address@);
        }
        if let Some(bytes) = cache::get(&mut self.cache, address) {
            let computed = compute_address(content::as_slice(&bytes));
            if wire::same_bytes(&computed, address) {
                return Ok(ChunkLookup::Cached(DataChunk::new(*address, bytes)));
            }
            cache::pop(&mut self.cache, address);
        }
        let message = ChunkMessage {
            request_id: self.next_request_id(),
            body: ChunkMessageBody::GetRequest(ChunkGetRequest::new(*address)),
        };
        match message.encode() {
            Ok(request) => Ok(ChunkLookup::Ask(request)),
            Err(e) => Err(FetchError::Encode(e)),
        }
    }

    /// Takes the node's response to the request for a chunk. Content that belongs to the
    /// address goes into the cache.
    pub fn finish_chunk_get(&mut self, address: &XorName, response: &[u8]) -> (r: Result<
        Option<DataChunk>,
        FetchError,
    >)
        ensures
            final(self).cache_limit() == old(self).cache_limit(),
            final(self).request_id() == old(self).request_id(),
            old(self).well_formed() ==> final(self).well_formed(),
            match chunk_outcome(address@, response@) {
                Ok(Some(bytes)) => {
                    &&& r matches Ok(Some(c))
                    &&& c.address@ == address@
                    &&& c.data() == bytes
                    &&& c.intact()
                    &&& final(self).cached() == cache::with_entry(
                        old(self).cached(),
                        old(self).cache_limit(),
                        address@,
                        bytes,
                    )
                    &&& old(self).well_formed() ==> final(self).cached() == after_use(
                        old(self).cached(),
                        CacheUse::Fetched(address@, bytes),
                    )
                },
                Ok(None) => (r matches Ok(None)) && final(self).cached() == old(self).cached(),
                Err(fault) => (r matches Err(e) && e@ == fault) && final(self).cached() == old(
                    self,
                ).cached(),
            },
    {
        match chunk_in_response(address, response)? {
            None => Ok(None),
            Some(bytes) => {
                proof {
                    lemma_filled_cache(old(self).cached(), address@, bytes@);
                }
                let bytes = content::from_vec(bytes);
                cache::put(&mut self.cache, *address, bytes.clone());
                Ok(Some(DataChunk::new(*address, bytes)))
            },
        }
    }
}

/// Moving an address to the front of a cache, or throwing it away, keeps what every
/// operation keeps.
proof fn lemma_touched_cache(entries: Seq<(Seq<u8>, Seq<u8>)>, address: Seq<u8>)
    ensures
        entries_sound(entries) ==> match cache::lookup(entries, address) {
            None => true,
            Some(bytes) => {
                &&& entries_sound(seq![(address, bytes)] + cache::without(entries, address))
                &&& hash::blake3_hash(bytes) == address
            },
        },
{
    if entries_sound(entries) {
        cache::lemma_lookup(entries, address);
        cache::lemma_without(entries, address);
        match cache::lookup(entries, address) {
            None => {},
            Some(bytes) => {
                let touched = seq![(address, bytes)] + cache::without(entries, address);
                assert(entries.contains((address, bytes)));
                assert forall|i: int|
                    #![trigger touched[i]]
                    0 <= i < touched.len() implies touched[i].0 == hash::blake3_hash(
                    touched[i].1,
                ) by {
                    assert(entries.contains(touched[i])) by {
                        if i > 0 {
                            assert(touched[i] == cache::without(entries, address)[i - 1]);
                        }
                    }
                }
                assert forall|i: int, j: int|
                    #![trigger touched[i], touched[j]]
                    0 <= i < j < touched.len() implies touched[i].0 != touched[j].0 by {
                    assert(touched[j] == cache::without(entries, address)[j - 1]);
                    if i > 0 {
                        assert(touched[i] == cache::without(entries, address)[i - 1]);
                    }
                }
            },
        }
    }
}

/// Putting an intact chunk into a cache keeps what every operation keeps.
proof fn lemma_filled_cache(
    entries: Seq<(Seq<u8>, Seq<u8>)>,
    address: Seq<u8>,
    bytes: Seq<u8>,
)
    ensures
        entries_sound(entries) && hash::blake3_hash(bytes) == address ==> entries_sound(
            cache::with_entry(entries, CACHE_CAPACITY as nat, address, bytes),
        ),
{
    if entries_sound(entries) && hash::blake3_hash(bytes) == address {
        cache::lemma_lookup(entries, address);
        cache::lemma_without(entries, address);
        let filled = cache::with_entry(entries, CACHE_CAPACITY as nat, address, bytes);
        let rest = filled.skip(1);
        assert forall|i: int| #![trigger rest[i]] 0 <= i < rest.len() implies entries.contains(
            rest[i],
        ) && rest[i].0 != address by {
            if cache::lookup(entries, address) is Some {
                assert(rest[i] == cache::without(entries, address)[i]);
            } else {
                assert(rest[i] == entries[i]);
            }
        }
        assert forall|i: int|
            #![trigger filled[i]]
            0 <= i < filled.len() implies filled[i].0 == hash::blake3_hash(filled[i].1) by {
            if i > 0 {
                assert(filled[i] == rest[i - 1]);
                assert(entries.contains(rest[i - 1]));
            }
        }
        assert forall|i: int, j: int|
            #![trigger filled[i], filled[j]]
            0 <= i < j < filled.len() implies filled[i].0 != filled[j].0 by {
            assert(filled[j] == rest[j - 1]);
            if i > 0 {
                if cache::lookup(entries, address) is Some {
                    assert(filled[i] == cache::without(entries, address)[i - 1]);
                    assert(filled[j] == cache::without(entries, address)[j - 1]);
                } else {
                    assert(filled[i] == entries[i - 1] && filled[j] == entries[j - 1]);
                }
            }
        }
    }
}

/// Whatever a node sends, a client that asked for an address only takes content that
/// belongs to it.
pub proof fn only_genuine_content_is_taken(address: Seq<u8>, response: Seq<u8>)
    ensures
        chunk_outcome(address, response) matches Ok(Some(bytes)) ==> hash::blake3_hash(bytes)
            == address,
{
}

/// What a client finds in its cache belongs to the address.
pub proof fn cached_chunks_are_intact(client: DownloadClient, address: Seq<u8>)
    requires
        client.well_formed(),
    ensures
        cache::lookup(client.cached(), address) matches Some(bytes) ==> hash::blake3_hash(bytes)
            == address,
{
    lemma_touched_cache(client.cached(), address);
}

/// Whether these are the entries of a client's cache before and after each of its uses,
/// and all that was fetched is genuine.
pub open spec fn cache_run(
    states: Seq<Seq<(Seq<u8>, Seq<u8>)>>,
    uses: Seq<CacheUse>,
) -> bool {
    &&& states.len() == uses.len() + 1
    &&& entries_sound(states[0])
    &&& forall|i: int|
        #![trigger uses[i]]
        0 <= i < uses.len() ==> {
            &&& states[i + 1] == after_use(states[i], uses[i])
            &&& uses[i] matches CacheUse::Fetched(address, bytes) ==> hash::blake3_hash(bytes)
                == address
        }
}

/// The addresses that were used, without one of them.
pub open spec fn others_used(uses: Seq<CacheUse>, address: Seq<u8>) -> Set<Seq<u8>> {
    uses.map_values(|u: CacheUse| u.address()).to_set().remove(address)
}

/// Whether an address is in a cache with only `used` addresses in front of it.
spec fn behind(
    entries: Seq<(Seq<u8>, Seq<u8>)>,
    address: Seq<u8>,
    used: Set<Seq<u8>>,
    place: int,
) -> bool {
    &&& 0 <= place < entries.len()
    &&& entries[place].0 == address
    &&& forall|i: int| #![trigger entries[i]] 0 <= i < place ==> used.contains(entries[i].0)
}

/// Where all of a full cache but its last entry was used, and so was an address that it
/// does not hold, as many addresses were used as the cache has room for.
proof fn lemma_enough_used(
    entries: Seq<(Seq<u8>, Seq<u8>)>,
    used: Set<Seq<u8>>,
    new: Seq<u8>,
)
    requires
        entries.len() > 0,
        cache::addresses_differ(entries),
        cache::lookup(entries, new) is None,
        used.finite(),
        used.contains(new),
        forall|i: int|
            #![trigger entries[i]]
            0 <= i < entries.len() - 1 ==> used.contains(entries[i].0),
    ensures
        used.len() >= entries.len(),
{
    cache::lemma_lookup(entries, new);
    let addresses = Seq::new(
        entries.len(),
        |i: int|
            if i == entries.len() - 1 {
                new
            } else {
                entries[i].0
            },
    );
    assert(addresses.no_duplicates());
    addresses.unique_seq_to_set();
    assert(addresses.to_set().subset_of(used));
    vstd::set_lib::lemma_len_subset(addresses.to_set(), used);
}

/// A use of a cache keeps an address in it, with only used addresses in front, as long as
/// fewer were used than the cache has room for.
proof fn lemma_kept(
    entries: Seq<(Seq<u8>, Seq<u8>)>,
    usage: CacheUse,
    address: Seq<u8>,
    used: Set<Seq<u8>>,
    place: int,
) -> (after: int)
    requires
        entries_sound(entries),
        behind(entries, address, used, place),
        used.finite(),
        used.len() < CACHE_CAPACITY,
        usage.address() != address ==> used.contains(usage.address()),
    ensures
        behind(after_use(entries, usage), address, used, after),
{
    let b = usage.address();
    let next = after_use(entries, usage);
    let k = cache::lemma_without_place(entries, b);
    cache::lemma_lookup(entries, b);
    if b == address {
        assert(cache::lookup(entries, b) is Some);
        0
    } else if cache::lookup(entries, b) is Some {
        let rest = entries.remove(k);
        assert(next.skip(1) =~= rest);
        let after = if k < place {
            place
        } else {
            place + 1
        };
        assert forall|i: int| #![trigger next[i]] 0 <= i < after implies used.contains(
            next[i].0,
        ) by {
            if i > 0 {
                assert(next[i] == rest[i - 1]);
                if i - 1 < k {
                    assert(rest[i - 1] == entries[i - 1]);
                } else {
                    assert(rest[i - 1] == entries[i]);
                }
            }
        }
        assert(next[after] == rest[after - 1]);
        after
    } else if usage is LookedUp {
        place
    } else {
        if entries.len() == CACHE_CAPACITY && place == entries.len() - 1 {
            lemma_enough_used(entries, used, b);
        }
        assert forall|i: int| #![trigger next[i]] 0 <= i < place + 1 implies used.contains(
            next[i].0,
        ) by {
            if i > 0 {
                assert(next[i] == entries[i - 1]);
            }
        }
        place + 1
    }
}

proof fn lemma_retained(
    states: Seq<Seq<(Seq<u8>, Seq<u8>)>>,
    uses: Seq<CacheUse>,
    address: Seq<u8>,
    i: int,
) -> (place: int)
    requires
        cache_run(states, uses),
        1 <= i <= uses.len(),
        uses[0] is Fetched,
        uses[0].address() == address,
        others_used(uses, address).len() < CACHE_CAPACITY,
    ensures
        entries_sound(states[i]),
        behind(states[i], address, others_used(uses, address), place),
    decreases i,
{
    let used = others_used(uses, address);
    let addresses = uses.map_values(|u: CacheUse| u.address());
    vstd::seq_lib::seq_to_set_is_finite(addresses);
    let usage = uses[i - 1];
    let before = states[i - 1];
    assert(states[i - 1 + 1] == after_use(before, usage));
    let place = if i == 1 {
        0
    } else {
        let place = lemma_retained(states, uses, address, i - 1);
        assert(addresses[i - 1] == usage.address());
        lemma_kept(before, usage, address, used, place)
    };
    match usage {
        CacheUse::LookedUp(a) => lemma_touched_cache(before, a),
        CacheUse::Fetched(a, bytes) => lemma_filled_cache(before, a, bytes),
    }
    place
}

/// A fetched chunk stays in the cache while fewer other addresses are used than the cache
/// has room for: it is found there, intact, and so served without a request.
pub proof fn fetched_chunks_stay_cached(
    states: Seq<Seq<(Seq<u8>, Seq<u8>)>>,
    uses: Seq<CacheUse>,
    address: Seq<u8>,
)
    requires
        cache_run(states, uses),
        uses.len() > 0,
        uses[0] is Fetched,
        uses[0].address() == address,
        others_used(uses, address).len() < CACHE_CAPACITY,
    ensures
        cache::lookup(states.last(), address) matches Some(bytes) && hash::blake3_hash(bytes)
            == address,
{
    let i = uses.len() as int;
    lemma_retained(states, uses, address, i);
    cache::lemma_lookup(states[i], address);
    lemma_touched_cache(states[i], address);
}

/// A node's response with the chunk that was asked for gives the client its content.
pub proof fn honest_responses_are_taken(request_id: u64, content: Seq<u8>)
    requires
        hash::blake3_hash(content).len() == 32,
        crate::node::fetched_response(
            request_id,
            hash::blake3_hash(content),
            content,
        ).encoding().len() <= chunk::MAX_WIRE_MESSAGE_SIZE,
    ensures
        chunk_outcome(
            hash::blake3_hash(content),
            crate::node::fetched_response(
                request_id,
                hash::blake3_hash(content),
                content,
            ).encoding(),
        ) == Ok::<_, FetchFault>(Some(content)),
{
    crate::node::fetched_response_is_read_back(request_id, hash::blake3_hash(content), content);
}

// ---------------------------------------------------------------------------
// Whole files
// ---------------------------------------------------------------------------

/// The addresses of the chunks that a serialized data map lists, in its order, or the
/// text of the error. Sizes and indices in a data map are as wide as a pointer, so what
/// is well-formed depends on its width in bits.
pub uninterp spec fn data_map_addresses(map: Seq<u8>, pointer_bits: u32) -> Result<
    Seq<Seq<u8>>,
    Seq<char>,
>;

/// The file that self-encryption decrypts from a serialized data map and encrypted
/// chunks, if it can. Sizes in a data map are as wide as a pointer.
pub uninterp spec fn self_decrypted(
    map: Seq<u8>,
    chunks: Seq<Seq<u8>>,
    pointer_bits: u32,
) -> Option<Seq<u8>>;

/// The contents of a list of addresses.
pub open spec fn address_list(addresses: Seq<XorName>) -> Seq<Seq<u8>> {
    addresses.map_values(|a: XorName| a@)
}

/// The contents of a list of buffers.
pub open spec fn buffer_list(buffers: Seq<Bytes>) -> Seq<Seq<u8>> {
    buffers.map_values(|b: Bytes| content::contents(b))
}

/// `DataMap::from_bytes` of `self_encryption`, and of what comes out `DataMap::infos`
/// with the hash of each encrypted chunk; the error is given by its text. The outcome
/// depends on the bytes and the width of a pointer alone.
#[verifier::external_body]
fn read_data_map(map: &[u8]) -> (r: Result<Vec<XorName>, String>)
    ensures
        match data_map_addresses(map@, usize::BITS) {
            Ok(list) => (r matches Ok(v) && address_list(v@) == list),
            Err(why) => (r matches Err(t) && t@ == why),
        },
{
    let map = DataMap::from_bytes(map).map_err(|e| e.to_string())?;
    Ok(map.infos().iter().map(|info| info.dst_hash.0).collect())
}

/// `self_encryption::decrypt` on a data map given by its bytes and chunks given by
/// theirs. Whether it succeeds, and the file that it then gives, depend on these bytes
/// and the width of a pointer alone. The text of an error is not stated: chunks are
/// decrypted in parallel, and which of several faults is reported is left open.
#[verifier::external_body]
fn self_decrypt(map: &[u8], chunks: &Vec<Bytes>) -> (r: Result<Bytes, String>)
    ensures
        match self_decrypted(map@, buffer_list(chunks@), usize::BITS) {
            Some(file) => (r matches Ok(b) && content::contents(b) == file),
            None => r is Err,
        },
{
    let map = DataMap::from_bytes(map).map_err(|e| e.to_string())?;
    let chunks: Vec<EncryptedChunk> = chunks
        .iter()
        .map(|content| EncryptedChunk { content: content.clone() })
        .collect();
    self_encryption::decrypt(&map, &chunks).map_err(|e| e.to_string())
}

/// Why a download fails.
#[derive(Debug)]
pub enum DownloadError {
    /// There is no chunk at the file's address.
    DataMapNotFound { address: XorName },
    /// The chunk at the file's address is no data map; the text says why.
    InvalidDataMap(String),
    /// A chunk of the file is missing. Counting starts at one.
    MissingChunk { number: usize, total: usize, address: XorName },
    /// The chunks do not decrypt; the text says why.
    DecryptionFailed(String),
}

impl DownloadError {
    /// The text of the error.
    pub open spec fn text(self) -> Seq<char> {
        match self {
            DownloadError::DataMapNotFound { address } => "DataMap not found at "@
                + text::hex_text(address@),
            DownloadError::InvalidDataMap(why) => "failed to deserialize DataMap: "@ + why@,
            DownloadError::MissingChunk { number, total, address } => "Missing chunk "@
                + text::decimal(number as nat) + "/"@ + text::decimal(total as nat) + ": "@
                + text::hex_text(address@),
            DownloadError::DecryptionFailed(why) => "decryption failed: "@ + why@,
        }
    }

    /// The text of the error.
    pub fn to_string(&self) -> (r: String)
        ensures
            r@ == self.text(),
    {
        match self {
            DownloadError::DataMapNotFound { address } => text::joined(
                "DataMap not found at ",
                text::hex_encode(address).as_str(),
            ),
            DownloadError::InvalidDataMap(why) => text::joined(
                "failed to deserialize DataMap: ",
                why.as_str(),
            ),
            DownloadError::MissingChunk { number, total, address } => {
                let mut out = text::numbered("Missing chunk ", *number as u64);
                out.append("/");
                text::push_decimal(&mut out, *total as u64);
                out.append(": ");
                out.append(text::hex_encode(address).as_str());
                out
            },
            DownloadError::DecryptionFailed(why) => text::joined(
                "decryption failed: ",
                why.as_str(),
            ),
        }
    }
}

/// What to do next in a download.
#[derive(Debug)]
pub enum DownloadAction {
    /// Fetch the chunk at this address.
    Fetch(XorName),
    /// The file is complete.
    Finished(Bytes),
}

/// The chunks of a file, fetched in the order in which they are listed.
pub struct ChunkPlan {
    addresses: Vec<XorName>,
    chunks: Vec<Bytes>,
}

/// The contents of a `ChunkPlan`.
#[verifier::ext_equal]
pub struct PlanView {
    /// The addresses of the chunks.
    pub addresses: Seq<Seq<u8>>,
    /// The chunks fetched so far.
    pub chunks: Seq<Seq<u8>>,
}

impl PlanView {
    /// A plan of which nothing has been fetched.
    pub open spec fn fresh(addresses: Seq<Seq<u8>>) -> PlanView {
        PlanView { addresses, chunks: seq![] }
    }

    /// The address to fetch next, if any.
    pub open spec fn wanted(self) -> Option<Seq<u8>> {
        if self.chunks.len() < self.addresses.len() {
            Some(self.addresses[self.chunks.len() as int])
        } else {
            None
        }
    }

    /// The plan after the next chunk was fetched.
    pub open spec fn with_chunk(self, chunk: Seq<u8>) -> PlanView {
        PlanView { chunks: self.chunks.push(chunk), ..self }
    }
}

impl View for ChunkPlan {
    type V = PlanView;

    closed spec fn view(&self) -> PlanView {
        PlanView { addresses: address_list(self.addresses@), chunks: buffer_list(self.chunks@) }
    }
}

impl ChunkPlan {
    /// A plan for the chunks at these addresses.
    pub fn new(addresses: Vec<XorName>) -> (r: Self)
        ensures
            r@ == PlanView::fresh(address_list(addresses@)),
    {
        let chunks: Vec<Bytes> = Vec::new();
        let plan = ChunkPlan { addresses, chunks };
        assert(buffer_list(chunks@) =~= seq![]);
        plan
    }

    /// The address to fetch next, if any.
    pub fn wanted(&self) -> (r: Option<XorName>)
        ensures
            match self@.wanted() {
                Some(address) => (r matches Some(a) && a@ == address),
                None => r is None,
            },
    {
        let done: usize = self.chunks.len();
        if done < self.addresses.len() {
            Some(self.addresses[done])
        } else {
            None
        }
    }

    /// Takes what was found at the address that was wanted. Where nothing is wanted any
    /// more, `found` is not looked at.
    pub fn chunk_done(&mut self, found: Option<DataChunk>) -> (r: Result<(), DownloadError>)
        ensures
            match (old(self)@.wanted(), found) {
                (None, _) => r is Ok && final(self)@ == old(self)@,
                (Some(_), Some(c)) => r is Ok && final(self)@ == old(self)@.with_chunk(c.data()),
                (Some(wanted), None) => {
                    &&& final(self)@ == old(self)@
                    &&& r matches Err(DownloadError::MissingChunk { number, total, address })
                    &&& number == old(self)@.chunks.len() + 1
                    &&& total == old(self)@.addresses.len()
                    &&& address@ == wanted
                },
            },
    {
        let done: usize = self.chunks.len();
        if done < self.addresses.len() {
            match found {
                None => {
                    return Err(
                        DownloadError::MissingChunk {
                            number: done + 1,
                            total: self.addresses.len(),
                            address: self.addresses[done],
                        },
                    );
                },
                Some(chunk) => {
                    self.chunks.push(chunk.content);
                    assert(self@ =~= old(self)@.with_chunk(chunk.data()));
                },
            }
        }
        Ok(())
    }
}

/// A download in progress: first the data map, then the chunks it lists, in order.
pub struct Download {
    address: XorName,
    map: Option<Bytes>,
    plan: ChunkPlan,
}

/// What a download has gathered.
#[verifier::ext_equal]
pub struct DownloadView {
    /// The address of the file.
    pub address: Seq<u8>,
    /// The serialized data map.
    pub map: Option<Seq<u8>>,
    /// The chunks that the data map lists.
    pub plan: PlanView,
}

impl DownloadView {
    /// What every step keeps: the addresses are those of the data map, and no more
    /// chunks were fetched than it lists.
    pub open spec fn well_formed(self) -> bool {
        match self.map {
            None => self.plan == PlanView::fresh(seq![]),
            Some(map) => {
                &&& data_map_addresses(map, usize::BITS) == Ok::<_, Seq<char>>(
                    self.plan.addresses,
                )
                &&& self.plan.chunks.len() <= self.plan.addresses.len()
            },
        }
    }

    /// Whether everything gathered belongs to its address.
    pub open spec fn genuine(self) -> bool {
        &&& self.map matches Some(map) ==> hash::blake3_hash(map) == self.address
        &&& forall|i: int|
            #![trigger self.plan.chunks[i]]
            0 <= i < self.plan.chunks.len() ==> hash::blake3_hash(self.plan.chunks[i])
                == self.plan.addresses[i]
    }

    /// The address to fetch next, if any.
    pub open spec fn wanted(self) -> Option<Seq<u8>> {
        match self.map {
            None => Some(self.address),
            Some(_) => self.plan.wanted(),
        }
    }
}

/// Whether an action is the one that a download in this state calls for: fetching what
/// is wanted next, or the decrypted file where nothing is.
pub open spec fn proceeds(state: DownloadView, r: Result<DownloadAction, DownloadError>) -> bool {
    match state.wanted() {
        Some(address) => (r matches Ok(DownloadAction::Fetch(a)) && a@ == address),
        None => match self_decrypted(state.map->0, state.plan.chunks, usize::BITS) {
            Some(file) => (r matches Ok(DownloadAction::Finished(b)) && content::contents(b)
                == file),
            None => (r matches Err(DownloadError::DecryptionFailed(_))),
        },
    }
}

/// What a download does with what was found at the address that was wanted: from its
/// state before to its state after and the action.
pub open spec fn download_step(
    before: DownloadView,
    found: Option<Seq<u8>>,
    after: DownloadView,
    r: Result<DownloadAction, DownloadError>,
) -> bool {
    match (before.map, found) {
        (None, None) => {
            &&& after == before
            &&& r matches Err(DownloadError::DataMapNotFound { address })
            &&& address@ == before.address
        },
        (None, Some(map)) => match data_map_addresses(map, usize::BITS) {
            Err(why) => {
                &&& after == before
                &&& r matches Err(DownloadError::InvalidDataMap(t))
                &&& t@ == why
            },
            Ok(addresses) => {
                &&& after == (DownloadView {
                    map: Some(map),
                    plan: PlanView::fresh(addresses),
                    ..before
                })
                &&& proceeds(after, r)
            },
        },
        (Some(_), _) => match (before.plan.wanted(), found) {
            (None, _) => after == before && proceeds(after, r),
            (Some(_), Some(chunk)) => {
                &&& after == (DownloadView { plan: before.plan.with_chunk(chunk), ..before })
                &&& proceeds(after, r)
            },
            (Some(wanted), None) => {
                &&& after == before
                &&& r matches Err(DownloadError::MissingChunk { number, total, address })
                &&& number == before.plan.chunks.len() + 1
                &&& total == before.plan.addresses.len()
                &&& address@ == wanted
            },
        },
    }
}

/// Whether states and results are those of one download from its beginning, to which
/// `found` was handed one after the other.
pub open spec fn download_run(
    address: Seq<u8>,
    states: Seq<DownloadView>,
    found: Seq<Option<Seq<u8>>>,
    results: Seq<Result<DownloadAction, DownloadError>>,
) -> bool {
    &&& states.len() == found.len() + 1
    &&& results.len() == found.len()
    &&& states[0] == (DownloadView {
        address,
        map: None,
        plan: PlanView { addresses: seq![], chunks: seq![] },
    })
    &&& forall|i: int|
        #![trigger found[i]]
        0 <= i < found.len() ==> download_step(states[i], found[i], states[i + 1], results[i])
}

impl View for Download {
    type V = DownloadView;

    closed spec fn view(&self) -> DownloadView {
        DownloadView {
            address: self.address@,
            map: match self.map {
                None => None,
                Some(m) => Some(content::contents(m)),
            },
            plan: self.plan@,
        }
    }
}

impl Download {
    /// Begins the download of the file at `address`: its data map is fetched first.
    pub fn begin(address: XorName) -> (r: (Self, DownloadAction))
        ensures
            r.0@ == (DownloadView {
                address: address@,
                map: None,
                plan: PlanView::fresh(seq![]),
            }),
            r.0@ == (DownloadView {
                address: address@,
                map: None,
                plan: PlanView { addresses: seq![], chunks: seq![] },
            }),
            r.0@.well_formed(),
            r.1 matches DownloadAction::Fetch(a) && a == address,
    {
        let none: Vec<XorName> = Vec::new();
        assert(address_list(none@) =~= seq![]);
        let download = Download { address, map: None, plan: ChunkPlan::new(none) };
        (download, DownloadAction::Fetch(address))
    }

    /// The action that a download with a data map calls for.
    fn proceed(&self, map: &Bytes) -> (r: Result<DownloadAction, DownloadError>)
        requires
            self@.map == Some(content::contents(*map)),
        ensures
            proceeds(self@, r),
            self@.plan.chunks.len() >= self@.plan.addresses.len() ==> match self_decrypted(
                content::contents(*map),
                self@.plan.chunks,
                usize::BITS,
            ) {
                Some(file) => (r matches Ok(DownloadAction::Finished(b)) && content::contents(b)
                    == file),
                None => (r matches Err(DownloadError::DecryptionFailed(_))),
            },
            self@.plan.chunks.len() < self@.plan.addresses.len() ==> (r matches Ok(
                DownloadAction::Fetch(a),
            ) && a@ == self@.plan.addresses[self@.plan.chunks.len() as int]),
    {
        match self.plan.wanted() {
            Some(address) => Ok(DownloadAction::Fetch(address)),
            None => match self_decrypt(content::as_slice(map), &self.plan.chunks) {
                Ok(file) => Ok(DownloadAction::Finished(file)),
                Err(why) => Err(DownloadError::DecryptionFailed(why)),
            },
        }
    }

    /// Takes what was found at the address that was wanted and decides what to do next.
    /// Where nothing is wanted any more, `found` is not looked at.
    pub fn chunk_done(&mut self, found: Option<DataChunk>) -> (r: Result<
        DownloadAction,
        DownloadError,
    >)
        ensures
            download_step(
                old(self)@,
                match found {
                    Some(c) => Some(content::contents(c.content)),
                    None => None,
                },
                final(self)@,
                r,
            ),
            final(self)@.address == old(self)@.address,
            old(self)@.well_formed() ==> final(self)@.well_formed(),
            old(self)@.well_formed() && old(self)@.genuine() && (found matches Some(c)
                ==> c.intact() && Some(c.address@) == old(self)@.wanted())
                ==> final(self)@.genuine(),
            match (old(self)@.map, found) {
                (None, None) => {
                    &&& final(self)@ == old(self)@
                    &&& r matches Err(DownloadError::DataMapNotFound { address })
                    &&& address@ == old(self)@.address
                },
                (None, Some(c)) => match data_map_addresses(c.data(), usize::BITS) {
                    Err(why) => {
                        &&& final(self)@ == old(self)@
                        &&& r matches Err(DownloadError::InvalidDataMap(t))
                        &&& t@ == why
                    },
                    Ok(addresses) => {
                        &&& final(self)@.map == Some(c.data())
                        &&& final(self)@.plan == PlanView::fresh(addresses)
                        &&& proceeds(final(self)@, r)
                    },
                },
                (Some(map), _) => {
                    &&& final(self)@.map == Some(map)
                    &&& match (old(self)@.plan.wanted(), found) {
                        (None, _) => {
                            &&& final(self)@.plan == old(self)@.plan
                            &&& proceeds(final(self)@, r)
                        },
                        (Some(_), Some(c)) => {
                            &&& final(self)@.plan == old(self)@.plan.with_chunk(c.data())
                            &&& proceeds(final(self)@, r)
                        },
                        (Some(wanted), None) => {
                            &&& final(self)@.plan == old(self)@.plan
                            &&& r matches Err(
                                DownloadError::MissingChunk { number, total, address },
                            )
                            &&& number == old(self)@.plan.chunks.len() + 1
                            &&& total == old(self)@.plan.addresses.len()
                            &&& address@ == wanted
                        },
                    }
                },
            },
    {
        let map = match &self.map {
            Some(map) => {
                let map = map.clone();
                self.plan.chunk_done(found)?;
                map
            },
            None => {
                let chunk = match found {
                    None => return Err(DownloadError::DataMapNotFound { address: self.address }),
                    Some(chunk) => chunk,
                };
                let addresses = match read_data_map(content::as_slice(&chunk.content)) {
                    Err(why) => return Err(DownloadError::InvalidDataMap(why)),
                    Ok(addresses) => addresses,
                };
                self.plan = ChunkPlan::new(addresses);
                self.map = Some(chunk.content.clone());
                chunk.content
            },
        };
        self.proceed(&map)
    }
}

/// A finished download that took only intact chunks at the addresses it asked for gives
/// the file that self-encryption decrypts from the data map at the file's address and
/// the chunks at the addresses in that data map, in its order.
pub proof fn finished_downloads_are_genuine(
    state: DownloadView,
    r: Result<DownloadAction, DownloadError>,
)
    requires
        state.well_formed(),
        state.genuine(),
        proceeds(state, r),
        r matches Ok(DownloadAction::Finished(_)),
    ensures
        state.map is Some,
        hash::blake3_hash(state.map->0) == state.address,
        data_map_addresses(state.map->0, usize::BITS) matches Ok(addresses) && {
            &&& state.plan.chunks.len() == addresses.len()
            &&& forall|i: int|
                #![trigger addresses[i]]
                0 <= i < addresses.len() ==> hash::blake3_hash(state.plan.chunks[i])
                    == addresses[i]
        },
        r matches Ok(DownloadAction::Finished(file)) && self_decrypted(
            state.map->0,
            state.plan.chunks,
            usize::BITS,
        ) == Some(content::contents(file)),
{
}

/// The state of a download after its data map and `i` chunks were found.
proof fn lemma_download_run(
    address: Seq<u8>,
    states: Seq<DownloadView>,
    found: Seq<Option<Seq<u8>>>,
    results: Seq<Result<DownloadAction, DownloadError>>,
    list: Seq<Seq<u8>>,
    i: int,
)
    requires
        download_run(address, states, found, results),
        0 <= i < found.len(),
        i <= list.len(),
        forall|j: int| #![trigger found[j]] 0 <= j <= i ==> found[j] is Some,
        data_map_addresses(found[0]->0, usize::BITS) == Ok::<_, Seq<char>>(list),
    ensures
        states[i + 1].address == address,
        states[i + 1].map == Some(found[0]->0),
        states[i + 1].plan.addresses == list,
        states[i + 1].plan.chunks == Seq::new(i as nat, |k: int| found[k + 1]->0),
        proceeds(states[i + 1], results[i]),
    decreases i,
{
    assert(found[i] is Some);
    assert(download_step(states[i], found[i], states[i + 1], results[i]));
    if i == 0 {
        assert(states[1].plan.chunks =~= Seq::new(0, |k: int| found[k + 1]->0));
    } else {
        lemma_download_run(address, states, found, results, list, i - 1);
        let before = Seq::new((i - 1) as nat, |k: int| found[k + 1]->0);
        assert(states[i - 1 + 1].plan.chunks == before);
        assert(states[i + 1].plan.chunks =~= Seq::new(i as nat, |k: int| found[k + 1]->0));
    }
}

/// A download completes. Once the data map was found, the chunks that it lists are fetched
/// one after the other, in its order. With the last of them the download ends in the file
/// that self-encryption decrypts from the data map and exactly these chunks, whatever the
/// file's length, or fails where there is none.
pub proof fn downloads_complete(
    address: Seq<u8>,
    states: Seq<DownloadView>,
    found: Seq<Option<Seq<u8>>>,
    results: Seq<Result<DownloadAction, DownloadError>>,
    list: Seq<Seq<u8>>,
    i: int,
)
    requires
        states.len() == found.len() + 1,
        results.len() == found.len(),
        states[0] == (DownloadView {
            address,
            map: None,
            plan: PlanView { addresses: seq![], chunks: seq![] },
        }),
        forall|j: int|
            #![trigger found[j]]
            0 <= j < found.len() ==> download_step(states[j], found[j], states[j + 1], results[j]),
        0 <= i < found.len(),
        i <= list.len(),
        forall|j: int| #![trigger found[j]] 0 <= j <= i ==> found[j] is Some,
        data_map_addresses(found[0]->0, usize::BITS) == Ok::<_, Seq<char>>(list),
    ensures
        i < list.len() ==> (results[i] matches Ok(DownloadAction::Fetch(a)) && a@ == list[i]),
        i == list.len() ==> match self_decrypted(
            found[0]->0,
            Seq::new(list.len(), |k: int| found[k + 1]->0),
            usize::BITS,
        ) {
            Some(file) => (results[i] matches Ok(DownloadAction::Finished(b)) && content::contents(
                b,
            ) == file),
            None => (results[i] matches Err(DownloadError::DecryptionFailed(_))),
        },
{
    lemma_download_run(address, states, found, results, list, i);
}

/// A download that misses something says what: the data map, or the number of the chunk
/// and its address. The state is kept, so the same can be handed in again.
pub proof fn downloads_name_what_is_missing(
    address: Seq<u8>,
    states: Seq<DownloadView>,
    found: Seq<Option<Seq<u8>>>,
    results: Seq<Result<DownloadAction, DownloadError>>,
    list: Seq<Seq<u8>>,
    i: int,
)
    requires
        download_run(address, states, found, results),
        0 <= i < found.len(),
        i <= list.len(),
        found[i] is None,
        forall|j: int| #![trigger found[j]] 0 <= j < i ==> found[j] is Some,
        i > 0 ==> data_map_addresses(found[0]->0, usize::BITS) == Ok::<_, Seq<char>>(list),
    ensures
        i == 0 ==> (results[0] matches Err(DownloadError::DataMapNotFound { address: a }) && a@
            == address),
        i > 0 ==> (results[i] matches Err(
            DownloadError::MissingChunk { number, total, address: a },
        ) && number == i && total == list.len() && a@ == list[i - 1]),
        states[i + 1] == states[i],
{
    assert(found[i] is None);
    assert(download_step(states[i], found[i], states[i + 1], results[i]));
    if i > 0 {
        lemma_download_run(address, states, found, results, list, i - 1);
        assert(states[i - 1 + 1].plan.chunks.len() == i - 1);
    }
}

/// What was found at the file's address but is no data map is refused, with the reason.
pub proof fn downloads_need_a_data_map(
    address: Seq<u8>,
    states: Seq<DownloadView>,
    found: Seq<Option<Seq<u8>>>,
    results: Seq<Result<DownloadAction, DownloadError>>,
)
    requires
        download_run(address, states, found, results),
        found.len() > 0,
        found[0] is Some,
        data_map_addresses(found[0]->0, usize::BITS) is Err,
    ensures
        results[0] matches Err(DownloadError::InvalidDataMap(why)) && data_map_addresses(
            found[0]->0,
            usize::BITS,
        ) == Err::<Seq<Seq<u8>>, _>(why@),
        states[1] == states[0],
{
    assert(found[0] is Some);
    assert(download_step(states[0], found[0], states[1], results[0]));
}

/// The request for a chunk reads as a GET request for exactly that address, under exactly
/// that identifier, and is laid out as its identifier, 2 and the address.
pub proof fn requests_ask_for_the_address(request_id: u64, address: Seq<u8>)
    requires
        address.len() == 32,
    ensures
        chunk_request(request_id, address).encoding() == codec::varint(request_id as nat)
            + seq![2u8] + address,
        chunk::decoded_message(chunk_request(request_id, address).encoding()) == Ok::<_, ErrorView>(
            (MessageView {
                request_id,
                body: MessageBodyView::GetRequest((GetRequestView { address })),
            }),
        ),
{
    let m = MessageView {
        request_id,
        body: MessageBodyView::GetRequest((GetRequestView { address })),
    };
    codec::numbers_take_ten_bytes(request_id as nat);
    assert(m.encoding() =~= codec::varint(request_id as nat) + seq![2u8] + address);
    chunk::decode_inverts_encode(m);
}

/// Content is worth something to a client exactly where it came under the address that was
/// asked for and hashes to it; else the first of the two that fails is named.
pub proof fn content_is_checked_twice(address: Seq<u8>, claimed: Seq<u8>, computed: Seq<u8>)
    ensures
        content_check(address, claimed, computed) is Ok <==> claimed == address && computed
            == address,
        claimed != address ==> content_check(address, claimed, computed) == Err::<(), _>(
            (FetchFault::AddressMismatch { expected: address, actual: claimed }),
        ),
        claimed == address && computed != address ==> content_check(address, claimed, computed)
            == Err::<(), _>(
            (FetchFault::ContentMismatch { expected: address, actual: computed }),
        ),
{
}

/// What a client makes of a response, whatever its identifier: the content where it is
/// the chunk that was asked for, nothing where the node does not have it, and an error in
/// every other case.
pub proof fn responses_are_taken_for_what_they_are(address: Seq<u8>, response: Seq<u8>)
    ensures
        match chunk::decoded_message(response) {
            Err(e) => chunk_outcome(address, response) == Err::<Option<Seq<u8>>, _>(
                FetchFault::Decode(e),
            ),
            Ok(m) => match m.body {
                MessageBodyView::GetResponse(
                    GetResponseView::Success { address: claimed, content },
                ) => if claimed != address {
                    chunk_outcome(address, response) == Err::<Option<Seq<u8>>, _>(
                        (FetchFault::AddressMismatch { expected: address, actual: claimed }),
                    )
                } else if hash::blake3_hash(content) != address {
                    chunk_outcome(address, response) == Err::<Option<Seq<u8>>, _>(
                        (FetchFault::ContentMismatch {
                            expected: address,
                            actual: hash::blake3_hash(content),
                        }),
                    )
                } else {
                    chunk_outcome(address, response) == Ok::<_, FetchFault>(Some(content))
                },
                MessageBodyView::GetResponse(GetResponseView::NotFound { address: _ }) =>
                    chunk_outcome(address, response) == Ok::<_, FetchFault>(None::<Seq<u8>>),
                MessageBodyView::GetResponse(GetResponseView::Error(e)) => chunk_outcome(
                    address,
                    response,
                ) == Err::<Option<Seq<u8>>, _>(FetchFault::Remote(e)),
                _ => chunk_outcome(address, response) == Err::<Option<Seq<u8>>, _>(
                    FetchFault::UnexpectedResponse,
                ),
            },
        },
{
}

/// A chunk that was taken from a node is the first thing in the cache, and is found there
/// by its address. A chunk that was looked up comes to the front with its bytes.
pub proof fn used_chunks_come_first(
    entries: Seq<(Seq<u8>, Seq<u8>)>,
    address: Seq<u8>,
    bytes: Seq<u8>,
)
    ensures
        after_use(entries, CacheUse::Fetched(address, bytes)).len() > 0,
        after_use(entries, CacheUse::Fetched(address, bytes))[0] == (address, bytes),
        cache::lookup(after_use(entries, CacheUse::Fetched(address, bytes)), address) == Some(
            bytes,
        ),
        cache::lookup(entries, address) == Some(bytes) ==> {
            &&& after_use(entries, CacheUse::LookedUp(address)).len() > 0
            &&& after_use(entries, CacheUse::LookedUp(address))[0] == (address, bytes)
        },
        cache::lookup(entries, address) is None ==> after_use(
            entries,
            CacheUse::LookedUp(address),
        ) == entries,
{
}

/// A well-formed client holds at most 1024 chunks, each under its BLAKE3 hash and none
/// twice.
pub proof fn well_formed_clients_hold_distinct_genuine_chunks(
    client: DownloadClient,
    i: int,
    j: int,
)
    requires
        client.well_formed(),
        0 <= i < j < client.cached().len(),
    ensures
        client.cached().len() <= 1024,
        client.cache_limit() == 1024,
        client.cached()[i].0 == hash::blake3_hash(client.cached()[i].1),
        client.cached()[j].0 == hash::blake3_hash(client.cached()[j].1),
        client.cached()[i].0 != client.cached()[j].0,
{
}

/// Errors of a fetch show their fields and have their texts.
pub proof fn fetch_errors_have_their_texts(e: FetchError)
    ensures
        match e {
            FetchError::Encode(p) => {
                &&& e@ == FetchFault::Encode(p@)
                &&& e@.text() == "failed to encode request: "@ + p@.text()
            },
            FetchError::Decode(p) => {
                &&& e@ == FetchFault::Decode(p@)
                &&& e@.text() == "decode error: "@ + p@.text()
            },
            FetchError::AddressMismatch { expected, actual } => {
                &&& e@ == (FetchFault::AddressMismatch { expected: expected@, actual: actual@ })
                &&& e@.text() == "address mismatch: expected "@ + text::hex_text(expected@)
                    + ", got "@ + text::hex_text(actual@)
            },
            FetchError::ContentMismatch { expected, actual } => {
                &&& e@ == (FetchFault::ContentMismatch { expected: expected@, actual: actual@ })
                &&& e@.text() == "content hash mismatch: expected "@ + text::hex_text(expected@)
                    + ", got "@ + text::hex_text(actual@)
            },
            FetchError::Remote(p) => {
                &&& e@ == FetchFault::Remote(p@)
                &&& e@.text() == "remote error: "@ + p@.text()
            },
            FetchError::UnexpectedResponse => {
                &&& e@ == FetchFault::UnexpectedResponse
                &&& e@.text() == "unexpected response type"@
            },
        },
{
}

/// Errors of a download have their texts.
pub proof fn download_errors_have_their_texts(e: DownloadError)
    ensures
        match e {
            DownloadError::DataMapNotFound { address } => e.text() == "DataMap not found at "@
                + text::hex_text(address@),
            DownloadError::InvalidDataMap(why) => e.text() == "failed to deserialize DataMap: "@
                + why@,
            DownloadError::MissingChunk { number, total, address } => e.text()
                == "Missing chunk "@ + text::decimal(number as nat) + "/"@ + text::decimal(
                total as nat,
            ) + ": "@ + text::hex_text(address@),
            DownloadError::DecryptionFailed(why) => e.text() == "decryption failed: "@ + why@,
        },
{
}

/// Lists of addresses and of buffers show their contents one by one, in their order.
pub proof fn lists_show_their_contents(addresses: Seq<XorName>, buffers: Seq<Bytes>)
    ensures
        address_list(addresses).len() == addresses.len(),
        forall|i: int|
            #![trigger addresses[i]]
            0 <= i < addresses.len() ==> address_list(addresses)[i] == addresses[i]@,
        buffer_list(buffers).len() == buffers.len(),
        forall|i: int|
            #![trigger buffers[i]]
            0 <= i < buffers.len() ==> buffer_list(buffers)[i] == content::contents(buffers[i]),
{
}

/// A plan asks for its addresses one after the other, and takes what was found for each
/// as the next chunk.
pub proof fn plans_go_in_order(addresses: Seq<Seq<u8>>, chunks: Seq<Seq<u8>>, chunk: Seq<u8>)
    ensures
        PlanView::fresh(addresses) == (PlanView { addresses, chunks: seq![] }),
        (PlanView { addresses, chunks }).wanted() == if chunks.len() < addresses.len() {
            Some(addresses[chunks.len() as int])
        } else {
            None
        },
        (PlanView { addresses, chunks }).with_chunk(chunk) == (PlanView {
            addresses,
            chunks: chunks.push(chunk),
        }),
{
}

} // verus!
