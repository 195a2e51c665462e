//! Browser-direct chunk downloads over a post-quantum tunnel.
//!
//! A client opens a session to a storage node, agrees on a session key with
//! ML-KEM-768, authenticates the node with ML-DSA-65, and then fetches
//! content-addressed chunks over encrypted streams. This crate holds the logic of
//! both ends: the wire formats, the handshake, the per-stream encryption, the chunk
//! protocol, the cache and the download procedure. Sockets, browser bindings and
//! timers stay outside and hand in plain values.
pub mod address;
pub mod cache;
pub mod chunk;
pub mod codec;
pub mod content;
pub mod crypto;
pub mod download;
pub mod handshake;
pub mod hash;
pub mod node;
pub mod pqc_tunnel;
pub mod session;
pub mod signaling;
pub mod stream;
pub mod text;
pub mod wire;

pub use chunk::{
    ChunkGetRequest, ChunkGetResponse, ChunkMessage, ChunkMessageBody, ChunkPutRequest,
    ChunkPutResponse, ChunkQuoteRequest, ChunkQuoteResponse, MerkleCandidateQuoteRequest,
    MerkleCandidateQuoteResponse, ProtocolError, CHUNK_PROTOCOL_ID, CLOSE_GROUP_MAJORITY,
    CLOSE_GROUP_SIZE, DATA_TYPE_CHUNK, MAX_CHUNK_SIZE, MAX_WIRE_MESSAGE_SIZE, PROOF_TAG_MERKLE,
    PROOF_TAG_SINGLE_NODE, PROTOCOL_VERSION,
};
use vstd::prelude::*;

verus! {

/// Content-addressed identifier (32 bytes, BLAKE3 hash).
pub type XorName = [u8; 32];

/// The content address of `content`: its BLAKE3 hash.
#[must_use]
pub fn compute_address(content: &[u8]) -> (r: XorName)
    ensures
        r@ == hash::blake3_hash(content@),
{
    hash::blake3_of(content)
}

/// A chunk of data with its content-addressed identifier.
#[derive(Debug)]
pub struct DataChunk {
    /// The content-addressed identifier.
    pub address: XorName,
    /// The raw data.
    pub content: bytes::Bytes,
}

impl DataChunk {
    /// The raw data as a sequence of bytes.
    pub open spec fn data(self) -> Seq<u8> {
        content::contents(self.content)
    }

    /// Whether the address is the one that the data asks for.
    pub open spec fn intact(self) -> bool {
        self.address@ == hash::blake3_hash(self.data())
    }

    /// Pairs an address with data, unchecked.
    #[must_use]
    pub fn new(address: XorName, content: bytes::Bytes) -> (r: Self)
        ensures
            r == (DataChunk { address, content }),
    {
        DataChunk { address, content }
    }

    /// A chunk at the address that its data asks for.
    #[must_use]
    pub fn from_content(content: bytes::Bytes) -> (r: Self)
        ensures
            r.content == content,
            r.intact(),
            r.address@ == hash::blake3_hash(content::contents(content)),
    {
        let address = compute_address(content::as_slice(&content));
        DataChunk { address, content }
    }

    /// Checks that the address is the one that the data asks for.
    #[must_use]
    pub fn verify(&self) -> (r: bool)
        ensures
            r == self.intact(),
            r == (self.address@ == hash::blake3_hash(content::contents(self.content))),
    {
        wire::same_bytes(&self.address, &compute_address(content::as_slice(&self.content)))
    }

    /// The number of bytes of data.
    #[must_use]
    pub fn size(&self) -> (r: usize)
        ensures
            r == self.data().len(),
            r == content::contents(self.content).len(),
    {
        content::as_slice(&self.content).len()
    }
}

impl Clone for DataChunk {
    fn clone(&self) -> (r: Self)
        ensures
            r.address == self.address,
            r.data() == self.data(),
            content::contents(r.content) == content::contents(self.content),
    {
        DataChunk { address: self.address, content: self.content.clone() }
    }
}

/// A chunk's data is what its buffer holds, and it is intact exactly where its address is
/// the BLAKE3 hash of that.
pub proof fn chunks_are_intact_by_their_hash(chunk: DataChunk)
    ensures
        chunk.data() == content::contents(chunk.content),
        chunk.intact() <==> chunk.address@ == hash::blake3_hash(content::contents(chunk.content)),
{
}

} // verus!
