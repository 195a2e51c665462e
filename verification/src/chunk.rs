//! Messages of the chunk protocol and their wire form.
use crate::codec;
use crate::codec::Reading;
use crate::text;
use crate::wire;
use vstd::prelude::*;

verus! {

/// Content-addressed identifier (32 bytes).
pub type XorName = [u8; 32];

/// Protocol identifier for chunk operations.
pub const CHUNK_PROTOCOL_ID: &'static str = "autonomi/ant/chunk/v1";

/// Current protocol version.
pub const PROTOCOL_VERSION: u16 = 1;

/// Maximum size of a chunk (4 MiB).
pub const MAX_CHUNK_SIZE: usize = 4 * 1024 * 1024;

/// Maximum size of a message on the wire (5 MiB).
pub const MAX_WIRE_MESSAGE_SIZE: usize = 5 * 1024 * 1024;

/// Data type identifier of chunks.
pub const DATA_TYPE_CHUNK: u32 = 0;

/// Version byte in front of single-node payment proofs.
pub const PROOF_TAG_SINGLE_NODE: u8 = 0x01;

/// Version byte in front of merkle payment proofs.
pub const PROOF_TAG_MERKLE: u8 = 0x02;

/// Number of closest peers for quoting and storage.
pub const CLOSE_GROUP_SIZE: usize = 5;

/// Simple majority of the close group.
pub const CLOSE_GROUP_MAJORITY: usize = (CLOSE_GROUP_SIZE / 2) + 1;

/// Two majorities of a close group always share a peer, and no smaller number does it.
pub proof fn close_group_majority_is_smallest()
    ensures
        2 * CLOSE_GROUP_MAJORITY > CLOSE_GROUP_SIZE,
        2 * (CLOSE_GROUP_MAJORITY - 1) <= CLOSE_GROUP_SIZE,
{
}

// ---------------------------------------------------------------------------
// Errors
// ---------------------------------------------------------------------------

/// Errors that the protocol carries.
#[derive(Debug, Clone, PartialEq, Eq)]
pub enum ProtocolError {
    SerializationFailed(String),
    DeserializationFailed(String),
    MessageTooLarge { size: usize, max_size: usize },
    ChunkTooLarge { size: usize, max_size: usize },
    AddressMismatch { expected: XorName, actual: XorName },
    StorageFailed(String),
    PaymentFailed(String),
    QuoteFailed(String),
    Internal(String),
}

/// The contents of a `ProtocolError`.
#[verifier::ext_equal]
pub enum ErrorView {
    SerializationFailed(Seq<char>),
    DeserializationFailed(Seq<char>),
    MessageTooLarge { size: usize, max_size: usize },
    ChunkTooLarge { size: usize, max_size: usize },
    AddressMismatch { expected: Seq<u8>, actual: Seq<u8> },
    StorageFailed(Seq<char>),
    PaymentFailed(Seq<char>),
    QuoteFailed(Seq<char>),
    Internal(Seq<char>),
}

impl View for ProtocolError {
    type V = ErrorView;

    open spec fn view(&self) -> ErrorView {
        match self {
            ProtocolError::SerializationFailed(m) => ErrorView::SerializationFailed(m@),
            ProtocolError::DeserializationFailed(m) => ErrorView::DeserializationFailed(m@),
            ProtocolError::MessageTooLarge { size, max_size } => ErrorView::MessageTooLarge {
                size: *size,
                max_size: *max_size,
            },
            ProtocolError::ChunkTooLarge { size, max_size } => ErrorView::ChunkTooLarge {
                size: *size,
                max_size: *max_size,
            },
            ProtocolError::AddressMismatch { expected, actual } => ErrorView::AddressMismatch {
                expected: expected@,
                actual: actual@,
            },
            ProtocolError::StorageFailed(m) => ErrorView::StorageFailed(m@),
            ProtocolError::PaymentFailed(m) => ErrorView::PaymentFailed(m@),
            ProtocolError::QuoteFailed(m) => ErrorView::QuoteFailed(m@),
            ProtocolError::Internal(m) => ErrorView::Internal(m@),
        }
    }
}

/// Whether a text is short enough for its length to be a `usize`.
pub open spec fn text_fits(text: Seq<char>) -> bool {
    vstd::utf8::encode_utf8(text).len() <= usize::MAX
}

impl ErrorView {
    /// Whether these are the contents of some `ProtocolError`.
    pub open spec fn valid(self) -> bool {
        match self {
            ErrorView::SerializationFailed(m) => text_fits(m),
            ErrorView::DeserializationFailed(m) => text_fits(m),
            ErrorView::MessageTooLarge { size, max_size } => true,
            ErrorView::ChunkTooLarge { size, max_size } => true,
            ErrorView::AddressMismatch { expected, actual } =>
                expected.len() == 32 && actual.len() == 32,
            ErrorView::StorageFailed(m) => text_fits(m),
            ErrorView::PaymentFailed(m) => text_fits(m),
            ErrorView::QuoteFailed(m) => text_fits(m),
            ErrorView::Internal(m) => text_fits(m),
        }
    }

    /// The wire form.
    pub open spec fn encoding(self) -> Seq<u8> {
        match self {
            ErrorView::SerializationFailed(m) => codec::varint(0) + codec::text_encoding(m),
            ErrorView::DeserializationFailed(m) => codec::varint(1) + codec::text_encoding(m),
            ErrorView::MessageTooLarge { size, max_size } => codec::varint(2) + codec::varint(
                size as nat,
            ) + codec::varint(max_size as nat),
            ErrorView::ChunkTooLarge { size, max_size } => codec::varint(3) + codec::varint(
                size as nat,
            ) + codec::varint(max_size as nat),
            ErrorView::AddressMismatch { expected, actual } => codec::varint(4) + expected + actual,
            ErrorView::StorageFailed(m) => codec::varint(5) + codec::text_encoding(m),
            ErrorView::PaymentFailed(m) => codec::varint(6) + codec::text_encoding(m),
            ErrorView::QuoteFailed(m) => codec::varint(7) + codec::text_encoding(m),
            ErrorView::Internal(m) => codec::varint(8) + codec::text_encoding(m),
        }
    }

    /// The text of the error.
    pub open spec fn text(self) -> Seq<char> {
        match self {
            ErrorView::SerializationFailed(m) => "serialization failed: "@ + m,
            ErrorView::DeserializationFailed(m) => "deserialization failed: "@ + m,
            ErrorView::MessageTooLarge { size, max_size } =>
                "message size "@ + text::decimal(size as nat)
                + " exceeds maximum "@ + text::decimal(max_size as nat),
            ErrorView::ChunkTooLarge { size, max_size } =>
                "chunk size "@ + text::decimal(size as nat)
                + " exceeds maximum "@ + text::decimal(max_size as nat),
            ErrorView::AddressMismatch { expected, actual } => text::mismatch(
                "address mismatch: expected "@,
                expected,
                actual,
            ),
            ErrorView::StorageFailed(m) => "storage failed: "@ + m,
            ErrorView::PaymentFailed(m) => "payment failed: "@ + m,
            ErrorView::QuoteFailed(m) => "quote failed: "@ + m,
            ErrorView::Internal(m) => "internal error: "@ + m,
        }
    }
}

/// Two sizes, one after the other.
pub open spec fn read_sizes(data: Seq<u8>) -> Reading<(usize, usize)> {
    codec::chained(
        codec::read_size(data),
        |a: nat, rest: Seq<u8>|
            codec::mapped(codec::read_size(rest), |b: nat| (a as usize, b as usize)),
    )
}

/// Reads a `ProtocolError`.
pub open spec fn read_error(data: Seq<u8>) -> Reading<ErrorView> {
    codec::chained(
        codec::read_u32(data),
        |tag: nat, rest: Seq<u8>|
            {
                if tag == 0 {
                    codec::mapped(
                        codec::read_text(rest),
                        |m: Seq<char>| ErrorView::SerializationFailed(m),
                    )
                } else if tag == 1 {
                    codec::mapped(
                        codec::read_text(rest),
                        |m: Seq<char>| ErrorView::DeserializationFailed(m),
                    )
                } else if tag == 2 {
                    codec::mapped(
                        read_sizes(rest),
                        |s: (usize, usize)| ErrorView::MessageTooLarge { size: s.0, max_size: s.1 },
                    )
                } else if tag == 3 {
                    codec::mapped(
                        read_sizes(rest),
                        |s: (usize, usize)| ErrorView::ChunkTooLarge { size: s.0, max_size: s.1 },
                    )
                } else if tag == 4 {
                    codec::chained(
                        codec::read_address(rest),
                        |expected: Seq<u8>, rest: Seq<u8>|
                            codec::mapped(
                                codec::read_address(rest),
                                |actual: Seq<u8>| ErrorView::AddressMismatch { expected, actual },
                            ),
                    )
                } else if tag == 5 {
                    codec::mapped(
                        codec::read_text(rest),
                        |m: Seq<char>| ErrorView::StorageFailed(m),
                    )
                } else if tag == 6 {
                    codec::mapped(
                        codec::read_text(rest),
                        |m: Seq<char>| ErrorView::PaymentFailed(m),
                    )
                } else if tag == 7 {
                    codec::mapped(codec::read_text(rest), |m: Seq<char>| ErrorView::QuoteFailed(m))
                } else if tag == 8 {
                    codec::mapped(codec::read_text(rest), |m: Seq<char>| ErrorView::Internal(m))
                } else {
                    Err(codec::DecodeFault::OutOfRange)
                }
            },
    )
}

proof fn lemma_address(address: Seq<u8>, rest: Seq<u8>)
    requires
        address.len() == 32,
    ensures
        codec::read_address(address + rest) == Ok::<_, codec::DecodeFault>((address, rest)),
{
    assert((address + rest).take(32) =~= address);
    assert((address + rest).skip(32) =~= rest);
}

/// Reading back an error gives the error.
pub proof fn error_round_trip(e: ErrorView, rest: Seq<u8>)
    requires
        e.valid(),
    ensures
        read_error(e.encoding() + rest) == Ok::<_, codec::DecodeFault>((e, rest)),
{
    let data = e.encoding() + rest;
    match e {
        ErrorView::SerializationFailed(m) => {
            let tail = codec::text_encoding(m) + rest;
            assert(data =~= codec::varint(0) + tail);
            codec::number_round_trip(0, tail);
            codec::text_round_trip(m, rest);
        },
        ErrorView::DeserializationFailed(m) => {
            let tail = codec::text_encoding(m) + rest;
            assert(data =~= codec::varint(1) + tail);
            codec::number_round_trip(1, tail);
            codec::text_round_trip(m, rest);
        },
        ErrorView::MessageTooLarge { size, max_size } => {
            let last = codec::varint(max_size as nat) + rest;
            let tail = codec::varint(size as nat) + last;
            assert(data =~= codec::varint(2) + tail);
            codec::number_round_trip(2, tail);
            codec::number_round_trip(size as nat, last);
            codec::number_round_trip(max_size as nat, rest);
        },
        ErrorView::ChunkTooLarge { size, max_size } => {
            let last = codec::varint(max_size as nat) + rest;
            let tail = codec::varint(size as nat) + last;
            assert(data =~= codec::varint(3) + tail);
            codec::number_round_trip(3, tail);
            codec::number_round_trip(size as nat, last);
            codec::number_round_trip(max_size as nat, rest);
        },
        ErrorView::AddressMismatch { expected, actual } => {
            let last = actual + rest;
            let tail = expected + last;
            assert(data =~= codec::varint(4) + tail);
            codec::number_round_trip(4, tail);
            lemma_address(expected, last);
            lemma_address(actual, rest);
        },
        ErrorView::StorageFailed(m) => {
            let tail = codec::text_encoding(m) + rest;
            assert(data =~= codec::varint(5) + tail);
            codec::number_round_trip(5, tail);
            codec::text_round_trip(m, rest);
        },
        ErrorView::PaymentFailed(m) => {
            let tail = codec::text_encoding(m) + rest;
            assert(data =~= codec::varint(6) + tail);
            codec::number_round_trip(6, tail);
            codec::text_round_trip(m, rest);
        },
        ErrorView::QuoteFailed(m) => {
            let tail = codec::text_encoding(m) + rest;
            assert(data =~= codec::varint(7) + tail);
            codec::number_round_trip(7, tail);
            codec::text_round_trip(m, rest);
        },
        ErrorView::Internal(m) => {
            let tail = codec::text_encoding(m) + rest;
            assert(data =~= codec::varint(8) + tail);
            codec::number_round_trip(8, tail);
            codec::text_round_trip(m, rest);
        },
    }
}

/// Appends the number of a variant.
fn put_tag(out: &mut Vec<u8>, tag: u64) -> (r: Result<(), String>)
    ensures
        r is Ok,
        final(out)@ == old(out)@ + codec::varint(tag as nat),
{
    codec::put_u64(out, tag)
}

/// Takes two sizes.
fn take_sizes(data: &[u8]) -> (r: Result<((usize, usize), &[u8]), String>)
    ensures
        match read_sizes(data@) {
            Ok((value, rest)) => (r matches Ok(v) && v.0 == value && v.1@ == rest),
            Err(fault) => (r matches Err(t) && t@ == codec::fault_text(fault)),
        },
{
    let (a, rest) = codec::take_size(data)?;
    let (b, rest) = codec::take_size(rest)?;
    Ok(((a, b), rest))
}

impl ProtocolError {
    /// The text of the error.
    pub fn to_string(&self) -> (r: String)
        ensures
            r@ == self@.text(),
    {
        match self {
            ProtocolError::SerializationFailed(m) =>
                text::joined("serialization failed: ", m.as_str()),
            ProtocolError::DeserializationFailed(m) =>
                text::joined("deserialization failed: ", m.as_str()),
            ProtocolError::MessageTooLarge { size, max_size } =>
                limit_text("message size ", *size, *max_size),
            ProtocolError::ChunkTooLarge { size, max_size } =>
                limit_text("chunk size ", *size, *max_size),
            ProtocolError::AddressMismatch { expected, actual } => text::mismatch_text(
                "address mismatch: expected ",
                expected,
                actual,
            ),
            ProtocolError::StorageFailed(m) => text::joined("storage failed: ", m.as_str()),
            ProtocolError::PaymentFailed(m) => text::joined("payment failed: ", m.as_str()),
            ProtocolError::QuoteFailed(m) => text::joined("quote failed: ", m.as_str()),
            ProtocolError::Internal(m) => text::joined("internal error: ", m.as_str()),
        }
    }

    /// Appends the wire form.
    fn put(&self, out: &mut Vec<u8>) -> (r: Result<(), String>)
        ensures
            r is Ok,
            final(out)@ == old(out)@ + self@.encoding(),
            self@.valid(),
    {
        match self {
            ProtocolError::SerializationFailed(m) => {
                put_tag(out, 0)?;
                codec::put_text(out, m)?;
            },
            ProtocolError::DeserializationFailed(m) => {
                put_tag(out, 1)?;
                codec::put_text(out, m)?;
            },
            ProtocolError::MessageTooLarge { size, max_size } => {
                put_tag(out, 2)?;
                codec::put_u64(out, *size as u64)?;
                codec::put_u64(out, *max_size as u64)?;
            },
            ProtocolError::ChunkTooLarge { size, max_size } => {
                put_tag(out, 3)?;
                codec::put_u64(out, *size as u64)?;
                codec::put_u64(out, *max_size as u64)?;
            },
            ProtocolError::AddressMismatch { expected, actual } => {
                put_tag(out, 4)?;
                wire::append(out, expected);
                wire::append(out, actual);
            },
            ProtocolError::StorageFailed(m) => {
                put_tag(out, 5)?;
                codec::put_text(out, m)?;
            },
            ProtocolError::PaymentFailed(m) => {
                put_tag(out, 6)?;
                codec::put_text(out, m)?;
            },
            ProtocolError::QuoteFailed(m) => {
                put_tag(out, 7)?;
                codec::put_text(out, m)?;
            },
            ProtocolError::Internal(m) => {
                put_tag(out, 8)?;
                codec::put_text(out, m)?;
            },
        }
        assert(out@ =~= old(out)@ + self@.encoding());
        Ok(())
    }

    /// Takes an error from the front of `data`.
    fn take(data: &[u8]) -> (r: Result<(ProtocolError, &[u8]), String>)
        ensures
            codec::agrees(r, read_error(data@)),
    {
        let (tag, rest) = codec::take_u32(data)?;
        if tag == 0 {
            let (m, rest) = codec::take_text(rest)?;
            Ok((ProtocolError::SerializationFailed(m), rest))
        } else if tag == 1 {
            let (m, rest) = codec::take_text(rest)?;
            Ok((ProtocolError::DeserializationFailed(m), rest))
        } else if tag == 2 {
            let ((size, max_size), rest) = take_sizes(rest)?;
            Ok((ProtocolError::MessageTooLarge { size, max_size }, rest))
        } else if tag == 3 {
            let ((size, max_size), rest) = take_sizes(rest)?;
            Ok((ProtocolError::ChunkTooLarge { size, max_size }, rest))
        } else if tag == 4 {
            let (expected, rest) = codec::take_address(rest)?;
            let (actual, rest) = codec::take_address(rest)?;
            Ok((ProtocolError::AddressMismatch { expected, actual }, rest))
        } else if tag == 5 {
            let (m, rest) = codec::take_text(rest)?;
            Ok((ProtocolError::StorageFailed(m), rest))
        } else if tag == 6 {
            let (m, rest) = codec::take_text(rest)?;
            Ok((ProtocolError::PaymentFailed(m), rest))
        } else if tag == 7 {
            let (m, rest) = codec::take_text(rest)?;
            Ok((ProtocolError::QuoteFailed(m), rest))
        } else if tag == 8 {
            let (m, rest) = codec::take_text(rest)?;
            Ok((ProtocolError::Internal(m), rest))
        } else {
            Err(codec::describe(codec::DecodeFault::OutOfRange))
        }
    }
}

/// The text for a size beyond its limit.
fn limit_text(before: &str, size: usize, max_size: usize) -> (r: String)
    ensures
        r@ == before@ + text::decimal(size as nat) + " exceeds maximum "@ + text::decimal(
            max_size as nat,
        ),
{
    let mut out = text::numbered(before, size as u64);
    out.append(" exceeds maximum ");
    text::push_decimal(&mut out, max_size as u64);
    out
}

// ---------------------------------------------------------------------------
// Requests and responses
// ---------------------------------------------------------------------------

/// Reads a 64-bit number.
pub open spec fn read_long(data: Seq<u8>) -> Reading<u64> {
    codec::mapped(codec::read_u64(data), |v: nat| v as u64)
}

/// Reads a 32-bit number.
pub open spec fn read_word(data: Seq<u8>) -> Reading<u32> {
    codec::mapped(codec::read_u32(data), |v: nat| v as u32)
}

proof fn lemma_flag(b: bool, rest: Seq<u8>)
    ensures
        codec::read_flag(codec::flag(b) + rest) == Ok::<_, codec::DecodeFault>((b, rest)),
{
    assert((codec::flag(b) + rest).skip(1) =~= rest);
}

/// A request to store a chunk.
#[derive(Debug, Clone)]
pub struct ChunkPutRequest {
    pub address: XorName,
    pub content: Vec<u8>,
    pub payment_proof: Option<Vec<u8>>,
}

/// The contents of a `ChunkPutRequest`.
#[verifier::ext_equal]
pub struct PutRequestView {
    pub address: Seq<u8>,
    pub content: Seq<u8>,
    pub payment_proof: Option<Seq<u8>>,
}

impl View for ChunkPutRequest {
    type V = PutRequestView;

    open spec fn view(&self) -> PutRequestView {
        PutRequestView {
            address: self.address@,
            content: self.content@,
            payment_proof: codec::optional_view(self.payment_proof),
        }
    }
}

impl PutRequestView {
    /// Whether these are the contents of some `ChunkPutRequest`.
    pub open spec fn valid(self) -> bool {
        let PutRequestView { address, content, payment_proof } = self;
        &&& address.len() == 32
        &&& content.len() <= usize::MAX
        &&& payment_proof matches Some(p) ==> p.len() <= usize::MAX
    }

    /// The wire form.
    pub open spec fn encoding(self) -> Seq<u8> {
        let PutRequestView { address, content, payment_proof } = self;
        address + codec::sized(content) + codec::optional(payment_proof)
    }
}

/// Reads a `ChunkPutRequest`.
pub open spec fn read_put_request(data: Seq<u8>) -> Reading<PutRequestView> {
    codec::chained(
        codec::read_address(data),
        |address: Seq<u8>, rest: Seq<u8>|
            codec::chained(
                codec::read_bytes(rest),
                |content: Seq<u8>, rest: Seq<u8>|
                    codec::mapped(
                        codec::read_optional(rest),
                        |payment_proof: Option<Seq<u8>>|
                            PutRequestView { address, content, payment_proof },
                    ),
            ),
    )
}

/// Reading back a `ChunkPutRequest` gives its contents.
pub proof fn put_request_round_trip(m: PutRequestView, rest: Seq<u8>)
    requires
        m.valid(),
    ensures
        read_put_request(m.encoding() + rest) == Ok::<_, codec::DecodeFault>((m, rest)),
{
    let data = m.encoding() + rest;
    let PutRequestView { address, content, payment_proof } = m;
    let t2 = codec::optional(payment_proof) + rest;
    let t1 = codec::sized(content) + t2;
    assert(data =~= address + t1);
    codec::optional_round_trip(payment_proof, rest);
    codec::bytes_round_trip(content, t2);
    lemma_address(address, t1);
}

impl ChunkPutRequest {
    /// A request without a payment proof.
    #[must_use]
    pub fn new(address: XorName, content: Vec<u8>) -> (r: Self)
        ensures
            r == (ChunkPutRequest { address, content, payment_proof: None }),
    {
        ChunkPutRequest { address, content, payment_proof: None }
    }

    /// A request with a payment proof.
    #[must_use]
    pub fn with_payment(address: XorName, content: Vec<u8>, payment_proof: Vec<u8>) -> (r: Self)
        ensures
            r == (ChunkPutRequest { address, content, payment_proof: Some(payment_proof) }),
    {
        ChunkPutRequest { address, content, payment_proof: Some(payment_proof) }
    }

    /// Appends the wire form.
    fn put(&self, out: &mut Vec<u8>) -> (r: Result<(), String>)
        ensures
            r is Ok,
            final(out)@ == old(out)@ + self@.encoding(),
            self@.valid(),
    {
        wire::append(out, &self.address);
        codec::put_bytes(out, self.content.as_slice())?;
        codec::put_optional(out, &self.payment_proof)?;
        assert(out@ =~= old(out)@ + self@.encoding());
        Ok(())
    }

    /// Takes a value from the front of `data`.
    fn take(data: &[u8]) -> (r: Result<(ChunkPutRequest, &[u8]), String>)
        ensures
            codec::agrees(r, read_put_request(data@)),
    {
        let (address, rest) = codec::take_address(data)?;
        let (content, rest) = codec::take_bytes(rest)?;
        let (payment_proof, rest) = codec::take_optional(rest)?;
        Ok((ChunkPutRequest { address, content, payment_proof }, rest))
    }
}

/// The response to a request to store a chunk.
#[derive(Debug, Clone)]
pub enum ChunkPutResponse {
    Success { address: XorName },
    AlreadyExists { address: XorName },
    PaymentRequired { message: String },
    Error(ProtocolError),
}

/// The contents of a `ChunkPutResponse`.
#[verifier::ext_equal]
pub enum PutResponseView {
    Success { address: Seq<u8> },
    AlreadyExists { address: Seq<u8> },
    PaymentRequired { message: Seq<char> },
    Error(ErrorView),
}

impl View for ChunkPutResponse {
    type V = PutResponseView;

    open spec fn view(&self) -> PutResponseView {
        match self {
            ChunkPutResponse::Success { address } => PutResponseView::Success { address: address@ },
            ChunkPutResponse::AlreadyExists { address } => PutResponseView::AlreadyExists {
                address: address@,
            },
            ChunkPutResponse::PaymentRequired { message } => PutResponseView::PaymentRequired {
                message: message@,
            },
            ChunkPutResponse::Error(e) => PutResponseView::Error(e@),
        }
    }
}

impl PutResponseView {
    /// Whether these are the contents of some `ChunkPutResponse`.
    pub open spec fn valid(self) -> bool {
        match self {
            PutResponseView::Success { address } => address.len() == 32,
            PutResponseView::AlreadyExists { address } => address.len() == 32,
            PutResponseView::PaymentRequired { message } => text_fits(message),
            PutResponseView::Error(e) => e.valid(),
        }
    }

    /// The wire form.
    pub open spec fn encoding(self) -> Seq<u8> {
        match self {
            PutResponseView::Success { address } => codec::varint(0) + address,
            PutResponseView::AlreadyExists { address } => codec::varint(1) + address,
            PutResponseView::PaymentRequired { message } =>
                codec::varint(2) + codec::text_encoding(message),
            PutResponseView::Error(e) => codec::varint(3) + e.encoding(),
        }
    }
}

/// Reads a `ChunkPutResponse`.
pub open spec fn read_put_response(data: Seq<u8>) -> Reading<PutResponseView> {
    codec::chained(
        codec::read_u32(data),
        |tag: nat, rest: Seq<u8>|
            {
                if tag == 0 {
                    codec::mapped(
                        codec::read_address(rest),
                        |address: Seq<u8>| PutResponseView::Success { address },
                    )
                } else if tag == 1 {
                    codec::mapped(
                        codec::read_address(rest),
                        |address: Seq<u8>| PutResponseView::AlreadyExists { address },
                    )
                } else if tag == 2 {
                    codec::mapped(
                        codec::read_text(rest),
                        |message: Seq<char>| PutResponseView::PaymentRequired { message },
                    )
                } else if tag == 3 {
                    codec::mapped(
                        read_error(rest),
                        |e: ErrorView| PutResponseView::Error(e),
                    )
                } else {
                    Err(codec::DecodeFault::OutOfRange)
                }
            },
    )
}

/// Reading back a `ChunkPutResponse` gives its contents.
pub proof fn put_response_round_trip(m: PutResponseView, rest: Seq<u8>)
    requires
        m.valid(),
    ensures
        read_put_response(m.encoding() + rest) == Ok::<_, codec::DecodeFault>((m, rest)),
{
    let data = m.encoding() + rest;
    match m {
        PutResponseView::Success { address } => {
            let t0 = address + rest;
            assert(data =~= codec::varint(0) + t0);
            codec::number_round_trip(0, t0);
            lemma_address(address, rest);
        },
        PutResponseView::AlreadyExists { address } => {
            let t0 = address + rest;
            assert(data =~= codec::varint(1) + t0);
            codec::number_round_trip(1, t0);
            lemma_address(address, rest);
        },
        PutResponseView::PaymentRequired { message } => {
            let t0 = codec::text_encoding(message) + rest;
            assert(data =~= codec::varint(2) + t0);
            codec::number_round_trip(2, t0);
            codec::text_round_trip(message, rest);
        },
        PutResponseView::Error(e) => {
            let t0 = e.encoding() + rest;
            assert(data =~= codec::varint(3) + t0);
            codec::number_round_trip(3, t0);
            error_round_trip(e, rest);
        },
    }
}

impl ChunkPutResponse {
    /// Appends the wire form.
    fn put(&self, out: &mut Vec<u8>) -> (r: Result<(), String>)
        ensures
            r is Ok,
            final(out)@ == old(out)@ + self@.encoding(),
            self@.valid(),
    {
        match self {
            ChunkPutResponse::Success { address } => {
                put_tag(out, 0)?;
                wire::append(out, address);
            },
            ChunkPutResponse::AlreadyExists { address } => {
                put_tag(out, 1)?;
                wire::append(out, address);
            },
            ChunkPutResponse::PaymentRequired { message } => {
                put_tag(out, 2)?;
                codec::put_text(out, message)?;
            },
            ChunkPutResponse::Error(e) => {
                put_tag(out, 3)?;
                e.put(out)?;
            },
        }
        assert(out@ =~= old(out)@ + self@.encoding());
        Ok(())
    }

    /// Takes a value from the front of `data`.
    fn take(data: &[u8]) -> (r: Result<(ChunkPutResponse, &[u8]), String>)
        ensures
            codec::agrees(r, read_put_response(data@)),
    {
        let (tag, rest) = codec::take_u32(data)?;
        if tag == 0 {
            let (address, rest) = codec::take_address(rest)?;
            Ok((ChunkPutResponse::Success { address }, rest))
        } else if tag == 1 {
            let (address, rest) = codec::take_address(rest)?;
            Ok((ChunkPutResponse::AlreadyExists { address }, rest))
        } else if tag == 2 {
            let (message, rest) = codec::take_text(rest)?;
            Ok((ChunkPutResponse::PaymentRequired { message }, rest))
        } else if tag == 3 {
            let (e, rest) = ProtocolError::take(rest)?;
            Ok((ChunkPutResponse::Error(e), rest))
        } else {
            Err(codec::describe(codec::DecodeFault::OutOfRange))
        }
    }
}

/// A request to retrieve a chunk.
#[derive(Debug, Clone)]
pub struct ChunkGetRequest {
    pub address: XorName,
}

/// The contents of a `ChunkGetRequest`.
#[verifier::ext_equal]
pub struct GetRequestView {
    pub address: Seq<u8>,
}

impl View for ChunkGetRequest {
    type V = GetRequestView;

    open spec fn view(&self) -> GetRequestView {
        GetRequestView {
            address: self.address@,
        }
    }
}

impl GetRequestView {
    /// Whether these are the contents of some `ChunkGetRequest`.
    pub open spec fn valid(self) -> bool {
        let GetRequestView { address } = self;
        address.len() == 32
    }

    /// The wire form.
    pub open spec fn encoding(self) -> Seq<u8> {
        let GetRequestView { address } = self;
        address
    }
}

/// Reads a `ChunkGetRequest`.
pub open spec fn read_get_request(data: Seq<u8>) -> Reading<GetRequestView> {
    codec::mapped(
        codec::read_address(data),
        |address: Seq<u8>| GetRequestView { address },
    )
}

/// Reading back a `ChunkGetRequest` gives its contents.
pub proof fn get_request_round_trip(m: GetRequestView, rest: Seq<u8>)
    requires
        m.valid(),
    ensures
        read_get_request(m.encoding() + rest) == Ok::<_, codec::DecodeFault>((m, rest)),
{
    let data = m.encoding() + rest;
    let GetRequestView { address } = m;
    assert(data =~= address + rest);
    lemma_address(address, rest);
}

impl ChunkGetRequest {
    /// A request for the chunk at `address`.
    #[must_use]
    pub fn new(address: XorName) -> (r: Self)
        ensures
            r == (ChunkGetRequest { address }),
    {
        ChunkGetRequest { address }
    }

    /// Appends the wire form.
    fn put(&self, out: &mut Vec<u8>) -> (r: Result<(), String>)
        ensures
            r is Ok,
            final(out)@ == old(out)@ + self@.encoding(),
            self@.valid(),
    {
        wire::append(out, &self.address);
        assert(out@ =~= old(out)@ + self@.encoding());
        Ok(())
    }

    /// Takes a value from the front of `data`.
    fn take(data: &[u8]) -> (r: Result<(ChunkGetRequest, &[u8]), String>)
        ensures
            codec::agrees(r, read_get_request(data@)),
    {
        let (address, rest) = codec::take_address(data)?;
        Ok((ChunkGetRequest { address }, rest))
    }
}

/// The response to a request to retrieve a chunk.
#[derive(Debug, Clone)]
pub enum ChunkGetResponse {
    Success { address: XorName, content: Vec<u8> },
    NotFound { address: XorName },
    Error(ProtocolError),
}

/// The contents of a `ChunkGetResponse`.
#[verifier::ext_equal]
pub enum GetResponseView {
    Success { address: Seq<u8>, content: Seq<u8> },
    NotFound { address: Seq<u8> },
    Error(ErrorView),
}

impl View for ChunkGetResponse {
    type V = GetResponseView;

    open spec fn view(&self) -> GetResponseView {
        match self {
            ChunkGetResponse::Success { address, content } => GetResponseView::Success {
                address: address@,
                content: content@,
            },
            ChunkGetResponse::NotFound { address } => GetResponseView::NotFound {
                address: address@,
            },
            ChunkGetResponse::Error(e) => GetResponseView::Error(e@),
        }
    }
}

impl GetResponseView {
    /// Whether these are the contents of some `ChunkGetResponse`.
    pub open spec fn valid(self) -> bool {
        match self {
            GetResponseView::Success { address, content } =>
                address.len() == 32 && content.len() <= usize::MAX,
            GetResponseView::NotFound { address } => address.len() == 32,
            GetResponseView::Error(e) => e.valid(),
        }
    }

    /// The wire form.
    pub open spec fn encoding(self) -> Seq<u8> {
        match self {
            GetResponseView::Success { address, content } =>
                codec::varint(0) + address + codec::sized(content),
            GetResponseView::NotFound { address } => codec::varint(1) + address,
            GetResponseView::Error(e) => codec::varint(2) + e.encoding(),
        }
    }
}

/// Reads a `ChunkGetResponse`.
pub open spec fn read_get_response(data: Seq<u8>) -> Reading<GetResponseView> {
    codec::chained(
        codec::read_u32(data),
        |tag: nat, rest: Seq<u8>|
            {
                if tag == 0 {
                    codec::chained(
                        codec::read_address(rest),
                        |address: Seq<u8>, rest: Seq<u8>|
                            codec::mapped(
                                codec::read_bytes(rest),
                                |content: Seq<u8>| GetResponseView::Success { address, content },
                            ),
                    )
                } else if tag == 1 {
                    codec::mapped(
                        codec::read_address(rest),
                        |address: Seq<u8>| GetResponseView::NotFound { address },
                    )
                } else if tag == 2 {
                    codec::mapped(
                        read_error(rest),
                        |e: ErrorView| GetResponseView::Error(e),
                    )
                } else {
                    Err(codec::DecodeFault::OutOfRange)
                }
            },
    )
}

/// Reading back a `ChunkGetResponse` gives its contents.
pub proof fn get_response_round_trip(m: GetResponseView, rest: Seq<u8>)
    requires
        m.valid(),
    ensures
        read_get_response(m.encoding() + rest) == Ok::<_, codec::DecodeFault>((m, rest)),
{
    let data = m.encoding() + rest;
    match m {
        GetResponseView::Success { address, content } => {
            let t1 = codec::sized(content) + rest;
            let t0 = address + t1;
            assert(data =~= codec::varint(0) + t0);
            codec::number_round_trip(0, t0);
            codec::bytes_round_trip(content, rest);
            lemma_address(address, t1);
        },
        GetResponseView::NotFound { address } => {
            let t0 = address + rest;
            assert(data =~= codec::varint(1) + t0);
            codec::number_round_trip(1, t0);
            lemma_address(address, rest);
        },
        GetResponseView::Error(e) => {
            let t0 = e.encoding() + rest;
            assert(data =~= codec::varint(2) + t0);
            codec::number_round_trip(2, t0);
            error_round_trip(e, rest);
        },
    }
}

impl ChunkGetResponse {
    /// Appends the wire form.
    fn put(&self, out: &mut Vec<u8>) -> (r: Result<(), String>)
        ensures
            r is Ok,
            final(out)@ == old(out)@ + self@.encoding(),
            self@.valid(),
    {
        match self {
            ChunkGetResponse::Success { address, content } => {
                put_tag(out, 0)?;
                wire::append(out, address);
                codec::put_bytes(out, content.as_slice())?;
            },
            ChunkGetResponse::NotFound { address } => {
                put_tag(out, 1)?;
                wire::append(out, address);
            },
            ChunkGetResponse::Error(e) => {
                put_tag(out, 2)?;
                e.put(out)?;
            },
        }
        assert(out@ =~= old(out)@ + self@.encoding());
        Ok(())
    }

    /// Takes a value from the front of `data`.
    fn take(data: &[u8]) -> (r: Result<(ChunkGetResponse, &[u8]), String>)
        ensures
            codec::agrees(r, read_get_response(data@)),
    {
        let (tag, rest) = codec::take_u32(data)?;
        if tag == 0 {
            let (address, rest) = codec::take_address(rest)?;
            let (content, rest) = codec::take_bytes(rest)?;
            Ok((ChunkGetResponse::Success { address, content }, rest))
        } else if tag == 1 {
            let (address, rest) = codec::take_address(rest)?;
            Ok((ChunkGetResponse::NotFound { address }, rest))
        } else if tag == 2 {
            let (e, rest) = ProtocolError::take(rest)?;
            Ok((ChunkGetResponse::Error(e), rest))
        } else {
            Err(codec::describe(codec::DecodeFault::OutOfRange))
        }
    }
}

/// A request for a storage quote.
#[derive(Debug, Clone)]
pub struct ChunkQuoteRequest {
    pub address: XorName,
    pub data_size: u64,
    pub data_type: u32,
}

/// The contents of a `ChunkQuoteRequest`.
#[verifier::ext_equal]
pub struct QuoteRequestView {
    pub address: Seq<u8>,
    pub data_size: u64,
    pub data_type: u32,
}

impl View for ChunkQuoteRequest {
    type V = QuoteRequestView;

    open spec fn view(&self) -> QuoteRequestView {
        QuoteRequestView {
            address: self.address@,
            data_size: self.data_size,
            data_type: self.data_type,
        }
    }
}

impl QuoteRequestView {
    /// Whether these are the contents of some `ChunkQuoteRequest`.
    pub open spec fn valid(self) -> bool {
        let QuoteRequestView { address, data_size, data_type } = self;
        address.len() == 32
    }

    /// The wire form.
    pub open spec fn encoding(self) -> Seq<u8> {
        let QuoteRequestView { address, data_size, data_type } = self;
        address + codec::varint(data_size as nat) + codec::varint(data_type as nat)
    }
}

/// Reads a `ChunkQuoteRequest`.
pub open spec fn read_quote_request(data: Seq<u8>) -> Reading<QuoteRequestView> {
    codec::chained(
        codec::read_address(data),
        |address: Seq<u8>, rest: Seq<u8>|
            codec::chained(
                read_long(rest),
                |data_size: u64, rest: Seq<u8>|
                    codec::mapped(
                        read_word(rest),
                        |data_type: u32| QuoteRequestView { address, data_size, data_type },
                    ),
            ),
    )
}

/// Reading back a `ChunkQuoteRequest` gives its contents.
pub proof fn quote_request_round_trip(m: QuoteRequestView, rest: Seq<u8>)
    requires
        m.valid(),
    ensures
        read_quote_request(m.encoding() + rest) == Ok::<_, codec::DecodeFault>((m, rest)),
{
    let data = m.encoding() + rest;
    let QuoteRequestView { address, data_size, data_type } = m;
    let t2 = codec::varint(data_type as nat) + rest;
    let t1 = codec::varint(data_size as nat) + t2;
    assert(data =~= address + t1);
    codec::number_round_trip(data_type as nat, rest);
    codec::number_round_trip(data_size as nat, t2);
    lemma_address(address, t1);
}

impl ChunkQuoteRequest {
    /// A request to quote the storage of a chunk.
    #[must_use]
    pub fn new(address: XorName, data_size: u64) -> (r: Self)
        ensures
            r == (ChunkQuoteRequest { address, data_size, data_type: DATA_TYPE_CHUNK }),
    {
        ChunkQuoteRequest { address, data_size, data_type: DATA_TYPE_CHUNK }
    }

    /// Appends the wire form.
    fn put(&self, out: &mut Vec<u8>) -> (r: Result<(), String>)
        ensures
            r is Ok,
            final(out)@ == old(out)@ + self@.encoding(),
            self@.valid(),
    {
        wire::append(out, &self.address);
        codec::put_u64(out, self.data_size)?;
        codec::put_u64(out, self.data_type as u64)?;
        assert(out@ =~= old(out)@ + self@.encoding());
        Ok(())
    }

    /// Takes a value from the front of `data`.
    fn take(data: &[u8]) -> (r: Result<(ChunkQuoteRequest, &[u8]), String>)
        ensures
            codec::agrees(r, read_quote_request(data@)),
    {
        let (address, rest) = codec::take_address(data)?;
        let (data_size, rest) = codec::take_u64(rest)?;
        let (data_type, rest) = codec::take_u32(rest)?;
        Ok((ChunkQuoteRequest { address, data_size, data_type }, rest))
    }
}

/// The response to a request for a storage quote.
#[derive(Debug, Clone)]
pub enum ChunkQuoteResponse {
    Success { quote: Vec<u8>, already_stored: bool },
    Error(ProtocolError),
}

/// The contents of a `ChunkQuoteResponse`.
#[verifier::ext_equal]
pub enum QuoteResponseView {
    Success { quote: Seq<u8>, already_stored: bool },
    Error(ErrorView),
}

impl View for ChunkQuoteResponse {
    type V = QuoteResponseView;

    open spec fn view(&self) -> QuoteResponseView {
        match self {
            ChunkQuoteResponse::Success { quote, already_stored } => QuoteResponseView::Success {
                quote: quote@,
                already_stored: *already_stored,
            },
            ChunkQuoteResponse::Error(e) => QuoteResponseView::Error(e@),
        }
    }
}

impl QuoteResponseView {
    /// Whether these are the contents of some `ChunkQuoteResponse`.
    pub open spec fn valid(self) -> bool {
        match self {
            QuoteResponseView::Success { quote, already_stored } => quote.len() <= usize::MAX,
            QuoteResponseView::Error(e) => e.valid(),
        }
    }

    /// The wire form.
    pub open spec fn encoding(self) -> Seq<u8> {
        match self {
            QuoteResponseView::Success { quote, already_stored } =>
                codec::varint(0) + codec::sized(quote) + codec::flag(already_stored),
            QuoteResponseView::Error(e) => codec::varint(1) + e.encoding(),
        }
    }
}

/// Reads a `ChunkQuoteResponse`.
pub open spec fn read_quote_response(data: Seq<u8>) -> Reading<QuoteResponseView> {
    codec::chained(
        codec::read_u32(data),
        |tag: nat, rest: Seq<u8>|
            {
                if tag == 0 {
                    codec::chained(
                        codec::read_bytes(rest),
                        |quote: Seq<u8>, rest: Seq<u8>|
                            codec::mapped(
                                codec::read_flag(rest),
                                |already_stored: bool|
                                    QuoteResponseView::Success { quote, already_stored },
                            ),
                    )
                } else if tag == 1 {
                    codec::mapped(
                        read_error(rest),
                        |e: ErrorView| QuoteResponseView::Error(e),
                    )
                } else {
                    Err(codec::DecodeFault::OutOfRange)
                }
            },
    )
}

/// Reading back a `ChunkQuoteResponse` gives its contents.
pub proof fn quote_response_round_trip(m: QuoteResponseView, rest: Seq<u8>)
    requires
        m.valid(),
    ensures
        read_quote_response(m.encoding() + rest) == Ok::<_, codec::DecodeFault>((m, rest)),
{
    let data = m.encoding() + rest;
    match m {
        QuoteResponseView::Success { quote, already_stored } => {
            let t1 = codec::flag(already_stored) + rest;
            let t0 = codec::sized(quote) + t1;
            assert(data =~= codec::varint(0) + t0);
            codec::number_round_trip(0, t0);
            lemma_flag(already_stored, rest);
            codec::bytes_round_trip(quote, t1);
        },
        QuoteResponseView::Error(e) => {
            let t0 = e.encoding() + rest;
            assert(data =~= codec::varint(1) + t0);
            codec::number_round_trip(1, t0);
            error_round_trip(e, rest);
        },
    }
}

impl ChunkQuoteResponse {
    /// Appends the wire form.
    fn put(&self, out: &mut Vec<u8>) -> (r: Result<(), String>)
        ensures
            r is Ok,
            final(out)@ == old(out)@ + self@.encoding(),
            self@.valid(),
    {
        match self {
            ChunkQuoteResponse::Success { quote, already_stored } => {
                put_tag(out, 0)?;
                codec::put_bytes(out, quote.as_slice())?;
                codec::put_flag(out, *already_stored);
            },
            ChunkQuoteResponse::Error(e) => {
                put_tag(out, 1)?;
                e.put(out)?;
            },
        }
        assert(out@ =~= old(out)@ + self@.encoding());
        Ok(())
    }

    /// Takes a value from the front of `data`.
    fn take(data: &[u8]) -> (r: Result<(ChunkQuoteResponse, &[u8]), String>)
        ensures
            codec::agrees(r, read_quote_response(data@)),
    {
        let (tag, rest) = codec::take_u32(data)?;
        if tag == 0 {
            let (quote, rest) = codec::take_bytes(rest)?;
            let (already_stored, rest) = codec::take_flag(rest)?;
            Ok((ChunkQuoteResponse::Success { quote, already_stored }, rest))
        } else if tag == 1 {
            let (e, rest) = ProtocolError::take(rest)?;
            Ok((ChunkQuoteResponse::Error(e), rest))
        } else {
            Err(codec::describe(codec::DecodeFault::OutOfRange))
        }
    }
}

/// A request for a merkle candidate quote.
#[derive(Debug, Clone)]
pub struct MerkleCandidateQuoteRequest {
    pub address: XorName,
    pub data_type: u32,
    pub data_size: u64,
    pub merkle_payment_timestamp: u64,
}

/// The contents of a `MerkleCandidateQuoteRequest`.
#[verifier::ext_equal]
pub struct MerkleQuoteRequestView {
    pub address: Seq<u8>,
    pub data_type: u32,
    pub data_size: u64,
    pub merkle_payment_timestamp: u64,
}

impl View for MerkleCandidateQuoteRequest {
    type V = MerkleQuoteRequestView;

    open spec fn view(&self) -> MerkleQuoteRequestView {
        MerkleQuoteRequestView {
            address: self.address@,
            data_type: self.data_type,
            data_size: self.data_size,
            merkle_payment_timestamp: self.merkle_payment_timestamp,
        }
    }
}

impl MerkleQuoteRequestView {
    /// Whether these are the contents of some `MerkleCandidateQuoteRequest`.
    pub open spec fn valid(self) -> bool {
        let MerkleQuoteRequestView {
            address,
            data_type,
            data_size,
            merkle_payment_timestamp,
        } = self;
        address.len() == 32
    }

    /// The wire form.
    pub open spec fn encoding(self) -> Seq<u8> {
        let MerkleQuoteRequestView {
            address,
            data_type,
            data_size,
            merkle_payment_timestamp,
        } = self;
        address + codec::varint(data_type as nat) + codec::varint(data_size as nat)
            + codec::varint(merkle_payment_timestamp as nat)
    }
}

/// Reads a `MerkleCandidateQuoteRequest`.
pub open spec fn read_merkle_quote_request(data: Seq<u8>) -> Reading<MerkleQuoteRequestView> {
    codec::chained(
        codec::read_address(data),
        |address: Seq<u8>, rest: Seq<u8>|
            codec::chained(
                read_word(rest),
                |data_type: u32, rest: Seq<u8>|
                    codec::chained(
                        read_long(rest),
                        |data_size: u64, rest: Seq<u8>|
                            codec::mapped(
                                read_long(rest),
                                |merkle_payment_timestamp: u64|
                                    MerkleQuoteRequestView {
                                        address,
                                        data_type,
                                        data_size,
                                        merkle_payment_timestamp,
                                    },
                            ),
                    ),
            ),
    )
}

/// Reading back a `MerkleCandidateQuoteRequest` gives its contents.
pub proof fn merkle_quote_request_round_trip(m: MerkleQuoteRequestView, rest: Seq<u8>)
    requires
        m.valid(),
    ensures
        read_merkle_quote_request(m.encoding() + rest) == Ok::<_, codec::DecodeFault>((m, rest)),
{
    let data = m.encoding() + rest;
    let MerkleQuoteRequestView { address, data_type, data_size, merkle_payment_timestamp } = m;
    let t3 = codec::varint(merkle_payment_timestamp as nat) + rest;
    let t2 = codec::varint(data_size as nat) + t3;
    let t1 = codec::varint(data_type as nat) + t2;
    assert(data =~= address + t1);
    codec::number_round_trip(merkle_payment_timestamp as nat, rest);
    codec::number_round_trip(data_size as nat, t3);
    codec::number_round_trip(data_type as nat, t2);
    lemma_address(address, t1);
}

impl MerkleCandidateQuoteRequest {
    /// Appends the wire form.
    fn put(&self, out: &mut Vec<u8>) -> (r: Result<(), String>)
        ensures
            r is Ok,
            final(out)@ == old(out)@ + self@.encoding(),
            self@.valid(),
    {
        wire::append(out, &self.address);
        codec::put_u64(out, self.data_type as u64)?;
        codec::put_u64(out, self.data_size)?;
        codec::put_u64(out, self.merkle_payment_timestamp)?;
        assert(out@ =~= old(out)@ + self@.encoding());
        Ok(())
    }

    /// Takes a value from the front of `data`.
    fn take(data: &[u8]) -> (r: Result<(MerkleCandidateQuoteRequest, &[u8]), String>)
        ensures
            codec::agrees(r, read_merkle_quote_request(data@)),
    {
        let (address, rest) = codec::take_address(data)?;
        let (data_type, rest) = codec::take_u32(rest)?;
        let (data_size, rest) = codec::take_u64(rest)?;
        let (merkle_payment_timestamp, rest) = codec::take_u64(rest)?;
        let request = MerkleCandidateQuoteRequest {
            address,
            data_type,
            data_size,
            merkle_payment_timestamp,
        };
        Ok((request, rest))
    }
}

/// The response to a request for a merkle candidate quote.
#[derive(Debug, Clone)]
pub enum MerkleCandidateQuoteResponse {
    Success { candidate_node: Vec<u8> },
    Error(ProtocolError),
}

/// The contents of a `MerkleCandidateQuoteResponse`.
#[verifier::ext_equal]
pub enum MerkleQuoteResponseView {
    Success { candidate_node: Seq<u8> },
    Error(ErrorView),
}

impl View for MerkleCandidateQuoteResponse {
    type V = MerkleQuoteResponseView;

    open spec fn view(&self) -> MerkleQuoteResponseView {
        match self {
            MerkleCandidateQuoteResponse::Success { candidate_node } =>
                MerkleQuoteResponseView::Success { candidate_node: candidate_node@ },
            MerkleCandidateQuoteResponse::Error(e) => MerkleQuoteResponseView::Error(e@),
        }
    }
}

impl MerkleQuoteResponseView {
    /// Whether these are the contents of some `MerkleCandidateQuoteResponse`.
    pub open spec fn valid(self) -> bool {
        match self {
            MerkleQuoteResponseView::Success { candidate_node } =>
                candidate_node.len() <= usize::MAX,
            MerkleQuoteResponseView::Error(e) => e.valid(),
        }
    }

    /// The wire form.
    pub open spec fn encoding(self) -> Seq<u8> {
        match self {
            MerkleQuoteResponseView::Success { candidate_node } =>
                codec::varint(0) + codec::sized(candidate_node),
            MerkleQuoteResponseView::Error(e) => codec::varint(1) + e.encoding(),
        }
    }
}

/// Reads a `MerkleCandidateQuoteResponse`.
pub open spec fn read_merkle_quote_response(data: Seq<u8>) -> Reading<MerkleQuoteResponseView> {
    codec::chained(
        codec::read_u32(data),
        |tag: nat, rest: Seq<u8>|
            {
                if tag == 0 {
                    codec::mapped(
                        codec::read_bytes(rest),
                        |candidate_node: Seq<u8>|
                            MerkleQuoteResponseView::Success { candidate_node },
                    )
                } else if tag == 1 {
                    codec::mapped(
                        read_error(rest),
                        |e: ErrorView| MerkleQuoteResponseView::Error(e),
                    )
                } else {
                    Err(codec::DecodeFault::OutOfRange)
                }
            },
    )
}

/// Reading back a `MerkleCandidateQuoteResponse` gives its contents.
pub proof fn merkle_quote_response_round_trip(m: MerkleQuoteResponseView, rest: Seq<u8>)
    requires
        m.valid(),
    ensures
        read_merkle_quote_response(m.encoding() + rest) == Ok::<_, codec::DecodeFault>((m, rest)),
{
    let data = m.encoding() + rest;
    match m {
        MerkleQuoteResponseView::Success { candidate_node } => {
            let t0 = codec::sized(candidate_node) + rest;
            assert(data =~= codec::varint(0) + t0);
            codec::number_round_trip(0, t0);
            codec::bytes_round_trip(candidate_node, rest);
        },
        MerkleQuoteResponseView::Error(e) => {
            let t0 = e.encoding() + rest;
            assert(data =~= codec::varint(1) + t0);
            codec::number_round_trip(1, t0);
            error_round_trip(e, rest);
        },
    }
}

impl MerkleCandidateQuoteResponse {
    /// Appends the wire form.
    fn put(&self, out: &mut Vec<u8>) -> (r: Result<(), String>)
        ensures
            r is Ok,
            final(out)@ == old(out)@ + self@.encoding(),
            self@.valid(),
    {
        match self {
            MerkleCandidateQuoteResponse::Success { candidate_node } => {
                put_tag(out, 0)?;
                codec::put_bytes(out, candidate_node.as_slice())?;
            },
            MerkleCandidateQuoteResponse::Error(e) => {
                put_tag(out, 1)?;
                e.put(out)?;
            },
        }
        assert(out@ =~= old(out)@ + self@.encoding());
        Ok(())
    }

    /// Takes a value from the front of `data`.
    fn take(data: &[u8]) -> (r: Result<(MerkleCandidateQuoteResponse, &[u8]), String>)
        ensures
            codec::agrees(r, read_merkle_quote_response(data@)),
    {
        let (tag, rest) = codec::take_u32(data)?;
        if tag == 0 {
            let (candidate_node, rest) = codec::take_bytes(rest)?;
            Ok((MerkleCandidateQuoteResponse::Success { candidate_node }, rest))
        } else if tag == 1 {
            let (e, rest) = ProtocolError::take(rest)?;
            Ok((MerkleCandidateQuoteResponse::Error(e), rest))
        } else {
            Err(codec::describe(codec::DecodeFault::OutOfRange))
        }
    }
}

// ---------------------------------------------------------------------------
// Messages
// ---------------------------------------------------------------------------

/// All messages of the chunk protocol. The order of the variants is their number on
/// the wire.
#[derive(Debug, Clone)]
pub enum ChunkMessageBody {
    /// Request to store a chunk.
    PutRequest(ChunkPutRequest),
    /// Response to a PUT request.
    PutResponse(ChunkPutResponse),
    /// Request to retrieve a chunk.
    GetRequest(ChunkGetRequest),
    /// Response to a GET request.
    GetResponse(ChunkGetResponse),
    /// Request a storage quote.
    QuoteRequest(ChunkQuoteRequest),
    /// Response with a storage quote.
    QuoteResponse(ChunkQuoteResponse),
    /// Request a merkle candidate quote for batch payments.
    MerkleCandidateQuoteRequest(MerkleCandidateQuoteRequest),
    /// Response with a merkle candidate quote.
    MerkleCandidateQuoteResponse(MerkleCandidateQuoteResponse),
}

/// The contents of a `ChunkMessageBody`.
#[verifier::ext_equal]
pub enum MessageBodyView {
    PutRequest(PutRequestView),
    PutResponse(PutResponseView),
    GetRequest(GetRequestView),
    GetResponse(GetResponseView),
    QuoteRequest(QuoteRequestView),
    QuoteResponse(QuoteResponseView),
    MerkleCandidateQuoteRequest(MerkleQuoteRequestView),
    MerkleCandidateQuoteResponse(MerkleQuoteResponseView),
}

impl View for ChunkMessageBody {
    type V = MessageBodyView;

    open spec fn view(&self) -> MessageBodyView {
        match self {
            ChunkMessageBody::PutRequest(m) => MessageBodyView::PutRequest(m@),
            ChunkMessageBody::PutResponse(m) => MessageBodyView::PutResponse(m@),
            ChunkMessageBody::GetRequest(m) => MessageBodyView::GetRequest(m@),
            ChunkMessageBody::GetResponse(m) => MessageBodyView::GetResponse(m@),
            ChunkMessageBody::QuoteRequest(m) => MessageBodyView::QuoteRequest(m@),
            ChunkMessageBody::QuoteResponse(m) => MessageBodyView::QuoteResponse(m@),
            ChunkMessageBody::MerkleCandidateQuoteRequest(m) =>
                MessageBodyView::MerkleCandidateQuoteRequest(m@),
            ChunkMessageBody::MerkleCandidateQuoteResponse(m) =>
                MessageBodyView::MerkleCandidateQuoteResponse(m@),
        }
    }
}

impl MessageBodyView {
    /// Whether these are the contents of some `ChunkMessageBody`.
    pub open spec fn valid(self) -> bool {
        match self {
            MessageBodyView::PutRequest(m) => m.valid(),
            MessageBodyView::PutResponse(m) => m.valid(),
            MessageBodyView::GetRequest(m) => m.valid(),
            MessageBodyView::GetResponse(m) => m.valid(),
            MessageBodyView::QuoteRequest(m) => m.valid(),
            MessageBodyView::QuoteResponse(m) => m.valid(),
            MessageBodyView::MerkleCandidateQuoteRequest(m) => m.valid(),
            MessageBodyView::MerkleCandidateQuoteResponse(m) => m.valid(),
        }
    }

    /// The wire form.
    pub open spec fn encoding(self) -> Seq<u8> {
        match self {
            MessageBodyView::PutRequest(m) => codec::varint(0) + m.encoding(),
            MessageBodyView::PutResponse(m) => codec::varint(1) + m.encoding(),
            MessageBodyView::GetRequest(m) => codec::varint(2) + m.encoding(),
            MessageBodyView::GetResponse(m) => codec::varint(3) + m.encoding(),
            MessageBodyView::QuoteRequest(m) => codec::varint(4) + m.encoding(),
            MessageBodyView::QuoteResponse(m) => codec::varint(5) + m.encoding(),
            MessageBodyView::MerkleCandidateQuoteRequest(m) => codec::varint(6) + m.encoding(),
            MessageBodyView::MerkleCandidateQuoteResponse(m) => codec::varint(7) + m.encoding(),
        }
    }
}

/// Reads a `ChunkMessageBody`.
pub open spec fn read_message_body(data: Seq<u8>) -> Reading<MessageBodyView> {
    codec::chained(
        codec::read_u32(data),
        |tag: nat, rest: Seq<u8>|
            {
                if tag == 0 {
                    codec::mapped(
                        read_put_request(rest),
                        |m: PutRequestView| MessageBodyView::PutRequest(m),
                    )
                } else if tag == 1 {
                    codec::mapped(
                        read_put_response(rest),
                        |m: PutResponseView| MessageBodyView::PutResponse(m),
                    )
                } else if tag == 2 {
                    codec::mapped(
                        read_get_request(rest),
                        |m: GetRequestView| MessageBodyView::GetRequest(m),
                    )
                } else if tag == 3 {
                    codec::mapped(
                        read_get_response(rest),
                        |m: GetResponseView| MessageBodyView::GetResponse(m),
                    )
                } else if tag == 4 {
                    codec::mapped(
                        read_quote_request(rest),
                        |m: QuoteRequestView| MessageBodyView::QuoteRequest(m),
                    )
                } else if tag == 5 {
                    codec::mapped(
                        read_quote_response(rest),
                        |m: QuoteResponseView| MessageBodyView::QuoteResponse(m),
                    )
                } else if tag == 6 {
                    codec::mapped(
                        read_merkle_quote_request(rest),
                        |m: MerkleQuoteRequestView| MessageBodyView::MerkleCandidateQuoteRequest(m),
                    )
                } else if tag == 7 {
                    codec::mapped(
                        read_merkle_quote_response(rest),
                        |m: MerkleQuoteResponseView|
                            MessageBodyView::MerkleCandidateQuoteResponse(m),
                    )
                } else {
                    Err(codec::DecodeFault::OutOfRange)
                }
            },
    )
}

/// Reading back a `ChunkMessageBody` gives its contents.
#[verifier::rlimit(60)]
pub proof fn message_body_round_trip(body: MessageBodyView, rest: Seq<u8>)
    requires
        body.valid(),
    ensures
        read_message_body(body.encoding() + rest) == Ok::<_, codec::DecodeFault>((body, rest)),
{
    let data = body.encoding() + rest;
    match body {
        MessageBodyView::PutRequest(m) => {
            let t0 = m.encoding() + rest;
            assert(data =~= codec::varint(0) + t0);
            codec::number_round_trip(0, t0);
            put_request_round_trip(m, rest);
        },
        MessageBodyView::PutResponse(m) => {
            let t0 = m.encoding() + rest;
            assert(data =~= codec::varint(1) + t0);
            codec::number_round_trip(1, t0);
            put_response_round_trip(m, rest);
        },
        MessageBodyView::GetRequest(m) => {
            let t0 = m.encoding() + rest;
            assert(data =~= codec::varint(2) + t0);
            codec::number_round_trip(2, t0);
            get_request_round_trip(m, rest);
        },
        MessageBodyView::GetResponse(m) => {
            let t0 = m.encoding() + rest;
            assert(data =~= codec::varint(3) + t0);
            codec::number_round_trip(3, t0);
            get_response_round_trip(m, rest);
        },
        MessageBodyView::QuoteRequest(m) => {
            let t0 = m.encoding() + rest;
            assert(data =~= codec::varint(4) + t0);
            codec::number_round_trip(4, t0);
            quote_request_round_trip(m, rest);
        },
        MessageBodyView::QuoteResponse(m) => {
            let t0 = m.encoding() + rest;
            assert(data =~= codec::varint(5) + t0);
            codec::number_round_trip(5, t0);
            quote_response_round_trip(m, rest);
        },
        MessageBodyView::MerkleCandidateQuoteRequest(m) => {
            let t0 = m.encoding() + rest;
            assert(data =~= codec::varint(6) + t0);
            codec::number_round_trip(6, t0);
            merkle_quote_request_round_trip(m, rest);
        },
        MessageBodyView::MerkleCandidateQuoteResponse(m) => {
            let t0 = m.encoding() + rest;
            assert(data =~= codec::varint(7) + t0);
            codec::number_round_trip(7, t0);
            merkle_quote_response_round_trip(m, rest);
        },
    }
}

impl ChunkMessageBody {
    /// Appends the wire form.
    fn put(&self, out: &mut Vec<u8>) -> (r: Result<(), String>)
        ensures
            r is Ok,
            final(out)@ == old(out)@ + self@.encoding(),
            self@.valid(),
    {
        match self {
            ChunkMessageBody::PutRequest(m) => {
                put_tag(out, 0)?;
                m.put(out)?;
            },
            ChunkMessageBody::PutResponse(m) => {
                put_tag(out, 1)?;
                m.put(out)?;
            },
            ChunkMessageBody::GetRequest(m) => {
                put_tag(out, 2)?;
                m.put(out)?;
            },
            ChunkMessageBody::GetResponse(m) => {
                put_tag(out, 3)?;
                m.put(out)?;
            },
            ChunkMessageBody::QuoteRequest(m) => {
                put_tag(out, 4)?;
                m.put(out)?;
            },
            ChunkMessageBody::QuoteResponse(m) => {
                put_tag(out, 5)?;
                m.put(out)?;
            },
            ChunkMessageBody::MerkleCandidateQuoteRequest(m) => {
                put_tag(out, 6)?;
                m.put(out)?;
            },
            ChunkMessageBody::MerkleCandidateQuoteResponse(m) => {
                put_tag(out, 7)?;
                m.put(out)?;
            },
        }
        assert(out@ =~= old(out)@ + self@.encoding());
        Ok(())
    }

    /// Takes a value from the front of `data`.
    fn take(data: &[u8]) -> (r: Result<(ChunkMessageBody, &[u8]), String>)
        ensures
            codec::agrees(r, read_message_body(data@)),
    {
        let (tag, rest) = codec::take_u32(data)?;
        if tag == 0 {
            let (m, rest) = ChunkPutRequest::take(rest)?;
            Ok((ChunkMessageBody::PutRequest(m), rest))
        } else if tag == 1 {
            let (m, rest) = ChunkPutResponse::take(rest)?;
            Ok((ChunkMessageBody::PutResponse(m), rest))
        } else if tag == 2 {
            let (m, rest) = ChunkGetRequest::take(rest)?;
            Ok((ChunkMessageBody::GetRequest(m), rest))
        } else if tag == 3 {
            let (m, rest) = ChunkGetResponse::take(rest)?;
            Ok((ChunkMessageBody::GetResponse(m), rest))
        } else if tag == 4 {
            let (m, rest) = ChunkQuoteRequest::take(rest)?;
            Ok((ChunkMessageBody::QuoteRequest(m), rest))
        } else if tag == 5 {
            let (m, rest) = ChunkQuoteResponse::take(rest)?;
            Ok((ChunkMessageBody::QuoteResponse(m), rest))
        } else if tag == 6 {
            let (m, rest) = MerkleCandidateQuoteRequest::take(rest)?;
            Ok((ChunkMessageBody::MerkleCandidateQuoteRequest(m), rest))
        } else if tag == 7 {
            let (m, rest) = MerkleCandidateQuoteResponse::take(rest)?;
            Ok((ChunkMessageBody::MerkleCandidateQuoteResponse(m), rest))
        } else {
            Err(codec::describe(codec::DecodeFault::OutOfRange))
        }
    }
}

/// A message body with the identifier that its sender gave it, which the response
/// echoes.
#[derive(Debug, Clone)]
pub struct ChunkMessage {
    pub request_id: u64,
    pub body: ChunkMessageBody,
}

/// The contents of a `ChunkMessage`.
#[verifier::ext_equal]
pub struct MessageView {
    pub request_id: u64,
    pub body: MessageBodyView,
}

impl View for ChunkMessage {
    type V = MessageView;

    open spec fn view(&self) -> MessageView {
        MessageView {
            request_id: self.request_id,
            body: self.body@,
        }
    }
}

impl MessageView {
    /// Whether these are the contents of some `ChunkMessage`.
    pub open spec fn valid(self) -> bool {
        let MessageView { request_id, body } = self;
        body.valid()
    }

    /// The wire form.
    pub open spec fn encoding(self) -> Seq<u8> {
        let MessageView { request_id, body } = self;
        codec::varint(request_id as nat) + body.encoding()
    }
}

/// Reads a `ChunkMessage`.
pub open spec fn read_message(data: Seq<u8>) -> Reading<MessageView> {
    codec::chained(
        read_long(data),
        |request_id: u64, rest: Seq<u8>|
            codec::mapped(
                read_message_body(rest),
                |body: MessageBodyView| MessageView { request_id, body },
            ),
    )
}

/// Reading back a `ChunkMessage` gives its contents.
pub proof fn message_round_trip(m: MessageView, rest: Seq<u8>)
    requires
        m.valid(),
    ensures
        read_message(m.encoding() + rest) == Ok::<_, codec::DecodeFault>((m, rest)),
{
    let data = m.encoding() + rest;
    let MessageView { request_id, body } = m;
    let t1 = body.encoding() + rest;
    assert(data =~= codec::varint(request_id as nat) + t1);
    message_body_round_trip(body, rest);
    codec::number_round_trip(request_id as nat, t1);
}

impl ChunkMessage {
    /// Encodes the message.
    pub fn encode(&self) -> (r: Result<Vec<u8>, ProtocolError>)
        ensures
            r is Ok,
            r->Ok_0@ == self@.encoding(),
            self@.valid(),
    {
        let mut out: Vec<u8> = Vec::new();
        match self.put(&mut out) {
            Ok(()) => {
                assert(out@ =~= self@.encoding());
                Ok(out)
            },
            Err(why) => Err(ProtocolError::SerializationFailed(why)),
        }
    }

    /// Decodes a message. Bytes behind the message are ignored.
    pub fn decode(data: &[u8]) -> (r: Result<Self, ProtocolError>)
        ensures
            match decoded_message(data@) {
                Ok(m) => (r matches Ok(v) && v@ == m),
                Err(e) => (r matches Err(v) && v@ == e),
            },
    {
        if data.len() > MAX_WIRE_MESSAGE_SIZE {
            return Err(
                ProtocolError::MessageTooLarge {
                    size: data.len(),
                    max_size: MAX_WIRE_MESSAGE_SIZE,
                },
            );
        }
        match ChunkMessage::take(data) {
            Ok((message, _)) => Ok(message),
            Err(why) => Err(ProtocolError::DeserializationFailed(why)),
        }
    }

    /// Appends the wire form.
    fn put(&self, out: &mut Vec<u8>) -> (r: Result<(), String>)
        ensures
            r is Ok,
            final(out)@ == old(out)@ + self@.encoding(),
            self@.valid(),
    {
        codec::put_u64(out, self.request_id)?;
        self.body.put(out)?;
        assert(out@ =~= old(out)@ + self@.encoding());
        Ok(())
    }

    /// Takes a value from the front of `data`.
    fn take(data: &[u8]) -> (r: Result<(ChunkMessage, &[u8]), String>)
        ensures
            codec::agrees(r, read_message(data@)),
    {
        let (request_id, rest) = codec::take_u64(data)?;
        let (body, rest) = ChunkMessageBody::take(rest)?;
        Ok((ChunkMessage { request_id, body }, rest))
    }
}

/// What decoding a message gives.
pub open spec fn decoded_message(data: Seq<u8>) -> Result<MessageView, ErrorView> {
    if data.len() > MAX_WIRE_MESSAGE_SIZE {
        Err(
            (ErrorView::MessageTooLarge {
                size: data.len() as usize,
                max_size: MAX_WIRE_MESSAGE_SIZE,
            }),
        )
    } else {
        match read_message(data) {
            Ok((m, rest)) => Ok(m),
            Err(fault) => Err(ErrorView::DeserializationFailed(codec::fault_text(fault))),
        }
    }
}

/// Decoding the wire form of a message gives the message, as long as it is within the
/// size limit.
pub proof fn decode_inverts_encode(m: MessageView)
    requires
        m.valid(),
        m.encoding().len() <= MAX_WIRE_MESSAGE_SIZE,
    ensures
        decoded_message(m.encoding()) == Ok::<_, ErrorView>(m),
{
    message_round_trip(m, seq![]);
    assert(m.encoding() + seq![] =~= m.encoding());
}

/// Different messages have different wire forms.
pub proof fn encodings_are_unique(m1: MessageView, m2: MessageView)
    requires
        m1.valid(),
        m2.valid(),
        m1.encoding() == m2.encoding(),
    ensures
        m1 == m2,
{
    message_round_trip(m1, seq![]);
    message_round_trip(m2, seq![]);
}

// ---------------------------------------------------------------------------
// Layout
// ---------------------------------------------------------------------------

/// An error on the wire is the number of its variant, in one byte, and its fields in
/// order: texts behind the number of their UTF-8 bytes, sizes as varints, addresses as
/// they are.
#[verifier::rlimit(40)]
pub proof fn wire_forms_of_errors(e: ProtocolError)
    ensures
        match e {
            ProtocolError::SerializationFailed(m) => {
                &&& e@ == ErrorView::SerializationFailed(m@)
                &&& e@.encoding() == seq![0u8] + codec::varint(
                    vstd::utf8::encode_utf8(m@).len(),
                ) + vstd::utf8::encode_utf8(m@)
            },
            ProtocolError::DeserializationFailed(m) => {
                &&& e@ == ErrorView::DeserializationFailed(m@)
                &&& e@.encoding() == seq![1u8] + codec::varint(
                    vstd::utf8::encode_utf8(m@).len(),
                ) + vstd::utf8::encode_utf8(m@)
            },
            ProtocolError::MessageTooLarge { size, max_size } => {
                &&& e@ == (ErrorView::MessageTooLarge { size, max_size })
                &&& e@.encoding() == seq![2u8] + codec::varint(size as nat) + codec::varint(
                    max_size as nat,
                )
            },
            ProtocolError::ChunkTooLarge { size, max_size } => {
                &&& e@ == (ErrorView::ChunkTooLarge { size, max_size })
                &&& e@.encoding() == seq![3u8] + codec::varint(size as nat) + codec::varint(
                    max_size as nat,
                )
            },
            ProtocolError::AddressMismatch { expected, actual } => {
                &&& e@ == (ErrorView::AddressMismatch { expected: expected@, actual: actual@ })
                &&& e@.encoding() == seq![4u8] + expected@ + actual@
            },
            ProtocolError::StorageFailed(m) => {
                &&& e@ == ErrorView::StorageFailed(m@)
                &&& e@.encoding() == seq![5u8] + codec::varint(
                    vstd::utf8::encode_utf8(m@).len(),
                ) + vstd::utf8::encode_utf8(m@)
            },
            ProtocolError::PaymentFailed(m) => {
                &&& e@ == ErrorView::PaymentFailed(m@)
                &&& e@.encoding() == seq![6u8] + codec::varint(
                    vstd::utf8::encode_utf8(m@).len(),
                ) + vstd::utf8::encode_utf8(m@)
            },
            ProtocolError::QuoteFailed(m) => {
                &&& e@ == ErrorView::QuoteFailed(m@)
                &&& e@.encoding() == seq![7u8] + codec::varint(
                    vstd::utf8::encode_utf8(m@).len(),
                ) + vstd::utf8::encode_utf8(m@)
            },
            ProtocolError::Internal(m) => {
                &&& e@ == ErrorView::Internal(m@)
                &&& e@.encoding() == seq![8u8] + codec::varint(
                    vstd::utf8::encode_utf8(m@).len(),
                ) + vstd::utf8::encode_utf8(m@)
            },
        },
{
    match e {
        ProtocolError::SerializationFailed(m) => {
            let bytes = vstd::utf8::encode_utf8(m@);
            assert(e@.encoding() =~= seq![0u8] + codec::varint(bytes.len()) + bytes);
        },
        ProtocolError::DeserializationFailed(m) => {
            let bytes = vstd::utf8::encode_utf8(m@);
            assert(e@.encoding() =~= seq![1u8] + codec::varint(bytes.len()) + bytes);
        },
        ProtocolError::MessageTooLarge { .. } => {},
        ProtocolError::ChunkTooLarge { .. } => {},
        ProtocolError::AddressMismatch { .. } => {},
        ProtocolError::StorageFailed(m) => {
            let bytes = vstd::utf8::encode_utf8(m@);
            assert(e@.encoding() =~= seq![5u8] + codec::varint(bytes.len()) + bytes);
        },
        ProtocolError::PaymentFailed(m) => {
            let bytes = vstd::utf8::encode_utf8(m@);
            assert(e@.encoding() =~= seq![6u8] + codec::varint(bytes.len()) + bytes);
        },
        ProtocolError::QuoteFailed(m) => {
            let bytes = vstd::utf8::encode_utf8(m@);
            assert(e@.encoding() =~= seq![7u8] + codec::varint(bytes.len()) + bytes);
        },
        ProtocolError::Internal(m) => {
            let bytes = vstd::utf8::encode_utf8(m@);
            assert(e@.encoding() =~= seq![8u8] + codec::varint(bytes.len()) + bytes);
        },
    }
}

/// A PUT request is its identifier, 0, the address, the content behind its length, and
/// the payment proof: 0, or 1 and the proof behind its length.
#[verifier::rlimit(40)]
pub proof fn wire_form_of_put_requests(m: ChunkMessage, b: ChunkPutRequest, rest: Seq<u8>)
    requires
        m.body == ChunkMessageBody::PutRequest(b),
    ensures
        match b.payment_proof {
            None => {
                &&& m@.body == MessageBodyView::PutRequest(
                    (PutRequestView {
                        address: b.address@,
                        content: b.content@,
                        payment_proof: None,
                    }),
                )
                &&& m@.encoding() == codec::varint(m.request_id as nat) + seq![0u8]
                    + b.address@ + codec::varint(b.content@.len()) + b.content@ + seq![0u8]
            },
            Some(p) => {
                &&& m@.body == MessageBodyView::PutRequest(
                    (PutRequestView {
                        address: b.address@,
                        content: b.content@,
                        payment_proof: Some(p@),
                    }),
                )
                &&& m@.encoding() == codec::varint(m.request_id as nat) + seq![0u8]
                    + b.address@ + codec::varint(b.content@.len()) + b.content@ + seq![1u8]
                    + codec::varint(p@.len()) + p@
            },
        },
        m@.request_id == m.request_id,
        m@.valid() && m@.encoding().len() + rest.len() <= 5242880 ==> decoded_message(
            m@.encoding() + rest,
        ) == Ok::<_, ErrorView>(m@),
{
    match b.payment_proof {
        None => {
            assert(m@.encoding() =~= codec::varint(m.request_id as nat) + seq![0u8]
                + b.address@ + codec::varint(b.content@.len()) + b.content@ + seq![0u8]);
        },
        Some(p) => {
            assert(m@.encoding() =~= codec::varint(m.request_id as nat) + seq![0u8]
                + b.address@ + codec::varint(b.content@.len()) + b.content@ + seq![1u8]
                + codec::varint(p@.len()) + p@);
        },
    }
    if m@.valid() {
        message_round_trip(m@, rest);
    }
}

/// A PUT response is its identifier, 1, the number of its variant, and its fields.
#[verifier::rlimit(40)]
pub proof fn wire_form_of_put_responses(m: ChunkMessage, b: ChunkPutResponse, rest: Seq<u8>)
    requires
        m.body == ChunkMessageBody::PutResponse(b),
    ensures
        match b {
            ChunkPutResponse::Success { address } => {
                &&& m@ == (MessageView {
                    request_id: m.request_id,
                    body: MessageBodyView::PutResponse(
                        (PutResponseView::Success { address: address@ }),
                    ),
                })
                &&& m@.encoding() == codec::varint(m.request_id as nat) + seq![1u8, 0u8] + address@
            },
            ChunkPutResponse::AlreadyExists { address } => {
                &&& m@ == (MessageView {
                    request_id: m.request_id,
                    body: MessageBodyView::PutResponse(
                        (PutResponseView::AlreadyExists { address: address@ }),
                    ),
                })
                &&& m@.encoding() == codec::varint(m.request_id as nat) + seq![1u8, 1u8] + address@
            },
            ChunkPutResponse::PaymentRequired { message } => {
                &&& m@ == (MessageView {
                    request_id: m.request_id,
                    body: MessageBodyView::PutResponse(
                        (PutResponseView::PaymentRequired { message: message@ }),
                    ),
                })
                &&& m@.encoding() == codec::varint(m.request_id as nat) + seq![1u8, 2u8]
                    + codec::varint(vstd::utf8::encode_utf8(message@).len())
                    + vstd::utf8::encode_utf8(message@)
            },
            ChunkPutResponse::Error(e) => {
                &&& m@ == (MessageView {
                    request_id: m.request_id,
                    body: MessageBodyView::PutResponse(PutResponseView::Error(e@)),
                })
                &&& m@.encoding() == codec::varint(m.request_id as nat) + seq![1u8, 3u8]
                    + e@.encoding()
            },
        },
        m@.valid() && m@.encoding().len() + rest.len() <= 5242880 ==> decoded_message(
            m@.encoding() + rest,
        ) == Ok::<_, ErrorView>(m@),
{
    match b {
        ChunkPutResponse::Success { address } => {
            assert(m@.encoding() =~= codec::varint(m.request_id as nat) + seq![1u8, 0u8]
                + address@);
        },
        ChunkPutResponse::AlreadyExists { address } => {
            assert(m@.encoding() =~= codec::varint(m.request_id as nat) + seq![1u8, 1u8]
                + address@);
        },
        ChunkPutResponse::PaymentRequired { message } => {
            assert(m@.encoding() =~= codec::varint(m.request_id as nat) + seq![1u8, 2u8]
                + codec::varint(vstd::utf8::encode_utf8(message@).len())
                + vstd::utf8::encode_utf8(message@));
        },
        ChunkPutResponse::Error(e) => {
            assert(m@.encoding() =~= codec::varint(m.request_id as nat) + seq![1u8, 3u8]
                + e@.encoding());
        },
    }
    if m@.valid() {
        message_round_trip(m@, rest);
    }
}

/// A GET request is its identifier, 2, and the 32 bytes of the address in their order.
#[verifier::rlimit(40)]
pub proof fn wire_form_of_get_requests(m: ChunkMessage, b: ChunkGetRequest, rest: Seq<u8>)
    requires
        m.body == ChunkMessageBody::GetRequest(b),
    ensures
        m@ == (MessageView {
            request_id: m.request_id,
            body: MessageBodyView::GetRequest((GetRequestView { address: b.address@ })),
        }),
        m@.encoding() == codec::varint(m.request_id as nat) + seq![2u8] + b.address@,
        m@.valid() && m@.encoding().len() + rest.len() <= 5242880 ==> decoded_message(
            m@.encoding() + rest,
        ) == Ok::<_, ErrorView>(m@),
{
    assert(m@.encoding() =~= codec::varint(m.request_id as nat) + seq![2u8] + b.address@);
    if m@.valid() {
        message_round_trip(m@, rest);
    }
}

/// A GET response is its identifier, 3, the number of its variant, and its fields.
#[verifier::rlimit(40)]
pub proof fn wire_form_of_get_responses(m: ChunkMessage, b: ChunkGetResponse, rest: Seq<u8>)
    requires
        m.body == ChunkMessageBody::GetResponse(b),
    ensures
        match b {
            ChunkGetResponse::Success { address, content } => {
                &&& m@ == (MessageView {
                    request_id: m.request_id,
                    body: MessageBodyView::GetResponse(
                        (GetResponseView::Success { address: address@, content: content@ }),
                    ),
                })
                &&& m@.encoding() == codec::varint(m.request_id as nat) + seq![3u8, 0u8]
                    + address@ + codec::varint(content@.len()) + content@
            },
            ChunkGetResponse::NotFound { address } => {
                &&& m@ == (MessageView {
                    request_id: m.request_id,
                    body: MessageBodyView::GetResponse(
                        (GetResponseView::NotFound { address: address@ }),
                    ),
                })
                &&& m@.encoding() == codec::varint(m.request_id as nat) + seq![3u8, 1u8] + address@
            },
            ChunkGetResponse::Error(e) => {
                &&& m@ == (MessageView {
                    request_id: m.request_id,
                    body: MessageBodyView::GetResponse(GetResponseView::Error(e@)),
                })
                &&& m@.encoding() == codec::varint(m.request_id as nat) + seq![3u8, 2u8]
                    + e@.encoding()
            },
        },
        m@.valid() && m@.encoding().len() + rest.len() <= 5242880 ==> decoded_message(
            m@.encoding() + rest,
        ) == Ok::<_, ErrorView>(m@),
{
    match b {
        ChunkGetResponse::Success { address, content } => {
            assert(m@.encoding() =~= codec::varint(m.request_id as nat) + seq![3u8, 0u8]
                + address@ + codec::varint(content@.len()) + content@);
        },
        ChunkGetResponse::NotFound { address } => {
            assert(m@.encoding() =~= codec::varint(m.request_id as nat) + seq![3u8, 1u8]
                + address@);
        },
        ChunkGetResponse::Error(e) => {
            assert(m@.encoding() =~= codec::varint(m.request_id as nat) + seq![3u8, 2u8]
                + e@.encoding());
        },
    }
    if m@.valid() {
        message_round_trip(m@, rest);
    }
}

/// A request for a quote is its identifier, 4, the address, the size and the type.
#[verifier::rlimit(40)]
pub proof fn wire_form_of_quote_requests(m: ChunkMessage, b: ChunkQuoteRequest, rest: Seq<u8>)
    requires
        m.body == ChunkMessageBody::QuoteRequest(b),
    ensures
        m@ == (MessageView {
            request_id: m.request_id,
            body: MessageBodyView::QuoteRequest(
                (QuoteRequestView {
                    address: b.address@,
                    data_size: b.data_size,
                    data_type: b.data_type,
                }),
            ),
        }),
        m@.encoding() == codec::varint(m.request_id as nat) + seq![4u8] + b.address@
            + codec::varint(b.data_size as nat) + codec::varint(b.data_type as nat),
        m@.valid() && m@.encoding().len() + rest.len() <= 5242880 ==> decoded_message(
            m@.encoding() + rest,
        ) == Ok::<_, ErrorView>(m@),
{
    assert(m@.encoding() =~= codec::varint(m.request_id as nat) + seq![4u8] + b.address@
        + codec::varint(b.data_size as nat) + codec::varint(b.data_type as nat));
    if m@.valid() {
        message_round_trip(m@, rest);
    }
}

/// A response with a quote is its identifier, 5, the number of its variant, and its fields.
#[verifier::rlimit(40)]
pub proof fn wire_form_of_quote_responses(m: ChunkMessage, b: ChunkQuoteResponse, rest: Seq<u8>)
    requires
        m.body == ChunkMessageBody::QuoteResponse(b),
    ensures
        match b {
            ChunkQuoteResponse::Success { quote, already_stored } => {
                &&& m@ == (MessageView {
                    request_id: m.request_id,
                    body: MessageBodyView::QuoteResponse(
                        (QuoteResponseView::Success { quote: quote@, already_stored }),
                    ),
                })
                &&& already_stored ==> m@.encoding() == codec::varint(m.request_id as nat)
                    + seq![5u8, 0u8] + codec::varint(quote@.len()) + quote@ + seq![1u8]
                &&& !already_stored ==> m@.encoding() == codec::varint(m.request_id as nat)
                    + seq![5u8, 0u8] + codec::varint(quote@.len()) + quote@ + seq![0u8]
            },
            ChunkQuoteResponse::Error(e) => {
                &&& m@ == (MessageView {
                    request_id: m.request_id,
                    body: MessageBodyView::QuoteResponse(QuoteResponseView::Error(e@)),
                })
                &&& m@.encoding() == codec::varint(m.request_id as nat) + seq![5u8, 1u8]
                    + e@.encoding()
            },
        },
        m@.valid() && m@.encoding().len() + rest.len() <= 5242880 ==> decoded_message(
            m@.encoding() + rest,
        ) == Ok::<_, ErrorView>(m@),
{
    match b {
        ChunkQuoteResponse::Success { quote, already_stored } => {
            let start = codec::varint(m.request_id as nat) + seq![5u8, 0u8]
                + codec::varint(quote@.len()) + quote@;
            codec::values_have_their_layout(quote@, seq![]);
            assert(m@.encoding() =~= start + codec::flag(already_stored));
        },
        ChunkQuoteResponse::Error(e) => {
            assert(m@.encoding() =~= codec::varint(m.request_id as nat) + seq![5u8, 1u8]
                + e@.encoding());
        },
    }
    if m@.valid() {
        message_round_trip(m@, rest);
    }
}

/// A request for a merkle candidate quote is its identifier, 6, the address, the type, the
/// size and the timestamp.
#[verifier::rlimit(40)]
pub proof fn wire_form_of_merkle_quote_requests(
    m: ChunkMessage,
    b: MerkleCandidateQuoteRequest,
    rest: Seq<u8>,
)
    requires
        m.body == ChunkMessageBody::MerkleCandidateQuoteRequest(b),
    ensures
        m@ == (MessageView {
            request_id: m.request_id,
            body: MessageBodyView::MerkleCandidateQuoteRequest(
                (MerkleQuoteRequestView {
                    address: b.address@,
                    data_type: b.data_type,
                    data_size: b.data_size,
                    merkle_payment_timestamp: b.merkle_payment_timestamp,
                }),
            ),
        }),
        m@.encoding() == codec::varint(m.request_id as nat) + seq![6u8] + b.address@
            + codec::varint(b.data_type as nat) + codec::varint(b.data_size as nat)
            + codec::varint(b.merkle_payment_timestamp as nat),
        m@.valid() && m@.encoding().len() + rest.len() <= 5242880 ==> decoded_message(
            m@.encoding() + rest,
        ) == Ok::<_, ErrorView>(m@),
{
    assert(m@.encoding() =~= codec::varint(m.request_id as nat) + seq![6u8] + b.address@
        + codec::varint(b.data_type as nat) + codec::varint(b.data_size as nat)
        + codec::varint(b.merkle_payment_timestamp as nat));
    if m@.valid() {
        message_round_trip(m@, rest);
    }
}

/// A response with a merkle candidate quote is its identifier, 7, the number of its
/// variant, and its fields.
#[verifier::rlimit(40)]
pub proof fn wire_form_of_merkle_quote_responses(
    m: ChunkMessage,
    b: MerkleCandidateQuoteResponse,
    rest: Seq<u8>,
)
    requires
        m.body == ChunkMessageBody::MerkleCandidateQuoteResponse(b),
    ensures
        match b {
            MerkleCandidateQuoteResponse::Success { candidate_node } => {
                &&& m@ == (MessageView {
                    request_id: m.request_id,
                    body: MessageBodyView::MerkleCandidateQuoteResponse(
                        (MerkleQuoteResponseView::Success { candidate_node: candidate_node@ }),
                    ),
                })
                &&& m@.encoding() == codec::varint(m.request_id as nat) + seq![7u8, 0u8]
                    + codec::varint(candidate_node@.len()) + candidate_node@
            },
            MerkleCandidateQuoteResponse::Error(e) => {
                &&& m@ == (MessageView {
                    request_id: m.request_id,
                    body: MessageBodyView::MerkleCandidateQuoteResponse(
                        MerkleQuoteResponseView::Error(e@),
                    ),
                })
                &&& m@.encoding() == codec::varint(m.request_id as nat) + seq![7u8, 1u8]
                    + e@.encoding()
            },
        },
        m@.valid() && m@.encoding().len() + rest.len() <= 5242880 ==> decoded_message(
            m@.encoding() + rest,
        ) == Ok::<_, ErrorView>(m@),
{
    match b {
        MerkleCandidateQuoteResponse::Success { candidate_node } => {
            assert(m@.encoding() =~= codec::varint(m.request_id as nat) + seq![7u8, 0u8]
                + codec::varint(candidate_node@.len()) + candidate_node@);
        },
        MerkleCandidateQuoteResponse::Error(e) => {
            assert(m@.encoding() =~= codec::varint(m.request_id as nat) + seq![7u8, 1u8]
                + e@.encoding());
        },
    }
    if m@.valid() {
        message_round_trip(m@, rest);
    }
}

/// Messages beyond 5 MiB are refused, whatever they hold.
pub proof fn long_messages_are_refused(data: Seq<u8>)
    requires
        data.len() > 5242880,
    ensures
        decoded_message(data) == Err::<MessageView, _>(
            (ErrorView::MessageTooLarge { size: data.len() as usize, max_size: 5242880 }),
        ),
{
}

/// A message whose body has an unknown number is refused, whatever follows.
pub proof fn unknown_bodies_are_refused(request_id: u64, tag: u32, rest: Seq<u8>)
    requires
        tag > 7,
        codec::varint(request_id as nat).len() + codec::varint(tag as nat).len() + rest.len()
            <= 5242880,
    ensures
        decoded_message(codec::varint(request_id as nat) + codec::varint(tag as nat) + rest)
            == Err::<MessageView, _>(
            ErrorView::DeserializationFailed("Serde Deserialization Error"@),
        ),
{
    let data = codec::varint(request_id as nat) + codec::varint(tag as nat) + rest;
    let tail = codec::varint(tag as nat) + rest;
    assert(data =~= codec::varint(request_id as nat) + tail);
    codec::number_round_trip(request_id as nat, tail);
    codec::number_round_trip(tag as nat, rest);
}

/// The errors in words.
pub proof fn errors_have_their_texts(e: ProtocolError)
    ensures
        match e {
            ProtocolError::SerializationFailed(m) => e@.text() == "serialization failed: "@ + m@,
            ProtocolError::DeserializationFailed(m) => e@.text() == "deserialization failed: "@
                + m@,
            ProtocolError::MessageTooLarge { size, max_size } => e@.text() == "message size "@
                + text::decimal(size as nat) + " exceeds maximum "@ + text::decimal(
                max_size as nat,
            ),
            ProtocolError::ChunkTooLarge { size, max_size } => e@.text() == "chunk size "@
                + text::decimal(size as nat) + " exceeds maximum "@ + text::decimal(
                max_size as nat,
            ),
            ProtocolError::AddressMismatch { expected, actual } => e@.text()
                == "address mismatch: expected "@ + text::hex_text(expected@) + ", got "@
                + text::hex_text(actual@),
            ProtocolError::StorageFailed(m) => e@.text() == "storage failed: "@ + m@,
            ProtocolError::PaymentFailed(m) => e@.text() == "payment failed: "@ + m@,
            ProtocolError::QuoteFailed(m) => e@.text() == "quote failed: "@ + m@,
            ProtocolError::Internal(m) => e@.text() == "internal error: "@ + m@,
        },
{
}

/// A pair of sizes is read one after the other.
pub proof fn sizes_are_read_in_order(data: Seq<u8>)
    ensures
        match codec::read_size(data) {
            Err(fault) => read_sizes(data) == Err::<((usize, usize), Seq<u8>), _>(fault),
            Ok((a, r1)) => match codec::read_size(r1) {
                Err(fault) => read_sizes(data) == Err::<((usize, usize), Seq<u8>), _>(fault),
                Ok((b, r2)) => read_sizes(data) == Ok::<_, codec::DecodeFault>(
                    ((a as usize, b as usize), r2),
                ),
            },
        },
{
}

/// An error is read as the number of its variant and then its fields, up to the first
/// fault.
pub proof fn errors_are_read_field_by_field(data: Seq<u8>)
    ensures
        match codec::read_u32(data) {
            Err(fault) => read_error(data) == Err::<(ErrorView, Seq<u8>), _>(fault),
            Ok((tag, r1)) => {
                &&& tag == 0 ==> match codec::read_text(r1) {
                    Err(fault) => read_error(data) == Err::<(ErrorView, Seq<u8>), _>(fault),
                    Ok((m, r2)) => read_error(data)
                        == Ok::<_, codec::DecodeFault>((ErrorView::SerializationFailed(m), r2)),
                }
                &&& tag == 1 ==> match codec::read_text(r1) {
                    Err(fault) => read_error(data) == Err::<(ErrorView, Seq<u8>), _>(fault),
                    Ok((m, r2)) => read_error(data)
                        == Ok::<_, codec::DecodeFault>((ErrorView::DeserializationFailed(m), r2)),
                }
                &&& tag == 2 ==> match read_sizes(r1) {
                    Err(fault) => read_error(data) == Err::<(ErrorView, Seq<u8>), _>(fault),
                    Ok((s, r2)) => read_error(data)
                        == Ok::<_, codec::DecodeFault>(
                            ((ErrorView::MessageTooLarge { size: s.0, max_size: s.1 }), r2),
                        ),
                }
                &&& tag == 3 ==> match read_sizes(r1) {
                    Err(fault) => read_error(data) == Err::<(ErrorView, Seq<u8>), _>(fault),
                    Ok((s, r2)) => read_error(data)
                        == Ok::<_, codec::DecodeFault>(
                            ((ErrorView::ChunkTooLarge { size: s.0, max_size: s.1 }), r2),
                        ),
                }
                &&& tag == 4 ==> match codec::read_address(r1) {
                    Err(fault) => read_error(data) == Err::<(ErrorView, Seq<u8>), _>(fault),
                    Ok((expected, r2)) => match codec::read_address(r2) {
                        Err(fault) => read_error(data) == Err::<(ErrorView, Seq<u8>), _>(fault),
                        Ok((actual, r3)) => read_error(data)
                            == Ok::<_, codec::DecodeFault>(
                                ((ErrorView::AddressMismatch { expected, actual }), r3),
                            ),
                    },
                }
                &&& tag == 5 ==> match codec::read_text(r1) {
                    Err(fault) => read_error(data) == Err::<(ErrorView, Seq<u8>), _>(fault),
                    Ok((m, r2)) => read_error(data)
                        == Ok::<_, codec::DecodeFault>((ErrorView::StorageFailed(m), r2)),
                }
                &&& tag == 6 ==> match codec::read_text(r1) {
                    Err(fault) => read_error(data) == Err::<(ErrorView, Seq<u8>), _>(fault),
                    Ok((m, r2)) => read_error(data)
                        == Ok::<_, codec::DecodeFault>((ErrorView::PaymentFailed(m), r2)),
                }
                &&& tag == 7 ==> match codec::read_text(r1) {
                    Err(fault) => read_error(data) == Err::<(ErrorView, Seq<u8>), _>(fault),
                    Ok((m, r2)) => read_error(data)
                        == Ok::<_, codec::DecodeFault>((ErrorView::QuoteFailed(m), r2)),
                }
                &&& tag == 8 ==> match codec::read_text(r1) {
                    Err(fault) => read_error(data) == Err::<(ErrorView, Seq<u8>), _>(fault),
                    Ok((m, r2)) => read_error(data)
                        == Ok::<_, codec::DecodeFault>((ErrorView::Internal(m), r2)),
                }
                &&& tag >= 9 ==> read_error(data) == Err::<(ErrorView, Seq<u8>), _>(
                    codec::DecodeFault::OutOfRange,
                )
            },
        },
{
}

/// A PUT request is read field by field, up to the first fault.
pub proof fn put_requests_are_read_field_by_field(data: Seq<u8>)
    ensures
        match codec::read_address(data) {
            Err(fault) => read_put_request(data) == Err::<(PutRequestView, Seq<u8>), _>(fault),
            Ok((address, r1)) => match codec::read_bytes(r1) {
                Err(fault) => read_put_request(data) == Err::<(PutRequestView, Seq<u8>), _>(fault),
                Ok((content, r2)) => match codec::read_optional(r2) {
                    Err(fault) => read_put_request(data)
                        == Err::<(PutRequestView, Seq<u8>), _>(fault),
                    Ok((payment_proof, r3)) => read_put_request(data)
                        == Ok::<_, codec::DecodeFault>(
                            ((PutRequestView { address, content, payment_proof }), r3),
                        ),
                },
            },
        },
{
}

/// A PUT response is read as the number of its variant and then its fields, up to the
/// first fault.
pub proof fn put_responses_are_read_field_by_field(data: Seq<u8>)
    ensures
        match codec::read_u32(data) {
            Err(fault) => read_put_response(data) == Err::<(PutResponseView, Seq<u8>), _>(fault),
            Ok((tag, r1)) => {
                &&& tag == 0 ==> match codec::read_address(r1) {
                    Err(fault) => read_put_response(data)
                        == Err::<(PutResponseView, Seq<u8>), _>(fault),
                    Ok((address, r2)) => read_put_response(data)
                        == Ok::<_, codec::DecodeFault>(
                            ((PutResponseView::Success { address }), r2),
                        ),
                }
                &&& tag == 1 ==> match codec::read_address(r1) {
                    Err(fault) => read_put_response(data)
                        == Err::<(PutResponseView, Seq<u8>), _>(fault),
                    Ok((address, r2)) => read_put_response(data)
                        == Ok::<_, codec::DecodeFault>(
                            ((PutResponseView::AlreadyExists { address }), r2),
                        ),
                }
                &&& tag == 2 ==> match codec::read_text(r1) {
                    Err(fault) => read_put_response(data)
                        == Err::<(PutResponseView, Seq<u8>), _>(fault),
                    Ok((message, r2)) => read_put_response(data)
                        == Ok::<_, codec::DecodeFault>(
                            ((PutResponseView::PaymentRequired { message }), r2),
                        ),
                }
                &&& tag == 3 ==> match read_error(r1) {
                    Err(fault) => read_put_response(data)
                        == Err::<(PutResponseView, Seq<u8>), _>(fault),
                    Ok((e, r2)) => read_put_response(data)
                        == Ok::<_, codec::DecodeFault>((PutResponseView::Error(e), r2)),
                }
                &&& tag >= 4 ==> read_put_response(data) == Err::<(PutResponseView, Seq<u8>), _>(
                    codec::DecodeFault::OutOfRange,
                )
            },
        },
{
}

/// A GET request is read as its address.
pub proof fn get_requests_are_read_field_by_field(data: Seq<u8>)
    ensures
        match codec::read_address(data) {
            Err(fault) => read_get_request(data) == Err::<(GetRequestView, Seq<u8>), _>(fault),
            Ok((address, r1)) => read_get_request(data)
                == Ok::<_, codec::DecodeFault>(((GetRequestView { address }), r1)),
        },
{
}

/// A GET response is read as the number of its variant and then its fields, up to the
/// first fault.
pub proof fn get_responses_are_read_field_by_field(data: Seq<u8>)
    ensures
        match codec::read_u32(data) {
            Err(fault) => read_get_response(data) == Err::<(GetResponseView, Seq<u8>), _>(fault),
            Ok((tag, r1)) => {
                &&& tag == 0 ==> match codec::read_address(r1) {
                    Err(fault) => read_get_response(data)
                        == Err::<(GetResponseView, Seq<u8>), _>(fault),
                    Ok((address, r2)) => match codec::read_bytes(r2) {
                        Err(fault) => read_get_response(data)
                            == Err::<(GetResponseView, Seq<u8>), _>(fault),
                        Ok((content, r3)) => read_get_response(data)
                            == Ok::<_, codec::DecodeFault>(
                                ((GetResponseView::Success { address, content }), r3),
                            ),
                    },
                }
                &&& tag == 1 ==> match codec::read_address(r1) {
                    Err(fault) => read_get_response(data)
                        == Err::<(GetResponseView, Seq<u8>), _>(fault),
                    Ok((address, r2)) => read_get_response(data)
                        == Ok::<_, codec::DecodeFault>(
                            ((GetResponseView::NotFound { address }), r2),
                        ),
                }
                &&& tag == 2 ==> match read_error(r1) {
                    Err(fault) => read_get_response(data)
                        == Err::<(GetResponseView, Seq<u8>), _>(fault),
                    Ok((e, r2)) => read_get_response(data)
                        == Ok::<_, codec::DecodeFault>((GetResponseView::Error(e), r2)),
                }
                &&& tag >= 3 ==> read_get_response(data) == Err::<(GetResponseView, Seq<u8>), _>(
                    codec::DecodeFault::OutOfRange,
                )
            },
        },
{
}

/// A request for a quote is read field by field, up to the first fault.
pub proof fn quote_requests_are_read_field_by_field(data: Seq<u8>)
    ensures
        match codec::read_address(data) {
            Err(fault) => read_quote_request(data) == Err::<(QuoteRequestView, Seq<u8>), _>(fault),
            Ok((address, r1)) => match codec::read_u64(r1) {
                Err(fault) => read_quote_request(data)
                    == Err::<(QuoteRequestView, Seq<u8>), _>(fault),
                Ok((size, r2)) => match codec::read_u32(r2) {
                    Err(fault) => read_quote_request(data)
                        == Err::<(QuoteRequestView, Seq<u8>), _>(fault),
                    Ok((kind, r3)) => read_quote_request(data)
                        == Ok::<_, codec::DecodeFault>(
                            (
                                (QuoteRequestView {
                                    address,
                                    data_size: size as u64,
                                    data_type: kind as u32,
                                }),
                                r3,
                            ),
                        ),
                },
            },
        },
{
}

/// A response with a quote is read as the number of its variant and then its fields, up
/// to the first fault.
pub proof fn quote_responses_are_read_field_by_field(data: Seq<u8>)
    ensures
        match codec::read_u32(data) {
            Err(fault) => read_quote_response(data)
                == Err::<(QuoteResponseView, Seq<u8>), _>(fault),
            Ok((tag, r1)) => {
                &&& tag == 0 ==> match codec::read_bytes(r1) {
                    Err(fault) => read_quote_response(data)
                        == Err::<(QuoteResponseView, Seq<u8>), _>(fault),
                    Ok((quote, r2)) => match codec::read_flag(r2) {
                        Err(fault) => read_quote_response(data)
                            == Err::<(QuoteResponseView, Seq<u8>), _>(fault),
                        Ok((already_stored, r3)) => read_quote_response(data)
                            == Ok::<_, codec::DecodeFault>(
                                ((QuoteResponseView::Success { quote, already_stored }), r3),
                            ),
                    },
                }
                &&& tag == 1 ==> match read_error(r1) {
                    Err(fault) => read_quote_response(data)
                        == Err::<(QuoteResponseView, Seq<u8>), _>(fault),
                    Ok((e, r2)) => read_quote_response(data)
                        == Ok::<_, codec::DecodeFault>((QuoteResponseView::Error(e), r2)),
                }
                &&& tag >= 2 ==> read_quote_response(data)
                    == Err::<(QuoteResponseView, Seq<u8>), _>(
                    codec::DecodeFault::OutOfRange,
                )
            },
        },
{
}

/// A request for a merkle candidate quote is read field by field, up to the first fault.
pub proof fn merkle_quote_requests_are_read_field_by_field(data: Seq<u8>)
    ensures
        match codec::read_address(data) {
            Err(fault) => read_merkle_quote_request(data)
                == Err::<(MerkleQuoteRequestView, Seq<u8>), _>(fault),
            Ok((address, r1)) => match codec::read_u32(r1) {
                Err(fault) => read_merkle_quote_request(data)
                    == Err::<(MerkleQuoteRequestView, Seq<u8>), _>(fault),
                Ok((kind, r2)) => match codec::read_u64(r2) {
                    Err(fault) => read_merkle_quote_request(data)
                        == Err::<(MerkleQuoteRequestView, Seq<u8>), _>(fault),
                    Ok((size, r3)) => match codec::read_u64(r3) {
                        Err(fault) => read_merkle_quote_request(data)
                            == Err::<(MerkleQuoteRequestView, Seq<u8>), _>(fault),
                        Ok((timestamp, r4)) => read_merkle_quote_request(data)
                            == Ok::<_, codec::DecodeFault>(
                                (
                                    (MerkleQuoteRequestView {
                                        address,
                                        data_type: kind as u32,
                                        data_size: size as u64,
                                        merkle_payment_timestamp: timestamp as u64,
                                    }),
                                    r4,
                                ),
                            ),
                    },
                },
            },
        },
{
}

/// A response with a merkle candidate quote is read as the number of its variant and then
/// its fields, up to the first fault.
pub proof fn merkle_quote_responses_are_read_field_by_field(data: Seq<u8>)
    ensures
        match codec::read_u32(data) {
            Err(fault) => read_merkle_quote_response(data)
                == Err::<(MerkleQuoteResponseView, Seq<u8>), _>(fault),
            Ok((tag, r1)) => {
                &&& tag == 0 ==> match codec::read_bytes(r1) {
                    Err(fault) => read_merkle_quote_response(data)
                        == Err::<(MerkleQuoteResponseView, Seq<u8>), _>(fault),
                    Ok((candidate_node, r2)) => read_merkle_quote_response(data)
                        == Ok::<_, codec::DecodeFault>(
                            ((MerkleQuoteResponseView::Success { candidate_node }), r2),
                        ),
                }
                &&& tag == 1 ==> match read_error(r1) {
                    Err(fault) => read_merkle_quote_response(data)
                        == Err::<(MerkleQuoteResponseView, Seq<u8>), _>(fault),
                    Ok((e, r2)) => read_merkle_quote_response(data)
                        == Ok::<_, codec::DecodeFault>((MerkleQuoteResponseView::Error(e), r2)),
                }
                &&& tag >= 2 ==> read_merkle_quote_response(data)
                    == Err::<(MerkleQuoteResponseView, Seq<u8>), _>(
                    codec::DecodeFault::OutOfRange,
                )
            },
        },
{
}

/// A body is read as its number and then what that number says.
pub proof fn bodies_are_read_by_their_number(data: Seq<u8>)
    ensures
        match codec::read_u32(data) {
            Err(fault) => read_message_body(data) == Err::<(MessageBodyView, Seq<u8>), _>(fault),
            Ok((tag, r1)) => {
                &&& tag == 0 ==> match read_put_request(r1) {
                    Err(fault) => read_message_body(data)
                        == Err::<(MessageBodyView, Seq<u8>), _>(fault),
                    Ok((m, r2)) => read_message_body(data)
                        == Ok::<_, codec::DecodeFault>((MessageBodyView::PutRequest(m), r2)),
                }
                &&& tag == 1 ==> match read_put_response(r1) {
                    Err(fault) => read_message_body(data)
                        == Err::<(MessageBodyView, Seq<u8>), _>(fault),
                    Ok((m, r2)) => read_message_body(data)
                        == Ok::<_, codec::DecodeFault>((MessageBodyView::PutResponse(m), r2)),
                }
                &&& tag == 2 ==> match read_get_request(r1) {
                    Err(fault) => read_message_body(data)
                        == Err::<(MessageBodyView, Seq<u8>), _>(fault),
                    Ok((m, r2)) => read_message_body(data)
                        == Ok::<_, codec::DecodeFault>((MessageBodyView::GetRequest(m), r2)),
                }
                &&& tag == 3 ==> match read_get_response(r1) {
                    Err(fault) => read_message_body(data)
                        == Err::<(MessageBodyView, Seq<u8>), _>(fault),
                    Ok((m, r2)) => read_message_body(data)
                        == Ok::<_, codec::DecodeFault>((MessageBodyView::GetResponse(m), r2)),
                }
                &&& tag == 4 ==> match read_quote_request(r1) {
                    Err(fault) => read_message_body(data)
                        == Err::<(MessageBodyView, Seq<u8>), _>(fault),
                    Ok((m, r2)) => read_message_body(data)
                        == Ok::<_, codec::DecodeFault>((MessageBodyView::QuoteRequest(m), r2)),
                }
                &&& tag == 5 ==> match read_quote_response(r1) {
                    Err(fault) => read_message_body(data)
                        == Err::<(MessageBodyView, Seq<u8>), _>(fault),
                    Ok((m, r2)) => read_message_body(data)
                        == Ok::<_, codec::DecodeFault>((MessageBodyView::QuoteResponse(m), r2)),
                }
                &&& tag == 6 ==> match read_merkle_quote_request(r1) {
                    Err(fault) => read_message_body(data)
                        == Err::<(MessageBodyView, Seq<u8>), _>(fault),
                    Ok((m, r2)) => read_message_body(data)
                        == Ok::<_, codec::DecodeFault>(
                            (MessageBodyView::MerkleCandidateQuoteRequest(m), r2),
                        ),
                }
                &&& tag == 7 ==> match read_merkle_quote_response(r1) {
                    Err(fault) => read_message_body(data)
                        == Err::<(MessageBodyView, Seq<u8>), _>(fault),
                    Ok((m, r2)) => read_message_body(data)
                        == Ok::<_, codec::DecodeFault>(
                            (MessageBodyView::MerkleCandidateQuoteResponse(m), r2),
                        ),
                }
                &&& tag >= 8 ==> read_message_body(data) == Err::<(MessageBodyView, Seq<u8>), _>(
                    codec::DecodeFault::OutOfRange,
                )
            },
        },
{
}

/// A message is read as its identifier and then its body.
pub proof fn messages_are_read_in_order(data: Seq<u8>)
    ensures
        match codec::read_u64(data) {
            Err(fault) => read_message(data) == Err::<(MessageView, Seq<u8>), _>(fault),
            Ok((id, r1)) => match read_message_body(r1) {
                Err(fault) => read_message(data) == Err::<(MessageView, Seq<u8>), _>(fault),
                Ok((body, r2)) => read_message(data)
                    == Ok::<_, codec::DecodeFault>(
                        ((MessageView { request_id: id as u64, body }), r2),
                    ),
            },
        },
{
}

/// Within the size limit, decoding gives the message in front, whatever follows it, or
/// else the fault in words.
pub proof fn decoding_reads_the_message_in_front(data: Seq<u8>)
    requires
        data.len() <= 5242880,
    ensures
        match read_message(data) {
            Ok((m, rest)) => decoded_message(data) == Ok::<_, ErrorView>(m),
            Err(fault) => decoded_message(data) == Err::<MessageView, _>(
                ErrorView::DeserializationFailed(codec::fault_text(fault)),
            ),
        },
{
}

} // verus!
