//! Encrypted requests and responses on the streams of an established session.
//!
//! Each stream carries one request and one response. Both sides number the streams
//! from 1 and put the number into the nonce, so they close the session before a number
//! could come round again.
use crate::chunk::MAX_WIRE_MESSAGE_SIZE;
use crate::pqc_tunnel;
use crate::pqc_tunnel::{Direction, SessionCipher};
use crate::stream;
use crate::text;
use crate::wire;
use vstd::prelude::*;

verus! {

// ---------------------------------------------------------------------------
// Stream numbers
// ---------------------------------------------------------------------------

/// The first stream number that is not given out any more.
pub const MAX_STREAM_SEQ: u32 = u32::MAX - 1;

/// Gives out stream numbers.
pub struct StreamCounter {
    next: u32,
}

/// What happens when a number is asked for: the counter before, the number given out
/// and the counter after.
pub open spec fn counter_step(before: u32, number: Option<u32>, after: u32) -> bool {
    if before >= MAX_STREAM_SEQ {
        number is None && after == before
    } else {
        number == Some(before) && after == before + 1
    }
}

impl StreamCounter {
    /// The next number.
    pub closed spec fn next(&self) -> u32 {
        self.next
    }

    /// A counter for a new session: the first number is 1.
    pub fn new() -> (r: Self)
        ensures
            r.next() == 1,
    {
        StreamCounter { next: 1 }
    }

    /// A counter that goes on at a given number.
    pub fn starting_at(next: u32) -> (r: Self)
        ensures
            r.next() == next,
    {
        StreamCounter { next }
    }

    /// The number of a new stream, or nothing where the session has to be closed.
    pub fn next_stream(&mut self) -> (r: Option<u32>)
        ensures
            counter_step(old(self).next(), r, final(self).next()),
            old(self).next() < 4294967294 ==> r == Some(old(self).next()) && final(self).next()
                == old(self).next() + 1,
            old(self).next() >= 4294967294 ==> r is None && final(self).next() == old(self).next(),
    {
        if self.next >= MAX_STREAM_SEQ {
            return None;
        }
        let seq: u32 = self.next;
        self.next = seq + 1;
        Some(seq)
    }
}

/// Whether a sequence of counter values and numbers is a run of one counter.
pub open spec fn counter_run(counters: Seq<u32>, numbers: Seq<Option<u32>>) -> bool {
    &&& counters.len() == numbers.len() + 1
    &&& forall|i: int|
        #![trigger numbers[i]]
        0 <= i < numbers.len() ==> counter_step(counters[i], numbers[i], counters[i + 1])
}

proof fn lemma_counter_grows(counters: Seq<u32>, numbers: Seq<Option<u32>>, i: int, j: int)
    requires
        counter_run(counters, numbers),
        0 <= i <= j < counters.len(),
    ensures
        counters[i] <= counters[j],
    decreases j - i,
{
    if i < j {
        lemma_counter_grows(counters, numbers, i, j - 1);
        assert(counter_step(counters[j - 1], numbers[j - 1], counters[j - 1 + 1]));
    }
}

/// Stream numbers of one session only grow, so no nonce occurs twice: two streams of a
/// session differ in all their nonces.
pub proof fn nonces_never_repeat(
    counters: Seq<u32>,
    numbers: Seq<Option<u32>>,
    i: int,
    j: int,
    di: Direction,
    dj: Direction,
)
    requires
        counter_run(counters, numbers),
        0 <= i < j < numbers.len(),
        numbers[i] is Some,
        numbers[j] is Some,
    ensures
        numbers[i]->0 < numbers[j]->0,
        numbers[j]->0 < MAX_STREAM_SEQ,
        pqc_tunnel::nonce(numbers[i]->0, di) != pqc_tunnel::nonce(numbers[j]->0, dj),
{
    assert(counter_step(counters[i], numbers[i], counters[i + 1]));
    assert(counter_step(counters[j], numbers[j], counters[j + 1]));
    lemma_counter_grows(counters, numbers, i + 1, j);
    pqc_tunnel::nonces_are_unique(numbers[i]->0, di, numbers[j]->0, dj);
}

/// The streams of a new session are numbered 1, 2, 3 and so on: the two sides agree on
/// the number of a stream as long as they see the streams in the same order.
pub proof fn streams_are_numbered_in_order(
    counters: Seq<u32>,
    numbers: Seq<Option<u32>>,
    i: int,
)
    requires
        counter_run(counters, numbers),
        counters[0] == 1,
        0 <= i < numbers.len(),
    ensures
        i + 1 < MAX_STREAM_SEQ ==> numbers[i] == Some((i + 1) as u32),
        i + 1 >= MAX_STREAM_SEQ ==> numbers[i] is None,
        counters[i] == if i + 1 < MAX_STREAM_SEQ {
            i + 1
        } else {
            MAX_STREAM_SEQ as int
        },
    decreases i,
{
    if i > 0 {
        streams_are_numbered_in_order(counters, numbers, i - 1);
        assert(counter_step(counters[i - 1], numbers[i - 1], counters[i - 1 + 1]));
    }
    assert(counter_step(counters[i], numbers[i], counters[i + 1]));
}

/// Once a counter gives out no number, it never does again.
pub proof fn closed_sessions_stay_closed(
    counters: Seq<u32>,
    numbers: Seq<Option<u32>>,
    i: int,
    j: int,
)
    requires
        counter_run(counters, numbers),
        0 <= i <= j < numbers.len(),
        numbers[i] is None,
    ensures
        numbers[j] is None,
{
    assert(counter_step(counters[i], numbers[i], counters[i + 1]));
    assert(counter_step(counters[j], numbers[j], counters[j + 1]));
    lemma_counter_grows(counters, numbers, i, j);
}

// ---------------------------------------------------------------------------
// Sealed envelopes
// ---------------------------------------------------------------------------

/// The type byte of a message that is sent past the tunnel.
pub const PLAINTEXT_TYPE: u8 = 0x00;

/// Why a received envelope is refused.
#[derive(Debug)]
pub enum EnvelopeError {
    /// It has the type byte of a message sent past the tunnel; the text says what was
    /// expected.
    Plaintext(String),
    /// It is no Encrypted envelope; the text says why.
    Invalid(String),
    /// It belongs to another stream.
    SequenceMismatch { expected: u32, actual: u32 },
    /// It does not decrypt.
    DecryptionFailed,
}

/// The contents of an `EnvelopeError`.
#[verifier::ext_equal]
pub enum EnvelopeFault {
    Plaintext(Seq<char>),
    Invalid(Seq<char>),
    SequenceMismatch { expected: u32, actual: u32 },
    DecryptionFailed,
}

impl View for EnvelopeError {
    type V = EnvelopeFault;

    open spec fn view(&self) -> EnvelopeFault {
        match self {
            EnvelopeError::Plaintext(why) => EnvelopeFault::Plaintext(why@),
            EnvelopeError::Invalid(why) => EnvelopeFault::Invalid(why@),
            EnvelopeError::SequenceMismatch { expected, actual } =>
                EnvelopeFault::SequenceMismatch { expected: *expected, actual: *actual },
            EnvelopeError::DecryptionFailed => EnvelopeFault::DecryptionFailed,
        }
    }
}

/// Whether an envelope has the type byte of a message sent past the tunnel.
pub open spec fn is_plaintext(envelope: Seq<u8>) -> bool {
    envelope.len() > 0 && envelope[0] == PLAINTEXT_TYPE
}

/// The message in an envelope received on stream `seq`, or why it is refused.
pub open spec fn opened_envelope(
    key: Seq<u8>,
    seq: u32,
    direction: Direction,
    envelope: Seq<u8>,
) -> Result<Seq<u8>, EnvelopeFault> {
    match pqc_tunnel::parsed_encrypted(envelope) {
        Err(why) => if is_plaintext(envelope) {
            Err(EnvelopeFault::Plaintext("invalid PQC envelope: "@ + why))
        } else {
            Err(EnvelopeFault::Invalid("invalid PQC envelope: "@ + why))
        },
        Ok((number, ciphertext)) => if number != seq {
            Err(EnvelopeFault::SequenceMismatch { expected: seq, actual: number })
        } else {
            match pqc_tunnel::opened(key, seq, direction, ciphertext) {
                None => Err(EnvelopeFault::DecryptionFailed),
                Some(message) => Ok(message),
            }
        },
    }
}

/// The envelope of a message on stream `seq`.
pub open spec fn sealed_envelope(
    key: Seq<u8>,
    seq: u32,
    direction: Direction,
    message: Seq<u8>,
) -> Seq<u8> {
    pqc_tunnel::encrypted_envelope(seq, pqc_tunnel::sealed(key, seq, direction, message))
}

/// An envelope that carries another stream's number is refused.
pub proof fn other_streams_are_refused(
    key: Seq<u8>,
    seq: u32,
    direction: Direction,
    other: u32,
    ciphertext: Seq<u8>,
)
    requires
        other != seq,
    ensures
        opened_envelope(key, seq, direction, pqc_tunnel::encrypted_envelope(other, ciphertext))
            == Err::<Seq<u8>, _>(
            EnvelopeFault::SequenceMismatch { expected: seq, actual: other },
        ),
{
    pqc_tunnel::encrypted_envelope_round_trip(other, ciphertext);
}

/// Nothing but an Encrypted envelope of the stream's own number that decrypts under the
/// session key is ever opened: there is no way past the tunnel.
pub proof fn only_sealed_messages_are_opened(
    key: Seq<u8>,
    seq: u32,
    direction: Direction,
    envelope: Seq<u8>,
)
    requires
        opened_envelope(key, seq, direction, envelope) is Ok,
    ensures
        envelope.len() >= 5,
        envelope[0] == pqc_tunnel::EnvelopeType::Encrypted.byte(),
        wire::from_be32(envelope.subrange(1, 5)) == seq,
        pqc_tunnel::opened(key, seq, direction, envelope.skip(5)) == Some(
            opened_envelope(key, seq, direction, envelope)->Ok_0,
        ),
{
}

/// An envelope is refused as plaintext exactly where it has that type byte, whatever
/// follows.
pub proof fn plaintext_is_refused(
    key: Seq<u8>,
    seq: u32,
    direction: Direction,
    envelope: Seq<u8>,
)
    ensures
        is_plaintext(envelope) <==> (opened_envelope(key, seq, direction, envelope) matches Err(
            EnvelopeFault::Plaintext(_),
        )),
{
}

/// Encrypts a message into the frame that goes onto stream `seq`, unless it is too
/// long for the cipher.
fn seal_frame(cipher: &SessionCipher, seq: u32, direction: Direction, message: &[u8]) -> (r: Option<
    Vec<u8>,
>)
    ensures
        match r {
            None => !pqc_tunnel::fits_cipher(message@.len()),
            Some(frame) => {
                let envelope = sealed_envelope(cipher.key(), seq, direction, message@);
                &&& pqc_tunnel::fits_cipher(message@.len())
                &&& frame@ == wire::framed(envelope)
                &&& envelope.len() == message@.len() + 21
                &&& opened_envelope(cipher.key(), seq, direction, envelope) == Ok::<
                    _,
                    EnvelopeFault,
                >(message@)
            },
        },
{
    match cipher.encrypt(seq, direction, message) {
        Err(_) => None,
        Ok(ciphertext) => {
            proof {
                pqc_tunnel::encrypted_envelope_round_trip(seq, ciphertext@);
            }
            let envelope = pqc_tunnel::encode_encrypted(seq, ciphertext.as_slice());
            Some(wire::frame(envelope.as_slice()))
        },
    }
}

/// Opens an envelope received on stream `seq`.
pub fn open_envelope(
    cipher: &SessionCipher,
    seq: u32,
    direction: Direction,
    envelope: &[u8],
) -> (r: Result<Vec<u8>, EnvelopeError>)
    ensures
        match opened_envelope(cipher.key(), seq, direction, envelope@) {
            Ok(message) => (r matches Ok(m) && m@ == message),
            Err(fault) => (r matches Err(e) && e@ == fault),
        },
{
    let (number, ciphertext) = match pqc_tunnel::decode_encrypted(envelope) {
        Ok(v) => v,
        Err(e) => {
            let why = e.to_string();
            return Err(
                if envelope.len() > 0 && envelope[0] == PLAINTEXT_TYPE {
                    EnvelopeError::Plaintext(why)
                } else {
                    EnvelopeError::Invalid(why)
                },
            );
        },
    };
    if number != seq {
        return Err(EnvelopeError::SequenceMismatch { expected: seq, actual: number });
    }
    match cipher.decrypt(seq, direction, ciphertext) {
        Ok(message) => Ok(message),
        Err(_) => Err(EnvelopeError::DecryptionFailed),
    }
}

// ---------------------------------------------------------------------------
// Client
// ---------------------------------------------------------------------------

/// Largest response that the client reads: a message with the overhead of frame,
/// envelope and tag.
pub const MAX_RESPONSE: usize = MAX_WIRE_MESSAGE_SIZE + 512;

/// Why a request fails.
#[derive(Debug)]
pub enum RequestError {
    /// The session has used up its stream numbers.
    StreamLimit,
    /// The request is too long for the cipher.
    EncryptionFailed,
    /// The response exceeds the size limit.
    ResponseTooLarge { len: usize },
    /// The response has no room for a length prefix.
    ResponseTooShort { len: usize },
    /// The envelope in the response is refused.
    Envelope(EnvelopeError),
}

/// The contents of a `RequestError`.
#[verifier::ext_equal]
pub enum RequestFault {
    StreamLimit,
    EncryptionFailed,
    ResponseTooLarge { len: nat },
    ResponseTooShort { len: nat },
    Envelope(EnvelopeFault),
}

impl View for RequestError {
    type V = RequestFault;

    open spec fn view(&self) -> RequestFault {
        match self {
            RequestError::StreamLimit => RequestFault::StreamLimit,
            RequestError::EncryptionFailed => RequestFault::EncryptionFailed,
            RequestError::ResponseTooLarge { len } => RequestFault::ResponseTooLarge {
                len: *len as nat,
            },
            RequestError::ResponseTooShort { len } => RequestFault::ResponseTooShort {
                len: *len as nat,
            },
            RequestError::Envelope(e) => RequestFault::Envelope(e@),
        }
    }
}

impl RequestFault {
    /// The text of the error.
    pub open spec fn text(self) -> Seq<char> {
        match self {
            RequestFault::StreamLimit =>
                "session stream limit reached — reconnect required to prevent nonce reuse"@,
            RequestFault::EncryptionFailed =>
                "PQC encryption failed: PQC tunnel encryption failed"@,
            RequestFault::ResponseTooLarge { len } => "response exceeds size limit: "@
                + text::decimal(len) + " > "@ + text::decimal(MAX_RESPONSE as nat),
            RequestFault::ResponseTooShort { len } => "response too short: "@ + text::decimal(len)
                + " bytes"@,
            RequestFault::Envelope(EnvelopeFault::Plaintext(why)) => "invalid response envelope: "@
                + why,
            RequestFault::Envelope(EnvelopeFault::Invalid(why)) => "invalid response envelope: "@
                + why,
            RequestFault::Envelope(EnvelopeFault::SequenceMismatch { expected, actual }) =>
                "response sequence mismatch: expected "@ + text::decimal(expected as nat)
                + ", got "@ + text::decimal(actual as nat),
            RequestFault::Envelope(EnvelopeFault::DecryptionFailed) =>
                "PQC decryption failed: PQC tunnel decryption failed"@,
        }
    }
}

/// Two numbers behind their texts.
fn two_numbers(a: &str, x: u64, b: &str, y: u64) -> (r: String)
    ensures
        r@ == a@ + text::decimal(x as nat) + b@ + text::decimal(y as nat),
{
    let mut out = text::numbered(a, x);
    out.append(b);
    text::push_decimal(&mut out, y);
    out
}

impl RequestError {
    /// The text of the error.
    pub fn to_string(&self) -> (r: String)
        ensures
            r@ == self@.text(),
    {
        match self {
            RequestError::StreamLimit => text::plain(
                "session stream limit reached — reconnect required to prevent nonce reuse",
            ),
            RequestError::EncryptionFailed => text::plain(
                "PQC encryption failed: PQC tunnel encryption failed",
            ),
            RequestError::ResponseTooLarge { len } => two_numbers(
                "response exceeds size limit: ",
                *len as u64,
                " > ",
                MAX_RESPONSE as u64,
            ),
            RequestError::ResponseTooShort { len } => {
                let mut out = text::numbered("response too short: ", *len as u64);
                out.append(" bytes");
                out
            },
            RequestError::Envelope(e) => match e {
                EnvelopeError::Plaintext(why) => text::joined(
                    "invalid response envelope: ",
                    why.as_str(),
                ),
                EnvelopeError::Invalid(why) => text::joined(
                    "invalid response envelope: ",
                    why.as_str(),
                ),
                EnvelopeError::SequenceMismatch { expected, actual } => two_numbers(
                    "response sequence mismatch: expected ",
                    *expected as u64,
                    ", got ",
                    *actual as u64,
                ),
                EnvelopeError::DecryptionFailed => text::plain(
                    "PQC decryption failed: PQC tunnel decryption failed",
                ),
            },
        }
    }
}

/// The message in a framed response on stream `seq`, within the size limit. The length
/// prefix is skipped unread.
pub open spec fn opened_response(key: Seq<u8>, seq: u32, response: Seq<u8>) -> Result<
    Seq<u8>,
    RequestFault,
> {
    if response.len() > MAX_RESPONSE {
        Err(RequestFault::ResponseTooLarge { len: response.len() })
    } else if response.len() < 4 {
        Err(RequestFault::ResponseTooShort { len: response.len() })
    } else {
        match opened_envelope(key, seq, Direction::ServerToClient, response.skip(4)) {
            Ok(message) => Ok(message),
            Err(fault) => Err(RequestFault::Envelope(fault)),
        }
    }
}

/// A request that is ready to go onto its stream.
pub struct SealedRequest {
    /// The number of the stream.
    pub seq: u32,
    /// The bytes to write.
    pub frame: Vec<u8>,
}

/// The client side of an established session.
pub struct ClientSession {
    cipher: SessionCipher,
    streams: StreamCounter,
}

impl ClientSession {
    /// The session key.
    pub closed spec fn key(&self) -> Seq<u8> {
        self.cipher.key()
    }

    /// The number of the next stream.
    pub closed spec fn next_seq(&self) -> u32 {
        self.streams.next()
    }

    /// A session that has not used a stream yet.
    pub fn new(cipher: SessionCipher) -> (r: Self)
        ensures
            r.key() == cipher.key(),
            r.next_seq() == 1,
    {
        ClientSession { cipher, streams: StreamCounter::new() }
    }

    /// A session that goes on at a given stream number.
    pub fn resumed(cipher: SessionCipher, next_seq: u32) -> (r: Self)
        ensures
            r.key() == cipher.key(),
            r.next_seq() == next_seq,
    {
        ClientSession { cipher, streams: StreamCounter::starting_at(next_seq) }
    }

    /// Encrypts a request for the next stream. The stream number counts as used even
    /// where the request is too long to be encrypted.
    pub fn seal_request(&mut self, message: &[u8]) -> (r: Result<SealedRequest, RequestError>)
        ensures
            final(self).key() == old(self).key(),
            match r {
                Ok(request) => {
                    let envelope = sealed_envelope(
                        old(self).key(),
                        request.seq,
                        Direction::ClientToServer,
                        message@,
                    );
                    &&& counter_step(
                        old(self).next_seq(),
                        Some(request.seq),
                        final(self).next_seq(),
                    )
                    &&& request.seq == old(self).next_seq()
                    &&& request.seq < 4294967294
                    &&& final(self).next_seq() == request.seq + 1
                    &&& message@.len() <= 274877906816
                    &&& pqc_tunnel::fits_cipher(message@.len())
                    &&& request.frame@ == wire::framed(envelope)
                    &&& envelope.len() == message@.len() + 21
                    &&& opened_envelope(
                        old(self).key(),
                        request.seq,
                        Direction::ClientToServer,
                        envelope,
                    ) == Ok::<_, EnvelopeFault>(message@)
                },
                Err(e) => {
                    ||| {
                        &&& e@ == RequestFault::StreamLimit
                        &&& old(self).next_seq() >= 4294967294
                        &&& counter_step(old(self).next_seq(), None, final(self).next_seq())
                    }
                    ||| {
                        &&& e@ == RequestFault::EncryptionFailed
                        &&& message@.len() > 274877906816
                        &&& !pqc_tunnel::fits_cipher(message@.len())
                        &&& counter_step(
                            old(self).next_seq(),
                            Some(old(self).next_seq()),
                            final(self).next_seq(),
                        )
                    }
                },
            },
    {
        let seq: u32 = match self.streams.next_stream() {
            Some(seq) => seq,
            None => return Err(RequestError::StreamLimit),
        };
        match seal_frame(&self.cipher, seq, Direction::ClientToServer, message) {
            Some(frame) => Ok(SealedRequest { seq, frame }),
            None => Err(RequestError::EncryptionFailed),
        }
    }

    /// Opens the framed response on stream `seq`.
    pub fn open_response(&self, seq: u32, response: &[u8]) -> (r: Result<Vec<u8>, RequestError>)
        ensures
            match opened_response(self.key(), seq, response@) {
                Ok(message) => (r matches Ok(m) && m@ == message),
                Err(fault) => (r matches Err(e) && e@ == fault),
            },
    {
        if response.len() > MAX_RESPONSE {
            return Err(RequestError::ResponseTooLarge { len: response.len() });
        }
        if response.len() < 4 {
            return Err(RequestError::ResponseTooShort { len: response.len() });
        }
        match open_envelope(
            &self.cipher,
            seq,
            Direction::ServerToClient,
            wire::tail(response, 4),
        ) {
            Ok(message) => Ok(message),
            Err(e) => Err(RequestError::Envelope(e)),
        }
    }
}

// ---------------------------------------------------------------------------
// Server
// ---------------------------------------------------------------------------

/// Most streams that are served at the same time, over all sessions.
pub const MAX_CONCURRENT_STREAMS: usize = 64;

/// Most streams of one session that are served at the same time.
pub const MAX_STREAMS_PER_SESSION: usize = 8;

/// Largest encrypted request that the server reads.
pub const MAX_REQUEST_ENVELOPE: usize = MAX_WIRE_MESSAGE_SIZE + 256;

/// Permits to serve streams.
pub struct Permits {
    limit: usize,
    used: usize,
}

impl Permits {
    #[verifier::type_invariant]
    spec fn within_limit(self) -> bool {
        self.used <= self.limit
    }

    /// The number of permits there are.
    pub closed spec fn limit(&self) -> nat {
        self.limit as nat
    }

    /// The number of permits that are taken.
    pub closed spec fn used(&self) -> nat {
        self.used as nat
    }

    /// Permits of which none is taken.
    pub fn new(limit: usize) -> (r: Self)
        ensures
            r.limit() == limit,
            r.used() == 0,
    {
        Permits { limit, used: 0 }
    }

    /// Takes a permit if one is free.
    pub fn try_acquire(&mut self) -> (r: bool)
        ensures
            r == (old(self).used() < old(self).limit()),
            final(self).limit() == old(self).limit(),
            final(self).used() == old(self).used() + if r {
                1int
            } else {
                0
            },
            final(self).used() <= final(self).limit(),
    {
        proof {
            use_type_invariant(&*self);
        }
        if self.used < self.limit {
            self.used = self.used + 1;
            true
        } else {
            false
        }
    }

    /// Whether a permit is taken.
    pub fn any_used(&self) -> (r: bool)
        ensures
            r == (self.used() > 0),
    {
        self.used > 0
    }

    /// Gives a permit back.
    pub fn release(&mut self)
        ensures
            final(self).limit() == old(self).limit(),
            final(self).used() == if old(self).used() > 0 {
                old(self).used() - 1
            } else {
                0
            },
            final(self).used() <= final(self).limit(),
    {
        proof {
            use_type_invariant(&*self);
        }
        if self.used > 0 {
            self.used = self.used - 1;
        }
    }
}

/// How far a session has come.
#[derive(Debug, Clone, Copy, PartialEq, Eq, Structural)]
pub enum Phase {
    /// No stream has been opened.
    Fresh,
    /// The first stream is being used for the handshake.
    Handshaking,
    /// The handshake has succeeded.
    Established,
    /// The session is over.
    Closed,
}

/// What the server does with a new stream.
#[derive(Debug, Clone, Copy, PartialEq, Eq, Structural)]
pub enum StreamAction {
    /// Perform the handshake on the stream.
    Handshake,
    /// Close the session.
    CloseSession,
    /// Serve the stream under this number.
    Serve(u32),
    /// Drop the stream: too many streams are being served over all sessions.
    DropOverloaded,
    /// Drop the stream: too many streams of this session are being served.
    DropSessionOverloaded,
}

/// The state of a session on the server.
#[verifier::ext_equal]
pub struct SessionView {
    pub phase: Phase,
    /// The number of the next stream.
    pub next: u32,
    /// The number of streams that are being served.
    pub active: nat,
}

/// What happens to a session on the server.
pub enum SessionEvent {
    /// The client opened a stream; says whether a permit over all sessions was free.
    StreamOpened { global_free: bool },
    /// The handshake ended.
    HandshakeDone { success: bool },
    /// The envelope on a stream that is being served was refused.
    EnvelopeRefused(EnvelopeFault),
    /// A stream that was being served is done.
    StreamDone,
}

impl SessionView {
    /// A session of which nothing has happened yet.
    pub open spec fn fresh() -> SessionView {
        SessionView { phase: Phase::Fresh, next: 1, active: 0 }
    }

    /// The state after a stream was opened, and what is done with the stream. Only the
    /// streams after a successful handshake count, dropped ones too.
    pub open spec fn stream_opened(self, global_free: bool) -> (SessionView, StreamAction) {
        match self.phase {
            Phase::Fresh => (
                SessionView { phase: Phase::Handshaking, ..self },
                StreamAction::Handshake,
            ),
            Phase::Established => if self.next >= MAX_STREAM_SEQ {
                (SessionView { phase: Phase::Closed, ..self }, StreamAction::CloseSession)
            } else {
                let counted = SessionView { next: (self.next + 1) as u32, ..self };
                if !global_free {
                    (counted, StreamAction::DropOverloaded)
                } else if self.active >= MAX_STREAMS_PER_SESSION {
                    (counted, StreamAction::DropSessionOverloaded)
                } else {
                    (
                        SessionView { active: self.active + 1, ..counted },
                        StreamAction::Serve(self.next),
                    )
                }
            },
            _ => (SessionView { phase: Phase::Closed, ..self }, StreamAction::CloseSession),
        }
    }

    /// The state after the handshake ended.
    pub open spec fn handshake_done(self, success: bool) -> SessionView {
        if self.phase == Phase::Handshaking && success {
            SessionView { phase: Phase::Established, ..self }
        } else {
            SessionView { phase: Phase::Closed, ..self }
        }
    }

    /// The state after an envelope was refused: a message sent past the tunnel ends the
    /// session, anything else only costs the client its stream.
    pub open spec fn envelope_refused(self, fault: EnvelopeFault) -> SessionView {
        match fault {
            EnvelopeFault::Plaintext(_) => SessionView { phase: Phase::Closed, ..self },
            _ => self,
        }
    }

    /// The state after a stream that was being served is done.
    pub open spec fn stream_done(self) -> SessionView {
        SessionView {
            active: if self.active > 0 {
                (self.active - 1) as nat
            } else {
                0
            },
            ..self
        }
    }

    /// The state after an event, and what is done with the stream where one was opened.
    pub open spec fn step(self, event: SessionEvent) -> (SessionView, Option<StreamAction>) {
        match event {
            SessionEvent::StreamOpened { global_free } => {
                let (after, action) = self.stream_opened(global_free);
                (after, Some(action))
            },
            SessionEvent::HandshakeDone { success } => (self.handshake_done(success), None),
            SessionEvent::EnvelopeRefused(fault) => (self.envelope_refused(fault), None),
            SessionEvent::StreamDone => (self.stream_done(), None),
        }
    }
}

/// A session on the server: the handshake on the first stream, then requests on the
/// following ones.
pub struct ServerSession {
    phase: Phase,
    streams: StreamCounter,
    permits: Permits,
}

impl View for ServerSession {
    type V = SessionView;

    closed spec fn view(&self) -> SessionView {
        SessionView {
            phase: self.phase,
            next: self.streams.next(),
            active: self.permits.used(),
        }
    }
}

impl ServerSession {
    #[verifier::type_invariant]
    spec fn session_limit(self) -> bool {
        self.permits.limit() == MAX_STREAMS_PER_SESSION
    }

    /// A session of which nothing has happened yet.
    pub fn new() -> (r: Self)
        ensures
            r@ == SessionView::fresh(),
    {
        ServerSession {
            phase: Phase::Fresh,
            streams: StreamCounter::new(),
            permits: Permits::new(MAX_STREAMS_PER_SESSION),
        }
    }

    /// Decides what to do with a stream that the client opened. A stream that is served
    /// takes a permit of the session and one of `global`; any other takes none.
    pub fn stream_opened(&mut self, global: &mut Permits) -> (r: StreamAction)
        ensures
            (final(self)@, r) == old(self)@.stream_opened(old(global).used() < old(global).limit()),
            final(global).limit() == old(global).limit(),
            final(global).used() == old(global).used() + if r is Serve {
                1int
            } else {
                0
            },
    {
        proof {
            use_type_invariant(&*self);
        }
        let mut streams = StreamCounter::starting_at(0);
        let mut permits = Permits::new(MAX_STREAMS_PER_SESSION);
        std::mem::swap(&mut streams, &mut self.streams);
        std::mem::swap(&mut permits, &mut self.permits);
        let (phase, action) = match self.phase {
            Phase::Fresh => (Phase::Handshaking, StreamAction::Handshake),
            Phase::Established => match streams.next_stream() {
                None => (Phase::Closed, StreamAction::CloseSession),
                Some(seq) => if !global.try_acquire() {
                    (Phase::Established, StreamAction::DropOverloaded)
                } else if !permits.try_acquire() {
                    global.release();
                    (Phase::Established, StreamAction::DropSessionOverloaded)
                } else {
                    (Phase::Established, StreamAction::Serve(seq))
                },
            },
            Phase::Handshaking => (Phase::Closed, StreamAction::CloseSession),
            Phase::Closed => (Phase::Closed, StreamAction::CloseSession),
        };
        *self = ServerSession { phase, streams, permits };
        action
    }

    /// Takes note of how the handshake ended.
    pub fn handshake_done(&mut self, success: bool)
        ensures
            final(self)@ == old(self)@.handshake_done(success),
    {
        proof {
            use_type_invariant(&*self);
        }
        let phase = match self.phase {
            Phase::Handshaking => if success {
                Phase::Established
            } else {
                Phase::Closed
            },
            _ => Phase::Closed,
        };
        self.phase = phase;
    }

    /// Takes note of why the envelope on a stream was refused. Says whether the session
    /// is to be closed: it is where the message was sent past the tunnel.
    pub fn envelope_refused(&mut self, error: &EnvelopeError) -> (r: bool)
        ensures
            final(self)@ == old(self)@.envelope_refused(error@),
            r == (error@ is Plaintext),
            r ==> final(self)@.phase == Phase::Closed,
            !r ==> final(self)@ == old(self)@,
    {
        proof {
            use_type_invariant(&*self);
        }
        match error {
            EnvelopeError::Plaintext(_) => {
                self.phase = Phase::Closed;
                true
            },
            _ => false,
        }
    }

    /// Takes note that a stream that was being served is done: its permits are free
    /// again.
    pub fn stream_done(&mut self, global: &mut Permits)
        ensures
            final(self)@ == old(self)@.stream_done(),
            final(global).limit() == old(global).limit(),
            final(global).used() == if old(self)@.active > 0 && old(global).used() > 0 {
                old(global).used() - 1
            } else {
                old(global).used() as int
            },
    {
        proof {
            use_type_invariant(&*self);
        }
        let mut permits = Permits::new(MAX_STREAMS_PER_SESSION);
        std::mem::swap(&mut permits, &mut self.permits);
        if permits.any_used() {
            permits.release();
            global.release();
        }
        self.permits = permits;
    }
}

/// Whether states, events and actions are a run of one session on the server: a session
/// starts fresh, and only a stream that is being served can end.
pub open spec fn session_run(
    states: Seq<SessionView>,
    events: Seq<SessionEvent>,
    actions: Seq<Option<StreamAction>>,
) -> bool {
    &&& states.len() == events.len() + 1
    &&& actions.len() == events.len()
    &&& states[0] == SessionView::fresh()
    &&& forall|i: int|
        #![trigger events[i]]
        0 <= i < events.len() ==> {
            &&& (states[i + 1], actions[i]) == states[i].step(events[i])
            &&& events[i] is StreamDone ==> states[i].active > 0
        }
}

/// The number of streams that the client opened in these events.
pub open spec fn opened_streams(events: Seq<SessionEvent>) -> nat
    decreases events.len(),
{
    if events.len() == 0 {
        0
    } else {
        opened_streams(events.drop_last()) + if events.last() is StreamOpened {
            1nat
        } else {
            0
        }
    }
}

/// The number of streams that ended in these events.
pub open spec fn ended_streams(events: Seq<SessionEvent>) -> nat
    decreases events.len(),
{
    if events.len() == 0 {
        0
    } else {
        ended_streams(events.drop_last()) + if events.last() is StreamDone {
            1nat
        } else {
            0
        }
    }
}

/// The number of streams that these actions serve.
pub open spec fn served_streams(actions: Seq<Option<StreamAction>>) -> nat
    decreases actions.len(),
{
    if actions.len() == 0 {
        0
    } else {
        served_streams(actions.drop_last()) + if actions.last() matches Some(
            StreamAction::Serve(_),
        ) {
            1nat
        } else {
            0
        }
    }
}

proof fn lemma_session_run(
    states: Seq<SessionView>,
    events: Seq<SessionEvent>,
    actions: Seq<Option<StreamAction>>,
    i: int,
)
    requires
        session_run(states, events, actions),
        0 <= i < states.len(),
    ensures
        states[i].active <= MAX_STREAMS_PER_SESSION,
        served_streams(actions.take(i)) == states[i].active + ended_streams(events.take(i)),
        states[i].next <= MAX_STREAM_SEQ,
        states[i].phase == Phase::Fresh ==> {
            &&& opened_streams(events.take(i)) == 0
            &&& states[i].next == 1
        },
        states[i].phase == Phase::Handshaking ==> {
            &&& opened_streams(events.take(i)) == 1
            &&& states[i].next == 1
        },
        states[i].phase == Phase::Established ==> {
            &&& opened_streams(events.take(i)) == states[i].next
            &&& exists|j: int|
                0 <= j < i && #[trigger] events[j] == (SessionEvent::HandshakeDone {
                    success: true,
                })
        },
    decreases i,
{
    if i == 0 {
        assert(events.take(0).len() == 0);
        assert(actions.take(0).len() == 0);
    } else {
        lemma_session_run(states, events, actions, i - 1);
        let event = events[i - 1];
        assert((states[i - 1 + 1], actions[i - 1]) == states[i - 1].step(event));
        assert(events.take(i).drop_last() =~= events.take(i - 1));
        assert(events.take(i).last() == event);
        assert(actions.take(i).drop_last() =~= actions.take(i - 1));
        assert(actions.take(i).last() == actions[i - 1]);
        if states[i].phase == Phase::Established && states[i - 1].phase == Phase::Established {
            let j = choose|j: int|
                0 <= j < i - 1 && #[trigger] events[j] == (SessionEvent::HandshakeDone {
                    success: true,
                });
            assert(events[j] == (SessionEvent::HandshakeDone { success: true }));
        }
    }
}

/// Never more than the allowed number of a session's streams are being served at once:
/// at every point of a run, the state counts the streams that were served and have not
/// ended, and they are at most that many.
pub proof fn handlers_are_limited(
    states: Seq<SessionView>,
    events: Seq<SessionEvent>,
    actions: Seq<Option<StreamAction>>,
    i: int,
)
    requires
        session_run(states, events, actions),
        0 <= i <= events.len(),
    ensures
        states[i].active == served_streams(actions.take(i)) - ended_streams(events.take(i)),
        states[i].active <= MAX_STREAMS_PER_SESSION,
{
    lemma_session_run(states, events, actions, i);
}

/// The first stream of a session is the handshake, and no stream is served before a
/// handshake has succeeded.
pub proof fn handshake_comes_first(
    states: Seq<SessionView>,
    events: Seq<SessionEvent>,
    actions: Seq<Option<StreamAction>>,
    i: int,
)
    requires
        session_run(states, events, actions),
        0 <= i < events.len(),
    ensures
        actions[i] == Some(StreamAction::Handshake) ==> opened_streams(events.take(i)) == 0,
        actions[i] matches Some(StreamAction::Serve(_)) ==> exists|j: int|
            0 <= j < i && #[trigger] events[j] == (SessionEvent::HandshakeDone { success: true }),
        i == 0 && events[0] is StreamOpened ==> actions[0] == Some(StreamAction::Handshake),
{
    lemma_session_run(states, events, actions, i);
    assert((states[i + 1], actions[i]) == states[i].step(events[i]));
}

/// A stream is served under its place in the session: the one that was opened after `k`
/// others has the number `k`, the handshake's stream and dropped streams counted. The
/// numbers end before they could repeat.
pub proof fn streams_keep_their_place(
    states: Seq<SessionView>,
    events: Seq<SessionEvent>,
    actions: Seq<Option<StreamAction>>,
    i: int,
)
    requires
        session_run(states, events, actions),
        0 <= i < events.len(),
    ensures
        actions[i] matches Some(StreamAction::Serve(seq)) ==> seq == opened_streams(events.take(i))
            && 1 <= seq < MAX_STREAM_SEQ,
        events[i] is StreamOpened && opened_streams(events.take(i)) >= MAX_STREAM_SEQ
            ==> actions[i] == Some(StreamAction::CloseSession),
{
    lemma_session_run(states, events, actions, i);
    assert((states[i + 1], actions[i]) == states[i].step(events[i]));
    if actions[i] matches Some(StreamAction::Serve(_)) {
        lemma_numbers_start_at_one(states, events, actions, i);
    }
}

proof fn lemma_numbers_start_at_one(
    states: Seq<SessionView>,
    events: Seq<SessionEvent>,
    actions: Seq<Option<StreamAction>>,
    i: int,
)
    requires
        session_run(states, events, actions),
        0 <= i < states.len(),
    ensures
        states[i].next >= 1,
    decreases i,
{
    if i > 0 {
        lemma_numbers_start_at_one(states, events, actions, i - 1);
        assert((states[i - 1 + 1], actions[i - 1]) == states[i - 1].step(events[i - 1]));
    }
}

proof fn lemma_next_grows(
    states: Seq<SessionView>,
    events: Seq<SessionEvent>,
    actions: Seq<Option<StreamAction>>,
    i: int,
    j: int,
)
    requires
        session_run(states, events, actions),
        0 <= i <= j < states.len(),
    ensures
        states[i].next <= states[j].next,
    decreases j - i,
{
    if i < j {
        lemma_next_grows(states, events, actions, i, j - 1);
        assert((states[j - 1 + 1], actions[j - 1]) == states[j - 1].step(events[j - 1]));
    }
}

/// Two served streams of a session differ in all their nonces.
pub proof fn served_streams_share_no_nonce(
    states: Seq<SessionView>,
    events: Seq<SessionEvent>,
    actions: Seq<Option<StreamAction>>,
    i: int,
    j: int,
    di: Direction,
    dj: Direction,
)
    requires
        session_run(states, events, actions),
        0 <= i < j < events.len(),
        actions[i] matches Some(StreamAction::Serve(_)),
        actions[j] matches Some(StreamAction::Serve(_)),
    ensures
        actions[i] matches Some(StreamAction::Serve(a)) && actions[j] matches Some(
            StreamAction::Serve(b),
        ) && a < b && pqc_tunnel::nonce(a, di) != pqc_tunnel::nonce(b, dj),
{
    assert((states[i + 1], actions[i]) == states[i].step(events[i]));
    assert((states[j + 1], actions[j]) == states[j].step(events[j]));
    lemma_next_grows(states, events, actions, i + 1, j);
    pqc_tunnel::nonces_are_unique(states[i].next, di, states[j].next, dj);
}

/// A closed session stays closed: none of its streams is served any more.
pub proof fn closed_server_sessions_stay_closed(
    states: Seq<SessionView>,
    events: Seq<SessionEvent>,
    actions: Seq<Option<StreamAction>>,
    i: int,
    j: int,
)
    requires
        session_run(states, events, actions),
        0 <= i <= j < events.len(),
        states[i].phase == Phase::Closed,
    ensures
        states[j].phase == Phase::Closed,
        !(actions[j] matches Some(StreamAction::Serve(_))),
    decreases j - i,
{
    assert((states[j + 1], actions[j]) == states[j].step(events[j]));
    if i < j {
        assert((states[i + 1], actions[i]) == states[i].step(events[i]));
        closed_server_sessions_stay_closed(states, events, actions, i + 1, j);
    }
}

/// After a failed handshake, and after the decision to close the session, no stream is
/// served.
pub proof fn failed_handshakes_end_the_session(
    states: Seq<SessionView>,
    events: Seq<SessionEvent>,
    actions: Seq<Option<StreamAction>>,
    i: int,
    j: int,
)
    requires
        session_run(states, events, actions),
        0 <= i < j < events.len(),
        events[i] == (SessionEvent::HandshakeDone { success: false }) || actions[i] == Some(
            StreamAction::CloseSession,
        ),
    ensures
        !(actions[j] matches Some(StreamAction::Serve(_))),
{
    assert((states[i + 1], actions[i]) == states[i].step(events[i]));
    closed_server_sessions_stay_closed(states, events, actions, i + 1, j);
}

/// After an envelope with the type byte of plaintext was received on any stream, no
/// further stream of the session is served.
pub proof fn plaintext_ends_the_session(
    states: Seq<SessionView>,
    events: Seq<SessionEvent>,
    actions: Seq<Option<StreamAction>>,
    key: Seq<u8>,
    seq: u32,
    envelope: Seq<u8>,
    i: int,
    j: int,
)
    requires
        session_run(states, events, actions),
        0 <= i < j < events.len(),
        is_plaintext(envelope),
        opened_envelope(key, seq, Direction::ClientToServer, envelope) matches Err(fault)
            && events[i] == SessionEvent::EnvelopeRefused(fault),
    ensures
        !(actions[j] matches Some(StreamAction::Serve(_))),
{
    assert((states[i + 1], actions[i]) == states[i].step(events[i]));
    closed_server_sessions_stay_closed(states, events, actions, i + 1, j);
}

/// Any other refused envelope leaves the session as it is.
pub proof fn other_refused_envelopes_cost_their_stream_alone(
    state: SessionView,
    key: Seq<u8>,
    seq: u32,
    envelope: Seq<u8>,
)
    requires
        !is_plaintext(envelope),
    ensures
        opened_envelope(key, seq, Direction::ClientToServer, envelope) matches Err(fault) ==> (
        state.step(SessionEvent::EnvelopeRefused(fault)) == (state, None::<StreamAction>)),
{
}

/// A stream for which there is no permit is dropped and the session goes on: the stream
/// after it is served as soon as there are permits.
pub proof fn overload_drops_the_stream_alone(state: SessionView, global_free: bool)
    requires
        state.phase == Phase::Established,
        state.next + 1 < MAX_STREAM_SEQ,
        !global_free || state.active >= MAX_STREAMS_PER_SESSION,
    ensures
        state.stream_opened(global_free).1 == if global_free {
            StreamAction::DropSessionOverloaded
        } else {
            StreamAction::DropOverloaded
        },
        ({
            let after = state.stream_opened(global_free).0;
            &&& after.phase == Phase::Established
            &&& after.active == state.active
            &&& after.active < MAX_STREAMS_PER_SESSION ==> after.stream_opened(true).1
                == StreamAction::Serve((state.next + 1) as u32)
            &&& after.active > 0 && after.active <= MAX_STREAMS_PER_SESSION
                ==> after.stream_done().stream_opened(true).1 == StreamAction::Serve(
                (state.next + 1) as u32,
            )
        }),
{
}

/// The number of streams that are being served over all sessions.
pub open spec fn active_streams(sessions: Seq<SessionView>) -> nat
    decreases sessions.len(),
{
    if sessions.len() == 0 {
        0
    } else {
        active_streams(sessions.drop_last()) + sessions.last().active
    }
}

/// The state of a server: its sessions, and the permits that are taken over all of them.
#[verifier::ext_equal]
pub struct ServerView {
    pub sessions: Seq<SessionView>,
    pub used: nat,
}

/// What happens on a server.
pub enum ServerEvent {
    /// A client starts a session.
    SessionAccepted,
    /// The client of a session opens a stream.
    StreamOpened(int),
    /// The handshake of a session ended.
    HandshakeDone(int, bool),
    /// The envelope on a stream of a session was refused.
    EnvelopeRefused(int, EnvelopeFault),
    /// A stream of a session that was being served is done.
    StreamDone(int),
}

impl ServerView {
    /// A server without sessions.
    pub open spec fn idle() -> ServerView {
        ServerView { sessions: Seq::empty(), used: 0 }
    }

    /// The state after an event, where that event can happen.
    pub open spec fn step(self, event: ServerEvent) -> Option<ServerView> {
        match event {
            ServerEvent::SessionAccepted => Some(
                ServerView { sessions: self.sessions.push(SessionView::fresh()), ..self },
            ),
            ServerEvent::StreamOpened(k) => if 0 <= k < self.sessions.len() {
                let free = self.used < MAX_CONCURRENT_STREAMS;
                let (after, action) = self.sessions[k].stream_opened(free);
                Some(
                    ServerView {
                        sessions: self.sessions.update(k, after),
                        used: if action is Serve {
                            self.used + 1
                        } else {
                            self.used
                        },
                    },
                )
            } else {
                None
            },
            ServerEvent::HandshakeDone(k, success) => if 0 <= k < self.sessions.len() {
                let after = self.sessions[k].handshake_done(success);
                Some(ServerView { sessions: self.sessions.update(k, after), ..self })
            } else {
                None
            },
            ServerEvent::EnvelopeRefused(k, fault) => if 0 <= k < self.sessions.len() {
                let after = self.sessions[k].envelope_refused(fault);
                Some(ServerView { sessions: self.sessions.update(k, after), ..self })
            } else {
                None
            },
            ServerEvent::StreamDone(k) => if 0 <= k < self.sessions.len()
                && self.sessions[k].active > 0 && self.used > 0 {
                let after = self.sessions[k].stream_done();
                Some(
                    ServerView {
                        sessions: self.sessions.update(k, after),
                        used: (self.used - 1) as nat,
                    },
                )
            } else {
                None
            },
        }
    }
}

/// Whether states and events are a run of a server.
pub open spec fn server_run(states: Seq<ServerView>, events: Seq<ServerEvent>) -> bool {
    &&& states.len() == events.len() + 1
    &&& states[0] == ServerView::idle()
    &&& forall|i: int|
        #![trigger events[i]]
        0 <= i < events.len() ==> states[i].step(events[i]) == Some(states[i + 1])
}

proof fn lemma_active_update(sessions: Seq<SessionView>, k: int, after: SessionView)
    requires
        0 <= k < sessions.len(),
    ensures
        active_streams(sessions.update(k, after)) == active_streams(sessions) - sessions[k].active
            + after.active,
        active_streams(sessions) >= sessions[k].active,
    decreases sessions.len(),
{
    let updated = sessions.update(k, after);
    if k == sessions.len() - 1 {
        assert(updated.drop_last() =~= sessions.drop_last());
    } else {
        lemma_active_update(sessions.drop_last(), k, after);
        assert(updated.drop_last() =~= sessions.drop_last().update(k, after));
    }
}

/// Every stream that is being served holds one of the permits over all sessions, so there
/// are never more of them than there are permits. In no session are there more than the
/// number allowed for one.
pub proof fn every_handler_holds_a_permit(
    states: Seq<ServerView>,
    events: Seq<ServerEvent>,
    i: int,
)
    requires
        server_run(states, events),
        0 <= i <= events.len(),
    ensures
        states[i].used == active_streams(states[i].sessions),
        states[i].used <= MAX_CONCURRENT_STREAMS,
        forall|k: int|
            0 <= k < states[i].sessions.len() ==> (#[trigger] states[i].sessions[k]).active
                <= MAX_STREAMS_PER_SESSION,
    decreases i,
{
    if i > 0 {
        every_handler_holds_a_permit(states, events, i - 1);
        let before = states[i - 1];
        let event = events[i - 1];
        assert(before.step(event) == Some(states[i - 1 + 1]));
        match event {
            ServerEvent::SessionAccepted => {
                assert(states[i].sessions.drop_last() =~= before.sessions);
            },
            ServerEvent::StreamOpened(k) => {
                lemma_active_update(before.sessions, k, states[i].sessions[k]);
            },
            ServerEvent::HandshakeDone(k, _) => {
                lemma_active_update(before.sessions, k, states[i].sessions[k]);
            },
            ServerEvent::EnvelopeRefused(k, _) => {
                lemma_active_update(before.sessions, k, states[i].sessions[k]);
            },
            ServerEvent::StreamDone(k) => {
                lemma_active_update(before.sessions, k, states[i].sessions[k]);
            },
        }
    }
}

/// The end of a stream that is being served is always possible, and gives its permits
/// back.
pub proof fn ended_streams_free_their_permits(
    states: Seq<ServerView>,
    events: Seq<ServerEvent>,
    i: int,
    k: int,
)
    requires
        server_run(states, events),
        0 <= i <= events.len(),
        0 <= k < states[i].sessions.len(),
        states[i].sessions[k].active > 0,
    ensures
        states[i].step(ServerEvent::StreamDone(k)) matches Some(after) && after.used
            == states[i].used - 1 && after.sessions[k].active == states[i].sessions[k].active - 1,
{
    every_handler_holds_a_permit(states, events, i);
    lemma_active_update(states[i].sessions, k, states[i].sessions[k]);
}

/// The length of the request envelope that a four-byte prefix announces, or the
/// announced length where it exceeds the limit.
pub fn request_length(prefix: [u8; 4]) -> (r: Result<usize, usize>)
    ensures
        match r {
            Ok(len) => len == wire::from_be32(prefix@) && len <= MAX_REQUEST_ENVELOPE && len
                <= 5243136,
            Err(len) => len == wire::from_be32(prefix@) && len > MAX_REQUEST_ENVELOPE && len
                > 5243136,
        },
{
    stream::announced_length(prefix, MAX_REQUEST_ENVELOPE)
}

/// Opens the request envelope on stream `seq`.
pub fn open_request(cipher: &SessionCipher, seq: u32, envelope: &[u8]) -> (r: Result<
    Vec<u8>,
    EnvelopeError,
>)
    ensures
        match opened_envelope(cipher.key(), seq, Direction::ClientToServer, envelope@) {
            Ok(message) => (r matches Ok(m) && m@ == message),
            Err(fault) => (r matches Err(e) && e@ == fault),
        },
{
    open_envelope(cipher, seq, Direction::ClientToServer, envelope)
}

/// Encrypts a response into the frame that goes onto stream `seq`, unless it is too
/// long for the cipher. A client with the same session key reads the response from the
/// frame, as long as the frame is within its limit.
pub fn seal_response(cipher: &SessionCipher, seq: u32, response: &[u8]) -> (r: Option<Vec<u8>>)
    ensures
        match r {
            None => !pqc_tunnel::fits_cipher(response@.len()),
            Some(frame) => {
                &&& pqc_tunnel::fits_cipher(response@.len())
                &&& frame@ == wire::framed(
                    sealed_envelope(cipher.key(), seq, Direction::ServerToClient, response@),
                )
                &&& frame@.len() == response@.len() + 25
                &&& opened_response(cipher.key(), seq, frame@) == if frame@.len() <= MAX_RESPONSE {
                    Ok::<_, RequestFault>(response@)
                } else {
                    Err(RequestFault::ResponseTooLarge { len: frame@.len() })
                }
            },
        },
{
    let r = seal_frame(cipher, seq, Direction::ServerToClient, response);
    proof {
        let envelope = sealed_envelope(
            cipher.key(),
            seq,
            Direction::ServerToClient,
            response@,
        );
        assert(wire::framed(envelope).skip(4) =~= envelope);
    }
    r
}

// ---------------------------------------------------------------------------
// Layout
// ---------------------------------------------------------------------------

/// A counter gives out its number and goes on to the next, up to 2^32 - 3; then it gives
/// out none.
pub proof fn counters_count(before: u32, number: Option<u32>, after: u32)
    ensures
        counter_step(before, number, after) <==> if before < 4294967294 {
            number == Some(before) && after == before + 1
        } else {
            number is None && after == before
        },
{
}

/// The envelope of a message is 3, the stream's number in four bytes, and the message
/// encrypted under the session key and the nonce of stream and direction.
pub proof fn envelopes_hold_the_sealed_message(
    key: Seq<u8>,
    seq: u32,
    direction: Direction,
    message: Seq<u8>,
)
    ensures
        ({
            let envelope = sealed_envelope(key, seq, direction, message);
            &&& envelope[0] == 3
            &&& envelope[1] * 16777216 + envelope[2] * 65536 + envelope[3] * 256 + envelope[4]
                == seq
            &&& envelope.skip(5) == pqc_tunnel::chacha20poly1305_sealed(
                key,
                pqc_tunnel::nonce(seq, direction),
                message,
            )
        }),
{
    pqc_tunnel::encrypted_envelopes_have_their_layout(
        seq,
        pqc_tunnel::sealed(key, seq, direction, message),
    );
}

/// An envelope is opened exactly where it has type 3 and the stream's number, and what
/// follows decrypts under the session key and the nonce of stream and direction.
pub proof fn envelopes_are_opened_by_key_and_number(
    key: Seq<u8>,
    seq: u32,
    direction: Direction,
    envelope: Seq<u8>,
    message: Seq<u8>,
)
    ensures
        opened_envelope(key, seq, direction, envelope) == Ok::<_, EnvelopeFault>(message) <==> {
            &&& 5 <= envelope.len() <= 274877906837
            &&& envelope[0] == 3
            &&& envelope[1] * 16777216 + envelope[2] * 65536 + envelope[3] * 256 + envelope[4]
                == seq
            &&& pqc_tunnel::chacha20poly1305_opened(
                key,
                pqc_tunnel::nonce(seq, direction),
                envelope.skip(5),
            ) == Some(message)
        },
{
    pqc_tunnel::encrypted_envelopes_are_read_by_position(envelope);
}

/// An envelope that is refused is refused for the first reason that holds: type 0, too
/// short, another type, another stream, or that it does not decrypt.
pub proof fn refused_envelopes_give_the_first_reason(
    key: Seq<u8>,
    seq: u32,
    direction: Direction,
    envelope: Seq<u8>,
)
    ensures
        is_plaintext(envelope) <==> envelope.len() > 0 && envelope[0] == 0,
        opened_envelope(key, seq, direction, envelope) matches Err(fault) ==> {
            let number = envelope[1] * 16777216 + envelope[2] * 65536 + envelope[3] * 256
                + envelope[4];
            let why = "invalid PQC envelope: "@ + if envelope.len() < 5 {
                "Encrypted envelope too short: "@ + text::decimal(envelope.len()) + " bytes"@
            } else {
                "expected Encrypted type 0x03, got 0x"@ + text::hex_text(seq![envelope[0]])
            };
            if envelope.len() > 0 && envelope[0] == 0 {
                fault == EnvelopeFault::Plaintext(why)
            } else if envelope.len() < 5 || envelope[0] != 3 {
                fault == EnvelopeFault::Invalid(why)
            } else if number != seq {
                fault == (EnvelopeFault::SequenceMismatch { expected: seq, actual: number as u32 })
            } else {
                fault == EnvelopeFault::DecryptionFailed
            }
        },
{
    pqc_tunnel::encrypted_envelopes_are_read_by_position(envelope);
}

/// A response is opened as the envelope behind its first four bytes, in the direction to
/// the client, unless it is beyond the limit or has no such bytes.
pub proof fn responses_are_opened_behind_their_length(key: Seq<u8>, seq: u32, response: Seq<u8>)
    ensures
        response.len() > 5243392 ==> opened_response(key, seq, response) == Err::<Seq<u8>, _>(
            (RequestFault::ResponseTooLarge { len: response.len() }),
        ),
        response.len() < 4 ==> opened_response(key, seq, response) == Err::<Seq<u8>, _>(
            (RequestFault::ResponseTooShort { len: response.len() }),
        ),
        4 <= response.len() <= 5243392 ==> match opened_envelope(
            key,
            seq,
            Direction::ServerToClient,
            response.skip(4),
        ) {
            Ok(message) => opened_response(key, seq, response) == Ok::<_, RequestFault>(message),
            Err(fault) => opened_response(key, seq, response) == Err::<Seq<u8>, _>(
                RequestFault::Envelope(fault),
            ),
        },
{
}

/// What becomes of a session: a fresh one makes its first stream the handshake; a
/// successful handshake establishes it and anything else ends it; an established one
/// serves a stream under the next number where there is a permit of both kinds.
pub proof fn sessions_go_from_handshake_to_streams(state: SessionView, global_free: bool)
    ensures
        SessionView::fresh() == (SessionView { phase: Phase::Fresh, next: 1, active: 0 }),
        state.phase == Phase::Fresh ==> state.stream_opened(global_free) == (
            SessionView { phase: Phase::Handshaking, ..state },
            StreamAction::Handshake,
        ),
        state.phase == Phase::Handshaking ==> state.handshake_done(true) == (SessionView {
            phase: Phase::Established,
            ..state
        }),
        state.phase != Phase::Handshaking || !global_free ==> state.handshake_done(global_free) == (
        SessionView { phase: Phase::Closed, ..state }),
        state.phase == Phase::Established && state.next < 4294967294 ==> {
            let counted = SessionView { next: (state.next + 1) as u32, ..state };
            &&& global_free && state.active < 8 ==> state.stream_opened(global_free) == (
                SessionView { active: state.active + 1, ..counted },
                StreamAction::Serve(state.next),
            )
            &&& !global_free ==> state.stream_opened(global_free) == (
                counted,
                StreamAction::DropOverloaded,
            )
            &&& global_free && state.active >= 8 ==> state.stream_opened(global_free) == (
                counted,
                StreamAction::DropSessionOverloaded,
            )
        },
        state.phase == Phase::Established && state.next >= 4294967294 || state.phase
            == Phase::Closed ==> state.stream_opened(global_free) == (
            SessionView { phase: Phase::Closed, ..state },
            StreamAction::CloseSession,
        ),
        state.stream_done().phase == state.phase,
        state.stream_done().next == state.next,
        state.active > 0 ==> state.stream_done().active == state.active - 1,
        state.active == 0 ==> state.stream_done().active == 0,
{
}

/// An event does what its name says, and only a new stream calls for an action.
pub proof fn events_do_what_they_say(
    state: SessionView,
    flag: bool,
    fault: EnvelopeFault,
)
    ensures
        state.step(SessionEvent::StreamOpened { global_free: flag }) == (
            state.stream_opened(flag).0,
            Some(state.stream_opened(flag).1),
        ),
        state.step(SessionEvent::HandshakeDone { success: flag }) == (
            state.handshake_done(flag),
            None::<StreamAction>,
        ),
        state.step(SessionEvent::EnvelopeRefused(fault)) == (
            state.envelope_refused(fault),
            None::<StreamAction>,
        ),
        state.step(SessionEvent::StreamDone) == (state.stream_done(), None::<StreamAction>),
        fault is Plaintext ==> state.envelope_refused(fault) == (SessionView {
            phase: Phase::Closed,
            ..state
        }),
        !(fault is Plaintext) ==> state.envelope_refused(fault) == state,
{
}

/// Streams are counted one by one.
pub proof fn streams_are_counted_one_by_one(
    events: Seq<SessionEvent>,
    event: SessionEvent,
    actions: Seq<Option<StreamAction>>,
    action: Option<StreamAction>,
)
    ensures
        opened_streams(seq![]) == 0,
        ended_streams(seq![]) == 0,
        served_streams(seq![]) == 0,
        opened_streams(events.push(event)) == opened_streams(events) + if event is StreamOpened {
            1int
        } else {
            0
        },
        ended_streams(events.push(event)) == ended_streams(events) + if event is StreamDone {
            1int
        } else {
            0
        },
        served_streams(actions.push(action)) == served_streams(actions) + if action is Some
            && action->0 is Serve {
            1int
        } else {
            0
        },
{
    assert(events.push(event).drop_last() =~= events);
    assert(actions.push(action).drop_last() =~= actions);
}

proof fn lemma_established(
    states: Seq<SessionView>,
    events: Seq<SessionEvent>,
    actions: Seq<Option<StreamAction>>,
    i: int,
)
    requires
        session_run(states, events, actions),
        2 <= i < states.len(),
        events[0] is StreamOpened,
        events[1] == (SessionEvent::HandshakeDone { success: true }),
        opened_streams(events.take(i)) <= 4294967294,
        forall|j: int|
            #![trigger events[j]]
            2 <= j < i ==> match events[j] {
                SessionEvent::StreamOpened { .. } => true,
                SessionEvent::HandshakeDone { .. } => false,
                SessionEvent::EnvelopeRefused(fault) => !(fault is Plaintext),
                SessionEvent::StreamDone => true,
            },
    ensures
        states[i].phase == Phase::Established,
        states[i].next == opened_streams(events.take(i)),
    decreases i,
{
    if i == 2 {
        assert((states[0 as int + 1], actions[0]) == states[0].step(events[0]));
        assert((states[1 as int + 1], actions[1]) == states[1].step(events[1]));
        assert(events.take(2).drop_last() =~= events.take(1));
        assert(events.take(1).drop_last() =~= events.take(0));
        assert(events.take(0).len() == 0);
        assert(events.take(1).last() == events[0]);
        assert(events.take(2).last() == events[1]);
        reveal_with_fuel(opened_streams, 3);
    } else {
        assert(events.take(i).drop_last() =~= events.take(i - 1));
        assert(events.take(i).last() == events[i - 1]);
        lemma_established(states, events, actions, i - 1);
        assert((states[i - 1 + 1], actions[i - 1]) == states[i - 1].step(events[i - 1]));
    }
}

/// Once the handshake on the first stream has succeeded, every further stream is served
/// under its place, as long as the session has not come to its last number, no message
/// was sent past the tunnel, a permit over all sessions is free, and fewer than eight of
/// the session's streams are being served.
pub proof fn streams_are_served_while_there_is_room(
    states: Seq<SessionView>,
    events: Seq<SessionEvent>,
    actions: Seq<Option<StreamAction>>,
    i: int,
)
    requires
        session_run(states, events, actions),
        2 <= i < events.len(),
        events[0] is StreamOpened,
        events[1] == (SessionEvent::HandshakeDone { success: true }),
        opened_streams(events.take(i)) < 4294967294,
        forall|j: int|
            #![trigger events[j]]
            2 <= j < i ==> match events[j] {
                SessionEvent::StreamOpened { .. } => true,
                SessionEvent::HandshakeDone { .. } => false,
                SessionEvent::EnvelopeRefused(fault) => !(fault is Plaintext),
                SessionEvent::StreamDone => true,
            },
        events[i] == (SessionEvent::StreamOpened { global_free: true }),
        served_streams(actions.take(i)) - ended_streams(events.take(i)) < 8,
    ensures
        actions[0] == Some(StreamAction::Handshake),
        actions[i] matches Some(StreamAction::Serve(seq)) && seq == opened_streams(
            events.take(i),
        ),
{
    lemma_established(states, events, actions, i);
    lemma_session_run(states, events, actions, i);
    assert((states[0 as int + 1], actions[0]) == states[0].step(events[0]));
    assert((states[i + 1], actions[i]) == states[i].step(events[i]));
}

/// Errors of envelopes and requests show their fields and have their texts.
pub proof fn request_errors_have_their_texts(e: RequestError, envelope: EnvelopeError)
    ensures
        match e {
            RequestError::StreamLimit => {
                &&& e@ == RequestFault::StreamLimit
                &&& e@.text()
                    == "session stream limit reached — reconnect required to prevent nonce reuse"@
            },
            RequestError::EncryptionFailed => {
                &&& e@ == RequestFault::EncryptionFailed
                &&& e@.text() == "PQC encryption failed: PQC tunnel encryption failed"@
            },
            RequestError::ResponseTooLarge { len } => {
                &&& e@ == (RequestFault::ResponseTooLarge { len: len as nat })
                &&& e@.text() == "response exceeds size limit: "@ + text::decimal(len as nat)
                    + " > "@ + text::decimal(5243392)
            },
            RequestError::ResponseTooShort { len } => {
                &&& e@ == (RequestFault::ResponseTooShort { len: len as nat })
                &&& e@.text() == "response too short: "@ + text::decimal(len as nat) + " bytes"@
            },
            RequestError::Envelope(fault) => e@ == RequestFault::Envelope(fault@),
        },
        match envelope {
            EnvelopeError::Plaintext(why) => {
                &&& envelope@ == EnvelopeFault::Plaintext(why@)
                &&& RequestFault::Envelope(envelope@).text() == "invalid response envelope: "@
                    + why@
            },
            EnvelopeError::Invalid(why) => {
                &&& envelope@ == EnvelopeFault::Invalid(why@)
                &&& RequestFault::Envelope(envelope@).text() == "invalid response envelope: "@
                    + why@
            },
            EnvelopeError::SequenceMismatch { expected, actual } => {
                &&& envelope@ == (EnvelopeFault::SequenceMismatch { expected, actual })
                &&& RequestFault::Envelope(envelope@).text()
                    == "response sequence mismatch: expected "@ + text::decimal(expected as nat)
                    + ", got "@ + text::decimal(actual as nat)
            },
            EnvelopeError::DecryptionFailed => {
                &&& envelope@ == EnvelopeFault::DecryptionFailed
                &&& RequestFault::Envelope(envelope@).text()
                    == "PQC decryption failed: PQC tunnel decryption failed"@
            },
        },
{
}

} // verus!
