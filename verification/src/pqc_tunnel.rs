//! Wire format and session cipher of the post-quantum tunnel.
//!
//! Every message inside a bidirectional stream is an envelope: a one-byte type
//! followed by a payload of that type.
//!
//! ```text
//! 0x01 ClientHello:  [version: 2B][ek: 1184B]
//! 0x02 ServerAccept: [version: 2B][ct: 1088B][pubkey: 1952B][signature: 3309B]
//! 0x03 Encrypted:    [stream_seq: 4B][ciphertext...]
//! ```
//!
//! Integers are big-endian. The four-byte length prefix that goes in front of an
//! envelope on a stream is not part of it.
use crate::hash;
use crate::text;
use crate::wire;
use chacha20poly1305::aead::{Aead, KeyInit};
use chacha20poly1305::ChaCha20Poly1305;
use vstd::prelude::*;

verus! {

/// Version of the tunnel protocol.
pub const PQC_VERSION: u16 = 2;

/// Size of an ML-KEM-768 encapsulation key (FIPS 203).
pub const ML_KEM_768_EK_SIZE: usize = 1184;

/// Size of an ML-KEM-768 ciphertext (FIPS 203).
pub const ML_KEM_768_CT_SIZE: usize = 1088;

/// Size of an ML-DSA-65 public key (FIPS 204).
pub const ML_DSA_65_PK_SIZE: usize = 1952;

/// Size of an ML-DSA-65 signature (FIPS 204).
pub const ML_DSA_65_SIG_SIZE: usize = 3309;

/// Size of a ClientHello envelope.
pub const CLIENT_HELLO_SIZE: usize = 1 + 2 + ML_KEM_768_EK_SIZE;

/// Size of a ServerAccept envelope.
pub const SERVER_ACCEPT_SIZE: usize = 1 + 2 + ML_KEM_768_CT_SIZE + ML_DSA_65_PK_SIZE
    + ML_DSA_65_SIG_SIZE;

/// Context string for deriving session keys.
pub const KDF_CONTEXT: &'static str = "ant-wt-pqc-v1";

/// Domain separator of authentication signatures, `ant-wt-auth-v1` in ASCII.
pub const AUTH_SIGN_CONTEXT: &'static [u8; 14] = &[
    97, 110, 116, 45, 119, 116, 45, 97, 117, 116, 104, 45, 118, 49,
];

/// The type of an envelope. There is no plaintext type: the tunnel is mandatory.
#[derive(Debug, Clone, Copy, PartialEq, Eq, Structural)]
pub enum EnvelopeType {
    /// Version and encapsulation key.
    ClientHello,
    /// Version, KEM ciphertext, public key and signature.
    ServerAccept,
    /// Stream sequence number and an encrypted message.
    Encrypted,
}

impl EnvelopeType {
    /// The byte that stands for this type on the wire.
    pub open spec fn byte(self) -> u8 {
        match self {
            EnvelopeType::ClientHello => 0x01,
            EnvelopeType::ServerAccept => 0x02,
            EnvelopeType::Encrypted => 0x03,
        }
    }

    /// The byte that stands for this type on the wire.
    pub fn to_byte(self) -> (r: u8)
        ensures
            r == self.byte(),
            self is ClientHello ==> r == 1,
            self is ServerAccept ==> r == 2,
            self is Encrypted ==> r == 3,
    {
        match self {
            EnvelopeType::ClientHello => 0x01,
            EnvelopeType::ServerAccept => 0x02,
            EnvelopeType::Encrypted => 0x03,
        }
    }

    /// The type that a byte stands for, if any.
    pub fn from_byte(b: u8) -> (r: Option<Self>)
        ensures
            match r {
                Some(t) => t.byte() == b,
                None => forall|t: EnvelopeType| #[trigger] t.byte() != b,
            },
            r is Some <==> 1 <= b <= 3,
            b == 1 ==> r == Some(EnvelopeType::ClientHello),
            b == 2 ==> r == Some(EnvelopeType::ServerAccept),
            b == 3 ==> r == Some(EnvelopeType::Encrypted),
    {
        match b {
            0x01 => Some(EnvelopeType::ClientHello),
            0x02 => Some(EnvelopeType::ServerAccept),
            0x03 => Some(EnvelopeType::Encrypted),
            _ => None,
        }
    }
}

/// Each envelope type has a byte of its own, and zero stands for none: there is no
/// plaintext envelope.
pub proof fn envelope_types_have_their_own_bytes(a: EnvelopeType, b: EnvelopeType)
    ensures
        a.byte() == b.byte() ==> a == b,
        a.byte() != 0,
{
}

/// Direction of a message within a stream.
#[derive(Debug, Clone, Copy, PartialEq, Eq, Structural)]
pub enum Direction {
    ClientToServer,
    ServerToClient,
}

impl Direction {
    /// The byte that stands for this direction in a nonce.
    pub open spec fn byte(self) -> u8 {
        match self {
            Direction::ClientToServer => 0x00,
            Direction::ServerToClient => 0x01,
        }
    }
}

/// Errors of the tunnel.
#[derive(Debug)]
pub enum TunnelError {
    /// The envelope is too short or has the wrong type byte.
    InvalidEnvelope(String),
    /// The version in a handshake message is not supported.
    UnsupportedVersion(u16),
    /// Encryption failed.
    EncryptionFailed,
    /// Decryption failed: wrong key, wrong nonce or tampered ciphertext.
    DecryptionFailed,
    /// The signature over the handshake does not verify.
    AuthenticationFailed,
    /// The peer id of the server's public key is not the expected one.
    PeerIdMismatch { expected: [u8; 32], actual: [u8; 32] },
}

impl TunnelError {
    /// The text of the error.
    pub open spec fn text(self) -> Seq<char> {
        match self {
            TunnelError::InvalidEnvelope(msg) => "invalid PQC envelope: "@ + msg@,
            TunnelError::UnsupportedVersion(v) => "unsupported PQC version: "@ + text::decimal(
                v as nat,
            ),
            TunnelError::EncryptionFailed => "PQC tunnel encryption failed"@,
            TunnelError::DecryptionFailed => "PQC tunnel decryption failed"@,
            TunnelError::AuthenticationFailed => "ML-DSA-65 signature verification failed"@,
            TunnelError::PeerIdMismatch { expected, actual } => text::mismatch(
                "PeerId mismatch: expected "@,
                expected@,
                actual@,
            ),
        }
    }

    /// The text of the error.
    pub fn to_string(&self) -> (r: String)
        ensures
            r@ == self.text(),
    {
        match self {
            TunnelError::InvalidEnvelope(msg) =>
                text::joined("invalid PQC envelope: ", msg.as_str()),
            TunnelError::UnsupportedVersion(v) => text::numbered(
                "unsupported PQC version: ",
                *v as u64,
            ),
            TunnelError::EncryptionFailed => text::plain("PQC tunnel encryption failed"),
            TunnelError::DecryptionFailed => text::plain("PQC tunnel decryption failed"),
            TunnelError::AuthenticationFailed => text::plain(
                "ML-DSA-65 signature verification failed",
            ),
            TunnelError::PeerIdMismatch { expected, actual } => text::mismatch_text(
                "PeerId mismatch: expected ",
                expected,
                actual,
            ),
        }
    }
}

// ---------------------------------------------------------------------------
// Session cipher
// ---------------------------------------------------------------------------

/// What ChaCha20-Poly1305 makes of a plaintext, without associated data: the
/// encrypted bytes followed by the tag.
pub uninterp spec fn chacha20poly1305_sealed(
    key: Seq<u8>,
    nonce: Seq<u8>,
    plaintext: Seq<u8>,
) -> Seq<u8>;

/// What ChaCha20-Poly1305 gives back for a ciphertext, without associated data: nothing
/// where the ciphertext is too short or its tag does not match.
pub uninterp spec fn chacha20poly1305_opened(
    key: Seq<u8>,
    nonce: Seq<u8>,
    ciphertext: Seq<u8>,
) -> Option<Seq<u8>>;

/// Longest message that the cipher takes: its 32-bit block counter starts at 1 for the
/// message and has 2^32 - 2 blocks of 64 bytes left.
pub const MAX_CIPHER_MESSAGE: u64 = 64 * (u32::MAX as u64 - 1);

/// Whether a message of this length is short enough for the cipher.
pub open spec fn fits_cipher(len: nat) -> bool {
    len <= MAX_CIPHER_MESSAGE
}

/// `ChaCha20Poly1305::encrypt` of `chacha20poly1305`, without associated data, on a
/// message that the block counter can number. It does not fail. The ciphertext is
/// 16 bytes longer than the message, depends on key, nonce and message alone, and
/// decrypts to the message under the same key and nonce.
#[verifier::external_body]
fn seal(key: &[u8; 32], nonce: &[u8; 12], plaintext: &[u8]) -> (r: Result<Vec<u8>, ()>)
    requires
        fits_cipher(plaintext@.len()),
    ensures
        r is Ok,
        r->Ok_0@ == chacha20poly1305_sealed(key@, nonce@, plaintext@),
        r->Ok_0@.len() == plaintext@.len() + 16,
        chacha20poly1305_opened(key@, nonce@, r->Ok_0@) == Some(plaintext@),
{
    ChaCha20Poly1305::new(key.into()).encrypt(nonce.into(), plaintext).map_err(|_| ())
}

/// `ChaCha20Poly1305::decrypt` of `chacha20poly1305`, without associated data, on the
/// ciphertext of a message that the block counter can number. The outcome depends on
/// key, nonce and ciphertext alone; a plaintext is 16 bytes shorter than its ciphertext.
#[verifier::external_body]
fn open(key: &[u8; 32], nonce: &[u8; 12], ciphertext: &[u8]) -> (r: Result<Vec<u8>, ()>)
    requires
        ciphertext@.len() <= MAX_CIPHER_MESSAGE + 16,
    ensures
        match chacha20poly1305_opened(key@, nonce@, ciphertext@) {
            Some(p) => (r matches Ok(v) && v@ == p && p.len() + 16 == ciphertext@.len()),
            None => r is Err,
        },
{
    ChaCha20Poly1305::new(key.into()).decrypt(nonce.into(), ciphertext).map_err(|_| ())
}

/// The symmetric cipher of an established session.
pub struct SessionCipher {
    key: [u8; 32],
}

impl SessionCipher {
    /// The session key.
    pub closed spec fn key(&self) -> Seq<u8> {
        self.key@
    }

    /// Derives the session cipher from the shared secret of the key exchange. The
    /// fixed context keeps the session key apart from other uses of the secret.
    pub fn from_shared_secret(ss: &[u8; 32]) -> (r: Self)
        ensures
            r.key() == session_key(ss@),
            r.key() == hash::blake3_derived_key("ant-wt-pqc-v1"@, ss@),
    {
        SessionCipher { key: hash::blake3_derive_key(KDF_CONTEXT, ss) }
    }

    /// Encrypts a message for one stream and direction.
    pub fn encrypt(&self, stream_seq: u32, direction: Direction, plaintext: &[u8]) -> (r: Result<
        Vec<u8>,
        TunnelError,
    >)
        ensures
            match r {
                Ok(c) => {
                    &&& fits_cipher(plaintext@.len())
                    &&& c@ == sealed(self.key(), stream_seq, direction, plaintext@)
                    &&& c@.len() == plaintext@.len() + 16
                    &&& opened(self.key(), stream_seq, direction, c@) == Some(plaintext@)
                },
                Err(e) => e is EncryptionFailed && !fits_cipher(plaintext@.len()),
            },
    {
        if plaintext.len() as u64 > MAX_CIPHER_MESSAGE {
            return Err(TunnelError::EncryptionFailed);
        }
        let nonce = build_nonce(stream_seq, direction);
        match seal(&self.key, &nonce, plaintext) {
            Ok(c) => Ok(c),
            Err(()) => Err(TunnelError::EncryptionFailed),
        }
    }

    /// Decrypts the ciphertext of one stream and direction.
    pub fn decrypt(&self, stream_seq: u32, direction: Direction, ciphertext: &[u8]) -> (r: Result<
        Vec<u8>,
        TunnelError,
    >)
        ensures
            match opened(self.key(), stream_seq, direction, ciphertext@) {
                Some(p) => (r matches Ok(v) && v@ == p && p.len() + 16 == ciphertext@.len()),
                None => (r matches Err(e) && e is DecryptionFailed),
            },
    {
        if ciphertext.len() as u64 > MAX_CIPHER_MESSAGE + 16 {
            return Err(TunnelError::DecryptionFailed);
        }
        let nonce = build_nonce(stream_seq, direction);
        match open(&self.key, &nonce, ciphertext) {
            Ok(p) => Ok(p),
            Err(()) => Err(TunnelError::DecryptionFailed),
        }
    }
}

impl Drop for SessionCipher {
    /// Overwrites the key with zeros.
    fn drop(&mut self)
        ensures
            final(self).key() == Seq::new(32, |i: int| 0u8),
        opens_invariants none
        no_unwind
    {
        wire::wipe(&mut self.key);
    }
}

/// The session key that follows from a shared secret.
pub open spec fn session_key(ss: Seq<u8>) -> Seq<u8> {
    hash::blake3_derived_key(KDF_CONTEXT@, ss)
}

/// The ciphertext of a message on one stream, in one direction.
pub open spec fn sealed(key: Seq<u8>, seq: u32, direction: Direction, plaintext: Seq<u8>) -> Seq<
    u8,
> {
    chacha20poly1305_sealed(key, nonce(seq, direction), plaintext)
}

/// The message that a ciphertext on one stream, in one direction, decrypts to. There is
/// none for a ciphertext that is too long for the cipher.
pub open spec fn opened(
    key: Seq<u8>,
    seq: u32,
    direction: Direction,
    ciphertext: Seq<u8>,
) -> Option<Seq<u8>> {
    if ciphertext.len() <= MAX_CIPHER_MESSAGE + 16 {
        chacha20poly1305_opened(key, nonce(seq, direction), ciphertext)
    } else {
        None
    }
}

// ---------------------------------------------------------------------------
// Nonces
// ---------------------------------------------------------------------------

/// The nonce of a message: four bytes of stream number, one of direction, seven
/// zeros.
pub open spec fn nonce(seq: u32, direction: Direction) -> Seq<u8> {
    wire::be32(seq) + seq![direction.byte()] + Seq::new(7, |i: int| 0u8)
}

/// Different streams or directions have different nonces.
pub proof fn nonces_are_unique(seq1: u32, direction1: Direction, seq2: u32, direction2: Direction)
    requires
        seq1 != seq2 || direction1 != direction2,
    ensures
        nonce(seq1, direction1) != nonce(seq2, direction2),
{
    let n1 = nonce(seq1, direction1);
    let n2 = nonce(seq2, direction2);
    wire::lemma_be32_inverse(seq1);
    wire::lemma_be32_inverse(seq2);
    assert(n1.subrange(0, 4) =~= wire::be32(seq1));
    assert(n2.subrange(0, 4) =~= wire::be32(seq2));
    assert(n1[4] == direction1.byte());
    assert(n2[4] == direction2.byte());
}

/// Builds the nonce of a message.
///
/// Each stream carries one request and one response, so the pair of stream number
/// and direction occurs once in a session.
pub fn build_nonce(stream_seq: u32, direction: Direction) -> (r: [u8; 12])
    ensures
        r@ == nonce(stream_seq, direction),
{
    let seq = wire::u32_to_be(stream_seq);
    let dir: u8 = match direction {
        Direction::ClientToServer => 0x00,
        Direction::ServerToClient => 0x01,
    };
    let r = [seq[0], seq[1], seq[2], seq[3], dir, 0, 0, 0, 0, 0, 0, 0];
    assert(r@ =~= nonce(stream_seq, direction));
    r
}

// ---------------------------------------------------------------------------
// Handshake envelopes
// ---------------------------------------------------------------------------

/// The ClientHello envelope for an encapsulation key.
pub open spec fn client_hello(ek: Seq<u8>) -> Seq<u8> {
    seq![EnvelopeType::ClientHello.byte()] + wire::be16(PQC_VERSION) + ek
}

/// Version and encapsulation key of a ClientHello envelope, or why there are none.
/// Bytes behind the envelope are ignored.
pub open spec fn parsed_client_hello(data: Seq<u8>) -> Result<(u16, Seq<u8>), Seq<char>> {
    if data.len() < CLIENT_HELLO_SIZE {
        Err(
            "ClientHello too short: "@ + text::decimal(data.len()) + " bytes, expected "@
                + text::decimal(CLIENT_HELLO_SIZE as nat),
        )
    } else if data[0] != EnvelopeType::ClientHello.byte() {
        Err("expected ClientHello type 0x01, got 0x"@ + text::hex_text(seq![data[0]]))
    } else {
        Ok(
            (
                wire::from_be16(data.subrange(1, 3)),
                data.subrange(3, 3 + ML_KEM_768_EK_SIZE as int),
            ),
        )
    }
}

/// The ServerAccept envelope for a KEM ciphertext, a public key and a signature.
pub open spec fn server_accept(ct: Seq<u8>, pubkey: Seq<u8>, signature: Seq<u8>) -> Seq<u8> {
    seq![EnvelopeType::ServerAccept.byte()] + wire::be16(PQC_VERSION) + ct + pubkey + signature
}

/// The fields of a ServerAccept envelope.
#[verifier::ext_equal]
pub struct AcceptView {
    pub version: u16,
    pub ct: Seq<u8>,
    pub pubkey: Seq<u8>,
    pub signature: Seq<u8>,
}

/// The fields of a ServerAccept envelope, or why there are none. Bytes behind the
/// envelope are ignored.
pub open spec fn parsed_server_accept(data: Seq<u8>) -> Result<AcceptView, Seq<char>> {
    if data.len() < SERVER_ACCEPT_SIZE {
        Err(
            "ServerAccept too short: "@ + text::decimal(data.len()) + " bytes, expected "@
                + text::decimal(SERVER_ACCEPT_SIZE as nat),
        )
    } else if data[0] != EnvelopeType::ServerAccept.byte() {
        Err("expected ServerAccept type 0x02, got 0x"@ + text::hex_text(seq![data[0]]))
    } else {
        Ok(
            (AcceptView {
                version: wire::from_be16(data.subrange(1, 3)),
                ct: data.subrange(3, 1091),
                pubkey: data.subrange(1091, 3043),
                signature: data.subrange(3043, 6352),
            }),
        )
    }
}

/// A ClientHello gives back its version and encapsulation key.
pub proof fn client_hello_round_trip(ek: Seq<u8>)
    requires
        ek.len() == ML_KEM_768_EK_SIZE,
    ensures
        client_hello(ek).len() == CLIENT_HELLO_SIZE,
        parsed_client_hello(client_hello(ek)) == Ok::<_, Seq<char>>((PQC_VERSION, ek)),
{
    let data = client_hello(ek);
    wire::lemma_be16_inverse(PQC_VERSION);
    assert(data.subrange(1, 3) =~= wire::be16(PQC_VERSION));
    assert(data.subrange(3, 3 + ML_KEM_768_EK_SIZE as int) =~= ek);
}

/// A ServerAccept gives back its version, ciphertext, public key and signature.
pub proof fn server_accept_round_trip(ct: Seq<u8>, pubkey: Seq<u8>, signature: Seq<u8>)
    requires
        ct.len() == ML_KEM_768_CT_SIZE,
        pubkey.len() == ML_DSA_65_PK_SIZE,
        signature.len() == ML_DSA_65_SIG_SIZE,
    ensures
        server_accept(ct, pubkey, signature).len() == SERVER_ACCEPT_SIZE,
        parsed_server_accept(server_accept(ct, pubkey, signature)) == Ok::<_, Seq<char>>(
            (AcceptView { version: PQC_VERSION, ct, pubkey, signature }),
        ),
{
    let data = server_accept(ct, pubkey, signature);
    wire::lemma_be16_inverse(PQC_VERSION);
    assert(data.subrange(1, 3) =~= wire::be16(PQC_VERSION));
    assert(data.subrange(3, 1091) =~= ct);
    assert(data.subrange(1091, 3043) =~= pubkey);
    assert(data.subrange(3043, 6352) =~= signature);
}

/// Encodes a ClientHello envelope.
pub fn encode_client_hello(ek_bytes: &[u8; ML_KEM_768_EK_SIZE]) -> (r: Vec<u8>)
    ensures
        r@ == client_hello(ek_bytes@),
        r@.len() == CLIENT_HELLO_SIZE,
{
    let mut buf: Vec<u8> = Vec::with_capacity(CLIENT_HELLO_SIZE);
    buf.push(EnvelopeType::ClientHello.to_byte());
    wire::append(&mut buf, &wire::u16_to_be(PQC_VERSION));
    wire::append(&mut buf, ek_bytes);
    assert(buf@ =~= client_hello(ek_bytes@));
    buf
}

/// The text for an envelope that is too short.
fn too_short(before: &str, len: usize, expected: usize) -> (r: String)
    ensures
        r@ == before@ + text::decimal(len as nat) + " bytes, expected "@ + text::decimal(
            expected as nat,
        ),
{
    let mut out = text::numbered(before, len as u64);
    out.append(" bytes, expected ");
    text::push_decimal(&mut out, expected as u64);
    out
}

/// The text for an envelope of the wrong type.
fn wrong_type(before: &str, got: u8) -> (r: String)
    ensures
        r@ == before@ + text::hex_text(seq![got]),
{
    let byte = [got];
    assert(byte@ =~= seq![got]);
    text::joined(before, text::hex_encode(&byte).as_str())
}

/// Decodes a ClientHello envelope into its version and encapsulation key.
pub fn decode_client_hello(data: &[u8]) -> (r: Result<
    (u16, [u8; ML_KEM_768_EK_SIZE]),
    TunnelError,
>)
    ensures
        match parsed_client_hello(data@) {
            Ok((version, ek)) => (r matches Ok(v) && v.0 == version && v.1@ == ek),
            Err(why) => (r matches Err(TunnelError::InvalidEnvelope(m)) && m@ == why),
        },
{
    if data.len() < CLIENT_HELLO_SIZE {
        return Err(
            TunnelError::InvalidEnvelope(
                too_short("ClientHello too short: ", data.len(), CLIENT_HELLO_SIZE),
            ),
        );
    }
    if data[0] != EnvelopeType::ClientHello.to_byte() {
        return Err(
            TunnelError::InvalidEnvelope(
                wrong_type("expected ClientHello type 0x01, got 0x", data[0]),
            ),
        );
    }
    let version: u16 = wire::u16_from_be(wire::field(data, 1));
    Ok((version, wire::field(data, 3)))
}

/// Encodes a ServerAccept envelope.
pub fn encode_server_accept(
    ct_bytes: &[u8; ML_KEM_768_CT_SIZE],
    pubkey: &[u8; ML_DSA_65_PK_SIZE],
    signature: &[u8; ML_DSA_65_SIG_SIZE],
) -> (r: Vec<u8>)
    ensures
        r@ == server_accept(ct_bytes@, pubkey@, signature@),
        r@.len() == SERVER_ACCEPT_SIZE,
{
    let mut buf: Vec<u8> = Vec::with_capacity(SERVER_ACCEPT_SIZE);
    buf.push(EnvelopeType::ServerAccept.to_byte());
    wire::append(&mut buf, &wire::u16_to_be(PQC_VERSION));
    wire::append(&mut buf, ct_bytes);
    wire::append(&mut buf, pubkey);
    wire::append(&mut buf, signature);
    assert(buf@ =~= server_accept(ct_bytes@, pubkey@, signature@));
    buf
}

/// The decoded fields of a ServerAccept envelope.
pub struct ServerAcceptData {
    pub version: u16,
    pub ct: [u8; ML_KEM_768_CT_SIZE],
    pub pubkey: [u8; ML_DSA_65_PK_SIZE],
    pub signature: [u8; ML_DSA_65_SIG_SIZE],
}

impl View for ServerAcceptData {
    type V = AcceptView;

    open spec fn view(&self) -> AcceptView {
        AcceptView {
            version: self.version,
            ct: self.ct@,
            pubkey: self.pubkey@,
            signature: self.signature@,
        }
    }
}

/// Decodes a ServerAccept envelope.
pub fn decode_server_accept(data: &[u8]) -> (r: Result<ServerAcceptData, TunnelError>)
    ensures
        match parsed_server_accept(data@) {
            Ok(fields) => (r matches Ok(v) && v@ == fields),
            Err(why) => (r matches Err(TunnelError::InvalidEnvelope(m)) && m@ == why),
        },
{
    if data.len() < SERVER_ACCEPT_SIZE {
        return Err(
            TunnelError::InvalidEnvelope(
                too_short("ServerAccept too short: ", data.len(), SERVER_ACCEPT_SIZE),
            ),
        );
    }
    if data[0] != EnvelopeType::ServerAccept.to_byte() {
        return Err(
            TunnelError::InvalidEnvelope(
                wrong_type("expected ServerAccept type 0x02, got 0x", data[0]),
            ),
        );
    }
    let ct_start: usize = 3;
    let pk_start: usize = ct_start + ML_KEM_768_CT_SIZE;
    let sig_start: usize = pk_start + ML_DSA_65_PK_SIZE;
    Ok(
        ServerAcceptData {
            version: wire::u16_from_be(wire::field(data, 1)),
            ct: wire::field(data, ct_start),
            pubkey: wire::field(data, pk_start),
            signature: wire::field(data, sig_start),
        },
    )
}

// ---------------------------------------------------------------------------
// Authentication
// ---------------------------------------------------------------------------

/// The message that the server signs: the domain separator, the client's
/// encapsulation key and the server's ciphertext.
pub open spec fn auth_message(ek: Seq<u8>, ct: Seq<u8>) -> Seq<u8> {
    AUTH_SIGN_CONTEXT@ + ek + ct
}

/// A signed message belongs to one handshake: equal messages come from equal
/// encapsulation keys and ciphertexts.
pub proof fn auth_message_binds_handshake(ek1: Seq<u8>, ct1: Seq<u8>, ek2: Seq<u8>, ct2: Seq<u8>)
    requires
        ek1.len() == ML_KEM_768_EK_SIZE,
        ek2.len() == ML_KEM_768_EK_SIZE,
        auth_message(ek1, ct1) == auth_message(ek2, ct2),
    ensures
        ek1 == ek2,
        ct1 == ct2,
{
    let m1 = auth_message(ek1, ct1);
    let m2 = auth_message(ek2, ct2);
    let start = AUTH_SIGN_CONTEXT@.len() as int;
    let mid = start + ML_KEM_768_EK_SIZE;
    assert(m1.subrange(start, mid) =~= ek1);
    assert(m2.subrange(start, mid) =~= ek2);
    assert(m1.skip(mid) =~= ct1);
    assert(m2.skip(mid) =~= ct2);
}

/// Builds the message that is signed and verified during the handshake.
pub fn build_auth_message(
    client_ek: &[u8; ML_KEM_768_EK_SIZE],
    ct: &[u8; ML_KEM_768_CT_SIZE],
) -> (r: Vec<u8>)
    ensures
        r@ == auth_message(client_ek@, ct@),
        r@.len() == AUTH_SIGN_CONTEXT@.len() + ML_KEM_768_EK_SIZE + ML_KEM_768_CT_SIZE,
{
    let mut msg: Vec<u8> = Vec::with_capacity(14 + ML_KEM_768_EK_SIZE + ML_KEM_768_CT_SIZE);
    wire::append(&mut msg, AUTH_SIGN_CONTEXT);
    wire::append(&mut msg, client_ek);
    wire::append(&mut msg, ct);
    assert(msg@ =~= auth_message(client_ek@, ct@));
    msg
}

/// The peer id of a public key: its BLAKE3 hash.
pub fn derive_peer_id(pubkey: &[u8; ML_DSA_65_PK_SIZE]) -> (r: [u8; 32])
    ensures
        r@ == hash::blake3_hash(pubkey@),
{
    hash::blake3_of(pubkey)
}

// ---------------------------------------------------------------------------
// Encrypted envelopes
// ---------------------------------------------------------------------------

/// The Encrypted envelope for a stream number and a ciphertext.
pub open spec fn encrypted_envelope(seq: u32, ciphertext: Seq<u8>) -> Seq<u8> {
    seq![EnvelopeType::Encrypted.byte()] + wire::be32(seq) + ciphertext
}

/// Stream number and ciphertext of an Encrypted envelope, or why there are none.
pub open spec fn parsed_encrypted(data: Seq<u8>) -> Result<(u32, Seq<u8>), Seq<char>> {
    if data.len() < 5 {
        Err("Encrypted envelope too short: "@ + text::decimal(data.len()) + " bytes"@)
    } else if data[0] != EnvelopeType::Encrypted.byte() {
        Err("expected Encrypted type 0x03, got 0x"@ + text::hex_text(seq![data[0]]))
    } else {
        Ok((wire::from_be32(data.subrange(1, 5)), data.skip(5)))
    }
}

/// An Encrypted envelope gives back its stream number and ciphertext.
pub proof fn encrypted_envelope_round_trip(seq: u32, ciphertext: Seq<u8>)
    ensures
        encrypted_envelope(seq, ciphertext).len() == ciphertext.len() + 5,
        parsed_encrypted(encrypted_envelope(seq, ciphertext)) == Ok::<_, Seq<char>>(
            (seq, ciphertext),
        ),
{
    let data = encrypted_envelope(seq, ciphertext);
    wire::lemma_be32_inverse(seq);
    assert(data.subrange(1, 5) =~= wire::be32(seq));
    assert(data.skip(5) =~= ciphertext);
}

/// Encodes an Encrypted envelope.
pub fn encode_encrypted(stream_seq: u32, ciphertext: &[u8]) -> (r: Vec<u8>)
    ensures
        r@ == encrypted_envelope(stream_seq, ciphertext@),
{
    let mut buf: Vec<u8> = Vec::with_capacity(ciphertext.len());
    buf.push(EnvelopeType::Encrypted.to_byte());
    wire::append(&mut buf, &wire::u32_to_be(stream_seq));
    wire::append(&mut buf, ciphertext);
    assert(buf@ =~= encrypted_envelope(stream_seq, ciphertext@));
    buf
}

/// Decodes an Encrypted envelope into its stream number and ciphertext.
pub fn decode_encrypted(data: &[u8]) -> (r: Result<(u32, &[u8]), TunnelError>)
    ensures
        match parsed_encrypted(data@) {
            Ok((seq, ciphertext)) => (r matches Ok(v) && v.0 == seq && v.1@ == ciphertext),
            Err(why) => (r matches Err(TunnelError::InvalidEnvelope(m)) && m@ == why),
        },
{
    if data.len() < 5 {
        let mut why = text::numbered("Encrypted envelope too short: ", data.len() as u64);
        why.append(" bytes");
        return Err(TunnelError::InvalidEnvelope(why));
    }
    if data[0] != EnvelopeType::Encrypted.to_byte() {
        return Err(
            TunnelError::InvalidEnvelope(
                wrong_type("expected Encrypted type 0x03, got 0x", data[0]),
            ),
        );
    }
    let stream_seq: u32 = wire::u32_from_be(wire::field(data, 1));
    Ok((stream_seq, wire::tail(data, 5)))
}

// ---------------------------------------------------------------------------
// Layout
// ---------------------------------------------------------------------------

/// The session key is the one that BLAKE3 derives, under the tunnel's context, from all
/// of the shared secret: secrets whose derived keys differ give sessions that differ.
pub proof fn session_keys_follow_from_the_whole_secret(ss: Seq<u8>, other: Seq<u8>)
    ensures
        session_key(ss) == hash::blake3_derived_key("ant-wt-pqc-v1"@, ss),
        hash::blake3_derived_key("ant-wt-pqc-v1"@, ss) != hash::blake3_derived_key(
            "ant-wt-pqc-v1"@,
            other,
        ) ==> session_key(ss) != session_key(other),
{
}

/// A nonce is the stream's number in four bytes, the direction in one, and zeros.
pub proof fn nonces_have_their_layout(seq: u32, direction: Direction)
    ensures
        nonce(seq, direction).len() == 12,
        nonce(seq, direction)[0] * 16777216 + nonce(seq, direction)[1] * 65536 + nonce(
            seq,
            direction,
        )[2] * 256 + nonce(seq, direction)[3] == seq,
        direction is ClientToServer ==> nonce(seq, direction)[4] == 0,
        direction is ServerToClient ==> nonce(seq, direction)[4] == 1,
        forall|i: int| 5 <= i < 12 ==> nonce(seq, direction)[i] == 0,
{
    wire::big_endian_bytes_have_their_weights(0, seq);
}

/// Messages are encrypted with ChaCha20-Poly1305 under the session key and the nonce of
/// their stream and direction, as long as the cipher's block counter can number them.
pub proof fn messages_are_sealed_under_key_and_nonce(
    key: Seq<u8>,
    seq: u32,
    direction: Direction,
    text: Seq<u8>,
)
    ensures
        sealed(key, seq, direction, text) == chacha20poly1305_sealed(
            key,
            nonce(seq, direction),
            text,
        ),
        text.len() <= 274877906832 ==> opened(key, seq, direction, text)
            == chacha20poly1305_opened(key, nonce(seq, direction), text),
        text.len() > 274877906832 ==> opened(key, seq, direction, text) is None,
        fits_cipher(text.len()) <==> text.len() <= 274877906816,
{
}

/// A ClientHello is 1, the version 2 in two bytes, and the encapsulation key.
pub proof fn client_hellos_have_their_layout(ek: Seq<u8>)
    ensures
        client_hello(ek) == seq![1u8, 0u8, 2u8] + ek,
{
    assert(client_hello(ek) =~= seq![1u8, 0u8, 2u8] + ek);
}

/// A ServerAccept is 2, the version 2 in two bytes, the ciphertext, the public key and the
/// signature.
pub proof fn server_accepts_have_their_layout(ct: Seq<u8>, pubkey: Seq<u8>, signature: Seq<u8>)
    ensures
        server_accept(ct, pubkey, signature) == seq![2u8, 0u8, 2u8] + ct + pubkey + signature,
{
    assert(server_accept(ct, pubkey, signature) =~= seq![2u8, 0u8, 2u8] + ct + pubkey + signature);
}

/// An Encrypted envelope is 3, the stream's number in four bytes, and the ciphertext.
pub proof fn encrypted_envelopes_have_their_layout(seq: u32, ciphertext: Seq<u8>)
    ensures
        encrypted_envelope(seq, ciphertext).len() == ciphertext.len() + 5,
        encrypted_envelope(seq, ciphertext)[0] == 3,
        encrypted_envelope(seq, ciphertext)[1] * 16777216 + encrypted_envelope(
            seq,
            ciphertext,
        )[2] * 65536 + encrypted_envelope(seq, ciphertext)[3] * 256 + encrypted_envelope(
            seq,
            ciphertext,
        )[4] == seq,
        encrypted_envelope(seq, ciphertext).skip(5) == ciphertext,
{
    wire::big_endian_bytes_have_their_weights(0, seq);
    assert(encrypted_envelope(seq, ciphertext).skip(5) =~= ciphertext);
}

/// A ClientHello is read by position, in any bytes that are long enough and start with 1;
/// all others are refused, too short ones first.
pub proof fn client_hellos_are_read_by_position(data: Seq<u8>)
    ensures
        data.len() < 1187 ==> parsed_client_hello(data) == Err::<(u16, Seq<u8>), _>(
            "ClientHello too short: "@ + text::decimal(data.len()) + " bytes, expected "@
                + text::decimal(1187),
        ),
        data.len() >= 1187 && data[0] != 1 ==> parsed_client_hello(data) == Err::<
            (u16, Seq<u8>),
            _,
        >("expected ClientHello type 0x01, got 0x"@ + text::hex_text(seq![data[0]])),
        data.len() >= 1187 && data[0] == 1 ==> (parsed_client_hello(data) matches Ok(hello)
            && hello.0 == data[1] * 256 + data[2] && hello.1 == data.subrange(3, 1187)),
{
}

/// A ServerAccept is read by position, in any bytes that are long enough and start with 2;
/// all others are refused, too short ones first.
pub proof fn server_accepts_are_read_by_position(data: Seq<u8>)
    ensures
        data.len() < 6352 ==> parsed_server_accept(data) == Err::<AcceptView, _>(
            "ServerAccept too short: "@ + text::decimal(data.len()) + " bytes, expected "@
                + text::decimal(6352),
        ),
        data.len() >= 6352 && data[0] != 2 ==> parsed_server_accept(data) == Err::<AcceptView, _>(
            "expected ServerAccept type 0x02, got 0x"@ + text::hex_text(seq![data[0]]),
        ),
        data.len() >= 6352 && data[0] == 2 ==> (parsed_server_accept(data) matches Ok(accept)
            && accept.version == data[1] * 256 + data[2] && accept.ct == data.subrange(3, 1091)
            && accept.pubkey == data.subrange(1091, 3043) && accept.signature == data.subrange(
            3043,
            6352,
        )),
{
}

/// An Encrypted envelope is read by position, in any bytes that are long enough and start
/// with 3; all others are refused, too short ones first.
pub proof fn encrypted_envelopes_are_read_by_position(data: Seq<u8>)
    ensures
        data.len() < 5 ==> parsed_encrypted(data) == Err::<(u32, Seq<u8>), _>(
            "Encrypted envelope too short: "@ + text::decimal(data.len()) + " bytes"@,
        ),
        data.len() >= 5 && data[0] != 3 ==> parsed_encrypted(data) == Err::<(u32, Seq<u8>), _>(
            "expected Encrypted type 0x03, got 0x"@ + text::hex_text(seq![data[0]]),
        ),
        data.len() >= 5 && data[0] == 3 ==> (parsed_encrypted(data) matches Ok(envelope)
            && envelope.0 == data[1] * 16777216 + data[2] * 65536 + data[3] * 256 + data[4]
            && envelope.1 == data.skip(5)),
{
}

/// The decoded fields show as they are.
pub proof fn accepts_show_their_fields(accept: ServerAcceptData)
    ensures
        accept@ == (AcceptView {
            version: accept.version,
            ct: accept.ct@,
            pubkey: accept.pubkey@,
            signature: accept.signature@,
        }),
{
}

/// What is signed is `ant-wt-auth-v1` in ASCII, the encapsulation key and the ciphertext.
pub proof fn signed_messages_have_their_layout(ek: Seq<u8>, ct: Seq<u8>)
    ensures
        auth_message(ek, ct) == seq![
            97u8, 110u8, 116u8, 45u8, 119u8, 116u8, 45u8, 97u8, 117u8, 116u8, 104u8, 45u8, 118u8,
            49u8,
        ] + ek + ct,
{
    let context = seq![
        97u8, 110u8, 116u8, 45u8, 119u8, 116u8, 45u8, 97u8, 117u8, 116u8, 104u8, 45u8, 118u8, 49u8,
    ];
    assert(AUTH_SIGN_CONTEXT@ =~= context);
}

/// The errors in words.
pub proof fn tunnel_errors_have_their_texts(e: TunnelError)
    ensures
        match e {
            TunnelError::InvalidEnvelope(m) => e.text() == "invalid PQC envelope: "@ + m@,
            TunnelError::UnsupportedVersion(v) => e.text() == "unsupported PQC version: "@
                + text::decimal(v as nat),
            TunnelError::EncryptionFailed => e.text() == "PQC tunnel encryption failed"@,
            TunnelError::DecryptionFailed => e.text() == "PQC tunnel decryption failed"@,
            TunnelError::AuthenticationFailed => e.text()
                == "ML-DSA-65 signature verification failed"@,
            TunnelError::PeerIdMismatch { expected, actual } => e.text()
                == "PeerId mismatch: expected "@ + text::hex_text(expected@) + ", got "@
                + text::hex_text(actual@),
        },
{
}

} // verus!
