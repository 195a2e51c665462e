//! The authenticated key exchange on the first stream of a session.
//!
//! The client sends a fresh encapsulation key. The server encapsulates a shared secret
//! for it and signs the exchange. The client checks the signature, and the peer id
//! where it expects a certain one, before it recovers the secret. Both sides derive the
//! session cipher from the secret.
use crate::crypto;
use crate::crypto::{ML_DSA_65_SK_SIZE, ML_KEM_768_DK_SIZE};
use crate::hash;
use crate::pqc_tunnel;
use crate::pqc_tunnel::{
    AcceptView, ServerAcceptData, SessionCipher, TunnelError, ML_DSA_65_PK_SIZE,
    ML_DSA_65_SIG_SIZE, ML_KEM_768_CT_SIZE, ML_KEM_768_EK_SIZE, PQC_VERSION,
};
use crate::text;
use crate::wire;
use vstd::prelude::*;

verus! {

// ---------------------------------------------------------------------------
// Client
// ---------------------------------------------------------------------------

/// Largest response to a ClientHello that the client reads. A ServerAccept frame takes
/// about 6.4 KB.
pub const MAX_HANDSHAKE_RESPONSE: usize = 16 * 1024;

/// Why a client gives up a handshake.
#[derive(Debug)]
pub enum ClientHandshakeError {
    /// No key pair could be generated.
    KeyGenerationFailed,
    /// The response exceeds the size limit.
    ResponseTooLarge,
    /// The response has no room for a length prefix.
    ResponseTooShort { len: usize },
    /// The response is no ServerAccept envelope; the text says why.
    InvalidServerAccept(String),
    /// The server speaks another version.
    UnsupportedVersion(u16),
    /// The server's public key is malformed.
    InvalidPublicKey,
    /// The server's signature does not verify.
    NotAuthenticated,
    /// The server is not the expected one.
    PeerIdMismatch { expected: [u8; 32], actual: [u8; 32] },
    /// The shared secret could not be recovered.
    DecapsulationFailed,
}

/// The contents of a `ClientHandshakeError`.
#[verifier::ext_equal]
pub enum ClientFault {
    KeyGenerationFailed,
    ResponseTooLarge,
    ResponseTooShort { len: nat },
    InvalidServerAccept(Seq<char>),
    UnsupportedVersion(u16),
    InvalidPublicKey,
    NotAuthenticated,
    PeerIdMismatch { expected: Seq<u8>, actual: Seq<u8> },
    DecapsulationFailed,
}

impl View for ClientHandshakeError {
    type V = ClientFault;

    open spec fn view(&self) -> ClientFault {
        match self {
            ClientHandshakeError::KeyGenerationFailed => ClientFault::KeyGenerationFailed,
            ClientHandshakeError::ResponseTooLarge => ClientFault::ResponseTooLarge,
            ClientHandshakeError::ResponseTooShort { len } => ClientFault::ResponseTooShort {
                len: *len as nat,
            },
            ClientHandshakeError::InvalidServerAccept(why) => ClientFault::InvalidServerAccept(
                why@,
            ),
            ClientHandshakeError::UnsupportedVersion(v) => ClientFault::UnsupportedVersion(*v),
            ClientHandshakeError::InvalidPublicKey => ClientFault::InvalidPublicKey,
            ClientHandshakeError::NotAuthenticated => ClientFault::NotAuthenticated,
            ClientHandshakeError::PeerIdMismatch { expected, actual } =>
                ClientFault::PeerIdMismatch { expected: expected@, actual: actual@ },
            ClientHandshakeError::DecapsulationFailed => ClientFault::DecapsulationFailed,
        }
    }
}

impl ClientFault {
    /// The text of the error.
    pub open spec fn text(self) -> Seq<char> {
        match self {
            ClientFault::KeyGenerationFailed => "ML-KEM-768 keygen failed"@,
            ClientFault::ResponseTooLarge => "handshake response exceeds size limit"@,
            ClientFault::ResponseTooShort { len } => "handshake response too short: "@
                + text::decimal(len) + " bytes"@,
            ClientFault::InvalidServerAccept(why) => "invalid ServerAccept: "@ + why,
            ClientFault::UnsupportedVersion(v) => "unsupported PQC version: "@ + text::decimal(
                v as nat,
            ),
            ClientFault::InvalidPublicKey => "invalid ML-DSA-65 public key"@,
            ClientFault::NotAuthenticated =>
                "ML-DSA-65 signature verification failed — server not authenticated"@,
            ClientFault::PeerIdMismatch { expected, actual } => text::mismatch(
                "PeerId mismatch: expected "@,
                expected,
                actual,
            ),
            ClientFault::DecapsulationFailed => "ML-KEM-768 decapsulation failed"@,
        }
    }
}

impl ClientHandshakeError {
    /// The text of the error.
    pub fn to_string(&self) -> (r: String)
        ensures
            r@ == self@.text(),
    {
        match self {
            ClientHandshakeError::KeyGenerationFailed => text::plain("ML-KEM-768 keygen failed"),
            ClientHandshakeError::ResponseTooLarge => text::plain(
                "handshake response exceeds size limit",
            ),
            ClientHandshakeError::ResponseTooShort { len } => {
                let mut out = text::numbered("handshake response too short: ", *len as u64);
                out.append(" bytes");
                out
            },
            ClientHandshakeError::InvalidServerAccept(why) => text::joined(
                "invalid ServerAccept: ",
                why.as_str(),
            ),
            ClientHandshakeError::UnsupportedVersion(v) => text::numbered(
                "unsupported PQC version: ",
                *v as u64,
            ),
            ClientHandshakeError::InvalidPublicKey => text::plain("invalid ML-DSA-65 public key"),
            ClientHandshakeError::NotAuthenticated => text::plain(
                "ML-DSA-65 signature verification failed — server not authenticated",
            ),
            ClientHandshakeError::PeerIdMismatch { expected, actual } => text::mismatch_text(
                "PeerId mismatch: expected ",
                expected,
                actual,
            ),
            ClientHandshakeError::DecapsulationFailed => text::plain(
                "ML-KEM-768 decapsulation failed",
            ),
        }
    }
}

/// The fields of the ServerAccept in a framed response within the size limit. The length
/// prefix is skipped unread.
pub open spec fn accept_in_response(response: Seq<u8>) -> Result<AcceptView, ClientFault> {
    if response.len() > MAX_HANDSHAKE_RESPONSE {
        Err(ClientFault::ResponseTooLarge)
    } else if response.len() < 4 {
        Err(ClientFault::ResponseTooShort { len: response.len() })
    } else {
        match pqc_tunnel::parsed_server_accept(response.skip(4)) {
            Err(why) => Err(ClientFault::InvalidServerAccept("invalid PQC envelope: "@ + why)),
            Ok(fields) => if fields.version != PQC_VERSION {
                Err(ClientFault::UnsupportedVersion(fields.version))
            } else {
                Ok(fields)
            },
        }
    }
}

/// Reads the ServerAccept in a framed response and checks its version.
pub fn read_server_accept(response: &[u8]) -> (r: Result<ServerAcceptData, ClientHandshakeError>)
    ensures
        match accept_in_response(response@) {
            Ok(fields) => (r matches Ok(v) && v@ == fields),
            Err(fault) => (r matches Err(e) && e@ == fault),
        },
{
    if response.len() > MAX_HANDSHAKE_RESPONSE {
        return Err(ClientHandshakeError::ResponseTooLarge);
    }
    if response.len() < 4 {
        return Err(ClientHandshakeError::ResponseTooShort { len: response.len() });
    }
    match pqc_tunnel::decode_server_accept(wire::tail(response, 4)) {
        Err(e) => Err(ClientHandshakeError::InvalidServerAccept(e.to_string())),
        Ok(accept) => if accept.version != PQC_VERSION {
            Err(ClientHandshakeError::UnsupportedVersion(accept.version))
        } else {
            Ok(accept)
        },
    }
}

/// Whether a server passes the client's checks, given whether its signature verifies
/// (nothing where its public key is malformed), its peer id and the expected one.
pub open spec fn server_check(
    signature: Option<bool>,
    peer_id: Seq<u8>,
    expected: Option<Seq<u8>>,
) -> Result<(), ClientFault> {
    match signature {
        None => Err(ClientFault::InvalidPublicKey),
        Some(false) => Err(ClientFault::NotAuthenticated),
        Some(true) => match expected {
            Some(id) if id != peer_id => Err(
                ClientFault::PeerIdMismatch { expected: id, actual: peer_id },
            ),
            _ => Ok(()),
        },
    }
}

/// The contents of an optional peer id.
pub open spec fn peer_id_view(id: Option<&[u8; 32]>) -> Option<Seq<u8>> {
    match id {
        None => None,
        Some(id) => Some(id@),
    }
}

/// Decides whether a server passes the client's checks.
pub fn check_server(
    signature: Option<bool>,
    peer_id: &[u8; 32],
    expected: Option<&[u8; 32]>,
) -> (r: Result<(), ClientHandshakeError>)
    ensures
        match server_check(signature, peer_id@, peer_id_view(expected)) {
            Ok(()) => r is Ok,
            Err(fault) => (r matches Err(e) && e@ == fault),
        },
{
    match signature {
        None => return Err(ClientHandshakeError::InvalidPublicKey),
        Some(valid) => if !valid {
            return Err(ClientHandshakeError::NotAuthenticated);
        },
    }
    if let Some(id) = expected {
        if !wire::same_bytes(id, peer_id) {
            return Err(
                ClientHandshakeError::PeerIdMismatch { expected: *id, actual: *peer_id },
            );
        }
    }
    Ok(())
}

/// Whether the signature in a ServerAccept verifies for a ClientHello with this
/// encapsulation key; nothing where the public key is malformed.
pub open spec fn signature_check(ek: Seq<u8>, accept: AcceptView) -> Option<bool> {
    if crypto::ml_dsa_65_accepts(accept.pubkey) {
        Some(
            crypto::ml_dsa_65_verifies(
                accept.pubkey,
                pqc_tunnel::auth_message(ek, accept.ct),
                accept.signature,
            ),
        )
    } else {
        None
    }
}

/// The session key at which a client arrives, or why it gives up.
pub open spec fn client_outcome(
    ek: Seq<u8>,
    dk: Seq<u8>,
    response: Seq<u8>,
    expected: Option<Seq<u8>>,
) -> Result<Seq<u8>, ClientFault> {
    match accept_in_response(response) {
        Err(fault) => Err(fault),
        Ok(accept) => match server_check(
            signature_check(ek, accept),
            hash::blake3_hash(accept.pubkey),
            expected,
        ) {
            Err(fault) => Err(fault),
            Ok(()) => match crypto::ml_kem_768_decapsulated(dk, accept.ct) {
                None => Err(ClientFault::DecapsulationFailed),
                Some(ss) => Ok(pqc_tunnel::session_key(ss)),
            },
        },
    }
}

/// The client side of a handshake that has begun: its fresh key pair.
pub struct ClientHandshake {
    ek: [u8; ML_KEM_768_EK_SIZE],
    dk: [u8; ML_KEM_768_DK_SIZE],
}

impl ClientHandshake {
    /// The encapsulation key.
    pub closed spec fn ek(&self) -> Seq<u8> {
        self.ek@
    }

    /// The decapsulation key.
    pub closed spec fn dk(&self) -> Seq<u8> {
        self.dk@
    }

    /// Begins a handshake with a fresh key pair. It fails only where none can be
    /// generated.
    pub fn start() -> (r: Result<Self, ClientHandshakeError>)
        ensures
            match r {
                Ok(h) => {
                    &&& crypto::is_key_pair(h.ek(), h.dk())
                    &&& exists|d: Seq<u8>, z: Seq<u8>|
                        d.len() == 32 && z.len() == 32 && (h.ek(), h.dk())
                            == #[trigger] crypto::ml_kem_768_keys(d, z)
                    &&& crypto::ml_kem_768_accepts(h.ek())
                    &&& h.ek().len() == ML_KEM_768_EK_SIZE
                },
                Err(e) => e@ == ClientFault::KeyGenerationFailed,
            },
    {
        match crypto::ml_kem_768_generate() {
            Ok((ek, dk)) => Ok(ClientHandshake { ek, dk }),
            Err(()) => Err(ClientHandshakeError::KeyGenerationFailed),
        }
    }

    /// Begins a handshake with a given key pair.
    pub fn with_keys(ek: [u8; ML_KEM_768_EK_SIZE], dk: [u8; ML_KEM_768_DK_SIZE]) -> (r: Self)
        ensures
            r.ek() == ek@,
            r.dk() == dk@,
    {
        ClientHandshake { ek, dk }
    }

    /// The framed ClientHello to send.
    pub fn hello(&self) -> (r: Vec<u8>)
        ensures
            r@ == wire::framed(pqc_tunnel::client_hello(self.ek())),
            r@.len() == pqc_tunnel::CLIENT_HELLO_SIZE + 4,
    {
        wire::frame(pqc_tunnel::encode_client_hello(&self.ek).as_slice())
    }

    /// Ends the handshake with the server's framed response. The secret is recovered
    /// only after the server has passed all checks.
    pub fn finish(&self, response: &[u8], expected_peer_id: Option<&[u8; 32]>) -> (r: Result<
        SessionCipher,
        ClientHandshakeError,
    >)
        ensures
            match client_outcome(self.ek(), self.dk(), response@, peer_id_view(expected_peer_id)) {
                Ok(key) => (r matches Ok(cipher) && cipher.key() == key),
                Err(fault) => (r matches Err(e) && e@ == fault),
            },
    {
        let accept = read_server_accept(response)?;
        let signature: Option<bool> = if crypto::ml_dsa_65_check(&accept.pubkey) {
            let message = pqc_tunnel::build_auth_message(&self.ek, &accept.ct);
            Some(
                crypto::ml_dsa_65_verify(&accept.pubkey, message.as_slice(), &accept.signature),
            )
        } else {
            None
        };
        let peer_id = pqc_tunnel::derive_peer_id(&accept.pubkey);
        check_server(signature, &peer_id, expected_peer_id)?;
        match crypto::ml_kem_768_decapsulate(&self.dk, &accept.ct) {
            Err(()) => Err(ClientHandshakeError::DecapsulationFailed),
            Ok(ss) => Ok(SessionCipher::from_shared_secret(ss.as_bytes())),
        }
    }
}

impl Drop for ClientHandshake {
    /// Overwrites the decapsulation key with zeros.
    fn drop(&mut self)
        ensures
            final(self).dk() == Seq::new(ML_KEM_768_DK_SIZE as nat, |i: int| 0u8),
        opens_invariants none
        no_unwind
    {
        wire::wipe(&mut self.dk);
    }
}

// ---------------------------------------------------------------------------
// Server
// ---------------------------------------------------------------------------

/// Largest ClientHello envelope that the server reads.
pub const MAX_CLIENT_HELLO: usize = 4096;

/// The signing keys of a node.
pub struct NodeKeys {
    pub public_key: [u8; ML_DSA_65_PK_SIZE],
    pub secret_key: Vec<u8>,
}

impl Drop for NodeKeys {
    /// Overwrites the secret key.
    fn drop(&mut self)
        ensures
            final(self).secret_key@ == Seq::<u8>::empty(),
        opens_invariants none
        no_unwind
    {
        wire::wipe_vec(&mut self.secret_key);
    }
}

/// Why a server gives up a handshake.
#[derive(Debug)]
pub enum ServerHandshakeError {
    /// The node has no signing keys.
    MissingIdentity,
    /// The announced message exceeds the size limit.
    MessageTooLarge,
    /// The message is no ClientHello.
    Tunnel(TunnelError),
    /// The client's encapsulation key is malformed.
    InvalidEncapsulationKey,
    /// No secret could be encapsulated.
    EncapsulationFailed,
    /// The node's secret key has the wrong size.
    InvalidSecretKey { len: usize },
    /// The exchange could not be signed; the text says why.
    SigningFailed(String),
}

impl ServerHandshakeError {
    /// The text of the error.
    pub open spec fn text(self) -> Seq<char> {
        match self {
            ServerHandshakeError::MissingIdentity =>
                "NodeIdentity required for authenticated PQC handshake"@,
            ServerHandshakeError::MessageTooLarge => "PQC handshake message too large"@,
            ServerHandshakeError::Tunnel(e) => e.text(),
            ServerHandshakeError::InvalidEncapsulationKey =>
                "invalid ML-KEM-768 encapsulation key"@,
            ServerHandshakeError::EncapsulationFailed => "ML-KEM-768 encapsulation failed"@,
            ServerHandshakeError::InvalidSecretKey { len } =>
                "Failed to deserialize ML-DSA-65 secret key: Invalid key size: expected 4032, got "@
                + text::decimal(len as nat),
            ServerHandshakeError::SigningFailed(why) => "ML-DSA-65 signing failed: "@ + why@,
        }
    }

    /// The text of the error.
    pub fn to_string(&self) -> (r: String)
        ensures
            r@ == self.text(),
    {
        match self {
            ServerHandshakeError::MissingIdentity => text::plain(
                "NodeIdentity required for authenticated PQC handshake",
            ),
            ServerHandshakeError::MessageTooLarge => text::plain("PQC handshake message too large"),
            ServerHandshakeError::Tunnel(e) => e.to_string(),
            ServerHandshakeError::InvalidEncapsulationKey => text::plain(
                "invalid ML-KEM-768 encapsulation key",
            ),
            ServerHandshakeError::EncapsulationFailed => text::plain(
                "ML-KEM-768 encapsulation failed",
            ),
            ServerHandshakeError::InvalidSecretKey { len } => text::numbered(
                "Failed to deserialize ML-DSA-65 secret key: Invalid key size: expected 4032, got ",
                *len as u64,
            ),
            ServerHandshakeError::SigningFailed(why) => text::joined(
                "ML-DSA-65 signing failed: ",
                why.as_str(),
            ),
        }
    }
}

/// The length of the ClientHello that a four-byte prefix announces.
pub fn client_hello_length(prefix: [u8; 4]) -> (r: Result<usize, ServerHandshakeError>)
    ensures
        match r {
            Ok(len) => len == wire::from_be32(prefix@) && len <= MAX_CLIENT_HELLO && len <= 4096,
            Err(e) => e is MessageTooLarge && wire::from_be32(prefix@) > MAX_CLIENT_HELLO
                && wire::from_be32(prefix@) > 4096,
        },
{
    match crate::stream::announced_length(prefix, MAX_CLIENT_HELLO) {
        Ok(len) => Ok(len),
        Err(_) => Err(ServerHandshakeError::MessageTooLarge),
    }
}

/// The encapsulation key in a ClientHello. The version is left to the client: it learns
/// from the answer which one the server speaks.
pub fn read_client_hello(message: &[u8]) -> (r: Result<
    [u8; ML_KEM_768_EK_SIZE],
    ServerHandshakeError,
>)
    ensures
        match pqc_tunnel::parsed_client_hello(message@) {
            Err(why) => (r matches Err(
                ServerHandshakeError::Tunnel(TunnelError::InvalidEnvelope(m)),
            ) && m@ == why),
            Ok((version, ek)) => (r matches Ok(k) && k@ == ek),
        },
{
    match pqc_tunnel::decode_client_hello(message) {
        Err(e) => Err(ServerHandshakeError::Tunnel(e)),
        Ok((_, ek)) => Ok(ek),
    }
}

/// The framed ServerAccept to send and the session cipher, for the results of
/// encapsulation and signing.
pub fn accept_with(
    ss: &[u8; 32],
    ct: &[u8; ML_KEM_768_CT_SIZE],
    public_key: &[u8; ML_DSA_65_PK_SIZE],
    signature: &[u8; ML_DSA_65_SIG_SIZE],
) -> (r: (Vec<u8>, SessionCipher))
    ensures
        r.0@ == wire::framed(pqc_tunnel::server_accept(ct@, public_key@, signature@)),
        r.1.key() == pqc_tunnel::session_key(ss@),
{
    let payload = pqc_tunnel::encode_server_accept(ct, public_key, signature);
    (wire::frame(payload.as_slice()), SessionCipher::from_shared_secret(ss))
}

/// Whether a frame and a session key are a server's answer to an encapsulation key:
/// the frame holds a ciphertext for the key, the node's public key and the node's
/// signature over the exchange, and the session key follows from the secret in the
/// ciphertext.
pub open spec fn is_answer(
    ek: Seq<u8>,
    pk: Seq<u8>,
    sk: Seq<u8>,
    frame: Seq<u8>,
    key: Seq<u8>,
) -> bool {
    exists|ss: Seq<u8>, ct: Seq<u8>, signature: Seq<u8>|
        {
            &&& #[trigger] crypto::is_encapsulation(ek, ss, ct)
            &&& #[trigger] crypto::is_signature(sk, pqc_tunnel::auth_message(ek, ct), signature)
            &&& ct.len() == ML_KEM_768_CT_SIZE
            &&& signature.len() == ML_DSA_65_SIG_SIZE
            &&& frame == wire::framed(pqc_tunnel::server_accept(ct, pk, signature))
            &&& key == pqc_tunnel::session_key(ss)
        }
}

/// The secret, ciphertext and signature of an answer.
proof fn answer_parts(
    ek: Seq<u8>,
    pk: Seq<u8>,
    sk: Seq<u8>,
    frame: Seq<u8>,
    key: Seq<u8>,
) -> (r: (Seq<u8>, Seq<u8>, Seq<u8>))
    requires
        is_answer(ek, pk, sk, frame, key),
    ensures
        crypto::is_encapsulation(ek, r.0, r.1),
        crypto::is_signature(sk, pqc_tunnel::auth_message(ek, r.1), r.2),
        r.1.len() == ML_KEM_768_CT_SIZE,
        r.2.len() == ML_DSA_65_SIG_SIZE,
        frame == wire::framed(pqc_tunnel::server_accept(r.1, pk, r.2)),
        key == pqc_tunnel::session_key(r.0),
{
    let (ss, ct, signature) = choose|ss: Seq<u8>, ct: Seq<u8>, signature: Seq<u8>|
        {
            &&& #[trigger] crypto::is_encapsulation(ek, ss, ct)
            &&& #[trigger] crypto::is_signature(sk, pqc_tunnel::auth_message(ek, ct), signature)
            &&& ct.len() == ML_KEM_768_CT_SIZE
            &&& signature.len() == ML_DSA_65_SIG_SIZE
            &&& frame == wire::framed(pqc_tunnel::server_accept(ct, pk, signature))
            &&& key == pqc_tunnel::session_key(ss)
        };
    (ss, ct, signature)
}

/// Signs an exchange and answers it.
fn sign_and_accept(
    ss: &[u8; 32],
    ek: &[u8; ML_KEM_768_EK_SIZE],
    ct: &[u8; ML_KEM_768_CT_SIZE],
    keys: &NodeKeys,
) -> (r: Result<(Vec<u8>, SessionCipher), ServerHandshakeError>)
    ensures
        match r {
            Ok((frame, cipher)) => {
                &&& keys.secret_key@.len() == ML_DSA_65_SK_SIZE
                &&& cipher.key() == pqc_tunnel::session_key(ss@)
                &&& exists|signature: Seq<u8>|
                    {
                        &&& #[trigger] crypto::is_signature(
                            keys.secret_key@,
                            pqc_tunnel::auth_message(ek@, ct@),
                            signature,
                        )
                        &&& signature.len() == ML_DSA_65_SIG_SIZE
                        &&& frame@ == wire::framed(
                            pqc_tunnel::server_accept(ct@, keys.public_key@, signature),
                        )
                    }
            },
            Err(ServerHandshakeError::InvalidSecretKey { len }) => {
                &&& len == keys.secret_key@.len()
                &&& len != ML_DSA_65_SK_SIZE
            },
            Err(ServerHandshakeError::SigningFailed(_)) => keys.secret_key@.len()
                == ML_DSA_65_SK_SIZE,
            Err(_) => false,
        },
{
    if keys.secret_key.len() != ML_DSA_65_SK_SIZE {
        return Err(ServerHandshakeError::InvalidSecretKey { len: keys.secret_key.len() });
    }
    let message = pqc_tunnel::build_auth_message(ek, ct);
    match crypto::ml_dsa_65_sign(keys.secret_key.as_slice(), message.as_slice()) {
        Err(why) => Err(ServerHandshakeError::SigningFailed(why)),
        Ok(signature) => {
            assert(crypto::is_signature(
                keys.secret_key@,
                pqc_tunnel::auth_message(ek@, ct@),
                signature@,
            ));
            Ok(accept_with(ss, ct, &keys.public_key, &signature))
        },
    }
}

/// Answers a client's encapsulation key.
///
/// Encapsulation and signing draw random numbers, so the answer is one of many, and they
/// fail where the system gives none.
pub fn accept_client(ek: &[u8; ML_KEM_768_EK_SIZE], keys: &NodeKeys) -> (r: Result<
    (Vec<u8>, SessionCipher),
    ServerHandshakeError,
>)
    ensures
        match r {
            Ok((frame, cipher)) => {
                &&& crypto::ml_kem_768_accepts(ek@)
                &&& keys.secret_key@.len() == ML_DSA_65_SK_SIZE
                &&& is_answer(ek@, keys.public_key@, keys.secret_key@, frame@, cipher.key())
            },
            Err(ServerHandshakeError::InvalidEncapsulationKey) => !crypto::ml_kem_768_accepts(ek@),
            Err(ServerHandshakeError::EncapsulationFailed) => crypto::ml_kem_768_accepts(ek@),
            Err(ServerHandshakeError::InvalidSecretKey { len }) => {
                &&& crypto::ml_kem_768_accepts(ek@)
                &&& len == keys.secret_key@.len()
                &&& len != ML_DSA_65_SK_SIZE
            },
            Err(ServerHandshakeError::SigningFailed(_)) => {
                &&& crypto::ml_kem_768_accepts(ek@)
                &&& keys.secret_key@.len() == ML_DSA_65_SK_SIZE
            },
            Err(_) => false,
        },
{
    if !crypto::ml_kem_768_check(ek) {
        return Err(ServerHandshakeError::InvalidEncapsulationKey);
    }
    match crypto::ml_kem_768_encapsulate(ek) {
        Err(()) => Err(ServerHandshakeError::EncapsulationFailed),
        Ok((ss, ct)) => {
            assert(crypto::is_encapsulation(ek@, ss@, ct@));
            sign_and_accept(ss.as_bytes(), ek, &ct, keys)
        },
    }
}

/// Answers a ClientHello envelope of any version: the framed ServerAccept to send, of the
/// version that the server speaks, and the session cipher. The node needs its signing
/// keys.
pub fn respond(message: &[u8], keys: Option<&NodeKeys>) -> (r: Result<
    (Vec<u8>, SessionCipher),
    ServerHandshakeError,
>)
    ensures
        keys is None ==> (r matches Err(e) && e is MissingIdentity),
        keys matches Some(k) ==> match pqc_tunnel::parsed_client_hello(message@) {
            Err(why) => (r matches Err(
                ServerHandshakeError::Tunnel(TunnelError::InvalidEnvelope(m)),
            ) && m@ == why),
            Ok((version, ek)) => match r {
                Ok((frame, cipher)) => {
                    &&& crypto::ml_kem_768_accepts(ek)
                    &&& k.secret_key@.len() == ML_DSA_65_SK_SIZE
                    &&& is_answer(ek, k.public_key@, k.secret_key@, frame@, cipher.key())
                },
                Err(ServerHandshakeError::InvalidEncapsulationKey) => !crypto::ml_kem_768_accepts(
                    ek,
                ),
                Err(ServerHandshakeError::EncapsulationFailed) => crypto::ml_kem_768_accepts(ek),
                Err(ServerHandshakeError::InvalidSecretKey { len }) => {
                    &&& crypto::ml_kem_768_accepts(ek)
                    &&& len == k.secret_key@.len()
                    &&& len != ML_DSA_65_SK_SIZE
                },
                Err(ServerHandshakeError::SigningFailed(_)) => {
                    &&& crypto::ml_kem_768_accepts(ek)
                    &&& k.secret_key@.len() == ML_DSA_65_SK_SIZE
                },
                Err(_) => false,
            },
        },
{
    match keys {
        None => Err(ServerHandshakeError::MissingIdentity),
        Some(k) => {
            let ek = read_client_hello(message)?;
            accept_client(&ek, k)
        },
    }
}

// ---------------------------------------------------------------------------
// Laws
// ---------------------------------------------------------------------------

/// A client only takes up a session with a server whose signature over this very
/// exchange verifies and, where it expects a certain peer id, whose public key has it.
pub proof fn only_authenticated_servers_are_accepted(
    ek: Seq<u8>,
    dk: Seq<u8>,
    response: Seq<u8>,
    expected: Option<Seq<u8>>,
)
    requires
        client_outcome(ek, dk, response, expected) is Ok,
    ensures
        4 <= response.len() <= MAX_HANDSHAKE_RESPONSE,
        accept_in_response(response) is Ok,
        ({
            let accept = accept_in_response(response)->Ok_0;
            &&& accept.version == PQC_VERSION
            &&& crypto::ml_dsa_65_accepts(accept.pubkey)
            &&& crypto::ml_dsa_65_verifies(
                accept.pubkey,
                pqc_tunnel::auth_message(ek, accept.ct),
                accept.signature,
            )
            &&& expected matches Some(id) ==> id == hash::blake3_hash(accept.pubkey)
        }),
{
}

/// The server reads from the client's hello the encapsulation key that the client put
/// in.
pub proof fn server_reads_the_hello(ek: Seq<u8>)
    requires
        ek.len() == ML_KEM_768_EK_SIZE,
    ensures
        wire::from_be32(wire::framed(pqc_tunnel::client_hello(ek))) <= MAX_CLIENT_HELLO,
        wire::from_be32(wire::framed(pqc_tunnel::client_hello(ek))) == pqc_tunnel::client_hello(
            ek,
        ).len(),
        pqc_tunnel::parsed_client_hello(
            wire::framed(pqc_tunnel::client_hello(ek)).skip(4),
        ) == Ok::<_, Seq<char>>((PQC_VERSION, ek)),
{
    pqc_tunnel::client_hello_round_trip(ek);
    wire::frame_gives_back_its_payload(pqc_tunnel::client_hello(ek));
}

/// Client and server end up with the same session key: where the client's key pair
/// recovers the encapsulated secret and the server's signature verifies, the client
/// takes up the session with the server's key, unless it expects another peer id.
pub proof fn both_sides_agree(
    ek: Seq<u8>,
    dk: Seq<u8>,
    ss: Seq<u8>,
    ct: Seq<u8>,
    pk: Seq<u8>,
    signature: Seq<u8>,
    expected: Option<Seq<u8>>,
)
    requires
        ct.len() == ML_KEM_768_CT_SIZE,
        pk.len() == ML_DSA_65_PK_SIZE,
        signature.len() == ML_DSA_65_SIG_SIZE,
        crypto::ml_kem_768_decapsulated(dk, ct) == Some(ss),
        crypto::ml_dsa_65_accepts(pk),
        crypto::ml_dsa_65_verifies(pk, pqc_tunnel::auth_message(ek, ct), signature),
    ensures
        client_outcome(
            ek,
            dk,
            wire::framed(pqc_tunnel::server_accept(ct, pk, signature)),
            expected,
        ) == (match expected {
            Some(id) if id != hash::blake3_hash(pk) => Err::<Seq<u8>, ClientFault>(
                ClientFault::PeerIdMismatch { expected: id, actual: hash::blake3_hash(pk) },
            ),
            _ => Ok::<Seq<u8>, ClientFault>(pqc_tunnel::session_key(ss)),
        }),
{
    let envelope = pqc_tunnel::server_accept(ct, pk, signature);
    pqc_tunnel::server_accept_round_trip(ct, pk, signature);
    wire::frame_gives_back_its_payload(envelope);
    server_accept_fits(ct, pk, signature);
}

/// Every answer of a server carries the version that the server speaks, whatever the
/// client's hello said; a client that speaks another one finds it there.
pub proof fn answers_carry_the_servers_version(
    ek: Seq<u8>,
    pk: Seq<u8>,
    sk: Seq<u8>,
    frame: Seq<u8>,
    key: Seq<u8>,
)
    requires
        is_answer(ek, pk, sk, frame, key),
        pk.len() == ML_DSA_65_PK_SIZE,
    ensures
        pqc_tunnel::parsed_server_accept(frame.skip(4)) matches Ok(fields) && fields.version
            == PQC_VERSION && fields.pubkey == pk,
{
    let (ss, ct, signature) = answer_parts(ek, pk, sk, frame, key);
    pqc_tunnel::server_accept_round_trip(ct, pk, signature);
    wire::frame_gives_back_its_payload(pqc_tunnel::server_accept(ct, pk, signature));
}

/// A client of another version refuses an otherwise well-formed answer.
pub proof fn other_versions_are_refused_by_the_client(
    ek: Seq<u8>,
    dk: Seq<u8>,
    response: Seq<u8>,
    expected: Option<Seq<u8>>,
)
    requires
        4 <= response.len() <= MAX_HANDSHAKE_RESPONSE,
        pqc_tunnel::parsed_server_accept(response.skip(4)) is Ok,
    ensures
        pqc_tunnel::parsed_server_accept(response.skip(4)) matches Ok(fields) && (fields.version
            != PQC_VERSION ==> client_outcome(ek, dk, response, expected) == Err::<Seq<u8>, _>(
            ClientFault::UnsupportedVersion(fields.version),
        )),
{
}

/// Working keys lead to a session: where the client's key pair recovers every secret
/// that is encapsulated for it, and the node's signatures verify under its public key,
/// every answer of the node gives a client that expects this node, or none in
/// particular, the node's session key.
pub proof fn working_keys_lead_to_a_session(
    ek: Seq<u8>,
    dk: Seq<u8>,
    pk: Seq<u8>,
    sk: Seq<u8>,
    frame: Seq<u8>,
    key: Seq<u8>,
    expected: Option<Seq<u8>>,
)
    requires
        is_answer(ek, pk, sk, frame, key),
        pk.len() == ML_DSA_65_PK_SIZE,
        crypto::ml_dsa_65_accepts(pk),
        forall|message: Seq<u8>, signature: Seq<u8>| #[trigger]
            crypto::is_signature(sk, message, signature) ==> crypto::ml_dsa_65_verifies(
                pk,
                message,
                signature,
            ),
        forall|ss: Seq<u8>, ct: Seq<u8>| #[trigger]
            crypto::is_encapsulation(ek, ss, ct) ==> crypto::ml_kem_768_decapsulated(dk, ct)
                == Some(ss),
        expected matches Some(id) ==> id == hash::blake3_hash(pk),
    ensures
        client_outcome(ek, dk, frame, expected) == Ok::<_, ClientFault>(key),
        frame.len() <= MAX_HANDSHAKE_RESPONSE,
{
    let (ss, ct, signature) = answer_parts(ek, pk, sk, frame, key);
    both_sides_agree(ek, dk, ss, ct, pk, signature, expected);
    server_accept_fits(ct, pk, signature);
}

/// A ServerAccept frame fits in the client's limit.
pub proof fn server_accept_fits(ct: Seq<u8>, pk: Seq<u8>, signature: Seq<u8>)
    requires
        ct.len() == ML_KEM_768_CT_SIZE,
        pk.len() == ML_DSA_65_PK_SIZE,
        signature.len() == ML_DSA_65_SIG_SIZE,
    ensures
        wire::framed(pqc_tunnel::server_accept(ct, pk, signature)).len() <= MAX_HANDSHAKE_RESPONSE,
{
}

/// A client takes up a session exactly where a framed ServerAccept of the right size and
/// version holds a public key under which the signature verifies, over `ant-wt-auth-v1`,
/// the client's encapsulation key and the ciphertext; the public key hashes to the
/// expected peer id, if there is one; and the ciphertext gives a secret. The session key
/// is then derived from all of the secret.
pub proof fn sessions_follow_from_the_response(
    ek: Seq<u8>,
    dk: Seq<u8>,
    response: Seq<u8>,
    expected: Option<Seq<u8>>,
    key: Seq<u8>,
)
    ensures
        client_outcome(ek, dk, response, expected) == Ok::<_, ClientFault>(key) <==> {
            let ct = response.subrange(7, 1095);
            let pk = response.subrange(1095, 3047);
            let signature = response.subrange(3047, 6356);
            let message = seq![
                97u8, 110u8, 116u8, 45u8, 119u8, 116u8, 45u8, 97u8, 117u8, 116u8, 104u8, 45u8,
                118u8, 49u8,
            ] + ek + ct;
            &&& 6356 <= response.len() <= 16384
            &&& response[4] == 2 && response[5] == 0 && response[6] == 2
            &&& crypto::ml_dsa_65_accepts(pk)
            &&& crypto::ml_dsa_65_verifies(pk, message, signature)
            &&& expected matches Some(id) ==> id == hash::blake3_hash(pk)
            &&& crypto::ml_kem_768_decapsulated(dk, ct) matches Some(ss) && key
                == hash::blake3_derived_key("ant-wt-pqc-v1"@, ss)
        },
{
    let data = response.skip(4);
    pqc_tunnel::server_accepts_are_read_by_position(data);
    if 6356 <= response.len() {
        assert(data.subrange(3, 1091) =~= response.subrange(7, 1095));
        assert(data.subrange(1091, 3043) =~= response.subrange(1095, 3047));
        assert(data.subrange(3043, 6352) =~= response.subrange(3047, 6356));
        pqc_tunnel::signed_messages_have_their_layout(ek, response.subrange(7, 1095));
    }
}

/// A client that gives up says why, in this order: the response is too long or too short,
/// it is no ServerAccept, its version is another one, its public key is malformed, its
/// signature does not verify, the server is not the expected one, there is no secret.
pub proof fn refusals_give_the_first_reason(
    ek: Seq<u8>,
    dk: Seq<u8>,
    response: Seq<u8>,
    expected: Option<Seq<u8>>,
)
    ensures
        client_outcome(ek, dk, response, expected) matches Err(fault) ==> {
            let ct = response.subrange(7, 1095);
            let pk = response.subrange(1095, 3047);
            let signature = response.subrange(3047, 6356);
            let message = seq![
                97u8, 110u8, 116u8, 45u8, 119u8, 116u8, 45u8, 97u8, 117u8, 116u8, 104u8, 45u8,
                118u8, 49u8,
            ] + ek + ct;
            if response.len() > 16384 {
                fault == ClientFault::ResponseTooLarge
            } else if response.len() < 4 {
                fault == (ClientFault::ResponseTooShort { len: response.len() })
            } else if response.len() < 6356 {
                fault == ClientFault::InvalidServerAccept(
                    "invalid PQC envelope: "@ + ("ServerAccept too short: "@ + text::decimal(
                        (response.len() - 4) as nat,
                    ) + " bytes, expected "@ + text::decimal(6352)),
                )
            } else if response[4] != 2 {
                fault == ClientFault::InvalidServerAccept(
                    "invalid PQC envelope: "@ + ("expected ServerAccept type 0x02, got 0x"@
                        + text::hex_text(seq![response[4]])),
                )
            } else if response[5] != 0 || response[6] != 2 {
                fault == ClientFault::UnsupportedVersion(
                    (response[5] * 256 + response[6]) as u16,
                )
            } else if !crypto::ml_dsa_65_accepts(pk) {
                fault == ClientFault::InvalidPublicKey
            } else if !crypto::ml_dsa_65_verifies(pk, message, signature) {
                fault == ClientFault::NotAuthenticated
            } else if expected is Some && expected->0 != hash::blake3_hash(pk) {
                fault == (ClientFault::PeerIdMismatch {
                    expected: expected->0,
                    actual: hash::blake3_hash(pk),
                })
            } else {
                &&& crypto::ml_kem_768_decapsulated(dk, ct) is None
                &&& fault == ClientFault::DecapsulationFailed
            }
        },
{
    let data = response.skip(4);
    pqc_tunnel::server_accepts_are_read_by_position(data);
    if 6356 <= response.len() {
        assert(data.subrange(3, 1091) =~= response.subrange(7, 1095));
        assert(data.subrange(1091, 3043) =~= response.subrange(1095, 3047));
        assert(data.subrange(3043, 6352) =~= response.subrange(3047, 6356));
        pqc_tunnel::signed_messages_have_their_layout(ek, response.subrange(7, 1095));
    }
}

/// A server's answer is a frame of 6352 bytes: type and version, a ciphertext that was
/// encapsulated for the client's key, the node's public key, and a signature of the node
/// over this very exchange. The session key is derived from all of the secret that was
/// encapsulated with that ciphertext. Gives the two seeds.
pub proof fn answers_hold_the_exchange(
    ek: Seq<u8>,
    pk: Seq<u8>,
    sk: Seq<u8>,
    frame: Seq<u8>,
    key: Seq<u8>,
) -> (seeds: (Seq<u8>, Seq<u8>))
    requires
        is_answer(ek, pk, sk, frame, key),
        pk.len() == 1952,
    ensures
        ({
            let (ss, ct) = crypto::ml_kem_768_encapsulated(ek, seeds.0);
            let message = seq![
                97u8, 110u8, 116u8, 45u8, 119u8, 116u8, 45u8, 97u8, 117u8, 116u8, 104u8, 45u8,
                118u8, 49u8,
            ] + ek + ct;
            let signature = crypto::ml_dsa_65_signature(sk, message, seeds.1);
            &&& seeds.0.len() == 32
            &&& seeds.1.len() == 32
            &&& ct.len() == 1088
            &&& signature.len() == 3309
            &&& frame == seq![0u8, 0u8, 0x18u8, 0xD0u8, 2u8, 0u8, 2u8] + ct + pk + signature
            &&& key == hash::blake3_derived_key("ant-wt-pqc-v1"@, ss)
        }),
{
    let (ss, ct, signature) = answer_parts(ek, pk, sk, frame, key);
    pqc_tunnel::signed_messages_have_their_layout(ek, ct);
    let message = pqc_tunnel::auth_message(ek, ct);
    let seed = choose|seed: Seq<u8>|
        seed.len() == 32 && (ss, ct) == #[trigger] crypto::ml_kem_768_encapsulated(ek, seed);
    let signing_seed = choose|s: Seq<u8>|
        s.len() == 32 && signature == #[trigger] crypto::ml_dsa_65_signature(sk, message, s);
    pqc_tunnel::server_accepts_have_their_layout(ct, pk, signature);
    assert(wire::be32(6352) =~= seq![0u8, 0u8, 0x18u8, 0xD0u8]);
    assert(frame =~= seq![0u8, 0u8, 0x18u8, 0xD0u8, 2u8, 0u8, 2u8] + ct + pk + signature);
    (seed, signing_seed)
}

/// The frame that a client sends first: its length, type and version, and the
/// encapsulation key.
pub proof fn hellos_hold_the_key(ek: Seq<u8>)
    requires
        ek.len() == 1184,
    ensures
        wire::framed(pqc_tunnel::client_hello(ek)) == seq![
            0u8, 0u8, 0x04u8, 0xA3u8, 1u8, 0u8, 2u8,
        ] + ek,
{
    pqc_tunnel::client_hellos_have_their_layout(ek);
    assert(wire::be32(1187) =~= seq![0u8, 0u8, 0x04u8, 0xA3u8]);
    assert(wire::framed(pqc_tunnel::client_hello(ek)) =~= seq![
        0u8, 0u8, 0x04u8, 0xA3u8, 1u8, 0u8, 2u8,
    ] + ek);
}

/// A server passes a client's checks exactly where its signature verifies and its peer id
/// is the expected one, if there is one.
pub proof fn servers_pass_with_signature_and_peer_id(
    signature: Option<bool>,
    peer_id: Seq<u8>,
    expected: Option<&[u8; 32]>,
)
    ensures
        server_check(signature, peer_id, peer_id_view(expected)) is Ok <==> {
            &&& signature == Some(true)
            &&& expected matches Some(id) ==> id@ == peer_id
        },
        signature is None ==> server_check(signature, peer_id, peer_id_view(expected)) == Err::<
            (),
            _,
        >(ClientFault::InvalidPublicKey),
        signature == Some(false) ==> server_check(signature, peer_id, peer_id_view(expected))
            == Err::<(), _>(ClientFault::NotAuthenticated),
        signature == Some(true) ==> (expected matches Some(id) ==> (id@ != peer_id
            ==> server_check(signature, peer_id, peer_id_view(expected)) == Err::<(), _>(
            (ClientFault::PeerIdMismatch { expected: id@, actual: peer_id }),
        ))),
{
}

/// A client's errors show their fields and have their texts.
pub proof fn client_errors_have_their_texts(e: ClientHandshakeError)
    ensures
        match e {
            ClientHandshakeError::KeyGenerationFailed => {
                &&& e@ == ClientFault::KeyGenerationFailed
                &&& e@.text() == "ML-KEM-768 keygen failed"@
            },
            ClientHandshakeError::ResponseTooLarge => {
                &&& e@ == ClientFault::ResponseTooLarge
                &&& e@.text() == "handshake response exceeds size limit"@
            },
            ClientHandshakeError::ResponseTooShort { len } => {
                &&& e@ == (ClientFault::ResponseTooShort { len: len as nat })
                &&& e@.text() == "handshake response too short: "@ + text::decimal(len as nat)
                    + " bytes"@
            },
            ClientHandshakeError::InvalidServerAccept(why) => {
                &&& e@ == ClientFault::InvalidServerAccept(why@)
                &&& e@.text() == "invalid ServerAccept: "@ + why@
            },
            ClientHandshakeError::UnsupportedVersion(v) => {
                &&& e@ == ClientFault::UnsupportedVersion(v)
                &&& e@.text() == "unsupported PQC version: "@ + text::decimal(v as nat)
            },
            ClientHandshakeError::InvalidPublicKey => {
                &&& e@ == ClientFault::InvalidPublicKey
                &&& e@.text() == "invalid ML-DSA-65 public key"@
            },
            ClientHandshakeError::NotAuthenticated => {
                &&& e@ == ClientFault::NotAuthenticated
                &&& e@.text()
                    == "ML-DSA-65 signature verification failed — server not authenticated"@
            },
            ClientHandshakeError::PeerIdMismatch { expected, actual } => {
                &&& e@ == (ClientFault::PeerIdMismatch { expected: expected@, actual: actual@ })
                &&& e@.text() == "PeerId mismatch: expected "@ + text::hex_text(expected@)
                    + ", got "@ + text::hex_text(actual@)
            },
            ClientHandshakeError::DecapsulationFailed => {
                &&& e@ == ClientFault::DecapsulationFailed
                &&& e@.text() == "ML-KEM-768 decapsulation failed"@
            },
        },
{
}

/// A server's errors have their texts.
pub proof fn server_errors_have_their_texts(e: ServerHandshakeError)
    ensures
        match e {
            ServerHandshakeError::MissingIdentity => e.text()
                == "NodeIdentity required for authenticated PQC handshake"@,
            ServerHandshakeError::MessageTooLarge => e.text()
                == "PQC handshake message too large"@,
            ServerHandshakeError::Tunnel(t) => e.text() == t.text(),
            ServerHandshakeError::InvalidEncapsulationKey => e.text()
                == "invalid ML-KEM-768 encapsulation key"@,
            ServerHandshakeError::EncapsulationFailed => e.text()
                == "ML-KEM-768 encapsulation failed"@,
            ServerHandshakeError::InvalidSecretKey { len } => e.text()
                == "Failed to deserialize ML-DSA-65 secret key: Invalid key size: expected 4032, got "@
                + text::decimal(len as nat),
            ServerHandshakeError::SigningFailed(why) => e.text() == "ML-DSA-65 signing failed: "@
                + why@,
        },
{
}

/// The ServerAccept in a response is read by position behind the four bytes of its length,
/// and has to be of version 2.
pub proof fn accepts_are_read_behind_their_length(response: Seq<u8>)
    ensures
        accept_in_response(response) is Ok <==> {
            &&& 6356 <= response.len() <= 16384
            &&& response[4] == 2 && response[5] == 0 && response[6] == 2
        },
        accept_in_response(response) matches Ok(accept) ==> {
            &&& accept.version == 2
            &&& accept.ct == response.subrange(7, 1095)
            &&& accept.pubkey == response.subrange(1095, 3047)
            &&& accept.signature == response.subrange(3047, 6356)
        },
{
    let data = response.skip(4);
    pqc_tunnel::server_accepts_are_read_by_position(data);
    if 6356 <= response.len() {
        assert(data.subrange(3, 1091) =~= response.subrange(7, 1095));
        assert(data.subrange(1091, 3043) =~= response.subrange(1095, 3047));
        assert(data.subrange(3043, 6352) =~= response.subrange(3047, 6356));
    }
}

} // verus!
