# ant_tunnel

Browser-direct downloads of content-addressed chunks over a post-quantum tunnel.

A client connects to a storage node over WebTransport. On the first stream the two
agree on a session key with ML-KEM-768, and the node signs the exchange with ML-DSA-65.
Every later stream carries one request and one response of the chunk protocol,
encrypted with ChaCha20-Poly1305 under a nonce made of the stream's number and the
direction. The client fetches a file's data map, then the chunks it lists, checks each
against its BLAKE3 address and decrypts the file locally.

## Layout

| Module | What it holds |
|--------|---------------|
| `pqc_tunnel` | envelopes, nonces, the session cipher |
| `handshake`  | both sides of the key exchange |
| `session`    | stream numbers, limits on streams, sealed requests and responses |
| `stream`     | bounded reading |
| `chunk`, `codec` | messages of the chunk protocol and their wire form |
| `node`       | fetching from the network after a local miss |
| `download`, `cache`, `content` | the client's cache and the download procedure |
| `address`, `signaling` | addresses, peer ids, HTTP signaling |
| `crypto`, `hash` | the cryptographic primitives, from outside crates |
| `wire`, `text` | bytes and error texts |

`src/` is verified with Verus. Functions that call outside crates carry contracts that
are believed, not proved; they are marked `#[verifier::external_body]` and say what is
claimed of the crate. `app/` is ordinary Rust around the library: the WebTransport
server, the browser client and two developer tools.

## What is proved, in short

- Nonces never repeat within a session, and a session closes before its numbers run out.
- A server serves no stream before the handshake has succeeded, at most eight streams of a
  session at once and at most 64 over all sessions.
- Every envelope and message decodes to what was encoded; what is malformed is refused,
  with the reason.
- A client takes up a session only with a node whose signature over this very exchange
  verifies and whose peer id, where one is expected, matches.
- A message sent past the tunnel is refused and ends its session.
- Only envelopes of the right stream that decrypt under the session key are opened.
- A client only takes content that hashes to the address it asked for, and its cache
  holds nothing else. A fetched chunk stays there while fewer than 1024 others are used.
- A node relays from its peers only the chunk that was asked for.
