//! Byte-level building blocks of the wire formats: big-endian integers,
//! length-prefixed frames and fixed-size fields.
use vstd::prelude::*;

verus! {

/// The two bytes of `x`, most significant first.
pub open spec fn be16(x: u16) -> Seq<u8> {
    seq![(x / 0x100) as u8, (x % 0x100) as u8]
}

/// The integer whose big-endian form is the first two bytes of `s`.
pub open spec fn from_be16(s: Seq<u8>) -> u16 {
    (s[0] * 0x100 + s[1]) as u16
}

/// The four bytes of `x`, most significant first.
pub open spec fn be32(x: u32) -> Seq<u8> {
    seq![
        (x / 0x100_0000) as u8,
        (x / 0x1_0000 % 0x100) as u8,
        (x / 0x100 % 0x100) as u8,
        (x % 0x100) as u8,
    ]
}

/// The integer whose big-endian form is the first four bytes of `s`.
pub open spec fn from_be32(s: Seq<u8>) -> u32 {
    (s[0] * 0x100_0000 + s[1] * 0x1_0000 + s[2] * 0x100 + s[3]) as u32
}

/// A payload behind its four-byte big-endian length. A length that does not fit
/// in four bytes is reduced modulo 2^32.
pub open spec fn framed(payload: Seq<u8>) -> Seq<u8> {
    be32((payload.len() % 0x1_0000_0000) as u32) + payload
}

/// Reading back the two bytes of an integer gives the integer.
pub proof fn lemma_be16_inverse(x: u16)
    ensures
        from_be16(be16(x)) == x,
        forall|rest: Seq<u8>| from_be16(#[trigger] (be16(x) + rest)) == x,
{
}

/// Reading back the four bytes of an integer gives the integer.
pub proof fn lemma_be32_inverse(x: u32)
    ensures
        from_be32(be32(x)) == x,
        forall|rest: Seq<u8>| from_be32(#[trigger] (be32(x) + rest)) == x,
{
}

/// A frame of fewer than 2^32 payload bytes starts with its payload's length, and
/// the payload follows.
pub proof fn frame_gives_back_its_payload(payload: Seq<u8>)
    requires
        payload.len() < 0x1_0000_0000,
    ensures
        from_be32(framed(payload)) == payload.len(),
        framed(payload).skip(4) == payload,
{
    lemma_be32_inverse(payload.len() as u32);
    assert(framed(payload).skip(4) =~= payload);
}

/// Splits `x` into its two bytes, most significant first.
pub fn u16_to_be(x: u16) -> (r: [u8; 2])
    ensures
        r@ == be16(x),
{
    let r = [(x / 0x100) as u8, (x % 0x100) as u8];
    assert(r@ =~= be16(x));
    r
}

/// Joins two bytes, most significant first.
pub fn u16_from_be(b: [u8; 2]) -> (r: u16)
    ensures
        r == from_be16(b@),
{
    b[0] as u16 * 0x100 + b[1] as u16
}

/// Splits `x` into its four bytes, most significant first.
pub fn u32_to_be(x: u32) -> (r: [u8; 4])
    ensures
        r@ == be32(x),
{
    let r = [
        (x / 0x100_0000) as u8,
        (x / 0x1_0000 % 0x100) as u8,
        (x / 0x100 % 0x100) as u8,
        (x % 0x100) as u8,
    ];
    assert(r@ =~= be32(x));
    r
}

/// Joins four bytes, most significant first.
pub fn u32_from_be(b: [u8; 4]) -> (r: u32)
    ensures
        r == from_be32(b@),
{
    b[0] as u32 * 0x100_0000 + b[1] as u32 * 0x1_0000 + b[2] as u32 * 0x100 + b[3] as u32
}

/// Appends `tail` to `buf`.
pub fn append(buf: &mut Vec<u8>, tail: &[u8])
    ensures
        final(buf)@ == old(buf)@ + tail@,
{
    buf.extend_from_slice(tail);
    assert(buf@ =~= old(buf)@ + tail@);
}

/// Puts the four-byte big-endian length prefix in front of `payload`.
pub fn frame(payload: &[u8]) -> (r: Vec<u8>)
    ensures
        r@ == framed(payload@),
{
    let prefix = u32_to_be((payload.len() as u64 % 0x1_0000_0000) as u32);
    let mut r: Vec<u8> = Vec::with_capacity(payload.len());
    append(&mut r, &prefix);
    append(&mut r, payload);
    assert(r@ =~= framed(payload@));
    r
}

/// Copies the `N` bytes of `data` that start at `start`.
pub fn field<const N: usize>(data: &[u8], start: usize) -> (r: [u8; N])
    requires
        start + N <= data@.len(),
    ensures
        r@ == data@.subrange(start as int, start + N),
{
    let mut r = [0u8; N];
    let len: usize = data.len();
    let mut i: usize = 0;
    while i < N
        invariant
            0 <= i <= N,
            len == data@.len(),
            start + N <= len,
            forall|j: int| 0 <= j < i ==> r@[j] == data@[start + j],
        decreases N - i,
    {
        r[i] = data[start + i];
        i += 1;
    }
    assert(r@ =~= data@.subrange(start as int, start + N));
    r
}

/// The bytes of `data` from `start` on.
pub fn tail(data: &[u8], start: usize) -> (r: &[u8])
    requires
        start <= data@.len(),
    ensures
        r@ == data@.skip(start as int),
{
    let r = vstd::slice::slice_subrange(data, start, data.len());
    assert(r@ =~= data@.skip(start as int));
    r
}

/// Whether two byte strings are the same.
pub fn same_bytes(a: &[u8], b: &[u8]) -> (r: bool)
    ensures
        r == (a@ == b@),
{
    if a.len() != b.len() {
        return false;
    }
    let len: usize = a.len();
    let mut i: usize = 0;
    while i < len
        invariant
            0 <= i <= len,
            len == a@.len(),
            len == b@.len(),
            forall|j: int| 0 <= j < i ==> a@[j] == b@[j],
        decreases len - i,
    {
        if a[i] != b[i] {
            return false;
        }
        i += 1;
    }
    assert(a@ =~= b@);
    true
}

/// `Zeroize::zeroize` of `zeroize` on a byte slice: overwrites every byte with zero,
/// in a way that the compiler does not remove.
#[verifier::external_body]
pub(crate) fn wipe(buf: &mut [u8])
    ensures
        final(buf)@ == Seq::new(old(buf)@.len(), |i: int| 0u8),
    opens_invariants none
    no_unwind
{
    zeroize::Zeroize::zeroize(buf)
}

/// `Zeroize::zeroize` of `zeroize` on a vector: overwrites its bytes with zero, in a way
/// that the compiler does not remove, and leaves it empty.
#[verifier::external_body]
pub(crate) fn wipe_vec(buf: &mut Vec<u8>)
    ensures
        final(buf)@ == Seq::<u8>::empty(),
    opens_invariants none
    no_unwind
{
    zeroize::Zeroize::zeroize(buf)
}

/// The bytes of an integer have their weights from the first down: 256 and 1, or 2^24,
/// 2^16, 256 and 1.
pub proof fn big_endian_bytes_have_their_weights(x: u16, y: u32)
    ensures
        be16(x).len() == 2,
        be16(x)[0] * 256 + be16(x)[1] == x,
        be32(y).len() == 4,
        be32(y)[0] * 16777216 + be32(y)[1] * 65536 + be32(y)[2] * 256 + be32(y)[3] == y,
{
}

/// Whatever bytes an integer is read from, they count with these weights.
pub proof fn bytes_are_read_with_their_weights(s: Seq<u8>)
    ensures
        from_be16(s) == s[0] * 256 + s[1],
        from_be32(s) == s[0] * 16777216 + s[1] * 65536 + s[2] * 256 + s[3],
{
}

/// A frame is four bytes longer than its payload, holds the payload byte by byte behind
/// them, and announces its length in them, modulo 2^32.
pub proof fn frames_announce_and_hold_their_payload(payload: Seq<u8>)
    ensures
        framed(payload).len() == payload.len() + 4,
        framed(payload)[0] * 16777216 + framed(payload)[1] * 65536 + framed(payload)[2] * 256
            + framed(payload)[3] == payload.len() % 4294967296,
        forall|i: int|
            #![trigger payload[i]]
            0 <= i < payload.len() ==> framed(payload)[i + 4] == payload[i],
{
    big_endian_bytes_have_their_weights(0, (payload.len() % 4294967296) as u32);
}

} // verus!
