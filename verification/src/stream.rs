//! Reading from streams with bounded memory.
use crate::wire;
use vstd::prelude::*;

verus! {

/// The length that a four-byte prefix announces, unless it exceeds `limit`: then the
/// error holds it.
pub fn announced_length(prefix: [u8; 4], limit: usize) -> (r: Result<usize, usize>)
    ensures
        match r {
            Ok(len) => len == wire::from_be32(prefix@) && len <= limit,
            Err(len) => len == wire::from_be32(prefix@) && len > limit,
        },
{
    let len: usize = wire::u32_from_be(prefix) as usize;
    if len > limit {
        Err(len)
    } else {
        Ok(len)
    }
}

/// Collects the pieces of a response up to a limit.
pub struct ResponseBuffer {
    bytes: Vec<u8>,
    limit: usize,
}

impl ResponseBuffer {
    /// The bytes collected so far.
    pub closed spec fn bytes(&self) -> Seq<u8> {
        self.bytes@
    }

    /// The largest allowed number of bytes.
    pub closed spec fn limit(&self) -> usize {
        self.limit
    }

    /// An empty buffer.
    pub fn new(limit: usize) -> (r: Self)
        ensures
            r.bytes() == Seq::<u8>::empty(),
            r.limit() == limit,
    {
        ResponseBuffer { bytes: Vec::new(), limit }
    }

    /// Appends a piece. Where the bytes then exceed the limit, the error holds their
    /// number.
    pub fn push(&mut self, piece: &[u8]) -> (r: Result<(), usize>)
        ensures
            final(self).bytes() == old(self).bytes() + piece@,
            final(self).limit() == old(self).limit(),
            match r {
                Ok(()) => final(self).bytes().len() <= final(self).limit(),
                Err(len) => len == final(self).bytes().len() && len > final(self).limit(),
            },
    {
        wire::append(&mut self.bytes, piece);
        if self.bytes.len() > self.limit {
            Err(self.bytes.len())
        } else {
            Ok(())
        }
    }

    /// The bytes collected so far.
    pub fn as_slice(&self) -> (r: &[u8])
        ensures
            r@ == self.bytes(),
    {
        self.bytes.as_slice()
    }
}

} // verus!
