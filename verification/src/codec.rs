//! The building blocks of the message encoding: the format of the `postcard` crate.
//!
//! Integers are varints: seven bits per byte, low bits first, the high bit set on
//! every byte but the last. Byte strings and texts are their length followed by
//! their bytes. Fixed-size arrays are their bytes alone.
use crate::text;
use crate::wire;
use vstd::prelude::*;

verus! {

/// Why bytes could not be decoded.
pub enum DecodeFault {
    /// The data ended too early.
    UnexpectedEnd,
    /// A varint was too long for its type.
    BadVarint,
    /// A boolean was neither 0 nor 1.
    BadBool,
    /// The tag of an optional value was neither 0 nor 1.
    BadOption,
    /// A text was not valid UTF-8.
    BadUtf8,
    /// A number was out of range: an enum has no such variant, or a size does not fit.
    OutOfRange,
}

/// The text of a fault.
pub open spec fn fault_text(fault: DecodeFault) -> Seq<char> {
    match fault {
        DecodeFault::UnexpectedEnd => "Hit the end of buffer, expected more data"@,
        DecodeFault::BadVarint =>
            "Found a varint that didn't terminate. Is the usize too big for this platform?"@,
        DecodeFault::BadBool => "Found a bool that wasn't 0 or 1"@,
        DecodeFault::BadOption => "Found an Option discriminant that wasn't 0 or 1"@,
        DecodeFault::BadUtf8 => "Tried to parse invalid utf-8"@,
        DecodeFault::OutOfRange => "Serde Deserialization Error"@,
    }
}

/// What reading a value from the front of a byte string gives: the value and the
/// bytes behind it, or a fault.
pub type Reading<T> = Result<(T, Seq<u8>), DecodeFault>;

/// Whether the result of a reading function is what the reading says.
pub open spec fn agrees<T: View>(r: Result<(T, &[u8]), String>, reading: Reading<T::V>) -> bool {
    match reading {
        Ok((value, rest)) => (r matches Ok(v) && v.0@ == value && v.1@ == rest),
        Err(fault) => (r matches Err(t) && t@ == fault_text(fault)),
    }
}

/// A reading with its value put through `f`.
pub open spec fn mapped<A, B>(reading: Reading<A>, f: spec_fn(A) -> B) -> Reading<B> {
    match reading {
        Ok((value, rest)) => Ok((f(value), rest)),
        Err(fault) => Err(fault),
    }
}

/// A reading followed by another one of the bytes behind it.
pub open spec fn chained<A, B>(
    reading: Reading<A>,
    f: spec_fn(A, Seq<u8>) -> Reading<B>,
) -> Reading<B> {
    match reading {
        Ok((value, rest)) => f(value, rest),
        Err(fault) => Err(fault),
    }
}

// ---------------------------------------------------------------------------
// Varints
// ---------------------------------------------------------------------------

/// The varint of a number.
pub open spec fn varint(v: nat) -> Seq<u8>
    decreases v,
{
    if v < 128 {
        seq![v as u8]
    } else {
        seq![(128 + v % 128) as u8] + varint(v / 128)
    }
}

/// Reads a varint of at most `max_len` bytes, of which the last possible one must
/// not exceed `last_max`. Varints longer than needed are accepted.
pub open spec fn read_varint(data: Seq<u8>, max_len: nat, last_max: u8) -> Reading<nat>
    decreases max_len,
{
    if max_len == 0 {
        Err(DecodeFault::BadVarint)
    } else if data.len() == 0 {
        Err(DecodeFault::UnexpectedEnd)
    } else if data[0] < 128 {
        if max_len == 1 && data[0] > last_max {
            Err(DecodeFault::BadVarint)
        } else {
            Ok((data[0] as nat, data.skip(1)))
        }
    } else {
        match read_varint(data.skip(1), (max_len - 1) as nat, last_max) {
            Ok((high, rest)) => Ok(((data[0] - 128 + 128 * high) as nat, rest)),
            Err(fault) => Err(fault),
        }
    }
}

/// Reads a 32-bit number.
pub open spec fn read_u32(data: Seq<u8>) -> Reading<nat> {
    read_varint(data, 5, 15)
}

/// Reads a 64-bit number.
pub open spec fn read_u64(data: Seq<u8>) -> Reading<nat> {
    read_varint(data, 10, 1)
}

/// Reads the length of a byte string: a number as wide as a pointer.
pub open spec fn read_length(data: Seq<u8>) -> Reading<nat> {
    if usize::BITS == 32 {
        read_u32(data)
    } else {
        read_u64(data)
    }
}

/// Reads a size: a 64-bit number that has to fit into a `usize`.
pub open spec fn read_size(data: Seq<u8>) -> Reading<nat> {
    match read_u64(data) {
        Ok((v, rest)) => if v <= usize::MAX {
            Ok((v, rest))
        } else {
            Err(DecodeFault::OutOfRange)
        },
        Err(fault) => Err(fault),
    }
}

/// One more than the largest number that `read_varint` can give.
pub open spec fn varint_bound(max_len: nat, last_max: u8) -> nat
    decreases max_len,
{
    if max_len == 0 {
        0
    } else if max_len == 1 {
        (last_max + 1) as nat
    } else {
        128 * varint_bound((max_len - 1) as nat, last_max)
    }
}

proof fn lemma_varint_round_trip(v: nat, rest: Seq<u8>, max_len: nat, last_max: u8)
    requires
        v < varint_bound(max_len, last_max),
        last_max < 128,
    ensures
        read_varint(varint(v) + rest, max_len, last_max) == Ok::<_, DecodeFault>((v, rest)),
    decreases max_len,
{
    let data = varint(v) + rest;
    if v < 128 {
        assert(data[0] == v);
        assert(data.skip(1) =~= rest);
    } else {
        assert(max_len > 1);
        lemma_varint_round_trip(v / 128, rest, (max_len - 1) as nat, last_max);
        assert(data[0] == 128 + v % 128);
        assert(data.skip(1) =~= varint(v / 128) + rest);
    }
}

proof fn lemma_varint_bounds()
    ensures
        varint_bound(5, 15) == 0x1_0000_0000,
        varint_bound(10, 1) == 0x1_0000_0000_0000_0000,
{
    reveal_with_fuel(varint_bound, 11);
}

/// Reading back a number gives the number.
pub proof fn number_round_trip(v: nat, rest: Seq<u8>)
    ensures
        v <= u32::MAX ==> read_u32(varint(v) + rest) == Ok::<_, DecodeFault>((v, rest)),
        v <= u64::MAX ==> read_u64(varint(v) + rest) == Ok::<_, DecodeFault>((v, rest)),
        v <= usize::MAX ==> read_length(varint(v) + rest) == Ok::<_, DecodeFault>((v, rest)),
        v <= usize::MAX ==> read_size(varint(v) + rest) == Ok::<_, DecodeFault>((v, rest)),
{
    lemma_varint_bounds();
    if v <= u32::MAX {
        lemma_varint_round_trip(v, rest, 5, 15);
    }
    if v <= u64::MAX {
        lemma_varint_round_trip(v, rest, 10, 1);
    }
}

/// A number takes at most one byte per seven bits.
pub proof fn varint_is_short(v: nat, max_len: nat)
    requires
        v < varint_bound(max_len, 127),
    ensures
        1 <= varint(v).len() <= max_len,
    decreases max_len,
{
    if v >= 128 {
        varint_is_short(v / 128, (max_len - 1) as nat);
    }
}

/// A 64-bit number takes at most ten bytes.
pub proof fn numbers_take_ten_bytes(v: nat)
    requires
        v <= u64::MAX,
    ensures
        1 <= varint(v).len() <= 10,
{
    reveal_with_fuel(varint_bound, 11);
    varint_is_short(v, 10);
}

/// `postcard::to_stdvec` on a `u64`: the varint of the number. Encoding into a vector
/// does not fail.
#[verifier::external_body]
pub(crate) fn encode_u64(v: u64) -> (r: Result<Vec<u8>, String>)
    ensures
        r is Ok,
        r->Ok_0@ == varint(v as nat),
{
    postcard::to_stdvec(&v).map_err(|e| e.to_string())
}

/// `postcard::take_from_bytes` for `u64`: a varint of at most ten bytes and the bytes
/// behind it; the error is given by its text.
#[verifier::external_body]
pub(crate) fn take_u64(data: &[u8]) -> (r: Result<(u64, &[u8]), String>)
    ensures
        match read_u64(data@) {
            Ok((v, rest)) => (r matches Ok(x) && x.0 == v && x.1@ == rest),
            Err(fault) => (r matches Err(t) && t@ == fault_text(fault)),
        },
{
    postcard::take_from_bytes::<u64>(data).map_err(|e| e.to_string())
}

/// `postcard::take_from_bytes` for `u32`: a varint of at most five bytes and the bytes
/// behind it; the error is given by its text.
#[verifier::external_body]
pub(crate) fn take_u32(data: &[u8]) -> (r: Result<(u32, &[u8]), String>)
    ensures
        match read_u32(data@) {
            Ok((v, rest)) => (r matches Ok(x) && x.0 == v && x.1@ == rest),
            Err(fault) => (r matches Err(t) && t@ == fault_text(fault)),
        },
{
    postcard::take_from_bytes::<u32>(data).map_err(|e| e.to_string())
}

/// Takes the length of a byte string.
pub(crate) fn take_length(data: &[u8]) -> (r: Result<(usize, &[u8]), String>)
    ensures
        match read_length(data@) {
            Ok((v, rest)) => (r matches Ok(x) && x.0 == v && x.1@ == rest),
            Err(fault) => (r matches Err(t) && t@ == fault_text(fault)),
        },
{
    if usize::BITS == 32 {
        let (v, rest) = take_u32(data)?;
        Ok((v as usize, rest))
    } else {
        let (v, rest) = take_u64(data)?;
        Ok((v as usize, rest))
    }
}

/// Takes a size.
pub(crate) fn take_size(data: &[u8]) -> (r: Result<(usize, &[u8]), String>)
    ensures
        match read_size(data@) {
            Ok((v, rest)) => (r matches Ok(x) && x.0 == v && x.1@ == rest),
            Err(fault) => (r matches Err(t) && t@ == fault_text(fault)),
        },
{
    let (v, rest) = take_u64(data)?;
    if v > usize::MAX as u64 {
        return Err(describe(DecodeFault::OutOfRange));
    }
    Ok((v as usize, rest))
}

// ---------------------------------------------------------------------------
// Byte strings, texts, arrays, flags
// ---------------------------------------------------------------------------

/// Reads `n` bytes.
pub open spec fn read_raw(data: Seq<u8>, n: nat) -> Reading<Seq<u8>> {
    if data.len() < n {
        Err(DecodeFault::UnexpectedEnd)
    } else {
        Ok((data.take(n as int), data.skip(n as int)))
    }
}

/// Reads a 32-byte address.
pub open spec fn read_address(data: Seq<u8>) -> Reading<Seq<u8>> {
    read_raw(data, 32)
}

/// The encoding of a byte string.
pub open spec fn sized(bytes: Seq<u8>) -> Seq<u8> {
    varint(bytes.len()) + bytes
}

/// Reads a byte string.
pub open spec fn read_bytes(data: Seq<u8>) -> Reading<Seq<u8>> {
    match read_length(data) {
        Ok((n, rest)) => read_raw(rest, n),
        Err(fault) => Err(fault),
    }
}

/// The encoding of a text: its UTF-8 bytes as a byte string.
pub open spec fn text_encoding(text: Seq<char>) -> Seq<u8> {
    sized(vstd::utf8::encode_utf8(text))
}

/// Reads a text.
pub open spec fn read_text(data: Seq<u8>) -> Reading<Seq<char>> {
    match read_bytes(data) {
        Ok((bytes, rest)) => if vstd::utf8::valid_utf8(bytes) {
            Ok((vstd::utf8::decode_utf8(bytes), rest))
        } else {
            Err(DecodeFault::BadUtf8)
        },
        Err(fault) => Err(fault),
    }
}

/// The encoding of a flag.
pub open spec fn flag(b: bool) -> Seq<u8> {
    seq![
        if b {
            1u8
        } else {
            0u8
        },
    ]
}

/// Reads a flag.
pub open spec fn read_flag(data: Seq<u8>) -> Reading<bool> {
    if data.len() == 0 {
        Err(DecodeFault::UnexpectedEnd)
    } else if data[0] > 1 {
        Err(DecodeFault::BadBool)
    } else {
        Ok((data[0] == 1, data.skip(1)))
    }
}

/// The encoding of an optional byte string.
pub open spec fn optional(bytes: Option<Seq<u8>>) -> Seq<u8> {
    match bytes {
        None => seq![0u8],
        Some(b) => seq![1u8] + sized(b),
    }
}

/// Reads an optional byte string.
pub open spec fn read_optional(data: Seq<u8>) -> Reading<Option<Seq<u8>>> {
    if data.len() == 0 {
        Err(DecodeFault::UnexpectedEnd)
    } else if data[0] == 0 {
        Ok((None, data.skip(1)))
    } else if data[0] == 1 {
        match read_bytes(data.skip(1)) {
            Ok((b, rest)) => Ok((Some(b), rest)),
            Err(fault) => Err(fault),
        }
    } else {
        Err(DecodeFault::BadOption)
    }
}

/// Reading back a byte string gives the byte string.
pub proof fn bytes_round_trip(bytes: Seq<u8>, rest: Seq<u8>)
    requires
        bytes.len() <= usize::MAX,
    ensures
        read_bytes(sized(bytes) + rest) == Ok::<_, DecodeFault>((bytes, rest)),
        read_optional(optional(Some(bytes)) + rest) == Ok::<_, DecodeFault>((Some(bytes), rest)),
{
    let data = sized(bytes) + rest;
    number_round_trip(bytes.len(), bytes + rest);
    assert(data =~= varint(bytes.len()) + (bytes + rest));
    assert((bytes + rest).take(bytes.len() as int) =~= bytes);
    assert((bytes + rest).skip(bytes.len() as int) =~= rest);
    assert((optional(Some(bytes)) + rest).skip(1) =~= data);
}

/// Reading back an optional byte string gives it.
pub proof fn optional_round_trip(bytes: Option<Seq<u8>>, rest: Seq<u8>)
    requires
        bytes matches Some(b) ==> b.len() <= usize::MAX,
    ensures
        read_optional(optional(bytes) + rest) == Ok::<_, DecodeFault>((bytes, rest)),
{
    match bytes {
        None => assert((optional(bytes) + rest).skip(1) =~= rest),
        Some(b) => bytes_round_trip(b, rest),
    }
}

/// Reading back a text gives the text.
pub proof fn text_round_trip(text: Seq<char>, rest: Seq<u8>)
    requires
        vstd::utf8::encode_utf8(text).len() <= usize::MAX,
    ensures
        read_text(text_encoding(text) + rest) == Ok::<_, DecodeFault>((text, rest)),
{
    bytes_round_trip(vstd::utf8::encode_utf8(text), rest);
    vstd::utf8::encode_utf8_valid_utf8(text);
    vstd::utf8::encode_utf8_decode_utf8(text);
}

/// `postcard::take_from_bytes` for `String`: a length, that many bytes of UTF-8, and
/// the bytes behind them; the error is given by its text.
#[verifier::external_body]
pub(crate) fn take_text(data: &[u8]) -> (r: Result<(String, &[u8]), String>)
    ensures
        agrees(r, read_text(data@)),
{
    postcard::take_from_bytes::<String>(data).map_err(|e| e.to_string())
}

/// Appends the varint of a number.
pub(crate) fn put_u64(out: &mut Vec<u8>, v: u64) -> (r: Result<(), String>)
    ensures
        r is Ok,
        final(out)@ == old(out)@ + varint(v as nat),
{
    match encode_u64(v) {
        Ok(b) => {
            wire::append(out, b.as_slice());
            Ok(())
        },
        Err(e) => Err(e),
    }
}

/// Appends a byte string behind its length.
pub(crate) fn put_bytes(out: &mut Vec<u8>, bytes: &[u8]) -> (r: Result<(), String>)
    ensures
        r is Ok,
        final(out)@ == old(out)@ + sized(bytes@),
        bytes@.len() <= usize::MAX,
{
    put_u64(out, bytes.len() as u64)?;
    wire::append(out, bytes);
    assert(out@ =~= old(out)@ + sized(bytes@));
    Ok(())
}

/// Appends a text behind the length of its UTF-8 form.
pub(crate) fn put_text(out: &mut Vec<u8>, text: &String) -> (r: Result<(), String>)
    ensures
        r is Ok,
        final(out)@ == old(out)@ + text_encoding(text@),
        vstd::utf8::encode_utf8(text@).len() <= usize::MAX,
{
    let bytes = text.as_str().as_bytes();
    let len: usize = bytes.len();
    assert(bytes@ == vstd::utf8::encode_utf8(text@));
    put_bytes(out, bytes)
}

/// Appends a flag.
pub(crate) fn put_flag(out: &mut Vec<u8>, b: bool)
    ensures
        final(out)@ == old(out)@ + flag(b),
{
    out.push(
        if b {
            1
        } else {
            0
        },
    );
    assert(out@ =~= old(out)@ + flag(b));
}

/// Appends an optional byte string.
pub(crate) fn put_optional(out: &mut Vec<u8>, bytes: &Option<Vec<u8>>) -> (r: Result<(), String>)
    ensures
        r is Ok,
        final(out)@ == old(out)@ + optional(optional_view(*bytes)),
        *bytes matches Some(b) ==> b@.len() <= usize::MAX,
{
    match bytes {
        None => {
            out.push(0);
        },
        Some(b) => {
            out.push(1);
            put_bytes(out, b.as_slice())?;
        },
    }
    assert(out@ =~= old(out)@ + optional(optional_view(*bytes)));
    Ok(())
}

/// The contents of an optional byte string.
pub open spec fn optional_view(bytes: Option<Vec<u8>>) -> Option<Seq<u8>> {
    match bytes {
        None => None,
        Some(b) => Some(b@),
    }
}

/// The text of a fault.
pub(crate) fn describe(fault: DecodeFault) -> (r: String)
    ensures
        r@ == fault_text(fault),
{
    match fault {
        DecodeFault::UnexpectedEnd => text::plain("Hit the end of buffer, expected more data"),
        DecodeFault::BadVarint => text::plain(
            "Found a varint that didn't terminate. Is the usize too big for this platform?",
        ),
        DecodeFault::BadBool => text::plain("Found a bool that wasn't 0 or 1"),
        DecodeFault::BadOption => text::plain("Found an Option discriminant that wasn't 0 or 1"),
        DecodeFault::BadUtf8 => text::plain("Tried to parse invalid utf-8"),
        DecodeFault::OutOfRange => text::plain("Serde Deserialization Error"),
    }
}

/// Takes an address.
pub(crate) fn take_address(data: &[u8]) -> (r: Result<([u8; 32], &[u8]), String>)
    ensures
        agrees(r, read_address(data@)),
{
    if data.len() < 32 {
        return Err(describe(DecodeFault::UnexpectedEnd));
    }
    let address: [u8; 32] = wire::field(data, 0);
    assert(address@ =~= data@.take(32));
    Ok((address, wire::tail(data, 32)))
}

/// Takes a byte string.
pub(crate) fn take_bytes(data: &[u8]) -> (r: Result<(Vec<u8>, &[u8]), String>)
    ensures
        agrees(r, read_bytes(data@)),
{
    let (n, rest) = take_length(data)?;
    if rest.len() < n {
        return Err(describe(DecodeFault::UnexpectedEnd));
    }
    let mut bytes: Vec<u8> = Vec::new();
    wire::append(&mut bytes, vstd::slice::slice_subrange(rest, 0, n));
    assert(bytes@ =~= rest@.take(n as int));
    Ok((bytes, wire::tail(rest, n)))
}

/// Takes a flag.
pub(crate) fn take_flag(data: &[u8]) -> (r: Result<(bool, &[u8]), String>)
    ensures
        agrees(r, read_flag(data@)),
{
    if data.len() == 0 {
        return Err(describe(DecodeFault::UnexpectedEnd));
    }
    if data[0] > 1 {
        return Err(describe(DecodeFault::BadBool));
    }
    Ok((data[0] == 1, wire::tail(data, 1)))
}

/// Takes an optional byte string.
pub(crate) fn take_optional(data: &[u8]) -> (r: Result<(Option<Vec<u8>>, &[u8]), String>)
    ensures
        match read_optional(data@) {
            Ok((value, rest)) => (r matches Ok(v) && optional_view(v.0) == value && v.1@ == rest),
            Err(fault) => (r matches Err(t) && t@ == fault_text(fault)),
        },
{
    if data.len() == 0 {
        return Err(describe(DecodeFault::UnexpectedEnd));
    }
    if data[0] == 0 {
        return Ok((None, wire::tail(data, 1)));
    }
    if data[0] == 1 {
        let (bytes, rest) = take_bytes(wire::tail(data, 1))?;
        return Ok((Some(bytes), rest));
    }
    Err(describe(DecodeFault::BadOption))
}

// ---------------------------------------------------------------------------
// Layout
// ---------------------------------------------------------------------------

/// A varint holds seven bits per byte, low bits first: one byte for a number below 128,
/// else a byte above 127 with the number modulo 128, and behind it the varint of the
/// rest.
pub proof fn varints_hold_seven_bits_per_byte(v: nat)
    ensures
        v < 128 ==> varint(v) == seq![v as u8],
        v >= 128 ==> {
            &&& varint(v).len() >= 2
            &&& varint(v)[0] == 128 + v % 128
            &&& varint(v).skip(1) == varint(v / 128)
        },
    decreases v,
{
    if v >= 128 {
        varints_hold_seven_bits_per_byte(v / 128);
        assert(varint(v).skip(1) =~= varint(v / 128));
    }
}

/// Byte strings and texts stand behind the number of their bytes, flags are 0 or 1, and
/// an optional byte string is 0, or 1 and the string.
pub proof fn values_have_their_layout(bytes: Seq<u8>, text: Seq<char>)
    ensures
        sized(bytes) == varint(bytes.len()) + bytes,
        text_encoding(text) == varint(vstd::utf8::encode_utf8(text).len())
            + vstd::utf8::encode_utf8(text),
        flag(false) == seq![0u8],
        flag(true) == seq![1u8],
        optional(None) == seq![0u8],
        optional(Some(bytes)) == seq![1u8] + varint(bytes.len()) + bytes,
{
    assert(optional(Some(bytes)) =~= seq![1u8] + varint(bytes.len()) + bytes);
}

/// Values of known size are read by position, whatever the bytes: an address is the first
/// 32 bytes, a flag the first byte, and too few bytes are reported as such.
pub proof fn values_are_read_by_position(data: Seq<u8>)
    ensures
        data.len() >= 32 ==> read_address(data) == Ok::<_, DecodeFault>(
            (data.subrange(0, 32), data.subrange(32, data.len() as int)),
        ),
        data.len() < 32 ==> read_address(data) == Err::<(Seq<u8>, Seq<u8>), _>(
            DecodeFault::UnexpectedEnd,
        ),
        data.len() == 0 ==> read_flag(data) == Err::<(bool, Seq<u8>), _>(
            DecodeFault::UnexpectedEnd,
        ),
        data.len() > 0 && data[0] == 0 ==> read_flag(data) == Ok::<_, DecodeFault>(
            (false, data.skip(1)),
        ),
        data.len() > 0 && data[0] == 1 ==> read_flag(data) == Ok::<_, DecodeFault>(
            (true, data.skip(1)),
        ),
        data.len() > 0 && data[0] > 1 ==> read_flag(data) == Err::<(bool, Seq<u8>), _>(
            DecodeFault::BadBool,
        ),
        data.len() == 0 ==> read_optional(data) == Err::<(Option<Seq<u8>>, Seq<u8>), _>(
            DecodeFault::UnexpectedEnd,
        ),
        data.len() > 0 && data[0] == 0 ==> read_optional(data) == Ok::<_, DecodeFault>(
            (None::<Seq<u8>>, data.skip(1)),
        ),
        data.len() > 0 && data[0] == 1 ==> match read_bytes(data.skip(1)) {
            Ok((bytes, rest)) => read_optional(data) == Ok::<_, DecodeFault>((Some(bytes), rest)),
            Err(fault) => read_optional(data) == Err::<(Option<Seq<u8>>, Seq<u8>), _>(fault),
        },
        data.len() > 0 && data[0] > 1 ==> read_optional(data) == Err::<
            (Option<Seq<u8>>, Seq<u8>),
            _,
        >(DecodeFault::BadOption),
{
    if data.len() >= 32 {
        assert(data.take(32) =~= data.subrange(0, 32));
        assert(data.skip(32) =~= data.subrange(32, data.len() as int));
    }
}

/// Numbers are read byte by byte: a byte below 128 ends the number, any other adds its
/// seven bits below those that follow. A number may take five bytes, of which the last
/// holds four bits, or ten, of which the last holds one.
pub proof fn numbers_are_read_byte_by_byte(data: Seq<u8>, max_len: nat, last_max: u8)
    ensures
        read_u32(data) == read_varint(data, 5, 15),
        read_u64(data) == read_varint(data, 10, 1),
        max_len == 0 ==> read_varint(data, max_len, last_max) == Err::<(nat, Seq<u8>), _>(
            DecodeFault::BadVarint,
        ),
        max_len > 0 && data.len() == 0 ==> read_varint(data, max_len, last_max) == Err::<
            (nat, Seq<u8>),
            _,
        >(DecodeFault::UnexpectedEnd),
        max_len > 0 && data.len() > 0 && data[0] < 128 && (max_len > 1 || data[0] <= last_max)
            ==> read_varint(data, max_len, last_max) == Ok::<_, DecodeFault>(
            (data[0] as nat, data.skip(1)),
        ),
        max_len == 1 && data.len() > 0 && last_max < data[0] ==> read_varint(
            data,
            max_len,
            last_max,
        ) == Err::<(nat, Seq<u8>), _>(DecodeFault::BadVarint),
        max_len > 0 && data.len() > 0 && data[0] >= 128 ==> match read_varint(
            data.skip(1),
            (max_len - 1) as nat,
            last_max,
        ) {
            Ok((high, rest)) => read_varint(data, max_len, last_max) == Ok::<_, DecodeFault>(
                ((data[0] - 128 + 128 * high) as nat, rest),
            ),
            Err(fault) => read_varint(data, max_len, last_max) == Err::<(nat, Seq<u8>), _>(fault),
        },
{
    reveal_with_fuel(read_varint, 2);
}

/// A number that is as wide as a pointer is read as such; a size that a pointer cannot
/// hold is out of range.
pub proof fn sizes_depend_on_the_pointer(data: Seq<u8>)
    ensures
        usize::BITS == 32 ==> read_length(data) == read_u32(data),
        usize::BITS != 32 ==> read_length(data) == read_u64(data),
        read_u64(data) matches Ok((v, rest)) ==> read_size(data) == if v <= usize::MAX {
            Ok::<_, DecodeFault>((v, rest))
        } else {
            Err(DecodeFault::OutOfRange)
        },
        read_u64(data) matches Err(fault) ==> read_size(data) == Err::<(nat, Seq<u8>), _>(fault),
{
}

/// A byte string that is announced longer than what follows is cut off; a text has to be
/// UTF-8.
pub proof fn strings_have_to_be_whole(data: Seq<u8>)
    ensures
        read_length(data) matches Ok((n, rest)) ==> {
            &&& n > rest.len() ==> read_bytes(data) == Err::<(Seq<u8>, Seq<u8>), _>(
                DecodeFault::UnexpectedEnd,
            )
            &&& n <= rest.len() ==> read_bytes(data) == Ok::<_, DecodeFault>(
                (rest.subrange(0, n as int), rest.subrange(n as int, rest.len() as int)),
            )
        },
        read_length(data) matches Err(fault) ==> read_bytes(data) == Err::<
            (Seq<u8>, Seq<u8>),
            _,
        >(fault),
        read_bytes(data) matches Ok((bytes, rest)) ==> read_text(data)
            == if vstd::utf8::valid_utf8(bytes) {
            Ok::<_, DecodeFault>((vstd::utf8::decode_utf8(bytes), rest))
        } else {
            Err(DecodeFault::BadUtf8)
        },
{
    if let Ok((n, rest)) = read_length(data) {
        if n <= rest.len() {
            assert(rest.take(n as int) =~= rest.subrange(0, n as int));
            assert(rest.skip(n as int) =~= rest.subrange(n as int, rest.len() as int));
        }
    }
}

/// The faults in words.
pub proof fn faults_have_their_texts()
    ensures
        fault_text(DecodeFault::UnexpectedEnd) == "Hit the end of buffer, expected more data"@,
        fault_text(DecodeFault::BadVarint)
            == "Found a varint that didn't terminate. Is the usize too big for this platform?"@,
        fault_text(DecodeFault::BadBool) == "Found a bool that wasn't 0 or 1"@,
        fault_text(DecodeFault::BadOption) == "Found an Option discriminant that wasn't 0 or 1"@,
        fault_text(DecodeFault::BadUtf8) == "Tried to parse invalid utf-8"@,
        fault_text(DecodeFault::OutOfRange) == "Serde Deserialization Error"@,
{
}

} // verus!
