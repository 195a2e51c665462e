//! Reading addresses and peer ids.
use crate::text;
use crate::wire;
use vstd::prelude::*;

verus! {

/// Why a text is not hexadecimal.
#[derive(Debug, Clone, Copy, PartialEq, Eq, Structural)]
pub enum HexFault {
    /// A byte, given as a character, is no hexadecimal digit.
    InvalidCharacter { c: char, index: usize },
    /// The number of digits is odd.
    OddLength,
    /// The number of digits does not fit the target.
    InvalidLength,
}

/// The value of a hexadecimal digit.
pub open spec fn hex_value(b: u8) -> Option<u8> {
    if 48 <= b <= 57 {
        Some((b - 48) as u8)
    } else if 97 <= b <= 102 {
        Some((b - 87) as u8)
    } else if 65 <= b <= 70 {
        Some((b - 55) as u8)
    } else {
        None
    }
}

/// The index of the first byte, from `i` on, that is no hexadecimal digit.
pub open spec fn first_non_digit(s: Seq<u8>, i: nat) -> Option<nat>
    decreases s.len() - i,
{
    if i >= s.len() {
        None
    } else if hex_value(s[i as int]) is None {
        Some(i)
    } else {
        first_non_digit(s, i + 1)
    }
}

/// The bytes that hexadecimal digits stand for, two digits per byte, high half first.
pub open spec fn hex_bytes(s: Seq<u8>) -> Result<Seq<u8>, HexFault> {
    if s.len() % 2 != 0 {
        Err(HexFault::OddLength)
    } else {
        match first_non_digit(s, 0) {
            Some(i) => Err(
                (HexFault::InvalidCharacter { c: s[i as int] as char, index: i as usize }),
            ),
            None => Ok(
                Seq::new(
                    s.len() / 2,
                    |i: int| (hex_value(s[2 * i])->0 * 16 + hex_value(s[2 * i + 1])->0) as u8,
                ),
            ),
        }
    }
}

/// The debugging form of a character.
pub uninterp spec fn quoted(c: char) -> Seq<char>;

/// The `Debug` form of `char`, made with `format!`: it depends on the character alone.
#[verifier::external_body]
fn quote(c: char) -> (r: String)
    ensures
        r@ == quoted(c),
{
    format!("{c:?}")
}

/// `hex::decode` on the UTF-8 bytes of a text: upper and lower case digits count alike;
/// an odd number of digits is reported first, then the first byte that is no digit.
#[verifier::external_body]
fn hex_decode(text: &str) -> (r: Result<Vec<u8>, HexFault>)
    ensures
        match hex_bytes(vstd::utf8::encode_utf8(text@)) {
            Ok(bytes) => (r matches Ok(v) && v@ == bytes),
            Err(fault) => (r matches Err(e) && e == fault),
        },
{
    hex::decode(text).map_err(|e| match e {
        hex::FromHexError::InvalidHexCharacter { c, index } => HexFault::InvalidCharacter {
            c,
            index,
        },
        hex::FromHexError::OddLength => HexFault::OddLength,
        hex::FromHexError::InvalidStringLength => HexFault::InvalidLength,
    })
}

/// Why an address or peer id cannot be read.
#[derive(Debug, Clone, Copy, PartialEq, Eq, Structural)]
pub enum AddressError {
    /// The text is not hexadecimal.
    InvalidHex(HexFault),
    /// There are not 32 bytes.
    WrongLength { len: usize },
}

impl HexFault {
    /// The text of the fault.
    pub open spec fn text(self) -> Seq<char> {
        match self {
            HexFault::InvalidCharacter { c, index } => "Invalid character "@ + quoted(c)
                + " at position "@ + text::decimal(index as nat),
            HexFault::OddLength => "Odd number of digits"@,
            HexFault::InvalidLength => "Invalid string length"@,
        }
    }

    /// The text of the fault.
    pub fn to_string(&self) -> (r: String)
        ensures
            r@ == self.text(),
    {
        match self {
            HexFault::InvalidCharacter { c, index } => {
                let mut out = text::joined("Invalid character ", quote(*c).as_str());
                out.append(" at position ");
                text::push_decimal(&mut out, *index as u64);
                out
            },
            HexFault::OddLength => text::plain("Odd number of digits"),
            HexFault::InvalidLength => text::plain("Invalid string length"),
        }
    }
}

impl AddressError {
    /// The text of the error.
    pub open spec fn text(self) -> Seq<char> {
        match self {
            AddressError::InvalidHex(fault) => "invalid hex: "@ + fault.text(),
            AddressError::WrongLength { len } => "expected 32 bytes, got "@ + text::decimal(
                len as nat,
            ),
        }
    }

    /// The text of the error.
    pub fn to_string(&self) -> (r: String)
        ensures
            r@ == self.text(),
    {
        match self {
            AddressError::InvalidHex(fault) => text::joined(
                "invalid hex: ",
                fault.to_string().as_str(),
            ),
            AddressError::WrongLength { len } => text::numbered(
                "expected 32 bytes, got ",
                *len as u64,
            ),
        }
    }
}

/// The 32 bytes of an address or peer id.
pub open spec fn exactly_32(bytes: Seq<u8>) -> Result<Seq<u8>, AddressError> {
    if bytes.len() == 32 {
        Ok(bytes)
    } else {
        Err((AddressError::WrongLength { len: bytes.len() as usize }))
    }
}

/// The address that a hexadecimal text stands for.
pub open spec fn parsed_address(text: Seq<char>) -> Result<Seq<u8>, AddressError> {
    match hex_bytes(vstd::utf8::encode_utf8(text)) {
        Ok(bytes) => exactly_32(bytes),
        Err(fault) => Err(AddressError::InvalidHex(fault)),
    }
}

/// Reads a 32-byte address from its hexadecimal form.
pub fn parse_hex_address(hex_str: &str) -> (r: Result<[u8; 32], AddressError>)
    ensures
        match parsed_address(hex_str@) {
            Ok(address) => (r matches Ok(a) && a@ == address),
            Err(e) => (r matches Err(v) && v == e),
        },
{
    match hex_decode(hex_str) {
        Err(fault) => Err(AddressError::InvalidHex(fault)),
        Ok(bytes) => parse_peer_id(bytes.as_slice()),
    }
}

/// Reads a 32-byte peer id.
pub fn parse_peer_id(bytes: &[u8]) -> (r: Result<[u8; 32], AddressError>)
    ensures
        match exactly_32(bytes@) {
            Ok(id) => (r matches Ok(a) && a@ == id),
            Err(e) => (r matches Err(v) && v == e),
        },
{
    if bytes.len() != 32 {
        return Err(AddressError::WrongLength { len: bytes.len() });
    }
    let id: [u8; 32] = wire::field(bytes, 0);
    assert(bytes@.subrange(0, 32) =~= bytes@);
    Ok(id)
}

proof fn lemma_all_digits(s: Seq<u8>, i: nat)
    requires
        forall|j: int| 0 <= j < s.len() ==> hex_value(#[trigger] s[j]) is Some,
    ensures
        first_non_digit(s, i) is None,
    decreases s.len() - i,
{
    if i < s.len() {
        lemma_all_digits(s, i + 1);
    }
}

/// Reading the hexadecimal form of an address gives the address.
pub proof fn parsing_inverts_hex_encoding(address: Seq<u8>)
    requires
        address.len() == 32,
    ensures
        parsed_address(text::hex_text(address)) == Ok::<_, AddressError>(address),
{
    let t = text::hex_text(address);
    assert(vstd::utf8::is_ascii_chars(t));
    vstd::utf8::is_ascii_chars_encode_utf8(t);
    let s = vstd::utf8::encode_utf8(t);
    assert forall|j: int| 0 <= j < s.len() implies hex_value(#[trigger] s[j]) == Some(
        if j % 2 == 0 {
            (address[j / 2] / 16) as u8
        } else {
            (address[j / 2] % 16) as u8
        },
    ) by {
        assert(s[j] == t[j] as u8);
    }
    lemma_all_digits(s, 0);
    assert(hex_bytes(s)->Ok_0 =~= address);
}

/// The digits: `0` to `9` stand for 0 to 9, `a` to `f` and `A` to `F` for 10 to 15, and
/// nothing else is a digit.
pub proof fn digits_have_their_values(b: u8)
    ensures
        hex_value(b) == if 48 <= b <= 57 {
            Some((b - 48) as u8)
        } else if 65 <= b <= 70 {
            Some((b - 65 + 10) as u8)
        } else if 97 <= b <= 102 {
            Some((b - 97 + 10) as u8)
        } else {
            None
        },
{
}

proof fn lemma_first_non_digit(s: Seq<u8>, i: nat)
    ensures
        match first_non_digit(s, i) {
            None => forall|j: int| #![trigger s[j]] i <= j < s.len() ==> hex_value(s[j]) is Some,
            Some(k) => {
                &&& i <= k < s.len()
                &&& hex_value(s[k as int]) is None
                &&& forall|j: int| #![trigger s[j]] i <= j < k ==> hex_value(s[j]) is Some
            },
        },
    decreases s.len() - i,
{
    if i < s.len() {
        lemma_first_non_digit(s, i + 1);
    }
}

/// Digits are read in pairs, the high half first. An odd number of them is refused, and
/// else the first byte that is no digit, with its place.
pub proof fn digits_are_read_in_pairs(s: Seq<u8>)
    ensures
        match hex_bytes(s) {
            Ok(bytes) => {
                &&& s.len() == 2 * bytes.len()
                &&& forall|i: int|
                    #![trigger bytes[i]]
                    0 <= i < bytes.len() ==> {
                        &&& hex_value(s[2 * i]) is Some
                        &&& hex_value(s[2 * i + 1]) is Some
                        &&& bytes[i] == 16 * hex_value(s[2 * i])->0 + hex_value(s[2 * i + 1])->0
                    }
            },
            Err(HexFault::OddLength) => s.len() % 2 == 1,
            Err(HexFault::InvalidCharacter { c, index }) => {
                &&& s.len() % 2 == 0
                &&& s.len() <= usize::MAX ==> {
                    &&& index < s.len()
                    &&& hex_value(s[index as int]) is None
                    &&& c == s[index as int] as char
                    &&& forall|j: int| #![trigger s[j]] 0 <= j < index ==> hex_value(s[j]) is Some
                }
            },
            Err(HexFault::InvalidLength) => false,
        },
{
    lemma_first_non_digit(s, 0);
    if hex_bytes(s) is Ok {
        let bytes = hex_bytes(s)->Ok_0;
        assert forall|i: int| #![trigger bytes[i]] 0 <= i < bytes.len() implies {
            &&& hex_value(s[2 * i]) is Some
            &&& hex_value(s[2 * i + 1]) is Some
            &&& bytes[i] == 16 * hex_value(s[2 * i])->0 + hex_value(s[2 * i + 1])->0
        } by {
            assert(hex_value(s[2 * i]) is Some);
            assert(hex_value(s[2 * i + 1]) is Some);
        }
    }
}

/// An address or peer id has 32 bytes, no more and no fewer; a text that stands for
/// another number of bytes, or for none, is refused with the reason.
pub proof fn addresses_have_32_bytes(bytes: Seq<u8>, text: Seq<char>)
    ensures
        bytes.len() == 32 ==> exactly_32(bytes) == Ok::<_, AddressError>(bytes),
        bytes.len() != 32 ==> exactly_32(bytes) == Err::<Seq<u8>, _>(
            (AddressError::WrongLength { len: bytes.len() as usize }),
        ),
        match hex_bytes(vstd::utf8::encode_utf8(text)) {
            Ok(b) => if b.len() == 32 {
                parsed_address(text) == Ok::<_, AddressError>(b)
            } else {
                parsed_address(text) == Err::<Seq<u8>, _>(
                    (AddressError::WrongLength { len: b.len() as usize }),
                )
            },
            Err(fault) => parsed_address(text) == Err::<Seq<u8>, _>(
                AddressError::InvalidHex(fault),
            ),
        },
{
}

/// The errors in words.
pub proof fn address_errors_have_their_texts(e: AddressError)
    ensures
        match e {
            AddressError::InvalidHex(HexFault::InvalidCharacter { c, index }) => e.text()
                == "invalid hex: "@ + ("Invalid character "@ + quoted(c) + " at position "@
                + text::decimal(index as nat)),
            AddressError::InvalidHex(HexFault::OddLength) => e.text() == "invalid hex: "@
                + "Odd number of digits"@,
            AddressError::InvalidHex(HexFault::InvalidLength) => e.text() == "invalid hex: "@
                + "Invalid string length"@,
            AddressError::WrongLength { len } => e.text() == "expected 32 bytes, got "@
                + text::decimal(len as nat),
        },
        forall|c: char, index: usize| #[trigger]
            (HexFault::InvalidCharacter { c, index }).text() == "Invalid character "@ + quoted(c)
                + " at position "@ + text::decimal(index as nat),
        HexFault::OddLength.text() == "Odd number of digits"@,
        HexFault::InvalidLength.text() == "Invalid string length"@,
{
}

} // verus!
