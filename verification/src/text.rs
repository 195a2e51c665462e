//! Text of error messages: decimal numbers and hexadecimal bytes.
use vstd::prelude::*;

verus! {

/// The character of a decimal digit.
pub open spec fn digit_char(d: nat) -> char {
    (48 + d) as char
}

/// `n` in decimal, without leading zeros.
pub open spec fn decimal(n: nat) -> Seq<char>
    decreases n,
{
    if n < 10 {
        seq![digit_char(n)]
    } else {
        decimal(n / 10).push(digit_char(n % 10))
    }
}

/// The lowercase hexadecimal digit of a number below 16.
pub open spec fn hex_char(d: nat) -> char {
    if d < 10 {
        (48 + d) as char
    } else {
        (87 + d) as char
    }
}

/// Two lowercase hexadecimal digits per byte.
pub open spec fn hex_text(bytes: Seq<u8>) -> Seq<char> {
    Seq::new(
        bytes.len() * 2,
        |i: int|
            if i % 2 == 0 {
                hex_char((bytes[i / 2] / 16) as nat)
            } else {
                hex_char((bytes[i / 2] % 16) as nat)
            },
    )
}

/// `hex::encode`: two lowercase hexadecimal digits for each byte, high half first.
#[verifier::external_body]
pub(crate) fn hex_encode(bytes: &[u8]) -> (r: String)
    ensures
        r@ == hex_text(bytes@),
{
    hex::encode(bytes)
}

/// The text of one decimal digit.
fn digit_text(d: u64) -> (r: &'static str)
    requires
        d < 10,
    ensures
        r@ == seq![digit_char(d as nat)],
{
    proof {
        reveal_strlit("0");
        reveal_strlit("1");
        reveal_strlit("2");
        reveal_strlit("3");
        reveal_strlit("4");
        reveal_strlit("5");
        reveal_strlit("6");
        reveal_strlit("7");
        reveal_strlit("8");
        reveal_strlit("9");
    }
    let r = if d == 0 {
        "0"
    } else if d == 1 {
        "1"
    } else if d == 2 {
        "2"
    } else if d == 3 {
        "3"
    } else if d == 4 {
        "4"
    } else if d == 5 {
        "5"
    } else if d == 6 {
        "6"
    } else if d == 7 {
        "7"
    } else if d == 8 {
        "8"
    } else {
        "9"
    };
    assert(r@ =~= seq![digit_char(d as nat)]);
    r
}

/// Appends `n` in decimal.
pub fn push_decimal(out: &mut String, n: u64)
    ensures
        final(out)@ == old(out)@ + decimal(n as nat),
    decreases n,
{
    if n >= 10 {
        push_decimal(out, n / 10);
    }
    let digit = digit_text(n % 10);
    out.append(digit);
    assert(out@ =~= old(out)@ + decimal(n as nat));
}

/// `prefix`, then two byte strings in hexadecimal with `, got ` between them.
pub open spec fn mismatch(prefix: Seq<char>, expected: Seq<u8>, actual: Seq<u8>) -> Seq<char> {
    prefix + hex_text(expected) + ", got "@ + hex_text(actual)
}

/// A fixed text.
pub(crate) fn plain(text: &str) -> (r: String)
    ensures
        r@ == text@,
{
    let mut out = String::new();
    out.append(text);
    assert(out@ =~= text@);
    out
}

/// Two texts, one after the other.
pub(crate) fn joined(a: &str, b: &str) -> (r: String)
    ensures
        r@ == a@ + b@,
{
    let mut out = plain(a);
    out.append(b);
    out
}

/// A text followed by a number.
pub(crate) fn numbered(before: &str, n: u64) -> (r: String)
    ensures
        r@ == before@ + decimal(n as nat),
{
    let mut out = plain(before);
    push_decimal(&mut out, n);
    out
}

/// The text of a mismatch of two byte strings.
pub(crate) fn mismatch_text(prefix: &str, expected: &[u8], actual: &[u8]) -> (r: String)
    ensures
        r@ == mismatch(prefix@, expected@, actual@),
{
    let mut out = plain(prefix);
    out.append(hex_encode(expected).as_str());
    out.append(", got ");
    out.append(hex_encode(actual).as_str());
    out
}

/// A number is written digit by digit: its last digit stands for the number modulo ten,
/// what is in front of it for the rest, and a number below ten is a single digit.
pub proof fn numbers_are_written_in_decimal(n: nat)
    ensures
        decimal(n).len() >= 1,
        decimal(n).last() == "0123456789"@[(n % 10) as int],
        n < 10 <==> decimal(n).len() == 1,
        n >= 10 ==> decimal(n).drop_last() == decimal(n / 10),
    decreases n,
{
    reveal_strlit("0123456789");
    if n >= 10 {
        numbers_are_written_in_decimal(n / 10);
        assert(decimal(n).drop_last() =~= decimal(n / 10));
    }
}

/// Bytes are written as two digits each, the high half first.
pub proof fn bytes_are_written_in_hexadecimal(bytes: Seq<u8>)
    ensures
        hex_text(bytes).len() == 2 * bytes.len(),
        forall|i: int|
            #![trigger bytes[i]]
            0 <= i < bytes.len() ==> {
                &&& hex_text(bytes)[2 * i] == "0123456789abcdef"@[bytes[i] as int / 16]
                &&& hex_text(bytes)[2 * i + 1] == "0123456789abcdef"@[bytes[i] as int % 16]
            },
{
    reveal_strlit("0123456789abcdef");
}

/// A mismatch names the expected bytes first, then the actual ones.
pub proof fn mismatches_name_both_sides(prefix: Seq<char>, expected: Seq<u8>, actual: Seq<u8>)
    ensures
        mismatch(prefix, expected, actual) == prefix + hex_text(expected) + ", got "@ + hex_text(
            actual,
        ),
{
}

} // verus!
