//! Exchanging session descriptions with a node's HTTP signaling endpoint, and the
//! published form of a certificate's fingerprint.
use crate::text;
use vstd::prelude::*;

verus! {

/// A remote session description.
#[derive(Debug, Clone)]
pub struct SdpAnswer {
    pub sdp_type: String,
    pub sdp: String,
}

/// Why an exchange fails.
#[derive(Debug)]
pub enum SignalingError {
    /// The offer could not be serialized; the text says why.
    Serialize(String),
    /// The server answered with this HTTP status.
    Status(u16),
}

impl SignalingError {
    /// The text of the error.
    pub open spec fn text(self) -> Seq<char> {
        match self {
            SignalingError::Serialize(why) => "failed to serialize offer: "@ + why@,
            SignalingError::Status(status) => "signaling server returned HTTP "@ + text::decimal(
                status as nat,
            ),
        }
    }

    /// The text of the error.
    pub fn to_string(&self) -> (r: String)
        ensures
            r@ == self.text(),
    {
        match self {
            SignalingError::Serialize(why) => text::joined(
                "failed to serialize offer: ",
                why.as_str(),
            ),
            SignalingError::Status(status) => text::numbered(
                "signaling server returned HTTP ",
                *status as u64,
            ),
        }
    }
}

/// A text without the slashes at its end.
pub open spec fn without_slashes(s: Seq<char>) -> Seq<char>
    decreases s.len(),
{
    if s.len() > 0 && s.last() == '/' {
        without_slashes(s.drop_last())
    } else {
        s
    }
}

/// The URL to which offers are posted.
pub fn sdp_url(signaling_url: &str) -> (r: String)
    ensures
        r@ == without_slashes(signaling_url@) + "/webrtc/sdp"@,
{
    let mut end: usize = signaling_url.unicode_len();
    assert(signaling_url@.take(end as int) =~= signaling_url@);
    while end > 0 && signaling_url.get_char(end - 1) == '/'
        invariant
            end <= signaling_url@.len(),
            without_slashes(signaling_url@.take(end as int)) == without_slashes(signaling_url@),
        decreases end,
    {
        assert(signaling_url@.take(end as int).drop_last() =~= signaling_url@.take(end - 1));
        assert(signaling_url@.take(end as int).last() == '/');
        end = end - 1;
    }
    assert(signaling_url@.take(end as int) =~= signaling_url@.subrange(0, end as int));
    text::joined(signaling_url.substring_char(0, end), "/webrtc/sdp")
}

/// The JSON form of a character inside a string.
pub open spec fn json_char(c: char) -> Seq<char> {
    if c == '"' {
        seq!['\\', '"']
    } else if c == '\\' {
        seq!['\\', '\\']
    } else if c == '\u{8}' {
        seq!['\\', 'b']
    } else if c == '\t' {
        seq!['\\', 't']
    } else if c == '\n' {
        seq!['\\', 'n']
    } else if c == '\u{c}' {
        seq!['\\', 'f']
    } else if c == '\r' {
        seq!['\\', 'r']
    } else if (c as nat) < 32 {
        seq!['\\', 'u', '0', '0', text::hex_char(c as nat / 16), text::hex_char(c as nat % 16)]
    } else {
        seq![c]
    }
}

/// The JSON form of the characters of a string.
pub open spec fn json_chars(s: Seq<char>) -> Seq<char>
    decreases s.len(),
{
    if s.len() == 0 {
        s
    } else {
        json_chars(s.drop_last()) + json_char(s.last())
    }
}

/// The JSON form of a string.
pub open spec fn json_string(s: Seq<char>) -> Seq<char> {
    seq!['"'] + json_chars(s) + seq!['"']
}

/// `serde_json::to_string` on a `str`: the string in quotes, with quotes, backslashes
/// and control characters escaped. It does not fail.
#[verifier::external_body]
fn to_json(s: &str) -> (r: Result<String, String>)
    ensures
        r is Ok,
        r->Ok_0@ == json_string(s@),
{
    serde_json::to_string(s).map_err(|e| e.to_string())
}

/// The JSON body that offers a local session description.
pub fn sdp_offer_body(local_sdp: &str) -> (r: Result<String, SignalingError>)
    ensures
        r is Ok,
        r->Ok_0@ == "{\"type\":\"offer\",\"sdp\":"@ + json_string(local_sdp@) + "}"@,
{
    match to_json(local_sdp) {
        Err(why) => Err(SignalingError::Serialize(why)),
        Ok(sdp) => {
            let mut out = text::joined("{\"type\":\"offer\",\"sdp\":", sdp.as_str());
            out.append("}");
            Ok(out)
        },
    }
}

/// Accepts a response by its HTTP status: `success` says whether it lies in the range of
/// success.
pub fn check_status(success: bool, status: u16) -> (r: Result<(), SignalingError>)
    ensures
        match r {
            Ok(()) => success,
            Err(e) => !success && e == SignalingError::Status(status),
        },
{
    if success {
        Ok(())
    } else {
        Err(SignalingError::Status(status))
    }
}

/// A text without its colons.
pub open spec fn without_colons(s: Seq<char>) -> Seq<char> {
    s.filter(|c: char| c != ':')
}

/// The published form of a certificate's fingerprint: its hexadecimal digits without the
/// colons between them; empty where there is no certificate.
pub fn cert_hash_hex(fingerprint: Option<&str>) -> (r: String)
    ensures
        r@ == match fingerprint {
            Some(f) => without_colons(f@),
            None => Seq::<char>::empty(),
        },
{
    let mut out = String::new();
    assert(out@ =~= Seq::<char>::empty());
    if let Some(f) = fingerprint {
        let len: usize = f.unicode_len();
        let mut i: usize = 0;
        assert(f@.take(0) =~= Seq::<char>::empty());
        assert(without_colons(Seq::<char>::empty()) =~= Seq::<char>::empty()) by {
            reveal(Seq::filter);
        }
        while i < len
            invariant
                i <= len,
                len == f@.len(),
                out@ == without_colons(f@.take(i as int)),
            decreases len - i,
        {
            proof {
                reveal(Seq::filter);
                assert(f@.take(i + 1).drop_last() =~= f@.take(i as int));
                assert(f@.take(i + 1).last() == f@[i as int]);
            }
            if f.get_char(i) != ':' {
                out.append(f.substring_char(i, i + 1));
                assert(out@ =~= without_colons(f@.take(i as int)).push(f@[i as int]));
            }
            i += 1;
        }
        assert(f@.take(len as int) =~= f@);
    }
    out
}

/// Cutting off the slashes leaves a text that ends in none, and only slashes go.
pub proof fn only_slashes_are_cut_off(s: Seq<char>)
    ensures
        without_slashes(s).len() <= s.len(),
        without_slashes(s) == s.take(without_slashes(s).len() as int),
        without_slashes(s).len() > 0 ==> without_slashes(s).last() != '/',
        forall|i: int|
            #![trigger s[i]]
            without_slashes(s).len() <= i < s.len() ==> s[i] == '/',
    decreases s.len(),
{
    if s.len() > 0 && s.last() == '/' {
        only_slashes_are_cut_off(s.drop_last());
        let kept = without_slashes(s);
        assert(s.drop_last().take(kept.len() as int) =~= s.take(kept.len() as int));
        assert forall|i: int| #![trigger s[i]] kept.len() <= i < s.len() implies s[i] == '/' by {
            if i < s.len() - 1 {
                assert(s.drop_last()[i] == s[i]);
            }
        }
    } else {
        assert(s.take(s.len() as int) =~= s);
    }
}

/// Colons go and all other characters stay, in their order.
pub proof fn only_colons_are_left_out(s: Seq<char>, c: char)
    ensures
        without_colons(seq![]) == Seq::<char>::empty(),
        without_colons(s.push(c)) == if c == ':' {
            without_colons(s)
        } else {
            without_colons(s).push(c)
        },
{
    reveal(Seq::filter);
    assert(s.push(c).drop_last() =~= s);
    assert(without_colons(seq![]) =~= Seq::<char>::empty());
}

/// A JSON string is its characters between quotes, each in its own form: quotes and
/// backslashes behind a backslash, control characters by their short name or their code,
/// and all others as they are.
pub proof fn json_strings_have_their_form(s: Seq<char>, c: char)
    ensures
        json_string(s) == seq!['"'] + json_chars(s) + seq!['"'],
        json_chars(seq![]) == Seq::<char>::empty(),
        json_chars(s.push(c)) == json_chars(s) + json_char(c),
        c == '"' || c == '\\' ==> json_char(c) == seq!['\\', c],
        c as u32 == 8 ==> json_char(c) == seq!['\\', 'b'],
        c as u32 == 9 ==> json_char(c) == seq!['\\', 't'],
        c as u32 == 10 ==> json_char(c) == seq!['\\', 'n'],
        c as u32 == 12 ==> json_char(c) == seq!['\\', 'f'],
        c as u32 == 13 ==> json_char(c) == seq!['\\', 'r'],
        (c as u32 == 11 || (c as u32) < 8 || 13 < (c as u32) < 32) ==> json_char(c) == seq![
            '\\',
            'u',
            '0',
            '0',
            "0123456789abcdef"@[c as int / 16],
            "0123456789abcdef"@[c as int % 16],
        ],
        c as u32 >= 32 && c != '"' && c != '\\' ==> json_char(c) == seq![c],
{
    reveal_strlit("0123456789abcdef");
    assert(s.push(c).drop_last() =~= s);
    assert(json_chars(seq![]) =~= Seq::<char>::empty());
}

/// The errors in words.
pub proof fn signaling_errors_have_their_texts(e: SignalingError)
    ensures
        match e {
            SignalingError::Serialize(why) => e.text() == "failed to serialize offer: "@ + why@,
            SignalingError::Status(status) => e.text() == "signaling server returned HTTP "@
                + text::decimal(status as nat),
        },
{
}

} // verus!
