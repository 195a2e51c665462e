//! Addresses, peer ids and signaling.
use ant_tunnel::address::{parse_hex_address, parse_peer_id, AddressError, HexFault};
use ant_tunnel::signaling::{
    cert_hash_hex, check_status, sdp_offer_body, sdp_url, SdpAnswer, SignalingError,
};

fn text<T>(r: Result<T, AddressError>) -> String {
    match r {
        Ok(_) => panic!("accepted"),
        Err(e) => e.to_string(),
    }
}

#[test]
fn hexadecimal_addresses() {
    let address: [u8; 32] = core::array::from_fn(|i| (i * 9) as u8);
    assert_eq!(parse_hex_address(&hex::encode(address)), Ok(address));
    assert_eq!(parse_hex_address(&hex::encode_upper(address)), Ok(address));
    assert_eq!(parse_hex_address(&"0F".repeat(32)), Ok([15; 32]));
}

#[test]
fn malformed_addresses() {
    assert_eq!(text(parse_hex_address("abc")), "invalid hex: Odd number of digits");
    assert_eq!(
        text(parse_hex_address("0x12")),
        "invalid hex: Invalid character 'x' at position 1"
    );
    assert_eq!(
        text(parse_hex_address("12'\n")),
        "invalid hex: Invalid character '\\'' at position 2"
    );
    // A character beyond ASCII counts by its bytes.
    assert_eq!(
        parse_hex_address("aé1"),
        Err(AddressError::InvalidHex(HexFault::InvalidCharacter { c: 'Ã', index: 1 }))
    );
    assert_eq!(text(parse_hex_address("0102")), "expected 32 bytes, got 2");
    assert_eq!(text(parse_hex_address("")), "expected 32 bytes, got 0");
    assert_eq!(HexFault::InvalidLength.to_string(), "Invalid string length");
}

#[test]
fn peer_ids() {
    assert_eq!(parse_peer_id(&[7; 32]), Ok([7; 32]));
    assert_eq!(text(parse_peer_id(&[7; 33])), "expected 32 bytes, got 33");
    assert_eq!(text(parse_peer_id(&[])), "expected 32 bytes, got 0");
}

#[test]
fn signaling_urls() {
    assert_eq!(sdp_url("https://node:1"), "https://node:1/webrtc/sdp");
    assert_eq!(sdp_url("https://node:1///"), "https://node:1/webrtc/sdp");
    assert_eq!(sdp_url("/ä/"), "/ä/webrtc/sdp");
    assert_eq!(sdp_url("//"), "/webrtc/sdp");
}

#[test]
fn offers_are_json() {
    let sdp = "v=0\r\no=- \"x\" \\ \u{8}\u{c}\t\u{1f}\u{7f} é 🦀";
    let body = match sdp_offer_body(sdp) {
        Ok(body) => body,
        Err(_) => panic!("offer"),
    };
    assert_eq!(
        body,
        "{\"type\":\"offer\",\"sdp\":\"v=0\\r\\no=- \\\"x\\\" \\\\ \\b\\f\\t\\u001f\u{7f} é 🦀\"}"
    );
    let value: serde_json::Value = serde_json::from_str(&body).expect("json");
    assert_eq!(value["type"], "offer");
    assert_eq!(value["sdp"], sdp);
}

#[test]
fn statuses() {
    assert!(check_status(true, 200).is_ok());
    match check_status(false, 503) {
        Err(e) => assert_eq!(e.to_string(), "signaling server returned HTTP 503"),
        Ok(()) => panic!("accepted"),
    }
    assert_eq!(
        SignalingError::Serialize("x".to_string()).to_string(),
        "failed to serialize offer: x"
    );
}

#[test]
fn answers_hold_type_and_description() {
    let answer = SdpAnswer { sdp_type: "answer".to_string(), sdp: "v=0".to_string() };
    let copy = answer.clone();
    assert_eq!(copy.sdp_type, "answer");
    assert_eq!(copy.sdp, "v=0");
}

#[test]
fn fingerprints_lose_their_colons() {
    assert_eq!(cert_hash_hex(Some("aa:0b:CC")), "aa0bCC");
    assert_eq!(cert_hash_hex(Some("::")), "");
    assert_eq!(cert_hash_hex(Some("ab")), "ab");
    assert_eq!(cert_hash_hex(None), "");
}
