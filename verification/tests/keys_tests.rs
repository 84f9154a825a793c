use nostr_commander::errors::Error;
use nostr_commander::keys::{convert_keys, decode, encode_both_forms};

const NPUB: &str = "npub14f8usejl26twx0dhuxjh9cas7keav9vr0v8nvtwtrjqx3vycc76qqh9nsy";
const HEX: &str = "aa4fc8665f5696e33db7e1a572e3b0f5b3d615837b0f362dcb1c8068b098c7b4";
const HEX2: &str = "379e863e8357163b5bce5d2688dc4f1dcc2d505222fb8d74db600f30535dfdfe";

#[test]
fn decode_accepts_prefixed_form() {
    let k = decode(NPUB).unwrap();
    assert_eq!(k.to_hex(), HEX);
}

#[test]
fn decode_accepts_hex_form() {
    let k = decode(HEX).unwrap();
    assert_eq!(k.to_npub(), NPUB);
}

#[test]
fn decode_accepts_upper_case_hex() {
    let upper = HEX.to_uppercase();
    let k = decode(&upper).unwrap();
    assert_eq!(k.to_hex(), HEX);
}

#[test]
fn decode_rejects_garbage() {
    assert_eq!(decode("garbage").unwrap_err(), Error::InvalidKey);
    assert_eq!(decode("").unwrap_err(), Error::InvalidKey);
    // 64 hex digits that are not the x coordinate of a curve point
    let not_a_point = "0000000000000000000000000000000000000000000000000000000000000000";
    assert_eq!(decode(not_a_point).unwrap_err(), Error::InvalidKey);
}

#[test]
fn encode_both_forms_round_trips() {
    let (npub, hex) = encode_both_forms(NPUB).unwrap();
    assert_eq!(npub, NPUB);
    assert_eq!(hex, HEX);
    let (npub2, hex2) = encode_both_forms(HEX).unwrap();
    assert_eq!(npub2, NPUB);
    assert_eq!(hex2, HEX);
    // the derived forms decode back to the same key
    let a = decode(&npub).unwrap();
    let b = decode(&hex).unwrap();
    assert!(a == b);
}

#[test]
fn convert_keys_skips_invalid_and_reports_aggregate() {
    let keys = vec![HEX.to_string(), "garbage".to_string(), HEX2.to_string()];
    let (pairs, outcome) = convert_keys(&keys);
    assert_eq!(pairs.len(), 3);
    assert!(pairs[0].is_some());
    assert!(pairs[1].is_none());
    assert!(pairs[2].is_some());
    assert_eq!(outcome.unwrap_err(), Error::ConversionFailed);
}

#[test]
fn convert_keys_all_valid_is_ok() {
    let keys = vec![HEX.to_string(), NPUB.to_string()];
    let (pairs, outcome) = convert_keys(&keys);
    assert_eq!(pairs.len(), 2);
    assert!(outcome.is_ok());
}
