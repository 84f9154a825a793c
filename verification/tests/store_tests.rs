use nostr_commander::errors::Error;
use nostr_commander::keys::{decode, Pubkey};
use nostr_commander::relay::{add_relay, add_relays, is_relay_text, remove_relays, Relay};
use nostr_commander::store::{
    channel_target, create_user_guard, subscribe_keys, unsubscribe_keys, Credentials, Metadata,
};

const NPUB: &str = "npub14f8usejl26twx0dhuxjh9cas7keav9vr0v8nvtwtrjqx3vycc76qqh9nsy";
const HEX: &str = "aa4fc8665f5696e33db7e1a572e3b0f5b3d615837b0f362dcb1c8068b098c7b4";
const HEX2: &str = "379e863e8357163b5bce5d2688dc4f1dcc2d505222fb8d74db600f30535dfdfe";

#[test]
fn subscribe_adds_valid_keys_and_reports_invalid() {
    let mut set: Vec<Pubkey> = Vec::new();
    let keys = vec![HEX.to_string(), "garbage".to_string(), HEX2.to_string()];
    let r = subscribe_keys(&mut set, &keys);
    assert_eq!(set.len(), 2);
    assert_eq!(set[0].to_hex(), HEX);
    assert_eq!(set[1].to_hex(), HEX2);
    assert_eq!(r.unwrap_err(), Error::SubscriptionFailed);
}

#[test]
fn subscribe_deduplicates() {
    let mut set: Vec<Pubkey> = Vec::new();
    let keys = vec![HEX.to_string(), NPUB.to_string()];
    subscribe_keys(&mut set, &keys).unwrap();
    assert_eq!(set.len(), 1);
}

#[test]
fn unsubscribe_removes_and_reports_invalid() {
    let mut set: Vec<Pubkey> = Vec::new();
    let keys = vec![HEX.to_string(), HEX2.to_string()];
    subscribe_keys(&mut set, &keys).unwrap();
    let off = vec![NPUB.to_string()];
    unsubscribe_keys(&mut set, &off).unwrap();
    assert_eq!(set.len(), 1);
    assert_eq!(set[0].to_hex(), HEX2);
    let bad = vec!["nope".to_string()];
    assert_eq!(unsubscribe_keys(&mut set, &bad).unwrap_err(), Error::UnsubscribeFailed);
    assert_eq!(set.len(), 1);
}

#[test]
fn relay_syntax_check() {
    assert!(is_relay_text("wss://relay.damus.io"));
    assert!(is_relay_text("ws://relay.example.org"));
    assert!(!is_relay_text("https://example.org"));
    assert!(!is_relay_text("not a url"));
}

#[test]
fn add_relay_validates_and_deduplicates() {
    let mut rs: Vec<Relay> = Vec::new();
    add_relay(&mut rs, "wss://relay.damus.io", None).unwrap();
    add_relay(&mut rs, "wss://relay.damus.io", None).unwrap();
    assert_eq!(rs.len(), 1);
    assert_eq!(add_relay(&mut rs, "ftp://x.org", None).unwrap_err(), Error::AddRelayFailed);
    assert_eq!(rs.len(), 1);
}

#[test]
fn add_relays_batch_reports_aggregate() {
    let mut rs: Vec<Relay> = Vec::new();
    let urls = vec!["wss://a.example.org".to_string(), "bad".to_string()];
    let r = add_relays(&mut rs, &urls, &Some("127.0.0.1:9050".to_string()));
    assert_eq!(r.unwrap_err(), Error::AddRelayFailed);
    assert_eq!(rs.len(), 1);
    assert_eq!(rs[0].proxy.clone().unwrap(), "127.0.0.1:9050");
}

#[test]
fn remove_relays_by_url() {
    let mut rs: Vec<Relay> = Vec::new();
    add_relay(&mut rs, "wss://a.example.org", None).unwrap();
    add_relay(&mut rs, "wss://b.example.org", None).unwrap();
    let off = vec!["wss://a.example.org".to_string()];
    remove_relays(&mut rs, &off);
    assert_eq!(rs.len(), 1);
    assert_eq!(rs[0].url, "wss://b.example.org");
}

#[test]
fn redacted_masks_only_the_secret() {
    let mut c = Credentials::new();
    c.secret_key_bech32 = "nsec1verysecret".to_string();
    c.public_key_bech32 = NPUB.to_string();
    let r = c.redacted();
    assert_eq!(r.secret_key_bech32, "***");
    assert_eq!(r.public_key_bech32, NPUB);
    assert_eq!(c.secret_key_bech32, "nsec1verysecret");
}

#[test]
fn create_user_guard_blocks_existing_file() {
    assert_eq!(create_user_guard(true).unwrap_err(), Error::UserAlreadyExists);
    assert!(create_user_guard(false).is_ok());
}

#[test]
fn metadata_normalizes_fields() {
    let m = Metadata::from_raw(" John Doe ", "", "  ", "https://example.org/a.png", "j@e.org");
    assert_eq!(m.name.unwrap(), "John Doe");
    assert!(m.display_name.is_none());
    assert!(m.about.is_none());
    assert_eq!(m.picture.unwrap(), "https://example.org/a.png");
    assert_eq!(m.nip05.unwrap(), "j@e.org");
}

#[test]
fn channel_target_picks_explicit_then_stored_relay() {
    let args = vec![HEX.to_string(), "hello".to_string()];
    let explicit = vec!["wss://given.example.org".to_string()];
    let mut stored: Vec<Relay> = Vec::new();
    add_relay(&mut stored, "wss://stored.example.org", None).unwrap();

    let (k, r) = channel_target(&args, &explicit, &stored).unwrap();
    assert_eq!(k.to_hex(), HEX);
    assert_eq!(r, "wss://given.example.org");

    let none: Vec<String> = Vec::new();
    let (_, r2) = channel_target(&args, &none, &stored).unwrap();
    assert_eq!(r2, "wss://stored.example.org");

    let empty: Vec<Relay> = Vec::new();
    assert_eq!(channel_target(&args, &none, &empty).unwrap_err(), Error::MissingCliParameter);

    let short = vec![HEX.to_string()];
    assert_eq!(channel_target(&short, &explicit, &stored).unwrap_err(), Error::MissingCliParameter);

    let bad = vec!["nokey".to_string(), "hello".to_string()];
    assert_eq!(channel_target(&bad, &explicit, &stored).unwrap_err(), Error::InvalidKey);
}

#[test]
fn is_subscribed_author_checks_the_set() {
    let mut c = Credentials::new();
    let keys = vec![HEX.to_string()];
    subscribe_keys(&mut c.subscribed_authors, &keys).unwrap();
    let k = decode(HEX).unwrap();
    let other = decode(HEX2).unwrap();
    assert!(c.is_subscribed_author(&k));
    assert!(!c.is_subscribed_author(&other));
}
