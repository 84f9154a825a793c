use nostr_commander::codec::{load_credentials, save_credentials, text_ok};
use nostr_commander::contacts::{add_contact, ContactEntry};
use nostr_commander::errors::Error;
use nostr_commander::keys::decode;
use nostr_commander::relay::{add_relay, Relay};
use nostr_commander::store::{subscribe_keys, Credentials, Metadata};

const NPUB: &str = "npub14f8usejl26twx0dhuxjh9cas7keav9vr0v8nvtwtrjqx3vycc76qqh9nsy";
const HEX: &str = "aa4fc8665f5696e33db7e1a572e3b0f5b3d615837b0f362dcb1c8068b098c7b4";
const HEX2: &str = "379e863e8357163b5bce5d2688dc4f1dcc2d505222fb8d74db600f30535dfdfe";

fn sample_state() -> Credentials {
    let mut c = Credentials::new();
    c.secret_key_bech32 = "nsec1samplesecret".to_string();
    c.public_key_bech32 = NPUB.to_string();
    add_relay(&mut c.relays, "wss://a.example.org", None).unwrap();
    add_relay(&mut c.relays, "wss://b.example.org", Some("127.0.0.1:9050".to_string())).unwrap();
    add_relay(&mut c.relays, "wss://c.example.org", None).unwrap();
    c.metadata = Metadata::from_raw("John", "Jonnie", "about me", "", "john@example.org");
    add_contact(&mut c.contacts, "jane", NPUB, "wss://a.example.org").unwrap();
    c.contacts.push(ContactEntry {
        public_key: decode(HEX2).unwrap(),
        alias: None,
        relay_hint: None,
    });
    let keys = vec![HEX.to_string(), HEX2.to_string()];
    subscribe_keys(&mut c.subscribed_pubkeys, &keys).unwrap();
    let authors = vec![HEX2.to_string()];
    subscribe_keys(&mut c.subscribed_authors, &authors).unwrap();
    let channels = vec![HEX.to_string()];
    subscribe_keys(&mut c.subscribed_channels, &channels).unwrap();
    c
}

#[test]
fn save_then_load_reproduces_every_field() {
    let c = sample_state();
    let text = save_credentials(&c).unwrap();
    let d = load_credentials(&text).unwrap();

    assert_eq!(d.secret_key_bech32, c.secret_key_bech32);
    assert_eq!(d.public_key_bech32, c.public_key_bech32);

    assert_eq!(d.relays.len(), 3);
    for i in 0..3 {
        assert_eq!(d.relays[i].url, c.relays[i].url);
        assert_eq!(d.relays[i].proxy, c.relays[i].proxy);
    }

    assert_eq!(d.metadata.name, c.metadata.name);
    assert_eq!(d.metadata.display_name, c.metadata.display_name);
    assert_eq!(d.metadata.about, c.metadata.about);
    assert_eq!(d.metadata.picture, c.metadata.picture);
    assert_eq!(d.metadata.nip05, c.metadata.nip05);

    assert_eq!(d.contacts.len(), 2);
    assert_eq!(d.contacts[0].alias.clone().unwrap(), "jane");
    assert_eq!(d.contacts[0].public_key.to_hex(), HEX);
    assert!(d.contacts[1].alias.is_none());
    assert_eq!(d.contacts[1].public_key.to_hex(), HEX2);

    assert_eq!(d.subscribed_pubkeys.len(), 2);
    assert_eq!(d.subscribed_pubkeys[0].to_hex(), HEX);
    assert_eq!(d.subscribed_pubkeys[1].to_hex(), HEX2);
    assert_eq!(d.subscribed_authors.len(), 1);
    assert_eq!(d.subscribed_authors[0].to_hex(), HEX2);
    assert_eq!(d.subscribed_channels.len(), 1);
    assert_eq!(d.subscribed_channels[0].to_hex(), HEX);
}

#[test]
fn saved_text_keeps_the_real_secret_while_logs_redact_it() {
    let c = sample_state();
    let text = save_credentials(&c).unwrap();
    assert!(text.contains("nsec1samplesecret"));
    let shown = c.redacted();
    assert_eq!(shown.secret_key_bech32, "***");
    // the redacted copy still saves, with the placeholder instead
    let redacted_text = save_credentials(&shown).unwrap();
    assert!(!redacted_text.contains("nsec1samplesecret"));
    assert!(redacted_text.contains("***"));
}

#[test]
fn escaped_characters_survive_the_round_trip() {
    let mut c = Credentials::new();
    c.secret_key_bech32 = "line\nbreak \"quoted\" back\\slash\ttab".to_string();
    c.public_key_bech32 = "plain".to_string();
    let text = save_credentials(&c).unwrap();
    let d = load_credentials(&text).unwrap();
    assert_eq!(d.secret_key_bech32, c.secret_key_bech32);
    assert_eq!(d.public_key_bech32, c.public_key_bech32);
}

#[test]
fn unstorable_control_character_is_a_storage_failure() {
    let mut c = Credentials::new();
    c.public_key_bech32 = "bell\u{0007}".to_string();
    assert_eq!(save_credentials(&c).unwrap_err(), Error::StorageFailure);
    assert!(!text_ok("bell\u{0007}"));
    assert!(text_ok("ordinary text"));
}

#[test]
fn corrupt_text_is_a_storage_failure() {
    assert_eq!(load_credentials("not json at all").unwrap_err(), Error::StorageFailure);
    assert_eq!(load_credentials("").unwrap_err(), Error::StorageFailure);
    let c = sample_state();
    let text = save_credentials(&c).unwrap();
    let mut truncated = text.clone();
    truncated.pop();
    assert_eq!(load_credentials(&truncated).unwrap_err(), Error::StorageFailure);
    let trailing = format!("{} ", text);
    assert_eq!(load_credentials(&trailing).unwrap_err(), Error::StorageFailure);
}

#[test]
fn loaded_keys_are_validated() {
    // a stored subscription key that is not a curve point must be refused
    let c = sample_state();
    let text = save_credentials(&c).unwrap();
    let bad = text.replace(
        "aa4fc8665f5696e33db7e1a572e3b0f5b3d615837b0f362dcb1c8068b098c7b4",
        "0000000000000000000000000000000000000000000000000000000000000000",
    );
    assert_eq!(load_credentials(&bad).unwrap_err(), Error::StorageFailure);
}
