use nostr_commander::contacts::{
    add_contact, add_contacts, alias_or_keystr_by_key, alias_or_keystr_by_keystr, by_alias, by_key,
    dm_recipient, remove_contacts, resolve, AddContactError, ContactEntry,
};
use nostr_commander::errors::Error;
use nostr_commander::keys::decode;

const NPUB: &str = "npub14f8usejl26twx0dhuxjh9cas7keav9vr0v8nvtwtrjqx3vycc76qqh9nsy";
const HEX: &str = "aa4fc8665f5696e33db7e1a572e3b0f5b3d615837b0f362dcb1c8068b098c7b4";
const HEX2: &str = "379e863e8357163b5bce5d2688dc4f1dcc2d505222fb8d74db600f30535dfdfe";
const RELAY: &str = "wss://relay.example.org";

#[test]
fn add_contact_appends_entry() {
    let mut cs: Vec<ContactEntry> = Vec::new();
    add_contact(&mut cs, "jane", NPUB, RELAY).unwrap();
    assert_eq!(cs.len(), 1);
    let found = by_alias(&cs, "jane").unwrap();
    assert_eq!(found.public_key.to_hex(), HEX);
    assert_eq!(found.relay_hint.unwrap(), RELAY);
}

#[test]
fn duplicate_alias_leaves_list_unchanged() {
    let mut cs: Vec<ContactEntry> = Vec::new();
    add_contact(&mut cs, "jane", NPUB, RELAY).unwrap();
    let before_key = cs[0].public_key.to_hex();
    let err = add_contact(&mut cs, " jane ", HEX2, RELAY).unwrap_err();
    assert_eq!(err, AddContactError::DuplicateAlias);
    assert_eq!(cs.len(), 1);
    assert_eq!(cs[0].public_key.to_hex(), before_key);
    assert_eq!(cs[0].alias.clone().unwrap(), "jane");
}

#[test]
fn add_contact_rejects_bad_inputs() {
    let mut cs: Vec<ContactEntry> = Vec::new();
    assert_eq!(add_contact(&mut cs, "  ", NPUB, RELAY).unwrap_err(), AddContactError::EmptyAlias);
    assert_eq!(
        add_contact(&mut cs, "joe", NPUB, "https://not.a.relay").unwrap_err(),
        AddContactError::InvalidRelayHint
    );
    assert_eq!(add_contact(&mut cs, "joe", "garbage", RELAY).unwrap_err(), AddContactError::InvalidKey);
    assert_eq!(cs.len(), 0);
}

#[test]
fn add_contacts_batch_arity_mismatch() {
    let mut cs: Vec<ContactEntry> = Vec::new();
    let aliases = vec!["a".to_string(), "b".to_string()];
    let keys = vec![NPUB.to_string()];
    let relays = vec![RELAY.to_string()];
    assert_eq!(add_contacts(&mut cs, &aliases, &keys, &relays).unwrap_err(), Error::MissingCliParameter);
    assert_eq!(cs.len(), 0);
}

#[test]
fn add_contacts_batch_commits_valid_items() {
    let mut cs: Vec<ContactEntry> = Vec::new();
    let aliases = vec!["a".to_string(), "b".to_string(), "a".to_string()];
    let keys = vec![NPUB.to_string(), HEX2.to_string(), HEX2.to_string()];
    let relays = vec![RELAY.to_string(), RELAY.to_string(), RELAY.to_string()];
    let r = add_contacts(&mut cs, &aliases, &keys, &relays);
    assert_eq!(r.unwrap_err(), Error::SubscriptionFailed);
    assert_eq!(cs.len(), 2);
}

#[test]
fn remove_contacts_is_idempotent() {
    let mut cs: Vec<ContactEntry> = Vec::new();
    add_contact(&mut cs, "jane", NPUB, RELAY).unwrap();
    add_contact(&mut cs, "joe", HEX2, RELAY).unwrap();
    let aliases = vec!["jane".to_string()];
    remove_contacts(&mut cs, &aliases);
    assert_eq!(cs.len(), 1);
    remove_contacts(&mut cs, &aliases);
    assert_eq!(cs.len(), 1);
    assert_eq!(cs[0].alias.clone().unwrap(), "joe");
}

#[test]
fn unknown_key_displays_its_own_hex() {
    let cs: Vec<ContactEntry> = Vec::new();
    let k = decode(HEX).unwrap();
    assert_eq!(alias_or_keystr_by_key(&cs, &k), HEX);
    assert_eq!(alias_or_keystr_by_keystr(&cs, NPUB), HEX);
    assert_eq!(alias_or_keystr_by_keystr(&cs, "not a key"), "not a key");
}

#[test]
fn known_key_displays_alias() {
    let mut cs: Vec<ContactEntry> = Vec::new();
    add_contact(&mut cs, "jane", NPUB, RELAY).unwrap();
    let k = decode(HEX).unwrap();
    assert_eq!(alias_or_keystr_by_key(&cs, &k), "jane");
    assert!(by_key(&cs, &k).is_some());
}

#[test]
fn resolve_tries_alias_then_key() {
    let mut cs: Vec<ContactEntry> = Vec::new();
    add_contact(&mut cs, "jane", NPUB, RELAY).unwrap();
    assert_eq!(resolve(&cs, "jane").unwrap().to_hex(), HEX);
    assert_eq!(resolve(&cs, HEX2).unwrap().to_hex(), HEX2);
    assert_eq!(resolve(&cs, "nobody").unwrap_err(), Error::InvalidKey);
}

#[test]
fn dm_recipient_needs_key_and_message() {
    let mut cs: Vec<ContactEntry> = Vec::new();
    add_contact(&mut cs, "jane", NPUB, RELAY).unwrap();
    let only_key = vec!["jane".to_string()];
    assert_eq!(dm_recipient(&cs, &only_key).unwrap_err(), Error::MissingCliParameter);
    let full = vec![" jane ".to_string(), "hello".to_string()];
    assert_eq!(dm_recipient(&cs, &full).unwrap().to_hex(), HEX);
}
