use nostr_commander::contacts::add_contact;
use nostr_commander::dispatch::{
    classify, Disposition, EventKind, InboundEvent, Notification,
};
use nostr_commander::keys::decode;
use nostr_commander::output::{to_json, to_text, whoami_record, OutValue};
use nostr_commander::store::{subscribe_keys, Credentials, Metadata};

const NPUB: &str = "npub14f8usejl26twx0dhuxjh9cas7keav9vr0v8nvtwtrjqx3vycc76qqh9nsy";
const HEX: &str = "aa4fc8665f5696e33db7e1a572e3b0f5b3d615837b0f362dcb1c8068b098c7b4";
const HEX2: &str = "379e863e8357163b5bce5d2688dc4f1dcc2d505222fb8d74db600f30535dfdfe";

fn state_with_contact_and_author() -> Credentials {
    let mut c = Credentials::new();
    add_contact(&mut c.contacts, "jane", NPUB, "wss://a.example.org").unwrap();
    let authors = vec![HEX.to_string()];
    subscribe_keys(&mut c.subscribed_authors, &authors).unwrap();
    c
}

fn note_from(hex: &str, refs: Vec<String>) -> Notification {
    Notification::EventMsg {
        event: InboundEvent {
            author: decode(hex).unwrap(),
            kind: EventKind::TextNote,
            content: "hello".to_string(),
            tag_refs: refs,
        },
    }
}

#[test]
fn subscribed_author_with_alias_is_labelled_author() {
    let c = state_with_contact_and_author();
    match classify(&c, &note_from(HEX, Vec::new())) {
        Disposition::Record(rec) => {
            assert_eq!(rec.subscribed_by, "author");
            assert_eq!(rec.author, "jane");
            assert_eq!(rec.from_alias, "jane");
            assert_eq!(rec.from_pubkey, HEX);
            assert_eq!(rec.content, "hello");
            assert_eq!(rec.kind, EventKind::TextNote);
        },
        _ => panic!("a text note must yield a record"),
    }
}

#[test]
fn unknown_author_is_labelled_key_and_shown_as_hex() {
    let c = state_with_contact_and_author();
    match classify(&c, &note_from(HEX2, Vec::new())) {
        Disposition::Record(rec) => {
            assert_eq!(rec.subscribed_by, "key");
            assert_eq!(rec.author, HEX2);
            assert_eq!(rec.from_pubkey, HEX2);
        },
        _ => panic!("a text note must yield a record"),
    }
}

#[test]
fn tag_references_resolve_through_the_directory() {
    let c = state_with_contact_and_author();
    let refs = vec![HEX.to_string(), "unreadable".to_string()];
    match classify(&c, &note_from(HEX2, refs)) {
        Disposition::Record(rec) => {
            assert_eq!(rec.tags.len(), 2);
            assert_eq!(rec.tags[0], "jane");
            assert_eq!(rec.tags[1], "unreadable");
        },
        _ => panic!("a text note must yield a record"),
    }
}

#[test]
fn metadata_events_are_logged_and_others_ignored() {
    let c = Credentials::new();
    let contact_list = Notification::EventMsg {
        event: InboundEvent {
            author: decode(HEX).unwrap(),
            kind: EventKind::ContactList,
            content: String::new(),
            tag_refs: Vec::new(),
        },
    };
    assert!(matches!(classify(&c, &contact_list), Disposition::LogOnly));
    let other = Notification::EventMsg {
        event: InboundEvent {
            author: decode(HEX).unwrap(),
            kind: EventKind::Other,
            content: String::new(),
            tag_refs: Vec::new(),
        },
    };
    assert!(matches!(classify(&c, &other), Disposition::Ignore));
    assert!(matches!(classify(&c, &Notification::Shutdown), Disposition::LogOnly));
    assert!(matches!(
        classify(&c, &Notification::Notice { message: "hi".to_string() }),
        Disposition::LogOnly
    ));
}

#[test]
fn acknowledgements_carry_a_lookup_address() {
    let c = Credentials::new();
    let n = Notification::Acknowledged {
        event_id: "abc123".to_string(),
        status: true,
        message: "stored".to_string(),
    };
    match classify(&c, &n) {
        Disposition::Ack(a) => {
            assert_eq!(a.event_id, "abc123");
            assert!(a.status);
            assert_eq!(a.message, "stored");
            assert_eq!(a.event_url, "https://nostr.com/e/abc123");
        },
        _ => panic!("an acknowledgement must yield an ack record"),
    }
}

#[test]
fn output_renders_json_and_text() {
    let mut fields: Vec<(String, OutValue)> = Vec::new();
    fields.push(("name".to_string(), OutValue::Text("jane".to_string())));
    fields.push(("seen".to_string(), OutValue::Truth(true)));
    fields.push(("extra".to_string(), OutValue::Null));
    let items = vec![OutValue::Text("a".to_string()), OutValue::Text("b".to_string())];
    fields.push(("tags".to_string(), OutValue::List(items)));
    let v = OutValue::Object(fields);
    assert_eq!(
        to_json(&v),
        "{\"name\":\"jane\",\"seen\":true,\"extra\":null,\"tags\":[\"a\",\"b\"]}"
    );
    let text = to_text(&v);
    assert_eq!(
        text,
        "\n    name: \"jane\"\n    seen: true\n    extra: \n    tags: \n        - \"a\"\n        - \"b\""
    );
}

#[test]
fn whoami_shows_name_and_display_name() {
    let mut c = Credentials::new();
    c.metadata = Metadata::from_raw("John", "Jonnie", "", "", "");
    let v = whoami_record(&c);
    assert_eq!(to_json(&v), "{\"name\":\"John\",\"display_name\":\"Jonnie\"}");
    let empty = whoami_record(&Credentials::new());
    assert_eq!(to_json(&empty), "{\"name\":null,\"display_name\":null}");
}
