//! Classification of inbound relay notifications: status traffic is logged,
//! publish acknowledgements and subscribed events become structured records
//! for the presenter, metadata events are logged, everything else is ignored.

use vstd::prelude::*;

use crate::contacts::alias_or_key_spec;
use crate::contacts::alias_or_keystr_by_key;
use crate::contacts::alias_or_keystr_by_keystr;
use crate::contacts::display_map;
use crate::keys::hex_of;
use crate::keys::Pubkey;
use crate::store::Credentials;
use crate::text::strs_view;

verus! {

/// The kinds of inbound events the dispatcher distinguishes.
#[derive(Clone, Copy, Debug, PartialEq, Eq, Structural)]
pub enum EventKind {
    /// A public text note: presented to the user.
    TextNote,
    /// A message addressed to a channel: presented to the user.
    ChannelMessage,
    /// A contact-list event: metadata, logged only.
    ContactList,
    /// A reaction event: metadata, logged only.
    Reaction,
    /// Any other kind: ignored.
    Other,
}

/// One inbound event, reduced to the values the dispatcher reads.
pub struct InboundEvent {
    pub author: Pubkey,
    pub kind: EventKind,
    pub content: String,
    /// The reference keys carried by the event's tags, as raw texts.
    pub tag_refs: Vec<String>,
}

/// One item of the inbound notification stream.
pub enum Notification {
    /// A relay authenticated this client.
    Authenticated,
    /// The pool is shutting down.
    Shutdown,
    /// A relay changed its connection status.
    RelayStatus,
    /// A raw pool event notification; the message form carries the payload.
    PoolEvent,
    /// A publish acknowledgement for some event id.
    Acknowledged { event_id: String, status: bool, message: String },
    /// An informational notice from a relay.
    Notice { message: String },
    /// An event delivered for a subscription.
    EventMsg { event: InboundEvent },
    /// End of stored events for a subscription.
    EndOfStoredEvents,
    /// An authentication challenge.
    Auth,
    /// A count reply.
    Count,
    /// A subscription was closed by the relay.
    Closed,
    /// A negative-reconciliation message.
    NegMsg,
    /// A negative-reconciliation error.
    NegErr,
}

/// The structured record for a presented event.
pub struct EventRecord {
    /// `author` when the author is in the watched-authors set, else `key`.
    pub subscribed_by: String,
    /// The author's alias, or the key's hexadecimal form.
    pub author: String,
    pub content: String,
    pub kind: EventKind,
    /// The same display form as `author`.
    pub from_alias: String,
    /// The author's key in hexadecimal form.
    pub from_pubkey: String,
    /// Each tag-carried reference key, resolved to an alias or key text.
    pub tags: Vec<String>,
}

/// The structured record for a publish acknowledgement.
pub struct AckRecord {
    pub event_id: String,
    pub status: bool,
    pub message: String,
    /// A lookup address for the event, derived from its id.
    pub event_url: String,
}

/// What the dispatcher does with one notification.
pub enum Disposition {
    /// Logged; no record, no state change.
    LogOnly,
    /// A publish acknowledgement, displayed as a record.
    Ack(AckRecord),
    /// A subscribed event, displayed as a record.
    Record(EventRecord),
    /// Dropped without a trace.
    Ignore,
}

/// Classifies one inbound notification against the credential state:
/// connection and bookkeeping traffic is logged only; an acknowledgement
/// becomes an `Ack` record carrying its event id and a lookup address; a
/// text-note or channel-message event becomes an `EventRecord` whose author
/// is resolved through the contact directory and labelled `author` exactly
/// when the author is a watched author; contact-list and reaction events are
/// logged; any other event kind is ignored.
pub fn classify(creds: &Credentials, n: &Notification) -> (r: Disposition)
    ensures
        match n {
            Notification::EventMsg { event } => match event.kind {
                EventKind::TextNote | EventKind::ChannelMessage => (r matches Disposition::Record(
                    rec,
                ) && rec.subscribed_by@ == (if creds@.subscribed_authors.contains(event.author@) {
                    "author"@
                } else {
                    "key"@
                }) && rec.author@ == alias_or_key_spec(creds@.contacts, event.author@)
                    && rec.content@ == event.content@ && rec.kind == event.kind && rec.from_alias@
                    == alias_or_key_spec(creds@.contacts, event.author@) && rec.from_pubkey@
                    == hex_of(event.author@) && strs_view(rec.tags@) == strs_view(
                    event.tag_refs@,
                ).map_values(display_map(creds@.contacts))),
                EventKind::ContactList | EventKind::Reaction => r matches Disposition::LogOnly,
                EventKind::Other => r matches Disposition::Ignore,
            },
            Notification::Acknowledged { event_id, status, message } => (r matches Disposition::Ack(a)
                && a.event_id@ == event_id@ && a.status == status && a.message@ == message@
                && a.event_url@ == "https://nostr.com/e/"@ + event_id@),
            _ => r matches Disposition::LogOnly,
        },
{
    match n {
        Notification::EventMsg { event } => match event.kind {
            EventKind::TextNote | EventKind::ChannelMessage => {
                let display = alias_or_keystr_by_key(&creds.contacts, &event.author);
                let subscribed_by = if creds.is_subscribed_author(&event.author) {
                    author_label()
                } else {
                    key_label()
                };
                let tags = resolve_tags(&creds.contacts, &event.tag_refs);
                let rec = EventRecord {
                    subscribed_by,
                    author: display.clone(),
                    content: event.content.clone(),
                    kind: event.kind,
                    from_alias: display,
                    from_pubkey: event.author.to_hex(),
                    tags,
                };
                Disposition::Record(rec)
            },
            EventKind::ContactList | EventKind::Reaction => Disposition::LogOnly,
            EventKind::Other => Disposition::Ignore,
        },
        Notification::Acknowledged { event_id, status, message } => {
            let mut url = event_base();
            url.append(event_id.as_str());
            let ack = AckRecord {
                event_id: event_id.clone(),
                status: *status,
                message: message.clone(),
                event_url: url,
            };
            Disposition::Ack(ack)
        },
        _ => Disposition::LogOnly,
    }
}

/// The label for events of watched authors.
fn author_label() -> (r: String)
    ensures
        r@ == "author"@,
{
    let s = "author";
    String::from_str(s)
}

/// The label for events matched by a watched key.
fn key_label() -> (r: String)
    ensures
        r@ == "key"@,
{
    let s = "key";
    String::from_str(s)
}

/// The base of the lookup address for an acknowledged event.
fn event_base() -> (r: String)
    ensures
        r@ == "https://nostr.com/e/"@,
{
    let s = "https://nostr.com/e/";
    String::from_str(s)
}

/// Resolves each tag reference to its display form. A reference that is no
/// valid key displays as itself; a malformed reference never stops the
/// others.
pub fn resolve_tags(cs: &Vec<crate::contacts::ContactEntry>, refs: &Vec<String>) -> (r: Vec<
    String,
>)
    ensures
        strs_view(r@) == strs_view(refs@).map_values(
            display_map(crate::contacts::contacts_view(cs@)),
        ),
{
    let ghost target = strs_view(refs@).map_values(
        display_map(crate::contacts::contacts_view(cs@)),
    );
    let n = refs.len();
    let mut out: Vec<String> = Vec::new();
    let mut i: usize = 0;
    proof {
        assert(strs_view(out@) =~= target.subrange(0, 0));
    }
    while i < n
        invariant
            i <= n,
            n == refs@.len(),
            target == strs_view(refs@).map_values(
                display_map(crate::contacts::contacts_view(cs@)),
            ),
            strs_view(out@) == target.subrange(0, i as int),
        decreases n - i,
    {
        let resolved = alias_or_keystr_by_keystr(cs, refs[i].as_str());
        let ghost before = strs_view(out@);
        out.push(resolved);
        proof {
            assert(strs_view(out@) =~= before.push(
                crate::contacts::resolve_display_spec(
                    crate::contacts::contacts_view(cs@),
                    refs@[i as int]@,
                ),
            ));
            assert(target[i as int] == crate::contacts::resolve_display_spec(
                crate::contacts::contacts_view(cs@),
                strs_view(refs@)[i as int],
            ));
            assert(strs_view(out@) =~= target.subrange(0, i + 1 as int));
        }
        i = i + 1;
    }
    proof {
        assert(target.subrange(0, n as int) =~= target);
    }
    out
}

} // verus!
