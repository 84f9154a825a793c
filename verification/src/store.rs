//! The persistent credential state: identity, relays, profile metadata,
//! contacts and the three subscription sets, with the operations the command
//! handlers perform on it.

use vstd::prelude::*;

use crate::contacts::contacts_view;
use crate::contacts::contacts_wf;
use crate::contacts::ContactEntry;
use crate::contacts::ContactView;
use crate::errors::Error;
use crate::keys::bytes_eq;
use crate::keys::decode;
use crate::keys::decode_spec;
use crate::keys::is_curve_point;
use crate::keys::Pubkey;
use crate::relay::Relay;
use crate::relay::relays_view;
use crate::relay::RelayView;
use crate::text::lemma_filter_one;
use crate::text::opt_str_view;
use crate::text::trim_spec;
use crate::text::trim_string;

verus! {

/// The profile metadata of the identity.
#[derive(Debug)]
pub struct Metadata {
    pub name: Option<String>,
    pub display_name: Option<String>,
    pub about: Option<String>,
    pub picture: Option<String>,
    pub nip05: Option<String>,
}

/// The mathematical value of the profile metadata.
pub struct MetadataView {
    pub name: Option<Seq<char>>,
    pub display_name: Option<Seq<char>>,
    pub about: Option<Seq<char>>,
    pub picture: Option<Seq<char>>,
    pub nip05: Option<Seq<char>>,
}

impl View for Metadata {
    type V = MetadataView;

    open spec fn view(&self) -> MetadataView {
        MetadataView {
            name: opt_str_view(&self.name),
            display_name: opt_str_view(&self.display_name),
            about: opt_str_view(&self.about),
            picture: opt_str_view(&self.picture),
            nip05: opt_str_view(&self.nip05),
        }
    }
}

impl Metadata {
    /// Empty metadata: no field set.
    pub fn empty() -> (r: Metadata)
        ensures
            r@.name is None,
            r@.display_name is None,
            r@.about is None,
            r@.picture is None,
            r@.nip05 is None,
    {
        Metadata { name: None, display_name: None, about: None, picture: None, nip05: None }
    }

    /// Metadata from raw field texts: each field is trimmed, and an empty
    /// trimmed text leaves the field unset.
    pub fn from_raw(name: &str, display_name: &str, about: &str, picture: &str, nip05: &str) -> (r:
        Metadata)
        ensures
            r@.name == normalized_field(name@),
            r@.display_name == normalized_field(display_name@),
            r@.about == normalized_field(about@),
            r@.picture == normalized_field(picture@),
            r@.nip05 == normalized_field(nip05@),
    {
        Metadata {
            name: normalize_entry(name),
            display_name: normalize_entry(display_name),
            about: normalize_entry(about),
            picture: normalize_entry(picture),
            nip05: normalize_entry(nip05),
        }
    }
}

/// The trimmed text, or nothing when trimming leaves it empty.
pub open spec fn normalized_field(s: Seq<char>) -> Option<Seq<char>> {
    if trim_spec(s).len() == 0 {
        None
    } else {
        Some(trim_spec(s))
    }
}

/// Trims the text; an empty result means the entry stays unset.
pub fn normalize_entry(s: &str) -> (r: Option<String>)
    ensures
        opt_str_view(&r) == normalized_field(s@),
{
    let t = trim_string(s);
    if t.as_str().is_empty() {
        None
    } else {
        Some(t)
    }
}

/// The views of a key set.
pub open spec fn keys_view(ks: Seq<Pubkey>) -> Seq<Seq<u8>> {
    ks.map_values(|k: Pubkey| k@)
}

/// Every key of the set is well formed.
pub open spec fn keys_wf(ks: Seq<Seq<u8>>) -> bool {
    forall|i: int| 0 <= i < ks.len() ==> (#[trigger] ks[i]).len() == 32 && is_curve_point(ks[i])
}

/// Whether the set already holds this key.
pub fn set_contains(set: &Vec<Pubkey>, key: &Pubkey) -> (r: bool)
    ensures
        r == keys_view(set@).contains(key@),
{
    let n = set.len();
    let mut i: usize = 0;
    while i < n
        invariant
            i <= n,
            n == set@.len(),
            forall|j: int| 0 <= j < i ==> keys_view(set@)[j] != key@,
        decreases n - i,
    {
        if bytes_eq(&set[i].bytes, &key.bytes) {
            proof {
                assert(keys_view(set@)[i as int] == key@);
            }
            return true;
        }
        i = i + 1;
    }
    false
}

/// What a batch of subscriptions leaves in a key set, and how many of the
/// batch were invalid: each valid key joins the set unless already present;
/// invalid ones are counted and skipped.
pub open spec fn subscribe_spec(set: Seq<Seq<u8>>, keys: Seq<Seq<char>>) -> (Seq<Seq<u8>>, nat)
    decreases keys.len(),
{
    if keys.len() == 0 {
        (set, 0)
    } else {
        let step = match decode_spec(keys[0]) {
            Some(b) => if set.contains(b) {
                (set, 0nat)
            } else {
                (set.push(b), 0nat)
            },
            None => (set, 1nat),
        };
        let rest = subscribe_spec(step.0, keys.skip(1));
        (rest.0, (step.1 + rest.1) as nat)
    }
}

/// Adds a batch of keys to a subscription set: every item is attempted, the
/// set stays free of duplicates, invalid keys are counted and skipped, and
/// the batch reports an aggregated error exactly when at least one key was
/// invalid.
pub fn subscribe_keys(set: &mut Vec<Pubkey>, keys: &Vec<String>) -> (r: Result<(), Error>)
    ensures
        keys_view(final(set)@) == subscribe_spec(
            keys_view(old(set)@),
            keys@.map_values(|s: String| s@),
        ).0,
        r matches Ok(_) <==> subscribe_spec(
            keys_view(old(set)@),
            keys@.map_values(|s: String| s@),
        ).1 == 0,
        r matches Err(e) ==> e == Error::SubscriptionFailed,
        keys_wf(keys_view(old(set)@)) ==> keys_wf(keys_view(final(set)@)),
{
    let ghost kv = keys@.map_values(|s: String| s@);
    let n = keys.len();
    let mut errs: usize = 0;
    let mut i: usize = 0;
    proof {
        assert(kv.skip(0) =~= kv);
    }
    while i < n
        invariant
            i <= n,
            n == keys@.len(),
            kv == keys@.map_values(|s: String| s@),
            errs <= i,
            keys_wf(keys_view(old(set)@)) ==> keys_wf(keys_view(set@)),
            subscribe_spec(keys_view(old(set)@), kv) == {
                let rest = subscribe_spec(keys_view(set@), kv.skip(i as int));
                (rest.0, (errs + rest.1) as nat)
            },
        decreases n - i,
    {
        let ghost before = keys_view(set@);
        match decode(keys[i].as_str()) {
            Ok(p) => {
                if !set_contains(set, &p) {
                    let ghost pv = p@;
                    set.push(p);
                    proof {
                        assert(keys_view(set@) =~= before.push(pv));
                        if keys_wf(before) {
                            assert forall|j: int| 0 <= j < keys_view(set@).len() implies (
                            #[trigger] keys_view(set@)[j]).len() == 32 && is_curve_point(
                                keys_view(set@)[j],
                            ) by {
                                if j < before.len() {
                                    assert(keys_view(set@)[j] == before[j]);
                                }
                            }
                        }
                    }
                }
            },
            Err(_) => {
                errs = errs + 1;
            },
        }
        proof {
            assert(kv.skip(i as int)[0] == kv[i as int]);
            assert(kv.skip(i as int).skip(1) =~= kv.skip(i + 1 as int));
        }
        i = i + 1;
    }
    proof {
        assert(kv.skip(n as int) =~= Seq::<Seq<char>>::empty());
    }
    if errs == 0 {
        Ok(())
    } else {
        Err(Error::SubscriptionFailed)
    }
}

/// The predicate that keeps every key other than `b`.
pub open spec fn not_key(b: Seq<u8>) -> spec_fn(Seq<u8>) -> bool {
    |x: Seq<u8>| x != b
}

/// Removes one key from a set, wherever it occurs.
pub fn remove_key(set: &mut Vec<Pubkey>, key: &Pubkey)
    ensures
        keys_view(final(set)@) == keys_view(old(set)@).filter(not_key(key@)),
{
    let ghost pred = not_key(key@);
    let n = set.len();
    let mut out: Vec<Pubkey> = Vec::new();
    let mut i: usize = 0;
    proof {
        assert(keys_view(set@).subrange(0, 0).filter(pred) =~= Seq::<Seq<u8>>::empty());
        assert(keys_view(out@) =~= Seq::<Seq<u8>>::empty());
    }
    while i < n
        invariant
            i <= n,
            n == set@.len(),
            pred == not_key(key@),
            keys_view(out@) == keys_view(set@).subrange(0, i as int).filter(pred),
        decreases n - i,
    {
        let keep = !bytes_eq(&set[i].bytes, &key.bytes);
        proof {
            let pre = keys_view(set@).subrange(0, i as int);
            lemma_filter_one(pre, keys_view(set@)[i as int], pred);
            assert(pre + seq![keys_view(set@)[i as int]] =~= keys_view(set@).subrange(
                0,
                i + 1 as int,
            ));
        }
        if keep {
            out.push(set[i].clone());
        }
        proof {
            assert(keys_view(out@) =~= keys_view(set@).subrange(0, i + 1 as int).filter(pred));
        }
        i = i + 1;
    }
    proof {
        assert(keys_view(set@).subrange(0, n as int) =~= keys_view(set@));
    }
    *set = out;
}

/// What a batch of unsubscriptions leaves in a key set, and how many of the
/// batch were invalid: each valid key is removed wherever present; invalid
/// ones are counted and skipped.
pub open spec fn unsubscribe_spec(set: Seq<Seq<u8>>, keys: Seq<Seq<char>>) -> (Seq<Seq<u8>>, nat)
    decreases keys.len(),
{
    if keys.len() == 0 {
        (set, 0)
    } else {
        let step = match decode_spec(keys[0]) {
            Some(b) => (set.filter(not_key(b)), 0nat),
            None => (set, 1nat),
        };
        let rest = unsubscribe_spec(step.0, keys.skip(1));
        (rest.0, (step.1 + rest.1) as nat)
    }
}

/// Removes a batch of keys from a subscription set: every item is attempted,
/// invalid keys are counted and skipped, and the batch reports an aggregated
/// error exactly when at least one key was invalid.
pub fn unsubscribe_keys(set: &mut Vec<Pubkey>, keys: &Vec<String>) -> (r: Result<(), Error>)
    ensures
        keys_view(final(set)@) == unsubscribe_spec(
            keys_view(old(set)@),
            keys@.map_values(|s: String| s@),
        ).0,
        r matches Ok(_) <==> unsubscribe_spec(
            keys_view(old(set)@),
            keys@.map_values(|s: String| s@),
        ).1 == 0,
        r matches Err(e) ==> e == Error::UnsubscribeFailed,
{
    let ghost kv = keys@.map_values(|s: String| s@);
    let n = keys.len();
    let mut errs: usize = 0;
    let mut i: usize = 0;
    proof {
        assert(kv.skip(0) =~= kv);
    }
    while i < n
        invariant
            i <= n,
            n == keys@.len(),
            kv == keys@.map_values(|s: String| s@),
            errs <= i,
            unsubscribe_spec(keys_view(old(set)@), kv) == {
                let rest = unsubscribe_spec(keys_view(set@), kv.skip(i as int));
                (rest.0, (errs + rest.1) as nat)
            },
        decreases n - i,
    {
        match decode(keys[i].as_str()) {
            Ok(p) => {
                remove_key(set, &p);
            },
            Err(_) => {
                errs = errs + 1;
            },
        }
        proof {
            assert(kv.skip(i as int)[0] == kv[i as int]);
            assert(kv.skip(i as int).skip(1) =~= kv.skip(i + 1 as int));
        }
        i = i + 1;
    }
    proof {
        assert(kv.skip(n as int) =~= Seq::<Seq<char>>::empty());
    }
    if errs == 0 {
        Ok(())
    } else {
        Err(Error::UnsubscribeFailed)
    }
}

// ---------------------------------------------------------------------------
// The aggregate.
// ---------------------------------------------------------------------------
/// The persisted credential state: identity, relays, profile metadata,
/// contacts, and the three subscription sets (keys any event is tagged to,
/// authors of events, and channel keys).
#[derive(Debug)]
pub struct Credentials {
    pub secret_key_bech32: String,
    pub public_key_bech32: String,
    pub relays: Vec<Relay>,
    pub metadata: Metadata,
    pub contacts: Vec<ContactEntry>,
    pub subscribed_pubkeys: Vec<Pubkey>,
    pub subscribed_authors: Vec<Pubkey>,
    pub subscribed_channels: Vec<Pubkey>,
}

/// The mathematical value of the credential state.
pub struct CredentialsView {
    pub secret_key: Seq<char>,
    pub public_key: Seq<char>,
    pub relays: Seq<RelayView>,
    pub metadata: MetadataView,
    pub contacts: Seq<ContactView>,
    pub subscribed_pubkeys: Seq<Seq<u8>>,
    pub subscribed_authors: Seq<Seq<u8>>,
    pub subscribed_channels: Seq<Seq<u8>>,
}

impl View for Credentials {
    type V = CredentialsView;

    open spec fn view(&self) -> CredentialsView {
        CredentialsView {
            secret_key: self.secret_key_bech32@,
            public_key: self.public_key_bech32@,
            relays: relays_view(self.relays@),
            metadata: self.metadata@,
            contacts: contacts_view(self.contacts@),
            subscribed_pubkeys: keys_view(self.subscribed_pubkeys@),
            subscribed_authors: keys_view(self.subscribed_authors@),
            subscribed_channels: keys_view(self.subscribed_channels@),
        }
    }
}

/// Every key held anywhere in the state is well formed.
pub open spec fn cred_wf(c: CredentialsView) -> bool {
    contacts_wf(c.contacts) && keys_wf(c.subscribed_pubkeys) && keys_wf(c.subscribed_authors)
        && keys_wf(c.subscribed_channels)
}

impl Credentials {
    /// Fresh state: empty identity, no relays, no contacts, no subscriptions.
    pub fn new() -> (r: Credentials)
        ensures
            r@.secret_key.len() == 0,
            r@.public_key.len() == 0,
            r@.relays.len() == 0,
            r@.metadata.name is None,
            r@.metadata.display_name is None,
            r@.metadata.about is None,
            r@.metadata.picture is None,
            r@.metadata.nip05 is None,
            r@.contacts.len() == 0,
            r@.subscribed_pubkeys.len() == 0,
            r@.subscribed_authors.len() == 0,
            r@.subscribed_channels.len() == 0,
            cred_wf(r@),
    {
        let r = Credentials {
            secret_key_bech32: String::new(),
            public_key_bech32: String::new(),
            relays: Vec::new(),
            metadata: Metadata::empty(),
            contacts: Vec::new(),
            subscribed_pubkeys: Vec::new(),
            subscribed_authors: Vec::new(),
            subscribed_channels: Vec::new(),
        };
        proof {
            assert(r@.relays =~= Seq::<RelayView>::empty());
            assert(r@.contacts =~= Seq::<ContactView>::empty());
            assert(r@.subscribed_pubkeys =~= Seq::<Seq<u8>>::empty());
            assert(r@.subscribed_authors =~= Seq::<Seq<u8>>::empty());
            assert(r@.subscribed_channels =~= Seq::<Seq<u8>>::empty());
        }
        r
    }

    /// Whether this key is in the watched-authors set.
    pub fn is_subscribed_author(&self, key: &Pubkey) -> (r: bool)
        ensures
            r == self@.subscribed_authors.contains(key@),
    {
        set_contains(&self.subscribed_authors, key)
    }

    /// A copy whose secret key reads `***`; everything else is kept. The
    /// redacted copy is what may be logged or displayed.
    pub fn redacted(&self) -> (r: Credentials)
        ensures
            r@.secret_key == "***"@,
            r@.public_key == self@.public_key,
            r@.relays == self@.relays,
            r@.metadata == self@.metadata,
            r@.contacts == self@.contacts,
            r@.subscribed_pubkeys == self@.subscribed_pubkeys,
            r@.subscribed_authors == self@.subscribed_authors,
            r@.subscribed_channels == self@.subscribed_channels,
    {
        let mut copy = self.clone();
        copy.secret_key_bech32 = secret_placeholder();
        copy
    }
}

/// Guards user creation: a credential file that already exists, valid or
/// not, blocks the creation of a fresh identity.
pub fn create_user_guard(file_exists: bool) -> (r: Result<(), Error>)
    ensures
        file_exists ==> r == Result::<(), Error>::Err(Error::UserAlreadyExists),
        !file_exists ==> r == Result::<(), Error>::Ok(()),
{
    if file_exists {
        Err(Error::UserAlreadyExists)
    } else {
        Ok(())
    }
}

/// The destination of a channel-send command: the channel key from the first
/// argument, and the relay to use — the first explicitly given relay, else
/// the first stored relay; with neither, the command lacks its parameters.
pub fn channel_target(
    args: &Vec<String>,
    relay_args: &Vec<String>,
    relays: &Vec<Relay>,
) -> (r: Result<(Pubkey, String), Error>)
    ensures
        args@.len() < 2 ==> r == Result::<(Pubkey, String), Error>::Err(
            Error::MissingCliParameter,
        ),
        args@.len() >= 2 ==> match decode_spec(args@[0]@) {
            Option::None => r == Result::<(Pubkey, String), Error>::Err(Error::InvalidKey),
            Option::Some(b) => match r {
                Ok(p) => p.0@ == b && p.0.wf() && (if relay_args@.len() > 0 {
                    p.1@ == relay_args@[0]@
                } else {
                    relays@.len() > 0 && p.1@ == relays@[0]@.url
                }),
                Err(e) => relay_args@.len() == 0 && relays@.len() == 0 && e
                    == Error::MissingCliParameter,
            },
        },
{
    if args.len() < 2 {
        return Err(Error::MissingCliParameter);
    }
    let key = match decode(args[0].as_str()) {
        Ok(p) => p,
        Err(e) => {
            return Err(e);
        },
    };
    if relay_args.len() > 0 {
        Ok((key, relay_args[0].clone()))
    } else if relays.len() > 0 {
        Ok((key, relays[0].url.clone()))
    } else {
        Err(Error::MissingCliParameter)
    }
}

/// The placeholder that stands for the secret key in logs.
pub fn secret_placeholder() -> (r: String)
    ensures
        r@ == "***"@,
{
    let s = "***";
    String::from_str(s)
}

impl Default for Credentials {
    /// The same fresh state as `new`.
    fn default() -> (r: Credentials)
        ensures
            r@.secret_key.len() == 0,
            r@.public_key.len() == 0,
            r@.relays.len() == 0,
            r@.contacts.len() == 0,
            r@.subscribed_pubkeys.len() == 0,
            r@.subscribed_authors.len() == 0,
            r@.subscribed_channels.len() == 0,
    {
        Credentials::new()
    }
}

impl Clone for Credentials {
    fn clone(&self) -> (r: Self)
        ensures
            r@ == self@,
    {
        Credentials {
            secret_key_bech32: self.secret_key_bech32.clone(),
            public_key_bech32: self.public_key_bech32.clone(),
            relays: clone_relays(&self.relays),
            metadata: self.metadata.clone(),
            contacts: clone_contacts(&self.contacts),
            subscribed_pubkeys: clone_keys(&self.subscribed_pubkeys),
            subscribed_authors: clone_keys(&self.subscribed_authors),
            subscribed_channels: clone_keys(&self.subscribed_channels),
        }
    }
}

impl Clone for Metadata {
    fn clone(&self) -> (r: Self)
        ensures
            r@ == self@,
    {
        Metadata {
            name: crate::relay::clone_opt_string(&self.name),
            display_name: crate::relay::clone_opt_string(&self.display_name),
            about: crate::relay::clone_opt_string(&self.about),
            picture: crate::relay::clone_opt_string(&self.picture),
            nip05: crate::relay::clone_opt_string(&self.nip05),
        }
    }
}

/// A copy of a relay list, value for value.
pub fn clone_relays(rs: &Vec<Relay>) -> (r: Vec<Relay>)
    ensures
        relays_view(r@) == relays_view(rs@),
{
    let n = rs.len();
    let mut out: Vec<Relay> = Vec::new();
    let mut i: usize = 0;
    while i < n
        invariant
            i <= n,
            n == rs@.len(),
            relays_view(out@) == relays_view(rs@).subrange(0, i as int),
        decreases n - i,
    {
        let ghost before = out@;
        let x = rs[i].clone();
        proof {
            assert(x@ == rs@[i as int]@);
        }
        out.push(x);
        proof {
            assert(out@ == before.push(x));
            assert(relays_view(out@) =~= relays_view(before).push(x@));
            assert(relays_view(rs@).subrange(0, i + 1 as int) =~= relays_view(rs@).subrange(
                0,
                i as int,
            ).push(rs@[i as int]@));
        }
        i = i + 1;
    }
    proof {
        assert(relays_view(out@) =~= relays_view(rs@));
    }
    out
}

/// A copy of a contact list, value for value.
pub fn clone_contacts(cs: &Vec<ContactEntry>) -> (r: Vec<ContactEntry>)
    ensures
        contacts_view(r@) == contacts_view(cs@),
{
    let n = cs.len();
    let mut out: Vec<ContactEntry> = Vec::new();
    let mut i: usize = 0;
    while i < n
        invariant
            i <= n,
            n == cs@.len(),
            contacts_view(out@) == contacts_view(cs@).subrange(0, i as int),
        decreases n - i,
    {
        let ghost before = out@;
        let x = cs[i].clone();
        out.push(x);
        proof {
            assert(contacts_view(out@) =~= contacts_view(before).push(cs@[i as int]@));
            assert(contacts_view(cs@).subrange(0, i + 1 as int) =~= contacts_view(cs@).subrange(
                0,
                i as int,
            ).push(cs@[i as int]@));
        }
        i = i + 1;
    }
    proof {
        assert(contacts_view(out@) =~= contacts_view(cs@));
    }
    out
}

/// A copy of a key set, value for value.
pub fn clone_keys(ks: &Vec<Pubkey>) -> (r: Vec<Pubkey>)
    ensures
        keys_view(r@) == keys_view(ks@),
{
    let n = ks.len();
    let mut out: Vec<Pubkey> = Vec::new();
    let mut i: usize = 0;
    while i < n
        invariant
            i <= n,
            n == ks@.len(),
            keys_view(out@) == keys_view(ks@).subrange(0, i as int),
        decreases n - i,
    {
        let ghost before = out@;
        let x = ks[i].clone();
        out.push(x);
        proof {
            assert(keys_view(out@) =~= keys_view(before).push(ks@[i as int]@));
            assert(keys_view(ks@).subrange(0, i + 1 as int) =~= keys_view(ks@).subrange(
                0,
                i as int,
            ).push(ks@[i as int]@));
        }
        i = i + 1;
    }
    proof {
        assert(keys_view(out@) =~= keys_view(ks@));
    }
    out
}

} // verus!
