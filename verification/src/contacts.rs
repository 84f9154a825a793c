//! The contact directory: alias to public key and public key to alias lookup
//! over the contact list, with the alias-uniqueness rule for additions.

use vstd::prelude::*;

use crate::errors::Error;
use crate::keys::decode;
use crate::keys::decode_spec;
use crate::keys::hex_of;
use crate::keys::bytes_eq;
use crate::keys::Pubkey;
use crate::relay::is_relay_text;
use crate::relay::is_relay_text_spec;
use crate::relay::clone_opt_string;
use crate::text::lemma_filter_one;
use crate::text::opt_str_view;
use crate::text::str_eq;
use crate::text::trim_spec;
use crate::text::trim_string;

verus! {

/// One entry of the contact list: a public key, an optional unique alias, and
/// an optional relay hint.
#[derive(Debug)]
pub struct ContactEntry {
    pub public_key: Pubkey,
    pub alias: Option<String>,
    pub relay_hint: Option<String>,
}

/// The mathematical value of a contact entry.
pub struct ContactView {
    pub key: Seq<u8>,
    pub alias: Option<Seq<char>>,
    pub relay_hint: Option<Seq<char>>,
}

impl View for ContactEntry {
    type V = ContactView;

    open spec fn view(&self) -> ContactView {
        ContactView {
            key: self.public_key@,
            alias: opt_str_view(&self.alias),
            relay_hint: opt_str_view(&self.relay_hint),
        }
    }
}

impl Clone for ContactEntry {
    fn clone(&self) -> (r: Self)
        ensures
            r@ == self@,
    {
        ContactEntry {
            public_key: self.public_key.clone(),
            alias: clone_opt_string(&self.alias),
            relay_hint: clone_opt_string(&self.relay_hint),
        }
    }
}

/// The views of a contact list.
pub open spec fn contacts_view(cs: Seq<ContactEntry>) -> Seq<ContactView> {
    cs.map_values(|c: ContactEntry| c@)
}

/// Every key of the list is well formed.
pub open spec fn contacts_wf(cs: Seq<ContactView>) -> bool {
    forall|i: int| 0 <= i < cs.len() ==> (#[trigger] cs[i]).key.len() == 32
        && crate::keys::is_curve_point(cs[i].key)
}

/// The first entry carrying this alias, if any.
pub open spec fn by_alias_spec(cs: Seq<ContactView>, a: Seq<char>) -> Option<ContactView>
    decreases cs.len(),
{
    if cs.len() == 0 {
        None
    } else if cs[0].alias == Some(a) {
        Some(cs[0])
    } else {
        by_alias_spec(cs.skip(1), a)
    }
}

/// The first entry carrying this key, if any.
pub open spec fn by_key_spec(cs: Seq<ContactView>, k: Seq<u8>) -> Option<ContactView>
    decreases cs.len(),
{
    if cs.len() == 0 {
        None
    } else if cs[0].key == k {
        Some(cs[0])
    } else {
        by_key_spec(cs.skip(1), k)
    }
}

/// What a lookup returns is an entry of the list.
pub proof fn lemma_by_alias_in(cs: Seq<ContactView>, a: Seq<char>)
    requires
        by_alias_spec(cs, a) is Some,
    ensures
        cs.contains(by_alias_spec(cs, a)->Some_0),
    decreases cs.len(),
{
    if cs.len() > 0 && cs[0].alias != Some(a) {
        lemma_by_alias_in(cs.skip(1), a);
        let c = by_alias_spec(cs, a)->Some_0;
        let i = choose|i: int| 0 <= i < cs.skip(1).len() && cs.skip(1)[i] == c;
        assert(cs[i + 1] == c);
    }
}

/// What a key lookup returns is an entry of the list.
pub proof fn lemma_by_key_in(cs: Seq<ContactView>, k: Seq<u8>)
    requires
        by_key_spec(cs, k) is Some,
    ensures
        cs.contains(by_key_spec(cs, k)->Some_0),
    decreases cs.len(),
{
    if cs.len() > 0 && cs[0].key != k {
        lemma_by_key_in(cs.skip(1), k);
        let c = by_key_spec(cs, k)->Some_0;
        let i = choose|i: int| 0 <= i < cs.skip(1).len() && cs.skip(1)[i] == c;
        assert(cs[i + 1] == c);
    }
}

/// The first contact whose alias equals `alias`, if any.
pub fn by_alias(cs: &Vec<ContactEntry>, alias: &str) -> (r: Option<ContactEntry>)
    ensures
        match r {
            Some(c) => by_alias_spec(contacts_view(cs@), alias@) == Some(c@),
            None => by_alias_spec(contacts_view(cs@), alias@) is None,
        },
{
    let ghost v = contacts_view(cs@);
    let n = cs.len();
    let mut i: usize = 0;
    proof {
        assert(v.skip(0) =~= v);
    }
    while i < n
        invariant
            i <= n,
            n == cs@.len(),
            v == contacts_view(cs@),
            by_alias_spec(v, alias@) == by_alias_spec(v.skip(i as int), alias@),
        decreases n - i,
    {
        let matched = match &cs[i].alias {
            Some(s) => str_eq(s.as_str(), alias),
            None => false,
        };
        proof {
            assert(v.skip(i as int)[0] == v[i as int]);
            assert(v.skip(i as int).skip(1) =~= v.skip(i + 1 as int));
        }
        if matched {
            return Some(cs[i].clone());
        }
        i = i + 1;
    }
    proof {
        assert(v.skip(n as int) =~= Seq::<ContactView>::empty());
    }
    None
}

/// The first contact whose key equals `key`, if any.
pub fn by_key(cs: &Vec<ContactEntry>, key: &Pubkey) -> (r: Option<ContactEntry>)
    ensures
        match r {
            Some(c) => by_key_spec(contacts_view(cs@), key@) == Some(c@),
            None => by_key_spec(contacts_view(cs@), key@) is None,
        },
{
    let ghost v = contacts_view(cs@);
    let n = cs.len();
    let mut i: usize = 0;
    proof {
        assert(v.skip(0) =~= v);
    }
    while i < n
        invariant
            i <= n,
            n == cs@.len(),
            v == contacts_view(cs@),
            by_key_spec(v, key@) == by_key_spec(v.skip(i as int), key@),
        decreases n - i,
    {
        let matched = bytes_eq(&cs[i].public_key.bytes, &key.bytes);
        proof {
            assert(v.skip(i as int)[0] == v[i as int]);
            assert(v.skip(i as int).skip(1) =~= v.skip(i + 1 as int));
        }
        if matched {
            return Some(cs[i].clone());
        }
        i = i + 1;
    }
    proof {
        assert(v.skip(n as int) =~= Seq::<ContactView>::empty());
    }
    None
}

/// The display text for a key: the alias of the contact owning it, or, when
/// no contact owns it or the owner has no alias, the key's canonical
/// (hexadecimal) form.
pub open spec fn alias_or_key_spec(cs: Seq<ContactView>, k: Seq<u8>) -> Seq<char> {
    match by_key_spec(cs, k) {
        Some(c) => match c.alias {
            Some(a) => a,
            None => hex_of(k),
        },
        None => hex_of(k),
    }
}

/// The alias for the key if a contact owns it, else the key's canonical
/// hexadecimal form.
pub fn alias_or_keystr_by_key(cs: &Vec<ContactEntry>, key: &Pubkey) -> (r: String)
    ensures
        r@ == alias_or_key_spec(contacts_view(cs@), key@),
{
    match by_key(cs, key) {
        Some(c) => match c.alias {
            Some(a) => a,
            None => key.to_hex(),
        },
        None => key.to_hex(),
    }
}

/// The alias for the key if a contact owns one, else nothing.
pub fn alias_by_key(cs: &Vec<ContactEntry>, key: &Pubkey) -> (r: Option<String>)
    ensures
        opt_str_view(&r) == (match by_key_spec(contacts_view(cs@), key@) {
            Some(c) => c.alias,
            None => None,
        }),
{
    match by_key(cs, key) {
        Some(c) => c.alias,
        None => None,
    }
}

/// The display text for a key given as text: the alias-or-key form of its
/// decoding, or the text itself when it is no valid key.
pub open spec fn resolve_display_spec(cs: Seq<ContactView>, t: Seq<char>) -> Seq<char> {
    match decode_spec(t) {
        Some(b) => alias_or_key_spec(cs, b),
        None => t,
    }
}

/// The display-resolution function over a fixed contact list, as a function
/// value.
pub open spec fn display_map(cs: Seq<ContactView>) -> spec_fn(Seq<char>) -> Seq<char> {
    |t: Seq<char>| resolve_display_spec(cs, t)
}

/// The display text for a key given as text: decoded and resolved as above;
/// text that is no valid key displays as itself.
pub fn alias_or_keystr_by_keystr(cs: &Vec<ContactEntry>, s: &str) -> (r: String)
    ensures
        r@ == resolve_display_spec(contacts_view(cs@), s@),
{
    match decode(s) {
        Ok(p) => alias_or_keystr_by_key(cs, &p),
        Err(_) => s.to_owned(),
    }
}

/// What resolving a token yields: the key of the contact carrying the token
/// as alias, else the token decoded as a key.
pub open spec fn resolve_spec(cs: Seq<ContactView>, t: Seq<char>) -> Option<Seq<u8>> {
    match by_alias_spec(cs, t) {
        Some(c) => Some(c.key),
        None => decode_spec(t),
    }
}

/// Resolves a token: first as a contact alias, then as a key in either
/// textual form.
pub fn resolve(cs: &Vec<ContactEntry>, token: &str) -> (r: Result<Pubkey, Error>)
    requires
        contacts_wf(contacts_view(cs@)),
    ensures
        match r {
            Ok(p) => resolve_spec(contacts_view(cs@), token@) == Some(p@) && p.wf(),
            Err(e) => resolve_spec(contacts_view(cs@), token@) is None && e == Error::InvalidKey,
        },
{
    match by_alias(cs, token) {
        Some(c) => {
            proof {
                lemma_by_alias_in(contacts_view(cs@), token@);
                let cv = by_alias_spec(contacts_view(cs@), token@)->Some_0;
                let i = choose|i: int|
                    0 <= i < contacts_view(cs@).len() && contacts_view(cs@)[i] == cv;
                assert(contacts_wf(contacts_view(cs@)));
                assert(contacts_view(cs@)[i].key.len() == 32);
            }
            Ok(c.public_key)
        },
        None => decode(token),
    }
}

/// The recipient of a direct-message command: the first argument, trimmed,
/// resolved as an alias or key; at least one message argument must follow.
pub fn dm_recipient(cs: &Vec<ContactEntry>, args: &Vec<String>) -> (r: Result<Pubkey, Error>)
    requires
        contacts_wf(contacts_view(cs@)),
    ensures
        args@.len() < 2 ==> r == Result::<Pubkey, Error>::Err(Error::MissingCliParameter),
        args@.len() >= 2 ==> match r {
            Ok(p) => resolve_spec(contacts_view(cs@), trim_spec(args@[0]@)) == Some(p@) && p.wf(),
            Err(e) => resolve_spec(contacts_view(cs@), trim_spec(args@[0]@)) is None && e
                == Error::InvalidKey,
        },
{
    if args.len() < 2 {
        return Err(Error::MissingCliParameter);
    }
    let token = trim_string(args[0].as_str());
    resolve(cs, token.as_str())
}

/// A lookup by a public key that no contact of the list owns displays the
/// key's own canonical (hexadecimal) form, never an alias.
pub proof fn lemma_unknown_key_displays_itself(cs: Seq<ContactView>, k: Seq<u8>)
    requires
        forall|i: int| 0 <= i < cs.len() ==> (#[trigger] cs[i]).key != k,
    ensures
        alias_or_key_spec(cs, k) == hex_of(k),
    decreases cs.len(),
{
    if cs.len() > 0 {
        assert(cs[0].key != k);
        assert forall|i: int| 0 <= i < cs.skip(1).len() implies (#[trigger] cs.skip(1)[i]).key
            != k by {
            assert(cs.skip(1)[i] == cs[i + 1]);
        }
        lemma_unknown_key_displays_itself(cs.skip(1), k);
    }
}

/// Why adding one contact was refused.
#[derive(Clone, Copy, Debug, PartialEq, Eq, Structural)]
pub enum AddContactError {
    /// The alias is empty after trimming.
    EmptyAlias,
    /// Another contact already carries this alias.
    DuplicateAlias,
    /// The relay hint is not a syntactically valid relay URL.
    InvalidRelayHint,
    /// The key is valid in neither textual form.
    InvalidKey,
}

/// What adding one contact leaves in the list, and the reason if it was
/// refused. A refused addition leaves the list unchanged.
pub open spec fn add_contact_spec(
    cs: Seq<ContactView>,
    alias: Seq<char>,
    key: Seq<char>,
    relay: Seq<char>,
) -> (Seq<ContactView>, Option<AddContactError>) {
    let a = trim_spec(alias);
    if a.len() == 0 {
        (cs, Some(AddContactError::EmptyAlias))
    } else if by_alias_spec(cs, a) is Some {
        (cs, Some(AddContactError::DuplicateAlias))
    } else if !is_relay_text_spec(relay) {
        (cs, Some(AddContactError::InvalidRelayHint))
    } else {
        match decode_spec(key) {
            Some(b) => (
                cs.push(ContactView { key: b, alias: Some(a), relay_hint: Some(relay) }),
                None,
            ),
            None => (cs, Some(AddContactError::InvalidKey)),
        }
    }
}

/// Adds one contact; refused, with the list untouched, when the trimmed
/// alias is empty or already taken, the relay hint is invalid, or the key is
/// invalid.
pub fn add_contact(cs: &mut Vec<ContactEntry>, alias: &str, key: &str, relay: &str) -> (r: Result<
    (),
    AddContactError,
>)
    ensures
        contacts_view(final(cs)@) == add_contact_spec(
            contacts_view(old(cs)@),
            alias@,
            key@,
            relay@,
        ).0,
        match r {
            Ok(_) => add_contact_spec(contacts_view(old(cs)@), alias@, key@, relay@).1 is None,
            Err(e) => add_contact_spec(contacts_view(old(cs)@), alias@, key@, relay@).1 == Some(e),
        },
        contacts_wf(contacts_view(old(cs)@)) ==> contacts_wf(contacts_view(final(cs)@)),
{
    let trimmed = trim_string(alias);
    if trimmed.as_str().is_empty() {
        return Err(AddContactError::EmptyAlias);
    }
    if by_alias(cs, trimmed.as_str()).is_some() {
        return Err(AddContactError::DuplicateAlias);
    }
    if !is_relay_text(relay) {
        return Err(AddContactError::InvalidRelayHint);
    }
    match decode(key) {
        Ok(p) => {
            let entry = ContactEntry {
                public_key: p,
                alias: Some(trimmed),
                relay_hint: Some(relay.to_owned()),
            };
            cs.push(entry);
            proof {
                let before = contacts_view(old(cs)@);
                assert(contacts_view(cs@) =~= add_contact_spec(
                    contacts_view(old(cs)@),
                    alias@,
                    key@,
                    relay@,
                ).0);
                if contacts_wf(before) {
                    assert forall|j: int| 0 <= j < contacts_view(cs@).len() implies (
                    #[trigger] contacts_view(cs@)[j]).key.len() == 32
                        && crate::keys::is_curve_point(contacts_view(cs@)[j].key) by {
                        if j < before.len() {
                            assert(contacts_view(cs@)[j] == before[j]);
                        }
                    }
                }
            }
            Ok(())
        },
        Err(_) => Err(AddContactError::InvalidKey),
    }
}

/// Adding a contact whose alias is already carried by some entry leaves the
/// list unchanged, in length and contents, and reports an error.
pub proof fn lemma_duplicate_alias_rejected(
    cs: Seq<ContactView>,
    alias: Seq<char>,
    key: Seq<char>,
    relay: Seq<char>,
)
    requires
        by_alias_spec(cs, trim_spec(alias)) is Some,
    ensures
        add_contact_spec(cs, alias, key, relay).0 == cs,
        add_contact_spec(cs, alias, key, relay).1 is Some,
{
}

/// What a batch of contact additions leaves in the list, and how many items
/// were refused.
pub open spec fn add_contacts_spec(
    cs: Seq<ContactView>,
    aliases: Seq<Seq<char>>,
    keys: Seq<Seq<char>>,
    relays: Seq<Seq<char>>,
) -> (Seq<ContactView>, nat)
    recommends
        aliases.len() == keys.len(),
        aliases.len() == relays.len(),
    decreases aliases.len(),
{
    if aliases.len() == 0 {
        (cs, 0)
    } else {
        let step = add_contact_spec(cs, aliases[0], keys[0], relays[0]);
        let e: nat = if step.1 is Some {
            1
        } else {
            0
        };
        let rest = add_contacts_spec(step.0, aliases.skip(1), keys.skip(1), relays.skip(1));
        (rest.0, (e + rest.1) as nat)
    }
}

/// Adds a batch of contacts. The three argument lists must have equal
/// length, else nothing changes; every item is attempted, refused items are
/// counted and skipped, and the batch reports an aggregated error exactly
/// when at least one item was refused.
pub fn add_contacts(
    cs: &mut Vec<ContactEntry>,
    aliases: &Vec<String>,
    keys: &Vec<String>,
    relays: &Vec<String>,
) -> (r: Result<(), Error>)
    ensures
        aliases@.len() != keys@.len() || aliases@.len() != relays@.len() ==> r == Result::<
            (),
            Error,
        >::Err(Error::MissingCliParameter) && contacts_view(final(cs)@) == contacts_view(
            old(cs)@,
        ),
        aliases@.len() == keys@.len() && aliases@.len() == relays@.len() ==> {
            let spec = add_contacts_spec(
                contacts_view(old(cs)@),
                aliases@.map_values(|s: String| s@),
                keys@.map_values(|s: String| s@),
                relays@.map_values(|s: String| s@),
            );
            contacts_view(final(cs)@) == spec.0 && (r matches Ok(_) <==> spec.1 == 0) && (
            r matches Err(e) ==> e == Error::SubscriptionFailed)
        },
        contacts_wf(contacts_view(old(cs)@)) ==> contacts_wf(contacts_view(final(cs)@)),
{
    let n = aliases.len();
    if keys.len() != n || relays.len() != n {
        return Err(Error::MissingCliParameter);
    }
    let ghost av = aliases@.map_values(|s: String| s@);
    let ghost kv = keys@.map_values(|s: String| s@);
    let ghost rv = relays@.map_values(|s: String| s@);
    let mut errs: usize = 0;
    let mut i: usize = 0;
    proof {
        assert(av.skip(0) =~= av);
        assert(kv.skip(0) =~= kv);
        assert(rv.skip(0) =~= rv);
    }
    while i < n
        invariant
            i <= n,
            n == aliases@.len(),
            n == keys@.len(),
            n == relays@.len(),
            av == aliases@.map_values(|s: String| s@),
            kv == keys@.map_values(|s: String| s@),
            rv == relays@.map_values(|s: String| s@),
            errs <= i,
            contacts_wf(contacts_view(old(cs)@)) ==> contacts_wf(contacts_view(cs@)),
            add_contacts_spec(contacts_view(old(cs)@), av, kv, rv) == {
                let rest = add_contacts_spec(
                    contacts_view(cs@),
                    av.skip(i as int),
                    kv.skip(i as int),
                    rv.skip(i as int),
                );
                (rest.0, (errs + rest.1) as nat)
            },
        decreases n - i,
    {
        let outcome = add_contact(cs, aliases[i].as_str(), keys[i].as_str(), relays[i].as_str());
        if outcome.is_err() {
            errs = errs + 1;
        }
        proof {
            assert(av.skip(i as int)[0] == av[i as int]);
            assert(kv.skip(i as int)[0] == kv[i as int]);
            assert(rv.skip(i as int)[0] == rv[i as int]);
            assert(av.skip(i as int).skip(1) =~= av.skip(i + 1 as int));
            assert(kv.skip(i as int).skip(1) =~= kv.skip(i + 1 as int));
            assert(rv.skip(i as int).skip(1) =~= rv.skip(i + 1 as int));
        }
        i = i + 1;
    }
    proof {
        assert(av.skip(n as int) =~= Seq::<Seq<char>>::empty());
    }
    if errs == 0 {
        Ok(())
    } else {
        Err(Error::SubscriptionFailed)
    }
}

/// True when the entry's alias equals one of the given aliases, trimmed.
pub open spec fn alias_listed(c: ContactView, aliases: Seq<Seq<char>>) -> bool {
    match c.alias {
        Some(a) => exists|i: int| 0 <= i < aliases.len() && trim_spec(aliases[i]) == a,
        None => false,
    }
}

/// Removes every contact whose alias equals one of the given aliases,
/// trimmed; idempotent, and keys without a matching alias stay.
pub fn remove_contacts(cs: &mut Vec<ContactEntry>, aliases: &Vec<String>)
    ensures
        contacts_view(final(cs)@) == contacts_view(old(cs)@).filter(
            |c: ContactView| !alias_listed(c, aliases@.map_values(|s: String| s@)),
        ),
{
    let ghost av = aliases@.map_values(|s: String| s@);
    let ghost pred = |c: ContactView| !alias_listed(c, av);
    let n = cs.len();
    let mut out: Vec<ContactEntry> = Vec::new();
    let mut i: usize = 0;
    proof {
        assert(contacts_view(cs@).subrange(0, 0).filter(pred) =~= Seq::<ContactView>::empty());
        assert(contacts_view(out@) =~= Seq::<ContactView>::empty());
    }
    while i < n
        invariant
            i <= n,
            n == cs@.len(),
            av == aliases@.map_values(|s: String| s@),
            pred == (|c: ContactView| !alias_listed(c, av)),
            contacts_view(out@) == contacts_view(cs@).subrange(0, i as int).filter(pred),
        decreases n - i,
    {
        let keep = match &cs[i].alias {
            Some(a) => !alias_in_list(aliases, a.as_str()),
            None => true,
        };
        proof {
            let cv = contacts_view(cs@)[i as int];
            if cv.alias is Some {
                let al = cv.alias->Some_0;
                if exists|j: int| 0 <= j < aliases@.len() && trim_spec((#[trigger] aliases@[j])@)
                    == al {
                    let j = choose|j: int|
                        0 <= j < aliases@.len() && trim_spec((#[trigger] aliases@[j])@) == al;
                    assert(av[j] == aliases@[j]@);
                    assert(alias_listed(cv, av));
                } else if alias_listed(cv, av) {
                    let j = choose|j: int| 0 <= j < av.len() && trim_spec(#[trigger] av[j]) == al;
                    assert(aliases@[j]@ == av[j]);
                    assert(false);
                }
            }
            assert(keep == pred(cv));
            let pre = contacts_view(cs@).subrange(0, i as int);
            lemma_filter_one(pre, contacts_view(cs@)[i as int], pred);
            assert(pre + seq![contacts_view(cs@)[i as int]] =~= contacts_view(cs@).subrange(
                0,
                i + 1 as int,
            ));
        }
        if keep {
            out.push(cs[i].clone());
        }
        proof {
            assert(contacts_view(out@) =~= contacts_view(cs@).subrange(0, i + 1 as int).filter(
                pred,
            ));
        }
        i = i + 1;
    }
    proof {
        assert(contacts_view(cs@).subrange(0, n as int) =~= contacts_view(cs@));
    }
    *cs = out;
}

/// Whether one of the given aliases, trimmed, equals this text.
fn alias_in_list(aliases: &Vec<String>, a: &str) -> (r: bool)
    ensures
        r == exists|i: int| 0 <= i < aliases@.len() && trim_spec((#[trigger] aliases@[i])@) == a@,
{
    let n = aliases.len();
    let mut i: usize = 0;
    while i < n
        invariant
            i <= n,
            n == aliases@.len(),
            forall|j: int| 0 <= j < i ==> trim_spec(#[trigger] aliases@[j]@) != a@,
        decreases n - i,
    {
        let t = trim_string(aliases[i].as_str());
        if str_eq(t.as_str(), a) {
            proof {
                assert(trim_spec(aliases@[i as int]@) == a@);
            }
            return true;
        }
        i = i + 1;
    }
    false
}

} // verus!
