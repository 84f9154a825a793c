//! Relay endpoints: a websocket URL plus an optional proxy address, kept
//! deduplicated by URL.

use vstd::prelude::*;

use crate::errors::Error;
use crate::text::opt_str_view;
use crate::text::str_eq;

verus! {

/// What parsing a URL text yields: its scheme and whether it has a host, or
/// nothing when the text is not a URL. Decided by the URL parser of the
/// underlying library.
pub uninterp spec fn url_parts(s: Seq<char>) -> Option<(Seq<char>, bool)>;

/// Relies on `url::Url::parse` (re-exported by the Nostr library): parsing is
/// a pure function of the text; of a parsed URL, `scheme()` gives the scheme
/// and `host_str()` says whether a host is present.
#[verifier::external_body]
fn parse_url_parts(s: &str) -> (r: Option<(String, bool)>)
    ensures
        match r {
            Some(p) => url_parts(s@) == Some((p.0@, p.1)),
            None => url_parts(s@) is None,
        },
{
    match nostr_sdk::prelude::Url::parse(s) {
        Ok(u) => Some((u.scheme().to_string(), u.host_str().is_some())),
        Err(_) => None,
    }
}

/// True of texts that name a relay: a URL of one of the two websocket
/// schemes, with a host.
pub open spec fn is_relay_text_spec(s: Seq<char>) -> bool {
    match url_parts(s) {
        Some(p) => (p.0 == "wss"@ || p.0 == "ws"@) && p.1,
        None => false,
    }
}

/// Is this syntactically a valid relay URL?
pub fn is_relay_text(s: &str) -> (r: bool)
    ensures
        r == is_relay_text_spec(s@),
{
    match parse_url_parts(s) {
        Some(p) => (str_eq(p.0.as_str(), "wss") || str_eq(p.0.as_str(), "ws")) && p.1,
        None => false,
    }
}

/// A relay endpoint as it is persisted: URL and optional proxy address.
#[derive(Debug)]
pub struct Relay {
    pub url: String,
    pub proxy: Option<String>,
}

/// The mathematical value of a relay endpoint.
pub struct RelayView {
    pub url: Seq<char>,
    pub proxy: Option<Seq<char>>,
}

impl View for Relay {
    type V = RelayView;

    open spec fn view(&self) -> RelayView {
        RelayView { url: self.url@, proxy: opt_str_view(&self.proxy) }
    }
}

impl Clone for Relay {
    fn clone(&self) -> (r: Self)
        ensures
            r@ == self@,
    {
        Relay { url: self.url.clone(), proxy: clone_opt_string(&self.proxy) }
    }
}

/// A copy of an optional string.
pub fn clone_opt_string(o: &Option<String>) -> (r: Option<String>)
    ensures
        opt_str_view(&r) == opt_str_view(o),
{
    match o {
        Some(s) => Some(s.clone()),
        None => None,
    }
}

/// True when some endpoint of the list has this URL.
pub open spec fn has_url(rs: Seq<RelayView>, u: Seq<char>) -> bool {
    exists|i: int| 0 <= i < rs.len() && rs[i].url == u
}

/// The views of a relay list.
pub open spec fn relays_view(rs: Seq<Relay>) -> Seq<RelayView> {
    rs.map_values(|r: Relay| r@)
}

/// Whether the list already holds an endpoint with this URL.
pub fn contains_url(rs: &Vec<Relay>, url: &str) -> (r: bool)
    ensures
        r == has_url(relays_view(rs@), url@),
{
    let n = rs.len();
    let mut i: usize = 0;
    while i < n
        invariant
            i <= n,
            n == rs@.len(),
            forall|j: int| 0 <= j < i ==> relays_view(rs@)[j].url != url@,
        decreases n - i,
    {
        if str_eq(rs[i].url.as_str(), url) {
            proof {
                assert(relays_view(rs@)[i as int].url == url@);
            }
            return true;
        }
        i = i + 1;
    }
    false
}

/// Adds one relay: rejected when the text is not a relay URL; ignored when an
/// endpoint with the same URL is already present; appended otherwise.
pub fn add_relay(rs: &mut Vec<Relay>, url: &str, proxy: Option<String>) -> (r: Result<(), Error>)
    ensures
        !is_relay_text_spec(url@) ==> r == Result::<(), Error>::Err(Error::AddRelayFailed)
            && relays_view(final(rs)@) == relays_view(old(rs)@),
        is_relay_text_spec(url@) && has_url(relays_view(old(rs)@), url@) ==> r == Result::<
            (),
            Error,
        >::Ok(()) && relays_view(final(rs)@) == relays_view(old(rs)@),
        is_relay_text_spec(url@) && !has_url(relays_view(old(rs)@), url@) ==> r == Result::<
            (),
            Error,
        >::Ok(()) && relays_view(final(rs)@) == relays_view(old(rs)@).push(
            RelayView { url: url@, proxy: opt_str_view(&proxy) },
        ),
{
    if !is_relay_text(url) {
        return Err(Error::AddRelayFailed);
    }
    if contains_url(rs, url) {
        return Ok(());
    }
    let entry = Relay { url: url.to_owned(), proxy };
    rs.push(entry);
    proof {
        assert(relays_view(rs@) =~= relays_view(old(rs)@).push(
            RelayView { url: url@, proxy: opt_str_view(&proxy) },
        ));
    }
    Ok(())
}

/// What a batch of relay additions leaves in the list, and how many of the
/// batch were rejected.
pub open spec fn add_relays_spec(
    rs: Seq<RelayView>,
    urls: Seq<Seq<char>>,
    proxy: Option<Seq<char>>,
) -> (Seq<RelayView>, nat)
    decreases urls.len(),
{
    if urls.len() == 0 {
        (rs, 0)
    } else {
        let u = urls[0];
        let step = if !is_relay_text_spec(u) {
            (rs, 1nat)
        } else if has_url(rs, u) {
            (rs, 0nat)
        } else {
            (rs.push(RelayView { url: u, proxy }), 0nat)
        };
        let rest = add_relays_spec(step.0, urls.skip(1), proxy);
        (rest.0, (step.1 + rest.1) as nat)
    }
}

/// Adds a batch of relays; every item is attempted, the syntactically
/// invalid ones are counted, and the batch reports an aggregated error
/// exactly when at least one item was rejected.
pub fn add_relays(rs: &mut Vec<Relay>, urls: &Vec<String>, proxy: &Option<String>) -> (r: Result<
    (),
    Error,
>)
    ensures
        relays_view(final(rs)@) == add_relays_spec(
            relays_view(old(rs)@),
            urls@.map_values(|u: String| u@),
            opt_str_view(proxy),
        ).0,
        r matches Ok(_) <==> add_relays_spec(
            relays_view(old(rs)@),
            urls@.map_values(|u: String| u@),
            opt_str_view(proxy),
        ).1 == 0,
        r matches Err(e) ==> e == Error::AddRelayFailed,
{
    let ghost us = urls@.map_values(|u: String| u@);
    let ghost pv = opt_str_view(proxy);
    let n = urls.len();
    let mut errs: usize = 0;
    let mut i: usize = 0;
    proof {
        assert(us.skip(0) =~= us);
    }
    while i < n
        invariant
            i <= n,
            n == urls@.len(),
            us == urls@.map_values(|u: String| u@),
            pv == opt_str_view(proxy),
            errs <= i,
            add_relays_spec(relays_view(old(rs)@), us, pv) == {
                let rest = add_relays_spec(relays_view(rs@), us.skip(i as int), pv);
                (rest.0, (errs + rest.1) as nat)
            },
        decreases n - i,
    {
        let ghost before = relays_view(rs@);
        let outcome = add_relay(rs, urls[i].as_str(), clone_opt_string(proxy));
        if outcome.is_err() {
            errs = errs + 1;
        }
        proof {
            assert(us.skip(i as int)[0] == us[i as int]);
            assert(us.skip(i as int).skip(1) =~= us.skip(i + 1 as int));
        }
        i = i + 1;
    }
    proof {
        assert(us.skip(n as int) =~= Seq::<Seq<char>>::empty());
    }
    if errs == 0 {
        Ok(())
    } else {
        Err(Error::AddRelayFailed)
    }
}

/// Removes every endpoint whose URL equals one of the given URLs.
pub fn remove_relays(rs: &mut Vec<Relay>, urls: &Vec<String>)
    ensures
        relays_view(final(rs)@) == relays_view(old(rs)@).filter(
            |rv: RelayView| !urls@.map_values(|u: String| u@).contains(rv.url),
        ),
{
    let ghost us = urls@.map_values(|u: String| u@);
    let ghost pred = |rv: RelayView| !us.contains(rv.url);
    let n = rs.len();
    let mut out: Vec<Relay> = Vec::new();
    let mut i: usize = 0;
    proof {
        assert(relays_view(rs@).subrange(0, 0).filter(pred) =~= Seq::<RelayView>::empty());
        assert(relays_view(out@) =~= Seq::<RelayView>::empty());
    }
    while i < n
        invariant
            i <= n,
            n == rs@.len(),
            us == urls@.map_values(|u: String| u@),
            pred == (|rv: RelayView| !us.contains(rv.url)),
            relays_view(out@) == relays_view(rs@).subrange(0, i as int).filter(pred),
        decreases n - i,
    {
        let keep = !url_listed(urls, rs[i].url.as_str());
        proof {
            let pre = relays_view(rs@).subrange(0, i as int);
            crate::text::lemma_filter_one(pre, relays_view(rs@)[i as int], pred);
            assert(pre + seq![relays_view(rs@)[i as int]] =~= relays_view(rs@).subrange(
                0,
                i + 1 as int,
            ));
        }
        if keep {
            out.push(rs[i].clone());
            proof {
                assert(relays_view(out@) =~= relays_view(rs@).subrange(0, i + 1 as int).filter(
                    pred,
                ));
            }
        } else {
            proof {
                assert(relays_view(out@) =~= relays_view(rs@).subrange(0, i + 1 as int).filter(
                    pred,
                ));
            }
        }
        i = i + 1;
    }
    proof {
        assert(relays_view(rs@).subrange(0, n as int) =~= relays_view(rs@));
    }
    *rs = out;
}

/// Whether one of the given texts equals this URL.
fn url_listed(urls: &Vec<String>, u: &str) -> (r: bool)
    ensures
        r == urls@.map_values(|x: String| x@).contains(u@),
{
    let n = urls.len();
    let mut i: usize = 0;
    while i < n
        invariant
            i <= n,
            n == urls@.len(),
            forall|j: int| 0 <= j < i ==> #[trigger] urls@[j]@ != u@,
        decreases n - i,
    {
        if str_eq(urls[i].as_str(), u) {
            proof {
                assert(urls@.map_values(|x: String| x@)[i as int] == u@);
            }
            return true;
        }
        i = i + 1;
    }
    proof {
        let mapped = urls@.map_values(|x: String| x@);
        assert forall|j: int| 0 <= j < mapped.len() implies mapped[j] != u@ by {
            assert(urls@[j]@ != u@);
        }
    }
    false
}

} // verus!
