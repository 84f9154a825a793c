use nostr_commander::filter::{build, FilterTarget, Limits};
use nostr_commander::keys::{decode, Pubkey};

const HEX: &str = "aa4fc8665f5696e33db7e1a572e3b0f5b3d615837b0f362dcb1c8068b098c7b4";

fn no_limits() -> Limits {
    Limits { count: 0, since_days: 0, since_hours: 0, until_future_days: 0, until_future_hours: 0 }
}

#[test]
fn since_days_sets_the_lower_bound() {
    let keys: Vec<Pubkey> = vec![decode(HEX).unwrap()];
    let now: u64 = 1_700_000_000;
    let mut l = no_limits();
    l.since_days = 1;
    let f = build(&keys, FilterTarget::Keys, &l, now);
    assert_eq!(f.since.unwrap(), now - 86_400);
    assert_eq!(f.until, None);
    assert_eq!(f.limit, None);
    assert_eq!(f.keys.len(), 1);
    assert_eq!(f.target, FilterTarget::Keys);
}

#[test]
fn zero_count_means_no_cap() {
    let keys: Vec<Pubkey> = Vec::new();
    let f = build(&keys, FilterTarget::Authors, &no_limits(), 1_700_000_000);
    assert_eq!(f.limit, None);
    assert_eq!(f.since, None);
    assert_eq!(f.until, None);
}

#[test]
fn count_caps_the_results() {
    let keys: Vec<Pubkey> = Vec::new();
    let mut l = no_limits();
    l.count = 25;
    let f = build(&keys, FilterTarget::Channels, &l, 0);
    assert_eq!(f.limit.unwrap(), 25);
}

#[test]
fn hours_overwrite_days_in_sequence() {
    let keys: Vec<Pubkey> = Vec::new();
    let now: u64 = 1_700_000_000;
    let mut l = no_limits();
    l.since_days = 2;
    l.since_hours = 3;
    let f = build(&keys, FilterTarget::Keys, &l, now);
    assert_eq!(f.since.unwrap(), now - 3 * 3600);
}

#[test]
fn future_bounds_lie_after_now() {
    let keys: Vec<Pubkey> = Vec::new();
    let now: u64 = 1_700_000_000;
    let mut l = no_limits();
    l.until_future_days = 1;
    let f = build(&keys, FilterTarget::Keys, &l, now);
    assert_eq!(f.until.unwrap(), now + 86_400);
    let mut lh = no_limits();
    lh.until_future_hours = 2;
    let g = build(&keys, FilterTarget::Keys, &lh, now);
    assert_eq!(g.until.unwrap(), now + 7_200);
}

#[test]
fn early_times_saturate_at_zero() {
    let keys: Vec<Pubkey> = Vec::new();
    let mut l = no_limits();
    l.since_days = 10;
    let f = build(&keys, FilterTarget::Keys, &l, 100);
    assert_eq!(f.since.unwrap(), 0);
}
