//! Subscription-filter construction: a key set plus time-window and
//! count-limit options become one relay filter.

use vstd::prelude::*;

use crate::keys::Pubkey;
use crate::store::clone_keys;
use crate::store::keys_view;

verus! {

/// Which dimension of events the key set of a filter addresses.
#[derive(Clone, Copy, Debug, PartialEq, Eq, Structural)]
pub enum FilterTarget {
    /// Events tagged to one of the keys.
    Keys,
    /// Events authored by one of the keys.
    Authors,
    /// Events addressed to one of the channel keys.
    Channels,
}

/// The limit options of a subscription; a zero field means no constraint in
/// that dimension.
#[derive(Clone, Copy, Debug, PartialEq, Eq, Structural)]
pub struct Limits {
    pub count: usize,
    pub since_days: u64,
    pub since_hours: u64,
    pub until_future_days: u64,
    pub until_future_hours: u64,
}

/// A relay filter: the key set, what it addresses, and the optional result
/// cap and time window (seconds since the epoch).
pub struct EventFilter {
    pub keys: Vec<Pubkey>,
    pub target: FilterTarget,
    pub limit: Option<usize>,
    pub since: Option<u64>,
    pub until: Option<u64>,
}

/// Saturating product of seconds.
pub open spec fn sat_mul_spec(a: u64, b: u64) -> u64 {
    if a * b > u64::MAX {
        u64::MAX
    } else {
        (a * b) as u64
    }
}

/// `a` minus `b`, stopped at zero.
pub open spec fn sat_sub_spec(a: u64, b: u64) -> u64 {
    if b > a {
        0
    } else {
        (a - b) as u64
    }
}

/// `a` plus `b`, stopped at the largest value.
pub open spec fn sat_add_spec(a: u64, b: u64) -> u64 {
    if a + b > u64::MAX {
        u64::MAX
    } else {
        (a + b) as u64
    }
}

/// The lower time bound the limits ask for, at a given current time: hours
/// are applied after days, so when both are set the hours bound wins.
pub open spec fn since_spec(l: Limits, now: u64) -> Option<u64> {
    if l.since_hours != 0 {
        Some(sat_sub_spec(now, sat_mul_spec(l.since_hours, 3600)))
    } else if l.since_days != 0 {
        Some(sat_sub_spec(now, sat_mul_spec(l.since_days, 86400)))
    } else {
        None
    }
}

/// The upper time bound the limits ask for: an offset into the future from
/// the current time, hours applied after days.
pub open spec fn until_spec(l: Limits, now: u64) -> Option<u64> {
    if l.until_future_hours != 0 {
        Some(sat_add_spec(now, sat_mul_spec(l.until_future_hours, 3600)))
    } else if l.until_future_days != 0 {
        Some(sat_add_spec(now, sat_mul_spec(l.until_future_days, 86400)))
    } else {
        None
    }
}

/// Multiplies a count of days or hours by the seconds of one, without
/// overflow.
fn sat_mul(a: u64, b: u64) -> (r: u64)
    requires
        b > 0,
    ensures
        r == sat_mul_spec(a, b),
{
    if a > u64::MAX / b {
        proof {
            assert(a * b > u64::MAX) by (nonlinear_arith)
                requires
                    a > u64::MAX / b,
                    b > 0,
                    u64::MAX / b == u64::MAX as int / b as int,
            ;
        }
        u64::MAX
    } else {
        proof {
            assert(a * b <= u64::MAX) by (nonlinear_arith)
                requires
                    a <= u64::MAX / b,
                    b > 0,
                    u64::MAX / b == u64::MAX as int / b as int,
            ;
        }
        a * b
    }
}

/// Builds the filter for one subscription set: the filter is scoped to the
/// given keys and target; a non-zero count caps the number of results; a
/// non-zero since-days or since-hours sets the lower time bound that far
/// before `now`; a non-zero future-days or future-hours sets the upper time
/// bound that far after `now`. Zero fields leave their dimension
/// unconstrained.
pub fn build(keys: &Vec<Pubkey>, target: FilterTarget, limits: &Limits, now: u64) -> (r:
    EventFilter)
    ensures
        keys_view(r.keys@) == keys_view(keys@),
        r.target == target,
        r.limit == (if limits.count != 0 {
            Some(limits.count)
        } else {
            None::<usize>
        }),
        r.since == since_spec(*limits, now),
        r.until == until_spec(*limits, now),
{
    let limit = if limits.count != 0 {
        Some(limits.count)
    } else {
        None
    };
    let since = if limits.since_hours != 0 {
        Some(sat_sub(now, sat_mul(limits.since_hours, 3600)))
    } else if limits.since_days != 0 {
        Some(sat_sub(now, sat_mul(limits.since_days, 86400)))
    } else {
        None
    };
    let until = if limits.until_future_hours != 0 {
        Some(sat_add(now, sat_mul(limits.until_future_hours, 3600)))
    } else if limits.until_future_days != 0 {
        Some(sat_add(now, sat_mul(limits.until_future_days, 86400)))
    } else {
        None
    };
    EventFilter { keys: clone_keys(keys), target, limit, since, until }
}

/// Subtracts without going below zero.
fn sat_sub(a: u64, b: u64) -> (r: u64)
    ensures
        r == sat_sub_spec(a, b),
{
    if b > a {
        0
    } else {
        a - b
    }
}

/// Adds without going above the largest value.
fn sat_add(a: u64, b: u64) -> (r: u64)
    ensures
        r == sat_add_spec(a, b),
{
    if b > u64::MAX - a {
        u64::MAX
    } else {
        a + b
    }
}

} // verus!
