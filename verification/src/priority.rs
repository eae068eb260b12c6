//! The order in which endpoints are preferred.
//!
//! An endpoint whose last request failed or timed out ranks lowest, then one
//! with no known block height, then one with no measured latency. Among
//! measured endpoints the higher block height ranks higher, and at equal
//! heights the lower latency. Two endpoints that share a tier below the
//! measured one compare as `Less` both ways round.

use std::cmp::Ordering;

use vstd::prelude::*;

use crate::rpc_url::{RequestStatus, RpcUrl, RpcUrlView};

verus! {

/// Whether a request status says that the endpoint is unusable.
pub open spec fn is_down(status: Option<RequestStatus>) -> bool {
    status == Some(RequestStatus::Failure) || status == Some(RequestStatus::Timeout)
}

/// The tier of an endpoint: 0 when it is down, 1 when its block height is
/// unknown, 2 when its latency is unknown, 3 when it is fully measured.
pub open spec fn tier(u: RpcUrlView) -> int {
    if is_down(u.request_status) {
        0
    } else if u.height is None {
        1
    } else if u.latency is None {
        2
    } else {
        3
    }
}

/// How endpoint `a` compares with endpoint `b`; `Greater` means that `a` is
/// preferred.
pub open spec fn priority_order(a: RpcUrlView, b: RpcUrlView) -> Ordering {
    if tier(a) <= tier(b) && tier(a) < 3 {
        Ordering::Less
    } else if tier(b) < tier(a) {
        Ordering::Greater
    } else if a.height.unwrap() < b.height.unwrap() {
        Ordering::Less
    } else if a.height.unwrap() > b.height.unwrap() {
        Ordering::Greater
    } else if a.latency.unwrap() > b.latency.unwrap() {
        Ordering::Less
    } else if a.latency.unwrap() < b.latency.unwrap() {
        Ordering::Greater
    } else {
        Ordering::Equal
    }
}

/// The opposite of an ordering.
pub open spec fn reversed(o: Ordering) -> Ordering {
    match o {
        Ordering::Less => Ordering::Greater,
        Ordering::Equal => Ordering::Equal,
        Ordering::Greater => Ordering::Less,
    }
}

/// Whether endpoint `a` is strictly preferred to endpoint `b`.
#[verifier::opaque]
pub open spec fn outranks(a: RpcUrlView, b: RpcUrlView) -> bool {
    priority_order(a, b) == Ordering::Greater
}

fn status_is_down(status: Option<RequestStatus>) -> (down: bool)
    ensures
        down == is_down(status),
{
    match status {
        Some(RequestStatus::Failure) | Some(RequestStatus::Timeout) => true,
        _ => false,
    }
}

impl RpcUrl {
    /// Compares two endpoints by preference; `Greater` means that `self` is
    /// preferred to `other`.
    pub fn cmp(&self, other: &RpcUrl) -> (order: Ordering)
        ensures
            order == priority_order(self@, other@),
    {
        if status_is_down(self.request_status()) {
            return Ordering::Less;
        }
        if status_is_down(other.request_status()) {
            return Ordering::Greater;
        }
        let (my_height, their_height) = match (self.height(), other.height()) {
            (None, _) => return Ordering::Less,
            (_, None) => return Ordering::Greater,
            (Some(a), Some(b)) => (a, b),
        };
        let (my_latency, their_latency) = match (self.latency_nanos(), other.latency_nanos()) {
            (None, _) => return Ordering::Less,
            (_, None) => return Ordering::Greater,
            (Some(a), Some(b)) => (a, b),
        };
        if my_height < their_height {
            Ordering::Less
        } else if my_height > their_height {
            Ordering::Greater
        } else if my_latency > their_latency {
            Ordering::Less
        } else if my_latency < their_latency {
            Ordering::Greater
        } else {
            Ordering::Equal
        }
    }

    /// Whether `self` is strictly preferred to `other`.
    pub fn outranks(&self, other: &RpcUrl) -> (preferred: bool)
        ensures
            preferred == outranks(self@, other@),
    {
        proof {
            reveal(outranks);
        }
        match self.cmp(other) {
            Ordering::Greater => true,
            _ => false,
        }
    }

    /// The same comparison, as a partial order answers it.
    pub fn partial_cmp(&self, other: &RpcUrl) -> (order: Option<Ordering>)
        ensures
            order == Some(priority_order(self@, other@)),
    {
        Some(self.cmp(other))
    }
}

/// An endpoint whose last request failed or timed out ranks below every
/// endpoint, and every endpoint that is not down ranks above it.
pub proof fn lemma_down_ranks_lowest(a: RpcUrlView, b: RpcUrlView)
    requires
        is_down(a.request_status),
    ensures
        priority_order(a, b) == Ordering::Less,
        !is_down(b.request_status) ==> priority_order(b, a) == Ordering::Greater,
{
}

/// Between two fully measured endpoints the higher block height is preferred,
/// at equal heights the lower latency, and they compare equal exactly when
/// both agree.
pub proof fn lemma_measured_order(a: RpcUrlView, b: RpcUrlView)
    requires
        tier(a) == 3,
        tier(b) == 3,
    ensures
        priority_order(a, b) == Ordering::Greater <==> (a.height.unwrap() > b.height.unwrap()
            || (a.height.unwrap() == b.height.unwrap() && a.latency.unwrap()
            < b.latency.unwrap())),
        priority_order(a, b) == Ordering::Equal <==> (a.height == b.height && a.latency
            == b.latency),
{
}

/// Swapping the two endpoints reverses the comparison, unless both share a
/// tier below the measured one (then both ways give `Less`).
pub proof fn lemma_cmp_antisymmetric(a: RpcUrlView, b: RpcUrlView)
    requires
        !(tier(a) == tier(b) && tier(a) < 3),
    ensures
        priority_order(b, a) == reversed(priority_order(a, b)),
{
}

/// Preference is transitive, both ways.
pub proof fn lemma_cmp_transitive(a: RpcUrlView, b: RpcUrlView, c: RpcUrlView)
    ensures
        priority_order(a, b) == Ordering::Greater && priority_order(b, c) == Ordering::Greater
            ==> priority_order(a, c) == Ordering::Greater,
        priority_order(a, b) == Ordering::Less && priority_order(b, c) == Ordering::Less
            ==> priority_order(a, c) == Ordering::Less,
{
}

/// An endpoint is down exactly when its last request failed or timed out;
/// the tiers go down, unknown height, unknown latency, measured, and every
/// endpoint that is up with a height and a latency is measured, whatever the
/// values.
pub proof fn lemma_tiers(u: RpcUrlView)
    ensures
        is_down(u.request_status) <==> (u.request_status == Some(RequestStatus::Failure)
            || u.request_status == Some(RequestStatus::Timeout)),
        is_down(u.request_status) ==> tier(u) == 0,
        !is_down(u.request_status) && u.height is None ==> tier(u) == 1,
        !is_down(u.request_status) && u.height is Some && u.latency is None ==> tier(u) == 2,
        !is_down(u.request_status) && u.height is Some && u.latency is Some ==> tier(u) == 3,
{
}

/// An endpoint of a higher tier is preferred, both ways round.
pub proof fn lemma_higher_tier_wins(a: RpcUrlView, b: RpcUrlView)
    requires
        tier(a) > tier(b),
    ensures
        priority_order(a, b) == Ordering::Greater,
        priority_order(b, a) == Ordering::Less,
{
}

/// Between two endpoints that are up and have both a height and a latency,
/// whatever those values: the higher height is preferred; at equal heights the
/// lower latency; and they compare equal when both agree.
pub proof fn lemma_measured_endpoints(a: RpcUrlView, b: RpcUrlView)
    requires
        !is_down(a.request_status),
        !is_down(b.request_status),
        a.height is Some,
        b.height is Some,
        a.latency is Some,
        b.latency is Some,
    ensures
        a.height.unwrap() > b.height.unwrap() ==> priority_order(a, b) == Ordering::Greater
            && priority_order(b, a) == Ordering::Less,
        a.height == b.height && a.latency.unwrap() < b.latency.unwrap() ==> priority_order(a, b)
            == Ordering::Greater && priority_order(b, a) == Ordering::Less,
        a.height == b.height && a.latency == b.latency ==> priority_order(a, b)
            == Ordering::Equal,
{
}

/// Strict preference is a strict order: never both ways, and transitive.
pub proof fn lemma_outranks_strict(a: RpcUrlView, b: RpcUrlView, c: RpcUrlView)
    ensures
        outranks(a, b) ==> !outranks(b, a),
        outranks(a, b) && outranks(b, c) ==> outranks(a, c),
{
    reveal(outranks);
}

} // verus!
