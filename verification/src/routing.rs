//! The NAT traversal planner: from both sides' NAT kinds and candidate
//! sets, decide a direct or relayed route with a reason.

use vstd::prelude::*;

use crate::net::SocketAddress;

verus! {

/// The kind of NAT a peer sits behind.
#[derive(Debug, Clone, Copy, PartialEq, Eq, Structural)]
pub enum NatType {
    OpenInternet,
    FullCone,
    RestrictedCone,
    PortRestrictedCone,
    Symmetric,
    Unknown,
}

/// The chosen transport route.
#[derive(Debug, Clone, Copy, PartialEq, Eq, Structural)]
pub enum Route {
    Direct,
    Relay,
}

/// One peer's connectivity candidates.
#[derive(Debug, Clone, PartialEq, Eq)]
pub struct CandidateSet {
    pub local_candidate: SocketAddress,
    pub stun_reflexive_candidate: Option<SocketAddress>,
    pub relay_candidate: Option<SocketAddress>,
}

/// The planner's decision and its reason.
#[derive(Debug, Clone, PartialEq, Eq)]
pub struct ConnectivityPlan {
    pub route: Route,
    pub reason: &'static str,
}

/// Bundles gathered candidates into a set.
pub fn gather_candidates(
    local_candidate: SocketAddress,
    stun_reflexive_candidate: Option<SocketAddress>,
    relay_candidate: Option<SocketAddress>,
) -> (r: CandidateSet)
    ensures
        r.local_candidate == local_candidate,
        r.stun_reflexive_candidate == stun_reflexive_candidate,
        r.relay_candidate == relay_candidate,
{
    CandidateSet { local_candidate, stun_reflexive_candidate, relay_candidate }
}

/// The route the planner picks, as a function of three facts alone:
/// whether either side is symmetric, whether both sides have a
/// reflexive candidate, and whether either side has a relay candidate.
pub open spec fn spec_route(any_symmetric: bool, both_reflexive: bool, any_relay: bool) -> Route {
    if any_symmetric {
        if any_relay {
            Route::Relay
        } else {
            Route::Direct
        }
    } else if both_reflexive {
        Route::Direct
    } else if any_relay {
        Route::Relay
    } else {
        Route::Direct
    }
}

/// With a symmetric NAT on either side, the planner relays whenever any
/// relay candidate exists.
pub proof fn lemma_symmetric_uses_relay(both_reflexive: bool)
    ensures
        spec_route(true, both_reflexive, true) == Route::Relay,
{
}

/// Decides direct versus relay: a symmetric side forces a relay when
/// one is available (else best-effort direct); two reflexive candidates
/// go direct; a lone relay candidate is the fallback; direct is the
/// default. The decision is a pure function of its arguments.
pub fn decide_route(
    local_nat: NatType,
    remote_nat: NatType,
    local: &CandidateSet,
    remote: &CandidateSet,
) -> (r: ConnectivityPlan)
    ensures
        ({
            let any_symmetric = local_nat == NatType::Symmetric || remote_nat == NatType::Symmetric;
            let both_reflexive = local.stun_reflexive_candidate is Some
                && remote.stun_reflexive_candidate is Some;
            let any_relay = local.relay_candidate is Some || remote.relay_candidate is Some;
            &&& r.route == spec_route(any_symmetric, both_reflexive, any_relay)
            &&& (any_symmetric && any_relay ==> r.reason@ == "symmetric NAT detected; using relay"@)
            &&& (any_symmetric && !any_relay ==> r.reason@
                == "symmetric NAT detected but relay unavailable; try direct best-effort"@)
            &&& (!any_symmetric && both_reflexive ==> r.reason@
                == "both peers have reflexive candidates"@)
            &&& (!any_symmetric && !both_reflexive && any_relay ==> r.reason@
                == "insufficient direct candidates; fallback to relay"@)
            &&& (!any_symmetric && !both_reflexive && !any_relay ==> r.reason@
                == "default direct route"@)
        }),
{
    let both_have_reflexive = local.stun_reflexive_candidate.is_some()
        && remote.stun_reflexive_candidate.is_some();
    let any_symmetric = matches!(local_nat, NatType::Symmetric) || matches!(
        remote_nat,
        NatType::Symmetric,
    );

    if any_symmetric {
        if local.relay_candidate.is_some() || remote.relay_candidate.is_some() {
            return ConnectivityPlan {
                route: Route::Relay,
                reason: "symmetric NAT detected; using relay",
            };
        }

        return ConnectivityPlan {
            route: Route::Direct,
            reason: "symmetric NAT detected but relay unavailable; try direct best-effort",
        };
    }

    if both_have_reflexive {
        return ConnectivityPlan {
            route: Route::Direct,
            reason: "both peers have reflexive candidates",
        };
    }

    if local.relay_candidate.is_some() || remote.relay_candidate.is_some() {
        return ConnectivityPlan {
            route: Route::Relay,
            reason: "insufficient direct candidates; fallback to relay",
        };
    }

    ConnectivityPlan { route: Route::Direct, reason: "default direct route" }
}

/// Hole punching is attempted exactly when neither side is symmetric.
pub fn should_attempt_hole_punch(local_nat: NatType, remote_nat: NatType) -> (r: bool)
    ensures
        r == (local_nat != NatType::Symmetric && remote_nat != NatType::Symmetric),
{
    !matches!(local_nat, NatType::Symmetric) && !matches!(remote_nat, NatType::Symmetric)
}

} // verus!
