//! The offline LAN policy guard: classify a peer's address and allow or
//! deny it, and validate whole peer sets, while offline mode is on.

use vstd::prelude::*;

use vstd::string::StringExecFns;

use crate::net::{
    is_link_local, is_loopback, is_private, spec_is_link_local, spec_is_loopback, spec_is_private,
    IpAddress, SocketAddress,
};

verus! {

/// Which address classes the policy allows.
#[derive(Debug, Clone, PartialEq, Eq, Structural)]
pub struct LanPolicy {
    pub allow_loopback: bool,
    pub allow_link_local: bool,
    pub allow_private: bool,
    pub deny_public: bool,
}

impl Default for LanPolicy {
    /// The default policy: loopback, link-local and private allowed;
    /// public denied.
    fn default() -> (r: Self)
        ensures
            r.allow_loopback && r.allow_link_local && r.allow_private && r.deny_public,
    {
        Self { allow_loopback: true, allow_link_local: true, allow_private: true, deny_public: true }
    }
}

/// The guard's verdict on one address.
#[derive(Debug, Clone, PartialEq, Eq)]
pub enum PolicyDecision {
    Allow,
    Deny(&'static str),
}

/// Errors of the LAN policy guard.
#[derive(Debug, Clone, PartialEq, Eq)]
pub enum LanOfflineError {
    PeerDenied { peer: SocketAddress, reason: &'static str },
}

impl LanOfflineError {
    /// Human-readable description of the error.
    pub fn message(&self) -> String {
        match self {
            LanOfflineError::PeerDenied { peer: _, reason } => String::from_str(
                "peer denied: ",
            ).concat(reason),
        }
    }
}

/// Whether the guard allows an address under a policy with offline mode
/// on: classification is checked in priority order — loopback, then
/// link-local, then private; what is left is public and denied exactly
/// when the policy denies public addresses.
pub open spec fn spec_peer_allowed(policy: LanPolicy, ip: IpAddress) -> bool {
    if spec_is_loopback(ip) {
        policy.allow_loopback
    } else if spec_is_link_local(ip) {
        policy.allow_link_local
    } else if spec_is_private(ip) {
        policy.allow_private
    } else {
        !policy.deny_public
    }
}

/// The guard: a policy plus the offline-mode switch.
#[derive(Debug, Clone)]
pub struct LanOfflineGuard {
    policy: LanPolicy,
    mode_enabled: bool,
}

impl LanOfflineGuard {
    /// The guard's policy.
    pub closed spec fn spec_policy(self) -> LanPolicy {
        self.policy
    }

    /// Whether offline mode is on.
    pub closed spec fn spec_mode_enabled(self) -> bool {
        self.mode_enabled
    }

    /// A guard over the given policy, with offline mode on.
    pub fn new(policy: LanPolicy) -> (r: Self)
        ensures
            r.spec_policy() == policy,
            r.spec_mode_enabled(),
    {
        Self { policy, mode_enabled: true }
    }

    /// Switches offline mode on.
    pub fn enable_offline_mode(&mut self)
        ensures
            final(self).spec_policy() == old(self).spec_policy(),
            final(self).spec_mode_enabled(),
    {
        self.mode_enabled = true;
    }

    /// Switches offline mode off: every address is then allowed.
    pub fn disable_offline_mode(&mut self)
        ensures
            final(self).spec_policy() == old(self).spec_policy(),
            !final(self).spec_mode_enabled(),
    {
        self.mode_enabled = false;
    }

    /// Whether offline mode is on.
    pub fn is_offline_mode_enabled(&self) -> (r: bool)
        ensures
            r == self.spec_mode_enabled(),
    {
        self.mode_enabled
    }

    /// Judges one peer address: with offline mode off every address is
    /// allowed; with it on, the address class decides, in priority
    /// order, each class denied with its own reason.
    pub fn evaluate_peer(&self, addr: SocketAddress) -> (r: PolicyDecision)
        ensures
            (r == PolicyDecision::Allow) == (!self.spec_mode_enabled() || spec_peer_allowed(
                self.spec_policy(),
                addr.ip,
            )),
            self.spec_mode_enabled() && spec_is_loopback(addr.ip)
                && !self.spec_policy().allow_loopback ==> (r matches PolicyDecision::Deny(m)
                && m@ == "loopback denied"@),
            self.spec_mode_enabled() && !spec_is_loopback(addr.ip) && spec_is_link_local(addr.ip)
                && !self.spec_policy().allow_link_local ==> (r matches PolicyDecision::Deny(m)
                && m@ == "link-local denied"@),
            self.spec_mode_enabled() && !spec_is_loopback(addr.ip) && !spec_is_link_local(addr.ip)
                && spec_is_private(addr.ip) && !self.spec_policy().allow_private ==> (r matches
                PolicyDecision::Deny(m) && m@ == "private-range denied"@),
            self.spec_mode_enabled() && !spec_is_loopback(addr.ip) && !spec_is_link_local(addr.ip)
                && !spec_is_private(addr.ip) && self.spec_policy().deny_public ==> (r matches
                PolicyDecision::Deny(m) && m@ == "public internet address denied in offline mode"@),
    {
        if !self.mode_enabled {
            return PolicyDecision::Allow;
        }

        let ip = addr.ip;

        if is_loopback(&ip) {
            return if self.policy.allow_loopback {
                PolicyDecision::Allow
            } else {
                PolicyDecision::Deny("loopback denied")
            };
        }

        if is_link_local(&ip) {
            return if self.policy.allow_link_local {
                PolicyDecision::Allow
            } else {
                PolicyDecision::Deny("link-local denied")
            };
        }

        if is_private(&ip) {
            return if self.policy.allow_private {
                PolicyDecision::Allow
            } else {
                PolicyDecision::Deny("private-range denied")
            };
        }

        if self.policy.deny_public {
            return PolicyDecision::Deny("public internet address denied in offline mode");
        }

        PolicyDecision::Allow
    }

    /// Accepts a peer set exactly when every peer is allowed; otherwise
    /// reports the first denied peer with its reason.
    pub fn validate_peer_set(&self, peers: &Vec<SocketAddress>) -> (r: Result<(), LanOfflineError>)
        ensures
            r is Ok <==> forall|i: int|
                0 <= i < peers@.len() ==> (!self.spec_mode_enabled() || spec_peer_allowed(
                    self.spec_policy(),
                    (#[trigger] peers@[i]).ip,
                )),
            r matches Err(LanOfflineError::PeerDenied { peer, reason: _ }) ==> exists|i: int|
                0 <= i < peers@.len() && #[trigger] peers@[i] == peer && self.spec_mode_enabled()
                    && !spec_peer_allowed(self.spec_policy(), peer.ip) && forall|j: int|
                    0 <= j < i ==> (!self.spec_mode_enabled() || spec_peer_allowed(
                        self.spec_policy(),
                        (#[trigger] peers@[j]).ip,
                    )),
    {
        let mut i: usize = 0;
        while i < peers.len()
            invariant
                i <= peers@.len(),
                forall|j: int|
                    0 <= j < i ==> (!self.spec_mode_enabled() || spec_peer_allowed(
                        self.spec_policy(),
                        (#[trigger] peers@[j]).ip,
                    )),
            decreases peers@.len() - i,
        {
            match self.evaluate_peer(peers[i]) {
                PolicyDecision::Allow => (),
                PolicyDecision::Deny(reason) => {
                    proof {
                        assert(peers@[i as int] == peers@[i as int]);
                    }
                    return Err(LanOfflineError::PeerDenied { peer: peers[i], reason });
                },
            }
            i = i + 1;
        }
        Ok(())
    }
}

/// Under the default policy with offline mode on, every loopback,
/// link-local and private address is allowed, and every public address
/// is denied.
pub proof fn lemma_default_policy_classes(policy: LanPolicy, ip: IpAddress)
    requires
        policy.allow_loopback,
        policy.allow_link_local,
        policy.allow_private,
        policy.deny_public,
    ensures
        spec_is_loopback(ip) || spec_is_link_local(ip) || spec_is_private(ip)
            ==> spec_peer_allowed(policy, ip),
        !spec_is_loopback(ip) && !spec_is_link_local(ip) && !spec_is_private(ip)
            ==> !spec_peer_allowed(policy, ip),
{
}

} // verus!
