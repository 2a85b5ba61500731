//! The two-message handshake: signed client and server hellos with
//! replay protection, capability negotiation and directional session-key
//! derivation.

use vstd::prelude::*;

use vstd::string::StringExecFns;

use crate::crypto::{sha256, sha256_of};
use crate::identity::{
    base64_decoding_of, base64_of, ed25519_key_parses, ed25519_public_key_of,
    ed25519_signature_of, ed25519_verifies, spec_verify_signature, verify_signature,
    DeviceIdentity, IdentityError,
};
use crate::wire::{bytes_eq, push_u64_be, spec_u64_to_be_bytes};

verus! {

/// How strongly a peer wants payload encryption.
#[derive(Debug, Clone, Copy, PartialEq, Eq, Structural)]
pub enum EncryptionMode {
    Off,
    Optional,
    Required,
}

impl EncryptionMode {
    /// The wire byte of the mode.
    pub open spec fn spec_u8(self) -> u8 {
        match self {
            EncryptionMode::Off => 0u8,
            EncryptionMode::Optional => 1u8,
            EncryptionMode::Required => 2u8,
        }
    }

    /// Writes the mode as its wire byte.
    pub fn as_u8(self) -> (r: u8)
        ensures
            r == self.spec_u8(),
    {
        match self {
            EncryptionMode::Off => 0u8,
            EncryptionMode::Optional => 1u8,
            EncryptionMode::Required => 2u8,
        }
    }

    /// The mode denoted by a wire byte, if any.
    pub open spec fn spec_from_u8(v: u8) -> Option<EncryptionMode> {
        if v == 0 {
            Some(EncryptionMode::Off)
        } else if v == 1 {
            Some(EncryptionMode::Optional)
        } else if v == 2 {
            Some(EncryptionMode::Required)
        } else {
            None
        }
    }

    /// Parses a wire byte; any byte above 2 is invalid.
    pub fn from_u8(v: u8) -> (r: Result<EncryptionMode, HandshakeError>)
        ensures
            match r {
                Ok(m) => Self::spec_from_u8(v) == Some(m),
                Err(e) => Self::spec_from_u8(v) is None && e
                    == HandshakeError::InvalidCapabilities,
            },
    {
        if v == 0 {
            Ok(EncryptionMode::Off)
        } else if v == 1 {
            Ok(EncryptionMode::Optional)
        } else if v == 2 {
            Ok(EncryptionMode::Required)
        } else {
            Err(HandshakeError::InvalidCapabilities)
        }
    }
}

/// What a peer offers in its hello.
/// Invariant: a peer that does not support encryption must prefer `Off`.
#[derive(Debug, Clone, Copy, PartialEq, Eq, Structural)]
pub struct HandshakeCapabilities {
    pub supports_encryption: bool,
    pub preferred_encryption_mode: EncryptionMode,
}

impl Default for HandshakeCapabilities {
    /// The default capabilities: no encryption, mode `Off`.
    fn default() -> (r: Self)
        ensures
            r.supports_encryption == false,
            r.preferred_encryption_mode == EncryptionMode::Off,
    {
        Self { supports_encryption: false, preferred_encryption_mode: EncryptionMode::Off }
    }
}

/// Whether a capability record is internally consistent.
pub open spec fn spec_capabilities_valid(c: HandshakeCapabilities) -> bool {
    c.supports_encryption || c.preferred_encryption_mode == EncryptionMode::Off
}

/// The outcome of capability negotiation.
#[derive(Debug, Clone, Copy, PartialEq, Eq, Structural)]
pub struct NegotiatedEncryption {
    pub enabled: bool,
    pub mode: EncryptionMode,
}

/// Errors of the handshake layer.
#[derive(Debug, Clone, PartialEq, Eq)]
pub enum HandshakeError {
    TimestampSkew,
    InvalidSignature,
    NonceMismatch,
    Identity(IdentityError),
    EncryptionRequiredButUnsupported,
    InvalidCapabilities,
}

impl HandshakeError {
    /// Human-readable description of the error.
    pub fn message(&self) -> String {
        match self {
            HandshakeError::TimestampSkew => String::from_str("timestamp skew exceeded"),
            HandshakeError::InvalidSignature => String::from_str("invalid signature"),
            HandshakeError::NonceMismatch => String::from_str("client/server nonce mismatch"),
            HandshakeError::Identity(e) => String::from_str("identity error: ").concat(
                e.message().as_str(),
            ),
            HandshakeError::EncryptionRequiredButUnsupported => String::from_str(
                "peer does not support required encryption mode",
            ),
            HandshakeError::InvalidCapabilities => String::from_str(
                "invalid handshake capabilities",
            ),
        }
    }
}

/// What negotiation decides for a pair of capability records:
/// a required mode fails closed when not both sides support encryption;
/// otherwise encryption is enabled at the strongest preference both
/// sides can honour.
pub open spec fn spec_negotiate(client: HandshakeCapabilities, server: HandshakeCapabilities) -> Result<
    NegotiatedEncryption,
    HandshakeError,
> {
    if !spec_capabilities_valid(client) || !spec_capabilities_valid(server) {
        Err(HandshakeError::InvalidCapabilities)
    } else {
        let either_requires = client.preferred_encryption_mode == EncryptionMode::Required
            || server.preferred_encryption_mode == EncryptionMode::Required;
        let both_support = client.supports_encryption && server.supports_encryption;
        if either_requires && !both_support {
            Err(HandshakeError::EncryptionRequiredButUnsupported)
        } else if !both_support {
            Ok(NegotiatedEncryption { enabled: false, mode: EncryptionMode::Off })
        } else if either_requires {
            Ok(NegotiatedEncryption { enabled: true, mode: EncryptionMode::Required })
        } else if client.preferred_encryption_mode == EncryptionMode::Optional
            || server.preferred_encryption_mode == EncryptionMode::Optional {
            Ok(NegotiatedEncryption { enabled: true, mode: EncryptionMode::Optional })
        } else {
            Ok(NegotiatedEncryption { enabled: false, mode: EncryptionMode::Off })
        }
    }
}

/// Rejects a capability record whose preference contradicts its support.
fn validate_capabilities(capabilities: HandshakeCapabilities) -> (r: Result<(), HandshakeError>)
    ensures
        r is Ok <==> spec_capabilities_valid(capabilities),
        r matches Err(e) ==> e == HandshakeError::InvalidCapabilities,
{
    if !capabilities.supports_encryption && capabilities.preferred_encryption_mode
        != EncryptionMode::Off {
        return Err(HandshakeError::InvalidCapabilities);
    }
    Ok(())
}

/// Negotiates the encryption of a session from both peers' capabilities.
pub fn negotiate_encryption(client: HandshakeCapabilities, server: HandshakeCapabilities) -> (r:
    Result<NegotiatedEncryption, HandshakeError>)
    ensures
        r == spec_negotiate(client, server),
{
    match validate_capabilities(client) {
        Ok(_) => (),
        Err(e) => {
            return Err(e);
        },
    }
    match validate_capabilities(server) {
        Ok(_) => (),
        Err(e) => {
            return Err(e);
        },
    }

    let either_requires = client.preferred_encryption_mode == EncryptionMode::Required
        || server.preferred_encryption_mode == EncryptionMode::Required;
    let both_support = client.supports_encryption && server.supports_encryption;

    if either_requires && !both_support {
        return Err(HandshakeError::EncryptionRequiredButUnsupported);
    }
    if !both_support {
        return Ok(NegotiatedEncryption { enabled: false, mode: EncryptionMode::Off });
    }
    if either_requires {
        return Ok(NegotiatedEncryption { enabled: true, mode: EncryptionMode::Required });
    }
    if client.preferred_encryption_mode == EncryptionMode::Optional
        || server.preferred_encryption_mode == EncryptionMode::Optional {
        return Ok(NegotiatedEncryption { enabled: true, mode: EncryptionMode::Optional });
    }
    Ok(NegotiatedEncryption { enabled: false, mode: EncryptionMode::Off })
}

/// Negotiation does not depend on which side is which: swapping the
/// arguments yields the same outcome.
pub proof fn lemma_negotiate_symmetric(a: HandshakeCapabilities, b: HandshakeCapabilities)
    ensures
        spec_negotiate(a, b) == spec_negotiate(b, a),
{
}

/// Whether a remembered nonce is still inside the replay window at
/// `now`: its age, saturated at zero, is at most `ttl`.
pub open spec fn spec_nonce_live(seen_at: u64, now: u64, ttl: u64) -> bool {
    if now >= seen_at {
        now - seen_at <= ttl
    } else {
        true
    }
}

/// Whether a guard entry is still inside the replay window.
pub open spec fn spec_entry_live(e: ([u8; 32], u64), now: u64, ttl: u64) -> bool {
    spec_nonce_live(e.1, now, ttl)
}

/// Whether an entry sequence holds each nonce at most once.
spec fn spec_keys_unique(s: Seq<([u8; 32], u64)>) -> bool {
    forall|i: int, j: int| 0 <= i < j < s.len() ==> (#[trigger] s[i]).0@ != (#[trigger] s[j]).0@
}

/// Whether an entry sequence remembers a nonce.
spec fn spec_seq_has(s: Seq<([u8; 32], u64)>, n: Seq<u8>) -> bool {
    exists|i: int| 0 <= i < s.len() && (#[trigger] s[i]).0@ == n
}

/// The index of a remembered nonce.
spec fn spec_seq_index(s: Seq<([u8; 32], u64)>, n: Seq<u8>) -> int {
    choose|i: int| 0 <= i < s.len() && (#[trigger] s[i]).0@ == n
}

/// The first-seen time of a remembered nonce.
spec fn spec_seq_at(s: Seq<([u8; 32], u64)>, n: Seq<u8>) -> u64 {
    s[spec_seq_index(s, n)].1
}

/// In a unique-keyed sequence, the entry at index `i` is the one its
/// nonce names.
proof fn lemma_seq_at_is(s: Seq<([u8; 32], u64)>, i: int)
    requires
        spec_keys_unique(s),
        0 <= i < s.len(),
    ensures
        spec_seq_has(s, s[i].0@),
        spec_seq_index(s, s[i].0@) == i,
        spec_seq_at(s, s[i].0@) == s[i].1,
{
    let n = s[i].0@;
    assert(spec_seq_has(s, n));
    let j = spec_seq_index(s, n);
    if i < j {
        assert(s[i].0@ != s[j].0@);
    } else if j < i {
        assert(s[j].0@ != s[i].0@);
    }
}

/// Filtering a unique-keyed sequence by liveness keeps exactly the live
/// nonces, each with its original first-seen time.
proof fn lemma_filter_guard(s: Seq<([u8; 32], u64)>, now: u64, ttl: u64)
    requires
        spec_keys_unique(s),
    ensures
        ({
            let f = s.filter(|e: ([u8; 32], u64)| spec_entry_live(e, now, ttl));
            &&& spec_keys_unique(f)
            &&& forall|n: Seq<u8>|
                spec_seq_has(f, n) <==> (spec_seq_has(s, n) && spec_nonce_live(
                    spec_seq_at(s, n),
                    now,
                    ttl,
                ))
            &&& forall|n: Seq<u8>| spec_seq_has(f, n) ==> spec_seq_at(f, n) == spec_seq_at(s, n)
        }),
    decreases s.len(),
{
    reveal(Seq::filter);
    let pred = |e: ([u8; 32], u64)| spec_entry_live(e, now, ttl);
    let f = s.filter(pred);
    if s.len() == 0 {
    } else {
        let init = s.drop_last();
        let last = s.last();
        assert(spec_keys_unique(init));
        lemma_filter_guard(init, now, ttl);
        let fi = init.filter(pred);

        assert(!spec_seq_has(init, last.0@)) by {
            if spec_seq_has(init, last.0@) {
                let i = spec_seq_index(init, last.0@);
                assert(s[i].0@ == s[s.len() - 1].0@);
            }
        }

        if pred(last) {
            assert(f == fi.push(last));
            assert(spec_keys_unique(f)) by {
                assert forall|i: int, j: int| 0 <= i < j < f.len() implies (#[trigger] f[i]).0@
                    != (#[trigger] f[j]).0@ by {
                    if j < f.len() - 1 {
                        assert(fi[i] == f[i] && fi[j] == f[j]);
                    } else {
                        assert(f[i] == fi[i]);
                        lemma_seq_at_is(fi, i);
                        assert(spec_seq_has(fi, fi[i].0@));
                        assert(spec_seq_has(init, fi[i].0@));
                    }
                }
            }
            assert forall|n: Seq<u8>|
                spec_seq_has(f, n) <==> (spec_seq_has(s, n) && spec_nonce_live(
                    spec_seq_at(s, n),
                    now,
                    ttl,
                )) by {
                lemma_guard_step_has(s, f, fi, n, now, ttl);
            }
            assert forall|n: Seq<u8>| spec_seq_has(f, n) implies spec_seq_at(f, n) == spec_seq_at(
                s,
                n,
            ) by {
                lemma_guard_step_at(s, f, fi, n, now, ttl);
            }
        } else {
            assert(f == fi);
            assert forall|n: Seq<u8>|
                spec_seq_has(f, n) <==> (spec_seq_has(s, n) && spec_nonce_live(
                    spec_seq_at(s, n),
                    now,
                    ttl,
                )) by {
                lemma_guard_step_has_dropped(s, f, n, now, ttl);
            }
            assert forall|n: Seq<u8>| spec_seq_has(f, n) implies spec_seq_at(f, n) == spec_seq_at(
                s,
                n,
            ) by {
                lemma_guard_step_at_dropped(s, f, n, now, ttl);
            }
        }
    }
}

/// One step of the filter argument, pushed case: membership.
proof fn lemma_guard_step_has(
    s: Seq<([u8; 32], u64)>,
    f: Seq<([u8; 32], u64)>,
    fi: Seq<([u8; 32], u64)>,
    n: Seq<u8>,
    now: u64,
    ttl: u64,
)
    requires
        s.len() > 0,
        spec_keys_unique(s),
        spec_keys_unique(fi),
        f == fi.push(s.last()),
        spec_entry_live(s.last(), now, ttl),
        forall|m: Seq<u8>|
            spec_seq_has(fi, m) <==> (spec_seq_has(s.drop_last(), m) && spec_nonce_live(
                spec_seq_at(s.drop_last(), m),
                now,
                ttl,
            )),
        forall|m: Seq<u8>|
            spec_seq_has(fi, m) ==> spec_seq_at(fi, m) == spec_seq_at(s.drop_last(), m),
    ensures
        spec_seq_has(f, n) <==> (spec_seq_has(s, n) && spec_nonce_live(spec_seq_at(s, n), now, ttl)),
{
    let init = s.drop_last();
    let last = s.last();
    if spec_seq_has(f, n) {
        let i = spec_seq_index(f, n);
        assert(0 <= i < f.len() && f[i].0@ == n);
        if i < f.len() - 1 {
            assert(fi[i].0@ == n);
            assert(spec_seq_has(fi, n));
            let j = spec_seq_index(fi, n);
            let k = spec_seq_index(init, n);
            assert(s[k].0@ == n);
            assert(spec_seq_has(s, n));
            lemma_seq_at_is(s, k);
            lemma_seq_at_is(init, k);
        } else {
            assert(f[i] == last);
            lemma_seq_at_is(s, s.len() - 1);
            assert(spec_seq_has(s, n));
        }
    }
    if spec_seq_has(s, n) && spec_nonce_live(spec_seq_at(s, n), now, ttl) {
        let k = spec_seq_index(s, n);
        lemma_seq_at_is(s, k);
        if k == s.len() - 1 {
            assert(f[f.len() - 1].0@ == n);
            assert(spec_seq_has(f, n));
        } else {
            assert(init[k].0@ == n);
            assert(spec_seq_has(init, n));
            lemma_seq_at_is(init, k);
            assert(spec_seq_has(fi, n));
            let j = spec_seq_index(fi, n);
            assert(f[j].0@ == n);
            assert(spec_seq_has(f, n));
        }
    }
}

/// One step of the filter argument, pushed case: first-seen times.
proof fn lemma_guard_step_at(
    s: Seq<([u8; 32], u64)>,
    f: Seq<([u8; 32], u64)>,
    fi: Seq<([u8; 32], u64)>,
    n: Seq<u8>,
    now: u64,
    ttl: u64,
)
    requires
        s.len() > 0,
        spec_keys_unique(s),
        spec_keys_unique(fi),
        spec_keys_unique(f),
        f == fi.push(s.last()),
        spec_entry_live(s.last(), now, ttl),
        spec_seq_has(f, n),
        forall|m: Seq<u8>|
            spec_seq_has(fi, m) <==> (spec_seq_has(s.drop_last(), m) && spec_nonce_live(
                spec_seq_at(s.drop_last(), m),
                now,
                ttl,
            )),
        forall|m: Seq<u8>|
            spec_seq_has(fi, m) ==> spec_seq_at(fi, m) == spec_seq_at(s.drop_last(), m),
    ensures
        spec_seq_at(f, n) == spec_seq_at(s, n),
{
    let init = s.drop_last();
    let last = s.last();
    let i = spec_seq_index(f, n);
    lemma_seq_at_is(f, i);
    if i < f.len() - 1 {
        assert(fi[i].0@ == n);
        lemma_seq_at_is(fi, i);
        let k = spec_seq_index(init, n);
        assert(init[k].0@ == n);
        lemma_seq_at_is(init, k);
        assert(s[k].0@ == n);
        lemma_seq_at_is(s, k);
        assert(spec_seq_at(f, n) == f[i].1);
        assert(f[i] == fi[i]);
    } else {
        assert(f[i] == last);
        lemma_seq_at_is(s, s.len() - 1);
    }
}

/// One step of the filter argument, dropped case: membership.
proof fn lemma_guard_step_has_dropped(
    s: Seq<([u8; 32], u64)>,
    f: Seq<([u8; 32], u64)>,
    n: Seq<u8>,
    now: u64,
    ttl: u64,
)
    requires
        s.len() > 0,
        spec_keys_unique(s),
        !spec_entry_live(s.last(), now, ttl),
        forall|m: Seq<u8>|
            spec_seq_has(f, m) <==> (spec_seq_has(s.drop_last(), m) && spec_nonce_live(
                spec_seq_at(s.drop_last(), m),
                now,
                ttl,
            )),
    ensures
        spec_seq_has(f, n) <==> (spec_seq_has(s, n) && spec_nonce_live(spec_seq_at(s, n), now, ttl)),
{
    let init = s.drop_last();
    let last = s.last();
    if spec_seq_has(f, n) {
        let k = spec_seq_index(init, n);
        assert(init[k].0@ == n);
        assert(s[k].0@ == n);
        assert(spec_seq_has(s, n));
        lemma_seq_at_is(s, k);
        lemma_seq_at_is(init, k);
    }
    if spec_seq_has(s, n) && spec_nonce_live(spec_seq_at(s, n), now, ttl) {
        let k = spec_seq_index(s, n);
        lemma_seq_at_is(s, k);
        if k == s.len() - 1 {
            assert(!spec_nonce_live(s[k].1, now, ttl));
        } else {
            assert(init[k].0@ == n);
            assert(spec_seq_has(init, n));
            lemma_seq_at_is(init, k);
        }
    }
}

/// One step of the filter argument, dropped case: first-seen times.
proof fn lemma_guard_step_at_dropped(
    s: Seq<([u8; 32], u64)>,
    f: Seq<([u8; 32], u64)>,
    n: Seq<u8>,
    now: u64,
    ttl: u64,
)
    requires
        s.len() > 0,
        spec_keys_unique(s),
        !spec_entry_live(s.last(), now, ttl),
        spec_seq_has(f, n),
        forall|m: Seq<u8>|
            spec_seq_has(f, m) <==> (spec_seq_has(s.drop_last(), m) && spec_nonce_live(
                spec_seq_at(s.drop_last(), m),
                now,
                ttl,
            )),
        forall|m: Seq<u8>|
            spec_seq_has(f, m) ==> spec_seq_at(f, m) == spec_seq_at(s.drop_last(), m),
    ensures
        spec_seq_at(f, n) == spec_seq_at(s, n),
{
    let init = s.drop_last();
    let k = spec_seq_index(init, n);
    assert(init[k].0@ == n);
    lemma_seq_at_is(init, k);
    assert(s[k].0@ == n);
    lemma_seq_at_is(s, k);
}

/// The replay guard: a bounded memory of nonces and when each was first
/// seen, scoped by a time-to-live.
#[derive(Debug)]
pub struct ReplayGuard {
    seen: Vec<([u8; 32], u64)>,
    ttl_secs: u64,
}

impl ReplayGuard {
    /// The guard invariant: each nonce appears at most once.
    pub closed spec fn wf(self) -> bool {
        spec_keys_unique(self.seen@)
    }

    /// The guard's time-to-live in seconds.
    pub closed spec fn spec_ttl(self) -> u64 {
        self.ttl_secs
    }

    /// Whether the guard remembers a nonce.
    pub closed spec fn spec_has(self, nonce: Seq<u8>) -> bool {
        spec_seq_has(self.seen@, nonce)
    }

    /// When a remembered nonce was first seen.
    pub closed spec fn spec_seen_at(self, nonce: Seq<u8>) -> u64 {
        spec_seq_at(self.seen@, nonce)
    }

    /// A fresh guard with the given replay window, remembering nothing.
    pub fn new(ttl_secs: u64) -> (r: Self)
        ensures
            r.wf(),
            r.spec_ttl() == ttl_secs,
            forall|n: Seq<u8>| !r.spec_has(n),
    {
        Self { seen: Vec::new(), ttl_secs }
    }

    /// Drops every entry whose age at `now` exceeds the time-to-live;
    /// entries inside the window keep their first-seen time.
    #[verifier::rlimit(30)]
    pub fn expire(&mut self, now: u64)
        requires
            old(self).wf(),
        ensures
            final(self).wf(),
            final(self).spec_ttl() == old(self).spec_ttl(),
            forall|n: Seq<u8>|
                final(self).spec_has(n) <==> (old(self).spec_has(n) && spec_nonce_live(
                    old(self).spec_seen_at(n),
                    now,
                    old(self).spec_ttl(),
                )),
            forall|n: Seq<u8>|
                final(self).spec_has(n) ==> final(self).spec_seen_at(n) == old(self).spec_seen_at(
                    n,
                ),
    {
        let ttl = self.ttl_secs;
        let ghost pred = |e: ([u8; 32], u64)| spec_entry_live(e, now, ttl);
        let mut kept: Vec<([u8; 32], u64)> = Vec::new();
        let mut i: usize = 0;
        let ghost pre = self.seen@;
        proof {
            reveal(Seq::filter);
            assert(pre.take(0) =~= Seq::<([u8; 32], u64)>::empty());
            assert(kept@ =~= pre.take(0).filter(pred));
        }
        while i < self.seen.len()
            invariant
                i <= pre.len(),
                self.seen@ == pre,
                self.ttl_secs == ttl,
                pred == (|e: ([u8; 32], u64)| spec_entry_live(e, now, ttl)),
                kept@ == pre.take(i as int).filter(pred),
            decreases pre.len() - i,
        {
            let entry = &self.seen[i];
            let keep: bool = if now >= entry.1 {
                now - entry.1 <= ttl
            } else {
                true
            };
            let ghost pre_kept = kept@;
            if keep {
                kept.push((entry.0, entry.1));
            }
            proof {
                reveal(Seq::filter);
                assert(pre.take(i + 1).drop_last() =~= pre.take(i as int));
                assert(pre.take(i + 1).last() == pre[i as int]);
                assert(spec_entry_live(pre[i as int], now, ttl) == spec_nonce_live(
                    pre[i as int].1,
                    now,
                    ttl,
                ));
                assert(keep == spec_entry_live(pre[i as int], now, ttl));
                assert(pred(pre[i as int]) == spec_entry_live(pre[i as int], now, ttl));
                if keep {
                    assert(kept@ =~= pre.take(i as int).filter(pred).push(pre[i as int]));
                }
                assert(kept@ == pre.take(i + 1).filter(pred));
            }
            i = i + 1;
        }
        proof {
            assert(pre.take(pre.len() as int) =~= pre);
        }
        self.seen = kept;
        proof {
            lemma_filter_guard(pre, now, ttl);
        }
    }

    /// Purges expired entries, then answers whether the nonce is new:
    /// true exactly when the nonce was not live, in which case it is
    /// remembered with time `now`. A nonce re-presented inside the
    /// window answers false and keeps its original first-seen time.
    pub fn check_and_remember(&mut self, nonce: [u8; 32], now: u64) -> (r: bool)
        requires
            old(self).wf(),
        ensures
            final(self).wf(),
            final(self).spec_ttl() == old(self).spec_ttl(),
            r <==> !(old(self).spec_has(nonce@) && spec_nonce_live(
                old(self).spec_seen_at(nonce@),
                now,
                old(self).spec_ttl(),
            )),
            final(self).spec_has(nonce@),
            r ==> final(self).spec_seen_at(nonce@) == now,
            !r ==> final(self).spec_seen_at(nonce@) == old(self).spec_seen_at(nonce@),
            forall|n: Seq<u8>|
                n != nonce@ ==> (final(self).spec_has(n) <==> (old(self).spec_has(n)
                    && spec_nonce_live(old(self).spec_seen_at(n), now, old(self).spec_ttl()))),
            forall|n: Seq<u8>|
                n != nonce@ && final(self).spec_has(n) ==> final(self).spec_seen_at(n) == old(
                    self,
                ).spec_seen_at(n),
    {
        self.expire(now);
        let ghost mid = *self;

        let mut i: usize = 0;
        let mut found: bool = false;
        while i < self.seen.len()
            invariant
                i <= self.seen@.len(),
                found ==> exists|j: int| 0 <= j < i && (#[trigger] self.seen@[j]).0@ == nonce@,
                !found ==> forall|j: int| 0 <= j < i ==> (#[trigger] self.seen@[j]).0@ != nonce@,
            decreases self.seen@.len() - i,
        {
            if bytes_eq(self.seen[i].0.as_slice(), nonce.as_slice()) {
                found = true;
                proof {
                    assert((self.seen@[i as int]).0@ == nonce@);
                }
            }
            i = i + 1;
        }

        if found {
            proof {
                assert(mid.spec_has(nonce@));
            }
            return false;
        }

        let ghost pre_push = self.seen@;
        self.seen.push((nonce, now));
        proof {
            let post = self.seen@;
            assert(post[post.len() - 1].0@ == nonce@);
            assert(spec_keys_unique(post)) by {
                assert forall|a: int, b: int| 0 <= a < b < post.len() implies (
                #[trigger] post[a]).0@ != (#[trigger] post[b]).0@ by {
                    if b < post.len() - 1 {
                        assert(post[a] == pre_push[a] && post[b] == pre_push[b]);
                    } else {
                        assert(post[a] == pre_push[a]);
                        assert(pre_push[a].0@ != nonce@);
                    }
                }
            }
            lemma_seq_at_is(post, post.len() - 1);
            assert forall|n: Seq<u8>| n != nonce@ implies (spec_seq_has(post, n) <==> spec_seq_has(
                pre_push,
                n,
            )) by {
                if spec_seq_has(post, n) {
                    let a = spec_seq_index(post, n);
                    assert(post[a].0@ == n);
                    assert(a < pre_push.len());
                    assert(pre_push[a].0@ == n);
                }
                if spec_seq_has(pre_push, n) {
                    let a = spec_seq_index(pre_push, n);
                    assert(post[a].0@ == n);
                }
            }
            assert forall|n: Seq<u8>| n != nonce@ && spec_seq_has(post, n) implies spec_seq_at(
                post,
                n,
            ) == spec_seq_at(pre_push, n) by {
                let a = spec_seq_index(pre_push, n);
                assert(pre_push[a].0@ == n);
                lemma_seq_at_is(pre_push, a);
                assert(post[a] == pre_push[a]);
                lemma_seq_at_is(post, a);
            }
        }
        true
    }
}


/// Relies on std's SystemTime::now, duration_since(UNIX_EPOCH) and
/// Duration::as_secs: the wall clock as whole seconds since the epoch;
/// nothing can be promised of its value.
#[verifier::external_body]
fn now_unix() -> u64 {
    std::time::SystemTime::now().duration_since(std::time::UNIX_EPOCH).unwrap_or_default()
        .as_secs()
}

/// The domain-separation prefix of a client hello signature: the ASCII
/// bytes of `p2p/client-hello/v1`.
pub open spec fn spec_client_hello_domain() -> Seq<u8> {
    seq![
        112u8, 50u8, 112u8, 47u8, 99u8, 108u8, 105u8, 101u8, 110u8, 116u8, 45u8, 104u8, 101u8,
        108u8, 108u8, 111u8, 47u8, 118u8, 49u8,
    ]
}

/// The domain-separation prefix of a server hello signature: the ASCII
/// bytes of `p2p/server-hello/v1`.
pub open spec fn spec_server_hello_domain() -> Seq<u8> {
    seq![
        112u8, 50u8, 112u8, 47u8, 115u8, 101u8, 114u8, 118u8, 101u8, 114u8, 45u8, 104u8, 101u8,
        108u8, 108u8, 111u8, 47u8, 118u8, 49u8,
    ]
}

/// The byte of a capability flag.
pub open spec fn spec_bool_byte(b: bool) -> u8 {
    if b {
        1u8
    } else {
        0u8
    }
}

/// The deterministic byte string a client hello signs: domain, device
/// id, public key, nonce, big-endian timestamp and the two capability
/// bytes.
pub open spec fn spec_client_hello_signing_bytes(
    device_id: Seq<char>,
    public_key_b64: Seq<char>,
    nonce: Seq<u8>,
    timestamp_secs: u64,
    capabilities: HandshakeCapabilities,
) -> Seq<u8> {
    spec_client_hello_domain() + vstd::utf8::encode_utf8(device_id) + vstd::utf8::encode_utf8(
        public_key_b64,
    ) + nonce + spec_u64_to_be_bytes(timestamp_secs) + seq![
        spec_bool_byte(capabilities.supports_encryption),
        capabilities.preferred_encryption_mode.spec_u8(),
    ]
}

/// The deterministic byte string a server hello signs: as the client's,
/// with both nonces.
pub open spec fn spec_server_hello_signing_bytes(
    device_id: Seq<char>,
    public_key_b64: Seq<char>,
    client_nonce: Seq<u8>,
    server_nonce: Seq<u8>,
    timestamp_secs: u64,
    capabilities: HandshakeCapabilities,
) -> Seq<u8> {
    spec_server_hello_domain() + vstd::utf8::encode_utf8(device_id) + vstd::utf8::encode_utf8(
        public_key_b64,
    ) + client_nonce + server_nonce + spec_u64_to_be_bytes(timestamp_secs) + seq![
        spec_bool_byte(capabilities.supports_encryption),
        capabilities.preferred_encryption_mode.spec_u8(),
    ]
}

/// Builds the signing bytes of a client hello.
fn client_hello_signing_bytes(
    device_id: &str,
    public_key_b64: &str,
    nonce: &[u8; 32],
    timestamp_secs: u64,
    capabilities: HandshakeCapabilities,
) -> (r: Vec<u8>)
    ensures
        r@ == spec_client_hello_signing_bytes(
            device_id@,
            public_key_b64@,
            nonce@,
            timestamp_secs,
            capabilities,
        ),
{
    let mut out: Vec<u8> = Vec::new();
    out.push(112u8);
    out.push(50u8);
    out.push(112u8);
    out.push(47u8);
    out.push(99u8);
    out.push(108u8);
    out.push(105u8);
    out.push(101u8);
    out.push(110u8);
    out.push(116u8);
    out.push(45u8);
    out.push(104u8);
    out.push(101u8);
    out.push(108u8);
    out.push(108u8);
    out.push(111u8);
    out.push(47u8);
    out.push(118u8);
    out.push(49u8);
    proof {
        assert(out@ =~= spec_client_hello_domain());
    }
    out.extend_from_slice(device_id.as_bytes());
    out.extend_from_slice(public_key_b64.as_bytes());
    out.extend_from_slice(nonce.as_slice());
    push_u64_be(&mut out, timestamp_secs);
    out.push(if capabilities.supports_encryption {
        1u8
    } else {
        0u8
    });
    out.push(capabilities.preferred_encryption_mode.as_u8());
    proof {
        assert(out@ =~= spec_client_hello_signing_bytes(
            device_id@,
            public_key_b64@,
            nonce@,
            timestamp_secs,
            capabilities,
        ));
    }
    out
}

/// Builds the signing bytes of a server hello.
fn server_hello_signing_bytes(
    device_id: &str,
    public_key_b64: &str,
    client_nonce: &[u8; 32],
    server_nonce: &[u8; 32],
    timestamp_secs: u64,
    capabilities: HandshakeCapabilities,
) -> (r: Vec<u8>)
    ensures
        r@ == spec_server_hello_signing_bytes(
            device_id@,
            public_key_b64@,
            client_nonce@,
            server_nonce@,
            timestamp_secs,
            capabilities,
        ),
{
    let mut out: Vec<u8> = Vec::new();
    out.push(112u8);
    out.push(50u8);
    out.push(112u8);
    out.push(47u8);
    out.push(115u8);
    out.push(101u8);
    out.push(114u8);
    out.push(118u8);
    out.push(101u8);
    out.push(114u8);
    out.push(45u8);
    out.push(104u8);
    out.push(101u8);
    out.push(108u8);
    out.push(108u8);
    out.push(111u8);
    out.push(47u8);
    out.push(118u8);
    out.push(49u8);
    proof {
        assert(out@ =~= spec_server_hello_domain());
    }
    out.extend_from_slice(device_id.as_bytes());
    out.extend_from_slice(public_key_b64.as_bytes());
    out.extend_from_slice(client_nonce.as_slice());
    out.extend_from_slice(server_nonce.as_slice());
    push_u64_be(&mut out, timestamp_secs);
    out.push(if capabilities.supports_encryption {
        1u8
    } else {
        0u8
    });
    out.push(capabilities.preferred_encryption_mode.as_u8());
    proof {
        assert(out@ =~= spec_server_hello_signing_bytes(
            device_id@,
            public_key_b64@,
            client_nonce@,
            server_nonce@,
            timestamp_secs,
            capabilities,
        ));
    }
    out
}

/// The first message of the handshake, signed by the client.
#[derive(Debug, Clone)]
pub struct ClientHello {
    pub device_id: String,
    pub public_key_b64: String,
    pub nonce: [u8; 32],
    pub timestamp_secs: u64,
    pub capabilities: HandshakeCapabilities,
    pub signature: [u8; 64],
}

/// The second message of the handshake: the client's nonce echoed, a
/// fresh server nonce, signed by the server.
#[derive(Debug, Clone)]
pub struct ServerHello {
    pub device_id: String,
    pub public_key_b64: String,
    pub client_nonce: [u8; 32],
    pub server_nonce: [u8; 32],
    pub timestamp_secs: u64,
    pub capabilities: HandshakeCapabilities,
    pub signature: [u8; 64],
}

/// Whether a client hello carries a decodable 32-byte valid public key
/// whose signature covers exactly the hello's fields.
pub open spec fn spec_client_hello_sig_ok(h: ClientHello) -> bool {
    match base64_decoding_of(h.public_key_b64@) {
        Some(pk) => pk.len() == 32 && ed25519_key_parses(pk) && ed25519_verifies(
            pk,
            spec_client_hello_signing_bytes(
                h.device_id@,
                h.public_key_b64@,
                h.nonce@,
                h.timestamp_secs,
                h.capabilities,
            ),
            h.signature@,
        ),
        None => false,
    }
}

/// Whether a server hello carries a decodable 32-byte valid public key
/// whose signature covers exactly the hello's fields.
pub open spec fn spec_server_hello_sig_ok(h: ServerHello) -> bool {
    match base64_decoding_of(h.public_key_b64@) {
        Some(pk) => pk.len() == 32 && ed25519_key_parses(pk) && ed25519_verifies(
            pk,
            spec_server_hello_signing_bytes(
                h.device_id@,
                h.public_key_b64@,
                h.client_nonce@,
                h.server_nonce@,
                h.timestamp_secs,
                h.capabilities,
            ),
            h.signature@,
        ),
        None => false,
    }
}

/// Creates a signed client hello with the given capabilities: a fresh
/// 32-byte nonce, the current time, and a signature over the hello's
/// exact fields under the identity's key.
pub fn create_client_hello_with_capabilities(
    device_id: &str,
    identity: &DeviceIdentity,
    capabilities: HandshakeCapabilities,
) -> (r: ClientHello)
    ensures
        r.device_id@ == device_id@,
        r.public_key_b64@ == base64_of(ed25519_public_key_of(identity.spec_secret())),
        r.capabilities == capabilities,
        r.signature@ == ed25519_signature_of(
            identity.spec_secret(),
            spec_client_hello_signing_bytes(
                r.device_id@,
                r.public_key_b64@,
                r.nonce@,
                r.timestamp_secs,
                capabilities,
            ),
        ),
        spec_client_hello_sig_ok(r),
{
    let nonce = crate::identity::random_bytes_32();
    let timestamp_secs = now_unix();
    let public_key_b64 = identity.public_key_b64();
    let to_sign = client_hello_signing_bytes(
        device_id,
        public_key_b64.as_str(),
        &nonce,
        timestamp_secs,
        capabilities,
    );
    let signature = identity.sign(to_sign.as_slice());

    ClientHello {
        device_id: String::from_str(device_id),
        public_key_b64,
        nonce,
        timestamp_secs,
        capabilities,
        signature,
    }
}

/// Creates a signed client hello with the default capabilities.
pub fn create_client_hello(device_id: &str, identity: &DeviceIdentity) -> (r: ClientHello)
    ensures
        r.device_id@ == device_id@,
        r.public_key_b64@ == base64_of(ed25519_public_key_of(identity.spec_secret())),
        r.capabilities == (HandshakeCapabilities {
            supports_encryption: false,
            preferred_encryption_mode: EncryptionMode::Off,
        }),
        spec_client_hello_sig_ok(r),
{
    create_client_hello_with_capabilities(
        device_id,
        identity,
        HandshakeCapabilities {
            supports_encryption: false,
            preferred_encryption_mode: EncryptionMode::Off,
        },
    )
}

/// Whether a message timestamp lies farther than `max_skew` seconds
/// from `now`, in either direction.
pub open spec fn spec_is_skewed(msg_ts: u64, now: u64, max_skew: u64) -> bool {
    if msg_ts > now {
        msg_ts - now > max_skew
    } else {
        now - msg_ts > max_skew
    }
}

/// What client hello verification decides: a skewed timestamp fails
/// with `TimestampSkew`; then the signature is checked over the hello's
/// exact fields, failing with the identity error or `InvalidSignature`.
pub open spec fn spec_verify_client_hello(h: ClientHello, max_skew_secs: u64, now_secs: u64) -> Result<
    (),
    HandshakeError,
> {
    if spec_is_skewed(h.timestamp_secs, now_secs, max_skew_secs) {
        Err(HandshakeError::TimestampSkew)
    } else {
        match spec_verify_signature(
            h.public_key_b64@,
            spec_client_hello_signing_bytes(
                h.device_id@,
                h.public_key_b64@,
                h.nonce@,
                h.timestamp_secs,
                h.capabilities,
            ),
            h.signature@,
        ) {
            Err(ie) => Err(HandshakeError::Identity(ie)),
            Ok(valid) => if valid {
                Ok(())
            } else {
                Err(HandshakeError::InvalidSignature)
            },
        }
    }
}

/// Verifies a client hello against the clock and its own signature.
pub fn verify_client_hello(hello: &ClientHello, max_skew_secs: u64, now_secs: u64) -> (r: Result<
    (),
    HandshakeError,
>)
    ensures
        r == spec_verify_client_hello(*hello, max_skew_secs, now_secs),
{
    let skewed: bool = if hello.timestamp_secs > now_secs {
        hello.timestamp_secs - now_secs > max_skew_secs
    } else {
        now_secs - hello.timestamp_secs > max_skew_secs
    };
    if skewed {
        return Err(HandshakeError::TimestampSkew);
    }

    let data = client_hello_signing_bytes(
        hello.device_id.as_str(),
        hello.public_key_b64.as_str(),
        &hello.nonce,
        hello.timestamp_secs,
        hello.capabilities,
    );

    match verify_signature(hello.public_key_b64.as_str(), data.as_slice(), &hello.signature) {
        Err(ie) => Err(HandshakeError::Identity(ie)),
        Ok(valid) => if valid {
            Ok(())
        } else {
            Err(HandshakeError::InvalidSignature)
        },
    }
}

/// A hello fresh from `create_client_hello` verifies at its own
/// timestamp under any allowed skew.
pub proof fn lemma_fresh_client_hello_verifies(h: ClientHello, max_skew_secs: u64)
    requires
        spec_client_hello_sig_ok(h),
    ensures
        spec_verify_client_hello(h, max_skew_secs, h.timestamp_secs) == Ok::<(), HandshakeError>(
            (),
        ),
{
}

/// Creates a signed server hello answering a client hello, with the
/// given capabilities: echoes the client's nonce, draws a fresh server
/// nonce, and signs the hello's exact fields.
pub fn create_server_hello_with_capabilities(
    device_id: &str,
    server_identity: &DeviceIdentity,
    client_hello: &ClientHello,
    capabilities: HandshakeCapabilities,
) -> (r: ServerHello)
    ensures
        r.device_id@ == device_id@,
        r.public_key_b64@ == base64_of(ed25519_public_key_of(server_identity.spec_secret())),
        r.client_nonce@ == client_hello.nonce@,
        r.capabilities == capabilities,
        r.signature@ == ed25519_signature_of(
            server_identity.spec_secret(),
            spec_server_hello_signing_bytes(
                r.device_id@,
                r.public_key_b64@,
                r.client_nonce@,
                r.server_nonce@,
                r.timestamp_secs,
                capabilities,
            ),
        ),
        spec_server_hello_sig_ok(r),
{
    let server_nonce = crate::identity::random_bytes_32();
    let timestamp_secs = now_unix();
    let public_key_b64 = server_identity.public_key_b64();
    let data = server_hello_signing_bytes(
        device_id,
        public_key_b64.as_str(),
        &client_hello.nonce,
        &server_nonce,
        timestamp_secs,
        capabilities,
    );
    let signature = server_identity.sign(data.as_slice());

    ServerHello {
        device_id: String::from_str(device_id),
        public_key_b64,
        client_nonce: client_hello.nonce,
        server_nonce,
        timestamp_secs,
        capabilities,
        signature,
    }
}

/// Creates a signed server hello with the default capabilities.
pub fn create_server_hello(
    device_id: &str,
    server_identity: &DeviceIdentity,
    client_hello: &ClientHello,
) -> (r: ServerHello)
    ensures
        r.device_id@ == device_id@,
        r.public_key_b64@ == base64_of(ed25519_public_key_of(server_identity.spec_secret())),
        r.client_nonce@ == client_hello.nonce@,
        r.capabilities == (HandshakeCapabilities {
            supports_encryption: false,
            preferred_encryption_mode: EncryptionMode::Off,
        }),
        spec_server_hello_sig_ok(r),
{
    create_server_hello_with_capabilities(
        device_id,
        server_identity,
        client_hello,
        HandshakeCapabilities {
            supports_encryption: false,
            preferred_encryption_mode: EncryptionMode::Off,
        },
    )
}

/// What server hello verification decides: the echoed client nonce must
/// match first (`NonceMismatch`), then skew and signature as for a
/// client hello.
pub open spec fn spec_verify_server_hello(
    expected_client_nonce: Seq<u8>,
    h: ServerHello,
    max_skew_secs: u64,
    now_secs: u64,
) -> Result<(), HandshakeError> {
    if h.client_nonce@ != expected_client_nonce {
        Err(HandshakeError::NonceMismatch)
    } else if spec_is_skewed(h.timestamp_secs, now_secs, max_skew_secs) {
        Err(HandshakeError::TimestampSkew)
    } else {
        match spec_verify_signature(
            h.public_key_b64@,
            spec_server_hello_signing_bytes(
                h.device_id@,
                h.public_key_b64@,
                h.client_nonce@,
                h.server_nonce@,
                h.timestamp_secs,
                h.capabilities,
            ),
            h.signature@,
        ) {
            Err(ie) => Err(HandshakeError::Identity(ie)),
            Ok(valid) => if valid {
                Ok(())
            } else {
                Err(HandshakeError::InvalidSignature)
            },
        }
    }
}

/// Verifies a server hello against the expected client nonce, the clock
/// and its own signature.
pub fn verify_server_hello(
    expected_client_nonce: [u8; 32],
    hello: &ServerHello,
    max_skew_secs: u64,
    now_secs: u64,
) -> (r: Result<(), HandshakeError>)
    ensures
        r == spec_verify_server_hello(expected_client_nonce@, *hello, max_skew_secs, now_secs),
{
    if !bytes_eq(hello.client_nonce.as_slice(), expected_client_nonce.as_slice()) {
        return Err(HandshakeError::NonceMismatch);
    }

    let skewed: bool = if hello.timestamp_secs > now_secs {
        hello.timestamp_secs - now_secs > max_skew_secs
    } else {
        now_secs - hello.timestamp_secs > max_skew_secs
    };
    if skewed {
        return Err(HandshakeError::TimestampSkew);
    }

    let data = server_hello_signing_bytes(
        hello.device_id.as_str(),
        hello.public_key_b64.as_str(),
        &hello.client_nonce,
        &hello.server_nonce,
        hello.timestamp_secs,
        hello.capabilities,
    );

    match verify_signature(hello.public_key_b64.as_str(), data.as_slice(), &hello.signature) {
        Err(ie) => Err(HandshakeError::Identity(ie)),
        Ok(valid) => if valid {
            Ok(())
        } else {
            Err(HandshakeError::InvalidSignature)
        },
    }
}

/// A hello fresh from `create_server_hello` verifies at its own
/// timestamp, against the client nonce it echoes, under any allowed
/// skew.
pub proof fn lemma_fresh_server_hello_verifies(h: ServerHello, max_skew_secs: u64)
    requires
        spec_server_hello_sig_ok(h),
    ensures
        spec_verify_server_hello(h.client_nonce@, h, max_skew_secs, h.timestamp_secs) == Ok::<
            (),
            HandshakeError,
        >(()),
{
}

/// The session keys of one peer: what it sends with and receives with.
#[derive(Debug, Clone, PartialEq, Eq)]
pub struct SessionKeys {
    pub tx_key: [u8; 32],
    pub rx_key: [u8; 32],
}

/// The KDF label of the client-to-server direction: the ASCII bytes of
/// `p2p/c2s`.
pub open spec fn spec_label_c2s() -> Seq<u8> {
    seq![112u8, 50u8, 112u8, 47u8, 99u8, 50u8, 115u8]
}

/// The KDF label of the server-to-client direction: the ASCII bytes of
/// `p2p/s2c`.
pub open spec fn spec_label_s2c() -> Seq<u8> {
    seq![112u8, 50u8, 112u8, 47u8, 115u8, 50u8, 99u8]
}

/// One direction's key: SHA-256 over the label, both public keys and
/// both nonces.
pub open spec fn spec_key_material(
    label: Seq<u8>,
    client_public_key_b64: Seq<char>,
    server_public_key_b64: Seq<char>,
    client_nonce: Seq<u8>,
    server_nonce: Seq<u8>,
) -> Seq<u8> {
    sha256_of(
        label + vstd::utf8::encode_utf8(client_public_key_b64) + vstd::utf8::encode_utf8(
            server_public_key_b64,
        ) + client_nonce + server_nonce,
    )
}

/// Derives one direction's key.
fn derive_key_material(
    label: &[u8],
    client_public_key_b64: &str,
    server_public_key_b64: &str,
    client_nonce: &[u8; 32],
    server_nonce: &[u8; 32],
) -> (r: [u8; 32])
    ensures
        r@ == spec_key_material(
            label@,
            client_public_key_b64@,
            server_public_key_b64@,
            client_nonce@,
            server_nonce@,
        ),
{
    let mut msg: Vec<u8> = Vec::new();
    msg.extend_from_slice(label);
    msg.extend_from_slice(client_public_key_b64.as_bytes());
    msg.extend_from_slice(server_public_key_b64.as_bytes());
    msg.extend_from_slice(client_nonce.as_slice());
    msg.extend_from_slice(server_nonce.as_slice());
    proof {
        assert(msg@ =~= label@ + vstd::utf8::encode_utf8(client_public_key_b64@)
            + vstd::utf8::encode_utf8(server_public_key_b64@) + client_nonce@ + server_nonce@);
    }
    sha256(msg.as_slice())
}

/// Derives both directional session keys from the handshake transcript:
/// the client transmits with the client-to-server key, the server with
/// the server-to-client key; each receives with the other.
pub fn derive_session_keys(
    client_public_key_b64: &str,
    server_public_key_b64: &str,
    client_nonce: [u8; 32],
    server_nonce: [u8; 32],
    is_client: bool,
) -> (r: SessionKeys)
    ensures
        ({
            let c2s = spec_key_material(
                spec_label_c2s(),
                client_public_key_b64@,
                server_public_key_b64@,
                client_nonce@,
                server_nonce@,
            );
            let s2c = spec_key_material(
                spec_label_s2c(),
                client_public_key_b64@,
                server_public_key_b64@,
                client_nonce@,
                server_nonce@,
            );
            &&& r.tx_key@ == (if is_client {
                c2s
            } else {
                s2c
            })
            &&& r.rx_key@ == (if is_client {
                s2c
            } else {
                c2s
            })
        }),
{
    let mut label_c2s: Vec<u8> = Vec::new();
    label_c2s.push(112u8);
    label_c2s.push(50u8);
    label_c2s.push(112u8);
    label_c2s.push(47u8);
    label_c2s.push(99u8);
    label_c2s.push(50u8);
    label_c2s.push(115u8);
    let mut label_s2c: Vec<u8> = Vec::new();
    label_s2c.push(112u8);
    label_s2c.push(50u8);
    label_s2c.push(112u8);
    label_s2c.push(47u8);
    label_s2c.push(115u8);
    label_s2c.push(50u8);
    label_s2c.push(99u8);
    proof {
        assert(label_c2s@ =~= spec_label_c2s());
        assert(label_s2c@ =~= spec_label_s2c());
    }
    let c2s = derive_key_material(
        label_c2s.as_slice(),
        client_public_key_b64,
        server_public_key_b64,
        &client_nonce,
        &server_nonce,
    );
    let s2c = derive_key_material(
        label_s2c.as_slice(),
        client_public_key_b64,
        server_public_key_b64,
        &client_nonce,
        &server_nonce,
    );

    if is_client {
        SessionKeys { tx_key: c2s, rx_key: s2c }
    } else {
        SessionKeys { tx_key: s2c, rx_key: c2s }
    }
}

/// Session keys are directional and consistent: over one transcript,
/// what the client transmits with is what the server receives with, and
/// the other way round. (That the two directions' keys differ rests on
/// the collision resistance of the hash and is checked by test, not
/// proved.)
pub proof fn lemma_session_keys_directional(
    client_public_key_b64: Seq<char>,
    server_public_key_b64: Seq<char>,
    client_nonce: Seq<u8>,
    server_nonce: Seq<u8>,
)
    ensures
        ({
            let c2s = spec_key_material(
                spec_label_c2s(),
                client_public_key_b64,
                server_public_key_b64,
                client_nonce,
                server_nonce,
            );
            let s2c = spec_key_material(
                spec_label_s2c(),
                client_public_key_b64,
                server_public_key_b64,
                client_nonce,
                server_nonce,
            );
            let client_tx = c2s;
            let client_rx = s2c;
            let server_tx = s2c;
            let server_rx = c2s;
            client_tx == server_rx && client_rx == server_tx
        }),
{
}

} // verus!
