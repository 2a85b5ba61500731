//! The installer update policy: manifest validation and the decision
//! whether a candidate package may replace the current install.

use vstd::prelude::*;

use vstd::string::StringExecFns;
use vstd::string::StringSliceAdditionalSpecFns;

use crate::wire::{find_byte, parse_dec_u64, spec_find_byte, spec_parse_dec_u64, str_eq};

verus! {

/// The release channel of a package.
#[derive(Debug, Clone, Copy, PartialEq, Eq, Structural)]
pub enum UpdateChannel {
    Stable,
    Beta,
    Nightly,
}

impl UpdateChannel {
    /// The rank of a channel: stable below beta below nightly.
    pub open spec fn spec_rank(self) -> u8 {
        match self {
            UpdateChannel::Stable => 0u8,
            UpdateChannel::Beta => 1u8,
            UpdateChannel::Nightly => 2u8,
        }
    }
}

/// The rank of a channel.
fn channel_rank(channel: UpdateChannel) -> (r: u8)
    ensures
        r == channel.spec_rank(),
{
    match channel {
        UpdateChannel::Stable => 0u8,
        UpdateChannel::Beta => 1u8,
        UpdateChannel::Nightly => 2u8,
    }
}

/// What an update server offers.
#[derive(Debug, Clone, PartialEq, Eq)]
pub struct PackageManifest {
    pub version: String,
    pub channel: UpdateChannel,
    pub platform: String,
    pub package_url: String,
    pub sha256: String,
    pub rollback_from: Option<String>,
}

/// What the installer will accept.
#[derive(Debug, Clone, PartialEq, Eq)]
pub struct InstallPolicy {
    pub allow_channel_upgrade: bool,
    pub allow_downgrade: bool,
    pub require_https: bool,
    pub allowed_platforms: Vec<String>,
}

impl Default for InstallPolicy {
    /// The default policy: channel upgrades allowed, downgrades not,
    /// HTTPS required, and the three first-party platforms allowed.
    fn default() -> (r: Self)
        ensures
            r.allow_channel_upgrade,
            !r.allow_downgrade,
            r.require_https,
            r.allowed_platforms@.len() == 3,
            r.allowed_platforms@[0]@ == "windows-x86_64"@,
            r.allowed_platforms@[1]@ == "macos-aarch64"@,
            r.allowed_platforms@[2]@ == "linux-x86_64"@,
    {
        let mut allowed: Vec<String> = Vec::new();
        allowed.push(String::from_str("windows-x86_64"));
        allowed.push(String::from_str("macos-aarch64"));
        allowed.push(String::from_str("linux-x86_64"));
        Self {
            allow_channel_upgrade: true,
            allow_downgrade: false,
            require_https: true,
            allowed_platforms: allowed,
        }
    }
}

/// The installer's verdict on a candidate.
#[derive(Debug, Clone, PartialEq, Eq)]
pub struct UpdateDecision {
    pub allowed: bool,
    pub reason: &'static str,
}

/// Errors of the installer layer.
#[derive(Debug, Clone, PartialEq, Eq)]
pub enum InstallerError {
    InvalidManifest(&'static str),
    PolicyViolation(&'static str),
}

impl InstallerError {
    /// Human-readable description of the error.
    pub fn message(&self) -> String {
        match self {
            InstallerError::InvalidManifest(m) => String::from_str("invalid manifest: ").concat(
                m,
            ),
            InstallerError::PolicyViolation(m) => String::from_str("policy violation: ").concat(
                m,
            ),
        }
    }
}

/// Whether a byte is ASCII whitespace.
pub open spec fn spec_is_ascii_space(b: u8) -> bool {
    b == 32 || b == 9 || b == 10 || b == 13 || b == 11 || b == 12
}

/// Whether a string is blank: empty, or ASCII whitespace only.
pub open spec fn spec_is_blank(s: Seq<u8>) -> bool {
    forall|i: int| 0 <= i < s.len() ==> spec_is_ascii_space(#[trigger] s[i])
}

/// Whether a byte is an ASCII hex digit.
pub open spec fn spec_is_hex_digit(b: u8) -> bool {
    (48 <= b <= 57) || (65 <= b <= 70) || (97 <= b <= 102)
}

/// Whether a string is a 64-character hex digest.
pub open spec fn spec_is_hex64(s: Seq<u8>) -> bool {
    s.len() == 64 && forall|i: int| 0 <= i < s.len() ==> spec_is_hex_digit(#[trigger] s[i])
}

/// The ASCII bytes of `https://`.
pub open spec fn spec_https_prefix() -> Seq<u8> {
    seq![104u8, 116u8, 116u8, 112u8, 115u8, 58u8, 47u8, 47u8]
}

/// Whether a URL starts with `https://`.
pub open spec fn spec_is_https(url: Seq<u8>) -> bool {
    url.len() >= 8 && url.take(8) == spec_https_prefix()
}

/// Whether a platform name is in the allowed list.
pub open spec fn spec_platform_allowed(platform: Seq<char>, allowed: Seq<String>) -> bool {
    exists|i: int| 0 <= i < allowed.len() && (#[trigger] allowed[i])@ == platform
}

/// What manifest validation decides: a blank version or a malformed
/// digest is an invalid manifest; a non-HTTPS URL under an HTTPS-only
/// policy or a platform outside the allowed list is a policy violation.
pub open spec fn spec_validate_manifest(m: PackageManifest, policy: InstallPolicy) -> Result<
    (),
    InstallerError,
> {
    if spec_is_blank(vstd::utf8::encode_utf8(m.version@)) {
        Err(InstallerError::InvalidManifest("version is empty"))
    } else if !spec_is_hex64(vstd::utf8::encode_utf8(m.sha256@)) {
        Err(InstallerError::InvalidManifest("sha256 must be 64 hex chars"))
    } else if policy.require_https && !spec_is_https(vstd::utf8::encode_utf8(m.package_url@)) {
        Err(InstallerError::PolicyViolation("non-https package url denied"))
    } else if !spec_platform_allowed(m.platform@, policy.allowed_platforms@) {
        Err(InstallerError::PolicyViolation("platform not allowed"))
    } else {
        Ok(())
    }
}

/// Tests whether a string slice is blank.
fn is_blank(s: &str) -> (r: bool)
    ensures
        r == spec_is_blank(s.spec_bytes()),
{
    let bytes = s.as_bytes();
    let mut i: usize = 0;
    while i < bytes.len()
        invariant
            i <= bytes@.len(),
            bytes@ == s.spec_bytes(),
            forall|j: int| 0 <= j < i ==> spec_is_ascii_space(#[trigger] bytes@[j]),
        decreases bytes@.len() - i,
    {
        let b = bytes[i];
        if !(b == 32 || b == 9 || b == 10 || b == 13 || b == 11 || b == 12) {
            return false;
        }
        i = i + 1;
    }
    true
}

/// Tests whether a string slice is a 64-character hex digest.
fn is_hex64(s: &str) -> (r: bool)
    ensures
        r == spec_is_hex64(s.spec_bytes()),
{
    let bytes = s.as_bytes();
    if bytes.len() != 64 {
        return false;
    }
    let mut i: usize = 0;
    while i < bytes.len()
        invariant
            i <= bytes@.len(),
            bytes@ == s.spec_bytes(),
            bytes@.len() == 64,
            forall|j: int| 0 <= j < i ==> spec_is_hex_digit(#[trigger] bytes@[j]),
        decreases bytes@.len() - i,
    {
        let b = bytes[i];
        if !((48 <= b && b <= 57) || (65 <= b && b <= 70) || (97 <= b && b <= 102)) {
            return false;
        }
        i = i + 1;
    }
    true
}

/// Tests whether a URL starts with `https://`.
fn is_https(url: &str) -> (r: bool)
    ensures
        r == spec_is_https(url.spec_bytes()),
{
    let bytes = url.as_bytes();
    if bytes.len() < 8 {
        return false;
    }
    let r = bytes[0] == 104 && bytes[1] == 116 && bytes[2] == 116 && bytes[3] == 112 && bytes[4]
        == 115 && bytes[5] == 58 && bytes[6] == 47 && bytes[7] == 47;
    proof {
        if r {
            assert(bytes@.take(8) =~= spec_https_prefix());
        } else {
            assert(bytes@.take(8) != spec_https_prefix());
        }
    }
    r
}

/// Validates a manifest against a policy.
pub fn validate_manifest(manifest: &PackageManifest, policy: &InstallPolicy) -> (r: Result<
    (),
    InstallerError,
>)
    ensures
        r == spec_validate_manifest(*manifest, *policy),
{
    if is_blank(manifest.version.as_str()) {
        return Err(InstallerError::InvalidManifest("version is empty"));
    }
    if !is_hex64(manifest.sha256.as_str()) {
        return Err(InstallerError::InvalidManifest("sha256 must be 64 hex chars"));
    }
    if policy.require_https && !is_https(manifest.package_url.as_str()) {
        return Err(InstallerError::PolicyViolation("non-https package url denied"));
    }

    let mut found: bool = false;
    let mut i: usize = 0;
    while i < policy.allowed_platforms.len()
        invariant
            i <= policy.allowed_platforms@.len(),
            found <==> exists|j: int|
                0 <= j < i && (#[trigger] policy.allowed_platforms@[j])@ == manifest.platform@,
        decreases policy.allowed_platforms@.len() - i,
    {
        if str_eq(policy.allowed_platforms[i].as_str(), manifest.platform.as_str()) {
            found = true;
        }
        i = i + 1;
    }
    if !found {
        return Err(InstallerError::PolicyViolation("platform not allowed"));
    }
    Ok(())
}

/// The parse of a `major.minor.patch` version string: three decimal
/// components split on exactly two dots.
pub open spec fn spec_parse_semver(v: Seq<u8>) -> Option<(u64, u64, u64)> {
    let i1 = spec_find_byte(v, 46);
    if i1 == -1 {
        None
    } else {
        let major = spec_parse_dec_u64(v.take(i1));
        let rest1 = v.skip(i1 + 1);
        let i2 = spec_find_byte(rest1, 46);
        if major is None || i2 == -1 {
            None
        } else {
            let minor = spec_parse_dec_u64(rest1.take(i2));
            let patch = spec_parse_dec_u64(rest1.skip(i2 + 1));
            if minor is None || patch is None {
                None
            } else {
                Some((major->Some_0, minor->Some_0, patch->Some_0))
            }
        }
    }
}

/// Parses a `major.minor.patch` version string.
fn parse_semver(v: &str) -> (r: Result<(u64, u64, u64), InstallerError>)
    ensures
        match r {
            Ok(t) => spec_parse_semver(v.spec_bytes()) == Some(t),
            Err(e) => spec_parse_semver(v.spec_bytes()) is None && e
                == InstallerError::InvalidManifest("invalid semver"),
        },
{
    let bytes = v.as_bytes();
    let n = bytes.len();
    let i1 = match find_byte(bytes, 46u8) {
        Some(i) => i,
        None => {
            return Err(InstallerError::InvalidManifest("invalid semver"));
        },
    };
    let major_part = &bytes[0..i1];
    let rest1 = &bytes[i1 + 1..n];
    proof {
        assert(major_part@ =~= bytes@.take(i1 as int));
        assert(rest1@ =~= bytes@.skip(i1 as int + 1));
    }
    let major = match parse_dec_u64(major_part) {
        Some(m) => m,
        None => {
            return Err(InstallerError::InvalidManifest("invalid semver"));
        },
    };
    let n1 = rest1.len();
    let i2 = match find_byte(rest1, 46u8) {
        Some(i) => i,
        None => {
            return Err(InstallerError::InvalidManifest("invalid semver"));
        },
    };
    let minor_part = &rest1[0..i2];
    let patch_part = &rest1[i2 + 1..n1];
    proof {
        assert(minor_part@ =~= rest1@.take(i2 as int));
        assert(patch_part@ =~= rest1@.skip(i2 as int + 1));
    }
    let minor = match parse_dec_u64(minor_part) {
        Some(m) => m,
        None => {
            return Err(InstallerError::InvalidManifest("invalid semver"));
        },
    };
    let patch = match parse_dec_u64(patch_part) {
        Some(m) => m,
        None => {
            return Err(InstallerError::InvalidManifest("invalid semver"));
        },
    };
    Ok((major, minor, patch))
}

/// The lexicographic order of two parsed versions: 1, -1 or 0.
pub open spec fn spec_semver_cmp(a: (u64, u64, u64), b: (u64, u64, u64)) -> int {
    if a.0 > b.0 || (a.0 == b.0 && a.1 > b.1) || (a.0 == b.0 && a.1 == b.1 && a.2 > b.2) {
        1
    } else if a == b {
        0
    } else {
        -1
    }
}

/// Compares two version strings after parsing both.
fn compare_semver(a: &str, b: &str) -> (r: Result<i8, InstallerError>)
    ensures
        match r {
            Ok(c) => {
                &&& spec_parse_semver(a.spec_bytes()) matches Some(pa)
                &&& spec_parse_semver(b.spec_bytes()) matches Some(pb)
                &&& c == spec_semver_cmp(
                    spec_parse_semver(a.spec_bytes())->Some_0,
                    spec_parse_semver(b.spec_bytes())->Some_0,
                )
            },
            Err(e) => (spec_parse_semver(a.spec_bytes()) is None || spec_parse_semver(
                b.spec_bytes(),
            ) is None) && e == InstallerError::InvalidManifest("invalid semver"),
        },
{
    let pa = match parse_semver(a) {
        Ok(t) => t,
        Err(e) => {
            return Err(e);
        },
    };
    let pb = match parse_semver(b) {
        Ok(t) => t,
        Err(e) => {
            return Err(e);
        },
    };
    if pa.0 > pb.0 || (pa.0 == pb.0 && pa.1 > pb.1) || (pa.0 == pb.0 && pa.1 == pb.1 && pa.2
        > pb.2) {
        Ok(1)
    } else if pa.0 == pb.0 && pa.1 == pb.1 && pa.2 == pb.2 {
        Ok(0)
    } else {
        Ok(-1)
    }
}

/// What the update decision is for a valid candidate whose versions
/// parse: downgrades and channel upgrades may be blocked by policy, the
/// same version is never re-installed, and anything newer is accepted.
pub open spec fn spec_evaluate_update(
    cmp: int,
    current_channel: UpdateChannel,
    candidate_channel: UpdateChannel,
    policy: InstallPolicy,
) -> UpdateDecision {
    if cmp < 0 && !policy.allow_downgrade {
        UpdateDecision { allowed: false, reason: "downgrade blocked by policy" }
    } else if !policy.allow_channel_upgrade && candidate_channel.spec_rank()
        > current_channel.spec_rank() {
        UpdateDecision { allowed: false, reason: "channel upgrade blocked by policy" }
    } else if cmp == 0 {
        UpdateDecision { allowed: false, reason: "already on same version" }
    } else {
        UpdateDecision { allowed: true, reason: "update accepted" }
    }
}

/// Decides whether a candidate manifest may replace the current
/// version: the manifest is validated first, both versions must parse,
/// and the policy ladder of `spec_evaluate_update` decides.
pub fn evaluate_update(
    current_version: &str,
    current_channel: UpdateChannel,
    candidate: &PackageManifest,
    policy: &InstallPolicy,
) -> (r: Result<UpdateDecision, InstallerError>)
    ensures
        spec_validate_manifest(*candidate, *policy) matches Err(e) ==> r == Err::<
            UpdateDecision,
            _,
        >(e),
        spec_validate_manifest(*candidate, *policy) is Ok ==> match r {
            Ok(d) => {
                &&& spec_parse_semver(vstd::utf8::encode_utf8(candidate.version@)) matches Some(pc)
                &&& spec_parse_semver(current_version.spec_bytes()) matches Some(pv)
                &&& d == spec_evaluate_update(
                    spec_semver_cmp(
                        spec_parse_semver(vstd::utf8::encode_utf8(candidate.version@))->Some_0,
                        spec_parse_semver(current_version.spec_bytes())->Some_0,
                    ),
                    current_channel,
                    candidate.channel,
                    *policy,
                )
            },
            Err(e) => (spec_parse_semver(vstd::utf8::encode_utf8(candidate.version@)) is None
                || spec_parse_semver(current_version.spec_bytes()) is None) && e
                == InstallerError::InvalidManifest("invalid semver"),
        },
{
    match validate_manifest(candidate, policy) {
        Ok(_) => (),
        Err(e) => {
            return Err(e);
        },
    }

    let version_cmp = match compare_semver(candidate.version.as_str(), current_version) {
        Ok(c) => c,
        Err(e) => {
            return Err(e);
        },
    };

    if version_cmp < 0 && !policy.allow_downgrade {
        return Ok(UpdateDecision { allowed: false, reason: "downgrade blocked by policy" });
    }

    if !policy.allow_channel_upgrade && channel_rank(candidate.channel) > channel_rank(
        current_channel,
    ) {
        return Ok(UpdateDecision { allowed: false, reason: "channel upgrade blocked by policy" });
    }

    if version_cmp == 0 {
        return Ok(UpdateDecision { allowed: false, reason: "already on same version" });
    }

    Ok(UpdateDecision { allowed: true, reason: "update accepted" })
}

/// Builds the rollback marker written after a failed update.
pub fn rollback_marker(previous_version: &str, failed_version: &str) -> (r: String)
    ensures
        r@ == "rollback:"@ + previous_version@ + "<-"@ + failed_version@,
{
    let mut out = String::from_str("rollback:");
    out.append(previous_version);
    out.append("<-");
    out.append(failed_version);
    out
}

} // verus!
