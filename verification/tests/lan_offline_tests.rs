use p2p_core::lan::{LanOfflineGuard, LanPolicy, PolicyDecision};
use p2p_core::net::{IpAddress, SocketAddress};

fn v4(a: u8, b: u8, c: u8, d: u8, port: u16) -> SocketAddress {
    SocketAddress {
        ip: IpAddress::V4([a, b, c, d]),
        port,
    }
}

fn v6(seg0: u16, tail: u16, port: u16) -> SocketAddress {
    SocketAddress {
        ip: IpAddress::V6([seg0, 0, 0, 0, 0, 0, 0, tail]),
        port,
    }
}

#[test]
fn allows_private_and_denies_public_in_offline_mode() {
    let guard = LanOfflineGuard::new(LanPolicy::default());

    let private = v4(192, 168, 1, 10, 9000);
    let public = v4(8, 8, 8, 8, 53);

    assert_eq!(guard.evaluate_peer(private), PolicyDecision::Allow);
    assert_eq!(
        guard.evaluate_peer(public),
        PolicyDecision::Deny("public internet address denied in offline mode")
    );
}

#[test]
fn allows_link_local_ipv4_and_ipv6() {
    let guard = LanOfflineGuard::new(LanPolicy::default());

    let ll4 = v4(169, 254, 10, 20, 8080);
    let ll6 = v6(0xfe80, 0x1234, 8080);

    assert_eq!(guard.evaluate_peer(ll4), PolicyDecision::Allow);
    assert_eq!(guard.evaluate_peer(ll6), PolicyDecision::Allow);
}

#[test]
fn validate_peer_set_fails_on_public_member() {
    let guard = LanOfflineGuard::new(LanPolicy::default());
    let peers = vec![v4(10, 0, 0, 4, 7000), v4(8, 8, 4, 4, 53)];

    let err = guard
        .validate_peer_set(&peers)
        .expect_err("public address should fail");
    assert!(err
        .message()
        .contains("public internet address denied in offline mode"));
}

#[test]
fn disabling_offline_mode_allows_public_addresses() {
    let mut guard = LanOfflineGuard::new(LanPolicy::default());
    guard.disable_offline_mode();

    let public = v4(1, 1, 1, 1, 443);
    assert_eq!(guard.evaluate_peer(public), PolicyDecision::Allow);
}

#[test]
fn deny_private_when_policy_disables_it() {
    let policy = LanPolicy {
        allow_private: false,
        ..LanPolicy::default()
    };
    let guard = LanOfflineGuard::new(policy);

    let private = v4(10, 1, 2, 3, 1234);
    assert_eq!(
        guard.evaluate_peer(private),
        PolicyDecision::Deny("private-range denied")
    );
}

#[test]
fn loopback_and_unique_local_classify_before_public() {
    let guard = LanOfflineGuard::new(LanPolicy::default());
    assert_eq!(guard.evaluate_peer(v4(127, 0, 0, 1, 80)), PolicyDecision::Allow);
    assert_eq!(guard.evaluate_peer(v6(0xfc01, 1, 80)), PolicyDecision::Allow);
    assert_eq!(
        guard.evaluate_peer(v6(0x2001, 1, 80)),
        PolicyDecision::Deny("public internet address denied in offline mode")
    );
}
