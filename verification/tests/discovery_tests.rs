use p2p_core::discovery::Announcement;

fn sample_announcement(port: u16) -> Announcement {
    Announcement {
        device_id: "device-123".to_string(),
        public_key_b64: "PUBKEYBASE64".to_string(),
        display_name: "Alice Laptop".to_string(),
        port,
    }
}

#[test]
fn announcement_round_trip_encode_decode() {
    let a = sample_announcement(5000);
    let b = Announcement::decode(&a.encode()).expect("decode works");
    assert_eq!(a, b);
}

#[test]
fn invalid_packet_is_rejected() {
    let bad = b"NOT_DISCOVERY";
    assert!(Announcement::decode(bad).is_err());
}

#[test]
fn truncated_and_trailing_packets_are_rejected() {
    let encoded = sample_announcement(9000).encode();
    assert!(Announcement::decode(&encoded[..encoded.len() - 1]).is_err());

    let mut extra = encoded.clone();
    extra.push(0);
    assert!(Announcement::decode(&extra).is_err());
}

#[test]
fn packet_with_invalid_utf8_is_rejected() {
    let mut encoded = sample_announcement(9000).encode();
    // The device id starts after the magic, the port and one length field.
    encoded[8] = 0xff;
    assert!(Announcement::decode(&encoded).is_err());
}
