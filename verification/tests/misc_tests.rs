use rsprobe::current_unix_timestamp_ms;
use rsprobe::packet_capture::{is_rtp_packet, is_target_rtp};
use rsprobe::system_stats::{stats_cache_expired, DiskStats, NetworkStats};

#[test]
fn rtp_payload_type_is_checked() {
    assert!(is_rtp_packet(&[96, 1, 2]));
    assert!(!is_rtp_packet(&[97]));
    assert!(!is_rtp_packet(&[]));
}

#[test]
fn rtp_target_needs_udp_address_port_and_payload_type() {
    let ip = [192, 168, 1, 1];
    assert!(is_target_rtp(true, ip, 1234, &[96]));
    assert!(!is_target_rtp(false, ip, 1234, &[96]));
    assert!(!is_target_rtp(true, [192, 168, 1, 2], 1234, &[96]));
    assert!(!is_target_rtp(true, ip, 1235, &[96]));
    assert!(!is_target_rtp(true, ip, 1234, &[0]));
}

#[test]
fn stats_cache_expires_after_sixty_seconds() {
    assert!(!stats_cache_expired(60_000_000_000));
    assert!(stats_cache_expired(60_000_000_001));
    assert!(!stats_cache_expired(0));
}

#[test]
fn clock_reads_after_2020() {
    let now = current_unix_timestamp_ms().unwrap();
    assert!(now > 1_577_836_800_000);
}

#[test]
fn stats_records_hold_their_fields() {
    let n = NetworkStats {
        name: "eth0".to_string(),
        received: 1,
        transmitted: 2,
        packets_received: 3,
        packets_transmitted: 4,
        errors_on_received: 5,
        errors_on_transmitted: 6,
    };
    let d = DiskStats {
        name: "sda".to_string(),
        total_space: 10,
        available_space: 4,
        is_removable: false,
    };
    assert_eq!(n.clone().errors_on_transmitted, 6);
    assert_eq!(d.clone().available_space, 4);
}
