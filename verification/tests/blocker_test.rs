use aegis_firewall::blocker::{BlockManager, SshDetector};
use aegis_firewall::errors::{AegisError, Timestamp};
use aegis_firewall::models::firewall::CidrSpec;
use aegis_firewall::models::security::BlockerConfig;
use aegis_firewall::net::IpValue;

fn v4(a: u32, b: u32, c: u32, d: u32) -> Option<IpValue> {
    Some(IpValue::V4((a << 24) | (b << 16) | (c << 8) | d))
}

#[test]
fn test_block_manager_allowlist_protection() {
    let mut config = BlockerConfig::default();
    config.allowlist.push(CidrSpec("10.50.0.0/16".to_string()));

    let mut mgr = BlockManager::new(config);

    let res = mgr.add_block("203.0.113.100", v4(203, 0, 113, 100), Some(1800), "suspicious activity", "admin", None);
    assert!(res.is_ok());
    let entry = res.unwrap();
    assert_eq!(entry.ip, "203.0.113.100");

    let res_loopback = mgr.add_block("127.0.0.1", v4(127, 0, 0, 1), Some(1800), "loopback block", "admin", None);
    assert!(res_loopback.is_err());

    let res_explicit = mgr.add_block("10.50.1.2", v4(10, 50, 1, 2), Some(1800), "explicit allowlist block", "admin", None);
    assert!(res_explicit.is_err());

    // The administrator's SSH session comes from 192.168.1.100 (SSH_CLIENT "192.168.1.100 54321 22").
    let res_admin_session = mgr.add_block(
        "192.168.1.100",
        v4(192, 168, 1, 100),
        Some(1800),
        "admin session block",
        "admin",
        Some("192.168.1.100"),
    );
    assert!(res_admin_session.is_err());
}

#[test]
fn test_ssh_detector_sliding_window_trigger() {
    let mut mgr = BlockManager::new(BlockerConfig::default());
    let mut detector = SshDetector::new(5, 60, 1800);

    let attacker_ip = "198.51.100.42";
    let parsed = v4(198, 51, 100, 42);

    for _ in 0..4 {
        let res = detector.record_failure(attacker_ip, parsed, &mut mgr, None).unwrap();
        assert!(res.is_none());
    }

    let res = detector.record_failure(attacker_ip, parsed, &mut mgr, None).unwrap();
    assert!(res.is_some());
    let block = res.unwrap();
    assert_eq!(block.ip, attacker_ip);
    assert_eq!(block.actor, "ssh_detector");
}

fn at(secs: i64) -> Timestamp {
    Timestamp { secs, nanos: 0 }
}

#[test]
fn block_entry_expiry_and_listing() {
    let mut mgr = BlockManager::new(BlockerConfig::default());
    let e = mgr
        .add_block_at(" 203.0.113.7 ", v4(203, 0, 113, 7), Some(60), "r", "api", None, at(1000))
        .unwrap();
    assert_eq!(e.ip, "203.0.113.7");
    assert_eq!(e.expires_at, Some(at(1060)));
    let p = mgr.add_block_at("203.0.113.8", v4(203, 0, 113, 8), None, "r", "api", None, at(1000)).unwrap();
    assert_eq!(p.expires_at, None);
    assert!(!e.is_expired_at(at(1060)));
    assert!(e.is_expired_at(at(1061)));
    let listed = mgr.list_blocks_at(at(1100));
    assert_eq!(listed.len(), 1);
    assert_eq!(listed[0].ip, "203.0.113.8");
}

#[test]
fn block_replaces_entry_for_same_address() {
    let mut mgr = BlockManager::new(BlockerConfig::default());
    mgr.add_block_at("203.0.113.9", v4(203, 0, 113, 9), Some(10), "first", "api", None, at(0)).unwrap();
    mgr.add_block_at("203.0.113.9", v4(203, 0, 113, 9), Some(20), "second", "api", None, at(0)).unwrap();
    let listed = mgr.list_blocks_at(at(0));
    assert_eq!(listed.len(), 1);
    assert_eq!(listed[0].reason, "second");
    let removed = mgr.remove_block(" 203.0.113.9").unwrap();
    assert_eq!(removed.map(|e| e.reason), Some("second".to_string()));
    assert!(mgr.remove_block("203.0.113.9").unwrap().is_none());
}

#[test]
fn ipv6_loopback_and_unparsed_addresses() {
    let mgr = BlockManager::new(BlockerConfig::default());
    assert!(mgr.is_allowlisted("::1", Some(IpValue::V6(1)), None));
    assert!(!mgr.is_allowlisted("not-an-ip", None, Some("not-an-ip")));
    assert!(!mgr.is_allowlisted("8.8.8.8", v4(8, 8, 8, 8), None));
}

#[test]
fn nft_add_element_commands() {
    let mut mgr = BlockManager::new(BlockerConfig::default());
    let e = mgr.add_block_at("2001:db8::1", Some(IpValue::V6(0x2001_0db8_0000_0000_0000_0000_0000_0001)), Some(30), "r", "api", None, at(5)).unwrap();
    assert_eq!(
        BlockManager::build_nft_add_element_cmd(&e),
        "add element inet aegis_filter blocked_ipv6 { 2001:db8::1 timeout 30s }"
    );
    let f = mgr.add_block_at("203.0.113.1", v4(203, 0, 113, 1), None, "r", "api", None, at(5)).unwrap();
    assert_eq!(
        BlockManager::build_nft_add_element_cmd(&f),
        "add element inet aegis_filter blocked_ipv4 { 203.0.113.1 }"
    );
}

#[test]
fn ssh_failures_outside_window_are_forgotten() {
    let mut mgr = BlockManager::new(BlockerConfig::default());
    let mut d = SshDetector::new(3, 60, 600);
    let ip = v4(198, 51, 100, 7);
    assert!(d.record_failure_at("198.51.100.7", ip, &mut mgr, None, at(0)).unwrap().is_none());
    assert!(d.record_failure_at("198.51.100.7", ip, &mut mgr, None, at(10)).unwrap().is_none());
    // The first two failures have left the window.
    assert!(d.record_failure_at("198.51.100.7", ip, &mut mgr, None, at(200)).unwrap().is_none());
    assert!(d.record_failure_at("198.51.100.7", ip, &mut mgr, None, at(210)).unwrap().is_none());
    let b = d.record_failure_at("198.51.100.7", ip, &mut mgr, None, at(220)).unwrap().unwrap();
    assert_eq!(b.expires_at, Some(at(820)));
    assert_eq!(b.reason, "SSH authentication brute-force attempt detected");
}

#[test]
fn ssh_detector_cannot_block_allowlisted_address() {
    let mut mgr = BlockManager::new(BlockerConfig::default());
    let mut d = SshDetector::new(1, 60, 600);
    let r = d.record_failure_at("127.0.0.1", v4(127, 0, 0, 1), &mut mgr, None, at(0));
    assert!(r.is_err());
    d.cleanup_at(at(1000));
}

#[test]
fn block_duration_beyond_calendar_is_refused() {
    let mut mgr = BlockManager::new(BlockerConfig::default());
    let r = mgr.add_block("203.0.113.9", v4(203, 0, 113, 9), Some(u64::MAX), "scan", "admin", None);
    assert!(matches!(r, Err(AegisError::Validation(ref m)) if m == "Block duration out of range"));
    assert!(mgr.list_blocks().is_empty());
}
