use aegis_firewall::errors::{AegisError, PolicyId, Timestamp};
use aegis_firewall::models::firewall::{
    default_log_level, CidrSpec, FirewallAction, FirewallDefaults, FirewallPolicy, PolicyMetadata,
    PortSpec,
};
use aegis_firewall::models::security::{Permission, Role};
use aegis_firewall::net::IpValue;
use std::collections::HashMap;

#[test]
fn test_port_spec_validation() {
    assert!(PortSpec::Single(80).validate().is_ok());
    assert!(PortSpec::Single(0).validate().is_err());
    assert!(PortSpec::Range(80, 8080).validate().is_ok());
    assert!(PortSpec::Range(8080, 80).validate().is_err());
}

#[test]
fn test_cidr_spec_validation() {
    // What the address part of each string reads as.
    assert!(CidrSpec("192.168.1.0/24".to_string()).validate_with_ip(Some(IpValue::V4(0xC0A8_0100))).is_ok());
    assert!(CidrSpec("10.0.0.1/32".to_string()).validate_with_ip(Some(IpValue::V4(0x0A00_0001))).is_ok());
    assert!(CidrSpec("2001:db8::/32".to_string())
        .validate_with_ip(Some(IpValue::V6(0x2001_0db8_u128 << 96)))
        .is_ok());
    assert!(CidrSpec("192.168.1.1/33".to_string()).validate_with_ip(Some(IpValue::V4(0xC0A8_0101))).is_err());
    assert!(CidrSpec("invalid-ip/24".to_string()).validate_with_ip(None).is_err());
}

#[test]
fn cidr_parts_and_prefixes() {
    let c = CidrSpec(" 10.1.0.0/16 ".to_string());
    assert_eq!(c.parts().unwrap(), ("10.1.0.0".to_string(), "16".to_string()));
    assert!(CidrSpec("10.0.0.0".to_string()).parts().is_err());
    assert!(CidrSpec("10.0.0.0/8/8".to_string()).parts().is_err());
    assert!(CidrSpec("::/129".to_string()).validate_with_ip(Some(IpValue::V6(0))).is_err());
    assert!(CidrSpec("::/128".to_string()).validate_with_ip(Some(IpValue::V6(0))).is_ok());
    assert!(CidrSpec("1.2.3.4/x".to_string()).validate_with_ip(Some(IpValue::V4(1))).is_err());
}

#[test]
fn port_spec_from_text() {
    assert_eq!(PortSpec::from_text("443").unwrap(), PortSpec::Single(443));
    assert_eq!(PortSpec::from_text("8080-8090").unwrap(), PortSpec::Range(8080, 8090));
    assert_eq!(PortSpec::from_text("8080 - 8090").unwrap(), PortSpec::Range(8080, 8090));
    assert!(PortSpec::from_text("70000").is_err());
    assert!(PortSpec::from_text("0").is_err());
    assert!(PortSpec::from_text("90-80").is_err());
    assert!(PortSpec::from_text("1-2-3").is_err());
    assert!(PortSpec::from_text("http").is_err());
    assert_eq!(PortSpec::from_number(22).unwrap(), PortSpec::Single(22));
    assert!(PortSpec::from_number(70000).is_err());
}

fn policy(api: &str, kind: &str) -> FirewallPolicy {
    FirewallPolicy {
        api_version: api.to_string(),
        kind: kind.to_string(),
        metadata: PolicyMetadata {
            name: "p".to_string(),
            id: PolicyId(1),
            version: 0,
            labels: HashMap::new(),
            created_at: Timestamp { secs: 0, nanos: 0 },
        },
        defaults: FirewallDefaults {
            input: FirewallAction::Drop,
            output: FirewallAction::Accept,
            forward: FirewallAction::Drop,
        },
        rules: vec![],
    }
}

#[test]
fn schema_version_is_checked() {
    assert!(policy("aegisnode.io/v1", "FirewallPolicy").validate_schema_version().is_ok());
    assert!(matches!(
        policy("aegisnode.io/v2", "FirewallPolicy").validate_schema_version(),
        Err(AegisError::Validation(_))
    ));
    assert!(policy("aegisnode.io/v1", "NatPolicy").validate_schema_version().is_err());
    assert_eq!(default_log_level(), "info");
}

#[test]
fn role_permissions() {
    let viewer = Role::Viewer.default_permissions();
    assert_eq!(viewer.len(), 5);
    assert!(!viewer.contains(&Permission::FirewallWrite));
    let admin = Role::PlatformAdmin.default_permissions();
    assert_eq!(admin.len(), 12);
    assert!(admin.contains(&Permission::AdminManage));
    assert_eq!(Role::Auditor.default_permissions(), viewer);
    assert_eq!(Role::Operator.default_permissions().len(), 8);
    assert_eq!(Role::SecurityAdmin.default_permissions().len(), 6);
    assert!(!Role::SecurityAdmin.default_permissions().contains(&Permission::AdminManage));
}

#[test]
fn validation_messages_name_the_values() {
    assert_eq!(
        PortSpec::Range(8080, 80).validate(),
        Err(AegisError::Validation("Invalid port range: 8080-80. Start port must be <= end port".to_string()))
    );
    assert_eq!(
        PortSpec::from_number(70000),
        Err(AegisError::Validation("Port number 70000 out of range 1..65535".to_string()))
    );
    assert_eq!(
        PortSpec::from_text("90-80"),
        Err(AegisError::Validation("Invalid range start 90 > end 80".to_string()))
    );
    let v4 = Some(IpValue::V4(0xc0a8_0101));
    assert_eq!(
        CidrSpec("192.168.1.1/33".to_string()).validate_with_ip(v4),
        Err(AegisError::Validation("IPv4 CIDR prefix /33 out of range (0..32)".to_string()))
    );
    let v6 = Some(IpValue::V6(1));
    assert_eq!(
        CidrSpec("::1/129".to_string()).validate_with_ip(v6),
        Err(AegisError::Validation("IPv6 CIDR prefix /129 out of range (0..128)".to_string()))
    );
}
