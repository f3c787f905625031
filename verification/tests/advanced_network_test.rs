use aegis_firewall::advanced_network::AdvancedNetworkManager;
use aegis_firewall::models::advanced::{SynProxyConfig, VrfProfile};

#[test]
fn test_management_interface_protection() {
    let mgmt_iface = "eth0";
    let valid_slaves = vec!["eth1".to_string(), "eth2".to_string()];
    assert!(
        AdvancedNetworkManager::validate_management_interface_protection(&valid_slaves, mgmt_iface)
            .is_ok()
    );

    let invalid_slaves = vec!["eth0".to_string(), "eth1".to_string()];
    let result = AdvancedNetworkManager::validate_management_interface_protection(
        &invalid_slaves,
        mgmt_iface,
    );
    assert!(result.is_err(), "the management interface must never become a bond slave");
}

#[test]
fn test_vrf_profile_validation() {
    let valid_vrf = VrfProfile {
        vrf_name: "vrf-prod".to_string(),
        table_id: 100,
        interfaces: vec!["eth1".to_string()],
    };
    assert!(AdvancedNetworkManager::validate_vrf_profile(&valid_vrf).is_ok());

    let invalid_name_vrf = VrfProfile {
        vrf_name: "".to_string(),
        table_id: 100,
        interfaces: vec![],
    };
    assert!(AdvancedNetworkManager::validate_vrf_profile(&invalid_name_vrf).is_err());

    let invalid_table_vrf = VrfProfile {
        vrf_name: "vrf-test".to_string(),
        table_id: 0,
        interfaces: vec![],
    };
    assert!(AdvancedNetworkManager::validate_vrf_profile(&invalid_table_vrf).is_err());
}

#[test]
fn test_synproxy_rule_generation() {
    let syn_config = SynProxyConfig {
        mss: 1460,
        wscale: 7,
        syn_rate_limit: 100,
    };

    let nft_rule = AdvancedNetworkManager::generate_synproxy_nft_rule(&syn_config);

    assert!(nft_rule.contains("synproxy mss 1460 wscale 7"));
    assert!(nft_rule.contains("limit rate 100/second burst 200 packets accept"));
}

#[test]
fn test_dynamic_ip_set_update_commands() {
    let ips = vec!["1.2.3.4".to_string(), "5.6.7.8".to_string()];

    let add_cmd = AdvancedNetworkManager::generate_dynamic_set_add_command("blocklist", &ips);
    assert_eq!(
        add_cmd,
        "nft add element inet aegisnode blocklist { 1.2.3.4, 5.6.7.8 }"
    );

    let del_cmd = AdvancedNetworkManager::generate_dynamic_set_delete_command("blocklist", &ips);
    assert_eq!(
        del_cmd,
        "nft delete element inet aegisnode blocklist { 1.2.3.4, 5.6.7.8 }"
    );
}

#[test]
fn synproxy_rule_is_exact() {
    let cfg = SynProxyConfig { mss: 1400, wscale: 0, syn_rate_limit: 5 };
    assert_eq!(
        AdvancedNetworkManager::generate_synproxy_nft_rule(&cfg),
        "tcp flags syn tcp option maxseg size set 1400 synproxy mss 1400 wscale 0 limit rate 5/second burst 200 packets accept"
    );
}

#[test]
fn empty_set_commands_have_empty_braces() {
    let none: Vec<String> = vec![];
    assert_eq!(
        AdvancedNetworkManager::generate_dynamic_set_add_command("s", &none),
        "nft add element inet aegisnode s { }"
    );
    assert_eq!(
        AdvancedNetworkManager::generate_dynamic_set_delete_command("s", &none),
        "nft delete element inet aegisnode s { }"
    );
    let one = vec!["10.0.0.1".to_string()];
    assert_eq!(
        AdvancedNetworkManager::generate_dynamic_set_add_command("s", &one),
        "nft add element inet aegisnode s { 10.0.0.1 }"
    );
}

#[test]
fn vrf_table_bounds() {
    let mk = |t: u32| VrfProfile { vrf_name: "v".to_string(), table_id: t, interfaces: vec![] };
    assert!(AdvancedNetworkManager::validate_vrf_profile(&mk(1)).is_ok());
    assert!(AdvancedNetworkManager::validate_vrf_profile(&mk(65535)).is_ok());
    assert!(AdvancedNetworkManager::validate_vrf_profile(&mk(65536)).is_err());
}
