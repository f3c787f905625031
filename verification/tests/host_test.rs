use aegis_firewall::executor_client::{ExecutorClient, EXECD_SOCKET_PATH};
use aegis_firewall::inspectors::{exposure_report, parse_ps_output, DockerInspector, RouterManager};
use aegis_firewall::inventory::{
    collect_full_node_inventory, collect_live_nftables_rules, get_etc_os_release_val,
    interface_info_from, memory_from_meminfo, system_inventory_from, InterfaceFiles, SystemFiles,
};
use aegis_firewall::models::firewall::TransportProtocol;
use aegis_firewall::network_backend::{NetworkBackendDetector, NetworkBackendType, NetworkMarkers};
use aegis_firewall::systemd::{is_protected_unit, validate_unit_name, SystemdManager};
use aegis_firewall::models::fleet::{ServiceOpRequest, ServiceOperation};
use aegis_firewall::errors::AegisError;

const PS_LINE: &str = r#"{"ID":"abc123def4567890","Names":"db","Image":"postgres:16","State":"running","Ports":"0.0.0.0:5432->5432/tcp, :::5432->5432/tcp, 127.0.0.1:8080->80/tcp, 53/udp","Networks":"bridge"}"#;

#[test]
fn docker_ps_published_ports_and_warnings() {
    let out = format!("{}\n\nnot json\n{}\n", PS_LINE, r#"{"ID":"web1","Names":"web","Image":"nginx","Ports":"0.0.0.0:8443->443/UDP"}"#);
    let (containers, warnings) = parse_ps_output(&out);
    assert_eq!(containers.len(), 2);
    let db = &containers[0];
    assert_eq!(db.name, "db");
    assert_eq!(db.networks, vec!["bridge".to_string()]);
    assert_eq!(db.published_ports.len(), 3);
    assert_eq!(db.published_ports[1].host_ip, "::");
    assert_eq!(db.published_ports[2].host_ip, "127.0.0.1");
    assert_eq!(db.published_ports[2].container_port, 80);
    assert_eq!(warnings.len(), 3);
    assert!(warnings[0].is_database);
    assert_eq!(warnings[0].warning_message, "Cơ sở dữ liệu postgres:16 (Port 5432) phơi nhiễm công khai ra ngoài 0.0.0.0 WAN!");
    let web = &containers[1];
    assert_eq!(web.state, "running");
    assert_eq!(web.networks, vec!["bridge".to_string()]);
    assert_eq!(web.published_ports[0].protocol, TransportProtocol::Udp);
    assert!(!warnings[2].is_database);
    assert_eq!(warnings[2].warning_message, "Cổng 8443 của container web đang phơi nhiễm công khai trên 0.0.0.0 WAN.");
}

#[test]
fn docker_report_with_stats() {
    let stats = r#"{"ID":"abc123def456","Name":"other","CPUPerc":"1.50%","MemUsage":"10MiB / 1GiB","MemPerc":"0.98%"}"#;
    let r = exposure_report(true, Some(PS_LINE), Some(stats));
    assert!(r.docker_available);
    assert_eq!(r.containers.len(), 1);
    // Found by the short identifier.
    assert_eq!(r.containers[0].cpu_perc.as_deref(), Some("1.50%"));
    assert_eq!(r.containers[0].mem_usage.as_deref(), Some("10MiB / 1GiB (0.98%)"));
    let none = exposure_report(true, Some(PS_LINE), Some(""));
    assert_eq!(none.containers[0].cpu_perc.as_deref(), Some("0.00%"));
    assert_eq!(none.containers[0].mem_usage.as_deref(), Some("0.00 B / 0.00 B (0.00%)"));
    let off = exposure_report(false, Some(PS_LINE), None);
    assert!(!off.docker_available);
    assert!(off.containers.is_empty());
    let no_stats = exposure_report(true, Some(PS_LINE), None);
    assert_eq!(no_stats.containers[0].cpu_perc, None);
}

#[test]
fn docker_inspector_paths() {
    assert_eq!(DockerInspector::default_prod().socket_path(), "/var/run/docker.sock");
    assert_eq!(DockerInspector::new("/tmp/d.sock").socket_path(), "/tmp/d.sock");
    let snap = RouterManager::snapshot_from(Some("1\n"), None);
    assert_eq!(snap.old_ipv4_forward, "1");
    assert_eq!(snap.old_ipv6_forward, "0");
    assert_eq!(RouterManager::forwarding_value(true), "1");
    assert_eq!(RouterManager::forwarding_value(false), "0");
}

const LISTING: &str = r#"{"nftables":[{"metainfo":{"version":"1.0.9"}},{"table":{"family":"inet","name":"aegis_filter"}},{"rule":{"family":"inet","table":"aegis_filter","chain":"input","handle":4,"comment":"aegis:rule_input_ssh","expr":[{"match":{"op":"==","left":{"payload":{"protocol":"tcp","field":"dport"}},"right":22}},{"counter":{"packets":12,"bytes":3400}},{"accept":null}]}},{"rule":{"chain":"output","handle":7,"expr":[{"counter":{"packets":1,"bytes":2}},{"drop":null}]}},{"rule":{"chain":"input","handle":9,"comment":"aegis:aegis:web","expr":[{"match":{"left":{"payload":{"protocol":"udp","field":"dport"}},"right":{"set":[80,443]}}}]}},{"rule":{"chain":"input","handle":11,"expr":[{"match":{"left":{"payload":{"field":"protocol"}},"right":"icmp"}},{"reject":null}]}}]}"#;

#[test]
fn live_rules_from_nft_json() {
    let p = collect_live_nftables_rules(42, Some(LISTING));
    assert_eq!(p.node_id, 42);
    assert_eq!(p.rules.len(), 4);
    let r0 = &p.rules[0];
    assert_eq!((r0.chain.as_str(), r0.rule_id.as_str(), r0.protocol.as_str()), ("INPUT", "rule_input_ssh", "TCP"));
    assert_eq!((r0.port_spec.as_str(), r0.action.as_str(), r0.packets, r0.bytes), ("22", "ACCEPT", 12, 3400));
    assert_eq!((r0.src_cidr.as_str(), r0.dst_cidr.as_str()), ("0.0.0.0/0", "any"));
    let r1 = &p.rules[1];
    assert_eq!((r1.chain.as_str(), r1.rule_id.as_str(), r1.protocol.as_str()), ("OUTPUT", "rule_output_7", "ANY"));
    assert_eq!((r1.port_spec.as_str(), r1.action.as_str(), r1.packets, r1.bytes), ("any", "DROP", 1, 2));
    let r2 = &p.rules[2];
    assert_eq!((r2.rule_id.as_str(), r2.protocol.as_str(), r2.port_spec.as_str()), ("web", "UDP", "80,443"));
    let r3 = &p.rules[3];
    assert_eq!((r3.rule_id.as_str(), r3.protocol.as_str(), r3.action.as_str()), ("rule_input_11", "ICMP", "REJECT"));
    assert!(collect_live_nftables_rules(1, None).rules.is_empty());
    assert!(collect_live_nftables_rules(1, Some("garbage")).rules.is_empty());
}

#[test]
fn os_release_and_meminfo() {
    let rel = "NAME=\"Ubuntu\"\nVERSION=\"22.04.4 LTS (Jammy Jellyfish)\"\nVERSION_ID=\"22.04\"\nID=ubuntu\n";
    assert_eq!(get_etc_os_release_val(rel, "NAME"), "Ubuntu");
    assert_eq!(get_etc_os_release_val(rel, "VERSION"), "22.04.4 LTS (Jammy Jellyfish)");
    assert_eq!(get_etc_os_release_val(rel, "PRETTY_NAME"), "Unknown");
    assert_eq!(get_etc_os_release_val("", "NAME"), "Unknown");
    let ordered = "VERSION_ID=\"22.04\"\nVERSION=\"22.04.3 LTS\"\n";
    assert_eq!(get_etc_os_release_val(ordered, "VERSION"), "22.04.3 LTS");
    assert_eq!(get_etc_os_release_val(ordered, "VERSION_ID"), "22.04");
    assert_eq!(get_etc_os_release_val(ordered, "VERS"), "Unknown");
    let mem = "MemTotal:       16384000 kB\nMemFree:         2048000 kB\nMemAvailable:    8192000 kB\nBuffers: 1 kB\n";
    assert_eq!(memory_from_meminfo(mem), (16000, 8000));
    assert_eq!(memory_from_meminfo("MemTotal: lots kB\n"), (0, 0));
}

#[test]
fn system_and_interface_inventory() {
    let f = SystemFiles {
        hostname: Some("node-a\n"),
        hostname_env: None,
        os_release: Some("NAME=Debian\nVERSION=\"12 (bookworm)\"\n"),
        proc_version: Some("Linux version 6.1.0 (gcc)\nsecond line\n"),
        cpu_cores: None,
        meminfo: Some("MemTotal: 2048 kB\nMemFree: 1024 kB\n"),
        uptime_seconds: 77,
        machine_id: None,
        product_uuid: None,
        agent_version: "0.1.0",
    };
    let s = system_inventory_from(&f);
    assert_eq!(s.hostname, "node-a");
    assert_eq!(s.os_name, "Debian");
    assert_eq!(s.os_version, "12 (bookworm)");
    assert_eq!(s.kernel_version, "Linux version 6.1.0 (gcc)");
    assert_eq!(s.cpu_cores, 1);
    assert_eq!((s.total_memory_mb, s.free_memory_mb), (2, 1));
    assert_eq!(s.machine_id, "00000000-0000-0000-0000-000000000000");
    let i = interface_info_from(&InterfaceFiles {
        name: "eth0",
        address: Some("aa:bb:cc:dd:ee:ff\n"),
        mtu: Some("9000\n"),
        operstate: None,
        rx_bytes: Some("12"),
        tx_bytes: Some("x"),
    });
    assert_eq!((i.mac_address.as_str(), i.mtu, i.operstate.as_str(), i.rx_bytes, i.tx_bytes), ("aa:bb:cc:dd:ee:ff", 9000, "unknown", 12, 0));
    let p = collect_full_node_inventory(s, vec![i]);
    assert_eq!(p.runtime.rule_count, 5);
    assert_eq!(p.runtime.backend_name, "nftables");
    assert_eq!(p.network_interfaces.len(), 1);
}

#[test]
fn systemd_unit_guard() {
    assert!(validate_unit_name(" sshd.service ").is_ok());
    assert!(validate_unit_name("backup.timer").is_ok());
    assert!(validate_unit_name("").is_err());
    assert!(validate_unit_name("evil;rm.service").is_err());
    assert!(validate_unit_name("a b.service").is_err());
    assert!(validate_unit_name("nginx").is_err());
    assert!(is_protected_unit("SSHD.service"));
    assert!(is_protected_unit(" networkmanager.service "));
    assert!(!is_protected_unit("nginx.service"));
    let m = SystemdManager::new();
    let stop = ServiceOpRequest { unit_name: "sshd.service".to_string(), operation: ServiceOperation::Stop, reason: None };
    assert!(matches!(m.execute_op(&stop), Err(AegisError::Permission(_))));
    let start = ServiceOpRequest { unit_name: "sshd.service".to_string(), operation: ServiceOperation::Restart, reason: None };
    let ok = m.execute_op(&start).unwrap();
    assert_eq!(ok.message, "Successfully executed Restart on unit 'sshd.service'");
    let logs = m.query_journal_logs("nginx.service", 3).unwrap();
    assert_eq!(logs.len(), 3);
    assert_eq!(logs[2].message, "Sample journald log entry #3 for nginx.service");
    assert_eq!(m.query_journal_logs("nginx.service", 10_000).unwrap().len(), 500);
    assert!(m.query_journal_logs("bad", 1).is_err());
    let st = m.get_unit_status("nginx.service").unwrap();
    assert_eq!(st.description, "Systemd service nginx.service");
}

#[test]
fn network_backend_and_executor() {
    let d = NetworkBackendDetector::new();
    let none = NetworkMarkers { nm_pid: false, nmcli: false, networkd_state: false, networkd_config: false };
    let r = d.detect(none);
    assert_eq!(r.backend_type, NetworkBackendType::ReadOnly);
    assert!(!r.is_writable);
    let nd = NetworkMarkers { networkd_config: true, ..none };
    assert_eq!(d.detect(nd).detected_unit, "systemd-networkd.service");
    let nm = NetworkMarkers { nmcli: true, networkd_state: true, ..none };
    assert_eq!(d.detect(nm).backend_type, NetworkBackendType::NetworkManager);
    assert_eq!(ExecutorClient::new(None).socket_path(), EXECD_SOCKET_PATH);
    assert_eq!(ExecutorClient::new(Some("/tmp/x.sock")).socket_path(), "/tmp/x.sock");
}

#[test]
fn docker_stats_short_id_is_twelve_bytes() {
    // Six two-byte characters fill the first 12 bytes of this identifier.
    let ps = r#"{"ID":"éééééé0123456789","Names":"svc","Image":"img","State":"running","Ports":"","Networks":"bridge"}"#;
    let stats = r#"{"ID":"éééééé","Name":"other","CPUPerc":"2.00%","MemUsage":"1MiB / 1GiB","MemPerc":"0.10%"}"#;
    let r = exposure_report(true, Some(ps), Some(stats));
    assert_eq!(r.containers[0].cpu_perc.as_deref(), Some("2.00%"));
    // The first 12 characters would not match.
    let stats12 = r#"{"ID":"éééééé012345","Name":"other","CPUPerc":"3.00%","MemUsage":"1MiB / 1GiB","MemPerc":"0.10%"}"#;
    let r12 = exposure_report(true, Some(ps), Some(stats12));
    assert_eq!(r12.containers[0].cpu_perc.as_deref(), Some("0.00%"));
}
