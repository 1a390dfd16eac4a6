use dns_adblock::frontend::{asset_not_found, choose_asset, content_type_for, AssetChoice};
use dns_adblock::config::IpAddress;
use dns_adblock::network::{
    adapter_servers, dns_script, doh_endpoint, doh_request_bytes, external_dns_filters,
    frame_length, frame_message, override_commands, is_selected_adapter, secondary_address, servers_ps, Adapter,
    CrlPem, DohQuery, FilterAction, FilterCondition, FilterLayer, FirewallError, Protocol,
};

fn strings(v: &[&str]) -> Vec<String> {
    v.iter().map(|s| s.to_string()).collect()
}

#[test]
fn local_resolver_goes_first_and_secondary_last() {
    let r = adapter_servers("127.0.0.1", "8.8.8.8", &strings(&["1.1.1.1", "127.0.0.1", "9.9.9.9"]));
    assert_eq!(r, strings(&["127.0.0.1", "1.1.1.1", "9.9.9.9", "8.8.8.8"]));
    let r2 = adapter_servers("127.0.0.1", "1.1.1.1", &strings(&["1.1.1.1"]));
    assert_eq!(r2, strings(&["127.0.0.1", "1.1.1.1"]));
    let r3 = adapter_servers("127.0.0.1", "127.0.0.1", &vec![]);
    assert_eq!(r3, strings(&["127.0.0.1"]));
}

#[test]
fn secondary_defaults_to_google() {
    assert_eq!(secondary_address(&None), "8.8.8.8");
    assert_eq!(secondary_address(&Some("9.9.9.9".to_string())), "9.9.9.9");
}

#[test]
fn powershell_command() {
    let servers = strings(&["127.0.0.1", "8.8.8.8"]);
    assert_eq!(servers_ps(&servers), "\"127.0.0.1\",\"8.8.8.8\"");
    assert_eq!(servers_ps(&vec![]), "");
    assert_eq!(
        dns_script("Wi-Fi", &servers),
        "Set-DnsClientServerAddress -InterfaceAlias 'Wi-Fi' -ServerAddresses (\"127.0.0.1\",\"8.8.8.8\")"
    );
    let cmds = override_commands(
        "127.0.0.1",
        &None,
        &vec![
            Adapter { name: "Ethernet".to_string(), up: true, if_type: 6, dns_servers: strings(&["192.168.1.1"]) },
            Adapter { name: "Loopback".to_string(), up: true, if_type: 24, dns_servers: vec![] },
            Adapter { name: "VPN".to_string(), up: true, if_type: 131, dns_servers: vec![] },
            Adapter { name: "Wi-Fi".to_string(), up: false, if_type: 71, dns_servers: vec![] },
        ],
    );
    assert_eq!(
        cmds,
        vec![
            "Set-DnsClientServerAddress -InterfaceAlias 'Ethernet' -ServerAddresses (\"127.0.0.1\",\"192.168.1.1\",\"8.8.8.8\")"
                .to_string()
        ]
    );
}

#[test]
fn doh_endpoints() {
    assert_eq!(doh_endpoint(&None, true), None);
    assert_eq!(doh_endpoint(&Some("abc".to_string()), true), None);
    assert_eq!(doh_endpoint(&None, false), Some("https://127.0.0.1:443/dns-query".to_string()));
    assert_eq!(
        doh_endpoint(&Some("abc12345".to_string()), false),
        Some("https://127.0.0.1:443/dns-query/abc12345".to_string())
    );
}

#[test]
fn firewall_filters_for_ipv4_resolver() {
    let v = external_dns_filters(IpAddress::V4(0x7f000001)).unwrap();
    assert_eq!(v.len(), 3);
    assert_eq!(v[0].name, "Allow local DNS resolver");
    assert_eq!(v[0].action, FilterAction::Permit);
    assert_eq!(v[0].condition, FilterCondition::RemoteAddrV4(0x7f000001));
    assert_eq!(v[0].weight, 15);
    assert_eq!(v[1].condition, FilterCondition::RemotePort(53));
    assert_eq!(v[1].layer, FilterLayer::ConnectV4);
    assert_eq!(v[2].layer, FilterLayer::ConnectV6);
    assert_eq!(v[2].action, FilterAction::Block);
    assert!(matches!(external_dns_filters(IpAddress::V6(1)), Err(FirewallError::Ipv6Resolver)));
    assert_ne!(Protocol::UDP, Protocol::TCP);
}

#[test]
fn dot_framing_round_trip() {
    assert_eq!(frame_length([0x01, 0x02]), 258);
    let framed = frame_message(&vec![9u8; 300]);
    assert_eq!(framed.len(), 302);
    assert_eq!(frame_length([framed[0], framed[1]]), 300);
    assert_eq!(&framed[2..], &vec![9u8; 300][..]);
    assert_eq!(frame_message(&vec![]), vec![0, 0]);
}

#[test]
fn doh_get_parameter_decodes() {
    let q = DohQuery { dns: "AAEC-v8".to_string() };
    assert_eq!(doh_request_bytes(&q), Some(vec![0, 1, 2, 250, 255]));
    assert_eq!(doh_request_bytes(&DohQuery { dns: "***".to_string() }), None);
}

#[test]
fn crl_body_is_the_bytes() {
    assert_eq!(CrlPem(vec![1, 2, 3]).body(), vec![1, 2, 3]);
}

#[test]
fn dashboard_assets() {
    assert_eq!(choose_asset("app.js", true), AssetChoice::File);
    assert_eq!(choose_asset("app.js", false), AssetChoice::NotFound);
    assert_eq!(choose_asset("settings", false), AssetChoice::Index);
    assert_eq!(asset_not_found("x.png"), "asset x.png not found");
    assert_eq!(content_type_for("style.css"), Some("text/css".to_string()));
    assert_eq!(content_type_for("settings"), Some("text/html".to_string()));
}

#[test]
fn only_live_physical_adapters_are_selected() {
    assert!(is_selected_adapter(true, 6));
    assert!(is_selected_adapter(true, 71));
    assert!(!is_selected_adapter(false, 6));
    assert!(!is_selected_adapter(true, 24));
    assert!(!is_selected_adapter(true, 131));
}

#[test]
fn overriding_twice_gives_the_same_servers() {
    let once = adapter_servers("127.0.0.1", "8.8.8.8", &strings(&["192.168.1.1", "127.0.0.1"]));
    assert_eq!(once, strings(&["127.0.0.1", "192.168.1.1", "8.8.8.8"]));
    let twice = adapter_servers("127.0.0.1", "8.8.8.8", &once);
    assert_eq!(twice, once);
    let same = adapter_servers("127.0.0.1", "127.0.0.1", &strings(&["10.0.0.1"]));
    assert_eq!(adapter_servers("127.0.0.1", "127.0.0.1", &same), same);
}
