use node_config::display::{
    account_display_name, default_reverse_proxy_entry, inbound_display_name, option_bool_from_value,
    option_bool_label, option_bool_value,
};
use node_config::dns::{
    default_dns_server_draft, dns_host_summary, dns_server_details, dns_server_summary,
    optional_u32_field, u32_field, u64_field,
};
use node_config::drafts::{
    default_builtin_outbound, default_inbound_entry, default_vless_outbound, default_warp_outbound,
};
use node_config::entry_editors::warp_outbound_from_registration;
use node_config::groups::inbound_groups_label;
use node_config::model::{
    AccountInfo, DnsHostDraft, NodeConfigDraft, ReverseProxyDraft, RoutingRuleDraft,
    WarpRegistration,
};
use node_config::protocols::{
    inbound_creation_steps, inbound_traffic_label, outbound_creation_steps, protocol_options_for_core,
    shadowsocks_method_options, vless_link_type,
};
use node_config::routing::{routing_inbound_options, routing_outbound_options, routing_user_options};
use node_config::sync::{normalized_inbounds, normalized_outbounds, normalized_routing_rules};
use node_config::warp::{initial_warp_registration, warp_registration_from_outbounds};

fn strings(v: &[&str]) -> Vec<String> {
    v.iter().map(|s| s.to_string()).collect()
}

fn account(id: &str, name: &str) -> AccountInfo {
    AccountInfo {
        id: id.to_string(),
        name: name.to_string(),
        token: String::new(),
        groups: Vec::new(),
        allowed_ips: Vec::new(),
        creation_date: 0,
        expiry_date: 0,
    }
}

#[test]
fn display_names_fall_back() {
    assert_eq!(account_display_name(&account(" a1 ", "  ")), "a1");
    assert_eq!(account_display_name(&account("a1", " Alice ")), "Alice");
    let mut i = default_inbound_entry();
    i.name = " ".to_string();
    i.protocol = " hysteria2 ".to_string();
    assert_eq!(inbound_display_name(&i), "HYSTERIA2");
    i.name = " edge ".to_string();
    assert_eq!(inbound_display_name(&i), "edge");
    let r = default_reverse_proxy_entry();
    assert!(r.enabled);
    assert_eq!((r.mode.as_str(), r.tag.as_str()), ("portal", "r-outbound"));
}

#[test]
fn optional_switches_of_dns_servers() {
    assert_eq!(option_bool_value(Some(true)), "true");
    assert_eq!(option_bool_value(Some(false)), "false");
    assert_eq!(option_bool_value(None), "");
    assert_eq!(option_bool_label(Some(true)), "Enabled");
    assert_eq!(option_bool_label(Some(false)), "Disabled");
    assert_eq!(option_bool_label(None), "Inherit");
    assert_eq!(option_bool_from_value(" ON "), Some(true));
    assert_eq!(option_bool_from_value("Disabled"), Some(false));
    assert_eq!(option_bool_from_value("inherit"), None);
    for v in [Some(true), Some(false), None] {
        assert_eq!(option_bool_from_value(&option_bool_value(v)), v);
    }
}

#[test]
fn dns_rows_summarise_servers_and_hosts() {
    let mut s = default_dns_server_draft();
    assert_eq!((s.port, s.timeout_ms), (53, 5000));
    assert_eq!(dns_server_summary(&s), "Port 53");
    s.client_ip = " 1.2.3.4 ".to_string();
    s.query_strategy = "UseIPv4".to_string();
    assert_eq!(dns_server_summary(&s), "Port 53 · Client 1.2.3.4 · UseIPv4");
    assert_eq!(dns_server_details(&s), "-");
    s.domains = "a.com\nb.com".to_string();
    s.expect_ips = "1.1.1.1".to_string();
    s.unexpected_ips = "10.0.0.0/8\n::1".to_string();
    assert_eq!(
        dns_server_details(&s),
        "Domains: a.com, b.com · Expect: 1.1.1.1 · Unexpected: 10.0.0.0/8, ::1"
    );
    let h = DnsHostDraft { domain: "x".to_string(), values: "1.1.1.1, ,2.2.2.2\n".to_string() };
    assert_eq!(dns_host_summary(&h), "1.1.1.1, 2.2.2.2");
    let empty = DnsHostDraft { domain: "x".to_string(), values: " , ".to_string() };
    assert_eq!(dns_host_summary(&empty), "-");
}

#[test]
fn editor_steps_per_protocol() {
    let mut i = default_inbound_entry();
    i.protocol = "VLESS".to_string();
    i.vless.security = "REALITY".to_string();
    assert_eq!(inbound_creation_steps(&i), 4);
    i.vless.security = "NONE".to_string();
    assert_eq!(inbound_creation_steps(&i), 3);
    i.protocol = "HYSTERIA2".to_string();
    assert_eq!(inbound_creation_steps(&i), 4);
    i.protocol = "hysteria2".to_string();
    assert_eq!(inbound_creation_steps(&i), 3);
    assert_eq!(outbound_creation_steps(&default_vless_outbound()), 3);
    assert_eq!(outbound_creation_steps(&default_warp_outbound()), 3);
}

#[test]
fn traffic_labels_of_inbounds() {
    let mut i = default_inbound_entry();
    i.protocol = "vless".to_string();
    i.vless.transmission = "websocket".to_string();
    i.vless.security = "tls".to_string();
    assert_eq!(inbound_traffic_label(&i), "WEBSOCKET TLS");
    i.vless.security = "none".to_string();
    i.vless.transmission = "odd".to_string();
    assert_eq!(inbound_traffic_label(&i), "TCP");
    i.protocol = "HYSTERIA2".to_string();
    assert_eq!(inbound_traffic_label(&i), "QUIC");
    i.protocol = "NAIVEPROXY".to_string();
    i.naive_proxy.network = String::new();
    assert_eq!(inbound_traffic_label(&i), "TCP+UDP");
    i.protocol = "TUNNEL".to_string();
    i.tunnel.allowed_network = "tcp,udp".to_string();
    assert_eq!(inbound_traffic_label(&i), "TCP+UDP");
    i.protocol = "TROJAN".to_string();
    assert_eq!(inbound_traffic_label(&i), "TCP");
}

#[test]
fn protocol_and_method_menus() {
    let xray = protocol_options_for_core(" xray ");
    assert_eq!(xray.len(), 8);
    assert_eq!((xray[0].value.as_str(), xray[0].label.as_str()), ("VLESS", "VLESS"));
    assert_eq!((xray[2].value.as_str(), xray[2].label.as_str()), ("WIREGUARD", "WireGuard"));
    assert_eq!(xray[5].label, "TProxy");
    let sing = protocol_options_for_core("SING_BOX");
    assert_eq!(sing.iter().map(|o| o.value.as_str()).collect::<Vec<_>>(), vec!["VLESS", "HYSTERIA2", "NAIVEPROXY", "SOCKS5", "SHADOWSOCKS", "TROJAN"]);
    assert!(protocol_options_for_core("").is_empty());
    let methods = shadowsocks_method_options();
    assert_eq!(methods.len(), 8);
    assert_eq!(methods[0].value, "2022-blake3-aes-128-gcm");
    assert_eq!(methods[7].label, "none (or plain)");
    assert_eq!(vless_link_type(" WebSocket "), "ws");
    assert_eq!(vless_link_type("grpc"), "grpc");
    assert_eq!(vless_link_type("tcp (raw)"), "tcp");
}

#[test]
fn inbound_groups_are_labelled() {
    let mut i = default_inbound_entry();
    assert_eq!(inbound_groups_label(&i), "Inherits node groups");
    i.groups = strings(&[" b", "a", "b", ""]);
    assert_eq!(inbound_groups_label(&i), "b, a");
}

#[test]
fn routing_choices() {
    let mut d = NodeConfigDraft::default();
    let mut a = default_inbound_entry();
    a.name = " zeta ".to_string();
    let mut b = default_inbound_entry();
    b.name = "alpha".to_string();
    let mut c = default_inbound_entry();
    c.name = "zeta".to_string();
    d.inbounds = vec![a, b, c];
    assert_eq!(routing_inbound_options(&d), strings(&["alpha", "zeta"]));

    let mut v = default_vless_outbound();
    v.vless.tag = "proxy".to_string();
    let mut v2 = default_vless_outbound();
    v2.vless.tag = "proxy".to_string();
    d.outbounds = vec![default_builtin_outbound("direct", "DIRECT"), v, v2];
    let mut r = ReverseProxyDraft::default();
    r.tag = " rp ".to_string();
    let mut blank = ReverseProxyDraft::default();
    blank.tag = " ".to_string();
    d.reverse_proxies = vec![blank, r];
    let options = routing_outbound_options(&d);
    let pairs: Vec<(&str, &str)> = options.iter().map(|o| (o.value.as_str(), o.label.as_str())).collect();
    assert_eq!(pairs, vec![("direct", "direct (DIRECT)"), ("proxy", "proxy (VLESS)"), ("rp", "rp (VLESS Reverse)")]);

    let users = routing_user_options(&[account("b", "Bob"), account("a", ""), account("c", "c"), account("a", "Alice"), account(" ", "x")]);
    let pairs: Vec<(&str, &str)> = users.iter().map(|o| (o.value.as_str(), o.label.as_str())).collect();
    assert_eq!(pairs, vec![("a", "a"), ("b", "b (Bob)"), ("c", "c")]);
}

#[test]
fn normalised_parts_of_a_draft_leave_the_draft_alone() {
    let mut d = NodeConfigDraft::default();
    let mut rp = default_inbound_entry();
    rp.protocol = "ReverseProxy".to_string();
    let mut i = default_inbound_entry();
    i.name = String::new();
    d.inbounds = vec![rp, i];
    d.routing_rules = vec![RoutingRuleDraft::default()];
    let before = d.clone();
    let ins = normalized_inbounds(&d);
    assert_eq!(ins.len(), 1);
    assert_eq!(ins[0].name, "inbound-1");
    let outs = normalized_outbounds(&d);
    assert_eq!(outs.iter().map(|o| o.name.as_str()).collect::<Vec<_>>(), vec!["direct", "block"]);
    let rules = normalized_routing_rules(&d);
    assert_eq!(rules[0].outbound_tag, "direct");
    assert_eq!(d, before);
}

#[test]
fn a_warp_outbound_gives_its_registration_back() {
    let reg = WarpRegistration {
        id: "dev".to_string(),
        token: "tok".to_string(),
        private_key: "priv".to_string(),
        public_key: "pub".to_string(),
        peer_public_key: "peer".to_string(),
        license: "lic".to_string(),
        reserved: vec![1, 2, 3],
        addresses: strings(&["172.16.0.2/32"]),
        endpoint: "e:2408".to_string(),
    };
    let o = warp_outbound_from_registration(&reg);
    let back = warp_registration_from_outbounds(&[default_builtin_outbound("direct", "DIRECT"), o.clone()]).unwrap();
    assert_eq!(back.id, reg.id);
    assert_eq!(back.token, reg.token);
    assert_eq!(back.private_key, reg.private_key);
    assert_eq!(back.peer_public_key, reg.peer_public_key);
    assert_eq!(back.endpoint, reg.endpoint);
    assert_eq!(back.reserved, reg.reserved);
    assert_eq!(back.addresses, reg.addresses);
    assert_eq!(back.public_key, "");
    assert_eq!(back.license, "");

    let mut d = NodeConfigDraft::default();
    d.outbounds = vec![o];
    assert_eq!(initial_warp_registration(&d), Some(back));
    d.warp_registration.id = "from-settings".to_string();
    assert_eq!(initial_warp_registration(&d).unwrap().id, "from-settings");
}

#[test]
fn number_fields_read_as_rust_parses() {
    assert_eq!(u32_field("53"), 53);
    assert_eq!(u32_field("+7"), 7);
    assert_eq!(u32_field(" 53"), 0);
    assert_eq!(u32_field(""), 0);
    assert_eq!(u32_field("4294967295"), u32::MAX);
    assert_eq!(u32_field("4294967296"), 0);
    assert_eq!(u64_field("18446744073709551615"), u64::MAX);
    assert_eq!(u64_field("18446744073709551616"), 0);
    assert_eq!(u64_field("5000"), 5000);
    assert_eq!(optional_u32_field("30"), Some(30));
    assert_eq!(optional_u32_field(""), None);
    assert_eq!(optional_u32_field("-1"), None);
    for v in ["0", "+12", "007", "x", "1 "] {
        assert_eq!(u32_field(v), v.parse::<u32>().unwrap_or(0));
        assert_eq!(u64_field(v), v.parse::<u64>().unwrap_or(0));
        assert_eq!(optional_u32_field(v), v.parse::<u32>().ok());
    }
}
