use node_config::display::{reverse_proxy_display_name, vless_outbound_tag_from_name};
use node_config::links::{
    build_access_link, vless_access_link_input, AccessLink, VlessLinkInput,
    build_hysteria2_access_link, build_naiveproxy_access_link, build_trusttunnel_access_link,
    normalized_node_host, normalized_public_ip_host, TrustTunnelLink,
};
use node_config::model::{
    AccountInfo, InboundEntryDraft, ProxyNode, ReverseProxyDraft, RoutingRuleDraft,
    WarpRegistration,
};
use node_config::rule_editor::{editor_suggestions, lowered_list_entries, routing_rule_for_save};
use node_config::protocols::{
    normalize_protocol_for_core, security_from, vless_transmission_from, SecurityMode,
};
use node_config::uri::decode_uri_component;
use node_config::warp::{warp_registration_from_draft, warp_registration_to_draft};

fn node(public_ip: &str) -> ProxyNode {
    ProxyNode {
        id: "n".to_string(),
        name: "node".to_string(),
        address: String::new(),
        public_ip: public_ip.to_string(),
        groups: Vec::new(),
        master_key: String::new(),
    }
}

fn user(id: &str, token: &str) -> AccountInfo {
    AccountInfo {
        id: id.to_string(),
        name: "User".to_string(),
        token: token.to_string(),
        groups: Vec::new(),
        allowed_ips: Vec::new(),
        creation_date: 0,
        expiry_date: 0,
    }
}

fn inbound(protocol: &str, port: i32) -> InboundEntryDraft {
    let mut i = InboundEntryDraft::default();
    i.protocol = protocol.to_string();
    i.port = port;
    i
}

#[test]
fn public_host_is_bare() {
    assert_eq!(normalized_public_ip_host(&node(" https://1.2.3.4:8080/path ")).unwrap(), "1.2.3.4");
    assert_eq!(normalized_public_ip_host(&node("[2001:db8::1]")).unwrap(), "2001:db8::1");
    assert_eq!(normalized_public_ip_host(&node("2001:db8::1")).unwrap(), "2001:db8::1");
    assert_eq!(normalized_public_ip_host(&node("host:99999")).unwrap(), "host:99999");
    assert_eq!(
        normalized_public_ip_host(&node("  ")).unwrap_err(),
        "Node public IP address is empty"
    );
    let mut n = node("5.6.7.8");
    n.address = " http://panel.example/x ".to_string();
    assert_eq!(normalized_node_host(&n).unwrap(), "panel.example");
}

#[test]
fn hysteria2_link() {
    let mut i = inbound(" hysteria2 ", 8443);
    i.hysteria2.obfs_type = "salamander".to_string();
    i.hysteria2.obfs_password = "p w".to_string();
    let link = build_hysteria2_access_link(&node("2001:db8::1"), &i, &user("id1", " tok/en "), "My node").unwrap();
    assert_eq!(
        link,
        "hysteria2://tok%2Fen@[2001:db8::1]:8443?sni=2001%3Adb8%3A%3A1&obfs=salamander&obfs-password=p%20w#My%20node"
    );
    let fragment = link.rsplit_once('#').unwrap().1;
    assert_eq!(decode_uri_component(fragment).as_deref(), Some("My node"));
    assert_eq!(
        build_hysteria2_access_link(&node("1.2.3.4"), &inbound("VLESS", 1), &user("a", "b"), "r").unwrap_err(),
        "Selected inbound is not Hysteria2"
    );
    assert_eq!(
        build_hysteria2_access_link(&node("1.2.3.4"), &inbound("HYSTERIA2", 1), &user(" ", " "), "r").unwrap_err(),
        "User token is empty"
    );
}

#[test]
fn naiveproxy_link() {
    let mut i = inbound("NAIVEPROXY", 443);
    i.tls.server_name = " naive.example ".to_string();
    let link = build_naiveproxy_access_link(&node("1.2.3.4"), &i, &user("u1", ""), "n").unwrap();
    assert_eq!(link, "naive+https://u1:u1@1.2.3.4:443?security=tls&sni=naive.example#n");
    assert_eq!(
        build_naiveproxy_access_link(&node("1.2.3.4"), &i, &user(" ", "t"), "n").unwrap_err(),
        "User id is empty"
    );
}

#[test]
fn trusttunnel_links() {
    let mut i = inbound("TRUSTTUNNEL", 443);
    i.trust_tunnel.link_type = " simple ".to_string();
    let link = build_trusttunnel_access_link(&node("1.2.3.4"), &i, &user("u1", "t1"), "name").unwrap();
    assert_eq!(
        link,
        TrustTunnelLink::Uri("tt://u1:t1@1.2.3.4:443?security=tls&sni=1.2.3.4#name".to_string())
    );
    i.trust_tunnel.link_type = String::new();
    i.tls.server_name = "sni.example".to_string();
    match build_trusttunnel_access_link(&node("1.2.3.4"), &i, &user("u1", "t1"), " ").unwrap() {
        TrustTunnelLink::DeepLink(d) => {
            assert_eq!(d.hostname, "1.2.3.4");
            assert_eq!(d.addresses, vec!["1.2.3.4:443".to_string()]);
            assert_eq!(d.username, "u1");
            assert_eq!(d.password, "t1");
            assert_eq!(d.custom_sni.as_deref(), Some("sni.example"));
            assert_eq!(d.name, None);
        }
        other => panic!("unexpected link {:?}", other),
    }
}

#[test]
fn transport_names_are_canonical_and_stable() {
    for (given, expected) in [
        ("tcp", "TCP"),
        (" tcp (raw) ", "TCP"),
        ("grpc", "gRPC"),
        ("WebSocket", "WebSocket"),
        ("mkcp", "mKCP"),
        ("httpupgrade", "HttpUpgrade"),
        ("splithttp", "SplitHTTP"),
        ("http", "HTTP"),
        ("quic", "TCP"),
    ] {
        let once = vless_transmission_from(given);
        assert_eq!(once, expected);
        assert_eq!(vless_transmission_from(&once), once);
    }
}

#[test]
fn security_and_protocol_names() {
    assert_eq!(security_from(" reality "), SecurityMode::Reality);
    assert_eq!(security_from("tls"), SecurityMode::Tls);
    assert_eq!(security_from("none"), SecurityMode::Plain);
    assert_eq!(normalize_protocol_for_core("xray", "naiveproxy"), "VLESS");
    assert_eq!(normalize_protocol_for_core("sing_box", "naiveproxy"), "NAIVEPROXY");
    assert_eq!(normalize_protocol_for_core("TrustTunnel", "vless"), "TRUSTTUNNEL");
    assert_eq!(normalize_protocol_for_core(" ", "vless"), "");
}

#[test]
fn display_names() {
    assert_eq!(vless_outbound_tag_from_name("  "), "VLESS");
    assert_eq!(vless_outbound_tag_from_name(" edge "), "edge");
    let mut rp = ReverseProxyDraft::default();
    assert_eq!(reverse_proxy_display_name(&rp, 2), "VLESS Reverse #3");
    rp.tag = " r1 ".to_string();
    assert_eq!(reverse_proxy_display_name(&rp, 2), "r1");
    assert_eq!(reverse_proxy_display_name(&rp, usize::MAX), "r1");
}

#[test]
fn warp_registration_round_trip() {
    let reg = WarpRegistration {
        id: "id".to_string(),
        token: "tok".to_string(),
        private_key: "priv".to_string(),
        public_key: "pub".to_string(),
        peer_public_key: "peer".to_string(),
        license: "lic".to_string(),
        reserved: vec![1, 2, 255],
        addresses: vec!["172.16.0.2/32".to_string(), "fd01::2/128".to_string()],
        endpoint: "engage.example:2408".to_string(),
    };
    let draft = warp_registration_to_draft(&reg);
    assert_eq!(draft.reserved, "1, 2, 255");
    assert_eq!(draft.addresses, "172.16.0.2/32, fd01::2/128");
    assert_eq!(warp_registration_from_draft(&draft), Some(reg));
}

#[test]
fn saved_rule_is_cleaned_up() {
    let mut rule = RoutingRuleDraft::default();
    rule.enabled = true;
    rule.domain = "x.com".to_string();
    rule.protocol = "TLS, http, tcp, foo, tls\nBitTorrent".to_string();
    rule.user = "bob, alice, eve, bob, ".to_string();
    rule.outbound_tag = "proxy".to_string();
    let options = vec!["alice".to_string(), "bob".to_string()];
    let saved = routing_rule_for_save(&rule, "udp", &options);
    assert_eq!(saved.transport, "udp");
    assert_eq!(saved.protocol, "bittorrent,http,tls");
    assert_eq!(saved.user, "alice, bob");
    assert_eq!(saved.domain, "x.com");
    assert_eq!(saved.outbound_tag, "proxy");
    assert!(saved.enabled);
    let saved = routing_rule_for_save(&rule, "both", &Vec::new());
    assert_eq!(saved.transport, "tcp,udp");
    assert_eq!(saved.user, "");
    assert_eq!(routing_rule_for_save(&rule, "tcp", &options).transport, "tcp");
}

#[test]
fn editor_suggestions_filter_and_sort() {
    let options: Vec<String> = [" beta ", "Alpha", "gamma", "Alpha", "", "delta"]
        .iter()
        .map(|s| s.to_string())
        .collect();
    let selected = vec!["gamma".to_string()];
    assert_eq!(editor_suggestions(&options, &selected, ""), vec!["Alpha", "beta", "delta"]);
    assert_eq!(editor_suggestions(&options, &selected, " A"), vec!["Alpha", "beta", "delta"]);
    assert_eq!(editor_suggestions(&options, &selected, "ET"), vec!["beta"]);
    assert!(editor_suggestions(&options, &selected, "zz").is_empty());
    assert_eq!(lowered_list_entries(" TLS, ,Http\n"), vec!["tls", "http"]);
}

#[test]
fn access_links_by_protocol() {
    let n = node("203.0.113.7");
    let u = user(" a1 ", " tok ");
    let v = vless_access_link_input(&n, &u, "My Node").unwrap();
    assert_eq!(
        v,
        VlessLinkInput {
            host: "203.0.113.7".to_string(),
            user: "tok".to_string(),
            label_fragment: "My%20Node".to_string(),
        }
    );
    assert_eq!(build_access_link(&n, &inbound(" vless ", 443), &u, "My Node"), Ok(AccessLink::Vless(v)));
    let no_token = user(" ", " ");
    assert_eq!(vless_access_link_input(&n, &no_token, "x"), Err("User token is empty".to_string()));
    assert_eq!(
        vless_access_link_input(&node(" "), &u, "x"),
        Err("Node public IP address is empty".to_string())
    );
    let h = inbound("HYSTERIA2", 8443);
    assert_eq!(
        build_access_link(&n, &h, &u, "r"),
        build_hysteria2_access_link(&n, &h, &u, "r").map(AccessLink::Text)
    );
    assert_eq!(
        build_access_link(&n, &inbound("SOCKS5", 1080), &u, "r"),
        Err("Access link is available only for VLESS, Hysteria2, TrustTunnel, and NaiveProxy inbounds".to_string())
    );
}
