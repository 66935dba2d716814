use node_config::acme::{
    acme_challenge_port, acme_failure_response, acme_issue_request, acme_log_text, acme_logs_popup,
    acme_pending_response, acme_status_line, apply_acme_result,
};
use node_config::config_build::build_full_config;
use node_config::drafts::{
    default_builtin_outbound, default_certificate_draft, default_inbound_entry,
    default_shadowsocks_outbound, default_vless_outbound, default_warp_outbound,
};
use node_config::entry_editors::{
    add_wireguard_peer, certificate_options, edit_wireguard_peer, generate_reality_short_ids_batch,
    remove_wireguard_peer, select_inbound_core, select_inbound_protocol, select_outbound_type,
    warp_outbound_from_registration, with_added_short_ids, PeerField, inbound_next_disabled,
};
use node_config::listing::{
    account_delete_message, account_groups_label, allowed_ips_label, inbound_to_edit,
    outbound_origin_label, outbound_removable, outbound_target_label, outbound_toggle_allowed,
    proxy_source_label,
};
use node_config::model::{
    AccountInfo, CertificateDraft, NodeConfigDraft, NodeConfigRevision, ProxyNode,
    WarpRegistration, WireGuardPeerItem,
};
use node_config::node_page::{
    config_for_deploy, config_tab_for_key, deploy_message, nav_items, nav_key, persist_revision,
    ConfigTab, ConfigUpdateResponse,
};

fn strings(v: &[&str]) -> Vec<String> {
    v.iter().map(|s| s.to_string()).collect()
}

fn node() -> ProxyNode {
    ProxyNode {
        id: "n1".to_string(),
        name: "node".to_string(),
        address: "node.example".to_string(),
        public_ip: "203.0.113.7".to_string(),
        groups: strings(&["g1"]),
        master_key: "node-key".to_string(),
    }
}

fn account(id: &str) -> AccountInfo {
    AccountInfo {
        id: id.to_string(),
        name: format!("name-{}", id),
        token: format!("token-{}", id),
        groups: strings(&["g1", "g2"]),
        allowed_ips: Vec::new(),
        creation_date: 1,
        expiry_date: 0,
    }
}

#[test]
fn acme_requests_use_the_challenge_port() {
    let mut c = default_certificate_draft();
    c.acme_email = "ops@example.com".to_string();
    c.acme_domain = "a.example".to_string();
    c.acme_port = 443;
    c.acme_http_port = 8080;
    c.acme_type = "http".to_string();
    assert_eq!(acme_challenge_port(&c), 8080);
    c.acme_type = "TLS-ALPN".to_string();
    assert_eq!(acme_challenge_port(&c), 443);
    c.certificate_path = "/c.crt".to_string();
    let r = acme_issue_request(&c, "key");
    assert_eq!(r.master_key, "key");
    assert_eq!(r.email, "ops@example.com");
    assert_eq!(r.domain, "a.example");
    assert_eq!(r.challenge_type, "TLS-ALPN");
    assert_eq!(r.ca, "letsencrypt");
    assert_eq!(r.port, 443);
    assert_eq!(r.certificate_path, "/c.crt");
    assert_eq!(r.key_path, "");
}

#[test]
fn acme_log_lines() {
    let p = acme_pending_response();
    assert!(!p.success);
    assert_eq!(p.logs, strings(&["Sending ACME request to node..."]));
    let f = acme_failure_response("timeout");
    assert_eq!(f.error, "timeout");
    assert_eq!(f.logs, strings(&["Sending ACME request to node...", "Request failed: timeout"]));
    assert_eq!(f.expiry_time, 0);
}

#[test]
fn an_issued_certificate_takes_the_certmagic_files() {
    let mut d = NodeConfigDraft::default();
    let mut c = default_certificate_draft();
    c.id = "c1".to_string();
    c.acme_domain = "a.example".to_string();
    c.expiry_time = 5;
    let mut other = CertificateDraft::default();
    other.id = "c2".to_string();
    d.certificates = vec![c, other.clone()];
    apply_acme_result(&mut d, "c1", 0);
    let got = &d.certificates[0];
    assert_eq!(
        got.certificate_path,
        "data/acme_storage/certificates/acme-v02.api.letsencrypt.org-directory/a.example/a.example.crt"
    );
    assert_eq!(
        got.key_path,
        "data/acme_storage/certificates/acme-v02.api.letsencrypt.org-directory/a.example/a.example.key"
    );
    assert_eq!(got.expiry_time, 5);
    apply_acme_result(&mut d, "c1", 1_900_000_000);
    assert_eq!(d.certificates[0].expiry_time, 1_900_000_000);
    assert_eq!(d.certificates[1], other);
    let before = d.clone();
    apply_acme_result(&mut d, "missing", 7);
    assert_eq!(d, before);
}

#[test]
fn choosing_a_core_keeps_a_protocol_it_runs() {
    let mut i = default_inbound_entry();
    i.core_type = "XRAY".to_string();
    i.protocol = "VLESS".to_string();
    select_inbound_core(&mut i, "SING_BOX");
    assert_eq!(i.core_type, "SING_BOX");
    assert_eq!(i.protocol, "VLESS");
    select_inbound_core(&mut i, "");
    assert_eq!(i.core_type, "");
    assert_eq!(i.protocol, "");
    select_inbound_core(&mut i, "TRUSTTUNNEL");
    assert_eq!(i.protocol, "TRUSTTUNNEL");
}

#[test]
fn choosing_wireguard_moves_the_inbound_to_xray() {
    let mut i = default_inbound_entry();
    i.core_type = "XRAY".to_string();
    select_inbound_protocol(&mut i, "WIREGUARD");
    assert_eq!(i.core_type, "XRAY");
    assert_eq!(i.protocol, "WIREGUARD");
    select_inbound_protocol(&mut i, "hysteria2");
    assert_eq!(i.core_type, "XRAY");
    assert_eq!(i.protocol, "HYSTERIA2");
    // sing-box does not run WireGuard: the protocol is first taken as sing-box
    // takes it, then the core moves to Xray
    let mut j = default_inbound_entry();
    j.core_type = "SING_BOX".to_string();
    select_inbound_protocol(&mut j, "WIREGUARD");
    assert_eq!(j.core_type, "XRAY");
    assert_eq!(j.protocol, "VLESS");
}

#[test]
fn certificate_choices_of_the_inbound_editor() {
    let none = certificate_options(&Vec::new());
    assert_eq!(none.len(), 1);
    assert_eq!(none[0].value, "");
    assert_eq!(none[0].label, "No certificates yet");
    let mut a = default_certificate_draft();
    a.name = " edge ".to_string();
    let mut b = CertificateDraft::default();
    b.cert_type = "FILE".to_string();
    let options = certificate_options(&vec![a, b]);
    assert_eq!(options[0].value, " edge ");
    assert_eq!(options[0].label, "edge (ACME)");
    assert_eq!(options[1].value, "");
    assert_eq!(options[1].label, "Unnamed certificate (FILE)");
}

#[test]
fn generated_short_ids_are_added_after_the_written_ones() {
    assert_eq!(generate_reality_short_ids_batch(0), Some(Vec::new()));
    let batch = generate_reality_short_ids_batch(6).expect("random bytes");
    assert_eq!(batch.len(), 6);
    for id in &batch {
        assert_eq!(id.len(), 16);
        assert!(id.chars().all(|c| c.is_ascii_hexdigit() && !c.is_ascii_uppercase()));
    }
    let added = strings(&["aa", "bb"]);
    assert_eq!(with_added_short_ids(" 01, 02\n03 ", &added), "01,02,03,aa,bb");
    assert_eq!(with_added_short_ids("", &added), "aa,bb");
}

#[test]
fn outbound_kind_and_peers_in_the_editor() {
    let mut o = default_vless_outbound();
    o.name = " ".to_string();
    select_outbound_type(&mut o, "SOCKS5");
    assert_eq!(o.outbound_type, "SOCKS5");
    assert_eq!(o.name, "SOCKS5");
    select_outbound_type(&mut o, "VLESS");
    assert_eq!(o.name, "SOCKS5");

    let mut w = default_warp_outbound();
    add_wireguard_peer(&mut w);
    add_wireguard_peer(&mut w);
    assert_eq!(w.wireguard.peers.len(), 2);
    edit_wireguard_peer(&mut w, 1, PeerField::Endpoint, "e:1".to_string());
    edit_wireguard_peer(&mut w, 1, PeerField::PublicKey, "PK".to_string());
    edit_wireguard_peer(&mut w, 0, PeerField::AllowedIps, "0.0.0.0/0".to_string());
    edit_wireguard_peer(&mut w, 5, PeerField::AllowedIps, "x".to_string());
    assert_eq!(
        w.wireguard.peers[1],
        WireGuardPeerItem { public_key: "PK".to_string(), endpoint: "e:1".to_string(), allowed_ips: String::new() }
    );
    assert_eq!(w.wireguard.peers[0].allowed_ips, "0.0.0.0/0");
    remove_wireguard_peer(&mut w, 0);
    assert_eq!(w.wireguard.peers.len(), 1);
    assert_eq!(w.wireguard.peers[0].endpoint, "e:1");
    remove_wireguard_peer(&mut w, 3);
    assert_eq!(w.wireguard.peers.len(), 1);
}

#[test]
fn a_warp_registration_becomes_a_wireguard_outbound() {
    let reg = WarpRegistration {
        id: "dev".to_string(),
        token: "tok".to_string(),
        private_key: "priv".to_string(),
        public_key: "pub".to_string(),
        peer_public_key: "peer".to_string(),
        license: "lic".to_string(),
        reserved: vec![0, 7, 200],
        addresses: strings(&["172.16.0.2/32", "fd01::2/128"]),
        endpoint: "engage.cloudflareclient.com:2408".to_string(),
    };
    let o = warp_outbound_from_registration(&reg);
    assert_eq!(o.name, "WARP");
    assert_eq!(o.outbound_type, "WIREGUARD");
    assert_eq!(o.wireguard.tag, "warp");
    assert_eq!(o.wireguard.mtu, 1420);
    assert_eq!(o.wireguard.private_key, "priv");
    assert_eq!(o.wireguard.warp_id, "dev");
    assert_eq!(o.wireguard.warp_token, "tok");
    assert_eq!(o.wireguard.reserved, "0, 7, 200");
    assert_eq!(o.wireguard.addresses, "172.16.0.2/32, fd01::2/128");
    assert_eq!(
        o.wireguard.peers,
        vec![WireGuardPeerItem {
            public_key: "peer".to_string(),
            endpoint: "engage.cloudflareclient.com:2408".to_string(),
            allowed_ips: "0.0.0.0/0, ::/0".to_string(),
        }]
    );
}

#[test]
fn outbound_rows_show_their_target() {
    let direct = default_builtin_outbound("direct", "DIRECT");
    assert_eq!(outbound_target_label(&direct), "direct");
    assert_eq!(outbound_origin_label(&direct), "Built-in outbound");
    assert!(!outbound_removable(&direct));
    assert!(outbound_toggle_allowed(&direct));
    let block = default_builtin_outbound("block", "BLOCK");
    assert!(!outbound_toggle_allowed(&block));

    let mut v = default_vless_outbound();
    assert_eq!(outbound_target_label(&v), "VLESS");
    v.vless.server = " s.example ".to_string();
    v.vless.port = 443;
    assert_eq!(outbound_target_label(&v), "s.example:443");
    assert_eq!(outbound_origin_label(&v), "Custom outbound");
    assert!(outbound_removable(&v));

    let mut w = default_warp_outbound();
    assert_eq!(outbound_target_label(&w), "");
    w.wireguard.peers = vec![WireGuardPeerItem {
        public_key: String::new(),
        endpoint: "e:2408".to_string(),
        allowed_ips: String::new(),
    }];
    assert_eq!(outbound_target_label(&w), "e:2408");

    let mut s = default_shadowsocks_outbound();
    s.shadowsocks.server = "ss.example".to_string();
    assert_eq!(outbound_target_label(&s), "ss.example:8388");
    let mut socks = default_vless_outbound();
    socks.outbound_type = "socks5".to_string();
    socks.socks5.server = "p.example".to_string();
    socks.socks5.port = -1;
    assert_eq!(outbound_target_label(&socks), "p.example:-1");
}

#[test]
fn account_rows_show_groups_and_addresses() {
    let mut a = account("a1");
    assert_eq!(allowed_ips_label(&a), "Any");
    a.allowed_ips = strings(&["10.0.0.0/8", "1.1.1.1/32"]);
    assert_eq!(allowed_ips_label(&a), "2");
    assert_eq!(account_groups_label(&a), "g1, g2");
    assert_eq!(account_delete_message(&a), "Delete account \"name-a1\"?");
}

#[test]
fn proxy_sources_name_node_and_inbound() {
    assert_eq!(proxy_source_label(" node ", " main ", ""), "node | main");
    assert_eq!(proxy_source_label("node", "", "\u{1F1E9}\u{1F1EA}"), "\u{1F1E9}\u{1F1EA} node");
    assert_eq!(proxy_source_label(" ", "", "x"), "-");
}

#[test]
fn the_edit_button_opens_the_synced_inbound() {
    let mut d = NodeConfigDraft::default();
    let mut a = default_inbound_entry();
    a.id = "in-a".to_string();
    a.name = String::new();
    a.port = 0;
    d.inbounds = vec![a];
    let e = inbound_to_edit(&d, "in-a").unwrap();
    assert_eq!(e.name, "inbound-1");
    assert_eq!(e.port, 443);
    assert!(inbound_to_edit(&d, "other").is_none());
}

#[test]
fn navigation_keys_select_their_tabs() {
    for tab in [ConfigTab::Inbounds, ConfigTab::Outbounds, ConfigTab::Routing, ConfigTab::Settings, ConfigTab::Status] {
        assert_eq!(config_tab_for_key(nav_key(tab)), tab);
        assert!(nav_items().iter().any(|item| item.value == nav_key(tab)));
    }
    assert_eq!(config_tab_for_key("unknown"), ConfigTab::Inbounds);
    let items = nav_items();
    let values: Vec<&str> = items.iter().map(|i| i.value.as_str()).collect();
    assert_eq!(values, vec!["status", "inbounds", "outbounds", "routing", "settings"]);
    assert_eq!(items[3].label, "Routing");
    assert_eq!(items[3].icon_name, "icon-call-split");
}

#[test]
fn a_persisted_revision_becomes_active() {
    let mut config = NodeConfigDraft::default();
    let mut revisions: Vec<NodeConfigRevision> = Vec::new();
    let mut active = String::new();
    let mut draft = NodeConfigDraft::default();
    draft.inbounds = vec![default_inbound_entry()];
    let id = persist_revision(&mut config, &mut revisions, &mut active, &draft, &"node-key".to_string(), "2024-06-01");
    assert_eq!(revisions.len(), 1);
    assert_eq!(revisions[0].id, id);
    assert_eq!(active, id);
    assert_eq!(revisions[0].created_at, "2024-06-01");
    assert_eq!(revisions[0].config.master_key, "node-key");
    assert_eq!(config, revisions[0].config);
    assert_eq!(config.outbounds.len(), 2);
    let second = persist_revision(&mut config, &mut revisions, &mut active, &draft, &"node-key".to_string(), "2024-06-02");
    assert_ne!(second, id);
    assert_eq!(revisions.len(), 2);
    assert_eq!(active, second);
}

#[test]
fn deployment_uses_the_current_key() {
    let mut draft = NodeConfigDraft::default();
    draft.master_key = "stale".to_string();
    draft.inbounds = vec![default_inbound_entry()];
    let accounts = vec![account("a1")];
    let c = config_for_deploy(&draft, Some(&"fresh".to_string()), &node(), &accounts);
    assert_eq!(c.master_key, "fresh");
    assert_eq!(c.accounts.len(), 1);
    let c = config_for_deploy(&draft, None, &node(), &accounts);
    assert_eq!(c.master_key, "stale");
    let mut keyed = draft.clone();
    keyed.master_key = "fresh".to_string();
    let direct = build_full_config(&keyed, &node(), &accounts);
    let via_deploy = config_for_deploy(&draft, Some(&"fresh".to_string()), &node(), &accounts);
    assert_eq!(direct.inbounds.len(), via_deploy.inbounds.len());
    assert_eq!(direct.outbounds, via_deploy.outbounds);
}

#[test]
fn deployment_messages() {
    assert_eq!(deploy_message(&Ok(ConfigUpdateResponse { success: true, error: String::new() })), "Deployed successfully");
    assert_eq!(
        deploy_message(&Ok(ConfigUpdateResponse { success: false, error: "bad key".to_string() })),
        "Deploy failed: bad key"
    );
    assert_eq!(deploy_message(&Err("offline".to_string())), "Deploy failed: offline");
}

#[test]
fn the_acme_log_shows_lines_and_status() {
    assert_eq!(acme_log_text(&Vec::new()), "Waiting for node response...");
    assert_eq!(acme_log_text(&strings(&["a", "b"])), "a\nb");
    assert_eq!(acme_status_line(true, true), "Request in progress...");
    assert_eq!(acme_status_line(false, true), "Certificate request finished successfully.");
    assert_eq!(acme_status_line(false, false), "Certificate request failed.");
}

#[test]
fn the_acme_log_popup_texts() {
    let v = acme_logs_popup(&strings(&["one", "two"]), false, false, "rate limited");
    assert_eq!(v.status, "Certificate request failed.");
    assert_eq!(v.error, Some("rate limited".to_string()));
    assert_eq!(v.log_text, "one\ntwo");
    let w = acme_logs_popup(&Vec::new(), true, false, "");
    assert_eq!(w.status, "Request in progress...");
    assert_eq!(w.error, None);
    assert_eq!(w.log_text, "Waiting for node response...");
}

#[test]
fn the_inbound_wizard_waits_for_a_core_a_protocol_and_a_certificate() {
    let mut i = node_config::drafts::default_inbound_entry();
    i.core_type = "XRAY".to_string();
    i.protocol = " ".to_string();
    assert!(inbound_next_disabled(0, &i));
    i.protocol = "VLESS".to_string();
    assert!(!inbound_next_disabled(0, &i));
    assert!(!inbound_next_disabled(1, &i));
    i.vless.security = "TLS".to_string();
    i.tls.certificate_name = "  ".to_string();
    assert!(inbound_next_disabled(2, &i));
    i.tls.certificate_name = "main".to_string();
    assert!(!inbound_next_disabled(2, &i));
    i.tls.certificate_name = String::new();
    i.vless.security = "REALITY".to_string();
    assert!(!inbound_next_disabled(2, &i));
    i.protocol = "TROJAN".to_string();
    assert!(inbound_next_disabled(2, &i));
    assert!(!inbound_next_disabled(3, &i));
}
